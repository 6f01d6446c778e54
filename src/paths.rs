//! Paths as character sequences: the last segment, its stem and extension,
//! joining, and the directory of a path relative to a root.
use vstd::prelude::*;

verus! {

/// Index of the last occurrence of `c` in `s`, or -1.
pub open spec fn last_index_of(s: Seq<char>, c: char) -> int
    decreases s.len(),
{
    if s.len() == 0 {
        -1
    } else if s.last() == c {
        s.len() - 1
    } else {
        last_index_of(s.drop_last(), c)
    }
}

pub proof fn lemma_last_index_bounds(s: Seq<char>, c: char)
    ensures
        -1 <= last_index_of(s, c) < s.len(),
        last_index_of(s, c) >= 0 ==> s[last_index_of(s, c)] == c,
        forall|j: int| last_index_of(s, c) < j < s.len() ==> s[j] != c,
    decreases s.len(),
{
    if s.len() > 0 && s.last() != c {
        lemma_last_index_bounds(s.drop_last(), c);
        assert forall|j: int| last_index_of(s, c) < j < s.len() implies s[j] != c by {
            if j < s.len() - 1 {
                assert(s[j] == s.drop_last()[j]);
            }
        }
    }
}

/// The last segment of a path: what follows its last `/`.
pub open spec fn file_name_of(p: Seq<char>) -> Seq<char> {
    p.subrange(last_index_of(p, '/') + 1, p.len() as int)
}

/// A file name splits into a stem and an extension when it has a dot
/// after its first character and is not `..`.
pub open spec fn splits_name(name: Seq<char>) -> bool {
    name != seq!['.', '.'] && last_index_of(name, '.') > 0
}

/// The file name up to its last dot.
pub open spec fn stem_of(name: Seq<char>) -> Seq<char> {
    name.subrange(0, last_index_of(name, '.'))
}

/// The file name after its last dot.
pub open spec fn extension_of(name: Seq<char>) -> Seq<char> {
    name.subrange(last_index_of(name, '.') + 1, name.len() as int)
}

/// `base` and `rel` joined by one separator; an absolute `rel` replaces `base`.
pub open spec fn join_spec(base: Seq<char>, rel: Seq<char>) -> Seq<char> {
    if rel.len() > 0 && rel[0] == '/' {
        rel
    } else if base.len() == 0 || base.last() == '/' {
        base + rel
    } else {
        base.push('/') + rel
    }
}

/// The root as a directory prefix: with a trailing separator unless empty.
pub open spec fn dir_prefix(root: Seq<char>) -> Seq<char> {
    if root.len() == 0 || root.last() == '/' {
        root
    } else {
        root.push('/')
    }
}

/// The path lies below the root.
pub open spec fn is_under(p: Seq<char>, root: Seq<char>) -> bool {
    let d = dir_prefix(root);
    d.len() <= p.len() && p.subrange(0, d.len() as int) == d
}

/// The directory of `p` relative to `root`, `.` when `p` sits directly in it.
pub open spec fn relative_dir(p: Seq<char>, root: Seq<char>) -> Seq<char> {
    let rest = p.subrange(dir_prefix(root).len() as int, p.len() as int);
    let k = last_index_of(rest, '/');
    if k <= 0 {
        seq!['.']
    } else {
        rest.subrange(0, k)
    }
}

/// Index of the last `c` in `s`, if any.
pub fn find_last(s: &str, c: char) -> (r: Option<usize>)
    ensures
        r is None <==> last_index_of(s@, c) == -1,
        r matches Some(i) ==> i == last_index_of(s@, c),
{
    let n = s.unicode_len();
    let mut i: usize = n;
    assert(s@.subrange(0, n as int) =~= s@);
    while i > 0
        invariant
            i <= n == s@.len(),
            last_index_of(s@.subrange(0, i as int), c) == last_index_of(s@, c),
        decreases i,
    {
        let ch = s.get_char(i - 1);
        if ch == c {
            return Some(i - 1);
        }
        assert(s@.subrange(0, i as int).drop_last() =~= s@.subrange(0, i - 1));
        i = i - 1;
    }
    None
}

/// The last segment of `p`.
pub fn file_name(p: &str) -> (r: String)
    ensures
        r@ == file_name_of(p@),
{
    proof {
        lemma_last_index_bounds(p@, '/');
    }
    let n = p.unicode_len();
    let start: usize = match find_last(p, '/') {
        Some(i) => i + 1,
        None => 0,
    };
    String::from_str(p.substring_char(start, n))
}

/// Splits a file name into stem and extension, when it has both.
pub fn split_name(name: &str) -> (r: Option<(String, String)>)
    ensures
        r is Some <==> splits_name(name@),
        r matches Some(pair) ==> pair.0@ == stem_of(name@) && pair.1@ == extension_of(name@),
{
    proof {
        lemma_last_index_bounds(name@, '.');
        reveal_strlit("..");
    }
    if name.unicode_len() == 2 && name.get_char(0) == '.' && name.get_char(1) == '.' {
        assert(name@ =~= seq!['.', '.']);
        return None;
    }
    assert(name@ != seq!['.', '.']);
    match find_last(name, '.') {
        Some(i) => {
            if i == 0 {
                None
            } else {
                let stem = String::from_str(name.substring_char(0, i));
                let ext = String::from_str(name.substring_char(i + 1, name.unicode_len()));
                Some((stem, ext))
            }
        },
        None => None,
    }
}

/// `base` joined with `rel`, as `Path::join` does for these two strings.
pub fn join_path(base: &str, rel: &str) -> (r: String)
    ensures
        r@ == join_spec(base@, rel@),
{
    let nr = rel.unicode_len();
    if nr > 0 && rel.get_char(0) == '/' {
        return String::from_str(rel);
    }
    let nb = base.unicode_len();
    let mut out = String::from_str(base);
    if !(nb == 0 || base.get_char(nb - 1) == '/') {
        out.append("/");
        proof {
            reveal_strlit("/");
            assert(out@ =~= base@.push('/'));
        }
    }
    out.append(rel);
    out
}

/// Whether `p` starts with all of `prefix`.
fn starts_with(p: &str, prefix: &str) -> (r: bool)
    ensures
        r == (prefix@.len() <= p@.len() && p@.subrange(0, prefix@.len() as int) == prefix@),
{
    let np = p.unicode_len();
    let nq = prefix.unicode_len();
    if nq > np {
        return false;
    }
    let mut i: usize = 0;
    while i < nq
        invariant
            nq <= np,
            np == p@.len(),
            nq == prefix@.len(),
            i <= nq,
            forall|j: int| 0 <= j < i ==> p@[j] == prefix@[j],
        decreases nq - i,
    {
        if p.get_char(i) != prefix.get_char(i) {
            assert(p@.subrange(0, nq as int)[i as int] != prefix@[i as int]);
            return false;
        }
        i = i + 1;
    }
    assert(p@.subrange(0, nq as int) =~= prefix@);
    true
}

/// Whether the two texts are the same.
pub fn same_text(a: &str, b: &str) -> (r: bool)
    ensures
        r == (a@ == b@),
{
    if a.unicode_len() != b.unicode_len() {
        return false;
    }
    let r = starts_with(a, b);
    assert(a@.subrange(0, b@.len() as int) =~= a@);
    r
}

/// The directory of `p` relative to `root`, or `None` when `p` is not below it.
pub fn relative_directory(p: &str, root: &str) -> (r: Option<String>)
    ensures
        r is Some <==> is_under(p@, root@),
        r matches Some(d) ==> d@ == relative_dir(p@, root@),
{
    let nr = root.unicode_len();
    let mut prefix = String::from_str(root);
    if !(nr == 0 || root.get_char(nr - 1) == '/') {
        prefix.append("/");
        proof {
            reveal_strlit("/");
            assert(prefix@ =~= root@.push('/'));
        }
    }
    if !starts_with(p, prefix.as_str()) {
        return None;
    }
    let np = p.unicode_len();
    let rest = p.substring_char(prefix.unicode_len(), np);
    proof {
        lemma_last_index_bounds(rest@, '/');
    }
    match find_last(rest, '/') {
        Some(k) => {
            if k == 0 {
                proof {
                    reveal_strlit(".");
                }
                Some(String::from_str("."))
            } else {
                Some(String::from_str(rest.substring_char(0, k)))
            }
        },
        None => {
            proof {
                reveal_strlit(".");
            }
            Some(String::from_str("."))
        },
    }
}

} // verus!
