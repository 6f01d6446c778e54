//! Candidate files: inclusion patterns expanded under a root, minus the paths
//! that the exclude patterns expand to.
use vstd::prelude::*;

use crate::error::PairError;
use crate::paths::{join_path, join_spec, same_text};

verus! {

/// The texts of a list of strings.
pub open spec fn strs(v: Seq<String>) -> Seq<Seq<char>> {
    v.map_values(|s: String| s@)
}

/// Whether the glob crate accepts `pattern`.
pub uninterp spec fn glob_accepts(pattern: Seq<char>) -> bool;

/// Relies on `glob::glob`: it refuses a pattern before it reads any
/// directory, and otherwise yields the matching paths, each of which may be
/// unreadable or not valid UTF-8 (`None` here).
#[verifier::external_body]
fn glob_paths(pattern: &str) -> (r: Result<Vec<Option<String>>, String>)
    ensures
        r is Err <==> !glob_accepts(pattern@),
{
    match glob::glob(pattern) {
        Ok(paths) => Ok(paths.map(|e| e.ok().and_then(|p| p.to_str().map(String::from))).collect()),
        Err(e) => Err(e.to_string()),
    }
}

/// Every pattern, joined to the root, is one the glob crate accepts.
pub open spec fn patterns_accepted(root: Seq<char>, patterns: Seq<String>) -> bool {
    forall|i: int| 0 <= i < patterns.len() ==> glob_accepts(join_spec(root, #[trigger] patterns[i]@))
}

/// The readable paths of one glob answer, in order.
pub open spec fn somes(g: Seq<Option<String>>) -> Seq<Seq<char>>
    decreases g.len(),
{
    if g.len() == 0 {
        Seq::empty()
    } else {
        let r = somes(g.drop_last());
        match g.last() {
            Some(s) => r.push(s@),
            None => r,
        }
    }
}

/// The readable paths of several glob answers, one answer after the other.
pub open spec fn found_paths(f: Seq<Vec<Option<String>>>) -> Seq<Seq<char>>
    decreases f.len(),
{
    if f.len() == 0 {
        Seq::empty()
    } else {
        found_paths(f.drop_last()) + somes(f.last()@)
    }
}

/// The first occurrence of each path, in order.
pub open spec fn dedup_spec(s: Seq<Seq<char>>) -> Seq<Seq<char>>
    decreases s.len(),
{
    if s.len() == 0 {
        Seq::empty()
    } else {
        let r = dedup_spec(s.drop_last());
        if r.contains(s.last()) {
            r
        } else {
            r.push(s.last())
        }
    }
}

/// The readable paths of the glob answers, concatenated in order.
pub fn collect_found(found: &Vec<Vec<Option<String>>>) -> (r: Vec<String>)
    ensures
        strs(r@) == found_paths(found@),
{
    let mut out: Vec<String> = Vec::new();
    let mut i: usize = 0;
    assert(found@.subrange(0, 0) =~= Seq::<Vec<Option<String>>>::empty());
    assert(strs(out@) =~= Seq::<Seq<char>>::empty());
    while i < found.len()
        invariant
            i <= found@.len(),
            strs(out@) == found_paths(found@.subrange(0, i as int)),
        decreases found@.len() - i,
    {
        let g = &found[i];
        let ghost base = strs(out@);
        let mut k: usize = 0;
        assert(g@.subrange(0, 0) =~= Seq::<Option<String>>::empty());
        assert(base + somes(g@.subrange(0, 0)) =~= base);
        while k < g.len()
            invariant
                k <= g@.len(),
                g == found@[i as int],
                strs(out@) == base + somes(g@.subrange(0, k as int)),
            decreases g@.len() - k,
        {
            let ghost before = strs(out@);
            assert(g@.subrange(0, k + 1).drop_last() =~= g@.subrange(0, k as int));
            assert(g@.subrange(0, k + 1).last() == g@[k as int]);
            if let Some(p) = &g[k] {
                let ghost prev = out@;
                out.push(p.clone());
                assert(strs(out@) =~= strs(prev).push(p@));
                assert(base + somes(g@.subrange(0, k + 1)) =~= (base + somes(g@.subrange(0, k as int))).push(p@));
            }
            k = k + 1;
        }
        assert(g@.subrange(0, g@.len() as int) =~= g@);
        assert(found@.subrange(0, i + 1).drop_last() =~= found@.subrange(0, i as int));
        assert(found@.subrange(0, i + 1).last() == found@[i as int]);
        i = i + 1;
    }
    assert(found@.subrange(0, found@.len() as int) =~= found@);
    out
}

/// Keeps the first occurrence of each path.
pub fn dedup_paths(v: Vec<String>) -> (r: Vec<String>)
    ensures
        strs(r@) == dedup_spec(strs(v@)),
{
    let mut out: Vec<String> = Vec::new();
    let mut i: usize = 0;
    assert(strs(v@).subrange(0, 0) =~= Seq::<Seq<char>>::empty());
    assert(strs(out@) =~= Seq::<Seq<char>>::empty());
    while i < v.len()
        invariant
            i <= v@.len(),
            strs(out@) == dedup_spec(strs(v@).subrange(0, i as int)),
        decreases v@.len() - i,
    {
        let ghost c = strs(v@);
        assert(c.subrange(0, i + 1).drop_last() =~= c.subrange(0, i as int));
        assert(c.subrange(0, i + 1).last() == v@[i as int]@);
        if !contains_text(&out, &v[i]) {
            let ghost before = out@;
            out.push(v[i].clone());
            assert(strs(out@) =~= strs(before).push(v@[i as int]@));
        }
        i = i + 1;
    }
    assert(strs(v@).subrange(0, v@.len() as int) =~= strs(v@));
    out
}

/// The paths that the patterns, each joined to `root`, match on disk: the
/// readable paths of each pattern's glob answer, one pattern after the
/// other, each path once. A refused pattern is an error.
pub fn expand_glob(root: &str, patterns: &Vec<String>) -> (r: Result<Vec<String>, PairError>)
    ensures
        r is Ok <==> patterns_accepted(root@, patterns@),
        r matches Err(e) ==> e is InvalidInput,
        patterns@.len() == 0 ==> (r matches Ok(v) && v@.len() == 0),
        r matches Ok(v) ==> exists|f: Seq<Vec<Option<String>>>|
            f.len() == patterns@.len() && strs(v@) == dedup_spec(#[trigger] found_paths(f)),
        r matches Ok(v) ==> strs(v@).no_duplicates(),
{
    let mut found: Vec<Vec<Option<String>>> = Vec::new();
    let mut i: usize = 0;
    while i < patterns.len()
        invariant
            i <= patterns@.len(),
            found@.len() == i,
            forall|j: int| 0 <= j < i ==> glob_accepts(join_spec(root@, #[trigger] patterns@[j]@)),
        decreases patterns@.len() - i,
    {
        let full = join_path(root, patterns[i].as_str());
        match glob_paths(full.as_str()) {
            Err(msg) => {
                return Err(PairError::InvalidInput(msg));
            },
            Ok(answer) => {
                found.push(answer);
            },
        }
        i = i + 1;
    }
    let all = collect_found(&found);
    let r = dedup_paths(all);
    proof {
        lemma_dedup_no_duplicates(found_paths(found@));
        if patterns@.len() == 0 {
            assert(found@.len() == 0);
            assert(strs(r@).len() == 0);
        }
        assert(found@.len() == patterns@.len() && strs(r@) == dedup_spec(found_paths(found@)));
    }
    Ok(r)
}

proof fn lemma_dedup_contains(s: Seq<Seq<char>>, x: Seq<char>)
    ensures
        dedup_spec(s).contains(x) <==> s.contains(x),
    decreases s.len(),
{
    if s.len() > 0 {
        let r = dedup_spec(s.drop_last());
        lemma_dedup_contains(s.drop_last(), x);
        if s.contains(x) && s.last() != x {
            let i = choose|i: int| 0 <= i < s.len() && s[i] == x;
            assert(s.drop_last()[i] == x);
        }
        if s.drop_last().contains(x) {
            let i = choose|i: int| 0 <= i < s.len() - 1 && s.drop_last()[i] == x;
            assert(s[i] == x);
        }
        if !r.contains(s.last()) {
            assert(r.push(s.last())[r.len() as int] == s.last());
            if r.push(s.last()).contains(x) && x != s.last() {
                let i = choose|i: int| 0 <= i < r.len() + 1 && r.push(s.last())[i] == x;
                assert(r[i] == x);
            }
            if r.contains(x) {
                let i = choose|i: int| 0 <= i < r.len() && r[i] == x;
                assert(r.push(s.last())[i] == x);
            }
        }
        if s.last() == x {
            assert(s[s.len() - 1] == x);
        }
    }
}

proof fn lemma_dedup_no_duplicates(s: Seq<Seq<char>>)
    ensures
        dedup_spec(s).no_duplicates(),
    decreases s.len(),
{
    if s.len() > 0 {
        lemma_dedup_no_duplicates(s.drop_last());
        let r = dedup_spec(s.drop_last());
        if !r.contains(s.last()) {
            let t = r.push(s.last());
            assert forall|i: int, j: int| 0 <= i < t.len() && 0 <= j < t.len() && i != j implies t[i] != t[j] by {
                if i < r.len() && j < r.len() {
                } else if i < r.len() {
                    assert(r[i] == t[i]);
                } else {
                    assert(r[j] == t[j]);
                }
            }
        }
    }
}

/// The candidates that are not among the excluded paths, in their order.
pub open spec fn kept(c: Seq<Seq<char>>, excluded: Seq<Seq<char>>) -> Seq<Seq<char>>
    decreases c.len(),
{
    if c.len() == 0 {
        Seq::empty()
    } else {
        let r = kept(c.drop_last(), excluded);
        if excluded.contains(c.last()) {
            r
        } else {
            r.push(c.last())
        }
    }
}

/// Whether `p` is one of `list`.
fn contains_text(list: &Vec<String>, p: &String) -> (r: bool)
    ensures
        r == strs(list@).contains(p@),
{
    let mut j: usize = 0;
    while j < list.len()
        invariant
            j <= list@.len(),
            forall|k: int| 0 <= k < j ==> list@[k]@ != p@,
        decreases list@.len() - j,
    {
        if same_text(list[j].as_str(), p.as_str()) {
            assert(strs(list@)[j as int] == p@);
            return true;
        }
        j = j + 1;
    }
    assert forall|k: int| 0 <= k < strs(list@).len() implies strs(list@)[k] != p@ by {
        assert(strs(list@)[k] == list@[k]@);
    }
    false
}

/// Drops from `candidates` every path equal to one of `excluded`.
pub fn exclude_paths(candidates: Vec<String>, excluded: &Vec<String>) -> (r: Vec<String>)
    ensures
        strs(r@) == kept(strs(candidates@), strs(excluded@)),
{
    let mut out: Vec<String> = Vec::new();
    let mut i: usize = 0;
    assert(strs(candidates@).subrange(0, 0) =~= Seq::<Seq<char>>::empty());
    assert(strs(out@) =~= Seq::<Seq<char>>::empty());
    while i < candidates.len()
        invariant
            i <= candidates@.len(),
            strs(out@) == kept(strs(candidates@).subrange(0, i as int), strs(excluded@)),
        decreases candidates@.len() - i,
    {
        let ghost c = strs(candidates@);
        assert(c.subrange(0, i + 1).drop_last() =~= c.subrange(0, i as int));
        assert(c.subrange(0, i + 1).last() == candidates@[i as int]@);
        if !contains_text(excluded, &candidates[i]) {
            let ghost before = out@;
            out.push(candidates[i].clone());
            assert(strs(out@) =~= strs(before).push(candidates@[i as int]@));
        }
        i = i + 1;
    }
    assert(strs(candidates@).subrange(0, candidates@.len() as int) =~= strs(candidates@));
    out
}

/// The files under `root` that an inclusion pattern matches and no exclude
/// pattern does, each once, in the order they were found.
pub fn list_files(root: &str, include_globs: &Vec<String>, exclude_globs: &Vec<String>) -> (r: Result<Vec<String>, PairError>)
    ensures
        r is Ok <==> patterns_accepted(root@, include_globs@) && patterns_accepted(root@, exclude_globs@),
        r matches Err(e) ==> e is InvalidInput,
        include_globs@.len() == 0 && patterns_accepted(root@, exclude_globs@) ==> (r matches Ok(v) && v@.len() == 0),
        r matches Ok(v) ==> exists|fi: Seq<Vec<Option<String>>>, fe: Seq<Vec<Option<String>>>|
            fi.len() == include_globs@.len() && fe.len() == exclude_globs@.len()
                && strs(v@) == #[trigger] listed(fi, fe),
        r matches Ok(v) ==> strs(v@).no_duplicates(),
{
    let candidates = match expand_glob(root, include_globs) {
        Ok(v) => v,
        Err(e) => return Err(e),
    };
    let excluded = match expand_glob(root, exclude_globs) {
        Ok(v) => v,
        Err(e) => return Err(e),
    };
    let ghost cands = strs(candidates@);
    let r = exclude_paths(candidates, &excluded);
    proof {
        let fi = choose|fi: Seq<Vec<Option<String>>>|
            fi.len() == include_globs@.len() && cands == dedup_spec(#[trigger] found_paths(fi));
        let fe = choose|fe: Seq<Vec<Option<String>>>|
            fe.len() == exclude_globs@.len() && strs(excluded@) == dedup_spec(#[trigger] found_paths(fe));
        assert(strs(r@) == listed(fi, fe));
        lemma_kept_no_duplicates(cands, strs(excluded@));
        if include_globs@.len() == 0 {
            assert(strs(r@).len() == 0);
        }
    }
    Ok(r)
}

/// What the listing gives for these glob answers of the inclusion and
/// exclusion patterns.
pub open spec fn listed(fi: Seq<Vec<Option<String>>>, fe: Seq<Vec<Option<String>>>) -> Seq<Seq<char>> {
    kept(dedup_spec(found_paths(fi)), dedup_spec(found_paths(fe)))
}

proof fn lemma_kept_contains(c: Seq<Seq<char>>, e: Seq<Seq<char>>, x: Seq<char>)
    ensures
        kept(c, e).contains(x) <==> c.contains(x) && !e.contains(x),
    decreases c.len(),
{
    if c.len() > 0 {
        let r = kept(c.drop_last(), e);
        lemma_kept_contains(c.drop_last(), e, x);
        if c.contains(x) && c.last() != x {
            let i = choose|i: int| 0 <= i < c.len() && c[i] == x;
            assert(c.drop_last()[i] == x);
        }
        if c.drop_last().contains(x) {
            let i = choose|i: int| 0 <= i < c.len() - 1 && c.drop_last()[i] == x;
            assert(c[i] == x);
        }
        if c.last() == x {
            assert(c[c.len() - 1] == x);
        }
        if !e.contains(c.last()) {
            assert(r.push(c.last())[r.len() as int] == c.last());
            if r.push(c.last()).contains(x) && x != c.last() {
                let i = choose|i: int| 0 <= i < r.len() + 1 && r.push(c.last())[i] == x;
                assert(r[i] == x);
            }
            if r.contains(x) {
                let i = choose|i: int| 0 <= i < r.len() && r[i] == x;
                assert(r.push(c.last())[i] == x);
            }
        }
    }
}

proof fn lemma_kept_no_duplicates(c: Seq<Seq<char>>, e: Seq<Seq<char>>)
    requires
        c.no_duplicates(),
    ensures
        kept(c, e).no_duplicates(),
    decreases c.len(),
{
    if c.len() > 0 {
        let d = c.drop_last();
        assert(d.no_duplicates()) by {
            assert forall|i: int, j: int| 0 <= i < d.len() && 0 <= j < d.len() && i != j implies d[i] != d[j] by {
                assert(d[i] == c[i] && d[j] == c[j]);
            }
        }
        lemma_kept_no_duplicates(d, e);
        let r = kept(d, e);
        if !e.contains(c.last()) {
            if r.contains(c.last()) {
                lemma_kept_contains(d, e, c.last());
                let i = choose|i: int| 0 <= i < d.len() && d[i] == c.last();
                assert(c[i] == c[c.len() - 1]);
            }
            let t = r.push(c.last());
            assert forall|i: int, j: int| 0 <= i < t.len() && 0 <= j < t.len() && i != j implies t[i] != t[j] by {
                if i < r.len() && j < r.len() {
                } else if i < r.len() {
                    assert(r[i] == t[i]);
                } else {
                    assert(r[j] == t[j]);
                }
            }
        }
    }
}

proof fn lemma_somes_add(f1: Seq<Vec<Option<String>>>, f2: Seq<Vec<Option<String>>>)
    ensures
        found_paths(f1 + f2) == found_paths(f1) + found_paths(f2),
    decreases f2.len(),
{
    if f2.len() == 0 {
        assert(f1 + f2 =~= f1);
        assert(found_paths(f1) + Seq::<Seq<char>>::empty() =~= found_paths(f1));
    } else {
        lemma_somes_add(f1, f2.drop_last());
        assert((f1 + f2).drop_last() =~= f1 + f2.drop_last());
        assert((f1 + f2).last() == f2.last());
        assert(found_paths(f1) + found_paths(f2.drop_last()) + somes(f2.last()@)
            =~= found_paths(f1) + (found_paths(f2.drop_last()) + somes(f2.last()@)));
    }
}

/// Expanding two lists of patterns one after the other finds the paths of
/// the first list, then those of the second; as sets, the union of both.
pub proof fn expansion_distributes(f1: Seq<Vec<Option<String>>>, f2: Seq<Vec<Option<String>>>)
    ensures
        found_paths(f1 + f2) == found_paths(f1) + found_paths(f2),
        dedup_spec(found_paths(f1 + f2)).to_set() == dedup_spec(found_paths(f1)).to_set().union(
            dedup_spec(found_paths(f2)).to_set(),
        ),
{
    lemma_somes_add(f1, f2);
    let a = found_paths(f1);
    let b = found_paths(f2);
    assert forall|x: Seq<char>| #[trigger] dedup_spec(a + b).to_set().contains(x) == dedup_spec(a).to_set().union(
        dedup_spec(b).to_set(),
    ).contains(x) by {
        lemma_dedup_contains(a + b, x);
        lemma_dedup_contains(a, x);
        lemma_dedup_contains(b, x);
        if (a + b).contains(x) {
            let i = choose|i: int| 0 <= i < (a + b).len() && (a + b)[i] == x;
            if i < a.len() {
                assert(a[i] == x);
            } else {
                assert(b[i - a.len()] == x);
            }
        }
        if a.contains(x) {
            let i = choose|i: int| 0 <= i < a.len() && a[i] == x;
            assert((a + b)[i] == x);
        }
        if b.contains(x) {
            let i = choose|i: int| 0 <= i < b.len() && b[i] == x;
            assert((a + b)[a.len() + i] == x);
        }
    }
    assert(dedup_spec(a + b).to_set() =~= dedup_spec(a).to_set().union(dedup_spec(b).to_set()));
}

/// A pattern whose glob answer holds no readable path adds nothing; readable
/// paths of an answer stay even when other entries of it are unreadable.
pub proof fn unmatched_adds_nothing(f: Seq<Vec<Option<String>>>, g: Vec<Option<String>>)
    ensures
        found_paths(f.push(g)) == found_paths(f) + somes(g@),
        (forall|i: int| 0 <= i < g@.len() ==> g@[i] is None) ==> found_paths(f.push(g)) == found_paths(f),
{
    assert(f.push(g).drop_last() =~= f);
    if forall|i: int| 0 <= i < g@.len() ==> g@[i] is None {
        lemma_somes_none(g@);
        assert(found_paths(f) + Seq::<Seq<char>>::empty() =~= found_paths(f));
    }
}

proof fn lemma_somes_none(g: Seq<Option<String>>)
    requires
        forall|i: int| 0 <= i < g.len() ==> g[i] is None,
    ensures
        somes(g).len() == 0,
    decreases g.len(),
{
    if g.len() > 0 {
        assert(g.last() is None);
        lemma_somes_none(g.drop_last());
    }
}

/// More inclusion patterns never drop a listed path, and more exclusion
/// patterns never add one.
pub proof fn listing_monotone(
    fi: Seq<Vec<Option<String>>>,
    fe: Seq<Vec<Option<String>>>,
    more: Seq<Vec<Option<String>>>,
    x: Seq<char>,
)
    ensures
        listed(fi, fe).contains(x) ==> listed(fi + more, fe).contains(x),
        listed(fi, fe + more).contains(x) ==> listed(fi, fe).contains(x),
{
    lemma_somes_add(fi, more);
    lemma_somes_add(fe, more);
    lemma_kept_contains(dedup_spec(found_paths(fi)), dedup_spec(found_paths(fe)), x);
    lemma_kept_contains(dedup_spec(found_paths(fi + more)), dedup_spec(found_paths(fe)), x);
    lemma_kept_contains(dedup_spec(found_paths(fi)), dedup_spec(found_paths(fe + more)), x);
    lemma_dedup_contains(found_paths(fi), x);
    lemma_dedup_contains(found_paths(fi + more), x);
    lemma_dedup_contains(found_paths(fe), x);
    lemma_dedup_contains(found_paths(fe + more), x);
    let a = found_paths(fi);
    let b = found_paths(fe);
    let m = found_paths(more);
    if a.contains(x) {
        let i = choose|i: int| 0 <= i < a.len() && a[i] == x;
        assert((a + m)[i] == x);
    }
    if b.contains(x) {
        let i = choose|i: int| 0 <= i < b.len() && b[i] == x;
        assert((b + m)[i] == x);
    }
}

/// A path that an exclude pattern yields never stays, whatever the inclusion
/// patterns; every other candidate does.
pub proof fn exclusion_wins(c: Seq<Seq<char>>, excluded: Seq<Seq<char>>, p: Seq<char>)
    ensures
        excluded.contains(p) ==> !kept(c, excluded).contains(p),
        c.contains(p) && !excluded.contains(p) ==> kept(c, excluded).contains(p),
    decreases c.len(),
{
    if c.len() > 0 {
        exclusion_wins(c.drop_last(), excluded, p);
        let r = kept(c.drop_last(), excluded);
        if c.contains(p) && !excluded.contains(p) && c.last() != p {
            let i = choose|i: int| 0 <= i < c.len() && c[i] == p;
            assert(c.drop_last()[i] == p);
        }
        if !excluded.contains(c.last()) {
            assert(r.push(c.last())[r.len() as int] == c.last());
            if excluded.contains(p) && r.push(c.last()).contains(p) {
                let i = choose|i: int| 0 <= i < r.len() + 1 && r.push(c.last())[i] == p;
                if i < r.len() {
                    assert(r[i] == p);
                }
            }
            if r.contains(p) {
                let i = choose|i: int| 0 <= i < r.len() && r[i] == p;
                assert(r.push(c.last())[i] == p);
            }
        }
    }
}

} // verus!
