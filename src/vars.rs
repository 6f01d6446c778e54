//! The substitution variables of one source file.
use vstd::prelude::*;

use crate::error::PairError;
use crate::paths::{
    dir_prefix, extension_of, file_name, file_name_of, is_under, last_index_of,
    lemma_last_index_bounds, relative_dir, relative_directory, same_text, split_name, splits_name,
    stem_of,
};

verus! {

/// Name to value, built in order; a later entry overrides an earlier one of
/// the same name.
pub struct VarMap {
    pub entries: Vec<(String, String)>,
}

/// The mapping that a list of entries stands for: the last entry of a name wins.
pub open spec fn entries_map(s: Seq<(String, String)>) -> Map<Seq<char>, Seq<char>>
    decreases s.len(),
{
    if s.len() == 0 {
        Map::empty()
    } else {
        entries_map(s.drop_last()).insert(s.last().0@, s.last().1@)
    }
}

impl View for VarMap {
    type V = Map<Seq<char>, Seq<char>>;

    open spec fn view(&self) -> Map<Seq<char>, Seq<char>> {
        entries_map(self.entries@)
    }
}

proof fn lemma_entries_skip(s: Seq<(String, String)>, i: int, k: Seq<char>)
    requires
        0 <= i <= s.len(),
        forall|j: int| i <= j < s.len() ==> s[j].0@ != k,
    ensures
        entries_map(s).contains_key(k) == entries_map(s.subrange(0, i)).contains_key(k),
        entries_map(s).contains_key(k) ==> entries_map(s)[k] == entries_map(s.subrange(0, i))[k],
    decreases s.len() - i,
{
    if i < s.len() {
        let t = s.subrange(0, i + 1);
        assert(t.drop_last() =~= s.subrange(0, i));
        assert(t.last() == s[i]);
        lemma_entries_skip(s, i + 1, k);
    } else {
        assert(s.subrange(0, i) =~= s);
    }
}

impl VarMap {
    /// An empty mapping.
    pub fn new() -> (r: VarMap)
        ensures
            r@ == Map::<Seq<char>, Seq<char>>::empty(),
    {
        VarMap { entries: Vec::new() }
    }

    /// Sets `name` to `value`, replacing what it held.
    pub fn insert(&mut self, name: String, value: String)
        ensures
            final(self)@ == old(self)@.insert(name@, value@),
    {
        let ghost before = self.entries@;
        self.entries.push((name, value));
        assert(self.entries@.drop_last() =~= before);
    }

    /// The value of `name`, if the mapping holds it.
    pub fn get(&self, name: &str) -> (r: Option<String>)
        ensures
            r is Some <==> self@.contains_key(name@),
            r matches Some(v) ==> v@ == self@[name@],
    {
        let mut i: usize = self.entries.len();
        while i > 0
            invariant
                i <= self.entries@.len(),
                forall|j: int| i <= j < self.entries@.len() ==> self.entries@[j].0@ != name@,
            decreases i,
        {
            let key = &self.entries[i - 1].0;
            if same_text(key.as_str(), name) {
                proof {
                    let s = self.entries@;
                    lemma_entries_skip(s, i as int, name@);
                    assert(s.subrange(0, i as int).drop_last() =~= s.subrange(0, i - 1));
                    assert(s.subrange(0, i as int).last() == s[i - 1]);
                }
                return Some(self.entries[i - 1].1.clone());
            }
            i = i - 1;
        }
        proof {
            lemma_entries_skip(self.entries@, 0, name@);
        }
        None
    }
}

/// The roots a run resolves once: working directory, source root and pair root.
pub struct PairContext {
    pub cwd: String,
    pub from: String,
    pub to: String,
}

/// One capture group: its name, if it has one, and the text it matched, if any.
pub type Group = (Option<String>, Option<String>);

/// The text of an optional string.
pub open spec fn opt_view(o: Option<String>) -> Option<Seq<char>> {
    match o {
        Some(s) => Some(s@),
        None => None,
    }
}

/// Capture groups as texts.
pub open spec fn groups_view(g: Seq<Group>) -> Seq<(Option<Seq<char>>, Option<Seq<char>>)> {
    g.map_values(|x: Group| (opt_view(x.0), opt_view(x.1)))
}

/// Whether the regex crate accepts `pattern`.
pub uninterp spec fn regex_compiles(pattern: Seq<char>) -> bool;

/// The capture groups of `pattern`'s first match in `haystack`, in group
/// order, or `None` when it does not match.
pub uninterp spec fn regex_groups(pattern: Seq<char>, haystack: Seq<char>) -> Option<
    Seq<(Option<Seq<char>>, Option<Seq<char>>)>,
>;

/// Relies on `regex::Regex::new` (refuses a pattern whatever the haystack)
/// and `Regex::captures` with `Regex::capture_names` (the groups of the first
/// match, by index, with their names).
#[verifier::external_body]
fn regex_capture_groups(pattern: &str, haystack: &str) -> (r: Result<Option<Vec<Group>>, String>)
    ensures
        r is Err <==> !regex_compiles(pattern@),
        r matches Ok(m) ==> (m is None <==> regex_groups(pattern@, haystack@) is None),
        r matches Ok(Some(g)) ==> regex_groups(pattern@, haystack@) == Some(groups_view(g@)),
{
    let re = match regex::Regex::new(pattern) {
        Ok(re) => re,
        Err(e) => return Err(e.to_string()),
    };
    Ok(re.captures(haystack).map(|caps| {
        re.capture_names().enumerate().map(|(i, n)| {
            (n.map(String::from), caps.get(i).map(|m| m.as_str().to_string()))
        }).collect()
    }))
}

/// The named groups that matched, as variables; a later group of a name wins.
pub open spec fn captured_vars(g: Seq<(Option<Seq<char>>, Option<Seq<char>>)>) -> Map<Seq<char>, Seq<char>>
    decreases g.len(),
{
    if g.len() == 0 {
        Map::empty()
    } else {
        let m = captured_vars(g.drop_last());
        match g.last() {
            (Some(n), Some(v)) => m.insert(n, v),
            _ => m,
        }
    }
}

/// The variables every file has: the three roots and what its path gives.
pub open spec fn builtin_vars(p: Seq<char>, cwd: Seq<char>, from: Seq<char>, to: Seq<char>) -> Map<Seq<char>, Seq<char>> {
    let name = file_name_of(p);
    Map::empty().insert("cwd"@, cwd).insert("from"@, from).insert("to"@, to).insert(
        "stem"@,
        stem_of(name),
    ).insert("extension"@, extension_of(name)).insert(
        "relative_from"@,
        relative_dir(p, from),
    ).insert("filename"@, name)
}

/// The path has a stem and an extension and lies below the source root.
pub open spec fn path_resolvable(p: Seq<char>, from: Seq<char>) -> bool {
    splits_name(file_name_of(p)) && is_under(p, from)
}

/// The variables of the file at `p`, or `None` when it has none.
pub open spec fn variables_spec(p: Seq<char>, cwd: Seq<char>, from: Seq<char>, to: Seq<char>, re: Option<Seq<char>>) -> Option<Map<Seq<char>, Seq<char>>> {
    if !path_resolvable(p, from) {
        None
    } else {
        match re {
            None => Some(builtin_vars(p, cwd, from, to)),
            Some(re) => if !regex_compiles(re) {
                None
            } else {
                match regex_groups(re, file_name_of(p)) {
                    None => None,
                    Some(g) => Some(builtin_vars(p, cwd, from, to).union_prefer_right(captured_vars(g))),
                }
            },
        }
    }
}

/// Checks that the regex crate accepts `pattern`.
pub fn check_filename_regex(pattern: &str) -> (r: Result<(), PairError>)
    ensures
        r is Ok <==> regex_compiles(pattern@),
        r matches Err(e) ==> e is InvalidInput,
{
    match regex_capture_groups(pattern, "") {
        Ok(_) => Ok(()),
        Err(msg) => Err(PairError::InvalidInput(msg)),
    }
}

/// Adds to `vars` each named group that matched, in group order.
pub fn add_captures(vars: &mut VarMap, groups: &Vec<Group>)
    ensures
        final(vars)@ == old(vars)@.union_prefer_right(captured_vars(groups_view(groups@))),
{
    let ghost base = vars@;
    let mut i: usize = 0;
    assert(groups_view(groups@.subrange(0, 0)) =~= Seq::empty());
    assert(base.union_prefer_right(Map::empty()) =~= base);
    while i < groups.len()
        invariant
            i <= groups@.len(),
            vars@ == base.union_prefer_right(captured_vars(groups_view(groups@.subrange(0, i as int)))),
        decreases groups@.len() - i,
    {
        let ghost prev = groups_view(groups@.subrange(0, i as int));
        let ghost next = groups_view(groups@.subrange(0, i + 1));
        assert(next.drop_last() =~= prev);
        assert(next.last() == (opt_view(groups@[i as int].0), opt_view(groups@[i as int].1)));
        match (&groups[i].0, &groups[i].1) {
            (Some(n), Some(v)) => {
                vars.insert(n.clone(), v.clone());
                assert(vars@ =~= base.union_prefer_right(captured_vars(next)));
            },
            _ => {
                assert(captured_vars(next) == captured_vars(prev));
            },
        }
        i = i + 1;
    }
    assert(groups@.subrange(0, groups@.len() as int) =~= groups@);
}

/// The variables of the file at `path`: the roots, its file name, stem,
/// extension and directory relative to `from`, then the named groups of
/// `filename_regex` on its file name, which override the others.
pub fn file_variables(path: &str, ctx: &PairContext, filename_regex: &Option<String>) -> (r: Result<VarMap, PairError>)
    ensures
        r is Ok <==> variables_spec(path@, ctx.cwd@, ctx.from@, ctx.to@, opt_view(*filename_regex)) is Some,
        r matches Ok(v) ==> Some(v@) == variables_spec(path@, ctx.cwd@, ctx.from@, ctx.to@, opt_view(*filename_regex)),
        r matches Err(e) ==> (e is MissingPathComponent || e is InvalidInput || e is FilenameNotMatched),
        !path_resolvable(path@, ctx.from@) ==> (r matches Err(PairError::MissingPathComponent(m)) && m@ == path@),
        path_resolvable(path@, ctx.from@) && filename_regex is None ==> (r matches Ok(v) && v@ == builtin_vars(path@, ctx.cwd@, ctx.from@, ctx.to@)),
        path_resolvable(path@, ctx.from@) && filename_regex is Some && !regex_compiles(filename_regex->0@) ==> (r matches Err(PairError::InvalidInput(_))),
        path_resolvable(path@, ctx.from@) && filename_regex is Some && regex_compiles(filename_regex->0@)
            && regex_groups(filename_regex->0@, file_name_of(path@)) is None ==> (r matches Err(PairError::FilenameNotMatched(m)) && m@ == file_name_of(path@)),
        path_resolvable(path@, ctx.from@) && filename_regex is Some && regex_compiles(filename_regex->0@)
            && regex_groups(filename_regex->0@, file_name_of(path@)) is Some ==> (r matches Ok(v) && v@ == builtin_vars(path@, ctx.cwd@, ctx.from@, ctx.to@).union_prefer_right(
                captured_vars(regex_groups(filename_regex->0@, file_name_of(path@))->0),
            )),
{
    let name = file_name(path);
    let parts = split_name(name.as_str());
    let rel = relative_directory(path, ctx.from.as_str());
    let (stem, ext) = match parts {
        Some(pair) => pair,
        None => return Err(PairError::MissingPathComponent(String::from_str(path))),
    };
    let rel = match rel {
        Some(d) => d,
        None => return Err(PairError::MissingPathComponent(String::from_str(path))),
    };
    let mut vars = VarMap::new();
    vars.insert(String::from_str("cwd"), ctx.cwd.clone());
    vars.insert(String::from_str("from"), ctx.from.clone());
    vars.insert(String::from_str("to"), ctx.to.clone());
    vars.insert(String::from_str("stem"), stem);
    vars.insert(String::from_str("extension"), ext);
    vars.insert(String::from_str("relative_from"), rel);
    vars.insert(String::from_str("filename"), name.clone());
    assert(vars@ == builtin_vars(path@, ctx.cwd@, ctx.from@, ctx.to@));
    match filename_regex {
        None => Ok(vars),
        Some(re) => match regex_capture_groups(re.as_str(), name.as_str()) {
            Err(msg) => Err(PairError::InvalidInput(msg)),
            Ok(None) => Err(PairError::FilenameNotMatched(name)),
            Ok(Some(groups)) => {
                add_captures(&mut vars, &groups);
                Ok(vars)
            },
        },
    }
}

/// The directory of a file relative to the source root is never empty, and
/// is `.` for a file that sits directly in the root.
pub proof fn relative_from_is_dot_at_top(p: Seq<char>, cwd: Seq<char>, from: Seq<char>, to: Seq<char>)
    requires
        path_resolvable(p, from),
    ensures
        variables_spec(p, cwd, from, to, None) is Some,
        variables_spec(p, cwd, from, to, None)->0["relative_from"@] == relative_dir(p, from),
        relative_dir(p, from).len() > 0,
        !p.subrange(dir_prefix(from).len() as int, p.len() as int).contains('/')
            ==> variables_spec(p, cwd, from, to, None)->0["relative_from"@] == seq!['.'],
{
    reveal_strlit("relative_from");
    reveal_strlit("filename");
    assert("filename"@.len() != "relative_from"@.len());
    let rest = p.subrange(dir_prefix(from).len() as int, p.len() as int);
    lemma_last_index_bounds(rest, '/');
    if !rest.contains('/') && last_index_of(rest, '/') >= 0 {
        assert(rest[last_index_of(rest, '/')] == '/');
    }
}

/// A named group that matched takes precedence over the built-in variable
/// of the same name (`filename`, say).
pub proof fn captures_override_builtins(
    p: Seq<char>,
    cwd: Seq<char>,
    from: Seq<char>,
    to: Seq<char>,
    re: Seq<char>,
    name: Seq<char>,
)
    requires
        variables_spec(p, cwd, from, to, Some(re)) is Some,
        captured_vars(regex_groups(re, file_name_of(p))->0).contains_key(name),
    ensures
        variables_spec(p, cwd, from, to, Some(re))->0[name] == captured_vars(regex_groups(re, file_name_of(p))->0)[name],
{
}

} // verus!
