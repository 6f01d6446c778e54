//! The pairing run: expected paths for the candidates, the missing ones,
//! and what the run reports and creates.
use vstd::prelude::*;

use crate::error::PairError;
use crate::listing::strs;
use crate::text::{decimal, decimal_string};
use crate::template::{expected_path, strfmt_output};
use crate::vars::{check_filename_regex, opt_view, regex_compiles, variables_spec, PairContext};

verus! {

/// The expected path of the file at `p`, or `None` when it has none.
pub open spec fn expected_spec(
    p: Seq<char>,
    cwd: Seq<char>,
    from: Seq<char>,
    to: Seq<char>,
    template: Seq<char>,
    re: Option<Seq<char>>,
) -> Option<Seq<char>> {
    match variables_spec(p, cwd, from, to, re) {
        Some(m) => strfmt_output(template, m),
        None => None,
    }
}

/// The expected path of every file, in order; the first file that has none
/// ends the run with its error. A filename regex the regex crate refuses is
/// an error even when there are no files.
pub fn resolve_pairs(files: &Vec<String>, ctx: &PairContext, template: &str, filename_regex: &Option<String>) -> (r: Result<Vec<String>, PairError>)
    ensures
        r is Ok <==> (filename_regex matches Some(re) ==> regex_compiles(re@)) && forall|i: int|
            0 <= i < files@.len() ==> (#[trigger] expected_spec(files@[i]@, ctx.cwd@, ctx.from@, ctx.to@, template@, opt_view(*filename_regex))) is Some,
        r matches Ok(v) ==> v@.len() == files@.len() && forall|i: int|
            0 <= i < files@.len() ==> expected_spec(files@[i]@, ctx.cwd@, ctx.from@, ctx.to@, template@, opt_view(*filename_regex)) == Some(
                #[trigger] v@[i]@,
            ),
{
    if let Some(re) = filename_regex {
        if let Err(e) = check_filename_regex(re.as_str()) {
            return Err(e);
        }
    }
    let mut out: Vec<String> = Vec::new();
    let mut i: usize = 0;
    while i < files.len()
        invariant
            i <= files@.len(),
            out@.len() == i,
            filename_regex matches Some(re) ==> regex_compiles(re@),
            forall|j: int| 0 <= j < i ==> expected_spec(files@[j]@, ctx.cwd@, ctx.from@, ctx.to@, template@, opt_view(*filename_regex)) == Some(
                #[trigger] out@[j]@,
            ),
        decreases files@.len() - i,
    {
        match expected_path(files[i].as_str(), ctx, template, filename_regex) {
            Ok(p) => {
                out.push(p);
            },
            Err(e) => {
                assert(expected_spec(files@[i as int]@, ctx.cwd@, ctx.from@, ctx.to@, template@, opt_view(*filename_regex)) is None);
                return Err(e);
            },
        }
        i = i + 1;
    }
    assert forall|j: int| 0 <= j < files@.len() implies (#[trigger] expected_spec(files@[j]@, ctx.cwd@, ctx.from@, ctx.to@, template@, opt_view(*filename_regex))) is Some by {
        assert(expected_spec(files@[j]@, ctx.cwd@, ctx.from@, ctx.to@, template@, opt_view(*filename_regex)) == Some(out@[j]@));
    }
    Ok(out)
}

/// The expected paths whose flag says they do not exist, in order.
pub open spec fn missing_flags(e: Seq<Seq<char>>, f: Seq<bool>) -> Seq<Seq<char>>
    decreases e.len(),
{
    if e.len() == 0 || f.len() != e.len() {
        Seq::empty()
    } else {
        let r = missing_flags(e.drop_last(), f.drop_last());
        if f.last() {
            r
        } else {
            r.push(e.last())
        }
    }
}

/// The expected paths that do not exist, given whether each one does.
pub fn collect_missing(expected: &Vec<String>, exists: &Vec<bool>) -> (r: Vec<String>)
    requires
        exists@.len() == expected@.len(),
    ensures
        strs(r@) == missing_flags(strs(expected@), exists@),
{
    let mut out: Vec<String> = Vec::new();
    let mut i: usize = 0;
    assert(strs(out@) =~= Seq::<Seq<char>>::empty());
    while i < expected.len()
        invariant
            i <= expected@.len() == exists@.len(),
            strs(out@) == missing_flags(strs(expected@).subrange(0, i as int), exists@.subrange(0, i as int)),
        decreases expected@.len() - i,
    {
        let ghost e = strs(expected@);
        assert(e.subrange(0, i + 1).drop_last() =~= e.subrange(0, i as int));
        assert(exists@.subrange(0, i + 1).drop_last() =~= exists@.subrange(0, i as int));
        assert(e.subrange(0, i + 1).last() == expected@[i as int]@);
        if !exists[i] {
            let ghost before = out@;
            out.push(expected[i].clone());
            assert(strs(out@) =~= strs(before).push(expected@[i as int]@));
        }
        i = i + 1;
    }
    assert(strs(expected@).subrange(0, expected@.len() as int) =~= strs(expected@));
    assert(exists@.subrange(0, expected@.len() as int) =~= exists@);
    out
}

/// How a pairing run ends.
#[derive(Debug, Clone, Copy, PartialEq, Eq)]
pub enum PairReport {
    /// Every expected file exists.
    AllPresent,
    /// This many expected files are missing and none was to be created.
    Missing(usize),
    /// This many missing files were created, or would be in a dry run.
    Created(usize),
}

/// What the run reports for `n` missing files.
pub open spec fn report_spec(n: nat, create: bool) -> PairReport {
    if n == 0 {
        PairReport::AllPresent
    } else if create {
        PairReport::Created(n as usize)
    } else {
        PairReport::Missing(n as usize)
    }
}

/// The files a run creates: the missing ones, unless creation was not asked
/// for or the run is dry.
pub open spec fn planned_creations(missing: Seq<Seq<char>>, create: bool, dry_run: bool) -> Seq<Seq<char>> {
    if create && !dry_run {
        missing
    } else {
        Seq::empty()
    }
}

/// The process exit code of a report.
pub open spec fn exit_code_spec(r: PairReport) -> u8 {
    match r {
        PairReport::AllPresent => 0,
        _ => 1,
    }
}

/// The line a report ends the run with.
pub open spec fn report_text(r: PairReport) -> Seq<char> {
    match r {
        PairReport::AllPresent => "Everything is fine, no missing files."@,
        PairReport::Missing(n) => "There are "@ + decimal(n as nat)
            + " missing files. Use `--create-if-not-exists` to create them."@,
        PairReport::Created(n) => "Created "@ + decimal(n as nat) + " missing files."@,
    }
}

/// A report and the files to create before it is given.
pub struct PairOutcome {
    pub report: PairReport,
    pub to_create: Vec<String>,
}

/// Decides how a run with these missing files ends and what it creates.
/// A dry run reports exactly what a real one would and creates nothing.
pub fn pairing_outcome(missing: Vec<String>, create_if_not_exists: bool, dry_run: bool) -> (r: PairOutcome)
    ensures
        r.report == report_spec(missing@.len() as nat, create_if_not_exists),
        strs(r.to_create@) == planned_creations(strs(missing@), create_if_not_exists, dry_run),
{
    let n = missing.len();
    let report = if n == 0 {
        PairReport::AllPresent
    } else if create_if_not_exists {
        PairReport::Created(n)
    } else {
        PairReport::Missing(n)
    };
    let to_create = if create_if_not_exists && !dry_run {
        missing
    } else {
        let v: Vec<String> = Vec::new();
        assert(strs(v@) =~= Seq::<Seq<char>>::empty());
        v
    };
    PairOutcome { report, to_create }
}

impl PairReport {
    /// 0 when every pair exists, 1 otherwise: a run that created files still
    /// asks for a second run to confirm.
    pub fn exit_code(&self) -> (r: u8)
        ensures
            r == exit_code_spec(*self),
    {
        match self {
            PairReport::AllPresent => 0,
            _ => 1,
        }
    }

    /// The line this report ends the run with.
    pub fn message(&self) -> (r: String)
        ensures
            r@ == report_text(*self),
    {
        match self {
            PairReport::AllPresent => String::from_str("Everything is fine, no missing files."),
            PairReport::Missing(n) => {
                let mut s = String::from_str("There are ");
                s.append(decimal_string(*n).as_str());
                s.append(" missing files. Use `--create-if-not-exists` to create them.");
                s
            },
            PairReport::Created(n) => {
                let mut s = String::from_str("Created ");
                s.append(decimal_string(*n).as_str());
                s.append(" missing files.");
                s
            },
        }
    }

    /// The error this report ends the run with, if any.
    pub fn to_error(&self) -> (r: Option<PairError>)
        ensures
            r is None <==> *self is AllPresent,
            *self matches PairReport::Missing(n) ==> r == Some(PairError::MissingPairs(n)),
            *self matches PairReport::Created(n) ==> r == Some(PairError::MissingPairs(n)),
    {
        match self {
            PairReport::AllPresent => None,
            PairReport::Missing(n) => Some(PairError::MissingPairs(*n)),
            PairReport::Created(n) => Some(PairError::MissingPairs(*n)),
        }
    }
}

proof fn lemma_missing_contains(e: Seq<Seq<char>>, f: Seq<bool>, i: int)
    requires
        f.len() == e.len(),
        0 <= i < e.len(),
        !f[i],
    ensures
        missing_flags(e, f).contains(e[i]),
    decreases e.len(),
{
    let r = missing_flags(e.drop_last(), f.drop_last());
    if i == e.len() - 1 {
        assert(r.push(e.last())[r.len() as int] == e[i]);
    } else {
        lemma_missing_contains(e.drop_last(), f.drop_last(), i);
        let k = choose|k: int| 0 <= k < r.len() && r[k] == e[i];
        if !f.last() {
            assert(r.push(e.last())[k] == e[i]);
        }
    }
}

proof fn lemma_missing_all_present(e: Seq<Seq<char>>, f: Seq<bool>)
    requires
        f.len() == e.len(),
        forall|i: int| 0 <= i < f.len() ==> f[i],
    ensures
        missing_flags(e, f).len() == 0,
    decreases e.len(),
{
    if e.len() > 0 {
        lemma_missing_all_present(e.drop_last(), f.drop_last());
    }
}

proof fn lemma_missing_all_absent(e: Seq<Seq<char>>, f: Seq<bool>)
    requires
        f.len() == e.len(),
        forall|i: int| 0 <= i < f.len() ==> !f[i],
    ensures
        missing_flags(e, f) == e,
    decreases e.len(),
{
    if e.len() > 0 {
        lemma_missing_all_absent(e.drop_last(), f.drop_last());
        assert(e.drop_last().push(e.last()) =~= e);
    }
}

/// Whether each expected path is in the set of existing files.
pub open spec fn flags_in(e: Seq<Seq<char>>, fs: Set<Seq<char>>) -> Seq<bool> {
    Seq::new(e.len(), |i: int| fs.contains(e[i]))
}

/// When no expected file exists, every candidate is reported missing and
/// the run fails.
pub proof fn all_absent_all_reported(expected: Seq<Seq<char>>, exists: Seq<bool>)
    requires
        exists.len() == expected.len(),
        0 < expected.len() <= usize::MAX,
        forall|i: int| 0 <= i < exists.len() ==> !exists[i],
    ensures
        missing_flags(expected, exists) == expected,
        report_spec(missing_flags(expected, exists).len(), false) == PairReport::Missing(expected.len() as usize),
        exit_code_spec(report_spec(missing_flags(expected, exists).len(), false)) != 0,
{
    lemma_missing_all_absent(expected, exists);
}

/// A run that creates the missing files reports their number and fails; a
/// second run over the files it left finds every pair and succeeds.
pub proof fn create_then_recheck(expected: Seq<Seq<char>>, fs: Set<Seq<char>>)
    requires
        expected.len() <= usize::MAX,
    ensures
        ({
            let missing = missing_flags(expected, flags_in(expected, fs));
            let after = fs.union(planned_creations(missing, true, false).to_set());
            &&& missing.len() > 0 ==> report_spec(missing.len(), true) == PairReport::Created(missing.len() as usize)
            &&& missing.len() > 0 ==> exit_code_spec(report_spec(missing.len(), true)) != 0
            &&& missing_flags(expected, flags_in(expected, after)).len() == 0
            &&& report_spec(missing_flags(expected, flags_in(expected, after)).len(), false) == PairReport::AllPresent
            &&& exit_code_spec(report_spec(missing_flags(expected, flags_in(expected, after)).len(), false)) == 0
        }),
{
    let f = flags_in(expected, fs);
    let missing = missing_flags(expected, f);
    let after = fs.union(missing.to_set());
    assert forall|i: int| 0 <= i < expected.len() implies #[trigger] flags_in(expected, after)[i] by {
        if !fs.contains(expected[i]) {
            lemma_missing_contains(expected, f, i);
            assert(missing.to_set().contains(expected[i]));
        }
    }
    lemma_missing_all_present(expected, flags_in(expected, after));
    lemma_missing_len(expected, f);
}

proof fn lemma_missing_len(e: Seq<Seq<char>>, f: Seq<bool>)
    ensures
        missing_flags(e, f).len() <= e.len(),
    decreases e.len(),
{
    if e.len() > 0 && f.len() == e.len() {
        lemma_missing_len(e.drop_last(), f.drop_last());
    }
}

/// A dry run leaves the set of existing files as it was, where the real run
/// adds every missing file; the report of both is `report_spec`, which does
/// not depend on the dry-run flag.
pub proof fn dry_run_changes_nothing(missing: Seq<Seq<char>>, fs: Set<Seq<char>>)
    ensures
        fs.union(planned_creations(missing, true, true).to_set()) == fs,
        fs.union(planned_creations(missing, true, false).to_set()) == fs.union(missing.to_set()),
{
    assert(planned_creations(missing, true, true).to_set() =~= Set::empty());
    assert(fs.union(Set::empty()) =~= fs);
}

} // verus!
