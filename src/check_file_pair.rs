//! The options of a pairing run, and how a run concludes.
use vstd::prelude::*;

use crate::listing::strs;
use crate::pairing::{
    collect_missing, missing_flags, pairing_outcome, planned_creations, report_spec, PairOutcome,
};

verus! {

/// Options that hold for every command.
#[derive(Debug, Clone, Copy)]
pub struct GlobalOpts {
    /// Report what would be created without touching the disk.
    pub dry_run: bool,
}

/// The options of a pairing run.
#[derive(Debug, Clone)]
pub struct CommandArgs {
    /// Directory whose files need pairs.
    pub from: String,
    /// Directory where the pairs are expected.
    pub to: String,
    /// Glob patterns, under `from`, of the files to check.
    pub include_globs: Vec<String>,
    /// Glob patterns, under `from`, of files to leave out.
    pub exclude_globs: Vec<String>,
    /// Template of the expected path.
    pub expect: String,
    /// Regex on the file name whose named groups become variables.
    pub filename_regex: Option<String>,
    /// Create the missing pairs.
    pub create_if_not_exists: bool,
}

/// How a run concludes once each expected path is known to exist or not:
/// the report for the missing ones and the files to create, none in a dry run.
pub fn conclude(expected: &Vec<String>, exists: &Vec<bool>, args: &CommandArgs, global_opts: GlobalOpts) -> (r: PairOutcome)
    requires
        exists@.len() == expected@.len(),
    ensures
        r.report == report_spec(missing_flags(strs(expected@), exists@).len(), args.create_if_not_exists),
        strs(r.to_create@) == planned_creations(
            missing_flags(strs(expected@), exists@),
            args.create_if_not_exists,
            global_opts.dry_run,
        ),
{
    let missing = collect_missing(expected, exists);
    proof {
        assert(strs(missing@).len() == missing@.len());
    }
    pairing_outcome(missing, args.create_if_not_exists, global_opts.dry_run)
}

} // verus!
