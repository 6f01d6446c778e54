use vstd::prelude::*;

verus! {

/// Every way a pairing or drift check can end other than in success.
#[derive(Debug, Clone, PartialEq, Eq)]
pub enum PairError {
    /// A pattern, path or option that cannot be used; the text says which.
    InvalidInput(String),
    /// The path has no file name, no stem or extension, or lies outside the root.
    MissingPathComponent(String),
    /// The filename regex did not match this file name.
    FilenameNotMatched(String),
    /// The template names a variable the mapping does not hold.
    UnknownVariable(String),
    /// This many expected files are missing.
    MissingPairs(usize),
    /// The directory hash differs from the stored one: (computed, stored).
    DriftDetected(String, String),
}

} // verus!
