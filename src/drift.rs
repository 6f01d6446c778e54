//! The hash-file decision of a drift check: write a first hash, accept an
//! equal one, refuse a different one.
use vstd::prelude::*;

use crate::error::PairError;
use crate::vars::opt_view;

verus! {

/// What to do with the hash file once the directory hash is known.
#[derive(Debug, Clone, Copy, PartialEq, Eq)]
pub enum HashAction {
    /// No hash was stored: store the computed one and succeed.
    WriteHash,
    /// The stored hash equals the computed one: succeed, removing the hash
    /// file when asked to.
    Accept { remove_hash_file: bool },
}

/// The action for a stored hash (if any) and a computed one; `None` is drift.
pub open spec fn hash_step_spec(stored: Option<Seq<char>>, computed: Seq<char>, preserve_hash_file: bool) -> Option<HashAction> {
    match stored {
        None => Some(HashAction::WriteHash),
        Some(s) => if s == computed {
            Some(HashAction::Accept { remove_hash_file: !preserve_hash_file })
        } else {
            None
        },
    }
}

/// Decides the drift check from the stored hash, if there is one, and the
/// hash just computed.
pub fn hash_file_step(stored: Option<String>, computed: String, preserve_hash_file: bool) -> (r: Result<HashAction, PairError>)
    ensures
        r is Ok <==> hash_step_spec(opt_view(stored), computed@, preserve_hash_file) is Some,
        r matches Ok(a) ==> Some(a) == hash_step_spec(opt_view(stored), computed@, preserve_hash_file),
        r matches Err(e) ==> (e matches PairError::DriftDetected(c, s) && c@ == computed@ && opt_view(stored) == Some(s@)),
{
    match stored {
        None => Ok(HashAction::WriteHash),
        Some(s) => {
            if s == computed {
                Ok(HashAction::Accept { remove_hash_file: !preserve_hash_file })
            } else {
                Err(PairError::DriftDetected(computed, s))
            }
        },
    }
}

/// Two checks of an unchanged directory against a fresh hash-file location
/// both succeed: the first stores the hash, the second accepts it and, by
/// default, removes the hash file.
pub proof fn fresh_then_unchanged(hash: Seq<char>)
    ensures
        hash_step_spec(None, hash, false) == Some(HashAction::WriteHash),
        hash_step_spec(Some(hash), hash, false) == Some(HashAction::Accept { remove_hash_file: true }),
        hash_step_spec(Some(hash), hash, true) == Some(HashAction::Accept { remove_hash_file: false }),
{
}

} // verus!
