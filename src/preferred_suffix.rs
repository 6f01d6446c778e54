//! Checking that a file has a preferred suffix.
use vstd::prelude::*;

use crate::check_file_pair::GlobalOpts;
use crate::error::PairError;

verus! {

/// The file to check.
#[derive(Debug, Clone)]
pub struct CommandArgs {
    pub file: String,
}

/// Accepts any file name but the empty one.
pub fn command(args: CommandArgs, global_opts: GlobalOpts) -> (r: Result<(), PairError>)
    ensures
        r is Err <==> args.file@.len() == 0,
        r matches Err(e) ==> e is InvalidInput,
{
    if args.file.as_str().is_empty() {
        return Err(PairError::InvalidInput(String::from_str("File name cannot be empty")));
    }
    Ok(())
}

} // verus!
