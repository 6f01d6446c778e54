//! Checks that files of one directory have paired files in another, and
//! decides what a run reports, creates and keeps.

pub mod check_file_pair;
pub mod drift;
pub mod error;
pub mod listing;
pub mod pairing;
pub mod paths;
pub mod preferred_suffix;
pub mod template;
pub mod text;
pub mod vars;
