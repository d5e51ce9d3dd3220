//! The `verify` command: which archives it checks.
use vstd::prelude::*;
use crate::text::to_owned_string;

verus! {

/// Checks that backup archives can be read.
pub struct Verify;

impl Verify {
    /// The archive named on the command line: the first positional
    /// argument, if there is one. Without one, every game folder of the save
    /// directory is checked instead.
    pub fn requested_archive(positional: &Vec<String>) -> (r: Option<&String>)
        ensures
            positional@.len() == 0 ==> r is None,
            positional@.len() > 0 ==> r == Some(&positional@[0]),
    {
        if positional.len() == 0 {
            None
        } else {
            Some(&positional[0])
        }
    }

    /// The file name of the archive checked in each game folder when no
    /// archive is named.
    pub fn folder_archive_name() -> (r: String)
        ensures
            r@ == "backup.aletheia"@,
    {
        to_owned_string("backup.aletheia")
    }
}

} // verus!
