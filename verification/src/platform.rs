use vstd::prelude::*;

verus! {

/// The operating system family whose conventions (path separators, which
/// save locations apply) a computation follows.
#[derive(Clone, Copy, Debug, PartialEq, Eq)]
pub enum Platform {
    Windows,
    Linux,
    MacOs,
}

impl Platform {
    pub open spec fn spec_is_windows(self) -> bool {
        self is Windows
    }

    pub fn is_windows(&self) -> (r: bool)
        ensures
            r == self.spec_is_windows(),
    {
        match self {
            Platform::Windows => true,
            _ => false,
        }
    }
}

/// Whether `c` separates path components on `platform`.
pub open spec fn spec_is_separator(platform: Platform, c: char) -> bool {
    c == '/' || (platform is Windows && c == '\\')
}

pub fn is_separator(platform: Platform, c: char) -> (r: bool)
    ensures
        r == spec_is_separator(platform, c),
{
    c == '/' || (platform.is_windows() && c == '\\')
}

} // verus!
