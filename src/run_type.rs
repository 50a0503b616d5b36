use vstd::prelude::*;

verus! {

/// Which check script a read-only run prefers.
#[derive(Debug, Clone, Copy, PartialEq, Eq, Structural)]
pub enum CheckType {
    Check,
    ListFiles,
    Diff,
}

/// Whether a hook only reads files or may rewrite them.
#[derive(Debug, Clone, Copy, PartialEq, Eq, Structural)]
pub enum RunType {
    Check(CheckType),
    Fix,
}

impl RunType {
    /// True for a run that may mutate files.
    pub fn is_fix(&self) -> (r: bool)
        ensures
            r == (*self == RunType::Fix),
    {
        match self {
            RunType::Fix => true,
            RunType::Check(_) => false,
        }
    }
}

} // verus!
