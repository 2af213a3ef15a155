//! Items re-exported by a glob.
use vstd::prelude::*;

verus! {

/// An item that will be glob-reexported.
pub struct GlobItem {
    /// Value field.
    pub value: i32,
}

/// Another item for glob re-export.
pub fn glob_fn() -> (r: bool)
    ensures
        r,
{
    true
}

} // verus!
