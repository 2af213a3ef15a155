//! Items defined in a private module and re-exported.
use vstd::prelude::*;

verus! {

/// A helper struct defined in a private inner module.
pub struct Helper {
    /// Identifier for this helper.
    pub id: u32,
}

/// A helper function in the inner module.
pub fn inner_fn() -> (r: i32)
    ensures
        r == 99,
{
    99
}

/// A constant in the inner module.
pub const INNER_CONST: &'static str = "inner";

} // verus!
