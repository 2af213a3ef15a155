//! Items re-exported across crates by the sample API.
use vstd::prelude::*;

verus! {

/// A struct re-exported terminally and via glob.
pub struct CrossStruct {
    /// A value carried by the struct.
    pub value: i32,
}

impl CrossStruct {
    /// Constructs a new `CrossStruct`.
    pub fn new(value: i32) -> (r: Self)
        ensures
            r.value == value,
    {
        CrossStruct { value }
    }
}

/// A function re-exported terminally and via glob.
pub fn cross_fn() -> (r: &'static str)
    ensures
        r == "from inner",
{
    "from inner"
}

/// A constant re-exported terminally.
pub const CROSS_CONST: u32 = 42;

/// An item nested inside a module that is re-exported as a module.
pub struct ModItem {
    /// A description.
    pub description: &'static str,
}

} // verus!
