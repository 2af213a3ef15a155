//! The deepest level of nesting.
use vstd::prelude::*;

verus! {

/// A function at the deepest nesting level.
pub fn deep_fn() -> (r: &'static str)
    ensures
        r == "deep",
{
    "deep"
}

/// A struct at 3 levels of nesting.
pub struct InnerItem {
    /// A label for this item.
    pub label: String,
}

/// A constant at the deepest level.
pub const DEPTH: u32 = 3;

} // verus!
