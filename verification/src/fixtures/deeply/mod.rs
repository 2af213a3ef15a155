//! A module with nested sub-modules (3+ level paths).
pub mod nested;

use vstd::prelude::*;

verus! {

/// A marker type at the `deeply` module level.
pub struct DeepMarker;

} // verus!
