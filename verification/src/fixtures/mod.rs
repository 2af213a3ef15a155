//! A small sample API exercising every item kind the browser renders.
//!
//! Its documentation is what the end-to-end scenarios query: structs,
//! enums, traits, functions, constants, nested modules and re-exports.
pub mod containers;
pub mod deeply;
pub mod inner_crate;
pub mod reexports;
pub mod traits;

use vstd::prelude::*;

verus! {

/// A generic container holding a single value.
pub struct GenericStruct<T: Clone> {
    value: T,
}

impl<T: Clone> GenericStruct<T> {
    /// The held value.
    pub closed spec fn spec_value(&self) -> T {
        self.value
    }

    /// The container holding `value`.
    pub closed spec fn spec_new(value: T) -> Self {
        GenericStruct { value }
    }

    /// `into_inner` undoes `new`: the container made from a value holds
    /// exactly that value, which is what `into_inner` (and `value`) give back.
    pub proof fn lemma_into_inner_undoes_new(value: T)
        ensures
            Self::spec_new(value).spec_value() == value,
    {
    }

    /// Creates a new `GenericStruct` with the given value.
    pub fn new(value: T) -> (r: Self)
        ensures
            r == Self::spec_new(value),
            r.spec_value() == value,
    {
        GenericStruct { value }
    }

    /// Returns a reference to the inner value.
    pub fn value(&self) -> (r: &T)
        ensures
            *r == self.spec_value(),
    {
        &self.value
    }

    /// Converts into the inner value, consuming self.
    pub fn into_inner(self) -> (r: T)
        ensures
            r == self.spec_value(),
    {
        self.value
    }
}

/// A simple struct with no generics.
pub struct SimpleStruct {
    /// The name field.
    pub name: String,
    /// The count field.
    pub count: u32,
}

/// An enum representing cardinal directions.
#[derive(Debug, Clone, Copy, PartialEq, Eq, Structural)]
pub enum Direction {
    /// Points north.
    North,
    /// Points south.
    South,
    /// Points east.
    East,
    /// Points west.
    West,
}

/// Adds two numbers together.
pub fn add(a: i32, b: i32) -> (r: i32)
    requires
        i32::MIN <= a + b <= i32::MAX,
    ensures
        r == a + b,
{
    a + b
}

/// The maximum buffer size in bytes.
pub const MAX_BUFFER_SIZE: usize = 4096;

/// The default greeting string.
pub const DEFAULT_GREETING: &'static str = "hello";

/// A simple static string.
pub const VERSION: &'static str = "0.1.0";

/// An item documented as only available with the `unstable` feature.
pub fn unstable_api() -> (r: &'static str)
    ensures
        r == "unstable",
{
    "unstable"
}

/// A struct documented as feature-gated.
pub struct UnstableStruct {
    /// An experimental field.
    pub experimental: bool,
}

/// A function demonstrating unicode in documentation.
///
/// Supports multi-language output: "こんにちは" (Japanese), "café" (French),
/// "naïve" (English), and emoji: 🦀🔧.
pub fn unicode_docs() -> (r: &'static str)
    ensures
        r == "こんにちは",
{
    "こんにちは"
}

} // verus!
