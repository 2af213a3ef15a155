//! Trait definitions: required and provided methods, associated types and constants.
use vstd::prelude::*;
use crate::text::{append, append_str, chars_of, string_of};

verus! {

/// A trait for items that can be turned into a string representation.
pub trait Stringify {
    /// The string representation of this value.
    spec fn text(&self) -> Seq<char>;

    /// Converts this value to its string representation.
    fn stringify(&self) -> (r: String)
        ensures
            r@ == self.text(),
    ;

    /// Returns a debug-formatted string representation: `[debug: <stringify>]`.
    fn debug_string(&self) -> (r: String)
        ensures
            r@ == "[debug: "@ + self.text() + "]"@,
    {
        let s = self.stringify();
        let mut out: Vec<char> = Vec::new();
        append_str(&mut out, "[debug: ");
        append_str(&mut out, s.as_str());
        append_str(&mut out, "]");
        string_of(out.as_slice())
    }
}

/// A trait with associated types and a constant.
pub trait Processor {
    /// The type of input this processor accepts.
    type Input;
    /// The type of output this processor produces.
    type Output;

    /// Processes a single input and returns the output.
    fn process(&self, input: Self::Input) -> Self::Output;

    /// Returns whether this processor is ready.
    fn is_ready(&self) -> bool {
        true
    }
}

/// A trait that extends `Stringify` with a description.
pub trait Describable: Stringify {
    /// Returns a human-readable description.
    fn describe(&self) -> String;
}

impl Stringify for String {
    open spec fn text(&self) -> Seq<char> {
        self@
    }

    fn stringify(&self) -> (r: String) {
        self.clone()
    }
}

/// The decimal text of a signed integer.
pub open spec fn signed_decimal(v: int) -> Seq<char> {
    if v < 0 {
        seq!['-'] + crate::text::decimal((-v) as nat)
    } else {
        crate::text::decimal(v as nat)
    }
}

impl Stringify for i32 {
    open spec fn text(&self) -> Seq<char> {
        signed_decimal(*self as int)
    }

    fn stringify(&self) -> (r: String) {
        let v = *self;
        let mut out: Vec<char> = Vec::new();
        let mag: u64 = if v < 0 { (-(v as i64)) as u64 } else { v as u64 };
        if v < 0 {
            out.push('-');
        }
        let d = crate::text::decimal_exec(mag);
        append(&mut out, d.as_slice());
        assert(out@ =~= signed_decimal(v as int));
        string_of(out.as_slice())
    }
}

} // verus!
