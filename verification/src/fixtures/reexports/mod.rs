//! Specific and glob re-exports.
mod glob_source;
mod inner;

pub use glob_source::{glob_fn, GlobItem};
pub use inner::inner_fn;
pub use inner::Helper;
