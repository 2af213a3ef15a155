//! Query engine, renderers and helpers for a Rust documentation browser.
pub mod text;
pub mod keyed;
pub mod types;
pub mod error;
pub mod fixtures;
pub mod sort;
pub mod cli;
pub mod cache;
pub mod query;
pub mod search;
pub mod session;
pub mod signature;
pub mod source;
pub mod resolution;
pub mod resolve;
pub mod reexport;
pub mod render;
pub mod stdlib;
pub mod docgen;
pub mod external;
pub mod index_builder;
pub mod crate_model;
pub mod index_build;
