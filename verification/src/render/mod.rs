//! Shared rendering helpers: markdown stripping, doc truncation and the
//! display model of an item.
pub mod markdown;
pub mod truncate;
pub mod display;
pub mod text;
pub mod brief;
pub mod dispatch;
pub mod ambiguous;
pub mod listing;
pub mod json;
pub mod recursive;
