//! Composition of calendar feeds: a declarative configuration tree is turned
//! into one calendar document by fetching, modifying and merging.

pub mod cache;
pub mod compose;
pub mod config;
pub mod document;
pub mod error;
pub mod framing;
pub mod ical;
pub mod modification;
pub mod names;
pub mod refresh;
pub mod template;
