//! Typed views over a decoded save document, and the writer that patches
//! edited values back into the same positions of the property tree.
//!
//! A document is a tree of named, tagged values ([`property`]). Fields are
//! reached by name and narrowed to an expected kind ([`accessor`]); the
//! resource quantities live in one nested map keyed by 16-byte identifiers
//! ([`resources`], [`guid`]). The builders in [`save_file`] read the domain
//! views from a document, and [`save_file::SaveFile::save`] writes them back
//! in place. [`registry`] holds the fixed identifiers and tables.
//!
//! Every function carries a contract over the mathematical model of the
//! document, and [`laws`] proves what reading and writing guarantee together:
//! that writing back what was read changes nothing, that what was written is
//! read back, and that the writer touches only the leaves it owns.
//!
//! Floating-point quantities are carried as their bit patterns
//! ([`property::FloatLeaf`]): the library moves them and never computes with
//! them. Decoding and encoding documents is left to the caller.

pub mod accessor;
pub mod error;
pub mod guid;
pub mod laws;
pub mod path;
pub mod property;
pub mod registry;
pub mod resources;
pub mod save_file;
pub mod search;

pub use resources::{get_owned_resources, get_owned_resources_mut};
