//! Snapshot a directory tree into a portable archive document and rebuild or
//! check a directory tree against it.
pub mod cache;
pub mod codec;
pub mod dialog;
pub mod manifest;
pub mod names;
pub mod plan;
pub mod repo;
pub mod tree;
pub mod validate;
