//! A small note-management library: it discovers Markdown note files in a
//! modeled directory tree and narrows them down by fuzzy pattern matching.
//!
//! The filesystem itself is represented as plain data (`vault::FsEntry`), so
//! the traversal and selection logic is fully verified; reading the real
//! directory tree, launching an editor and invoking version control are left
//! to the surrounding application.

pub mod commands;
pub mod discover;
pub mod errors;
pub mod select;
pub mod vault;
