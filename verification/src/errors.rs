//! The library's error type.

use vstd::prelude::*;

verus! {

/// Why a command could not complete.
#[derive(Debug, Clone, Copy, PartialEq, Eq, Structural)]
pub enum NoteError {
    /// The root of the walk does not exist, is not a directory, or cannot be
    /// opened. Only the root is fatal; unreadable entries below it are skipped.
    DirectoryUnreadable,
    /// The pattern matched none of the discovered note files.
    NoMatch,
}

} // verus!
