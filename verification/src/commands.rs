//! The two user-facing operations: listing all note files, and resolving a
//! pattern to the single note file to edit. Launching the editor and the
//! version-control sync are left to the surrounding application; this module
//! decides, verifiably, what they should be run on.

use vstd::prelude::*;
use crate::discover::{find_note_files, views_of};
use crate::errors::NoteError;
use crate::select::{select, selected};
use crate::vault::{FsEntry, note_files_list};

verus! {

/// What the `edit` operation resolved to.
#[derive(Debug)]
pub enum EditOutcome {
    /// Exactly one note matched: open it in the editor, then sync.
    Open(String),
    /// Several notes matched: print them all and edit nothing, so that the
    /// wrong file is never edited silently.
    Ambiguous(Vec<String>),
}

/// The lines that the `list` operation prints: every note file under `root`,
/// one per line, in discovery order.
pub fn list(root: &FsEntry) -> (r: Result<Vec<String>, NoteError>)
    ensures
        root is Dir ==> r is Ok && views_of(r->Ok_0@) == note_files_list(root->Dir_entries@),
        !(root is Dir) ==> r == Err::<Vec<String>, NoteError>(NoteError::DirectoryUnreadable),
{
    find_note_files(root)
}

/// Resolves `pattern` against the note files under `root`.
///
/// Exactly one match resolves to opening that file; several matches are
/// reported back unresolved; no match at all is an error, as is a root that
/// cannot be read.
pub fn edit(root: &FsEntry, pattern: &String) -> (r: Result<EditOutcome, NoteError>)
    ensures
        !(root is Dir) ==> r == Err::<EditOutcome, NoteError>(NoteError::DirectoryUnreadable),
        root is Dir ==> {
            let m = selected(note_files_list(root->Dir_entries@), pattern@);
            &&& m.len() == 0 ==> r == Err::<EditOutcome, NoteError>(NoteError::NoMatch)
            &&& m.len() == 1 ==> r is Ok && r->Ok_0 is Open && r->Ok_0->Open_0@ == m[0]
            &&& m.len() > 1 ==> r is Ok && r->Ok_0 is Ambiguous && views_of(
                r->Ok_0->Ambiguous_0@,
            ) == m
        },
{
    let files = match find_note_files(root) {
        Ok(files) => files,
        Err(e) => {
            return Err(e);
        },
    };
    let matched = select(&files, pattern);
    if matched.len() == 1 {
        let path = matched[0].clone();
        Ok(EditOutcome::Open(path))
    } else if matched.len() > 1 {
        Ok(EditOutcome::Ambiguous(matched))
    } else {
        Err(NoteError::NoMatch)
    }
}

} // verus!
