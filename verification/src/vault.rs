//! The modeled directory tree ("vault") and the pure policy predicates that
//! decide which files count as notes and which directories are skipped.

use vstd::prelude::*;
use vstd::string::StrSliceExecFns;

verus! {

/// One entry of a modeled directory tree.
///
/// The surrounding application builds this model from the real filesystem;
/// the library's traversal logic is verified against it.
pub enum FsEntry {
    /// A readable directory: its final path component and the entries inside it.
    Dir { name: String, entries: Vec<FsEntry> },
    /// A regular file, identified by its full (absolute or root-relative) path.
    File { path: String },
    /// An entry that is neither a readable directory nor a regular file
    /// (broken symlink, permission denied, special file).
    Unreadable,
}

/// A file counts as a note exactly when its name ends in the literal
/// suffix `.md`. Since a path ends with its final component, checking the
/// full path is equivalent to checking the file name.
pub open spec fn is_note_name(s: Seq<char>) -> bool {
    &&& s.len() >= 3
    &&& s[s.len() - 3] == '.'
    &&& s[s.len() - 2] == 'm'
    &&& s[s.len() - 1] == 'd'
}

/// A directory is excluded from traversal exactly when its final path
/// component starts with a dot: hidden directories, and in particular a
/// version-control tool's own metadata directory, are not part of the vault.
pub open spec fn is_excluded_dir_name(s: Seq<char>) -> bool {
    s.len() > 0 && s[0] == '.'
}

/// The note files of one entry, in depth-first traversal order:
/// a regular file contributes its own path when it is a note, an unreadable
/// entry contributes nothing, and a non-excluded directory contributes the
/// note files of its entries in order.
pub open spec fn note_files(e: FsEntry) -> Seq<Seq<char>>
    decreases e,
{
    match e {
        FsEntry::File { path } => if is_note_name(path@) {
            seq![path@]
        } else {
            Seq::empty()
        },
        FsEntry::Unreadable => Seq::empty(),
        FsEntry::Dir { name, entries } => if is_excluded_dir_name(name@) {
            Seq::empty()
        } else {
            note_files_list(entries@)
        },
    }
}

/// The note files contributed by a sequence of sibling entries, in order.
pub open spec fn note_files_list(s: Seq<FsEntry>) -> Seq<Seq<char>>
    decreases s,
{
    if s.len() == 0 {
        Seq::empty()
    } else {
        note_files(s[0]) + note_files_list(s.drop_first())
    }
}

/// Every path that discovery can yield from an entry names a note file:
/// nothing without the `.md` suffix is ever returned.
pub proof fn lemma_note_files_have_note_suffix(e: FsEntry, k: int)
    requires
        0 <= k < note_files(e).len(),
    ensures
        is_note_name(note_files(e)[k]),
    decreases e,
{
    match e {
        FsEntry::File { path } => {},
        FsEntry::Unreadable => {},
        FsEntry::Dir { name, entries } => {
            if !is_excluded_dir_name(name@) {
                lemma_note_files_list_have_note_suffix(entries@, k);
            }
        },
    }
}

/// Every path that discovery can yield from a sequence of sibling entries
/// names a note file.
pub proof fn lemma_note_files_list_have_note_suffix(s: Seq<FsEntry>, k: int)
    requires
        0 <= k < note_files_list(s).len(),
    ensures
        is_note_name(note_files_list(s)[k]),
    decreases s,
{
    if s.len() > 0 {
        if k < note_files(s[0]).len() {
            lemma_note_files_have_note_suffix(s[0], k);
        } else {
            lemma_note_files_list_have_note_suffix(s.drop_first(), k - note_files(s[0]).len());
        }
    }
}

/// A directory whose name marks it as excluded contributes nothing,
/// whatever it contains.
pub proof fn lemma_excluded_dir_contributes_nothing(name: String, entries: Vec<FsEntry>)
    requires
        is_excluded_dir_name(name@),
    ensures
        note_files(FsEntry::Dir { name, entries }) == Seq::<Seq<char>>::empty(),
{
}

/// Executable form of `is_note_name`.
pub fn has_note_suffix(p: &str) -> (b: bool)
    ensures
        b == is_note_name(p@),
{
    let l: usize = p.unicode_len();
    if l < 3 {
        false
    } else {
        p.get_char(l - 3) == '.' && p.get_char(l - 2) == 'm' && p.get_char(l - 1) == 'd'
    }
}

/// Executable form of `is_excluded_dir_name`.
pub fn is_excluded_dir(name: &str) -> (b: bool)
    ensures
        b == is_excluded_dir_name(name@),
{
    let l: usize = name.unicode_len();
    l > 0 && name.get_char(0) == '.'
}

} // verus!
