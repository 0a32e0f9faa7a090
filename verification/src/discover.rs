//! Verified discovery of note files: an iterative, depth-first walk over the
//! modeled directory tree that returns exactly the note files described by
//! `vault::note_files_list`.

use vstd::prelude::*;
use crate::vault::{FsEntry, note_files, note_files_list};
use crate::errors::NoteError;
use crate::vault::{has_note_suffix, is_excluded_dir};

verus! {

/// The view of a sequence of owned strings as a sequence of character sequences.
pub open spec fn views_of(v: Seq<String>) -> Seq<Seq<char>> {
    v.map_values(|s: String| s@)
}

/// Number of tree nodes in one entry; the walk's termination measure.
pub open spec fn entry_size(e: FsEntry) -> nat
    decreases e,
{
    match e {
        FsEntry::File { .. } => 1,
        FsEntry::Unreadable => 1,
        FsEntry::Dir { name: _, entries } => 1 + list_size(entries@),
    }
}

/// Number of tree nodes in a sequence of sibling entries.
pub open spec fn list_size(s: Seq<FsEntry>) -> nat
    decreases s,
{
    if s.len() == 0 {
        0
    } else {
        entry_size(s[0]) + list_size(s.drop_first())
    }
}

/// The note files still owed by a work stack, top of stack first.
pub open spec fn files_of_stack(s: Seq<&FsEntry>) -> Seq<Seq<char>>
    decreases s.len(),
{
    if s.len() == 0 {
        Seq::empty()
    } else {
        note_files(*s.last()) + files_of_stack(s.drop_last())
    }
}

/// Total number of tree nodes on a work stack.
pub open spec fn size_of_stack(s: Seq<&FsEntry>) -> nat
    decreases s.len(),
{
    if s.len() == 0 {
        0
    } else {
        entry_size(*s.last()) + size_of_stack(s.drop_last())
    }
}

/// Pushes `children` onto the work stack in reverse order, so that they will
/// be popped (and hence visited) in their original order.
fn push_entries<'a>(stack: &mut Vec<&'a FsEntry>, children: &'a Vec<FsEntry>)
    ensures
        files_of_stack(final(stack)@) == note_files_list(children@) + files_of_stack(
            old(stack)@,
        ),
        size_of_stack(final(stack)@) == list_size(children@) + size_of_stack(old(stack)@),
{
    let ghost base = stack@;
    let n: usize = children.len();
    let mut i: usize = 0;
    while i < n
        invariant
            i <= n,
            n == children@.len(),
            files_of_stack(stack@) == note_files_list(children@.skip(n - i)) + files_of_stack(
                base,
            ),
            size_of_stack(stack@) == list_size(children@.skip(n - i)) + size_of_stack(base),
        decreases n - i,
    {
        let ghost prev = stack@;
        let ghost j = (n - 1 - i) as int;
        let c: &FsEntry = &children[n - 1 - i];
        stack.push(c);
        proof {
            assert(stack@.drop_last() =~= prev);
            assert(children@.skip(j).drop_first() =~= children@.skip(j + 1));
            assert(children@.skip(j)[0] == children@[j]);
        }
        i = i + 1;
    }
    proof {
        assert(children@.skip(0) =~= children@);
    }
}

/// Returns the paths of all note files under a sequence of sibling entries,
/// in depth-first traversal order, using an explicit work stack rather than
/// recursion so that deeply nested trees cannot exhaust the call stack.
fn walk(entries: &Vec<FsEntry>) -> (r: Vec<String>)
    ensures
        views_of(r@) == note_files_list(entries@),
{
    let mut result: Vec<String> = Vec::new();
    let mut stack: Vec<&FsEntry> = Vec::new();
    push_entries(&mut stack, entries);
    proof {
        assert(views_of(result@) =~= Seq::<Seq<char>>::empty());
        assert(files_of_stack(Seq::<&FsEntry>::empty()) == Seq::<Seq<char>>::empty());
    }
    while stack.len() > 0
        invariant
            views_of(result@) + files_of_stack(stack@) == note_files_list(entries@),
        decreases size_of_stack(stack@),
    {
        let ghost prev_stack = stack@;
        let ghost prev_result = result@;
        let e: &FsEntry = stack.pop().unwrap();
        proof {
            assert(stack@ =~= prev_stack.drop_last());
            assert(*e == *prev_stack.last());
        }
        match e {
            FsEntry::File { path } => {
                if has_note_suffix(path.as_str()) {
                    result.push(path.clone());
                    proof {
                        assert(views_of(result@) =~= views_of(prev_result).push(path@));
                        assert(views_of(result@) + files_of_stack(stack@) =~= views_of(
                            prev_result,
                        ) + (note_files(*e) + files_of_stack(stack@)));
                    }
                }
            },
            FsEntry::Dir { name, entries: children } => {
                if !is_excluded_dir(name.as_str()) {
                    let ghost popped = stack@;
                    push_entries(&mut stack, children);
                    proof {
                        assert(views_of(result@) + files_of_stack(stack@) =~= views_of(
                            result@,
                        ) + (note_files(*e) + files_of_stack(popped)));
                    }
                }
            },
            FsEntry::Unreadable => {},
        }
    }
    proof {
        assert(views_of(result@) + files_of_stack(stack@) =~= views_of(result@));
    }
    result
}

/// An empty directory contributes no note files; together with
/// `find_note_files`'s contract, discovery on an empty directory succeeds
/// with an empty result rather than failing.
pub proof fn lemma_empty_dir_no_notes()
    ensures
        note_files_list(Seq::<FsEntry>::empty()) == Seq::<Seq<char>>::empty(),
{
}

/// Partial-failure tolerance: inserting an unreadable entry anywhere among a
/// directory's entries leaves the discovered note files exactly as they were.
pub proof fn lemma_unreadable_entry_skipped(s: Seq<FsEntry>, i: int)
    requires
        0 <= i <= s.len(),
    ensures
        note_files_list(s.insert(i, FsEntry::Unreadable)) == note_files_list(s),
    decreases i,
{
    let t = s.insert(i, FsEntry::Unreadable);
    if i == 0 {
        assert(t[0] == FsEntry::Unreadable);
        assert(t.drop_first() =~= s);
        assert(note_files(FsEntry::Unreadable) + note_files_list(s) =~= note_files_list(s));
    } else {
        assert(t[0] == s[0]);
        assert(t.drop_first() =~= s.drop_first().insert(i - 1, FsEntry::Unreadable));
        lemma_unreadable_entry_skipped(s.drop_first(), i - 1);
    }
}

/// Discovers every note file under `root`, in depth-first order.
///
/// The walk succeeds exactly when `root` itself is a readable directory;
/// failures below the root (unreadable entries) are skipped, not fatal.
/// The root directory's own name is never subject to the hidden-directory
/// exclusion: the caller chose it deliberately.
pub fn find_note_files(root: &FsEntry) -> (r: Result<Vec<String>, NoteError>)
    ensures
        root is Dir ==> r is Ok && views_of(r->Ok_0@) == note_files_list(root->Dir_entries@),
        !(root is Dir) ==> r == Err::<Vec<String>, NoteError>(NoteError::DirectoryUnreadable),
{
    match root {
        FsEntry::Dir { name: _, entries } => Ok(walk(entries)),
        _ => Err(NoteError::DirectoryUnreadable),
    }
}

} // verus!
