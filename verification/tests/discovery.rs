use notemanager::discover::find_note_files;
use notemanager::errors::NoteError;
use notemanager::vault::FsEntry;

fn file(path: &str) -> FsEntry {
    FsEntry::File { path: path.to_string() }
}

fn dir(name: &str, entries: Vec<FsEntry>) -> FsEntry {
    FsEntry::Dir { name: name.to_string(), entries }
}

#[test]
fn empty_directory_yields_empty_list() {
    let root = dir("vault", vec![]);
    let found = find_note_files(&root).unwrap();
    assert!(found.is_empty());
}

#[test]
fn unreadable_entries_are_skipped() {
    let root = dir(
        "vault",
        vec![
            file("one.md"),
            FsEntry::Unreadable,
            file("two.md"),
        ],
    );
    let found = find_note_files(&root).unwrap();
    assert_eq!(found, vec!["one.md".to_string(), "two.md".to_string()]);
}

#[test]
fn only_md_files_are_discovered() {
    let root = dir(
        "vault",
        vec![
            file("a.md"),
            dir("b", vec![file("b/c.md"), file("b/d.txt")]),
        ],
    );
    let found = find_note_files(&root).unwrap();
    assert_eq!(found, vec!["a.md".to_string(), "b/c.md".to_string()]);
}

#[test]
fn hidden_directories_are_excluded() {
    let root = dir(
        "vault",
        vec![
            dir(".git", vec![file(".git/stash.md")]),
            file("kept.md"),
            dir(".cache", vec![file(".cache/tmp.md")]),
        ],
    );
    let found = find_note_files(&root).unwrap();
    assert_eq!(found, vec!["kept.md".to_string()]);
}

#[test]
fn discovery_keeps_depth_first_order() {
    let root = dir(
        "vault",
        vec![
            file("z.md"),
            dir("sub", vec![file("sub/inner.md"), dir("sub/deep", vec![file("sub/deep/deepest.md")])]),
            file("a.md"),
        ],
    );
    let found = find_note_files(&root).unwrap();
    assert_eq!(
        found,
        vec![
            "z.md".to_string(),
            "sub/inner.md".to_string(),
            "sub/deep/deepest.md".to_string(),
            "a.md".to_string(),
        ]
    );
}

#[test]
fn unreadable_root_is_an_error() {
    let root = FsEntry::Unreadable;
    assert_eq!(find_note_files(&root).unwrap_err(), NoteError::DirectoryUnreadable);
}

#[test]
fn file_as_root_is_an_error() {
    let root = file("a.md");
    assert_eq!(find_note_files(&root).unwrap_err(), NoteError::DirectoryUnreadable);
}

#[test]
fn suffix_must_end_the_name() {
    let root = dir(
        "vault",
        vec![file("a.md.bak"), file("md"), file(".md"), file("b.md")],
    );
    let found = find_note_files(&root).unwrap();
    assert_eq!(found, vec![".md".to_string(), "b.md".to_string()]);
}
