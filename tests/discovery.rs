use gtk_blueprint::discovery::{is_excluded_dir, is_source_file, join_path, search_blps, DirEntry, EntryKind};

fn file(name: &str) -> DirEntry {
    DirEntry { name: Some(name.to_string()), kind: EntryKind::File }
}

fn dir(name: &str, entries: Vec<DirEntry>) -> DirEntry {
    DirEntry { name: Some(name.to_string()), kind: EntryKind::Directory(entries) }
}

#[test]
fn names() {
    assert!(is_excluded_dir(".git"));
    assert!(is_excluded_dir("target"));
    assert!(!is_excluded_dir("src"));
    assert!(!is_excluded_dir(".gitx"));
    assert!(is_source_file("a.blp"));
    assert!(is_source_file(".blp"));
    assert!(!is_source_file("a.blpx"));
    assert!(!is_source_file("blp"));
    assert_eq!(join_path(".", "a.blp"), "./a.blp");
}

#[test]
fn finds_every_source_file() {
    let tree = vec![
        file("a.blp"),
        file("notes.txt"),
        dir("src", vec![file("b.blp"), dir("ui", vec![file("c.blp")])]),
        DirEntry { name: Some("link.blp".to_string()), kind: EntryKind::Symlink },
    ];
    let found = search_blps(".", &tree);
    assert_eq!(found, vec!["./a.blp", "./src/b.blp", "./src/ui/c.blp", "./link.blp"]);
    assert!(found.iter().all(|p| p.ends_with(".blp")));
}

#[test]
fn skips_excluded_directories() {
    let tree = vec![
        dir(".git", vec![file("ignored.blp")]),
        dir("target", vec![file("ignored.blp"), dir("deep", vec![file("x.blp")])]),
        file("root.blp"),
    ];
    assert_eq!(search_blps(".", &tree), vec!["./root.blp"]);
}

#[test]
fn skips_undecodable_and_unreadable_entries() {
    let tree = vec![
        DirEntry { name: None, kind: EntryKind::File },
        DirEntry { name: None, kind: EntryKind::Directory(vec![file("a.blp")]) },
        DirEntry { name: Some("b.blp".to_string()), kind: EntryKind::Unknown },
        DirEntry { name: Some("c.blp".to_string()), kind: EntryKind::Other },
    ];
    assert!(search_blps(".", &tree).is_empty());
}

#[test]
fn empty_tree() {
    assert!(search_blps(".", &vec![]).is_empty());
}

#[test]
fn starts_from_given_directory() {
    let tree = vec![file("a.blp")];
    assert_eq!(search_blps("ui", &tree), vec!["ui/a.blp"]);
}
