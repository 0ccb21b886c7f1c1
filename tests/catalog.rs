use gtk_blueprint::catalog::generate_catalog;
use gtk_blueprint::compiler::{CompileError, CompileOutcome};

fn ok(path: &str, text: &str) -> (String, CompileOutcome) {
    (path.to_string(), CompileOutcome::Compiled(text.to_string()))
}

fn bad(path: &str, stdout: &str) -> (String, CompileOutcome) {
    (
        path.to_string(),
        CompileOutcome::Failed(CompileError::Compile {
            code: Some(1),
            stdout: stdout.to_string(),
            stderr: String::new(),
        }),
    )
}

#[test]
fn one_entry_per_file_keyed_by_normalized_path() {
    let results = vec![ok("./root.blp", "<root/>"), ok("./src/util.blp", "<util/>")];
    let catalog = generate_catalog(&results).ok().expect("all sources compiled");
    assert_eq!(catalog.len(), 2);
    assert_eq!(catalog.lookup("root.blp").ok().unwrap(), "<root/>");
    assert_eq!(catalog.lookup("src/util.blp").ok().unwrap(), "<util/>");
    assert_eq!(catalog.lookup("./src/util.blp").ok().unwrap(), "<util/>");
}

#[test]
fn missing_key_is_key_error() {
    let results = vec![ok("./root.blp", "<root/>")];
    let catalog = generate_catalog(&results).ok().unwrap();
    let err = catalog.lookup("./other.blp").err().expect("absent key");
    assert_eq!(err.key, "other.blp");
}

#[test]
fn every_failure_is_listed_and_no_catalog() {
    let results = vec![bad("./a.blp", "bad a"), ok("./b.blp", "<b/>"), bad("./c/d.blp", "bad d")];
    let err = generate_catalog(&results).err().expect("failures");
    assert_eq!(err.failures.len(), 2);
    assert_eq!(err.failures[0].0, "a.blp");
    assert_eq!(err.failures[0].1.message(), "blueprint-compiler exit code: 1\nbad a\n");
    assert_eq!(err.failures[1].0, "c/d.blp");
}

#[test]
fn tool_not_found_counts_as_failure() {
    let results =
        vec![ok("./b.blp", "<b/>"), ("./a.blp".to_string(), CompileOutcome::Failed(CompileError::ToolNotFound))];
    let err = generate_catalog(&results).err().unwrap();
    assert_eq!(err.failures.len(), 1);
    assert!(matches!(err.failures[0].1, CompileError::ToolNotFound));
}

#[test]
fn empty_tree_gives_empty_catalog() {
    let catalog = generate_catalog(&vec![]).ok().unwrap();
    assert_eq!(catalog.len(), 0);
    assert!(catalog.lookup("a.blp").is_err());
}

#[test]
fn equal_keys_keep_the_first() {
    let results = vec![ok("./a.blp", "first"), ok("a.blp", "second")];
    let catalog = generate_catalog(&results).ok().unwrap();
    assert_eq!(catalog.len(), 1);
    assert_eq!(catalog.lookup("a.blp").ok().unwrap(), "first");
}
