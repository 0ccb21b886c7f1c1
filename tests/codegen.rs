use gtk_blueprint::catalog::generate_catalog;
use gtk_blueprint::codegen::{
    compile_error_expr, embed_literal, gen_blp_map, generate_single, get_blp, include_blp,
    search_root,
};
use gtk_blueprint::compiler::{CompileError, CompileOutcome};
use gtk_blueprint::discovery::{search_blps, DirEntry, EntryKind};

fn file(name: &str) -> DirEntry {
    DirEntry { name: Some(name.to_string()), kind: EntryKind::File }
}

fn dir(name: &str, entries: Vec<DirEntry>) -> DirEntry {
    DirEntry { name: Some(name.to_string()), kind: EntryKind::Directory(entries) }
}

#[test]
fn literal_and_error_forms() {
    assert_eq!(embed_literal("<a href=\"x\"/>"), "r###\"<a href=\"x\"/>\"###");
    assert_eq!(compile_error_expr("boom"), "compile_error!(\"boom\")");
}

#[test]
fn single_file_compiles_to_tool_output() {
    let tool_output = "<interface><object class=\"GtkWindow\"/></interface>\n";
    let embedded = generate_single(CompileOutcome::Compiled(tool_output.to_string()))
        .ok()
        .expect("compiled");
    assert_eq!(embedded, format!("r###\"{tool_output}\"###"));
    assert!(!tool_output.is_empty());
}

#[test]
fn single_file_without_tool_is_fatal() {
    let outcome = CompileOutcome::Failed(CompileError::ToolNotFound);
    let err = generate_single(outcome).err().expect("fatal");
    assert!(matches!(err, CompileError::ToolNotFound));
    let code = include_blp(CompileOutcome::Failed(CompileError::ToolNotFound));
    assert_eq!(
        code,
        "compile_error!(\"Blueprint Compiler not found. Make sure it is in $PATH or ./blueprint-compiler/blueprint-compiler.py\")"
    );
}

#[test]
fn single_file_compile_error_differs_from_missing_tool() {
    let e = CompileError::Compile { code: Some(1), stdout: "x".to_string(), stderr: "y".to_string() };
    let code = include_blp(CompileOutcome::Failed(e));
    assert_eq!(code, "compile_error!(\"blueprint-compiler exit code: 1\nx\ny\")");
}

#[test]
fn lookup_code() {
    assert_eq!(
        get_blp("./src/src.blp", true),
        "__COMPILED_BLUEPRINT_MAP__.get(\"src/src.blp\").expect(\"Blueprint did not compile correctly\")"
    );
    assert_eq!(
        get_blp("./gone.blp", false),
        "compile_error!(\"Error getting blueprint \\\"gone.blp\\\": File Not Found.\")"
    );
}

#[test]
fn search_root_defaults_to_project_root() {
    assert_eq!(search_root(""), ".");
    assert_eq!(search_root("src"), "src");
}

#[test]
fn tree_with_excluded_directories_gives_two_entries() {
    let tree = vec![
        file("root.blp"),
        dir("src", vec![file("util.blp")]),
        dir(".git", vec![file("ignored.blp")]),
        dir("target", vec![file("ignored.blp")]),
    ];
    let found = search_blps(".", &tree);
    let results: Vec<(String, CompileOutcome)> = found
        .iter()
        .map(|p| (p.clone(), CompileOutcome::Compiled(format!("<ui for {p}/>"))))
        .collect();
    let catalog = generate_catalog(&results).ok().expect("all compiled");
    assert_eq!(catalog.len(), 2);
    assert_eq!(catalog.lookup("root.blp").ok().unwrap(), "<ui for ./root.blp/>");
    assert_eq!(catalog.lookup("src/util.blp").ok().unwrap(), "<ui for ./src/util.blp/>");
    assert!(catalog.lookup(".git/ignored.blp").is_err());
    assert!(catalog.lookup("target/ignored.blp").is_err());
}

#[test]
fn map_code_holds_every_entry() {
    let results = vec![
        ("./root.blp".to_string(), CompileOutcome::Compiled("<root/>".to_string())),
        ("./src/util.blp".to_string(), CompileOutcome::Compiled("<util/>".to_string())),
    ];
    let generated = generate_catalog(&results);
    let code = gen_blp_map(&generated);
    assert!(code.starts_with(
        "pub static __COMPILED_BLUEPRINT_MAP__: phf::Map<&'static str, &'static str> = ::phf::Map {"
    ));
    assert!(code.ends_with("};\n"));
    assert!(code.contains("(\"root.blp\", r###\"<root/>\"###)"));
    assert!(code.contains("(\"src/util.blp\", r###\"<util/>\"###)"));
}

#[test]
fn map_with_a_failure_stops_the_build() {
    let results = vec![
        ("./root.blp".to_string(), CompileOutcome::Compiled("<root/>".to_string())),
        ("./bad.blp".to_string(), CompileOutcome::Failed(CompileError::ToolNotFound)),
    ];
    let code = gen_blp_map(&generate_catalog(&results));
    assert_eq!(
        code,
        "compile_error!(\"One or more Blueprints had errors and could not be compiled. Check output of `cargo build` for more details`\")"
    );
}
