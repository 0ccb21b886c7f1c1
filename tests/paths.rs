use gtk_blueprint::paths::normalize_path;

#[test]
fn strips_leading_dot_slash() {
    assert_eq!(normalize_path("./src/util.blp"), "src/util.blp");
    assert_eq!(normalize_path("src/util.blp"), "src/util.blp");
}

#[test]
fn strips_every_leading_dot_slash() {
    assert_eq!(normalize_path("././a.blp"), "a.blp");
}

#[test]
fn keeps_other_dots() {
    assert_eq!(normalize_path("../a.blp"), "../a.blp");
    assert_eq!(normalize_path(".hidden/a.blp"), ".hidden/a.blp");
    assert_eq!(normalize_path("./"), "");
    assert_eq!(normalize_path(""), "");
}

#[test]
fn normalizing_twice_changes_nothing() {
    for p in ["./a.blp", "././x/./y.blp", "a/b.blp", ".", "./", "../z"] {
        let once = normalize_path(p);
        assert_eq!(normalize_path(&once), once);
    }
}
