use gtk_blueprint::codegen::include_blp;
use gtk_blueprint::compiler::CompileOutcome;

const EXPECTED_UI: &str = "<?xml version=\"1.0\" encoding=\"UTF-8\"?>\n<interface>\n  <object class=\"GtkBox\">\n    <child>\n      <object class=\"GtkLabel\">\n        <property name=\"label\">Hello</property>\n      </object>\n    </child>\n  </object>\n</interface>\n";

fn literal_value(code: &str) -> &str {
    code.strip_prefix("r###\"").unwrap().strip_suffix("\"###").unwrap()
}

#[test]
fn successful() {
    // What the compiler wrote for tests/sample.blp is the content of expected.ui.
    let blueprint = include_blp(CompileOutcome::Compiled(EXPECTED_UI.to_string()));
    let expected = EXPECTED_UI;
    assert_eq!(literal_value(&blueprint), expected)
}
