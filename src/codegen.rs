//! The Rust code that the pipeline hands to the build: raw string literals
//! holding compiled UI XML, `compile_error!` invocations, and the static
//! `phf::Map` written by `phf_codegen`.
use vstd::prelude::*;
use crate::catalog::{keys_distinct, AggregateCompileError, Catalog};
use crate::compiler::{error_text, CompileError, CompileOutcome};
use crate::paths::{normalize_path, normalized};

verus! {

#[verifier::external_type_specification]
#[verifier::external_body]
#[verifier::reject_recursive_types(K)]
pub struct ExPhfMapBuilder<K>(phf_codegen::Map<K>);

/// The (key, value code) pairs added to a `phf_codegen` map builder, in order.
pub uninterp spec fn phf_entries(m: phf_codegen::Map<String>) -> Seq<(Seq<char>, Seq<char>)>;

/// The source text of the `phf::Map` that `phf_codegen` writes for the given
/// entries.
pub uninterp spec fn phf_map_code(entries: Seq<(Seq<char>, Seq<char>)>) -> Seq<char>;

/// Relies on `phf_codegen::Map::new`: a builder with no entries.
#[verifier::external_body]
pub(crate) fn phf_builder_new() -> (r: phf_codegen::Map<String>)
    ensures
        phf_entries(r) == Seq::<(Seq<char>, Seq<char>)>::empty(),
{
    phf_codegen::Map::new()
}

/// Relies on `phf_codegen::Map::entry`: it appends the key and the value's
/// code to the builder's entries.
#[verifier::external_body]
pub(crate) fn phf_builder_entry(m: &mut phf_codegen::Map<String>, key: String, value: &str)
    ensures
        phf_entries(*final(m)) == phf_entries(*old(m)).push((key@, value@)),
{
    m.entry(key, value);
}

/// Relies on `phf_codegen::Map::build` and the `Display` of what it returns:
/// the source of the map, a function of the entries alone (the hash seed is
/// fixed). `build` panics on a duplicate key.
#[verifier::external_body]
pub(crate) fn phf_builder_code(m: &phf_codegen::Map<String>) -> (r: String)
    requires
        keys_distinct(phf_entries(*m)),
    ensures
        r@ == phf_map_code(phf_entries(*m)),
{
    m.build().to_string()
}

/// The name of the static that holds the generated map.
pub open spec fn map_name() -> Seq<char> {
    "__COMPILED_BLUEPRINT_MAP__"@
}

/// `text` as a raw string literal: `r###"text"###`.
pub open spec fn raw_literal(text: Seq<char>) -> Seq<char> {
    "r###\""@ + text + "\"###"@
}

/// An expression that stops the build with `message`.
pub open spec fn compile_error_text(message: Seq<char>) -> Seq<char> {
    "compile_error!(\""@ + message + "\")"@
}

/// Wraps `text` in a raw string literal, verbatim.
pub fn embed_literal(text: &str) -> (r: String)
    ensures
        r@ == raw_literal(text@),
{
    String::from_str("r###\"").concat(text).concat("\"###")
}

/// A `compile_error!` invocation carrying `message`.
pub fn compile_error_expr(message: &str) -> (r: String)
    ensures
        r@ == compile_error_text(message@),
{
    String::from_str("compile_error!(\"").concat(message).concat("\")")
}

/// The embeddable literal for a compiled file, or the error that stops the
/// build.
pub fn generate_single(outcome: CompileOutcome) -> (r: Result<String, CompileError>)
    ensures
        match outcome {
            CompileOutcome::Compiled(t) => r matches Ok(s) && s@ == raw_literal(t@),
            CompileOutcome::Failed(e) => r == Err::<String, CompileError>(e),
        },
{
    match outcome {
        CompileOutcome::Compiled(t) => Ok(embed_literal(t.as_str())),
        CompileOutcome::Failed(e) => Err(e),
    }
}

/// The code that a single embedded Blueprint expands to: the raw literal of
/// the compiled XML, or a `compile_error!` with the diagnostic.
pub fn include_blp(outcome: CompileOutcome) -> (r: String)
    ensures
        r@ == match outcome {
            CompileOutcome::Compiled(t) => raw_literal(t@),
            CompileOutcome::Failed(e) => compile_error_text(error_text(e)),
        },
{
    match generate_single(outcome) {
        Ok(s) => s,
        Err(e) => {
            let m = e.message();
            compile_error_expr(m.as_str())
        },
    }
}

/// What a lookup expands to: a `get` on the generated map when the file
/// exists, else a `compile_error!` naming it.
pub open spec fn lookup_code(key: Seq<char>, exists: bool) -> Seq<char> {
    if exists {
        map_name() + ".get(\""@ + key + "\").expect(\"Blueprint did not compile correctly\")"@
    } else {
        compile_error_text("Error getting blueprint \\\""@ + key + "\\\": File Not Found."@)
    }
}

/// The code that fetches the compiled Blueprint `path` from the generated
/// map; `exists` says whether the file is on disk. The path is normalized
/// first, as the map's keys were.
pub fn get_blp(path: &str, exists: bool) -> (r: String)
    ensures
        r@ == lookup_code(normalized(path@), exists),
{
    let key = normalize_path(path);
    if exists {
        String::from_str("__COMPILED_BLUEPRINT_MAP__").concat(".get(\"").concat(key.as_str()).concat(
            "\").expect(\"Blueprint did not compile correctly\")",
        )
    } else {
        let m = String::from_str("Error getting blueprint \\\"").concat(key.as_str()).concat(
            "\\\": File Not Found.",
        );
        compile_error_expr(m.as_str())
    }
}

/// The directory a map search starts from: the project root when none is
/// given.
pub open spec fn start_dir(input: Seq<char>) -> Seq<char> {
    if input.len() == 0 {
        "."@
    } else {
        input
    }
}

/// The directory to search for a map, given the macro's argument.
pub fn search_root(input: &str) -> (r: String)
    ensures
        r@ == start_dir(input@),
{
    if input.unicode_len() == 0 {
        String::from_str(".")
    } else {
        String::from_str(input)
    }
}

/// The catalog's entries with each text as a raw string literal.
pub open spec fn embedded_entries(entries: Seq<(Seq<char>, Seq<char>)>) -> Seq<
    (Seq<char>, Seq<char>),
> {
    entries.map_values(|e: (Seq<char>, Seq<char>)| (e.0, raw_literal(e.1)))
}

/// The static item that holds the generated map, whose source is `code`.
pub open spec fn static_map_text(code: Seq<char>) -> Seq<char> {
    "pub static "@ + map_name() + ": phf::Map<&'static str, &'static str> = "@ + code + ";\n"@
}

/// The message that stops the build when some file of a map failed.
pub open spec fn aggregate_failure_text() -> Seq<char> {
    "One or more Blueprints had errors and could not be compiled. Check output of `cargo build` for more details`"@
}

/// What the map generation expands to: the static map of a catalog, or a
/// single `compile_error!` when any file failed.
pub fn gen_blp_map(generated: &Result<Catalog, AggregateCompileError>) -> (r: String)
    ensures
        r@ == match generated {
            Ok(c) => static_map_text(phf_map_code(embedded_entries(c@))),
            Err(_) => compile_error_text(aggregate_failure_text()),
        },
{
    match generated {
        Ok(c) => {
            let code = c.code();
            String::from_str("pub static ").concat("__COMPILED_BLUEPRINT_MAP__").concat(
                ": phf::Map<&'static str, &'static str> = ",
            ).concat(code.as_str()).concat(";\n")
        },
        Err(_) => compile_error_expr(
            "One or more Blueprints had errors and could not be compiled. Check output of `cargo build` for more details`",
        ),
    }
}

} // verus!
