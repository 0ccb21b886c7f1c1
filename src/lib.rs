//! Build-time pipeline for Blueprint UI files: discovery of `.blp` sources,
//! the decisions around invoking `blueprint-compiler`, and the generation of
//! the code that embeds the compiled UI XML.
pub mod paths;
pub mod discovery;
pub mod compiler;
pub mod catalog;
pub mod codegen;
