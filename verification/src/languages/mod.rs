//! Language front ends: each turns a source file into a `TestFile`.
pub mod python;
pub mod line_rules;
pub mod go;
pub mod shell;
pub mod swift;
pub mod rust;
pub mod rust_syntax;

use vstd::prelude::*;
use crate::model::smell::TestFile;

verus! {

/// A language front end.
pub trait LanguageParser {
    /// The file extensions it reads.
    fn extensions(&self) -> Vec<&'static str>;

    /// The language's name.
    fn language_name(&self) -> &'static str;

    /// The test file that `source`, read from `path`, holds; `None` when
    /// the file is not one this front end takes.
    fn parse(&self, path: &str, source: &str) -> Option<TestFile>;
}

} // verus!
