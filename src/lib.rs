//! Generation of immutable data classes for Dart sources.
//!
//! A source file is parsed by a lenient grammar that recognises only imports
//! and class declarations (with their annotations, mixins, interfaces and
//! constructors) and skips any other text one character at a time. Classes
//! that carry the `@freezed` annotation are validated and rendered into a
//! companion file: a placeholder base, an abstract declaration and a concrete
//! implementation with value equality, hashing, `toString` and copy-with.
//!
//! Every parser is stated against a grammar given as spec functions over the
//! characters of its input, and every generated block against the exact text
//! it must produce.
use vstd::prelude::*;

pub mod text;
pub mod lexer;
pub mod tokens;
pub mod annotation;
pub mod data_type;
pub mod parameters;
pub mod class;
pub mod import;
pub mod parser;
pub mod validate;
pub mod indent;
pub mod pieces;
pub mod codegen;
pub mod output;

verus! {

} // verus!
