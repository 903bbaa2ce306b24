//! A small path-pattern language: segments separated by `/`, a wildcard `*` at
//! either end of a segment, and `...` for any number of directory levels.

pub mod component;
pub mod eval;
pub mod lexer;
pub mod pattern;
pub mod roots;
pub mod text;
