//! A lint rule on React code, and the parts of the linter that it needs.
pub mod ast;
pub mod component;
pub mod context;
pub mod laws;
pub mod no_string_refs;
