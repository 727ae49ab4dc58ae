//! Parts of a JavaScript toolchain: the grammar of classes, a lint rule on React code, and the
//! macro that declares lint rules.
pub mod class;
pub mod lint_macro;
pub mod linter;
pub mod span;
pub mod text;
