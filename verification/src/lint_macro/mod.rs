//! The macro `declare_oxc_lint!`: from the declaration of a lint rule to its metadata, and from
//! the metadata to the code that the macro stands for.
pub mod fix;
pub mod laws;
pub mod meta;
pub mod meta_laws;
pub mod output;
pub mod tokens;
