//! The grammar of JavaScript and TypeScript classes.
//!
//! A class is made of parts that belong to other grammars: expressions, types, statements,
//! modifiers, property names. This module reads what is the class's own and hands every other
//! part to the host parser. It asks by a [`host::Request`] and goes on from the
//! [`host::Reply`]. The replies are given up front, in the order in which they are asked for;
//! when they run out, parsing stops with [`host::Stop::Pending`], and the last request in the
//! log is the one to answer before parsing again.
pub mod ask;
pub mod base_laws;
pub mod class_laws;
pub mod declaration;
pub mod element;
pub mod element_laws;
pub mod heritage;
pub mod host;
pub mod laws;
pub mod member_laws;
pub mod members;
pub mod modifiers;
pub mod progress;
pub mod replay;
pub mod state;
pub mod stop_laws;
pub mod syntax;
