//! Schema-driven source generation for an RPC interface-definition language.
//!
//! Parsed modules are folded into one namespace forest, every function of the
//! forest is given its wire name and identifiers, and the RPC surface is
//! written through an indentation-aware text sink.

pub mod ast;
pub mod codegen;
pub mod diagnostics;
pub mod dict;
pub mod forest;
pub mod generator;
pub mod lang;
pub mod merging;
pub mod naming;
pub mod nesting;
pub mod output;
pub mod shape;
pub mod text;
