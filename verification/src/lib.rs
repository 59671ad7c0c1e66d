//! Lowering: the types of a syntax tree are checked, and a typed tree is made of it.
//!
//! Names, their types and their scopes are kept by a context outside of this crate. Lowering puts
//! queries to it and goes on with its replies: see [`lower::ASTLowerer::lower`].
pub mod accounts;
pub mod ast;
pub mod context;
pub mod error;
pub mod evidence;
pub mod expr_laws;
pub mod hir;
pub mod laws;
pub mod lower;
pub mod outside;
pub mod part_laws;
pub mod proofs;
pub mod replay;
pub mod semantics;
pub mod support;
pub mod text;
pub mod token;
pub mod ty;
