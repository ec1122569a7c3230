//! Extraction of a semantic document from the concrete syntax tree of a Rust
//! source file.
//!
//! The parser's tree comes in as [`syntax::SyntaxNode`] values. From it the
//! library builds a shaped document tree ([`shape`]) that classifies nodes
//! into a fixed taxonomy ([`kind`]), infers element names and records
//! relation edges, and a set of per-category reports ([`extract`],
//! [`callables`], [`items`], [`relations`], [`schema`]), which
//! [`document`] assembles into one report.

pub mod kind;
pub mod text;
pub mod syntax;
pub mod shape;
pub mod report;
pub mod extract;
pub mod schema;
pub mod items;
pub mod callables;
pub mod relations;
pub mod document;
