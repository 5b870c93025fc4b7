//! Renders an HTML document as nested builder-style blocks.
//!
//! A document is parsed, read into a tree of [`source::SourceNode`]s, built
//! into an owned intermediate tree of [`node::KotlinDslNode`]s, and printed
//! as indented text, one block per top-level node:
//!
//! - [`dom`] calls the parser and assembles the tree that its node table
//!   holds;
//! - [`builder`] drops empty text and comments, lifts the "class" attribute
//!   out of the attribute list and drops attributes without a value;
//! - [`render`] prints a node at an indent level;
//! - [`convert`] puts the steps together;
//! - [`laws`] states what holds of them on every input.

pub mod builder;
pub mod convert;
pub mod dom;
pub mod error;
pub mod laws;
pub mod node;
pub mod render;
pub mod source;
pub mod text;
