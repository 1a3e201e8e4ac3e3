//! A document tree for KDL text.
//!
//! A text is scanned for what the `kdl` crate's parser cannot take, laid out
//! for that parser, parsed by it, and brought over into this library's own
//! types: documents of nodes, nodes with entries and children, entries with
//! values. What went wrong with a text comes back as a diagnostic with a
//! byte span into it. All of it but the statements about the `kdl` crate and
//! one about std is verified.
#![allow(nonstandard_style)]

pub mod text;
pub mod encoding;
pub mod lookup;
pub mod guard;
pub mod identifier;
pub mod value;
pub mod entry;
pub mod node;
pub mod document;
pub mod error;
pub mod kdl_specs;
pub mod convert;
pub mod laws;
