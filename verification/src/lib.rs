//! A typed document tree and a generic, verified rewrite engine over it.
//!
//! The tree ([`definition`]) models a structured document: a version marker,
//! a metadata mapping, and structural nodes containing text-level nodes. The
//! walk modules rewrite a tree by applying a caller-supplied function to
//! every node of one chosen kind — the whole document, the metadata mapping,
//! structural nodes, or text-level nodes — recursing into every child
//! position of every composite shape, in postorder, either in place
//! (type-preserving) or by splicing a replacement sequence.

pub mod coverage;
pub mod definition;
pub mod laws;
pub mod model;
pub mod splice_inline;
pub mod splice_block;
pub mod walk_block;
pub mod walk_doc;
pub mod walk_inline;
pub mod walk_meta;
pub mod walkable;
