//! A singly-linked sequence container built from recursively owned nodes.
//!
//! A [`list::List`] is its own head node: each node holds an optional
//! element and an optional, exclusively owned successor node.  The
//! whole traversal and mutation algebra — push, pop, append, indexed
//! access and insertion, splitting, splicing, structural equality,
//! conversion from a flat vector, and textual rendering — is verified
//! against a sequence abstraction of the node chain.

pub mod combine;
pub mod compare;
pub mod convert;
pub mod laws;
pub mod list;
pub mod render;
