//! Specified styles for the nodes of a document tree.
//!
//! Every node carries, once initialized, a sparse record of visual
//! attributes. The record starts from defaults that depend on the kind of the
//! node and is later refreshed by matching a shared set of style rules
//! against each node of a subtree.

pub mod dom;
pub mod join;
pub mod layout;
pub mod lemmas;
pub mod styles;
pub mod values;
