//! The kinds of node a document tree is made of.

use vstd::prelude::*;

verus! {

/// What an element is, as far as styling cares.
#[derive(Clone, Copy, Debug, PartialEq, Eq, Structural)]
pub enum ElementKind {
    /// An element of a tag that has no kind of its own.
    Unknown,
    /// A generic block-level container.
    Div,
    /// The header that holds the metadata of the document.
    Head,
    /// An image.
    Image,
    /// A script.
    Script,
}

/// The kind tag of a node.
#[derive(Clone, Copy, Debug, PartialEq, Eq, Structural)]
pub enum NodeKind {
    /// The document type declaration.
    Doctype,
    /// A comment.
    Comment,
    /// An element, with what it is.
    Element(ElementKind),
    /// A run of text.
    Text,
}

} // verus!
