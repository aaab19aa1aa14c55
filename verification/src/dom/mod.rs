//! The document object model: nodes, element states and the document tree.

pub mod node;
pub mod document;
pub mod html;
pub mod serialization;
