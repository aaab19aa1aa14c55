//! The keyword part of computed styles (display, positioning, font weight
//! and style, list markers) and the shape of the layout tree.

pub mod types;
pub mod styles;
pub mod flex;
pub mod tree;
