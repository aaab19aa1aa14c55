//! Keyword-valued properties of a computed style.

use vstd::prelude::*;

verus! {

/// How a box is laid out.
#[derive(Debug, Clone, Copy, PartialEq, Eq, Structural)]
pub enum Display {
    Block,
    Inline,
    /// `none`: no box.
    NoDisplay,
    Flex,
    Grid,
}

/// How a box is positioned.
#[derive(Debug, Clone, Copy, PartialEq, Eq, Structural)]
pub enum Position {
    Static,
    Relative,
    Absolute,
}

/// Text weight.
#[derive(Debug, Clone, Copy, PartialEq, Eq, Structural)]
pub enum FontWeight {
    Normal,
    Bold,
}

/// Text style.
#[derive(Debug, Clone, Copy, PartialEq, Eq, Structural)]
pub enum FontStyle {
    Normal,
    Italic,
}

/// List item markers.
#[derive(Debug, Clone, Copy, PartialEq, Eq, Structural)]
pub enum ListStyleType {
    /// `none`.
    NoMarker,
    Disc,
    Circle,
    Square,
    Decimal,
}

/// The keyword-valued fields of a computed style.
#[derive(Debug, Clone, Copy, PartialEq, Eq, Structural)]
pub struct KeywordStyle {
    pub display: Display,
    pub position: Position,
    pub font_weight: FontWeight,
    pub font_style: FontStyle,
    pub list_style_type: ListStyleType,
}

impl KeywordStyle {
    /// The initial values: block, static, normal weight and style, no list
    /// marker.
    pub fn initial() -> (r: Self)
        ensures
            r == (KeywordStyle {
                display: Display::Block,
                position: Position::Static,
                font_weight: FontWeight::Normal,
                font_style: FontStyle::Normal,
                list_style_type: ListStyleType::NoMarker,
            }),
    {
        KeywordStyle {
            display: Display::Block,
            position: Position::Static,
            font_weight: FontWeight::Normal,
            font_style: FontStyle::Normal,
            list_style_type: ListStyleType::NoMarker,
        }
    }
}

} // verus!
