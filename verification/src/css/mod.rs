//! CSS values, declarations and the cascade.

pub mod properties;
pub mod selectors;
pub mod color;
pub mod fonts;
pub mod media;
pub mod animations;
pub mod parser;
pub mod matching;
pub mod tokens;
pub mod font_face;
pub mod engine;
pub mod prelude;
pub mod media_query;
pub mod declarations;

use vstd::prelude::*;
use crate::css::properties::Property;

verus! {

/// One CSS rule (selector and declarations) after normalisation.
#[derive(Debug, Clone)]
pub struct StyleRule {
    /// The selector as written in the style sheet.
    pub selector_text: String,
    /// Normalised declarations, before the cascade.
    pub declarations: Vec<Property>,
}

} // verus!
