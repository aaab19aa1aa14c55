//! The keyword-valued layout properties of a computed style built from an
//! element's computed declarations: box kind, positioning, font keywords
//! and the flex-box keywords.

use vstd::prelude::*;
use crate::layout::types::{Display, Position, FontWeight, FontStyle};
use crate::text::{chars_of, chars_are};

verus! {

/// `flex-direction`.
#[derive(Debug, Clone, Copy, PartialEq, Eq, Structural)]
pub enum FlexDirection {
    Row,
    RowReverse,
    Column,
    ColumnReverse,
}

/// `justify-content`.
#[derive(Debug, Clone, Copy, PartialEq, Eq, Structural)]
pub enum JustifyContent {
    Start,
    End,
    Center,
    SpaceBetween,
    SpaceAround,
    SpaceEvenly,
}

/// `align-items` and `align-self`.
#[derive(Debug, Clone, Copy, PartialEq, Eq, Structural)]
pub enum AlignItems {
    Start,
    End,
    Center,
    Stretch,
}

/// `flex-wrap`.
#[derive(Debug, Clone, Copy, PartialEq, Eq, Structural)]
pub enum FlexWrap {
    NoWrap,
    Wrap,
    WrapReverse,
}

/// The keyword-valued layout fields of a computed style.
#[derive(Debug, Clone, Copy, PartialEq, Eq, Structural)]
pub struct LayoutKeywords {
    pub display: Display,
    pub position: Position,
    pub font_weight: FontWeight,
    pub font_style: FontStyle,
    pub flex_direction: FlexDirection,
    pub justify_content: Option<JustifyContent>,
    pub align_items: Option<AlignItems>,
    pub align_self: Option<AlignItems>,
    pub flex_wrap: FlexWrap,
}

/// The initial values: block, static, normal weight and style, row
/// direction, no alignment set, no wrapping.
pub open spec fn initial_layout() -> LayoutKeywords {
    LayoutKeywords {
        display: Display::Block,
        position: Position::Static,
        font_weight: FontWeight::Normal,
        font_style: FontStyle::Normal,
        flex_direction: FlexDirection::Row,
        justify_content: None,
        align_items: None,
        align_self: None,
        flex_wrap: FlexWrap::NoWrap,
    }
}

/// The alignment a keyword names; an unknown keyword stretches.
pub open spec fn alignment(v: Seq<char>) -> AlignItems {
    if v == "flex-start"@ || v == "start"@ {
        AlignItems::Start
    } else if v == "flex-end"@ || v == "end"@ {
        AlignItems::End
    } else if v == "center"@ {
        AlignItems::Center
    } else {
        AlignItems::Stretch
    }
}

/// The distribution a `justify-content` keyword names; an unknown keyword
/// packs at the start.
pub open spec fn justification(v: Seq<char>) -> JustifyContent {
    if v == "flex-start"@ || v == "start"@ {
        JustifyContent::Start
    } else if v == "flex-end"@ || v == "end"@ {
        JustifyContent::End
    } else if v == "center"@ {
        JustifyContent::Center
    } else if v == "space-between"@ {
        JustifyContent::SpaceBetween
    } else if v == "space-around"@ {
        JustifyContent::SpaceAround
    } else if v == "space-evenly"@ {
        JustifyContent::SpaceEvenly
    } else {
        JustifyContent::Start
    }
}

/// `s` after the declaration `p: v`; other properties leave it unchanged,
/// and so do unknown `display`, `position` and `flex-direction` keywords.
pub open spec fn layout_applied(s: LayoutKeywords, p: Seq<char>, v: Seq<char>) -> LayoutKeywords {
    if p == "display"@ {
        LayoutKeywords {
            display: if v == "block"@ {
                Display::Block
            } else if v == "inline"@ {
                Display::Inline
            } else if v == "none"@ {
                Display::NoDisplay
            } else if v == "flex"@ {
                Display::Flex
            } else if v == "grid"@ {
                Display::Grid
            } else {
                s.display
            },
            ..s
        }
    } else if p == "position"@ {
        LayoutKeywords {
            position: if v == "static"@ {
                Position::Static
            } else if v == "relative"@ {
                Position::Relative
            } else if v == "absolute"@ {
                Position::Absolute
            } else {
                s.position
            },
            ..s
        }
    } else if p == "font-weight"@ {
        LayoutKeywords {
            font_weight: if v == "bold"@ || v == "700"@ || v == "800"@ || v == "900"@ {
                FontWeight::Bold
            } else {
                FontWeight::Normal
            },
            ..s
        }
    } else if p == "font-style"@ {
        LayoutKeywords {
            font_style: if v == "italic"@ {
                FontStyle::Italic
            } else {
                FontStyle::Normal
            },
            ..s
        }
    } else if p == "flex-direction"@ {
        LayoutKeywords {
            flex_direction: if v == "row"@ {
                FlexDirection::Row
            } else if v == "row-reverse"@ {
                FlexDirection::RowReverse
            } else if v == "column"@ {
                FlexDirection::Column
            } else if v == "column-reverse"@ {
                FlexDirection::ColumnReverse
            } else {
                s.flex_direction
            },
            ..s
        }
    } else if p == "justify-content"@ {
        LayoutKeywords { justify_content: Some(justification(v)), ..s }
    } else if p == "align-items"@ {
        LayoutKeywords { align_items: Some(alignment(v)), ..s }
    } else if p == "align-self"@ {
        LayoutKeywords { align_self: Some(alignment(v)), ..s }
    } else if p == "flex-wrap"@ {
        LayoutKeywords {
            flex_wrap: if v == "wrap"@ {
                FlexWrap::Wrap
            } else if v == "wrap-reverse"@ {
                FlexWrap::WrapReverse
            } else {
                FlexWrap::NoWrap
            },
            ..s
        }
    } else {
        s
    }
}

/// The style after the declarations, in order, over the initial one.
pub open spec fn layout_of(decls: Seq<(String, String)>) -> LayoutKeywords
    decreases decls.len(),
{
    if decls.len() == 0 {
        initial_layout()
    } else {
        layout_applied(layout_of(decls.drop_last()), decls.last().0@, decls.last().1@)
    }
}

fn alignment_of(v: &[char]) -> (r: AlignItems)
    ensures
        r == alignment(v@),
{
    if chars_are(v, "flex-start") || chars_are(v, "start") {
        AlignItems::Start
    } else if chars_are(v, "flex-end") || chars_are(v, "end") {
        AlignItems::End
    } else if chars_are(v, "center") {
        AlignItems::Center
    } else {
        AlignItems::Stretch
    }
}

fn justification_of(v: &[char]) -> (r: JustifyContent)
    ensures
        r == justification(v@),
{
    if chars_are(v, "flex-start") || chars_are(v, "start") {
        JustifyContent::Start
    } else if chars_are(v, "flex-end") || chars_are(v, "end") {
        JustifyContent::End
    } else if chars_are(v, "center") {
        JustifyContent::Center
    } else if chars_are(v, "space-between") {
        JustifyContent::SpaceBetween
    } else if chars_are(v, "space-around") {
        JustifyContent::SpaceAround
    } else if chars_are(v, "space-evenly") {
        JustifyContent::SpaceEvenly
    } else {
        JustifyContent::Start
    }
}

impl LayoutKeywords {
    /// The initial layout keywords.
    pub fn initial() -> (r: Self)
        ensures
            r == initial_layout(),
    {
        LayoutKeywords {
            display: Display::Block,
            position: Position::Static,
            font_weight: FontWeight::Normal,
            font_style: FontStyle::Normal,
            flex_direction: FlexDirection::Row,
            justify_content: None,
            align_items: None,
            align_self: None,
            flex_wrap: FlexWrap::NoWrap,
        }
    }

    /// Applies one computed declaration.
    pub fn apply(&mut self, property: &str, value: &str)
        ensures
            *final(self) == layout_applied(*old(self), property@, value@),
    {
        let pc = chars_of(property);
        let vc = chars_of(value);
        let p = pc.as_slice();
        let v = vc.as_slice();
        if chars_are(p, "display") {
            if chars_are(v, "block") {
                self.display = Display::Block;
            } else if chars_are(v, "inline") {
                self.display = Display::Inline;
            } else if chars_are(v, "none") {
                self.display = Display::NoDisplay;
            } else if chars_are(v, "flex") {
                self.display = Display::Flex;
            } else if chars_are(v, "grid") {
                self.display = Display::Grid;
            }
        } else if chars_are(p, "position") {
            if chars_are(v, "static") {
                self.position = Position::Static;
            } else if chars_are(v, "relative") {
                self.position = Position::Relative;
            } else if chars_are(v, "absolute") {
                self.position = Position::Absolute;
            }
        } else if chars_are(p, "font-weight") {
            if chars_are(v, "bold") || chars_are(v, "700") || chars_are(v, "800") || chars_are(v, "900") {
                self.font_weight = FontWeight::Bold;
            } else {
                self.font_weight = FontWeight::Normal;
            }
        } else if chars_are(p, "font-style") {
            if chars_are(v, "italic") {
                self.font_style = FontStyle::Italic;
            } else {
                self.font_style = FontStyle::Normal;
            }
        } else if chars_are(p, "flex-direction") {
            if chars_are(v, "row") {
                self.flex_direction = FlexDirection::Row;
            } else if chars_are(v, "row-reverse") {
                self.flex_direction = FlexDirection::RowReverse;
            } else if chars_are(v, "column") {
                self.flex_direction = FlexDirection::Column;
            } else if chars_are(v, "column-reverse") {
                self.flex_direction = FlexDirection::ColumnReverse;
            }
        } else if chars_are(p, "justify-content") {
            self.justify_content = Some(justification_of(v));
        } else if chars_are(p, "align-items") {
            self.align_items = Some(alignment_of(v));
        } else if chars_are(p, "align-self") {
            self.align_self = Some(alignment_of(v));
        } else if chars_are(p, "flex-wrap") {
            if chars_are(v, "wrap") {
                self.flex_wrap = FlexWrap::Wrap;
            } else if chars_are(v, "wrap-reverse") {
                self.flex_wrap = FlexWrap::WrapReverse;
            } else {
                self.flex_wrap = FlexWrap::NoWrap;
            }
        }
    }

    /// The layout keywords of computed declarations, applied in order.
    pub fn from_declarations(decls: &Vec<(String, String)>) -> (r: Self)
        ensures
            r == layout_of(decls@),
    {
        let mut style = LayoutKeywords::initial();
        let mut i: usize = 0;
        while i < decls.len()
            invariant
                i <= decls@.len(),
                style == layout_of(decls@.take(i as int)),
            decreases decls@.len() - i,
        {
            proof {
                assert(decls@.take(i + 1).drop_last() =~= decls@.take(i as int));
            }
            style.apply(decls[i].0.as_str(), decls[i].1.as_str());
            i = i + 1;
        }
        proof {
            assert(decls@.take(decls@.len() as int) =~= decls@);
        }
        style
    }
}

/// Declarations of different properties can be applied in either order.
#[verifier::rlimit(60)]
pub proof fn lemma_distinct_properties_commute(s: LayoutKeywords, p: Seq<char>, v: Seq<char>, q: Seq<char>, w: Seq<char>)
    requires
        p != q,
    ensures
        layout_applied(layout_applied(s, p, v), q, w) == layout_applied(layout_applied(s, q, w), p, v),
{
}

/// A later declaration of the same property decides it alone.
pub proof fn lemma_last_declaration_wins(s: LayoutKeywords, p: Seq<char>, v: Seq<char>, w: Seq<char>)
    requires
        p != "display"@,
        p != "position"@,
        p != "flex-direction"@,
    ensures
        layout_applied(layout_applied(s, p, v), p, w) == layout_applied(s, p, w),
{
}

} // verus!
