//! Keyword styles from the tag name and from CSS declarations.

use vstd::prelude::*;
use crate::layout::types::{Display, Position, FontWeight, FontStyle, ListStyleType, KeywordStyle};
use crate::text::{chars_of, chars_are};

verus! {

/// The default keyword style of an element with tag `t` applied over `s`,
/// and the font size in pixels that headings set.
pub open spec fn tag_defaults(s: KeywordStyle, t: Seq<char>) -> (KeywordStyle, Option<u16>) {
    if t == "h1"@ {
        (KeywordStyle { font_weight: FontWeight::Bold, display: Display::Block, ..s }, Some(32))
    } else if t == "h2"@ {
        (KeywordStyle { font_weight: FontWeight::Bold, display: Display::Block, ..s }, Some(24))
    } else if t == "h3"@ {
        (KeywordStyle { font_weight: FontWeight::Bold, display: Display::Block, ..s }, Some(19))
    } else if t == "h4"@ {
        (KeywordStyle { font_weight: FontWeight::Bold, display: Display::Block, ..s }, Some(16))
    } else if t == "h5"@ {
        (KeywordStyle { font_weight: FontWeight::Bold, display: Display::Block, ..s }, Some(13))
    } else if t == "h6"@ {
        (KeywordStyle { font_weight: FontWeight::Bold, display: Display::Block, ..s }, Some(11))
    } else if t == "b"@ || t == "strong"@ {
        (KeywordStyle { font_weight: FontWeight::Bold, display: Display::Inline, ..s }, None)
    } else if t == "i"@ || t == "em"@ {
        (KeywordStyle { font_style: FontStyle::Italic, display: Display::Inline, ..s }, None)
    } else if t == "div"@ || t == "p"@ || t == "section"@ || t == "article"@ || t == "header"@ || t == "footer"@
        || t == "nav"@ || t == "main"@ || t == "ul"@ || t == "ol"@ {
        (KeywordStyle { display: Display::Block, ..s }, None)
    } else if t == "span"@ || t == "a"@ || t == "code"@ {
        (KeywordStyle { display: Display::Inline, ..s }, None)
    } else if t == "li"@ {
        (KeywordStyle { display: Display::Block, list_style_type: ListStyleType::Disc, ..s }, None)
    } else if t == "script"@ || t == "style"@ || t == "meta"@ || t == "link"@ || t == "title"@ {
        (KeywordStyle { display: Display::NoDisplay, ..s }, None)
    } else {
        (s, None)
    }
}

fn heading(style: &mut KeywordStyle, px: u16) -> (r: Option<u16>)
    ensures
        *final(style) == (KeywordStyle { font_weight: FontWeight::Bold, display: Display::Block, ..*old(style) }),
        r == Some(px),
{
    style.font_weight = FontWeight::Bold;
    style.display = Display::Block;
    Some(px)
}

/// Applies the defaults of the tag (none for text nodes) to `style`, and
/// returns the font size in pixels that headings set.
pub fn apply_default_tag_styles(style: &mut KeywordStyle, tag_name: &Option<String>) -> (r: Option<u16>)
    ensures
        match tag_name {
            Some(t) => (*final(style), r) == tag_defaults(*old(style), t@),
            None => *final(style) == *old(style) && r.is_none(),
        },
{
    match tag_name {
        None => None,
        Some(tag) => {
            let c = chars_of(tag.as_str());
            let t = c.as_slice();
            if chars_are(t, "h1") {
                heading(style, 32)
            } else if chars_are(t, "h2") {
                heading(style, 24)
            } else if chars_are(t, "h3") {
                heading(style, 19)
            } else if chars_are(t, "h4") {
                heading(style, 16)
            } else if chars_are(t, "h5") {
                heading(style, 13)
            } else if chars_are(t, "h6") {
                heading(style, 11)
            } else if chars_are(t, "b") || chars_are(t, "strong") {
                style.font_weight = FontWeight::Bold;
                style.display = Display::Inline;
                None
            } else if chars_are(t, "i") || chars_are(t, "em") {
                style.font_style = FontStyle::Italic;
                style.display = Display::Inline;
                None
            } else if chars_are(t, "div") || chars_are(t, "p") || chars_are(t, "section") || chars_are(t, "article")
                || chars_are(t, "header") || chars_are(t, "footer") || chars_are(t, "nav") || chars_are(t, "main")
                || chars_are(t, "ul") || chars_are(t, "ol") {
                style.display = Display::Block;
                None
            } else if chars_are(t, "span") || chars_are(t, "a") || chars_are(t, "code") {
                style.display = Display::Inline;
                None
            } else if chars_are(t, "li") {
                style.display = Display::Block;
                style.list_style_type = ListStyleType::Disc;
                None
            } else if chars_are(t, "script") || chars_are(t, "style") || chars_are(t, "meta") || chars_are(t, "link")
                || chars_are(t, "title") {
                style.display = Display::NoDisplay;
                None
            } else {
                None
            }
        },
    }
}

/// The keyword style after the declaration `property: value` (exact,
/// case-sensitive keywords; unknown values leave the field as it was).
pub open spec fn keyword_applied(s: KeywordStyle, p: Seq<char>, v: Seq<char>) -> KeywordStyle {
    if p == "display"@ {
        KeywordStyle {
            display: if v == "block"@ {
                Display::Block
            } else if v == "inline"@ {
                Display::Inline
            } else if v == "none"@ {
                Display::NoDisplay
            } else if v == "flex"@ {
                Display::Flex
            } else {
                s.display
            },
            ..s
        }
    } else if p == "position"@ {
        KeywordStyle {
            position: if v == "static"@ {
                Position::Static
            } else if v == "relative"@ {
                Position::Relative
            } else if v == "absolute"@ {
                Position::Absolute
            } else {
                s.position
            },
            ..s
        }
    } else if p == "font-weight"@ {
        KeywordStyle {
            font_weight: if v == "bold"@ || v == "700"@ || v == "800"@ || v == "900"@ {
                FontWeight::Bold
            } else {
                FontWeight::Normal
            },
            ..s
        }
    } else if p == "font-style"@ {
        KeywordStyle {
            font_style: if v == "italic"@ {
                FontStyle::Italic
            } else {
                FontStyle::Normal
            },
            ..s
        }
    } else if p == "list-style-type"@ {
        KeywordStyle {
            list_style_type: if v == "disc"@ {
                ListStyleType::Disc
            } else if v == "circle"@ {
                ListStyleType::Circle
            } else if v == "square"@ {
                ListStyleType::Square
            } else if v == "decimal"@ {
                ListStyleType::Decimal
            } else if v == "none"@ {
                ListStyleType::NoMarker
            } else {
                s.list_style_type
            },
            ..s
        }
    } else {
        s
    }
}

/// Applies one CSS declaration to the keyword fields of a style.
pub fn apply_keyword_property(style: &mut KeywordStyle, property: &str, value: &str)
    ensures
        *final(style) == keyword_applied(*old(style), property@, value@),
{
    let pc = chars_of(property);
    let vc = chars_of(value);
    let p = pc.as_slice();
    let v = vc.as_slice();
    if chars_are(p, "display") {
        if chars_are(v, "block") {
            style.display = Display::Block;
        } else if chars_are(v, "inline") {
            style.display = Display::Inline;
        } else if chars_are(v, "none") {
            style.display = Display::NoDisplay;
        } else if chars_are(v, "flex") {
            style.display = Display::Flex;
        }
    } else if chars_are(p, "position") {
        if chars_are(v, "static") {
            style.position = Position::Static;
        } else if chars_are(v, "relative") {
            style.position = Position::Relative;
        } else if chars_are(v, "absolute") {
            style.position = Position::Absolute;
        }
    } else if chars_are(p, "font-weight") {
        if chars_are(v, "bold") || chars_are(v, "700") || chars_are(v, "800") || chars_are(v, "900") {
            style.font_weight = FontWeight::Bold;
        } else {
            style.font_weight = FontWeight::Normal;
        }
    } else if chars_are(p, "font-style") {
        if chars_are(v, "italic") {
            style.font_style = FontStyle::Italic;
        } else {
            style.font_style = FontStyle::Normal;
        }
    } else if chars_are(p, "list-style-type") {
        if chars_are(v, "disc") {
            style.list_style_type = ListStyleType::Disc;
        } else if chars_are(v, "circle") {
            style.list_style_type = ListStyleType::Circle;
        } else if chars_are(v, "square") {
            style.list_style_type = ListStyleType::Square;
        } else if chars_are(v, "decimal") {
            style.list_style_type = ListStyleType::Decimal;
        } else if chars_are(v, "none") {
            style.list_style_type = ListStyleType::NoMarker;
        }
    }
}

} // verus!
