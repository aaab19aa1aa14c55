//! CSS colours: the `Color` value, hexadecimal and named colours, and the
//! classification of a colour value by its syntax.

use vstd::prelude::*;
use crate::text::{chars_of, string_from_chars, slice_chars, trim, trim_chars, has_prefix, has_suffix, starts_with_str, ends_with_str};

verus! {

/// An RGBA colour with 8-bit channels.
#[derive(Debug, Clone, Copy, PartialEq, Eq, Structural)]
pub struct Color {
    pub r: u8,
    pub g: u8,
    pub b: u8,
    pub a: u8,
}

/// The colour with the given channels.
pub open spec fn rgba(r: u8, g: u8, b: u8, a: u8) -> Color {
    Color { r, g, b, a }
}

/// The opaque colour with the given channels.
pub open spec fn opaque(r: u8, g: u8, b: u8) -> Color {
    Color { r, g, b, a: 255 }
}

impl Color {
    /// The colour with the given channels.
    pub fn new(r: u8, g: u8, b: u8, a: u8) -> (c: Self)
        ensures
            c == rgba(r, g, b, a),
    {
        Color { r, g, b, a }
    }

    /// The opaque colour with the given channels.
    pub fn rgb(r: u8, g: u8, b: u8) -> (c: Self)
        ensures
            c == opaque(r, g, b),
    {
        Color::new(r, g, b, 255)
    }

    /// White.
    pub fn white() -> (c: Self)
        ensures
            c == rgba(255, 255, 255, 255),
    {
        Color { r: 255, g: 255, b: 255, a: 255 }
    }

    /// Black.
    pub fn black() -> (c: Self)
        ensures
            c == rgba(0, 0, 0, 255),
    {
        Color { r: 0, g: 0, b: 0, a: 255 }
    }

    /// Red.
    pub fn red() -> (c: Self)
        ensures
            c == rgba(255, 0, 0, 255),
    {
        Color { r: 255, g: 0, b: 0, a: 255 }
    }

    /// Green.
    pub fn green() -> (c: Self)
        ensures
            c == rgba(0, 255, 0, 255),
    {
        Color { r: 0, g: 255, b: 0, a: 255 }
    }

    /// Blue.
    pub fn blue() -> (c: Self)
        ensures
            c == rgba(0, 0, 255, 255),
    {
        Color { r: 0, g: 0, b: 255, a: 255 }
    }

    /// Yellow.
    pub fn yellow() -> (c: Self)
        ensures
            c == rgba(255, 255, 0, 255),
    {
        Color { r: 255, g: 255, b: 0, a: 255 }
    }

    /// Gray.
    pub fn gray() -> (c: Self)
        ensures
            c == rgba(128, 128, 128, 255),
    {
        Color { r: 128, g: 128, b: 128, a: 255 }
    }

    /// Fully transparent black.
    pub fn transparent() -> (c: Self)
        ensures
            c == rgba(0, 0, 0, 0),
    {
        Color { r: 0, g: 0, b: 0, a: 0 }
    }
}


/// The value of an ASCII hexadecimal digit.
pub open spec fn hex_digit(b: u8) -> Option<u8> {
    if 48 <= b <= 57 {
        Some((b - 48) as u8)
    } else if 97 <= b <= 102 {
        Some((b - 87) as u8)
    } else if 65 <= b <= 70 {
        Some((b - 55) as u8)
    } else {
        None
    }
}

/// `u8::from_str_radix(text, 16)` on a two-byte text: two hexadecimal
/// digits, or `+` and one digit.
pub open spec fn radix16_pair(b0: u8, b1: u8) -> Option<u8> {
    if b0 == 43 {
        hex_digit(b1)
    } else {
        match (hex_digit(b0), hex_digit(b1)) {
            (Some(h), Some(l)) => Some((16 * h + l) as u8),
            _ => None,
        }
    }
}

/// The channel written by bytes `i` and `i + 1`.
pub open spec fn pair_at(b: Seq<u8>, i: int) -> Option<u8> {
    radix16_pair(b[i], b[i + 1])
}

/// The channel written by byte `i` twice over.
pub open spec fn double_at(b: Seq<u8>, i: int) -> Option<u8> {
    radix16_pair(b[i], b[i])
}

/// `b[from..to]` can be taken out of the text.
pub open spec fn cut_ok(b: Seq<u8>, from: int, to: int) -> bool {
    vstd::utf8::is_char_boundary(b, from) && vstd::utf8::is_char_boundary(b, to)
}

/// Reading the channels one after the other, the text is cut inside a
/// character before a channel fails to read (where slicing the text panics).
pub open spec fn hex_cut_fails(b: Seq<u8>) -> bool {
    if b.len() == 6 || b.len() == 8 {
        ||| !cut_ok(b, 0, 2)
        ||| pair_at(b, 0).is_some() && !cut_ok(b, 2, 4)
        ||| pair_at(b, 0).is_some() && pair_at(b, 2).is_some() && !cut_ok(b, 4, 6)
        ||| b.len() == 8 && pair_at(b, 0).is_some() && pair_at(b, 2).is_some() && pair_at(b, 4).is_some()
            && !cut_ok(b, 6, 8)
    } else if b.len() == 3 || b.len() == 4 {
        ||| !cut_ok(b, 0, 1)
        ||| double_at(b, 0).is_some() && !cut_ok(b, 1, 2)
        ||| double_at(b, 0).is_some() && double_at(b, 1).is_some() && !cut_ok(b, 2, 3)
        ||| b.len() == 4 && double_at(b, 0).is_some() && double_at(b, 1).is_some() && double_at(b, 2).is_some()
            && !cut_ok(b, 3, 4)
    } else {
        false
    }
}

/// The colour written in hexadecimal (the text after `#`, as bytes):
/// `RRGGBB`, `RGB`, `RRGGBBAA` or `RGBA`, each channel read as
/// `u8::from_str_radix` reads it.
pub open spec fn hex_color(b: Seq<u8>) -> Option<Color> {
    if b.len() == 6 {
        match (pair_at(b, 0), pair_at(b, 2), pair_at(b, 4)) {
            (Some(r), Some(g), Some(bl)) => Some(opaque(r, g, bl)),
            _ => None,
        }
    } else if b.len() == 3 {
        match (double_at(b, 0), double_at(b, 1), double_at(b, 2)) {
            (Some(r), Some(g), Some(bl)) => Some(opaque(r, g, bl)),
            _ => None,
        }
    } else if b.len() == 8 {
        match (pair_at(b, 0), pair_at(b, 2), pair_at(b, 4), pair_at(b, 6)) {
            (Some(r), Some(g), Some(bl), Some(a)) => Some(rgba(r, g, bl, a)),
            _ => None,
        }
    } else if b.len() == 4 {
        match (double_at(b, 0), double_at(b, 1), double_at(b, 2), double_at(b, 3)) {
            (Some(r), Some(g), Some(bl), Some(a)) => Some(rgba(r, g, bl, a)),
            _ => None,
        }
    } else {
        None
    }
}

fn hex_digit_of(b: u8) -> (r: Option<u8>)
    ensures
        r == hex_digit(b),
{
    if 48 <= b && b <= 57 {
        Some(b - 48)
    } else if 97 <= b && b <= 102 {
        Some(b - 87)
    } else if 65 <= b && b <= 70 {
        Some(b - 55)
    } else {
        None
    }
}

fn radix16(b0: u8, b1: u8) -> (r: Option<u8>)
    ensures
        r == radix16_pair(b0, b1),
{
    if b0 == 43 {
        return hex_digit_of(b1);
    }
    match (hex_digit_of(b0), hex_digit_of(b1)) {
        (Some(h), Some(l)) => Some(16 * h + l),
        _ => None,
    }
}

/// The colour written in hexadecimal after `#`.
pub fn parse_hex_color(hex: &str) -> (r: Option<Color>)
    requires
        !hex_cut_fails(vstd::utf8::encode_utf8(hex@)),
    ensures
        r == hex_color(vstd::utf8::encode_utf8(hex@)),
{
    let b = hex.as_bytes();
    let n = b.len();
    if n == 6 || n == 8 {
        let r = match radix16(b[0], b[1]) {
            Some(v) => v,
            None => return None,
        };
        let g = match radix16(b[2], b[3]) {
            Some(v) => v,
            None => return None,
        };
        let bl = match radix16(b[4], b[5]) {
            Some(v) => v,
            None => return None,
        };
        if n == 6 {
            return Some(Color::rgb(r, g, bl));
        }
        let a = match radix16(b[6], b[7]) {
            Some(v) => v,
            None => return None,
        };
        Some(Color::new(r, g, bl, a))
    } else if n == 3 || n == 4 {
        let r = match radix16(b[0], b[0]) {
            Some(v) => v,
            None => return None,
        };
        let g = match radix16(b[1], b[1]) {
            Some(v) => v,
            None => return None,
        };
        let bl = match radix16(b[2], b[2]) {
            Some(v) => v,
            None => return None,
        };
        if n == 3 {
            return Some(Color::rgb(r, g, bl));
        }
        let a = match radix16(b[3], b[3]) {
            Some(v) => v,
            None => return None,
        };
        Some(Color::new(r, g, bl, a))
    } else {
        None
    }
}

/// The colour named by an already lower-cased name.
pub open spec fn named_color(name: Seq<char>) -> Option<Color> {
    if name == "white"@ {
        Some(opaque(255, 255, 255))
    } else if name == "black"@ {
        Some(opaque(0, 0, 0))
    } else if name == "red"@ {
        Some(opaque(255, 0, 0))
    } else if name == "green"@ {
        Some(opaque(0, 255, 0))
    } else if name == "blue"@ {
        Some(opaque(0, 0, 255))
    } else if name == "yellow"@ {
        Some(opaque(255, 255, 0))
    } else if name == "gray"@ || name == "grey"@ {
        Some(opaque(128, 128, 128))
    } else if name == "transparent"@ {
        Some(rgba(0, 0, 0, 0))
    } else if name == "silver"@ {
        Some(opaque(192, 192, 192))
    } else if name == "maroon"@ {
        Some(opaque(128, 0, 0))
    } else if name == "purple"@ {
        Some(opaque(128, 0, 128))
    } else if name == "fuchsia"@ {
        Some(opaque(255, 0, 255))
    } else if name == "lime"@ {
        Some(opaque(0, 255, 0))
    } else if name == "olive"@ {
        Some(opaque(128, 128, 0))
    } else if name == "navy"@ {
        Some(opaque(0, 0, 128))
    } else if name == "teal"@ {
        Some(opaque(0, 128, 128))
    } else if name == "aqua"@ {
        Some(opaque(0, 255, 255))
    } else {
        None
    }
}

/// What `str::to_lowercase` returns (full Unicode lower-casing).
pub uninterp spec fn unicode_lowercase(s: Seq<char>) -> Seq<char>;

/// `str::to_lowercase`: the text lower-cased by the Unicode rules.
#[verifier::external_body]
fn lowercase(s: &str) -> (r: String)
    ensures
        r@ == unicode_lowercase(s@),
{
    s.to_lowercase()
}

/// The colour named by `name`, which is already lower-case.
pub fn color_by_lowercase_name(name: &str) -> (r: Option<Color>)
    ensures
        r == named_color(name@),
{
    let n = chars_of(name);
    let s = n.as_slice();
    if crate::text::chars_are(s, "white") {
        Some(Color::white())
    } else if crate::text::chars_are(s, "black") {
        Some(Color::black())
    } else if crate::text::chars_are(s, "red") {
        Some(Color::red())
    } else if crate::text::chars_are(s, "green") {
        Some(Color::green())
    } else if crate::text::chars_are(s, "blue") {
        Some(Color::blue())
    } else if crate::text::chars_are(s, "yellow") {
        Some(Color::yellow())
    } else if crate::text::chars_are(s, "gray") || crate::text::chars_are(s, "grey") {
        Some(Color::gray())
    } else if crate::text::chars_are(s, "transparent") {
        Some(Color::transparent())
    } else if crate::text::chars_are(s, "silver") {
        Some(Color::rgb(192, 192, 192))
    } else if crate::text::chars_are(s, "maroon") {
        Some(Color::rgb(128, 0, 0))
    } else if crate::text::chars_are(s, "purple") {
        Some(Color::rgb(128, 0, 128))
    } else if crate::text::chars_are(s, "fuchsia") {
        Some(Color::rgb(255, 0, 255))
    } else if crate::text::chars_are(s, "lime") {
        Some(Color::rgb(0, 255, 0))
    } else if crate::text::chars_are(s, "olive") {
        Some(Color::rgb(128, 128, 0))
    } else if crate::text::chars_are(s, "navy") {
        Some(Color::rgb(0, 0, 128))
    } else if crate::text::chars_are(s, "teal") {
        Some(Color::rgb(0, 128, 128))
    } else if crate::text::chars_are(s, "aqua") {
        Some(Color::rgb(0, 255, 255))
    } else {
        None
    }
}

/// The colour named by `color_str`, compared after Unicode lower-casing.
pub fn parse_named_color(color_str: &str) -> (r: Option<Color>)
    ensures
        r == named_color(unicode_lowercase(color_str@)),
{
    let lower = lowercase(color_str);
    color_by_lowercase_name(lower.as_str())
}

/// A colour value sorted by its syntax: resolved here (hexadecimal or a
/// name), or an `rgb()`/`hsl()` function whose numeric arguments are left
/// to the caller.
#[derive(Debug, Clone, PartialEq)]
pub enum ColorSyntax {
    /// A hexadecimal or named colour, or `None` when it is not valid.
    Resolved(Option<Color>),
    /// `rgb(..)` or `rgba(..)`: the text between the brackets.
    Rgb { content: String, has_alpha: bool },
    /// `hsl(..)` or `hsla(..)`: the text between the brackets.
    Hsl { content: String, has_alpha: bool },
}

/// The text between `name(` and a final `)`, if `s` is written so.
pub open spec fn function_body(s: Seq<char>, name: Seq<char>) -> Option<Seq<char>> {
    if has_prefix(s, name) && has_suffix(s.skip(name.len() as int), ")"@) {
        Some(s.subrange(name.len() as int, s.len() - 1))
    } else {
        None
    }
}

/// The body of `short(..)`, else of `long(..)`.
pub open spec fn either_body(s: Seq<char>, short: Seq<char>, long: Seq<char>) -> Option<Seq<char>> {
    if has_prefix(s, short) {
        function_body(s, short)
    } else {
        function_body(s, long)
    }
}

/// `r` is how the trimmed colour value `s` is written: `#` and hexadecimal,
/// `rgb(..)`/`rgba(..)`, `hsl(..)`/`hsla(..)` (with the text between the
/// brackets), else a colour name compared after Unicode lower-casing.
pub open spec fn classifies(r: ColorSyntax, s: Seq<char>) -> bool {
    if has_prefix(s, "#"@) {
        r == ColorSyntax::Resolved(hex_color(vstd::utf8::encode_utf8(s.skip(1))))
    } else if either_body(s, "rgb("@, "rgba("@).is_some() {
        r matches ColorSyntax::Rgb { content, has_alpha }
            && content@ == either_body(s, "rgb("@, "rgba("@).unwrap()
            && has_alpha == has_prefix(s, "rgba("@)
    } else if either_body(s, "hsl("@, "hsla("@).is_some() {
        r matches ColorSyntax::Hsl { content, has_alpha }
            && content@ == either_body(s, "hsl("@, "hsla("@).unwrap()
            && has_alpha == has_prefix(s, "hsla("@)
    } else {
        r == ColorSyntax::Resolved(named_color(unicode_lowercase(s)))
    }
}

/// The text between `name(` (of `n` characters) and a final `)`.
fn body_after(t: &[char], name: &str, n: usize) -> (r: Option<Vec<char>>)
    requires
        name@.len() == n,
    ensures
        match r {
            Some(b) => function_body(t@, name@) == Some(b@),
            None => function_body(t@, name@).is_none(),
        },
{
    if !starts_with_str(t, name) {
        return None;
    }
    let rest = slice_chars(t, n, t.len());
    assert(rest@ == t@.skip(n as int));
    if !ends_with_str(rest.as_slice(), ")") {
        return None;
    }
    proof {
        reveal_strlit(")");
    }
    let body = slice_chars(t, n, t.len() - 1);
    Some(body)
}

/// Sorts a colour value by its syntax, after trimming it, and resolves the
/// hexadecimal and named forms.
pub fn classify_css_color(color_str: &str) -> (r: ColorSyntax)
    requires
        has_prefix(trim(color_str@), "#"@) ==> !hex_cut_fails(vstd::utf8::encode_utf8(trim(color_str@).skip(1))),
    ensures
        classifies(r, trim(color_str@)),
{
    proof {
        reveal_strlit("#");
        reveal_strlit("rgb(");
        reveal_strlit("rgba(");
        reveal_strlit("hsl(");
        reveal_strlit("hsla(");
    }
    let c = chars_of(color_str);
    let t = trim_chars(c.as_slice());
    if starts_with_str(t.as_slice(), "#") {
        let rest = slice_chars(t.as_slice(), 1, t.len());
        assert(rest@ == t@.skip(1));
        let hex = string_from_chars(rest.as_slice());
        return ColorSyntax::Resolved(parse_hex_color(hex.as_str()));
    }
    let rgb = if starts_with_str(t.as_slice(), "rgb(") {
        body_after(t.as_slice(), "rgb(", 4)
    } else {
        body_after(t.as_slice(), "rgba(", 5)
    };
    match rgb {
        Some(body) => {
            return ColorSyntax::Rgb {
                content: string_from_chars(body.as_slice()),
                has_alpha: starts_with_str(t.as_slice(), "rgba("),
            };
        },
        None => {},
    }
    let hsl = if starts_with_str(t.as_slice(), "hsl(") {
        body_after(t.as_slice(), "hsl(", 4)
    } else {
        body_after(t.as_slice(), "hsla(", 5)
    };
    match hsl {
        Some(body) => {
            return ColorSyntax::Hsl {
                content: string_from_chars(body.as_slice()),
                has_alpha: starts_with_str(t.as_slice(), "hsla("),
            };
        },
        None => {},
    }
    let name = string_from_chars(t.as_slice());
    ColorSyntax::Resolved(parse_named_color(name.as_str()))
}

/// The colour a node is drawn with when no style gives one.
pub open spec fn default_tag_color(tag: Option<String>) -> Color {
    match tag {
        Some(t) => if t@ == "body"@ {
            opaque(240, 240, 240)
        } else if t@ == "h1"@ || t@ == "h2"@ || t@ == "h3"@ {
            opaque(200, 220, 255)
        } else if t@ == "div"@ {
            opaque(220, 255, 220)
        } else if t@ == "p"@ {
            opaque(255, 255, 220)
        } else {
            opaque(255, 240, 240)
        },
        None => opaque(255, 255, 200),
    }
}

/// The colour a node with tag `tag_name` (none for text) is drawn with
/// when no style gives one.
pub fn get_default_color_for_tag(tag_name: &Option<String>) -> (r: Color)
    ensures
        r == default_tag_color(*tag_name),
{
    match tag_name {
        Some(tag) => {
            let t = chars_of(tag.as_str());
            let s = t.as_slice();
            if crate::text::chars_are(s, "body") {
                Color::rgb(240, 240, 240)
            } else if crate::text::chars_are(s, "h1") || crate::text::chars_are(s, "h2")
                || crate::text::chars_are(s, "h3") {
                Color::rgb(200, 220, 255)
            } else if crate::text::chars_are(s, "div") {
                Color::rgb(220, 255, 220)
            } else if crate::text::chars_are(s, "p") {
                Color::rgb(255, 255, 220)
            } else {
                Color::rgb(255, 240, 240)
            }
        },
        None => Color::rgb(255, 255, 200),
    }
}


/// Short hexadecimal colours are the long form with each digit doubled:
/// `#rgb` reads as `#rrggbb`, `#rgba` as `#rrggbbaa`.
pub proof fn lemma_short_hex_is_doubled(b: Seq<u8>)
    requires
        b.len() == 3 || b.len() == 4,
    ensures
        b.len() == 3 ==> hex_color(b) == hex_color(seq![b[0], b[0], b[1], b[1], b[2], b[2]]),
        b.len() == 4 ==> hex_color(b) == hex_color(seq![b[0], b[0], b[1], b[1], b[2], b[2], b[3], b[3]]),
{
}

/// The value of two hexadecimal digits, the first the high one.
pub open spec fn two_digits(hi: u8, lo: u8) -> int {
    16 * hex_digit(hi).unwrap() + hex_digit(lo).unwrap()
}

/// A long hexadecimal colour made of hexadecimal digits reads its channels
/// in the order red, green, blue and, in the eight-digit form, alpha, two
/// digits each with the high digit first; the six-digit form is opaque.
pub proof fn lemma_hex_channel_order(b: Seq<u8>)
    requires
        b.len() == 6 || b.len() == 8,
        forall|i: int| 0 <= i < b.len() ==> (#[trigger] hex_digit(b[i])).is_some(),
    ensures
        hex_color(b) matches Some(c) && {
            &&& c.r == two_digits(b[0], b[1])
            &&& c.g == two_digits(b[2], b[3])
            &&& c.b == two_digits(b[4], b[5])
            &&& c.a == (if b.len() == 8 {
                two_digits(b[6], b[7])
            } else {
                255
            })
        },
{
    assert forall|i: int| 0 <= i < b.len() implies b[i] != 43 && hex_digit(b[i]).unwrap() < 16 by {
        assert(hex_digit(b[i]).is_some());
    }
    assert(hex_digit(b[0]).is_some() && hex_digit(b[1]).is_some());
    assert(hex_digit(b[2]).is_some() && hex_digit(b[3]).is_some());
    assert(hex_digit(b[4]).is_some() && hex_digit(b[5]).is_some());
    if b.len() == 8 {
        assert(hex_digit(b[6]).is_some() && hex_digit(b[7]).is_some());
    }
}

/// The forms with alpha extend the opaque ones: `#rrggbbaa` has the red,
/// green and blue of `#rrggbb` (its first six digits), and `#rgba` those of
/// `#rgb` (its first three); only alpha comes from the last digits.
pub proof fn lemma_alpha_form_extends(b: Seq<u8>)
    requires
        b.len() == 8 || b.len() == 4,
    ensures
        hex_color(b) matches Some(c) ==> {
            let short = if b.len() == 8 {
                b.take(6)
            } else {
                b.take(3)
            };
            hex_color(short) matches Some(o) && o == (Color { a: 255, ..c })
        },
{
    if b.len() == 8 {
        let s = b.take(6);
        assert(s.len() == 6);
        assert(s[0] == b[0] && s[1] == b[1] && s[2] == b[2] && s[3] == b[3] && s[4] == b[4] && s[5] == b[5]);
        assert(pair_at(s, 0) == pair_at(b, 0) && pair_at(s, 2) == pair_at(b, 2) && pair_at(s, 4) == pair_at(b, 4));
    } else {
        let s = b.take(3);
        assert(s.len() == 3);
        assert(s[0] == b[0] && s[1] == b[1] && s[2] == b[2]);
        assert(double_at(s, 0) == double_at(b, 0) && double_at(s, 1) == double_at(b, 1) && double_at(s, 2) == double_at(b, 2));
    }
}

} // verus!
