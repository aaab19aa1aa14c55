//! Web fonts: the descriptors of an `@font-face` rule and loading font data.

use vstd::prelude::*;
use crate::text::{chars_of, string_from_chars, push_str, push_chars, lower, to_lower, chars_are, eq_ignore_case, equal_ignore_case, dec, decimal};
use crate::strmap::StrMap;
use std::sync::Arc;

verus! {

/// A font file format.
#[derive(Debug, Clone, Copy, PartialEq, Eq, Structural)]
pub enum FontFormat {
    TrueType,
    OpenType,
    Woff,
    Woff2,
    Eot,
    Svg,
}

/// The format named by a lower-cased file extension.
pub open spec fn format_of_extension(e: Seq<char>) -> Option<FontFormat> {
    if e == "ttf"@ {
        Some(FontFormat::TrueType)
    } else if e == "otf"@ {
        Some(FontFormat::OpenType)
    } else if e == "woff"@ {
        Some(FontFormat::Woff)
    } else if e == "woff2"@ {
        Some(FontFormat::Woff2)
    } else if e == "eot"@ {
        Some(FontFormat::Eot)
    } else if e == "svg"@ {
        Some(FontFormat::Svg)
    } else {
        None
    }
}

/// The CSS name of a format.
pub open spec fn format_name(f: FontFormat) -> Seq<char> {
    match f {
        FontFormat::TrueType => "truetype"@,
        FontFormat::OpenType => "opentype"@,
        FontFormat::Woff => "woff"@,
        FontFormat::Woff2 => "woff2"@,
        FontFormat::Eot => "embedded-opentype"@,
        FontFormat::Svg => "svg"@,
    }
}

impl FontFormat {
    /// The format of a file by its extension, in any case.
    pub fn from_extension(ext: &str) -> (r: Option<Self>)
        ensures
            r == format_of_extension(lower(ext@)),
    {
        let c = chars_of(ext);
        let l = to_lower(c.as_slice());
        let s = l.as_slice();
        if chars_are(s, "ttf") {
            Some(FontFormat::TrueType)
        } else if chars_are(s, "otf") {
            Some(FontFormat::OpenType)
        } else if chars_are(s, "woff") {
            Some(FontFormat::Woff)
        } else if chars_are(s, "woff2") {
            Some(FontFormat::Woff2)
        } else if chars_are(s, "eot") {
            Some(FontFormat::Eot)
        } else if chars_are(s, "svg") {
            Some(FontFormat::Svg)
        } else {
            None
        }
    }

    /// Whether the rasteriser reads this format (TrueType and OpenType).
    pub fn is_supported_by_fontdue(&self) -> (r: bool)
        ensures
            r == (*self == FontFormat::TrueType || *self == FontFormat::OpenType),
    {
        match self {
            FontFormat::TrueType | FontFormat::OpenType => true,
            _ => false,
        }
    }

    /// The CSS name of the format, as in `format('woff2')`.
    pub fn name(&self) -> (r: &'static str)
        ensures
            r@ == format_name(*self),
    {
        match self {
            FontFormat::TrueType => "truetype",
            FontFormat::OpenType => "opentype",
            FontFormat::Woff => "woff",
            FontFormat::Woff2 => "woff2",
            FontFormat::Eot => "embedded-opentype",
            FontFormat::Svg => "svg",
        }
    }
}

/// Where a font comes from (an entry of `src`).
#[derive(Debug, Clone)]
pub enum FontSource {
    /// A file to download, with its declared format.
    Url { url: String, format: Option<FontFormat> },
    /// A font installed on the system.
    Local { name: String },
}

/// A source as CSS writes it.
pub open spec fn source_text(s: FontSource) -> Seq<char> {
    match s {
        FontSource::Url { url, format } => "url('"@ + url@ + "')"@ + match format {
            Some(f) => " format('"@ + format_name(f) + "')"@,
            None => Seq::empty(),
        },
        FontSource::Local { name } => "local('"@ + name@ + "')"@,
    }
}

impl FontSource {
    /// The source as CSS writes it: `url('..') format('..')` or `local('..')`.
    pub fn to_css_text(&self) -> (r: String)
        ensures
            r@ == source_text(*self),
    {
        let mut v: Vec<char> = Vec::new();
        match self {
            FontSource::Url { url, format } => {
                push_str(&mut v, "url('");
                let u = chars_of(url.as_str());
                push_chars(&mut v, u.as_slice());
                push_str(&mut v, "')");
                match format {
                    Some(f) => {
                        push_str(&mut v, " format('");
                        push_str(&mut v, f.name());
                        push_str(&mut v, "')");
                    },
                    None => {},
                }
            },
            FontSource::Local { name } => {
                push_str(&mut v, "local('");
                let n = chars_of(name.as_str());
                push_chars(&mut v, n.as_slice());
                push_str(&mut v, "')");
            },
        }
        string_from_chars(v.as_slice())
    }
}

/// A font weight.
#[derive(Debug, Clone, Copy, PartialEq, Eq, Structural)]
pub enum FontWeight {
    /// 400.
    Normal,
    /// 700.
    Bold,
    /// A numeric weight from 100 to 900.
    Weight(u16),
}

/// The numeric value of a weight.
pub open spec fn weight_value(w: FontWeight) -> u16 {
    match w {
        FontWeight::Normal => 400,
        FontWeight::Bold => 700,
        FontWeight::Weight(n) => n,
    }
}

/// The value of a string of ASCII digits.
pub open spec fn digits_value(s: Seq<char>) -> int
    decreases s.len(),
{
    if s.len() == 0 {
        0
    } else {
        10 * digits_value(s.drop_last()) + (s.last() as int - 48)
    }
}

/// Every character is an ASCII digit.
pub open spec fn all_digits(s: Seq<char>) -> bool {
    forall|i: int| 0 <= i < s.len() ==> '0' <= #[trigger] s[i] <= '9'
}

/// `str::parse::<u16>`: an optional `+` and at least one digit, of value at
/// most 65535.
pub open spec fn parse_u16(s: Seq<char>) -> Option<u16> {
    let body = if s.len() > 0 && s[0] == '+' {
        s.skip(1)
    } else {
        s
    };
    if body.len() > 0 && all_digits(body) && digits_value(body) <= 65535 {
        Some(digits_value(body) as u16)
    } else {
        None
    }
}

proof fn lemma_digits_value_grows(s: Seq<char>, i: int)
    requires
        0 <= i <= s.len(),
        all_digits(s),
    ensures
        digits_value(s.take(i)) <= digits_value(s),
        0 <= digits_value(s.take(i)),
    decreases s.len() - i,
{
    if i < s.len() {
        lemma_digits_value_grows(s, i + 1);
        assert(s.take(i + 1).drop_last() =~= s.take(i));
        assert('0' <= s[i] <= '9');
        lemma_digits_value_nonneg(s.take(i));
    } else {
        assert(s.take(i) =~= s);
        lemma_digits_value_nonneg(s);
    }
}

proof fn lemma_digits_value_nonneg(s: Seq<char>)
    requires
        all_digits(s),
    ensures
        0 <= digits_value(s),
    decreases s.len(),
{
    if s.len() > 0 {
        assert(all_digits(s.drop_last()));
        lemma_digits_value_nonneg(s.drop_last());
        assert('0' <= s[s.len() - 1] <= '9');
    }
}

/// `str::parse::<u16>` on a character slice.
pub fn parse_u16_chars(s: &[char]) -> (r: Option<u16>)
    ensures
        r == parse_u16(s@),
{
    let start: usize = if s.len() > 0 && s[0] == '+' { 1 } else { 0 };
    let ghost body = if s@.len() > 0 && s@[0] == '+' { s@.skip(1) } else { s@ };
    assert(body =~= s@.skip(start as int));
    if start == s.len() {
        return None;
    }
    let mut acc: u32 = 0;
    let mut i: usize = start;
    while i < s.len()
        invariant
            start <= i <= s@.len(),
            body == s@.skip(start as int),
            body == (if s@.len() > 0 && s@[0] == '+' { s@.skip(1) } else { s@ }),
            body.len() > 0,
            all_digits(body.take(i - start)),
            acc == digits_value(body.take(i - start)),
            acc <= 65535,
        decreases s@.len() - i,
    {
        let c = s[i];
        if c < '0' || c > '9' {
            assert(body[i - start] == c);
            assert(!all_digits(body));
            return None;
        }
        let d: u32 = (c as u32) - 48;
        assert(body.take(i + 1 - start).drop_last() =~= body.take(i - start));
        assert(body.take(i + 1 - start).last() == c);
        let next: u32 = acc * 10 + d;
        assert(digits_value(body.take(i + 1 - start)) == next);
        i = i + 1;
        assert(all_digits(body.take(i - start)));
        if next > 65535 {
            proof {
                if all_digits(body) {
                    lemma_digits_value_grows(body, i - start);
                }
            }
            return None;
        }
        acc = next;
    }
    assert(body.take(i - start) =~= body);
    Some(acc as u16)
}

/// The weight written as `s`: `normal` or `bold` in any case, or a number
/// from 100 to 900.
pub open spec fn weight_of_text(s: Seq<char>) -> Option<FontWeight> {
    if lower(s) == "normal"@ {
        Some(FontWeight::Normal)
    } else if lower(s) == "bold"@ {
        Some(FontWeight::Bold)
    } else {
        match parse_u16(s) {
            Some(n) => if 100 <= n <= 900 {
                Some(FontWeight::Weight(n))
            } else {
                None
            },
            None => None,
        }
    }
}

impl FontWeight {
    /// The numeric value of the weight.
    pub fn to_numeric(&self) -> (r: u16)
        ensures
            r == weight_value(*self),
    {
        match self {
            FontWeight::Normal => 400,
            FontWeight::Bold => 700,
            FontWeight::Weight(w) => *w,
        }
    }

    /// Reads a weight: `normal`, `bold` or a number from 100 to 900.
    pub fn parse(s: &str) -> (r: Result<Self, ()>)
        ensures
            match weight_of_text(s@) {
                Some(w) => r == Ok::<FontWeight, ()>(w),
                None => r.is_err(),
            },
    {
        let c = chars_of(s);
        let l = to_lower(c.as_slice());
        if chars_are(l.as_slice(), "normal") {
            return Ok(FontWeight::Normal);
        }
        if chars_are(l.as_slice(), "bold") {
            return Ok(FontWeight::Bold);
        }
        match parse_u16_chars(c.as_slice()) {
            Some(n) => if 100 <= n && n <= 900 {
                Ok(FontWeight::Weight(n))
            } else {
                Err(())
            },
            None => Err(()),
        }
    }

    /// The weight as CSS writes it (its number).
    pub fn to_css_text(&self) -> (r: String)
        ensures
            r@ == dec(weight_value(*self) as nat),
    {
        let d = decimal(self.to_numeric() as u64);
        string_from_chars(d.as_slice())
    }
}

impl Default for FontWeight {
    fn default() -> (r: Self)
        ensures
            r == FontWeight::Normal,
    {
        FontWeight::Normal
    }
}

impl std::str::FromStr for FontWeight {
    type Err = ();

    fn from_str(s: &str) -> (r: Result<Self, Self::Err>)
        ensures
            match weight_of_text(s@) {
                Some(w) => r == Ok::<FontWeight, ()>(w),
                None => r.is_err(),
            },
    {
        FontWeight::parse(s)
    }
}

/// A font style.
#[derive(Debug, Clone, Copy, PartialEq, Eq, Structural)]
pub enum FontStyle {
    Normal,
    Italic,
    Oblique,
}

/// The style written as `s`, in any case.
pub open spec fn style_of_text(s: Seq<char>) -> Option<FontStyle> {
    if lower(s) == "normal"@ {
        Some(FontStyle::Normal)
    } else if lower(s) == "italic"@ {
        Some(FontStyle::Italic)
    } else if lower(s) == "oblique"@ {
        Some(FontStyle::Oblique)
    } else {
        None
    }
}

/// The CSS name of a style.
pub open spec fn style_name(s: FontStyle) -> Seq<char> {
    match s {
        FontStyle::Normal => "normal"@,
        FontStyle::Italic => "italic"@,
        FontStyle::Oblique => "oblique"@,
    }
}

impl FontStyle {
    /// Reads a style: `normal`, `italic` or `oblique`, in any case.
    pub fn parse(s: &str) -> (r: Result<Self, ()>)
        ensures
            match style_of_text(s@) {
                Some(st) => r == Ok::<FontStyle, ()>(st),
                None => r.is_err(),
            },
    {
        let c = chars_of(s);
        let l = to_lower(c.as_slice());
        if chars_are(l.as_slice(), "normal") {
            Ok(FontStyle::Normal)
        } else if chars_are(l.as_slice(), "italic") {
            Ok(FontStyle::Italic)
        } else if chars_are(l.as_slice(), "oblique") {
            Ok(FontStyle::Oblique)
        } else {
            Err(())
        }
    }

    /// The CSS name of the style.
    pub fn name(&self) -> (r: &'static str)
        ensures
            r@ == style_name(*self),
    {
        match self {
            FontStyle::Normal => "normal",
            FontStyle::Italic => "italic",
            FontStyle::Oblique => "oblique",
        }
    }
}

impl Default for FontStyle {
    fn default() -> (r: Self)
        ensures
            r == FontStyle::Normal,
    {
        FontStyle::Normal
    }
}

impl std::str::FromStr for FontStyle {
    type Err = ();

    fn from_str(s: &str) -> (r: Result<Self, Self::Err>)
        ensures
            match style_of_text(s@) {
                Some(st) => r == Ok::<FontStyle, ()>(st),
                None => r.is_err(),
            },
    {
        FontStyle::parse(s)
    }
}

/// A range of code points, both ends included.
#[derive(Debug, Clone, Copy, PartialEq, Eq, Structural)]
pub struct UnicodeRange {
    pub start: u32,
    pub end: u32,
}

impl UnicodeRange {
    /// The range from `start` to `end`.
    pub fn new(start: u32, end: u32) -> (r: Self)
        ensures
            r.start == start,
            r.end == end,
    {
        UnicodeRange { start, end }
    }

    /// Whether `codepoint` lies in the range.
    pub fn contains(&self, codepoint: u32) -> (r: bool)
        ensures
            r == (self.start <= codepoint <= self.end),
    {
        codepoint >= self.start && codepoint <= self.end
    }
}

/// The descriptors of an `@font-face` rule.
#[derive(Debug)]
pub struct FontFace {
    /// `font-family`.
    pub family: String,
    /// `src`, in order of preference.
    pub sources: Vec<FontSource>,
    pub weight: FontWeight,
    pub style: FontStyle,
    /// `unicode-range`.
    pub unicode_ranges: Vec<UnicodeRange>,
    /// Other descriptors, as written.
    pub descriptors: StrMap<String>,
}

impl FontFace {
    /// A face of `family` with no sources, normal weight and style, and no
    /// other descriptors.
    pub fn new(family: String) -> (r: Self)
        ensures
            r.family == family,
            r.sources@ == Seq::<FontSource>::empty(),
            r.weight == FontWeight::Normal,
            r.style == FontStyle::Normal,
            r.unicode_ranges@ == Seq::<UnicodeRange>::empty(),
            r.descriptors.wf(),
            r.descriptors@ == Map::<Seq<char>, String>::empty(),
    {
        FontFace {
            family,
            sources: Vec::new(),
            weight: FontWeight::Normal,
            style: FontStyle::Normal,
            unicode_ranges: Vec::new(),
            descriptors: StrMap::new(),
        }
    }

    /// Adds a source after the others.
    pub fn add_source(&mut self, source: FontSource)
        ensures
            final(self).sources@ == old(self).sources@.push(source),
            final(self).family == old(self).family,
            final(self).weight == old(self).weight,
            final(self).style == old(self).style,
            final(self).unicode_ranges == old(self).unicode_ranges,
            final(self).descriptors == old(self).descriptors,
    {
        self.sources.push(source);
    }

    /// Whether the face serves `family` (ASCII case ignored) at exactly this
    /// weight and style.
    pub fn matches(&self, family: &str, weight: FontWeight, style: FontStyle) -> (r: bool)
        ensures
            r == (eq_ignore_case(self.family@, family@) && self.weight == weight && self.style == style),
    {
        let a = chars_of(self.family.as_str());
        let b = chars_of(family);
        equal_ignore_case(a.as_slice(), b.as_slice()) && self.weight == weight && self.style == style
    }
}


/// `fontdue::Font`, a parsed font, carried through as an opaque value.
#[verifier::external_type_specification]
#[verifier::external_body]
pub struct ExFont(fontdue::Font);

/// What `fontdue::Font::from_bytes` with default settings reports for the
/// font data `data`: `None` when it reads the font, else its error message.
pub uninterp spec fn font_error(data: Seq<u8>) -> Option<Seq<char>>;

/// `fontdue::Font::from_bytes` with default settings.  Whether it reads the
/// data, and the message when it does not, depend on the bytes alone; what
/// they are is left to the name `font_error`.
#[verifier::external_body]
fn font_from_bytes(data: &[u8]) -> (r: Result<fontdue::Font, String>)
    ensures
        match r {
            Ok(_) => font_error(data@).is_none(),
            Err(e) => font_error(data@) == Some(e@),
        },
{
    match fontdue::Font::from_bytes(data, fontdue::FontSettings::default()) {
        Ok(font) => Ok(font),
        Err(e) => Err(e.to_string()),
    }
}

/// The message of a failed load, from the rasteriser's error.
pub fn load_failure_message(err: &str) -> (r: String)
    ensures
        r@ == "Failed to load font: "@ + err@,
{
    let mut v: Vec<char> = Vec::new();
    push_str(&mut v, "Failed to load font: ");
    let e = chars_of(err);
    push_chars(&mut v, e.as_slice());
    string_from_chars(v.as_slice())
}

/// A face with its font data, once loaded.
pub struct LoadedFont {
    pub face: FontFace,
    pub fontdue_font: Option<Arc<fontdue::Font>>,
}

impl LoadedFont {
    /// A face whose data is not loaded yet.
    pub fn new(face: FontFace) -> (r: Self)
        ensures
            r.face == face,
            r.fontdue_font.is_none(),
    {
        LoadedFont { face, fontdue_font: None }
    }

    /// Loads TrueType/OpenType data: on success the font is kept, else the
    /// rasteriser's message is returned after "Failed to load font: " and
    /// nothing changes.
    pub fn load_from_bytes(&mut self, data: &[u8]) -> (r: Result<(), String>)
        ensures
            r.is_ok() == font_error(data@).is_none(),
            r.is_ok() ==> final(self).fontdue_font.is_some(),
            r matches Err(m) ==> m@ == "Failed to load font: "@ + font_error(data@).unwrap()
                && final(self).fontdue_font == old(self).fontdue_font,
            final(self).face == old(self).face,
    {
        match font_from_bytes(data) {
            Ok(font) => {
                self.fontdue_font = Some(Arc::new(font));
                Ok(())
            },
            Err(e) => Err(load_failure_message(e.as_str())),
        }
    }

    /// Whether the font data is loaded.
    pub fn is_loaded(&self) -> (r: bool)
        ensures
            r == self.fontdue_font.is_some(),
    {
        self.fontdue_font.is_some()
    }
}

} // verus!
