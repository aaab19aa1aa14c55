//! Reading the descriptors of an `@font-face` block from its tokens.

use vstd::prelude::*;
use crate::css::tokens::{
    CssToken, skip_ws, next_tok, exhausted, value_from, lemma_skip_ws_bounds, lemma_next_tok_bounds,
    skip_whitespace, next_token, serialize_value_tokens,
};
use crate::css::fonts::{FontFace, FontFormat, FontSource, FontStyle, FontWeight, UnicodeRange, weight_of_text, style_of_text};
use crate::text::{chars_of, string_from_chars, to_lower, lower, eq_ignore_case, chars_are, chars_are_ignore_case};
use crate::strmap::StrMap;

verus! {

/// The range `start..=end`.
pub open spec fn range_of(start: u32, end: u32) -> UnicodeRange {
    UnicodeRange { start, end }
}

/// `|n|` as a code point.
pub open spec fn abs_u32(n: i32) -> u32 {
    if n < 0 {
        (-(n as int)) as u32
    } else {
        n as u32
    }
}

/// One `U+XXXX` or `U+XXXX-YYYY` read from `i`: the identifier `U` (any
/// case), a signed non-negative integer, and, when the token after it is a
/// signed integer, that integer's magnitude as the end.  The token after the
/// start is consumed whatever it is.
pub open spec fn range_item(s: Seq<CssToken>, i: int) -> Option<(UnicodeRange, int)> {
    match next_tok(s, i) {
        Some((CssToken::Ident(u), i1)) => if eq_ignore_case(u@, "U"@) {
            match next_tok(s, i1) {
                Some((CssToken::Number { has_sign: true, int_value: Some(n), .. }, i2)) => if n >= 0 {
                    match next_tok(s, i2) {
                        Some((CssToken::Number { has_sign: true, int_value: Some(m), .. }, i3)) => Some(
                            (range_of(n as u32, abs_u32(m)), i3),
                        ),
                        Some((_, i3)) => Some((range_of(n as u32, n as u32), i3)),
                        None => Some((range_of(n as u32, n as u32), i2)),
                    }
                } else {
                    None
                },
                _ => None,
            }
        } else {
            None
        },
        _ => None,
    }
}

/// Position after an optional `,` at `i` (after whitespace), and whether
/// one was there.
pub open spec fn comma_after(s: Seq<CssToken>, i: int) -> (bool, int) {
    let j = skip_ws(s, i);
    match next_tok(s, j) {
        Some((CssToken::Comma, k)) => (true, k),
        _ => (false, j),
    }
}

/// The ranges of a comma-separated `unicode-range` list from `i`, added
/// after `acc`, and the position reached; `None` when not even one range
/// can be read.
pub open spec fn ranges_from(s: Seq<CssToken>, i: int, acc: Seq<UnicodeRange>) -> Option<(Seq<UnicodeRange>, int)>
    decreases s.len() - i,
{
    if i < 0 || i > s.len() {
        None
    } else {
        let j = skip_ws(s, i);
        match range_item(s, j) {
            Some((r, k)) => {
                let (more, k2) = comma_after(s, k);
                proof {
                    lemma_skip_ws_bounds(s, i);
                    lemma_range_item_advances(s, j);
                }
                if more && k2 > i {
                    ranges_from(s, k2, acc.push(r))
                } else {
                    Some((acc.push(r), k2))
                }
            },
            None => if acc.len() == 0 {
                None
            } else {
                Some((acc, j))
            },
        }
    }
}

/// Reading a range moves forward.
pub proof fn lemma_range_item_advances(s: Seq<CssToken>, i: int)
    requires
        0 <= i <= s.len(),
    ensures
        range_item(s, i) matches Some((_, k)) ==> i < k <= s.len(),
{
    lemma_next_tok_bounds(s, i);
    if let Some((_, i1)) = next_tok(s, i) {
        lemma_next_tok_bounds(s, i1);
        if let Some((_, i2)) = next_tok(s, i1) {
            lemma_next_tok_bounds(s, i2);
        }
    }
}

/// `comma_after` stays within the list and does not go back.
pub proof fn lemma_comma_after_bounds(s: Seq<CssToken>, i: int)
    requires
        0 <= i <= s.len(),
    ensures
        i <= comma_after(s, i).1 <= s.len(),
{
    lemma_skip_ws_bounds(s, i);
    lemma_next_tok_bounds(s, skip_ws(s, i));
}

fn read_range(ts: &Vec<CssToken>, i: usize) -> (r: Option<(UnicodeRange, usize)>)
    requires
        i <= ts@.len(),
    ensures
        match r {
            Some((u, k)) => range_item(ts@, i as int) == Some((u, k as int)),
            None => range_item(ts@, i as int).is_none(),
        },
{
    proof {
        lemma_next_tok_bounds(ts@, i as int);
    }
    let (t, i1) = match next_token(ts, i) {
        Some(x) => x,
        None => return None,
    };
    let is_u = match t {
        CssToken::Ident(u) => {
            let c = chars_of(u.as_str());
            chars_are_ignore_case(c.as_slice(), "U")
        },
        _ => false,
    };
    if !is_u {
        return None;
    }
    proof {
        lemma_next_tok_bounds(ts@, i1 as int);
    }
    let (t2, i2) = match next_token(ts, i1) {
        Some(x) => x,
        None => return None,
    };
    let start: i32 = match t2 {
        CssToken::Number { has_sign: true, int_value: Some(n), .. } => {
            if *n >= 0 {
                *n
            } else {
                return None;
            }
        },
        _ => return None,
    };
    proof {
        lemma_next_tok_bounds(ts@, i2 as int);
    }
    match next_token(ts, i2) {
        Some((CssToken::Number { has_sign: true, int_value: Some(m), .. }, i3)) => {
            let end: u32 = if *m < 0 {
                if *m == i32::MIN {
                    2147483648u32
                } else {
                    (-*m) as u32
                }
            } else {
                *m as u32
            };
            Some((UnicodeRange::new(start as u32, end), i3))
        },
        Some((_, i3)) => Some((UnicodeRange::new(start as u32, start as u32), i3)),
        None => Some((UnicodeRange::new(start as u32, start as u32), i2)),
    }
}

fn read_comma(ts: &Vec<CssToken>, i: usize) -> (r: (bool, usize))
    requires
        i <= ts@.len(),
    ensures
        (r.0, r.1 as int) == comma_after(ts@, i as int),
{
    let j = skip_whitespace(ts, i);
    proof {
        lemma_skip_ws_bounds(ts@, i as int);
    }
    match next_token(ts, j) {
        Some((CssToken::Comma, k)) => (true, k),
        _ => (false, j),
    }
}

/// Reads a comma-separated `unicode-range` list from position `i`.
pub fn parse_unicode_ranges(ts: &Vec<CssToken>, i: usize) -> (r: Option<(Vec<UnicodeRange>, usize)>)
    requires
        i <= ts@.len(),
    ensures
        match r {
            Some((v, k)) => ranges_from(ts@, i as int, Seq::empty()) == Some((v@, k as int)) && k <= ts@.len(),
            None => ranges_from(ts@, i as int, Seq::empty()).is_none(),
        },
{
    let mut acc: Vec<UnicodeRange> = Vec::new();
    let mut pos = i;
    loop
        invariant
            pos <= ts@.len(),
            ranges_from(ts@, i as int, Seq::empty()) == ranges_from(ts@, pos as int, acc@),
        decreases ts@.len() - pos,
    {
        let j = skip_whitespace(ts, pos);
        proof {
            lemma_skip_ws_bounds(ts@, pos as int);
        }
        match read_range(ts, j) {
            Some((r, k)) => {
                proof {
                    lemma_range_item_advances(ts@, j as int);
                    lemma_comma_after_bounds(ts@, k as int);
                }
                let (more, k2) = read_comma(ts, k);
                acc.push(r);
                if more && k2 > pos {
                    pos = k2;
                } else {
                    return Some((acc, k2));
                }
            },
            None => {
                if acc.len() == 0 {
                    return None;
                } else {
                    return Some((acc, j));
                }
            },
        }
    }
}


/// The format named in `format("..")` (lower-cased), if known.
pub open spec fn format_named(q: Seq<char>) -> Option<FontFormat> {
    if q == "truetype"@ || q == "ttf"@ {
        Some(FontFormat::TrueType)
    } else if q == "opentype"@ || q == "otf"@ {
        Some(FontFormat::OpenType)
    } else if q == "woff"@ {
        Some(FontFormat::Woff)
    } else if q == "woff2"@ {
        Some(FontFormat::Woff2)
    } else if q == "embedded-opentype"@ || q == "eot"@ {
        Some(FontFormat::Eot)
    } else if q == "svg"@ {
        Some(FontFormat::Svg)
    } else {
        None
    }
}

/// The source inside `url(..)` or `local(..)` (function name lower-cased):
/// one string (or, for `local`, a name), and nothing after it.
pub open spec fn source_in(name: Seq<char>, inner: Seq<CssToken>) -> Option<FontSource> {
    if name == "url"@ {
        match next_tok(inner, 0) {
            Some((CssToken::QuotedString(u), k)) => if exhausted(inner, k) {
                Some(FontSource::Url { url: u, format: None })
            } else {
                None
            },
            Some((CssToken::UnquotedUrl(u), k)) => if exhausted(inner, k) {
                Some(FontSource::Url { url: u, format: None })
            } else {
                None
            },
            _ => None,
        }
    } else if name == "local"@ {
        match next_tok(inner, 0) {
            Some((CssToken::QuotedString(n), k)) => if exhausted(inner, k) {
                Some(FontSource::Local { name: n })
            } else {
                None
            },
            Some((CssToken::Ident(n), k)) => if exhausted(inner, k) {
                Some(FontSource::Local { name: n })
            } else {
                None
            },
            _ => None,
        }
    } else {
        None
    }
}

/// The contents of `format(..)`: a known quoted format, `None` for anything
/// else or nothing; an error (outer `None`) when more follows.
pub open spec fn format_in(inner: Seq<CssToken>) -> Option<Option<FontFormat>> {
    match next_tok(inner, 0) {
        Some((CssToken::QuotedString(q), k)) => if exhausted(inner, k) {
            Some(format_named(lower(q@)))
        } else {
            None
        },
        Some((_, k)) => if exhausted(inner, k) {
            Some(None)
        } else {
            None
        },
        None => Some(None),
    }
}

/// A source with its declared format (a local font keeps none).
pub open spec fn with_format(src: FontSource, f: Option<FontFormat>) -> FontSource {
    match src {
        FontSource::Url { url, .. } => FontSource::Url { url, format: f },
        FontSource::Local { name } => FontSource::Local { name },
    }
}

/// One entry of `src` read from `i`: `url(..)` or `local(..)`, then an
/// optional `format(..)`.
pub open spec fn source_item(s: Seq<CssToken>, i: int) -> Option<(FontSource, int)> {
    match next_tok(s, i) {
        Some((CssToken::Function(name, inner), i1)) => match source_in(lower(name@), inner@) {
            Some(src) => {
                let i2 = skip_ws(s, i1);
                match next_tok(s, i2) {
                    Some((CssToken::Function(fname, finner), i3)) => if eq_ignore_case(fname@, "format"@) {
                        match format_in(finner@) {
                            Some(f) => Some((with_format(src, f), i3)),
                            None => None,
                        }
                    } else {
                        Some((with_format(src, None), i2))
                    },
                    _ => Some((with_format(src, None), i2)),
                }
            },
            None => None,
        },
        _ => None,
    }
}

/// The entries of a comma-separated `src` list from `i`, added after `acc`,
/// and the position reached; `None` when not even one entry can be read.
pub open spec fn sources_from(s: Seq<CssToken>, i: int, acc: Seq<FontSource>) -> Option<(Seq<FontSource>, int)>
    decreases s.len() - i,
{
    if i < 0 || i > s.len() {
        None
    } else {
        let j = skip_ws(s, i);
        match source_item(s, j) {
            Some((src, k)) => {
                let (more, k2) = comma_after(s, k);
                if more && k2 > i {
                    sources_from(s, k2, acc.push(src))
                } else {
                    Some((acc.push(src), k2))
                }
            },
            None => if acc.len() == 0 {
                None
            } else {
                Some((acc, j))
            },
        }
    }
}

/// Reading a source moves forward.
pub proof fn lemma_source_item_advances(s: Seq<CssToken>, i: int)
    requires
        0 <= i <= s.len(),
    ensures
        source_item(s, i) matches Some((_, k)) ==> i < k <= s.len(),
{
    lemma_next_tok_bounds(s, i);
    if let Some((_, i1)) = next_tok(s, i) {
        lemma_skip_ws_bounds(s, i1);
        lemma_next_tok_bounds(s, skip_ws(s, i1));
    }
}

fn lower_text(s: &String) -> (r: Vec<char>)
    ensures
        r@ == lower(s@),
{
    let c = chars_of(s.as_str());
    to_lower(c.as_slice())
}

fn is_exhausted(ts: &Vec<CssToken>, i: usize) -> (r: bool)
    requires
        i <= ts@.len(),
    ensures
        r == exhausted(ts@, i as int),
{
    skip_whitespace(ts, i) >= ts.len()
}

fn read_source_in(name: &String, inner: &Vec<CssToken>) -> (r: Option<FontSource>)
    ensures
        r == source_in(lower(name@), inner@),
{
    let n = lower_text(name);
    if chars_are(n.as_slice(), "url") {
        match next_token(inner, 0) {
            Some((CssToken::QuotedString(u), k)) | Some((CssToken::UnquotedUrl(u), k)) => {
                proof {
                    lemma_next_tok_bounds(inner@, 0);
                }
                if is_exhausted(inner, k) {
                    Some(FontSource::Url { url: u.clone(), format: None })
                } else {
                    None
                }
            },
            _ => None,
        }
    } else if chars_are(n.as_slice(), "local") {
        match next_token(inner, 0) {
            Some((CssToken::QuotedString(v), k)) | Some((CssToken::Ident(v), k)) => {
                proof {
                    lemma_next_tok_bounds(inner@, 0);
                }
                if is_exhausted(inner, k) {
                    Some(FontSource::Local { name: v.clone() })
                } else {
                    None
                }
            },
            _ => None,
        }
    } else {
        None
    }
}

fn format_of_name(q: &[char]) -> (r: Option<FontFormat>)
    ensures
        r == format_named(q@),
{
    if chars_are(q, "truetype") || chars_are(q, "ttf") {
        Some(FontFormat::TrueType)
    } else if chars_are(q, "opentype") || chars_are(q, "otf") {
        Some(FontFormat::OpenType)
    } else if chars_are(q, "woff") {
        Some(FontFormat::Woff)
    } else if chars_are(q, "woff2") {
        Some(FontFormat::Woff2)
    } else if chars_are(q, "embedded-opentype") || chars_are(q, "eot") {
        Some(FontFormat::Eot)
    } else if chars_are(q, "svg") {
        Some(FontFormat::Svg)
    } else {
        None
    }
}

fn read_format_in(inner: &Vec<CssToken>) -> (r: Option<Option<FontFormat>>)
    ensures
        r == format_in(inner@),
{
    proof {
        lemma_next_tok_bounds(inner@, 0);
    }
    match next_token(inner, 0) {
        Some((CssToken::QuotedString(q), k)) => {
            if is_exhausted(inner, k) {
                let l = lower_text(q);
                Some(format_of_name(l.as_slice()))
            } else {
                None
            }
        },
        Some((_, k)) => {
            if is_exhausted(inner, k) {
                Some(None)
            } else {
                None
            }
        },
        None => Some(None),
    }
}

fn add_format(src: FontSource, f: Option<FontFormat>) -> (r: FontSource)
    ensures
        r == with_format(src, f),
{
    match src {
        FontSource::Url { url, .. } => FontSource::Url { url, format: f },
        FontSource::Local { name } => FontSource::Local { name },
    }
}

fn read_source(ts: &Vec<CssToken>, i: usize) -> (r: Option<(FontSource, usize)>)
    requires
        i <= ts@.len(),
    ensures
        match r {
            Some((src, k)) => source_item(ts@, i as int) == Some((src, k as int)),
            None => source_item(ts@, i as int).is_none(),
        },
{
    proof {
        lemma_next_tok_bounds(ts@, i as int);
    }
    let (name, inner, i1) = match next_token(ts, i) {
        Some((CssToken::Function(name, inner), i1)) => (name, inner, i1),
        _ => return None,
    };
    let src = match read_source_in(name, inner) {
        Some(s) => s,
        None => return None,
    };
    let i2 = skip_whitespace(ts, i1);
    proof {
        lemma_skip_ws_bounds(ts@, i1 as int);
    }
    match next_token(ts, i2) {
        Some((CssToken::Function(fname, finner), i3)) => {
            let fc = chars_of(fname.as_str());
            if chars_are_ignore_case(fc.as_slice(), "format") {
                match read_format_in(finner) {
                    Some(f) => Some((add_format(src, f), i3)),
                    None => None,
                }
            } else {
                Some((add_format(src, None), i2))
            }
        },
        _ => Some((add_format(src, None), i2)),
    }
}

/// Reads a comma-separated `src` list from position `i`.
pub fn parse_font_sources(ts: &Vec<CssToken>, i: usize) -> (r: Option<(Vec<FontSource>, usize)>)
    requires
        i <= ts@.len(),
    ensures
        match r {
            Some((v, k)) => sources_from(ts@, i as int, Seq::empty()) == Some((v@, k as int)) && k <= ts@.len(),
            None => sources_from(ts@, i as int, Seq::empty()).is_none(),
        },
{
    let mut acc: Vec<FontSource> = Vec::new();
    let mut pos = i;
    loop
        invariant
            pos <= ts@.len(),
            sources_from(ts@, i as int, Seq::empty()) == sources_from(ts@, pos as int, acc@),
        decreases ts@.len() - pos,
    {
        let j = skip_whitespace(ts, pos);
        proof {
            lemma_skip_ws_bounds(ts@, pos as int);
        }
        match read_source(ts, j) {
            Some((src, k)) => {
                proof {
                    lemma_source_item_advances(ts@, j as int);
                    lemma_comma_after_bounds(ts@, k as int);
                }
                let (more, k2) = read_comma(ts, k);
                acc.push(src);
                if more && k2 > pos {
                    pos = k2;
                } else {
                    return Some((acc, k2));
                }
            },
            None => {
                if acc.len() == 0 {
                    return None;
                } else {
                    return Some((acc, j));
                }
            },
        }
    }
}


/// What has been read of an `@font-face` block so far.
pub struct FaceState {
    pub family: Option<Seq<char>>,
    pub sources: Seq<FontSource>,
    pub weight: FontWeight,
    pub style: FontStyle,
    pub ranges: Seq<UnicodeRange>,
    pub descriptors: Map<Seq<char>, Seq<char>>,
}

/// Nothing read yet: no family, no sources, normal weight and style.
pub open spec fn initial_state() -> FaceState {
    FaceState {
        family: None,
        sources: Seq::empty(),
        weight: FontWeight::Normal,
        style: FontStyle::Normal,
        ranges: Seq::empty(),
        descriptors: Map::empty(),
    }
}

/// The position after an optional `;` at `k` (after whitespace).
pub open spec fn after_semicolon(s: Seq<CssToken>, k: int) -> int {
    let k1 = skip_ws(s, k);
    match next_tok(s, k1) {
        Some((CssToken::Semicolon, k2)) => k2,
        _ => k1,
    }
}

/// Reads the value of descriptor `name` (lower-cased) from `j`: `None` when
/// the block fails (a bad `src` or `unicode-range`), else whether reading
/// goes straight on (skipping the `;` step), the position reached and the
/// updated state.
pub open spec fn descriptor_step(s: Seq<CssToken>, j: int, name: Seq<char>, st: FaceState) -> Option<(bool, int, FaceState)> {
    if name == "font-family"@ {
        match next_tok(s, j) {
            Some((CssToken::QuotedString(f), k)) => Some((false, k, FaceState { family: Some(f@), ..st })),
            Some((CssToken::Ident(f), k)) => Some((false, k, FaceState { family: Some(f@), ..st })),
            Some((_, k)) => Some((true, k, st)),
            None => Some((false, j, st)),
        }
    } else if name == "src"@ {
        match sources_from(s, j, Seq::empty()) {
            Some((v, k)) => Some((false, k, FaceState { sources: v, ..st })),
            None => None,
        }
    } else if name == "font-weight"@ {
        match next_tok(s, j) {
            Some((CssToken::Ident(w), k)) => Some((false, k, match weight_of_text(w@) {
                Some(x) => FaceState { weight: x, ..st },
                None => st,
            })),
            Some((CssToken::Number { int_value: Some(n), .. }, k)) => Some((false, k, if 100 <= n <= 900 {
                FaceState { weight: FontWeight::Weight(n as u16), ..st }
            } else {
                st
            })),
            Some((_, k)) => Some((true, k, st)),
            None => Some((false, j, st)),
        }
    } else if name == "font-style"@ {
        match next_tok(s, j) {
            Some((CssToken::Ident(v), k)) => Some((false, k, match style_of_text(v@) {
                Some(x) => FaceState { style: x, ..st },
                None => st,
            })),
            Some((_, k)) => Some((false, k, st)),
            None => Some((false, j, st)),
        }
    } else if name == "unicode-range"@ {
        match ranges_from(s, j, Seq::empty()) {
            Some((v, k)) => Some((false, k, FaceState { ranges: v, ..st })),
            None => None,
        }
    } else {
        let (text, k) = value_from(s, j, true);
        Some((false, k, if text.len() > 0 {
            FaceState { descriptors: st.descriptors.insert(name, text), ..st }
        } else {
            st
        }))
    }
}

/// The face read, if a family was named.
pub open spec fn finish(st: FaceState) -> Option<FaceState> {
    if st.family.is_some() {
        Some(st)
    } else {
        None
    }
}

/// Reads the descriptors of an `@font-face` block from `i`: each is a name,
/// `:` and a value, ended by an optional `;`; tokens that do not start a
/// descriptor are passed over.  `None` when the block is invalid.
pub open spec fn block_from(s: Seq<CssToken>, i: int, st: FaceState) -> Option<FaceState>
    decreases s.len() - i,
{
    if i < 0 || i > s.len() {
        None
    } else if exhausted(s, i) {
        finish(st)
    } else {
        let j = skip_ws(s, i);
        match next_tok(s, j) {
            Some((CssToken::Ident(n), j1)) => {
                let j2 = skip_ws(s, j1);
                match next_tok(s, j2) {
                    Some((CssToken::Colon, j3)) => {
                        let j4 = skip_ws(s, j3);
                        match descriptor_step(s, j4, lower(n@), st) {
                            None => None,
                            Some((straight, k, st2)) => {
                                let pos = if straight { k } else { skip_ws(s, after_semicolon(s, k)) };
                                if i < pos <= s.len() {
                                    block_from(s, pos, st2)
                                } else {
                                    finish(st2)
                                }
                            },
                        }
                    },
                    Some((_, j3)) => if i < j3 <= s.len() {
                        block_from(s, j3, st)
                    } else {
                        finish(st)
                    },
                    None => if i < j2 <= s.len() {
                        block_from(s, j2, st)
                    } else {
                        finish(st)
                    },
                }
            },
            Some((_, j1)) => if i < j1 <= s.len() {
                block_from(s, j1, st)
            } else {
                finish(st)
            },
            None => finish(st),
        }
    }
}

/// The descriptor values as text.
pub open spec fn descriptor_texts(m: Map<Seq<char>, String>) -> Map<Seq<char>, Seq<char>> {
    Map::new(|k: Seq<char>| m.contains_key(k), |k: Seq<char>| m[k]@)
}

/// The state a face stands for.
pub open spec fn state_of(
    family: Option<String>,
    sources: Seq<FontSource>,
    weight: FontWeight,
    style: FontStyle,
    ranges: Seq<UnicodeRange>,
    descriptors: Map<Seq<char>, String>,
) -> FaceState {
    FaceState {
        family: match family {
            Some(f) => Some(f@),
            None => None,
        },
        sources,
        weight,
        style,
        ranges,
        descriptors: descriptor_texts(descriptors),
    }
}


/// The descriptors read so far, as values.
struct FaceDraft {
    family: Option<String>,
    sources: Vec<FontSource>,
    weight: FontWeight,
    style: FontStyle,
    ranges: Vec<UnicodeRange>,
    descriptors: StrMap<String>,
}

impl FaceDraft {
    spec fn state(self) -> FaceState {
        state_of(self.family, self.sources@, self.weight, self.style, self.ranges@, self.descriptors@)
    }
}

fn read_descriptor(ts: &Vec<CssToken>, j: usize, name: &[char], d: &mut FaceDraft) -> (r: Option<(bool, usize)>)
    requires
        j <= ts@.len(),
        old(d).descriptors.wf(),
    ensures
        final(d).descriptors.wf(),
        match r {
            None => descriptor_step(ts@, j as int, name@, old(d).state()).is_none(),
            Some((b, k)) => k <= ts@.len() && descriptor_step(ts@, j as int, name@, old(d).state()) == Some(
                (b, k as int, final(d).state()),
            ),
        },
{
    proof {
        lemma_next_tok_bounds(ts@, j as int);
    }
    if chars_are(name, "font-family") {
        match next_token(ts, j) {
            Some((CssToken::QuotedString(f), k)) | Some((CssToken::Ident(f), k)) => {
                d.family = Some(f.clone());
                Some((false, k))
            },
            Some((_, k)) => Some((true, k)),
            None => Some((false, j)),
        }
    } else if chars_are(name, "src") {
        match parse_font_sources(ts, j) {
            Some((v, k)) => {
                d.sources = v;
                Some((false, k))
            },
            None => {
                None
            },
        }
    } else if chars_are(name, "font-weight") {
        match next_token(ts, j) {
            Some((CssToken::Ident(w), k)) => {
                match FontWeight::parse(w.as_str()) {
                    Ok(x) => {
                        d.weight = x;
                    },
                    Err(_) => {},
                }
                Some((false, k))
            },
            Some((CssToken::Number { int_value: Some(n), .. }, k)) => {
                if 100 <= *n && *n <= 900 {
                    d.weight = FontWeight::Weight(*n as u16);
                }
                Some((false, k))
            },
            Some((_, k)) => Some((true, k)),
            None => Some((false, j)),
        }
    } else if chars_are(name, "font-style") {
        match next_token(ts, j) {
            Some((CssToken::Ident(v), k)) => {
                match FontStyle::parse(v.as_str()) {
                    Ok(x) => {
                        d.style = x;
                    },
                    Err(_) => {},
                }
                Some((false, k))
            },
            Some((_, k)) => Some((false, k)),
            None => Some((false, j)),
        }
    } else if chars_are(name, "unicode-range") {
        match parse_unicode_ranges(ts, j) {
            Some((v, k)) => {
                d.ranges = v;
                Some((false, k))
            },
            None => {
                None
            },
        }
    } else {
        let (text, k) = serialize_value_tokens(ts, j, true);
        let tc = chars_of(text.as_str());
        if tc.len() > 0 {
            let ghost before = d.descriptors@;
            d.descriptors.insert(string_from_chars(name), text);
            proof {
                assert(descriptor_texts(d.descriptors@) =~= descriptor_texts(before).insert(name@, tc@));
            }
        }
        Some((false, k))
    }
}

fn skip_semicolon(ts: &Vec<CssToken>, k: usize) -> (r: usize)
    requires
        k <= ts@.len(),
    ensures
        r == after_semicolon(ts@, k as int),
        k <= r <= ts@.len(),
{
    let k1 = skip_whitespace(ts, k);
    proof {
        lemma_skip_ws_bounds(ts@, k as int);
        lemma_next_tok_bounds(ts@, k1 as int);
    }
    match next_token(ts, k1) {
        Some((CssToken::Semicolon, k2)) => k2,
        _ => k1,
    }
}

fn finish_face(d: FaceDraft) -> (r: Result<FontFace, ()>)
    requires
        d.descriptors.wf(),
    ensures
        match r {
            Ok(face) => face.descriptors.wf() && finish(d.state()) == Some(
                state_of(Some(face.family), face.sources@, face.weight, face.style, face.unicode_ranges@, face.descriptors@),
            ),
            Err(()) => finish(d.state()).is_none(),
        },
{
    match d.family {
        Some(f) => Ok(FontFace {
            family: f,
            sources: d.sources,
            weight: d.weight,
            style: d.style,
            unicode_ranges: d.ranges,
            descriptors: d.descriptors,
        }),
        None => Err(()),
    }
}

impl FontFace {
    /// Reads an `@font-face` block from its tokens: `font-family` (a string
    /// or a name), `src`, `font-weight`, `font-style`, `unicode-range`, and
    /// any other descriptor kept as text.  Fails without a family, or when
    /// `src` or `unicode-range` cannot be read.
    pub fn parse_font_face_block(ts: &Vec<CssToken>) -> (r: Result<FontFace, ()>)
        ensures
            match r {
                Ok(face) => face.descriptors.wf() && block_from(ts@, 0, initial_state()) == Some(
                    state_of(Some(face.family), face.sources@, face.weight, face.style, face.unicode_ranges@, face.descriptors@),
                ),
                Err(()) => block_from(ts@, 0, initial_state()).is_none(),
            },
    {
        let mut d = FaceDraft {
            family: None,
            sources: Vec::new(),
            weight: FontWeight::Normal,
            style: FontStyle::Normal,
            ranges: Vec::new(),
            descriptors: StrMap::new(),
        };
        proof {
            assert(descriptor_texts(d.descriptors@) =~= Map::<Seq<char>, Seq<char>>::empty());
            assert(d.state() == initial_state());
        }
        let mut pos: usize = 0;
        loop
            invariant
                pos <= ts@.len(),
                d.descriptors.wf(),
                block_from(ts@, 0, initial_state()) == block_from(ts@, pos as int, d.state()),
            decreases ts@.len() - pos,
        {
            if is_exhausted(ts, pos) {
                return finish_face(d);
            }
            let j = skip_whitespace(ts, pos);
            proof {
                lemma_skip_ws_bounds(ts@, pos as int);
                lemma_next_tok_bounds(ts@, j as int);
            }
            match next_token(ts, j) {
                Some((CssToken::Ident(n), j1)) => {
                    let j2 = skip_whitespace(ts, j1);
                    proof {
                        lemma_skip_ws_bounds(ts@, j1 as int);
                        lemma_next_tok_bounds(ts@, j2 as int);
                    }
                    match next_token(ts, j2) {
                        Some((CssToken::Colon, j3)) => {
                            let j4 = skip_whitespace(ts, j3);
                            proof {
                                lemma_skip_ws_bounds(ts@, j3 as int);
                            }
                            let name = lower_text(n);
                            match read_descriptor(ts, j4, name.as_slice(), &mut d) {
                                None => {
                                    return Err(());
                                },
                                Some((straight, k)) => {
                                    let next = if straight {
                                        k
                                    } else {
                                        let a = skip_semicolon(ts, k);
                                        let b = skip_whitespace(ts, a);
                                        proof {
                                            lemma_skip_ws_bounds(ts@, a as int);
                                        }
                                        b
                                    };
                                    if pos < next && next <= ts.len() {
                                        pos = next;
                                    } else {
                                        return finish_face(d);
                                    }
                                },
                            }
                        },
                        Some((_, j3)) => {
                            if pos < j3 && j3 <= ts.len() {
                                pos = j3;
                            } else {
                                return finish_face(d);
                            }
                        },
                        None => {
                            if pos < j2 && j2 <= ts.len() {
                                pos = j2;
                            } else {
                                return finish_face(d);
                            }
                        },
                    }
                },
                Some((_, j1)) => {
                    if pos < j1 && j1 <= ts.len() {
                        pos = j1;
                    } else {
                        return finish_face(d);
                    }
                },
                None => {
                    return finish_face(d);
                },
            }
        }
    }
}

} // verus!
