//! Reading an `@media` query from its tokens: an optional `not`/`only`,
//! a media type, and conditions in parentheses joined by `and`.  Lengths
//! are kept as the text of their number, as the tokenizer wrote it.

use vstd::prelude::*;
use crate::css::tokens::{
    CssToken, exhausted, next_tok, skip_ws, next_token, skip_whitespace, lemma_skip_ws_bounds, lemma_next_tok_bounds,
};
use crate::css::media::{MediaType, MediaQueryModifier, MediaQueryOperator, Orientation, media_type_of};
use crate::text::{chars_of, to_lower, chars_are, chars_are_ignore_case, eq_ignore_case, lower};

verus! {

/// One condition of a media query.
#[derive(Debug, Clone)]
pub enum MediaFeature {
    /// `min-width`, with the text of its pixel value.
    MinWidth(String),
    MaxWidth(String),
    MinHeight(String),
    MaxHeight(String),
    Orientation(Orientation),
    /// `hover: hover` (true) or `hover: none` (false).
    Hover(bool),
    AspectRatio { width: u32, height: u32 },
    MinAspectRatio { width: u32, height: u32 },
    MaxAspectRatio { width: u32, height: u32 },
    /// Any other condition, by lower-cased name and value.
    Other { name: String, value: String },
}

/// A condition with its texts as character sequences.
pub enum FeatureView {
    MinWidth(Seq<char>),
    MaxWidth(Seq<char>),
    MinHeight(Seq<char>),
    MaxHeight(Seq<char>),
    Orientation(Orientation),
    Hover(bool),
    AspectRatio(u32, u32),
    MinAspectRatio(u32, u32),
    MaxAspectRatio(u32, u32),
    Other(Seq<char>, Seq<char>),
}

/// The view of a condition.
pub open spec fn feature_view(f: MediaFeature) -> FeatureView {
    match f {
        MediaFeature::MinWidth(x) => FeatureView::MinWidth(x@),
        MediaFeature::MaxWidth(x) => FeatureView::MaxWidth(x@),
        MediaFeature::MinHeight(x) => FeatureView::MinHeight(x@),
        MediaFeature::MaxHeight(x) => FeatureView::MaxHeight(x@),
        MediaFeature::Orientation(o) => FeatureView::Orientation(o),
        MediaFeature::Hover(b) => FeatureView::Hover(b),
        MediaFeature::AspectRatio { width, height } => FeatureView::AspectRatio(width, height),
        MediaFeature::MinAspectRatio { width, height } => FeatureView::MinAspectRatio(width, height),
        MediaFeature::MaxAspectRatio { width, height } => FeatureView::MaxAspectRatio(width, height),
        MediaFeature::Other { name, value } => FeatureView::Other(name@, value@),
    }
}

/// The views of a list of conditions.
pub open spec fn features_view(fs: Seq<MediaFeature>) -> Seq<FeatureView> {
    fs.map_values(|f: MediaFeature| feature_view(f))
}

/// A media query.
#[derive(Debug, Clone)]
pub struct MediaQuery {
    pub modifier: Option<MediaQueryModifier>,
    pub media_type: MediaType,
    pub features: Vec<MediaFeature>,
    pub operator: MediaQueryOperator,
}

impl MediaQuery {
    /// A query for all devices: no modifier, no conditions.
    pub fn new() -> (r: Self)
        ensures
            r.modifier.is_none(),
            r.media_type == MediaType::All,
            r.features@.len() == 0,
            r.operator == MediaQueryOperator::And,
    {
        Self::for_media_type(MediaType::All)
    }

    /// A query for one media type, with no modifier and no conditions.
    pub fn for_media_type(media_type: MediaType) -> (r: Self)
        ensures
            r.modifier.is_none(),
            r.media_type == media_type,
            r.features@.len() == 0,
            r.operator == MediaQueryOperator::And,
    {
        MediaQuery { modifier: None, media_type, features: Vec::new(), operator: MediaQueryOperator::And }
    }
}

impl Default for MediaQuery {
    fn default() -> (r: Self)
        ensures
            r.modifier.is_none(),
            r.media_type == MediaType::All,
            r.features@.len() == 0,
            r.operator == MediaQueryOperator::And,
    {
        Self::new()
    }
}

/// A pixel length token: `N` followed by `px` in any case, or a bare
/// number; the text of its number.
pub open spec fn px_text(t: CssToken) -> Option<Seq<char>> {
    match t {
        CssToken::Dimension { text, unit } => if eq_ignore_case(unit@, "px"@) {
            Some(text@)
        } else {
            None
        },
        CssToken::Number { text, .. } => Some(text@),
        _ => None,
    }
}

/// A non-negative integer token.
pub open spec fn ratio_int(t: CssToken) -> Option<u32> {
    match t {
        CssToken::Number { int_value: Some(i), .. } => if i >= 0 {
            Some(i as u32)
        } else {
            None
        },
        _ => None,
    }
}

/// `w / h` read from `i`: two non-negative integers around a `/`.
pub open spec fn ratio_from(s: Seq<CssToken>, i: int) -> Option<(u32, u32, int)> {
    match next_tok(s, i) {
        Some((t, k)) => match ratio_int(t) {
            Some(w) => match next_tok(s, k) {
                Some((CssToken::Delim(d), k2)) => if d == '/' {
                    match next_tok(s, k2) {
                        Some((t2, k3)) => match ratio_int(t2) {
                            Some(h) => Some((w, h, k3)),
                            None => None,
                        },
                        None => None,
                    }
                } else {
                    None
                },
                _ => None,
            },
            None => None,
        },
        None => None,
    }
}

/// The value of the condition `name` read from `i`, and the position
/// after it.
pub open spec fn feature_value(s: Seq<CssToken>, i: int, name: Seq<char>) -> Option<(FeatureView, int)> {
    if name == "min-width"@ || name == "max-width"@ || name == "min-height"@ || name == "max-height"@ {
        match next_tok(s, i) {
            Some((t, k)) => match px_text(t) {
                Some(x) => Some(
                    (
                        if name == "min-width"@ {
                            FeatureView::MinWidth(x)
                        } else if name == "max-width"@ {
                            FeatureView::MaxWidth(x)
                        } else if name == "min-height"@ {
                            FeatureView::MinHeight(x)
                        } else {
                            FeatureView::MaxHeight(x)
                        },
                        k,
                    ),
                ),
                None => None,
            },
            None => None,
        }
    } else if name == "orientation"@ {
        match next_tok(s, i) {
            Some((CssToken::Ident(v), k)) => if lower(v@) == "portrait"@ {
                Some((FeatureView::Orientation(Orientation::Portrait), k))
            } else if lower(v@) == "landscape"@ {
                Some((FeatureView::Orientation(Orientation::Landscape), k))
            } else {
                None
            },
            _ => None,
        }
    } else if name == "hover"@ {
        match next_tok(s, i) {
            Some((CssToken::Ident(v), k)) => if lower(v@) == "hover"@ {
                Some((FeatureView::Hover(true), k))
            } else if lower(v@) == "none"@ {
                Some((FeatureView::Hover(false), k))
            } else {
                None
            },
            _ => None,
        }
    } else if name == "aspect-ratio"@ || name == "min-aspect-ratio"@ || name == "max-aspect-ratio"@ {
        match ratio_from(s, i) {
            Some((w, h, k)) => Some(
                (
                    if name == "aspect-ratio"@ {
                        FeatureView::AspectRatio(w, h)
                    } else if name == "min-aspect-ratio"@ {
                        FeatureView::MinAspectRatio(w, h)
                    } else {
                        FeatureView::MaxAspectRatio(w, h)
                    },
                    k,
                ),
            ),
            None => None,
        }
    } else {
        match next_tok(s, i) {
            Some((CssToken::Ident(v), k)) => Some((FeatureView::Other(name, v@), k)),
            Some((CssToken::QuotedString(v), k)) => Some((FeatureView::Other(name, v@), k)),
            _ => None,
        }
    }
}

/// The condition written inside parentheses: `name: value` with nothing
/// after it but whitespace and comments.
pub open spec fn feature_from(s: Seq<CssToken>) -> Option<FeatureView> {
    match next_tok(s, skip_ws(s, 0)) {
        Some((CssToken::Ident(n), j1)) => match next_tok(s, skip_ws(s, j1)) {
            Some((CssToken::Colon, j3)) => match feature_value(s, skip_ws(s, j3), lower(n@)) {
                Some((f, k)) => if exhausted(s, k) {
                    Some(f)
                } else {
                    None
                },
                None => None,
            },
            _ => None,
        },
        _ => None,
    }
}

/// A parenthesised condition at `i`, and the position after it.
pub open spec fn block_feature(s: Seq<CssToken>, i: int) -> Option<(FeatureView, int)> {
    match next_tok(s, i) {
        Some((CssToken::Block(c, inner), k)) => if c == '(' {
            match feature_from(inner@) {
                Some(f) => Some((f, k)),
                None => None,
            }
        } else {
            None
        },
        _ => None,
    }
}

/// The conditions joined by `and` from `p`, after `fs`; `None` when an
/// `and` is not followed by a condition.
pub open spec fn and_features(s: Seq<CssToken>, p: int, fs: Seq<FeatureView>) -> Option<(Seq<FeatureView>, int)>
    decreases s.len() - p,
{
    match next_tok(s, p) {
        Some((CssToken::Ident(a), k)) => if eq_ignore_case(a@, "and"@) {
            match block_feature(s, skip_ws(s, k)) {
                Some((f, k2)) => {
                    let k3 = skip_ws(s, k2);
                    if p < k3 <= s.len() {
                        and_features(s, k3, fs.push(f))
                    } else {
                        Some((fs.push(f), k3))
                    }
                },
                None => None,
            }
        } else {
            Some((fs, p))
        },
        _ => Some((fs, p)),
    }
}

/// A media query read from all of its tokens: the modifier, the media
/// type and the conditions; `None` when it cannot be read or when tokens
/// other than whitespace and comments are left over.
pub open spec fn query_from(s: Seq<CssToken>) -> Option<(Option<MediaQueryModifier>, MediaType, Seq<FeatureView>)> {
    let i0 = skip_ws(s, 0);
    let (first, p1) = match next_tok(s, i0) {
        Some((CssToken::Ident(x), j)) => (Some(lower(x@)), j),
        _ => (None, i0),
    };
    let modifier = match first {
        Some(l) => if l == "not"@ {
            Some(MediaQueryModifier::Not)
        } else if l == "only"@ {
            Some(MediaQueryModifier::Only)
        } else {
            None
        },
        None => None,
    };
    let mt0 = match first {
        Some(l) => if modifier.is_none() {
            match media_type_of(l) {
                Some(t) => t,
                None => MediaType::All,
            }
        } else {
            MediaType::All
        },
        None => MediaType::All,
    };
    let i1 = skip_ws(s, p1);
    let (mt, p2) = if modifier.is_some() && mt0 == MediaType::All {
        match next_tok(s, i1) {
            Some((CssToken::Ident(y), k)) => (
                match media_type_of(y@) {
                    Some(t) => t,
                    None => mt0,
                },
                k,
            ),
            Some((_, k)) => (mt0, k),
            None => (mt0, i1),
        }
    } else {
        (mt0, i1)
    };
    let i2 = skip_ws(s, p2);
    let (fs0, p3) = match block_feature(s, i2) {
        Some((f, k)) => (seq![f], skip_ws(s, k)),
        None => (Seq::<FeatureView>::empty(), i2),
    };
    match and_features(s, p3, fs0) {
        Some((fs, p)) => if exhausted(s, p) {
            Some((modifier, mt, fs))
        } else {
            None
        },
        None => None,
    }
}

fn px_text_of(t: &CssToken) -> (r: Option<String>)
    ensures
        match r {
            Some(x) => px_text(*t) == Some(x@),
            None => px_text(*t).is_none(),
        },
{
    match t {
        CssToken::Dimension { text, unit } => {
            let u = chars_of(unit.as_str());
            if chars_are_ignore_case(u.as_slice(), "px") {
                Some(text.clone())
            } else {
                None
            }
        },
        CssToken::Number { text, .. } => Some(text.clone()),
        _ => None,
    }
}

fn ratio_int_of(t: &CssToken) -> (r: Option<u32>)
    ensures
        r == ratio_int(*t),
{
    match t {
        CssToken::Number { int_value: Some(i), .. } => if *i >= 0 {
            Some(*i as u32)
        } else {
            None
        },
        _ => None,
    }
}

fn read_ratio(ts: &Vec<CssToken>, i: usize) -> (r: Option<(u32, u32, usize)>)
    requires
        i <= ts@.len(),
    ensures
        match r {
            Some((w, h, k)) => ratio_from(ts@, i as int) == Some((w, h, k as int)) && k <= ts@.len(),
            None => ratio_from(ts@, i as int).is_none(),
        },
{
    proof {
        lemma_next_tok_bounds(ts@, i as int);
    }
    match next_token(ts, i) {
        Some((t, k)) => match ratio_int_of(t) {
            Some(w) => {
                proof {
                    lemma_next_tok_bounds(ts@, k as int);
                }
                match next_token(ts, k) {
                    Some((CssToken::Delim(d), k2)) => if *d == '/' {
                        proof {
                            lemma_next_tok_bounds(ts@, k2 as int);
                        }
                        match next_token(ts, k2) {
                            Some((t2, k3)) => match ratio_int_of(t2) {
                                Some(h) => Some((w, h, k3)),
                                None => None,
                            },
                            None => None,
                        }
                    } else {
                        None
                    },
                    _ => None,
                }
            },
            None => None,
        },
        None => None,
    }
}

fn read_feature_value(ts: &Vec<CssToken>, i: usize, name: &Vec<char>) -> (r: Option<(MediaFeature, usize)>)
    requires
        i <= ts@.len(),
    ensures
        match r {
            Some((f, k)) => feature_value(ts@, i as int, name@) == Some((feature_view(f), k as int)) && k <= ts@.len(),
            None => feature_value(ts@, i as int, name@).is_none(),
        },
{
    proof {
        lemma_next_tok_bounds(ts@, i as int);
    }
    let n = name.as_slice();
    if chars_are(n, "min-width") || chars_are(n, "max-width") || chars_are(n, "min-height") || chars_are(n, "max-height") {
        match next_token(ts, i) {
            Some((t, k)) => match px_text_of(t) {
                Some(x) => {
                    let f = if chars_are(n, "min-width") {
                        MediaFeature::MinWidth(x)
                    } else if chars_are(n, "max-width") {
                        MediaFeature::MaxWidth(x)
                    } else if chars_are(n, "min-height") {
                        MediaFeature::MinHeight(x)
                    } else {
                        MediaFeature::MaxHeight(x)
                    };
                    Some((f, k))
                },
                None => None,
            },
            None => None,
        }
    } else if chars_are(n, "orientation") {
        match next_token(ts, i) {
            Some((CssToken::Ident(v), k)) => {
                let vc = chars_of(v.as_str());
                let l = to_lower(vc.as_slice());
                if chars_are(l.as_slice(), "portrait") {
                    Some((MediaFeature::Orientation(Orientation::Portrait), k))
                } else if chars_are(l.as_slice(), "landscape") {
                    Some((MediaFeature::Orientation(Orientation::Landscape), k))
                } else {
                    None
                }
            },
            _ => None,
        }
    } else if chars_are(n, "hover") {
        match next_token(ts, i) {
            Some((CssToken::Ident(v), k)) => {
                let vc = chars_of(v.as_str());
                let l = to_lower(vc.as_slice());
                if chars_are(l.as_slice(), "hover") {
                    Some((MediaFeature::Hover(true), k))
                } else if chars_are(l.as_slice(), "none") {
                    Some((MediaFeature::Hover(false), k))
                } else {
                    None
                }
            },
            _ => None,
        }
    } else if chars_are(n, "aspect-ratio") || chars_are(n, "min-aspect-ratio") || chars_are(n, "max-aspect-ratio") {
        match read_ratio(ts, i) {
            Some((w, h, k)) => {
                let f = if chars_are(n, "aspect-ratio") {
                    MediaFeature::AspectRatio { width: w, height: h }
                } else if chars_are(n, "min-aspect-ratio") {
                    MediaFeature::MinAspectRatio { width: w, height: h }
                } else {
                    MediaFeature::MaxAspectRatio { width: w, height: h }
                };
                Some((f, k))
            },
            None => None,
        }
    } else {
        match next_token(ts, i) {
            Some((CssToken::Ident(v), k)) => Some(
                (MediaFeature::Other { name: crate::text::string_from_chars(n), value: v.clone() }, k),
            ),
            Some((CssToken::QuotedString(v), k)) => Some(
                (MediaFeature::Other { name: crate::text::string_from_chars(n), value: v.clone() }, k),
            ),
            _ => None,
        }
    }
}

/// Reads the condition inside a pair of parentheses from its tokens:
/// `name: value`, the name in any case, with nothing else after it but
/// whitespace and comments.
pub fn parse_media_feature(ts: &Vec<CssToken>) -> (r: Option<MediaFeature>)
    ensures
        match r {
            Some(f) => feature_from(ts@) == Some(feature_view(f)),
            None => feature_from(ts@).is_none(),
        },
{
    let j0 = skip_whitespace(ts, 0);
    proof {
        lemma_skip_ws_bounds(ts@, 0);
        lemma_next_tok_bounds(ts@, j0 as int);
    }
    match next_token(ts, j0) {
        Some((CssToken::Ident(name), j1)) => {
            let j2 = skip_whitespace(ts, j1);
            proof {
                lemma_skip_ws_bounds(ts@, j1 as int);
                lemma_next_tok_bounds(ts@, j2 as int);
            }
            match next_token(ts, j2) {
                Some((CssToken::Colon, j3)) => {
                    let j4 = skip_whitespace(ts, j3);
                    proof {
                        lemma_skip_ws_bounds(ts@, j3 as int);
                    }
                    let nc = chars_of(name.as_str());
                    let lname = to_lower(nc.as_slice());
                    match read_feature_value(ts, j4, &lname) {
                        Some((f, k)) => if skip_whitespace(ts, k) >= ts.len() {
                            Some(f)
                        } else {
                            None
                        },
                        None => None,
                    }
                },
                _ => None,
            }
        },
        _ => None,
    }
}

fn read_block_feature(ts: &Vec<CssToken>, i: usize) -> (r: Option<(MediaFeature, usize)>)
    requires
        i <= ts@.len(),
    ensures
        match r {
            Some((f, k)) => block_feature(ts@, i as int) == Some((feature_view(f), k as int)) && i < k <= ts@.len(),
            None => block_feature(ts@, i as int).is_none(),
        },
{
    proof {
        lemma_next_tok_bounds(ts@, i as int);
    }
    match next_token(ts, i) {
        Some((CssToken::Block(c, inner), k)) => if *c == '(' {
            match parse_media_feature(inner) {
                Some(f) => Some((f, k)),
                None => None,
            }
        } else {
            None
        },
        _ => None,
    }
}

/// Reads a media query from all of its tokens: an optional `not` or
/// `only`, a media type, a first condition in parentheses, and further
/// ones each after `and`; fails when a condition after `and` cannot be read
/// or tokens are left over.
pub fn parse_media_query(ts: &Vec<CssToken>) -> (r: Result<MediaQuery, ()>)
    ensures
        match r {
            Ok(q) => query_from(ts@) == Some((q.modifier, q.media_type, features_view(q.features@)))
                && q.operator == MediaQueryOperator::And,
            Err(()) => query_from(ts@).is_none(),
        },
{
    let i0 = skip_whitespace(ts, 0);
    proof {
        lemma_skip_ws_bounds(ts@, 0);
        lemma_next_tok_bounds(ts@, i0 as int);
    }
    let mut modifier: Option<MediaQueryModifier> = None;
    let mut media_type = MediaType::All;
    let p1 = match next_token(ts, i0) {
        Some((CssToken::Ident(x), j)) => {
            let xc = chars_of(x.as_str());
            let l = to_lower(xc.as_slice());
            if chars_are(l.as_slice(), "not") {
                modifier = Some(MediaQueryModifier::Not);
            } else if chars_are(l.as_slice(), "only") {
                modifier = Some(MediaQueryModifier::Only);
            } else {
                let ls = crate::text::string_from_chars(l.as_slice());
                proof {
                    assert(lower(lower(x@)) =~= lower(x@));
                }
                match MediaType::parse(ls.as_str()) {
                    Ok(t) => {
                        media_type = t;
                    },
                    Err(()) => {},
                }
            }
            j
        },
        _ => i0,
    };
    let ghost sp_first = match next_tok(ts@, i0 as int) {
        Some((CssToken::Ident(x), j)) => (Some(lower(x@)), j),
        _ => (None, i0 as int),
    };
    let ghost sp_mod = match sp_first.0 {
        Some(l) => if l == "not"@ {
            Some(MediaQueryModifier::Not)
        } else if l == "only"@ {
            Some(MediaQueryModifier::Only)
        } else {
            None
        },
        None => None,
    };
    proof {
        assert(sp_first.1 == p1);
        assert(sp_mod == modifier);
        assert(media_type == match sp_first.0 {
            Some(l) => if sp_mod.is_none() {
                match media_type_of(l) {
                    Some(t) => t,
                    None => MediaType::All,
                }
            } else {
                MediaType::All
            },
            None => MediaType::All,
        });
    }
    let i1 = skip_whitespace(ts, p1);
    proof {
        lemma_skip_ws_bounds(ts@, p1 as int);
        lemma_next_tok_bounds(ts@, i1 as int);
    }
    let mut p2 = i1;
    if modifier.is_some() && media_type == MediaType::All {
        match next_token(ts, i1) {
            Some((t, k)) => {
                match t {
                    CssToken::Ident(y) => match MediaType::parse(y.as_str()) {
                        Ok(mt) => {
                            media_type = mt;
                        },
                        Err(()) => {},
                    },
                    _ => {},
                }
                p2 = k;
            },
            None => {},
        }
    }
    let ghost sp_mt0 = match sp_first.0 {
        Some(l) => if sp_mod.is_none() {
            match media_type_of(l) {
                Some(t) => t,
                None => MediaType::All,
            }
        } else {
            MediaType::All
        },
        None => MediaType::All,
    };
    let ghost sp_second = if sp_mod.is_some() && sp_mt0 == MediaType::All {
        match next_tok(ts@, i1 as int) {
            Some((CssToken::Ident(y), k)) => (
                match media_type_of(y@) {
                    Some(t) => t,
                    None => sp_mt0,
                },
                k,
            ),
            Some((_, k)) => (sp_mt0, k),
            None => (sp_mt0, i1 as int),
        }
    } else {
        (sp_mt0, i1 as int)
    };
    proof {
        assert(sp_second == (media_type, p2 as int));
    }
    let i2 = skip_whitespace(ts, p2);
    proof {
        lemma_skip_ws_bounds(ts@, p2 as int);
    }
    let mut features: Vec<MediaFeature> = Vec::new();
    let mut p = match read_block_feature(ts, i2) {
        Some((f, k)) => {
            features.push(f);
            proof {
                lemma_skip_ws_bounds(ts@, k as int);
                assert(features_view(features@) =~= seq![feature_view(f)]);
            }
            skip_whitespace(ts, k)
        },
        None => {
            proof {
                assert(features_view(features@) =~= Seq::<FeatureView>::empty());
            }
            i2
        },
    };
    proof {
        let sp_third = match block_feature(ts@, i2 as int) {
            Some((f, k)) => (seq![f], skip_ws(ts@, k)),
            None => (Seq::<FeatureView>::empty(), i2 as int),
        };
        assert(sp_third == (features_view(features@), p as int));
    }
    let ghost target = and_features(ts@, p as int, features_view(features@));
    proof {
        assert(query_from(ts@) == match target {
            Some((fs, q)) => if exhausted(ts@, q) {
                Some((modifier, media_type, fs))
            } else {
                None
            },
            None => None,
        });
    }
    loop
        invariant
            p <= ts@.len(),
            and_features(ts@, p as int, features_view(features@)) == target,
            query_from(ts@) == match target {
                Some((fs, q)) => if exhausted(ts@, q) {
                    Some((modifier, media_type, fs))
                } else {
                    None
                },
                None => None,
            },
        decreases ts@.len() - p,
    {
        proof {
            lemma_next_tok_bounds(ts@, p as int);
        }
        let joined = match next_token(ts, p) {
            Some((CssToken::Ident(a), k)) => {
                let ac = chars_of(a.as_str());
                if chars_are_ignore_case(ac.as_slice(), "and") {
                    Some(k)
                } else {
                    None
                }
            },
            _ => None,
        };
        match joined {
            Some(k) => {
                let k1 = skip_whitespace(ts, k);
                proof {
                    lemma_skip_ws_bounds(ts@, k as int);
                }
                match read_block_feature(ts, k1) {
                    Some((f, k2)) => {
                        let ghost before = features_view(features@);
                        features.push(f);
                        let k3 = skip_whitespace(ts, k2);
                        proof {
                            lemma_skip_ws_bounds(ts@, k2 as int);
                            assert(features_view(features@) =~= before.push(feature_view(f)));
                        }
                        p = k3;
                    },
                    None => {
                        return Err(());
                    },
                }
            },
            None => {
                if skip_whitespace(ts, p) >= ts.len() {
                    return Ok(MediaQuery { modifier, media_type, features, operator: MediaQueryOperator::And });
                } else {
                    return Err(());
                }
            },
        }
    }
}

} // verus!
