//! Media types and the logic of `@media` queries.

use vstd::prelude::*;
use crate::text::{chars_of, to_lower, chars_are, lower};

verus! {

/// A media type.
#[derive(Debug, Clone, Copy, PartialEq, Eq, Structural)]
pub enum MediaType {
    All,
    Screen,
    Print,
    Speech,
}

/// The media type named by `s`, in any case.
pub open spec fn media_type_of(s: Seq<char>) -> Option<MediaType> {
    if lower(s) == "all"@ {
        Some(MediaType::All)
    } else if lower(s) == "screen"@ {
        Some(MediaType::Screen)
    } else if lower(s) == "print"@ {
        Some(MediaType::Print)
    } else if lower(s) == "speech"@ {
        Some(MediaType::Speech)
    } else {
        None
    }
}

/// The CSS name of a media type.
pub open spec fn media_type_name(t: MediaType) -> Seq<char> {
    match t {
        MediaType::All => "all"@,
        MediaType::Screen => "screen"@,
        MediaType::Print => "print"@,
        MediaType::Speech => "speech"@,
    }
}

impl MediaType {
    /// Reads a media type: `all`, `screen`, `print` or `speech`, in any case.
    pub fn parse(s: &str) -> (r: Result<Self, ()>)
        ensures
            match media_type_of(s@) {
                Some(t) => r == Ok::<MediaType, ()>(t),
                None => r.is_err(),
            },
    {
        let c = chars_of(s);
        let l = to_lower(c.as_slice());
        let x = l.as_slice();
        if chars_are(x, "all") {
            Ok(MediaType::All)
        } else if chars_are(x, "screen") {
            Ok(MediaType::Screen)
        } else if chars_are(x, "print") {
            Ok(MediaType::Print)
        } else if chars_are(x, "speech") {
            Ok(MediaType::Speech)
        } else {
            Err(())
        }
    }

    /// The CSS name of the media type.
    pub fn name(&self) -> (r: &'static str)
        ensures
            r@ == media_type_name(*self),
    {
        match self {
            MediaType::All => "all",
            MediaType::Screen => "screen",
            MediaType::Print => "print",
            MediaType::Speech => "speech",
        }
    }
}

impl Default for MediaType {
    fn default() -> (r: Self)
        ensures
            r == MediaType::All,
    {
        MediaType::All
    }
}

impl std::str::FromStr for MediaType {
    type Err = ();

    fn from_str(s: &str) -> (r: Result<Self, Self::Err>)
        ensures
            match media_type_of(s@) {
                Some(t) => r == Ok::<MediaType, ()>(t),
                None => r.is_err(),
            },
    {
        MediaType::parse(s)
    }
}

/// Device orientation.
#[derive(Debug, Clone, Copy, PartialEq, Eq, Structural)]
pub enum Orientation {
    Portrait,
    Landscape,
}

impl Orientation {
    /// The CSS name of the orientation.
    pub fn name(&self) -> (r: &'static str)
        ensures
            r@ == (match *self {
                Orientation::Portrait => "portrait"@,
                Orientation::Landscape => "landscape"@,
            }),
    {
        match self {
            Orientation::Portrait => "portrait",
            Orientation::Landscape => "landscape",
        }
    }
}

/// How the conditions of a query combine.
#[derive(Debug, Clone, Copy, PartialEq, Eq, Structural)]
pub enum MediaQueryOperator {
    And,
    Or,
}

/// `not` or `only` before a query.
#[derive(Debug, Clone, Copy, PartialEq, Eq, Structural)]
pub enum MediaQueryModifier {
    Not,
    Only,
}

impl MediaQueryModifier {
    /// The CSS keyword of the modifier.
    pub fn name(&self) -> (r: &'static str)
        ensures
            r@ == (match *self {
                MediaQueryModifier::Not => "not"@,
                MediaQueryModifier::Only => "only"@,
            }),
    {
        match self {
            MediaQueryModifier::Not => "not",
            MediaQueryModifier::Only => "only",
        }
    }
}

/// Whether a query applies: its media type must be `all` or the current
/// one, and every condition must hold; `not` inverts the answer.
pub open spec fn query_applies(
    media_type: MediaType,
    modifier: Option<MediaQueryModifier>,
    current: MediaType,
    conditions: Seq<bool>,
) -> bool {
    let base = (media_type == MediaType::All || media_type == current) && forall|i: int|
        0 <= i < conditions.len() ==> #[trigger] conditions[i];
    if modifier == Some(MediaQueryModifier::Not) {
        !base
    } else {
        base
    }
}

/// Decides a query from the truth of each of its conditions (measured on
/// the viewport by the caller).
pub fn media_query_verdict(
    media_type: MediaType,
    modifier: Option<MediaQueryModifier>,
    current: MediaType,
    conditions: &Vec<bool>,
) -> (r: bool)
    ensures
        r == query_applies(media_type, modifier, current, conditions@),
{
    let negate = match modifier {
        Some(MediaQueryModifier::Not) => true,
        _ => false,
    };
    if media_type != MediaType::All && media_type != current {
        return negate;
    }
    let mut all = true;
    let mut i: usize = 0;
    while i < conditions.len()
        invariant
            i <= conditions@.len(),
            all == forall|k: int| 0 <= k < i ==> #[trigger] conditions@[k],
        decreases conditions@.len() - i,
    {
        if !conditions[i] {
            all = false;
        }
        i = i + 1;
    }
    if negate {
        !all
    } else {
        all
    }
}

/// `not` inverts a query, and `only` changes nothing: a query with `not`
/// applies exactly when the same query without a modifier does not, and one
/// with `only` exactly when the query without it does.
pub proof fn lemma_modifiers(media_type: MediaType, current: MediaType, conditions: Seq<bool>)
    ensures
        query_applies(media_type, Some(MediaQueryModifier::Not), current, conditions) == !query_applies(
            media_type,
            None,
            current,
            conditions,
        ),
        query_applies(media_type, Some(MediaQueryModifier::Only), current, conditions) == query_applies(
            media_type,
            None,
            current,
            conditions,
        ),
{
}

/// A query without a modifier whose media type applies applies exactly when
/// every one of its conditions holds: one failing condition, wherever it
/// stands, keeps it from applying; a query for another media type never
/// applies.
pub proof fn lemma_every_condition_counts(media_type: MediaType, current: MediaType, conditions: Seq<bool>, k: int)
    ensures
        0 <= k < conditions.len() && !conditions[k] ==> !query_applies(media_type, None, current, conditions),
        (media_type == MediaType::All || media_type == current) && (forall|i: int|
            0 <= i < conditions.len() ==> #[trigger] conditions[i]) ==> query_applies(media_type, None, current, conditions),
        media_type != MediaType::All && media_type != current ==> !query_applies(media_type, None, current, conditions),
{
}

} // verus!
