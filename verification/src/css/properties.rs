//! Normalised CSS declarations and the cascade that resolves them.

use vstd::prelude::*;
use crate::strmap::StrMap;
use crate::text::{is_ws, lead_ws, trail_ws, trim_start, lemma_lead_ws_bound, lemma_trail_ws_bound, chars_of, string_from_chars, slice_chars, push_str, push_chars, trim, trim_end, trim_chars, trim_end_chars, eq_ignore_case, chars_are_ignore_case, lower, to_lower, chars_are, dec, decimal, digit_char};
use crate::css::color::Color;

verus! {

/// A normalised CSS declaration (one property and its value).
#[derive(Debug, Clone)]
pub struct Property {
    pub name: String,
    pub value: String,
    pub important: bool,
}

/// The declaration that currently wins the cascade for a property.
#[derive(Debug, Clone)]
pub struct AppliedProperty {
    pub value: String,
    pub important: bool,
    pub specificity: u32,
    pub order: u64,
}

/// Errors raised while normalising a declaration.
#[derive(Debug, Clone)]
pub enum PropertyParseError {
    EmptyName,
    EmptyValue(String),
    TooManyComponents(String),
    InvalidValue(String, String),
    UnsupportedUnit(String),
}

/// Whether a new declaration with the given importance, specificity and order
/// takes the place of `current`: importance first, then specificity, and on a
/// tie the later (or equal) order wins.
pub open spec fn overrides(
    current: AppliedProperty,
    new_important: bool,
    new_specificity: u32,
    new_order: u64,
) -> bool {
    if current.important != new_important {
        new_important
    } else if current.specificity != new_specificity {
        new_specificity > current.specificity
    } else {
        new_order >= current.order
    }
}

/// Decides whether a new declaration overrides the applied one.
pub fn should_override(
    current: &AppliedProperty,
    new_important: bool,
    new_specificity: u32,
    new_order: u64,
) -> (r: bool)
    ensures
        r == overrides(*current, new_important, new_specificity, new_order),
{
    if current.important != new_important {
        return new_important;
    }
    if current.specificity != new_specificity {
        return new_specificity > current.specificity;
    }
    new_order >= current.order
}

/// The applied form of `property` at the given specificity and order.
pub open spec fn applied_of(property: Property, specificity: u32, order: u64) -> AppliedProperty {
    AppliedProperty {
        value: property.value,
        important: property.important,
        specificity,
        order,
    }
}

/// The cascade of one element: for each property name, the winning
/// declaration.
pub type Cascade = StrMap<AppliedProperty>;

/// The cascade after merging one declaration.
pub open spec fn merged(
    cascade: Map<Seq<char>, AppliedProperty>,
    property: Property,
    specificity: u32,
    order: u64,
) -> Map<Seq<char>, AppliedProperty> {
    if cascade.contains_key(property.name@) && !overrides(
        cascade[property.name@],
        property.important,
        specificity,
        order,
    ) {
        cascade
    } else {
        cascade.insert(property.name@, applied_of(property, specificity, order))
    }
}

/// Adds a declaration to the cascade, honouring specificity, order and
/// `!important`.
pub fn merge_property(cascade: &mut Cascade, property: &Property, specificity: u32, order: u64)
    requires
        old(cascade).wf(),
    ensures
        final(cascade).wf(),
        final(cascade).view() == merged(old(cascade).view(), *property, specificity, order),
{
    let replace = match cascade.get(&property.name) {
        Some(existing) => should_override(existing, property.important, specificity, order),
        None => true,
    };
    if replace {
        let applied = AppliedProperty {
            value: property.value.clone(),
            important: property.important,
            specificity,
            order,
        };
        cascade.insert(property.name.clone(), applied);
    }
}

/// An `!important` declaration always takes the place of a normal one,
/// whatever the specificities and orders involved.
pub proof fn lemma_important_beats_normal(
    cascade: Map<Seq<char>, AppliedProperty>,
    property: Property,
    specificity: u32,
    order: u64,
)
    requires
        property.important,
        cascade.contains_key(property.name@),
        !cascade[property.name@].important,
    ensures
        merged(cascade, property, specificity, order)[property.name@] == applied_of(
            property,
            specificity,
            order,
        ),
{
}

/// A normal declaration never takes the place of an `!important` one.
pub proof fn lemma_normal_never_beats_important(
    cascade: Map<Seq<char>, AppliedProperty>,
    property: Property,
    specificity: u32,
    order: u64,
)
    requires
        !property.important,
        cascade.contains_key(property.name@),
        cascade[property.name@].important,
    ensures
        merged(cascade, property, specificity, order) == cascade,
{
}

/// With equal importance, the higher specificity wins regardless of order.
pub proof fn lemma_higher_specificity_wins(
    cascade: Map<Seq<char>, AppliedProperty>,
    property: Property,
    specificity: u32,
    order: u64,
)
    requires
        cascade.contains_key(property.name@),
        cascade[property.name@].important == property.important,
    ensures
        specificity > cascade[property.name@].specificity ==> merged(
            cascade,
            property,
            specificity,
            order,
        )[property.name@] == applied_of(property, specificity, order),
        specificity < cascade[property.name@].specificity ==> merged(
            cascade,
            property,
            specificity,
            order,
        ) == cascade,
{
}

/// With equal importance and specificity, the later declaration wins.
pub proof fn lemma_later_declaration_wins(
    cascade: Map<Seq<char>, AppliedProperty>,
    property: Property,
    specificity: u32,
    order: u64,
)
    requires
        cascade.contains_key(property.name@),
        cascade[property.name@].important == property.important,
        cascade[property.name@].specificity == specificity,
        cascade[property.name@].order <= order,
    ensures
        merged(cascade, property, specificity, order)[property.name@] == applied_of(
            property,
            specificity,
            order,
        ),
{
}

/// Merging touches only the merged property's name, and never removes one.
pub proof fn lemma_merge_is_local(
    cascade: Map<Seq<char>, AppliedProperty>,
    property: Property,
    specificity: u32,
    order: u64,
    other: Seq<char>,
)
    requires
        other != property.name@,
    ensures
        merged(cascade, property, specificity, order).contains_key(property.name@),
        merged(cascade, property, specificity, order).contains_key(other) == cascade.contains_key(
            other,
        ),
        cascade.contains_key(other) ==> merged(cascade, property, specificity, order)[other]
            == cascade[other],
{
}

/// Declarations with distinct cascade orders can be merged in either order
/// with the same outcome: the cascade keeps the maximum under
/// (importance, specificity, order).
pub proof fn lemma_merge_order_independent(
    cascade: Map<Seq<char>, AppliedProperty>,
    p1: Property,
    s1: u32,
    o1: u64,
    p2: Property,
    s2: u32,
    o2: u64,
)
    requires
        o1 != o2,
    ensures
        merged(merged(cascade, p1, s1, o1), p2, s2, o2) == merged(
            merged(cascade, p2, s2, o2),
            p1,
            s1,
            o1,
        ),
{
    let a = merged(merged(cascade, p1, s1, o1), p2, s2, o2);
    let b = merged(merged(cascade, p2, s2, o2), p1, s1, o1);
    assert(a =~= b);
}


/// Position of the last `!` in `s`.
pub open spec fn last_bang(s: Seq<char>) -> Option<int>
    decreases s.len(),
{
    if s.len() == 0 {
        None
    } else if s.last() == '!' {
        Some(s.len() - 1)
    } else {
        last_bang(s.drop_last())
    }
}

/// A value split from a trailing `!important` (any case, spaces allowed
/// around the word): the value before it, trimmed at the end, and whether
/// it was there.
pub open spec fn important_split(v: Seq<char>) -> (Seq<char>, bool) {
    let t = trim_end(v);
    match last_bang(t) {
        Some(i) => if eq_ignore_case(trim(t.skip(i + 1)), "important"@) {
            (trim_end(t.take(i)), true)
        } else {
            (t, false)
        },
        None => (t, false),
    }
}

proof fn lemma_lead_ws_concat(a: Seq<char>, b: Seq<char>)
    requires
        lead_ws(a) < a.len(),
    ensures
        lead_ws(a + b) == lead_ws(a),
    decreases a.len(),
{
    assert((a + b)[0] == a[0]);
    if is_ws(a[0]) {
        assert((a + b).drop_first() =~= a.drop_first() + b);
        lemma_lead_ws_concat(a.drop_first(), b);
    }
}

proof fn lemma_trim_end_idempotent(x: Seq<char>)
    ensures
        trim_end(trim_end(x)) == trim_end(x),
{
    lemma_trail_ws_bound(x);
    let y = trim_end(x);
    if y.len() > 0 {
        assert(y.last() == x[x.len() - trail_ws(x) - 1]);
        assert(trail_ws(y) == 0);
    }
    assert(y.take(y.len() - trail_ws(y)) =~= y);
}

proof fn lemma_last_bang_skips(a: Seq<char>, b: Seq<char>)
    requires
        forall|i: int| 0 <= i < b.len() ==> b[i] != '!',
    ensures
        last_bang(a + b) == last_bang(a),
    decreases b.len(),
{
    if b.len() > 0 {
        assert((a + b).drop_last() =~= a + b.drop_last());
        assert((a + b).last() == b.last());
        lemma_last_bang_skips(a, b.drop_last());
    } else {
        assert(a + b =~= a);
    }
}

/// A value written with ` !important` after it is the same value, marked
/// important: when `v` has text and is not itself marked, splitting
/// `v !important` gives the trimmed `v` and the mark, and splitting `v`
/// gives the trimmed `v` unmarked.  (The mark is matched in any case.)
pub proof fn lemma_important_suffix(v: Seq<char>)
    requires
        trim(v).len() > 0,
        !important_split(trim(v)).1,
    ensures
        important_split(trim(v)) == (trim(v), false),
        important_split(trim(v + " !important"@)) == (trim(v), true),
{
    reveal_strlit(" !important");
    reveal_strlit("important");
    reveal_strlit(" !");
    reveal_strlit(" ");
    let sfx = " !important"@;
    let w = v + sfx;
    lemma_lead_ws_bound(v);
    let l = lead_ws(v);
    assert(l < v.len()) by {
        if l == v.len() {
            assert(trim_start(v) =~= Seq::<char>::empty());
        }
    }
    lemma_lead_ws_concat(v, sfx);
    let u = trim_start(v);
    assert(trim_start(w) =~= u + sfx);
    let big = u + sfx;
    assert(big.last() == 't');
    assert(trail_ws(big) == 0);
    assert(trim_end(big) =~= big);
    assert(trim(w) == big);
    // The mark is found.
    let head = u + " !"@;
    let word = "important"@;
    assert(sfx =~= " !"@ + word);
    assert(big =~= head + word);
    assert(head.last() == '!');
    assert(last_bang(head) == Some(head.len() - 1));
    lemma_last_bang_skips(head, word);
    let i: int = u.len() as int + 1;
    assert(last_bang(big) == Some(i));
    assert(big.skip(i + 1) =~= word);
    assert(lead_ws(word) == 0);
    assert(trim_start(word) =~= word);
    assert(trail_ws(word) == 0);
    assert(trim(word) =~= word);
    assert(eq_ignore_case(trim(big.skip(i + 1)), "important"@));
    let front = big.take(i);
    assert(front =~= u + " "@);
    assert(front.drop_last() =~= u);
    assert(trail_ws(front) == 1 + trail_ws(u));
    lemma_trail_ws_bound(u);
    assert(front.take(front.len() - trail_ws(front)) =~= u.take(u.len() - trail_ws(u)));
    assert(trim_end(front) =~= trim_end(u));
    // Unmarked, the value only loses trailing whitespace, and has none.
    lemma_trim_end_idempotent(u);
    assert(trim_end(trim(v)) == trim(v));
}

fn find_last_bang(s: &[char]) -> (r: Option<usize>)
    ensures
        match r {
            Some(i) => last_bang(s@) == Some(i as int) && i < s@.len(),
            None => last_bang(s@).is_none(),
        },
{
    let mut i: usize = s.len();
    assert(s@.take(s@.len() as int) =~= s@);
    while i > 0
        invariant
            i <= s@.len(),
            last_bang(s@) == last_bang(s@.take(i as int)),
        decreases i,
    {
        assert(s@.take(i as int).drop_last() =~= s@.take(i - 1));
        if s[i - 1] == '!' {
            return Some(i - 1);
        }
        i = i - 1;
    }
    None
}

/// Splits a trailing `!important` from a declaration value.
pub fn split_important(value: &str) -> (r: (String, bool))
    ensures
        r.0@ == important_split(value@).0,
        r.1 == important_split(value@).1,
{
    let vc = chars_of(value);
    let t = trim_end_chars(vc.as_slice());
    let n = t.len();
    match find_last_bang(t.as_slice()) {
        Some(i) => {
            assert(i < n);
            let after = slice_chars(t.as_slice(), i + 1, n);
            let word = trim_chars(after.as_slice());
            assert(after@ == t@.skip(i + 1));
            if chars_are_ignore_case(word.as_slice(), "important") {
                let before = slice_chars(t.as_slice(), 0, i);
                assert(before@ == t@.take(i as int));
                let b = trim_end_chars(before.as_slice());
                return (string_from_chars(b.as_slice()), true);
            }
            (string_from_chars(t.as_slice()), false)
        },
        None => (string_from_chars(t.as_slice()), false),
    }
}

/// `a / 255` rounded to thousandths (no value falls halfway).
pub open spec fn alpha_thousandths(a: u8) -> int {
    (2000 * a + 255) / 510
}

/// The three decimals of `q` (below 1000) without trailing zeros.
pub open spec fn decimals(q: int) -> Seq<char> {
    let d0 = digit_char((q / 100) as nat);
    let d1 = digit_char(((q / 10) % 10) as nat);
    let d2 = digit_char((q % 10) as nat);
    if q % 10 != 0 {
        seq![d0, d1, d2]
    } else if (q / 10) % 10 != 0 {
        seq![d0, d1]
    } else {
        seq![d0]
    }
}

/// The alpha channel as a fraction of one: `0`, `1`, or `0.` and up to three
/// decimals.
pub open spec fn alpha_text(a: u8) -> Seq<char> {
    if a == 0 {
        "0"@
    } else if a == 255 {
        "1"@
    } else {
        "0."@ + decimals(alpha_thousandths(a))
    }
}

/// `rgba(r, g, b, alpha)` with the alpha as a fraction of one.
pub open spec fn color_text(c: Color) -> Seq<char> {
    "rgba("@ + dec(c.r as nat) + ", "@ + dec(c.g as nat) + ", "@ + dec(c.b as nat) + ", "@ + alpha_text(c.a) + ")"@
}

fn push_digit(v: &mut Vec<char>, d: u32)
    requires
        d < 10,
    ensures
        final(v)@ == old(v)@.push(digit_char(d as nat)),
{
    let b: u8 = d as u8;
    v.push((b + 48) as char);
}

/// The normalised text of a colour: `rgba(r, g, b, alpha)`, the alpha
/// written as a fraction of one with at most three decimals.
pub fn format_color(color: Color) -> (r: String)
    ensures
        r@ == color_text(color),
{
    let mut v: Vec<char> = Vec::new();
    push_str(&mut v, "rgba(");
    let rc = decimal(color.r as u64);
    push_chars(&mut v, rc.as_slice());
    push_str(&mut v, ", ");
    let gc = decimal(color.g as u64);
    push_chars(&mut v, gc.as_slice());
    push_str(&mut v, ", ");
    let bc = decimal(color.b as u64);
    push_chars(&mut v, bc.as_slice());
    push_str(&mut v, ", ");
    let ghost pre = v@;
    if color.a == 0 {
        push_str(&mut v, "0");
    } else if color.a == 255 {
        push_str(&mut v, "1");
    } else {
        push_str(&mut v, "0.");
        let a: u32 = color.a as u32;
        let q: u32 = (2000 * a + 255) / 510;
        assert(q == alpha_thousandths(color.a));
        let ghost mid = v@;
        push_digit(&mut v, q / 100);
        if q % 10 != 0 {
            push_digit(&mut v, (q / 10) % 10);
            push_digit(&mut v, q % 10);
        } else if (q / 10) % 10 != 0 {
            push_digit(&mut v, (q / 10) % 10);
        }
        assert(v@ =~= mid + decimals(q as int));
    }
    assert(v@ =~= pre + alpha_text(color.a));
    push_str(&mut v, ")");
    string_from_chars(v.as_slice())
}

/// The four sides of a box shorthand, in the order top, right, bottom, left.
pub open spec fn box_sides(parts: Seq<String>) -> Seq<String> {
    if parts.len() == 1 {
        seq![parts[0], parts[0], parts[0], parts[0]]
    } else if parts.len() == 2 {
        seq![parts[0], parts[1], parts[0], parts[1]]
    } else if parts.len() == 3 {
        seq![parts[0], parts[1], parts[2], parts[1]]
    } else {
        parts
    }
}

/// The side names of a box property.
pub open spec fn side_name(prefix: Seq<char>, i: int) -> Seq<char> {
    prefix + if i == 0 {
        "-top"@
    } else if i == 1 {
        "-right"@
    } else if i == 2 {
        "-bottom"@
    } else {
        "-left"@
    }
}

fn side_suffix(i: usize) -> (r: &'static str)
    requires
        i < 4,
    ensures
        r@ == (if i == 0 {
            "-top"@
        } else if i == 1 {
            "-right"@
        } else if i == 2 {
            "-bottom"@
        } else {
            "-left"@
        }),
{
    if i == 0 {
        "-top"
    } else if i == 1 {
        "-right"
    } else if i == 2 {
        "-bottom"
    } else {
        "-left"
    }
}

/// Expands the values of a `margin`/`padding` shorthand (one to four, as
/// CSS repeats them) into the four side declarations.
pub fn expand_box_shorthand(prefix: &str, parts: Vec<String>) -> (r: Result<Vec<Property>, PropertyParseError>)
    ensures
        parts@.len() == 0 ==> (r matches Err(PropertyParseError::EmptyValue(p)) && p@ == prefix@),
        parts@.len() > 4 ==> (r matches Err(PropertyParseError::TooManyComponents(p)) && p@ == prefix@),
        1 <= parts@.len() <= 4 ==> (r matches Ok(ds) && ds@.len() == 4 && forall|i: int|
            0 <= i < 4 ==> (#[trigger] ds@[i]).name@ == side_name(prefix@, i) && ds@[i].value
                == box_sides(parts@)[i] && !ds@[i].important),
{
    let n = parts.len();
    if n == 0 {
        return Err(PropertyParseError::EmptyValue(prefix.to_string()));
    }
    if n > 4 {
        return Err(PropertyParseError::TooManyComponents(prefix.to_string()));
    }
    let mut sides: Vec<String> = Vec::new();
    if n == 1 {
        sides.push(parts[0].clone());
        sides.push(parts[0].clone());
        sides.push(parts[0].clone());
        sides.push(parts[0].clone());
    } else if n == 2 {
        sides.push(parts[0].clone());
        sides.push(parts[1].clone());
        sides.push(parts[0].clone());
        sides.push(parts[1].clone());
    } else if n == 3 {
        sides.push(parts[0].clone());
        sides.push(parts[1].clone());
        sides.push(parts[2].clone());
        sides.push(parts[1].clone());
    } else {
        sides.push(parts[0].clone());
        sides.push(parts[1].clone());
        sides.push(parts[2].clone());
        sides.push(parts[3].clone());
    }
    assert(sides@ =~= box_sides(parts@));
    let pc = chars_of(prefix);
    let mut ds: Vec<Property> = Vec::new();
    let mut i: usize = 0;
    while i < 4
        invariant
            i <= 4,
            sides@ == box_sides(parts@),
            sides@.len() == 4,
            pc@ == prefix@,
            ds@.len() == i,
            forall|k: int| 0 <= k < i ==> (#[trigger] ds@[k]).name@ == side_name(prefix@, k) && ds@[k].value
                == box_sides(parts@)[k] && !ds@[k].important,
        decreases 4 - i,
    {
        let mut name = pc.clone();
        push_str(&mut name, side_suffix(i));
        ds.push(Property { name: string_from_chars(name.as_slice()), value: sides[i].clone(), important: false });
        i = i + 1;
    }
    Ok(ds)
}


/// How the value of a property is normalised.
#[derive(Debug, Clone, Copy, PartialEq, Eq, Structural)]
pub enum ValueKind {
    /// A colour, written back as `rgba(..)`.
    Color,
    /// A `margin`/`padding` shorthand of one to four lengths.
    BoxShorthand { allow_auto: bool },
    /// A single length.
    Length { allow_auto: bool },
    /// A length or a CSS-wide keyword.
    LengthOrKeyword { allow_auto: bool },
    /// A `display` keyword.
    Display,
    /// Kept as written.
    Verbatim,
}

/// A declaration ready for its value to be normalised: the lower-cased
/// property name, the value without `!important`, the importance, and how
/// the value is normalised.
#[derive(Debug, Clone)]
pub struct PropertyPlan {
    pub name: String,
    pub value: String,
    pub important: bool,
    pub kind: ValueKind,
}

/// How the value of property `n` (lower-cased) is normalised.
pub open spec fn value_kind(n: Seq<char>) -> ValueKind {
    if n == "color"@ || n == "background-color"@ {
        ValueKind::Color
    } else if n == "margin"@ {
        ValueKind::BoxShorthand { allow_auto: true }
    } else if n == "padding"@ {
        ValueKind::BoxShorthand { allow_auto: false }
    } else if n == "margin-top"@ || n == "margin-right"@ || n == "margin-bottom"@ || n == "margin-left"@ {
        ValueKind::Length { allow_auto: true }
    } else if n == "padding-top"@ || n == "padding-right"@ || n == "padding-bottom"@ || n == "padding-left"@ {
        ValueKind::Length { allow_auto: false }
    } else if n == "width"@ || n == "height"@ {
        ValueKind::LengthOrKeyword { allow_auto: true }
    } else if n == "display"@ {
        ValueKind::Display
    } else {
        ValueKind::Verbatim
    }
}

fn kind_of(n: &[char]) -> (r: ValueKind)
    ensures
        r == value_kind(n@),
{
    if chars_are(n, "color") || chars_are(n, "background-color") {
        ValueKind::Color
    } else if chars_are(n, "margin") {
        ValueKind::BoxShorthand { allow_auto: true }
    } else if chars_are(n, "padding") {
        ValueKind::BoxShorthand { allow_auto: false }
    } else if chars_are(n, "margin-top") || chars_are(n, "margin-right") || chars_are(n, "margin-bottom")
        || chars_are(n, "margin-left") {
        ValueKind::Length { allow_auto: true }
    } else if chars_are(n, "padding-top") || chars_are(n, "padding-right") || chars_are(n, "padding-bottom")
        || chars_are(n, "padding-left") {
        ValueKind::Length { allow_auto: false }
    } else if chars_are(n, "width") || chars_are(n, "height") {
        ValueKind::LengthOrKeyword { allow_auto: true }
    } else if chars_are(n, "display") {
        ValueKind::Display
    } else {
        ValueKind::Verbatim
    }
}

/// Prepares a declaration `name: raw_value` for normalisation: the name is
/// trimmed and lower-cased (empty: `EmptyName`), the value trimmed and
/// split from `!important` (empty before or after: `EmptyValue` with the
/// name).
pub fn plan_property(name: &str, raw_value: &str) -> (r: Result<PropertyPlan, PropertyParseError>)
    ensures
        trim(name@).len() == 0 ==> r == Err::<PropertyPlan, PropertyParseError>(PropertyParseError::EmptyName),
        trim(name@).len() > 0 && (trim(raw_value@).len() == 0 || important_split(trim(raw_value@)).0.len() == 0)
            ==> (r matches Err(PropertyParseError::EmptyValue(n)) && n@ == lower(trim(name@))),
        trim(name@).len() > 0 && trim(raw_value@).len() > 0 && important_split(trim(raw_value@)).0.len() > 0
            ==> (r matches Ok(p) && p.name@ == lower(trim(name@)) && p.value@ == important_split(trim(raw_value@)).0
                && p.important == important_split(trim(raw_value@)).1 && p.kind == value_kind(lower(trim(name@)))),
{
    let nc = chars_of(name);
    let nt = trim_chars(nc.as_slice());
    if nt.len() == 0 {
        return Err(PropertyParseError::EmptyName);
    }
    let nl = to_lower(nt.as_slice());
    let name_lower = string_from_chars(nl.as_slice());
    let vc = chars_of(raw_value);
    let vt = trim_chars(vc.as_slice());
    if vt.len() == 0 {
        return Err(PropertyParseError::EmptyValue(name_lower));
    }
    let trimmed = string_from_chars(vt.as_slice());
    let (value_part, important) = split_important(trimmed.as_str());
    let pc = chars_of(value_part.as_str());
    if pc.len() == 0 {
        return Err(PropertyParseError::EmptyValue(name_lower));
    }
    let kind = kind_of(nl.as_slice());
    Ok(PropertyPlan { name: name_lower, value: value_part, important, kind })
}

/// The CSS-wide keywords a length property keeps as they are (lower-cased):
/// `inherit`, `initial`, `unset`, and `auto` where allowed.
pub open spec fn length_keyword(value: Seq<char>, allow_auto: bool) -> Option<Seq<char>> {
    let l = lower(trim(value));
    if l == "inherit"@ || l == "initial"@ || l == "unset"@ || (allow_auto && l == "auto"@) {
        Some(l)
    } else {
        None
    }
}

/// The keyword a `width`/`height` value is, if it is one; other values are
/// read as lengths.
pub fn parse_length_keyword(value: &str, allow_auto: bool) -> (r: Option<String>)
    ensures
        match r {
            Some(k) => length_keyword(value@, allow_auto) == Some(k@),
            None => length_keyword(value@, allow_auto).is_none(),
        },
{
    let vc = chars_of(value);
    let t = trim_chars(vc.as_slice());
    let l = to_lower(t.as_slice());
    let s = l.as_slice();
    if chars_are(s, "inherit") || chars_are(s, "initial") || chars_are(s, "unset") || (allow_auto && chars_are(s, "auto")) {
        Some(string_from_chars(s))
    } else {
        None
    }
}

/// The `display` values accepted (lower-case).
pub open spec fn is_display_value(k: Seq<char>) -> bool {
    k == "block"@ || k == "inline"@ || k == "inline-block"@ || k == "flex"@ || k == "inline-flex"@ || k == "grid"@
        || k == "inline-grid"@ || k == "contents"@ || k == "none"@ || k == "list-item"@ || k == "table"@
        || k == "table-row"@ || k == "table-cell"@
}

/// Checks a lower-cased `display` keyword: kept when accepted, else
/// `InvalidValue("display", keyword)`.
pub fn check_display_keyword(ident: String) -> (r: Result<String, PropertyParseError>)
    ensures
        is_display_value(ident@) ==> r == Ok::<String, PropertyParseError>(ident),
        !is_display_value(ident@) ==> (r matches Err(PropertyParseError::InvalidValue(w, v)) && w@ == "display"@
            && v == ident),
{
    let c = chars_of(ident.as_str());
    let s = c.as_slice();
    if chars_are(s, "block") || chars_are(s, "inline") || chars_are(s, "inline-block") || chars_are(s, "flex")
        || chars_are(s, "inline-flex") || chars_are(s, "grid") || chars_are(s, "inline-grid") || chars_are(
        s,
        "contents",
    ) || chars_are(s, "none") || chars_are(s, "list-item") || chars_are(s, "table") || chars_are(s, "table-row")
        || chars_are(s, "table-cell") {
        Ok(ident)
    } else {
        Err(PropertyParseError::InvalidValue("display".to_string(), ident))
    }
}


/// What cssparser reads at the start of `value`: the first token, when it is
/// an identifier (whitespace and comments before it skipped), with its
/// unescaped name, and whether nothing but whitespace and comments follows.
pub uninterp spec fn css_leading_ident(value: Seq<char>) -> Option<(Seq<char>, bool)>;

/// Reads the leading identifier of `value` with cssparser: `Parser::new`,
/// `expect_ident`, then `skip_whitespace` and `is_exhausted`.  The result is
/// named by [`css_leading_ident`]: it depends on the text alone.
#[verifier::external_body]
fn leading_ident(value: &str) -> (r: Option<(String, bool)>)
    ensures
        (match r {
            Some(p) => Some((p.0@, p.1)),
            None => None,
        }) == css_leading_ident(value@),
{
    let mut parser = cssparser::Parser::new(value);
    let ident = parser.expect_ident().ok()?.to_string();
    parser.skip_whitespace();
    Some((ident, parser.is_exhausted()))
}

/// The result of reading a `display` value, given what was read at its
/// start: no identifier is an error naming the value; an identifier that,
/// ASCII lower-cased, is no display keyword is an error naming that
/// keyword; anything after the identifier is an error naming the value;
/// else the lower-cased keyword.
pub open spec fn display_outcome(value: Seq<char>, lead: Option<(Seq<char>, bool)>) -> Result<Seq<char>, Seq<char>> {
    match lead {
        None => Err(value),
        Some((id, rest_empty)) => if !is_display_value(lower(id)) {
            Err(lower(id))
        } else if !rest_empty {
            Err(value)
        } else {
            Ok(lower(id))
        },
    }
}

/// The view of a `display` result: the keyword, or the text named by its
/// `InvalidValue("display", ..)` error.
pub open spec fn display_result_view(r: Result<String, PropertyParseError>) -> Option<Result<Seq<char>, Seq<char>>> {
    match r {
        Ok(k) => Some(Ok(k@)),
        Err(PropertyParseError::InvalidValue(w, v)) => if w@ == "display"@ {
            Some(Err(v@))
        } else {
            None
        },
        Err(_) => None,
    }
}

/// Decides a `display` value from what was read at its start (see
/// [`display_outcome`]).
pub fn display_from_ident(value: &str, lead: Option<(String, bool)>) -> (r: Result<String, PropertyParseError>)
    ensures
        display_result_view(r) == Some(display_outcome(
            value@,
            match lead {
                Some(p) => Some((p.0@, p.1)),
                None => None,
            },
        )),
{
    match lead {
        None => Err(PropertyParseError::InvalidValue("display".to_string(), value.to_string())),
        Some((id, rest_empty)) => {
            let c = chars_of(id.as_str());
            let l = to_lower(c.as_slice());
            let ident = string_from_chars(l.as_slice());
            let checked = check_display_keyword(ident);
            match checked {
                Err(e) => Err(e),
                Ok(k) => if !rest_empty {
                    Err(PropertyParseError::InvalidValue("display".to_string(), value.to_string()))
                } else {
                    Ok(k)
                },
            }
        },
    }
}

/// Reads a `display` value: its leading identifier, lower-cased, must be a
/// display keyword with nothing after it.
pub fn parse_display_value(value: &str) -> (r: Result<String, PropertyParseError>)
    ensures
        display_result_view(r) == Some(display_outcome(value@, css_leading_ident(value@))),
{
    let lead = leading_ident(value);
    display_from_ident(value, lead)
}

/// The text of a declaration error.
pub open spec fn parse_error_message(e: PropertyParseError) -> Seq<char> {
    match e {
        PropertyParseError::EmptyName => "property name is empty"@,
        PropertyParseError::EmptyValue(n) => "value for `"@ + n@ + "` is empty"@,
        PropertyParseError::TooManyComponents(n) => "too many components for `"@ + n@ + "` shorthand"@,
        PropertyParseError::InvalidValue(n, v) => "invalid value `"@ + v@ + "` for `"@ + n@ + "`"@,
        PropertyParseError::UnsupportedUnit(u) => "unsupported unit `"@ + u@ + "`"@,
    }
}

impl PropertyParseError {
    /// The error as text.
    pub fn message(&self) -> (r: String)
        ensures
            r@ == parse_error_message(*self),
    {
        let mut v: Vec<char> = Vec::new();
        match self {
            PropertyParseError::EmptyName => {
                push_str(&mut v, "property name is empty");
            },
            PropertyParseError::EmptyValue(n) => {
                push_str(&mut v, "value for `");
                let c = chars_of(n.as_str());
                push_chars(&mut v, c.as_slice());
                push_str(&mut v, "` is empty");
            },
            PropertyParseError::TooManyComponents(n) => {
                push_str(&mut v, "too many components for `");
                let c = chars_of(n.as_str());
                push_chars(&mut v, c.as_slice());
                push_str(&mut v, "` shorthand");
            },
            PropertyParseError::InvalidValue(n, val) => {
                push_str(&mut v, "invalid value `");
                let c = chars_of(val.as_str());
                push_chars(&mut v, c.as_slice());
                push_str(&mut v, "` for `");
                let d = chars_of(n.as_str());
                push_chars(&mut v, d.as_slice());
                push_str(&mut v, "`");
            },
            PropertyParseError::UnsupportedUnit(u) => {
                push_str(&mut v, "unsupported unit `");
                let c = chars_of(u.as_str());
                push_chars(&mut v, c.as_slice());
                push_str(&mut v, "`");
            },
        }
        string_from_chars(v.as_slice())
    }
}

} // verus!
