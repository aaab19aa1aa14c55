//! Selector support: the cascade entry points, pseudo-classes and
//! pseudo-elements, and the per-element predicates that selector matching uses.

use vstd::prelude::*;
use crate::css::StyleRule;
use crate::strmap::StrMap;
use crate::text::{chars_are, chars_are_ignore_case, chars_of, eq_ignore_case};
use crate::css::properties::{Cascade, Property, merge_property, merged};

verus! {

/// Pseudo-classes supported by the engine.
#[derive(Debug, Clone, Copy, PartialEq, Eq, Hash, Structural)]
pub enum NonTSPseudoClass {
    FirstChild,
    LastChild,
    OnlyChild,
    FirstOfType,
    LastOfType,
    Hover,
    Focus,
    Active,
    Disabled,
    Enabled,
    Checked,
    Indeterminate,
    Link,
    Visited,
    AnyLink,
    ReadOnly,
    ReadWrite,
    PlaceholderShown,
    Valid,
    Invalid,
    InRange,
    OutOfRange,
    Required,
    Optional,
}

/// The name that selects a pseudo-class, or `None` for an unsupported name.
pub open spec fn nontspseudoclass_named(name: Seq<char>) -> Option<NonTSPseudoClass> {
    if name == "first-child"@ {
        Some(NonTSPseudoClass::FirstChild)
    }     else if name == "last-child"@ {
        Some(NonTSPseudoClass::LastChild)
    }     else if name == "only-child"@ {
        Some(NonTSPseudoClass::OnlyChild)
    }     else if name == "first-of-type"@ {
        Some(NonTSPseudoClass::FirstOfType)
    }     else if name == "last-of-type"@ {
        Some(NonTSPseudoClass::LastOfType)
    }     else if name == "hover"@ {
        Some(NonTSPseudoClass::Hover)
    }     else if name == "focus"@ {
        Some(NonTSPseudoClass::Focus)
    }     else if name == "active"@ {
        Some(NonTSPseudoClass::Active)
    }     else if name == "disabled"@ {
        Some(NonTSPseudoClass::Disabled)
    }     else if name == "enabled"@ {
        Some(NonTSPseudoClass::Enabled)
    }     else if name == "checked"@ {
        Some(NonTSPseudoClass::Checked)
    }     else if name == "indeterminate"@ {
        Some(NonTSPseudoClass::Indeterminate)
    }     else if name == "link"@ {
        Some(NonTSPseudoClass::Link)
    }     else if name == "visited"@ {
        Some(NonTSPseudoClass::Visited)
    }     else if name == "any-link"@ {
        Some(NonTSPseudoClass::AnyLink)
    }     else if name == "read-only"@ {
        Some(NonTSPseudoClass::ReadOnly)
    }     else if name == "read-write"@ {
        Some(NonTSPseudoClass::ReadWrite)
    }     else if name == "placeholder-shown"@ {
        Some(NonTSPseudoClass::PlaceholderShown)
    }     else if name == "valid"@ {
        Some(NonTSPseudoClass::Valid)
    }     else if name == "invalid"@ {
        Some(NonTSPseudoClass::Invalid)
    }     else if name == "in-range"@ {
        Some(NonTSPseudoClass::InRange)
    }     else if name == "out-of-range"@ {
        Some(NonTSPseudoClass::OutOfRange)
    }     else if name == "required"@ {
        Some(NonTSPseudoClass::Required)
    }     else if name == "optional"@ {
        Some(NonTSPseudoClass::Optional)
    } else {
        None
    }
}

/// The CSS text of a pseudo-class.
pub open spec fn nontspseudoclass_text(x: NonTSPseudoClass) -> Seq<char> {
    match x {
        NonTSPseudoClass::FirstChild => ":first-child"@,
        NonTSPseudoClass::LastChild => ":last-child"@,
        NonTSPseudoClass::OnlyChild => ":only-child"@,
        NonTSPseudoClass::FirstOfType => ":first-of-type"@,
        NonTSPseudoClass::LastOfType => ":last-of-type"@,
        NonTSPseudoClass::Hover => ":hover"@,
        NonTSPseudoClass::Focus => ":focus"@,
        NonTSPseudoClass::Active => ":active"@,
        NonTSPseudoClass::Disabled => ":disabled"@,
        NonTSPseudoClass::Enabled => ":enabled"@,
        NonTSPseudoClass::Checked => ":checked"@,
        NonTSPseudoClass::Indeterminate => ":indeterminate"@,
        NonTSPseudoClass::Link => ":link"@,
        NonTSPseudoClass::Visited => ":visited"@,
        NonTSPseudoClass::AnyLink => ":any-link"@,
        NonTSPseudoClass::ReadOnly => ":read-only"@,
        NonTSPseudoClass::ReadWrite => ":read-write"@,
        NonTSPseudoClass::PlaceholderShown => ":placeholder-shown"@,
        NonTSPseudoClass::Valid => ":valid"@,
        NonTSPseudoClass::Invalid => ":invalid"@,
        NonTSPseudoClass::InRange => ":in-range"@,
        NonTSPseudoClass::OutOfRange => ":out-of-range"@,
        NonTSPseudoClass::Required => ":required"@,
        NonTSPseudoClass::Optional => ":optional"@,
    }
}

impl NonTSPseudoClass {
    /// Looks up a pseudo-class by the name written after `:`.
    pub fn from_name(name: &str) -> (r: Option<NonTSPseudoClass>)
        ensures
            r == nontspseudoclass_named(name@),
    {
        let n = chars_of(name);
        if chars_are(n.as_slice(), "first-child") {
            return Some(NonTSPseudoClass::FirstChild);
        }
        if chars_are(n.as_slice(), "last-child") {
            return Some(NonTSPseudoClass::LastChild);
        }
        if chars_are(n.as_slice(), "only-child") {
            return Some(NonTSPseudoClass::OnlyChild);
        }
        if chars_are(n.as_slice(), "first-of-type") {
            return Some(NonTSPseudoClass::FirstOfType);
        }
        if chars_are(n.as_slice(), "last-of-type") {
            return Some(NonTSPseudoClass::LastOfType);
        }
        if chars_are(n.as_slice(), "hover") {
            return Some(NonTSPseudoClass::Hover);
        }
        if chars_are(n.as_slice(), "focus") {
            return Some(NonTSPseudoClass::Focus);
        }
        if chars_are(n.as_slice(), "active") {
            return Some(NonTSPseudoClass::Active);
        }
        if chars_are(n.as_slice(), "disabled") {
            return Some(NonTSPseudoClass::Disabled);
        }
        if chars_are(n.as_slice(), "enabled") {
            return Some(NonTSPseudoClass::Enabled);
        }
        if chars_are(n.as_slice(), "checked") {
            return Some(NonTSPseudoClass::Checked);
        }
        if chars_are(n.as_slice(), "indeterminate") {
            return Some(NonTSPseudoClass::Indeterminate);
        }
        if chars_are(n.as_slice(), "link") {
            return Some(NonTSPseudoClass::Link);
        }
        if chars_are(n.as_slice(), "visited") {
            return Some(NonTSPseudoClass::Visited);
        }
        if chars_are(n.as_slice(), "any-link") {
            return Some(NonTSPseudoClass::AnyLink);
        }
        if chars_are(n.as_slice(), "read-only") {
            return Some(NonTSPseudoClass::ReadOnly);
        }
        if chars_are(n.as_slice(), "read-write") {
            return Some(NonTSPseudoClass::ReadWrite);
        }
        if chars_are(n.as_slice(), "placeholder-shown") {
            return Some(NonTSPseudoClass::PlaceholderShown);
        }
        if chars_are(n.as_slice(), "valid") {
            return Some(NonTSPseudoClass::Valid);
        }
        if chars_are(n.as_slice(), "invalid") {
            return Some(NonTSPseudoClass::Invalid);
        }
        if chars_are(n.as_slice(), "in-range") {
            return Some(NonTSPseudoClass::InRange);
        }
        if chars_are(n.as_slice(), "out-of-range") {
            return Some(NonTSPseudoClass::OutOfRange);
        }
        if chars_are(n.as_slice(), "required") {
            return Some(NonTSPseudoClass::Required);
        }
        if chars_are(n.as_slice(), "optional") {
            return Some(NonTSPseudoClass::Optional);
        }
        None
    }

    /// The CSS text of this pseudo-class, as written in a selector.
    pub fn css_text(&self) -> (r: &'static str)
        ensures
            r@ == nontspseudoclass_text(*self),
    {
        match self {
            NonTSPseudoClass::FirstChild => ":first-child",
            NonTSPseudoClass::LastChild => ":last-child",
            NonTSPseudoClass::OnlyChild => ":only-child",
            NonTSPseudoClass::FirstOfType => ":first-of-type",
            NonTSPseudoClass::LastOfType => ":last-of-type",
            NonTSPseudoClass::Hover => ":hover",
            NonTSPseudoClass::Focus => ":focus",
            NonTSPseudoClass::Active => ":active",
            NonTSPseudoClass::Disabled => ":disabled",
            NonTSPseudoClass::Enabled => ":enabled",
            NonTSPseudoClass::Checked => ":checked",
            NonTSPseudoClass::Indeterminate => ":indeterminate",
            NonTSPseudoClass::Link => ":link",
            NonTSPseudoClass::Visited => ":visited",
            NonTSPseudoClass::AnyLink => ":any-link",
            NonTSPseudoClass::ReadOnly => ":read-only",
            NonTSPseudoClass::ReadWrite => ":read-write",
            NonTSPseudoClass::PlaceholderShown => ":placeholder-shown",
            NonTSPseudoClass::Valid => ":valid",
            NonTSPseudoClass::Invalid => ":invalid",
            NonTSPseudoClass::InRange => ":in-range",
            NonTSPseudoClass::OutOfRange => ":out-of-range",
            NonTSPseudoClass::Required => ":required",
            NonTSPseudoClass::Optional => ":optional",
        }
    }
}

impl NonTSPseudoClass {
    /// `:active` and `:hover`.
    pub fn is_active_or_hover(&self) -> (r: bool)
        ensures
            r == (*self == NonTSPseudoClass::Active || *self == NonTSPseudoClass::Hover),
    {
        matches!(self, NonTSPseudoClass::Active | NonTSPseudoClass::Hover)
    }

    /// The states driven by user actions: `:active`, `:hover` and `:focus`.
    pub fn is_user_action_state(&self) -> (r: bool)
        ensures
            r == (*self == NonTSPseudoClass::Active || *self == NonTSPseudoClass::Hover || *self
                == NonTSPseudoClass::Focus),
    {
        matches!(self, NonTSPseudoClass::Active | NonTSPseudoClass::Hover | NonTSPseudoClass::Focus)
    }
}

/// Pseudo-elements supported by the engine.
#[derive(Debug, Clone, Copy, PartialEq, Eq, Hash, Structural)]
pub enum PseudoElement {
    Before,
    After,
    FirstLine,
    FirstLetter,
}

/// The name that selects a pseudo-element, or `None` for an unsupported name.
pub open spec fn pseudoelement_named(name: Seq<char>) -> Option<PseudoElement> {
    if name == "before"@ {
        Some(PseudoElement::Before)
    }     else if name == "after"@ {
        Some(PseudoElement::After)
    }     else if name == "first-line"@ {
        Some(PseudoElement::FirstLine)
    }     else if name == "first-letter"@ {
        Some(PseudoElement::FirstLetter)
    } else {
        None
    }
}

/// The CSS text of a pseudo-element.
pub open spec fn pseudoelement_text(x: PseudoElement) -> Seq<char> {
    match x {
        PseudoElement::Before => "::before"@,
        PseudoElement::After => "::after"@,
        PseudoElement::FirstLine => "::first-line"@,
        PseudoElement::FirstLetter => "::first-letter"@,
    }
}

impl PseudoElement {
    /// Looks up a pseudo-element by the name written after `::`.
    pub fn from_name(name: &str) -> (r: Option<PseudoElement>)
        ensures
            r == pseudoelement_named(name@),
    {
        let n = chars_of(name);
        if chars_are(n.as_slice(), "before") {
            return Some(PseudoElement::Before);
        }
        if chars_are(n.as_slice(), "after") {
            return Some(PseudoElement::After);
        }
        if chars_are(n.as_slice(), "first-line") {
            return Some(PseudoElement::FirstLine);
        }
        if chars_are(n.as_slice(), "first-letter") {
            return Some(PseudoElement::FirstLetter);
        }
        None
    }

    /// The CSS text of this pseudo-element, as written in a selector.
    pub fn css_text(&self) -> (r: &'static str)
        ensures
            r@ == pseudoelement_text(*self),
    {
        match self {
            PseudoElement::Before => "::before",
            PseudoElement::After => "::after",
            PseudoElement::FirstLine => "::first-line",
            PseudoElement::FirstLetter => "::first-letter",
        }
    }
}


/// `u64::saturating_add(c, 1)`.
pub open spec fn bump(c: u64) -> u64 {
    if c == u64::MAX {
        c
    } else {
        (c + 1) as u64
    }
}

/// The cascade order of a declaration: the running counter in the high half,
/// the rule index in the low half.
pub open spec fn cascade_key(counter: u64, rule_index: u64) -> u64 {
    (counter << 32u64) | rule_index
}

/// The cascade and counter after merging `decls` in order, each with the
/// given specificity and a fresh cascade order.
pub open spec fn merge_all(
    cascade: Map<Seq<char>, crate::css::properties::AppliedProperty>,
    decls: Seq<Property>,
    specificity: u32,
    rule_index: u64,
    counter: u64,
) -> (Map<Seq<char>, crate::css::properties::AppliedProperty>, u64)
    decreases decls.len(),
{
    if decls.len() == 0 {
        (cascade, counter)
    } else {
        let next = bump(counter);
        merge_all(
            merged(cascade, decls[0], specificity, cascade_key(next, rule_index)),
            decls.drop_first(),
            specificity,
            rule_index,
            next,
        )
    }
}

/// The value of the last declaration of property `n` in `decls`, if any.
pub open spec fn last_value_of(decls: Seq<Property>, n: Seq<char>) -> Option<String>
    decreases decls.len(),
{
    if decls.len() == 0 {
        None
    } else {
        match last_value_of(decls.drop_first(), n) {
            Some(v) => Some(v),
            None => if decls[0].name@ == n {
                Some(decls[0].value)
            } else {
                None
            },
        }
    }
}

proof fn lemma_key_grows(a: u64, b: u64, r: u64)
    requires
        a < b,
        b < 0x1_0000_0000,
        r < 0x1_0000_0000,
    ensures
        cascade_key(a, r) < cascade_key(b, r),
{
    assert(((a << 32u64) | r) < ((b << 32u64) | r)) by (bit_vector)
        requires
            a < b,
            b < 0x1_0000_0000u64,
            r < 0x1_0000_0000u64,
    ;
}

proof fn lemma_merge_in_order(
    c: Map<Seq<char>, crate::css::properties::AppliedProperty>,
    decls: Seq<Property>,
    n: Seq<char>,
    specificity: u32,
    rule_index: u64,
    counter: u64,
    imp: bool,
)
    requires
        rule_index < 0x1_0000_0000,
        counter + decls.len() < 0x1_0000_0000,
        forall|i: int| 0 <= i < decls.len() && #[trigger] decls[i].name@ == n ==> decls[i].important == imp,
        c.contains_key(n) ==> c[n].important == imp && c[n].specificity == specificity && c[n].order <= cascade_key(
            counter,
            rule_index,
        ),
    ensures
        ({
            let r = merge_all(c, decls, specificity, rule_index, counter).0;
            &&& r.contains_key(n) == (c.contains_key(n) || last_value_of(decls, n).is_some())
            &&& last_value_of(decls, n) matches Some(v) ==> r[n].value == v
            &&& last_value_of(decls, n).is_none() && c.contains_key(n) ==> r[n] == c[n]
        }),
    decreases decls.len(),
{
    if decls.len() > 0 {
        let d0 = decls[0];
        let rest = decls.drop_first();
        let next = bump(counter);
        assert(next == counter + 1);
        let key = cascade_key(next, rule_index);
        let c1 = merged(c, d0, specificity, key);
        if c.contains_key(n) {
            lemma_key_grows(counter, next, rule_index);
        }
        if d0.name@ == n {
            assert(decls[0].name@ == n);
            assert(c1.contains_key(n) && c1[n].value == d0.value && c1[n].order == key);
        } else {
            assert(c1.contains_key(n) == c.contains_key(n));
            assert(c.contains_key(n) ==> c1[n] == c[n]);
            if c.contains_key(n) {
                assert(cascade_key(counter, rule_index) <= key);
            }
        }
        assert forall|i: int| 0 <= i < rest.len() && #[trigger] rest[i].name@ == n implies rest[i].important == imp by {
            assert(rest[i] == decls[i + 1]);
        }
        lemma_merge_in_order(c1, rest, n, specificity, rule_index, next, imp);
    }
}

/// Within one rule, declarations are merged in source order, each later
/// one with a later cascade order: when the declarations of property `n`
/// share their importance and the cascade has no entry for `n` yet, the
/// entry for `n` afterwards holds the value of the last declaration of `n`
/// (and there is none when the rule declares none).  This holds while the
/// running counter and the rule index fit in half of the cascade order.
pub proof fn lemma_rule_declarations_in_order(
    cascade: Map<Seq<char>, crate::css::properties::AppliedProperty>,
    decls: Seq<Property>,
    n: Seq<char>,
    specificity: u32,
    rule_index: u64,
    counter: u64,
)
    requires
        rule_index < 0x1_0000_0000,
        counter + decls.len() < 0x1_0000_0000,
        !cascade.contains_key(n),
        forall|i: int, j: int|
            0 <= i < decls.len() && 0 <= j < decls.len() && #[trigger] decls[i].name@ == n && #[trigger] decls[j].name@
                == n ==> decls[i].important == decls[j].important,
    ensures
        merge_all(cascade, decls, specificity, rule_index, counter).0.contains_key(n) == last_value_of(decls, n).is_some(),
        last_value_of(decls, n) matches Some(v) ==> merge_all(cascade, decls, specificity, rule_index, counter).0[n].value
            == v,
{
    let imp = if exists|i: int| 0 <= i < decls.len() && #[trigger] decls[i].name@ == n {
        decls[choose|i: int| 0 <= i < decls.len() && #[trigger] decls[i].name@ == n].important
    } else {
        false
    };
    lemma_merge_in_order(cascade, decls, n, specificity, rule_index, counter, imp);
}

fn merge_declarations(
    cascade: &mut Cascade,
    decls: &Vec<Property>,
    specificity: u32,
    rule_index: u64,
    cascade_order: &mut u64,
)
    requires
        old(cascade).wf(),
    ensures
        final(cascade).wf(),
        (final(cascade).view(), *final(cascade_order)) == merge_all(
            old(cascade).view(),
            decls@,
            specificity,
            rule_index,
            *old(cascade_order),
        ),
{
    let ghost target = merge_all(cascade.view(), decls@, specificity, rule_index, *cascade_order);
    let mut i: usize = 0;
    assert(decls@.skip(0) =~= decls@);
    while i < decls.len()
        invariant
            i <= decls@.len(),
            cascade.wf(),
            merge_all(cascade.view(), decls@.skip(i as int), specificity, rule_index, *cascade_order)
                == target,
        decreases decls@.len() - i,
    {
        proof {
            assert(decls@.skip(i as int).drop_first() =~= decls@.skip(i + 1));
            assert(decls@.skip(i as int)[0] == decls@[i as int]);
        }
        let next = cascade_order.saturating_add(1);
        *cascade_order = next;
        let order = (next << 32u64) | rule_index;
        merge_property(cascade, &decls[i], specificity, order);
        i = i + 1;
    }
    proof {
        assert(decls@.skip(i as int) =~= Seq::<Property>::empty());
    }
}

/// Applies a style rule to the cascade, giving each declaration the next
/// cascade order.
pub fn apply_rule(
    cascade: &mut Cascade,
    rule: &StyleRule,
    specificity: u32,
    rule_index: u64,
    cascade_order: &mut u64,
)
    requires
        old(cascade).wf(),
    ensures
        final(cascade).wf(),
        (final(cascade).view(), *final(cascade_order)) == merge_all(
            old(cascade).view(),
            rule.declarations@,
            specificity,
            rule_index,
            *old(cascade_order),
        ),
{
    merge_declarations(cascade, &rule.declarations, specificity, rule_index, cascade_order);
}

/// Applies inline declarations (the `style` attribute) with the highest
/// possible specificity.
pub fn apply_inline(cascade: &mut Cascade, properties: &Vec<Property>, cascade_order: &mut u64)
    requires
        old(cascade).wf(),
    ensures
        final(cascade).wf(),
        (final(cascade).view(), *final(cascade_order)) == merge_all(
            old(cascade).view(),
            properties@,
            u32::MAX,
            0xFFFF_FFFFu64,
            *old(cascade_order),
        ),
{
    merge_declarations(cascade, properties, u32::MAX, 0xFFFF_FFFFu64, cascade_order);
}

/// A compiled selector list together with its "used in the last pass" flag.
/// The list itself is produced and matched by the selector engine.
#[derive(Debug, Clone)]
pub struct CompiledSelector<L> {
    selector_list: L,
    used_in_last_pass: bool,
}

impl<L> CompiledSelector<L> {
    /// The compiled list this selector holds.
    pub closed spec fn list(self) -> L {
        self.selector_list
    }

    /// Whether the selector was used in the last pass.
    pub closed spec fn marked(self) -> bool {
        self.used_in_last_pass
    }

    /// Wraps a compiled list; the usage flag starts cleared.
    pub fn new(selector_list: L) -> (r: Self)
        ensures
            r.list() == selector_list,
            !r.marked(),
    {
        CompiledSelector { selector_list, used_in_last_pass: false }
    }

    /// Records that the selector was used in the current pass.
    pub fn mark_used(&mut self)
        ensures
            final(self).marked(),
            final(self).list() == old(self).list(),
    {
        self.used_in_last_pass = true;
    }

    /// Whether the selector was used in the last pass.
    pub fn is_marked(&self) -> (r: bool)
        ensures
            r == self.marked(),
    {
        self.used_in_last_pass
    }

    /// Clears the usage flag.
    pub fn reset_usage_flag(&mut self)
        ensures
            !final(self).marked(),
            final(self).list() == old(self).list(),
    {
        self.used_in_last_pass = false;
    }

    /// The compiled selector list.
    pub fn selector_list(&self) -> (r: &L)
        ensures
            *r == self.list(),
    {
        &self.selector_list
    }

    /// Whether `candidate` is the pseudo-element `pseudo` (the filter used
    /// when matching a pseudo-element's rules).
    pub fn pseudo_filter(pseudo: PseudoElement, candidate: &PseudoElement) -> (r: bool)
        ensures
            r == (*candidate == pseudo),
    {
        *candidate == pseudo
    }

    /// Whether `candidate` is `::before`.
    pub fn is_before(candidate: &PseudoElement) -> (r: bool)
        ensures
            r == (*candidate == PseudoElement::Before),
    {
        matches!(candidate, PseudoElement::Before)
    }

    /// Whether `candidate` is `::after`.
    pub fn is_after(candidate: &PseudoElement) -> (r: bool)
        ensures
            r == (*candidate == PseudoElement::After),
    {
        matches!(candidate, PseudoElement::After)
    }

    /// Whether `candidate` is `::first-line`.
    pub fn is_first_line(candidate: &PseudoElement) -> (r: bool)
        ensures
            r == (*candidate == PseudoElement::FirstLine),
    {
        matches!(candidate, PseudoElement::FirstLine)
    }

    /// Whether `candidate` is `::first-letter`.
    pub fn is_first_letter(candidate: &PseudoElement) -> (r: bool)
        ensures
            r == (*candidate == PseudoElement::FirstLetter),
    {
        matches!(candidate, PseudoElement::FirstLetter)
    }
}

/// FNV-1a offset basis (32 bits).
pub const FNV_OFFSET: u32 = 0x811C9DC5u32;

/// FNV-1a prime (32 bits).
pub const FNV_PRIME: u32 = 0x0100_0193u32;

/// One FNV-1a step: xor in the byte, then multiply modulo 2^32.
pub open spec fn fnv_step(hash: u32, byte: u8) -> u32 {
    (((hash ^ (byte as u32)) as int * FNV_PRIME as int) % 0x1_0000_0000) as u32
}

/// The 32-bit FNV-1a hash of a byte sequence.
pub open spec fn fnv1a(bytes: Seq<u8>) -> u32
    decreases bytes.len(),
{
    if bytes.len() == 0 {
        FNV_OFFSET
    } else {
        fnv_step(fnv1a(bytes.drop_last()), bytes.last())
    }
}

/// 32-bit FNV-1a hash, used as the precomputed hash of CSS identifiers.
pub fn hash_bytes(bytes: &[u8]) -> (h: u32)
    ensures
        h == fnv1a(bytes@),
{
    let mut hash: u32 = FNV_OFFSET;
    let mut i: usize = 0;
    while i < bytes.len()
        invariant
            i <= bytes.len(),
            hash == fnv1a(bytes@.take(i as int)),
        decreases bytes.len() - i,
    {
        let x: u32 = hash ^ (bytes[i] as u32);
        let wide: u64 = (x as u64) * (FNV_PRIME as u64) % 0x1_0000_0000u64;
        assert(bytes@.take(i + 1).drop_last() =~= bytes@.take(i as int));
        hash = wide as u32;
        i = i + 1;
    }
    assert(bytes@.take(bytes.len() as int) =~= bytes@);
    hash
}

/// The compiled selectors of a style sheet keyed by their text, kept from
/// one parse to the next when still in use.
#[derive(Debug)]
pub struct SelectorCache<L> {
    entries: StrMap<CompiledSelector<L>>,
}

impl<L> SelectorCache<L> {
    /// The cached selectors by text.
    pub closed spec fn view(self) -> Map<Seq<char>, CompiledSelector<L>> {
        self.entries.view()
    }

    /// The entries are well formed.
    pub closed spec fn wf(self) -> bool {
        self.entries.wf()
    }

    /// An empty cache.
    pub fn new() -> (r: Self)
        ensures
            r.wf(),
            r.view() == Map::<Seq<char>, CompiledSelector<L>>::empty(),
    {
        SelectorCache { entries: StrMap::new() }
    }

    /// The compiled selector for `text`.
    pub fn get(&self, text: &str) -> (r: Option<&CompiledSelector<L>>)
        requires
            self.wf(),
        ensures
            match r {
                Some(c) => self.view().contains_key(text@) && *c == self.view()[text@],
                None => !self.view().contains_key(text@),
            },
    {
        self.entries.get_str(text)
    }

    /// Records that the selector `text` is used in this pass; a selector
    /// not cached yet is cached with `list`, a cached one keeps its list.
    pub fn use_selector(&mut self, text: String, list: L)
        requires
            old(self).wf(),
        ensures
            final(self).wf(),
            final(self).view().dom() == old(self).view().dom().insert(text@),
            final(self).view()[text@].marked(),
            final(self).view()[text@].list() == if old(self).view().contains_key(text@) {
                old(self).view()[text@].list()
            } else {
                list
            },
            forall|k: Seq<char>| k != text@ && #[trigger] old(self).view().contains_key(k) ==> final(self).view()[k]
                == old(self).view()[k],
    {
        let mut compiled = match self.entries.remove(text.as_str()) {
            Some(c) => c,
            None => CompiledSelector::new(list),
        };
        compiled.mark_used();
        self.entries.insert(text, compiled);
    }

    /// Ends a pass: selectors not used in it leave the cache, the others
    /// stay with their usage flag cleared.
    pub fn sweep(&mut self)
        requires
            old(self).wf(),
        ensures
            final(self).wf(),
            forall|k: Seq<char>| #[trigger] final(self).view().contains_key(k) <==> (old(self).view().contains_key(k)
                && old(self).view()[k].marked()),
            forall|k: Seq<char>| #[trigger] final(self).view().contains_key(k) ==> final(self).view()[k].list()
                == old(self).view()[k].list() && !final(self).view()[k].marked(),
    {
        let mut old_map: StrMap<CompiledSelector<L>> = StrMap::new();
        std::mem::swap(&mut old_map, &mut self.entries);
        let ghost os = old_map.seq();
        proof {
            old_map.lemma_seq_view();
        }
        let mut rest = old_map.into_entries();
        let ghost total = os.len();
        while rest.len() > 0
            invariant
                rest@ == os.take(rest@.len() as int),
                rest@.len() <= total,
                total == os.len(),
                os == old(self).entries.seq(),
                forall|i: int, j: int| 0 <= i < j < os.len() ==> os[i].0@ != os[j].0@,
                forall|i: int| 0 <= i < os.len() ==> #[trigger] old(self).view().contains_key(os[i].0@)
                    && old(self).view()[os[i].0@] == os[i].1,
                forall|k: Seq<char>| #[trigger] old(self).view().contains_key(k) ==> exists|i: int|
                    0 <= i < os.len() && os[i].0@ == k,
                self.entries.wf(),
                forall|k: Seq<char>| #[trigger] self.view().contains_key(k) <==> exists|j: int|
                    rest@.len() <= j < total && os[j].0@ == k && os[j].1.marked(),
                forall|j: int| rest@.len() <= j < total && os[j].1.marked() ==> (#[trigger] self.view()[os[j].0@]).list()
                    == os[j].1.list() && !self.view()[os[j].0@].marked(),
            decreases rest@.len(),
        {
            let ghost n = rest@.len() - 1;
            let ghost before_rest = rest@;
            let ghost before_view = self.view();
            let (k, mut c) = rest.pop().unwrap();
            proof {
                assert(os.take(n) =~= os.take(n + 1).drop_last());
                assert(before_rest[n] == os[n]);
                assert(k == os[n].0 && c == os[n].1);
            }
            if c.is_marked() {
                c.reset_usage_flag();
                let ghost kv = k@;
                self.entries.insert(k, c);
                proof {
                    assert forall|kk: Seq<char>| #[trigger] self.view().contains_key(kk) <==> exists|j: int|
                        n <= j < total && os[j].0@ == kk && os[j].1.marked() by {
                        if kk == kv {
                            assert(n <= n < total && os[n].0@ == kk && os[n].1.marked());
                        }
                    }
                    assert forall|j: int| n <= j < total && os[j].1.marked() implies (#[trigger] self.view()[os[j].0@]).list()
                        == os[j].1.list() && !self.view()[os[j].0@].marked() by {
                        if j > n {
                            assert(os[j].0@ != os[n].0@);
                            assert(self.view()[os[j].0@] == before_view[os[j].0@]);
                        }
                    }
                }
            } else {
                proof {
                    assert forall|kk: Seq<char>| #[trigger] self.view().contains_key(kk) <==> exists|j: int|
                        n <= j < total && os[j].0@ == kk && os[j].1.marked() by {
                        if exists|j: int| n <= j < total && os[j].0@ == kk && os[j].1.marked() {
                            let j = choose|j: int| n <= j < total && os[j].0@ == kk && os[j].1.marked();
                            assert(j != n);
                        }
                    }
                }
            }
        }
        proof {
            assert forall|k: Seq<char>| #[trigger] self.view().contains_key(k) <==> (old(self).view().contains_key(k)
                && old(self).view()[k].marked()) by {
                if old(self).view().contains_key(k) && old(self).view()[k].marked() {
                    let i = choose|i: int| 0 <= i < os.len() && os[i].0@ == k;
                    assert(0 <= i < total && os[i].0@ == k && os[i].1.marked());
                }
            }
        }
    }
}

/// Whether a namespace constraint admits HTML elements: any namespace
/// (`None`), the empty namespace, or the XHTML namespace (ASCII case
/// ignored).
pub fn namespace_matches(ns: Option<&str>) -> (r: bool)
    ensures
        r == match ns {
            None => true,
            Some(n) => n@.len() == 0 || eq_ignore_case(n@, "http://www.w3.org/1999/xhtml"@),
        },
{
    match ns {
        None => true,
        Some(n) => {
            let c = chars_of(n);
            c.len() == 0 || chars_are_ignore_case(c.as_slice(), "http://www.w3.org/1999/xhtml")
        },
    }
}

/// An identifier or attribute value in a selector.
#[derive(Debug, Clone, PartialEq, Eq, Default)]
pub struct CssString(pub String);

/// A local (element or attribute) name in a selector.
#[derive(Debug, Clone, PartialEq, Eq, Default)]
pub struct CssLocalName(pub String);

/// A namespace URL in a selector.
#[derive(Debug, Clone, PartialEq, Eq, Default)]
pub struct CssNamespace(pub String);

impl CssString {
    /// Wraps a copy of `value`.
    pub fn from_str(value: &str) -> (r: Self)
        ensures
            r.0@ == value@,
    {
        CssString(value.to_owned())
    }

    /// The text of the identifier.
    pub fn as_str(&self) -> (r: &str)
        ensures
            r@ == self.0@,
    {
        self.0.as_str()
    }

    /// The precomputed hash: FNV-1a of the UTF-8 bytes.
    pub fn precomputed_hash(&self) -> (h: u32)
        ensures
            h == fnv1a(vstd::utf8::encode_utf8(self.0@)),
    {
        hash_bytes(self.0.as_str().as_bytes())
    }
}

impl CssLocalName {
    /// Wraps a copy of `value`.
    pub fn from_str(value: &str) -> (r: Self)
        ensures
            r.0@ == value@,
    {
        CssLocalName(value.to_owned())
    }

    /// The text of the name.
    pub fn as_str(&self) -> (r: &str)
        ensures
            r@ == self.0@,
    {
        self.0.as_str()
    }

    /// The precomputed hash: FNV-1a of the UTF-8 bytes.
    pub fn precomputed_hash(&self) -> (h: u32)
        ensures
            h == fnv1a(vstd::utf8::encode_utf8(self.0@)),
    {
        hash_bytes(self.0.as_str().as_bytes())
    }
}

impl CssNamespace {
    /// Wraps a copy of `value`.
    pub fn from_str(value: &str) -> (r: Self)
        ensures
            r.0@ == value@,
    {
        CssNamespace(value.to_owned())
    }

    /// The namespace URL.
    pub fn as_str(&self) -> (r: &str)
        ensures
            r@ == self.0@,
    {
        self.0.as_str()
    }

    /// The precomputed hash: FNV-1a of the UTF-8 bytes.
    pub fn precomputed_hash(&self) -> (h: u32)
        ensures
            h == fnv1a(vstd::utf8::encode_utf8(self.0@)),
    {
        hash_bytes(self.0.as_str().as_bytes())
    }
}

} // verus!
