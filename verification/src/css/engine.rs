//! Putting the cascade of one element together from the rules that match
//! it, and reading the generated content of a pseudo-element.

use vstd::prelude::*;
use crate::css::StyleRule;
use crate::css::properties::{AppliedProperty, Cascade, Property};
use crate::css::selectors::{apply_inline, apply_rule, merge_all, last_value_of, lemma_rule_declarations_in_order};
use crate::strmap::StrMap;
use crate::text::{chars_of, string_from_chars, trim, trim_chars, eq_ignore_case, chars_are_ignore_case};

verus! {

/// The specificity with which rule `i` matched, if it did (a missing entry
/// means no match).
pub open spec fn match_at(matches: Seq<Option<u32>>, i: int) -> Option<u32> {
    if 0 <= i < matches.len() {
        matches[i]
    } else {
        None
    }
}

/// The cascade and counter after applying, in order, each rule that
/// matched; an indexed rule carries its position as rule index, otherwise
/// the index is 0.
pub open spec fn rules_merge(
    cascade: Map<Seq<char>, AppliedProperty>,
    counter: u64,
    rules: Seq<StyleRule>,
    matches: Seq<Option<u32>>,
    indexed: bool,
) -> (Map<Seq<char>, AppliedProperty>, u64)
    decreases rules.len(),
{
    if rules.len() == 0 {
        (cascade, counter)
    } else {
        let prev = rules_merge(cascade, counter, rules.drop_last(), matches, indexed);
        let i = rules.len() - 1;
        match match_at(matches, i) {
            Some(s) => merge_all(
                prev.0,
                rules[i].declarations@,
                s,
                if indexed { i as u64 } else { 0u64 },
                prev.1,
            ),
            None => prev,
        }
    }
}

fn merge_rules(
    cascade: &mut Cascade,
    order: &mut u64,
    rules: &Vec<StyleRule>,
    matches: &Vec<Option<u32>>,
    indexed: bool,
)
    requires
        old(cascade).wf(),
    ensures
        final(cascade).wf(),
        (final(cascade).view(), *final(order)) == rules_merge(
            old(cascade).view(),
            *old(order),
            rules@,
            matches@,
            indexed,
        ),
{
    let ghost c0 = cascade.view();
    let ghost o0 = *order;
    let mut i: usize = 0;
    while i < rules.len()
        invariant
            i <= rules@.len(),
            cascade.wf(),
            (cascade.view(), *order) == rules_merge(c0, o0, rules@.take(i as int), matches@, indexed),
        decreases rules@.len() - i,
    {
        proof {
            assert(rules@.take(i + 1).drop_last() =~= rules@.take(i as int));
            assert(rules@.take(i + 1)[i as int] == rules@[i as int]);
        }
        let m: Option<u32> = if i < matches.len() {
            matches[i]
        } else {
            None
        };
        match m {
            Some(s) => {
                let idx: u64 = if indexed {
                    i as u64
                } else {
                    0
                };
                apply_rule(cascade, &rules[i], s, idx, order);
            },
            None => {},
        }
        i = i + 1;
    }
    proof {
        assert(rules@.take(rules@.len() as int) =~= rules@);
    }
}

/// The cascade of an element: the style-sheet rules that matched it (each
/// with its position as rule index), then the rules of the `@media` blocks
/// that apply (rule index 0), then its inline declarations, one cascade
/// counter running through all of them from 0.
pub open spec fn element_styles(
    rules: Seq<StyleRule>,
    matches: Seq<Option<u32>>,
    media_rules: Seq<StyleRule>,
    media_matches: Seq<Option<u32>>,
    inline: Option<Seq<Property>>,
) -> Map<Seq<char>, AppliedProperty> {
    let a = rules_merge(Map::empty(), 0, rules, matches, true);
    let b = rules_merge(a.0, a.1, media_rules, media_matches, false);
    match inline {
        Some(p) => merge_all(b.0, p, u32::MAX, 0xFFFF_FFFFu64, b.1).0,
        None => b.0,
    }
}

/// Builds the cascade of one element from the specificity with which each
/// style-sheet rule and each applicable `@media` rule matched it, and its
/// inline declarations.
pub fn element_cascade(
    rules: &Vec<StyleRule>,
    matches: &Vec<Option<u32>>,
    media_rules: &Vec<StyleRule>,
    media_matches: &Vec<Option<u32>>,
    inline: &Option<Vec<Property>>,
) -> (r: Cascade)
    ensures
        r.wf(),
        r.view() == element_styles(
            rules@,
            matches@,
            media_rules@,
            media_matches@,
            match inline {
                Some(p) => Some(p@),
                None => None,
            },
        ),
{
    let mut cascade: Cascade = StrMap::new();
    let mut order: u64 = 0;
    merge_rules(&mut cascade, &mut order, rules, matches, true);
    merge_rules(&mut cascade, &mut order, media_rules, media_matches, false);
    match inline {
        Some(p) => {
            apply_inline(&mut cascade, p, &mut order);
        },
        None => {},
    }
    cascade
}

/// Builds the cascade of one pseudo-element of an element from the
/// specificity with which each rule matched it, with a counter of its own.
pub fn pseudo_cascade(rules: &Vec<StyleRule>, matches: &Vec<Option<u32>>) -> (r: Cascade)
    ensures
        r.wf(),
        r.view() == rules_merge(Map::empty(), 0, rules@, matches@, true).0,
{
    let mut cascade: Cascade = StrMap::new();
    let mut order: u64 = 0;
    merge_rules(&mut cascade, &mut order, rules, matches, true);
    cascade
}

/// The computed value of each property of a cascade.
pub fn cascade_values(cascade: &Cascade) -> (r: StrMap<String>)
    requires
        cascade.wf(),
    ensures
        r.wf(),
        r.view() == cascade.view().map_values(|a: AppliedProperty| a.value),
{
    let entries = cascade.entries();
    proof {
        cascade.lemma_seq_view();
    }
    let mut r: StrMap<String> = StrMap::new();
    let mut i: usize = 0;
    while i < entries.len()
        invariant
            i <= entries@.len(),
            entries@ == cascade.seq(),
            r.wf(),
            forall|k: Seq<char>| #[trigger] r.view().contains_key(k) <==> exists|j: int|
                0 <= j < i && entries@[j].0@ == k,
            forall|j: int| 0 <= j < i ==> #[trigger] r.view()[entries@[j].0@] == entries@[j].1.value,
            forall|j: int, l: int| 0 <= j < l < entries@.len() ==> entries@[j].0@ != entries@[l].0@,
        decreases entries@.len() - i,
    {
        let name = entries[i].0.clone();
        let value = entries[i].1.value.clone();
        r.insert(name, value);
        proof {
            assert forall|k: Seq<char>| #[trigger] r.view().contains_key(k) <==> exists|j: int|
                0 <= j < i + 1 && entries@[j].0@ == k by {
                if k == entries@[i as int].0@ {
                    assert(0 <= i < i + 1 && entries@[i as int].0@ == k);
                }
            }
        }
        i = i + 1;
    }
    proof {
        let target = cascade.view().map_values(|a: AppliedProperty| a.value);
        assert forall|k: Seq<char>| #[trigger] r.view().contains_key(k) <==> target.contains_key(k) by {
            if target.contains_key(k) {
                assert(cascade.view().contains_key(k));
                let j = choose|j: int| 0 <= j < cascade.seq().len() && cascade.seq()[j].0@ == k;
                assert(entries@[j].0@ == k);
            }
            if r.view().contains_key(k) {
                let j = choose|j: int| 0 <= j < i && entries@[j].0@ == k;
                assert(cascade.view().contains_key(cascade.seq()[j].0@));
            }
        }
        assert forall|k: Seq<char>| #[trigger] r.view().contains_key(k) implies r.view()[k] == target[k] by {
            let j = choose|j: int| 0 <= j < i && entries@[j].0@ == k;
            assert(cascade.view().contains_key(cascade.seq()[j].0@));
            assert(cascade.view()[cascade.seq()[j].0@] == cascade.seq()[j].1);
        }
        assert(r.view() =~= target);
    }
    r
}

/// A CSS string body with escapes resolved: a backslash keeps the
/// character after it, and a trailing lone backslash is dropped.
pub open spec fn unescaped(s: Seq<char>) -> Seq<char>
    decreases s.len(),
{
    if s.len() == 0 {
        Seq::empty()
    } else if s[0] == '\\' {
        if s.len() >= 2 {
            seq![s[1]] + unescaped(s.skip(2))
        } else {
            Seq::empty()
        }
    } else {
        seq![s[0]] + unescaped(s.skip(1))
    }
}

/// Resolves the backslash escapes of a CSS string body.
pub fn unescape_css_string(value: &str) -> (r: String)
    ensures
        r@ == unescaped(value@),
{
    let c = chars_of(value);
    let mut out: Vec<char> = Vec::new();
    proof {
        assert(c@.skip(0) =~= c@);
        assert(out@ + unescaped(c@) =~= unescaped(c@));
    }
    let mut i: usize = 0;
    while i < c.len()
        invariant
            i <= c@.len(),
            c@ == value@,
            out@ + unescaped(c@.skip(i as int)) == unescaped(value@),
        decreases c@.len() - i,
    {
        let ghost rest = c@.skip(i as int);
        if c[i] == '\\' {
            if i + 1 < c.len() {
                proof {
                    assert(rest.skip(2) =~= c@.skip(i + 2));
                    assert(out@.push(c@[i + 1]) + unescaped(c@.skip(i + 2)) =~= out@ + unescaped(rest));
                }
                out.push(c[i + 1]);
                i = i + 2;
            } else {
                proof {
                    assert(c@.skip(i + 1) =~= Seq::<char>::empty());
                }
                i = i + 1;
            }
        } else {
            proof {
                assert(rest.skip(1) =~= c@.skip(i + 1));
                assert(out@.push(c@[i as int]) + unescaped(c@.skip(i + 1)) =~= out@ + unescaped(rest));
            }
            out.push(c[i]);
            i = i + 1;
        }
    }
    proof {
        assert(c@.skip(i as int) =~= Seq::<char>::empty());
        assert(out@ + Seq::<char>::empty() =~= out@);
    }
    string_from_chars(out.as_slice())
}

/// Whether `t` is enclosed in a pair of the same quote, `"` or `'`.
pub open spec fn quoted(t: Seq<char>) -> bool {
    t.len() >= 2 && ((t[0] == '"' && t.last() == '"') || (t[0] == '\'' && t.last() == '\''))
}

/// The text of a `content` value: a quoted string with its escapes
/// resolved; `none`, `normal`, an empty value or anything else gives none.
pub open spec fn content_text(raw: Seq<char>) -> Option<Seq<char>> {
    let t = trim(raw);
    if t.len() == 0 || eq_ignore_case(t, "none"@) || eq_ignore_case(t, "normal"@) {
        None
    } else if quoted(t) {
        Some(unescaped(t.subrange(1, t.len() - 1)))
    } else {
        None
    }
}

/// Reads the text of a `content` value.
pub fn parse_content_value(raw: &str) -> (r: Option<String>)
    ensures
        match r {
            Some(s) => content_text(raw@) == Some(s@),
            None => content_text(raw@).is_none(),
        },
{
    let c = chars_of(raw);
    let t = trim_chars(c.as_slice());
    let n = t.len();
    if n == 0 || chars_are_ignore_case(t.as_slice(), "none") || chars_are_ignore_case(t.as_slice(), "normal") {
        return None;
    }
    if n >= 2 && ((t[0] == '"' && t[n - 1] == '"') || (t[0] == '\'' && t[n - 1] == '\'')) {
        let inner = crate::text::slice_chars(t.as_slice(), 1, n - 1);
        let s = string_from_chars(inner.as_slice());
        Some(unescape_css_string(s.as_str()))
    } else {
        None
    }
}

/// The generated content of a pseudo-element, from its computed
/// `content` property.
pub fn pseudo_content(properties: &StrMap<String>) -> (r: Option<String>)
    requires
        properties.wf(),
    ensures
        match r {
            Some(s) => properties.view().contains_key("content"@) && content_text(
                properties.view()["content"@]@,
            ) == Some(s@),
            None => !properties.view().contains_key("content"@) || content_text(
                properties.view()["content"@]@,
            ).is_none(),
        },
{
    match properties.get_str("content") {
        Some(v) => parse_content_value(v.as_str()),
        None => None,
    }
}

/// For an element matched by one rule, with no `@media` rule and no inline
/// style, each property takes the value of the rule's last declaration of
/// it (when its declarations of that property share their importance): a
/// later declaration in a rule wins over an earlier one.
pub proof fn lemma_single_rule_last_wins(rule: StyleRule, specificity: u32, n: Seq<char>)
    requires
        rule.declarations@.len() < 0x1_0000_0000,
        forall|i: int, j: int|
            0 <= i < rule.declarations@.len() && 0 <= j < rule.declarations@.len() && #[trigger] rule.declarations@[i].name@
                == n && #[trigger] rule.declarations@[j].name@ == n ==> rule.declarations@[i].important
                == rule.declarations@[j].important,
    ensures
        ({
            let st = element_styles(seq![rule], seq![Some(specificity)], Seq::empty(), Seq::empty(), None);
            &&& st.contains_key(n) == last_value_of(rule.declarations@, n).is_some()
            &&& last_value_of(rule.declarations@, n) matches Some(v) ==> st[n].value == v
        }),
{
    let rules = seq![rule];
    assert(rules.drop_last() =~= Seq::<StyleRule>::empty());
    assert(match_at(seq![Some(specificity)], 0) == Some(specificity));
    assert(rules[0] == rule);
    assert(rules_merge(Map::empty(), 0, rules.drop_last(), seq![Some(specificity)], true) == (
        Map::<Seq<char>, AppliedProperty>::empty(),
        0u64,
    ));
    let a = rules_merge(Map::empty(), 0, rules, seq![Some(specificity)], true);
    assert(a == merge_all(Map::empty(), rule.declarations@, specificity, 0u64, 0));
    lemma_rule_declarations_in_order(Map::empty(), rule.declarations@, n, specificity, 0, 0);
}

} // verus!
