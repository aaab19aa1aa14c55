//! The document tree: nodes keyed by id, with parent and child links.

use vstd::prelude::*;
use std::collections::HashMap;
use crate::css::selectors::PseudoElement;
use crate::dom::node::{ElementState, Node};
use crate::dom::html::{
    OutlineEntry, OutlineView, entry_view, html_outline, html_select, matches_view, outline_of, outline_view,
    pairs_view, select_in_html,
};
use crate::strmap::StrMap;
use crate::text::{chars_are, chars_of, dec, decimal, push_chars, push_str, string_from_chars};

verus! {

broadcast use {vstd::std_specs::hash::group_hash_axioms, vstd::seq_lib::group_seq_properties};

/// The generated pseudo-element nodes of one element.
#[derive(Debug, Clone, Copy, PartialEq, Eq, Default)]
pub struct PseudoSlots {
    pub before: Option<usize>,
    pub after: Option<usize>,
    pub first_line: Option<usize>,
    pub first_letter: Option<usize>,
}

/// The node generated for `pseudo`.
pub open spec fn slot_of(slots: PseudoSlots, pseudo: PseudoElement) -> Option<usize> {
    match pseudo {
        PseudoElement::Before => slots.before,
        PseudoElement::After => slots.after,
        PseudoElement::FirstLine => slots.first_line,
        PseudoElement::FirstLetter => slots.first_letter,
    }
}

/// The ids held by an optional slot.
pub open spec fn opt_ids(o: Option<usize>) -> Seq<usize> {
    match o {
        Some(x) => seq![x],
        None => Seq::empty(),
    }
}

/// The generated node ids, in the order before, after, first-line,
/// first-letter.
pub open spec fn slot_ids(s: PseudoSlots) -> Seq<usize> {
    opt_ids(s.before) + opt_ids(s.after) + opt_ids(s.first_line) + opt_ids(s.first_letter)
}

impl PseudoSlots {
    /// The node generated for `pseudo`.
    pub fn get(&self, pseudo: PseudoElement) -> (r: Option<usize>)
        ensures
            r == slot_of(*self, pseudo),
    {
        match pseudo {
            PseudoElement::Before => self.before,
            PseudoElement::After => self.after,
            PseudoElement::FirstLine => self.first_line,
            PseudoElement::FirstLetter => self.first_letter,
        }
    }

    /// The generated node ids, in the order before, after, first-line,
    /// first-letter.
    pub fn ids(&self) -> (r: Vec<usize>)
        ensures
            r@ == slot_ids(*self),
    {
        let mut r: Vec<usize> = Vec::new();
        if let Some(x) = self.before {
            r.push(x);
        }
        assert(r@ =~= opt_ids(self.before));
        if let Some(x) = self.after {
            r.push(x);
        }
        assert(r@ =~= opt_ids(self.before) + opt_ids(self.after));
        if let Some(x) = self.first_line {
            r.push(x);
        }
        assert(r@ =~= opt_ids(self.before) + opt_ids(self.after) + opt_ids(self.first_line));
        if let Some(x) = self.first_letter {
            r.push(x);
        }
        assert(r@ =~= slot_ids(*self));
        r
    }
}

/// `slots` with the slot of `pseudo` set to `v`.
pub open spec fn with_slot(slots: PseudoSlots, pseudo: PseudoElement, v: Option<usize>) -> PseudoSlots {
    match pseudo {
        PseudoElement::Before => PseudoSlots { before: v, ..slots },
        PseudoElement::After => PseudoSlots { after: v, ..slots },
        PseudoElement::FirstLine => PseudoSlots { first_line: v, ..slots },
        PseudoElement::FirstLetter => PseudoSlots { first_letter: v, ..slots },
    }
}

/// No slot holds a node.
pub open spec fn slots_empty(s: PseudoSlots) -> bool {
    s.before.is_none() && s.after.is_none() && s.first_line.is_none() && s.first_letter.is_none()
}

/// The slots of no generated node.
pub open spec fn no_slots() -> PseudoSlots {
    PseudoSlots { before: None, after: None, first_line: None, first_letter: None }
}

/// The node generated for `pseudo` of element `p`, if any.
pub open spec fn slot_in(m: Map<usize, PseudoSlots>, p: usize, pseudo: PseudoElement) -> Option<usize> {
    if m.contains_key(p) {
        slot_of(m[p], pseudo)
    } else {
        None
    }
}

/// The generated-node map after dropping the slot of `pseudo` of `p`; an
/// element left without generated nodes leaves the map.
pub open spec fn slot_dropped(m: Map<usize, PseudoSlots>, p: usize, pseudo: PseudoElement) -> Map<usize, PseudoSlots> {
    if m.contains_key(p) {
        let s = with_slot(m[p], pseudo, None);
        if slots_empty(s) {
            m.remove(p)
        } else {
            m.insert(p, s)
        }
    } else {
        m
    }
}

/// A node generated for `pseudo` of element `parent`, holding `content`.
pub open spec fn generated_node(n: Node, id: usize, parent: usize, pseudo: PseudoElement, content: Seq<char>) -> bool {
    &&& n.id == id
    &&& n.tag_name.is_none()
    &&& n.attributes.wf()
    &&& n.attributes@ == Map::<Seq<char>, String>::empty()
    &&& (n.text_content matches Some(t) && t@ == content)
    &&& n.children@ == Seq::<usize>::empty()
    &&& n.parent == Some(parent)
    &&& n.element_state@ == 0
    &&& n.pseudo_element == Some(pseudo)
}

/// The slot of `pseudo` of `p` holds, after a sync, a node with text
/// `content`: the node `before` had there (kept, with only its text set),
/// or, where there was none, a fresh generated node.
pub open spec fn slot_filled(before: Document, after: Document, p: usize, pseudo: PseudoElement, content: Seq<char>) -> bool {
    match slot_in(before.pseudo(), p, pseudo) {
        Some(old) => {
            &&& slot_in(after.pseudo(), p, pseudo) == Some(old)
            &&& before.nodes_map().contains_key(old) ==> {
                &&& after.nodes_map().contains_key(old)
                &&& same_but_text(after.nodes_map()[old], before.nodes_map()[old])
                &&& after.nodes_map()[old].text_content matches Some(t) && t@ == content
            }
        },
        None => slot_in(after.pseudo(), p, pseudo) matches Some(id) && {
            &&& before.next_id() <= id
            &&& after.nodes_map().contains_key(id)
            &&& generated_node(after.nodes_map()[id], id, p, pseudo, content)
        },
    }
}

/// The slot of `pseudo` of `p` after a sync against `list`: a listed
/// pseudo-element's slot is filled with its content (reusing the old node),
/// an unlisted one is empty and its old node is gone.
pub open spec fn slot_synced(before: Document, after: Document, p: usize, pseudo: PseudoElement, list: Seq<(PseudoElement, String)>) -> bool {
    match listed_content(list, pseudo) {
        Some(c) => slot_filled(before, after, p, pseudo, c),
        None => {
            &&& slot_in(after.pseudo(), p, pseudo).is_none()
            &&& slot_in(before.pseudo(), p, pseudo) matches Some(old) ==> !after.nodes_map().contains_key(old)
        },
    }
}

/// A sync of `p` measured from `before` is one measured from `start`
/// when `before` has the same slots for `p`, the same nodes in them, and
/// no smaller next id.
proof fn lemma_slot_synced_rebase(
    start: Document,
    before: Document,
    after: Document,
    p: usize,
    ps: PseudoElement,
    list: Seq<(PseudoElement, String)>,
)
    requires
        slot_synced(before, after, p, ps, list),
        slot_in(before.pseudo(), p, ps) == slot_in(start.pseudo(), p, ps),
        slot_in(start.pseudo(), p, ps) matches Some(x) ==> (before.nodes_map().contains_key(x)
            == start.nodes_map().contains_key(x) && (start.nodes_map().contains_key(x) ==> before.nodes_map()[x]
            == start.nodes_map()[x])),
        start.next_id() <= before.next_id(),
    ensures
        slot_synced(start, after, p, ps, list),
{
}

/// A sync of `p` stays true across a change that keeps the slot of `ps` of
/// `p` and the node in it, and brings back no node it dropped.
proof fn lemma_slot_synced_kept(
    start: Document,
    a: Document,
    b: Document,
    p: usize,
    ps: PseudoElement,
    list: Seq<(PseudoElement, String)>,
)
    requires
        slot_synced(start, a, p, ps, list),
        slot_in(b.pseudo(), p, ps) == slot_in(a.pseudo(), p, ps),
        slot_in(a.pseudo(), p, ps) matches Some(x) ==> (b.nodes_map().contains_key(x) == a.nodes_map().contains_key(x)
            && (a.nodes_map().contains_key(x) ==> b.nodes_map()[x] == a.nodes_map()[x])),
        slot_in(start.pseudo(), p, ps) matches Some(x) ==> (!a.nodes_map().contains_key(x)
            ==> !b.nodes_map().contains_key(x)),
    ensures
        slot_synced(start, b, p, ps, list),
{
}

/// With consistent links, the node in a slot of `q` is in no slot of
/// another element `r`.
proof fn lemma_not_in_other_slots(d: Document, q: usize, ps: PseudoElement, r: usize)
    requires
        pseudo_links_ok(d),
        q != r,
        slot_in(d.pseudo(), q, ps).is_some(),
    ensures
        !pseudo_ids(d.pseudo(), r).contains(slot_in(d.pseudo(), q, ps).unwrap()),
{
    let x = slot_in(d.pseudo(), q, ps).unwrap();
    if d.pseudo().contains_key(r) {
        lemma_slot_ids(d.pseudo()[r], x);
        if pseudo_ids(d.pseudo(), r).contains(x) {
            if slot_in(d.pseudo(), r, PseudoElement::Before) == Some(x) {
                assert(slot_in(d.pseudo(), r, PseudoElement::Before) == slot_in(d.pseudo(), q, ps));
            } else if slot_in(d.pseudo(), r, PseudoElement::After) == Some(x) {
                assert(slot_in(d.pseudo(), r, PseudoElement::After) == slot_in(d.pseudo(), q, ps));
            } else if slot_in(d.pseudo(), r, PseudoElement::FirstLine) == Some(x) {
                assert(slot_in(d.pseudo(), r, PseudoElement::FirstLine) == slot_in(d.pseudo(), q, ps));
            } else {
                assert(slot_in(d.pseudo(), r, PseudoElement::FirstLetter) == slot_in(d.pseudo(), q, ps));
            }
        }
    }
}

/// Two nodes that agree on everything but possibly their text.
pub open spec fn same_but_text(a: Node, b: Node) -> bool {
    &&& a.id == b.id
    &&& a.tag_name == b.tag_name
    &&& a.attributes == b.attributes
    &&& a.children == b.children
    &&& a.parent == b.parent
    &&& a.element_state == b.element_state
    &&& a.pseudo_element == b.pseudo_element
}

/// The slots of element `p`, none when it has no generated node.
pub open spec fn slots_of(m: Map<usize, PseudoSlots>, p: usize) -> PseudoSlots {
    if m.contains_key(p) {
        m[p]
    } else {
        no_slots()
    }
}

/// The bookkeeping of generated nodes is consistent: every id in a slot is
/// below the next id to hand out, no id sits in two slots, and an id that
/// names a node names a generated one.
pub open spec fn pseudo_links_ok(d: Document) -> bool {
    &&& forall|p: usize, ps: PseudoElement|
        #[trigger] slot_in(d.pseudo(), p, ps) matches Some(id) ==> id < d.next_id() && (d.nodes_map().contains_key(id)
            ==> d.nodes_map()[id].pseudo_element.is_some())
    &&& forall|p: usize, ps: PseudoElement, q: usize, qs: PseudoElement|
        #![trigger slot_in(d.pseudo(), p, ps), slot_in(d.pseudo(), q, qs)]
        slot_in(d.pseudo(), p, ps).is_some() && slot_in(d.pseudo(), p, ps) == slot_in(d.pseudo(), q, qs) ==> p == q
            && ps == qs
}

/// The content listed for `pseudo` (the last entry naming it).
pub open spec fn listed_content(list: Seq<(PseudoElement, String)>, pseudo: PseudoElement) -> Option<Seq<char>>
    decreases list.len(),
{
    if list.len() == 0 {
        None
    } else if list.last().0 == pseudo {
        Some(list.last().1@)
    } else {
        listed_content(list.drop_last(), pseudo)
    }
}

/// Element `p` has a generated node exactly for the listed pseudo-elements,
/// each (where the node is there) holding its listed content.
pub open spec fn pseudo_synced(d: Document, p: usize, list: Seq<(PseudoElement, String)>) -> bool {
    forall|ps: PseudoElement|
        {
            &&& (#[trigger] slot_in(d.pseudo(), p, ps)).is_some() == listed_content(list, ps).is_some()
            &&& slot_in(d.pseudo(), p, ps) matches Some(id) ==> (d.nodes_map().contains_key(id) ==> (
            d.nodes_map()[id].text_content matches Some(t) && listed_content(list, ps) == Some(t@)))
        }
}

/// `after` differs from `before` only in the generated nodes of element
/// `p`: other elements keep their slots, every node not generated for `p`
/// is kept, and new nodes take fresh ids.
pub open spec fn only_touches(before: Document, after: Document, p: usize) -> bool {
    &&& forall|q: usize| q != p ==> (#[trigger] after.pseudo().contains_key(q) == before.pseudo().contains_key(q))
    &&& forall|q: usize| q != p && #[trigger] before.pseudo().contains_key(q) ==> after.pseudo()[q] == before.pseudo()[q]
    &&& forall|k: usize|
        #[trigger] before.nodes_map().contains_key(k) && !pseudo_ids(before.pseudo(), p).contains(k)
            ==> after.nodes_map().contains_key(k) && after.nodes_map()[k] == before.nodes_map()[k]
    &&& forall|k: usize| #[trigger] after.nodes_map().contains_key(k) ==> before.nodes_map().contains_key(k) || (
    before.next_id() <= k < after.next_id())
    &&& before.next_id() <= after.next_id()
    &&& after.root_id() == before.root_id()
    &&& after.source() == before.source()
}

/// The ids in the slots are those the slots hold.
pub proof fn lemma_slot_ids(s: PseudoSlots, k: usize)
    ensures
        slot_ids(s).contains(k) <==> (slot_of(s, PseudoElement::Before) == Some(k) || slot_of(s, PseudoElement::After)
            == Some(k) || slot_of(s, PseudoElement::FirstLine) == Some(k) || slot_of(s, PseudoElement::FirstLetter)
            == Some(k)),
{
    let a = opt_ids(s.before);
    let b = opt_ids(s.after);
    let c = opt_ids(s.first_line);
    let d = opt_ids(s.first_letter);
    assert(slot_ids(s) == a + b + c + d);
    if slot_ids(s).contains(k) {
        let i = choose|i: int| 0 <= i < slot_ids(s).len() && slot_ids(s)[i] == k;
        if i < a.len() {
        } else if i < a.len() + b.len() {
            assert(slot_ids(s)[i] == b[i - a.len()]);
        } else if i < a.len() + b.len() + c.len() {
            assert(slot_ids(s)[i] == c[i - a.len() - b.len()]);
        } else {
            assert(slot_ids(s)[i] == d[i - a.len() - b.len() - c.len()]);
        }
    }
    if s.before == Some(k) {
        assert(slot_ids(s)[0] == k);
    }
    if s.after == Some(k) {
        assert(slot_ids(s)[a.len() as int] == k);
    }
    if s.first_line == Some(k) {
        assert(slot_ids(s)[(a.len() + b.len()) as int] == k);
    }
    if s.first_letter == Some(k) {
        assert(slot_ids(s)[(a.len() + b.len() + c.len()) as int] == k);
    }
}

/// Whether element `p` is listed.
pub open spec fn listed_parent(contents: Seq<(usize, Vec<(PseudoElement, String)>)>, p: usize) -> bool {
    exists|i: int| 0 <= i < contents.len() && contents[i].0 == p
}

/// How many pseudo-elements are listed in all.
pub open spec fn listed_count(contents: Seq<(usize, Vec<(PseudoElement, String)>)>) -> nat
    decreases contents.len(),
{
    if contents.len() == 0 {
        0
    } else {
        listed_count(contents.drop_last()) + contents.last().1@.len()
    }
}

/// A prefix lists no more than the whole.
pub proof fn lemma_listed_count_prefix(contents: Seq<(usize, Vec<(PseudoElement, String)>)>, k: int)
    requires
        0 <= k <= contents.len(),
    ensures
        listed_count(contents.take(k)) <= listed_count(contents),
    decreases contents.len(),
{
    if k == contents.len() {
        assert(contents.take(k) =~= contents);
    } else {
        assert(contents.drop_last().take(k) =~= contents.take(k));
        lemma_listed_count_prefix(contents.drop_last(), k);
    }
}

/// A pseudo-element named in the list has listed content.
pub proof fn lemma_listed(list: Seq<(PseudoElement, String)>, j: int)
    requires
        0 <= j < list.len(),
    ensures
        listed_content(list, list[j].0).is_some(),
    decreases list.len(),
{
    if j < list.len() - 1 && list.last().0 != list[j].0 {
        lemma_listed(list.drop_last(), j);
    }
}

/// Setting a slot changes it and leaves every other slot.
pub proof fn lemma_slot_set(
    m: Map<usize, PseudoSlots>,
    p: usize,
    ps: PseudoElement,
    v: Option<usize>,
    q: usize,
    qs: PseudoElement,
)
    ensures
        slot_in(m.insert(p, with_slot(slots_of(m, p), ps, v)), q, qs) == (if q == p && qs == ps {
            v
        } else {
            slot_in(m, q, qs)
        }),
{
}

/// `v` when `keep`, else nothing.
pub open spec fn keep_if(v: Option<usize>, keep: bool) -> Option<usize> {
    if keep {
        v
    } else {
        None
    }
}

/// The slots of `s` whose pseudo-element is listed.
pub open spec fn kept_slots(s: PseudoSlots, list: Seq<(PseudoElement, String)>) -> PseudoSlots {
    PseudoSlots {
        before: keep_if(s.before, listed_content(list, PseudoElement::Before).is_some()),
        after: keep_if(s.after, listed_content(list, PseudoElement::After).is_some()),
        first_line: keep_if(s.first_line, listed_content(list, PseudoElement::FirstLine).is_some()),
        first_letter: keep_if(s.first_letter, listed_content(list, PseudoElement::FirstLetter).is_some()),
    }
}

/// Node `k` sits in a slot of `s` whose pseudo-element is not listed.
pub open spec fn unlisted_slot(s: PseudoSlots, list: Seq<(PseudoElement, String)>, k: usize) -> bool {
    ||| (s.before == Some(k) && listed_content(list, PseudoElement::Before).is_none())
    ||| (s.after == Some(k) && listed_content(list, PseudoElement::After).is_none())
    ||| (s.first_line == Some(k) && listed_content(list, PseudoElement::FirstLine).is_none())
    ||| (s.first_letter == Some(k) && listed_content(list, PseudoElement::FirstLetter).is_none())
}

impl PseudoSlots {
    /// Sets the slot of `pseudo`.
    fn set(&mut self, pseudo: PseudoElement, v: Option<usize>)
        ensures
            *final(self) == with_slot(*old(self), pseudo, v),
    {
        match pseudo {
            PseudoElement::Before => self.before = v,
            PseudoElement::After => self.after = v,
            PseudoElement::FirstLine => self.first_line = v,
            PseudoElement::FirstLetter => self.first_letter = v,
        }
    }

    /// Whether no slot holds a node.
    fn is_empty(&self) -> (r: bool)
        ensures
            r == slots_empty(*self),
    {
        self.before.is_none() && self.after.is_none() && self.first_line.is_none() && self.first_letter.is_none()
    }
}

/// `"Node {id} not found"`.
pub open spec fn not_found_message(id: usize) -> Seq<char> {
    "Node "@ + dec(id as nat) + " not found"@
}

/// `"Node {id} is not an element"`.
pub open spec fn not_element_message(id: usize) -> Seq<char> {
    "Node "@ + dec(id as nat) + " is not an element"@
}

fn node_message(id: usize, tail: &str) -> (r: String)
    ensures
        r@ == "Node "@ + dec(id as nat) + tail@,
{
    let mut v: Vec<char> = Vec::new();
    push_str(&mut v, "Node ");
    let d = decimal(id as u64);
    push_chars(&mut v, d.as_slice());
    push_str(&mut v, tail);
    string_from_chars(v.as_slice())
}

/// Two nodes that agree on everything but possibly their children.
pub open spec fn same_but_children(a: Node, b: Node) -> bool {
    &&& a.id == b.id
    &&& a.tag_name == b.tag_name
    &&& a.attributes == b.attributes
    &&& a.text_content == b.text_content
    &&& a.parent == b.parent
    &&& a.element_state == b.element_state
    &&& a.pseudo_element == b.pseudo_element
}

/// Two nodes that agree on everything but possibly their parent.
pub open spec fn same_but_parent(a: Node, b: Node) -> bool {
    &&& a.id == b.id
    &&& a.tag_name == b.tag_name
    &&& a.attributes == b.attributes
    &&& a.text_content == b.text_content
    &&& a.children == b.children
    &&& a.element_state == b.element_state
    &&& a.pseudo_element == b.pseudo_element
}

/// Two nodes that agree on everything but possibly their attributes.
pub open spec fn same_but_attributes(a: Node, b: Node) -> bool {
    &&& a.id == b.id
    &&& a.tag_name == b.tag_name
    &&& a.text_content == b.text_content
    &&& a.children == b.children
    &&& a.parent == b.parent
    &&& a.element_state == b.element_state
    &&& a.pseudo_element == b.pseudo_element
}

/// Two nodes that agree on everything but possibly their element state.
pub open spec fn same_but_state(a: Node, b: Node) -> bool {
    &&& a.id == b.id
    &&& a.tag_name == b.tag_name
    &&& a.attributes == b.attributes
    &&& a.text_content == b.text_content
    &&& a.children == b.children
    &&& a.parent == b.parent
    &&& a.pseudo_element == b.pseudo_element
}

/// Two nodes that agree on everything but possibly their links (children
/// and parent).
pub open spec fn same_but_links(a: Node, b: Node) -> bool {
    &&& a.id == b.id
    &&& a.tag_name == b.tag_name
    &&& a.attributes == b.attributes
    &&& a.text_content == b.text_content
    &&& a.element_state == b.element_state
    &&& a.pseudo_element == b.pseudo_element
}

/// `n` is a fresh node with the given id, parent and content, and no
/// attributes, children, state or pseudo-element.
pub open spec fn fresh_node(
    n: Node,
    id: usize,
    tag: Option<Seq<char>>,
    text: Option<Seq<char>>,
    parent: Option<usize>,
) -> bool {
    &&& n.id == id
    &&& n.tag_name.is_some() == tag.is_some()
    &&& (tag.is_some() ==> n.tag_name.unwrap()@ == tag.unwrap())
    &&& n.text_content.is_some() == text.is_some()
    &&& (text.is_some() ==> n.text_content.unwrap()@ == text.unwrap())
    &&& n.attributes.wf()
    &&& n.attributes@ == Map::<Seq<char>, String>::empty()
    &&& n.children@ == Seq::<usize>::empty()
    &&& n.parent == parent
    &&& n.element_state@ == 0
    &&& n.pseudo_element.is_none()
}

/// `s` with every occurrence of `x` removed.
pub open spec fn without(s: Seq<usize>, x: usize) -> Seq<usize>
    decreases s.len(),
{
    if s.len() == 0 {
        s
    } else if s.last() == x {
        without(s.drop_last(), x)
    } else {
        without(s.drop_last(), x).push(s.last())
    }
}

/// Whether `x` occurs in `v`.
pub fn contains_id(v: &Vec<usize>, x: usize) -> (r: bool)
    ensures
        r == v@.contains(x),
{
    let mut i: usize = 0;
    while i < v.len()
        invariant
            i <= v@.len(),
            forall|j: int| 0 <= j < i ==> v@[j] != x,
        decreases v@.len() - i,
    {
        if v[i] == x {
            assert(v@[i as int] == x);
            return true;
        }
        i = i + 1;
    }
    false
}

/// `v` without the occurrences of `x`.
pub fn remove_id(v: &Vec<usize>, x: usize) -> (r: Vec<usize>)
    ensures
        r@ == without(v@, x),
{
    let mut r: Vec<usize> = Vec::new();
    let mut i: usize = 0;
    while i < v.len()
        invariant
            i <= v@.len(),
            r@ == without(v@.take(i as int), x),
        decreases v@.len() - i,
    {
        assert(v@.take(i + 1).drop_last() =~= v@.take(i as int));
        if v[i] != x {
            r.push(v[i]);
        }
        i = i + 1;
    }
    assert(v@.take(v@.len() as int) =~= v@);
    r
}

/// A parsed HTML document: its nodes keyed by id and the id of the root
/// `<html>` element.
#[derive(Debug)]
pub struct Document {
    pub nodes: HashMap<usize, Node>,
    pub root: Option<usize>,
    next_id: usize,
    html_source: Option<String>,
    pseudo_children: HashMap<usize, PseudoSlots>,
}

impl Document {
    /// The nodes, keyed by id.
    pub closed spec fn nodes_map(self) -> Map<usize, Node> {
        self.nodes@
    }

    /// The root element.
    pub closed spec fn root_id(self) -> Option<usize> {
        self.root
    }

    /// The id the next created node receives.
    pub closed spec fn next_id(self) -> usize {
        self.next_id
    }

    /// The HTML text of the last parsed document, which selector queries run
    /// against.
    pub closed spec fn source(self) -> Option<Seq<char>> {
        match self.html_source {
            Some(s) => Some(s@),
            None => None,
        }
    }

    /// The generated pseudo-element nodes, per element.
    pub closed spec fn pseudo(self) -> Map<usize, PseudoSlots> {
        self.pseudo_children@
    }

    /// Every node id is below the next id to hand out, and every attribute
    /// map is well formed.
    pub closed spec fn wf(self) -> bool {
        &&& forall|k: usize| #[trigger] self.nodes_map().contains_key(k) ==> k < self.next_id()
        &&& forall|k: usize| #[trigger] self.nodes_map().contains_key(k) ==> self.nodes_map()[k].attributes.wf()
    }

    /// What well-formedness guarantees about the nodes.
    pub proof fn lemma_wf(self)
        requires
            self.wf(),
        ensures
            forall|k: usize| #[trigger] self.nodes_map().contains_key(k) ==> k < self.next_id(),
            forall|k: usize| #[trigger] self.nodes_map().contains_key(k) ==> self.nodes_map()[k].attributes.wf(),
    {
    }

    /// An empty document.
    pub fn new() -> (d: Self)
        ensures
            d.wf(),
            pseudo_links_ok(d),
            d.nodes_map() == Map::<usize, Node>::empty(),
            d.root_id().is_none(),
            d.next_id() == 0,
            d.source().is_none(),
            d.pseudo() == Map::<usize, PseudoSlots>::empty(),
    {
        Document {
            nodes: HashMap::new(),
            root: None,
            next_id: 0,
            html_source: None,
            pseudo_children: HashMap::new(),
        }
    }

    /// The node with id `id`.
    pub fn get_node(&self, id: usize) -> (r: Option<&Node>)
        ensures
            r == (if self.nodes_map().contains_key(id) {
                Some(&self.nodes_map()[id])
            } else {
                None
            }),
    {
        self.nodes.get(&id)
    }

    /// Number of nodes.
    pub fn node_count(&self) -> (r: usize)
        ensures
            r == self.nodes_map().len(),
    {
        self.nodes.len()
    }

    /// The root element.
    pub fn root_node_id(&self) -> (r: Option<usize>)
        ensures
            r == self.root_id(),
    {
        self.root
    }

    /// The id the next created node receives.
    pub fn next_node_id(&self) -> (r: usize)
        ensures
            r == self.next_id(),
    {
        self.next_id
    }

    /// The value of attribute `name` of node `node_id`.
    pub fn attribute(&self, node_id: usize, name: &str) -> (r: Option<String>)
        requires
            self.wf(),
        ensures
            r == attr_value(*self, node_id, name@),
    {
        match self.nodes.get(&node_id) {
            None => None,
            Some(node) => match node.attributes.get_str(name) {
                Some(v) => Some(v.clone()),
                None => None,
            },
        }
    }

    /// Same as [`Document::attribute`].
    pub fn get_attribute(&self, node_id: usize, name: &str) -> (r: Option<String>)
        requires
            self.wf(),
        ensures
            r == attr_value(*self, node_id, name@),
    {
        self.attribute(node_id, name)
    }

    /// The generated node for `pseudo` of element `parent_id`.
    pub fn pseudo_child_id(&self, parent_id: usize, pseudo: PseudoElement) -> (r: Option<usize>)
        ensures
            r == (if self.pseudo().contains_key(parent_id) {
                slot_of(self.pseudo()[parent_id], pseudo)
            } else {
                None
            }),
    {
        match self.pseudo_children.get(&parent_id) {
            Some(slots) => slots.get(pseudo),
            None => None,
        }
    }

    /// All generated pseudo-element nodes of element `parent_id`.
    pub fn pseudo_children(&self, parent_id: usize) -> (r: Option<&PseudoSlots>)
        ensures
            r == (if self.pseudo().contains_key(parent_id) {
                Some(&self.pseudo()[parent_id])
            } else {
                None
            }),
    {
        self.pseudo_children.get(&parent_id)
    }

    /// The UI state of an element.
    pub fn element_state(&self, node_id: usize) -> (r: Option<ElementState>)
        ensures
            r == (if self.nodes_map().contains_key(node_id) {
                Some(self.nodes_map()[node_id].element_state)
            } else {
                None
            }),
    {
        match self.nodes.get(&node_id) {
            Some(n) => Some(n.element_state),
            None => None,
        }
    }

    /// Sets (`enabled`) or clears the state flags `state` of a node.
    pub fn set_element_state(&mut self, node_id: usize, state: ElementState, enabled: bool) -> (r:
        Result<(), String>)
        requires
            old(self).wf(),
        ensures
            final(self).wf(),
            pseudo_links_ok(*old(self)) ==> pseudo_links_ok(*final(self)),
            final(self).next_id() == old(self).next_id(),
            final(self).root_id() == old(self).root_id(),
            final(self).source() == old(self).source(),
            final(self).pseudo() == old(self).pseudo(),
            match r {
                Ok(()) => {
                    &&& old(self).nodes_map().contains_key(node_id)
                    &&& final(self).nodes_map().dom() == old(self).nodes_map().dom()
                    &&& forall|k: usize| k != node_id && #[trigger] old(self).nodes_map().contains_key(k)
                        ==> final(self).nodes_map()[k] == old(self).nodes_map()[k]
                    &&& same_but_state(final(self).nodes_map()[node_id], old(self).nodes_map()[node_id])
                    &&& final(self).nodes_map()[node_id].element_state@ == (if enabled {
                        old(self).nodes_map()[node_id].element_state@ | state@
                    } else {
                        old(self).nodes_map()[node_id].element_state@ & !state@
                    })
                },
                Err(e) => {
                    &&& !old(self).nodes_map().contains_key(node_id)
                    &&& e@ == not_found_message(node_id)
                    &&& final(self).nodes_map() == old(self).nodes_map()
                },
            },
    {
        match self.nodes.remove(&node_id) {
            None => Err(node_message(node_id, " not found")),
            Some(mut node) => {
                if enabled {
                    node.element_state.insert(state);
                } else {
                    node.element_state.remove(state);
                }
                self.nodes.insert(node_id, node);
                Ok(())
            },
        }
    }

    /// The tag name of node `node_id`.
    pub fn get_tag_name(&self, node_id: usize) -> (r: Option<String>)
        ensures
            r == (if self.nodes_map().contains_key(node_id) {
                self.nodes_map()[node_id].tag_name
            } else {
                None
            }),
    {
        match self.nodes.get(&node_id) {
            Some(n) => match &n.tag_name {
                Some(t) => Some(t.clone()),
                None => None,
            },
            None => None,
        }
    }

    /// Creates a detached element with the given tag and returns its id.
    pub fn create_element(&mut self, tag_name: &str) -> (r: Result<usize, String>)
        requires
            old(self).wf(),
            old(self).next_id() < usize::MAX,
        ensures
            final(self).wf(),
            pseudo_links_ok(*old(self)) ==> pseudo_links_ok(*final(self)),
            r == Ok::<usize, String>(old(self).next_id()),
            final(self).next_id() == old(self).next_id() + 1,
            final(self).nodes_map().dom() == old(self).nodes_map().dom().insert(old(self).next_id()),
            forall|k: usize| #[trigger] old(self).nodes_map().contains_key(k) ==> final(self).nodes_map()[k]
                == old(self).nodes_map()[k],
            fresh_node(
                final(self).nodes_map()[old(self).next_id()],
                old(self).next_id(),
                Some(tag_name@),
                None,
                None,
            ),
            final(self).root_id() == old(self).root_id(),
            final(self).source() == old(self).source(),
            final(self).pseudo() == old(self).pseudo(),
    {
        let node_id = self.next_id;
        self.next_id = self.next_id + 1;
        let node = Node::new_element(node_id, tag_name.to_owned(), None);
        self.nodes.insert(node_id, node);
        Ok(node_id)
    }

    /// Appends `child_id` to the children of `parent_id` (unless already
    /// there) and makes `parent_id` the parent of `child_id`.  Missing nodes
    /// are skipped.
    pub fn append_child(&mut self, parent_id: usize, child_id: usize) -> (r: Result<(), String>)
        requires
            old(self).wf(),
        ensures
            final(self).wf(),
            pseudo_links_ok(*old(self)) ==> pseudo_links_ok(*final(self)),
            r.is_ok(),
            appended(*old(self), *final(self), parent_id, child_id),
    {
        match self.nodes.remove(&parent_id) {
            Some(mut parent_node) => {
                if !contains_id(&parent_node.children, child_id) {
                    parent_node.children.push(child_id);
                }
                self.nodes.insert(parent_id, parent_node);
            },
            None => {},
        }
        match self.nodes.remove(&child_id) {
            Some(mut child_node) => {
                child_node.parent = Some(parent_id);
                self.nodes.insert(child_id, child_node);
            },
            None => {},
        }
        assert(self.nodes@.dom() =~= old(self).nodes@.dom());
        Ok(())
    }

    /// Sets attribute `name` of element `node_id` to `value`.
    pub fn set_attribute(&mut self, node_id: usize, name: &str, value: &str) -> (r: Result<(), String>)
        requires
            old(self).wf(),
        ensures
            final(self).wf(),
            pseudo_links_ok(*old(self)) ==> pseudo_links_ok(*final(self)),
            final(self).next_id() == old(self).next_id(),
            final(self).root_id() == old(self).root_id(),
            final(self).source() == old(self).source(),
            final(self).pseudo() == old(self).pseudo(),
            match r {
                Ok(()) => attribute_set(*old(self), *final(self), node_id, name@, value@),
                Err(e) => {
                    &&& final(self).nodes_map() == old(self).nodes_map()
                    &&& if !old(self).nodes_map().contains_key(node_id) {
                        e@ == not_found_message(node_id)
                    } else {
                        old(self).nodes_map()[node_id].tag_name.is_none() && e@ == not_element_message(node_id)
                    }
                },
            },
    {
        match self.nodes.remove(&node_id) {
            None => Err(node_message(node_id, " not found")),
            Some(mut node) => {
                if node.tag_name.is_none() {
                    self.nodes.insert(node_id, node);
                    assert(self.nodes@ =~= old(self).nodes@);
                    return Err(node_message(node_id, " is not an element"));
                }
                node.attributes.insert(name.to_owned(), value.to_owned());
                self.nodes.insert(node_id, node);
                Ok(())
            },
        }
    }

    /// The elements that have generated pseudo-element nodes.
    fn pseudo_parent_ids(&self) -> (r: Vec<usize>)
        ensures
            r@.to_set() == self.pseudo().dom(),
            r@.no_duplicates(),
    {
        let mut out: Vec<usize> = Vec::new();
        for k in it: self.pseudo_children.keys()
            invariant
                out@ == it.seq().take(it.index() as int).map_values(|x: &usize| *x),
        {
            out.push(*k);
        }
        proof {
            let ks = self.pseudo_children.keys();
            assert(out@ =~= vstd::std_specs::iter::IteratorSpec::remaining(&ks).unref());
        }
        out
    }

    /// Drops the node generated for `pseudo` of element `parent_id`.
    fn remove_pseudo_child(&mut self, parent_id: usize, pseudo: PseudoElement)
        requires
            old(self).wf(),
        ensures
            final(self).wf(),
            final(self).pseudo() == slot_dropped(old(self).pseudo(), parent_id, pseudo),
            match slot_in(old(self).pseudo(), parent_id, pseudo) {
                Some(id) => final(self).nodes_map() == old(self).nodes_map().remove(id),
                None => final(self).nodes_map() == old(self).nodes_map(),
            },
            final(self).next_id() == old(self).next_id(),
            final(self).root_id() == old(self).root_id(),
            final(self).source() == old(self).source(),
    {
        match self.pseudo_children.remove(&parent_id) {
            None => {},
            Some(mut slots) => {
                let target = slots.get(pseudo);
                slots.set(pseudo, None);
                match target {
                    Some(id) => {
                        self.nodes.remove(&id);
                    },
                    None => {},
                }
                if !slots.is_empty() {
                    self.pseudo_children.insert(parent_id, slots);
                }
                proof {
                    assert(self.pseudo() =~= slot_dropped(old(self).pseudo(), parent_id, pseudo));
                }
            },
        }
        proof {
            match slot_in(old(self).pseudo(), parent_id, pseudo) {
                Some(id) => {
                    assert(self.nodes_map() =~= old(self).nodes_map().remove(id));
                },
                None => {},
            }
        }
    }

    /// Sets the text of the node generated for `pseudo` of `parent_id`,
    /// creating the node (with the next id) when there is none.
    fn upsert_pseudo_child(&mut self, parent_id: usize, pseudo: PseudoElement, content: &str)
        requires
            old(self).wf(),
            old(self).next_id() < usize::MAX,
        ensures
            final(self).wf(),
            final(self).root_id() == old(self).root_id(),
            final(self).source() == old(self).source(),
            match slot_in(old(self).pseudo(), parent_id, pseudo) {
                Some(id) => {
                    &&& final(self).pseudo() == old(self).pseudo()
                    &&& final(self).next_id() == old(self).next_id()
                    &&& final(self).nodes_map().dom() == old(self).nodes_map().dom()
                    &&& forall|k: usize| k != id && #[trigger] old(self).nodes_map().contains_key(k)
                        ==> final(self).nodes_map()[k] == old(self).nodes_map()[k]
                    &&& old(self).nodes_map().contains_key(id) ==> {
                        &&& same_but_text(final(self).nodes_map()[id], old(self).nodes_map()[id])
                        &&& final(self).nodes_map()[id].text_content matches Some(t) && t@ == content@
                    }
                },
                None => {
                    &&& final(self).next_id() == old(self).next_id() + 1
                    &&& final(self).pseudo() == old(self).pseudo().insert(
                        parent_id,
                        with_slot(slots_of(old(self).pseudo(), parent_id), pseudo, Some(old(self).next_id())),
                    )
                    &&& final(self).nodes_map().dom() == old(self).nodes_map().dom().insert(old(self).next_id())
                    &&& forall|k: usize| #[trigger] old(self).nodes_map().contains_key(k)
                        ==> final(self).nodes_map()[k] == old(self).nodes_map()[k]
                    &&& generated_node(
                        final(self).nodes_map()[old(self).next_id()],
                        old(self).next_id(),
                        parent_id,
                        pseudo,
                        content@,
                    )
                },
            },
    {
        let existing = match self.pseudo_children.get(&parent_id) {
            Some(slots) => slots.get(pseudo),
            None => None,
        };
        match existing {
            Some(id) => {
                match self.nodes.remove(&id) {
                    Some(mut node) => {
                        node.text_content = Some(content.to_owned());
                        self.nodes.insert(id, node);
                    },
                    None => {},
                }
                proof {
                    assert(self.nodes_map().dom() =~= old(self).nodes_map().dom());
                }
            },
            None => {
                let mut slots = match self.pseudo_children.remove(&parent_id) {
                    Some(s) => s,
                    None => PseudoSlots { before: None, after: None, first_line: None, first_letter: None },
                };
                let node_id = self.next_id;
                self.next_id = self.next_id + 1;
                let node = Node {
                    id: node_id,
                    tag_name: None,
                    attributes: StrMap::new(),
                    text_content: Some(content.to_owned()),
                    children: Vec::new(),
                    parent: Some(parent_id),
                    element_state: ElementState::empty(),
                    pseudo_element: Some(pseudo),
                };
                self.nodes.insert(node_id, node);
                slots.set(pseudo, Some(node_id));
                self.pseudo_children.insert(parent_id, slots);
                proof {
                    assert(self.nodes_map().dom() =~= old(self).nodes_map().dom().insert(old(self).next_id()));
                    assert(self.pseudo() =~= old(self).pseudo().insert(
                        parent_id,
                        with_slot(slots_of(old(self).pseudo(), parent_id), pseudo, Some(old(self).next_id())),
                    ));
                }
            },
        }
    }

    /// Whether `pseudo` is listed.
    fn is_listed(list: &Vec<(PseudoElement, String)>, pseudo: PseudoElement) -> (r: bool)
        ensures
            r == listed_content(list@, pseudo).is_some(),
    {
        let mut found = false;
        let mut k: usize = 0;
        while k < list.len()
            invariant
                k <= list@.len(),
                found == listed_content(list@.take(k as int), pseudo).is_some(),
            decreases list@.len() - k,
        {
            proof {
                assert(list@.take(k + 1).drop_last() =~= list@.take(k as int));
            }
            if list[k].0 == pseudo {
                found = true;
            }
            k = k + 1;
        }
        proof {
            assert(list@.take(list@.len() as int) =~= list@);
        }
        found
    }

    /// Empties the slot of `pseudo` in `kept` and drops its node, unless
    /// `pseudo` is listed.
    fn clear_unlisted_slot(&mut self, kept: &mut PseudoSlots, pseudo: PseudoElement, list: &Vec<(PseudoElement, String)>)
        requires
            old(self).wf(),
        ensures
            final(self).wf(),
            *final(kept) == with_slot(
                *old(kept),
                pseudo,
                keep_if(slot_of(*old(kept), pseudo), listed_content(list@, pseudo).is_some()),
            ),
            forall|k: usize| #[trigger] final(self).nodes_map().contains_key(k) <==> (old(self).nodes_map().contains_key(k)
                && !(slot_of(*old(kept), pseudo) == Some(k) && listed_content(list@, pseudo).is_none())),
            forall|k: usize| #[trigger] final(self).nodes_map().contains_key(k) ==> final(self).nodes_map()[k]
                == old(self).nodes_map()[k],
            final(self).pseudo() == old(self).pseudo(),
            final(self).next_id() == old(self).next_id(),
            final(self).root_id() == old(self).root_id(),
            final(self).source() == old(self).source(),
    {
        match kept.get(pseudo) {
            Some(id) => {
                if !Self::is_listed(list, pseudo) {
                    kept.set(pseudo, None);
                    self.nodes.remove(&id);
                }
            },
            None => {},
        }
    }

    /// Drops the generated nodes of `p` whose pseudo-element is not listed.
    fn drop_unlisted(&mut self, p: usize, list: &Vec<(PseudoElement, String)>)
        requires
            old(self).wf(),
        ensures
            final(self).wf(),
            old(self).pseudo().contains_key(p) ==> {
                let s = kept_slots(old(self).pseudo()[p], list@);
                final(self).pseudo() == if slots_empty(s) {
                    old(self).pseudo().remove(p)
                } else {
                    old(self).pseudo().insert(p, s)
                }
            },
            !old(self).pseudo().contains_key(p) ==> final(self).pseudo() == old(self).pseudo(),
            forall|k: usize| #[trigger] final(self).nodes_map().contains_key(k) <==> (old(self).nodes_map().contains_key(k)
                && !(old(self).pseudo().contains_key(p) && unlisted_slot(old(self).pseudo()[p], list@, k))),
            forall|k: usize| #[trigger] final(self).nodes_map().contains_key(k) ==> final(self).nodes_map()[k]
                == old(self).nodes_map()[k],
            final(self).next_id() == old(self).next_id(),
            final(self).root_id() == old(self).root_id(),
            final(self).source() == old(self).source(),
    {
        match self.pseudo_children.remove(&p) {
            None => {
                proof {
                    assert(self.pseudo() =~= old(self).pseudo());
                }
            },
            Some(slots) => {
                let mut kept = slots;
                self.clear_unlisted_slot(&mut kept, PseudoElement::Before, list);
                self.clear_unlisted_slot(&mut kept, PseudoElement::After, list);
                self.clear_unlisted_slot(&mut kept, PseudoElement::FirstLine, list);
                self.clear_unlisted_slot(&mut kept, PseudoElement::FirstLetter, list);
                assert(kept == kept_slots(slots, list@));
                if !kept.is_empty() {
                    self.pseudo_children.insert(p, kept);
                }
                proof {
                    if slots_empty(kept) {
                        assert(self.pseudo() =~= old(self).pseudo().remove(p));
                    } else {
                        assert(self.pseudo() =~= old(self).pseudo().insert(p, kept));
                    }
                }
            },
        }
    }

    /// Brings the generated nodes of element `p` in line with `list`:
    /// unlisted ones are dropped, listed ones get their content (a node is
    /// created where there is none), and `p` leaves the map when none is
    /// left.  Nothing changes when `p` is not a node.
    fn sync_one(&mut self, p: usize, list: &Vec<(PseudoElement, String)>)
        requires
            old(self).wf(),
            old(self).next_id() + list@.len() < usize::MAX,
        ensures
            final(self).wf(),
            only_touches(*old(self), *final(self), p),
            final(self).next_id() <= old(self).next_id() + list@.len(),
            !old(self).nodes_map().contains_key(p) ==> final(self).pseudo() == old(self).pseudo()
                && final(self).nodes_map() == old(self).nodes_map() && final(self).next_id() == old(self).next_id(),
            pseudo_links_ok(*old(self)) ==> pseudo_links_ok(*final(self)),
            pseudo_links_ok(*old(self)) && old(self).nodes_map().contains_key(p) ==> pseudo_synced(
                *final(self),
                p,
                list@,
            ),
            pseudo_links_ok(*old(self)) && old(self).nodes_map().contains_key(p) ==> forall|ps: PseudoElement|
                #[trigger] slot_synced(*old(self), *final(self), p, ps, list@),
    {
        if !self.nodes.contains_key(&p) {
            return;
        }
        let ghost start = *self;
        let ghost links = pseudo_links_ok(start);
        self.drop_unlisted(p, list);
        proof {
            assert forall|k: usize| #[trigger] start.nodes_map().contains_key(k) && !pseudo_ids(start.pseudo(), p).contains(k)
                implies self.nodes_map().contains_key(k) && self.nodes_map()[k] == start.nodes_map()[k] by {
                if start.pseudo().contains_key(p) {
                    lemma_slot_ids(start.pseudo()[p], k);
                    assert(!unlisted_slot(start.pseudo()[p], list@, k));
                }
                assert(self.nodes_map().contains_key(k));
            }
            if links {
                assert forall|q: usize, qs: PseudoElement| #[trigger] slot_in(self.pseudo(), q, qs) is Some implies slot_in(
                    self.pseudo(),
                    q,
                    qs,
                ) == slot_in(start.pseudo(), q, qs) by {}
            }
        }
        let ghost mid = *self;
        proof {
            if links {
                assert forall|ps: PseudoElement| #[trigger] slot_in(mid.pseudo(), p, ps) == keep_if(
                    slot_in(start.pseudo(), p, ps),
                    listed_content(list@, ps).is_some(),
                ) by {
                    if start.pseudo().contains_key(p) {
                        let s0 = kept_slots(start.pseudo()[p], list@);
                        if !slots_empty(s0) {
                            assert(mid.pseudo()[p] == s0);
                        }
                    }
                }
                assert forall|ps: PseudoElement| #[trigger] slot_in(start.pseudo(), p, ps).is_some() implies ({
                    let x = slot_in(start.pseudo(), p, ps).unwrap();
                    mid.nodes_map().contains_key(x) == (start.nodes_map().contains_key(x) && listed_content(list@, ps).is_some())
                    && (mid.nodes_map().contains_key(x) ==> mid.nodes_map()[x] == start.nodes_map()[x])}) by {
                    let x = slot_in(start.pseudo(), p, ps).unwrap();
                    lemma_slot_ids(start.pseudo()[p], x);
                    assert forall|qs: PseudoElement| slot_of(start.pseudo()[p], qs) == Some(x) implies qs == ps by {
                        assert(slot_in(start.pseudo(), p, qs) == slot_in(start.pseudo(), p, ps));
                    }
                    if listed_content(list@, ps).is_none() {
                        assert(unlisted_slot(start.pseudo()[p], list@, x));
                    } else {
                        assert(!unlisted_slot(start.pseudo()[p], list@, x));
                    }
                }
            }
        }
        let mut j: usize = 0;
        while j < list.len()
            invariant
                j <= list@.len(),
                mid.next_id() == start.next_id(),
                links ==> forall|ps: PseudoElement| #[trigger] slot_in(mid.pseudo(), p, ps) == keep_if(
                    slot_in(start.pseudo(), p, ps),
                    listed_content(list@, ps).is_some(),
                ),
                links ==> forall|ps: PseudoElement| #[trigger] slot_in(start.pseudo(), p, ps).is_some() ==> ({
                    let x = slot_in(start.pseudo(), p, ps).unwrap();
                    mid.nodes_map().contains_key(x) == (start.nodes_map().contains_key(x) && listed_content(list@, ps).is_some())
                    && (mid.nodes_map().contains_key(x) ==> mid.nodes_map()[x] == start.nodes_map()[x])}),
                links ==> forall|k: usize| k < start.next_id() ==> (#[trigger] self.nodes_map().contains_key(k)
                    == mid.nodes_map().contains_key(k)),
                links ==> forall|ps: PseudoElement| #[trigger] listed_content(list@.take(j as int), ps) matches Some(c)
                    ==> slot_filled(start, *self, p, ps, c),
                links ==> forall|ps: PseudoElement| listed_content(list@.take(j as int), ps).is_none() ==> (
                    #[trigger] slot_in(self.pseudo(), p, ps) == slot_in(mid.pseudo(), p, ps) && (slot_in(mid.pseudo(), p, ps) matches Some(x)
                    ==> (mid.nodes_map().contains_key(x) ==> self.nodes_map()[x] == mid.nodes_map()[x]))),
                start.wf(),
                start.next_id() + list@.len() < usize::MAX,
                links == pseudo_links_ok(start),
                start.nodes_map().contains_key(p),
                self.wf(),
                only_touches(start, *self, p),
                self.next_id() <= start.next_id() + j,
                forall|ps: PseudoElement| #[trigger] slot_in(self.pseudo(), p, ps) matches Some(id) ==> slot_in(
                    start.pseudo(),
                    p,
                    ps,
                ) == Some(id) || (start.next_id() <= id && id < self.next_id()),
                forall|ps: PseudoElement| listed_content(list@, ps).is_none() ==> #[trigger] slot_in(self.pseudo(), p, ps).is_none(),
                links ==> pseudo_links_ok(*self),
                links ==> forall|ps: PseudoElement| #[trigger] listed_content(list@.take(j as int), ps).is_some() ==> (
                    slot_in(self.pseudo(), p, ps) matches Some(id) && (self.nodes_map().contains_key(id) ==> (
                    self.nodes_map()[id].text_content matches Some(t) && t@ == listed_content(list@.take(j as int), ps).unwrap()))),
            decreases list@.len() - j,
        {
            let ghost before = *self;
            let ps_j = list[j].0;
            proof {
                assert(list@.take(j + 1).drop_last() =~= list@.take(j as int));
            }
            self.upsert_pseudo_child(p, ps_j, list[j].1.as_str());
            proof {
                lemma_listed(list@, j as int);
                let m = before.pseudo();
                if slot_in(m, p, ps_j).is_none() {
                    assert forall|q: usize, qs: PseudoElement| #[trigger] slot_in(self.pseudo(), q, qs) == (if q == p
                        && qs == ps_j {
                        Some(before.next_id())
                    } else {
                        slot_in(m, q, qs)
                    }) by {
                        lemma_slot_set(m, p, ps_j, Some(before.next_id()), q, qs);
                    }
                }
                assert forall|k: usize| #[trigger] start.nodes_map().contains_key(k) && !pseudo_ids(start.pseudo(), p).contains(k)
                    implies self.nodes_map().contains_key(k) && self.nodes_map()[k] == start.nodes_map()[k] by {
                    if let Some(id) = slot_in(m, p, ps_j) {
                        if slot_in(start.pseudo(), p, ps_j) == Some(id) {
                            lemma_slot_ids(start.pseudo()[p], id);
                        }
                    }
                }
                if links {
                    assert forall|ps: PseudoElement| #[trigger] listed_content(list@.take(j + 1), ps).is_some() implies (
                        slot_in(self.pseudo(), p, ps) matches Some(id) && (self.nodes_map().contains_key(id) ==> (
                        self.nodes_map()[id].text_content matches Some(t) && t@ == listed_content(list@.take(j + 1), ps).unwrap()))) by {
                        if ps != ps_j {
                            assert(listed_content(list@.take(j + 1), ps) == listed_content(list@.take(j as int), ps));
                            let x = slot_in(m, p, ps).unwrap();
                            if let Some(idj) = slot_in(m, p, ps_j) {
                                assert(idj != x);
                            }
                        }
                    }
                    assert forall|ps: PseudoElement| listed_content(list@.take(j + 1), ps).is_none() implies (
                        #[trigger] slot_in(self.pseudo(), p, ps) == slot_in(mid.pseudo(), p, ps) && (slot_in(mid.pseudo(), p, ps) matches Some(x)
                        ==> (mid.nodes_map().contains_key(x) ==> self.nodes_map()[x] == mid.nodes_map()[x]))) by {
                        assert(ps != ps_j);
                        assert(listed_content(list@.take(j + 1), ps) == listed_content(list@.take(j as int), ps));
                        assert(slot_in(self.pseudo(), p, ps) == slot_in(m, p, ps));
                        if let Some(x) = slot_in(mid.pseudo(), p, ps) {
                            assert(slot_in(m, p, ps) == Some(x));
                            if let Some(idj) = slot_in(m, p, ps_j) {
                                assert(idj != x);
                            }
                            assert(slot_in(start.pseudo(), p, ps) == Some(x));
                            assert(x < start.next_id());
                            if mid.nodes_map().contains_key(x) {
                                assert(before.nodes_map().contains_key(x));
                                assert(before.nodes_map()[x] == mid.nodes_map()[x]);
                                assert(x != before.next_id());
                                assert(self.nodes_map()[x] == before.nodes_map()[x]);
                            }
                        }
                    }
                }
            }
            j = j + 1;
        }
        proof {
            assert(list@.take(list@.len() as int) =~= list@);
            if links {
                assert forall|ps: PseudoElement| #![trigger slot_in(self.pseudo(), p, ps)]
                    slot_in(self.pseudo(), p, ps).is_some() == listed_content(list@, ps).is_some() by {
                    if listed_content(list@, ps).is_some() {
                        assert(list@.take(j as int) == list@);
                        assert(listed_content(list@.take(j as int), ps).is_some());
                        assert(slot_in(self.pseudo(), p, ps).is_some());
                    } else {
                        assert(slot_in(self.pseudo(), p, ps).is_none());
                    }
                }
            }
        }
        let ghost before_c = *self;
        let now_empty = match self.pseudo_children.get(&p) {
            Some(slots) => slots.is_empty(),
            None => false,
        };
        if now_empty {
            self.pseudo_children.remove(&p);
            proof {
                assert forall|q: usize, qs: PseudoElement| #[trigger] slot_in(self.pseudo(), q, qs) == slot_in(
                    before_c.pseudo(),
                    q,
                    qs,
                ) by {}
            }
        }
    }

    /// Whether element `p` is listed.
    fn is_listed_parent(contents: &Vec<(usize, Vec<(PseudoElement, String)>)>, p: usize) -> (r: bool)
        ensures
            r == listed_parent(contents@, p),
    {
        let mut k: usize = 0;
        while k < contents.len()
            invariant
                k <= contents@.len(),
                forall|i: int| 0 <= i < k ==> contents@[i].0 != p,
            decreases contents@.len() - k,
        {
            if contents[k].0 == p {
                return true;
            }
            k = k + 1;
        }
        false
    }

    /// Brings the generated pseudo-element nodes in line with `contents`,
    /// which lists for some elements the text of their pseudo-elements:
    /// elements not listed lose their generated nodes; for each listed
    /// element that is a node, unlisted pseudo-elements lose their node and
    /// listed ones get their text, in the node they had (only its text
    /// changes) or, where there was none, in a new generated node with a
    /// fresh id, the element as parent and the pseudo-element set.
    pub fn sync_pseudo_elements(&mut self, contents: &Vec<(usize, Vec<(PseudoElement, String)>)>)
        requires
            old(self).wf(),
            old(self).next_id() + listed_count(contents@) < usize::MAX,
            forall|a: int, b: int| 0 <= a < b < contents@.len() ==> contents@[a].0 != contents@[b].0,
        ensures
            final(self).wf(),
            final(self).root_id() == old(self).root_id(),
            final(self).source() == old(self).source(),
            forall|q: usize| #[trigger] final(self).pseudo().contains_key(q) ==> listed_parent(contents@, q),
            pseudo_links_ok(*old(self)) ==> pseudo_links_ok(*final(self)),
            pseudo_links_ok(*old(self)) ==> forall|k: usize|
                #[trigger] old(self).nodes_map().contains_key(k) && old(self).nodes_map()[k].pseudo_element.is_none()
                    ==> final(self).nodes_map().contains_key(k) && final(self).nodes_map()[k] == old(self).nodes_map()[k],
            pseudo_links_ok(*old(self)) ==> forall|i: int|
                0 <= i < contents@.len() && old(self).nodes_map().contains_key(#[trigger] contents@[i].0)
                    && old(self).nodes_map()[contents@[i].0].pseudo_element.is_none() ==> pseudo_synced(
                    *final(self),
                    contents@[i].0,
                    contents@[i].1@,
                ),
            pseudo_links_ok(*old(self)) ==> forall|i: int, ps: PseudoElement|
                0 <= i < contents@.len() && old(self).nodes_map().contains_key(contents@[i].0)
                    && old(self).nodes_map()[contents@[i].0].pseudo_element.is_none() ==> #[trigger] slot_synced(
                    *old(self),
                    *final(self),
                    contents@[i].0,
                    ps,
                    contents@[i].1@,
                ),
            pseudo_links_ok(*old(self)) ==> forall|q: usize, ps: PseudoElement|
                !listed_parent(contents@, q) && (#[trigger] slot_in(old(self).pseudo(), q, ps)).is_some()
                    ==> !final(self).nodes_map().contains_key(slot_in(old(self).pseudo(), q, ps).unwrap()),
    {
        let ghost start = *self;
        let ghost links = pseudo_links_ok(start);
        let parents = self.pseudo_parent_ids();
        let mut i: usize = 0;
        while i < parents.len()
            invariant
                i <= parents@.len(),
                parents@.to_set() == start.pseudo().dom(),
                links == pseudo_links_ok(start),
                start.wf(),
                self.wf(),
                self.root_id() == start.root_id(),
                self.source() == start.source(),
                self.next_id() == start.next_id(),
                forall|q: usize| #[trigger] self.pseudo().contains_key(q) ==> start.pseudo().contains_key(q)
                    && self.pseudo()[q] == start.pseudo()[q] && !(parents@.take(i as int).contains(q) && !listed_parent(
                    contents@,
                    q,
                )),
                forall|k: usize| #[trigger] self.nodes_map().contains_key(k) ==> start.nodes_map().contains_key(k)
                    && self.nodes_map()[k] == start.nodes_map()[k],
                links ==> pseudo_links_ok(*self),
                links ==> forall|k: usize|
                    #[trigger] start.nodes_map().contains_key(k) && start.nodes_map()[k].pseudo_element.is_none()
                        ==> self.nodes_map().contains_key(k),
                links ==> forall|q: usize, ps: PseudoElement|
                    !listed_parent(contents@, q) && (#[trigger] slot_in(start.pseudo(), q, ps)).is_some()
                        && self.nodes_map().contains_key(slot_in(start.pseudo(), q, ps).unwrap()) ==> slot_in(
                        self.pseudo(),
                        q,
                        ps,
                    ) == slot_in(start.pseudo(), q, ps),
                links ==> forall|q: usize, ps: PseudoElement|
                    listed_parent(contents@, q) ==> #[trigger] slot_in(self.pseudo(), q, ps) == slot_in(start.pseudo(), q, ps)
                        && (slot_in(start.pseudo(), q, ps).is_some() ==> self.nodes_map().contains_key(
                        slot_in(start.pseudo(), q, ps).unwrap(),
                    ) == start.nodes_map().contains_key(slot_in(start.pseudo(), q, ps).unwrap())),
            decreases parents@.len() - i,
        {
            let r = parents[i];
            let ghost before = *self;
            if !Self::is_listed_parent(contents, r) {
                self.remove_all_pseudo_children(r);
                proof {
                    if links {
                        assert forall|q: usize, qs: PseudoElement| #[trigger] slot_in(self.pseudo(), q, qs) is Some implies slot_in(
                            self.pseudo(),
                            q,
                            qs,
                        ) == slot_in(before.pseudo(), q, qs) by {}
                        assert forall|k: usize|
                            #[trigger] start.nodes_map().contains_key(k) && start.nodes_map()[k].pseudo_element.is_none()
                                implies self.nodes_map().contains_key(k) by {
                            if before.pseudo().contains_key(r) {
                                lemma_slot_ids(before.pseudo()[r], k);
                                if pseudo_ids(before.pseudo(), r).contains(k) {
                                    assert(slot_in(before.pseudo(), r, PseudoElement::Before) == Some(k) || slot_in(
                                        before.pseudo(),
                                        r,
                                        PseudoElement::After,
                                    ) == Some(k) || slot_in(before.pseudo(), r, PseudoElement::FirstLine) == Some(k)
                                        || slot_in(before.pseudo(), r, PseudoElement::FirstLetter) == Some(k));
                                }
                            }
                        }
                    }
                }
            }
            proof {
                assert(parents@.take(i + 1) =~= parents@.take(i as int).push(r));
            }
            i = i + 1;
        }
        proof {
            assert(parents@.take(parents@.len() as int) =~= parents@);
            assert forall|q: usize| #[trigger] self.pseudo().contains_key(q) implies listed_parent(contents@, q) by {
                assert(parents@.to_set().contains(q));
            }
        }
        let ghost mid = *self;
        proof {
            if links {
                assert forall|q: usize, ps: PseudoElement|
                    !listed_parent(contents@, q) && (#[trigger] slot_in(start.pseudo(), q, ps)).is_some()
                        implies !self.nodes_map().contains_key(slot_in(start.pseudo(), q, ps).unwrap()) by {
                    if self.nodes_map().contains_key(slot_in(start.pseudo(), q, ps).unwrap()) {
                        assert(slot_in(self.pseudo(), q, ps).is_some());
                        assert(self.pseudo().contains_key(q));
                    }
                }
            }
        }
        let mut i: usize = 0;
        while i < contents.len()
            invariant
                i <= contents@.len(),
                links ==> forall|q: usize, ps: PseudoElement|
                    !listed_parent(contents@, q) && (#[trigger] slot_in(start.pseudo(), q, ps)).is_some()
                        ==> !self.nodes_map().contains_key(slot_in(start.pseudo(), q, ps).unwrap()),
                links ==> forall|i2: int, ps: PseudoElement|
                    i <= i2 < contents@.len() ==> #[trigger] slot_in(self.pseudo(), contents@[i2].0, ps) == slot_in(
                        start.pseudo(),
                        contents@[i2].0,
                        ps,
                    ) && (slot_in(start.pseudo(), contents@[i2].0, ps).is_some() ==> {
                        let x = slot_in(start.pseudo(), contents@[i2].0, ps).unwrap();
                        &&& self.nodes_map().contains_key(x) == start.nodes_map().contains_key(x)
                        &&& start.nodes_map().contains_key(x) ==> self.nodes_map()[x] == start.nodes_map()[x]
                    }),
                links ==> forall|i2: int, ps: PseudoElement|
                    0 <= i2 < i && start.nodes_map().contains_key(contents@[i2].0)
                        && start.nodes_map()[contents@[i2].0].pseudo_element.is_none() ==> #[trigger] slot_synced(
                        start,
                        *self,
                        contents@[i2].0,
                        ps,
                        contents@[i2].1@,
                    ),
                start.wf(),
                links == pseudo_links_ok(start),
                start.next_id() + listed_count(contents@) < usize::MAX,
                forall|a: int, b: int| 0 <= a < b < contents@.len() ==> contents@[a].0 != contents@[b].0,
                self.wf(),
                self.root_id() == start.root_id(),
                self.source() == start.source(),
                start.next_id() <= self.next_id() <= start.next_id() + listed_count(contents@.take(i as int)),
                forall|q: usize| #[trigger] self.pseudo().contains_key(q) ==> listed_parent(contents@, q),
                links ==> pseudo_links_ok(*self),
                links ==> forall|k: usize|
                    #[trigger] start.nodes_map().contains_key(k) && start.nodes_map()[k].pseudo_element.is_none()
                        ==> self.nodes_map().contains_key(k) && self.nodes_map()[k] == start.nodes_map()[k],
                links ==> forall|i2: int|
                    0 <= i2 < i && start.nodes_map().contains_key(#[trigger] contents@[i2].0)
                        && start.nodes_map()[contents@[i2].0].pseudo_element.is_none() ==> pseudo_synced(
                        *self,
                        contents@[i2].0,
                        contents@[i2].1@,
                    ),
            decreases contents@.len() - i,
        {
            let ghost before = *self;
            proof {
                assert(contents@.take(i + 1).drop_last() =~= contents@.take(i as int));
                lemma_listed_count_prefix(contents@, i + 1);
            }
            let p = contents[i].0;
            self.sync_one(p, &contents[i].1);
            proof {
                if links {
                    assert forall|k: usize|
                        #[trigger] start.nodes_map().contains_key(k) && start.nodes_map()[k].pseudo_element.is_none()
                            implies self.nodes_map().contains_key(k) && self.nodes_map()[k] == start.nodes_map()[k] by {
                        if before.pseudo().contains_key(p) {
                            lemma_slot_ids(before.pseudo()[p], k);
                            if pseudo_ids(before.pseudo(), p).contains(k) {
                                assert(slot_in(before.pseudo(), p, PseudoElement::Before) == Some(k) || slot_in(
                                    before.pseudo(),
                                    p,
                                    PseudoElement::After,
                                ) == Some(k) || slot_in(before.pseudo(), p, PseudoElement::FirstLine) == Some(k)
                                    || slot_in(before.pseudo(), p, PseudoElement::FirstLetter) == Some(k));
                            }
                        }
                    }
                    assert forall|i2: int|
                        0 <= i2 < i + 1 && start.nodes_map().contains_key(#[trigger] contents@[i2].0)
                            && start.nodes_map()[contents@[i2].0].pseudo_element.is_none() implies pseudo_synced(
                            *self,
                            contents@[i2].0,
                            contents@[i2].1@,
                        ) by {
                        if i2 < i {
                            let q = contents@[i2].0;
                            assert(q != p);
                            assert forall|ps: PseudoElement| #![trigger slot_in(self.pseudo(), q, ps)]
                                slot_in(self.pseudo(), q, ps) == slot_in(before.pseudo(), q, ps) by {}
                            assert forall|ps: PseudoElement| #![trigger slot_in(self.pseudo(), q, ps)]
                                slot_in(before.pseudo(), q, ps) matches Some(x) ==> (self.nodes_map().contains_key(x)
                                    == before.nodes_map().contains_key(x) && (before.nodes_map().contains_key(x)
                                    ==> self.nodes_map()[x] == before.nodes_map()[x])) by {
                                if let Some(x) = slot_in(before.pseudo(), q, ps) {
                                    if before.pseudo().contains_key(p) {
                                        lemma_slot_ids(before.pseudo()[p], x);
                                        if pseudo_ids(before.pseudo(), p).contains(x) {
                                            assert(slot_in(before.pseudo(), p, PseudoElement::Before) == Some(x)
                                                || slot_in(before.pseudo(), p, PseudoElement::After) == Some(x)
                                                || slot_in(before.pseudo(), p, PseudoElement::FirstLine) == Some(x)
                                                || slot_in(before.pseudo(), p, PseudoElement::FirstLetter) == Some(x));
                                        }
                                    }
                                }
                            }
                        }
                    }
                }
            }
            proof {
                if links {
                    assert forall|i2: int, ps: PseudoElement| i + 1 <= i2 < contents@.len() implies (
                        #[trigger] slot_in(self.pseudo(), contents@[i2].0, ps) == slot_in(start.pseudo(), contents@[i2].0, ps)
                        && (slot_in(start.pseudo(), contents@[i2].0, ps).is_some() ==> {
                            let x = slot_in(start.pseudo(), contents@[i2].0, ps).unwrap();
                            &&& self.nodes_map().contains_key(x) == start.nodes_map().contains_key(x)
                            &&& start.nodes_map().contains_key(x) ==> self.nodes_map()[x] == start.nodes_map()[x]
                        })) by {
                        let q = contents@[i2].0;
                        assert(q != p);
                        assert(slot_in(self.pseudo(), q, ps) == slot_in(before.pseudo(), q, ps));
                        if slot_in(start.pseudo(), q, ps).is_some() {
                            lemma_not_in_other_slots(before, q, ps, p);
                        }
                    }
                    assert forall|i2: int, ps: PseudoElement|
                        0 <= i2 < i + 1 && start.nodes_map().contains_key(contents@[i2].0)
                            && start.nodes_map()[contents@[i2].0].pseudo_element.is_none() implies #[trigger] slot_synced(
                            start,
                            *self,
                            contents@[i2].0,
                            ps,
                            contents@[i2].1@,
                        ) by {
                        let q = contents@[i2].0;
                        if i2 < i {
                            assert(q != p);
                            assert(slot_in(self.pseudo(), q, ps) == slot_in(before.pseudo(), q, ps));
                            if slot_in(before.pseudo(), q, ps).is_some() {
                                lemma_not_in_other_slots(before, q, ps, p);
                            }
                            assert(slot_synced(start, before, q, ps, contents@[i2].1@));
                            lemma_slot_synced_kept(start, before, *self, q, ps, contents@[i2].1@);
                        } else {
                            assert(before.nodes_map().contains_key(p));
                            assert(slot_synced(before, *self, p, ps, contents@[i as int].1@));
                            lemma_slot_synced_rebase(start, before, *self, p, ps, contents@[i as int].1@);
                        }
                    }
                }
            }
            i = i + 1;
        }
    }

    /// Removes the generated pseudo-element nodes of `parent_id`.
    fn remove_all_pseudo_children(&mut self, parent_id: usize)
        requires
            old(self).wf(),
        ensures
            final(self).wf(),
            final(self).pseudo() == old(self).pseudo().remove(parent_id),
            forall|k: usize| #[trigger] final(self).nodes_map().contains_key(k) <==> (old(self).nodes_map().contains_key(k)
                && !pseudo_ids(old(self).pseudo(), parent_id).contains(k)),
            forall|k: usize| #[trigger] final(self).nodes_map().contains_key(k) ==> final(self).nodes_map()[k]
                == old(self).nodes_map()[k],
            final(self).next_id() == old(self).next_id(),
            final(self).root_id() == old(self).root_id(),
            final(self).source() == old(self).source(),
    {
        match self.pseudo_children.remove(&parent_id) {
            None => {},
            Some(slots) => {
                let ids = slots.ids();
                let mut i: usize = 0;
                while i < ids.len()
                    invariant
                        i <= ids@.len(),
                        ids@ == slot_ids(slots),
                        old(self).pseudo().contains_key(parent_id),
                        old(self).pseudo()[parent_id] == slots,
                        self.wf(),
                        self.pseudo() == old(self).pseudo().remove(parent_id),
                        forall|k: usize| #[trigger] self.nodes_map().contains_key(k) <==> (old(self).nodes_map().contains_key(k)
                            && !ids@.take(i as int).contains(k)),
                        forall|k: usize| #[trigger] self.nodes_map().contains_key(k) ==> self.nodes_map()[k]
                            == old(self).nodes_map()[k],
                        self.next_id() == old(self).next_id(),
                        self.root_id() == old(self).root_id(),
                        self.source() == old(self).source(),
                    decreases ids@.len() - i,
                {
                    self.nodes.remove(&ids[i]);
                    proof {
                        assert(ids@.take(i + 1) =~= ids@.take(i as int).push(ids@[i as int]));
                    }
                    i = i + 1;
                }
                assert(ids@.take(ids@.len() as int) =~= ids@);
            },
        }
    }

    /// Removes `child_id` from the children of `parent_id`, detaches it and
    /// drops its generated pseudo-element nodes.
    pub fn remove_child(&mut self, parent_id: usize, child_id: usize) -> (r: Result<(), String>)
        requires
            old(self).wf(),
        ensures
            final(self).wf(),
            pseudo_links_ok(*old(self)) ==> pseudo_links_ok(*final(self)),
            r.is_ok(),
            removed_child(*old(self), *final(self), parent_id, child_id),
    {
        match self.nodes.remove(&parent_id) {
            Some(mut parent_node) => {
                let kept = remove_id(&parent_node.children, child_id);
                parent_node.children = kept;
                self.nodes.insert(parent_id, parent_node);
            },
            None => {},
        }
        match self.nodes.remove(&child_id) {
            Some(mut child_node) => {
                child_node.parent = None;
                self.nodes.insert(child_id, child_node);
            },
            None => {},
        }
        self.remove_all_pseudo_children(child_id);
        proof {
            assert forall|q: usize, qs: PseudoElement| #[trigger] slot_in(self.pseudo(), q, qs) == (if q == child_id {
                None
            } else {
                slot_in(old(self).pseudo(), q, qs)
            }) by {}
            assert forall|k: usize| #[trigger] self.nodes_map().contains_key(k) implies old(self).nodes_map().contains_key(k)
                && self.nodes_map()[k].pseudo_element == old(self).nodes_map()[k].pseudo_element by {}
        }
        Ok(())
    }

    /// Sets the text content of `node_id`: its child nodes are dropped, and
    /// a new text node, with a fresh id, the text, and `node_id` as parent,
    /// becomes its only child.  The text of the node's subtree is then its
    /// own text followed by `text`.
    pub fn set_text_content(&mut self, node_id: usize, text: &str) -> (r: Result<(), String>)
        requires
            old(self).wf(),
            old(self).next_id() < usize::MAX,
        ensures
            final(self).wf(),
            pseudo_links_ok(*old(self)) ==> pseudo_links_ok(*final(self)),
            r.is_ok(),
            text_replaced(*old(self), *final(self), node_id, text@),
            !old(self).nodes_map().contains_key(old(self).next_id()),
            text_set_survives(*old(self), node_id) ==> text_below(
                final(self).nodes_map(),
                node_id,
                final(self).nodes_map().len(),
            ) == own_text(old(self).nodes_map()[node_id]) + text@,
    {
        let ghost kids: Seq<usize> = if self.nodes@.contains_key(node_id) {
            self.nodes@[node_id].children@
        } else {
            Seq::empty()
        };
        let children_to_remove: Vec<usize> = match self.nodes.get(&node_id) {
            Some(n) => copy_ids(&n.children),
            None => Vec::new(),
        };
        let mut i: usize = 0;
        while i < children_to_remove.len()
            invariant
                i <= children_to_remove@.len(),
                children_to_remove@ == kids,
                self.wf(),
                forall|k: usize| #[trigger] self.nodes_map().contains_key(k) <==> (old(self).nodes_map().contains_key(k)
                    && !kids.take(i as int).contains(k)),
                forall|k: usize| #[trigger] self.nodes_map().contains_key(k) ==> self.nodes_map()[k]
                    == old(self).nodes_map()[k],
                self.next_id() == old(self).next_id(),
                self.root_id() == old(self).root_id(),
                self.source() == old(self).source(),
                self.pseudo() == old(self).pseudo(),
            decreases children_to_remove@.len() - i,
        {
            self.nodes.remove(&children_to_remove[i]);
            proof {
                assert(kids.take(i + 1) =~= kids.take(i as int).push(kids[i as int]));
            }
            i = i + 1;
        }
        assert(kids.take(kids.len() as int) =~= kids);
        let text_node_id = self.next_id;
        self.next_id = self.next_id + 1;
        let text_node = Node::new_text(text_node_id, text.to_owned(), Some(node_id));
        self.nodes.insert(text_node_id, text_node);
        let ghost mid = self.nodes@;
        assert(mid.contains_key(node_id) ==> text_set_survives(*old(self), node_id) || node_id == text_node_id);
        if node_id != text_node_id {
            match self.nodes.remove(&node_id) {
                None => {},
                Some(mut node) => {
                    assert(node == mid[node_id]);
                    assert(node == old(self).nodes_map()[node_id]);
                    let only: Vec<usize> = vec![text_node_id];
                    assert(only@ == seq![text_node_id]);
                    node.children = only;
                    self.nodes.insert(node_id, node);
                },
            }
        }
        assert(forall|k: usize| k != node_id ==> #[trigger] self.nodes@.contains_key(k) == mid.contains_key(k));
        assert(forall|k: usize| k != node_id && #[trigger] self.nodes@.contains_key(k) ==> self.nodes@[k] == mid[k]);
        proof {
            self.lemma_text_set(*old(self), node_id, text@);
        }
        Ok(())
    }

    fn collect_text_recursive(&self, node_id: usize, fuel: usize, out: &mut Vec<char>)
        ensures
            final(out)@ == old(out)@ + text_below(self.nodes_map(), node_id, fuel as nat),
        decreases fuel, 1nat,
    {
        if fuel == 0 {
            assert(final(out)@ =~= old(out)@ + text_below(self.nodes_map(), node_id, fuel as nat)) by {
                assert(text_below(self.nodes_map(), node_id, 0) =~= Seq::<char>::empty());
            }
            return;
        }
        match self.nodes.get(&node_id) {
            None => {},
            Some(node) => {
                match &node.text_content {
                    Some(t) => {
                        let tc = chars_of(t.as_str());
                        push_chars(out, tc.as_slice());
                    },
                    None => {},
                }
                let mut i: usize = 0;
                while i < node.children.len()
                    invariant
                        i <= node.children@.len(),
                        fuel > 0,
                        self.nodes_map().contains_key(node_id),
                        *node == self.nodes_map()[node_id],
                        out@ == old(out)@ + own_text(*node) + texts_of(
                            self.nodes_map(),
                            node.children@.take(i as int),
                            (fuel - 1) as nat,
                        ),
                    decreases node.children@.len() - i,
                {
                    assert(node.children@.take(i + 1).drop_last() =~= node.children@.take(i as int));
                    self.collect_text_recursive(node.children[i], fuel - 1, out);
                    i = i + 1;
                }
                assert(node.children@.take(node.children@.len() as int) =~= node.children@);
            },
        }
    }

    /// After `set_text_content`, the new node is fresh and the text of a
    /// surviving node is its own text followed by the new text.
    proof fn lemma_text_set(self, before: Document, node_id: usize, text: Seq<char>)
        requires
            before.wf(),
            text_replaced(before, self, node_id, text),
        ensures
            !before.nodes_map().contains_key(before.next_id()),
            text_set_survives(before, node_id) ==> text_below(self.nodes_map(), node_id, self.nodes_map().len())
                == own_text(before.nodes_map()[node_id]) + text,
    {
        let t = before.next_id();
        let m = self.nodes_map();
        if text_set_survives(before, node_id) {
            assert(node_id < t);
            assert(m.contains_key(node_id));
            assert(m.contains_key(t));
            vstd::std_specs::hash::axiom_hashmap_view_finite_dom(self.nodes);
            let pair = set![node_id, t];
            assert(pair.len() == 2);
            assert(pair.subset_of(m.dom()));
            vstd::set_lib::lemma_len_subset(pair, m.dom());
            let f = m.len();
            assert(f >= 2);
            assert(m[node_id].children@ == seq![t]);
            assert(seq![t].drop_last() =~= Seq::<usize>::empty());
            assert(m[t].children@ == Seq::<usize>::empty());
            assert(texts_of(m, Seq::<usize>::empty(), (f - 2) as nat) == Seq::<char>::empty());
            assert(text_below(m, t, (f - 1) as nat) =~= text);
            assert(texts_of(m, Seq::<usize>::empty(), (f - 1) as nat) == Seq::<char>::empty());
            assert(texts_of(m, seq![t], (f - 1) as nat) =~= text);
            assert(own_text(m[node_id]) == own_text(before.nodes_map()[node_id]));
        }
    }

    /// The concatenated text of the subtree of `node_id`, in document order,
    /// descending at most as many levels as there are nodes (which covers
    /// every subtree of a document whose child links form a tree).
    pub fn get_text_content(&self, node_id: usize) -> (r: String)
        ensures
            r@ == text_below(self.nodes_map(), node_id, self.nodes_map().len()),
    {
        let mut out: Vec<char> = Vec::new();
        let n = self.nodes.len();
        self.collect_text_recursive(node_id, n, &mut out);
        string_from_chars(out.as_slice())
    }

    fn first_node_with_id(&self, v: &String) -> (r: Option<usize>)
        requires
            self.wf(),
        ensures
            r == first_with_id(self.nodes_map(), v@, self.next_id() as nat),
    {
        let mut k: usize = 0;
        while k < self.next_id
            invariant
                k <= self.next_id,
                self.wf(),
                first_with_id(self.nodes_map(), v@, k as nat).is_none(),
            decreases self.next_id - k,
        {
            match self.nodes.get(&k) {
                Some(node) => {
                    match node.attributes.get_str("id") {
                        Some(val) => {
                            if *val == *v {
                                proof {
                                    lemma_first_with_id_found(self.nodes_map(), v@, k, self.next_id() as nat);
                                }
                                return Some(k);
                            }
                        },
                        None => {},
                    }
                },
                None => {},
            }
            k = k + 1;
        }
        None
    }

    fn first_node_with_tag(&self, t: &String, excluded: &Vec<usize>) -> (r: Option<usize>)
        requires
            self.wf(),
        ensures
            r == first_with_tag(self.nodes_map(), t@, excluded@, self.next_id() as nat),
    {
        let mut k: usize = 0;
        while k < self.next_id
            invariant
                k <= self.next_id,
                self.wf(),
                first_with_tag(self.nodes_map(), t@, excluded@, k as nat).is_none(),
            decreases self.next_id - k,
        {
            match self.nodes.get(&k) {
                Some(node) => {
                    match &node.tag_name {
                        Some(tag) => {
                            if *tag == *t && !contains_id(excluded, k) {
                                proof {
                                    lemma_first_with_tag_found(self.nodes_map(), t@, excluded@, k, self.next_id() as nat);
                                }
                                return Some(k);
                            }
                        },
                        None => {},
                    }
                },
                None => {},
            }
            k = k + 1;
        }
        None
    }

    /// The ids of the nodes matching a CSS selector, in document order of the
    /// matched elements.  A matched element is mapped to the first node
    /// carrying the same `id` attribute, or else to the first node with the
    /// same tag name not already listed.  Empty when no document was parsed
    /// or the selector does not parse.
    pub fn select_ids(&self, selector: &str) -> (r: Vec<usize>)
        requires
            self.wf(),
        ensures
            r@ == selected(*self, selector@),
    {
        let source = match &self.html_source {
            None => {
                return Vec::new();
            },
            Some(s) => s,
        };
        let matches = match select_in_html(source.as_str(), selector) {
            None => {
                return Vec::new();
            },
            Some(m) => m,
        };
        let ghost ms = matches_view(matches@);
        let mut result: Vec<usize> = Vec::new();
        let mut i: usize = 0;
        while i < matches.len()
            invariant
                i <= matches@.len(),
                self.wf(),
                ms == matches_view(matches@),
                result@ == pick_nodes(self.nodes_map(), self.next_id() as nat, ms.take(i as int)),
            decreases matches@.len() - i,
        {
            proof {
                assert(ms.take(i + 1).drop_last() =~= ms.take(i as int));
                assert(ms.take(i + 1).last() == ms[i as int]);
            }
            let (id_attr, tag) = &matches[i];
            let mut done = false;
            match id_attr {
                Some(v) => match self.first_node_with_id(v) {
                    Some(k) => {
                        result.push(k);
                        done = true;
                    },
                    None => {},
                },
                None => {},
            }
            if !done {
                match self.first_node_with_tag(tag, &result) {
                    Some(k) => {
                        result.push(k);
                    },
                    None => {},
                }
            }
            i = i + 1;
        }
        proof {
            assert(ms.take(matches@.len() as int) =~= ms);
        }
        result
    }

    /// The first node matching a selector.
    pub fn select_first_id(&self, selector: &str) -> (r: Option<usize>)
        requires
            self.wf(),
        ensures
            r == (if selected(*self, selector@).len() > 0 {
                Some(selected(*self, selector@)[0])
            } else {
                None
            }),
    {
        let ids = self.select_ids(selector);
        if ids.len() > 0 {
            Some(ids[0])
        } else {
            None
        }
    }

    /// Same as [`Document::select_ids`].
    pub fn query_selector(&self, selector: &str) -> (r: Vec<usize>)
        requires
            self.wf(),
        ensures
            r@ == selected(*self, selector@),
    {
        self.select_ids(selector)
    }

    /// Same as [`Document::select_ids`].
    pub fn query_selector_all(&self, selector: &str) -> (r: Vec<usize>)
        requires
            self.wf(),
        ensures
            r@ == selected(*self, selector@),
    {
        self.query_selector(selector)
    }

    /// The elements with a given tag name (the selector `tag`).
    pub fn get_elements_by_tag_name(&self, tag: &str) -> (r: Vec<usize>)
        requires
            self.wf(),
        ensures
            r@ == selected(*self, tag@),
    {
        self.select_ids(tag)
    }

    /// The element with a given id (the selector `#id`).
    pub fn get_element_by_id(&self, id: &str) -> (r: Option<usize>)
        requires
            self.wf(),
        ensures
            r == (if selected(*self, seq!['#'] + id@).len() > 0 {
                Some(selected(*self, seq!['#'] + id@)[0])
            } else {
                None
            }),
    {
        let mut v: Vec<char> = Vec::new();
        v.push('#');
        let idc = chars_of(id);
        push_chars(&mut v, idc.as_slice());
        let sel = string_from_chars(v.as_slice());
        assert(sel@ =~= seq!['#'] + id@);
        self.select_first_id(sel.as_str())
    }

    /// The elements with a given class (the selector `.class_name`).
    pub fn get_elements_by_class_name(&self, class_name: &str) -> (r: Vec<usize>)
        requires
            self.wf(),
        ensures
            r@ == selected(*self, seq!['.'] + class_name@),
    {
        let mut v: Vec<char> = Vec::new();
        v.push('.');
        let c = chars_of(class_name);
        push_chars(&mut v, c.as_slice());
        let sel = string_from_chars(v.as_slice());
        assert(sel@ =~= seq!['.'] + class_name@);
        self.select_ids(sel.as_str())
    }

    fn is_within(&self, id: usize, anchor: usize) -> (r: bool)
        ensures
            r == within(self.nodes_map(), id, anchor, self.nodes_map().len()),
    {
        let fuel = self.nodes.len();
        let mut steps: usize = fuel;
        let mut current: Option<usize> = Some(id);
        while steps > 0
            invariant
                within(self.nodes_map(), id, anchor, fuel as nat) == match current {
                    Some(c) => within(self.nodes_map(), c, anchor, steps as nat),
                    None => false,
                },
                fuel == self.nodes_map().len(),
            decreases steps,
        {
            match current {
                None => {
                    return false;
                },
                Some(c) => match self.nodes.get(&c) {
                    None => {
                        return false;
                    },
                    Some(n) => {
                        if n.parent == Some(anchor) || n.id == anchor {
                            return true;
                        }
                        current = n.parent;
                    },
                },
            }
            steps = steps - 1;
        }
        false
    }

    /// The nodes matching a selector that lie within the subtree of
    /// `node_id` (found by following parent links, at most as many steps as
    /// there are nodes).
    pub fn select_ids_from(&self, node_id: usize, selector: &str) -> (r: Vec<usize>)
        requires
            self.wf(),
        ensures
            r@ == selected(*self, selector@).filter(
                |x: usize| within(self.nodes_map(), x, node_id, self.nodes_map().len()),
            ),
    {
        let all = self.select_ids(selector);
        let ghost f = |x: usize| within(self.nodes_map(), x, node_id, self.nodes_map().len());
        let mut r: Vec<usize> = Vec::new();
        let mut i: usize = 0;
        while i < all.len()
            invariant
                i <= all@.len(),
                f == (|x: usize| within(self.nodes_map(), x, node_id, self.nodes_map().len())),
                r@ == all@.take(i as int).filter(f),
            decreases all@.len() - i,
        {
            proof {
                assert(all@.take(i + 1).drop_last() =~= all@.take(i as int));
                reveal_with_fuel(Seq::filter, 1);
            }
            if self.is_within(all[i], node_id) {
                r.push(all[i]);
            }
            i = i + 1;
        }
        proof {
            assert(all@.take(all@.len() as int) =~= all@);
        }
        r
    }

    /// Replaces the contents of the document by the parse of `html_str`.
    /// Every element and text node of the parsed tree becomes a node, with
    /// ids given in document order starting from 0; the root is the first
    /// match of the selector `html` (queried against the previously parsed
    /// source), falling back to node 0.
    pub fn parse_html(&mut self, html_str: &str)
        requires
            old(self).wf(),
        ensures
            final(self).wf(),
            pseudo_links_ok(*old(self)) ==> pseudo_links_ok(*final(self)),
            html_parsed(*old(self), *final(self), html_str@),
    {
        let outline = outline_of(html_str);
        let ghost es = outline_view(outline@);
        self.nodes = HashMap::new();
        self.root = None;
        self.next_id = 0;
        self.pseudo_children = HashMap::new();
        let mut entry_ids: Vec<usize> = Vec::new();
        let mut i: usize = 0;
        proof {
            assert(built_nodes(self.nodes@, es, 0));
        }
        while i < outline.len()
            invariant
                i <= outline@.len(),
                es == outline_view(outline@),
                es.len() == outline@.len(),
                self.next_id == rank(es, i as int),
                entry_ids@.len() == i,
                forall|j: int| 0 <= j < i ==> entry_ids@[j] == rank(es, j),
                built_nodes(self.nodes@, es, i as int),
                self.wf(),
                self.root.is_none(),
                self.pseudo_children@ == Map::<usize, PseudoSlots>::empty(),
                self.html_source == old(self).html_source,
            decreases outline@.len() - i,
        {
            let e = &outline[i];
            proof {
                assert(es[i as int] == entry_view(outline@[i as int]));
                lemma_rank_bound(es, i as int);
            }
            let before = self.next_id;
            if e.element.is_some() || e.text.is_some() {
                let parent_entry = find_parent(&outline, i);
                proof {
                    lemma_parent_before_bound(es, i as int, i as int);
                    lemma_child_ids_prefix_empty(es, i as int, i + 1);
                }
                let parent: Option<usize> = match parent_entry {
                    Some(pj) => Some(entry_ids[pj]),
                    None => None,
                };
                let id = self.next_id;
                self.next_id = self.next_id + 1;
                let node = match &e.element {
                    Some(el) => {
                        let mut n = Node::new_element(id, el.0.clone(), parent);
                        n.attributes = build_attributes(&el.1);
                        n
                    },
                    None => {
                        let t = match &e.text {
                            Some(t) => t.clone(),
                            None => String::new(),
                        };
                        Node::new_text(id, t, parent)
                    },
                };
                let ghost prev = self.nodes@;
                assert(built_node(node, es, i as int, i + 1));
                self.nodes.insert(id, node);
                match parent {
                    Some(p) => {
                        proof {
                            lemma_parent_before_bound(es, i as int, i as int);
                            lemma_rank_less(es, parent_entry.unwrap() as int, i as int);
                        }
                        let mut pn = self.nodes.remove(&p).unwrap();
                        pn.children.push(id);
                        self.nodes.insert(p, pn);
                    },
                    None => {},
                }
                proof {
                    lemma_build_step(prev, self.nodes@, es, i as int, id);
                }
            } else {
                proof {
                    lemma_skip_step(self.nodes@, es, i as int);
                }
            }
            entry_ids.push(before);
            i = i + 1;
        }
        let ghost mid_nodes = self.nodes@;
        let root_id: usize = 0;
        let html_root_id = match self.select_first_id("html") {
            Some(id) => id,
            None => {
                let mut candidate = root_id;
                match self.nodes.get(&root_id) {
                    Some(root_node) => {
                        if root_node.tag_name.is_none() {
                            match self.first_html_child(&root_node.children) {
                                Some(c) => {
                                    candidate = c;
                                },
                                None => {},
                            }
                        } else {
                            candidate = root_id;
                        }
                    },
                    None => {},
                }
                candidate
            },
        };
        self.root = Some(html_root_id);
        self.html_source = Some(html_str.to_owned());
    }

    fn first_html_child(&self, kids: &Vec<usize>) -> (r: Option<usize>)
        ensures
            r == first_tagged(self.nodes_map(), kids@, "html"@, kids@.len() as nat),
    {
        let mut i: usize = 0;
        while i < kids.len()
            invariant
                i <= kids@.len(),
                first_tagged(self.nodes_map(), kids@, "html"@, i as nat).is_none(),
            decreases kids@.len() - i,
        {
            match self.nodes.get(&kids[i]) {
                Some(n) => match &n.tag_name {
                    Some(t) => {
                        let tc = chars_of(t.as_str());
                        if chars_are(tc.as_slice(), "html") {
                            proof {
                                lemma_first_tagged_found(self.nodes_map(), kids@, "html"@, i as nat, kids@.len() as nat);
                            }
                            return Some(kids[i]);
                        }
                    },
                    None => {},
                },
                None => {},
            }
            i = i + 1;
        }
        None
    }
}

/// Ids of the generated pseudo-element nodes of `parent`.
pub open spec fn pseudo_ids(pseudo: Map<usize, PseudoSlots>, parent: usize) -> Seq<usize> {
    if pseudo.contains_key(parent) {
        slot_ids(pseudo[parent])
    } else {
        Seq::empty()
    }
}

/// `after` is `before` with `child_id` removed from the children of
/// `parent_id`, detached from its parent, and its generated pseudo-element
/// nodes dropped.
pub open spec fn removed_child(before: Document, after: Document, parent_id: usize, child_id: usize) -> bool {
    let gone = pseudo_ids(before.pseudo(), child_id);
    &&& after.pseudo() == before.pseudo().remove(child_id)
    &&& forall|k: usize| #[trigger] after.nodes_map().contains_key(k) <==> (before.nodes_map().contains_key(k)
        && !gone.contains(k))
    &&& forall|k: usize|
        k != parent_id && k != child_id && #[trigger] after.nodes_map().contains_key(k)
            ==> after.nodes_map()[k] == before.nodes_map()[k]
    &&& (after.nodes_map().contains_key(parent_id) ==> {
        &&& same_but_links(after.nodes_map()[parent_id], before.nodes_map()[parent_id])
        &&& after.nodes_map()[parent_id].children@ == without(before.nodes_map()[parent_id].children@, child_id)
        &&& parent_id != child_id ==> after.nodes_map()[parent_id].parent == before.nodes_map()[parent_id].parent
    })
    &&& (after.nodes_map().contains_key(child_id) ==> {
        &&& same_but_links(after.nodes_map()[child_id], before.nodes_map()[child_id])
        &&& after.nodes_map()[child_id].parent.is_none()
        &&& parent_id != child_id ==> after.nodes_map()[child_id].children == before.nodes_map()[child_id].children
    })
    &&& after.next_id() == before.next_id()
    &&& after.root_id() == before.root_id()
    &&& after.source() == before.source()
}

/// The text held by a node itself.
pub open spec fn own_text(n: Node) -> Seq<char> {
    match n.text_content {
        Some(t) => t@,
        None => Seq::empty(),
    }
}

/// Text of the subtree of `id`, descending at most `fuel` levels.
pub open spec fn text_below(nodes: Map<usize, Node>, id: usize, fuel: nat) -> Seq<char>
    decreases fuel, 0nat,
{
    if fuel == 0 || !nodes.contains_key(id) {
        Seq::empty()
    } else {
        own_text(nodes[id]) + texts_of(nodes, nodes[id].children@, (fuel - 1) as nat)
    }
}

/// Concatenated subtree texts of `ids`, each descending at most `fuel`
/// levels.
pub open spec fn texts_of(nodes: Map<usize, Node>, ids: Seq<usize>, fuel: nat) -> Seq<char>
    decreases fuel, ids.len(),
{
    if ids.len() == 0 {
        Seq::empty()
    } else {
        texts_of(nodes, ids.drop_last(), fuel) + text_below(nodes, ids.last(), fuel)
    }
}

/// Whether `node_id` is in the document and not among its own children, so
/// that it survives `set_text_content`.
pub open spec fn text_set_survives(before: Document, node_id: usize) -> bool {
    before.nodes_map().contains_key(node_id) && !before.nodes_map()[node_id].children@.contains(node_id)
}

/// `after` is `before` after `set_text_content(node_id, text)`: the old
/// children are gone, the new text node `t` (the next id) has the text and
/// parent `node_id`, and `node_id`, when it survives, has `t` as its only
/// child.
pub open spec fn text_replaced(before: Document, after: Document, node_id: usize, text: Seq<char>) -> bool {
    let kids = if before.nodes_map().contains_key(node_id) {
        before.nodes_map()[node_id].children@
    } else {
        Seq::empty()
    };
    let t = before.next_id();
    &&& after.next_id() == t + 1
    &&& forall|k: usize| #[trigger] after.nodes_map().contains_key(k) <==> ((before.nodes_map().contains_key(k)
        && !kids.contains(k)) || k == t)
    &&& forall|k: usize|
        k != t && k != node_id && #[trigger] after.nodes_map().contains_key(k) ==> after.nodes_map()[k]
            == before.nodes_map()[k]
    &&& (text_set_survives(before, node_id) ==> {
        &&& same_but_links(after.nodes_map()[node_id], before.nodes_map()[node_id])
        &&& after.nodes_map()[node_id].parent == before.nodes_map()[node_id].parent
        &&& after.nodes_map()[node_id].children@ == seq![t]
    })
    &&& fresh_node(after.nodes_map()[t], t, None, Some(text), Some(node_id))
    &&& after.root_id() == before.root_id()
    &&& after.source() == before.source()
    &&& after.pseudo() == before.pseudo()
}

/// A copy of a list of ids.
pub fn copy_ids(v: &Vec<usize>) -> (r: Vec<usize>)
    ensures
        r@ == v@,
{
    let mut r: Vec<usize> = Vec::new();
    let mut i: usize = 0;
    while i < v.len()
        invariant
            i <= v@.len(),
            r@ == v@.take(i as int),
        decreases v@.len() - i,
    {
        r.push(v[i]);
        i = i + 1;
        assert(r@ =~= v@.take(i as int));
    }
    assert(v@.take(v@.len() as int) =~= v@);
    r
}

/// Node `k` exists and its `id` attribute is `v`.
pub open spec fn has_id_attr(nodes: Map<usize, Node>, k: usize, v: Seq<char>) -> bool {
    &&& nodes.contains_key(k)
    &&& nodes[k].attributes@.contains_key("id"@)
    &&& nodes[k].attributes@["id"@]@ == v
}

/// Node `k` exists and is an element with tag name `t`.
pub open spec fn has_tag(nodes: Map<usize, Node>, k: usize, t: Seq<char>) -> bool {
    &&& nodes.contains_key(k)
    &&& nodes[k].tag_name.is_some()
    &&& nodes[k].tag_name.unwrap()@ == t
}

/// The smallest id below `n` whose node has `id` attribute `v`.
pub open spec fn first_with_id(nodes: Map<usize, Node>, v: Seq<char>, n: nat) -> Option<usize>
    decreases n,
{
    if n == 0 {
        None
    } else {
        match first_with_id(nodes, v, (n - 1) as nat) {
            Some(k) => Some(k),
            None => if has_id_attr(nodes, (n - 1) as usize, v) {
                Some((n - 1) as usize)
            } else {
                None
            },
        }
    }
}

/// The smallest id below `n`, not in `excluded`, whose node has tag `t`.
pub open spec fn first_with_tag(nodes: Map<usize, Node>, t: Seq<char>, excluded: Seq<usize>, n: nat) -> Option<usize>
    decreases n,
{
    if n == 0 {
        None
    } else {
        match first_with_tag(nodes, t, excluded, (n - 1) as nat) {
            Some(k) => Some(k),
            None => if has_tag(nodes, (n - 1) as usize, t) && !excluded.contains((n - 1) as usize) {
                Some((n - 1) as usize)
            } else {
                None
            },
        }
    }
}

/// The node chosen for one matched element, appended to `acc`.
pub open spec fn pick_node(
    nodes: Map<usize, Node>,
    bound: nat,
    acc: Seq<usize>,
    m: (Option<Seq<char>>, Seq<char>),
) -> Seq<usize> {
    let by_id = match m.0 {
        Some(v) => first_with_id(nodes, v, bound),
        None => None,
    };
    match by_id {
        Some(k) => acc.push(k),
        None => match first_with_tag(nodes, m.1, acc, bound) {
            Some(k) => acc.push(k),
            None => acc,
        },
    }
}

/// The nodes chosen for a list of matched elements.
pub open spec fn pick_nodes(
    nodes: Map<usize, Node>,
    bound: nat,
    ms: Seq<(Option<Seq<char>>, Seq<char>)>,
) -> Seq<usize>
    decreases ms.len(),
{
    if ms.len() == 0 {
        Seq::empty()
    } else {
        pick_node(nodes, bound, pick_nodes(nodes, bound, ms.drop_last()), ms.last())
    }
}

/// The node ids a selector query yields on the given nodes, id bound and
/// parsed source.
pub open spec fn selected_in(
    nodes: Map<usize, Node>,
    next_id: usize,
    source: Option<Seq<char>>,
    selector: Seq<char>,
) -> Seq<usize> {
    match source {
        None => Seq::empty(),
        Some(src) => match html_select(src, selector) {
            None => Seq::empty(),
            Some(ms) => pick_nodes(nodes, next_id as nat, ms),
        },
    }
}

/// The node ids a selector query on `d` yields.
pub open spec fn selected(d: Document, selector: Seq<char>) -> Seq<usize> {
    selected_in(d.nodes_map(), d.next_id(), d.source(), selector)
}

proof fn lemma_first_with_id_found(nodes: Map<usize, Node>, v: Seq<char>, k: usize, n: nat)
    requires
        first_with_id(nodes, v, k as nat).is_none(),
        has_id_attr(nodes, k, v),
        k < n,
    ensures
        first_with_id(nodes, v, n) == Some(k),
    decreases n,
{
    if n > k + 1 {
        lemma_first_with_id_found(nodes, v, k, (n - 1) as nat);
    }
}

proof fn lemma_first_with_tag_found(nodes: Map<usize, Node>, t: Seq<char>, ex: Seq<usize>, k: usize, n: nat)
    requires
        first_with_tag(nodes, t, ex, k as nat).is_none(),
        has_tag(nodes, k, t),
        !ex.contains(k),
        k < n,
    ensures
        first_with_tag(nodes, t, ex, n) == Some(k),
    decreases n,
{
    if n > k + 1 {
        lemma_first_with_tag_found(nodes, t, ex, k, (n - 1) as nat);
    }
}

/// Whether following parent links from `id` reaches a node whose parent is
/// `anchor` or which is `anchor` itself, within `fuel` steps.
pub open spec fn within(nodes: Map<usize, Node>, id: usize, anchor: usize, fuel: nat) -> bool
    decreases fuel,
{
    if fuel == 0 || !nodes.contains_key(id) {
        false
    } else if nodes[id].parent == Some(anchor) || nodes[id].id == anchor {
        true
    } else {
        match nodes[id].parent {
            Some(p) => within(nodes, p, anchor, (fuel - 1) as nat),
            None => false,
        }
    }
}

/// Whether an outline entry becomes a node (elements and text nodes do).
pub open spec fn included(e: OutlineView) -> bool {
    e.1.is_some() || e.2.is_some()
}

/// Number of entries before `i` that become nodes: the id given to entry
/// `i`.
pub open spec fn rank(es: Seq<OutlineView>, i: int) -> nat
    decreases i,
{
    if i <= 0 {
        0
    } else {
        rank(es, i - 1) + (if included(es[i - 1]) {
            1nat
        } else {
            0nat
        })
    }
}

/// The nearest element entry before `j` one level above entry `i`.
pub open spec fn parent_before(es: Seq<OutlineView>, i: int, j: int) -> Option<int>
    decreases j,
{
    if j <= 0 {
        None
    } else if es[j - 1].1.is_some() && es[j - 1].0 + 1 == es[i].0 {
        Some(j - 1)
    } else {
        parent_before(es, i, j - 1)
    }
}

/// The entry of the parent element of entry `i`.
pub open spec fn parent_of(es: Seq<OutlineView>, i: int) -> Option<int> {
    parent_before(es, i, i)
}

/// Ids of the entries before `upto` whose parent is entry `p`, in order.
pub open spec fn child_ids(es: Seq<OutlineView>, p: int, upto: int) -> Seq<usize>
    decreases upto,
{
    if upto <= 0 {
        Seq::empty()
    } else if included(es[upto - 1]) && parent_of(es, upto - 1) == Some(p) {
        child_ids(es, p, upto - 1).push(rank(es, upto - 1) as usize)
    } else {
        child_ids(es, p, upto - 1)
    }
}

/// The last value given to attribute `k` in a list of attribute pairs.
pub open spec fn last_value(list: Seq<(Seq<char>, Seq<char>)>, k: Seq<char>) -> Option<Seq<char>>
    decreases list.len(),
{
    if list.len() == 0 {
        None
    } else if list.last().0 == k {
        Some(list.last().1)
    } else {
        last_value(list.drop_last(), k)
    }
}

/// An attribute map holding, for each name in `list`, its last value.
pub open spec fn attrs_from(m: Map<Seq<char>, String>, list: Seq<(Seq<char>, Seq<char>)>) -> bool {
    forall|k: Seq<char>|
        (#[trigger] m.contains_key(k) <==> last_value(list, k).is_some()) && (m.contains_key(k) ==> Some(
            m[k]@,
        ) == last_value(list, k))
}

/// Node `n` is the node built from entry `j`, with the children found among
/// the entries before `upto`.
pub open spec fn built_node(n: Node, es: Seq<OutlineView>, j: int, upto: int) -> bool {
    let e = es[j];
    &&& n.id == rank(es, j)
    &&& n.tag_name.is_some() == e.1.is_some()
    &&& (e.1.is_some() ==> n.tag_name.unwrap()@ == e.1.unwrap().0)
    &&& n.text_content.is_some() == (e.1.is_none() && e.2.is_some())
    &&& (e.1.is_none() && e.2.is_some() ==> n.text_content.unwrap()@ == e.2.unwrap())
    &&& n.attributes.wf()
    &&& (e.1.is_some() ==> attrs_from(n.attributes@, e.1.unwrap().1))
    &&& (e.1.is_none() ==> n.attributes@ == Map::<Seq<char>, String>::empty())
    &&& n.parent == (match parent_of(es, j) {
        Some(p) => Some(rank(es, p) as usize),
        None => None,
    })
    &&& n.children@ == child_ids(es, j, upto)
    &&& n.element_state@ == 0
    &&& n.pseudo_element.is_none()
}

/// The nodes built from the first `upto` outline entries.
pub open spec fn built_nodes(nodes: Map<usize, Node>, es: Seq<OutlineView>, upto: int) -> bool {
    &&& forall|k: usize| #[trigger] nodes.contains_key(k) <==> k < rank(es, upto)
    &&& forall|j: int|
        0 <= j < upto && included(#[trigger] es[j]) ==> nodes.contains_key(rank(es, j) as usize)
            && built_node(nodes[rank(es, j) as usize], es, j, upto)
}

/// The first of the first `n` ids of `kids` whose node has tag `t`.
pub open spec fn first_tagged(nodes: Map<usize, Node>, kids: Seq<usize>, t: Seq<char>, n: nat) -> Option<usize>
    decreases n,
{
    if n == 0 {
        None
    } else {
        match first_tagged(nodes, kids, t, (n - 1) as nat) {
            Some(k) => Some(k),
            None => if has_tag(nodes, kids[n - 1], t) {
                Some(kids[n - 1])
            } else {
                None
            },
        }
    }
}

proof fn lemma_first_tagged_found(nodes: Map<usize, Node>, kids: Seq<usize>, t: Seq<char>, i: nat, n: nat)
    requires
        first_tagged(nodes, kids, t, i).is_none(),
        i < n,
        has_tag(nodes, kids[i as int], t),
    ensures
        first_tagged(nodes, kids, t, n) == Some(kids[i as int]),
    decreases n,
{
    if n > i + 1 {
        lemma_first_tagged_found(nodes, kids, t, i, (n - 1) as nat);
    }
}

/// The root chosen after parsing: the first `html` match, else node 0 (or,
/// when node 0 is not an element, its first `html` child).
pub open spec fn parsed_root(nodes: Map<usize, Node>, next_id: usize, old_source: Option<Seq<char>>) -> usize {
    let sel = selected_in(nodes, next_id, old_source, "html"@);
    if sel.len() > 0 {
        sel[0]
    } else if nodes.contains_key(0) && nodes[0].tag_name.is_none() {
        match first_tagged(nodes, nodes[0].children@, "html"@, nodes[0].children@.len()) {
            Some(c) => c,
            None => 0,
        }
    } else {
        0
    }
}

/// `after` holds the parse of `html`.
pub open spec fn html_parsed(before: Document, after: Document, html: Seq<char>) -> bool {
    let es = html_outline(html);
    &&& after.next_id() == rank(es, es.len() as int)
    &&& built_nodes(after.nodes_map(), es, es.len() as int)
    &&& after.root_id() == Some(parsed_root(after.nodes_map(), after.next_id(), before.source()))
    &&& after.source() == Some(html)
    &&& after.pseudo() == Map::<usize, PseudoSlots>::empty()
}

proof fn lemma_rank_bound(es: Seq<OutlineView>, i: int)
    requires
        0 <= i,
    ensures
        rank(es, i) <= i,
    decreases i,
{
    if i > 0 {
        lemma_rank_bound(es, i - 1);
    }
}

proof fn lemma_rank_mono(es: Seq<OutlineView>, j: int, i: int)
    requires
        j <= i,
    ensures
        rank(es, j) <= rank(es, i),
    decreases i - j,
{
    if j < i {
        lemma_rank_mono(es, j, i - 1);
    }
}

proof fn lemma_rank_less(es: Seq<OutlineView>, j: int, i: int)
    requires
        0 <= j < i,
        included(es[j]),
    ensures
        rank(es, j) < rank(es, i),
{
    lemma_rank_mono(es, j + 1, i);
}

proof fn lemma_parent_before_bound(es: Seq<OutlineView>, i: int, j: int)
    ensures
        match parent_before(es, i, j) {
            Some(x) => 0 <= x < j && es[x].1.is_some() && es[x].0 + 1 == es[i].0,
            None => true,
        },
    decreases j,
{
    if j > 0 {
        lemma_parent_before_bound(es, i, j - 1);
    }
}

proof fn lemma_child_ids_prefix_empty(es: Seq<OutlineView>, p: int, upto: int)
    requires
        upto <= p + 1,
    ensures
        child_ids(es, p, upto) == Seq::<usize>::empty(),
    decreases upto,
{
    if upto > 0 {
        lemma_parent_before_bound(es, upto - 1, upto - 1);
        lemma_child_ids_prefix_empty(es, p, upto - 1);
    }
}

proof fn lemma_skip_step(nodes: Map<usize, Node>, es: Seq<OutlineView>, i: int)
    requires
        0 <= i < es.len(),
        built_nodes(nodes, es, i),
        !included(es[i]),
    ensures
        built_nodes(nodes, es, i + 1),
{
    assert forall|j: int| 0 <= j < i + 1 && included(#[trigger] es[j]) implies nodes.contains_key(
        rank(es, j) as usize,
    ) && built_node(nodes[rank(es, j) as usize], es, j, i + 1) by {
        assert(j < i);
    }
}

proof fn lemma_build_step(prev: Map<usize, Node>, now: Map<usize, Node>, es: Seq<OutlineView>, i: int, id: usize)
    requires
        0 <= i < es.len(),
        built_nodes(prev, es, i),
        included(es[i]),
        id == rank(es, i),
        now.dom() == prev.dom().insert(id),
        built_node(now[id], es, i, i + 1),
        match parent_of(es, i) {
            Some(p) => {
                &&& same_but_children(now[rank(es, p) as usize], prev[rank(es, p) as usize])
                &&& now[rank(es, p) as usize].children@ == prev[rank(es, p) as usize].children@.push(id)
                &&& forall|k: usize| k != id && k != rank(es, p) as usize && #[trigger] prev.contains_key(k) ==> now[k] == prev[k]
            },
            None => forall|k: usize| k != id && #[trigger] prev.contains_key(k) ==> now[k] == prev[k],
        },
    ensures
        built_nodes(now, es, i + 1),
{
    lemma_parent_before_bound(es, i, i);
    assert forall|k: usize| #[trigger] now.contains_key(k) <==> k < rank(es, i + 1) by {
        if now.contains_key(k) && k != id {
            assert(prev.contains_key(k));
        }
    }
    assert forall|j: int| 0 <= j < i + 1 && included(#[trigger] es[j]) implies now.contains_key(
        rank(es, j) as usize,
    ) && built_node(now[rank(es, j) as usize], es, j, i + 1) by {
        if j < i {
            lemma_rank_less(es, j, i);
            match parent_of(es, i) {
                Some(p) => {
                    if p != j {
                        if p < j {
                            lemma_rank_less(es, p, j);
                        } else {
                            lemma_rank_less(es, j, p);
                        }
                    }
                },
                None => {},
            }
        }
    }
}

/// The parent entry of entry `i`: the nearest element before it one level
/// up.
fn find_parent(outline: &Vec<OutlineEntry>, i: usize) -> (r: Option<usize>)
    requires
        i < outline@.len(),
    ensures
        match parent_of(outline_view(outline@), i as int) {
            Some(x) => r == Some(x as usize),
            None => r.is_none(),
        },
{
    let ghost es = outline_view(outline@);
    let d = outline[i].depth;
    proof {
        assert(es[i as int] == entry_view(outline@[i as int]));
    }
    let mut j: usize = i;
    while j > 0
        invariant
            j <= i,
            i < outline@.len(),
            es == outline_view(outline@),
            d == es[i as int].0,
            parent_before(es, i as int, i as int) == parent_before(es, i as int, j as int),
        decreases j,
    {
        j = j - 1;
        proof {
            assert(es[j as int] == entry_view(outline@[j as int]));
        }
        if outline[j].element.is_some() && d > 0 && outline[j].depth == d - 1 {
            return Some(j);
        }
    }
    None
}

/// The attribute map holding, for each name in `attrs`, its last value.
fn build_attributes(attrs: &Vec<(String, String)>) -> (m: StrMap<String>)
    ensures
        m.wf(),
        attrs_from(m@, pairs_view(attrs@)),
{
    let ghost list = pairs_view(attrs@);
    let mut m: StrMap<String> = StrMap::new();
    let mut t: usize = 0;
    while t < attrs.len()
        invariant
            t <= attrs@.len(),
            list == pairs_view(attrs@),
            m.wf(),
            attrs_from(m@, list.take(t as int)),
        decreases attrs@.len() - t,
    {
        let k = attrs[t].0.clone();
        let v = attrs[t].1.clone();
        m.insert(k, v);
        proof {
            assert(list.take(t + 1).drop_last() =~= list.take(t as int));
            assert(list[t as int] == (attrs@[t as int].0@, attrs@[t as int].1@));
        }
        t = t + 1;
    }
    proof {
        assert(list.take(attrs@.len() as int) =~= list);
    }
    m
}

/// `after` is `before` with `child_id` appended to the children of
/// `parent_id` (unless already there) and `parent_id` made its parent.
pub open spec fn appended(before: Document, after: Document, parent_id: usize, child_id: usize) -> bool {
    &&& after.nodes_map().dom() == before.nodes_map().dom()
    &&& forall|k: usize|
        k != parent_id && k != child_id && #[trigger] before.nodes_map().contains_key(k)
            ==> after.nodes_map()[k] == before.nodes_map()[k]
    &&& (before.nodes_map().contains_key(parent_id) ==> {
        &&& same_but_links(after.nodes_map()[parent_id], before.nodes_map()[parent_id])
        &&& after.nodes_map()[parent_id].children@ == (if before.nodes_map()[parent_id].children@.contains(
            child_id,
        ) {
            before.nodes_map()[parent_id].children@
        } else {
            before.nodes_map()[parent_id].children@.push(child_id)
        })
        &&& parent_id != child_id ==> after.nodes_map()[parent_id].parent == before.nodes_map()[parent_id].parent
    })
    &&& (before.nodes_map().contains_key(child_id) ==> {
        &&& same_but_links(after.nodes_map()[child_id], before.nodes_map()[child_id])
        &&& after.nodes_map()[child_id].parent == Some(parent_id)
        &&& parent_id != child_id ==> after.nodes_map()[child_id].children == before.nodes_map()[child_id].children
    })
    &&& after.next_id() == before.next_id()
    &&& after.root_id() == before.root_id()
    &&& after.source() == before.source()
    &&& after.pseudo() == before.pseudo()
}

/// The value of attribute `name` of node `id`.
pub open spec fn attr_value(d: Document, id: usize, name: Seq<char>) -> Option<String> {
    if d.nodes_map().contains_key(id) && d.nodes_map()[id].attributes@.contains_key(name) {
        Some(d.nodes_map()[id].attributes@[name])
    } else {
        None
    }
}

/// `after` is `before` with attribute `name` of element `id` set to
/// `value`.
pub open spec fn attribute_set(before: Document, after: Document, id: usize, name: Seq<char>, value: Seq<char>) -> bool {
    &&& before.nodes_map().contains_key(id)
    &&& before.nodes_map()[id].tag_name.is_some()
    &&& after.nodes_map().dom() == before.nodes_map().dom()
    &&& forall|k: usize| k != id && #[trigger] before.nodes_map().contains_key(k) ==> after.nodes_map()[k]
        == before.nodes_map()[k]
    &&& same_but_attributes(after.nodes_map()[id], before.nodes_map()[id])
    &&& after.nodes_map()[id].attributes@.dom() == before.nodes_map()[id].attributes@.dom().insert(name)
    &&& after.nodes_map()[id].attributes@[name]@ == value
    &&& forall|a: Seq<char>| a != name && #[trigger] before.nodes_map()[id].attributes@.contains_key(a)
        ==> after.nodes_map()[id].attributes@[a] == before.nodes_map()[id].attributes@[a]
}

/// Reading an attribute back after setting it yields the value written,
/// and every other attribute of every node reads as before.
pub proof fn lemma_attribute_read_after_write(
    before: Document,
    after: Document,
    id: usize,
    name: Seq<char>,
    value: Seq<char>,
    other_id: usize,
    other_name: Seq<char>,
)
    requires
        attribute_set(before, after, id, name, value),
    ensures
        attr_value(after, id, name).is_some(),
        attr_value(after, id, name).unwrap()@ == value,
        (other_id != id || other_name != name) ==> attr_value(after, other_id, other_name) == attr_value(
            before,
            other_id,
            other_name,
        ),
{
    if other_id == id && other_name != name {
        if before.nodes_map()[id].attributes@.contains_key(other_name) {
            assert(after.nodes_map()[id].attributes@.contains_key(other_name));
        }
    }
}

/// After appending, when both nodes exist, the child is listed among the
/// parent's children exactly once more than zero times and points back to
/// the parent; appending a child that is already listed leaves the list
/// unchanged.
pub proof fn lemma_append_links(before: Document, after: Document, parent_id: usize, child_id: usize)
    requires
        appended(before, after, parent_id, child_id),
        before.nodes_map().contains_key(parent_id),
        before.nodes_map().contains_key(child_id),
    ensures
        after.nodes_map()[parent_id].children@.contains(child_id),
        after.nodes_map()[child_id].parent == Some(parent_id),
        before.nodes_map()[parent_id].children@.contains(child_id) ==> after.nodes_map()[parent_id].children@
            == before.nodes_map()[parent_id].children@,
{
    if !before.nodes_map()[parent_id].children@.contains(child_id) {
        let s = before.nodes_map()[parent_id].children@;
        assert(s.push(child_id)[s.len() as int] == child_id);
    }
}

/// After removing, the child is no longer among the parent's children and
/// has no parent.
pub proof fn lemma_remove_unlinks(before: Document, after: Document, parent_id: usize, child_id: usize)
    requires
        removed_child(before, after, parent_id, child_id),
    ensures
        after.nodes_map().contains_key(parent_id) ==> !after.nodes_map()[parent_id].children@.contains(child_id),
        after.nodes_map().contains_key(child_id) ==> after.nodes_map()[child_id].parent.is_none(),
{
    if after.nodes_map().contains_key(parent_id) {
        lemma_without_excludes(before.nodes_map()[parent_id].children@, child_id);
    }
}

proof fn lemma_without_excludes(s: Seq<usize>, x: usize)
    ensures
        !without(s, x).contains(x),
        forall|y: usize| y != x ==> (without(s, x).contains(y) == s.contains(y)),
    decreases s.len(),
{
    if s.len() > 0 {
        lemma_without_excludes(s.drop_last(), x);
        assert forall|y: usize| y != x implies (without(s, x).contains(y) == s.contains(y)) by {
            assert(s =~= s.drop_last().push(s.last()));
        }
    }
}

} // verus!
