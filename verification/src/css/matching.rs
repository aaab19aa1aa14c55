//! What selector matching asks of a DOM element: its attributes, form and
//! link states, position among its siblings, classes and emptiness.

use vstd::prelude::*;
use crate::dom::document::Document;
use crate::dom::node::Node;
use crate::css::selectors::NonTSPseudoClass;
use crate::text::{chars_of, string_from_chars, equal_ignore_case, chars_are_ignore_case, chars_equal, eq_ignore_case, lower, to_lower, trim, trim_chars, is_ws, is_whitespace};

verus! {

/// The value of the first attribute in `s` whose name equals `name`,
/// ignoring ASCII case.
pub open spec fn attr_in(s: Seq<(String, String)>, name: Seq<char>) -> Option<Seq<char>>
    decreases s.len(),
{
    if s.len() == 0 {
        None
    } else if eq_ignore_case(s[0].0@, name) {
        Some(s[0].1@)
    } else {
        attr_in(s.drop_first(), name)
    }
}

/// The value of attribute `name` of `n` (name compared ignoring ASCII case).
pub open spec fn attr_of(n: Node, name: Seq<char>) -> Option<Seq<char>> {
    attr_in(n.attributes.seq(), name)
}

/// `n` has attribute `name` (ignoring ASCII case).
pub open spec fn has_attr(n: Node, name: Seq<char>) -> bool {
    attr_of(n, name).is_some()
}

/// `n` is an element with tag `t`, ignoring ASCII case.
pub open spec fn tag_is(n: Node, t: Seq<char>) -> bool {
    n.tag_name matches Some(x) && eq_ignore_case(x@, t)
}

/// `input`, `textarea`, `select`, `button` or `option`.
pub open spec fn form_control(n: Node) -> bool {
    tag_is(n, "input"@) || tag_is(n, "textarea"@) || tag_is(n, "select"@) || tag_is(n, "button"@) || tag_is(
        n,
        "option"@,
    )
}

/// An `option`, or an `input` of type `checkbox` or `radio`.
pub open spec fn checkable(n: Node) -> bool {
    if tag_is(n, "option"@) {
        true
    } else if tag_is(n, "input"@) {
        match attr_of(n, "type"@) {
            Some(v) => eq_ignore_case(v, "checkbox"@) || eq_ignore_case(v, "radio"@),
            None => false,
        }
    } else {
        false
    }
}

/// The state flag `flag` is set on `n`.
pub open spec fn state_has(n: Node, flag: u16) -> bool {
    n.element_state@ & flag == flag
}

/// Disabled by state or by the `disabled` attribute.
pub open spec fn disabled(n: Node) -> bool {
    state_has(n, 8) || has_attr(n, "disabled"@)
}

/// A selected `option`, or a checkable element checked by state or by the
/// `checked` attribute.
pub open spec fn checked(n: Node) -> bool {
    if tag_is(n, "option"@) {
        has_attr(n, "selected"@)
    } else {
        checkable(n) && (state_has(n, 16) || has_attr(n, "checked"@))
    }
}

/// An `a`, `area` or `link` with an `href`.
pub open spec fn link_element(n: Node) -> bool {
    has_attr(n, "href"@) && (tag_is(n, "a"@) || tag_is(n, "area"@) || tag_is(n, "link"@))
}

/// `aria-invalid` is `true` (any case).
pub open spec fn aria_invalid(n: Node) -> bool {
    match attr_of(n, "aria-invalid"@) {
        Some(v) => eq_ignore_case(v, "true"@),
        None => false,
    }
}

/// The value of attribute `name` of `node`, the name compared ignoring
/// ASCII case (the first such attribute).
pub fn attribute_value(node: &Node, name: &str) -> (r: Option<String>)
    ensures
        match r {
            Some(v) => attr_of(*node, name@) == Some(v@),
            None => attr_of(*node, name@).is_none(),
        },
{
    let entries = node.attributes.entries();
    let nc = chars_of(name);
    let mut i: usize = 0;
    assert(entries@.skip(0) =~= entries@);
    while i < entries.len()
        invariant
            i <= entries@.len(),
            entries@ == node.attributes.seq(),
            nc@ == name@,
            attr_of(*node, name@) == attr_in(entries@.skip(i as int), name@),
        decreases entries@.len() - i,
    {
        assert(entries@.skip(i as int).drop_first() =~= entries@.skip(i + 1));
        assert(entries@.skip(i as int)[0] == entries@[i as int]);
        let kc = chars_of(entries[i].0.as_str());
        if equal_ignore_case(kc.as_slice(), nc.as_slice()) {
            return Some(entries[i].1.clone());
        }
        i = i + 1;
    }
    assert(entries@.skip(i as int).len() == 0);
    None
}

/// Whether `node` has attribute `name` (ignoring ASCII case).
pub fn has_attribute(node: &Node, name: &str) -> (r: bool)
    ensures
        r == has_attr(*node, name@),
{
    attribute_value(node, name).is_some()
}

fn tag_matches(node: &Node, t: &str) -> (r: bool)
    ensures
        r == tag_is(*node, t@),
{
    match &node.tag_name {
        Some(x) => {
            let c = chars_of(x.as_str());
            chars_are_ignore_case(c.as_slice(), t)
        },
        None => false,
    }
}

/// Whether `node` is a form control.
pub fn is_form_control(node: &Node) -> (r: bool)
    ensures
        r == form_control(*node),
{
    tag_matches(node, "input") || tag_matches(node, "textarea") || tag_matches(node, "select") || tag_matches(
        node,
        "button",
    ) || tag_matches(node, "option")
}

/// Whether `node` can be checked.
pub fn is_checkable(node: &Node) -> (r: bool)
    ensures
        r == checkable(*node),
{
    if tag_matches(node, "option") {
        return true;
    }
    if tag_matches(node, "input") {
        match attribute_value(node, "type") {
            Some(v) => {
                let c = chars_of(v.as_str());
                return chars_are_ignore_case(c.as_slice(), "checkbox") || chars_are_ignore_case(c.as_slice(), "radio");
            },
            None => {},
        }
    }
    false
}

/// Whether `node` is disabled.
pub fn is_disabled(node: &Node) -> (r: bool)
    ensures
        r == disabled(*node),
{
    node.element_state.contains(crate::dom::node::ElementState::disabled()) || has_attribute(node, "disabled")
}

/// Whether `node` is checked.
pub fn is_checked(node: &Node) -> (r: bool)
    ensures
        r == checked(*node),
{
    if tag_matches(node, "option") {
        return has_attribute(node, "selected");
    }
    is_checkable(node) && (node.element_state.contains(crate::dom::node::ElementState::checked()) || has_attribute(
        node,
        "checked",
    ))
}

/// Whether `node` is a link.
pub fn is_link_element(node: &Node) -> (r: bool)
    ensures
        r == link_element(*node),
{
    if !has_attribute(node, "href") {
        return false;
    }
    tag_matches(node, "a") || tag_matches(node, "area") || tag_matches(node, "link")
}

/// Whether `node` shows a placeholder.
pub fn is_placeholder_shown(node: &Node) -> (r: bool)
    ensures
        r == (form_control(*node) && has_attr(*node, "placeholder"@)),
{
    is_form_control(node) && has_attribute(node, "placeholder")
}

/// Whether `node` is required.
pub fn is_required(node: &Node) -> (r: bool)
    ensures
        r == (form_control(*node) && has_attr(*node, "required"@)),
{
    is_form_control(node) && has_attribute(node, "required")
}

/// Whether `node` is read-only.
pub fn is_read_only(node: &Node) -> (r: bool)
    ensures
        r == (!form_control(*node) || has_attr(*node, "readonly"@) || disabled(*node)),
{
    !is_form_control(node) || has_attribute(node, "readonly") || is_disabled(node)
}

/// Whether `node` can be edited.
pub fn is_read_write(node: &Node) -> (r: bool)
    ensures
        r == (form_control(*node) && !has_attr(*node, "readonly"@) && !disabled(*node)),
{
    is_form_control(node) && !has_attribute(node, "readonly") && !is_disabled(node)
}

/// Whether `node` is marked invalid.
pub fn is_aria_invalid(node: &Node) -> (r: bool)
    ensures
        r == aria_invalid(*node),
{
    match attribute_value(node, "aria-invalid") {
        Some(v) => {
            let c = chars_of(v.as_str());
            chars_are_ignore_case(c.as_slice(), "true")
        },
        None => false,
    }
}


/// A sibling counted for a position: an element, of tag `filter` (ignoring
/// ASCII case) when one is given.
pub open spec fn counted(c: Node, filter: Option<Seq<char>>) -> bool {
    c.tag_name.is_some() && match filter {
        None => true,
        Some(t) => tag_is(c, t),
    }
}

/// Walking the children `kids`: the 1-based position of `me` among the
/// counted ones (if met) and how many are counted; `None` when a child is
/// not in the document.
pub open spec fn scan(nodes: Map<usize, Node>, kids: Seq<usize>, me: usize, filter: Option<Seq<char>>) -> Option<(Option<int>, int)>
    decreases kids.len(),
{
    if kids.len() == 0 {
        Some((None, 0))
    } else {
        match scan(nodes, kids.drop_last(), me, filter) {
            None => None,
            Some((cur, total)) => {
                let c = kids.last();
                if !nodes.contains_key(c) {
                    None
                } else if !counted(nodes[c], filter) {
                    Some((cur, total))
                } else {
                    Some((if c == me { Some(total + 1) } else { cur }, total + 1))
                }
            },
        }
    }
}

/// The position of `me` among its parent's counted children and their
/// number.
pub open spec fn sibling_pos(nodes: Map<usize, Node>, me: usize, filter: Option<Seq<char>>) -> Option<(int, int)> {
    if !nodes.contains_key(me) {
        None
    } else {
        match nodes[me].parent {
            None => None,
            Some(p) => if !nodes.contains_key(p) {
                None
            } else {
                match scan(nodes, nodes[p].children@, me, filter) {
                    Some((Some(i), t)) => Some((i, t)),
                    _ => None,
                }
            },
        }
    }
}

/// The position of `me` among the siblings of its type.
pub open spec fn type_pos(nodes: Map<usize, Node>, me: usize) -> Option<(int, int)> {
    if !nodes.contains_key(me) {
        None
    } else {
        match nodes[me].tag_name {
            Some(t) => sibling_pos(nodes, me, Some(lower(t@))),
            None => None,
        }
    }
}

/// A child that does not make its parent non-empty: missing, or text that
/// is blank (or absent).
pub open spec fn blank_child(nodes: Map<usize, Node>, c: usize) -> bool {
    if nodes.contains_key(c) {
        if nodes[c].tag_name.is_some() {
            false
        } else {
            match nodes[c].text_content {
                Some(t) => trim(t@).len() == 0,
                None => true,
            }
        }
    } else {
        true
    }
}

/// `:empty`: no element children and only blank text.
pub open spec fn empty_node(nodes: Map<usize, Node>, me: usize) -> bool {
    nodes.contains_key(me) ==> forall|i: int|
        0 <= i < nodes[me].children@.len() ==> #[trigger] blank_child(nodes, nodes[me].children@[i])
}

/// Whether element `me` matches pseudo-class `pc`.
pub open spec fn matches_pseudo_class(nodes: Map<usize, Node>, me: usize, pc: NonTSPseudoClass) -> bool {
    if !nodes.contains_key(me) {
        false
    } else {
        let n = nodes[me];
        match pc {
            NonTSPseudoClass::FirstChild => sibling_pos(nodes, me, None) matches Some((p, _)) && p == 1,
            NonTSPseudoClass::LastChild => sibling_pos(nodes, me, None) matches Some((p, t)) && p == t,
            NonTSPseudoClass::OnlyChild => sibling_pos(nodes, me, None) matches Some((_, t)) && t == 1,
            NonTSPseudoClass::FirstOfType => type_pos(nodes, me) matches Some((p, _)) && p == 1,
            NonTSPseudoClass::LastOfType => type_pos(nodes, me) matches Some((p, t)) && p == t,
            NonTSPseudoClass::Hover => state_has(n, 1),
            NonTSPseudoClass::Focus => state_has(n, 2),
            NonTSPseudoClass::Active => state_has(n, 4),
            NonTSPseudoClass::Disabled => disabled(n),
            NonTSPseudoClass::Enabled => form_control(n) && !disabled(n),
            NonTSPseudoClass::Checked => checked(n),
            NonTSPseudoClass::Indeterminate => state_has(n, 32),
            NonTSPseudoClass::Link => link_element(n),
            NonTSPseudoClass::AnyLink => link_element(n),
            NonTSPseudoClass::Visited => false,
            NonTSPseudoClass::ReadOnly => !form_control(n) || has_attr(n, "readonly"@) || disabled(n),
            NonTSPseudoClass::ReadWrite => form_control(n) && !has_attr(n, "readonly"@) && !disabled(n),
            NonTSPseudoClass::PlaceholderShown => form_control(n) && has_attr(n, "placeholder"@),
            NonTSPseudoClass::Valid => !aria_invalid(n),
            NonTSPseudoClass::Invalid => aria_invalid(n),
            NonTSPseudoClass::InRange => false,
            NonTSPseudoClass::OutOfRange => false,
            NonTSPseudoClass::Required => form_control(n) && has_attr(n, "required"@),
            NonTSPseudoClass::Optional => form_control(n) && !(form_control(n) && has_attr(n, "required"@)),
        }
    }
}

/// The whitespace-separated words of `s` (`str::split_whitespace`).
pub open spec fn words(s: Seq<char>) -> Seq<Seq<char>>
    decreases s.len(),
{
    if s.len() == 0 {
        Seq::empty()
    } else {
        let w = words(s.drop_last());
        let c = s.last();
        if is_ws(c) {
            w
        } else if s.len() >= 2 && !is_ws(s[s.len() - 2]) && w.len() > 0 {
            w.update(w.len() - 1, w.last().push(c))
        } else {
            w.push(seq![c])
        }
    }
}

/// `str::split_whitespace` on a character slice.
pub fn split_words(s: &[char]) -> (r: Vec<Vec<char>>)
    ensures
        r@.len() == words(s@).len(),
        forall|i: int| 0 <= i < r@.len() ==> (#[trigger] r@[i])@ == words(s@)[i],
{
    let mut done: Vec<Vec<char>> = Vec::new();
    let mut cur: Vec<char> = Vec::new();
    let mut in_word = false;
    let mut i: usize = 0;
    while i < s.len()
        invariant
            i <= s@.len(),
            in_word == (i > 0 && !is_ws(s@[i - 1])),
            in_word ==> words(s@.take(i as int)).len() > 0,
            done@.len() + (if in_word { 1int } else { 0 }) == words(s@.take(i as int)).len(),
            forall|k: int| 0 <= k < done@.len() ==> (#[trigger] done@[k])@ == words(s@.take(i as int))[k],
            in_word ==> cur@ == words(s@.take(i as int)).last(),
        decreases s@.len() - i,
    {
        proof {
            assert(s@.take(i + 1).drop_last() =~= s@.take(i as int));
            assert(s@.take(i + 1).last() == s@[i as int]);
            if i > 0 {
                assert(s@.take(i + 1)[i - 1] == s@[i - 1]);
            }
        }
        let c = s[i];
        if is_whitespace(c) {
            if in_word {
                done.push(cur);
                cur = Vec::new();
            }
            in_word = false;
        } else {
            if in_word {
                cur.push(c);
            } else {
                cur = Vec::new();
                cur.push(c);
                in_word = true;
            }
        }
        i = i + 1;
    }
    if in_word {
        done.push(cur);
    }
    assert(s@.take(s@.len() as int) =~= s@);
    done
}

/// Whether `name` is one of the words of `classes`, compared exactly or
/// ignoring ASCII case.
pub open spec fn has_word(classes: Seq<char>, name: Seq<char>, case_sensitive: bool) -> bool {
    exists|i: int| 0 <= i < words(classes).len() && #[trigger] word_matches(words(classes)[i], name, case_sensitive)
}

/// `w` equals `name`, exactly or ignoring ASCII case.
pub open spec fn word_matches(w: Seq<char>, name: Seq<char>, case_sensitive: bool) -> bool {
    if case_sensitive {
        w == name
    } else {
        eq_ignore_case(w, name)
    }
}

/// The tag of `id`, if it is an element of the document.
pub open spec fn tag_text(nodes: Map<usize, Node>, id: usize) -> Option<Seq<char>> {
    if nodes.contains_key(id) {
        match nodes[id].tag_name {
            Some(t) => Some(t@),
            None => None,
        }
    } else {
        None
    }
}

/// `c` is an element of the document.
pub open spec fn is_element_id(nodes: Map<usize, Node>, c: usize) -> bool {
    nodes.contains_key(c) && nodes[c].tag_name.is_some()
}

/// The first element among `s`.
pub open spec fn first_element_in(nodes: Map<usize, Node>, s: Seq<usize>) -> Option<usize>
    decreases s.len(),
{
    if s.len() == 0 {
        None
    } else if is_element_id(nodes, s[0]) {
        Some(s[0])
    } else {
        first_element_in(nodes, s.drop_first())
    }
}

/// The last element among `s`.
pub open spec fn last_element_in(nodes: Map<usize, Node>, s: Seq<usize>) -> Option<usize>
    decreases s.len(),
{
    if s.len() == 0 {
        None
    } else if is_element_id(nodes, s.last()) {
        Some(s.last())
    } else {
        last_element_in(nodes, s.drop_last())
    }
}

/// Position of the first `x` in `s`.
pub open spec fn index_of(s: Seq<usize>, x: usize) -> Option<int>
    decreases s.len(),
{
    if s.len() == 0 {
        None
    } else if s[0] == x {
        Some(0)
    } else {
        match index_of(s.drop_first(), x) {
            Some(k) => Some(k + 1),
            None => None,
        }
    }
}

/// The children of the parent of `me` and the position of `me` among them.
pub open spec fn place(nodes: Map<usize, Node>, me: usize) -> Option<(Seq<usize>, int)> {
    if !nodes.contains_key(me) {
        None
    } else {
        match nodes[me].parent {
            None => None,
            Some(p) => if !nodes.contains_key(p) {
                None
            } else {
                match index_of(nodes[p].children@, me) {
                    Some(k) => Some((nodes[p].children@, k)),
                    None => None,
                }
            },
        }
    }
}

/// The element before `me` among its siblings.
pub open spec fn prev_sibling(nodes: Map<usize, Node>, me: usize) -> Option<usize> {
    match place(nodes, me) {
        Some((kids, k)) => last_element_in(nodes, kids.take(k)),
        None => None,
    }
}

/// The element after `me` among its siblings.
pub open spec fn next_sibling(nodes: Map<usize, Node>, me: usize) -> Option<usize> {
    match place(nodes, me) {
        Some((kids, k)) => first_element_in(nodes, kids.skip(k + 1)),
        None => None,
    }
}

/// The first element child of `me`.
pub open spec fn first_child_element(nodes: Map<usize, Node>, me: usize) -> Option<usize> {
    if nodes.contains_key(me) {
        first_element_in(nodes, nodes[me].children@)
    } else {
        None
    }
}

/// The parent of `me` when it is an element.
pub open spec fn parent_element_of(nodes: Map<usize, Node>, me: usize) -> Option<usize> {
    if nodes.contains_key(me) {
        match nodes[me].parent {
            Some(p) => if is_element_id(nodes, p) {
                Some(p)
            } else {
                None
            },
            None => None,
        }
    } else {
        None
    }
}

fn position_of(s: &Vec<usize>, x: usize) -> (r: Option<usize>)
    ensures
        match r {
            Some(k) => index_of(s@, x) == Some(k as int) && k < s@.len(),
            None => index_of(s@, x).is_none(),
        },
{
    let mut i: usize = 0;
    assert(s@.skip(0) =~= s@);
    while i < s.len()
        invariant
            i <= s@.len(),
            index_of(s@, x) == (match index_of(s@.skip(i as int), x) {
                Some(k) => Some(k + i),
                None => None,
            }),
        decreases s@.len() - i,
    {
        assert(s@.skip(i as int).drop_first() =~= s@.skip(i + 1));
        if s[i] == x {
            return Some(i);
        }
        i = i + 1;
    }
    None
}

fn first_element_from(document: &Document, s: &Vec<usize>, from: usize) -> (r: Option<usize>)
    requires
        from <= s@.len(),
    ensures
        r == first_element_in(document.nodes_map(), s@.skip(from as int)),
{
    let mut i: usize = from;
    while i < s.len()
        invariant
            from <= i <= s@.len(),
            first_element_in(document.nodes_map(), s@.skip(from as int)) == first_element_in(document.nodes_map(), s@.skip(i as int)),
        decreases s@.len() - i,
    {
        assert(s@.skip(i as int).drop_first() =~= s@.skip(i + 1));
        assert(s@.skip(i as int)[0] == s@[i as int]);
        match document.get_node(s[i]) {
            Some(n) => if n.is_element() {
                return Some(s[i]);
            },
            None => {},
        }
        i = i + 1;
    }
    None
}

fn last_element_before(document: &Document, s: &Vec<usize>, to: usize) -> (r: Option<usize>)
    requires
        to <= s@.len(),
    ensures
        r == last_element_in(document.nodes_map(), s@.take(to as int)),
{
    let mut i: usize = to;
    while i > 0
        invariant
            i <= to,
            to <= s@.len(),
            last_element_in(document.nodes_map(), s@.take(to as int)) == last_element_in(document.nodes_map(), s@.take(i as int)),
        decreases i,
    {
        assert(s@.take(i as int).drop_last() =~= s@.take(i - 1));
        assert(s@.take(i as int).last() == s@[i - 1]);
        match document.get_node(s[i - 1]) {
            Some(n) => if n.is_element() {
                return Some(s[i - 1]);
            },
            None => {},
        }
        i = i - 1;
    }
    None
}

/// A DOM element seen by the selector engine.
#[derive(Clone, Copy)]
pub struct NodeAdapter<'a> {
    document: &'a Document,
    node_id: usize,
}

impl<'a> NodeAdapter<'a> {
    /// The document.
    pub closed spec fn doc(self) -> Document {
        *self.document
    }

    /// The element's id.
    pub closed spec fn id(self) -> usize {
        self.node_id
    }

    /// The adapter for `node_id`, when it is an element of `document`.
    pub fn new(document: &'a Document, node_id: usize) -> (r: Option<Self>)
        ensures
            match r {
                Some(a) => a.doc() == *document && a.id() == node_id,
                None => true,
            },
            r.is_some() == (document.nodes_map().contains_key(node_id)
                && document.nodes_map()[node_id].tag_name.is_some()),
    {
        match document.get_node(node_id) {
            Some(n) => if n.is_element() {
                Some(NodeAdapter { document, node_id })
            } else {
                None
            },
            None => None,
        }
    }

    /// The element's id.
    pub fn node_id(&self) -> (r: usize)
        ensures
            r == self.id(),
    {
        self.node_id
    }

    /// The element's node.
    pub fn node(&self) -> (r: Option<&Node>)
        ensures
            r == (if self.doc().nodes_map().contains_key(self.id()) {
                Some(&self.doc().nodes_map()[self.id()])
            } else {
                None
            }),
    {
        self.document.get_node(self.node_id)
    }

    fn sibling_position(&self, filter: Option<&[char]>) -> (r: Option<(usize, usize)>)
        ensures
            match r {
                Some((p, t)) => sibling_pos(self.doc().nodes_map(), self.id(), match filter {
                    Some(f) => Some(f@),
                    None => None,
                }) == Some((p as int, t as int)),
                None => sibling_pos(self.doc().nodes_map(), self.id(), match filter {
                    Some(f) => Some(f@),
                    None => None,
                }).is_none(),
            },
    {
        let ghost nodes = self.doc().nodes_map();
        let ghost fs = match filter {
            Some(f) => Some(f@),
            None => None,
        };
        let node = match self.node() {
            Some(n) => n,
            None => return None,
        };
        let parent_id = match node.parent {
            Some(p) => p,
            None => return None,
        };
        let parent = match self.document.get_node(parent_id) {
            Some(p) => p,
            None => return None,
        };
        let mut current: Option<usize> = None;
        let mut total: usize = 0;
        let mut i: usize = 0;
        while i < parent.children.len()
            invariant
                i <= parent.children@.len(),
                total <= i,
                nodes == self.doc().nodes_map(),
                fs == (match filter {
                    Some(f) => Some(f@),
                    None => None,
                }),
                nodes.contains_key(self.id()),
                *node == nodes[self.id()],
                node.parent == Some(parent_id),
                nodes.contains_key(parent_id),
                *parent == nodes[parent_id],
                scan(nodes, parent.children@.take(i as int), self.id(), fs) == Some((
                    match current {
                        Some(c) => Some(c as int),
                        None => None::<int>,
                    },
                    total as int,
                )),
            decreases parent.children@.len() - i,
        {
            assert(parent.children@.take(i + 1).drop_last() =~= parent.children@.take(i as int));
            let child_id = parent.children[i];
            let child = match self.document.get_node(child_id) {
                Some(c) => c,
                None => {
                    proof {
                        lemma_scan_stays_none(nodes, parent.children@, i as int + 1, self.id(), fs);
                    }
                    return None;
                },
            };
            let counts = match &child.tag_name {
                None => false,
                Some(t) => match filter {
                    None => true,
                    Some(f) => {
                        let tc = chars_of(t.as_str());
                        equal_ignore_case(tc.as_slice(), f)
                    },
                },
            };
            if counts {
                total = total + 1;
                if child_id == self.node_id {
                    current = Some(total);
                }
            }
            i = i + 1;
        }
        assert(parent.children@.take(parent.children@.len() as int) =~= parent.children@);
        match current {
            Some(c) => Some((c, total)),
            None => None,
        }
    }

    /// Position among the element siblings and their number.
    pub fn structural_position(&self) -> (r: Option<(usize, usize)>)
        ensures
            match r {
                Some((p, t)) => sibling_pos(self.doc().nodes_map(), self.id(), None) == Some((p as int, t as int)),
                None => sibling_pos(self.doc().nodes_map(), self.id(), None).is_none(),
            },
    {
        self.sibling_position(None)
    }

    /// Position among the siblings of the same tag and their number.
    pub fn type_position(&self) -> (r: Option<(usize, usize)>)
        ensures
            match r {
                Some((p, t)) => type_pos(self.doc().nodes_map(), self.id()) == Some((p as int, t as int)),
                None => type_pos(self.doc().nodes_map(), self.id()).is_none(),
            },
    {
        let node = match self.node() {
            Some(n) => n,
            None => return None,
        };
        let tag = match &node.tag_name {
            Some(t) => t,
            None => return None,
        };
        let tc = chars_of(tag.as_str());
        let lowered = to_lower(tc.as_slice());
        self.sibling_position(Some(lowered.as_slice()))
    }

    /// Whether the element matches pseudo-class `pc`.
    pub fn match_non_ts_pseudo_class(&self, pc: &NonTSPseudoClass) -> (r: bool)
        ensures
            r == matches_pseudo_class(self.doc().nodes_map(), self.id(), *pc),
    {
        let node = match self.node() {
            Some(n) => n,
            None => return false,
        };
        match pc {
            NonTSPseudoClass::FirstChild => match self.structural_position() {
                Some((p, _)) => p == 1,
                None => false,
            },
            NonTSPseudoClass::LastChild => match self.structural_position() {
                Some((p, t)) => p == t,
                None => false,
            },
            NonTSPseudoClass::OnlyChild => match self.structural_position() {
                Some((_, t)) => t == 1,
                None => false,
            },
            NonTSPseudoClass::FirstOfType => match self.type_position() {
                Some((p, _)) => p == 1,
                None => false,
            },
            NonTSPseudoClass::LastOfType => match self.type_position() {
                Some((p, t)) => p == t,
                None => false,
            },
            NonTSPseudoClass::Hover => node.element_state.contains(crate::dom::node::ElementState::hover()),
            NonTSPseudoClass::Focus => node.element_state.contains(crate::dom::node::ElementState::focus()),
            NonTSPseudoClass::Active => node.element_state.contains(crate::dom::node::ElementState::active()),
            NonTSPseudoClass::Disabled => is_disabled(node),
            NonTSPseudoClass::Enabled => is_form_control(node) && !is_disabled(node),
            NonTSPseudoClass::Checked => is_checked(node),
            NonTSPseudoClass::Indeterminate => node.element_state.contains(
                crate::dom::node::ElementState::indeterminate(),
            ),
            NonTSPseudoClass::Link | NonTSPseudoClass::AnyLink => is_link_element(node),
            NonTSPseudoClass::Visited => false,
            NonTSPseudoClass::ReadOnly => is_read_only(node),
            NonTSPseudoClass::ReadWrite => is_read_write(node),
            NonTSPseudoClass::PlaceholderShown => is_placeholder_shown(node),
            NonTSPseudoClass::Valid => !is_aria_invalid(node),
            NonTSPseudoClass::Invalid => is_aria_invalid(node),
            NonTSPseudoClass::InRange => false,
            NonTSPseudoClass::OutOfRange => false,
            NonTSPseudoClass::Required => is_required(node),
            NonTSPseudoClass::Optional => is_form_control(node) && !is_required(node),
        }
    }

    /// `:empty`: no element children, and any text children blank.
    pub fn is_empty(&self) -> (r: bool)
        ensures
            r == empty_node(self.doc().nodes_map(), self.id()),
    {
        let ghost nodes = self.doc().nodes_map();
        let node = match self.node() {
            Some(n) => n,
            None => return true,
        };
        let mut i: usize = 0;
        while i < node.children.len()
            invariant
                i <= node.children@.len(),
                nodes == self.doc().nodes_map(),
                nodes.contains_key(self.id()),
                *node == nodes[self.id()],
                forall|k: int| 0 <= k < i ==> #[trigger] blank_child(nodes, node.children@[k]),
            decreases node.children@.len() - i,
        {
            let c = node.children[i];
            match self.document.get_node(c) {
                Some(child) => {
                    if child.is_element() {
                        assert(!blank_child(nodes, node.children@[i as int]));
                        return false;
                    }
                    match &child.text_content {
                        Some(t) => {
                            let tc = chars_of(t.as_str());
                            let tr = trim_chars(tc.as_slice());
                            if tr.len() > 0 {
                                assert(!blank_child(nodes, node.children@[i as int]));
                                return false;
                            }
                        },
                        None => {},
                    }
                },
                None => {},
            }
            i = i + 1;
        }
        true
    }

    /// Whether the element is the document's root.
    pub fn is_root(&self) -> (r: bool)
        ensures
            r == (self.doc().root_id() == Some(self.id())),
    {
        self.document.root_node_id() == Some(self.node_id)
    }

    /// Whether the element's tag is `local_name` (ignoring ASCII case).
    pub fn has_local_name(&self, local_name: &str) -> (r: bool)
        ensures
            r == (self.doc().nodes_map().contains_key(self.id()) && tag_is(
                self.doc().nodes_map()[self.id()],
                local_name@,
            )),
    {
        match self.node() {
            Some(n) => tag_matches(n, local_name),
            None => false,
        }
    }

    /// Whether the element's `class` attribute lists `name`.
    pub fn has_class(&self, name: &str, case_sensitive: bool) -> (r: bool)
        requires
            self.doc().wf(),
        ensures
            r == (self.doc().nodes_map().contains_key(self.id())
                && self.doc().nodes_map()[self.id()].attributes@.contains_key("class"@)
                && has_word(self.doc().nodes_map()[self.id()].attributes@["class"@]@, name@, case_sensitive)),
    {
        let node = match self.node() {
            Some(n) => n,
            None => return false,
        };
        proof {
            self.doc().lemma_wf();
        }
        let classes = match node.attributes.get_str("class") {
            Some(c) => c,
            None => return false,
        };
        let cc = chars_of(classes.as_str());
        let ws = split_words(cc.as_slice());
        let nc = chars_of(name);
        let mut i: usize = 0;
        while i < ws.len()
            invariant
                i <= ws@.len(),
                self.doc().nodes_map().contains_key(self.id()),
                *node == self.doc().nodes_map()[self.id()],
                node.attributes@.contains_key("class"@),
                node.attributes@["class"@] == *classes,
                ws@.len() == words(classes@).len(),
                forall|k: int| 0 <= k < ws@.len() ==> (#[trigger] ws@[k])@ == words(classes@)[k],
                nc@ == name@,
                forall|k: int| 0 <= k < i ==> !#[trigger] word_matches(words(classes@)[k], name@, case_sensitive),
            decreases ws@.len() - i,
        {
            let hit = if case_sensitive {
                chars_equal(ws[i].as_slice(), nc.as_slice())
            } else {
                equal_ignore_case(ws[i].as_slice(), nc.as_slice())
            };
            if hit {
                assert(ws@[i as int]@ == words(classes@)[i as int]);
                assert(word_matches(words(classes@)[i as int], name@, case_sensitive));
                return true;
            }
            i = i + 1;
        }
        false
    }

    /// Whether the element's `id` attribute is `id`, compared exactly or
    /// ignoring ASCII case.
    pub fn has_id(&self, id: &str, case_sensitive: bool) -> (r: bool)
        requires
            self.doc().wf(),
        ensures
            r == (self.doc().nodes_map().contains_key(self.id())
                && self.doc().nodes_map()[self.id()].attributes@.contains_key("id"@)
                && if case_sensitive {
                    self.doc().nodes_map()[self.id()].attributes@["id"@]@ == id@
                } else {
                    eq_ignore_case(self.doc().nodes_map()[self.id()].attributes@["id"@]@, id@)
                }),
    {
        let node = match self.node() {
            Some(n) => n,
            None => return false,
        };
        proof {
            self.doc().lemma_wf();
        }
        match node.attributes.get_str("id") {
            Some(v) => {
                let vc = chars_of(v.as_str());
                let ic = chars_of(id);
                if case_sensitive {
                    chars_equal(vc.as_slice(), ic.as_slice())
                } else {
                    equal_ignore_case(vc.as_slice(), ic.as_slice())
                }
            },
            None => false,
        }
    }

    /// The parent element.
    pub fn parent_element(&self) -> (r: Option<Self>)
        ensures
            match r {
                Some(a) => a.doc() == self.doc() && parent_element_of(self.doc().nodes_map(), self.id()) == Some(a.id()),
                None => parent_element_of(self.doc().nodes_map(), self.id()).is_none(),
            },
    {
        let node = match self.node() {
            Some(n) => n,
            None => return None,
        };
        match node.parent {
            Some(p) => NodeAdapter::new(self.document, p),
            None => None,
        }
    }

    /// The element before this one among its siblings.
    pub fn prev_sibling_element(&self) -> (r: Option<Self>)
        ensures
            match r {
                Some(a) => a.doc() == self.doc() && prev_sibling(self.doc().nodes_map(), self.id()) == Some(a.id()),
                None => prev_sibling(self.doc().nodes_map(), self.id()).is_none(),
            },
    {
        let node = match self.node() {
            Some(n) => n,
            None => return None,
        };
        let p = match node.parent {
            Some(p) => p,
            None => return None,
        };
        let parent = match self.document.get_node(p) {
            Some(n) => n,
            None => return None,
        };
        let k = match position_of(&parent.children, self.node_id) {
            Some(k) => k,
            None => return None,
        };
        match last_element_before(self.document, &parent.children, k) {
            Some(id) => Some(NodeAdapter { document: self.document, node_id: id }),
            None => None,
        }
    }

    /// The element after this one among its siblings.
    pub fn next_sibling_element(&self) -> (r: Option<Self>)
        ensures
            match r {
                Some(a) => a.doc() == self.doc() && next_sibling(self.doc().nodes_map(), self.id()) == Some(a.id()),
                None => next_sibling(self.doc().nodes_map(), self.id()).is_none(),
            },
    {
        let node = match self.node() {
            Some(n) => n,
            None => return None,
        };
        let p = match node.parent {
            Some(p) => p,
            None => return None,
        };
        let parent = match self.document.get_node(p) {
            Some(n) => n,
            None => return None,
        };
        let k = match position_of(&parent.children, self.node_id) {
            Some(k) => k,
            None => return None,
        };
        let n = parent.children.len();
        assert(k < n);
        match first_element_from(self.document, &parent.children, k + 1) {
            Some(id) => Some(NodeAdapter { document: self.document, node_id: id }),
            None => None,
        }
    }

    /// The first element child.
    pub fn first_element_child(&self) -> (r: Option<Self>)
        ensures
            match r {
                Some(a) => a.doc() == self.doc() && first_child_element(self.doc().nodes_map(), self.id()) == Some(a.id()),
                None => first_child_element(self.doc().nodes_map(), self.id()).is_none(),
            },
    {
        let node = match self.node() {
            Some(n) => n,
            None => return None,
        };
        assert(node.children@.skip(0) =~= node.children@);
        match first_element_from(self.document, &node.children, 0) {
            Some(id) => Some(NodeAdapter { document: self.document, node_id: id }),
            None => None,
        }
    }

    /// Whether both elements have the same tag (exactly).
    pub fn is_same_type(&self, other: &Self) -> (r: bool)
        ensures
            r == (tag_text(self.doc().nodes_map(), self.id()) == tag_text(other.doc().nodes_map(), other.id())),
    {
        let a = match self.node() {
            Some(n) => match &n.tag_name {
                Some(t) => Some(chars_of(t.as_str())),
                None => None,
            },
            None => None,
        };
        let b = match other.node() {
            Some(n) => match &n.tag_name {
                Some(t) => Some(chars_of(t.as_str())),
                None => None,
            },
            None => None,
        };
        match (a, b) {
            (Some(x), Some(y)) => chars_equal(x.as_slice(), y.as_slice()),
            (None, None) => true,
            _ => false,
        }
    }

    /// Whether the element is in namespace `ns`: the empty namespace or
    /// XHTML (any case).
    pub fn has_namespace(&self, ns: &str) -> (r: bool)
        ensures
            r == (ns@.len() == 0 || eq_ignore_case(ns@, "http://www.w3.org/1999/xhtml"@)),
    {
        let c = chars_of(ns);
        c.len() == 0 || chars_are_ignore_case(c.as_slice(), "http://www.w3.org/1999/xhtml")
    }
}

proof fn lemma_scan_stays_none(nodes: Map<usize, Node>, kids: Seq<usize>, i: int, me: usize, filter: Option<Seq<char>>)
    requires
        0 < i <= kids.len(),
        scan(nodes, kids.take(i), me, filter).is_none(),
    ensures
        scan(nodes, kids, me, filter).is_none(),
    decreases kids.len() - i,
{
    if i < kids.len() {
        assert(kids.take(i + 1).drop_last() =~= kids.take(i));
        lemma_scan_stays_none(nodes, kids, i + 1, me, filter);
    } else {
        assert(kids.take(i) =~= kids);
    }
}


/// `:only-child` holds exactly when both `:first-child` and `:last-child`
/// hold.
pub proof fn lemma_only_child_is_first_and_last(nodes: Map<usize, Node>, me: usize)
    ensures
        matches_pseudo_class(nodes, me, NonTSPseudoClass::OnlyChild) == (matches_pseudo_class(
            nodes,
            me,
            NonTSPseudoClass::FirstChild,
        ) && matches_pseudo_class(nodes, me, NonTSPseudoClass::LastChild)),
{
    if nodes.contains_key(me) {
        match sibling_pos(nodes, me, None) {
            Some((p, t)) => {
                lemma_position_bounds(nodes, me);
            },
            None => {},
        }
    }
}

/// A position found among siblings lies between one and their number.
pub proof fn lemma_position_bounds(nodes: Map<usize, Node>, me: usize)
    ensures
        sibling_pos(nodes, me, None) matches Some((p, t)) ==> 1 <= p <= t,
{
    if nodes.contains_key(me) {
        match nodes[me].parent {
            Some(par) => if nodes.contains_key(par) {
                lemma_scan_bounds(nodes, nodes[par].children@, me, None);
            },
            None => {},
        }
    }
}

proof fn lemma_scan_bounds(nodes: Map<usize, Node>, kids: Seq<usize>, me: usize, filter: Option<Seq<char>>)
    ensures
        scan(nodes, kids, me, filter) matches Some((cur, t)) ==> t >= 0 && (cur matches Some(p) ==> 1 <= p <= t),
    decreases kids.len(),
{
    if kids.len() > 0 {
        lemma_scan_bounds(nodes, kids.drop_last(), me, filter);
    }
}

} // verus!
