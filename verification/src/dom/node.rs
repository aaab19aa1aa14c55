//! DOM nodes and element UI states.

use vstd::prelude::*;
use crate::css::selectors::PseudoElement;
use crate::strmap::StrMap;

verus! {

/// UI states of an element, as used by state pseudo-classes.  A set of
/// flags kept in the low six bits.
#[derive(Debug, Clone, Copy, PartialEq, Eq, Structural)]
pub struct ElementState {
    bits: u16,
}

impl ElementState {
    /// The flag bits.
    pub closed spec fn view(self) -> u16 {
        self.bits
    }

    /// No state set.
    pub fn empty() -> (r: Self)
        ensures
            r@ == 0,
    {
        ElementState { bits: 0 }
    }

    /// `:hover`.
    pub fn hover() -> (r: Self)
        ensures
            r@ == 1,
    {
        ElementState { bits: 1 }
    }

    /// `:focus`.
    pub fn focus() -> (r: Self)
        ensures
            r@ == 2,
    {
        ElementState { bits: 2 }
    }

    /// `:active`.
    pub fn active() -> (r: Self)
        ensures
            r@ == 4,
    {
        ElementState { bits: 4 }
    }

    /// `:disabled`.
    pub fn disabled() -> (r: Self)
        ensures
            r@ == 8,
    {
        ElementState { bits: 8 }
    }

    /// `:checked`.
    pub fn checked() -> (r: Self)
        ensures
            r@ == 16,
    {
        ElementState { bits: 16 }
    }

    /// `:indeterminate`.
    pub fn indeterminate() -> (r: Self)
        ensures
            r@ == 32,
    {
        ElementState { bits: 32 }
    }

    /// The raw flag bits.
    pub fn bits(&self) -> (r: u16)
        ensures
            r == self@,
    {
        self.bits
    }

    /// Whether every flag of `other` is set.
    pub fn contains(&self, other: ElementState) -> (r: bool)
        ensures
            r == (self@ & other@ == other@),
    {
        self.bits & other.bits == other.bits
    }

    /// Sets the flags of `other`.
    pub fn insert(&mut self, other: ElementState)
        ensures
            final(self)@ == old(self)@ | other@,
    {
        self.bits = self.bits | other.bits;
    }

    /// Clears the flags of `other`.
    pub fn remove(&mut self, other: ElementState)
        ensures
            final(self)@ == old(self)@ & !other@,
    {
        self.bits = self.bits & !other.bits;
    }
}

impl Default for ElementState {
    fn default() -> (r: Self)
        ensures
            r@ == 0,
    {
        ElementState { bits: 0 }
    }
}

/// After setting a flag it is present; after clearing it, it is absent.
pub proof fn lemma_insert_then_contains(state: u16, flag: u16)
    ensures
        (state | flag) & flag == flag,
        (state & !flag) & flag == 0,
{
    assert((state | flag) & flag == flag) by (bit_vector);
    assert((state & !flag) & flag == 0) by (bit_vector);
}

/// Attribute names mapped to values.
pub type AttributeMap = StrMap<String>;

/// A DOM node: an element (with a tag name) or a text node.
#[derive(Debug)]
pub struct Node {
    pub id: usize,
    pub tag_name: Option<String>,
    pub attributes: AttributeMap,
    pub text_content: Option<String>,
    pub children: Vec<usize>,
    pub parent: Option<usize>,
    pub element_state: ElementState,
    pub pseudo_element: Option<PseudoElement>,
}

impl Node {
    /// Whether the node is an element.
    pub fn is_element(&self) -> (r: bool)
        ensures
            r == self.tag_name.is_some(),
    {
        self.tag_name.is_some()
    }

    /// The tag name of an element.
    pub fn tag_name(&self) -> (r: Option<&str>)
        ensures
            r.is_some() == self.tag_name.is_some(),
            r.is_some() ==> r.unwrap()@ == self.tag_name.unwrap()@,
    {
        match &self.tag_name {
            Some(t) => Some(t.as_str()),
            None => None,
        }
    }

    /// A fresh element node without attributes, text or children.
    pub fn new_element(id: usize, tag_name: String, parent: Option<usize>) -> (r: Self)
        ensures
            r.id == id,
            r.tag_name == Some(tag_name),
            r.attributes.wf(),
            r.attributes@ == Map::<Seq<char>, String>::empty(),
            r.text_content.is_none(),
            r.children@ == Seq::<usize>::empty(),
            r.parent == parent,
            r.element_state@ == 0,
            r.pseudo_element.is_none(),
    {
        Node {
            id,
            tag_name: Some(tag_name),
            attributes: StrMap::new(),
            text_content: None,
            children: Vec::new(),
            parent,
            element_state: ElementState::empty(),
            pseudo_element: None,
        }
    }

    /// A fresh text node.
    pub fn new_text(id: usize, text: String, parent: Option<usize>) -> (r: Self)
        ensures
            r.id == id,
            r.tag_name.is_none(),
            r.attributes.wf(),
            r.attributes@ == Map::<Seq<char>, String>::empty(),
            r.text_content == Some(text),
            r.children@ == Seq::<usize>::empty(),
            r.parent == parent,
            r.element_state@ == 0,
            r.pseudo_element.is_none(),
    {
        Node {
            id,
            tag_name: None,
            attributes: StrMap::new(),
            text_content: Some(text),
            children: Vec::new(),
            parent,
            element_state: ElementState::empty(),
            pseudo_element: None,
        }
    }
}

} // verus!
