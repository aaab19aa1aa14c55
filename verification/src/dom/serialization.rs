//! Turning the document tree back into HTML text.

use vstd::prelude::*;
use crate::dom::document::{Document, selected};
use crate::dom::node::Node;
use crate::text::{chars_of, push_chars, push_str, string_from_chars};

verus! {

broadcast use vstd::std_specs::hash::group_hash_axioms;

/// ` name="value"` for each attribute, in the map's order.
pub open spec fn attrs_text(attrs: Seq<(String, String)>) -> Seq<char>
    decreases attrs.len(),
{
    if attrs.len() == 0 {
        Seq::empty()
    } else {
        attrs_text(attrs.drop_last()) + " "@ + attrs.last().0@ + "=\""@ + attrs.last().1@ + "\""@
    }
}

/// The HTML of the subtree of `id`, descending at most `fuel` levels.
pub open spec fn node_html(nodes: Map<usize, Node>, id: usize, fuel: nat) -> Seq<char>
    decreases fuel, 0nat,
{
    if fuel == 0 || !nodes.contains_key(id) {
        Seq::empty()
    } else {
        match nodes[id].tag_name {
            Some(tag) => "<"@ + tag@ + attrs_text(nodes[id].attributes.seq()) + ">"@ + kids_html(
                nodes,
                nodes[id].children@,
                (fuel - 1) as nat,
            ) + "</"@ + tag@ + ">"@,
            None => match nodes[id].text_content {
                Some(t) => t@,
                None => Seq::empty(),
            },
        }
    }
}

/// The HTML of the subtrees of `ids`, in order.
pub open spec fn kids_html(nodes: Map<usize, Node>, ids: Seq<usize>, fuel: nat) -> Seq<char>
    decreases fuel, ids.len(),
{
    if ids.len() == 0 {
        Seq::empty()
    } else {
        kids_html(nodes, ids.drop_last(), fuel) + node_html(nodes, ids.last(), fuel)
    }
}

fn write_node(dom: &Document, node_id: usize, fuel: usize, out: &mut Vec<char>)
    ensures
        final(out)@ == old(out)@ + node_html(dom.nodes_map(), node_id, fuel as nat),
    decreases fuel, 1nat,
{
    if fuel == 0 {
        return;
    }
    match dom.get_node(node_id) {
        None => {},
        Some(node) => {
            match &node.tag_name {
                Some(tag) => {
                    let tc = chars_of(tag.as_str());
                    push_str(out, "<");
                    push_chars(out, tc.as_slice());
                    let attrs = node.attributes.entries();
                    let mut a: usize = 0;
                    while a < attrs.len()
                        invariant
                            a <= attrs@.len(),
                            attrs@ == node.attributes.seq(),
                            out@ == old(out)@ + "<"@ + tag@ + attrs_text(attrs@.take(a as int)),
                        decreases attrs@.len() - a,
                    {
                        assert(attrs@.take(a + 1).drop_last() =~= attrs@.take(a as int));
                        push_str(out, " ");
                        let n = chars_of(attrs[a].0.as_str());
                        push_chars(out, n.as_slice());
                        push_str(out, "=\"");
                        let v = chars_of(attrs[a].1.as_str());
                        push_chars(out, v.as_slice());
                        push_str(out, "\"");
                        a = a + 1;
                        assert(out@ =~= old(out)@ + "<"@ + tag@ + attrs_text(attrs@.take(a as int)));
                    }
                    assert(attrs@.take(attrs@.len() as int) =~= attrs@);
                    push_str(out, ">");
                    let mut i: usize = 0;
                    while i < node.children.len()
                        invariant
                            i <= node.children@.len(),
                            fuel > 0,
                            dom.nodes_map().contains_key(node_id),
                            *node == dom.nodes_map()[node_id],
                            node.tag_name == Some(*tag),
                            out@ == old(out)@ + "<"@ + tag@ + attrs_text(node.attributes.seq()) + ">"@
                                + kids_html(dom.nodes_map(), node.children@.take(i as int), (fuel - 1) as nat),
                        decreases node.children@.len() - i,
                    {
                        assert(node.children@.take(i + 1).drop_last() =~= node.children@.take(i as int));
                        write_node(dom, node.children[i], fuel - 1, out);
                        i = i + 1;
                        assert(out@ =~= old(out)@ + "<"@ + tag@ + attrs_text(node.attributes.seq()) + ">"@
                            + kids_html(dom.nodes_map(), node.children@.take(i as int), (fuel - 1) as nat));
                    }
                    assert(node.children@.take(node.children@.len() as int) =~= node.children@);
                    push_str(out, "</");
                    push_chars(out, tc.as_slice());
                    push_str(out, ">");
                    assert(out@ =~= old(out)@ + node_html(dom.nodes_map(), node_id, fuel as nat));
                },
                None => match &node.text_content {
                    Some(t) => {
                        let tc = chars_of(t.as_str());
                        push_chars(out, tc.as_slice());
                    },
                    None => {},
                },
            }
        },
    }
}

/// Appends the HTML of the subtree of `node_id` to `html`: an element as
/// `<tag name="value"...>children</tag>`, a text node as its text.  The
/// walk descends at most as many levels as there are nodes.
pub fn serialize_node(dom: &Document, node_id: usize, html: &mut String)
    ensures
        final(html)@ == old(html)@ + node_html(dom.nodes_map(), node_id, dom.nodes_map().len()),
{
    let mut out = chars_of(html.as_str());
    let fuel = dom.node_count();
    write_node(dom, node_id, fuel, &mut out);
    *html = string_from_chars(out.as_slice());
}

/// The HTML of the whole document (empty when there is no root).
pub fn serialize_dom(dom: &Document) -> (r: String)
    ensures
        r@ == match dom.root_id() {
            Some(root) => node_html(dom.nodes_map(), root, dom.nodes_map().len()),
            None => Seq::empty(),
        },
{
    let mut html = String::new();
    match dom.root_node_id() {
        Some(root_id) => {
            serialize_node(dom, root_id, &mut html);
        },
        None => {},
    }
    html
}

/// The id of the `<html>` element: the first `html` match, else the root,
/// else `usize::MAX`.
pub fn find_html_element(dom: &Document, _start_node: usize) -> (r: usize)
    requires
        dom.wf(),
    ensures
        r == (if selected(*dom, "html"@).len() > 0 {
            selected(*dom, "html"@)[0]
        } else {
            match dom.root_id() {
                Some(root) => root,
                None => usize::MAX,
            }
        }),
{
    match dom.select_first_id("html") {
        Some(id) => id,
        None => match dom.root_node_id() {
            Some(root) => root,
            None => usize::MAX,
        },
    }
}

/// The HTML of a list of subtrees is the HTML of its first part followed by
/// that of the rest: children are written in the order of the list.
pub proof fn lemma_kids_html_concat(nodes: Map<usize, Node>, a: Seq<usize>, b: Seq<usize>, fuel: nat)
    ensures
        kids_html(nodes, a + b, fuel) == kids_html(nodes, a, fuel) + kids_html(nodes, b, fuel),
    decreases b.len(),
{
    if b.len() == 0 {
        assert(a + b =~= a);
        assert(kids_html(nodes, a, fuel) + Seq::<char>::empty() =~= kids_html(nodes, a, fuel));
    } else {
        assert((a + b).drop_last() =~= a + b.drop_last());
        assert((a + b).last() == b.last());
        lemma_kids_html_concat(nodes, a, b.drop_last(), fuel);
        assert(kids_html(nodes, a + b, fuel) =~= kids_html(nodes, a, fuel) + kids_html(nodes, b, fuel));
    }
}

/// One subtree on its own is written as that subtree.
pub proof fn lemma_kids_html_single(nodes: Map<usize, Node>, id: usize, fuel: nat)
    ensures
        kids_html(nodes, seq![id], fuel) == node_html(nodes, id, fuel),
{
    assert(seq![id].drop_last() =~= Seq::<usize>::empty());
    assert(seq![id].last() == id);
    assert(kids_html(nodes, Seq::<usize>::empty(), fuel) == Seq::<char>::empty());
    assert(kids_html(nodes, seq![id], fuel) == kids_html(nodes, seq![id].drop_last(), fuel) + node_html(nodes, id, fuel));
    assert(Seq::<char>::empty() + node_html(nodes, id, fuel) =~= node_html(nodes, id, fuel));
}

/// The HTML of an element is its opening tag with its attributes, then the
/// HTML of its first child, then that of the other children in order, then
/// its closing tag.
pub proof fn lemma_element_html(nodes: Map<usize, Node>, id: usize, fuel: nat)
    requires
        fuel > 0,
        nodes.contains_key(id),
        nodes[id].tag_name.is_some(),
        nodes[id].children@.len() > 0,
    ensures
        ({
            let n = nodes[id];
            let tag = n.tag_name.unwrap()@;
            node_html(nodes, id, fuel) == "<"@ + tag + attrs_text(n.attributes.seq()) + ">"@ + node_html(
                nodes,
                n.children@[0],
                (fuel - 1) as nat,
            ) + kids_html(nodes, n.children@.drop_first(), (fuel - 1) as nat) + "</"@ + tag + ">"@
        }),
{
    let kids = nodes[id].children@;
    let f = (fuel - 1) as nat;
    assert(kids =~= seq![kids[0]] + kids.drop_first());
    lemma_kids_html_concat(nodes, seq![kids[0]], kids.drop_first(), f);
    lemma_kids_html_single(nodes, kids[0], f);
    let tag = nodes[id].tag_name.unwrap()@;
    let open = "<"@ + tag + attrs_text(nodes[id].attributes.seq()) + ">"@;
    assert(node_html(nodes, id, fuel) =~= open + node_html(nodes, kids[0], f) + kids_html(nodes, kids.drop_first(), f)
        + "</"@ + tag + ">"@);
}

} // verus!
