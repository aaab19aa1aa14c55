//! The developer tools panel: console, DOM inspector and cached statistics.

use vstd::prelude::*;
use crate::text::{chars_of, push_chars, push_str, string_from_chars, text_less, text_lt, lemma_text_lt_total, lemma_text_lt_trans, trim, trim_chars, slice_chars, dec, decimal};
use crate::strmap::{pair_views, is_sorted_listing, sorted_listing, lemma_is_sorted_listing};
use crate::dom::node::Node;
use crate::dom::document::Document;
use std::collections::HashMap;
use crate::network::NetworkLogEntry;
use crate::dom::serialization::{serialize_dom, node_html};

verus! {

broadcast use vstd::std_specs::hash::group_hash_axioms;

/// A line of the console.
#[derive(Debug, Clone)]
pub enum ConsoleEntry {
    /// System information.
    Info(String),
    /// A command typed by the user.
    Command(String),
    /// The value a command evaluated to.
    Result(String),
    /// An error raised by a command.
    Error(String),
}

/// The marker shown before each kind of console line.
pub open spec fn entry_prefix(e: ConsoleEntry) -> Seq<char> {
    match e {
        ConsoleEntry::Info(_) => "\u{2248}"@,
        ConsoleEntry::Command(_) => ">"@,
        ConsoleEntry::Result(_) => "<"@,
        ConsoleEntry::Error(_) => "!"@,
    }
}

/// The text of a console line.
pub open spec fn entry_message(e: ConsoleEntry) -> Seq<char> {
    match e {
        ConsoleEntry::Info(b) => b@,
        ConsoleEntry::Command(b) => b@,
        ConsoleEntry::Result(b) => b@,
        ConsoleEntry::Error(b) => b@,
    }
}

impl ConsoleEntry {
    /// The marker shown before this line.
    pub fn prefix(&self) -> (r: &'static str)
        ensures
            r@ == entry_prefix(*self),
    {
        match self {
            ConsoleEntry::Info(_) => "\u{2248}",
            ConsoleEntry::Command(_) => ">",
            ConsoleEntry::Result(_) => "<",
            ConsoleEntry::Error(_) => "!",
        }
    }

    /// The text of this line.
    pub fn message(&self) -> (r: &str)
        ensures
            r@ == entry_message(*self),
    {
        match self {
            ConsoleEntry::Info(body) => body.as_str(),
            ConsoleEntry::Command(body) => body.as_str(),
            ConsoleEntry::Result(body) => body.as_str(),
            ConsoleEntry::Error(body) => body.as_str(),
        }
    }

    /// The line as shown: marker, space, text.
    pub fn formatted_text(&self) -> (r: String)
        ensures
            r@ == entry_prefix(*self) + " "@ + entry_message(*self),
    {
        let mut v: Vec<char> = Vec::new();
        push_str(&mut v, self.prefix());
        push_str(&mut v, " ");
        push_str(&mut v, self.message());
        string_from_chars(v.as_slice())
    }
}

/// The tabs of the panel.
#[derive(Debug, Clone, Copy, PartialEq, Eq, Structural)]
pub enum DevToolsTab {
    /// DOM tree.
    Elements,
    /// JavaScript console.
    Console,
    /// Network requests.
    Network,
    /// Performance figures.
    Performance,
}

/// The display name of a panel tab.
pub open spec fn tab_name(t: DevToolsTab) -> Seq<char> {
    match t {
        DevToolsTab::Elements => "Elements"@,
        DevToolsTab::Console => "Console"@,
        DevToolsTab::Network => "Network"@,
        DevToolsTab::Performance => "Performance"@,
    }
}

impl DevToolsTab {
    /// All panel tabs, in display order.
    pub fn all() -> (r: Vec<DevToolsTab>)
        ensures
            r@ == seq![
                DevToolsTab::Elements,
                DevToolsTab::Console,
                DevToolsTab::Network,
                DevToolsTab::Performance,
            ],
    {
        let mut r: Vec<DevToolsTab> = Vec::new();
        r.push(DevToolsTab::Elements);
        r.push(DevToolsTab::Console);
        r.push(DevToolsTab::Network);
        r.push(DevToolsTab::Performance);
        assert(r@ =~= seq![
            DevToolsTab::Elements,
            DevToolsTab::Console,
            DevToolsTab::Network,
            DevToolsTab::Performance,
        ]);
        r
    }

    /// The display name of this tab.
    pub fn name(&self) -> (r: &'static str)
        ensures
            r@ == tab_name(*self),
    {
        match self {
            DevToolsTab::Elements => "Elements",
            DevToolsTab::Console => "Console",
            DevToolsTab::Network => "Network",
            DevToolsTab::Performance => "Performance",
        }
    }
}


/// Where `key` goes in the key-sorted list `r`, none of whose keys equals it.
fn insert_position(r: &Vec<(String, String)>, key: &[char]) -> (p: usize)
    requires
        forall|q: int| 0 <= q < r@.len() ==> r@[q].0@ != key@,
    ensures
        p <= r@.len(),
        forall|q: int| 0 <= q < p ==> text_lt(#[trigger] r@[q].0@, key@),
        p < r@.len() ==> text_lt(key@, r@[p as int].0@),
{
    let mut p: usize = 0;
    while p < r.len()
        invariant
            p <= r@.len(),
            forall|q: int| 0 <= q < r@.len() ==> r@[q].0@ != key@,
            forall|q: int| 0 <= q < p ==> text_lt(#[trigger] r@[q].0@, key@),
        decreases r@.len() - p,
    {
        let rc = chars_of(r[p].0.as_str());
        if text_less(key, rc.as_slice()) {
            return p;
        }
        proof {
            lemma_text_lt_total(r@[p as int].0@, key@);
        }
        p = p + 1;
    }
    p
}

/// Inserting entry `i` at its place keeps the list sorted and in step with
/// the first `i + 1` entries: `from` says which entry each element is, `at`
/// where each entry went.
proof fn lemma_insert_keeps_order(
    old_r: Seq<(String, String)>,
    r: Seq<(String, String)>,
    p: int,
    entries: Seq<(String, String)>,
    i: int,
    from: Seq<int>,
    at: Seq<int>,
) -> (res: (Seq<int>, Seq<int>))
    requires
        0 <= p <= old_r.len(),
        0 <= i < entries.len(),
        r == old_r.insert(p, entries[i]),
        forall|q: int| 0 <= q < p ==> text_lt(#[trigger] old_r[q].0@, entries[i].0@),
        p < old_r.len() ==> text_lt(entries[i].0@, old_r[p].0@),
        forall|a: int, b: int| 0 <= a < b < old_r.len() ==> text_lt(#[trigger] old_r[a].0@, #[trigger] old_r[b].0@),
        from.len() == old_r.len(),
        forall|a: int| 0 <= a < old_r.len() ==> 0 <= #[trigger] from[a] < i && old_r[a] == entries[from[a]],
        at.len() == i,
        forall|j: int| 0 <= j < i ==> 0 <= #[trigger] at[j] < old_r.len() && old_r[at[j]] == entries[j],
    ensures
        forall|a: int, b: int| 0 <= a < b < r.len() ==> text_lt(#[trigger] r[a].0@, #[trigger] r[b].0@),
        res.0.len() == r.len(),
        forall|a: int| 0 <= a < r.len() ==> 0 <= #[trigger] res.0[a] < i + 1 && r[a] == entries[res.0[a]],
        res.1.len() == i + 1,
        forall|j: int| 0 <= j < i + 1 ==> 0 <= #[trigger] res.1[j] < r.len() && r[res.1[j]] == entries[j],
{
    let kc = entries[i].0@;
    assert(r[p] == entries[i]);
    assert forall|a: int, b: int| 0 <= a < b < r.len() implies text_lt(#[trigger] r[a].0@, #[trigger] r[b].0@) by {
        if b < p {
            assert(r[a] == old_r[a] && r[b] == old_r[b]);
        } else if b == p {
            assert(r[a] == old_r[a]);
            assert(text_lt(old_r[a].0@, kc));
        } else if a < p {
            assert(r[a] == old_r[a] && r[b] == old_r[b - 1]);
        } else if a == p {
            assert(r[b] == old_r[b - 1]);
            if b - 1 > p {
                assert(text_lt(old_r[p].0@, old_r[b - 1].0@));
                lemma_text_lt_trans(kc, old_r[p].0@, old_r[b - 1].0@);
            }
        } else {
            assert(r[a] == old_r[a - 1] && r[b] == old_r[b - 1]);
        }
    }
    let from2 = from.insert(p, i);
    let at2 = Seq::new((i + 1) as nat, |j: int| if j == i { p } else if at[j] < p { at[j] } else { at[j] + 1 });
    assert forall|a: int| 0 <= a < r.len() implies 0 <= #[trigger] from2[a] < i + 1 && r[a] == entries[from2[a]] by {
        if a < p {
            assert(r[a] == old_r[a] && from2[a] == from[a]);
        } else if a > p {
            assert(r[a] == old_r[a - 1] && from2[a] == from[a - 1]);
        }
    }
    assert forall|j: int| 0 <= j < i + 1 implies 0 <= #[trigger] at2[j] < r.len() && r[at2[j]] == entries[j] by {
        if j < i {
            let q = at[j];
            if q < p {
                assert(r[q] == old_r[q]);
            } else {
                assert(r[q + 1] == old_r[q]);
            }
        }
    }
    (from2, at2)
}

/// The attributes of `node` as `(name, value)` pairs sorted by name.
pub fn collect_sorted_attributes(node: &Node) -> (r: Vec<(String, String)>)
    requires
        node.attributes.wf(),
    ensures
        pair_views(r@) == sorted_listing(node.attributes@),
{
    let entries = node.attributes.entries();
    proof {
        node.attributes.lemma_seq_view();
    }
    let mut r: Vec<(String, String)> = Vec::new();
    let ghost mut from: Seq<int> = Seq::empty();
    let ghost mut at: Seq<int> = Seq::empty();
    let mut i: usize = 0;
    while i < entries.len()
        invariant
            i <= entries@.len(),
            entries@ == node.attributes.seq(),
            forall|a: int, b: int| 0 <= a < b < entries@.len() ==> entries@[a].0@ != entries@[b].0@,
            r@.len() == i,
            forall|a: int, b: int| 0 <= a < b < r@.len() ==> text_lt(#[trigger] r@[a].0@, #[trigger] r@[b].0@),
            from.len() == r@.len(),
            forall|a: int| 0 <= a < r@.len() ==> 0 <= #[trigger] from[a] < i && r@[a] == entries@[from[a]],
            at.len() == i,
            forall|j: int| 0 <= j < i ==> 0 <= #[trigger] at[j] < r@.len() && r@[at[j]] == entries@[j],
        decreases entries@.len() - i,
    {
        let key = entries[i].0.clone();
        let value = entries[i].1.clone();
        let kc = chars_of(key.as_str());
        proof {
            assert forall|q: int| 0 <= q < r@.len() implies r@[q].0@ != kc@ by {
                assert(r@[q] == entries@[from[q]]);
            }
        }
        let p = insert_position(&r, kc.as_slice());
        let ghost old_r = r@;
        r.insert(p, (key, value));
        proof {
            let res = lemma_insert_keeps_order(old_r, r@, p as int, entries@, i as int, from, at);
            from = res.0;
            at = res.1;
        }
        i = i + 1;
    }
    proof {
        let m = node.attributes@;
        let s = pair_views(r@);
        assert forall|a: int| 0 <= a < s.len() implies m.contains_key(#[trigger] s[a].0) && m[s[a].0]@ == s[a].1 by {
            assert(r@[a] == entries@[from[a]]);
        }
        assert forall|k: Seq<char>| #[trigger] m.contains_key(k) implies exists|a: int| 0 <= a < s.len() && s[a].0 == k by {
            let j = choose|j: int| 0 <= j < entries@.len() && entries@[j].0@ == k;
            assert(r@[at[j]] == entries@[j]);
            assert(s[at[j]].0 == k);
        }
        assert forall|a: int, b: int| 0 <= a < b < s.len() implies text_lt(#[trigger] s[a].0, #[trigger] s[b].0) by {
            assert(text_lt(r@[a].0@, r@[b].0@));
        }
        assert(is_sorted_listing(m, s));
        lemma_is_sorted_listing(m, s);
    }
    r
}


/// What the inspector shows of a node.
#[derive(Debug, Clone)]
pub struct NodeSummary {
    pub tag_name: Option<String>,
    pub attributes: Vec<(String, String)>,
    pub text_preview: Option<String>,
}

/// A node of the inspector's tree.
#[derive(Debug)]
pub struct DomTreeNode {
    pub id: usize,
    pub label: String,
    pub children: Vec<DomTreeNode>,
}

/// At most `n` characters of `t`, followed by `...` when `t` is longer.
pub open spec fn clipped(t: Seq<char>, n: nat) -> Seq<char> {
    if t.len() > n {
        t.take(n as int) + "..."@
    } else {
        t
    }
}

/// The inspector's preview of a text: the trimmed text clipped to 80
/// characters, or nothing when it is blank.
pub open spec fn text_preview_of(text: Option<String>) -> Option<Seq<char>> {
    match text {
        Some(t) => if trim(t@).len() > 0 {
            Some(clipped(trim(t@), 80))
        } else {
            None
        },
        None => None,
    }
}

/// `name="value"`.
pub open spec fn attr_shown(p: (Seq<char>, Seq<char>)) -> Seq<char> {
    p.0 + "=\""@ + p.1 + "\""@
}

/// The items joined by single spaces.
pub open spec fn join_spaced(items: Seq<Seq<char>>) -> Seq<char>
    decreases items.len(),
{
    if items.len() == 0 {
        Seq::empty()
    } else if items.len() == 1 {
        items[0]
    } else {
        join_spaced(items.drop_last()) + " "@ + items.last()
    }
}

/// The attribute items of a label: the first five as `name="value"`, then
/// `...` when there are more.
pub open spec fn attr_items(s: Seq<(Seq<char>, Seq<char>)>) -> Seq<Seq<char>> {
    let n: int = if s.len() > 5 { 5 } else { s.len() as int };
    let base = s.take(n).map_values(|p: (Seq<char>, Seq<char>)| attr_shown(p));
    if s.len() > 5 {
        base.push("..."@)
    } else {
        base
    }
}

/// The inspector's one-line label of a node: `[id] <tag>` or `[id] #text`,
/// the sorted attributes, and for a text node a quoted preview of at most
/// 30 characters.
pub open spec fn node_label(n: Node) -> Seq<char> {
    let head = "["@ + dec(n.id as nat) + "] "@ + match n.tag_name {
        Some(t) => "<"@ + t@ + ">"@,
        None => "#text"@,
    };
    let attrs = sorted_listing(n.attributes@);
    let with_attrs = if attrs.len() > 0 {
        head + " "@ + join_spaced(attr_items(attrs))
    } else {
        head
    };
    match (n.tag_name, n.text_content) {
        (None, Some(t)) => if trim(t@).len() > 0 {
            with_attrs + " \""@ + clipped(trim(t@), 30) + "\""@
        } else {
            with_attrs
        },
        _ => with_attrs,
    }
}

/// `clipped` on a character slice.
fn clip(t: &[char], n: usize) -> (r: Vec<char>)
    ensures
        r@ == clipped(t@, n as nat),
{
    if t.len() > n {
        let mut r = slice_chars(t, 0, n);
        push_str(&mut r, "...");
        r
    } else {
        slice_chars(t, 0, t.len())
    }
}

/// Appends ` name="value" ...` for the sorted attributes.
fn push_attr_items(out: &mut Vec<char>, attrs: &Vec<(String, String)>)
    requires
        pair_views(attrs@).len() > 0,
    ensures
        final(out)@ == old(out)@ + " "@ + join_spaced(attr_items(pair_views(attrs@))),
{
    let ghost s = pair_views(attrs@);
    let ghost items = attr_items(s);
    let n: usize = if attrs.len() > 5 { 5 } else { attrs.len() };
    push_str(out, " ");
    let ghost pre = out@;
    let mut k: usize = 0;
    while k < n
        invariant
            k <= n,
            n == (if attrs@.len() > 5 { 5 } else { attrs@.len() }),
            s == pair_views(attrs@),
            items == attr_items(s),
            out@ == pre + join_spaced(items.take(k as int)),
        decreases n - k,
    {
        assert(items[k as int] == attr_shown(s[k as int]));
        if k > 0 {
            push_str(out, " ");
        }
        let kc = chars_of(attrs[k].0.as_str());
        push_chars(out, kc.as_slice());
        push_str(out, "=\"");
        let vc = chars_of(attrs[k].1.as_str());
        push_chars(out, vc.as_slice());
        push_str(out, "\"");
        assert(items.take(k + 1).drop_last() =~= items.take(k as int));
        k = k + 1;
        assert(out@ =~= pre + join_spaced(items.take(k as int)));
    }
    if attrs.len() > 5 {
        push_str(out, " ");
        push_str(out, "...");
        assert(items.len() == 6);
        assert(items.drop_last() =~= items.take(5));
        assert(items.last() == "..."@);
        assert(out@ =~= pre + join_spaced(items));
    } else {
        assert(items.take(n as int) =~= items);
    }
}

/// The inspector's one-line label of `node`.
pub fn format_node_label(node: &Node) -> (r: String)
    requires
        node.attributes.wf(),
    ensures
        r@ == node_label(*node),
{
    let mut out: Vec<char> = Vec::new();
    push_str(&mut out, "[");
    let idc = decimal(node.id as u64);
    push_chars(&mut out, idc.as_slice());
    push_str(&mut out, "] ");
    match &node.tag_name {
        Some(t) => {
            push_str(&mut out, "<");
            let tc = chars_of(t.as_str());
            push_chars(&mut out, tc.as_slice());
            push_str(&mut out, ">");
        },
        None => {
            push_str(&mut out, "#text");
        },
    }
    let attrs = collect_sorted_attributes(node);
    if attrs.len() > 0 {
        push_attr_items(&mut out, &attrs);
    }
    if node.tag_name.is_none() {
        match &node.text_content {
            Some(t) => {
                let tc = chars_of(t.as_str());
                let trimmed = trim_chars(tc.as_slice());
                if trimmed.len() > 0 {
                    push_str(&mut out, " \"");
                    let shown = clip(trimmed.as_slice(), 30);
                    push_chars(&mut out, shown.as_slice());
                    push_str(&mut out, "\"");
                }
            },
            None => {},
        }
    }
    string_from_chars(out.as_slice())
}

/// The inspector's summary of `node`.
pub fn build_node_summary(node: &Node) -> (r: NodeSummary)
    requires
        node.attributes.wf(),
    ensures
        r.tag_name == node.tag_name,
        pair_views(r.attributes@) == sorted_listing(node.attributes@),
        match (r.text_preview, text_preview_of(node.text_content)) {
            (Some(p), Some(q)) => p@ == q,
            (None, None) => true,
            _ => false,
        },
{
    let attributes = collect_sorted_attributes(node);
    let mut preview: Option<String> = None;
    match &node.text_content {
        Some(t) => {
            let tc = chars_of(t.as_str());
            let trimmed = trim_chars(tc.as_slice());
            if trimmed.len() > 0 {
                let shown = clip(trimmed.as_slice(), 80);
                preview = Some(string_from_chars(shown.as_slice()));
            }
        },
        None => {},
    }
    NodeSummary { tag_name: node.tag_name.clone(), attributes, text_preview: preview }
}


/// `s` is the inspector's summary of `n`.
pub open spec fn summarizes(s: NodeSummary, n: Node) -> bool {
    &&& s.tag_name == n.tag_name
    &&& pair_views(s.attributes@) == sorted_listing(n.attributes@)
    &&& match (s.text_preview, text_preview_of(n.text_content)) {
        (Some(p), Some(q)) => p@ == q,
        (None, None) => true,
        _ => false,
    }
}

/// Whether the walk with `fuel` levels left produces a tree node for `id`.
pub open spec fn builds(nodes: Map<usize, Node>, id: usize, fuel: nat) -> bool {
    fuel > 0 && nodes.contains_key(id)
}

/// `t` is the inspector tree of `id`: its id and label, and one child per
/// child of the node that the walk reaches, in order.
pub open spec fn tree_matches(t: DomTreeNode, nodes: Map<usize, Node>, id: usize, fuel: nat) -> bool
    decreases fuel, 0nat, 0nat,
{
    &&& builds(nodes, id, fuel)
    &&& t.id == id
    &&& t.label@ == node_label(nodes[id])
    &&& kids_match(t.children@, nodes, nodes[id].children@, (fuel - 1) as nat)
}

/// `ts` are the inspector trees of those of `ids` that the walk reaches.
pub open spec fn kids_match(ts: Seq<DomTreeNode>, nodes: Map<usize, Node>, ids: Seq<usize>, fuel: nat) -> bool
    decreases fuel, 1nat, ids.len(),
{
    if ids.len() == 0 {
        ts.len() == 0
    } else if builds(nodes, ids.last(), fuel) {
        &&& ts.len() > 0
        &&& kids_match(ts.drop_last(), nodes, ids.drop_last(), fuel)
        &&& tree_matches(ts.last(), nodes, ids.last(), fuel)
    } else {
        kids_match(ts, nodes, ids.drop_last(), fuel)
    }
}

/// The nodes the walk from `id` reaches.
pub open spec fn visited(nodes: Map<usize, Node>, id: usize, fuel: nat) -> Set<usize>
    decreases fuel, 0nat, 0nat,
{
    if builds(nodes, id, fuel) {
        set![id] + visited_kids(nodes, nodes[id].children@, (fuel - 1) as nat)
    } else {
        Set::empty()
    }
}

/// The nodes the walks from `ids` reach.
pub open spec fn visited_kids(nodes: Map<usize, Node>, ids: Seq<usize>, fuel: nat) -> Set<usize>
    decreases fuel, 1nat, ids.len(),
{
    if ids.len() == 0 {
        Set::empty()
    } else {
        visited_kids(nodes, ids.drop_last(), fuel) + visited(nodes, ids.last(), fuel)
    }
}

/// `after` is `before` with the summaries of the nodes in `vis` stored.
pub open spec fn summaries_added(
    before: Map<usize, NodeSummary>,
    after: Map<usize, NodeSummary>,
    vis: Set<usize>,
    nodes: Map<usize, Node>,
) -> bool {
    &&& forall|k: usize| #[trigger] after.contains_key(k) == (before.contains_key(k) || vis.contains(k))
    &&& forall|k: usize| #[trigger] vis.contains(k) ==> nodes.contains_key(k) && summarizes(after[k], nodes[k])
    &&& forall|k: usize| !vis.contains(k) && #[trigger] before.contains_key(k) ==> after[k] == before[k]
}

proof fn lemma_summaries_chain(
    a: Map<usize, NodeSummary>,
    b: Map<usize, NodeSummary>,
    c: Map<usize, NodeSummary>,
    v1: Set<usize>,
    v2: Set<usize>,
    nodes: Map<usize, Node>,
)
    requires
        summaries_added(a, b, v1, nodes),
        summaries_added(b, c, v2, nodes),
    ensures
        summaries_added(a, c, v1 + v2, nodes),
{
    assert forall|k: usize| #[trigger] (v1 + v2).contains(k) implies nodes.contains_key(k) && summarizes(c[k], nodes[k]) by {
        if !v2.contains(k) {
            assert(b.contains_key(k));
        }
    }
    assert forall|k: usize| !(v1 + v2).contains(k) && #[trigger] a.contains_key(k) implies c[k] == a[k] by {
        assert(b.contains_key(k));
    }
    assert forall|k: usize| #[trigger] c.contains_key(k) == (a.contains_key(k) || (v1 + v2).contains(k)) by {
        if b.contains_key(k) {
        }
    }
}

fn build_dom_node_within(
    document: &Document,
    node_id: usize,
    fuel: usize,
    snapshots: &mut HashMap<usize, NodeSummary>,
) -> (r: Option<DomTreeNode>)
    requires
        document.wf(),
    ensures
        r.is_some() == builds(document.nodes_map(), node_id, fuel as nat),
        r matches Some(t) ==> tree_matches(t, document.nodes_map(), node_id, fuel as nat),
        summaries_added(old(snapshots)@, final(snapshots)@, visited(document.nodes_map(), node_id, fuel as nat), document.nodes_map()),
    decreases fuel,
{
    let ghost nodes = document.nodes_map();
    if fuel == 0 {
        proof {
            assert(visited(nodes, node_id, 0) =~= Set::<usize>::empty());
        }
        return None;
    }
    let node = match document.get_node(node_id) {
        None => {
            proof {
                assert(visited(nodes, node_id, fuel as nat) =~= Set::<usize>::empty());
            }
            return None;
        },
        Some(n) => n,
    };
    proof {
        document.lemma_wf();
    }
    let summary = build_node_summary(node);
    snapshots.insert(node_id, summary);
    let ghost after_root = snapshots@;
    proof {
        assert(summaries_added(old(snapshots)@, after_root, set![node_id], nodes));
    }
    let mut children: Vec<DomTreeNode> = Vec::new();
    let mut i: usize = 0;
    while i < node.children.len()
        invariant
            fuel > 0,
            document.wf(),
            nodes == document.nodes_map(),
            nodes.contains_key(node_id),
            *node == nodes[node_id],
            i <= node.children@.len(),
            kids_match(children@, nodes, node.children@.take(i as int), (fuel - 1) as nat),
            summaries_added(
                old(snapshots)@,
                snapshots@,
                set![node_id] + visited_kids(nodes, node.children@.take(i as int), (fuel - 1) as nat),
                nodes,
            ),
        decreases node.children@.len() - i,
    {
        let ghost before = snapshots@;
        let ghost prev_children = children@;
        let c = node.children[i];
        let sub = build_dom_node_within(document, c, fuel - 1, snapshots);
        proof {
            lemma_summaries_chain(
                old(snapshots)@,
                before,
                snapshots@,
                set![node_id] + visited_kids(nodes, node.children@.take(i as int), (fuel - 1) as nat),
                visited(nodes, c, (fuel - 1) as nat),
                nodes,
            );
            assert(node.children@.take(i + 1).drop_last() =~= node.children@.take(i as int));
            assert(node.children@.take(i + 1).last() == c);
            assert(set![node_id] + visited_kids(nodes, node.children@.take(i + 1), (fuel - 1) as nat)
                =~= set![node_id] + visited_kids(nodes, node.children@.take(i as int), (fuel - 1) as nat)
                + visited(nodes, c, (fuel - 1) as nat));
        }
        match sub {
            Some(t) => {
                children.push(t);
                proof {
                    assert(children@.drop_last() =~= prev_children);
                }
            },
            None => {},
        }
        i = i + 1;
    }
    proof {
        assert(node.children@.take(node.children@.len() as int) =~= node.children@);
    }
    let label = format_node_label(node);
    Some(DomTreeNode { id: node_id, label, children })
}


/// Most console commands kept in the history.
pub const MAX_HISTORY: usize = 200;

/// The index the "previous command" key moves to.
pub open spec fn previous_index(idx: Option<usize>, len: nat) -> int {
    match idx {
        Some(i) => if i > 0 { i - 1 } else { 0 },
        None => len - 1,
    }
}

/// `Some(n)` or `None` as `{:?}` prints it.
pub open spec fn debug_option(o: Option<usize>) -> Seq<char> {
    match o {
        Some(n) => "Some("@ + dec(n as nat) + ")"@,
        None => "None"@,
    }
}

/// The DOM statistics line.
pub open spec fn dom_stats_text(count: nat, root: Option<usize>) -> Seq<char> {
    "DOM nodes: "@ + dec(count) + ", Root: "@ + debug_option(root) + ", Parser: scraper"@
}

/// State of the developer tools panel.
pub struct DevTools {
    active_tab: DevToolsTab,
    cached_html: String,
    cached_dom_stats: String,
    cached_dom_tree: Option<DomTreeNode>,
    selected_node_id: Option<usize>,
    node_snapshots: HashMap<usize, NodeSummary>,
    cached_layout_stats: String,
    cached_network_logs: Vec<NetworkLogEntry>,
    cached_console_logs: Vec<ConsoleEntry>,
    console_input: String,
    console_history: Vec<String>,
    console_history_index: Option<usize>,
    show_debug_overlays: bool,
}

/// `a` and `b` hold the same data of the last refresh: HTML, statistics
/// lines, inspector tree, node summaries and network log.
pub open spec fn same_page_data(a: DevTools, b: DevTools) -> bool {
    &&& a.html() == b.html()
    &&& a.dom_stats() == b.dom_stats()
    &&& a.tree() == b.tree()
    &&& a.snapshots() == b.snapshots()
    &&& a.layout_stats() == b.layout_stats()
    &&& a.network_logs() == b.network_logs()
}

/// `a` and `b` show the same tab, selection and overlay setting.
pub open spec fn same_view(a: DevTools, b: DevTools) -> bool {
    &&& a.active() == b.active()
    &&& a.selected() == b.selected()
    &&& a.overlays() == b.overlays()
}

impl DevTools {
    /// The tab shown.
    pub closed spec fn active(self) -> DevToolsTab {
        self.active_tab
    }

    /// The serialized HTML of the last refresh.
    pub closed spec fn html(self) -> Seq<char> {
        self.cached_html@
    }

    /// The DOM statistics line.
    pub closed spec fn dom_stats(self) -> Seq<char> {
        self.cached_dom_stats@
    }

    /// The inspector tree of the last refresh.
    pub closed spec fn tree(self) -> Option<DomTreeNode> {
        self.cached_dom_tree
    }

    /// The node selected in the inspector.
    pub closed spec fn selected(self) -> Option<usize> {
        self.selected_node_id
    }

    /// Summaries of the nodes of the last refresh.
    pub closed spec fn snapshots(self) -> Map<usize, NodeSummary> {
        self.node_snapshots@
    }

    /// The layout statistics line.
    pub closed spec fn layout_stats(self) -> Seq<char> {
        self.cached_layout_stats@
    }

    /// The network log of the last refresh.
    pub closed spec fn network_logs(self) -> Seq<NetworkLogEntry> {
        self.cached_network_logs@
    }

    /// The console lines.
    pub closed spec fn console(self) -> Seq<ConsoleEntry> {
        self.cached_console_logs@
    }

    /// The text in the console's input line.
    pub closed spec fn input(self) -> Seq<char> {
        self.console_input@
    }

    /// The commands run, oldest first.
    pub closed spec fn history(self) -> Seq<String> {
        self.console_history@
    }

    /// The history entry recalled into the input line.
    pub closed spec fn history_index(self) -> Option<usize> {
        self.console_history_index
    }

    /// Whether layout boxes are drawn over the page.
    pub closed spec fn overlays(self) -> bool {
        self.show_debug_overlays
    }

    /// The history holds at most `MAX_HISTORY` commands and a recalled
    /// index points into it.
    pub closed spec fn wf(self) -> bool {
        &&& self.console_history@.len() <= MAX_HISTORY
        &&& self.console_history_index matches Some(i) ==> i < self.console_history@.len()
    }

    /// A fresh panel on the Elements tab with one console line,
    /// "Console initialized".
    pub fn new() -> (d: Self)
        ensures
            d.wf(),
            d.active() == DevToolsTab::Elements,
            d.html() == Seq::<char>::empty(),
            d.dom_stats() == "No data"@,
            d.tree().is_none(),
            d.selected().is_none(),
            d.snapshots() == Map::<usize, NodeSummary>::empty(),
            d.layout_stats() == "No data"@,
            d.network_logs() == Seq::<NetworkLogEntry>::empty(),
            d.console().len() == 1,
            d.console()[0] matches ConsoleEntry::Info(m) && m@ == "Console initialized"@,
            d.input() == Seq::<char>::empty(),
            d.history() == Seq::<String>::empty(),
            d.history_index().is_none(),
            !d.overlays(),
    {
        let mut logs: Vec<ConsoleEntry> = Vec::new();
        logs.push(ConsoleEntry::Info("Console initialized".to_string()));
        DevTools {
            active_tab: DevToolsTab::Elements,
            cached_html: String::new(),
            cached_dom_stats: "No data".to_string(),
            cached_dom_tree: None,
            selected_node_id: None,
            node_snapshots: HashMap::new(),
            cached_layout_stats: "No data".to_string(),
            cached_network_logs: Vec::new(),
            cached_console_logs: logs,
            console_input: String::new(),
            console_history: Vec::new(),
            console_history_index: None,
            show_debug_overlays: false,
        }
    }

    /// Whether layout boxes are drawn over the page.
    pub fn show_debug_overlays(&self) -> (r: bool)
        ensures
            r == self.overlays(),
    {
        self.show_debug_overlays
    }

    /// Turns the layout overlays on or off.
    pub fn set_show_debug_overlays(&mut self, on: bool)
        ensures
            final(self).overlays() == on,
            final(self).active() == old(self).active(),
            final(self).console() == old(self).console(),
            final(self).history() == old(self).history(),
            final(self).history_index() == old(self).history_index(),
            final(self).selected() == old(self).selected(),
            final(self).wf() == old(self).wf(),
            final(self).input() == old(self).input(),
            same_page_data(*final(self), *old(self)),
    {
        self.show_debug_overlays = on;
    }

    /// The tab shown.
    pub fn active_tab(&self) -> (r: DevToolsTab)
        ensures
            r == self.active(),
    {
        self.active_tab
    }

    /// Shows another tab.
    pub fn set_active_tab(&mut self, tab: DevToolsTab)
        ensures
            final(self).active() == tab,
            final(self).overlays() == old(self).overlays(),
            final(self).console() == old(self).console(),
            final(self).history() == old(self).history(),
            final(self).history_index() == old(self).history_index(),
            final(self).selected() == old(self).selected(),
            final(self).wf() == old(self).wf(),
            final(self).input() == old(self).input(),
            same_page_data(*final(self), *old(self)),
    {
        self.active_tab = tab;
    }

    /// The node selected in the inspector.
    pub fn selected_node_id(&self) -> (r: Option<usize>)
        ensures
            r == self.selected(),
    {
        self.selected_node_id
    }

    /// A click on a node of the inspector tree: selects it, or clears the
    /// selection when it was already selected.
    pub fn toggle_selection(&mut self, node_id: usize)
        ensures
            final(self).selected() == (if old(self).selected() == Some(node_id) {
                None
            } else {
                Some(node_id)
            }),
            final(self).active() == old(self).active(),
            final(self).console() == old(self).console(),
            final(self).history() == old(self).history(),
            final(self).history_index() == old(self).history_index(),
            final(self).wf() == old(self).wf(),
            final(self).overlays() == old(self).overlays(),
            final(self).input() == old(self).input(),
            same_page_data(*final(self), *old(self)),
    {
        if self.selected_node_id == Some(node_id) {
            self.selected_node_id = None;
        } else {
            self.selected_node_id = Some(node_id);
        }
    }

    /// The selected node and its summary, when one is selected and was
    /// summarized.
    pub fn selected_node_summary(&self) -> (r: Option<(usize, &NodeSummary)>)
        ensures
            r == (match self.selected() {
                Some(id) => if self.snapshots().contains_key(id) {
                    Some((id, &self.snapshots()[id]))
                } else {
                    None
                },
                None => None,
            }),
    {
        match self.selected_node_id {
            Some(id) => match self.node_snapshots.get(&id) {
                Some(summary) => Some((id, summary)),
                None => None,
            },
            None => None,
        }
    }

    /// Appends a console line.
    pub fn add_console_log(&mut self, entry: ConsoleEntry)
        ensures
            final(self).console() == old(self).console().push(entry),
            final(self).history() == old(self).history(),
            final(self).history_index() == old(self).history_index(),
            final(self).input() == old(self).input(),
            final(self).active() == old(self).active(),
            final(self).wf() == old(self).wf(),
            same_view(*final(self), *old(self)),
            same_page_data(*final(self), *old(self)),
    {
        self.cached_console_logs.push(entry);
    }

    /// The console lines.
    pub fn console_logs(&self) -> (r: &Vec<ConsoleEntry>)
        ensures
            r@ == self.console(),
    {
        &self.cached_console_logs
    }

    /// Empties the console, leaving the line "Console cleared".
    pub fn clear_console(&mut self)
        ensures
            final(self).console().len() == 1,
            final(self).console()[0] matches ConsoleEntry::Info(m) && m@ == "Console cleared"@,
            final(self).history() == old(self).history(),
            final(self).history_index() == old(self).history_index(),
            final(self).input() == old(self).input(),
            final(self).wf() == old(self).wf(),
            same_view(*final(self), *old(self)),
            same_page_data(*final(self), *old(self)),
    {
        self.cached_console_logs.clear();
        self.cached_console_logs.push(ConsoleEntry::Info("Console cleared".to_string()));
    }

    /// The text in the console's input line.
    pub fn console_input(&self) -> (r: &str)
        ensures
            r@ == self.input(),
    {
        self.console_input.as_str()
    }

    /// Replaces the text of the input line, as typing does.
    pub fn set_console_input(&mut self, text: String)
        ensures
            final(self).input() == text@,
            final(self).history() == old(self).history(),
            final(self).history_index() == old(self).history_index(),
            final(self).console() == old(self).console(),
            final(self).wf() == old(self).wf(),
            same_view(*final(self), *old(self)),
            same_page_data(*final(self), *old(self)),
    {
        self.console_input = text;
    }

    /// The commands run, oldest first.
    pub fn console_history(&self) -> (r: &Vec<String>)
        ensures
            r@ == self.history(),
    {
        &self.console_history
    }

    /// The history entry recalled into the input line.
    pub fn console_history_index(&self) -> (r: Option<usize>)
        ensures
            r == self.history_index(),
    {
        self.console_history_index
    }

    /// The "previous command" key: recalls the entry before the recalled
    /// one (the last entry when none is recalled, the first one stays).
    pub fn recall_previous_command(&mut self)
        requires
            old(self).wf(),
        ensures
            final(self).wf(),
            old(self).history().len() == 0 ==> *final(self) == *old(self),
            old(self).history().len() > 0 ==> {
                let i = previous_index(old(self).history_index(), old(self).history().len());
                &&& final(self).history_index() == Some(i as usize)
                &&& final(self).input() == old(self).history()[i]@
            },
            final(self).history() == old(self).history(),
            final(self).console() == old(self).console(),
            same_view(*final(self), *old(self)),
            same_page_data(*final(self), *old(self)),
    {
        if self.console_history.len() == 0 {
            return;
        }
        let len = self.console_history.len();
        let next_index: usize = match self.console_history_index {
            Some(idx) => if idx > 0 { idx - 1 } else { 0 },
            None => len - 1,
        };
        self.console_input = self.console_history[next_index].clone();
        self.console_history_index = Some(next_index);
    }

    /// The "next command" key: recalls the entry after the recalled one,
    /// or past the last one empties the input line.
    pub fn recall_next_command(&mut self)
        requires
            old(self).wf(),
        ensures
            final(self).wf(),
            final(self).history() == old(self).history(),
            final(self).console() == old(self).console(),
            match old(self).history_index() {
                None => *final(self) == *old(self),
                Some(i) => if i + 1 < old(self).history().len() {
                    &&& final(self).history_index() == Some((i + 1) as usize)
                    &&& final(self).input() == old(self).history()[i + 1]@
                } else {
                    &&& final(self).history_index().is_none()
                    &&& final(self).input() == Seq::<char>::empty()
                },
            },
            same_view(*final(self), *old(self)),
            same_page_data(*final(self), *old(self)),
    {
        match self.console_history_index {
            Some(idx) => {
                if idx + 1 < self.console_history.len() {
                    let next_index = idx + 1;
                    self.console_input = self.console_history[next_index].clone();
                    self.console_history_index = Some(next_index);
                } else {
                    self.console_history_index = None;
                    self.console_input = String::new();
                }
            },
            None => {},
        }
    }

    /// Takes a command from the input line: the trimmed text, unless it is
    /// blank.  The command is added to the history (dropping the oldest past
    /// `MAX_HISTORY`) and echoed in the console, the input line is emptied,
    /// and the command is returned for the script engine to run.
    pub fn execute_console_command(&mut self, input: &str) -> (r: Option<String>)
        requires
            old(self).wf(),
        ensures
            final(self).wf(),
            trim(input@).len() == 0 ==> r.is_none() && *final(self) == *old(self),
            trim(input@).len() > 0 ==> {
                let added = old(self).history().push(r.unwrap());
                &&& r.is_some()
                &&& r.unwrap()@ == trim(input@)
                &&& final(self).history() == (if added.len() > MAX_HISTORY {
                    added.drop_first()
                } else {
                    added
                })
                &&& final(self).history_index().is_none()
                &&& final(self).input() == Seq::<char>::empty()
                &&& final(self).console() == old(self).console().push(ConsoleEntry::Command(r.unwrap()))
            },
            same_view(*final(self), *old(self)),
            same_page_data(*final(self), *old(self)),
    {
        let ic = chars_of(input);
        let trimmed = trim_chars(ic.as_slice());
        if trimmed.len() == 0 {
            return None;
        }
        let command = string_from_chars(trimmed.as_slice());
        self.console_history.push(command.clone());
        if self.console_history.len() > MAX_HISTORY {
            self.console_history.remove(0);
        }
        self.console_history_index = None;
        self.console_input = String::new();
        self.cached_console_logs.push(ConsoleEntry::Command(command.clone()));
        Some(command)
    }

    /// Records what the script engine answered to a command: the value's
    /// text, or the error's text after "Error: ".
    pub fn record_command_result(&mut self, result: Result<String, String>)
        ensures
            final(self).console().len() == old(self).console().len() + 1,
            final(self).console().drop_last() == old(self).console(),
            match result {
                Ok(v) => final(self).console().last() == ConsoleEntry::Result(v),
                Err(e) => final(self).console().last() matches ConsoleEntry::Error(m) && m@ == "Error: "@ + e@,
            },
            final(self).history() == old(self).history(),
            final(self).history_index() == old(self).history_index(),
            final(self).input() == old(self).input(),
            final(self).wf() == old(self).wf(),
            same_view(*final(self), *old(self)),
            same_page_data(*final(self), *old(self)),
    {
        match result {
            Ok(v) => {
                self.cached_console_logs.push(ConsoleEntry::Result(v));
            },
            Err(e) => {
                let mut text: Vec<char> = Vec::new();
                push_str(&mut text, "Error: ");
                let ec = chars_of(e.as_str());
                push_chars(&mut text, ec.as_slice());
                self.cached_console_logs.push(ConsoleEntry::Error(string_from_chars(text.as_slice())));
            },
        }
        assert(self.cached_console_logs@.drop_last() =~= old(self).cached_console_logs@);
    }

    /// Records that no script engine could run a command.
    pub fn record_engine_unavailable(&mut self)
        ensures
            final(self).console().len() == old(self).console().len() + 1,
            final(self).console().drop_last() == old(self).console(),
            final(self).console().last() matches ConsoleEntry::Error(m) && m@ == "JavaScript engine not available"@,
            final(self).history() == old(self).history(),
            final(self).history_index() == old(self).history_index(),
            final(self).input() == old(self).input(),
            final(self).wf() == old(self).wf(),
            same_view(*final(self), *old(self)),
            same_page_data(*final(self), *old(self)),
    {
        self.cached_console_logs.push(ConsoleEntry::Error("JavaScript engine not available".to_string()));
        assert(self.cached_console_logs@.drop_last() =~= old(self).cached_console_logs@);
    }

    /// The inspector tree of the subtree of `node_id`, storing the summary
    /// of each node reached in `snapshots`.  The walk descends at most as
    /// many levels as there are nodes.
    pub fn build_dom_node(
        document: &Document,
        node_id: usize,
        snapshots: &mut HashMap<usize, NodeSummary>,
    ) -> (r: Option<DomTreeNode>)
        requires
            document.wf(),
        ensures
            r.is_some() == builds(document.nodes_map(), node_id, document.nodes_map().len()),
            r matches Some(t) ==> tree_matches(t, document.nodes_map(), node_id, document.nodes_map().len()),
            summaries_added(
                old(snapshots)@,
                final(snapshots)@,
                visited(document.nodes_map(), node_id, document.nodes_map().len()),
                document.nodes_map(),
            ),
    {
        let fuel = document.node_count();
        build_dom_node_within(document, node_id, fuel, snapshots)
    }

    /// Refreshes the cached views from a document: its HTML, the statistics
    /// line, the inspector tree and node summaries; the selection is dropped
    /// when there is no tree or the selected node is gone.  The layout line
    /// and the network log are taken as given.
    pub fn update_from_document(&mut self, dom: &Document, layout_stats: String, network_logs: Vec<NetworkLogEntry>)
        requires
            dom.wf(),
        ensures
            final(self).html() == (match dom.root_id() {
                Some(root) => node_html(dom.nodes_map(), root, dom.nodes_map().len()),
                None => Seq::<char>::empty(),
            }),
            final(self).dom_stats() == dom_stats_text(dom.nodes_map().len(), dom.root_id()),
            final(self).layout_stats() == layout_stats@,
            final(self).network_logs() == network_logs@,
            match dom.root_id() {
                Some(root) => {
                    &&& final(self).tree().is_some() == builds(dom.nodes_map(), root, dom.nodes_map().len())
                    &&& final(self).tree() matches Some(t) ==> tree_matches(t, dom.nodes_map(), root, dom.nodes_map().len())
                    &&& summaries_added(
                        Map::empty(),
                        final(self).snapshots(),
                        visited(dom.nodes_map(), root, dom.nodes_map().len()),
                        dom.nodes_map(),
                    )
                },
                None => final(self).tree().is_none() && final(self).snapshots() == Map::<usize, NodeSummary>::empty(),
            },
            final(self).selected() == (match old(self).selected() {
                Some(s) => if final(self).tree().is_some() && dom.nodes_map().contains_key(s) {
                    Some(s)
                } else {
                    None
                },
                None => None,
            }),
            final(self).console() == old(self).console(),
            final(self).history() == old(self).history(),
            final(self).history_index() == old(self).history_index(),
            final(self).input() == old(self).input(),
            final(self).active() == old(self).active(),
            final(self).wf() == old(self).wf(),
            final(self).overlays() == old(self).overlays(),
    {
        self.cached_html = serialize_dom(dom);
        let mut stats: Vec<char> = Vec::new();
        push_str(&mut stats, "DOM nodes: ");
        let count = decimal(dom.node_count() as u64);
        push_chars(&mut stats, count.as_slice());
        push_str(&mut stats, ", Root: ");
        match dom.root_node_id() {
            Some(root) => {
                push_str(&mut stats, "Some(");
                let rc = decimal(root as u64);
                push_chars(&mut stats, rc.as_slice());
                push_str(&mut stats, ")");
            },
            None => {
                push_str(&mut stats, "None");
            },
        }
        push_str(&mut stats, ", Parser: scraper");
        self.cached_dom_stats = string_from_chars(stats.as_slice());
        self.cached_layout_stats = layout_stats;
        self.cached_network_logs = network_logs;
        let mut snapshots: HashMap<usize, NodeSummary> = HashMap::new();
        self.cached_dom_tree = match dom.root_node_id() {
            Some(root) => DevTools::build_dom_node(dom, root, &mut snapshots),
            None => None,
        };
        self.node_snapshots = snapshots;
        if self.cached_dom_tree.is_none() {
            self.selected_node_id = None;
        } else {
            match self.selected_node_id {
                Some(selected) => {
                    if dom.get_node(selected).is_none() {
                        self.selected_node_id = None;
                    }
                },
                None => {},
            }
        }
    }

    /// The serialized HTML of the last refresh.
    pub fn cached_html(&self) -> (r: &str)
        ensures
            r@ == self.html(),
    {
        self.cached_html.as_str()
    }

    /// The DOM statistics line.
    pub fn cached_dom_stats(&self) -> (r: &str)
        ensures
            r@ == self.dom_stats(),
    {
        self.cached_dom_stats.as_str()
    }

    /// The layout statistics line.
    pub fn cached_layout_stats(&self) -> (r: &str)
        ensures
            r@ == self.layout_stats(),
    {
        self.cached_layout_stats.as_str()
    }

    /// The inspector tree of the last refresh.
    pub fn cached_dom_tree(&self) -> (r: Option<&DomTreeNode>)
        ensures
            r == (match self.tree() {
                Some(t) => Some(&t),
                None => None,
            }),
    {
        match &self.cached_dom_tree {
            Some(t) => Some(t),
            None => None,
        }
    }

    /// The network log of the last refresh.
    pub fn cached_network_logs(&self) -> (r: &Vec<NetworkLogEntry>)
        ensures
            r@ == self.network_logs(),
    {
        &self.cached_network_logs
    }
}

} // verus!
