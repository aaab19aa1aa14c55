//! The shape of the layout tree: which nodes get a box, with which display,
//! and how the boxes of a node's children are grouped, runs of inline boxes
//! going into anonymous rows.

use vstd::prelude::*;
use crate::layout::types::{Display, Position, FontWeight, FontStyle, ListStyleType, KeywordStyle};
use crate::layout::styles::{tag_defaults, apply_default_tag_styles};
use crate::layout::flex::{LayoutKeywords, layout_of};
use crate::text::{chars_of, chars_are, trim, trim_chars};

verus! {

/// A child in a box's list of children: a box of its own, or a run of
/// inline boxes held by an anonymous row.
#[derive(Debug, Clone, PartialEq, Eq)]
pub enum LayoutChild {
    Block(usize),
    InlineRun(Vec<usize>),
}

/// A child, with its ids as a sequence.
pub enum ChildView {
    Block(usize),
    InlineRun(Seq<usize>),
}

/// The view of a child.
pub open spec fn child_view(c: LayoutChild) -> ChildView {
    match c {
        LayoutChild::Block(id) => ChildView::Block(id),
        LayoutChild::InlineRun(ids) => ChildView::InlineRun(ids@),
    }
}

/// The views of a list of children.
pub open spec fn children_view(v: Seq<LayoutChild>) -> Seq<ChildView> {
    v.map_values(|c: LayoutChild| child_view(c))
}

/// The children after the pending inline run, if any, is closed.
pub open spec fn flushed(children: Seq<ChildView>, group: Seq<usize>) -> Seq<ChildView> {
    if group.len() == 0 {
        children
    } else {
        children.push(ChildView::InlineRun(group))
    }
}

/// Children and pending inline run after one more box: an inline box joins
/// the run, any other box closes it and stands alone.
pub open spec fn pushed(
    children: Seq<ChildView>,
    group: Seq<usize>,
    id: usize,
    display: Display,
) -> (Seq<ChildView>, Seq<usize>) {
    if display == Display::Inline {
        (children, group.push(id))
    } else {
        (flushed(children, group).push(ChildView::Block(id)), Seq::empty())
    }
}

/// Children and pending run after the boxes of `kids`, in order.
pub open spec fn grouping_state(kids: Seq<(usize, Display)>) -> (Seq<ChildView>, Seq<usize>)
    decreases kids.len(),
{
    if kids.len() == 0 {
        (Seq::empty(), Seq::empty())
    } else {
        let (c, g) = grouping_state(kids.drop_last());
        pushed(c, g, kids.last().0, kids.last().1)
    }
}

/// The children of a box whose child boxes are `kids`, in order.
pub open spec fn grouped(kids: Seq<(usize, Display)>) -> Seq<ChildView> {
    let (c, g) = grouping_state(kids);
    flushed(c, g)
}

/// The ids of a child.
pub open spec fn ids_of(c: ChildView) -> Seq<usize> {
    match c {
        ChildView::Block(id) => seq![id],
        ChildView::InlineRun(ids) => ids,
    }
}

/// The ids of a list of children, in order.
pub open spec fn flatten(v: Seq<ChildView>) -> Seq<usize>
    decreases v.len(),
{
    if v.len() == 0 {
        Seq::empty()
    } else {
        flatten(v.drop_last()) + ids_of(v.last())
    }
}

/// The ids of the boxes that stand alone, in order.
pub open spec fn blocks_of(v: Seq<ChildView>) -> Seq<usize>
    decreases v.len(),
{
    if v.len() == 0 {
        Seq::empty()
    } else {
        blocks_of(v.drop_last()) + match v.last() {
            ChildView::Block(id) => seq![id],
            ChildView::InlineRun(_) => Seq::empty(),
        }
    }
}

/// The ids of the boxes in the runs, in order.
pub open spec fn runs_of(v: Seq<ChildView>) -> Seq<usize>
    decreases v.len(),
{
    if v.len() == 0 {
        Seq::empty()
    } else {
        runs_of(v.drop_last()) + match v.last() {
            ChildView::Block(_) => Seq::empty(),
            ChildView::InlineRun(ids) => ids,
        }
    }
}

/// The ids of the boxes with display `inline` (or, when `inline` is false,
/// any other display), in order.
pub open spec fn ids_where(kids: Seq<(usize, Display)>, inline: bool) -> Seq<usize>
    decreases kids.len(),
{
    if kids.len() == 0 {
        Seq::empty()
    } else {
        ids_where(kids.drop_last(), inline) + if (kids.last().1 == Display::Inline) == inline {
            seq![kids.last().0]
        } else {
            Seq::empty()
        }
    }
}

/// The ids of the boxes, in order.
pub open spec fn kid_ids(kids: Seq<(usize, Display)>) -> Seq<usize> {
    kids.map_values(|k: (usize, Display)| k.0)
}

/// Runs are never empty, and no two runs stand side by side.
pub open spec fn well_grouped(v: Seq<ChildView>) -> bool {
    &&& forall|i: int| 0 <= i < v.len() ==> (#[trigger] v[i] matches ChildView::InlineRun(ids) ==> ids.len() > 0)
    &&& forall|i: int|
        0 <= i < v.len() - 1 ==> !(#[trigger] v[i] is InlineRun && v[i + 1] is InlineRun)
}

/// Closes the pending run of inline boxes, if any, as one anonymous row.
pub fn flush_inline_group(inline_group: &mut Vec<usize>, children: &mut Vec<LayoutChild>)
    ensures
        children_view(final(children)@) == flushed(children_view(old(children)@), old(inline_group)@),
        final(inline_group)@ == Seq::<usize>::empty(),
{
    if inline_group.len() == 0 {
        return;
    }
    let mut group: Vec<usize> = Vec::new();
    std::mem::swap(&mut group, inline_group);
    let ghost before = children@;
    children.push(LayoutChild::InlineRun(group));
    proof {
        assert(children_view(children@) =~= children_view(before).push(ChildView::InlineRun(old(inline_group)@)));
    }
}

/// Adds the box `id` to the children: an inline box joins the pending run,
/// any other box closes the run and is added alone.
pub fn push_layout_child(id: usize, display: Display, inline_group: &mut Vec<usize>, children: &mut Vec<LayoutChild>)
    ensures
        (children_view(final(children)@), final(inline_group)@) == pushed(
            children_view(old(children)@),
            old(inline_group)@,
            id,
            display,
        ),
{
    if display == Display::Inline {
        inline_group.push(id);
    } else {
        flush_inline_group(inline_group, children);
        let ghost before = children@;
        children.push(LayoutChild::Block(id));
        proof {
            assert(children_view(children@) =~= children_view(before).push(ChildView::Block(id)));
        }
    }
}

/// Groups the child boxes of a box, given in order with their displays:
/// each run of inline boxes becomes one anonymous row, every other box
/// stands alone.
pub fn group_children(kids: &Vec<(usize, Display)>) -> (r: Vec<LayoutChild>)
    ensures
        children_view(r@) == grouped(kids@),
        flatten(children_view(r@)) == kid_ids(kids@),
        blocks_of(children_view(r@)) == ids_where(kids@, false),
        runs_of(children_view(r@)) == ids_where(kids@, true),
        well_grouped(children_view(r@)),
{
    let mut children: Vec<LayoutChild> = Vec::new();
    let mut group: Vec<usize> = Vec::new();
    let mut i: usize = 0;
    while i < kids.len()
        invariant
            i <= kids@.len(),
            (children_view(children@), group@) == grouping_state(kids@.take(i as int)),
        decreases kids@.len() - i,
    {
        proof {
            assert(kids@.take(i + 1).drop_last() =~= kids@.take(i as int));
        }
        let (id, display) = kids[i];
        push_layout_child(id, display, &mut group, &mut children);
        i = i + 1;
    }
    flush_inline_group(&mut group, &mut children);
    proof {
        assert(kids@.take(kids@.len() as int) =~= kids@);
        lemma_grouping(kids@);
    }
    children
}

/// Grouping keeps every box, in order; the boxes that stand alone are
/// exactly those that are not inline, the runs hold exactly the inline
/// ones, runs are never empty and never adjacent.
pub proof fn lemma_grouping(kids: Seq<(usize, Display)>)
    ensures
        flatten(grouped(kids)) == kid_ids(kids),
        blocks_of(grouped(kids)) == ids_where(kids, false),
        runs_of(grouped(kids)) == ids_where(kids, true),
        well_grouped(grouped(kids)),
{
    lemma_state(kids);
    let (c, g) = grouping_state(kids);
    if g.len() > 0 {
        let v = c.push(ChildView::InlineRun(g));
        assert(v.drop_last() =~= c);
        assert(flatten(v) == flatten(c) + g);
        assert(blocks_of(v) =~= blocks_of(c));
        assert(runs_of(v) == runs_of(c) + g);
    }
}

/// What the state of the grouping holds after some boxes.
proof fn lemma_state(kids: Seq<(usize, Display)>)
    ensures
        ({
            let (c, g) = grouping_state(kids);
            &&& flatten(c) + g == kid_ids(kids)
            &&& blocks_of(c) == ids_where(kids, false)
            &&& runs_of(c) + g == ids_where(kids, true)
            &&& well_grouped(c)
            &&& (g.len() > 0 ==> c.len() == 0 || c.last() is Block)
        }),
    decreases kids.len(),
{
    if kids.len() == 0 {
        assert(kid_ids(kids) =~= Seq::<usize>::empty());
    } else {
        let prev = kids.drop_last();
        lemma_state(prev);
        let (c, g) = grouping_state(prev);
        let (id, d) = kids.last();
        assert(kid_ids(kids) =~= kid_ids(prev).push(id));
        if d == Display::Inline {
            assert(g.push(id) =~= g + seq![id]);
            assert(flatten(c) + g.push(id) =~= (flatten(c) + g) + seq![id]);
            assert(runs_of(c) + g.push(id) =~= (runs_of(c) + g) + seq![id]);
            assert(ids_where(kids, false) =~= ids_where(prev, false) + Seq::<usize>::empty());
        } else {
            let f = flushed(c, g);
            let v = f.push(ChildView::Block(id));
            assert(v.drop_last() =~= f);
            if g.len() > 0 {
                assert(f.drop_last() =~= c);
                assert(flatten(f) == flatten(c) + g);
                assert(blocks_of(f) =~= blocks_of(c));
                assert(runs_of(f) == runs_of(c) + g);
            } else {
                assert(flatten(c) + g =~= flatten(c));
                assert(runs_of(c) + g =~= runs_of(c));
            }
            assert(flatten(v) == flatten(f) + seq![id]);
            assert(runs_of(v) =~= runs_of(f));
            assert(ids_where(kids, true) =~= ids_where(prev, true) + Seq::<usize>::empty());
            assert(flatten(v) + Seq::<usize>::empty() =~= flatten(v));
            assert(runs_of(v) + Seq::<usize>::empty() =~= runs_of(v));
            assert(forall|i: int| 0 <= i < f.len() ==> #[trigger] v[i] == f[i]);
        }
    }
}

/// The boxes among `kids`: those with a display, in order.
pub open spec fn boxed(kids: Seq<(usize, Option<Display>)>) -> Seq<(usize, Display)>
    decreases kids.len(),
{
    if kids.len() == 0 {
        Seq::empty()
    } else {
        boxed(kids.drop_last()) + match kids.last().1 {
            Some(d) => seq![(kids.last().0, d)],
            None => Seq::empty(),
        }
    }
}

/// An optional box as a sequence of at most one.
pub open spec fn optional_box(b: Option<(usize, Display)>) -> Seq<(usize, Display)> {
    match b {
        Some(x) => seq![x],
        None => Seq::empty(),
    }
}

/// The child boxes of a node, in the order they are laid out: the
/// `::before` box, then the boxes of the children (those that get one), then
/// the `::after` box.
pub open spec fn child_boxes(
    before: Option<(usize, Display)>,
    kids: Seq<(usize, Option<Display>)>,
    after: Option<(usize, Display)>,
) -> Seq<(usize, Display)> {
    optional_box(before) + boxed(kids) + optional_box(after)
}

/// Lists the child boxes of a node in layout order (see [`child_boxes`]):
/// `before` and `after` are its generated boxes, if any, and `kids` its
/// children with the display each reports, `None` for a child without a
/// box.
pub fn layout_children(
    before: Option<(usize, Display)>,
    kids: &Vec<(usize, Option<Display>)>,
    after: Option<(usize, Display)>,
) -> (r: Vec<(usize, Display)>)
    ensures
        r@ == child_boxes(before, kids@, after),
{
    let mut out: Vec<(usize, Display)> = Vec::new();
    match before {
        Some(b) => out.push(b),
        None => {},
    }
    assert(out@ =~= optional_box(before));
    let mut i: usize = 0;
    while i < kids.len()
        invariant
            i <= kids@.len(),
            out@ == optional_box(before) + boxed(kids@.take(i as int)),
        decreases kids@.len() - i,
    {
        assert(kids@.take(i + 1).drop_last() =~= kids@.take(i as int));
        let (id, d) = kids[i];
        let ghost prev = out@;
        match d {
            Some(x) => {
                out.push((id, x));
                assert(out@ =~= prev + seq![(id, x)]);
            },
            None => {
                assert(out@ =~= prev + Seq::<(usize, Display)>::empty());
            },
        }
        i = i + 1;
    }
    assert(kids@.take(kids@.len() as int) =~= kids@);
    let ghost mid = out@;
    match after {
        Some(a) => out.push(a),
        None => {},
    }
    assert(out@ =~= mid + optional_box(after));
    out
}

/// Tags whose elements get no box.
pub open spec fn hidden_tag(t: Seq<char>) -> bool {
    t == "script"@ || t == "style"@ || t == "head"@ || t == "meta"@ || t == "link"@ || t == "title"@
}

/// The display after the defaults of tag `t`.
pub open spec fn tag_display(d: Display, t: Seq<char>) -> Display {
    tag_defaults(
        KeywordStyle {
            display: d,
            position: Position::Static,
            font_weight: FontWeight::Normal,
            font_style: FontStyle::Normal,
            list_style_type: ListStyleType::NoMarker,
        },
        t,
    ).0.display
}

/// The display a node reports to its parent, and whether it gets a box:
/// its computed declarations set the display, the defaults of its tag
/// override them, and a text node is inline.  The root always gets a box
/// (laid out as a block); other nodes with display `none` get none.  The
/// tags of the document head and of scripts get no box, nor do text nodes
/// that are empty or all whitespace.
pub open spec fn box_display(
    is_root: bool,
    tag: Option<Seq<char>>,
    text: Option<Seq<char>>,
    decls: Seq<(String, String)>,
) -> Option<Display> {
    let declared = layout_of(decls).display;
    let d = match tag {
        Some(t) => tag_display(declared, t),
        None => Display::Inline,
    };
    if !is_root && d == Display::NoDisplay {
        None
    } else if tag matches Some(t) && hidden_tag(t) {
        None
    } else if tag is None && (text is None || trim(text->0).len() == 0) {
        None
    } else {
        Some(d)
    }
}

/// An optional text as characters.
pub open spec fn text_view(o: Option<String>) -> Option<Seq<char>> {
    match o {
        Some(t) => Some(t@),
        None => None,
    }
}

/// Whether one of the declarations is of `display`.
pub open spec fn declares_display(decls: Seq<(String, String)>) -> bool {
    exists|i: int| 0 <= i < decls.len() && #[trigger] decls[i].0@ == "display"@
}

/// The display of a generated `::before` or `::after` box: inline unless
/// its declarations name a display; `None` when that is `none`.
pub open spec fn pseudo_box_display(decls: Seq<(String, String)>) -> Option<Display> {
    let d = if declares_display(decls) {
        layout_of(decls).display
    } else {
        Display::Inline
    };
    if d == Display::NoDisplay {
        None
    } else {
        Some(d)
    }
}

fn is_hidden_tag(t: &[char]) -> (r: bool)
    ensures
        r == hidden_tag(t@),
{
    chars_are(t, "script") || chars_are(t, "style") || chars_are(t, "head") || chars_are(t, "meta")
        || chars_are(t, "link") || chars_are(t, "title")
}

/// Decides whether a node gets a box and, if so, the display it reports to
/// its parent (see [`box_display`]).
pub fn node_box_display(
    is_root: bool,
    tag_name: &Option<String>,
    text_content: &Option<String>,
    decls: &Vec<(String, String)>,
) -> (r: Option<Display>)
    ensures
        r == box_display(is_root, text_view(*tag_name), text_view(*text_content), decls@),
{
    let declared = LayoutKeywords::from_declarations(decls).display;
    let d = match tag_name {
        Some(_) => {
            let mut style = KeywordStyle::initial();
            style.display = declared;
            let _ = apply_default_tag_styles(&mut style, tag_name);
            style.display
        },
        None => Display::Inline,
    };
    if !is_root && d == Display::NoDisplay {
        return None;
    }
    match tag_name {
        Some(t) => {
            let c = chars_of(t.as_str());
            if is_hidden_tag(c.as_slice()) {
                return None;
            }
            Some(d)
        },
        None => match text_content {
            None => None,
            Some(text) => {
                let c = chars_of(text.as_str());
                let tc = trim_chars(c.as_slice());
                if tc.len() == 0 {
                    None
                } else {
                    Some(d)
                }
            },
        },
    }
}

/// Decides whether a generated `::before` or `::after` node gets a box and
/// with which display (see [`pseudo_box_display`]).
pub fn pseudo_node_box_display(decls: &Vec<(String, String)>) -> (r: Option<Display>)
    ensures
        r == pseudo_box_display(decls@),
{
    let mut named = false;
    let mut i: usize = 0;
    while i < decls.len()
        invariant
            i <= decls@.len(),
            named == exists|j: int| 0 <= j < i && #[trigger] decls@[j].0@ == "display"@,
        decreases decls@.len() - i,
    {
        let c = chars_of(decls[i].0.as_str());
        if chars_are(c.as_slice(), "display") {
            named = true;
        }
        i = i + 1;
    }
    let d = if named {
        LayoutKeywords::from_declarations(decls).display
    } else {
        Display::Inline
    };
    if d == Display::NoDisplay {
        None
    } else {
        Some(d)
    }
}

/// The block-level tags: their elements are laid out as blocks by default.
pub open spec fn block_level_tag(t: Seq<char>) -> bool {
    t == "div"@ || t == "p"@ || t == "section"@ || t == "article"@ || t == "header"@ || t == "footer"@ || t == "nav"@
        || t == "main"@ || t == "ul"@ || t == "ol"@ || t == "li"@ || t == "h1"@ || t == "h2"@ || t == "h3"@
        || t == "h4"@ || t == "h5"@ || t == "h6"@
}

/// The inline tags: their elements are laid out inline by default.
pub open spec fn inline_tag(t: Seq<char>) -> bool {
    t == "span"@ || t == "a"@ || t == "code"@ || t == "b"@ || t == "strong"@ || t == "i"@ || t == "em"@
}

/// The tags with a default display of their own are not hidden tags.
proof fn lemma_shown_tags(t: Seq<char>)
    ensures
        block_level_tag(t) || inline_tag(t) ==> !hidden_tag(t),
{
    assert(!hidden_tag("div"@)) by {
        reveal_strlit("div");
        reveal_strlit("script");
        reveal_strlit("style");
        reveal_strlit("head");
        reveal_strlit("meta");
        reveal_strlit("link");
        reveal_strlit("title");
        assert("div"@.len() != "script"@.len() && "div"@.len() != "style"@.len() && "div"@.len() != "head"@.len() && "div"@.len() != "meta"@.len() && "div"@.len() != "link"@.len() && "div"@.len() != "title"@.len());
    }
    assert(!hidden_tag("p"@)) by {
        reveal_strlit("p");
        reveal_strlit("script");
        reveal_strlit("style");
        reveal_strlit("head");
        reveal_strlit("meta");
        reveal_strlit("link");
        reveal_strlit("title");
        assert("p"@.len() != "script"@.len() && "p"@.len() != "style"@.len() && "p"@.len() != "head"@.len() && "p"@.len() != "meta"@.len() && "p"@.len() != "link"@.len() && "p"@.len() != "title"@.len());
    }
    assert(!hidden_tag("section"@)) by {
        reveal_strlit("section");
        reveal_strlit("script");
        reveal_strlit("style");
        reveal_strlit("head");
        reveal_strlit("meta");
        reveal_strlit("link");
        reveal_strlit("title");
        assert("section"@.len() != "script"@.len() && "section"@.len() != "style"@.len() && "section"@.len() != "head"@.len() && "section"@.len() != "meta"@.len() && "section"@.len() != "link"@.len() && "section"@.len() != "title"@.len());
    }
    assert(!hidden_tag("article"@)) by {
        reveal_strlit("article");
        reveal_strlit("script");
        reveal_strlit("style");
        reveal_strlit("head");
        reveal_strlit("meta");
        reveal_strlit("link");
        reveal_strlit("title");
        assert("article"@.len() != "script"@.len() && "article"@.len() != "style"@.len() && "article"@.len() != "head"@.len() && "article"@.len() != "meta"@.len() && "article"@.len() != "link"@.len() && "article"@.len() != "title"@.len());
    }
    assert(!hidden_tag("header"@)) by {
        reveal_strlit("header");
        reveal_strlit("script");
        reveal_strlit("style");
        reveal_strlit("head");
        reveal_strlit("meta");
        reveal_strlit("link");
        reveal_strlit("title");
        assert("header"@[0] != "script"@[0] && "header"@.len() != "style"@.len() && "header"@.len() != "head"@.len() && "header"@.len() != "meta"@.len() && "header"@.len() != "link"@.len() && "header"@.len() != "title"@.len());
    }
    assert(!hidden_tag("footer"@)) by {
        reveal_strlit("footer");
        reveal_strlit("script");
        reveal_strlit("style");
        reveal_strlit("head");
        reveal_strlit("meta");
        reveal_strlit("link");
        reveal_strlit("title");
        assert("footer"@[0] != "script"@[0] && "footer"@.len() != "style"@.len() && "footer"@.len() != "head"@.len() && "footer"@.len() != "meta"@.len() && "footer"@.len() != "link"@.len() && "footer"@.len() != "title"@.len());
    }
    assert(!hidden_tag("nav"@)) by {
        reveal_strlit("nav");
        reveal_strlit("script");
        reveal_strlit("style");
        reveal_strlit("head");
        reveal_strlit("meta");
        reveal_strlit("link");
        reveal_strlit("title");
        assert("nav"@.len() != "script"@.len() && "nav"@.len() != "style"@.len() && "nav"@.len() != "head"@.len() && "nav"@.len() != "meta"@.len() && "nav"@.len() != "link"@.len() && "nav"@.len() != "title"@.len());
    }
    assert(!hidden_tag("main"@)) by {
        reveal_strlit("main");
        reveal_strlit("script");
        reveal_strlit("style");
        reveal_strlit("head");
        reveal_strlit("meta");
        reveal_strlit("link");
        reveal_strlit("title");
        assert("main"@.len() != "script"@.len() && "main"@.len() != "style"@.len() && "main"@[0] != "head"@[0] && "main"@[1] != "meta"@[1] && "main"@[0] != "link"@[0] && "main"@.len() != "title"@.len());
    }
    assert(!hidden_tag("ul"@)) by {
        reveal_strlit("ul");
        reveal_strlit("script");
        reveal_strlit("style");
        reveal_strlit("head");
        reveal_strlit("meta");
        reveal_strlit("link");
        reveal_strlit("title");
        assert("ul"@.len() != "script"@.len() && "ul"@.len() != "style"@.len() && "ul"@.len() != "head"@.len() && "ul"@.len() != "meta"@.len() && "ul"@.len() != "link"@.len() && "ul"@.len() != "title"@.len());
    }
    assert(!hidden_tag("ol"@)) by {
        reveal_strlit("ol");
        reveal_strlit("script");
        reveal_strlit("style");
        reveal_strlit("head");
        reveal_strlit("meta");
        reveal_strlit("link");
        reveal_strlit("title");
        assert("ol"@.len() != "script"@.len() && "ol"@.len() != "style"@.len() && "ol"@.len() != "head"@.len() && "ol"@.len() != "meta"@.len() && "ol"@.len() != "link"@.len() && "ol"@.len() != "title"@.len());
    }
    assert(!hidden_tag("li"@)) by {
        reveal_strlit("li");
        reveal_strlit("script");
        reveal_strlit("style");
        reveal_strlit("head");
        reveal_strlit("meta");
        reveal_strlit("link");
        reveal_strlit("title");
        assert("li"@.len() != "script"@.len() && "li"@.len() != "style"@.len() && "li"@.len() != "head"@.len() && "li"@.len() != "meta"@.len() && "li"@.len() != "link"@.len() && "li"@.len() != "title"@.len());
    }
    assert(!hidden_tag("h1"@)) by {
        reveal_strlit("h1");
        reveal_strlit("script");
        reveal_strlit("style");
        reveal_strlit("head");
        reveal_strlit("meta");
        reveal_strlit("link");
        reveal_strlit("title");
        assert("h1"@.len() != "script"@.len() && "h1"@.len() != "style"@.len() && "h1"@.len() != "head"@.len() && "h1"@.len() != "meta"@.len() && "h1"@.len() != "link"@.len() && "h1"@.len() != "title"@.len());
    }
    assert(!hidden_tag("h2"@)) by {
        reveal_strlit("h2");
        reveal_strlit("script");
        reveal_strlit("style");
        reveal_strlit("head");
        reveal_strlit("meta");
        reveal_strlit("link");
        reveal_strlit("title");
        assert("h2"@.len() != "script"@.len() && "h2"@.len() != "style"@.len() && "h2"@.len() != "head"@.len() && "h2"@.len() != "meta"@.len() && "h2"@.len() != "link"@.len() && "h2"@.len() != "title"@.len());
    }
    assert(!hidden_tag("h3"@)) by {
        reveal_strlit("h3");
        reveal_strlit("script");
        reveal_strlit("style");
        reveal_strlit("head");
        reveal_strlit("meta");
        reveal_strlit("link");
        reveal_strlit("title");
        assert("h3"@.len() != "script"@.len() && "h3"@.len() != "style"@.len() && "h3"@.len() != "head"@.len() && "h3"@.len() != "meta"@.len() && "h3"@.len() != "link"@.len() && "h3"@.len() != "title"@.len());
    }
    assert(!hidden_tag("h4"@)) by {
        reveal_strlit("h4");
        reveal_strlit("script");
        reveal_strlit("style");
        reveal_strlit("head");
        reveal_strlit("meta");
        reveal_strlit("link");
        reveal_strlit("title");
        assert("h4"@.len() != "script"@.len() && "h4"@.len() != "style"@.len() && "h4"@.len() != "head"@.len() && "h4"@.len() != "meta"@.len() && "h4"@.len() != "link"@.len() && "h4"@.len() != "title"@.len());
    }
    assert(!hidden_tag("h5"@)) by {
        reveal_strlit("h5");
        reveal_strlit("script");
        reveal_strlit("style");
        reveal_strlit("head");
        reveal_strlit("meta");
        reveal_strlit("link");
        reveal_strlit("title");
        assert("h5"@.len() != "script"@.len() && "h5"@.len() != "style"@.len() && "h5"@.len() != "head"@.len() && "h5"@.len() != "meta"@.len() && "h5"@.len() != "link"@.len() && "h5"@.len() != "title"@.len());
    }
    assert(!hidden_tag("h6"@)) by {
        reveal_strlit("h6");
        reveal_strlit("script");
        reveal_strlit("style");
        reveal_strlit("head");
        reveal_strlit("meta");
        reveal_strlit("link");
        reveal_strlit("title");
        assert("h6"@.len() != "script"@.len() && "h6"@.len() != "style"@.len() && "h6"@.len() != "head"@.len() && "h6"@.len() != "meta"@.len() && "h6"@.len() != "link"@.len() && "h6"@.len() != "title"@.len());
    }
    assert(!hidden_tag("span"@)) by {
        reveal_strlit("span");
        reveal_strlit("script");
        reveal_strlit("style");
        reveal_strlit("head");
        reveal_strlit("meta");
        reveal_strlit("link");
        reveal_strlit("title");
        assert("span"@.len() != "script"@.len() && "span"@.len() != "style"@.len() && "span"@[0] != "head"@[0] && "span"@[0] != "meta"@[0] && "span"@[0] != "link"@[0] && "span"@.len() != "title"@.len());
    }
    assert(!hidden_tag("a"@)) by {
        reveal_strlit("a");
        reveal_strlit("script");
        reveal_strlit("style");
        reveal_strlit("head");
        reveal_strlit("meta");
        reveal_strlit("link");
        reveal_strlit("title");
        assert("a"@.len() != "script"@.len() && "a"@.len() != "style"@.len() && "a"@.len() != "head"@.len() && "a"@.len() != "meta"@.len() && "a"@.len() != "link"@.len() && "a"@.len() != "title"@.len());
    }
    assert(!hidden_tag("code"@)) by {
        reveal_strlit("code");
        reveal_strlit("script");
        reveal_strlit("style");
        reveal_strlit("head");
        reveal_strlit("meta");
        reveal_strlit("link");
        reveal_strlit("title");
        assert("code"@.len() != "script"@.len() && "code"@.len() != "style"@.len() && "code"@[0] != "head"@[0] && "code"@[0] != "meta"@[0] && "code"@[0] != "link"@[0] && "code"@.len() != "title"@.len());
    }
    assert(!hidden_tag("b"@)) by {
        reveal_strlit("b");
        reveal_strlit("script");
        reveal_strlit("style");
        reveal_strlit("head");
        reveal_strlit("meta");
        reveal_strlit("link");
        reveal_strlit("title");
        assert("b"@.len() != "script"@.len() && "b"@.len() != "style"@.len() && "b"@.len() != "head"@.len() && "b"@.len() != "meta"@.len() && "b"@.len() != "link"@.len() && "b"@.len() != "title"@.len());
    }
    assert(!hidden_tag("strong"@)) by {
        reveal_strlit("strong");
        reveal_strlit("script");
        reveal_strlit("style");
        reveal_strlit("head");
        reveal_strlit("meta");
        reveal_strlit("link");
        reveal_strlit("title");
        assert("strong"@[1] != "script"@[1] && "strong"@.len() != "style"@.len() && "strong"@.len() != "head"@.len() && "strong"@.len() != "meta"@.len() && "strong"@.len() != "link"@.len() && "strong"@.len() != "title"@.len());
    }
    assert(!hidden_tag("i"@)) by {
        reveal_strlit("i");
        reveal_strlit("script");
        reveal_strlit("style");
        reveal_strlit("head");
        reveal_strlit("meta");
        reveal_strlit("link");
        reveal_strlit("title");
        assert("i"@.len() != "script"@.len() && "i"@.len() != "style"@.len() && "i"@.len() != "head"@.len() && "i"@.len() != "meta"@.len() && "i"@.len() != "link"@.len() && "i"@.len() != "title"@.len());
    }
    assert(!hidden_tag("em"@)) by {
        reveal_strlit("em");
        reveal_strlit("script");
        reveal_strlit("style");
        reveal_strlit("head");
        reveal_strlit("meta");
        reveal_strlit("link");
        reveal_strlit("title");
        assert("em"@.len() != "script"@.len() && "em"@.len() != "style"@.len() && "em"@.len() != "head"@.len() && "em"@.len() != "meta"@.len() && "em"@.len() != "link"@.len() && "em"@.len() != "title"@.len());
    }
}

/// Tag defaults decide the display of the common elements, whatever was
/// declared: block-level elements are blocks, inline ones are inline.
pub proof fn lemma_tag_defaults_display(t: Seq<char>)
    ensures
        block_level_tag(t) ==> forall|s: KeywordStyle| #[trigger] tag_defaults(s, t).0.display == Display::Block,
        inline_tag(t) ==> forall|s: KeywordStyle| #[trigger] tag_defaults(s, t).0.display == Display::Inline,
{
    assert forall|s: KeywordStyle| #[trigger] tag_defaults(s, "div"@).0.display == Display::Block by {
        reveal_strlit("h1");
        reveal_strlit("h2");
        reveal_strlit("h3");
        reveal_strlit("h4");
        reveal_strlit("h5");
        reveal_strlit("h6");
        reveal_strlit("b");
        reveal_strlit("strong");
        reveal_strlit("i");
        reveal_strlit("em");
        reveal_strlit("div");
        assert("div"@.len() != "h1"@.len() && "div"@.len() != "h2"@.len() && "div"@.len() != "h3"@.len() && "div"@.len() != "h4"@.len() && "div"@.len() != "h5"@.len() && "div"@.len() != "h6"@.len() && "div"@.len() != "b"@.len() && "div"@.len() != "strong"@.len() && "div"@.len() != "i"@.len() && "div"@.len() != "em"@.len());
    }
    assert forall|s: KeywordStyle| #[trigger] tag_defaults(s, "p"@).0.display == Display::Block by {
        reveal_strlit("h1");
        reveal_strlit("h2");
        reveal_strlit("h3");
        reveal_strlit("h4");
        reveal_strlit("h5");
        reveal_strlit("h6");
        reveal_strlit("b");
        reveal_strlit("strong");
        reveal_strlit("i");
        reveal_strlit("em");
        reveal_strlit("div");
        reveal_strlit("p");
        assert("p"@.len() != "h1"@.len() && "p"@.len() != "h2"@.len() && "p"@.len() != "h3"@.len() && "p"@.len() != "h4"@.len() && "p"@.len() != "h5"@.len() && "p"@.len() != "h6"@.len() && "p"@[0] != "b"@[0] && "p"@.len() != "strong"@.len() && "p"@[0] != "i"@[0] && "p"@.len() != "em"@.len() && "p"@.len() != "div"@.len());
    }
    assert forall|s: KeywordStyle| #[trigger] tag_defaults(s, "section"@).0.display == Display::Block by {
        reveal_strlit("h1");
        reveal_strlit("h2");
        reveal_strlit("h3");
        reveal_strlit("h4");
        reveal_strlit("h5");
        reveal_strlit("h6");
        reveal_strlit("b");
        reveal_strlit("strong");
        reveal_strlit("i");
        reveal_strlit("em");
        reveal_strlit("div");
        reveal_strlit("p");
        reveal_strlit("section");
        assert("section"@.len() != "h1"@.len() && "section"@.len() != "h2"@.len() && "section"@.len() != "h3"@.len() && "section"@.len() != "h4"@.len() && "section"@.len() != "h5"@.len() && "section"@.len() != "h6"@.len() && "section"@.len() != "b"@.len() && "section"@.len() != "strong"@.len() && "section"@.len() != "i"@.len() && "section"@.len() != "em"@.len() && "section"@.len() != "div"@.len() && "section"@.len() != "p"@.len());
    }
    assert forall|s: KeywordStyle| #[trigger] tag_defaults(s, "article"@).0.display == Display::Block by {
        reveal_strlit("h1");
        reveal_strlit("h2");
        reveal_strlit("h3");
        reveal_strlit("h4");
        reveal_strlit("h5");
        reveal_strlit("h6");
        reveal_strlit("b");
        reveal_strlit("strong");
        reveal_strlit("i");
        reveal_strlit("em");
        reveal_strlit("div");
        reveal_strlit("p");
        reveal_strlit("section");
        reveal_strlit("article");
        assert("article"@.len() != "h1"@.len() && "article"@.len() != "h2"@.len() && "article"@.len() != "h3"@.len() && "article"@.len() != "h4"@.len() && "article"@.len() != "h5"@.len() && "article"@.len() != "h6"@.len() && "article"@.len() != "b"@.len() && "article"@.len() != "strong"@.len() && "article"@.len() != "i"@.len() && "article"@.len() != "em"@.len() && "article"@.len() != "div"@.len() && "article"@.len() != "p"@.len() && "article"@[0] != "section"@[0]);
    }
    assert forall|s: KeywordStyle| #[trigger] tag_defaults(s, "header"@).0.display == Display::Block by {
        reveal_strlit("h1");
        reveal_strlit("h2");
        reveal_strlit("h3");
        reveal_strlit("h4");
        reveal_strlit("h5");
        reveal_strlit("h6");
        reveal_strlit("b");
        reveal_strlit("strong");
        reveal_strlit("i");
        reveal_strlit("em");
        reveal_strlit("div");
        reveal_strlit("p");
        reveal_strlit("section");
        reveal_strlit("article");
        reveal_strlit("header");
        assert("header"@.len() != "h1"@.len() && "header"@.len() != "h2"@.len() && "header"@.len() != "h3"@.len() && "header"@.len() != "h4"@.len() && "header"@.len() != "h5"@.len() && "header"@.len() != "h6"@.len() && "header"@.len() != "b"@.len() && "header"@[0] != "strong"@[0] && "header"@.len() != "i"@.len() && "header"@.len() != "em"@.len() && "header"@.len() != "div"@.len() && "header"@.len() != "p"@.len() && "header"@.len() != "section"@.len() && "header"@.len() != "article"@.len());
    }
    assert forall|s: KeywordStyle| #[trigger] tag_defaults(s, "footer"@).0.display == Display::Block by {
        reveal_strlit("h1");
        reveal_strlit("h2");
        reveal_strlit("h3");
        reveal_strlit("h4");
        reveal_strlit("h5");
        reveal_strlit("h6");
        reveal_strlit("b");
        reveal_strlit("strong");
        reveal_strlit("i");
        reveal_strlit("em");
        reveal_strlit("div");
        reveal_strlit("p");
        reveal_strlit("section");
        reveal_strlit("article");
        reveal_strlit("header");
        reveal_strlit("footer");
        assert("footer"@.len() != "h1"@.len() && "footer"@.len() != "h2"@.len() && "footer"@.len() != "h3"@.len() && "footer"@.len() != "h4"@.len() && "footer"@.len() != "h5"@.len() && "footer"@.len() != "h6"@.len() && "footer"@.len() != "b"@.len() && "footer"@[0] != "strong"@[0] && "footer"@.len() != "i"@.len() && "footer"@.len() != "em"@.len() && "footer"@.len() != "div"@.len() && "footer"@.len() != "p"@.len() && "footer"@.len() != "section"@.len() && "footer"@.len() != "article"@.len() && "footer"@[0] != "header"@[0]);
    }
    assert forall|s: KeywordStyle| #[trigger] tag_defaults(s, "nav"@).0.display == Display::Block by {
        reveal_strlit("h1");
        reveal_strlit("h2");
        reveal_strlit("h3");
        reveal_strlit("h4");
        reveal_strlit("h5");
        reveal_strlit("h6");
        reveal_strlit("b");
        reveal_strlit("strong");
        reveal_strlit("i");
        reveal_strlit("em");
        reveal_strlit("div");
        reveal_strlit("p");
        reveal_strlit("section");
        reveal_strlit("article");
        reveal_strlit("header");
        reveal_strlit("footer");
        reveal_strlit("nav");
        assert("nav"@.len() != "h1"@.len() && "nav"@.len() != "h2"@.len() && "nav"@.len() != "h3"@.len() && "nav"@.len() != "h4"@.len() && "nav"@.len() != "h5"@.len() && "nav"@.len() != "h6"@.len() && "nav"@.len() != "b"@.len() && "nav"@.len() != "strong"@.len() && "nav"@.len() != "i"@.len() && "nav"@.len() != "em"@.len() && "nav"@[0] != "div"@[0] && "nav"@.len() != "p"@.len() && "nav"@.len() != "section"@.len() && "nav"@.len() != "article"@.len() && "nav"@.len() != "header"@.len() && "nav"@.len() != "footer"@.len());
    }
    assert forall|s: KeywordStyle| #[trigger] tag_defaults(s, "main"@).0.display == Display::Block by {
        reveal_strlit("h1");
        reveal_strlit("h2");
        reveal_strlit("h3");
        reveal_strlit("h4");
        reveal_strlit("h5");
        reveal_strlit("h6");
        reveal_strlit("b");
        reveal_strlit("strong");
        reveal_strlit("i");
        reveal_strlit("em");
        reveal_strlit("div");
        reveal_strlit("p");
        reveal_strlit("section");
        reveal_strlit("article");
        reveal_strlit("header");
        reveal_strlit("footer");
        reveal_strlit("nav");
        reveal_strlit("main");
        assert("main"@.len() != "h1"@.len() && "main"@.len() != "h2"@.len() && "main"@.len() != "h3"@.len() && "main"@.len() != "h4"@.len() && "main"@.len() != "h5"@.len() && "main"@.len() != "h6"@.len() && "main"@.len() != "b"@.len() && "main"@.len() != "strong"@.len() && "main"@.len() != "i"@.len() && "main"@.len() != "em"@.len() && "main"@.len() != "div"@.len() && "main"@.len() != "p"@.len() && "main"@.len() != "section"@.len() && "main"@.len() != "article"@.len() && "main"@.len() != "header"@.len() && "main"@.len() != "footer"@.len() && "main"@.len() != "nav"@.len());
    }
    assert forall|s: KeywordStyle| #[trigger] tag_defaults(s, "ul"@).0.display == Display::Block by {
        reveal_strlit("h1");
        reveal_strlit("h2");
        reveal_strlit("h3");
        reveal_strlit("h4");
        reveal_strlit("h5");
        reveal_strlit("h6");
        reveal_strlit("b");
        reveal_strlit("strong");
        reveal_strlit("i");
        reveal_strlit("em");
        reveal_strlit("div");
        reveal_strlit("p");
        reveal_strlit("section");
        reveal_strlit("article");
        reveal_strlit("header");
        reveal_strlit("footer");
        reveal_strlit("nav");
        reveal_strlit("main");
        reveal_strlit("ul");
        assert("ul"@[0] != "h1"@[0] && "ul"@[0] != "h2"@[0] && "ul"@[0] != "h3"@[0] && "ul"@[0] != "h4"@[0] && "ul"@[0] != "h5"@[0] && "ul"@[0] != "h6"@[0] && "ul"@.len() != "b"@.len() && "ul"@.len() != "strong"@.len() && "ul"@.len() != "i"@.len() && "ul"@[0] != "em"@[0] && "ul"@.len() != "div"@.len() && "ul"@.len() != "p"@.len() && "ul"@.len() != "section"@.len() && "ul"@.len() != "article"@.len() && "ul"@.len() != "header"@.len() && "ul"@.len() != "footer"@.len() && "ul"@.len() != "nav"@.len() && "ul"@.len() != "main"@.len());
    }
    assert forall|s: KeywordStyle| #[trigger] tag_defaults(s, "ol"@).0.display == Display::Block by {
        reveal_strlit("h1");
        reveal_strlit("h2");
        reveal_strlit("h3");
        reveal_strlit("h4");
        reveal_strlit("h5");
        reveal_strlit("h6");
        reveal_strlit("b");
        reveal_strlit("strong");
        reveal_strlit("i");
        reveal_strlit("em");
        reveal_strlit("div");
        reveal_strlit("p");
        reveal_strlit("section");
        reveal_strlit("article");
        reveal_strlit("header");
        reveal_strlit("footer");
        reveal_strlit("nav");
        reveal_strlit("main");
        reveal_strlit("ul");
        reveal_strlit("ol");
        assert("ol"@[0] != "h1"@[0] && "ol"@[0] != "h2"@[0] && "ol"@[0] != "h3"@[0] && "ol"@[0] != "h4"@[0] && "ol"@[0] != "h5"@[0] && "ol"@[0] != "h6"@[0] && "ol"@.len() != "b"@.len() && "ol"@.len() != "strong"@.len() && "ol"@.len() != "i"@.len() && "ol"@[0] != "em"@[0] && "ol"@.len() != "div"@.len() && "ol"@.len() != "p"@.len() && "ol"@.len() != "section"@.len() && "ol"@.len() != "article"@.len() && "ol"@.len() != "header"@.len() && "ol"@.len() != "footer"@.len() && "ol"@.len() != "nav"@.len() && "ol"@.len() != "main"@.len() && "ol"@[0] != "ul"@[0]);
    }
    assert forall|s: KeywordStyle| #[trigger] tag_defaults(s, "li"@).0.display == Display::Block by {
        reveal_strlit("h1");
        reveal_strlit("h2");
        reveal_strlit("h3");
        reveal_strlit("h4");
        reveal_strlit("h5");
        reveal_strlit("h6");
        reveal_strlit("b");
        reveal_strlit("strong");
        reveal_strlit("i");
        reveal_strlit("em");
        reveal_strlit("div");
        reveal_strlit("p");
        reveal_strlit("section");
        reveal_strlit("article");
        reveal_strlit("header");
        reveal_strlit("footer");
        reveal_strlit("nav");
        reveal_strlit("main");
        reveal_strlit("ul");
        reveal_strlit("ol");
        reveal_strlit("span");
        reveal_strlit("a");
        reveal_strlit("code");
        reveal_strlit("li");
        assert("li"@[0] != "h1"@[0] && "li"@[0] != "h2"@[0] && "li"@[0] != "h3"@[0] && "li"@[0] != "h4"@[0] && "li"@[0] != "h5"@[0] && "li"@[0] != "h6"@[0] && "li"@.len() != "b"@.len() && "li"@.len() != "strong"@.len() && "li"@.len() != "i"@.len() && "li"@[0] != "em"@[0] && "li"@.len() != "div"@.len() && "li"@.len() != "p"@.len() && "li"@.len() != "section"@.len() && "li"@.len() != "article"@.len() && "li"@.len() != "header"@.len() && "li"@.len() != "footer"@.len() && "li"@.len() != "nav"@.len() && "li"@.len() != "main"@.len() && "li"@[0] != "ul"@[0] && "li"@[0] != "ol"@[0] && "li"@.len() != "span"@.len() && "li"@.len() != "a"@.len() && "li"@.len() != "code"@.len());
    }
    assert forall|s: KeywordStyle| #[trigger] tag_defaults(s, "h1"@).0.display == Display::Block by {
        reveal_strlit("h1");
    }
    assert forall|s: KeywordStyle| #[trigger] tag_defaults(s, "h2"@).0.display == Display::Block by {
        reveal_strlit("h1");
        reveal_strlit("h2");
        assert("h2"@[1] != "h1"@[1]);
    }
    assert forall|s: KeywordStyle| #[trigger] tag_defaults(s, "h3"@).0.display == Display::Block by {
        reveal_strlit("h1");
        reveal_strlit("h2");
        reveal_strlit("h3");
        assert("h3"@[1] != "h1"@[1] && "h3"@[1] != "h2"@[1]);
    }
    assert forall|s: KeywordStyle| #[trigger] tag_defaults(s, "h4"@).0.display == Display::Block by {
        reveal_strlit("h1");
        reveal_strlit("h2");
        reveal_strlit("h3");
        reveal_strlit("h4");
        assert("h4"@[1] != "h1"@[1] && "h4"@[1] != "h2"@[1] && "h4"@[1] != "h3"@[1]);
    }
    assert forall|s: KeywordStyle| #[trigger] tag_defaults(s, "h5"@).0.display == Display::Block by {
        reveal_strlit("h1");
        reveal_strlit("h2");
        reveal_strlit("h3");
        reveal_strlit("h4");
        reveal_strlit("h5");
        assert("h5"@[1] != "h1"@[1] && "h5"@[1] != "h2"@[1] && "h5"@[1] != "h3"@[1] && "h5"@[1] != "h4"@[1]);
    }
    assert forall|s: KeywordStyle| #[trigger] tag_defaults(s, "h6"@).0.display == Display::Block by {
        reveal_strlit("h1");
        reveal_strlit("h2");
        reveal_strlit("h3");
        reveal_strlit("h4");
        reveal_strlit("h5");
        reveal_strlit("h6");
        assert("h6"@[1] != "h1"@[1] && "h6"@[1] != "h2"@[1] && "h6"@[1] != "h3"@[1] && "h6"@[1] != "h4"@[1] && "h6"@[1] != "h5"@[1]);
    }
    assert forall|s: KeywordStyle| #[trigger] tag_defaults(s, "span"@).0.display == Display::Inline by {
        reveal_strlit("h1");
        reveal_strlit("h2");
        reveal_strlit("h3");
        reveal_strlit("h4");
        reveal_strlit("h5");
        reveal_strlit("h6");
        reveal_strlit("b");
        reveal_strlit("strong");
        reveal_strlit("i");
        reveal_strlit("em");
        reveal_strlit("div");
        reveal_strlit("p");
        reveal_strlit("section");
        reveal_strlit("article");
        reveal_strlit("header");
        reveal_strlit("footer");
        reveal_strlit("nav");
        reveal_strlit("main");
        reveal_strlit("ul");
        reveal_strlit("ol");
        reveal_strlit("span");
        assert("span"@.len() != "h1"@.len() && "span"@.len() != "h2"@.len() && "span"@.len() != "h3"@.len() && "span"@.len() != "h4"@.len() && "span"@.len() != "h5"@.len() && "span"@.len() != "h6"@.len() && "span"@.len() != "b"@.len() && "span"@.len() != "strong"@.len() && "span"@.len() != "i"@.len() && "span"@.len() != "em"@.len() && "span"@.len() != "div"@.len() && "span"@.len() != "p"@.len() && "span"@.len() != "section"@.len() && "span"@.len() != "article"@.len() && "span"@.len() != "header"@.len() && "span"@.len() != "footer"@.len() && "span"@.len() != "nav"@.len() && "span"@[0] != "main"@[0] && "span"@.len() != "ul"@.len() && "span"@.len() != "ol"@.len());
    }
    assert forall|s: KeywordStyle| #[trigger] tag_defaults(s, "a"@).0.display == Display::Inline by {
        reveal_strlit("h1");
        reveal_strlit("h2");
        reveal_strlit("h3");
        reveal_strlit("h4");
        reveal_strlit("h5");
        reveal_strlit("h6");
        reveal_strlit("b");
        reveal_strlit("strong");
        reveal_strlit("i");
        reveal_strlit("em");
        reveal_strlit("div");
        reveal_strlit("p");
        reveal_strlit("section");
        reveal_strlit("article");
        reveal_strlit("header");
        reveal_strlit("footer");
        reveal_strlit("nav");
        reveal_strlit("main");
        reveal_strlit("ul");
        reveal_strlit("ol");
        reveal_strlit("span");
        reveal_strlit("a");
        assert("a"@.len() != "h1"@.len() && "a"@.len() != "h2"@.len() && "a"@.len() != "h3"@.len() && "a"@.len() != "h4"@.len() && "a"@.len() != "h5"@.len() && "a"@.len() != "h6"@.len() && "a"@[0] != "b"@[0] && "a"@.len() != "strong"@.len() && "a"@[0] != "i"@[0] && "a"@.len() != "em"@.len() && "a"@.len() != "div"@.len() && "a"@[0] != "p"@[0] && "a"@.len() != "section"@.len() && "a"@.len() != "article"@.len() && "a"@.len() != "header"@.len() && "a"@.len() != "footer"@.len() && "a"@.len() != "nav"@.len() && "a"@.len() != "main"@.len() && "a"@.len() != "ul"@.len() && "a"@.len() != "ol"@.len() && "a"@.len() != "span"@.len());
    }
    assert forall|s: KeywordStyle| #[trigger] tag_defaults(s, "code"@).0.display == Display::Inline by {
        reveal_strlit("h1");
        reveal_strlit("h2");
        reveal_strlit("h3");
        reveal_strlit("h4");
        reveal_strlit("h5");
        reveal_strlit("h6");
        reveal_strlit("b");
        reveal_strlit("strong");
        reveal_strlit("i");
        reveal_strlit("em");
        reveal_strlit("div");
        reveal_strlit("p");
        reveal_strlit("section");
        reveal_strlit("article");
        reveal_strlit("header");
        reveal_strlit("footer");
        reveal_strlit("nav");
        reveal_strlit("main");
        reveal_strlit("ul");
        reveal_strlit("ol");
        reveal_strlit("span");
        reveal_strlit("a");
        reveal_strlit("code");
        assert("code"@.len() != "h1"@.len() && "code"@.len() != "h2"@.len() && "code"@.len() != "h3"@.len() && "code"@.len() != "h4"@.len() && "code"@.len() != "h5"@.len() && "code"@.len() != "h6"@.len() && "code"@.len() != "b"@.len() && "code"@.len() != "strong"@.len() && "code"@.len() != "i"@.len() && "code"@.len() != "em"@.len() && "code"@.len() != "div"@.len() && "code"@.len() != "p"@.len() && "code"@.len() != "section"@.len() && "code"@.len() != "article"@.len() && "code"@.len() != "header"@.len() && "code"@.len() != "footer"@.len() && "code"@.len() != "nav"@.len() && "code"@[0] != "main"@[0] && "code"@.len() != "ul"@.len() && "code"@.len() != "ol"@.len() && "code"@[0] != "span"@[0] && "code"@.len() != "a"@.len());
    }
    assert forall|s: KeywordStyle| #[trigger] tag_defaults(s, "b"@).0.display == Display::Inline by {
        reveal_strlit("h1");
        reveal_strlit("h2");
        reveal_strlit("h3");
        reveal_strlit("h4");
        reveal_strlit("h5");
        reveal_strlit("h6");
        reveal_strlit("b");
        assert("b"@.len() != "h1"@.len() && "b"@.len() != "h2"@.len() && "b"@.len() != "h3"@.len() && "b"@.len() != "h4"@.len() && "b"@.len() != "h5"@.len() && "b"@.len() != "h6"@.len());
    }
    assert forall|s: KeywordStyle| #[trigger] tag_defaults(s, "strong"@).0.display == Display::Inline by {
        reveal_strlit("h1");
        reveal_strlit("h2");
        reveal_strlit("h3");
        reveal_strlit("h4");
        reveal_strlit("h5");
        reveal_strlit("h6");
        reveal_strlit("b");
        reveal_strlit("strong");
        assert("strong"@.len() != "h1"@.len() && "strong"@.len() != "h2"@.len() && "strong"@.len() != "h3"@.len() && "strong"@.len() != "h4"@.len() && "strong"@.len() != "h5"@.len() && "strong"@.len() != "h6"@.len() && "strong"@.len() != "b"@.len());
    }
    assert forall|s: KeywordStyle| #[trigger] tag_defaults(s, "i"@).0.display == Display::Inline by {
        reveal_strlit("h1");
        reveal_strlit("h2");
        reveal_strlit("h3");
        reveal_strlit("h4");
        reveal_strlit("h5");
        reveal_strlit("h6");
        reveal_strlit("b");
        reveal_strlit("strong");
        reveal_strlit("i");
        assert("i"@.len() != "h1"@.len() && "i"@.len() != "h2"@.len() && "i"@.len() != "h3"@.len() && "i"@.len() != "h4"@.len() && "i"@.len() != "h5"@.len() && "i"@.len() != "h6"@.len() && "i"@[0] != "b"@[0] && "i"@.len() != "strong"@.len());
    }
    assert forall|s: KeywordStyle| #[trigger] tag_defaults(s, "em"@).0.display == Display::Inline by {
        reveal_strlit("h1");
        reveal_strlit("h2");
        reveal_strlit("h3");
        reveal_strlit("h4");
        reveal_strlit("h5");
        reveal_strlit("h6");
        reveal_strlit("b");
        reveal_strlit("strong");
        reveal_strlit("i");
        reveal_strlit("em");
        assert("em"@[0] != "h1"@[0] && "em"@[0] != "h2"@[0] && "em"@[0] != "h3"@[0] && "em"@[0] != "h4"@[0] && "em"@[0] != "h5"@[0] && "em"@[0] != "h6"@[0] && "em"@.len() != "b"@.len() && "em"@.len() != "strong"@.len() && "em"@.len() != "i"@.len());
    }
}

/// Whatever its declarations, a (non-root) element of a block-level tag
/// gets a block box, and one of an inline tag an inline box.
pub proof fn lemma_tag_display(t: Seq<char>, decls: Seq<(String, String)>)
    ensures
        block_level_tag(t) ==> box_display(false, Some(t), None, decls) == Some(Display::Block),
        inline_tag(t) ==> box_display(false, Some(t), None, decls) == Some(Display::Inline),
{
    lemma_tag_defaults_display(t);
    lemma_shown_tags(t);
    let d = layout_of(decls).display;
    let s0 = KeywordStyle {
        display: d,
        position: Position::Static,
        font_weight: FontWeight::Normal,
        font_style: FontStyle::Normal,
        list_style_type: ListStyleType::NoMarker,
    };
    assert(tag_display(d, t) == tag_defaults(s0, t).0.display);
}
} // verus!
