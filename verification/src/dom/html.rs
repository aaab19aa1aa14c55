//! HTML parsing and selector queries, delegated to the `scraper` crate.

use vstd::prelude::*;

verus! {

/// What a selector query on an HTML document yields: for each matched
/// element in document order, its `id` attribute (if any) and its tag name;
/// `None` when the selector does not parse.
pub uninterp spec fn html_select(
    source: Seq<char>,
    selector: Seq<char>,
) -> Option<Seq<(Option<Seq<char>>, Seq<char>)>>;

/// The view of one match.
pub open spec fn match_view(m: (Option<String>, String)) -> (Option<Seq<char>>, Seq<char>) {
    (
        match m.0 {
            Some(s) => Some(s@),
            None => None,
        },
        m.1@,
    )
}

/// The views of a list of matches.
pub open spec fn matches_view(v: Seq<(Option<String>, String)>) -> Seq<(Option<Seq<char>>, Seq<char>)> {
    v.map_values(|m: (Option<String>, String)| match_view(m))
}

/// Parses `source` with `scraper::Html::parse_document`, parses `selector`
/// with `scraper::Selector::parse`, and lists the matched elements with
/// `Html::select`.  The result is named by [`html_select`]: it depends on
/// the two strings only.
#[verifier::external_body]
pub(crate) fn select_in_html(source: &str, selector: &str) -> (r: Option<Vec<(Option<String>, String)>>)
    ensures
        match r {
            None => html_select(source@, selector@).is_none(),
            Some(v) => html_select(source@, selector@) == Some(matches_view(v@)),
        },
{
    let html = scraper::Html::parse_document(source);
    let sel = scraper::Selector::parse(selector).ok()?;
    Some(html.select(&sel).map(|e| (e.attr("id").map(|s| s.to_string()), e.value().name().to_string())).collect())
}

/// One node of a parsed document in document order: its depth (number of
/// ancestors), and either its tag name and attributes (an element), or its
/// text (a text node), or neither (comments and other nodes).
#[derive(Debug)]
pub struct OutlineEntry {
    pub depth: usize,
    pub element: Option<(String, Vec<(String, String)>)>,
    pub text: Option<String>,
}

/// The view of an outline entry.
pub type OutlineView = (usize, Option<(Seq<char>, Seq<(Seq<char>, Seq<char>)>)>, Option<Seq<char>>);

/// The views of attribute pairs.
pub open spec fn pairs_view(v: Seq<(String, String)>) -> Seq<(Seq<char>, Seq<char>)> {
    v.map_values(|p: (String, String)| (p.0@, p.1@))
}

/// The view of one outline entry.
pub open spec fn entry_view(e: OutlineEntry) -> OutlineView {
    (
        e.depth,
        match e.element {
            Some(el) => Some((el.0@, pairs_view(el.1@))),
            None => None,
        },
        match e.text {
            Some(t) => Some(t@),
            None => None,
        },
    )
}

/// The views of a list of outline entries.
pub open spec fn outline_view(v: Seq<OutlineEntry>) -> Seq<OutlineView> {
    v.map_values(|e: OutlineEntry| entry_view(e))
}

/// The outline of an HTML document: the root `<html>` element and all its
/// descendants in document order.
pub uninterp spec fn html_outline(source: Seq<char>) -> Seq<OutlineView>;

/// Parses `source` with `scraper::Html::parse_document` and lists the root
/// element and its descendants (`descendants()`, document order), each
/// with its depth (`ancestors().count()`), element name and attributes, or
/// text.  The result is named by [`html_outline`]: it depends on the string
/// only.
#[verifier::external_body]
pub(crate) fn outline_of(source: &str) -> (r: Vec<OutlineEntry>)
    ensures
        outline_view(r@) == html_outline(source@),
{
    let html = scraper::Html::parse_document(source);
    let root = html.root_element();
    root.descendants().map(|n| OutlineEntry {
        depth: n.ancestors().count(),
        element: n.value().as_element().map(|e| (e.name().to_string(), e.attrs().map(|(k, v)| (k.to_string(), v.to_string())).collect())),
        text: n.value().as_text().map(|t| t.to_string()),
    }).collect()
}

} // verus!
