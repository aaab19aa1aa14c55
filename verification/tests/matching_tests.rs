use zver::css::matching::NodeAdapter;
use zver::css::selectors::NonTSPseudoClass;
use zver::dom::document::Document;
use zver::dom::node::ElementState;

fn doc() -> Document {
    let mut d = Document::new();
    d.parse_html(
        r#"<html><body><ul id="list"><li id="a" class="x  y">A</li><li id="b">B</li><p id="c"></p><li id="d"> </li></ul><form><input id="cb" type="CheckBox" checked><input id="t" placeholder="p" required><option id="o" selected>o</option><a id="l" href="/x">l</a><span id="inv" aria-invalid="TRUE">s</span></form></body></html>"#,
    );
    d
}

fn el<'a>(d: &'a Document, id: &str) -> NodeAdapter<'a> {
    NodeAdapter::new(d, d.get_element_by_id(id).unwrap()).unwrap()
}

#[test]
fn test_structural_pseudo_classes() {
    let d = doc();
    assert!(el(&d, "a").match_non_ts_pseudo_class(&NonTSPseudoClass::FirstChild));
    assert!(!el(&d, "b").match_non_ts_pseudo_class(&NonTSPseudoClass::FirstChild));
    assert!(el(&d, "d").match_non_ts_pseudo_class(&NonTSPseudoClass::LastChild));
    assert!(el(&d, "c").match_non_ts_pseudo_class(&NonTSPseudoClass::FirstOfType));
    assert!(el(&d, "c").match_non_ts_pseudo_class(&NonTSPseudoClass::LastOfType));
    assert!(el(&d, "d").match_non_ts_pseudo_class(&NonTSPseudoClass::LastOfType));
    assert!(!el(&d, "b").match_non_ts_pseudo_class(&NonTSPseudoClass::LastOfType));
    assert!(!el(&d, "a").match_non_ts_pseudo_class(&NonTSPseudoClass::OnlyChild));
    assert_eq!(el(&d, "b").structural_position(), Some((2, 4)));
    assert_eq!(el(&d, "d").type_position(), Some((3, 3)));
}

#[test]
fn test_state_pseudo_classes() {
    let mut d = doc();
    let cb = d.get_element_by_id("cb").unwrap();
    d.set_element_state(cb, ElementState::hover(), true).unwrap();
    let a = NodeAdapter::new(&d, cb).unwrap();
    assert!(a.match_non_ts_pseudo_class(&NonTSPseudoClass::Hover));
    assert!(a.match_non_ts_pseudo_class(&NonTSPseudoClass::Checked));
    assert!(a.match_non_ts_pseudo_class(&NonTSPseudoClass::Enabled));
    assert!(a.match_non_ts_pseudo_class(&NonTSPseudoClass::ReadWrite));
    assert!(!a.match_non_ts_pseudo_class(&NonTSPseudoClass::Disabled));
    let t = el(&d, "t");
    assert!(t.match_non_ts_pseudo_class(&NonTSPseudoClass::PlaceholderShown));
    assert!(t.match_non_ts_pseudo_class(&NonTSPseudoClass::Required));
    assert!(!t.match_non_ts_pseudo_class(&NonTSPseudoClass::Optional));
    assert!(!t.match_non_ts_pseudo_class(&NonTSPseudoClass::Checked));
    assert!(el(&d, "o").match_non_ts_pseudo_class(&NonTSPseudoClass::Checked));
    assert!(el(&d, "l").match_non_ts_pseudo_class(&NonTSPseudoClass::Link));
    assert!(!el(&d, "l").match_non_ts_pseudo_class(&NonTSPseudoClass::Visited));
    assert!(el(&d, "l").match_non_ts_pseudo_class(&NonTSPseudoClass::ReadOnly));
    assert!(el(&d, "inv").match_non_ts_pseudo_class(&NonTSPseudoClass::Invalid));
    assert!(!el(&d, "inv").match_non_ts_pseudo_class(&NonTSPseudoClass::Valid));
}

#[test]
fn classes_ids_emptiness_and_siblings() {
    let d = doc();
    let a = el(&d, "a");
    assert!(a.has_class("y", true));
    assert!(!a.has_class("Y", true));
    assert!(a.has_class("Y", false));
    assert!(!a.has_class("x y", true));
    assert!(a.has_id("A", false));
    assert!(!a.has_id("A", true));
    assert!(el(&d, "c").is_empty());
    assert!(el(&d, "d").is_empty());
    assert!(!a.is_empty());
    assert_eq!(a.next_sibling_element().unwrap().node_id(), d.get_element_by_id("b").unwrap());
    assert!(a.prev_sibling_element().is_none());
    let list = el(&d, "list");
    assert_eq!(list.first_element_child().unwrap().node_id(), a.node_id());
    assert_eq!(a.parent_element().unwrap().node_id(), list.node_id());
    assert!(a.has_local_name("LI"));
    assert!(a.is_same_type(&el(&d, "b")));
    assert!(!a.is_same_type(&el(&d, "c")));
    assert!(a.has_namespace(""));
    assert!(a.has_namespace("http://www.w3.org/1999/xhtml"));
    assert!(!a.has_namespace("x"));
    assert!(!a.is_root());
    let root = d.root_node_id().unwrap();
    assert!(NodeAdapter::new(&d, root).unwrap().is_root());
}
