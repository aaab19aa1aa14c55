use zver::css::selectors::PseudoElement;
use zver::dom::document::Document;

fn doc() -> (Document, usize, usize) {
    let mut d = Document::new();
    d.parse_html(r#"<html><body><p id="a">A</p><p id="b">B</p></body></html>"#);
    let a = d.get_element_by_id("a").unwrap();
    let b = d.get_element_by_id("b").unwrap();
    (d, a, b)
}

fn text_of(d: &Document, id: usize) -> Option<String> {
    d.get_node(id).and_then(|n| n.text_content.clone())
}

#[test]
fn pseudo_nodes_are_created_updated_and_dropped() {
    let (mut d, a, b) = doc();
    let count = d.node_count();
    d.sync_pseudo_elements(&vec![
        (a, vec![(PseudoElement::Before, "<<".to_string()), (PseudoElement::After, ">>".to_string())]),
        (b, vec![(PseudoElement::After, "!".to_string())]),
    ]);
    assert_eq!(d.node_count(), count + 3);
    let before_a = d.pseudo_child_id(a, PseudoElement::Before).expect("::before of a");
    let after_a = d.pseudo_child_id(a, PseudoElement::After).expect("::after of a");
    let after_b = d.pseudo_child_id(b, PseudoElement::After).expect("::after of b");
    assert_eq!(text_of(&d, before_a).as_deref(), Some("<<"));
    assert_eq!(text_of(&d, after_a).as_deref(), Some(">>"));
    assert_eq!(text_of(&d, after_b).as_deref(), Some("!"));
    assert_eq!(d.get_node(before_a).unwrap().pseudo_element, Some(PseudoElement::Before));
    assert_eq!(d.get_node(before_a).unwrap().parent, Some(a));
    assert!(d.pseudo_child_id(b, PseudoElement::Before).is_none());

    d.sync_pseudo_elements(&vec![(a, vec![(PseudoElement::Before, "new".to_string())])]);
    assert_eq!(d.pseudo_child_id(a, PseudoElement::Before), Some(before_a));
    assert_eq!(text_of(&d, before_a).as_deref(), Some("new"));
    assert!(d.pseudo_child_id(a, PseudoElement::After).is_none());
    assert!(d.get_node(after_a).is_none());
    assert!(d.pseudo_children(b).is_none());
    assert!(d.get_node(after_b).is_none());
    assert_eq!(d.node_count(), count + 1);

    d.sync_pseudo_elements(&vec![]);
    assert!(d.pseudo_children(a).is_none());
    assert_eq!(d.node_count(), count);
    assert_eq!(d.get_text_content(a), "A");
}

#[test]
fn pseudo_contents_for_missing_elements_are_ignored() {
    let (mut d, _, _) = doc();
    let count = d.node_count();
    d.sync_pseudo_elements(&vec![(9999, vec![(PseudoElement::Before, "x".to_string())])]);
    assert!(d.pseudo_children(9999).is_none());
    assert_eq!(d.node_count(), count);
}
