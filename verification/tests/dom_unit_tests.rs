use zver::dom::document::Document;
use zver::dom::node::ElementState;
use zver::dom::serialization::serialize_dom;

fn parsed(html: &str) -> Document {
    let mut doc = Document::new();
    doc.parse_html(html);
    doc
}

#[test]
fn test_parse_simple_html() {
    let doc = parsed("<!DOCTYPE html><html><head><title>Test</title></head><body><p>Hello</p></body></html>");
    assert!(doc.root_node_id().is_some());
    let root = doc.root_node_id().unwrap();
    assert_eq!(doc.get_tag_name(root), Some("html".to_string()));
}

#[test]
fn test_get_element_by_id() {
    let doc = parsed(
        r#"<!DOCTYPE html><html><body><div id="main">Main content</div><div id="sidebar">Sidebar</div></body></html>"#,
    );
    let main_id = doc.get_element_by_id("main");
    assert!(main_id.is_some());
    let main_node = doc.get_node(main_id.unwrap()).unwrap();
    assert_eq!(main_node.tag_name(), Some("div"));
    assert!(doc.get_element_by_id("nonexistent").is_none());
}

#[test]
fn test_get_elements_by_class_name() {
    let doc = parsed(
        r#"<html><body><div class="item">Item 1</div><div class="item">Item 2</div><div class="other">Other</div><p class="item">Item 3</p></body></html>"#,
    );
    assert_eq!(doc.get_elements_by_class_name("item").len(), 3);
    assert_eq!(doc.get_elements_by_class_name("other").len(), 1);
    assert_eq!(doc.get_elements_by_class_name("nonexistent").len(), 0);
}

#[test]
fn test_get_elements_by_tag_name() {
    let doc = parsed(
        "<html><head><title>Test</title></head><body><p>Paragraph 1</p><div><p>Paragraph 2</p></div><p>Paragraph 3</p></body></html>",
    );
    assert_eq!(doc.get_elements_by_tag_name("p").len(), 3);
    assert_eq!(doc.get_elements_by_tag_name("div").len(), 1);
    assert_eq!(doc.get_elements_by_tag_name("span").len(), 0);
}

#[test]
fn test_attribute_access() {
    let doc = parsed(
        r#"<html><body><a id="link1" href="https://example.com" target="_blank">Link</a><img id="image1" src="image.png" alt="Test Image"><div id="noattr">No attributes</div></body></html>"#,
    );
    let link_id = doc.get_element_by_id("link1").unwrap();
    assert_eq!(doc.attribute(link_id, "href"), Some("https://example.com".to_string()));
    assert_eq!(doc.attribute(link_id, "target"), Some("_blank".to_string()));
    let img_id = doc.get_element_by_id("image1").unwrap();
    assert_eq!(doc.attribute(img_id, "alt"), Some("Test Image".to_string()));
    assert!(doc.attribute(link_id, "nonexistent").is_none());
    let div_id = doc.get_element_by_id("noattr").unwrap();
    assert!(doc.attribute(div_id, "class").is_none());
}

#[test]
fn test_get_text_content() {
    let doc = parsed(
        r#"<html><body><div id="simple">Simple text</div><div id="nested"><span>Nested</span> text</div><div id="empty"></div></body></html>"#,
    );
    let simple_id = doc.get_element_by_id("simple").unwrap();
    assert!(doc.get_text_content(simple_id).contains("Simple text"));
    let nested_id = doc.get_element_by_id("nested").unwrap();
    let nested_text = doc.get_text_content(nested_id);
    assert!(nested_text.contains("Nested"));
    assert!(nested_text.contains("text"));
    let empty_id = doc.get_element_by_id("empty").unwrap();
    assert!(doc.get_text_content(empty_id).trim().is_empty());
}

#[test]
fn test_query_selector() {
    let doc = parsed(
        r#"<html><body><div class="container"><p class="text">Paragraph 1</p><p class="text">Paragraph 2</p></div><div class="sidebar"><p>Sidebar paragraph</p></div></body></html>"#,
    );
    assert_eq!(doc.query_selector(".text").len(), 2);
    assert_eq!(doc.query_selector(".container p").len(), 2);
    assert_eq!(doc.query_selector("p").len(), 3);
}

#[test]
fn test_parent_child_navigation() {
    let doc = parsed(
        r#"<!DOCTYPE html><html><body><div id="parent"><p id="child1">Child 1</p><p id="child2">Child 2</p></div></body></html>"#,
    );
    let parent_id = doc.get_element_by_id("parent").unwrap();
    let parent_node = doc.get_node(parent_id).unwrap();
    let element_children: Vec<usize> = parent_node
        .children
        .iter()
        .filter(|&&id| doc.get_node(id).map(|n| n.is_element()).unwrap_or(false))
        .copied()
        .collect();
    assert_eq!(element_children.len(), 2);
    let child1_id = doc.get_element_by_id("child1").unwrap();
    assert_eq!(doc.get_node(child1_id).unwrap().parent, Some(parent_id));
}

#[test]
fn test_select_ids_from() {
    let doc = parsed(
        r#"<html><body><div id="outer"><div class="inner"><p>Inner paragraph</p></div></div><div class="inner"><p>Outer paragraph</p></div></body></html>"#,
    );
    let outer_id = doc.get_element_by_id("outer").unwrap();
    assert_eq!(doc.select_ids_from(outer_id, "p").len(), 1);
    assert_eq!(doc.query_selector("p").len(), 2);
}

#[test]
fn test_malformed_html_handling() {
    let doc = parsed("<html><body><div>Unclosed div<p>Paragraph</p></body></html>");
    assert_eq!(doc.get_elements_by_tag_name("p").len(), 1);
}

#[test]
fn test_empty_document() {
    let doc = parsed("");
    assert_eq!(doc.get_elements_by_tag_name("div").len(), 0);
}

#[test]
fn test_complex_selectors() {
    let doc = parsed(
        r#"<html><body><ul id="list"><li class="item active">Item 1</li><li class="item">Item 2</li><li class="item active">Item 3</li></ul></body></html>"#,
    );
    assert_eq!(doc.query_selector(".item.active").len(), 2);
    assert_eq!(doc.query_selector("#list li").len(), 3);
}

#[test]
fn manipulation_round_trip() {
    let mut doc = Document::new();
    let parent = doc.create_element("div").unwrap();
    let child = doc.create_element("span").unwrap();
    assert_ne!(parent, child);
    doc.append_child(parent, child).unwrap();
    doc.append_child(parent, child).unwrap();
    assert_eq!(doc.get_node(parent).unwrap().children, vec![child]);
    assert_eq!(doc.get_node(child).unwrap().parent, Some(parent));
    doc.set_attribute(child, "title", "hello").unwrap();
    assert_eq!(doc.get_attribute(child, "title"), Some("hello".to_string()));
    doc.set_attribute(child, "title", "again").unwrap();
    assert_eq!(doc.get_attribute(child, "title"), Some("again".to_string()));
    assert!(doc.set_attribute(999, "a", "b").is_err());
    let before = doc.next_node_id();
    doc.set_text_content(child, "text").unwrap();
    // The new text node becomes the element's only child.
    assert_eq!(doc.get_node(before).unwrap().text_content, Some("text".to_string()));
    assert_eq!(doc.get_node(before).unwrap().parent, Some(child));
    assert_eq!(doc.get_node(child).unwrap().children, vec![before]);
    assert_eq!(doc.get_text_content(child), "text");
    // Setting it again drops the first text node.
    let second = doc.next_node_id();
    doc.set_text_content(child, "more").unwrap();
    assert!(doc.get_node(before).is_none());
    assert_eq!(doc.get_node(child).unwrap().children, vec![second]);
    assert_eq!(doc.get_text_content(child), "more");
    doc.remove_child(parent, child).unwrap();
    assert!(doc.get_node(parent).unwrap().children.is_empty());
    assert_eq!(doc.get_node(child).unwrap().parent, None);
}

#[test]
fn element_states() {
    let mut doc = Document::new();
    let id = doc.create_element("button").unwrap();
    doc.set_element_state(id, ElementState::hover(), true).unwrap();
    assert!(doc.element_state(id).unwrap().contains(ElementState::hover()));
    doc.set_element_state(id, ElementState::hover(), false).unwrap();
    assert!(!doc.element_state(id).unwrap().contains(ElementState::hover()));
}

#[test]
fn serialization_of_built_tree() {
    let mut doc = Document::new();
    let html = parsed("<html><body><p id=\"x\">Hi</p></body></html>");
    let out = serialize_dom(&html);
    assert!(out.contains("<p id=\"x\">Hi</p>"));
    assert_eq!(serialize_dom(&doc), "");
    let d = doc.create_element("div").unwrap();
    assert_eq!(doc.get_tag_name(d), Some("div".to_string()));
}
