use zver::layout::flex::{AlignItems, FlexDirection, FlexWrap, JustifyContent, LayoutKeywords};
use zver::css::animations::{AnimationDirection, AnimationFillMode};
use zver::layout::styles::{apply_default_tag_styles, apply_keyword_property};
use zver::layout::tree::{flush_inline_group, group_children, layout_children, node_box_display, pseudo_node_box_display, push_layout_child, LayoutChild};
use zver::layout::types::{Display, FontStyle, FontWeight, KeywordStyle, ListStyleType, Position};

#[test]
fn tag_defaults() {
    let mut s = KeywordStyle::initial();
    assert_eq!(apply_default_tag_styles(&mut s, &Some("h1".to_string())), Some(32));
    assert_eq!(s.font_weight, FontWeight::Bold);
    assert_eq!(s.display, Display::Block);
    let mut s = KeywordStyle::initial();
    assert_eq!(apply_default_tag_styles(&mut s, &Some("em".to_string())), None);
    assert_eq!(s.font_style, FontStyle::Italic);
    assert_eq!(s.display, Display::Inline);
    let mut s = KeywordStyle::initial();
    apply_default_tag_styles(&mut s, &Some("li".to_string()));
    assert_eq!(s.list_style_type, ListStyleType::Disc);
    let mut s = KeywordStyle::initial();
    apply_default_tag_styles(&mut s, &Some("script".to_string()));
    assert_eq!(s.display, Display::NoDisplay);
    let mut s = KeywordStyle::initial();
    apply_default_tag_styles(&mut s, &None);
    assert_eq!(s, KeywordStyle::initial());
}

#[test]
fn keyword_declarations() {
    let mut s = KeywordStyle::initial();
    apply_keyword_property(&mut s, "display", "flex");
    assert_eq!(s.display, Display::Flex);
    apply_keyword_property(&mut s, "display", "grid");
    assert_eq!(s.display, Display::Flex);
    apply_keyword_property(&mut s, "position", "absolute");
    assert_eq!(s.position, Position::Absolute);
    apply_keyword_property(&mut s, "font-weight", "800");
    assert_eq!(s.font_weight, FontWeight::Bold);
    apply_keyword_property(&mut s, "font-weight", "lighter");
    assert_eq!(s.font_weight, FontWeight::Normal);
    apply_keyword_property(&mut s, "list-style-type", "square");
    assert_eq!(s.list_style_type, ListStyleType::Square);
    apply_keyword_property(&mut s, "list-style-type", "none");
    assert_eq!(s.list_style_type, ListStyleType::NoMarker);
    apply_keyword_property(&mut s, "font-style", "oblique");
    assert_eq!(s.font_style, FontStyle::Normal);
}

#[test]
fn animation_defaults() {
    assert_eq!(AnimationDirection::default(), AnimationDirection::Normal);
    assert_eq!(AnimationFillMode::default(), AnimationFillMode::NoFill);
}

#[test]
fn flex_layout_keywords() {
    let decls: Vec<(String, String)> = vec![
        ("display", "grid"),
        ("position", "sticky"),
        ("font-weight", "800"),
        ("flex-direction", "column-reverse"),
        ("justify-content", "space-evenly"),
        ("align-items", "baseline"),
        ("align-self", "end"),
        ("flex-wrap", "wrap-reverse"),
        ("color", "red"),
    ]
    .into_iter()
    .map(|(a, b)| (a.to_string(), b.to_string()))
    .collect();
    let s = LayoutKeywords::from_declarations(&decls);
    assert_eq!(s.display, Display::Grid);
    assert_eq!(s.position, Position::Static);
    assert_eq!(s.font_weight, FontWeight::Bold);
    assert_eq!(s.flex_direction, FlexDirection::ColumnReverse);
    assert_eq!(s.justify_content, Some(JustifyContent::SpaceEvenly));
    assert_eq!(s.align_items, Some(AlignItems::Stretch));
    assert_eq!(s.align_self, Some(AlignItems::End));
    assert_eq!(s.flex_wrap, FlexWrap::WrapReverse);
    let initial = LayoutKeywords::from_declarations(&vec![]);
    assert_eq!(initial, LayoutKeywords::initial());
    assert_eq!(initial.justify_content, None);
    assert_eq!(initial.flex_wrap, FlexWrap::NoWrap);
}

fn decls(pairs: &[(&str, &str)]) -> Vec<(String, String)> {
    pairs.iter().map(|(p, v)| (p.to_string(), v.to_string())).collect()
}

#[test]
fn inline_runs_are_grouped() {
    let kids = vec![(1, Display::Inline), (2, Display::Inline), (3, Display::Block), (4, Display::Inline), (5, Display::Flex)];
    let r = group_children(&kids);
    assert_eq!(
        r,
        vec![
            LayoutChild::InlineRun(vec![1, 2]),
            LayoutChild::Block(3),
            LayoutChild::InlineRun(vec![4]),
            LayoutChild::Block(5),
        ]
    );
    assert!(group_children(&Vec::new()).is_empty());
    assert_eq!(group_children(&vec![(7, Display::Inline)]), vec![LayoutChild::InlineRun(vec![7])]);
}

#[test]
fn push_and_flush_children() {
    let mut group = Vec::new();
    let mut children = Vec::new();
    push_layout_child(1, Display::Inline, &mut group, &mut children);
    assert_eq!(group, vec![1]);
    assert!(children.is_empty());
    push_layout_child(2, Display::Grid, &mut group, &mut children);
    assert!(group.is_empty());
    assert_eq!(children, vec![LayoutChild::InlineRun(vec![1]), LayoutChild::Block(2)]);
    flush_inline_group(&mut group, &mut children);
    assert_eq!(children.len(), 2);
}

#[test]
fn which_nodes_get_a_box() {
    let div = Some("div".to_string());
    assert_eq!(node_box_display(false, &div, &None, &decls(&[])), Some(Display::Block));
    // The tag's defaults override the declared display.
    assert_eq!(node_box_display(false, &div, &None, &decls(&[("display", "none")])), Some(Display::Block));
    let span = Some("span".to_string());
    assert_eq!(node_box_display(false, &span, &None, &decls(&[("display", "block")])), Some(Display::Inline));
    let custom = Some("x-card".to_string());
    assert_eq!(node_box_display(false, &custom, &None, &decls(&[("display", "flex")])), Some(Display::Flex));
    assert_eq!(node_box_display(false, &custom, &None, &decls(&[("display", "none")])), None);
    // Head and script content gets no box.
    assert_eq!(node_box_display(false, &Some("head".to_string()), &None, &decls(&[])), None);
    assert_eq!(node_box_display(false, &Some("script".to_string()), &None, &decls(&[])), None);
    // Text nodes are inline, and blank ones get no box.
    assert_eq!(node_box_display(false, &None, &Some(" hi ".to_string()), &decls(&[])), Some(Display::Inline));
    assert_eq!(node_box_display(false, &None, &Some(" \n ".to_string()), &decls(&[])), None);
    assert_eq!(node_box_display(false, &None, &None, &decls(&[])), None);
    // The root keeps its box even with `display: none`.
    let html = Some("html".to_string());
    assert_eq!(node_box_display(true, &html, &None, &decls(&[("display", "none")])), Some(Display::NoDisplay));
}

#[test]
fn generated_boxes() {
    assert_eq!(pseudo_node_box_display(&decls(&[])), Some(Display::Inline));
    assert_eq!(pseudo_node_box_display(&decls(&[("color", "red")])), Some(Display::Inline));
    assert_eq!(pseudo_node_box_display(&decls(&[("display", "block")])), Some(Display::Block));
    assert_eq!(pseudo_node_box_display(&decls(&[("display", "none")])), None);
    assert_eq!(pseudo_node_box_display(&decls(&[("display", "weird")])), Some(Display::Block));
}

#[test]
fn layout_children_in_order() {
    let kids = vec![(3, Some(Display::Block)), (4, None), (5, Some(Display::Inline))];
    let r = layout_children(Some((10, Display::Inline)), &kids, Some((11, Display::Block)));
    assert_eq!(r, vec![(10, Display::Inline), (3, Display::Block), (5, Display::Inline), (11, Display::Block)]);
    assert_eq!(layout_children(None, &vec![(1, None)], None), vec![]);
    let grouped = group_children(&r);
    assert_eq!(
        grouped,
        vec![
            LayoutChild::InlineRun(vec![10]),
            LayoutChild::Block(3),
            LayoutChild::InlineRun(vec![5]),
            LayoutChild::Block(11),
        ]
    );
}
