use zver::css::color::{classify_css_color, get_default_color_for_tag, parse_hex_color, parse_named_color, Color, ColorSyntax};
use zver::css::parser::{declaration_pairs, fallback_rule_texts, inline_style_error, CssParseError, CssParseOptions, StylesheetParser};
use zver::css::properties::{
    check_display_keyword, display_from_ident, parse_display_value, expand_box_shorthand, format_color, merge_property, parse_length_keyword, plan_property,
    should_override, split_important, AppliedProperty, Cascade, Property, PropertyParseError, ValueKind,
};
use zver::css::selectors::{apply_inline, apply_rule, hash_bytes, NonTSPseudoClass, PseudoElement};
use zver::css::StyleRule;
use zver::strmap::StrMap;

fn prop(name: &str, value: &str, important: bool) -> Property {
    Property { name: name.to_string(), value: value.to_string(), important }
}

#[test]
fn colors_hex_and_named() {
    assert_eq!(parse_hex_color("ff0000"), Some(Color::rgb(255, 0, 0)));
    assert_eq!(parse_hex_color("0f0"), Some(Color::rgb(0, 255, 0)));
    assert_eq!(parse_hex_color("00000080"), Some(Color::new(0, 0, 0, 128)));
    assert_eq!(parse_hex_color("fff8"), Some(Color::new(255, 255, 255, 0x88)));
    assert_eq!(parse_hex_color("ABCDEF"), Some(Color::rgb(0xab, 0xcd, 0xef)));
    assert_eq!(parse_hex_color("+f+f+f"), Some(Color::rgb(15, 15, 15)));
    assert_eq!(parse_hex_color("ggg"), None);
    assert_eq!(parse_hex_color("12345"), None);
    assert_eq!(parse_named_color("Red"), Some(Color::red()));
    assert_eq!(parse_named_color("grey"), Some(Color::gray()));
    assert_eq!(parse_named_color("TRANSPARENT"), Some(Color::transparent()));
    assert_eq!(parse_named_color("navy"), Some(Color::rgb(0, 0, 128)));
    assert_eq!(parse_named_color("nosuchcolor"), None);
    assert_eq!(Color::white(), Color::new(255, 255, 255, 255));
}

#[test]
fn colors_classified() {
    assert_eq!(classify_css_color("  #00ff00 "), ColorSyntax::Resolved(Some(Color::green())));
    assert_eq!(classify_css_color("blue"), ColorSyntax::Resolved(Some(Color::blue())));
    assert_eq!(
        classify_css_color("rgb(1, 2, 3)"),
        ColorSyntax::Rgb { content: "1, 2, 3".to_string(), has_alpha: false }
    );
    assert_eq!(
        classify_css_color("rgba(1, 2, 3, 0.5)"),
        ColorSyntax::Rgb { content: "1, 2, 3, 0.5".to_string(), has_alpha: true }
    );
    assert_eq!(
        classify_css_color("hsl(120, 100%, 50%)"),
        ColorSyntax::Hsl { content: "120, 100%, 50%".to_string(), has_alpha: false }
    );
    assert_eq!(classify_css_color("rgb(1, 2, 3"), ColorSyntax::Resolved(None));
}

#[test]
fn default_tag_colors() {
    assert_eq!(get_default_color_for_tag(&Some("body".to_string())), Color::rgb(240, 240, 240));
    assert_eq!(get_default_color_for_tag(&Some("h2".to_string())), Color::rgb(200, 220, 255));
    assert_eq!(get_default_color_for_tag(&Some("span".to_string())), Color::rgb(255, 240, 240));
    assert_eq!(get_default_color_for_tag(&None), Color::rgb(255, 255, 200));
}

#[test]
fn color_text_formatting() {
    assert_eq!(format_color(Color::rgb(255, 0, 0)), "rgba(255, 0, 0, 1)");
    assert_eq!(format_color(Color::new(0, 0, 0, 0)), "rgba(0, 0, 0, 0)");
    assert_eq!(format_color(Color::new(1, 2, 3, 128)), "rgba(1, 2, 3, 0.502)");
    assert_eq!(format_color(Color::new(1, 2, 3, 51)), "rgba(1, 2, 3, 0.2)");
    assert_eq!(format_color(Color::new(1, 2, 3, 1)), "rgba(1, 2, 3, 0.004)");
}

#[test]
fn important_flag_is_split() {
    assert_eq!(split_important("red !important"), ("red".to_string(), true));
    assert_eq!(split_important("red ! IMPORTANT  "), ("red".to_string(), true));
    assert_eq!(split_important("red"), ("red".to_string(), false));
    assert_eq!(split_important("a!b"), ("a!b".to_string(), false));
}

#[test]
fn property_plans() {
    let p = plan_property(" Margin ", " 1px 2px !important ").unwrap();
    assert_eq!(p.name, "margin");
    assert_eq!(p.value, "1px 2px");
    assert!(p.important);
    assert_eq!(p.kind, ValueKind::BoxShorthand { allow_auto: true });
    let p = plan_property("color", "red").unwrap();
    assert_eq!(p.kind, ValueKind::Color);
    assert!(!p.important);
    let p = plan_property("z-index", "3").unwrap();
    assert_eq!(p.kind, ValueKind::Verbatim);
    assert!(matches!(plan_property("  ", "red"), Err(PropertyParseError::EmptyName)));
    match plan_property("Color", "  ") {
        Err(PropertyParseError::EmptyValue(n)) => assert_eq!(n, "color"),
        _ => panic!("expected an empty value"),
    }
    match plan_property("color", "!important") {
        Err(PropertyParseError::EmptyValue(n)) => assert_eq!(n, "color"),
        _ => panic!("expected an empty value"),
    }
}

#[test]
fn box_shorthand_expansion() {
    let two = expand_box_shorthand("margin", vec!["1px".to_string(), "2px".to_string()]).unwrap();
    let names: Vec<&str> = two.iter().map(|p| p.name.as_str()).collect();
    let values: Vec<&str> = two.iter().map(|p| p.value.as_str()).collect();
    assert_eq!(names, vec!["margin-top", "margin-right", "margin-bottom", "margin-left"]);
    assert_eq!(values, vec!["1px", "2px", "1px", "2px"]);
    let three = expand_box_shorthand("padding", vec!["1".into(), "2".into(), "3".into()]).unwrap();
    let values: Vec<&str> = three.iter().map(|p| p.value.as_str()).collect();
    assert_eq!(values, vec!["1", "2", "3", "2"]);
    let one = expand_box_shorthand("padding", vec!["0".into()]).unwrap();
    assert!(one.iter().all(|p| p.value == "0" && !p.important));
    match expand_box_shorthand("margin", vec!["1".into(); 5]) {
        Err(PropertyParseError::TooManyComponents(p)) => assert_eq!(p, "margin"),
        _ => panic!("expected too many components"),
    }
    assert!(matches!(expand_box_shorthand("margin", vec![]), Err(PropertyParseError::EmptyValue(_))));
}

#[test]
fn keywords_of_lengths_and_display() {
    assert_eq!(parse_length_keyword(" AUTO ", true), Some("auto".to_string()));
    assert_eq!(parse_length_keyword("auto", false), None);
    assert_eq!(parse_length_keyword("Inherit", false), Some("inherit".to_string()));
    assert_eq!(parse_length_keyword("10px", true), None);
    assert_eq!(check_display_keyword("flex".to_string()).unwrap(), "flex");
    match check_display_keyword("bogus".to_string()) {
        Err(PropertyParseError::InvalidValue(w, v)) => {
            assert_eq!(w, "display");
            assert_eq!(v, "bogus");
        },
        _ => panic!("expected an invalid value"),
    }
}

#[test]
fn error_messages() {
    assert_eq!(PropertyParseError::EmptyName.message(), "property name is empty");
    assert_eq!(PropertyParseError::EmptyValue("color".into()).message(), "value for `color` is empty");
    assert_eq!(
        PropertyParseError::TooManyComponents("margin".into()).message(),
        "too many components for `margin` shorthand"
    );
    assert_eq!(
        PropertyParseError::InvalidValue("display".into(), "x".into()).message(),
        "invalid value `x` for `display`"
    );
    assert_eq!(PropertyParseError::UnsupportedUnit("pt".into()).message(), "unsupported unit `pt`");
    match inline_style_error(&PropertyParseError::EmptyName) {
        CssParseError::Syntax(m) => assert_eq!(m, "inline style error: property name is empty"),
    }
    match CssParseError::from_messages(vec!["a".into(), "b".into()]) {
        CssParseError::Syntax(m) => assert_eq!(m, "a\nb"),
    }
    assert_eq!(CssParseError::Syntax("x".into()).message(), "CSS parse error: x");
}

#[test]
fn declaration_splitting() {
    let pairs = declaration_pairs("color: red; margin:0 ;bad; :x; y:;  width : 10px ");
    assert_eq!(
        pairs,
        vec![
            ("color".to_string(), "red".to_string()),
            ("margin".to_string(), "0".to_string()),
            ("width".to_string(), "10px".to_string()),
        ]
    );
    assert_eq!(declaration_pairs("a: b:c"), vec![("a".to_string(), "b:c".to_string())]);
    assert!(declaration_pairs("").is_empty());
}

#[test]
fn fallback_rules() {
    let rules = fallback_rule_texts("div { color: red } p{margin:0}  {x:y} junk }");
    assert_eq!(
        rules,
        vec![("div".to_string(), " color: red".to_string()), ("p".to_string(), "margin:0".to_string())]
    );
    assert!(CssParseOptions::default().recover_from_errors);
    let parser = StylesheetParser::new(CssParseOptions { recover_from_errors: false });
    assert!(!parser.options().recover_from_errors);
}

#[test]
fn cascade_precedence() {
    let mut cascade: Cascade = StrMap::new();
    merge_property(&mut cascade, &prop("color", "red", false), 10, 1);
    merge_property(&mut cascade, &prop("color", "blue", false), 1, 2);
    assert_eq!(cascade.get_str("color").unwrap().value, "red");
    merge_property(&mut cascade, &prop("color", "green", false), 10, 3);
    assert_eq!(cascade.get_str("color").unwrap().value, "green");
    merge_property(&mut cascade, &prop("color", "black", true), 0, 0);
    assert_eq!(cascade.get_str("color").unwrap().value, "black");
    merge_property(&mut cascade, &prop("color", "white", false), 1000, 99);
    assert_eq!(cascade.get_str("color").unwrap().value, "black");
    let current = AppliedProperty { value: "x".into(), important: false, specificity: 5, order: 5 };
    assert!(should_override(&current, false, 5, 5));
    assert!(!should_override(&current, false, 5, 4));
    assert!(should_override(&current, true, 0, 0));
}

#[test]
fn inline_beats_rules() {
    let mut cascade: Cascade = StrMap::new();
    let mut order: u64 = 0;
    let rule = StyleRule { selector_text: "#a".into(), declarations: vec![prop("color", "red", false)] };
    apply_rule(&mut cascade, &rule, 100, 3, &mut order);
    assert_eq!(order, 1);
    assert_eq!(cascade.get_str("color").unwrap().order, (1u64 << 32) | 3);
    apply_inline(&mut cascade, &vec![prop("color", "blue", false)], &mut order);
    assert_eq!(order, 2);
    let applied = cascade.get_str("color").unwrap();
    assert_eq!(applied.value, "blue");
    assert_eq!(applied.specificity, u32::MAX);
}

#[test]
fn pseudo_names() {
    assert_eq!(NonTSPseudoClass::from_name("hover"), Some(NonTSPseudoClass::Hover));
    assert_eq!(NonTSPseudoClass::from_name("nope"), None);
    assert_eq!(NonTSPseudoClass::FirstOfType.css_text(), ":first-of-type");
    assert_eq!(PseudoElement::from_name("before"), Some(PseudoElement::Before));
    assert_eq!(PseudoElement::After.css_text(), "::after");
    assert_eq!(hash_bytes(b""), 0x811c9dc5);
    assert_eq!(hash_bytes(b"a"), 0xe40c292c);
}

fn display_error(r: Result<String, PropertyParseError>) -> String {
    match r {
        Err(PropertyParseError::InvalidValue(w, v)) if w == "display" => v,
        other => panic!("unexpected {:?}", other),
    }
}

#[test]
fn display_values() {
    assert_eq!(parse_display_value("BLOCK").unwrap(), "block");
    assert_eq!(parse_display_value("  inline-flex  ").unwrap(), "inline-flex");
    assert_eq!(parse_display_value("/* c */ grid").unwrap(), "grid");
    assert_eq!(display_error(parse_display_value("Weird")), "weird");
    assert_eq!(display_error(parse_display_value("inline block")), "inline block");
    assert_eq!(display_error(parse_display_value("5px")), "5px");
    assert_eq!(display_error(parse_display_value("")), "");
    // The keyword is checked before what follows it.
    assert_eq!(display_error(parse_display_value("bogus extra")), "bogus");
}

#[test]
fn display_from_what_was_read() {
    assert_eq!(display_from_ident("x", Some(("Table".to_string(), true))).unwrap(), "table");
    assert_eq!(display_error(display_from_ident("x", Some(("table".to_string(), false)))), "x");
    assert_eq!(display_error(display_from_ident("x", None)), "x");
}

#[test]
fn important_suffix_only_marks() {
    for v in [" a b  ", "1px", "x!y"] {
        let plain = plan_property("Width", v).unwrap();
        let marked = plan_property("Width", &format!("{} !important", v)).unwrap();
        assert_eq!(plain.value, marked.value);
        assert_eq!(plain.name, marked.name);
        assert!(!plain.important);
        assert!(marked.important);
    }
    assert!(plan_property("color", "red ! IMPORTANT").unwrap().important);
}
