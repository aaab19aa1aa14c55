use zver::css::engine::{
    cascade_values, element_cascade, parse_content_value, pseudo_cascade, pseudo_content, unescape_css_string,
};
use zver::css::properties::Property;
use zver::css::selectors::SelectorCache;
use zver::css::StyleRule;
use zver::strmap::StrMap;

fn prop(name: &str, value: &str, important: bool) -> Property {
    Property { name: name.to_string(), value: value.to_string(), important }
}

fn rule(selector: &str, decls: Vec<Property>) -> StyleRule {
    StyleRule { selector_text: selector.to_string(), declarations: decls }
}

fn value_of(map: &StrMap<String>, name: &str) -> Option<String> {
    map.get_str(name).cloned()
}

#[test]
fn later_rule_wins_at_equal_specificity() {
    let rules = vec![rule(".test", vec![prop("color", "red", false)]), rule(".test", vec![prop("color", "blue", false)])];
    let c = element_cascade(&rules, &vec![Some(10), Some(10)], &vec![], &vec![], &None);
    assert_eq!(value_of(&cascade_values(&c), "color").as_deref(), Some("blue"));
}

#[test]
fn important_rule_survives_later_rule() {
    let rules = vec![rule(".test", vec![prop("color", "blue", true)]), rule(".test", vec![prop("color", "red", false)])];
    let c = element_cascade(&rules, &vec![Some(10), Some(10)], &vec![], &vec![], &None);
    assert_eq!(value_of(&cascade_values(&c), "color").as_deref(), Some("blue"));
}

#[test]
fn specificity_and_unmatched_rules() {
    let rules = vec![
        rule("#id", vec![prop("color", "red", false)]),
        rule("div", vec![prop("color", "black", false), prop("margin", "0", false)]),
        rule(".other", vec![prop("color", "green", false)]),
    ];
    let c = element_cascade(&rules, &vec![Some(1 << 20), Some(1)], &vec![], &vec![], &None);
    let values = cascade_values(&c);
    assert_eq!(value_of(&values, "color").as_deref(), Some("red"));
    assert_eq!(value_of(&values, "margin").as_deref(), Some("0"));
    assert_eq!(values.len(), 2);
}

#[test]
fn media_rules_then_inline() {
    let rules = vec![rule("p", vec![prop("color", "red", false), prop("width", "1px", false)])];
    let media = vec![rule("p", vec![prop("color", "green", false)])];
    let inline = Some(vec![prop("width", "5px", false)]);
    let c = element_cascade(&rules, &vec![Some(1)], &media, &vec![Some(1)], &inline);
    let values = cascade_values(&c);
    assert_eq!(value_of(&values, "color").as_deref(), Some("green"));
    assert_eq!(value_of(&values, "width").as_deref(), Some("5px"));
    let none = element_cascade(&rules, &vec![None], &media, &vec![], &None);
    assert_eq!(cascade_values(&none).len(), 0);
}

#[test]
fn pseudo_element_content() {
    let rules = vec![
        rule("p::before", vec![prop("content", "\"\\\"hi\\\"\"", false), prop("color", "red", false)]),
        rule("p::after", vec![prop("content", "none", false)]),
    ];
    let before = cascade_values(&pseudo_cascade(&rules, &vec![Some(2), None]));
    assert_eq!(pseudo_content(&before).as_deref(), Some("\"hi\""));
    let after = cascade_values(&pseudo_cascade(&rules, &vec![None, Some(2)]));
    assert_eq!(pseudo_content(&after), None);
    assert_eq!(pseudo_content(&StrMap::new()), None);
}

#[test]
fn content_values() {
    assert_eq!(parse_content_value("  'abc'  ").as_deref(), Some("abc"));
    assert_eq!(parse_content_value("\"\"").as_deref(), Some(""));
    assert_eq!(parse_content_value("NONE"), None);
    assert_eq!(parse_content_value("Normal"), None);
    assert_eq!(parse_content_value("   "), None);
    assert_eq!(parse_content_value("\""), None);
    assert_eq!(parse_content_value("'mixed\""), None);
    assert_eq!(parse_content_value("attr(title)"), None);
}

#[test]
fn escapes() {
    assert_eq!(unescape_css_string("a\\b\\\\c"), "ab\\c");
    assert_eq!(unescape_css_string("end\\"), "end");
    assert_eq!(unescape_css_string(""), "");
}

#[test]
fn selector_cache_keeps_used_selectors() {
    let mut cache: SelectorCache<u32> = SelectorCache::new();
    cache.use_selector(".a".to_string(), 1);
    cache.use_selector("p".to_string(), 2);
    cache.use_selector(".a".to_string(), 3);
    assert_eq!(cache.get(".a").map(|c| *c.selector_list()), Some(1));
    assert!(cache.get(".a").unwrap().is_marked());
    cache.sweep();
    assert_eq!(cache.get("p").map(|c| *c.selector_list()), Some(2));
    assert!(!cache.get("p").unwrap().is_marked());
    cache.use_selector("p".to_string(), 9);
    cache.sweep();
    assert!(cache.get(".a").is_none());
    assert_eq!(cache.get("p").map(|c| *c.selector_list()), Some(2));
    cache.sweep();
    assert!(cache.get("p").is_none());
}
