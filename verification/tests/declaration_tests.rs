use zver::css::declarations::{declaration_texts, SourceToken};
use zver::css::tokens::CssToken;

fn tok(token: CssToken, text: &str) -> SourceToken {
    SourceToken { token, text: text.to_string(), head: text.to_string() }
}

fn name(s: &str) -> SourceToken {
    tok(CssToken::Ident(s.to_string()), s)
}

fn colon() -> SourceToken {
    tok(CssToken::Colon, ":")
}

fn semi() -> SourceToken {
    tok(CssToken::Semicolon, ";")
}

fn space() -> SourceToken {
    tok(CssToken::WhiteSpace, " ")
}

fn number(s: &str, v: i32) -> SourceToken {
    tok(CssToken::Number { text: s.to_string(), has_sign: false, int_value: Some(v) }, s)
}

fn function(fname: &str, text: &str) -> SourceToken {
    SourceToken {
        token: CssToken::Function(fname.to_string(), Vec::new()),
        text: text.to_string(),
        head: format!("{}(", fname),
    }
}

fn p(n: &str, v: &str) -> (String, String) {
    (n.to_string(), v.to_string())
}

#[test]
fn declarations_are_read_in_order() {
    // color: red; margin: 0
    let ts = vec![
        name("color"), colon(), space(), name("red"), semi(), space(),
        name("margin"), colon(), space(), number("0", 0),
    ];
    let r = declaration_texts(&ts);
    assert_eq!(r, vec![p("color", "red"), p("margin", "0")]);
}

#[test]
fn value_keeps_its_source_text() {
    // font-family: "A B" , serif ;
    let ts = vec![
        name("font-family"), colon(), space(),
        tok(CssToken::QuotedString("A B".to_string()), "\"A B\""), space(),
        tok(CssToken::Comma, ","), space(), name("serif"), space(), semi(),
    ];
    let r = declaration_texts(&ts);
    assert_eq!(r, vec![p("font-family", "\"A B\" , serif")]);
}

#[test]
fn empty_values_are_dropped() {
    // color: ; width: 1
    let ts = vec![
        name("color"), colon(), space(), semi(), space(),
        name("width"), colon(), number("1", 1),
    ];
    let r = declaration_texts(&ts);
    assert_eq!(r, vec![p("width", "1")]);
}

#[test]
fn junk_is_skipped_to_the_next_semicolon() {
    // 5 junk; color red; top: 1
    let ts = vec![
        number("5", 5), space(), name("junk"), semi(), space(),
        name("color"), space(), name("red"), semi(), space(),
        name("top"), colon(), number("1", 1),
    ];
    let r = declaration_texts(&ts);
    assert_eq!(r, vec![p("top", "1")]);
}

#[test]
fn name_followed_by_semicolon_skips_the_next_declaration() {
    // color; margin: 0; top: 1
    let ts = vec![
        name("color"), semi(), space(), name("margin"), colon(), number("0", 0), semi(),
        name("top"), colon(), number("1", 1),
    ];
    let r = declaration_texts(&ts);
    assert_eq!(r, vec![p("top", "1")]);
}

#[test]
fn function_value_at_the_end_keeps_its_contents() {
    // width: calc(1px)
    let ts = vec![name("width"), colon(), space(), function("calc", "calc(1px)")];
    let r = declaration_texts(&ts);
    assert_eq!(r, vec![p("width", "calc(1px)")]);
}

#[test]
fn function_value_before_a_semicolon_keeps_its_opening() {
    // width: calc(1px); top: 1
    let ts = vec![
        name("width"), colon(), space(), function("calc", "calc(1px)"), semi(),
        name("top"), colon(), number("1", 1),
    ];
    let r = declaration_texts(&ts);
    assert_eq!(r, vec![p("width", "calc("), p("top", "1")]);
}

#[test]
fn no_tokens_no_declarations() {
    let r = declaration_texts(&Vec::new());
    assert!(r.is_empty());
    let r = declaration_texts(&vec![space(), tok(CssToken::Comment, "/* x */")]);
    assert!(r.is_empty());
}
