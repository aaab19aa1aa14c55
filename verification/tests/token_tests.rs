use zver::css::animations::parse_keyframe_declarations;
use zver::css::prelude::{selector_text, PreludePiece};
use zver::css::font_face::{parse_font_sources, parse_unicode_ranges};
use zver::css::fonts::{FontFace, FontSource, FontStyle, FontWeight, FontFormat};
use zver::css::tokens::{escape_string, serialize_value_tokens, CssToken};

fn ident(s: &str) -> CssToken {
    CssToken::Ident(s.to_string())
}

fn quoted(s: &str) -> CssToken {
    CssToken::QuotedString(s.to_string())
}

fn number(s: &str, v: i32) -> CssToken {
    CssToken::Number { text: s.to_string(), has_sign: false, int_value: Some(v) }
}

fn dim(s: &str, unit: &str) -> CssToken {
    CssToken::Dimension { text: s.to_string(), unit: unit.to_string() }
}

fn func(name: &str, inner: Vec<CssToken>) -> CssToken {
    CssToken::Function(name.to_string(), inner)
}

fn ws() -> CssToken {
    CssToken::WhiteSpace
}

fn serialize(tokens: Vec<CssToken>) -> String {
    serialize_value_tokens(&tokens, 0, true).0
}

#[test]
fn test_serialize_simple_value() {
    assert_eq!(serialize(vec![ident("red")]), "red");
}

#[test]
fn test_serialize_color_hex() {
    assert_eq!(serialize(vec![CssToken::Hash("ff0000".to_string())]), "#ff0000");
}

#[test]
fn test_serialize_dimension() {
    assert_eq!(serialize(vec![dim("10", "px")]), "10px");
}

#[test]
fn test_serialize_function() {
    let inner = vec![number("255", 255), CssToken::Comma, ws(), number("0", 0), CssToken::Comma, ws(), number("0", 0)];
    assert_eq!(serialize(vec![func("rgb", inner)]), "rgb(255, 0, 0)");
}

#[test]
fn test_serialize_url() {
    assert_eq!(serialize(vec![CssToken::UnquotedUrl("font.woff".to_string())]), "url(font.woff)");
}

#[test]
fn test_serialize_quoted_string() {
    assert_eq!(serialize(vec![quoted("Helvetica Neue")]), "\"Helvetica Neue\"");
}

#[test]
fn test_serialize_multiple_values() {
    let tokens = vec![dim("10", "px"), ws(), ident("solid"), ws(), ident("red")];
    assert_eq!(serialize(tokens), "10px solid red");
}

#[test]
fn test_serialize_until_semicolon() {
    let tokens = vec![dim("10", "px"), CssToken::Semicolon, ws(), ident("ignored")];
    let (text, next) = serialize_value_tokens(&tokens, 0, true);
    assert_eq!(text, "10px");
    assert_eq!(next, 2);
    let (rest, end) = serialize_value_tokens(&tokens, next, true);
    assert_eq!(rest, "ignored");
    assert_eq!(end, 4);
}

#[test]
fn serializer_spacing_and_comments() {
    let tokens = vec![
        CssToken::Comment,
        ident("a"),
        CssToken::Comma,
        ident("b"),
        CssToken::Delim('/'),
        number("2", 2),
        CssToken::Percentage { text: "50".to_string() },
        CssToken::Block('[', vec![ident("x")]),
    ];
    assert_eq!(serialize(tokens), "a, b/2 50%[x]");
    assert_eq!(serialize(vec![]), "");
}

#[test]
fn string_escaping() {
    assert_eq!(escape_string("a\"b\\c\nd\te\r"), "a\\\"b\\\\c\\nd\\te\\r");
    assert_eq!(serialize(vec![quoted("say \"hi\"")]), "\"say \\\"hi\\\"\"");
}

fn descriptor(name: &str, value: Vec<CssToken>) -> Vec<CssToken> {
    let mut out = vec![ws(), ident(name), CssToken::Colon, ws()];
    out.extend(value);
    out.push(CssToken::Semicolon);
    out
}

fn face_tokens(parts: Vec<Vec<CssToken>>) -> Vec<CssToken> {
    let mut out = Vec::new();
    for p in parts {
        out.extend(p);
    }
    out.push(ws());
    out
}

#[test]
fn test_font_face_parsing() {
    let tokens = face_tokens(vec![
        descriptor("font-family", vec![quoted("TestFont")]),
        descriptor("src", vec![func("url", vec![quoted("test.ttf")]), ws(), func("format", vec![quoted("truetype")])]),
        descriptor("font-weight", vec![ident("normal")]),
        descriptor("font-style", vec![ident("normal")]),
    ]);
    let face = FontFace::parse_font_face_block(&tokens).expect("font face");
    assert_eq!(face.family, "TestFont");
    assert_eq!(face.sources.len(), 1);
    match &face.sources[0] {
        FontSource::Url { url, format } => {
            assert_eq!(url, "test.ttf");
            assert_eq!(*format, Some(FontFormat::TrueType));
        }
        other => panic!("unexpected source {:?}", other),
    }
    assert_eq!(face.weight, FontWeight::Normal);
    assert_eq!(face.style, FontStyle::Normal);
}

#[test]
fn test_font_face_with_local() {
    let tokens = face_tokens(vec![
        descriptor("font-family", vec![quoted("TestFont")]),
        descriptor(
            "src",
            vec![
                func("local", vec![quoted("Arial")]),
                CssToken::Comma,
                ws(),
                func("url", vec![quoted("test.ttf")]),
                ws(),
                func("format", vec![quoted("truetype")]),
            ],
        ),
    ]);
    let face = FontFace::parse_font_face_block(&tokens).expect("font face");
    assert_eq!(face.sources.len(), 2);
    assert!(matches!(&face.sources[0], FontSource::Local { name } if name == "Arial"));
}

#[test]
fn test_font_face_with_format() {
    let tokens = face_tokens(vec![
        descriptor("font-family", vec![quoted("TestFont")]),
        descriptor(
            "src",
            vec![
                func("url", vec![quoted("../assets/fonts/Roboto-Regular.ttf")]),
                ws(),
                func("format", vec![quoted("truetype")]),
            ],
        ),
        descriptor("font-weight", vec![ident("normal")]),
        descriptor("font-style", vec![ident("normal")]),
    ]);
    assert!(FontFace::parse_font_face_block(&tokens).is_ok());
}

#[test]
fn test_font_face_without_format() {
    let tokens = face_tokens(vec![
        descriptor("font-family", vec![quoted("TestFont")]),
        descriptor("src", vec![func("url", vec![quoted("../assets/fonts/Roboto-Regular.ttf")])]),
        descriptor("font-weight", vec![ident("normal")]),
    ]);
    let face = FontFace::parse_font_face_block(&tokens).expect("font face");
    assert!(matches!(&face.sources[0], FontSource::Url { format: None, .. }));
}

#[test]
fn test_font_face_unicode_range() {
    let start = CssToken::Number { text: "+20".to_string(), has_sign: true, int_value: Some(20) };
    let mut range = descriptor("unicode-range", vec![ident("U"), start, dim("-7", "F")]);
    range.insert(range.len() - 1, ws());
    range.insert(range.len() - 1, CssToken::Comment);
    let tokens = face_tokens(vec![
        descriptor("font-family", vec![quoted("TestFontUnicode")]),
        descriptor(
            "src",
            vec![
                func("url", vec![quoted("../assets/fonts/Roboto-Regular.ttf")]),
                ws(),
                func("format", vec![quoted("truetype")]),
            ],
        ),
        descriptor("font-weight", vec![ident("normal")]),
        descriptor("font-style", vec![ident("normal")]),
        range,
    ]);
    let result = FontFace::parse_font_face_block(&tokens);
    assert!(result.is_ok());
    let face = result.unwrap();
    assert_eq!(face.unicode_ranges.len(), 1);
    assert_eq!((face.unicode_ranges[0].start, face.unicode_ranges[0].end), (20, 20));
}

#[test]
fn font_face_needs_a_family() {
    let tokens = face_tokens(vec![descriptor("src", vec![func("url", vec![quoted("a.ttf")])])]);
    assert!(FontFace::parse_font_face_block(&tokens).is_err());
}

#[test]
fn font_face_bold_italic() {
    let tokens = face_tokens(vec![
        descriptor("font-family", vec![ident("Body")]),
        descriptor("font-weight", vec![ident("bold")]),
        descriptor("font-style", vec![ident("italic")]),
    ]);
    let face = FontFace::parse_font_face_block(&tokens).expect("font face");
    assert_eq!(face.family, "Body");
    assert_eq!(face.weight, FontWeight::Bold);
    assert_eq!(face.style, FontStyle::Italic);
}

#[test]
fn source_lists() {
    let tokens = vec![
        func("url", vec![quoted("a.woff2")]),
        ws(),
        func("format", vec![quoted("woff2")]),
        CssToken::Comma,
        ws(),
        func("local", vec![quoted("Arial")]),
        CssToken::Semicolon,
    ];
    let (sources, next) = parse_font_sources(&tokens, 0).expect("sources");
    assert_eq!(sources.len(), 2);
    assert!(matches!(&sources[0], FontSource::Url { url, format: Some(FontFormat::Woff2) } if url == "a.woff2"));
    assert!(matches!(&sources[1], FontSource::Local { name } if name == "Arial"));
    assert!(next <= tokens.len());
}

#[test]
fn unicode_range_lists() {
    let tokens = vec![
        ident("u"),
        CssToken::Number { text: "+41".to_string(), has_sign: true, int_value: Some(41) },
        CssToken::Number { text: "-90".to_string(), has_sign: true, int_value: Some(-90) },
        CssToken::Comma,
        ws(),
        ident("U"),
        CssToken::Number { text: "+7".to_string(), has_sign: true, int_value: Some(7) },
    ];
    let (ranges, next) = parse_unicode_ranges(&tokens, 0).expect("ranges");
    assert_eq!(ranges.len(), 2);
    assert_eq!((ranges[0].start, ranges[0].end), (41, 90));
    assert_eq!((ranges[1].start, ranges[1].end), (7, 7));
    assert_eq!(next, tokens.len());
    assert!(parse_unicode_ranges(&vec![ident("V")], 0).is_none());
}

#[test]
fn keyframe_declarations() {
    let tokens = vec![
        ws(),
        ident("opacity"),
        CssToken::Colon,
        ws(),
        number("0", 0),
        CssToken::Semicolon,
        ws(),
        ident("left"),
        CssToken::Colon,
        ws(),
        dim("10", "px"),
        CssToken::Semicolon,
        ident("empty"),
        CssToken::Colon,
        CssToken::Semicolon,
        CssToken::Comma,
        ident("transform"),
        CssToken::Colon,
        func("translateX", vec![dim("5", "px")]),
        ws(),
    ];
    let props = parse_keyframe_declarations(&tokens);
    let pairs: Vec<(String, String)> = props.iter().map(|p| (p.name.clone(), p.value.clone())).collect();
    assert_eq!(
        pairs,
        vec![
            ("opacity".to_string(), "0".to_string()),
            ("left".to_string(), "10px".to_string()),
            ("transform".to_string(), "translateX(5px)".to_string()),
        ]
    );
    assert!(props.iter().all(|p| !p.important));
}

fn text(s: &str) -> PreludePiece {
    PreludePiece::Text(s.to_string())
}

#[test]
fn selector_text_from_prelude() {
    let pieces = vec![
        PreludePiece::Space,
        text("div"),
        PreludePiece::Space,
        PreludePiece::Comment,
        PreludePiece::Space,
        text("."),
        text("card"),
        text(":"),
        PreludePiece::Function(
            "not".to_string(),
            vec![PreludePiece::Space, text(":"), text("hover"), PreludePiece::Space, PreludePiece::Space],
        ),
        text(">"),
        PreludePiece::Space,
        text("p"),
        PreludePiece::Space,
    ];
    assert_eq!(selector_text(&pieces), "div .card:not(:hover )> p");
    assert_eq!(selector_text(&vec![PreludePiece::Space, PreludePiece::Comment]), "");
    let nested = vec![PreludePiece::Function(
        "is".to_string(),
        vec![PreludePiece::Function("nth-child".to_string(), vec![text("2")])],
    )];
    assert_eq!(selector_text(&nested), "is(nth-child()");
}
