use zver::css::media_query::{parse_media_feature, parse_media_query, MediaFeature, MediaQuery};
use zver::css::tokens::CssToken;
use zver::css::media::{media_query_verdict, MediaQueryModifier, MediaQueryOperator, MediaType, Orientation};

#[test]
fn test_media_type_parsing() {
    assert_eq!("screen".parse::<MediaType>(), Ok(MediaType::Screen));
    assert_eq!("PRINT".parse::<MediaType>(), Ok(MediaType::Print));
    assert_eq!("all".parse::<MediaType>(), Ok(MediaType::All));
    assert!("invalid".parse::<MediaType>().is_err());
}

#[test]
fn media_type_names() {
    assert_eq!(MediaType::Speech.name(), "speech");
    assert_eq!(MediaType::default(), MediaType::All);
    assert_eq!(Orientation::Landscape.name(), "landscape");
    assert_eq!(MediaQueryModifier::Only.name(), "only");
}

#[test]
fn media_query_verdicts() {
    // screen and (min-width: 768px) and (max-width: 1024px) at 800x600
    assert!(media_query_verdict(MediaType::Screen, None, MediaType::Screen, &vec![true, true]));
    // at 500x600 the first condition fails
    assert!(!media_query_verdict(MediaType::Screen, None, MediaType::Screen, &vec![false, true]));
    // wrong media type
    assert!(!media_query_verdict(MediaType::Print, None, MediaType::Screen, &vec![]));
    // `all` applies to every media type
    assert!(media_query_verdict(MediaType::All, None, MediaType::Print, &vec![]));
    // `not` inverts both outcomes
    assert!(media_query_verdict(MediaType::Print, Some(MediaQueryModifier::Not), MediaType::Screen, &vec![]));
    assert!(!media_query_verdict(MediaType::Screen, Some(MediaQueryModifier::Not), MediaType::Screen, &vec![true]));
    assert!(media_query_verdict(MediaType::Screen, Some(MediaQueryModifier::Only), MediaType::Screen, &vec![true]));
}

fn id(s: &str) -> CssToken {
    CssToken::Ident(s.to_string())
}

fn paren(inner: Vec<CssToken>) -> CssToken {
    CssToken::Block('(', inner)
}

fn px(n: &str) -> CssToken {
    CssToken::Dimension { text: n.to_string(), unit: "px".to_string() }
}

fn num(n: i32) -> CssToken {
    CssToken::Number { text: n.to_string(), has_sign: false, int_value: Some(n) }
}

#[test]
fn test_simple_media_query() {
    let query = parse_media_query(&vec![id("screen")]).unwrap();
    assert_eq!(query.media_type, MediaType::Screen);
    assert_eq!(query.features.len(), 0);
}

#[test]
fn test_media_query_with_width() {
    let tokens = vec![
        id("screen"),
        CssToken::WhiteSpace,
        id("and"),
        CssToken::WhiteSpace,
        paren(vec![id("min-width"), CssToken::Colon, CssToken::WhiteSpace, px("768")]),
    ];
    let query = parse_media_query(&tokens).unwrap();
    assert_eq!(query.media_type, MediaType::Screen);
    assert_eq!(query.features.len(), 1);
    assert!(matches!(&query.features[0], MediaFeature::MinWidth(w) if w == "768"));
}

#[test]
fn media_query_modifiers_and_conditions() {
    let tokens = vec![
        id("ONLY"),
        CssToken::WhiteSpace,
        id("Print"),
        CssToken::WhiteSpace,
        id("AND"),
        paren(vec![id("Orientation"), CssToken::Colon, id("landscape")]),
        CssToken::WhiteSpace,
        id("and"),
        paren(vec![id("max-aspect-ratio"), CssToken::Colon, num(16), CssToken::Delim('/'), num(9)]),
        CssToken::Comment,
    ];
    let q = parse_media_query(&tokens).unwrap();
    assert_eq!(q.modifier, Some(MediaQueryModifier::Only));
    assert_eq!(q.media_type, MediaType::Print);
    assert_eq!(q.features.len(), 2);
    assert!(matches!(q.features[0], MediaFeature::Orientation(Orientation::Landscape)));
    assert!(matches!(q.features[1], MediaFeature::MaxAspectRatio { width: 16, height: 9 }));

    let feature_only = parse_media_query(&vec![paren(vec![id("hover"), CssToken::Colon, id("none")])]).unwrap();
    assert_eq!(feature_only.media_type, MediaType::All);
    assert!(matches!(feature_only.features[0], MediaFeature::Hover(false)));

    let not_all = parse_media_query(&vec![id("not"), CssToken::WhiteSpace, id("tv")]).unwrap();
    assert_eq!(not_all.modifier, Some(MediaQueryModifier::Not));
    assert_eq!(not_all.media_type, MediaType::All);

    let other = parse_media_query(&vec![paren(vec![id("color-gamut"), CssToken::Colon, id("p3")])]).unwrap();
    assert!(matches!(&other.features[0], MediaFeature::Other { name, value } if name == "color-gamut" && value == "p3"));
}

#[test]
fn media_query_errors() {
    let dangling_and = vec![id("screen"), CssToken::WhiteSpace, id("and"), CssToken::WhiteSpace, id("print")];
    assert!(parse_media_query(&dangling_and).is_err());
    let leftover = vec![id("screen"), CssToken::WhiteSpace, id("print")];
    assert!(parse_media_query(&leftover).is_err());
    let bad_unit = vec![paren(vec![id("min-width"), CssToken::Colon, CssToken::Dimension {
        text: "2".to_string(),
        unit: "em".to_string(),
    }])];
    assert!(parse_media_query(&bad_unit).is_err());
    let extra = vec![paren(vec![id("min-width"), CssToken::Colon, px("1"), px("2")])];
    assert!(parse_media_query(&extra).is_err());
    assert!(parse_media_feature(&vec![id("min-height"), CssToken::Colon, num(5)]).is_some());
}

#[test]
fn query_constructors() {
    let q = MediaQuery::new();
    assert!(q.modifier.is_none());
    assert_eq!(q.media_type, MediaType::All);
    assert!(q.features.is_empty());
    assert_eq!(q.operator, MediaQueryOperator::And);
    let p = MediaQuery::for_media_type(MediaType::Print);
    assert_eq!(p.media_type, MediaType::Print);
    assert!(p.features.is_empty());
    let d = MediaQuery::default();
    assert_eq!(d.media_type, MediaType::All);
}

#[test]
fn test_media_query_parsing() {
    // @media (min-width: 768px)
    let tokens = vec![paren(vec![id("min-width"), CssToken::Colon, CssToken::WhiteSpace, px("768")])];
    let query = parse_media_query(&tokens).unwrap();
    assert_eq!(query.media_type, MediaType::All);
    assert!(matches!(&query.features[0], MediaFeature::MinWidth(w) if w == "768"));
}

#[test]
fn test_aspect_ratio_parsing() {
    let ratio = |name: &str, w: i32, h: i32| {
        vec![paren(vec![id(name), CssToken::Colon, CssToken::WhiteSpace, num(w), CssToken::Delim('/'), num(h)])]
    };
    let a = parse_media_query(&ratio("aspect-ratio", 16, 9)).unwrap();
    assert!(matches!(a.features[0], MediaFeature::AspectRatio { width: 16, height: 9 }));
    let b = parse_media_query(&ratio("min-aspect-ratio", 16, 9)).unwrap();
    assert!(matches!(b.features[0], MediaFeature::MinAspectRatio { width: 16, height: 9 }));
    let c = parse_media_query(&ratio("max-aspect-ratio", 4, 3)).unwrap();
    assert!(matches!(c.features[0], MediaFeature::MaxAspectRatio { width: 4, height: 3 }));
}
