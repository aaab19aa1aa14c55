use zver::css::fonts::{FontFace, FontFormat, FontSource, FontStyle, FontWeight, LoadedFont, UnicodeRange};

#[test]
fn test_font_format_from_extension() {
    assert_eq!(FontFormat::from_extension("ttf"), Some(FontFormat::TrueType));
    assert_eq!(FontFormat::from_extension("WOFF2"), Some(FontFormat::Woff2));
    assert_eq!(FontFormat::from_extension("unknown"), None);
}

#[test]
fn test_font_weight_parsing() {
    assert_eq!("normal".parse::<FontWeight>(), Ok(FontWeight::Normal));
    assert_eq!("bold".parse::<FontWeight>(), Ok(FontWeight::Bold));
    assert_eq!("400".parse::<FontWeight>(), Ok(FontWeight::Weight(400)));
    assert!("1000".parse::<FontWeight>().is_err());
}

#[test]
fn test_font_style_parsing() {
    assert_eq!("normal".parse::<FontStyle>(), Ok(FontStyle::Normal));
    assert_eq!("ITALIC".parse::<FontStyle>(), Ok(FontStyle::Italic));
    assert_eq!("oblique".parse::<FontStyle>(), Ok(FontStyle::Oblique));
}

#[test]
fn test_unicode_range() {
    let range = UnicodeRange::new(0x0000, 0x00FF);
    assert!(range.contains(0x0050));
    assert!(range.contains(0x0000));
    assert!(range.contains(0x00FF));
    assert!(!range.contains(0x0100));
}

#[test]
fn font_weight_edges() {
    assert_eq!(FontWeight::parse("100"), Ok(FontWeight::Weight(100)));
    assert_eq!(FontWeight::parse("900"), Ok(FontWeight::Weight(900)));
    assert!(FontWeight::parse("99").is_err());
    assert!(FontWeight::parse("901").is_err());
    assert_eq!(FontWeight::parse("+500"), Ok(FontWeight::Weight(500)));
    assert_eq!(FontWeight::parse("0400"), Ok(FontWeight::Weight(400)));
    assert!(FontWeight::parse("-400").is_err());
    assert!(FontWeight::parse(" 400").is_err());
    assert!(FontWeight::parse("").is_err());
    assert!(FontWeight::parse("99999999999").is_err());
    assert_eq!(FontWeight::parse("BOLD"), Ok(FontWeight::Bold));
    assert_eq!(FontWeight::Bold.to_numeric(), 700);
    assert_eq!(FontWeight::Normal.to_numeric(), 400);
    assert_eq!(FontWeight::Weight(300).to_numeric(), 300);
    assert_eq!(FontWeight::Weight(300).to_css_text(), "300");
    assert_eq!(FontWeight::default(), FontWeight::Normal);
    assert_eq!(FontStyle::default(), FontStyle::Normal);
    assert!(FontStyle::parse("slanted").is_err());
}

#[test]
fn font_format_names_and_support() {
    assert_eq!(FontFormat::Eot.name(), "embedded-opentype");
    assert_eq!(FontFormat::from_extension("OtF"), Some(FontFormat::OpenType));
    assert!(FontFormat::TrueType.is_supported_by_fontdue());
    assert!(FontFormat::OpenType.is_supported_by_fontdue());
    assert!(!FontFormat::Woff2.is_supported_by_fontdue());
}

#[test]
fn font_source_css_text() {
    let s = FontSource::Url { url: "a.woff2".to_string(), format: Some(FontFormat::Woff2) };
    assert_eq!(s.to_css_text(), "url('a.woff2') format('woff2')");
    let s = FontSource::Url { url: "a.ttf".to_string(), format: None };
    assert_eq!(s.to_css_text(), "url('a.ttf')");
    let s = FontSource::Local { name: "Arial".to_string() };
    assert_eq!(s.to_css_text(), "local('Arial')");
}

#[test]
fn font_face_matching() {
    let mut face = FontFace::new("MyFont".to_string());
    assert!(face.matches("myfont", FontWeight::Normal, FontStyle::Normal));
    assert!(!face.matches("myfont", FontWeight::Bold, FontStyle::Normal));
    assert!(!face.matches("other", FontWeight::Normal, FontStyle::Normal));
    face.add_source(FontSource::Local { name: "x".to_string() });
    face.add_source(FontSource::Local { name: "y".to_string() });
    assert_eq!(face.sources.len(), 2);
}

#[test]
fn loaded_font_rejects_garbage() {
    let mut font = LoadedFont::new(FontFace::new("F".to_string()));
    assert!(!font.is_loaded());
    let r = font.load_from_bytes(&[0, 1, 2, 3]);
    let msg = r.unwrap_err();
    assert!(msg.starts_with("Failed to load font: "));
    assert!(msg.len() > "Failed to load font: ".len());
    assert!(!font.is_loaded());
}
