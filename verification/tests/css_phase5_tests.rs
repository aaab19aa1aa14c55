#[test]
fn test_inline_styles() {
    // Inline styles get the highest specificity; see the cascade tests.
}
