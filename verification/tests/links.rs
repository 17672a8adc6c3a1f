use pubkit::external_link::{is_external_link, replace_external_link};

#[test]
fn test_is_external_link() {
    let base_url = "https://example.com";

    // External links
    assert!(is_external_link("https://example.org/test", base_url));
    assert!(is_external_link("//example.net/test", base_url));
    assert!(is_external_link("https://sub.example.org", base_url));

    // Internal links
    assert!(!is_external_link("https://example.com/page", base_url));
    assert!(!is_external_link("https://example.com", base_url));
}

#[test]
fn test_relative_paths() {
    let base_url = "https://example.com";

    // Test relative path (should not modify - not matched by regex)
    let input = r#"<a href="/page">Relative</a>"#;
    assert_eq!(replace_external_link(input, base_url), input);

    // Test relative path with directory (should not modify - not matched by regex)
    let input = r#"<a href="../page">Relative Up</a>"#;
    assert_eq!(replace_external_link(input, base_url), input);

    // Test anchor link (should not modify - not matched by regex)
    let input = r##"<a href="#section">Anchor</a>"##;
    assert_eq!(replace_external_link(input, base_url), input);

    // Test query string relative (should not modify - not matched by regex)
    let input = r#"<a href="?page=1">Query</a>"#;
    assert_eq!(replace_external_link(input, base_url), input);
}

#[test]
fn test_external_link_replacement() {
    let base_url = "https://example.com";

    // Test external link without attributes
    let input = r#"<a href="https://example.org">Example Org</a>"#;
    let expected = r#"<a target="_blank" rel="noopener external nofollow noreferrer" href="https://example.org">Example Org</a>"#;
    assert_eq!(replace_external_link(input, base_url), expected);

    // Test external link with existing target (should not modify)
    let input = r#"<a href="https://example.org" target="_self">Example Org</a>"#;
    assert_eq!(replace_external_link(input, base_url), input);

    // Test external link with existing rel attribute
    let input = r#"<a href="https://example.org" rel="bookmark">Example Org</a>"#;
    let expected =
        r#"<a target="_blank" href="https://example.org" rel="bookmark noopener">Example Org</a>"#;
    assert_eq!(replace_external_link(input, base_url), expected);

    // Test internal link (should not modify)
    let input = r#"<a href="https://example.com/page">Internal</a>"#;
    assert_eq!(replace_external_link(input, base_url), input);

    // Test protocol-relative external link
    let input = r#"<a href="//example.net/test">Example Net</a>"#;
    let expected = r#"<a target="_blank" rel="noopener external nofollow noreferrer" href="//example.net/test">Example Net</a>"#;
    assert_eq!(replace_external_link(input, base_url), expected);
}

#[test]
fn test_existing_rel_with_noopener() {
    let base_url = "https://example.com";
    let input = r#"<a href="https://example.org" rel="noopener bookmark">Example Org</a>"#;
    let expected =
        r#"<a target="_blank" href="https://example.org" rel="noopener bookmark">Example Org</a>"#;
    assert_eq!(replace_external_link(input, base_url), expected);
}
