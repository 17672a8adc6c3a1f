use pubkit::utils::{format_path, remove_template_engines_syntax, should_skip_paths};

#[test]
fn test_remove_template_engines_syntax() {
    let input = "{% raw %}Hello{% endraw %}";
    let expected = "Hello";
    assert_eq!(remove_template_engines_syntax(input), expected);
}

#[test]
fn test_remove_template_engines_syntax_multiple() {
    let input = "{% raw %}Hello{% endraw %} World {% raw %}Rust{% endraw %}";
    let expected = "Hello World Rust";
    assert_eq!(remove_template_engines_syntax(input), expected);
}

#[test]
fn test_remove_template_engines_syntax_no_tags() {
    let input = "Hello World";
    let expected = "Hello World";
    assert_eq!(remove_template_engines_syntax(input), expected);
}

#[test]
fn test_remove_template_engines_syntax_empty() {
    let input = "";
    let expected = "";
    assert_eq!(remove_template_engines_syntax(input), expected);
}

#[test]
fn test_remove_template_engines_syntax_only_tags() {
    let input = "{% raw %}{% endraw %}";
    let expected = "";
    assert_eq!(remove_template_engines_syntax(input), expected);
}

#[test]
fn test_format_path() {
    assert_eq!(
        format_path("path/to/resource", "article"),
        "/articles/path/to/resource/"
    );
    assert_eq!(
        format_path("path/to/resource/index.html", "article"),
        "/articles/path/to/resource/"
    );
    assert_eq!(
        format_path("path/to/resource/index.html/", "article"),
        "/articles/path/to/resource/"
    );
    assert_eq!(
        format_path("path/to/resource/", "article"),
        "/articles/path/to/resource/"
    );
    assert_eq!(
        format_path("/path/to/resource", "article"),
        "/articles/path/to/resource/"
    );
    assert_eq!(
        format_path("/path/to/resource/", "article"),
        "/articles/path/to/resource/"
    );
    assert_eq!(
        format_path("path/to/resource", "other"),
        "/path/to/resource/"
    );
    assert_eq!(
        format_path("path/to/resource/", "other"),
        "/path/to/resource/"
    );
    assert_eq!(
        format_path("/path/to/resource", "other"),
        "/path/to/resource/"
    );
    assert_eq!(
        format_path("/path/to/resource/", "other"),
        "/path/to/resource/"
    );
}

#[test]
fn test_should_skip_paths() {
    let skip_paths: Vec<String> = vec![
        "temp/**".to_string(),
        "temp/**/hoge.md".to_string(),
        "_drafts/**".to_string(),
        "*.tmp".to_string(),
        "**/temp".to_string(),
    ];

    assert!(should_skip_paths("temp/some-path", &skip_paths));
    assert!(should_skip_paths("temp/foo/hoge.md", &skip_paths));
    assert!(should_skip_paths("_drafts/some-path", &skip_paths));
    assert!(should_skip_paths("_drafts/some-path/bar.md", &skip_paths));
    assert!(should_skip_paths("some-file.tmp", &skip_paths));
    assert!(should_skip_paths("some/path/temp", &skip_paths));
    assert!(!should_skip_paths("some-other-path", &skip_paths));
}

#[test]
fn empty_skip_list_skips_nothing() {
    let skip_paths: Vec<String> = Vec::new();
    assert!(!should_skip_paths("anything", &skip_paths));
    assert!(!should_skip_paths("", &skip_paths));
}
