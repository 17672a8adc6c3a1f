use pubkit::markdown::{preprocess_blockquotes, render};

#[test]
fn test_render() {
    let input = "![Rust](https://example.com/example.png)";
    let output = render(input);

    assert_eq!(
        output,
        "<p><img src=\"https://example.com/example.png\" alt=\"Rust\" loading=\"lazy\"></p>\n"
    );
}

#[test]
fn test_consecutive_blockquote_lines() {
    let input = "> Line 1\n> Line 2\n> Line 3";
    let output = render(input);

    assert_eq!(
        output,
        "<blockquote>\n<p>Line 1</p>\n<p>Line 2</p>\n<p>Line 3</p>\n</blockquote>\n"
    );
}

#[test]
fn test_blockquote_with_existing_blank_lines() {
    let input = "> Line 1\n>\n> Line 2";
    let output = render(input);

    assert_eq!(
        output,
        "<blockquote>\n<p>Line 1</p>\n<p>Line 2</p>\n</blockquote>\n"
    );
}

#[test]
fn test_single_blockquote_line() {
    let input = "> Single line";
    let output = render(input);

    assert_eq!(output, "<blockquote>\n<p>Single line</p>\n</blockquote>\n");
}

#[test]
fn preprocess_separates_consecutive_blockquotes() {
    assert_eq!(
        preprocess_blockquotes("> Line 1\n> Line 2"),
        "> Line 1\n>\n> Line 2"
    );
    // an empty blockquote line is never doubled after itself, though one
    // is still inserted before the line that follows it
    assert_eq!(
        preprocess_blockquotes("> Line 1\n>\n> Line 2"),
        "> Line 1\n>\n>\n> Line 2"
    );
    // indented blockquote lines count too
    assert_eq!(
        preprocess_blockquotes("  > a\n\t> b"),
        "  > a\n>\n\t> b"
    );
    // non-blockquote text is left alone
    assert_eq!(preprocess_blockquotes("plain\ntext"), "plain\ntext");
    assert_eq!(preprocess_blockquotes(""), "");
}

#[test]
fn preprocess_keeps_lines_verbatim() {
    // a final line ending in a bare carriage return is kept as it
    // stands, as str::lines keeps it
    assert_eq!(preprocess_blockquotes("abc\r"), "abc\r");
    // a carriage return before a newline belongs to the line ending and
    // goes with it
    assert_eq!(preprocess_blockquotes("> a\r\n> b"), "> a\n>\n> b");
    // a trailing newline is dropped, as splitting and rejoining drops it
    assert_eq!(preprocess_blockquotes("plain\n"), "plain");
}

#[test]
fn preprocess_trims_unicode_whitespace() {
    // any whitespace may stand before the blockquote marker
    assert_eq!(
        preprocess_blockquotes("\u{A0}> a\n\u{2002}> b"),
        "\u{A0}> a\n>\n\u{2002}> b"
    );
}
