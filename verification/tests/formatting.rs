use imessage_rs::formatting::{
    has_text_formatting, parse_markdown_formatting, validate_text_formatting, ParsedFormatting,
    TextFormattingRange, TextFormattingStyle,
};
use imessage_rs::json::Json;

fn range_json(start: i64, length: i64, styles: &[&str]) -> Json {
    Json::Object(vec![
        ("start".to_string(), Json::Int(start)),
        ("length".to_string(), Json::Int(length)),
        (
            "styles".to_string(),
            Json::Array(styles.iter().map(|s| Json::Str(s.to_string())).collect()),
        ),
    ])
}

#[test]
fn validate_valid_formatting() {
    let f = Json::Array(vec![range_json(0, 4, &["bold"])]);
    assert!(validate_text_formatting(&f, "test").is_ok());
}

#[test]
fn validate_empty_message() {
    let f = Json::Array(vec![range_json(0, 1, &["bold"])]);
    assert!(validate_text_formatting(&f, "").is_err());
}

#[test]
fn validate_range_exceeds() {
    let f = Json::Array(vec![range_json(2, 10, &["bold"])]);
    assert!(validate_text_formatting(&f, "test").is_err());
}

#[test]
fn validate_invalid_style() {
    let f = Json::Array(vec![range_json(0, 1, &["comic-sans"])]);
    assert!(validate_text_formatting(&f, "test").is_err());
}

#[test]
fn has_formatting_works() {
    assert!(!has_text_formatting(None));
    assert!(!has_text_formatting(Some(&Json::Array(vec![]))));
    let one = Json::Array(vec![Json::Object(vec![("start".to_string(), Json::Int(0))])]);
    assert!(has_text_formatting(Some(&one)));
}

#[test]
fn validate_error_messages() {
    let msg = |f: &Json, m: &str| validate_text_formatting(f, m).unwrap_err();
    assert_eq!(msg(&Json::Null, "x"), "textFormatting must be an array");
    assert_eq!(
        msg(&Json::Array(vec![]), ""),
        "A non-empty 'message' is required when using textFormatting"
    );
    assert_eq!(
        msg(&Json::Array(vec![Json::Int(1)]), "x"),
        "textFormatting[0] must be an object"
    );
    assert_eq!(
        msg(&Json::Array(vec![range_json(-1, 1, &["bold"])]), "x"),
        "textFormatting[0].start must be an integer >= 0"
    );
    assert_eq!(
        msg(&Json::Array(vec![range_json(0, 1, &["bold"]), range_json(0, 0, &["bold"])]), "x"),
        "textFormatting[1].length must be an integer > 0"
    );
    assert_eq!(
        msg(&Json::Array(vec![range_json(1, 1, &["bold"])]), "x"),
        "textFormatting[0] range exceeds message length"
    );
    assert_eq!(
        msg(&Json::Array(vec![range_json(0, 1, &[])]), "x"),
        "textFormatting[0].styles must be a non-empty array"
    );
    let non_string = Json::Object(vec![
        ("start".to_string(), Json::Int(0)),
        ("length".to_string(), Json::Int(1)),
        ("styles".to_string(), Json::Array(vec![Json::Int(3)])),
    ]);
    assert_eq!(
        msg(&Json::Array(vec![non_string]), "x"),
        "textFormatting[0].styles contains non-string value"
    );
    assert_eq!(
        msg(&Json::Array(vec![range_json(0, 1, &["bold", "blink"])]), "x"),
        "textFormatting[0].styles contains unsupported value: blink"
    );
}

#[test]
fn validate_counts_bytes_of_message() {
    // "é" is two bytes long: a range of two fits.
    let f = Json::Array(vec![range_json(0, 2, &["italic"])]);
    assert!(validate_text_formatting(&f, "é").is_ok());
}

#[test]
fn range_to_json_lists_style_names() {
    let r = TextFormattingRange {
        start: 3,
        length: 2,
        styles: vec![TextFormattingStyle::Bold, TextFormattingStyle::Underline],
    };
    let expected = Json::Object(vec![
        ("start".to_string(), Json::Uint(3)),
        ("length".to_string(), Json::Uint(2)),
        (
            "styles".to_string(),
            Json::Array(vec![
                Json::Str("bold".to_string()),
                Json::Str("underline".to_string()),
            ]),
        ),
    ]);
    assert_eq!(r.to_json(), expected);
    let parsed = ParsedFormatting { clean_text: "hello".to_string(), formatting: vec![r] };
    assert_eq!(parsed.formatting_json(), Json::Array(vec![expected]));
}

// ---------------------------------------------------------------------------
// Markdown parsing
// ---------------------------------------------------------------------------

#[test]
fn null_empty_input() {
    assert!(parse_markdown_formatting("").is_none());
}

#[test]
fn plain_text_unchanged() {
    assert!(parse_markdown_formatting("hello world").is_none());
}

#[test]
fn bold_stars() {
    let r = parse_markdown_formatting("**bold**").unwrap();
    assert_eq!(r.clean_text, "bold");
    assert_eq!(r.formatting.len(), 1);
    assert_eq!(r.formatting[0].start, 0);
    assert_eq!(r.formatting[0].length, 4);
    assert_eq!(r.formatting[0].styles, vec![TextFormattingStyle::Bold]);
}

#[test]
fn italic_stars() {
    let r = parse_markdown_formatting("*italic*").unwrap();
    assert_eq!(r.clean_text, "italic");
    assert_eq!(r.formatting.len(), 1);
    assert_eq!(r.formatting[0].start, 0);
    assert_eq!(r.formatting[0].length, 6);
    assert_eq!(r.formatting[0].styles, vec![TextFormattingStyle::Italic]);
}

#[test]
fn strikethrough() {
    let r = parse_markdown_formatting("~~struck~~").unwrap();
    assert_eq!(r.clean_text, "struck");
    assert_eq!(r.formatting.len(), 1);
    assert_eq!(r.formatting[0].start, 0);
    assert_eq!(r.formatting[0].length, 6);
    assert_eq!(r.formatting[0].styles, vec![TextFormattingStyle::Strikethrough]);
}

#[test]
fn bold_italic_stars() {
    let r = parse_markdown_formatting("***both***").unwrap();
    assert_eq!(r.clean_text, "both");
    assert_eq!(r.formatting.len(), 1);
    assert_eq!(r.formatting[0].start, 0);
    assert_eq!(r.formatting[0].length, 4);
    assert_eq!(
        r.formatting[0].styles,
        vec![TextFormattingStyle::Bold, TextFormattingStyle::Italic]
    );
}

#[test]
fn bold_underscore() {
    let r = parse_markdown_formatting("__bold__").unwrap();
    assert_eq!(r.clean_text, "bold");
    assert_eq!(r.formatting.len(), 1);
    assert_eq!(r.formatting[0].start, 0);
    assert_eq!(r.formatting[0].length, 4);
    assert_eq!(r.formatting[0].styles, vec![TextFormattingStyle::Bold]);
}

#[test]
fn italic_underscore() {
    let r = parse_markdown_formatting("_italic_").unwrap();
    assert_eq!(r.clean_text, "italic");
    assert_eq!(r.formatting.len(), 1);
    assert_eq!(r.formatting[0].start, 0);
    assert_eq!(r.formatting[0].length, 6);
    assert_eq!(r.formatting[0].styles, vec![TextFormattingStyle::Italic]);
}

#[test]
fn bold_italic_underscore() {
    let r = parse_markdown_formatting("___both___").unwrap();
    assert_eq!(r.clean_text, "both");
    assert_eq!(r.formatting.len(), 1);
    assert_eq!(r.formatting[0].start, 0);
    assert_eq!(r.formatting[0].length, 4);
    assert_eq!(
        r.formatting[0].styles,
        vec![TextFormattingStyle::Bold, TextFormattingStyle::Italic]
    );
}

#[test]
fn mid_word_underscores_preserved() {
    assert!(parse_markdown_formatting("some_var_name").is_none());
}

#[test]
fn urls_protected() {
    assert!(parse_markdown_formatting("https://en.wikipedia.org/wiki/Hong_Kong_Island").is_none());
}

#[test]
fn code_spans_protected() {
    assert!(parse_markdown_formatting("`*not italic*`").is_none());
}

#[test]
fn backslash_escapes() {
    let r = parse_markdown_formatting("\\*literal\\*").unwrap();
    assert_eq!(r.clean_text, "*literal*");
    assert!(r.formatting.is_empty());
}

#[test]
fn mixed_formatting_correct_offsets() {
    let r = parse_markdown_formatting("**bold** and *italic*").unwrap();
    assert_eq!(r.clean_text, "bold and italic");
    assert_eq!(r.formatting.len(), 2);
    assert_eq!(r.formatting[0].start, 0);
    assert_eq!(r.formatting[0].length, 4);
    assert_eq!(r.formatting[0].styles, vec![TextFormattingStyle::Bold]);
    assert_eq!(r.formatting[1].start, 9);
    assert_eq!(r.formatting[1].length, 6);
    assert_eq!(r.formatting[1].styles, vec![TextFormattingStyle::Italic]);
}

#[test]
fn fenced_code_blocks_protected() {
    assert!(parse_markdown_formatting("```\n**not bold**\n```").is_none());
}

#[test]
fn nested_bold_italic() {
    let r = parse_markdown_formatting("**_bold italic_**").unwrap();
    assert_eq!(r.clean_text, "bold italic");
    let all_styles: Vec<_> = r.formatting.iter().flat_map(|r| &r.styles).collect();
    assert!(all_styles.contains(&&TextFormattingStyle::Bold));
    assert!(all_styles.contains(&&TextFormattingStyle::Italic));
}

#[test]
fn later_pass_moves_earlier_ranges_and_sorts() {
    let r = parse_markdown_formatting("plain ~~x~~ **y**").unwrap();
    assert_eq!(r.clean_text, "plain x y");
    assert_eq!(r.formatting.len(), 2);
    assert_eq!(r.formatting[0].start, 6);
    assert_eq!(r.formatting[0].length, 1);
    assert_eq!(r.formatting[0].styles, vec![TextFormattingStyle::Strikethrough]);
    assert_eq!(r.formatting[1].start, 8);
    assert_eq!(r.formatting[1].length, 1);
    assert_eq!(r.formatting[1].styles, vec![TextFormattingStyle::Bold]);
}

#[test]
fn offsets_count_utf8_bytes() {
    let r = parse_markdown_formatting("é **b**").unwrap();
    assert_eq!(r.clean_text, "é b");
    assert_eq!(r.formatting[0].start, 3);
    assert_eq!(r.formatting[0].length, 1);
}

#[test]
fn emphasis_does_not_cross_lines() {
    assert!(parse_markdown_formatting("**a\nb**").is_none());
}

#[test]
fn code_span_text_comes_back() {
    let r = parse_markdown_formatting("`x` **y**").unwrap();
    assert_eq!(r.clean_text, "`x` y");
    assert_eq!(r.formatting.len(), 1);
    assert_eq!(r.formatting[0].styles, vec![TextFormattingStyle::Bold]);
}

#[test]
fn ranges_count_set_aside_code_at_its_own_length() {
    let r = parse_markdown_formatting("`x` **b**").unwrap();
    assert_eq!(r.clean_text, "`x` b");
    assert_eq!(r.formatting.len(), 1);
    assert_eq!(r.formatting[0].start, 4);
    assert_eq!(r.formatting[0].length, 1);
    assert_eq!(r.formatting[0].styles, vec![TextFormattingStyle::Bold]);
}

#[test]
fn ranges_after_a_url_and_an_escape_fit_the_clean_text() {
    let r = parse_markdown_formatting("see https://a.b/c \\* and *it*").unwrap();
    assert_eq!(r.clean_text, "see https://a.b/c * and it");
    assert_eq!(r.formatting.len(), 1);
    assert_eq!(r.formatting[0].start, 24);
    assert_eq!(r.formatting[0].length, 2);
    assert_eq!(r.formatting[0].styles, vec![TextFormattingStyle::Italic]);
}
