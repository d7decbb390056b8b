use textflow::{layout_markdown, FontStyle, LayoutConfig, LayoutError, Span};

fn texts(lines: &[Vec<Span>]) -> Vec<Vec<String>> {
    lines.iter().map(|line| line.iter().map(|span| span.text().to_string()).collect()).collect()
}

fn fonts(lines: &[Vec<Span>]) -> Vec<Vec<FontStyle>> {
    lines.iter().map(|line| line.iter().map(|span| span.font()).collect()).collect()
}

#[test]
fn a_paragraph_of_two_source_lines_is_one_line() {
    let lines = layout_markdown("Hello\nworld\n", &LayoutConfig::default()).unwrap();
    assert_eq!(texts(&lines), vec![vec!["Hello", " ", "world"]]);
    assert_eq!(fonts(&lines), vec![vec![FontStyle::Regular; 3]]);
}

#[test]
fn strong_markdown_is_bold() {
    let lines = layout_markdown("**Bold** plain", &LayoutConfig::default()).unwrap();
    assert_eq!(texts(&lines), vec![vec!["Bold", " plain"]]);
    assert_eq!(fonts(&lines), vec![vec![FontStyle::Bold, FontStyle::Regular]]);
    assert_eq!(lines[0][0].width(), 24_012);
    assert_eq!(lines[0][1].width(), 27_000);
}

#[test]
fn emphasised_markdown_is_italic() {
    let lines = layout_markdown("a *soft* a", &LayoutConfig::default()).unwrap();
    assert_eq!(texts(&lines), vec![vec!["a ", "soft", " a"]]);
    assert_eq!(
        fonts(&lines),
        vec![vec![FontStyle::Regular, FontStyle::Italic, FontStyle::Regular]]
    );
}

#[test]
fn paragraphs_are_lines_of_their_own() {
    let lines = layout_markdown("one\n\ntwo\n", &LayoutConfig::default()).unwrap();
    assert_eq!(texts(&lines), vec![vec!["one"], vec!["two"]]);
}

#[test]
fn the_items_of_a_list_are_marked() {
    let lines = layout_markdown("- one\n- two\n", &LayoutConfig::default()).unwrap();
    assert_eq!(texts(&lines), vec![vec![" - ", "one"], vec![" - ", "two"]]);
}

#[test]
fn other_markup_keeps_its_text() {
    let lines = layout_markdown("# Hello\n\nworld\n", &LayoutConfig::default()).unwrap();
    assert_eq!(texts(&lines), vec![vec!["Hello", "world"]]);
}

#[test]
fn an_empty_text_has_no_lines() {
    assert!(layout_markdown("", &LayoutConfig::default()).unwrap().is_empty());
}

#[test]
fn markdown_wraps_at_the_usable_width() {
    let config = LayoutConfig {
        page_width: 60_000,
        margin_left: 0,
        margin_right: 0,
        font_size: 12,
        line_leading: 18_000,
    };
    let lines = layout_markdown("Hello **Hello** Hello", &config).unwrap();
    // "Hello " is 29664 wide, the bold "Hello" 27336 and " Hello" 29664.
    assert_eq!(texts(&lines), vec![vec!["Hello ", "Hello"], vec![" Hello"]]);
}

#[test]
fn markdown_is_not_read_for_an_invalid_configuration() {
    let mut config = LayoutConfig::default();
    config.margin_right = 575_000;
    assert_eq!(
        layout_markdown("Hello", &config).unwrap_err(),
        LayoutError::InvalidConfiguration
    );
}

#[test]
fn markdown_with_a_text_too_long_fails() {
    let markdown = "a".repeat(40_000);
    assert_eq!(
        layout_markdown(&markdown, &LayoutConfig::default()).unwrap_err(),
        LayoutError::MeasurementFailure
    );
}
