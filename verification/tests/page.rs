use textflow::{FontStyle, Page, PositionedSpan, Span};

fn span(text: &str, font: FontStyle) -> Span {
    Span::new(text.to_string(), font, 12).unwrap()
}

fn places(spans: &[PositionedSpan]) -> Vec<(String, i64, i64)> {
    spans.iter().map(|placed| (placed.span().text().to_string(), placed.x(), placed.y())).collect()
}

#[test]
fn a_new_page_is_empty() {
    assert!(Page::new().into_vec().is_empty());
}

#[test]
fn spans_follow_each_other_on_one_baseline() {
    let spans = vec![
        span("Hello", FontStyle::Regular),
        span(" ", FontStyle::Regular),
        span("Bold", FontStyle::Bold),
        span("soft", FontStyle::Italic),
    ];
    let mut page = Page::new();
    page.render_spans(&spans, 20_000, 822_000);
    let placed = page.into_vec();
    assert_eq!(
        places(&placed),
        vec![
            ("Hello".to_string(), 20_000, 822_000),
            (" ".to_string(), 46_664, 822_000),
            ("Bold".to_string(), 49_664, 822_000),
            ("soft".to_string(), 73_676, 822_000),
        ]
    );
    for (index, positioned) in placed.iter().enumerate() {
        assert_eq!(positioned.span().font(), spans[index].font());
        assert_eq!(positioned.span().size(), 12);
        if index + 1 < placed.len() {
            assert_eq!(placed[index + 1].x(), positioned.x() + positioned.span().width());
        }
    }
}

#[test]
fn coordinates_may_be_negative() {
    let spans = vec![span("one", FontStyle::Regular), span("two", FontStyle::Regular)];
    let mut page = Page::new();
    page.render_spans(&spans, -20_000, -5);
    assert_eq!(
        places(&page.into_vec()),
        vec![("one".to_string(), -20_000, -5), ("two".to_string(), -2_672, -5)]
    );
}

#[test]
fn no_spans_place_nothing() {
    let mut page = Page::new();
    page.render_spans(&[], 0, 0);
    page.render_spans(&[], i64::MAX, i64::MIN);
    assert!(page.into_vec().is_empty());
}

#[test]
fn a_page_gathers_what_is_placed_on_it() {
    let mut page = Page::new();
    page.render_spans(&[span("one", FontStyle::Regular)], 20_000, 822_000);
    page.render_spans(&[span("two", FontStyle::Bold), span("a", FontStyle::Bold)], 20_000, 804_000);
    assert_eq!(
        places(&page.into_vec()),
        vec![
            ("one".to_string(), 20_000, 822_000),
            ("two".to_string(), 20_000, 804_000),
            ("a".to_string(), 20_000 + 12 * 1_555, 804_000),
        ]
    );
}

#[test]
fn a_cleared_page_is_empty_and_can_be_used_again() {
    let mut page = Page::new();
    page.render_spans(&[span("one", FontStyle::Regular)], 20_000, 822_000);
    page.clear();
    page.render_spans(&[span("two", FontStyle::Regular)], 1, 2);
    assert_eq!(places(&page.into_vec()), vec![("two".to_string(), 1, 2)]);
    let mut page = Page::new();
    page.render_spans(&[span("one", FontStyle::Regular)], 20_000, 822_000);
    page.clear();
    assert!(page.into_vec().is_empty());
}

#[test]
fn a_copy_of_a_page_holds_the_same_spans() {
    let mut page = Page::new();
    page.render_spans(&[span("one", FontStyle::Italic), span("two", FontStyle::Bold)], 7, 9);
    let copy = page.clone();
    page.clear();
    let placed = copy.into_vec();
    assert_eq!(places(&placed), vec![("one".to_string(), 7, 9), ("two".to_string(), 7 + 17_328, 9)]);
    assert_eq!(placed[0].span().font(), FontStyle::Italic);
    assert_eq!(placed[1].span().font(), FontStyle::Bold);
}

#[test]
fn a_positioned_span_holds_its_span_and_its_place() {
    let placed = PositionedSpan::new(span("Hello", FontStyle::Bold), 3, -4);
    assert_eq!(placed.span().text(), "Hello");
    assert_eq!(placed.span().font(), FontStyle::Bold);
    assert_eq!(placed.x(), 3);
    assert_eq!(placed.y(), -4);
    let copy = placed.clone();
    assert_eq!(copy.span().text(), "Hello");
    assert_eq!(copy.x(), 3);
    assert_eq!(copy.y(), -4);
}

#[test]
fn spans_fit_where_their_end_can_be_held() {
    let spans = vec![span("Hello", FontStyle::Regular), span("world", FontStyle::Regular)];
    let width = 26_664 + 27_996;
    assert!(Page::fits(&spans, 0));
    assert!(Page::fits(&spans, i64::MIN));
    assert!(Page::fits(&spans, i64::MAX - width));
    assert!(!Page::fits(&spans, i64::MAX - width + 1));
    assert!(!Page::fits(&spans, i64::MAX));
    assert!(Page::fits(&[], i64::MAX));
}

#[test]
fn spans_are_placed_up_to_the_last_coordinate() {
    let spans = vec![span("Hello", FontStyle::Regular), span("world", FontStyle::Regular)];
    let start = i64::MAX - 26_664 - 27_996;
    let mut page = Page::new();
    page.render_spans(&spans, start, 0);
    assert_eq!(
        places(&page.into_vec()),
        vec![("Hello".to_string(), start, 0), ("world".to_string(), start + 26_664, 0)]
    );
}

#[test]
fn lines_lie_one_leading_below_each_other() {
    let lines = vec![
        vec![span("Hello", FontStyle::Regular), span("world", FontStyle::Regular)],
        vec![],
        vec![span("one", FontStyle::Bold)],
        vec![span("a", FontStyle::Regular), span("i", FontStyle::Regular)],
    ];
    let mut page = Page::new();
    assert!(page.render_lines(&lines, 20_000, 822_000, 18_000));
    assert_eq!(
        places(&page.into_vec()),
        vec![
            ("Hello".to_string(), 20_000, 822_000),
            ("world".to_string(), 46_664, 822_000),
            ("one".to_string(), 20_000, 786_000),
            ("a".to_string(), 20_000, 768_000),
            ("i".to_string(), 25_328, 768_000),
        ]
    );
}

#[test]
fn lines_may_run_below_the_origin() {
    let lines = vec![vec![span("one", FontStyle::Regular)], vec![span("two", FontStyle::Regular)]];
    let mut page = Page::new();
    assert!(page.render_lines(&lines, 0, 10_000, 18_000));
    assert_eq!(
        places(&page.into_vec()),
        vec![("one".to_string(), 0, 10_000), ("two".to_string(), 0, -8_000)]
    );
}

#[test]
fn a_negative_leading_stacks_lines_upwards() {
    let lines = vec![vec![span("one", FontStyle::Regular)], vec![span("two", FontStyle::Regular)]];
    let mut page = Page::new();
    assert!(page.render_lines(&lines, 0, 0, -18_000));
    assert_eq!(
        places(&page.into_vec()),
        vec![("one".to_string(), 0, 0), ("two".to_string(), 0, 18_000)]
    );
}

#[test]
fn lines_are_added_to_what_the_page_holds() {
    let mut page = Page::new();
    page.render_spans(&[span("a", FontStyle::Regular)], 1, 2);
    assert!(page.render_lines(&[vec![span("i", FontStyle::Regular)]], 3, 4, 5));
    assert!(page.render_lines(&[], 3, 4, 5));
    assert_eq!(places(&page.into_vec()), vec![("a".to_string(), 1, 2), ("i".to_string(), 3, 4)]);
}

#[test]
fn lines_that_do_not_fit_leave_the_page_as_it_was() {
    let lines = vec![vec![span("one", FontStyle::Regular)], vec![span("two", FontStyle::Regular)]];
    let mut page = Page::new();
    page.render_spans(&[span("a", FontStyle::Regular)], 1, 2);
    // The baseline of the second line cannot be held.
    assert!(!page.render_lines(&lines, 0, i64::MIN + 17_999, 18_000));
    assert!(!page.render_lines(&lines, 0, i64::MAX, -1));
    // The second line ends past the last coordinate.
    assert!(!page.render_lines(&lines, i64::MAX - 17_999, 0, 18_000));
    assert_eq!(places(&page.clone().into_vec()), vec![("a".to_string(), 1, 2)]);
    // Both lines fit exactly.
    assert!(page.render_lines(&lines, i64::MAX - 18_000, i64::MIN + 18_000, 18_000));
    assert_eq!(
        places(&page.into_vec()),
        vec![
            ("a".to_string(), 1, 2),
            ("one".to_string(), i64::MAX - 18_000, i64::MIN + 18_000),
            ("two".to_string(), i64::MAX - 18_000, i64::MIN),
        ]
    );
}
