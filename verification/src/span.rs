//! Styled text fragments, with and without a place on the page.
use crate::error::LayoutError;
use crate::font::{measurable, measured_width, text_width, FontStyle, MAX_TEXT_CHARS};
use vstd::prelude::*;
use vstd::string::StrSliceExecFns;

verus! {

/// What a [`Span`] holds: its text, its style and its size in points.
pub struct SpanView {
    pub text: Seq<char>,
    pub font: FontStyle,
    pub size: nat,
}

impl SpanView {
    /// The width of the span, in thousandths of a point.
    pub open spec fn width(self) -> nat {
        text_width(self.font, self.size, self.text)
    }
}

/// The text of the marker that opens a list item.
pub open spec fn item_marker_text() -> Seq<char> {
    seq![' ', '-', ' ']
}

/// The text that a soft break is set as.
pub open spec fn space_text() -> Seq<char> {
    seq![' ']
}

/// The sum of the widths of `spans`.
pub open spec fn width_sum(spans: Seq<SpanView>) -> nat
    decreases spans.len(),
{
    if spans.len() == 0 {
        0
    } else {
        width_sum(spans.drop_last()) + spans.last().width()
    }
}

/// A prefix of a sequence of spans is no wider than the whole.
pub proof fn lemma_width_sum_prefix(spans: Seq<SpanView>, n: int)
    requires
        0 <= n <= spans.len(),
    ensures
        width_sum(spans.take(n)) <= width_sum(spans),
    decreases spans.len(),
{
    if n == spans.len() {
        assert(spans.take(n) =~= spans);
    } else {
        lemma_width_sum_prefix(spans.drop_last(), n);
        assert(spans.drop_last().take(n) =~= spans.take(n));
    }
}

/// The widths of the first `n + 1` spans are those of the first `n` and of
/// the span at `n`.
pub proof fn lemma_width_sum_step(spans: Seq<SpanView>, n: int)
    requires
        0 <= n < spans.len(),
    ensures
        width_sum(spans.take(n + 1)) == width_sum(spans.take(n)) + spans[n].width(),
{
    assert(spans.take(n + 1).drop_last() =~= spans.take(n));
}

/// An immutable fragment of styled text.
///
/// The text of a span can always be measured: a span is made only of a text
/// of at most [`MAX_TEXT_CHARS`] characters.
#[derive(Debug)]
pub struct Span {
    text: String,
    font: FontStyle,
    size: u16,
}

impl View for Span {
    type V = SpanView;

    closed spec fn view(&self) -> SpanView {
        SpanView { text: self.text@, font: self.font, size: self.size as nat }
    }
}

impl DeepView for Span {
    type V = SpanView;

    open spec fn deep_view(&self) -> SpanView {
        self@
    }
}

impl Clone for Span {
    fn clone(&self) -> (copy: Self)
        ensures
            copy@ == self@,
    {
        proof {
            use_type_invariant(self);
        }
        Span { text: self.text.clone(), font: self.font, size: self.size }
    }
}

impl Span {
    #[verifier::type_invariant]
    spec fn text_is_measurable(self) -> bool {
        measurable(self.text@)
    }

    /// Makes a span of `text` in the given style and size.
    ///
    /// Fails where the text is too long to be measured.
    pub fn new(text: String, font: FontStyle, size: u16) -> (result: Result<Span, LayoutError>)
        ensures
            measurable(text@) ==> result is Ok && result->Ok_0@ == (SpanView {
                text: text@,
                font,
                size: size as nat,
            }),
            !measurable(text@) ==> result == Err::<Span, LayoutError>(
                LayoutError::MeasurementFailure,
            ),
    {
        if text.as_str().unicode_len() <= MAX_TEXT_CHARS {
            Ok(Span { text, font, size })
        } else {
            Err(LayoutError::MeasurementFailure)
        }
    }

    /// The marker that opens a list item.
    pub fn item_marker(font: FontStyle, size: u16) -> (span: Span)
        ensures
            span@ == (SpanView { text: item_marker_text(), font, size: size as nat }),
    {
        let text = " - ".to_owned();
        proof {
            reveal_strlit(" - ");
            assert(text@ =~= item_marker_text());
        }
        Span { text, font, size }
    }

    /// The space that a soft break is set as.
    pub fn space(font: FontStyle, size: u16) -> (span: Span)
        ensures
            span@ == (SpanView { text: space_text(), font, size: size as nat }),
    {
        let text = " ".to_owned();
        proof {
            reveal_strlit(" ");
            assert(text@ =~= space_text());
        }
        Span { text, font, size }
    }

    /// The text of the span.
    pub fn text(&self) -> (text: &str)
        ensures
            text@ == self@.text,
    {
        self.text.as_str()
    }

    /// The style of the span.
    pub fn font(&self) -> (font: FontStyle)
        ensures
            font == self@.font,
    {
        self.font
    }

    /// The size of the span's text, in points.
    pub fn size(&self) -> (size: u16)
        ensures
            size == self@.size,
    {
        self.size
    }

    /// The width of the span, in thousandths of a point.
    pub fn width(&self) -> (width: i64)
        ensures
            width == self@.width(),
    {
        proof {
            use_type_invariant(self);
        }
        measured_width(self.font, self.size, self.text.as_str())
    }
}

/// What a [`PositionedSpan`] holds: a span and where it starts on the page.
pub struct PositionedSpanView {
    pub span: SpanView,
    pub x: int,
    pub y: int,
}

/// A span bound to absolute page coordinates, in thousandths of a point.
#[derive(Debug)]
pub struct PositionedSpan {
    span: Span,
    x: i64,
    y: i64,
}

impl View for PositionedSpan {
    type V = PositionedSpanView;

    closed spec fn view(&self) -> PositionedSpanView {
        PositionedSpanView { span: self.span@, x: self.x as int, y: self.y as int }
    }
}

impl DeepView for PositionedSpan {
    type V = PositionedSpanView;

    open spec fn deep_view(&self) -> PositionedSpanView {
        self@
    }
}

impl Clone for PositionedSpan {
    fn clone(&self) -> (copy: Self)
        ensures
            copy@ == self@,
    {
        PositionedSpan { span: self.span.clone(), x: self.x, y: self.y }
    }
}

impl PositionedSpan {
    /// Places `span` at `(x, y)`.
    pub fn new(span: Span, x: i64, y: i64) -> (placed: PositionedSpan)
        ensures
            placed@ == (PositionedSpanView { span: span@, x: x as int, y: y as int }),
    {
        PositionedSpan { span, x, y }
    }

    /// The span that was placed.
    pub fn span(&self) -> (span: &Span)
        ensures
            span@ == self@.span,
    {
        &self.span
    }

    /// The horizontal coordinate at which the span starts.
    pub fn x(&self) -> (x: i64)
        ensures
            x == self@.x,
    {
        self.x
    }

    /// The vertical coordinate of the span's baseline.
    pub fn y(&self) -> (y: i64)
        ensures
            y == self@.y,
    {
        self.y
    }
}

} // verus!
