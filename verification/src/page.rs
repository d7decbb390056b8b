//! The page: an accumulator of positioned spans.
use crate::span::{
    lemma_width_sum_prefix, lemma_width_sum_step, width_sum, PositionedSpan, PositionedSpanView,
    Span, SpanView,
};
use vstd::prelude::*;

verus! {

/// The spans of one line placed from `(start_x, start_y)`: each span starts
/// where the one before it ends, and all share the baseline `start_y`.
pub open spec fn positioned(spans: Seq<SpanView>, start_x: int, start_y: int) -> Seq<
    PositionedSpanView,
> {
    Seq::new(
        spans.len(),
        |i: int|
            PositionedSpanView {
                span: spans[i],
                x: start_x + width_sum(spans.take(i)),
                y: start_y,
            },
    )
}

/// Placing keeps the spans and their order, puts the first span at the start,
/// each later span where its predecessor ends, and all of them on one
/// baseline.
pub proof fn lemma_positions_chain(spans: Seq<SpanView>, start_x: int, start_y: int)
    ensures
        positioned(spans, start_x, start_y).len() == spans.len(),
        spans.len() > 0 ==> positioned(spans, start_x, start_y)[0].x == start_x,
        forall|i: int|
            0 <= i < spans.len() ==> (#[trigger] positioned(spans, start_x, start_y)[i]).span
                == spans[i] && positioned(spans, start_x, start_y)[i].y == start_y,
        forall|i: int|
            0 <= i && i + 1 < spans.len() ==> (#[trigger] positioned(
                spans,
                start_x,
                start_y,
            )[i + 1]).x == positioned(spans, start_x, start_y)[i].x + spans[i].width(),
{
    assert forall|i: int| 0 <= i && i + 1 < spans.len() implies (#[trigger] positioned(
        spans,
        start_x,
        start_y,
    )[i + 1]).x == positioned(spans, start_x, start_y)[i].x + spans[i].width() by {
        lemma_width_sum_step(spans, i);
    }
    if spans.len() > 0 {
        assert(spans.take(0) =~= Seq::<SpanView>::empty());
    }
}

/// The baseline of the line at `index`, where the first line stands on
/// `start_y` and each line lies `leading` below the one before it.
pub open spec fn baseline(start_y: int, leading: int, index: int) -> int {
    start_y - index * leading
}

/// The spans of `lines` placed line below line: every line starts at
/// `start_x`, on its own baseline.
pub open spec fn positioned_lines(
    lines: Seq<Seq<SpanView>>,
    start_x: int,
    start_y: int,
    leading: int,
) -> Seq<PositionedSpanView>
    decreases lines.len(),
{
    if lines.len() == 0 {
        Seq::empty()
    } else {
        positioned_lines(lines.drop_last(), start_x, start_y, leading) + positioned(
            lines.last(),
            start_x,
            baseline(start_y, leading, lines.len() - 1),
        )
    }
}

/// Whether the coordinates of `spans`, placed from `start_x`, stay within
/// what a coordinate can hold.
pub open spec fn line_fits(spans: Seq<SpanView>, start_x: int) -> bool {
    start_x + width_sum(spans) <= i64::MAX
}

/// Whether the coordinates of all spans of `lines`, placed line below line,
/// stay within what a coordinate can hold.
pub open spec fn lines_fit(
    lines: Seq<Seq<SpanView>>,
    start_x: int,
    start_y: int,
    leading: int,
) -> bool {
    forall|i: int|
        0 <= i < lines.len() ==> line_fits(#[trigger] lines[i], start_x) && i64::MIN <= baseline(
            start_y,
            leading,
            i,
        ) <= i64::MAX
}

/// The positioned spans of one sheet, in the order in which they were placed.
///
/// Coordinates are in thousandths of a point and grow to the right and
/// upwards.
#[derive(Debug)]
pub struct Page {
    positioned_spans: Vec<PositionedSpan>,
}

impl View for Page {
    type V = Seq<PositionedSpanView>;

    closed spec fn view(&self) -> Seq<PositionedSpanView> {
        self.positioned_spans.deep_view()
    }
}

impl Clone for Page {
    fn clone(&self) -> (copy: Self)
        ensures
            copy@ == self@,
    {
        let mut positioned_spans: Vec<PositionedSpan> = Vec::new();
        let mut i: usize = 0;
        while i < self.positioned_spans.len()
            invariant
                0 <= i <= self.positioned_spans.len(),
                positioned_spans.deep_view() == self.positioned_spans.deep_view().take(i as int),
            decreases self.positioned_spans.len() - i,
        {
            let ghost held = positioned_spans.deep_view();
            positioned_spans.push(self.positioned_spans[i].clone());
            assert(positioned_spans.deep_view() =~= held.push(self.positioned_spans[i as int]@));
            assert(self.positioned_spans.deep_view().take(i + 1) =~= held.push(
                self.positioned_spans[i as int]@,
            ));
            i += 1;
        }
        assert(self.positioned_spans.deep_view().take(i as int) =~= self.positioned_spans.deep_view());
        Page { positioned_spans }
    }
}

impl Page {
    /// An empty page.
    pub fn new() -> (page: Self)
        ensures
            page@ == Seq::<PositionedSpanView>::empty(),
    {
        Self { positioned_spans: vec![] }
    }

    /// Whether `spans` can be placed from `start_x`: whether the coordinate at
    /// which the last of them ends can still be held.
    pub fn fits(spans: &[Span], start_x: i64) -> (fits: bool)
        ensures
            fits == line_fits(spans.deep_view(), start_x as int),
    {
        let ghost line = spans.deep_view();
        let mut end: i128 = start_x as i128;
        let mut i: usize = 0;
        while i < spans.len()
            invariant
                0 <= i <= spans.len(),
                line == spans.deep_view(),
                end == start_x + width_sum(line.take(i as int)),
                end <= i64::MAX,
            decreases spans.len() - i,
        {
            proof {
                lemma_width_sum_step(line, i as int);
                lemma_width_sum_prefix(line, i + 1);
            }
            end = end + spans[i].width() as i128;
            if end > i64::MAX as i128 {
                return false;
            }
            i += 1;
        }
        assert(line.take(i as int) =~= line);
        true
    }

    /// Places `spans` left to right from `(start_x, start_y)` and appends them
    /// to what the page holds.
    pub fn render_spans(&mut self, spans: &[Span], start_x: i64, start_y: i64)
        requires
            line_fits(spans.deep_view(), start_x as int),
        ensures
            final(self)@ == old(self)@ + positioned(
                spans.deep_view(),
                start_x as int,
                start_y as int,
            ),
    {
        let ghost before = self@;
        let ghost line = spans.deep_view();
        let mut x = start_x;
        let y = start_y;
        let mut i: usize = 0;
        while i < spans.len()
            invariant
                0 <= i <= spans.len(),
                line == spans.deep_view(),
                x == start_x + width_sum(line.take(i as int)),
                line_fits(line, start_x as int),
                self@ == before + positioned(line, start_x as int, start_y as int).take(i as int),
                y == start_y,
            decreases spans.len() - i,
        {
            let span = &spans[i];
            proof {
                lemma_width_sum_step(line, i as int);
                lemma_width_sum_prefix(line, i + 1);
            }
            let ghost held = self@;
            self.positioned_spans.push(PositionedSpan::new(span.clone(), x, y));
            assert(self@ =~= held.push(positioned(line, start_x as int, start_y as int)[i as int]));
            assert(positioned(line, start_x as int, start_y as int).take(i + 1) =~= positioned(
                line,
                start_x as int,
                start_y as int,
            ).take(i as int).push(positioned(line, start_x as int, start_y as int)[i as int]));
            x += span.width();
            i += 1;
        }
        assert(positioned(line, start_x as int, start_y as int).take(i as int) =~= positioned(
            line,
            start_x as int,
            start_y as int,
        ));
    }

    /// Places `lines` line below line and appends their spans to what the
    /// page holds: every line starts at `start_x`, the first on the baseline
    /// `start_y`, each later one `leading` below the line before it.
    ///
    /// Where a coordinate would not fit, nothing is placed and the answer is
    /// `false`.
    pub fn render_lines(
        &mut self,
        lines: &[Vec<Span>],
        start_x: i64,
        start_y: i64,
        leading: i64,
    ) -> (done: bool)
        ensures
            done == lines_fit(lines.deep_view(), start_x as int, start_y as int, leading as int),
            done ==> final(self)@ == old(self)@ + positioned_lines(
                lines.deep_view(),
                start_x as int,
                start_y as int,
                leading as int,
            ),
            !done ==> final(self)@ == old(self)@,
    {
        let ghost all = lines.deep_view();
        let mut i: usize = 0;
        let mut y: i128 = start_y as i128;
        while i < lines.len()
            invariant
                0 <= i <= lines.len(),
                all == lines.deep_view(),
                y == baseline(start_y as int, leading as int, i as int),
                lines_fit(all.take(i as int), start_x as int, start_y as int, leading as int),
            decreases lines.len() - i,
        {
            assert(all[i as int] == lines[i as int].deep_view());
            if y < i64::MIN as i128 || y > i64::MAX as i128 || !Self::fits(
                lines[i].as_slice(),
                start_x,
            ) {
                return false;
            }
            assert(lines_fit(
                all.take(i + 1),
                start_x as int,
                start_y as int,
                leading as int,
            )) by {
                assert forall|k: int| 0 <= k < i + 1 implies line_fits(
                    #[trigger] all.take(i + 1)[k],
                    start_x as int,
                ) && i64::MIN <= baseline(start_y as int, leading as int, k) <= i64::MAX by {
                    if k < i {
                        assert(all.take(i + 1)[k] == all.take(i as int)[k]);
                    }
                }
            }
            assert((i + 1) * leading == i * leading + leading) by (nonlinear_arith);
            y = y - leading as i128;
            i += 1;
        }
        assert(all.take(i as int) =~= all);
        let ghost before = self@;
        let mut i: usize = 0;
        while i < lines.len()
            invariant
                0 <= i <= lines.len(),
                all == lines.deep_view(),
                lines_fit(all, start_x as int, start_y as int, leading as int),
                self@ == before + positioned_lines(
                    all.take(i as int),
                    start_x as int,
                    start_y as int,
                    leading as int,
                ),
            decreases lines.len() - i,
        {
            assert(all[i as int] == lines[i as int].deep_view());
            assert(all.take(i + 1).drop_last() =~= all.take(i as int));
            let y: i64 = (start_y as i128 - (i as i128) * (leading as i128)) as i64;
            self.render_spans(lines[i].as_slice(), start_x, y);
            i += 1;
        }
        assert(all.take(i as int) =~= all);
        true
    }

    /// Discards what the page holds.
    pub fn clear(&mut self)
        ensures
            final(self)@ == Seq::<PositionedSpanView>::empty(),
    {
        self.positioned_spans.clear();
    }

    /// Hands out the positioned spans, in the order in which they were placed.
    pub fn into_vec(self) -> (spans: Vec<PositionedSpan>)
        ensures
            spans.deep_view() == self@,
    {
        self.positioned_spans
    }
}

} // verus!
