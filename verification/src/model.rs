//! The layout engine as a state machine over sequences, and what holds of it.
use crate::config::LayoutConfig;
use crate::error::LayoutError;
use crate::event::EventView;
use crate::font::{measurable, text_width, FontStyle};
use crate::span::{item_marker_text, space_text, width_sum, SpanView};
use vstd::prelude::*;

verus! {

/// The state of a layout run.
#[verifier::ext_equal]
pub struct LayoutModel {
    /// The width that a line may take.
    pub max_width: int,
    /// The size, in points, in which every span is set.
    pub size: nat,
    /// The style in which the next span is set.
    pub font: FontStyle,
    /// The width of the texts placed on the current line.
    pub x: int,
    /// The spans of the line that is being filled.
    pub line: Seq<SpanView>,
    /// The lines that are complete.
    pub lines: Seq<Seq<SpanView>>,
}

/// The state in which a run starts: regular style, nothing placed.
pub open spec fn initial(config: LayoutConfig) -> LayoutModel {
    LayoutModel {
        max_width: config.max_width(),
        size: config.font_size as nat,
        font: FontStyle::Regular,
        x: 0,
        line: Seq::empty(),
        lines: Seq::empty(),
    }
}

/// Completes the current line, empty or not, and starts a new one.
pub open spec fn flush(state: LayoutModel) -> LayoutModel {
    LayoutModel { x: 0, line: Seq::empty(), lines: state.lines.push(state.line), ..state }
}

/// The style in force after `event`, where `font` was in force before it.
pub open spec fn style_after(font: FontStyle, event: EventView) -> FontStyle {
    match event {
        EventView::StartStrong => FontStyle::Bold,
        EventView::StartEmphasis => FontStyle::Italic,
        EventView::EndStrong | EventView::EndEmphasis => FontStyle::Regular,
        _ => font,
    }
}

/// The span that `event` puts on a line in the style `font`, if it puts one.
pub open spec fn span_of(size: nat, font: FontStyle, event: EventView) -> Option<SpanView> {
    match event {
        EventView::Text(text) => Some(SpanView { text, font, size }),
        EventView::StartItem => Some(SpanView { text: item_marker_text(), font, size }),
        EventView::SoftBreak => Some(SpanView { text: space_text(), font, size }),
        _ => None,
    }
}

/// The state after one event.
///
/// A text that would take the current line past the usable width completes
/// that line and starts the next one; any other text joins the current line.
/// The end of an item or a paragraph completes the current line. An item's
/// marker and a soft break's space join the current line without being
/// counted against the width.
pub open spec fn step(state: LayoutModel, event: EventView) -> LayoutModel {
    let size = state.size;
    match event {
        EventView::Text(text) => {
            let span = SpanView { text, font: state.font, size };
            let width = text_width(state.font, size, text);
            if state.x + width > state.max_width {
                LayoutModel { x: width as int, line: seq![span], ..flush(state) }
            } else {
                LayoutModel { x: state.x + width, line: state.line.push(span), ..state }
            }
        },
        EventView::StartItem | EventView::SoftBreak => LayoutModel {
            line: state.line.push(span_of(size, state.font, event)->Some_0),
            ..state
        },
        EventView::EndItem | EventView::EndParagraph => flush(state),
        _ => LayoutModel { font: style_after(state.font, event), ..state },
    }
}

/// The state after a sequence of events.
pub open spec fn run(state: LayoutModel, events: Seq<EventView>) -> LayoutModel
    decreases events.len(),
{
    if events.len() == 0 {
        state
    } else {
        step(run(state, events.drop_last()), events.last())
    }
}

/// The lines of a run that has seen its last event: the completed lines, and
/// after them the current line where it holds anything.
pub open spec fn finished(state: LayoutModel) -> Seq<Seq<SpanView>> {
    if state.line.len() == 0 {
        state.lines
    } else {
        state.lines.push(state.line)
    }
}

/// The lines into which `events` are laid out.
pub open spec fn layout_lines(config: LayoutConfig, events: Seq<EventView>) -> Seq<Seq<SpanView>> {
    finished(run(initial(config), events))
}

/// An event can be handled unless it is a text too long to be measured.
pub open spec fn event_measurable(event: EventView) -> bool {
    event matches EventView::Text(text) ==> measurable(text)
}

/// Every event of the sequence can be handled.
pub open spec fn all_measurable(events: Seq<EventView>) -> bool {
    forall|i: int| 0 <= i < events.len() ==> event_measurable(#[trigger] events[i])
}

/// What a layout run gives: the configuration is checked before any event,
/// one text that cannot be measured fails the whole run, and otherwise the
/// run gives its lines.
pub open spec fn layout_outcome(config: LayoutConfig, events: Seq<EventView>) -> Result<
    Seq<Seq<SpanView>>,
    LayoutError,
> {
    if !config.valid() {
        Err(LayoutError::InvalidConfiguration)
    } else if !all_measurable(events) {
        Err(LayoutError::MeasurementFailure)
    } else {
        Ok(layout_lines(config, events))
    }
}

/// An event that puts a span on the line without counting its width: the
/// marker of an item, or a soft break.
pub open spec fn is_filler(event: EventView) -> bool {
    event is StartItem || event is SoftBreak
}

/// No event of the sequence is a filler.
pub open spec fn filler_free(events: Seq<EventView>) -> bool {
    forall|i: int| 0 <= i < events.len() ==> !is_filler(#[trigger] events[i])
}

/// A line keeps to the usable width, or it is one span that is wider than the
/// usable width by itself.
pub open spec fn within_budget(line: Seq<SpanView>, max_width: int) -> bool {
    width_sum(line) <= max_width || (line.len() == 1 && line[0].width() > max_width)
}

/// What a run without fillers keeps: the running width is the width of the
/// current line, and the current line and every completed line are within
/// the budget.
spec fn keeps_budget(state: LayoutModel) -> bool {
    &&& state.x == width_sum(state.line)
    &&& within_budget(state.line, state.max_width)
    &&& forall|i: int|
        0 <= i < state.lines.len() ==> within_budget(#[trigger] state.lines[i], state.max_width)
}

proof fn lemma_width_sum_push(line: Seq<SpanView>, span: SpanView)
    ensures
        width_sum(line.push(span)) == width_sum(line) + span.width(),
{
    assert(line.push(span).drop_last() =~= line);
}

proof fn lemma_step_keeps_budget(state: LayoutModel, event: EventView)
    requires
        keeps_budget(state),
        0 <= state.max_width,
        !is_filler(event),
    ensures
        keeps_budget(step(state, event)),
        step(state, event).max_width == state.max_width,
{
    let next = step(state, event);
    match event {
        EventView::Text(text) => {
            let span = SpanView { text, font: state.font, size: state.size };
            lemma_width_sum_push(state.line, span);
            lemma_width_sum_push(Seq::empty(), span);
            assert(Seq::<SpanView>::empty().push(span) =~= seq![span]);
        },
        _ => {},
    }
    assert forall|i: int| 0 <= i < next.lines.len() implies within_budget(
        #[trigger] next.lines[i],
        next.max_width,
    ) by {
        if i < state.lines.len() {
            assert(next.lines[i] == state.lines[i]);
        }
    }
}

proof fn lemma_run_keeps_budget(state: LayoutModel, events: Seq<EventView>)
    requires
        keeps_budget(state),
        0 <= state.max_width,
        filler_free(events),
    ensures
        keeps_budget(run(state, events)),
        run(state, events).max_width == state.max_width,
    decreases events.len(),
{
    if events.len() > 0 {
        assert forall|i: int| 0 <= i < events.drop_last().len() implies !is_filler(
            #[trigger] events.drop_last()[i],
        ) by {
            assert(events.drop_last()[i] == events[i]);
        }
        lemma_run_keeps_budget(state, events.drop_last());
        lemma_step_keeps_budget(run(state, events.drop_last()), events.last());
    }
}

/// Width bound. Where no event is an item's marker or a soft break, every
/// line of the layout keeps to the usable width, except a line that holds
/// nothing but one text wider than the usable width. So a text that is too
/// wide stands alone on its line, and a text that fits never stands on a line
/// that is too wide.
pub proof fn lemma_lines_within_budget(config: LayoutConfig, events: Seq<EventView>)
    requires
        config.valid(),
        filler_free(events),
    ensures
        forall|i: int|
            0 <= i < layout_lines(config, events).len() ==> within_budget(
                #[trigger] layout_lines(config, events)[i],
                config.max_width(),
            ),
        forall|i: int, j: int|
            0 <= i < layout_lines(config, events).len() && 0 <= j < layout_lines(
                config,
                events,
            )[i].len() && (#[trigger] layout_lines(config, events)[i][j]).width()
                > config.max_width() ==> layout_lines(config, events)[i].len() == 1,
{
    let lines = layout_lines(config, events);
    lemma_run_keeps_budget(initial(config), events);
    assert forall|i: int, j: int|
        0 <= i < lines.len() && 0 <= j < lines[i].len() && (#[trigger] lines[i][j]).width()
            > config.max_width() implies lines[i].len() == 1 by {
        assert(within_budget(lines[i], config.max_width()));
        lemma_width_sum_covers(lines[i], j);
    }
}

proof fn lemma_width_sum_covers(line: Seq<SpanView>, j: int)
    requires
        0 <= j < line.len(),
    ensures
        line[j].width() <= width_sum(line),
    decreases line.len(),
{
    if j < line.len() - 1 {
        lemma_width_sum_covers(line.drop_last(), j);
    }
}

/// A change of style.
pub open spec fn is_style_event(event: EventView) -> bool {
    event is StartStrong || event is EndStrong || event is StartEmphasis || event is EndEmphasis
}

/// The style in force after `events`, where `font` was in force before them.
pub open spec fn font_after(font: FontStyle, events: Seq<EventView>) -> FontStyle
    decreases events.len(),
{
    if events.len() == 0 {
        font
    } else {
        style_after(font_after(font, events.drop_last()), events.last())
    }
}

/// The spans that `events` put on lines, in the order of the events: for each
/// text, marker of an item and soft break one span, in the style in force at
/// that event.
pub open spec fn emitted(size: nat, font: FontStyle, events: Seq<EventView>) -> Seq<SpanView>
    decreases events.len(),
{
    if events.len() == 0 {
        Seq::empty()
    } else {
        let before = events.drop_last();
        match span_of(size, font_after(font, before), events.last()) {
            Some(span) => emitted(size, font, before).push(span),
            None => emitted(size, font, before),
        }
    }
}

/// The spans that a state holds, line after line.
pub open spec fn placed(state: LayoutModel) -> Seq<SpanView> {
    state.lines.flatten() + state.line
}

proof fn lemma_step_appends(state: LayoutModel, event: EventView)
    ensures
        step(state, event).font == style_after(state.font, event),
        step(state, event).size == state.size,
        placed(step(state, event)) == match span_of(state.size, state.font, event) {
            Some(span) => placed(state).push(span),
            None => placed(state),
        },
{
    broadcast use Seq::lemma_flatten_push;

    let next = step(state, event);
    match span_of(state.size, state.font, event) {
        Some(span) => {
            assert(placed(next) =~= placed(state).push(span));
        },
        None => {
            assert(placed(next) =~= placed(state));
        },
    }
}

/// A run adds to what the state holds the spans of its events, in their
/// order, and ends in the style that the events leave in force.
pub proof fn lemma_run_appends(state: LayoutModel, events: Seq<EventView>)
    ensures
        run(state, events).font == font_after(state.font, events),
        run(state, events).size == state.size,
        placed(run(state, events)) == placed(state) + emitted(state.size, state.font, events),
    decreases events.len(),
{
    if events.len() == 0 {
        assert(placed(state) + Seq::<SpanView>::empty() =~= placed(state));
    } else {
        let before = events.drop_last();
        lemma_run_appends(state, before);
        lemma_step_appends(run(state, before), events.last());
        match span_of(state.size, font_after(state.font, before), events.last()) {
            Some(span) => {
                assert(placed(run(state, events)) =~= placed(state) + emitted(
                    state.size,
                    state.font,
                    events,
                ));
            },
            None => {},
        }
    }
}

/// Order preservation. The spans of all lines of the layout, read line after
/// line, are the spans of the events in the order of the events: nothing is
/// lost, doubled or moved.
pub proof fn lemma_order_preserved(config: LayoutConfig, events: Seq<EventView>)
    ensures
        layout_lines(config, events).flatten() == emitted(
            config.font_size as nat,
            FontStyle::Regular,
            events,
        ),
{
    broadcast use Seq::lemma_flatten_push;

    let end = run(initial(config), events);
    lemma_run_appends(initial(config), events);
    assert(placed(initial(config)) =~= Seq::<SpanView>::empty());
    assert(placed(end) =~= emitted(config.font_size as nat, FontStyle::Regular, events));
    if end.line.len() == 0 {
        assert(placed(end) =~= end.lines.flatten());
    }
}

proof fn lemma_font_after_last_style(font: FontStyle, events: Seq<EventView>, last: int)
    requires
        0 <= last < events.len(),
        is_style_event(events[last]),
        forall|k: int| last < k < events.len() ==> !is_style_event(#[trigger] events[k]),
    ensures
        font_after(font, events) == style_after(font, events[last]),
    decreases events.len(),
{
    if last < events.len() - 1 {
        assert(!is_style_event(events[events.len() - 1]));
        assert forall|k: int| last < k < events.drop_last().len() implies !is_style_event(
            #[trigger] events.drop_last()[k],
        ) by {
            assert(events.drop_last()[k] == events[k]);
        }
        lemma_font_after_last_style(font, events.drop_last(), last);
    }
}

/// Style scoping. A text is set in the style that the last change of style
/// before it asks for: bold after the start of strong text, italic after the
/// start of emphasis, and regular again after the end of either.
pub proof fn lemma_style_scoping(
    state: LayoutModel,
    events: Seq<EventView>,
    last: int,
    text: Seq<char>,
)
    requires
        0 <= last < events.len(),
        is_style_event(events[last]),
        forall|k: int| last < k < events.len() ==> !is_style_event(#[trigger] events[k]),
    ensures
        events[last] is StartStrong ==> run(state, events).font == FontStyle::Bold,
        events[last] is StartEmphasis ==> run(state, events).font == FontStyle::Italic,
        events[last] is EndStrong || events[last] is EndEmphasis ==> run(state, events).font
            == FontStyle::Regular,
        step(run(state, events), EventView::Text(text)).line.last() == (SpanView {
            text,
            font: run(state, events).font,
            size: state.size,
        }),
{
    lemma_run_appends(state, events);
    lemma_font_after_last_style(state.font, events, last);
}

/// Flushing an empty line. The end of a paragraph completes the current line
/// even where that line is empty: the layout then gains an empty line. So two
/// ends of a paragraph in a row complete the current line and an empty line
/// after it.
pub proof fn lemma_flush_empty_line(state: LayoutModel)
    ensures
        state.line.len() == 0 ==> step(state, EventView::EndParagraph) == (LayoutModel {
            x: 0,
            lines: state.lines.push(Seq::empty()),
            ..state
        }),
        run(state, seq![EventView::EndParagraph, EventView::EndParagraph]) == (LayoutModel {
            x: 0,
            line: Seq::empty(),
            lines: state.lines.push(state.line).push(Seq::empty()),
            ..state
        }),
{
    let twice = seq![EventView::EndParagraph, EventView::EndParagraph];
    if state.line.len() == 0 {
        assert(state.line =~= Seq::empty());
    }
    assert(twice.drop_last() =~= seq![EventView::EndParagraph]);
    assert(twice.drop_last().drop_last() =~= Seq::<EventView>::empty());
    assert(run(state, twice.drop_last().drop_last()) == state);
    assert(run(state, twice.drop_last()) == flush(state));
}

} // verus!
