//! The layout engine: events in, lines of spans out.
use crate::config::LayoutConfig;
use crate::error::LayoutError;
use crate::event::Event;
use crate::font::FontStyle;
use crate::model::{
    self, all_measurable, event_measurable, finished, initial, layout_outcome, run, step,
    LayoutModel,
};
use crate::span::{Span, SpanView};
use vstd::prelude::*;

verus! {

/// The state of a layout run: the style in force, the line that is being
/// filled and the lines that are complete.
pub struct LayoutState {
    max_width: i64,
    font_size: u16,
    current_font: FontStyle,
    current_x: i64,
    current_line: Vec<Span>,
    completed_lines: Vec<Vec<Span>>,
}

impl View for LayoutState {
    type V = LayoutModel;

    closed spec fn view(&self) -> LayoutModel {
        LayoutModel {
            max_width: self.max_width as int,
            size: self.font_size as nat,
            font: self.current_font,
            x: self.current_x as int,
            line: self.current_line.deep_view(),
            lines: self.completed_lines.deep_view(),
        }
    }
}

impl LayoutState {
    /// Starts a run, or rejects a configuration that is not valid.
    pub fn new(config: LayoutConfig) -> (result: Result<LayoutState, LayoutError>)
        ensures
            config.valid() ==> result is Ok && result->Ok_0@ == initial(config),
            !config.valid() ==> result is Err && result->Err_0
                == LayoutError::InvalidConfiguration,
    {
        match config.usable_width() {
            Ok(max_width) => {
                let state = LayoutState {
                    max_width,
                    font_size: config.font_size,
                    current_font: FontStyle::Regular,
                    current_x: 0,
                    current_line: Vec::new(),
                    completed_lines: Vec::new(),
                };
                assert(state@ =~~= initial(config));
                Ok(state)
            },
            Err(error) => Err(error),
        }
    }

    /// Completes the current line, empty or not, and starts a new one.
    fn flush(&mut self)
        ensures
            final(self)@ == model::flush(old(self)@),
    {
        let mut line: Vec<Span> = Vec::new();
        core::mem::swap(&mut self.current_line, &mut line);
        self.completed_lines.push(line);
        self.current_x = 0;
        assert(self@ =~~= model::flush(old(self)@));
    }

    /// Takes one event.
    ///
    /// A text too long to be measured is refused and leaves the state as it
    /// was; every other event moves the state one step.
    pub fn handle(&mut self, event: &Event) -> (result: Result<(), LayoutError>)
        ensures
            event_measurable(event@) ==> result is Ok && final(self)@ == step(old(self)@, event@),
            !event_measurable(event@) ==> result == Err::<(), LayoutError>(
                LayoutError::MeasurementFailure,
            ) && final(self)@ == old(self)@,
    {
        let size = self.font_size;
        match event {
            Event::StartStrong => {
                self.current_font = FontStyle::Bold;
            },
            Event::StartEmphasis => {
                self.current_font = FontStyle::Italic;
            },
            Event::EndStrong | Event::EndEmphasis => {
                self.current_font = FontStyle::Regular;
            },
            Event::StartItem => {
                self.current_line.push(Span::item_marker(self.current_font, size));
            },
            Event::SoftBreak => {
                self.current_line.push(Span::space(self.current_font, size));
            },
            Event::EndItem | Event::EndParagraph => {
                self.flush();
            },
            Event::Text(text) => {
                match Span::new(text.clone(), self.current_font, size) {
                    Ok(span) => {
                        let width = span.width();
                        if self.current_x as i128 + width as i128 > self.max_width as i128 {
                            self.flush();
                            self.current_x = width;
                        } else {
                            self.current_x = self.current_x + width;
                        }
                        self.current_line.push(span);
                    },
                    Err(error) => {
                        return Err(error);
                    },
                }
            },
            Event::Other => {},
        }
        assert(self@ =~~= step(old(self)@, event@));
        Ok(())
    }

    /// Ends the run and hands out its lines.
    pub fn finish(self) -> (lines: Vec<Vec<Span>>)
        ensures
            lines.deep_view() == finished(self@),
    {
        let mut state = self;
        if state.current_line.len() > 0 {
            state.flush();
        }
        assert(state.completed_lines.deep_view() =~~= finished(self@));
        state.completed_lines
    }
}

/// Lays `events` out into lines of spans.
///
/// The configuration is checked before any event is taken. The run either
/// gives all of its lines or fails as a whole.
pub fn layout(events: &[Event], config: &LayoutConfig) -> (result: Result<
    Vec<Vec<Span>>,
    LayoutError,
>)
    ensures
        match result {
            Ok(lines) => layout_outcome(*config, events.deep_view()) == Ok::<
                Seq<Seq<SpanView>>,
                LayoutError,
            >(lines.deep_view()),
            Err(error) => layout_outcome(*config, events.deep_view()) == Err::<
                Seq<Seq<SpanView>>,
                LayoutError,
            >(error),
        },
{
    let mut state = match LayoutState::new(*config) {
        Ok(state) => state,
        Err(error) => {
            return Err(error);
        },
    };
    let ghost stream = events.deep_view();
    let mut i: usize = 0;
    while i < events.len()
        invariant
            0 <= i <= events.len(),
            stream == events.deep_view(),
            config.valid(),
            state@ == run(initial(*config), stream.take(i as int)),
            all_measurable(stream.take(i as int)),
        decreases events.len() - i,
    {
        proof {
            assert(stream.take(i + 1).drop_last() =~= stream.take(i as int));
            assert(stream.take(i + 1).last() == events[i as int]@);
        }
        match state.handle(&events[i]) {
            Ok(()) => {},
            Err(error) => {
                assert(!event_measurable(stream[i as int]));
                return Err(error);
            },
        }
        assert forall|k: int| 0 <= k < i + 1 implies event_measurable(
            #[trigger] stream.take(i + 1)[k],
        ) by {
            if k < i {
                assert(stream.take(i + 1)[k] == stream.take(i as int)[k]);
            }
        }
        i += 1;
    }
    assert(stream.take(i as int) =~= stream);
    Ok(state.finish())
}

} // verus!
