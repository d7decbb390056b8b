//! The events that a layout run consumes.
use vstd::prelude::*;

verus! {

/// One event of the input stream: a change of style, a piece of text or a
/// mark of the document's structure.
#[derive(Debug, PartialEq, Eq)]
pub enum Event {
    StartStrong,
    EndStrong,
    StartEmphasis,
    EndEmphasis,
    StartItem,
    EndItem,
    Text(String),
    EndParagraph,
    SoftBreak,
    /// Any other mark of structure; the layout passes over it.
    Other,
}

/// An [`Event`] with its text as a sequence of characters.
pub enum EventView {
    StartStrong,
    EndStrong,
    StartEmphasis,
    EndEmphasis,
    StartItem,
    EndItem,
    Text(Seq<char>),
    EndParagraph,
    SoftBreak,
    Other,
}

impl View for Event {
    type V = EventView;

    open spec fn view(&self) -> EventView {
        match *self {
            Event::StartStrong => EventView::StartStrong,
            Event::EndStrong => EventView::EndStrong,
            Event::StartEmphasis => EventView::StartEmphasis,
            Event::EndEmphasis => EventView::EndEmphasis,
            Event::StartItem => EventView::StartItem,
            Event::EndItem => EventView::EndItem,
            Event::Text(text) => EventView::Text(text@),
            Event::EndParagraph => EventView::EndParagraph,
            Event::SoftBreak => EventView::SoftBreak,
            Event::Other => EventView::Other,
        }
    }
}

impl DeepView for Event {
    type V = EventView;

    open spec fn deep_view(&self) -> EventView {
        self@
    }
}

} // verus!
