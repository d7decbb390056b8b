//! Layout of a Markdown text.
use crate::config::LayoutConfig;
use crate::error::LayoutError;
use crate::event::{Event, EventView};
use crate::layout::layout;
use crate::model::layout_outcome;
use crate::span::{Span, SpanView};
use pulldown_cmark::{Event as Token, Parser, Tag, TagEnd};
use vstd::prelude::*;

verus! {

/// The events of a Markdown text, in the order of the text.
pub uninterp spec fn markdown_events(text: Seq<char>) -> Seq<EventView>;

/// Runs `pulldown_cmark::Parser` over `markdown`, without any extension, and
/// hands out its events as events of this library.
///
/// Trusted: the parser comes to an end on every text, and its events depend
/// on the text alone.
#[verifier::external_body]
fn tokenize(markdown: &str) -> (events: Vec<Event>)
    ensures
        events.deep_view() == markdown_events(markdown@),
{
    let convert = |token| match token {
        Token::Start(Tag::Strong) => Event::StartStrong,
        Token::End(TagEnd::Strong) => Event::EndStrong,
        Token::Start(Tag::Emphasis) => Event::StartEmphasis,
        Token::End(TagEnd::Emphasis) => Event::EndEmphasis,
        Token::Start(Tag::Item) => Event::StartItem,
        Token::End(TagEnd::Item) => Event::EndItem,
        Token::Text(text) => Event::Text(text.into_string()),
        Token::End(TagEnd::Paragraph) => Event::EndParagraph,
        Token::SoftBreak => Event::SoftBreak,
        _ => Event::Other,
    };
    Parser::new(markdown).map(convert).collect()
}

/// Lays a Markdown text out into lines of spans: the text is read into
/// events, and the events are laid out as [`layout`] does.
pub fn layout_markdown(markdown: &str, config: &LayoutConfig) -> (result: Result<
    Vec<Vec<Span>>,
    LayoutError,
>)
    ensures
        match result {
            Ok(lines) => layout_outcome(*config, markdown_events(markdown@)) == Ok::<
                Seq<Seq<SpanView>>,
                LayoutError,
            >(lines.deep_view()),
            Err(error) => layout_outcome(*config, markdown_events(markdown@)) == Err::<
                Seq<Seq<SpanView>>,
                LayoutError,
            >(error),
        },
{
    let events = tokenize(markdown);
    layout(events.as_slice(), config)
}

} // verus!
