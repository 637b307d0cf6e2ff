//! The structural events that the markdown tokenizer yields, modeled as
//! plain values, and the trusted call into the tokenizer.

use vstd::prelude::*;
use pulldown_cmark::{Event, Options, Parser, Tag};

verus! {

/// One structural event of the tokenized document, as plain values: block
/// starts and ends, inline text, inline code, raw inline markup, task-list
/// markers and line breaks. A heading start carries its level (1 through 6);
/// events the scanner never acts on fall under `OtherStart` and `Other`.
pub enum MdEvent {
    HeadingStart(u32),
    ItemStart,
    OtherStart,
    BlockEnd,
    Text(Vec<char>),
    Code(Vec<char>),
    InlineHtml(Vec<char>),
    TaskMarker(bool),
    SoftBreak,
    HardBreak,
    Other,
}

/// The mathematical value of one event.
pub enum EventV {
    HeadingStart(u32),
    ItemStart,
    OtherStart,
    BlockEnd,
    Text(Seq<char>),
    Code(Seq<char>),
    InlineHtml(Seq<char>),
    TaskMarker(bool),
    SoftBreak,
    HardBreak,
    Other,
}

impl View for MdEvent {
    type V = EventV;

    open spec fn view(&self) -> EventV {
        match self {
            MdEvent::HeadingStart(level) => EventV::HeadingStart(*level),
            MdEvent::ItemStart => EventV::ItemStart,
            MdEvent::OtherStart => EventV::OtherStart,
            MdEvent::BlockEnd => EventV::BlockEnd,
            MdEvent::Text(t) => EventV::Text(t@),
            MdEvent::Code(t) => EventV::Code(t@),
            MdEvent::InlineHtml(t) => EventV::InlineHtml(t@),
            MdEvent::TaskMarker(checked) => EventV::TaskMarker(*checked),
            MdEvent::SoftBreak => EventV::SoftBreak,
            MdEvent::HardBreak => EventV::HardBreak,
            MdEvent::Other => EventV::Other,
        }
    }
}

/// The values of a sequence of events.
pub open spec fn events_view(s: Seq<MdEvent>) -> Seq<EventV> {
    s.map_values(|e: MdEvent| e@)
}

/// The structural events that the markdown tokenizer yields for the given
/// text, in order. The tokenizer is deterministic, so the events are a
/// function of the text alone; no shorter statement captures them.
pub uninterp spec fn md_events_of(s: Seq<char>) -> Seq<EventV>;

/// Relies on pulldown_cmark::Parser (with task-list markers enabled): the
/// ordered structural events of the text, here mapped variant by variant
/// onto [`MdEvent`].
#[verifier::external_body]
pub fn parse_events(raw: &String) -> (r: Vec<MdEvent>)
    ensures
        events_view(r@) == md_events_of(raw@),
{
    Parser::new_ext(raw, Options::ENABLE_TASKLISTS).map(|e| match e {
        Event::Start(Tag::Heading { level, .. }) => MdEvent::HeadingStart(level as u32),
        Event::Start(Tag::Item) => MdEvent::ItemStart,
        Event::Start(_) => MdEvent::OtherStart,
        Event::End(_) => MdEvent::BlockEnd,
        Event::Text(t) => MdEvent::Text(t.chars().collect()),
        Event::Code(t) => MdEvent::Code(t.chars().collect()),
        Event::InlineHtml(t) => MdEvent::InlineHtml(t.chars().collect()),
        Event::TaskListMarker(checked) => MdEvent::TaskMarker(checked),
        Event::SoftBreak => MdEvent::SoftBreak,
        Event::HardBreak => MdEvent::HardBreak,
        _ => MdEvent::Other,
    }).collect()
}

} // verus!
