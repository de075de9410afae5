//! The tie to the external markdown tokenizer (pulldown_cmark) and the
//! whole-document entry point.
//!
//! The tokenizer is an external collaborator: what it emits for a given
//! document is named by `markdown_events_of` and not re-stated here. The
//! conversion of that stream is the verified part; see `render_spec`.

use vstd::prelude::*;

use pulldown_cmark::Event;
use pulldown_cmark::Options;
use pulldown_cmark::Parser;
use pulldown_cmark::Tag;

use crate::laws::lemma_balanced_stream_converts;
use crate::laws::well_nested;
use crate::model::TagDescriptor;
use crate::render::event_seq_model;
use crate::render::render_events;
use crate::render::render_spec;
use crate::render::result_model;
use crate::render::EventModel;
use crate::render::MarkdownEvent;
use crate::render::RenderError;
use crate::render::RichText;

verus! {

/// pulldown_cmark's tag type, declared so that a signature here may
/// carry it; its values stay opaque.
#[verifier::external_type_specification]
#[verifier::external_body]
pub struct ExTag<'a>(Tag<'a>);

/// The event stream the external tokenizer derives from a document: one
/// event per emitted tokenizer event, in document order.
pub uninterp spec fn markdown_events_of(text: Seq<char>) -> Seq<EventModel>;

/// Relies on pulldown_cmark::Tag: one arm per variant. The constructs
/// this engine styles keep their data; every other structural tag folds
/// into the catch-all descriptor, which balances the stack but carries
/// no attributes.
#[verifier::external_body]
fn tag_descriptor(tag: Tag<'_>) -> TagDescriptor {
    match tag {
        Tag::Heading(level, _, _) => TagDescriptor::Heading(level as u8),
        Tag::BlockQuote => TagDescriptor::BlockQuote,
        Tag::CodeBlock(_) => TagDescriptor::CodeBlock,
        Tag::Emphasis => TagDescriptor::Emphasis,
        Tag::Strong => TagDescriptor::Strong,
        Tag::Strikethrough => TagDescriptor::Strikethrough,
        Tag::Link(_, target, title) => TagDescriptor::Link {
            target: target.as_bytes().to_vec(),
            title: title.as_bytes().to_vec(),
        },
        _ => TagDescriptor::Other,
    }
}

/// Relies on pulldown_cmark::Parser::new_ext with the strikethrough
/// extension enabled: the emitted event stream depends on the document
/// text alone; an empty document emits no events; and, as the tokenizer
/// documents of its start and end events, the stream is balanced, each
/// end event carrying its opener's tag.
#[verifier::external_body]
fn parse_markdown(text: &str) -> (events: Vec<MarkdownEvent>)
    ensures
        event_seq_model(events@) == markdown_events_of(text@),
        text@.len() == 0 ==> events@.len() == 0,
        well_nested(event_seq_model(events@)),
{
    let mut events: Vec<MarkdownEvent> = Vec::new();
    for event in Parser::new_ext(text, Options::ENABLE_STRIKETHROUGH) {
        events.push(match event {
            Event::Start(tag) => MarkdownEvent::Start(tag_descriptor(tag)),
            Event::End(tag) => MarkdownEvent::End(tag_descriptor(tag)),
            Event::Text(s) => MarkdownEvent::Text(s.as_bytes().to_vec()),
            Event::Code(s) => MarkdownEvent::Code(s.as_bytes().to_vec()),
            Event::Html(s) => MarkdownEvent::Html(s.as_bytes().to_vec()),
            Event::HardBreak => MarkdownEvent::HardBreak,
            _ => MarkdownEvent::Ignored,
        });
    }
    events
}

/// Parses a markdown document and converts it to rich text: exactly what
/// `render_spec` assigns to the tokenizer's event stream for this
/// document. The tokenizer emits well-nested streams, so the conversion
/// of a whole document never aborts.
pub fn rebuild_rendered_text(text: &str) -> (outcome: Result<RichText, RenderError>)
    ensures
        result_model(outcome) == render_spec(markdown_events_of(text@)),
        outcome is Ok,
{
    let events = parse_markdown(text);
    proof {
        lemma_balanced_stream_converts(markdown_events_of(text@));
    }
    render_events(&events)
}

} // verus!
