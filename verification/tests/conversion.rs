//! End-to-end conversions: event streams built by hand through
//! `render_events`, and whole documents through `rebuild_rendered_text`.

use markdown_preview::model::StyleAttribute;
use markdown_preview::model::TagDescriptor;
use markdown_preview::parse::rebuild_rendered_text;
use markdown_preview::render::render_events;
use markdown_preview::render::Converter;
use markdown_preview::render::AttributeRange;
use markdown_preview::render::MarkdownEvent;
use markdown_preview::render::RenderError;

fn bytes(s: &str) -> Vec<u8> {
    s.as_bytes().to_vec()
}

fn link_tag(target: &str, title: &str) -> TagDescriptor {
    TagDescriptor::Link { target: bytes(target), title: bytes(title) }
}

#[test]
fn heading_title() {
    let events = vec![
        MarkdownEvent::Start(TagDescriptor::Heading(1)),
        MarkdownEvent::Text(bytes("Title")),
        MarkdownEvent::End(TagDescriptor::Heading(1)),
    ];
    let rich = render_events(&events).unwrap();
    assert_eq!(rich.plain_text, bytes("Title\n\n"));
    assert_eq!(
        rich.ranges,
        vec![AttributeRange {
            start: 0,
            end: 5,
            attributes: vec![StyleAttribute::FontSize(38), StyleAttribute::WeightBold],
        }]
    );
}

#[test]
fn heading_title_from_document() {
    let rich = rebuild_rendered_text("# Title").unwrap();
    assert_eq!(rich.plain_text, bytes("Title\n\n"));
    assert_eq!(
        rich.ranges,
        vec![AttributeRange {
            start: 0,
            end: 5,
            attributes: vec![StyleAttribute::FontSize(38), StyleAttribute::WeightBold],
        }]
    );
}

#[test]
fn strong_keeps_the_line() {
    let events = vec![
        MarkdownEvent::Start(TagDescriptor::Strong),
        MarkdownEvent::Text(bytes("bold")),
        MarkdownEvent::End(TagDescriptor::Strong),
        MarkdownEvent::Text(bytes(" text")),
    ];
    let rich = render_events(&events).unwrap();
    assert_eq!(rich.plain_text, bytes("bold text"));
    assert_eq!(
        rich.ranges,
        vec![AttributeRange {
            start: 0,
            end: 4,
            attributes: vec![StyleAttribute::WeightBold],
        }]
    );
}

#[test]
fn strong_from_document() {
    let rich = rebuild_rendered_text("**bold** text").unwrap();
    // The tokenizer wraps the line in a paragraph, a block-level tag:
    // closing it appends the separator, but records no range.
    assert_eq!(rich.plain_text, bytes("bold text\n\n"));
    assert_eq!(
        rich.ranges,
        vec![AttributeRange {
            start: 0,
            end: 4,
            attributes: vec![StyleAttribute::WeightBold],
        }]
    );
}

#[test]
fn link_carries_action() {
    let events = vec![
        MarkdownEvent::Start(link_tag("http://x", "")),
        MarkdownEvent::Text(bytes("site")),
        MarkdownEvent::End(link_tag("http://x", "")),
    ];
    let rich = render_events(&events).unwrap();
    assert_eq!(rich.plain_text, bytes("site"));
    assert_eq!(
        rich.ranges,
        vec![AttributeRange {
            start: 0,
            end: 4,
            attributes: vec![
                StyleAttribute::Underline(true),
                StyleAttribute::TextColor(0x0000EE),
                StyleAttribute::LinkAction(bytes("http://x")),
            ],
        }]
    );
}

#[test]
fn link_from_document() {
    let rich = rebuild_rendered_text("[site](http://x)").unwrap();
    assert_eq!(rich.plain_text, bytes("site\n\n"));
    assert_eq!(
        rich.ranges,
        vec![AttributeRange {
            start: 0,
            end: 4,
            attributes: vec![
                StyleAttribute::Underline(true),
                StyleAttribute::TextColor(0x0000EE),
                StyleAttribute::LinkAction(bytes("http://x")),
            ],
        }]
    );
}

#[test]
fn inline_code_never_touches_the_stack() {
    let events = vec![MarkdownEvent::Code(bytes("code"))];
    let rich = render_events(&events).unwrap();
    assert_eq!(rich.plain_text, bytes("code"));
    assert_eq!(
        rich.ranges,
        vec![AttributeRange {
            start: 0,
            end: 4,
            attributes: vec![StyleAttribute::MonospaceFamily],
        }]
    );
}

#[test]
fn inline_code_from_document() {
    let rich = rebuild_rendered_text("`code`").unwrap();
    assert_eq!(rich.plain_text, bytes("code\n\n"));
    assert_eq!(
        rich.ranges,
        vec![AttributeRange {
            start: 0,
            end: 4,
            attributes: vec![StyleAttribute::MonospaceFamily],
        }]
    );
}

#[test]
fn blockquote_emphasis_overlap() {
    let events = vec![
        MarkdownEvent::Start(TagDescriptor::BlockQuote),
        MarkdownEvent::Start(TagDescriptor::Emphasis),
        MarkdownEvent::Text(bytes("em")),
        MarkdownEvent::End(TagDescriptor::Emphasis),
        MarkdownEvent::End(TagDescriptor::BlockQuote),
    ];
    let rich = render_events(&events).unwrap();
    assert_eq!(rich.plain_text, bytes("em\n\n"));
    assert_eq!(
        rich.ranges,
        vec![
            AttributeRange {
                start: 0,
                end: 2,
                attributes: vec![StyleAttribute::StyleItalic],
            },
            AttributeRange {
                start: 0,
                end: 2,
                attributes: vec![
                    StyleAttribute::StyleItalic,
                    StyleAttribute::TextColor(0x888888),
                ],
            },
        ]
    );
}

#[test]
fn nested_emphasis_in_heading_overlaps() {
    let rich = rebuild_rendered_text("# A *b*").unwrap();
    assert_eq!(rich.plain_text, bytes("A b\n\n"));
    assert_eq!(
        rich.ranges,
        vec![
            AttributeRange {
                start: 2,
                end: 3,
                attributes: vec![StyleAttribute::StyleItalic],
            },
            AttributeRange {
                start: 0,
                end: 3,
                attributes: vec![StyleAttribute::FontSize(38), StyleAttribute::WeightBold],
            },
        ]
    );
}

#[test]
fn strikethrough_from_document() {
    let rich = rebuild_rendered_text("~~x~~").unwrap();
    assert_eq!(rich.plain_text, bytes("x\n\n"));
    assert_eq!(
        rich.ranges,
        vec![AttributeRange {
            start: 0,
            end: 1,
            attributes: vec![StyleAttribute::Strikethrough(true)],
        }]
    );
}

#[test]
fn unmatched_end_is_fatal() {
    let events = vec![MarkdownEvent::End(TagDescriptor::Strong)];
    assert_eq!(render_events(&events), Err(RenderError::EndWithoutStart));
}

#[test]
fn mismatched_end_is_fatal() {
    let events = vec![
        MarkdownEvent::Start(TagDescriptor::Strong),
        MarkdownEvent::End(TagDescriptor::Emphasis),
    ];
    assert_eq!(render_events(&events), Err(RenderError::TagMismatch));
}

#[test]
fn unclosed_span_is_fatal() {
    let events = vec![
        MarkdownEvent::Start(TagDescriptor::Strong),
        MarkdownEvent::Text(bytes("x")),
    ];
    assert_eq!(render_events(&events), Err(RenderError::UnclosedTag));
}

#[test]
fn empty_stream_converts_to_nothing() {
    let rich = render_events(&Vec::new()).unwrap();
    assert_eq!(rich.plain_text, Vec::<u8>::new());
    assert_eq!(rich.ranges, Vec::new());
}

#[test]
fn empty_document_converts_to_nothing() {
    let rich = rebuild_rendered_text("").unwrap();
    assert_eq!(rich.plain_text, Vec::<u8>::new());
    assert_eq!(rich.ranges, Vec::new());
}

#[test]
fn hard_break_is_plain_text() {
    let events = vec![
        MarkdownEvent::Text(bytes("a")),
        MarkdownEvent::HardBreak,
        MarkdownEvent::Text(bytes("b")),
    ];
    let rich = render_events(&events).unwrap();
    assert_eq!(rich.plain_text, bytes("a\n\nb"));
    assert_eq!(rich.ranges, Vec::new());
}

#[test]
fn raw_markup_is_monospace_gray() {
    let events = vec![MarkdownEvent::Html(bytes("<b>hi</b>"))];
    let rich = render_events(&events).unwrap();
    assert_eq!(rich.plain_text, bytes("<b>hi</b>"));
    assert_eq!(
        rich.ranges,
        vec![AttributeRange {
            start: 0,
            end: 9,
            attributes: vec![
                StyleAttribute::MonospaceFamily,
                StyleAttribute::TextColor(0x888888),
            ],
        }]
    );
}

#[test]
fn other_tags_balance_without_styling() {
    let events = vec![
        MarkdownEvent::Start(TagDescriptor::Other),
        MarkdownEvent::Text(bytes("x")),
        MarkdownEvent::End(TagDescriptor::Other),
    ];
    let rich = render_events(&events).unwrap();
    assert_eq!(rich.plain_text, bytes("x\n\n"));
    assert_eq!(rich.ranges, Vec::new());
}

#[test]
fn ignored_events_change_nothing() {
    let events = vec![
        MarkdownEvent::Text(bytes("a")),
        MarkdownEvent::Ignored,
        MarkdownEvent::Text(bytes("b")),
    ];
    let rich = render_events(&events).unwrap();
    assert_eq!(rich.plain_text, bytes("ab"));
    assert_eq!(rich.ranges, Vec::new());
}

#[test]
fn malformed_markup_still_converts() {
    // The tokenizer absorbs stray markup into text; whole documents
    // always convert.
    let rich = rebuild_rendered_text("**a _b~~").unwrap();
    assert_eq!(rich.plain_text, bytes("**a _b~~\n\n"));
    assert_eq!(rich.ranges, Vec::new());
}

#[test]
fn blockquote_from_document() {
    let rich = rebuild_rendered_text("> *em*").unwrap();
    // The paragraph inside the quote closes first (one separator), then
    // the blockquote itself (a second separator, after its range).
    assert_eq!(rich.plain_text, bytes("em\n\n\n\n"));
    assert_eq!(
        rich.ranges,
        vec![
            AttributeRange {
                start: 0,
                end: 2,
                attributes: vec![StyleAttribute::StyleItalic],
            },
            AttributeRange {
                start: 0,
                end: 4,
                attributes: vec![
                    StyleAttribute::StyleItalic,
                    StyleAttribute::TextColor(0x888888),
                ],
            },
        ]
    );
}

#[test]
fn converter_components_step_by_step() {
    let mut conv = Converter::new();
    assert_eq!(conv.current_offset(), 0);
    conv.on_start(TagDescriptor::Strong);
    let (start, end) = conv.append_text(&bytes("hi"));
    assert_eq!((start, end), (0, 2));
    assert_eq!(conv.current_offset(), 2);
    assert!(conv.on_end(&TagDescriptor::Strong).is_ok());
    let rich = conv.finish().unwrap();
    assert_eq!(rich.plain_text, bytes("hi"));
    assert_eq!(
        rich.ranges,
        vec![AttributeRange {
            start: 0,
            end: 2,
            attributes: vec![StyleAttribute::WeightBold],
        }]
    );
}

#[test]
fn mismatched_end_leaves_the_converter_usable() {
    let mut conv = Converter::new();
    conv.on_start(TagDescriptor::Emphasis);
    assert_eq!(conv.on_end(&TagDescriptor::Strong), Err(RenderError::TagMismatch));
    // Emphasis is inline: closing it appends no separator.
    assert!(conv.on_end(&TagDescriptor::Emphasis).is_ok());
    let rich = conv.finish().unwrap();
    assert_eq!(rich.plain_text, Vec::<u8>::new());
    assert_eq!(rich.ranges.len(), 1);
}
