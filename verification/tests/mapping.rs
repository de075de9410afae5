//! The tag-to-attribute mapping table and the block separator policy,
//! value by value.

use markdown_preview::model::attributes_for;
use markdown_preview::model::needs_break_after;
use markdown_preview::model::tag_eq;
use markdown_preview::model::StyleAttribute;
use markdown_preview::model::TagDescriptor;

fn bytes(s: &str) -> Vec<u8> {
    s.as_bytes().to_vec()
}

#[test]
fn heading_sizes_match_the_table() {
    let sizes: [(u8, u32); 6] = [(1, 38), (2, 32), (3, 26), (4, 20), (5, 16), (6, 12)];
    for (level, points) in sizes {
        assert_eq!(
            attributes_for(&TagDescriptor::Heading(level)),
            vec![StyleAttribute::FontSize(points), StyleAttribute::WeightBold],
        );
    }
}

#[test]
fn blockquote_is_gray_italic() {
    assert_eq!(
        attributes_for(&TagDescriptor::BlockQuote),
        vec![StyleAttribute::StyleItalic, StyleAttribute::TextColor(0x888888)],
    );
}

#[test]
fn code_block_is_monospace() {
    assert_eq!(
        attributes_for(&TagDescriptor::CodeBlock),
        vec![StyleAttribute::MonospaceFamily],
    );
}

#[test]
fn inline_styles_map_directly() {
    assert_eq!(
        attributes_for(&TagDescriptor::Emphasis),
        vec![StyleAttribute::StyleItalic],
    );
    assert_eq!(
        attributes_for(&TagDescriptor::Strong),
        vec![StyleAttribute::WeightBold],
    );
    assert_eq!(
        attributes_for(&TagDescriptor::Strikethrough),
        vec![StyleAttribute::Strikethrough(true)],
    );
}

#[test]
fn link_attributes_carry_the_target() {
    let tag = TagDescriptor::Link { target: bytes("http://x"), title: bytes("t") };
    assert_eq!(
        attributes_for(&tag),
        vec![
            StyleAttribute::Underline(true),
            StyleAttribute::TextColor(0x0000EE),
            StyleAttribute::LinkAction(bytes("http://x")),
        ],
    );
}

#[test]
fn other_has_no_attributes() {
    assert_eq!(attributes_for(&TagDescriptor::Other), Vec::new());
}

#[test]
fn inline_tags_need_no_break() {
    assert!(!needs_break_after(&TagDescriptor::Emphasis));
    assert!(!needs_break_after(&TagDescriptor::Strong));
    assert!(!needs_break_after(&TagDescriptor::Strikethrough));
    assert!(!needs_break_after(&TagDescriptor::Link {
        target: bytes("http://x"),
        title: Vec::new(),
    }));
}

#[test]
fn block_tags_need_a_break() {
    assert!(needs_break_after(&TagDescriptor::Heading(1)));
    assert!(needs_break_after(&TagDescriptor::Heading(6)));
    assert!(needs_break_after(&TagDescriptor::BlockQuote));
    assert!(needs_break_after(&TagDescriptor::CodeBlock));
    assert!(needs_break_after(&TagDescriptor::Other));
}

#[test]
fn tag_equality_compares_link_targets() {
    let a = TagDescriptor::Link { target: bytes("http://x"), title: Vec::new() };
    let b = TagDescriptor::Link { target: bytes("http://x"), title: Vec::new() };
    let c = TagDescriptor::Link { target: bytes("http://y"), title: Vec::new() };
    assert!(tag_eq(&a, &b));
    assert!(!tag_eq(&a, &c));
    assert!(tag_eq(&TagDescriptor::Heading(2), &TagDescriptor::Heading(2)));
    assert!(!tag_eq(&TagDescriptor::Heading(2), &TagDescriptor::Heading(3)));
    assert!(!tag_eq(&TagDescriptor::Strong, &TagDescriptor::Emphasis));
}
