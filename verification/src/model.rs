//! The data model of the conversion engine: tag descriptors for the
//! structural constructs the tokenizer reports, style attributes for the
//! display layer, the mapping table between the two, and the block
//! separator policy.

use vstd::prelude::*;

verus! {

/// Neutral gray used for blockquote text and raw markup, as 0xRRGGBB.
pub const BLOCKQUOTE_COLOR: u32 = 0x888888;

/// Blue used for link text, as 0xRRGGBB.
pub const LINK_COLOR: u32 = 0x0000EE;

/// A structural markdown construct, as reported by the tokenizer.
///
/// `Other` is the catch-all for structural tags with no visual effect
/// (paragraphs, lists, tables, ...): they contribute no attributes but
/// still take part in the open/close balance.
#[derive(Debug, PartialEq, Eq)]
pub enum TagDescriptor {
    Heading(u8),
    BlockQuote,
    CodeBlock,
    Emphasis,
    Strong,
    Strikethrough,
    Link { target: Vec<u8>, title: Vec<u8> },
    Other,
}

/// The mathematical model of a `TagDescriptor`.
#[verifier::ext_equal]
pub enum TagModel {
    Heading(u8),
    BlockQuote,
    CodeBlock,
    Emphasis,
    Strong,
    Strikethrough,
    Link { target: Seq<u8>, title: Seq<u8> },
    Other,
}

impl View for TagDescriptor {
    type V = TagModel;

    open spec fn view(&self) -> TagModel {
        match self {
            TagDescriptor::Heading(level) => TagModel::Heading(*level),
            TagDescriptor::BlockQuote => TagModel::BlockQuote,
            TagDescriptor::CodeBlock => TagModel::CodeBlock,
            TagDescriptor::Emphasis => TagModel::Emphasis,
            TagDescriptor::Strong => TagModel::Strong,
            TagDescriptor::Strikethrough => TagModel::Strikethrough,
            TagDescriptor::Link { target, title } => TagModel::Link {
                target: target@,
                title: title@,
            },
            TagDescriptor::Other => TagModel::Other,
        }
    }
}

/// One visual style applied to a range of the output text.
#[derive(Debug, PartialEq, Eq)]
pub enum StyleAttribute {
    FontSize(u32),
    WeightBold,
    StyleItalic,
    TextColor(u32),
    Underline(bool),
    Strikethrough(bool),
    MonospaceFamily,
    LinkAction(Vec<u8>),
}

/// The mathematical model of a `StyleAttribute`.
#[verifier::ext_equal]
pub enum AttributeModel {
    FontSize(u32),
    WeightBold,
    StyleItalic,
    TextColor(u32),
    Underline(bool),
    Strikethrough(bool),
    MonospaceFamily,
    LinkAction(Seq<u8>),
}

impl View for StyleAttribute {
    type V = AttributeModel;

    open spec fn view(&self) -> AttributeModel {
        match self {
            StyleAttribute::FontSize(points) => AttributeModel::FontSize(*points),
            StyleAttribute::WeightBold => AttributeModel::WeightBold,
            StyleAttribute::StyleItalic => AttributeModel::StyleItalic,
            StyleAttribute::TextColor(rgb) => AttributeModel::TextColor(*rgb),
            StyleAttribute::Underline(on) => AttributeModel::Underline(*on),
            StyleAttribute::Strikethrough(on) => AttributeModel::Strikethrough(*on),
            StyleAttribute::MonospaceFamily => AttributeModel::MonospaceFamily,
            StyleAttribute::LinkAction(target) => AttributeModel::LinkAction(target@),
        }
    }
}

/// The model of a sequence of attributes.
pub open spec fn attribute_seq_model(attrs: Seq<StyleAttribute>) -> Seq<AttributeModel> {
    attrs.map_values(|a: StyleAttribute| a@)
}

/// Font size in points for each heading level; levels outside 1..=6 share
/// the smallest size.
pub open spec fn heading_size(level: u8) -> u32 {
    if level == 1 {
        38
    } else if level == 2 {
        32
    } else if level == 3 {
        26
    } else if level == 4 {
        20
    } else if level == 5 {
        16
    } else {
        12
    }
}

/// The tag-to-attribute mapping table: the attributes a closed span of the
/// given tag puts on its range.
pub open spec fn attributes_spec(tag: TagModel) -> Seq<AttributeModel> {
    match tag {
        TagModel::Heading(level) => seq![
            AttributeModel::FontSize(heading_size(level)),
            AttributeModel::WeightBold,
        ],
        TagModel::BlockQuote => seq![
            AttributeModel::StyleItalic,
            AttributeModel::TextColor(BLOCKQUOTE_COLOR),
        ],
        TagModel::CodeBlock => seq![AttributeModel::MonospaceFamily],
        TagModel::Emphasis => seq![AttributeModel::StyleItalic],
        TagModel::Strong => seq![AttributeModel::WeightBold],
        TagModel::Strikethrough => seq![AttributeModel::Strikethrough(true)],
        TagModel::Link { target, title } => seq![
            AttributeModel::Underline(true),
            AttributeModel::TextColor(LINK_COLOR),
            AttributeModel::LinkAction(target),
        ],
        TagModel::Other => Seq::empty(),
    }
}

/// The block separator policy: true for every block-level construct,
/// false for the inline styles that continue the current paragraph.
pub open spec fn needs_break_spec(tag: TagModel) -> bool {
    !(tag is Emphasis || tag is Strong || tag is Strikethrough || tag is Link)
}

/// Maps a closed tag to the set of style attributes its range carries.
pub fn attributes_for(tag: &TagDescriptor) -> (attrs: Vec<StyleAttribute>)
    ensures
        attribute_seq_model(attrs@) == attributes_spec(tag@),
{
    let mut attrs: Vec<StyleAttribute> = Vec::new();
    match tag {
        TagDescriptor::Heading(level) => {
            let points: u32 = if *level == 1 {
                38
            } else if *level == 2 {
                32
            } else if *level == 3 {
                26
            } else if *level == 4 {
                20
            } else if *level == 5 {
                16
            } else {
                12
            };
            attrs.push(StyleAttribute::FontSize(points));
            attrs.push(StyleAttribute::WeightBold);
        }
        TagDescriptor::BlockQuote => {
            attrs.push(StyleAttribute::StyleItalic);
            attrs.push(StyleAttribute::TextColor(BLOCKQUOTE_COLOR));
        }
        TagDescriptor::CodeBlock => {
            attrs.push(StyleAttribute::MonospaceFamily);
        }
        TagDescriptor::Emphasis => {
            attrs.push(StyleAttribute::StyleItalic);
        }
        TagDescriptor::Strong => {
            attrs.push(StyleAttribute::WeightBold);
        }
        TagDescriptor::Strikethrough => {
            attrs.push(StyleAttribute::Strikethrough(true));
        }
        TagDescriptor::Link { target, title: _ } => {
            attrs.push(StyleAttribute::Underline(true));
            attrs.push(StyleAttribute::TextColor(LINK_COLOR));
            attrs.push(StyleAttribute::LinkAction(copy_bytes(target)));
        }
        TagDescriptor::Other => {}
    }
    proof {
        assert(attribute_seq_model(attrs@) =~= attributes_spec(tag@));
    }
    attrs
}

/// Decides whether a paragraph break follows the closed tag.
pub fn needs_break_after(tag: &TagDescriptor) -> (needed: bool)
    ensures
        needed == needs_break_spec(tag@),
{
    !matches!(
        tag,
        TagDescriptor::Emphasis
        | TagDescriptor::Strong
        | TagDescriptor::Strikethrough
        | TagDescriptor::Link { .. }
    )
}

/// Copies a byte buffer.
pub fn copy_bytes(src: &Vec<u8>) -> (out: Vec<u8>)
    ensures
        out@ == src@,
{
    let mut out: Vec<u8> = Vec::new();
    let mut i: usize = 0;
    while i < src.len()
        invariant
            0 <= i <= src.len(),
            out@ == src@.take(i as int),
        decreases src.len() - i,
    {
        out.push(src[i]);
        proof {
            assert(out@ =~= src@.take(i as int + 1));
        }
        i = i + 1;
    }
    proof {
        assert(out@ =~= src@);
    }
    out
}

/// Decides whether two tag descriptors denote the same construct.
pub fn tag_eq(a: &TagDescriptor, b: &TagDescriptor) -> (same: bool)
    ensures
        same == (a@ == b@),
{
    match (a, b) {
        (TagDescriptor::Heading(x), TagDescriptor::Heading(y)) => x == y,
        (TagDescriptor::BlockQuote, TagDescriptor::BlockQuote) => true,
        (TagDescriptor::CodeBlock, TagDescriptor::CodeBlock) => true,
        (TagDescriptor::Emphasis, TagDescriptor::Emphasis) => true,
        (TagDescriptor::Strong, TagDescriptor::Strong) => true,
        (TagDescriptor::Strikethrough, TagDescriptor::Strikethrough) => true,
        (
            TagDescriptor::Link { target: ta, title: la },
            TagDescriptor::Link { target: tb, title: lb },
        ) => bytes_eq(ta, tb) && bytes_eq(la, lb),
        (TagDescriptor::Other, TagDescriptor::Other) => true,
        _ => false,
    }
}

/// Decides equality of two byte buffers.
pub fn bytes_eq(a: &Vec<u8>, b: &Vec<u8>) -> (same: bool)
    ensures
        same == (a@ == b@),
{
    if a.len() != b.len() {
        return false;
    }
    let mut i: usize = 0;
    while i < a.len()
        invariant
            0 <= i <= a.len(),
            a@.len() == b@.len(),
            forall|j: int| 0 <= j < i ==> a@[j] == b@[j],
        decreases a.len() - i,
    {
        if a[i] != b[i] {
            return false;
        }
        i = i + 1;
    }
    proof {
        assert(a@ =~= b@);
    }
    true
}

impl Clone for TagDescriptor {
    /// Clones the descriptor; the copy models the same tag.
    fn clone(&self) -> (out: Self)
        ensures
            out@ == self@,
    {
        match self {
            TagDescriptor::Heading(level) => TagDescriptor::Heading(*level),
            TagDescriptor::BlockQuote => TagDescriptor::BlockQuote,
            TagDescriptor::CodeBlock => TagDescriptor::CodeBlock,
            TagDescriptor::Emphasis => TagDescriptor::Emphasis,
            TagDescriptor::Strong => TagDescriptor::Strong,
            TagDescriptor::Strikethrough => TagDescriptor::Strikethrough,
            TagDescriptor::Link { target, title } => TagDescriptor::Link {
                target: copy_bytes(target),
                title: copy_bytes(title),
            },
            TagDescriptor::Other => TagDescriptor::Other,
        }
    }
}

} // verus!
