//! The guarantees of the conversion, stated and proved over its model:
//! balance of well-nested streams, offset monotonicity, the heading size
//! table, the separator policy, overlap of nested ranges, and link
//! completeness.

use vstd::prelude::*;

use crate::model::attributes_spec;
use crate::model::needs_break_spec;
use crate::model::AttributeModel;
use crate::model::TagModel;
use crate::model::LINK_COLOR;
use crate::render::code_attributes;
use crate::render::html_attributes;
use crate::render::initial_state;
use crate::render::render_spec;
use crate::render::run_spec;
use crate::render::separator;
use crate::render::step_spec;
use crate::render::EventModel;
use crate::render::OpenSpanModel;
use crate::render::RenderError;
use crate::render::RichTextModel;
use crate::render::StateModel;

verus! {

/// Attribute sets that can ever stand on a recorded range: the mapping
/// table's output for some tag, or one of the two atomic inline sets.
pub open spec fn known_range_attributes(attrs: Seq<AttributeModel>) -> bool {
    (exists|t: TagModel| attrs == attributes_spec(t)) || attrs == code_attributes() || attrs
        == html_attributes()
}

/// What holds of every reachable converter state: every recorded range
/// lies inside the text written so far with its start at or before its
/// end, range end offsets never decrease in recording order, every open
/// span starts inside the text, span start offsets never decrease from
/// the bottom of the stack to its top, and every recorded attribute set
/// is one the mapping can produce.
pub open spec fn state_invariant(s: StateModel) -> bool {
    &&& forall|i: int|
        0 <= i < s.ranges.len() ==> 0 <= (#[trigger] s.ranges[i]).start <= s.ranges[i].end
            <= s.text.len()
    &&& forall|i: int, j: int|
        0 <= i <= j < s.ranges.len() ==> (#[trigger] s.ranges[i]).end
            <= (#[trigger] s.ranges[j]).end
    &&& forall|i: int|
        0 <= i < s.stack.len() ==> 0 <= (#[trigger] s.stack[i]).start <= s.text.len()
    &&& forall|i: int, j: int|
        0 <= i <= j < s.stack.len() ==> (#[trigger] s.stack[i]).start
            <= (#[trigger] s.stack[j]).start
    &&& forall|i: int|
        0 <= i < s.ranges.len() ==> known_range_attributes((#[trigger] s.ranges[i]).attributes)
}

/// One step keeps the state invariant, and only ever extends the text.
pub proof fn lemma_step_preserves_invariant(s: StateModel, e: EventModel)
    requires
        state_invariant(s),
        step_spec(s, e) is Ok,
    ensures
        state_invariant(step_spec(s, e)->Ok_0),
        s.text.is_prefix_of(step_spec(s, e)->Ok_0.text),
{
    let s2 = step_spec(s, e)->Ok_0;
    match e {
        EventModel::Start(tag) => {
            assert(s.text.is_prefix_of(s2.text));
        }
        EventModel::Text(bytes) => {
            assert((s.text + bytes).subrange(0, s.text.len() as int) =~= s.text);
        }
        EventModel::End(tag) => {
            if attributes_spec(tag).len() > 0 {
                assert(attributes_spec(tag) == attributes_spec(tag));
                assert(known_range_attributes(attributes_spec(tag)));
            }
            if needs_break_spec(tag) {
                assert((s.text + separator()).subrange(0, s.text.len() as int) =~= s.text);
            } else {
                assert(s.text.subrange(0, s.text.len() as int) =~= s.text);
            }
        }
        EventModel::Code(bytes) => {
            assert(known_range_attributes(code_attributes()));
            assert((s.text + bytes).subrange(0, s.text.len() as int) =~= s.text);
        }
        EventModel::Html(bytes) => {
            assert(known_range_attributes(html_attributes()));
            assert((s.text + bytes).subrange(0, s.text.len() as int) =~= s.text);
        }
        EventModel::HardBreak => {
            assert((s.text + separator()).subrange(0, s.text.len() as int) =~= s.text);
        }
        EventModel::Ignored => {
            assert(s.text.subrange(0, s.text.len() as int) =~= s.text);
        }
    }
}

/// A whole run keeps the state invariant, and only ever extends the
/// text: offsets are never rewound and written text is never revisited.
pub proof fn lemma_run_preserves_invariant(s: StateModel, events: Seq<EventModel>)
    requires
        state_invariant(s),
        run_spec(s, events) is Ok,
    ensures
        state_invariant(run_spec(s, events)->Ok_0),
        s.text.is_prefix_of(run_spec(s, events)->Ok_0.text),
    decreases events.len(),
{
    if events.len() == 0 {
        assert(s.text.subrange(0, s.text.len() as int) =~= s.text);
    } else {
        let s2 = step_spec(s, events.first())->Ok_0;
        lemma_step_preserves_invariant(s, events.first());
        lemma_run_preserves_invariant(s2, events.drop_first());
        let fin = run_spec(s, events)->Ok_0;
        assert(s.text =~= fin.text.subrange(0, s.text.len() as int));
    }
}

/// The initial state satisfies the invariant.
pub proof fn lemma_initial_state_invariant()
    ensures
        state_invariant(initial_state()),
{
}

/// Folds only the open/close discipline of an event stream over a stack
/// of tags: the shape against which balance is judged, independent of
/// text, offsets and attributes.
pub open spec fn tag_nesting_run(stack: Seq<TagModel>, events: Seq<EventModel>) -> Option<
    Seq<TagModel>,
>
    decreases events.len(),
{
    if events.len() == 0 {
        Some(stack)
    } else {
        match events.first() {
            EventModel::Start(tag) => tag_nesting_run(stack.push(tag), events.drop_first()),
            EventModel::End(tag) => if stack.len() > 0 && stack.last() == tag {
                tag_nesting_run(stack.drop_last(), events.drop_first())
            } else {
                None
            },
            _ => tag_nesting_run(stack, events.drop_first()),
        }
    }
}

/// A well-nested event stream: every end event matches the innermost
/// open start event, and nothing stays open at the end.
pub open spec fn well_nested(events: Seq<EventModel>) -> bool {
    tag_nesting_run(Seq::empty(), events) == Some(Seq::<TagModel>::empty())
}

/// The tags of a stack of open spans, bottom to top.
pub open spec fn stack_tags(stack: Seq<OpenSpanModel>) -> Seq<TagModel> {
    stack.map_values(|o: OpenSpanModel| o.tag)
}

/// The conversion's stack follows the open/close discipline: whenever the
/// tag-only fold succeeds, the full run succeeds, and its stack carries
/// exactly the tags the fold leaves.
pub proof fn lemma_run_follows_nesting(s: StateModel, stack: Seq<TagModel>, events: Seq<EventModel>)
    requires
        stack_tags(s.stack) == stack,
        tag_nesting_run(stack, events) is Some,
    ensures
        run_spec(s, events) is Ok,
        stack_tags(run_spec(s, events)->Ok_0.stack) == tag_nesting_run(stack, events)->Some_0,
    decreases events.len(),
{
    if events.len() == 0 {
    } else {
        match events.first() {
            EventModel::Start(tag) => {
                let s2 = step_spec(s, events.first())->Ok_0;
                assert(stack_tags(s2.stack) =~= stack.push(tag));
                lemma_run_follows_nesting(s2, stack.push(tag), events.drop_first());
            }
            EventModel::End(tag) => {
                assert(stack.len() > 0 && stack.last() == tag);
                assert(s.stack.len() == stack.len());
                assert(stack_tags(s.stack)[s.stack.len() - 1] == s.stack.last().tag);
                assert(s.stack.last().tag == tag);
                let s2 = step_spec(s, events.first())->Ok_0;
                assert(stack_tags(s2.stack) =~= stack.drop_last());
                lemma_run_follows_nesting(s2, stack.drop_last(), events.drop_first());
            }
            EventModel::Text(_) => {
                let s2 = step_spec(s, events.first())->Ok_0;
                lemma_run_follows_nesting(s2, stack, events.drop_first());
            }
            EventModel::Code(_) => {
                let s2 = step_spec(s, events.first())->Ok_0;
                lemma_run_follows_nesting(s2, stack, events.drop_first());
            }
            EventModel::Html(_) => {
                let s2 = step_spec(s, events.first())->Ok_0;
                lemma_run_follows_nesting(s2, stack, events.drop_first());
            }
            EventModel::HardBreak => {
                let s2 = step_spec(s, events.first())->Ok_0;
                lemma_run_follows_nesting(s2, stack, events.drop_first());
            }
            EventModel::Ignored => {
                let s2 = step_spec(s, events.first())->Ok_0;
                lemma_run_follows_nesting(s2, stack, events.drop_first());
            }
        }
    }
}

/// Balance: a well-nested event stream converts without a fatal error,
/// with the open-span stack empty at completion.
pub proof fn lemma_balanced_stream_converts(events: Seq<EventModel>)
    requires
        well_nested(events),
    ensures
        render_spec(events) is Ok,
        run_spec(initial_state(), events) is Ok,
        run_spec(initial_state(), events)->Ok_0.stack.len() == 0,
{
    assert(stack_tags(initial_state().stack) =~= Seq::<TagModel>::empty());
    lemma_run_follows_nesting(initial_state(), Seq::empty(), events);
    let fin = run_spec(initial_state(), events)->Ok_0;
    assert(stack_tags(fin.stack).len() == fin.stack.len());
}

/// Offset monotonicity: in any conversion result, every range lies
/// inside the final text with its start at or before its end, and range
/// end offsets never decrease in recording order.
pub proof fn lemma_offset_monotonicity(events: Seq<EventModel>, rich: RichTextModel)
    requires
        render_spec(events) == Ok::<RichTextModel, RenderError>(rich),
    ensures
        forall|i: int|
            0 <= i < rich.ranges.len() ==> 0 <= (#[trigger] rich.ranges[i]).start
                <= rich.ranges[i].end <= rich.plain_text.len(),
        forall|i: int, j: int|
            0 <= i <= j < rich.ranges.len() ==> (#[trigger] rich.ranges[i]).end
                <= (#[trigger] rich.ranges[j]).end,
{
    lemma_run_preserves_invariant(initial_state(), events);
}

/// Separator policy: closing an inline style (emphasis, strong,
/// strikethrough, link) never appends a paragraph break; closing any
/// other tag appends exactly one two-byte break, not covered by the
/// closed span's range.
pub proof fn lemma_separator_policy(s: StateModel, tag: TagModel)
    requires
        step_spec(s, EventModel::End(tag)) is Ok,
    ensures
        (tag is Emphasis || tag is Strong || tag is Strikethrough || tag is Link) ==> step_spec(
            s,
            EventModel::End(tag),
        )->Ok_0.text == s.text,
        !(tag is Emphasis || tag is Strong || tag is Strikethrough || tag is Link) ==> step_spec(
            s,
            EventModel::End(tag),
        )->Ok_0.text == s.text + separator(),
{
}

/// Overlap of nested spans, at the moment the inner one closes: the
/// recorded range ends at the current cursor and starts at the innermost
/// open span's start, every enclosing span is still open, unchanged, and
/// starts at or before the inner range's start — so the range an
/// enclosing span records later covers the inner range.
pub proof fn lemma_nested_close_overlap(s: StateModel, tag: TagModel, k: int)
    requires
        state_invariant(s),
        step_spec(s, EventModel::End(tag)) is Ok,
        attributes_spec(tag).len() > 0,
        0 <= k < s.stack.len() - 1,
    ensures
        ({
            let s2 = step_spec(s, EventModel::End(tag))->Ok_0;
            let inner = s2.ranges.last();
            &&& s2.ranges.len() == s.ranges.len() + 1
            &&& inner.start == s.stack.last().start
            &&& inner.end == s.text.len()
            &&& inner.attributes == attributes_spec(tag)
            &&& s2.stack[k] == s.stack[k]
            &&& s2.stack[k].start <= inner.start
            &&& inner.end <= s2.text.len()
        }),
{
    assert(s.stack[k].start <= s.stack[s.stack.len() - 1].start);
}

/// Overlap, seen in the final output: a later range that starts at or
/// before an earlier one covers it entirely, since range ends only grow.
pub proof fn lemma_enclosing_range_covers(
    events: Seq<EventModel>,
    rich: RichTextModel,
    i: int,
    j: int,
)
    requires
        render_spec(events) == Ok::<RichTextModel, RenderError>(rich),
        0 <= i < j < rich.ranges.len(),
        rich.ranges[j].start <= rich.ranges[i].start,
    ensures
        rich.ranges[j].start <= rich.ranges[i].start,
        rich.ranges[i].end <= rich.ranges[j].end,
{
    lemma_offset_monotonicity(events, rich);
}

/// Heading size table: each heading level maps to exactly its font size,
/// in points, together with the bold weight.
pub proof fn lemma_heading_size_table()
    ensures
        attributes_spec(TagModel::Heading(1)) == seq![
            AttributeModel::FontSize(38),
            AttributeModel::WeightBold,
        ],
        attributes_spec(TagModel::Heading(2)) == seq![
            AttributeModel::FontSize(32),
            AttributeModel::WeightBold,
        ],
        attributes_spec(TagModel::Heading(3)) == seq![
            AttributeModel::FontSize(26),
            AttributeModel::WeightBold,
        ],
        attributes_spec(TagModel::Heading(4)) == seq![
            AttributeModel::FontSize(20),
            AttributeModel::WeightBold,
        ],
        attributes_spec(TagModel::Heading(5)) == seq![
            AttributeModel::FontSize(16),
            AttributeModel::WeightBold,
        ],
        attributes_spec(TagModel::Heading(6)) == seq![
            AttributeModel::FontSize(12),
            AttributeModel::WeightBold,
        ],
{
}

/// Link attributes: a link tag maps to underline, the link color, and an
/// action carrying the tag's target verbatim.
pub proof fn lemma_link_attributes(target: Seq<u8>, title: Seq<u8>)
    ensures
        attributes_spec(TagModel::Link { target, title }) == seq![
            AttributeModel::Underline(true),
            AttributeModel::TextColor(LINK_COLOR),
            AttributeModel::LinkAction(target),
        ],
{
}

/// Link completeness: any recorded range that carries a link action
/// carries the full link attribute set — underline, the link color, and
/// that action's target verbatim — and nothing else.
pub proof fn lemma_link_completeness(
    events: Seq<EventModel>,
    rich: RichTextModel,
    i: int,
    target: Seq<u8>,
)
    requires
        render_spec(events) == Ok::<RichTextModel, RenderError>(rich),
        0 <= i < rich.ranges.len(),
        rich.ranges[i].attributes.contains(AttributeModel::LinkAction(target)),
    ensures
        rich.ranges[i].attributes == seq![
            AttributeModel::Underline(true),
            AttributeModel::TextColor(LINK_COLOR),
            AttributeModel::LinkAction(target),
        ],
{
    lemma_run_preserves_invariant(initial_state(), events);
    let attrs = rich.ranges[i].attributes;
    assert(known_range_attributes(attrs));
    let action = AttributeModel::LinkAction(target);
    let k = choose|k: int| 0 <= k < attrs.len() && attrs[k] == action;
    assert(0 <= k < attrs.len() && attrs[k] == action);
    if attrs == code_attributes() {
        assert(attrs[k] == AttributeModel::MonospaceFamily);
        assert(false);
    } else if attrs == html_attributes() {
        assert(attrs[k] == AttributeModel::MonospaceFamily || attrs[k]
            == AttributeModel::TextColor(crate::model::BLOCKQUOTE_COLOR));
        assert(false);
    } else {
        let t = choose|t: TagModel| attrs == attributes_spec(t);
        assert(attrs == attributes_spec(t));
        match t {
            TagModel::Heading(_) => {
                assert(k == 0 || k == 1);
                assert(false);
            }
            TagModel::BlockQuote => {
                assert(k == 0 || k == 1);
                assert(false);
            }
            TagModel::CodeBlock => {
                assert(k == 0);
                assert(false);
            }
            TagModel::Emphasis => {
                assert(k == 0);
                assert(false);
            }
            TagModel::Strong => {
                assert(k == 0);
                assert(false);
            }
            TagModel::Strikethrough => {
                assert(k == 0);
                assert(false);
            }
            TagModel::Link { target: found, title: _ } => {
                assert(k == 0 || k == 1 || k == 2);
                assert(attrs[2] == AttributeModel::LinkAction(found));
                assert(k == 2);
                assert(found == target);
            }
            TagModel::Other => {
                assert(false);
            }
        }
    }
}

} // verus!

