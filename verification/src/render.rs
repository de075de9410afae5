//! The conversion itself: a last-in-first-out tracker of open spans, a
//! plain-text buffer with its write cursor, an attribute range recorder,
//! and the assembler that turns the three into one immutable rich-text
//! value.
//!
//! The whole pass is modelled by the spec functions `step_spec` and
//! `run_spec`: one state transition per structural event, folded over the
//! event stream. The executable converter is proved to follow that model
//! exactly, error cases included.

use vstd::prelude::*;

use crate::model::AttributeModel;
use crate::model::StyleAttribute;
use crate::model::TagDescriptor;
use crate::model::TagModel;
use crate::model::attribute_seq_model;
use crate::model::attributes_for;
use crate::model::attributes_spec;
use crate::model::needs_break_after;
use crate::model::needs_break_spec;
use crate::model::tag_eq;
use crate::model::BLOCKQUOTE_COLOR;

verus! {

/// One structural event from the markdown tokenizer.
///
/// Text payloads are byte buffers: offsets into the output count bytes,
/// and nothing is stripped, escaped or re-encoded on the way through.
/// `Ignored` stands for the event kinds that carry no visible content
/// here (soft breaks, rules, footnote references, task markers).
#[derive(Debug, PartialEq, Eq)]
pub enum MarkdownEvent {
    Start(TagDescriptor),
    End(TagDescriptor),
    Text(Vec<u8>),
    Code(Vec<u8>),
    Html(Vec<u8>),
    HardBreak,
    Ignored,
}

/// The mathematical model of a `MarkdownEvent`.
#[verifier::ext_equal]
pub enum EventModel {
    Start(TagModel),
    End(TagModel),
    Text(Seq<u8>),
    Code(Seq<u8>),
    Html(Seq<u8>),
    HardBreak,
    Ignored,
}

impl View for MarkdownEvent {
    type V = EventModel;

    open spec fn view(&self) -> EventModel {
        match self {
            MarkdownEvent::Start(tag) => EventModel::Start(tag@),
            MarkdownEvent::End(tag) => EventModel::End(tag@),
            MarkdownEvent::Text(bytes) => EventModel::Text(bytes@),
            MarkdownEvent::Code(bytes) => EventModel::Code(bytes@),
            MarkdownEvent::Html(bytes) => EventModel::Html(bytes@),
            MarkdownEvent::HardBreak => EventModel::HardBreak,
            MarkdownEvent::Ignored => EventModel::Ignored,
        }
    }
}

/// The model of an event sequence.
pub open spec fn event_seq_model(events: Seq<MarkdownEvent>) -> Seq<EventModel> {
    events.map_values(|e: MarkdownEvent| e@)
}

/// A span that has been opened and not yet closed: where it started, and
/// which tag opened it.
#[derive(Debug)]
pub struct OpenSpan {
    pub start: usize,
    pub tag: TagDescriptor,
}

/// The mathematical model of an `OpenSpan`.
#[verifier::ext_equal]
pub struct OpenSpanModel {
    pub start: int,
    pub tag: TagModel,
}

impl View for OpenSpan {
    type V = OpenSpanModel;

    open spec fn view(&self) -> OpenSpanModel {
        OpenSpanModel { start: self.start as int, tag: self.tag@ }
    }
}

/// A visual style applied over a half-open byte range of the plain text.
/// Ranges may overlap: nested spans each record their own.
#[derive(Debug, PartialEq, Eq)]
pub struct AttributeRange {
    pub start: usize,
    pub end: usize,
    pub attributes: Vec<StyleAttribute>,
}

/// The mathematical model of an `AttributeRange`.
#[verifier::ext_equal]
pub struct RangeModel {
    pub start: int,
    pub end: int,
    pub attributes: Seq<AttributeModel>,
}

impl View for AttributeRange {
    type V = RangeModel;

    open spec fn view(&self) -> RangeModel {
        RangeModel {
            start: self.start as int,
            end: self.end as int,
            attributes: attribute_seq_model(self.attributes@),
        }
    }
}

/// The immutable artifact of one conversion: the accumulated plain text
/// and the attribute ranges in the order they were closed.
#[derive(Debug, PartialEq, Eq)]
pub struct RichText {
    pub plain_text: Vec<u8>,
    pub ranges: Vec<AttributeRange>,
}

/// The mathematical model of a `RichText`.
#[verifier::ext_equal]
pub struct RichTextModel {
    pub plain_text: Seq<u8>,
    pub ranges: Seq<RangeModel>,
}

impl View for RichText {
    type V = RichTextModel;

    open spec fn view(&self) -> RichTextModel {
        RichTextModel {
            plain_text: self.plain_text@,
            ranges: self.ranges@.map_values(|r: AttributeRange| r@),
        }
    }
}

/// Why a conversion was aborted: an end event with no open span, an end
/// event whose tag differs from the top of the stack, or open spans left
/// at the end of the stream.
#[derive(Clone, Copy, Debug, PartialEq, Eq)]
pub enum RenderError {
    EndWithoutStart,
    TagMismatch,
    UnclosedTag,
}

/// The converter state mid-stream: text so far, ranges recorded so far,
/// and the stack of open spans.
#[verifier::ext_equal]
pub struct StateModel {
    pub text: Seq<u8>,
    pub ranges: Seq<RangeModel>,
    pub stack: Seq<OpenSpanModel>,
}

/// The two bytes of a paragraph break.
pub open spec fn separator() -> Seq<u8> {
    seq![10u8, 10u8]
}

/// The attributes of an inline code span.
pub open spec fn code_attributes() -> Seq<AttributeModel> {
    seq![AttributeModel::MonospaceFamily]
}

/// The attributes of a raw inline markup span.
pub open spec fn html_attributes() -> Seq<AttributeModel> {
    seq![AttributeModel::MonospaceFamily, AttributeModel::TextColor(BLOCKQUOTE_COLOR)]
}

/// The state every conversion starts from: nothing written, nothing
/// recorded, nothing open.
pub open spec fn initial_state() -> StateModel {
    StateModel { text: Seq::empty(), ranges: Seq::empty(), stack: Seq::empty() }
}

/// One state transition of the conversion, per structural event.
///
/// A start event pushes an open span at the current cursor. A text event
/// appends its bytes. An end event pops its matching span, records a
/// range over it when the tag maps to any attributes, and appends a
/// paragraph break when the tag is block-level; an unmatched or
/// mismatched end event aborts. Inline code and raw markup append their
/// bytes and record a range directly; a hard break appends a bare
/// separator.
pub open spec fn step_spec(s: StateModel, e: EventModel) -> Result<StateModel, RenderError> {
    match e {
        EventModel::Start(tag) => Ok(StateModel {
            stack: s.stack.push(OpenSpanModel { start: s.text.len() as int, tag }),
            ..s
        }),
        EventModel::Text(bytes) => Ok(StateModel { text: s.text + bytes, ..s }),
        EventModel::End(tag) => {
            if s.stack.len() == 0 {
                Err(RenderError::EndWithoutStart)
            } else if s.stack.last().tag != tag {
                Err(RenderError::TagMismatch)
            } else {
                let closed = s.stack.last();
                let ranges = if attributes_spec(tag).len() > 0 {
                    s.ranges.push(RangeModel {
                        start: closed.start,
                        end: s.text.len() as int,
                        attributes: attributes_spec(tag),
                    })
                } else {
                    s.ranges
                };
                let text = if needs_break_spec(tag) {
                    s.text + separator()
                } else {
                    s.text
                };
                Ok(StateModel { text, ranges, stack: s.stack.drop_last() })
            }
        }
        EventModel::Code(bytes) => Ok(StateModel {
            text: s.text + bytes,
            ranges: s.ranges.push(RangeModel {
                start: s.text.len() as int,
                end: s.text.len() + bytes.len() as int,
                attributes: code_attributes(),
            }),
            ..s
        }),
        EventModel::Html(bytes) => Ok(StateModel {
            text: s.text + bytes,
            ranges: s.ranges.push(RangeModel {
                start: s.text.len() as int,
                end: s.text.len() + bytes.len() as int,
                attributes: html_attributes(),
            }),
            ..s
        }),
        EventModel::HardBreak => Ok(StateModel { text: s.text + separator(), ..s }),
        EventModel::Ignored => Ok(s),
    }
}

/// Folds `step_spec` over an event sequence, stopping at the first
/// failure.
pub open spec fn run_spec(s: StateModel, events: Seq<EventModel>) -> Result<
    StateModel,
    RenderError,
>
    decreases events.len(),
{
    if events.len() == 0 {
        Ok(s)
    } else {
        match step_spec(s, events.first()) {
            Ok(next) => run_spec(next, events.drop_first()),
            Err(e) => Err(e),
        }
    }
}

/// What a whole conversion returns for a given event sequence: the
/// assembled rich text when every span was closed, the abort reason
/// otherwise.
pub open spec fn render_spec(events: Seq<EventModel>) -> Result<RichTextModel, RenderError> {
    match run_spec(initial_state(), events) {
        Err(e) => Err(e),
        Ok(s) => if s.stack.len() == 0 {
            Ok(RichTextModel { plain_text: s.text, ranges: s.ranges })
        } else {
            Err(RenderError::UnclosedTag)
        },
    }
}

/// The model of a conversion result.
pub open spec fn result_model(r: Result<RichText, RenderError>) -> Result<
    RichTextModel,
    RenderError,
> {
    match r {
        Ok(rich) => Ok(rich@),
        Err(e) => Err(e),
    }
}

/// The converter: accumulates plain text, records attribute ranges, and
/// tracks open spans in last-in-first-out order.
pub struct Converter {
    text: Vec<u8>,
    ranges: Vec<AttributeRange>,
    stack: Vec<OpenSpan>,
}

impl View for Converter {
    type V = StateModel;

    closed spec fn view(&self) -> StateModel {
        StateModel {
            text: self.text@,
            ranges: self.ranges@.map_values(|r: AttributeRange| r@),
            stack: self.stack@.map_values(|o: OpenSpan| o@),
        }
    }
}

impl Converter {
    /// A fresh converter in the initial state.
    pub fn new() -> (out: Converter)
        ensures
            out@ == initial_state(),
    {
        let out = Converter { text: Vec::new(), ranges: Vec::new(), stack: Vec::new() };
        proof {
            assert(out@ =~= initial_state());
        }
        out
    }

    /// The current write cursor: the byte length of the text so far.
    pub fn current_offset(&self) -> (offset: usize)
        ensures
            offset == self@.text.len(),
    {
        self.text.len()
    }

    /// Appends bytes to the plain-text buffer and returns the half-open
    /// byte range they occupy; ranges and stack are untouched.
    pub fn append_text(&mut self, bytes: &Vec<u8>) -> (range: (usize, usize))
        ensures
            final(self)@.text == old(self)@.text + bytes@,
            final(self)@.ranges == old(self)@.ranges,
            final(self)@.stack == old(self)@.stack,
            range.0 == old(self)@.text.len(),
            range.1 == final(self)@.text.len(),
    {
        let start = self.text.len();
        let mut i: usize = 0;
        while i < bytes.len()
            invariant
                0 <= i <= bytes.len(),
                self.text@ == old(self).text@ + bytes@.take(i as int),
                self.ranges == old(self).ranges,
                self.stack == old(self).stack,
            decreases bytes.len() - i,
        {
            self.text.push(bytes[i]);
            proof {
                assert(self.text@ =~= old(self).text@ + bytes@.take(i as int + 1));
            }
            i = i + 1;
        }
        proof {
            assert(self.text@ =~= old(self).text@ + bytes@);
        }
        let end = self.text.len();
        (start, end)
    }

    /// Appends the two-byte paragraph break; ranges and stack are
    /// untouched.
    pub fn append_separator(&mut self)
        ensures
            final(self)@.text == old(self)@.text + separator(),
            final(self)@.ranges == old(self)@.ranges,
            final(self)@.stack == old(self)@.stack,
    {
        self.text.push(10);
        self.text.push(10);
        proof {
            assert(self.text@ =~= old(self).text@ + separator());
        }
    }

    /// Pushes an open span for the tag at the current cursor.
    pub fn on_start(&mut self, tag: TagDescriptor)
        ensures
            final(self)@.text == old(self)@.text,
            final(self)@.ranges == old(self)@.ranges,
            final(self)@.stack == old(self)@.stack.push(
                OpenSpanModel { start: old(self)@.text.len() as int, tag: tag@ },
            ),
    {
        let start = self.text.len();
        let ghost tag_model = tag@;
        self.stack.push(OpenSpan { start, tag });
        proof {
            assert(self@.stack =~= old(self)@.stack.push(
                OpenSpanModel { start: old(self)@.text.len() as int, tag: tag_model },
            ));
        }
    }

    /// Appends the bytes of an atomic inline event and records the given
    /// attributes over exactly that range.
    pub fn append_inline(&mut self, bytes: &Vec<u8>, attributes: Vec<StyleAttribute>)
        ensures
            final(self)@.text == old(self)@.text + bytes@,
            final(self)@.ranges == old(self)@.ranges.push(
                RangeModel {
                    start: old(self)@.text.len() as int,
                    end: old(self)@.text.len() + bytes@.len() as int,
                    attributes: attribute_seq_model(attributes@),
                },
            ),
            final(self)@.stack == old(self)@.stack,
    {
        let ghost attrs_model = attribute_seq_model(attributes@);
        let (start, end) = self.append_text(bytes);
        self.ranges.push(AttributeRange { start, end, attributes });
        proof {
            assert(self@.ranges =~= old(self)@.ranges.push(
                RangeModel {
                    start: old(self)@.text.len() as int,
                    end: old(self)@.text.len() + bytes@.len() as int,
                    attributes: attrs_model,
                },
            ));
        }
    }

    /// Closes the topmost span: checks that it matches the given end tag,
    /// records its attribute range when the tag maps to any attributes,
    /// and appends a paragraph break when the tag is block-level. An
    /// unmatched or mismatched end tag aborts and leaves the state as it
    /// was.
    pub fn on_end(&mut self, tag: &TagDescriptor) -> (outcome: Result<(), RenderError>)
        ensures
            match outcome {
                Ok(()) => step_spec(old(self)@, EventModel::End(tag@)) == Ok::<
                    StateModel,
                    RenderError,
                >(final(self)@),
                Err(e) => step_spec(old(self)@, EventModel::End(tag@)) == Err::<
                    StateModel,
                    RenderError,
                >(e) && final(self)@ == old(self)@,
            },
    {
        if self.stack.len() == 0 {
            return Err(RenderError::EndWithoutStart);
        }
        let top = &self.stack[self.stack.len() - 1];
        if !tag_eq(&top.tag, tag) {
            return Err(RenderError::TagMismatch);
        }
        let closed = self.stack.pop().unwrap();
        proof {
            assert(self@.stack =~= old(self)@.stack.drop_last());
            assert(old(self)@.stack.last() == closed@);
        }
        let attributes = attributes_for(tag);
        if attributes.len() > 0 {
            let end = self.text.len();
            self.ranges.push(AttributeRange { start: closed.start, end, attributes });
            proof {
                assert(self@.ranges =~= old(self)@.ranges.push(
                    RangeModel {
                        start: closed@.start,
                        end: old(self)@.text.len() as int,
                        attributes: attributes_spec(tag@),
                    },
                ));
            }
        } else {
            proof {
                assert(attributes_spec(tag@).len() == 0);
            }
        }
        if needs_break_after(tag) {
            self.append_separator();
        }
        proof {
            assert(step_spec(old(self)@, EventModel::End(tag@)) == Ok::<
                StateModel,
                RenderError,
            >(self@));
        }
        Ok(())
    }

    /// Advances the conversion by one structural event; on failure the
    /// state is left as it was.
    pub fn handle_event(&mut self, event: &MarkdownEvent) -> (outcome: Result<(), RenderError>)
        ensures
            match outcome {
                Ok(()) => step_spec(old(self)@, event@) == Ok::<StateModel, RenderError>(
                    final(self)@,
                ),
                Err(e) => step_spec(old(self)@, event@) == Err::<StateModel, RenderError>(e)
                    && final(self)@ == old(self)@,
            },
    {
        match event {
            MarkdownEvent::Start(tag) => {
                self.on_start(tag.clone());
                proof {
                    assert(step_spec(old(self)@, event@) == Ok::<StateModel, RenderError>(self@));
                }
                Ok(())
            }
            MarkdownEvent::Text(bytes) => {
                self.append_text(bytes);
                proof {
                    assert(step_spec(old(self)@, event@) == Ok::<StateModel, RenderError>(self@));
                }
                Ok(())
            }
            MarkdownEvent::End(tag) => self.on_end(tag),
            MarkdownEvent::Code(bytes) => {
                let mut attributes: Vec<StyleAttribute> = Vec::new();
                attributes.push(StyleAttribute::MonospaceFamily);
                proof {
                    assert(attribute_seq_model(attributes@) =~= code_attributes());
                }
                self.append_inline(bytes, attributes);
                proof {
                    assert(step_spec(old(self)@, event@) == Ok::<StateModel, RenderError>(self@));
                }
                Ok(())
            }
            MarkdownEvent::Html(bytes) => {
                let mut attributes: Vec<StyleAttribute> = Vec::new();
                attributes.push(StyleAttribute::MonospaceFamily);
                attributes.push(StyleAttribute::TextColor(BLOCKQUOTE_COLOR));
                proof {
                    assert(attribute_seq_model(attributes@) =~= html_attributes());
                }
                self.append_inline(bytes, attributes);
                proof {
                    assert(step_spec(old(self)@, event@) == Ok::<StateModel, RenderError>(self@));
                }
                Ok(())
            }
            MarkdownEvent::HardBreak => {
                self.append_separator();
                proof {
                    assert(step_spec(old(self)@, event@) == Ok::<StateModel, RenderError>(self@));
                }
                Ok(())
            }
            MarkdownEvent::Ignored => {
                Ok(())
            }
        }
    }

    /// Assembles the rich-text value. Open spans left on the stack mean
    /// the event stream was unbalanced: the conversion fails rather than
    /// emit an inconsistent value.
    pub fn finish(self) -> (outcome: Result<RichText, RenderError>)
        ensures
            match outcome {
                Ok(rich) => self@.stack.len() == 0 && rich@ == (RichTextModel {
                    plain_text: self@.text,
                    ranges: self@.ranges,
                }),
                Err(e) => self@.stack.len() != 0 && e == RenderError::UnclosedTag,
            },
    {
        let Converter { text, ranges, stack } = self;
        if stack.len() != 0 {
            return Err(RenderError::UnclosedTag);
        }
        let rich = RichText { plain_text: text, ranges };
        proof {
            assert(rich@ =~= RichTextModel { plain_text: self@.text, ranges: self@.ranges });
        }
        Ok(rich)
    }
}

/// Running a fold over concatenated event sequences runs the two parts in
/// order, stopping at the first failure.
pub proof fn lemma_run_spec_app(s: StateModel, a: Seq<EventModel>, b: Seq<EventModel>)
    ensures
        run_spec(s, a + b) == match run_spec(s, a) {
            Ok(mid) => run_spec(mid, b),
            Err(e) => Err(e),
        },
    decreases a.len(),
{
    if a.len() == 0 {
        assert(a + b =~= b);
    } else {
        assert((a + b).first() == a.first());
        assert((a + b).drop_first() =~= a.drop_first() + b);
        match step_spec(s, a.first()) {
            Ok(next) => {
                lemma_run_spec_app(next, a.drop_first(), b);
            }
            Err(_) => {}
        }
    }
}

/// Converts a whole event stream into one rich-text value, exactly as
/// `render_spec` states: the assembled text and ranges when the stream is
/// well-nested, the abort reason otherwise.
pub fn render_events(events: &Vec<MarkdownEvent>) -> (outcome: Result<RichText, RenderError>)
    ensures
        result_model(outcome) == render_spec(event_seq_model(events@)),
{
    broadcast use vstd::seq_lib::group_seq_properties;

    let ghost all = event_seq_model(events@);
    let mut conv = Converter::new();
    let mut i: usize = 0;
    while i < events.len()
        invariant
            0 <= i <= events.len(),
            all == event_seq_model(events@),
            all.len() == events@.len(),
            run_spec(initial_state(), all.take(i as int)) == Ok::<StateModel, RenderError>(conv@),
        decreases events.len() - i,
    {
        let event = &events[i];
        let ghost before = conv@;
        match conv.handle_event(event) {
            Ok(()) => {
                proof {
                    assert(all[i as int] == event@);
                    assert(all.take(i as int + 1) =~= all.take(i as int) + seq![all[i as int]]);
                    lemma_run_spec_app(initial_state(), all.take(i as int), seq![all[i as int]]);
                    assert(run_spec(before, seq![all[i as int]]) == run_spec(
                        step_spec(before, all[i as int])->Ok_0,
                        seq![all[i as int]].drop_first(),
                    ));
                    assert(seq![all[i as int]].drop_first() =~= Seq::<EventModel>::empty());
                }
                i = i + 1;
            }
            Err(e) => {
                proof {
                    assert(all[i as int] == event@);
                    assert(all =~= all.take(i as int) + all.skip(i as int));
                    lemma_run_spec_app(initial_state(), all.take(i as int), all.skip(i as int));
                    assert(all.skip(i as int).first() == all[i as int]);
                    assert(run_spec(initial_state(), all) == Err::<StateModel, RenderError>(e));
                }
                return Err(e);
            }
        }
    }
    proof {
        assert(all.take(events@.len() as int) =~= all);
    }
    conv.finish()
}

} // verus!
