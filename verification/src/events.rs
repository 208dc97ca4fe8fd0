//! The events that extraction reads, and how the tokenizer's events are
//! reduced to them.

use pulldown_cmark::{CodeBlockKind, Event, Parser, Tag, TagEnd};
use std::ops::Range;
use vstd::prelude::*;
use vstd::string::StringSliceAdditionalSpecFns;
use crate::fence::{closes_with_fence, find_line_end, has_closing_fence, line_end, OpenFence};

verus! {

/// One event of the stream that the extractor consumes.
#[derive(Debug, PartialEq, Eq)]
pub enum BlockEvent {
    /// A code block starts. The info string is empty for an indented block.
    FenceOpen(String),
    /// The code block ends.
    FenceClose,
    /// A fragment of text.
    Text(String),
}

/// A `BlockEvent` as contracts see it.
pub enum BlockEventView {
    FenceOpen(Seq<char>),
    FenceClose,
    Text(Seq<char>),
}

impl View for BlockEvent {
    type V = BlockEventView;

    open spec fn view(&self) -> BlockEventView {
        match self {
            BlockEvent::FenceOpen(info) => BlockEventView::FenceOpen(info@),
            BlockEvent::FenceClose => BlockEventView::FenceClose,
            BlockEvent::Text(fragment) => BlockEventView::Text(fragment@),
        }
    }
}

impl DeepView for BlockEvent {
    type V = BlockEventView;

    open spec fn deep_view(&self) -> BlockEventView {
        self@
    }
}

/// One event of the Markdown tokenizer, as far as extraction tells its events
/// apart. `start` and `end` give the place in the text, in bytes, that the
/// tokenizer reports for the event.
#[derive(Debug, PartialEq, Eq)]
pub enum MarkupEvent {
    /// A fenced code block starts, with this info string. The place is that of
    /// the whole block.
    FencedCodeStart { info: String, start: usize, end: usize },
    /// An indented code block starts.
    IndentedCodeStart,
    /// A code block ends.
    CodeEnd,
    /// A text node.
    Text { text: String, start: usize, end: usize },
    /// Any other event: a heading, a list, emphasis, a line break and so on.
    Other,
}

/// A `MarkupEvent` as contracts see it.
pub enum MarkupEventView {
    FencedCodeStart { info: Seq<char>, start: usize, end: usize },
    IndentedCodeStart,
    CodeEnd,
    Text { text: Seq<char>, start: usize, end: usize },
    Other,
}

impl View for MarkupEvent {
    type V = MarkupEventView;

    open spec fn view(&self) -> MarkupEventView {
        match self {
            MarkupEvent::FencedCodeStart { info, start, end } => MarkupEventView::FencedCodeStart {
                info: info@,
                start: *start,
                end: *end,
            },
            MarkupEvent::IndentedCodeStart => MarkupEventView::IndentedCodeStart,
            MarkupEvent::CodeEnd => MarkupEventView::CodeEnd,
            MarkupEvent::Text { text, start, end } => MarkupEventView::Text {
                text: text@,
                start: *start,
                end: *end,
            },
            MarkupEvent::Other => MarkupEventView::Other,
        }
    }
}

impl DeepView for MarkupEvent {
    type V = MarkupEventView;

    open spec fn deep_view(&self) -> MarkupEventView {
        self@
    }
}

/// The events that `pulldown_cmark::Parser::new(text)` yields through
/// `into_offset_iter`, in order, each with its place in the text and reduced
/// to a `MarkupEvent`.
pub uninterp spec fn markup_events(text: Seq<char>) -> Seq<MarkupEventView>;

/// Runs `pulldown_cmark::Parser::new` on `text`, with no option enabled,
/// through `Parser::into_offset_iter` to its end and hands out its events in
/// order, one `MarkupEvent` for each, with the place that the parser gives.
///
/// Not proved: that these are `markup_events` of the text, that is, that
/// nothing but the text decides what the parser yields. Which events a given
/// text yields, and with which places, is left to the parser and stated
/// nowhere.
#[verifier::external_body]
pub(crate) fn tokenize(text: &str) -> (events: Vec<MarkupEvent>)
    ensures
        events.deep_view() == markup_events(text@),
{
    Parser::new(text).into_offset_iter().map(
        |(event, Range { start, end })| match event {
            Event::Start(Tag::CodeBlock(CodeBlockKind::Fenced(info))) => {
                MarkupEvent::FencedCodeStart { info: info.to_string(), start, end }
            },
            Event::Start(Tag::CodeBlock(CodeBlockKind::Indented)) => MarkupEvent::IndentedCodeStart,
            Event::End(TagEnd::CodeBlock) => MarkupEvent::CodeEnd,
            Event::Text(text) => MarkupEvent::Text { text: text.to_string(), start, end },
            _ => MarkupEvent::Other,
        },
    ).collect()
}

/// How far a run of tokenizer events has been surfaced: the fenced block that
/// stands open, if any, and the events handed to the extractor so far.
pub struct SurfaceView {
    pub fence: Option<OpenFence>,
    pub events: Seq<BlockEventView>,
}

/// Nothing surfaced yet.
pub open spec fn nothing_surfaced() -> SurfaceView {
    SurfaceView { fence: None, events: Seq::empty() }
}

/// What one more tokenizer event adds to what was surfaced.
///
/// A code block that starts is surfaced as a fence that opens, an indented
/// one with the empty info string. Text is surfaced as it is, and where a
/// fenced block stands open, the block's text now reaches to the end of this
/// text. The end of a code block is surfaced as a fence that closes, but for
/// a fenced block without a closing fence line: its end is not surfaced, so
/// that the extractor sees the block as what it is, left open. Nothing else is
/// surfaced.
pub open spec fn surface_step(bytes: Seq<u8>, state: SurfaceView, event: MarkupEventView) -> SurfaceView {
    match event {
        MarkupEventView::FencedCodeStart { info, start, end } => SurfaceView {
            fence: Some(
                OpenFence {
                    start: start as int,
                    content_end: line_end(bytes, start as int),
                    end: end as int,
                },
            ),
            events: state.events.push(BlockEventView::FenceOpen(info)),
        },
        MarkupEventView::IndentedCodeStart => SurfaceView {
            fence: None,
            events: state.events.push(BlockEventView::FenceOpen(Seq::empty())),
        },
        MarkupEventView::Text { text, start, end } => SurfaceView {
            fence: match state.fence {
                Some(fence) => Some(
                    OpenFence { start: fence.start, content_end: end as int, end: fence.end },
                ),
                None => None,
            },
            events: state.events.push(BlockEventView::Text(text)),
        },
        MarkupEventView::CodeEnd => SurfaceView {
            fence: None,
            events: if state.fence is Some && !has_closing_fence(bytes, state.fence->0) {
                state.events
            } else {
                state.events.push(BlockEventView::FenceClose)
            },
        },
        MarkupEventView::Other => state,
    }
}

/// What is surfaced of `markup`, a run of tokenizer events on the text with
/// the bytes `bytes`, after `state`.
pub open spec fn surfaced_after(
    bytes: Seq<u8>,
    state: SurfaceView,
    markup: Seq<MarkupEventView>,
) -> SurfaceView
    decreases markup.len(),
{
    if markup.len() == 0 {
        state
    } else {
        surface_step(bytes, surfaced_after(bytes, state, markup.drop_last()), markup.last())
    }
}

/// The stream that the extractor gets to see of `markup`, the tokenizer's
/// events on the text with the bytes `bytes`.
pub open spec fn block_events(bytes: Seq<u8>, markup: Seq<MarkupEventView>) -> Seq<BlockEventView> {
    surfaced_after(bytes, nothing_surfaced(), markup).events
}

/// Reduces the tokenizer's events on `text` to the stream that the extractor
/// consumes.
pub fn surface(text: &str, markup: Vec<MarkupEvent>) -> (events: Vec<BlockEvent>)
    ensures
        events.deep_view() == block_events(text.spec_bytes(), markup.deep_view()),
{
    let bytes = text.as_bytes();
    let ghost all = markup.deep_view();
    let ghost mut state = nothing_surfaced();
    let mut events: Vec<BlockEvent> = Vec::new();
    let mut fenced: bool = false;
    let mut fence_start: usize = 0;
    let mut content_end: usize = 0;
    let mut fence_end: usize = 0;
    for event in it: markup.into_iter()
        invariant
            bytes@ == text.spec_bytes(),
            it.seq().len() == all.len(),
            forall|k: int| 0 <= k < all.len() ==> (#[trigger] it.seq()[k])@ == all[k],
            state == surfaced_after(bytes@, nothing_surfaced(), all.take(it.index() as int)),
            events.deep_view() == state.events,
            state.fence == (if fenced {
                Some(
                    OpenFence {
                        start: fence_start as int,
                        content_end: content_end as int,
                        end: fence_end as int,
                    },
                )
            } else {
                None
            }),
    {
        assert(all.take(it.index() + 1).drop_last() == all.take(it.index() as int));
        proof {
            state = surface_step(bytes@, state, event@);
        }
        match event {
            MarkupEvent::FencedCodeStart { info, start, end } => {
                fenced = true;
                fence_start = start;
                content_end = find_line_end(bytes, start);
                fence_end = end;
                events.push(BlockEvent::FenceOpen(info));
            },
            MarkupEvent::IndentedCodeStart => {
                fenced = false;
                events.push(BlockEvent::FenceOpen(String::new()));
            },
            MarkupEvent::Text { text, end, .. } => {
                content_end = end;
                events.push(BlockEvent::Text(text));
            },
            MarkupEvent::CodeEnd => {
                if !fenced || closes_with_fence(bytes, fence_start, content_end, fence_end) {
                    events.push(BlockEvent::FenceClose);
                }
                fenced = false;
            },
            MarkupEvent::Other => {},
        }
    }
    assert(all.take(all.len() as int) == all);
    events
}

} // verus!
