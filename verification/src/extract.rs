//! The extractor: a machine with two states, outside a code block and inside
//! one, that turns a stream of block events into code block records.

use vstd::prelude::*;
use vstd::string::StringExecFns;
use vstd::utf8::encode_utf8;
use crate::block::{CodeBlock, CodeBlockView};
use crate::classify::{classify, info_filename, info_language};
use crate::events::{block_events, markup_events, surface, tokenize, BlockEvent, BlockEventView};

verus! {

/// The state of an extraction as contracts see it.
pub struct ExtractorView {
    /// Inside a code block: the block as far as it has been read. `None`
    /// outside.
    pub current: Option<CodeBlockView>,
    /// The blocks that were closed so far, in the order of their closing.
    pub blocks: Seq<CodeBlockView>,
}

/// The state before any event: outside, with no block.
pub open spec fn initial_state() -> ExtractorView {
    ExtractorView { current: None, blocks: Seq::empty() }
}

/// The block that a fence with this info string opens: tagged as the info
/// string declares, and empty.
pub open spec fn opened_block(info: Seq<char>) -> CodeBlockView {
    CodeBlockView {
        filename: info_filename(info),
        language: info_language(info),
        content: Seq::empty(),
    }
}

/// The state that follows `state` on `event`.
///
/// A fence that opens starts a block; one that opens inside a block starts
/// over, and what was read of the unfinished block is dropped. Text inside a
/// block is appended to it as it is; text outside is passed over. A fence that
/// closes hands the block over to the output; outside a block it does nothing.
pub open spec fn next_state(state: ExtractorView, event: BlockEventView) -> ExtractorView {
    match event {
        BlockEventView::FenceOpen(info) => ExtractorView {
            current: Some(opened_block(info)),
            blocks: state.blocks,
        },
        BlockEventView::Text(fragment) => match state.current {
            Some(block) => ExtractorView {
                current: Some(
                    CodeBlockView {
                        filename: block.filename,
                        language: block.language,
                        content: block.content + fragment,
                    },
                ),
                blocks: state.blocks,
            },
            None => state,
        },
        BlockEventView::FenceClose => match state.current {
            Some(block) => ExtractorView { current: None, blocks: state.blocks.push(block) },
            None => state,
        },
    }
}

/// The state that `events` lead to from `state`.
pub open spec fn state_after(state: ExtractorView, events: Seq<BlockEventView>) -> ExtractorView
    decreases events.len(),
{
    if events.len() == 0 {
        state
    } else {
        next_state(state_after(state, events.drop_last()), events.last())
    }
}

/// The records that `events` yield: the blocks closed by the end of the
/// stream. A block that is still open then yields none.
pub open spec fn extraction(events: Seq<BlockEventView>) -> Seq<CodeBlockView> {
    state_after(initial_state(), events).blocks
}

/// The records of a Markdown text: those that the tokenizer's events yield.
pub open spec fn markdown_blocks(text: Seq<char>) -> Seq<CodeBlockView> {
    extraction(block_events(encode_utf8(text), markup_events(text)))
}

/// An extraction under way.
pub struct Extractor {
    current: Option<CodeBlock>,
    blocks: Vec<CodeBlock>,
}

impl View for Extractor {
    type V = ExtractorView;

    closed spec fn view(&self) -> ExtractorView {
        ExtractorView { current: self.current.deep_view(), blocks: self.blocks.deep_view() }
    }
}

impl Extractor {
    /// An extraction that has seen no event.
    pub fn new() -> (extractor: Self)
        ensures
            extractor@ == initial_state(),
    {
        let extractor = Extractor { current: None, blocks: Vec::new() };
        assert(extractor.blocks.deep_view() == Seq::<CodeBlockView>::empty());
        extractor
    }

    /// Whether the extraction stands inside a code block.
    pub fn in_block(&self) -> (inside: bool)
        ensures
            inside == (self@.current is Some),
    {
        self.current.is_some()
    }

    /// Takes in one event.
    pub fn step(&mut self, event: &BlockEvent)
        ensures
            final(self)@ == next_state(old(self)@, event@),
    {
        match event {
            BlockEvent::FenceOpen(info) => {
                let (language, filename) = classify(info.as_str());
                self.current = Some(CodeBlock { filename, language, content: String::new() });
            },
            BlockEvent::Text(fragment) => {
                match self.current.take() {
                    Some(mut block) => {
                        block.content.append(fragment.as_str());
                        self.current = Some(block);
                    },
                    None => {},
                }
            },
            BlockEvent::FenceClose => {
                match self.current.take() {
                    Some(block) => {
                        let ghost before = self.blocks.deep_view();
                        self.blocks.push(block);
                        assert(self.blocks.deep_view() == before.push(block@));
                    },
                    None => {},
                }
            },
        }
    }

    /// Ends the extraction and hands out the records of the blocks that were
    /// closed. A block that is still open is dropped.
    pub fn finish(self) -> (blocks: Vec<CodeBlock>)
        ensures
            blocks.deep_view() == self@.blocks,
    {
        self.blocks
    }
}

/// Extracts the code blocks of a stream of block events, in the order in
/// which they close.
pub fn extract_code_blocks(events: &Vec<BlockEvent>) -> (blocks: Vec<CodeBlock>)
    ensures
        blocks.deep_view() == extraction(events.deep_view()),
{
    let ghost all = events.deep_view();
    let mut extractor = Extractor::new();
    let mut i: usize = 0;
    while i < events.len()
        invariant
            i <= events.len(),
            all == events.deep_view(),
            extractor@ == state_after(initial_state(), all.take(i as int)),
        decreases events.len() - i,
    {
        assert(all.take(i + 1).drop_last() == all.take(i as int));
        extractor.step(&events[i]);
        i += 1;
    }
    assert(all.take(i as int) == all);
    extractor.finish()
}

/// Extracts the code blocks of a Markdown document, fenced and indented, in
/// the order in which they stand in it.
///
/// A fenced block yields a record only where it has a closing fence line. The
/// tokenizer ends a fence that the text leaves open where the text, or the
/// quote or list item around the fence, ends; the end of such a block is kept
/// from the extractor, which then drops the block as one left open.
pub fn extract_code_blocks_from_markdown(markdown_content: &str) -> (blocks: Vec<CodeBlock>)
    ensures
        blocks.deep_view() == markdown_blocks(markdown_content@),
{
    let events = surface(markdown_content, tokenize(markdown_content));
    extract_code_blocks(&events)
}

} // verus!
