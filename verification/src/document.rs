//! What extraction yields for a well-formed document: one record for each of
//! its code blocks, in their order, each holding the block's text as it
//! stands. And how the tokenizer's events for a code block reach the
//! extractor: closed where the block has a closing fence line or is indented,
//! left open where a fence is never closed.

use vstd::prelude::*;
use crate::block::CodeBlockView;
use crate::classify::{info_filename, info_language};
use crate::events::{
    block_events,
    nothing_surfaced,
    surface_step,
    surfaced_after,
    BlockEventView,
    MarkupEventView,
    SurfaceView,
};
use crate::fence::{has_closing_fence, line_end, OpenFence};
use crate::extract::{
    extraction,
    initial_state,
    markdown_blocks,
    next_state,
    opened_block,
    state_after,
    ExtractorView,
};

verus! {

/// A stretch of a well-formed document, as the extractor gets to see it.
pub enum Segment {
    /// Text outside any code block, fragment by fragment.
    Prose { fragments: Seq<Seq<char>> },
    /// A code block from its opening to its closing fence: its info string,
    /// empty for an indented block, and its text, fragment by fragment.
    Block { info: Seq<char>, fragments: Seq<Seq<char>> },
}

/// One text event for each fragment.
pub open spec fn text_events(fragments: Seq<Seq<char>>) -> Seq<BlockEventView> {
    fragments.map_values(|fragment: Seq<char>| BlockEventView::Text(fragment))
}

/// The events of a code block that was opened and not closed.
pub open spec fn open_block_events(info: Seq<char>, fragments: Seq<Seq<char>>) -> Seq<
    BlockEventView,
> {
    seq![BlockEventView::FenceOpen(info)] + text_events(fragments)
}

/// The events of one segment.
pub open spec fn segment_events(segment: Segment) -> Seq<BlockEventView> {
    match segment {
        Segment::Prose { fragments } => text_events(fragments),
        Segment::Block { info, fragments } => open_block_events(info, fragments).push(
            BlockEventView::FenceClose,
        ),
    }
}

/// The events of a document: those of its segments, one after the other.
pub open spec fn document_events(document: Seq<Segment>) -> Seq<BlockEventView>
    decreases document.len(),
{
    if document.len() == 0 {
        Seq::empty()
    } else {
        document_events(document.drop_last()) + segment_events(document.last())
    }
}

/// The record of a code block with this info string and this text: tagged as
/// the info string declares, with the fragments joined as they are.
pub open spec fn block_record(info: Seq<char>, fragments: Seq<Seq<char>>) -> CodeBlockView {
    CodeBlockView {
        filename: info_filename(info),
        language: info_language(info),
        content: fragments.flatten(),
    }
}

/// The records of the code blocks of a document, in the order in which the
/// blocks stand in it.
pub open spec fn document_blocks(document: Seq<Segment>) -> Seq<CodeBlockView>
    decreases document.len(),
{
    if document.len() == 0 {
        Seq::empty()
    } else {
        match document.last() {
            Segment::Prose { .. } => document_blocks(document.drop_last()),
            Segment::Block { info, fragments } => document_blocks(document.drop_last()).push(
                block_record(info, fragments),
            ),
        }
    }
}

/// The number of code blocks of a document.
pub open spec fn block_count(document: Seq<Segment>) -> nat {
    document.filter(|segment: Segment| segment is Block).len()
}

/// One event leads to the next state.
pub proof fn lemma_state_after_one(state: ExtractorView, event: BlockEventView)
    ensures
        state_after(state, seq![event]) == next_state(state, event),
{
    assert(state_after(state, seq![event].drop_last()) == state);
}

/// Events taken in one after the other lead where their concatenation leads.
pub proof fn lemma_state_after_concat(
    state: ExtractorView,
    first: Seq<BlockEventView>,
    second: Seq<BlockEventView>,
)
    ensures
        state_after(state, first + second) == state_after(state_after(state, first), second),
    decreases second.len(),
{
    if second.len() > 0 {
        assert((first + second).drop_last() == first + second.drop_last());
        lemma_state_after_concat(state, first, second.drop_last());
    }
}

/// Text outside a code block changes nothing.
pub proof fn lemma_text_outside_block(blocks: Seq<CodeBlockView>, fragments: Seq<Seq<char>>)
    ensures
        state_after(ExtractorView { current: None, blocks }, text_events(fragments))
            == (ExtractorView { current: None, blocks }),
    decreases fragments.len(),
{
    if fragments.len() > 0 {
        assert(text_events(fragments).drop_last() == text_events(fragments.drop_last()));
        lemma_text_outside_block(blocks, fragments.drop_last());
    }
}

/// Text inside a code block is appended to it, fragment by fragment, as it
/// is.
pub proof fn lemma_text_inside_block(
    block: CodeBlockView,
    blocks: Seq<CodeBlockView>,
    fragments: Seq<Seq<char>>,
)
    ensures
        state_after(ExtractorView { current: Some(block), blocks }, text_events(fragments)) == (
        ExtractorView {
            current: Some(
                CodeBlockView {
                    filename: block.filename,
                    language: block.language,
                    content: block.content + fragments.flatten(),
                },
            ),
            blocks,
        }),
    decreases fragments.len(),
{
    if fragments.len() > 0 {
        let front = fragments.drop_last();
        assert(text_events(fragments).drop_last() == text_events(front));
        lemma_text_inside_block(block, blocks, front);
        assert(fragments == front.push(fragments.last()));
        front.lemma_flatten_push(fragments.last());
        assert((block.content + front.flatten()) + fragments.last() == block.content + (
        front.flatten() + fragments.last()));
    }
}

/// A well-formed document yields exactly the records of its code blocks in
/// their order, each with the block's text as it stands between the fences,
/// and leaves the extractor outside any block.
pub proof fn lemma_document_extraction(document: Seq<Segment>)
    ensures
        extraction(document_events(document)) == document_blocks(document),
        state_after(initial_state(), document_events(document)).current is None,
    decreases document.len(),
{
    if document.len() > 0 {
        let front = document.drop_last();
        let before = ExtractorView { current: None, blocks: document_blocks(front) };
        lemma_document_extraction(front);
        lemma_state_after_concat(
            initial_state(),
            document_events(front),
            segment_events(document.last()),
        );
        match document.last() {
            Segment::Prose { fragments } => {
                lemma_text_outside_block(before.blocks, fragments);
            },
            Segment::Block { info, fragments } => {
                let opening = seq![BlockEventView::FenceOpen(info)];
                let open = open_block_events(info, fragments);
                assert(open.push(BlockEventView::FenceClose).drop_last() == open);
                lemma_state_after_concat(before, opening, text_events(fragments));
                lemma_state_after_one(before, BlockEventView::FenceOpen(info));
                lemma_text_inside_block(opened_block(info), before.blocks, fragments);
            },
        }
    }
}

/// A well-formed document yields as many records as it has code blocks.
pub proof fn lemma_document_block_count(document: Seq<Segment>)
    ensures
        extraction(document_events(document)).len() == block_count(document),
    decreases document.len(),
{
    lemma_document_extraction(document);
    lemma_document_blocks_len(document);
}

proof fn lemma_document_blocks_len(document: Seq<Segment>)
    ensures
        document_blocks(document).len() == block_count(document),
    decreases document.len(),
{
    reveal(Seq::filter);
    if document.len() > 0 {
        lemma_document_blocks_len(document.drop_last());
    }
}

/// The record of each code block of a well-formed document stands at the
/// block's place among the code blocks, and holds what the block's info string
/// declares and the block's text as it stands between the fences.
pub proof fn lemma_record_of_block(
    document: Seq<Segment>,
    k: int,
    info: Seq<char>,
    fragments: Seq<Seq<char>>,
)
    requires
        0 <= k < document.len(),
        document[k] == (Segment::Block { info, fragments }),
    ensures
        block_count(document.take(k)) < extraction(document_events(document)).len(),
        extraction(document_events(document))[block_count(document.take(k)) as int]
            == block_record(info, fragments),
    decreases document.len(),
{
    let front = document.drop_last();
    lemma_document_extraction(document);
    lemma_document_extraction(front);
    lemma_document_blocks_len(front);
    if k < document.len() - 1 {
        assert(front.take(k) == document.take(k));
        lemma_record_of_block(front, k, info, fragments);
    }
}

/// A fence that is opened after a well-formed document and never closed
/// yields no record, whatever text follows it.
pub proof fn lemma_unterminated_fence(
    document: Seq<Segment>,
    info: Seq<char>,
    fragments: Seq<Seq<char>>,
)
    ensures
        extraction(document_events(document) + open_block_events(info, fragments))
            == document_blocks(document),
{
    let before = ExtractorView { current: None, blocks: document_blocks(document) };
    let opening = seq![BlockEventView::FenceOpen(info)];
    lemma_document_extraction(document);
    lemma_state_after_concat(
        initial_state(),
        document_events(document),
        open_block_events(info, fragments),
    );
    lemma_state_after_concat(before, opening, text_events(fragments));
    lemma_state_after_one(before, BlockEventView::FenceOpen(info));
    lemma_text_inside_block(opened_block(info), before.blocks, fragments);
}

/// A block with the empty info string, as an indented block is, has no
/// language and no file name; its content is its text as it stands.
pub proof fn lemma_block_without_info(fragments: Seq<Seq<char>>)
    ensures
        block_record(Seq::empty(), fragments) == (CodeBlockView {
            filename: None,
            language: None,
            content: fragments.flatten(),
        }),
{
}

/// A text node of the tokenizer: its text, and where it starts and ends in
/// the document.
pub struct TextNode {
    pub text: Seq<char>,
    pub start: usize,
    pub end: usize,
}

/// The tokenizer's events for a run of text nodes.
pub open spec fn text_markup(nodes: Seq<TextNode>) -> Seq<MarkupEventView> {
    nodes.map_values(
        |node: TextNode| MarkupEventView::Text { text: node.text, start: node.start, end: node.end },
    )
}

/// The texts of a run of text nodes.
pub open spec fn node_texts(nodes: Seq<TextNode>) -> Seq<Seq<char>> {
    nodes.map_values(|node: TextNode| node.text)
}

/// The tokenizer's events for a fenced code block: its start, its text nodes
/// and its end, which the tokenizer yields whether the block has a closing
/// fence line or not.
pub open spec fn fenced_block_markup(
    info: Seq<char>,
    start: usize,
    end: usize,
    nodes: Seq<TextNode>,
) -> Seq<MarkupEventView> {
    (seq![MarkupEventView::FencedCodeStart { info, start, end }] + text_markup(nodes)).push(
        MarkupEventView::CodeEnd,
    )
}

/// The tokenizer's events for an indented code block.
pub open spec fn indented_block_markup(nodes: Seq<TextNode>) -> Seq<MarkupEventView> {
    (seq![MarkupEventView::IndentedCodeStart] + text_markup(nodes)).push(MarkupEventView::CodeEnd)
}

/// The places of a fenced block when its end is reached: its text reaches to
/// the end of its last text node, or to the end of the line of the opening
/// fence where it has none.
pub open spec fn fence_at_end(bytes: Seq<u8>, start: usize, end: usize, nodes: Seq<TextNode>) -> OpenFence {
    OpenFence {
        start: start as int,
        content_end: if nodes.len() == 0 {
            line_end(bytes, start as int)
        } else {
            nodes.last().end as int
        },
        end: end as int,
    }
}

/// Tokenizer events surfaced one run after the other are surfaced as their
/// concatenation is.
pub proof fn lemma_surfaced_after_concat(
    bytes: Seq<u8>,
    state: SurfaceView,
    first: Seq<MarkupEventView>,
    second: Seq<MarkupEventView>,
)
    ensures
        surfaced_after(bytes, state, first + second) == surfaced_after(
            bytes,
            surfaced_after(bytes, state, first),
            second,
        ),
    decreases second.len(),
{
    if second.len() > 0 {
        assert((first + second).drop_last() == first + second.drop_last());
        lemma_surfaced_after_concat(bytes, state, first, second.drop_last());
    }
}

/// One tokenizer event is surfaced by one step.
pub proof fn lemma_surfaced_after_one(bytes: Seq<u8>, state: SurfaceView, event: MarkupEventView)
    ensures
        surfaced_after(bytes, state, seq![event]) == surface_step(bytes, state, event),
{
    assert(surfaced_after(bytes, state, seq![event].drop_last()) == state);
}

/// Text nodes are surfaced as text, each as it is and in their order. Where a
/// fenced block stands open, its text then reaches to the end of the last
/// node.
pub proof fn lemma_text_surfaced(bytes: Seq<u8>, state: SurfaceView, nodes: Seq<TextNode>)
    ensures
        surfaced_after(bytes, state, text_markup(nodes)).events == state.events + text_events(
            node_texts(nodes),
        ),
        state.fence is None ==> surfaced_after(bytes, state, text_markup(nodes)).fence is None,
        nodes.len() == 0 ==> surfaced_after(bytes, state, text_markup(nodes)).fence == state.fence,
        state.fence is Some && nodes.len() > 0 ==> surfaced_after(
            bytes,
            state,
            text_markup(nodes),
        ).fence == Some(
            OpenFence {
                start: state.fence->0.start,
                content_end: nodes.last().end as int,
                end: state.fence->0.end,
            },
        ),
    decreases nodes.len(),
{
    if nodes.len() > 0 {
        let front = nodes.drop_last();
        lemma_text_surfaced(bytes, state, front);
        assert(text_markup(nodes).drop_last() == text_markup(front));
        assert(text_events(node_texts(nodes)) == text_events(node_texts(front)).push(
            BlockEventView::Text(nodes.last().text),
        ));
    }
}

/// A fenced code block is surfaced as a fence that opens and the block's
/// text. Its end is surfaced as a fence that closes where the block has a
/// closing fence line, and not at all where it has none.
pub proof fn lemma_fenced_block_surfaced(
    bytes: Seq<u8>,
    state: SurfaceView,
    info: Seq<char>,
    start: usize,
    end: usize,
    nodes: Seq<TextNode>,
)
    ensures
        surfaced_after(bytes, state, fenced_block_markup(info, start, end, nodes)) == (SurfaceView {
            fence: None,
            events: if has_closing_fence(bytes, fence_at_end(bytes, start, end, nodes)) {
                state.events + open_block_events(info, node_texts(nodes)).push(
                    BlockEventView::FenceClose,
                )
            } else {
                state.events + open_block_events(info, node_texts(nodes))
            },
        }),
{
    let opening = seq![MarkupEventView::FencedCodeStart { info, start, end }];
    let opened = surface_step(bytes, state, opening[0]);
    let inside = opening + text_markup(nodes);
    lemma_surfaced_after_one(bytes, state, opening[0]);
    lemma_surfaced_after_concat(bytes, state, opening, text_markup(nodes));
    lemma_text_surfaced(bytes, opened, nodes);
    assert(inside.push(MarkupEventView::CodeEnd).drop_last() == inside);
    let texts = text_events(node_texts(nodes));
    assert(state.events.push(BlockEventView::FenceOpen(info)) + texts == state.events
        + open_block_events(info, node_texts(nodes)));
    assert((state.events + open_block_events(info, node_texts(nodes))).push(
        BlockEventView::FenceClose,
    ) == state.events + open_block_events(info, node_texts(nodes)).push(
        BlockEventView::FenceClose,
    ));
}

/// An indented code block is surfaced as a block with the empty info string
/// that is closed, wherever it stands.
pub proof fn lemma_indented_block_surfaced(bytes: Seq<u8>, state: SurfaceView, nodes: Seq<TextNode>)
    ensures
        surfaced_after(bytes, state, indented_block_markup(nodes)) == (SurfaceView {
            fence: None,
            events: state.events + segment_events(
                Segment::Block { info: Seq::empty(), fragments: node_texts(nodes) },
            ),
        }),
{
    let opening = seq![MarkupEventView::IndentedCodeStart];
    let opened = surface_step(bytes, state, opening[0]);
    let inside = opening + text_markup(nodes);
    lemma_surfaced_after_one(bytes, state, opening[0]);
    lemma_surfaced_after_concat(bytes, state, opening, text_markup(nodes));
    lemma_text_surfaced(bytes, opened, nodes);
    assert(inside.push(MarkupEventView::CodeEnd).drop_last() == inside);
    let texts = text_events(node_texts(nodes));
    let open = open_block_events(Seq::empty(), node_texts(nodes));
    assert(state.events.push(BlockEventView::FenceOpen(Seq::empty())) + texts == state.events
        + open);
    assert((state.events + open).push(BlockEventView::FenceClose) == state.events + open.push(
        BlockEventView::FenceClose,
    ));
}

/// A fenced block without a closing fence line at the end of a document
/// yields no record: where what the tokenizer yields up to the block is
/// surfaced as a well-formed document, the records are those of that
/// document.
pub proof fn lemma_trailing_open_fence_yields_no_record(
    bytes: Seq<u8>,
    before: Seq<MarkupEventView>,
    document: Seq<Segment>,
    info: Seq<char>,
    start: usize,
    end: usize,
    nodes: Seq<TextNode>,
)
    requires
        block_events(bytes, before) == document_events(document),
        !has_closing_fence(bytes, fence_at_end(bytes, start, end, nodes)),
    ensures
        extraction(block_events(bytes, before + fenced_block_markup(info, start, end, nodes)))
            == document_blocks(document),
{
    let block = fenced_block_markup(info, start, end, nodes);
    lemma_surfaced_after_concat(bytes, nothing_surfaced(), before, block);
    lemma_fenced_block_surfaced(
        bytes,
        surfaced_after(bytes, nothing_surfaced(), before),
        info,
        start,
        end,
        nodes,
    );
    lemma_unterminated_fence(document, info, node_texts(nodes));
}

/// A fenced block with a closing fence line, and any indented block, yields
/// its record behind those of the document before it.
pub proof fn lemma_closed_block_yields_its_record(
    bytes: Seq<u8>,
    before: Seq<MarkupEventView>,
    document: Seq<Segment>,
    info: Seq<char>,
    start: usize,
    end: usize,
    nodes: Seq<TextNode>,
)
    requires
        block_events(bytes, before) == document_events(document),
        has_closing_fence(bytes, fence_at_end(bytes, start, end, nodes)),
    ensures
        extraction(block_events(bytes, before + fenced_block_markup(info, start, end, nodes)))
            == document_blocks(document).push(block_record(info, node_texts(nodes))),
        extraction(block_events(bytes, before + indented_block_markup(nodes))) == document_blocks(
            document,
        ).push(block_record(Seq::empty(), node_texts(nodes))),
{
    let state = surfaced_after(bytes, nothing_surfaced(), before);
    lemma_surfaced_after_concat(
        bytes,
        nothing_surfaced(),
        before,
        fenced_block_markup(info, start, end, nodes),
    );
    lemma_fenced_block_surfaced(bytes, state, info, start, end, nodes);
    lemma_surfaced_after_concat(bytes, nothing_surfaced(), before, indented_block_markup(nodes));
    lemma_indented_block_surfaced(bytes, state, nodes);
    let fenced = document.push(Segment::Block { info, fragments: node_texts(nodes) });
    let indented = document.push(
        Segment::Block { info: Seq::empty(), fragments: node_texts(nodes) },
    );
    assert(fenced.drop_last() == document);
    assert(indented.drop_last() == document);
    lemma_document_extraction(fenced);
    lemma_document_extraction(indented);
}

/// The same text yields the same records, element by element, however often
/// it is extracted.
pub proof fn lemma_same_text_same_blocks(
    text: Seq<char>,
    first: Seq<CodeBlockView>,
    second: Seq<CodeBlockView>,
)
    requires
        first == markdown_blocks(text),
        second == markdown_blocks(text),
    ensures
        first.len() == second.len(),
        forall|i: int| 0 <= i < first.len() ==> first[i] == second[i],
{
}

} // verus!
