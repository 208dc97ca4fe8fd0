//! Whether a fenced code block has a closing fence line.
//!
//! The tokenizer ends every code block, also a fence that the text never
//! closes: where the text ends, or the quote or list item around the fence.
//! It gives the place of a fenced block, from the start of its opening fence
//! to the end of its closing fence or, where there is none, to the end of the
//! block's text, and the place of each text node. So a closing fence line is
//! what stands in the block's range behind the block's text. Whether there is
//! one is decided here, on the bytes of the text.

use vstd::prelude::*;

verus! {

/// A backtick or a tilde.
pub open spec fn is_fence_mark(byte: u8) -> bool {
    byte == 0x60 || byte == 0x7e
}

/// The number of bytes equal to `byte` at the start of `bytes`.
pub open spec fn leading_run(bytes: Seq<u8>, byte: u8) -> nat
    decreases bytes.len(),
{
    if bytes.len() > 0 && bytes[0] == byte {
        1 + leading_run(bytes.skip(1), byte)
    } else {
        0
    }
}

/// The number of bytes equal to `byte` at the end of `bytes`.
pub open spec fn trailing_run(bytes: Seq<u8>, byte: u8) -> nat
    decreases bytes.len(),
{
    if bytes.len() > 0 && bytes.last() == byte {
        1 + trailing_run(bytes.drop_last(), byte)
    } else {
        0
    }
}

/// Where the line that holds the place `from` ends: behind the first line
/// feed at or after `from`, or at the end of `bytes` where none follows.
pub open spec fn line_end(bytes: Seq<u8>, from: int) -> int
    decreases bytes.len() - from,
{
    if from < 0 || from >= bytes.len() {
        bytes.len() as int
    } else if bytes[from] == 0x0a {
        from + 1
    } else {
        line_end(bytes, from + 1)
    }
}

/// A fenced code block that stands open, by its places in the text.
pub struct OpenFence {
    /// Where the opening fence starts.
    pub start: int,
    /// Where the block's text ends as far as it was seen: behind the line of
    /// the opening fence, or behind the last text of the block.
    pub content_end: int,
    /// Where the block ends.
    pub end: int,
}

/// What stands in the block's range behind the block's text.
pub open spec fn closing_line(bytes: Seq<u8>, fence: OpenFence) -> Seq<u8> {
    bytes.subrange(fence.content_end, fence.end)
}

/// Whether the block has a closing fence line: behind the block's text its
/// range holds, on one line, a run of the mark that opens the fence, at least
/// as long as the opening run and followed by nothing but spaces.
pub open spec fn has_closing_fence(bytes: Seq<u8>, fence: OpenFence) -> bool {
    &&& 0 <= fence.start < fence.content_end <= fence.end <= bytes.len()
    &&& is_fence_mark(bytes[fence.start])
    &&& !closing_line(bytes, fence).contains(0x0a)
    &&& {
        let mark = bytes[fence.start];
        let line = closing_line(bytes, fence);
        let marks = line.take(line.len() - trailing_run(line, 0x20));
        trailing_run(marks, mark) >= leading_run(bytes.skip(fence.start), mark)
    }
}

/// Where the line that holds the place `from` ends.
pub fn find_line_end(bytes: &[u8], from: usize) -> (end: usize)
    ensures
        end == line_end(bytes@, from as int),
{
    let n: usize = bytes.len();
    let mut i: usize = from;
    while i < n && bytes[i] != 0x0a
        invariant
            n == bytes@.len(),
            from <= i,
            line_end(bytes@, from as int) == line_end(bytes@, i as int),
        decreases n - i,
    {
        i += 1;
    }
    if i < n {
        i + 1
    } else {
        n
    }
}

/// The number of bytes equal to `byte` from `from` on.
fn count_leading(bytes: &[u8], from: usize, byte: u8) -> (count: usize)
    requires
        from <= bytes@.len(),
    ensures
        count == leading_run(bytes@.skip(from as int), byte),
        from + count <= bytes@.len(),
{
    let n: usize = bytes.len();
    let mut i: usize = from;
    while i < n && bytes[i] == byte
        invariant
            n == bytes@.len(),
            from <= i <= n,
            leading_run(bytes@.skip(from as int), byte) == (i - from) + leading_run(
                bytes@.skip(i as int),
                byte,
            ),
        decreases n - i,
    {
        assert(bytes@.skip(i as int).skip(1) == bytes@.skip(i + 1));
        i += 1;
    }
    i - from
}

/// The number of bytes equal to `byte` at the end of the range from `from` to
/// `to`.
fn count_trailing(bytes: &[u8], from: usize, to: usize, byte: u8) -> (count: usize)
    requires
        from <= to <= bytes@.len(),
    ensures
        count == trailing_run(bytes@.subrange(from as int, to as int), byte),
        count <= to - from,
{
    let mut i: usize = to;
    while i > from && bytes[i - 1] == byte
        invariant
            from <= i <= to <= bytes@.len(),
            trailing_run(bytes@.subrange(from as int, to as int), byte) == (to - i) + trailing_run(
                bytes@.subrange(from as int, i as int),
                byte,
            ),
        decreases i,
    {
        assert(bytes@.subrange(from as int, i as int).drop_last() == bytes@.subrange(
            from as int,
            i - 1,
        ));
        i -= 1;
    }
    to - i
}

/// Whether a line feed stands in the range from `from` to `to`.
fn holds_line_feed(bytes: &[u8], from: usize, to: usize) -> (found: bool)
    requires
        from <= to <= bytes@.len(),
    ensures
        found == bytes@.subrange(from as int, to as int).contains(0x0a),
{
    let ghost range = bytes@.subrange(from as int, to as int);
    let mut i: usize = from;
    while i < to
        invariant
            from <= i <= to <= bytes@.len(),
            range == bytes@.subrange(from as int, to as int),
            forall|k: int| 0 <= k < i - from ==> range[k] != 0x0a,
        decreases to - i,
    {
        if bytes[i] == 0x0a {
            assert(range[i - from] == 0x0a);
            return true;
        }
        i += 1;
    }
    false
}

/// Whether the fenced block that starts at `start`, has its text up to
/// `content_end` and ends at `end` has a closing fence line.
pub fn closes_with_fence(bytes: &[u8], start: usize, content_end: usize, end: usize) -> (closed:
    bool)
    ensures
        closed == has_closing_fence(
            bytes@,
            OpenFence { start: start as int, content_end: content_end as int, end: end as int },
        ),
{
    if !(start < content_end && content_end <= end && end <= bytes.len()) {
        return false;
    }
    let mark: u8 = bytes[start];
    if !(mark == 0x60 || mark == 0x7e) {
        return false;
    }
    if holds_line_feed(bytes, content_end, end) {
        return false;
    }
    let opening: usize = count_leading(bytes, start, mark);
    let spaces: usize = count_trailing(bytes, content_end, end, 0x20);
    let ghost line = bytes@.subrange(content_end as int, end as int);
    assert(line.take(line.len() - spaces) == bytes@.subrange(
        content_end as int,
        end - spaces,
    ));
    let closing: usize = count_trailing(bytes, content_end, end - spaces, mark);
    closing >= opening
}

} // verus!
