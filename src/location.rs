//! Line and column of a byte offset, for display.
use crate::docs::line_start;
use crate::syntax::{span_wf, Span};
use vstd::prelude::*;

verus! {

/// A span with the 1-based line and column of each end. Columns count
/// characters, not bytes.
#[derive(Clone, Copy, Debug, PartialEq, Eq, Structural)]
pub struct SourceLocation {
    pub start_line: usize,
    pub start_column: usize,
    pub end_line: usize,
    pub end_column: usize,
    pub start_byte: usize,
    pub end_byte: usize,
}

/// The number of newline bytes in `text[..n]`.
pub open spec fn newlines_before(text: Seq<u8>, n: int) -> nat
    decreases n,
{
    if n <= 0 {
        0
    } else {
        newlines_before(text, n - 1) + if text[n - 1] == 10 {
            1nat
        } else {
            0nat
        }
    }
}

/// The number of characters that begin in `text[lo..hi]`: the bytes that
/// are not UTF-8 continuation bytes.
pub open spec fn char_starts(text: Seq<u8>, lo: int, hi: int) -> nat
    decreases hi - lo,
{
    if hi <= lo {
        0
    } else {
        char_starts(text, lo, hi - 1) + if 0x80 <= text[hi - 1] && text[hi - 1] < 0xc0 {
            0nat
        } else {
            1nat
        }
    }
}

/// The 1-based line of byte `offset`.
pub open spec fn line_of(text: Seq<u8>, offset: int) -> nat {
    1 + newlines_before(text, offset)
}

/// The 1-based column of byte `offset`: one more than the characters that
/// begin between the start of its line and it.
pub open spec fn column_of(text: Seq<u8>, offset: int) -> nat {
    1 + char_starts(text, line_start(text, offset), offset)
}

proof fn lemma_line_start_bounds(text: Seq<u8>, end: int)
    requires
        0 <= end,
    ensures
        0 <= line_start(text, end) <= end,
    decreases end,
{
    if end > 0 && text[end - 1] != 10 {
        lemma_line_start_bounds(text, end - 1);
    }
}

/// The 1-based line and column of byte `offset` of `text`.
pub fn line_col(text: &[u8], offset: usize) -> (r: (usize, usize))
    requires
        offset <= text@.len(),
        offset < usize::MAX,
    ensures
        r.0 == line_of(text@, offset as int),
        r.1 == column_of(text@, offset as int),
{
    let mut line: usize = 1;
    let mut col: usize = 1;
    let mut i: usize = 0;
    while i < offset
        invariant
            i <= offset <= text@.len(),
            offset < usize::MAX,
            line == line_of(text@, i as int),
            col == column_of(text@, i as int),
            line <= i + 1,
            col <= i + 1,
        decreases offset - i,
    {
        proof {
            lemma_line_start_bounds(text@, i as int);
        }
        let b = text[i];
        if b == 10 {
            line = line + 1;
            col = 1;
        } else if !(0x80 <= b && b < 0xc0) {
            col = col + 1;
        }
        i = i + 1;
    }
    (line, col)
}

/// The location of `span` in `text`, with both ends in lines and columns.
pub fn location_of(text: &[u8], span: Span) -> (r: SourceLocation)
    requires
        span_wf(span, text@.len()),
        span.end < usize::MAX,
    ensures
        r.start_byte == span.start,
        r.end_byte == span.end,
        r.start_line == line_of(text@, span.start as int),
        r.start_column == column_of(text@, span.start as int),
        r.end_line == line_of(text@, span.end as int),
        r.end_column == column_of(text@, span.end as int),
{
    let (start_line, start_column) = line_col(text, span.start);
    let (end_line, end_column) = line_col(text, span.end);
    SourceLocation {
        start_line,
        start_column,
        end_line,
        end_column,
        start_byte: span.start,
        end_byte: span.end,
    }
}

} // verus!
