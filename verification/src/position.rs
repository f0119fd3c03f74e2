//! Positions in a document as LSP counts them, and the extent of a document's text.

use vstd::prelude::*;
use vstd::string::StringSliceAdditionalSpecFns;

verus! {

/// A zero-based line and column.
#[derive(Clone, Copy, Debug, PartialEq, Eq)]
pub struct TextPosition {
    pub line: u32,
    pub character: u32,
}

/// The range from `start` to `end`.
#[derive(Clone, Copy, Debug, PartialEq, Eq)]
pub struct TextRange {
    pub start: TextPosition,
    pub end: TextPosition,
}

/// The byte of a line feed.
pub open spec fn is_newline(b: u8) -> bool {
    b == 10
}

/// The index of the last line feed in `s`, or -1 where it has none.
pub open spec fn last_newline(s: Seq<u8>) -> int
    decreases s.len(),
{
    if s.len() == 0 {
        -1
    } else if is_newline(s.last()) {
        s.len() - 1
    } else {
        last_newline(s.drop_last())
    }
}

/// The number of line feeds in `s`.
pub open spec fn newline_count(s: Seq<u8>) -> nat
    decreases s.len(),
{
    if s.len() == 0 {
        0
    } else {
        newline_count(s.drop_last()) + if is_newline(s.last()) {
            1nat
        } else {
            0nat
        }
    }
}

/// The position just after the last byte of `text`: its line is the number of
/// line feeds, its column the number of bytes after the last line feed; each
/// is cut to 32 bits.
pub open spec fn spec_document_end(text: Seq<u8>) -> TextPosition {
    TextPosition {
        line: newline_count(text) as u32,
        character: (text.len() - (last_newline(text) + 1)) as u32,
    }
}

/// Where the text of a document ends: just after its last byte.
pub fn document_end(text: &str) -> (r: TextPosition)
    ensures
        r == spec_document_end(text.spec_bytes()),
{
    let bytes = text.as_bytes();
    let ghost b = bytes@;
    let mut count: usize = 0;
    let mut line_start: usize = 0;
    let mut i: usize = 0;
    while i < bytes.len()
        invariant
            b == bytes@,
            i <= b.len(),
            count <= i,
            count == newline_count(b.take(i as int)),
            line_start <= i,
            line_start == last_newline(b.take(i as int)) + 1,
        decreases b.len() - i,
    {
        proof {
            assert(b.take(i + 1).drop_last() =~= b.take(i as int));
            assert(b.take(i + 1).last() == b[i as int]);
        }
        if bytes[i] == 10 {
            count = count + 1;
            line_start = i + 1;
        }
        i = i + 1;
    }
    proof {
        assert(b.take(b.len() as int) =~= b);
    }
    TextPosition {
        line: #[verifier::truncate] (count as u32),
        character: #[verifier::truncate] ((i - line_start) as u32),
    }
}

/// The range that covers a whole document, from its origin to its end.
pub fn whole_document_range(text: &str) -> (r: TextRange)
    ensures
        r.start == (TextPosition { line: 0, character: 0 }),
        r.end == spec_document_end(text.spec_bytes()),
{
    TextRange { start: TextPosition { line: 0, character: 0 }, end: document_end(text) }
}

} // verus!
