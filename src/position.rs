//! Translation of byte offsets within a source text into 1-based line and
//! column numbers.

use vstd::prelude::*;
use vstd::string::StringSliceAdditionalSpecFns;

verus! {

/// The byte that ends a line.
pub const NEWLINE: u8 = 10;

/// Number of newline bytes among the first `end` bytes of `b`.
pub open spec fn newlines_before(b: Seq<u8>, end: int) -> nat
    decreases end,
{
    if end <= 0 {
        0
    } else {
        newlines_before(b, end - 1) + if b[end - 1] == NEWLINE { 1nat } else { 0nat }
    }
}

/// Offset of the first byte of the line that holds offset `end`: one past
/// the last newline among the first `end` bytes, or 0 when there is none.
pub open spec fn line_start_before(b: Seq<u8>, end: int) -> int
    decreases end,
{
    if end <= 0 {
        0
    } else if b[end - 1] == NEWLINE {
        end
    } else {
        line_start_before(b, end - 1)
    }
}

/// Whether the text ends with a newline byte.
pub open spec fn ends_with_newline(b: Seq<u8>) -> bool {
    b.len() > 0 && b[b.len() - 1] == NEWLINE
}

/// Number of lines: each newline ends one, and a final line without a
/// newline counts too.
pub open spec fn line_count(b: Seq<u8>) -> nat {
    newlines_before(b, b.len() as int) + if b.len() > 0 && !ends_with_newline(b) {
        1nat
    } else {
        0nat
    }
}

/// Offsets below this bound lie on some line: each line covers its bytes and
/// the newline after it, and an unterminated last line covers one more
/// position, its end.
pub open spec fn line_limit(b: Seq<u8>) -> int {
    if b.len() == 0 {
        0
    } else if ends_with_newline(b) {
        b.len() as int
    } else {
        b.len() + 1int
    }
}

/// The 1-based (line, column) of offset `off`, the column counted in bytes
/// from the start of the line; an offset past every line maps to the start
/// of the line after the last one.
pub open spec fn line_col(b: Seq<u8>, off: int) -> (int, int) {
    if 0 <= off < line_limit(b) {
        (newlines_before(b, off) as int + 1, off - line_start_before(b, off) + 1)
    } else {
        (line_count(b) as int + 1, 1)
    }
}

proof fn lemma_newlines_bounded(b: Seq<u8>, end: int)
    requires
        0 <= end <= b.len(),
    ensures
        newlines_before(b, end) <= end,
        0 <= line_start_before(b, end) <= end,
        end > 0 && b[end - 1] != NEWLINE ==> newlines_before(b, end) < end,
    decreases end,
{
    if end > 0 {
        lemma_newlines_bounded(b, end - 1);
    }
}

/// Moving forward over bytes that hold no newline keeps the line and its
/// start.
pub proof fn lemma_same_line(b: Seq<u8>, s: int, e: int)
    requires
        0 <= s <= e <= b.len(),
        forall|i: int| s <= i < e ==> b[i] != NEWLINE,
    ensures
        newlines_before(b, e) == newlines_before(b, s),
        line_start_before(b, e) == line_start_before(b, s),
    decreases e - s,
{
    if e > s {
        lemma_same_line(b, s, e - 1);
    }
}

/// Line and column of a byte offset that may exceed `u32`.
pub fn line_col_at(source: &str, offset: usize) -> (r: (usize, usize))
    requires
        source.spec_bytes().len() < usize::MAX,
    ensures
        r.0 as int == line_col(source.spec_bytes(), offset as int).0,
        r.1 as int == line_col(source.spec_bytes(), offset as int).1,
{
    let b = source.as_bytes();
    let n = b.len();
    let on_a_line = n > 0 && (offset < n || (offset == n && b[n - 1] != NEWLINE));
    let end = if on_a_line { offset } else { n };
    let mut i: usize = 0;
    let mut lines: usize = 0;
    let mut start: usize = 0;
    while i < end
        invariant
            b@ == source.spec_bytes(),
            n == b@.len(),
            end <= n,
            i <= end,
            lines == newlines_before(b@, i as int),
            start == line_start_before(b@, i as int),
        decreases end - i,
    {
        proof {
            lemma_newlines_bounded(b@, i as int);
        }
        if b[i] == NEWLINE {
            lines = lines + 1;
            start = i + 1;
        }
        i = i + 1;
    }
    proof {
        lemma_newlines_bounded(b@, end as int);
    }
    if on_a_line {
        (lines + 1, offset - start + 1)
    } else {
        let last_unterminated = n > 0 && b[n - 1] != NEWLINE;
        if last_unterminated {
            (lines + 2, 1)
        } else {
            (lines + 1, 1)
        }
    }
}

/// Line and column, both 1-based, of byte `offset` in `source_text`; the
/// column counts bytes since the last newline. An offset past the end of
/// every line gives (number of lines + 1, 1).
pub fn get_line_col(source_text: &str, offset: u32) -> (r: (usize, usize))
    requires
        source_text.spec_bytes().len() < usize::MAX,
    ensures
        r.0 as int == line_col(source_text.spec_bytes(), offset as int).0,
        r.1 as int == line_col(source_text.spec_bytes(), offset as int).1,
{
    line_col_at(source_text, offset as usize)
}

} // verus!
