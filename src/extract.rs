//! What each candidate node contributes: a string literal, a static segment
//! of a template literal, or a run of markup text becomes at most one
//! result, placed at its first matching code point.

use vstd::prelude::*;
use vstd::string::StringSliceAdditionalSpecFns;
use crate::position::{lemma_same_line, line_col, line_col_at, line_limit, NEWLINE};
use crate::matcher::ScriptMatcher;

verus! {

/// One finding: where the first matching code point of a literal stands,
/// and the literal's text.
#[derive(Clone, Debug, PartialEq, Eq)]
pub struct ScanResult {
    pub file_path: String,
    pub line: usize,
    pub column: usize,
    pub text: String,
}

/// The mathematical content of a [`ScanResult`].
pub struct ScanRecord {
    pub file_path: Seq<char>,
    pub line: int,
    pub column: int,
    pub text: Seq<char>,
}

impl View for ScanResult {
    type V = ScanRecord;

    open spec fn view(&self) -> ScanRecord {
        ScanRecord {
            file_path: self.file_path@,
            line: self.line as int,
            column: self.column as int,
            text: self.text@,
        }
    }
}

/// The record of a result, if there is one.
pub open spec fn opt_view(r: Option<ScanResult>) -> Option<ScanRecord> {
    match r {
        Some(x) => Some(x@),
        None => None,
    }
}

/// No record, or the one record, as a sequence.
pub open spec fn opt_seq(r: Option<ScanRecord>) -> Seq<ScanRecord> {
    match r {
        Some(x) => seq![x],
        None => seq![],
    }
}

/// The record for text `text` whose match starts at byte `off` of `src`.
pub open spec fn record_at(src: Seq<u8>, path: Seq<char>, off: int, text: Seq<char>) -> ScanRecord {
    ScanRecord { file_path: path, line: line_col(src, off).0, column: line_col(src, off).1, text }
}

/// A string literal spans its quotes, so its value starts one byte after
/// the span: the match lies `1 + k` bytes into the span.
pub open spec fn string_literal_record(
    src: Seq<u8>,
    path: Seq<char>,
    start: int,
    value: Seq<char>,
    found: Option<usize>,
) -> Option<ScanRecord> {
    match found {
        Some(k) => Some(record_at(src, path, start + 1 + k, value)),
        None => None,
    }
}

/// A template segment's span starts at its text: the match lies `k` bytes
/// into it; the reported text is the cooked value.
pub open spec fn template_segment_record(
    src: Seq<u8>,
    path: Seq<char>,
    start: int,
    cooked: Seq<char>,
    found: Option<usize>,
) -> Option<ScanRecord> {
    match found {
        Some(k) => Some(record_at(src, path, start + k, cooked)),
        None => None,
    }
}

/// A markup text run is placed at its raw match but reports its trimmed
/// text, and nothing when the trimmed text is empty.
pub open spec fn markup_text_record(
    src: Seq<u8>,
    path: Seq<char>,
    start: int,
    value: Seq<char>,
    found: Option<usize>,
) -> Option<ScanRecord> {
    match found {
        Some(k) => if trimmed(value).len() == 0 {
            None
        } else {
            Some(record_at(src, path, start + k, trimmed(value)))
        },
        None => None,
    }
}

/// Whether `c` has the Unicode White_Space property.
pub open spec fn is_white_space(c: char) -> bool {
    let u = c as u32;
    (0x09 <= u <= 0x0d) || u == 0x20 || u == 0x85 || u == 0xa0 || u == 0x1680 || (0x2000 <= u
        <= 0x200a) || u == 0x2028 || u == 0x2029 || u == 0x202f || u == 0x205f || u == 0x3000
}

/// `s` without its leading whitespace.
pub open spec fn trim_leading(s: Seq<char>) -> Seq<char>
    decreases s.len(),
{
    if s.len() > 0 && is_white_space(s[0]) {
        trim_leading(s.drop_first())
    } else {
        s
    }
}

/// `s` without its trailing whitespace.
pub open spec fn trim_trailing(s: Seq<char>) -> Seq<char>
    decreases s.len(),
{
    if s.len() > 0 && is_white_space(s.last()) {
        trim_trailing(s.drop_last())
    } else {
        s
    }
}

proof fn lemma_trim_leading_keeps(s: Seq<char>, i: int)
    requires
        0 <= i < s.len(),
        !is_white_space(s[i]),
    ensures
        exists|j: int| 0 <= j < trim_leading(s).len() && !is_white_space(#[trigger] trim_leading(s)[j]),
    decreases s.len(),
{
    if is_white_space(s[0]) {
        assert(s.drop_first()[i - 1] == s[i]);
        assert(trim_leading(s) == trim_leading(s.drop_first()));
        lemma_trim_leading_keeps(s.drop_first(), i - 1);
    } else {
        assert(!is_white_space(trim_leading(s)[i]));
    }
}

proof fn lemma_trim_trailing_nonempty(t: Seq<char>, j: int)
    requires
        0 <= j < t.len(),
        !is_white_space(t[j]),
    ensures
        trim_trailing(t).len() > 0,
    decreases t.len(),
{
    if is_white_space(t.last()) {
        lemma_trim_trailing_nonempty(t.drop_last(), j);
    }
}

/// Trimming keeps any text that holds a character other than whitespace.
pub proof fn lemma_trimmed_nonempty(s: Seq<char>, i: int)
    requires
        0 <= i < s.len(),
        !is_white_space(s[i]),
    ensures
        trimmed(s).len() > 0,
{
    lemma_trim_leading_keeps(s, i);
    let j = choose|j: int| 0 <= j < trim_leading(s).len() && !is_white_space(#[trigger] trim_leading(s)[j]);
    lemma_trim_trailing_nonempty(trim_leading(s), j);
}

/// The text with leading and trailing whitespace removed.
pub open spec fn trimmed(s: Seq<char>) -> Seq<char> {
    trim_trailing(trim_leading(s))
}

/// Relies on str::trim: leading and trailing characters with the Unicode
/// White_Space property removed.
#[verifier::external_body]
pub(crate) fn trim_text(s: &str) -> (r: &str)
    ensures
        r@ == trimmed(s@),
{
    s.trim()
}

/// Line and column of byte `base + skip + k`, where the sum may exceed the
/// machine's integers and then lies past every line.
fn shifted_line_col(source: &str, base: u32, skip: usize, k: usize) -> (r: (usize, usize))
    requires
        source.spec_bytes().len() < usize::MAX,
        skip <= 1,
    ensures
        r.0 as int == line_col(source.spec_bytes(), base + skip + k).0,
        r.1 as int == line_col(source.spec_bytes(), base + skip + k).1,
{
    let b0 = base as usize;
    if b0 < usize::MAX - skip && k <= usize::MAX - skip - b0 {
        line_col_at(source, b0 + skip + k)
    } else {
        let r = line_col_at(source, usize::MAX);
        assert(line_limit(source.spec_bytes()) <= usize::MAX);
        r
    }
}

/// The result for a string literal whose span starts at `span_start` and
/// whose decoded value is `value`, given where the matcher found the first
/// matching code point in the value.
pub fn string_literal_result(
    source: &str,
    file_path: &str,
    span_start: u32,
    value: &str,
    found: Option<usize>,
) -> (r: Option<ScanResult>)
    requires
        source.spec_bytes().len() < usize::MAX,
    ensures
        opt_view(r) == string_literal_record(
            source.spec_bytes(),
            file_path@,
            span_start as int,
            value@,
            found,
        ),
{
    match found {
        Some(k) => {
            let (line, column) = shifted_line_col(source, span_start, 1, k);
            Some(ScanResult { file_path: file_path.to_owned(), line, column, text: value.to_owned() })
        },
        None => None,
    }
}

/// The result for a template segment whose span starts at `span_start` and
/// whose cooked value is `cooked`, given where the matcher found the first
/// matching code point in it.
pub fn template_segment_result(
    source: &str,
    file_path: &str,
    span_start: u32,
    cooked: &str,
    found: Option<usize>,
) -> (r: Option<ScanResult>)
    requires
        source.spec_bytes().len() < usize::MAX,
    ensures
        opt_view(r) == template_segment_record(
            source.spec_bytes(),
            file_path@,
            span_start as int,
            cooked@,
            found,
        ),
{
    match found {
        Some(k) => {
            let (line, column) = shifted_line_col(source, span_start, 0, k);
            Some(ScanResult { file_path: file_path.to_owned(), line, column, text: cooked.to_owned() })
        },
        None => None,
    }
}

/// The result for a markup text run whose span starts at `span_start` and
/// whose raw value is `value`, given where the matcher found the first
/// matching code point in it.
pub fn markup_text_result(
    source: &str,
    file_path: &str,
    span_start: u32,
    value: &str,
    found: Option<usize>,
) -> (r: Option<ScanResult>)
    requires
        source.spec_bytes().len() < usize::MAX,
    ensures
        opt_view(r) == markup_text_record(
            source.spec_bytes(),
            file_path@,
            span_start as int,
            value@,
            found,
        ),
{
    match found {
        Some(k) => {
            let text = trim_text(value);
            if text.is_empty() {
                None
            } else {
                let (line, column) = shifted_line_col(source, span_start, 0, k);
                Some(ScanResult { file_path: file_path.to_owned(), line, column, text: text.to_owned() })
            }
        },
        None => None,
    }
}

/// The records of a list of results, in order.
pub open spec fn views(s: Seq<ScanResult>) -> Seq<ScanRecord> {
    s.map_values(|x: ScanResult| x@)
}

/// Appends an optional result to the accumulated list.
pub(crate) fn push_result(results: &mut Vec<ScanResult>, r: Option<ScanResult>)
    ensures
        views(final(results)@) == views(old(results)@) + opt_seq(opt_view(r)),
{
    match r {
        Some(x) => {
            results.push(x);
            assert(views(final(results)@) =~= views(old(results)@) + opt_seq(opt_view(r)));
        },
        None => {
            assert(views(final(results)@) =~= views(old(results)@) + opt_seq(opt_view(r)));
        },
    }
}

/// A string literal's match is reported on the line of its opening quote,
/// at the quote's column plus the match's byte offset within the value plus
/// one, whenever no line ends between the quote and the match.
pub proof fn lemma_string_literal_column(
    src: Seq<u8>,
    path: Seq<char>,
    start: int,
    value: Seq<char>,
    k: usize,
)
    requires
        0 <= start,
        start + 1 + k < line_limit(src),
        forall|i: int| start <= i < start + 1 + k ==> src[i] != NEWLINE,
    ensures
        string_literal_record(src, path, start, value, Some(k)) matches Some(rec) && rec.line
            == line_col(src, start).0 && rec.column == line_col(src, start).1 + 1 + k,
{
    lemma_same_line(src, start, start + 1 + k);
}

/// A template segment with a match reports its cooked value as its text.
pub proof fn lemma_template_reports_cooked(
    src: Seq<u8>,
    path: Seq<char>,
    start: int,
    cooked: Seq<char>,
    found: Option<usize>,
)
    ensures
        found is Some <==> template_segment_record(src, path, start, cooked, found) is Some,
        template_segment_record(src, path, start, cooked, found) matches Some(rec) ==> rec.text
            == cooked,
{
}

/// A markup text run reports its trimmed text, and nothing at all when
/// trimming leaves no text; a run with a match at a character that is not
/// whitespace is always reported.
pub proof fn lemma_markup_text_trimmed(
    src: Seq<u8>,
    path: Seq<char>,
    start: int,
    value: Seq<char>,
    found: Option<usize>,
)
    ensures
        markup_text_record(src, path, start, value, found) matches Some(rec) ==> rec.text
            == trimmed(value) && rec.text.len() > 0,
        trimmed(value).len() == 0 ==> markup_text_record(src, path, start, value, found) is None,
        found is Some && (exists|i: int| 0 <= i < value.len() && !is_white_space(#[trigger] value[i]))
            ==> markup_text_record(src, path, start, value, found) is Some,
{
    if exists|i: int| 0 <= i < value.len() && !is_white_space(#[trigger] value[i]) {
        let i = choose|i: int| 0 <= i < value.len() && !is_white_space(#[trigger] value[i]);
        lemma_trimmed_nonempty(value, i);
    }
}

} // verus!
