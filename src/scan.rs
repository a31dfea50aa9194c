//! The scan of one parsed file: every candidate node is matched and placed.

use vstd::prelude::*;
use vstd::string::StringSliceAdditionalSpecFns;
use crate::extract::{
    markup_text_record, markup_text_result, opt_seq, push_result, string_literal_record,
    string_literal_result, template_segment_record, template_segment_result, views, ScanRecord,
    ScanResult,
};
use crate::matcher::{leftmost_match_start, ScriptMatcher};

verus! {

/// The three kinds of node that can hold literal text.
#[derive(Clone, Copy, Debug, PartialEq, Eq, Structural)]
pub enum CandidateKind {
    /// A quoted string literal; its span includes the quotes.
    StringLiteral,
    /// A static segment of a template literal, with its escapes decoded.
    TemplateSegment,
    /// A run of text between markup tags, as written.
    MarkupText,
}

/// A text-bearing node: its decoded value and where its span starts in the
/// source.
#[derive(Clone, Debug, PartialEq, Eq)]
pub struct Candidate {
    pub kind: CandidateKind,
    pub span_start: u32,
    pub value: String,
}

/// The record a candidate contributes, given where its first match lies.
pub open spec fn candidate_record(
    src: Seq<u8>,
    path: Seq<char>,
    c: Candidate,
    found: Option<usize>,
) -> Option<ScanRecord> {
    match c.kind {
        CandidateKind::StringLiteral => string_literal_record(
            src,
            path,
            c.span_start as int,
            c.value@,
            found,
        ),
        CandidateKind::TemplateSegment => template_segment_record(
            src,
            path,
            c.span_start as int,
            c.value@,
            found,
        ),
        CandidateKind::MarkupText => markup_text_record(
            src,
            path,
            c.span_start as int,
            c.value@,
            found,
        ),
    }
}

/// The records of the candidates, in order, each with its own match.
pub open spec fn candidate_records(
    src: Seq<u8>,
    path: Seq<char>,
    cs: Seq<Candidate>,
    found: Seq<Option<usize>>,
) -> Seq<ScanRecord>
    decreases cs.len(),
{
    if cs.len() == 0 {
        Seq::<ScanRecord>::empty()
    } else {
        candidate_records(src, path, cs.drop_last(), found.drop_last()) + opt_seq(
            candidate_record(src, path, cs.last(), found.last()),
        )
    }
}

/// Where the matcher finds its first match in each candidate's value.
pub open spec fn matcher_found(m: ScriptMatcher, cs: Seq<Candidate>) -> Seq<Option<usize>> {
    Seq::new(cs.len(), |i: int| leftmost_match_start(m.spec_pattern(), cs[i].value@))
}

/// The result a candidate contributes, given where its first match lies.
pub fn candidate_result(source: &str, file_path: &str, c: &Candidate, found: Option<usize>) -> (r:
    Option<ScanResult>)
    requires
        source.spec_bytes().len() < usize::MAX,
    ensures
        crate::extract::opt_view(r) == candidate_record(source.spec_bytes(), file_path@, *c, found),
{
    match c.kind {
        CandidateKind::StringLiteral => string_literal_result(
            source,
            file_path,
            c.span_start,
            c.value.as_str(),
            found,
        ),
        CandidateKind::TemplateSegment => template_segment_result(
            source,
            file_path,
            c.span_start,
            c.value.as_str(),
            found,
        ),
        CandidateKind::MarkupText => markup_text_result(
            source,
            file_path,
            c.span_start,
            c.value.as_str(),
            found,
        ),
    }
}

/// The results of one file: each candidate in turn is matched and, where the
/// matcher finds its script, placed in the file. Results come in the order
/// of the candidates.
pub fn scan_candidates(
    matcher: &ScriptMatcher,
    source: &str,
    file_path: &str,
    candidates: &Vec<Candidate>,
) -> (r: Vec<ScanResult>)
    requires
        source.spec_bytes().len() < usize::MAX,
    ensures
        views(r@) == candidate_records(
            source.spec_bytes(),
            file_path@,
            candidates@,
            matcher_found(*matcher, candidates@),
        ),
{
    let mut out: Vec<ScanResult> = Vec::new();
    let mut i: usize = 0;
    assert(views(out@) =~= Seq::<ScanRecord>::empty());
    assert(candidates@.subrange(0, 0) =~= Seq::<Candidate>::empty());
    while i < candidates.len()
        invariant
            i <= candidates@.len(),
            source.spec_bytes().len() < usize::MAX,
            views(out@) == candidate_records(
                source.spec_bytes(),
                file_path@,
                candidates@.subrange(0, i as int),
                matcher_found(*matcher, candidates@.subrange(0, i as int)),
            ),
        decreases candidates@.len() - i,
    {
        let c = &candidates[i];
        let f = matcher.first_match(c.value.as_str());
        let r = candidate_result(source, file_path, c, f);
        push_result(&mut out, r);
        proof {
            let cs = candidates@.subrange(0, i + 1);
            let prev = candidates@.subrange(0, i as int);
            assert(cs.drop_last() =~= prev);
            assert(matcher_found(*matcher, cs).drop_last() =~= matcher_found(*matcher, prev));
        }
        i = i + 1;
    }
    assert(candidates@.subrange(0, i as int) =~= candidates@);
    out
}

} // verus!
