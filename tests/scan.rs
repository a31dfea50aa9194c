use literal_scan::dialect::{classify_extension, Dialect};
use literal_scan::exclude::exclude_patterns;
use literal_scan::extract::{markup_text_result, string_literal_result, template_segment_result, ScanResult};
use literal_scan::matcher::{MatcherError, ScriptMatcher};
use literal_scan::position::get_line_col;
use literal_scan::scan::{scan_candidates, Candidate, CandidateKind};

fn cand(kind: CandidateKind, span_start: u32, value: &str) -> Candidate {
    Candidate { kind, span_start, value: value.to_string() }
}

fn result(path: &str, line: usize, column: usize, text: &str) -> ScanResult {
    ScanResult { file_path: path.to_string(), line, column, text: text.to_string() }
}

#[test]
fn line_col_first_line() {
    assert_eq!(get_line_col("abc\ndef", 0), (1, 1));
    assert_eq!(get_line_col("abc\ndef", 2), (1, 3));
}

#[test]
fn line_col_newline_belongs_to_its_line() {
    assert_eq!(get_line_col("abc\ndef", 3), (1, 4));
    assert_eq!(get_line_col("abc\ndef", 4), (2, 1));
    assert_eq!(get_line_col("abc\ndef", 5), (2, 2));
}

#[test]
fn line_col_end_of_unterminated_last_line() {
    assert_eq!(get_line_col("abc\ndef", 7), (2, 4));
}

#[test]
fn line_col_past_the_end_falls_back() {
    assert_eq!(get_line_col("abc\ndef", 8), (3, 1));
    assert_eq!(get_line_col("abc\ndef", 1000), (3, 1));
    assert_eq!(get_line_col("a\n", 2), (2, 1));
    assert_eq!(get_line_col("", 0), (1, 1));
    assert_eq!(get_line_col("a\n\nb", 3), (3, 1));
}

#[test]
fn dialects_of_recognized_extensions() {
    assert_eq!(classify_extension("js"), Some(Dialect { module: false, jsx: false, typescript: false }));
    assert_eq!(classify_extension("jsx"), Some(Dialect { module: true, jsx: true, typescript: false }));
    assert_eq!(classify_extension("ts"), Some(Dialect { module: true, jsx: false, typescript: true }));
    assert_eq!(classify_extension("tsx"), Some(Dialect { module: true, jsx: true, typescript: true }));
}

#[test]
fn unrecognized_extensions_are_skipped() {
    assert_eq!(classify_extension("JS"), None);
    assert_eq!(classify_extension("Tsx"), None);
    assert_eq!(classify_extension("mjs"), None);
    assert_eq!(classify_extension("vue"), None);
    assert_eq!(classify_extension(""), None);
    assert_eq!(classify_extension("j"), None);
}

#[test]
fn exclude_list_is_split_trimmed_and_filtered() {
    assert_eq!(exclude_patterns(" dist, ,node_modules ,, *.min.js "), vec!["dist", "node_modules", "*.min.js"]);
    assert_eq!(exclude_patterns("build"), vec!["build"]);
    assert_eq!(exclude_patterns(""), Vec::<String>::new());
    assert_eq!(exclude_patterns(" , ,"), Vec::<String>::new());
}

#[test]
fn invalid_pattern_is_refused() {
    assert_eq!(ScriptMatcher::new("[").err(), Some(MatcherError));
    assert!(ScriptMatcher::cjk().is_ok());
}

#[test]
fn matcher_finds_first_ideograph() {
    let m = ScriptMatcher::cjk().unwrap();
    assert_eq!(m.first_match("你好"), Some(0));
    assert_eq!(m.first_match("ab你好"), Some(2));
    assert_eq!(m.first_match("é你"), Some(2));
    assert_eq!(m.first_match("hello"), None);
    assert_eq!(m.first_match(""), None);
}

#[test]
fn scenario_string_literal_in_ts() {
    let m = ScriptMatcher::cjk().unwrap();
    let src = "const x = \"你好\";";
    let r = scan_candidates(&m, src, "a.ts", &vec![cand(CandidateKind::StringLiteral, 10, "你好")]);
    assert_eq!(r, vec![result("a.ts", 1, 12, "你好")]);
}

#[test]
fn scenario_markup_text_is_trimmed() {
    let m = ScriptMatcher::cjk().unwrap();
    let src = "<div>   混合 text  </div>";
    let r = scan_candidates(&m, src, "b.tsx", &vec![cand(CandidateKind::MarkupText, 5, "   混合 text  ")]);
    assert_eq!(r, vec![result("b.tsx", 1, 9, "混合 text")]);
}

#[test]
fn string_literal_column_follows_the_quote() {
    let src = "let a = 1;\nfoo(\"ab中\");";
    // the opening quote is byte 15: line 2, column 5
    assert_eq!(get_line_col(src, 15), (2, 5));
    let r = string_literal_result(src, "c.js", 15, "ab中", Some(2));
    assert_eq!(r, Some(result("c.js", 2, 5 + 2 + 1, "ab中")));
}

#[test]
fn template_segment_reports_cooked_text() {
    let m = ScriptMatcher::cjk().unwrap();
    let src = "let t = `\\u4f60 ${x}好`;";
    let r = scan_candidates(
        &m,
        src,
        "d.js",
        &vec![cand(CandidateKind::TemplateSegment, 9, "你 "), cand(CandidateKind::TemplateSegment, 20, "好")],
    );
    assert_eq!(r, vec![result("d.js", 1, 10, "你 "), result("d.js", 1, 21, "好")]);
}

#[test]
fn template_segment_without_match_reports_nothing() {
    assert_eq!(template_segment_result("`abc`", "e.ts", 1, "abc", None), None);
}

#[test]
fn whitespace_markup_run_is_not_reported() {
    assert_eq!(markup_text_result("<p>  \n </p>", "f.jsx", 3, "  \n ", Some(0)), None);
}

#[test]
fn markup_run_reports_trimmed_text_at_raw_match() {
    let r = markup_text_result("<p>\n  中文\n</p>", "g.jsx", 3, "\n  中文\n", Some(3));
    assert_eq!(r, Some(result("g.jsx", 2, 3, "中文")));
}

#[test]
fn one_result_per_candidate() {
    let m = ScriptMatcher::cjk().unwrap();
    let src = "f(\"x中y文\", 'plain');";
    let r = scan_candidates(
        &m,
        src,
        "h.js",
        &vec![cand(CandidateKind::StringLiteral, 2, "x中y文"), cand(CandidateKind::StringLiteral, 11, "plain")],
    );
    assert_eq!(r, vec![result("h.js", 1, 5, "x中y文")]);
}

#[test]
fn identical_text_at_two_places_gives_two_results() {
    let m = ScriptMatcher::cjk().unwrap();
    let src = "a(\"中\");\nb(\"中\");";
    let r = scan_candidates(
        &m,
        src,
        "i.js",
        &vec![cand(CandidateKind::StringLiteral, 2, "中"), cand(CandidateKind::StringLiteral, 12, "中")],
    );
    assert_eq!(r, vec![result("i.js", 1, 4, "中"), result("i.js", 2, 4, "中")]);
}

#[test]
fn match_past_the_end_falls_back() {
    let r = template_segment_result("ab", "j.ts", 4000000000, "中", Some(0));
    assert_eq!(r, Some(result("j.ts", 2, 1, "中")));
}

#[test]
fn no_candidates_no_results() {
    let m = ScriptMatcher::cjk().unwrap();
    assert_eq!(scan_candidates(&m, "", "k.ts", &vec![]), vec![]);
}

#[test]
fn markup_trimming_removes_unicode_whitespace() {
    let r = markup_text_result("<p>\u{3000}中\u{a0}</p>", "l.jsx", 3, "\u{3000}中\u{a0}", Some(3));
    assert_eq!(r, Some(result("l.jsx", 1, 7, "中")));
}

#[test]
fn matcher_with_other_pattern_finds_leftmost_match() {
    let m = ScriptMatcher::new("[b-c]").unwrap();
    assert_eq!(m.first_match("abc"), Some(1));
    assert_eq!(m.first_match("xyz"), None);
}
