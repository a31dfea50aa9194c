//! The script matcher: finds where the first code point of the configured
//! script occurs in a decoded text value.

use vstd::prelude::*;
use vstd::string::StringSliceAdditionalSpecFns;
use vstd::utf8::encode_utf8;

verus! {

#[verifier::external_type_specification]
#[verifier::external_body]
pub struct ExRegex(regex::Regex);

#[verifier::external_type_specification]
#[verifier::external_body]
pub struct ExRegexError(regex::Error);

/// Whether the regex crate accepts a pattern.
pub uninterp spec fn is_valid_pattern(pattern: Seq<char>) -> bool;

/// Relies on regex::Regex::new: it compiles a pattern, or reports why it
/// cannot, by the pattern's text alone.
pub assume_specification[ regex::Regex::new ](re: &str) -> (r: Result<regex::Regex, regex::Error>)
    ensures
        r is Ok <==> is_valid_pattern(re@),
;

/// The byte offset at which the leftmost match of `pattern` in `haystack`
/// starts, or `None` when there is no match.
pub uninterp spec fn leftmost_match_start(pattern: Seq<char>, haystack: Seq<char>) -> Option<usize>;

/// The character class of the CJK Unified Ideographs U+4E00..=U+9FA5.
pub const CJK_PATTERN: &'static str = "[\u{4e00}-\u{9fa5}]";

/// Whether `c` is one of the CJK Unified Ideographs U+4E00..=U+9FA5.
pub open spec fn is_cjk(c: char) -> bool {
    0x4e00 <= (c as u32) <= 0x9fa5
}

/// Index of the first character of `s` that is a CJK ideograph.
pub open spec fn first_cjk_index(s: Seq<char>) -> Option<int>
    decreases s.len(),
{
    if s.len() == 0 {
        None
    } else if is_cjk(s[0]) {
        Some(0)
    } else {
        match first_cjk_index(s.drop_first()) {
            Some(i) => Some(i + 1),
            None => None,
        }
    }
}

/// Byte offset, in the UTF-8 encoding of `s`, of its first CJK ideograph.
pub open spec fn first_cjk_offset(s: Seq<char>) -> Option<usize> {
    match first_cjk_index(s) {
        Some(i) => Some(encode_utf8(s.take(i)).len() as usize),
        None => None,
    }
}

/// Relies on regex::Regex::find and regex::Match::start: the byte offset at
/// which the leftmost match starts, a function of the pattern the matcher
/// was compiled from and of the haystack, never past the haystack's end.
/// For the one-class pattern `CJK_PATTERN` the leftmost match is the first
/// character of that class.
#[verifier::external_body]
fn find_start(m: &ScriptMatcher, haystack: &str) -> (r: Option<usize>)
    ensures
        r == leftmost_match_start(m.spec_pattern(), haystack@),
        r matches Some(k) ==> k <= haystack.spec_bytes().len(),
        m.spec_pattern() == CJK_PATTERN@ ==> r == first_cjk_offset(haystack@),
{
    m.re.find(haystack).map(|x| x.start())
}

/// The pattern given to a matcher could not be compiled.
#[derive(Clone, Copy, Debug, PartialEq, Eq)]
pub struct MatcherError;

/// A compiled pattern, typically a single character class, whose leftmost
/// match in a value is the value's first matching code point.
pub struct ScriptMatcher {
    re: regex::Regex,
    pattern: String,
}

impl ScriptMatcher {
    /// The pattern this matcher was compiled from.
    pub closed spec fn spec_pattern(&self) -> Seq<char> {
        self.pattern@
    }

    /// Compiles `pattern`; fails when it is not a valid expression.
    pub fn new(pattern: &str) -> (r: Result<ScriptMatcher, MatcherError>)
        ensures
            r is Ok <==> is_valid_pattern(pattern@),
            r matches Ok(m) ==> m.spec_pattern() == pattern@,
    {
        match regex::Regex::new(pattern) {
            Ok(re) => Ok(ScriptMatcher { re, pattern: pattern.to_owned() }),
            Err(_) => Err(MatcherError),
        }
    }

    /// The matcher for CJK Unified Ideographs.
    pub fn cjk() -> (r: Result<ScriptMatcher, MatcherError>)
        ensures
            r is Ok <==> is_valid_pattern(CJK_PATTERN@),
            r matches Ok(m) ==> m.spec_pattern() == CJK_PATTERN@,
    {
        ScriptMatcher::new(CJK_PATTERN)
    }

    /// Byte offset, within `value`, of the start of the leftmost match; for
    /// the CJK matcher, that of the first CJK ideograph.
    pub fn first_match(&self, value: &str) -> (r: Option<usize>)
        ensures
            r == leftmost_match_start(self.spec_pattern(), value@),
            r matches Some(k) ==> k <= value.spec_bytes().len(),
            self.spec_pattern() == CJK_PATTERN@ ==> r == first_cjk_offset(value@),
    {
        find_start(self, value)
    }
}

} // verus!
