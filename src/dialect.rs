//! The dialect a file is parsed in, chosen by its extension.

use vstd::prelude::*;
use vstd::string::StrSliceExecFns;

verus! {

/// What syntax a parser accepts for one file.
#[derive(Clone, Copy, Debug, PartialEq, Eq, Structural)]
pub struct Dialect {
    /// Module syntax (`import`, `export`) rather than a plain script.
    pub module: bool,
    /// Markup elements (JSX).
    pub jsx: bool,
    /// Type annotations (TypeScript).
    pub typescript: bool,
}

/// The dialect of each recognized extension, compared case-sensitively;
/// `None` for every other extension.
pub open spec fn dialect_of(ext: Seq<char>) -> Option<Dialect> {
    if ext == seq!['j', 's'] {
        Some(Dialect { module: false, jsx: false, typescript: false })
    } else if ext == seq!['j', 's', 'x'] {
        Some(Dialect { module: true, jsx: true, typescript: false })
    } else if ext == seq!['t', 's'] {
        Some(Dialect { module: true, jsx: false, typescript: true })
    } else if ext == seq!['t', 's', 'x'] {
        Some(Dialect { module: true, jsx: true, typescript: true })
    } else {
        None
    }
}

/// Whether `s` holds exactly the characters of `word`.
fn chars_equal(s: &str, word: &str) -> (r: bool)
    ensures
        r == (s@ == word@),
{
    let n = s.unicode_len();
    if n != word.unicode_len() {
        return false;
    }
    let mut i: usize = 0;
    while i < n
        invariant
            n == s@.len(),
            n == word@.len(),
            i <= n,
            forall|j: int| 0 <= j < i ==> s@[j] == word@[j],
        decreases n - i,
    {
        if s.get_char(i) != word.get_char(i) {
            return false;
        }
        i = i + 1;
    }
    assert(s@ =~= word@);
    true
}

/// The dialect for a file with extension `ext` (without the dot), or `None`
/// when files with that extension are not scanned.
pub fn classify_extension(ext: &str) -> (r: Option<Dialect>)
    ensures
        r == dialect_of(ext@),
{
    proof {
        reveal_strlit("js");
        reveal_strlit("jsx");
        reveal_strlit("ts");
        reveal_strlit("tsx");
    }
    if chars_equal(ext, "js") {
        assert("js"@ =~= seq!['j', 's']);
        Some(Dialect { module: false, jsx: false, typescript: false })
    } else if chars_equal(ext, "jsx") {
        assert("jsx"@ =~= seq!['j', 's', 'x']);
        assert("js"@ =~= seq!['j', 's']);
        Some(Dialect { module: true, jsx: true, typescript: false })
    } else if chars_equal(ext, "ts") {
        assert("ts"@ =~= seq!['t', 's']);
        assert("jsx"@ =~= seq!['j', 's', 'x']);
        assert("js"@ =~= seq!['j', 's']);
        Some(Dialect { module: true, jsx: false, typescript: true })
    } else if chars_equal(ext, "tsx") {
        assert("tsx"@ =~= seq!['t', 's', 'x']);
        assert("ts"@ =~= seq!['t', 's']);
        assert("jsx"@ =~= seq!['j', 's', 'x']);
        assert("js"@ =~= seq!['j', 's']);
        Some(Dialect { module: true, jsx: true, typescript: true })
    } else {
        assert("tsx"@ =~= seq!['t', 's', 'x']);
        assert("ts"@ =~= seq!['t', 's']);
        assert("jsx"@ =~= seq!['j', 's', 'x']);
        assert("js"@ =~= seq!['j', 's']);
        None
    }
}

/// Only the four recognized extensions are ever parsed: a file with any
/// other extension has no dialect, so nothing in it is scanned.
pub proof fn lemma_unrecognized_extension_skipped(ext: Seq<char>)
    requires
        ext != seq!['j', 's'],
        ext != seq!['j', 's', 'x'],
        ext != seq!['t', 's'],
        ext != seq!['t', 's', 'x'],
    ensures
        dialect_of(ext) is None,
{
}

} // verus!
