//! The caller's exclude list: patterns separated by commas.

use vstd::prelude::*;
use vstd::string::StrSliceExecFns;
use crate::extract::{trim_text, trimmed};

verus! {

/// The pieces of `s` between commas, left to right; `s` without a comma is
/// one piece, and an empty `s` is one empty piece.
pub open spec fn comma_pieces(s: Seq<char>) -> Seq<Seq<char>>
    decreases s.len(),
{
    if s.len() == 0 {
        seq![Seq::<char>::empty()]
    } else {
        let p = comma_pieces(s.drop_last());
        if s.last() == ',' {
            p.push(Seq::<char>::empty())
        } else {
            p.update(p.len() - 1, p.last().push(s.last()))
        }
    }
}

/// The trimmed pieces, in order, leaving out those that trimming empties.
pub open spec fn kept_patterns(ps: Seq<Seq<char>>) -> Seq<Seq<char>>
    decreases ps.len(),
{
    if ps.len() == 0 {
        Seq::<Seq<char>>::empty()
    } else {
        kept_patterns(ps.drop_last()) + if trimmed(ps.last()).len() > 0 {
            seq![trimmed(ps.last())]
        } else {
            Seq::<Seq<char>>::empty()
        }
    }
}

/// The exclude patterns that a comma-separated list names.
pub open spec fn exclude_patterns_of(s: Seq<char>) -> Seq<Seq<char>> {
    kept_patterns(comma_pieces(s))
}

/// The texts of a list of strings, in order.
pub open spec fn string_views(v: Seq<String>) -> Seq<Seq<char>> {
    v.map_values(|x: String| x@)
}

/// Appends `piece`, trimmed, unless trimming leaves nothing.
fn keep_piece(out: &mut Vec<String>, piece: &str)
    ensures
        string_views(final(out)@) == string_views(old(out)@) + if trimmed(piece@).len() > 0 {
            seq![trimmed(piece@)]
        } else {
            Seq::<Seq<char>>::empty()
        },
{
    let t = trim_text(piece);
    if !t.is_empty() {
        out.push(t.to_owned());
    }
    assert(string_views(final(out)@) =~= string_views(old(out)@) + if trimmed(piece@).len() > 0 {
        seq![trimmed(piece@)]
    } else {
        Seq::<Seq<char>>::empty()
    });
}

/// Splits `exclude` at commas, trims each piece and drops the empty ones.
pub fn exclude_patterns(exclude: &str) -> (r: Vec<String>)
    ensures
        string_views(r@) == exclude_patterns_of(exclude@),
{
    let n = exclude.unicode_len();
    let mut out: Vec<String> = Vec::new();
    let mut start: usize = 0;
    let mut i: usize = 0;
    let ghost mut done: Seq<Seq<char>> = Seq::empty();
    assert(exclude@.subrange(0, 0) =~= Seq::<char>::empty());
    assert(string_views(out@) =~= Seq::<Seq<char>>::empty());
    while i < n
        invariant
            n == exclude@.len(),
            start <= i <= n,
            comma_pieces(exclude@.subrange(0, i as int)) == done.push(
                exclude@.subrange(start as int, i as int),
            ),
            string_views(out@) == kept_patterns(done),
        decreases n - i,
    {
        let c = exclude.get_char(i);
        let ghost pre = exclude@.subrange(0, i as int);
        let ghost cur = exclude@.subrange(start as int, i as int);
        assert(exclude@.subrange(0, i + 1).drop_last() =~= pre);
        assert(exclude@.subrange(0, i + 1).last() == c);
        if c == ',' {
            let piece = exclude.substring_char(start, i);
            keep_piece(&mut out, piece);
            proof {
                assert(done.push(cur).drop_last() =~= done);
                done = done.push(cur);
                assert(exclude@.subrange(i + 1, i + 1) =~= Seq::<char>::empty());
            }
            start = i + 1;
        } else {
            assert(exclude@.subrange(start as int, i + 1) =~= cur.push(c));
            assert(done.push(cur).update(done.len() as int, cur.push(c)) =~= done.push(cur.push(c)));
        }
        i = i + 1;
    }
    assert(exclude@.subrange(0, n as int) =~= exclude@);
    let piece = exclude.substring_char(start, n);
    let ghost last = exclude@.subrange(start as int, n as int);
    keep_piece(&mut out, piece);
    proof {
        assert(done.push(last).drop_last() =~= done);
    }
    out
}

} // verus!
