//! The link extractor: a hand-written scanner for the double-bracket link
//! pattern. A link token is an open bracket pair, a non-empty target run
//! free of bracket characters, an optional pipe-delimited display portion
//! (discarded), and a close bracket pair. Matches are found left to right
//! and do not overlap; unbalanced or empty bracket pairs yield no match.

use vstd::prelude::*;
use crate::text::{chars_of, string_from_chars};

verus! {

/// Is `c` one of the two bracket characters?
pub open spec fn is_bracket(c: char) -> bool {
    c == '[' || c == ']'
}

/// The first position at or after `i` holding a bracket character, or the
/// text's length if there is none.
pub open spec fn first_bracket(s: Seq<char>, i: int) -> int
    recommends
        0 <= i <= s.len(),
    decreases s.len() - i when 0 <= i <= s.len()
{
    if i >= s.len() {
        s.len() as int
    } else if is_bracket(s[i]) {
        i
    } else {
        first_bracket(s, i + 1)
    }
}

/// The first position in `[i, end)` holding a pipe, or `end` if there is none.
pub open spec fn first_pipe(s: Seq<char>, i: int, end: int) -> int
    recommends
        0 <= i,
        end <= s.len(),
    decreases end - i when i <= end
{
    if i >= end {
        end
    } else if s[i] == '|' {
        i
    } else {
        first_pipe(s, i + 1, end)
    }
}

/// Does a link token start at position `i`? It does exactly when an open
/// bracket pair stands at `i`, the following run up to the first bracket
/// character is non-empty, and that first bracket character starts a close
/// bracket pair.
pub open spec fn link_at(s: Seq<char>, i: int) -> bool
    recommends
        0 <= i,
{
    let fb = first_bracket(s, i + 2);
    &&& i + 1 < s.len()
    &&& s[i] == '['
    &&& s[i + 1] == '['
    &&& fb > i + 2
    &&& fb + 1 < s.len()
    &&& s[fb] == ']'
    &&& s[fb + 1] == ']'
}

/// The target of the link token starting at `i`: the content run up to the
/// first pipe that is preceded by at least one content character, or the
/// whole content run if there is no such pipe.
pub open spec fn link_target(s: Seq<char>, i: int) -> Seq<char>
    recommends
        link_at(s, i),
{
    let fb = first_bracket(s, i + 2);
    let p = first_pipe(s, i + 3, fb);
    s.subrange(i + 2, if p < fb { p } else { fb })
}

/// One position past the close bracket pair of the link token starting at `i`.
pub open spec fn link_end(s: Seq<char>, i: int) -> int
    recommends
        link_at(s, i),
{
    first_bracket(s, i + 2) + 2
}

/// The targets of all link tokens at or after position `i`, leftmost first,
/// later matches starting only after the previous match's end.
pub open spec fn links_from(s: Seq<char>, i: int) -> Seq<Seq<char>>
    recommends
        0 <= i,
    decreases s.len() - i when 0 <= i <= s.len()
{
    if i >= s.len() {
        Seq::empty()
    } else if link_at(s, i) {
        seq![link_target(s, i)] + links_from(s, link_end(s, i))
    } else {
        links_from(s, i + 1)
    }
}

/// Every link target in the text, in left-to-right discovery order.
pub open spec fn links_of(s: Seq<char>) -> Seq<Seq<char>> {
    links_from(s, 0)
}

/// Find the first bracket character at or after `start`.
fn find_bracket(cs: &Vec<char>, start: usize) -> (r: usize)
    requires
        start <= cs@.len(),
    ensures
        r == first_bracket(cs@, start as int),
        start <= r <= cs@.len(),
{
    let mut j = start;
    while j < cs.len()
        invariant
            start <= j <= cs@.len(),
            first_bracket(cs@, start as int) == first_bracket(cs@, j as int),
        decreases cs@.len() - j,
    {
        let c = cs[j];
        if c == '[' || c == ']' {
            return j;
        }
        j = j + 1;
    }
    j
}

/// Find the first pipe in `[start, end)`.
fn find_pipe(cs: &Vec<char>, start: usize, end: usize) -> (r: usize)
    requires
        start <= end,
        end <= cs@.len(),
    ensures
        r == first_pipe(cs@, start as int, end as int),
        start <= r <= end,
{
    let mut j = start;
    while j < end
        invariant
            start <= j <= end,
            end <= cs@.len(),
            first_pipe(cs@, start as int, end as int) == first_pipe(cs@, j as int, end as int),
        decreases end - j,
    {
        if cs[j] == '|' {
            return j;
        }
        j = j + 1;
    }
    j
}

/// Extract every link target from a page's text, in left-to-right discovery
/// order: one target per non-overlapping link token.
pub fn links(text: &str) -> (r: Vec<String>)
    ensures
        r@.map_values(|t: String| t@) == links_of(text@),
{
    let cs = chars_of(text);
    let mut out: Vec<String> = Vec::new();
    let mut i: usize = 0;
    proof {
        assert(out@.map_values(|t: String| t@) + links_from(cs@, 0) =~= links_from(cs@, 0));
    }
    while i < cs.len()
        invariant
            cs@ == text@,
            i <= cs@.len(),
            links_of(text@) == out@.map_values(|t: String| t@) + links_from(cs@, i as int),
        decreases cs@.len() - i,
    {
        let ghost pre_out = out@.map_values(|t: String| t@);
        if i + 1 < cs.len() && cs[i] == '[' && cs[i + 1] == '[' {
            let fb = find_bracket(&cs, i + 2);
            if fb > i + 2 && fb < cs.len() && fb + 1 < cs.len() && cs[fb] == ']' && cs[fb + 1] == ']' {
                let p = find_pipe(&cs, i + 3, fb);
                let tend = if p < fb {
                    p
                } else {
                    fb
                };
                let mut tv: Vec<char> = Vec::new();
                let mut j = i + 2;
                while j < tend
                    invariant
                        i + 2 <= j <= tend,
                        tend <= cs@.len(),
                        tv@ == cs@.subrange(i + 2, j as int),
                    decreases tend - j,
                {
                    tv.push(cs[j]);
                    proof {
                        assert(tv@ =~= cs@.subrange(i + 2, j + 1 as int));
                    }
                    j = j + 1;
                }
                let t = string_from_chars(&tv);
                out.push(t);
                proof {
                    assert(link_at(cs@, i as int));
                    assert(t@ == link_target(cs@, i as int));
                    assert(out@.map_values(|t2: String| t2@) =~= pre_out + seq![
                        link_target(cs@, i as int),
                    ]);
                    assert(links_from(cs@, i as int) == seq![link_target(cs@, i as int)]
                        + links_from(cs@, link_end(cs@, i as int)));
                    assert((pre_out + seq![link_target(cs@, i as int)]) + links_from(
                        cs@,
                        link_end(cs@, i as int),
                    ) =~= pre_out + (seq![link_target(cs@, i as int)] + links_from(
                        cs@,
                        link_end(cs@, i as int),
                    )));
                }
                i = fb + 2;
            } else {
                proof {
                    assert(!link_at(cs@, i as int));
                }
                i = i + 1;
            }
        } else {
            proof {
                assert(!link_at(cs@, i as int));
            }
            i = i + 1;
        }
    }
    proof {
        assert(links_from(cs@, i as int) == Seq::<Seq<char>>::empty());
        assert(out@.map_values(|t: String| t@) + Seq::<Seq<char>>::empty() =~= out@.map_values(
            |t: String| t@,
        ));
    }
    out
}

} // verus!
