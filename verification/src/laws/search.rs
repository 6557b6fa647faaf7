//! Laws of the search: what a query matches, and what is searched.

use vstd::prelude::*;

use crate::chars;
use crate::fuzzy;
use crate::laws::picker;
use crate::state::StateModel;

verus! {

/// Matching, from the end: nothing is in everything, and only nothing is in nothing.
/// Where both end alike, the rest of the needle is to be found in the rest of the
/// haystack; else the end of the haystack is of no use.
pub proof fn matching_goes_from_the_end(hay: Seq<char>, needle: Seq<char>)
    ensures
        needle.len() == 0 ==> fuzzy::is_subsequence(hay, needle),
        hay.len() == 0 && needle.len() > 0 ==> !fuzzy::is_subsequence(hay, needle),
        hay.len() > 0 && needle.len() > 0 && hay.last() == needle.last() ==> (
        fuzzy::is_subsequence(hay, needle) <==> fuzzy::is_subsequence(
            hay.drop_last(),
            needle.drop_last(),
        )),
        hay.len() > 0 && needle.len() > 0 && hay.last() != needle.last() ==> (
        fuzzy::is_subsequence(hay, needle) <==> fuzzy::is_subsequence(hay.drop_last(), needle)),
{
    if needle.len() == 0 {
        assert(fuzzy::places(hay, needle, Seq::empty()));
    } else if hay.len() == 0 {
        if fuzzy::is_subsequence(hay, needle) {
            let at = choose|at: Seq<int>| fuzzy::places(hay, needle, at);
            assert(0 <= at[0] < hay.len());
        }
    } else {
        let h = hay.drop_last();
        let n = needle.drop_last();
        let end = hay.len() - 1;
        if hay.last() == needle.last() {
            if fuzzy::is_subsequence(hay, needle) {
                let at = choose|at: Seq<int>| fuzzy::places(hay, needle, at);
                let fewer = at.drop_last();
                assert forall|i: int| 0 <= i < fewer.len() implies 0 <= #[trigger] fewer[i]
                    < h.len() && h[fewer[i]] == n[i] by {
                    assert(at[i] < at[at.len() - 1]);
                    assert(at[at.len() - 1] < hay.len());
                    assert(hay[at[i]] == needle[i]);
                }
                assert(fuzzy::places(h, n, fewer));
            }
            if fuzzy::is_subsequence(h, n) {
                let at = choose|at: Seq<int>| fuzzy::places(h, n, at);
                let more = at.push(end);
                assert forall|i: int| 0 <= i < more.len() implies 0 <= #[trigger] more[i]
                    < hay.len() && hay[more[i]] == needle[i] by {
                    if i < at.len() {
                        assert(h[at[i]] == n[i]);
                    }
                }
                assert(fuzzy::places(hay, needle, more));
            }
        } else {
            if fuzzy::is_subsequence(hay, needle) {
                let at = choose|at: Seq<int>| fuzzy::places(hay, needle, at);
                let last = at.len() - 1;
                assert(hay[at[last]] == needle[last]);
                assert(at[last] != end);
                assert forall|i: int| 0 <= i < at.len() implies 0 <= #[trigger] at[i] < h.len()
                    && h[at[i]] == needle[i] by {
                    if i < last {
                        assert(at[i] < at[last]);
                    }
                    assert(hay[at[i]] == needle[i]);
                }
                assert(fuzzy::places(h, needle, at));
            }
            if fuzzy::is_subsequence(h, needle) {
                let at = choose|at: Seq<int>| fuzzy::places(h, needle, at);
                assert forall|i: int| 0 <= i < at.len() implies 0 <= #[trigger] at[i] < hay.len()
                    && hay[at[i]] == needle[i] by {
                    assert(h[at[i]] == needle[i]);
                }
                assert(fuzzy::places(hay, needle, at));
            }
        }
    }
}

/// A target is shown if and only if the query in small letters can be had, by
/// leaving characters out, from its token, a space and its whole context in small
/// letters. What is shown are positions of targets, and they ascend.
pub proof fn token_and_whole_context_are_searched(s: StateModel, k: int)
    requires
        s.targets.len() <= usize::MAX,
        0 <= k < s.targets.len(),
    ensures
        s.filtered().contains(k as usize) <==> fuzzy::is_subsequence(
            chars::lowercase(s.targets[k].token.push(' ') + s.targets[k].context),
            chars::lowercase(s.query),
        ),
        forall|i: int|
            0 <= i < s.filtered().len() ==> #[trigger] s.filtered()[i] < s.targets.len(),
        forall|i: int, j: int|
            0 <= i < j < s.filtered().len() ==> #[trigger] s.filtered()[i]
                < #[trigger] s.filtered()[j],
{
    let t = s.targets[k];
    reveal_strlit(" ");
    assert(t.token + " "@ + t.context =~= t.token.push(' ') + t.context);
    picker::filter_is_exact(s, k);
    s.filtered_is_in_range();
}

/// ASCII capitals as small letters, and all else as it is.
pub open spec fn lowered(s: Seq<char>) -> Seq<char> {
    s.map_values(
        |c: char|
            if 'A' <= c && c <= 'Z' {
                (c as u32 + 32) as char
            } else {
                c
            },
    )
}

/// What is found in the token alone is found, and so is what is found in the context
/// alone, wherever it stands in there.
pub proof fn either_alone_is_enough(token: Seq<char>, context: Seq<char>, query: Seq<char>)
    requires
        fuzzy::is_subsequence(lowered(token), lowered(query)) || fuzzy::is_subsequence(
            lowered(context),
            lowered(query),
        ),
    ensures
        fuzzy::is_subsequence(lowered(token.push(' ') + context), lowered(query)),
{
    let hay = lowered(token.push(' ') + context);
    if fuzzy::is_subsequence(lowered(token), lowered(query)) {
        assert(hay.subrange(0, token.len() as int) =~= lowered(token));
        fuzzy::a_part_is_a_subsequence(hay, lowered(token), 0);
        fuzzy::subsequence_is_transitive(hay, lowered(token), lowered(query));
    } else {
        let n = token.len() + 1;
        assert(hay.subrange(n as int, (n + context.len()) as int) =~= lowered(context));
        fuzzy::a_part_is_a_subsequence(hay, lowered(context), n as int);
        fuzzy::subsequence_is_transitive(hay, lowered(context), lowered(query));
    }
}

/// So every target is shown whose token alone or whose context alone matches the
/// query, wherever lowering the case is what it is on ASCII.
pub proof fn whatever_matches_either_is_shown(s: StateModel, k: int)
    requires
        s.targets.len() <= usize::MAX,
        0 <= k < s.targets.len(),
        ({
            let t = s.targets[k];
            let hay = t.token.push(' ') + t.context;
            &&& chars::lowercase(hay) == lowered(hay)
            &&& chars::lowercase(s.query) == lowered(s.query)
            &&& fuzzy::is_subsequence(lowered(t.token), lowered(s.query)) || fuzzy::is_subsequence(
                lowered(t.context),
                lowered(s.query),
            )
        }),
    ensures
        s.filtered().contains(k as usize),
{
    either_alone_is_enough(s.targets[k].token, s.targets[k].context, s.query);
    token_and_whole_context_are_searched(s, k);
}

/// The first occurrence of a part is where the part stands, and it stands nowhere
/// before; there is none only where it stands nowhere.
pub proof fn first_occurrences_are_first(s: Seq<char>, part: Seq<char>)
    ensures
        match chars::first_occurrence(s, part) {
            Some(k) => {
                &&& k + part.len() <= s.len()
                &&& s.subrange(k as int, (k + part.len()) as int) == part
                &&& forall|j: int| 0 <= j < k ==> #[trigger] s.subrange(j, j + part.len()) != part
            },
            None => forall|j: int|
                0 <= j && j + part.len() <= s.len() ==> #[trigger] s.subrange(j, j + part.len())
                    != part,
        },
{
    chars::first_from_is_first(s, part, 0);
    match chars::first_occurrence(s, part) {
        Some(k) => {
            assert forall|j: int| 0 <= j < k implies #[trigger] s.subrange(j, j + part.len())
                != part by {
                assert(!chars::occurs_at(s, part, j));
            }
        },
        None => {
            assert forall|j: int| 0 <= j && j + part.len() <= s.len() implies #[trigger] s.subrange(
                j,
                j + part.len(),
            ) != part by {
                assert(!chars::occurs_at(s, part, j));
            }
        },
    }
}

}
