//! Fuzzy matching: the characters of the needle occur in the haystack in order,
//! with anything between them.

use vstd::prelude::*;

use crate::chars;
use crate::scrollback;

verus! {

/// `at` gives, for each element of `needle`, a position of it in `hay`, in order.
pub open spec fn places(hay: Seq<char>, needle: Seq<char>, at: Seq<int>) -> bool {
    &&& at.len() == needle.len()
    &&& forall|i: int|
        0 <= i < at.len() ==> 0 <= #[trigger] at[i] < hay.len() && hay[at[i]] == needle[i]
    &&& forall|i: int, j: int| 0 <= i < j < at.len() ==> #[trigger] at[i] < #[trigger] at[j]
}

/// `needle` can be had from `hay` by leaving characters out.
pub open spec fn is_subsequence(hay: Seq<char>, needle: Seq<char>) -> bool {
    exists|at: Seq<int>| places(hay, needle, at)
}

/// The next character of the haystack is the next one that is looked for.
proof fn step_matches(hay: Seq<char>, needle: Seq<char>, i: int, k: int)
    requires
        0 <= i < hay.len(),
        0 <= k < needle.len(),
        is_subsequence(hay.take(i), needle.take(k)),
        !is_subsequence(hay.take(i), needle.take(k + 1)),
        hay[i] == needle[k],
    ensures
        is_subsequence(hay.take(i + 1), needle.take(k + 1)),
        k + 1 < needle.len() ==> !is_subsequence(hay.take(i + 1), needle.take(k + 2)),
{
    let at = choose|at: Seq<int>| places(hay.take(i), needle.take(k), at);
    assert(places(hay.take(i + 1), needle.take(k + 1), at.push(i)));
    if k + 1 < needle.len() && is_subsequence(hay.take(i + 1), needle.take(k + 2)) {
        let longer = hay.take(i + 1);
        let wanted = needle.take(k + 2);
        let b = choose|b: Seq<int>| places(longer, wanted, b);
        let c = b.drop_last();
        assert(b[b.len() - 1] <= i);
        assert forall|j: int| 0 <= j < c.len() implies 0 <= #[trigger] c[j] < hay.take(i).len()
            && hay.take(i)[c[j]] == needle.take(k + 1)[j] by {
            assert(b[j] < b[b.len() - 1]);
            assert(hay.take(i + 1)[b[j]] == needle.take(k + 2)[j]);
        }
        assert(places(hay.take(i), needle.take(k + 1), c));
    }
}

/// The next character of the haystack is not the one that is looked for.
proof fn step_skips(hay: Seq<char>, needle: Seq<char>, i: int, k: int)
    requires
        0 <= i < hay.len(),
        0 <= k < needle.len(),
        is_subsequence(hay.take(i), needle.take(k)),
        !is_subsequence(hay.take(i), needle.take(k + 1)),
        hay[i] != needle[k],
    ensures
        is_subsequence(hay.take(i + 1), needle.take(k)),
        !is_subsequence(hay.take(i + 1), needle.take(k + 1)),
{
    let at = choose|at: Seq<int>| places(hay.take(i), needle.take(k), at);
    assert forall|j: int| 0 <= j < at.len() implies 0 <= #[trigger] at[j] < hay.take(i + 1).len()
        && hay.take(i + 1)[at[j]] == needle.take(k)[j] by {
        assert(hay.take(i)[at[j]] == needle.take(k)[j]);
    }
    assert(places(hay.take(i + 1), needle.take(k), at));
    if is_subsequence(hay.take(i + 1), needle.take(k + 1)) {
        let longer = hay.take(i + 1);
        let wanted = needle.take(k + 1);
        let b = choose|b: Seq<int>| places(longer, wanted, b);
        assert(hay.take(i + 1)[b[k]] == needle.take(k + 1)[k]);
        assert(b[k] != i);
        assert forall|j: int| 0 <= j < b.len() implies 0 <= #[trigger] b[j] < hay.take(i).len()
            && hay.take(i)[b[j]] == needle.take(k + 1)[j] by {
            if j < k {
                assert(b[j] < b[k]);
            }
            assert(hay.take(i + 1)[b[j]] == needle.take(k + 1)[j]);
        }
        assert(places(hay.take(i), needle.take(k + 1), b));
    }
}

/// Leaving characters out twice is leaving characters out.
pub proof fn subsequence_is_transitive(hay: Seq<char>, middle: Seq<char>, needle: Seq<char>)
    requires
        is_subsequence(hay, middle),
        is_subsequence(middle, needle),
    ensures
        is_subsequence(hay, needle),
{
    let outer = choose|at: Seq<int>| places(hay, middle, at);
    let inner = choose|at: Seq<int>| places(middle, needle, at);
    let both = Seq::new(needle.len(), |i: int| outer[inner[i]]);
    assert forall|i: int| 0 <= i < both.len() implies 0 <= #[trigger] both[i] < hay.len()
        && hay[both[i]] == needle[i] by {
        assert(middle[inner[i]] == needle[i]);
        assert(hay[outer[inner[i]]] == middle[inner[i]]);
    }
    assert forall|i: int, j: int| 0 <= i < j < both.len() implies #[trigger] both[i]
        < #[trigger] both[j] by {
        assert(inner[i] < inner[j]);
        assert(0 <= inner[i] < middle.len() && 0 <= inner[j] < middle.len());
        assert(outer[inner[i]] < outer[inner[j]]);
    }
    assert(places(hay, needle, both));
}

/// What occurs in one piece matches; so does everything match itself, and so
/// does the empty needle match everything.
pub proof fn a_part_is_a_subsequence(hay: Seq<char>, part: Seq<char>, i: int)
    requires
        chars::occurs_at(hay, part, i),
    ensures
        is_subsequence(hay, part),
        is_subsequence(hay, hay),
        is_subsequence(hay, Seq::empty()),
{
    let at = Seq::new(part.len(), |j: int| i + j);
    assert forall|j: int| 0 <= j < at.len() implies 0 <= #[trigger] at[j] < hay.len() && hay[at[j]]
        == part[j] by {
        assert(hay.subrange(i, i + part.len())[j] == hay[i + j]);
    }
    assert(places(hay, part, at));
    assert(places(hay, hay, Seq::new(hay.len(), |j: int| j)));
    assert(places(hay, Seq::empty(), Seq::empty()));
}

/// A longer needle matches less: whatever matches it also matches its prefixes.
pub proof fn a_prefix_matches_no_less(hay: Seq<char>, needle: Seq<char>, k: int)
    requires
        is_subsequence(hay, needle),
        0 <= k <= needle.len(),
    ensures
        is_subsequence(hay, needle.take(k)),
{
    assert(chars::occurs_at(needle, needle.take(k), 0));
    a_part_is_a_subsequence(needle, needle.take(k), 0);
    subsequence_is_transitive(hay, needle, needle.take(k));
}

/// Whether `needle` can be had from `haystack` by leaving characters out. Case
/// counts: the caller lowercases both.
pub fn subsequence(haystack: &str, needle: &str) -> (r: bool)
    ensures
        r == is_subsequence(haystack@, needle@),
{
    let hay = chars::chars_of(haystack);
    let wanted = chars::chars_of(needle);
    let n: usize = hay.len();
    let m: usize = wanted.len();
    let mut i: usize = 0;
    let mut k: usize = 0;
    proof {
        assert(places(hay@.take(0), wanted@.take(0), Seq::empty()));
        if m > 0 && is_subsequence(hay@.take(0), wanted@.take(1)) {
            let nothing = hay@.take(0);
            let first = wanted@.take(1);
            let at = choose|at: Seq<int>| places(nothing, first, at);
            assert(0 <= at[0] < nothing.len());
        }
    }
    while i < n && k < m
        invariant
            n == hay@.len(),
            m == wanted@.len(),
            i <= n,
            k <= m,
            is_subsequence(hay@.take(i as int), wanted@.take(k as int)),
            k < m ==> !is_subsequence(hay@.take(i as int), wanted@.take(k + 1)),
        decreases n - i,
    {
        if hay[i] == wanted[k] {
            proof {
                step_matches(hay@, wanted@, i as int, k as int);
            }
            k += 1;
        } else {
            proof {
                step_skips(hay@, wanted@, i as int, k as int);
            }
        }
        i += 1;
    }
    proof {
        if k == m {
            assert(wanted@.take(m as int) =~= wanted@);
            assert(chars::occurs_at(hay@, hay@.take(i as int), 0));
            a_part_is_a_subsequence(hay@, hay@.take(i as int), 0);
            subsequence_is_transitive(hay@, hay@.take(i as int), wanted@);
        } else {
            assert(hay@.take(n as int) =~= hay@);
            if is_subsequence(hay@, wanted@) {
                a_prefix_matches_no_less(hay@, wanted@, k + 1);
            }
        }
    }
    k == m
}

/// The positions, among the first `n` haystacks, of those that match.
pub open spec fn hits(haystacks: Seq<Seq<char>>, needle: Seq<char>, n: nat) -> Seq<usize>
    decreases n,
{
    if n == 0 {
        Seq::empty()
    } else {
        let before = hits(haystacks, needle, (n - 1) as nat);
        if is_subsequence(haystacks[n - 1], needle) {
            before.push((n - 1) as usize)
        } else {
            before
        }
    }
}

/// The positions of the haystacks that match, in order. Case counts: the caller
/// lowercases them and the needle.
pub fn filter(haystacks: &Vec<String>, needle: &str) -> (r: Vec<usize>)
    ensures
        r@ == hits(scrollback::views(haystacks@), needle@, haystacks@.len()),
{
    let mut r: Vec<usize> = Vec::new();
    for i in 0..haystacks.len()
        invariant
            r@ == hits(scrollback::views(haystacks@), needle@, i as nat),
    {
        if subsequence(haystacks[i].as_str(), needle) {
            r.push(i);
        }
    }
    r
}

/// Among the first `n` haystacks exactly those that match are hits, and the hits
/// ascend.
pub proof fn hits_are_the_matches(haystacks: Seq<Seq<char>>, needle: Seq<char>, n: nat)
    requires
        n <= usize::MAX,
    ensures
        hits(haystacks, needle, n).len() <= n,
        forall|i: int|
            0 <= i < hits(haystacks, needle, n).len() ==> #[trigger] hits(haystacks, needle, n)[i]
                < n && is_subsequence(haystacks[hits(haystacks, needle, n)[i] as int], needle),
        forall|i: int, j: int|
            0 <= i < j < hits(haystacks, needle, n).len() ==> #[trigger] hits(
                haystacks,
                needle,
                n,
            )[i] < #[trigger] hits(haystacks, needle, n)[j],
        forall|k: int|
            0 <= k < n && is_subsequence(#[trigger] haystacks[k], needle) ==> hits(
                haystacks,
                needle,
                n,
            ).contains(k as usize),
    decreases n,
{
    if n > 0 {
        hits_are_the_matches(haystacks, needle, (n - 1) as nat);
        let before = hits(haystacks, needle, (n - 1) as nat);
        let all = hits(haystacks, needle, n);
        assert forall|k: int|
            0 <= k < n && is_subsequence(#[trigger] haystacks[k], needle) implies all.contains(
            k as usize,
        ) by {
            if k < n - 1 {
                assert(before.contains(k as usize));
                let i = choose|i: int| 0 <= i < before.len() && before[i] == k as usize;
                assert(all[i] == k as usize);
            } else {
                assert(all[before.len() as int] == k as usize);
            }
        }
    }
}

}
