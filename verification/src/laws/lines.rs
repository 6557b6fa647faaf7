//! Laws of lines: their words are their runs of characters that are not blank,
//! and trimming cuts off what is to be cut off and no more.

use vstd::prelude::*;

use crate::chars;
use crate::scrollback;
use crate::target;

verus! {

/// From `a` up to `b` no character is blank, and the run ends at both sides at a
/// blank or with the line.
pub open spec fn is_run(line: Seq<char>, a: int, b: int) -> bool {
    &&& 0 <= a < b <= line.len()
    &&& forall|i: int| a <= i < b ==> !chars::whitespace(#[trigger] line[i])
    &&& a == 0 || chars::whitespace(line[a - 1])
    &&& b == line.len() || chars::whitespace(line[b])
}

/// A run stays a run where what stands before it is left out.
proof fn run_shifts(line: Seq<char>, k: int, a: int, b: int)
    requires
        0 <= k <= line.len(),
        k < a || (k == a && 0 < k && chars::whitespace(line[k - 1])),
    ensures
        is_run(line, a, b) <==> is_run(line.skip(k), a - k, b - k),
{
    let rest = line.skip(k);
    if is_run(line, a, b) {
        assert forall|i: int| a - k <= i < b - k implies !chars::whitespace(#[trigger] rest[i]) by {
            assert(rest[i] == line[i + k]);
        }
    }
    if is_run(rest, a - k, b - k) {
        assert forall|i: int| a <= i < b implies !chars::whitespace(#[trigger] line[i]) by {
            assert(rest[i - k] == line[i]);
        }
    }
}

/// The words of a line are its runs, in order: `at` gives where each word begins,
/// and every run of the line is one of the words.
pub proof fn words_are_the_runs(line: Seq<char>) -> (at: Seq<int>)
    ensures
        ({
            let words = scrollback::words(line);
            &&& at.len() == words.len()
            &&& forall|w: int|
                0 <= w < at.len() ==> is_run(line, #[trigger] at[w], at[w] + words[w].len())
                    && words[w] == line.subrange(at[w], at[w] + words[w].len())
            &&& forall|v: int, w: int|
                0 <= v < w < at.len() ==> #[trigger] at[v] < #[trigger] at[w]
            &&& forall|a: int, b: int| #[trigger]
                is_run(line, a, b) ==> exists|w: int|
                    0 <= w < at.len() && #[trigger] at[w] == a && words[w] == line.subrange(a, b)
        }),
    decreases line.len(),
{
    let words = scrollback::words(line);
    if line.len() == 0 {
        Seq::empty()
    } else if chars::whitespace(line[0]) {
        let rest = line.skip(1);
        let before = words_are_the_runs(rest);
        let at = Seq::new(before.len(), |w: int| before[w] + 1);
        assert(words == scrollback::words(rest));
        assert forall|w: int| 0 <= w < at.len() implies is_run(
            line,
            #[trigger] at[w],
            at[w] + words[w].len(),
        ) && words[w] == line.subrange(at[w], at[w] + words[w].len()) by {
            assert(is_run(rest, before[w], before[w] + words[w].len()));
            run_shifts(line, 1, at[w], at[w] + words[w].len());
            assert(rest.subrange(before[w], before[w] + words[w].len()) =~= line.subrange(
                at[w],
                at[w] + words[w].len(),
            ));
        }
        assert forall|v: int, w: int| 0 <= v < w < at.len() implies #[trigger] at[v]
            < #[trigger] at[w] by {
            assert(before[v] < before[w]);
        }
        assert forall|a: int, b: int| #[trigger] is_run(line, a, b) implies exists|w: int|
            0 <= w < at.len() && #[trigger] at[w] == a && words[w] == line.subrange(a, b) by {
            run_shifts(line, 1, a, b);
            assert(is_run(rest, a - 1, b - 1));
            let w = choose|w: int|
                0 <= w < before.len() && #[trigger] before[w] == a - 1 && words[w] == rest.subrange(
                    a - 1,
                    b - 1,
                );
            assert(at[w] == a);
            assert(rest.subrange(a - 1, b - 1) =~= line.subrange(a, b));
        }
        at
    } else {
        scrollback::word_len_fits(line);
        let n = scrollback::word_len(line) as int;
        let rest = line.skip(n);
        let before = words_are_the_runs(rest);
        let later = scrollback::words(rest);
        let at = seq![0int] + Seq::new(before.len(), |w: int| before[w] + n);
        assert(words == seq![line.take(n)] + later);
        assert forall|w: int| 0 <= w < at.len() implies is_run(
            line,
            #[trigger] at[w],
            at[w] + words[w].len(),
        ) && words[w] == line.subrange(at[w], at[w] + words[w].len()) by {
            if w == 0 {
                assert(line.take(n) =~= line.subrange(0, n));
            } else {
                let a = before[w - 1];
                let len = later[w - 1].len();
                assert(is_run(rest, a, a + len));
                assert(a > 0) by {
                    if a == 0 {
                        assert(rest[0] == line[n]);
                    }
                }
                run_shifts(line, n, a + n, a + n + len);
                assert(words[w] == later[w - 1]);
                assert(rest.subrange(a, a + len) =~= line.subrange(a + n, a + n + len));
            }
        }
        assert forall|v: int, w: int| 0 <= v < w < at.len() implies #[trigger] at[v]
            < #[trigger] at[w] by {
            assert(is_run(rest, before[w - 1], before[w - 1] + later[w - 1].len()));
            if v > 0 {
                assert(before[v - 1] < before[w - 1]);
            }
        }
        assert forall|a: int, b: int| #[trigger] is_run(line, a, b) implies exists|w: int|
            0 <= w < at.len() && #[trigger] at[w] == a && words[w] == line.subrange(a, b) by {
            if a == 0 {
                assert(b == n);
                assert(at[0] == 0);
                assert(words[0] == line.take(n));
                assert(line.take(n) =~= line.subrange(0, n));
            } else {
                assert(a > n) by {
                    if a <= n {
                        assert(!chars::whitespace(line[a - 1]));
                    }
                }
                run_shifts(line, n, a, b);
                assert(is_run(rest, a - n, b - n));
                let w = choose|w: int|
                    0 <= w < before.len() && #[trigger] before[w] == a - n && later[w]
                        == rest.subrange(a - n, b - n);
                assert(at[w + 1] == a);
                assert(words[w + 1] == later[w]);
                assert(rest.subrange(a - n, b - n) =~= line.subrange(a, b));
            }
        }
        at
    }
}

/// From `i` up to `j` is what is left of `s` where everything that `lead` holds of
/// is cut off at the start, and everything that `trail` holds of at the end.
pub open spec fn cut_at(
    s: Seq<char>,
    lead: spec_fn(char) -> bool,
    trail: spec_fn(char) -> bool,
    i: int,
    j: int,
) -> bool {
    &&& 0 <= i <= j <= s.len()
    &&& forall|k: int| 0 <= k < i ==> lead(#[trigger] s[k])
    &&& i < s.len() ==> !lead(s[i])
    &&& forall|k: int| j <= k < s.len() ==> trail(#[trigger] s[k])
    &&& i < j ==> !trail(s[j - 1])
}

/// `r` is what is left of `s` after cutting.
pub open spec fn cut(
    s: Seq<char>,
    lead: spec_fn(char) -> bool,
    trail: spec_fn(char) -> bool,
    r: Seq<char>,
) -> bool {
    exists|i: int, j: int| #[trigger] cut_at(s, lead, trail, i, j) && r == s.subrange(i, j)
}

/// Stripping the start and then the end is cutting.
proof fn stripping_is_cutting(
    s: Seq<char>,
    p: spec_fn(char) -> bool,
    q: spec_fn(char) -> bool,
    r: Seq<char>,
)
    ensures
        cut(s, p, q, r) <==> r == chars::strip_end(chars::strip_start(s, p), q),
{
    let k = chars::strip_start_is_suffix(s, p);
    let rest = s.skip(k);
    let m = chars::strip_end_is_prefix(rest, q);
    assert(rest.take(m) =~= s.subrange(k, k + m));
    assert forall|n: int| k + m <= n < s.len() implies q(#[trigger] s[n]) by {
        assert(rest[n - k] == s[n]);
    }
    if m > 0 {
        assert(rest[m - 1] == s[k + m - 1]);
    }
    assert(cut_at(s, p, q, k, k + m));
    if cut(s, p, q, r) {
        let (i, j) = choose|i: int, j: int| #[trigger]
            cut_at(s, p, q, i, j) && r == s.subrange(i, j);
        assert(i == k) by {
            if i < k {
                assert(p(s[i]));
            } else if k < i {
                assert(p(s[k]));
            }
        }
        assert(j == k + m) by {
            if j < k + m {
                assert(q(s[k + m - 1]));
            } else if k + m < j {
                assert(q(s[j - 1]));
            }
        }
    }
}

/// What a word can be wrapped in at its start: blanks, quotes and opening brackets.
pub open spec fn opens(c: char) -> bool {
    seq![' ', '\t', '"', '\'', '`', '(', '[', '{', '<'].contains(c)
}

/// What a word can be wrapped in at its end: blanks, quotes, closing brackets and
/// punctuation.
pub open spec fn closes(c: char) -> bool {
    seq![' ', '\t', '"', '\'', '`', ')', ']', '}', '>', '.', ',', ';', ':'].contains(c)
}

/// Trimming a word cuts off, as far as they go, the quotes and opening brackets
/// before it and the quotes, closing brackets and punctuation behind it.
pub proof fn wrapping_is_cut_off(word: Seq<char>, r: Seq<char>)
    ensures
        target::trimmed_junk(word) == r <==> cut(
            word,
            |c: char| opens(c),
            |c: char| closes(c),
            r,
        ),
{
    let lead = |c: char| opens(c);
    let trail = |c: char| closes(c);
    assert forall|c: char| #[trigger] opens(c) <==> target::lead_junk()(c) by {
        let all = seq![' ', '\t', '"', '\'', '`', '(', '[', '{', '<'];
        assert(all[0] == ' ' && all[1] == '\t' && all[2] == '"' && all[3] == '\'' && all[4] == '`'
            && all[5] == '(' && all[6] == '[' && all[7] == '{' && all[8] == '<');
    }
    assert forall|c: char| #[trigger] closes(c) <==> target::trail_junk()(c) by {
        let all = seq![' ', '\t', '"', '\'', '`', ')', ']', '}', '>', '.', ',', ';', ':'];
        assert(all[0] == ' ' && all[1] == '\t' && all[2] == '"' && all[3] == '\'' && all[4] == '`'
            && all[5] == ')' && all[6] == ']' && all[7] == '}' && all[8] == '>' && all[9] == '.'
            && all[10] == ',' && all[11] == ';' && all[12] == ':');
    }
    assert(lead =~= target::lead_junk());
    assert(trail =~= target::trail_junk());
    stripping_is_cutting(word, lead, trail, r);
}

/// Trimming a line cuts off the blanks before and behind it, and no more.
pub proof fn blanks_are_cut_off(line: Seq<char>, r: Seq<char>)
    ensures
        scrollback::trimmed(line) == r <==> cut(
            line,
            |c: char| chars::whitespace(c),
            |c: char| chars::whitespace(c),
            r,
        ),
{
    let blank = |c: char| chars::whitespace(c);
    assert(blank =~= scrollback::blank());
    stripping_is_cutting(line, blank, blank, r);
}

}
