//! Laws of extraction: which targets a scrollback gives, in which order and with
//! which context.

use vstd::prelude::*;

use crate::chars;
use crate::laws::lines;
use crate::laws::tokens;
use crate::scrollback;
use crate::scrollback::TargetModel;
use crate::target;

verus! {

/// From `a` up to `b` stands a run of the line without blanks that is the token,
/// once what it is wrapped in is cut off.
pub open spec fn mentioned_at(line: Seq<char>, token: Seq<char>, a: int, b: int) -> bool {
    &&& lines::is_run(line, a, b)
    &&& lines::cut(
        line.subrange(a, b),
        |c: char| lines::opens(c),
        |c: char| lines::closes(c),
        token,
    )
}

/// Somewhere in the line stands the token.
pub open spec fn mentions(line: Seq<char>, token: Seq<char>) -> bool {
    exists|a: int, b: int| mentioned_at(line, token, a, b)
}

/// A word of the line, without the junk around it, is the token.
spec fn has_word(line: Seq<char>, token: Seq<char>) -> bool {
    exists|w: int|
        0 <= w < scrollback::words(line).len() && target::trimmed_junk(
            #[trigger] scrollback::words(line)[w],
        ) == token
}

/// A token stands in a line if and only if it is one of the trimmed words.
proof fn mentions_are_words(line: Seq<char>, token: Seq<char>)
    ensures
        mentions(line, token) <==> has_word(line, token),
{
    let at = lines::words_are_the_runs(line);
    let words = scrollback::words(line);
    if has_word(line, token) {
        let w = choose|w: int|
            0 <= w < scrollback::words(line).len() && target::trimmed_junk(
                #[trigger] scrollback::words(line)[w],
            ) == token;
        lines::wrapping_is_cut_off(words[w], token);
        assert(lines::is_run(line, at[w], at[w] + words[w].len()));
        assert(mentioned_at(line, token, at[w], at[w] + words[w].len()));
    }
    if mentions(line, token) {
        let (a, b) = choose|a: int, b: int| mentioned_at(line, token, a, b);
        assert(lines::is_run(line, a, b));
        let w = choose|w: int|
            0 <= w < at.len() && #[trigger] at[w] == a && words[w] == line.subrange(a, b);
        lines::wrapping_is_cut_off(words[w], token);
    }
}

/// The targets among words are, in order, the trimmed words that are targets, with
/// the context that is given; `at` gives which words they are.
pub proof fn targets_among_words(words: Seq<Seq<char>>, context: Seq<char>) -> (at: Seq<int>)
    ensures
        ({
            let found = scrollback::word_targets(words, context);
            &&& at.len() == found.len()
            &&& forall|i: int|
                0 <= i < at.len() ==> {
                    &&& 0 <= #[trigger] at[i] < words.len()
                    &&& found[i].token == target::trimmed_junk(words[at[i]])
                    &&& target::is_target(found[i].token)
                    &&& found[i].context == context
                }
            &&& forall|i: int, j: int|
                0 <= i < j < at.len() ==> #[trigger] at[i] < #[trigger] at[j]
            &&& forall|w: int|
                0 <= w < words.len() && target::is_target(target::trimmed_junk(#[trigger] words[w]))
                    ==> at.contains(w)
        }),
    decreases words.len(),
{
    if words.len() == 0 {
        Seq::empty()
    } else {
        let fewer = words.drop_last();
        let before = targets_among_words(fewer, context);
        let n = words.len() - 1;
        if target::is_target(target::trimmed_junk(words.last())) {
            let at = before.push(n);
            assert forall|w: int|
                0 <= w < words.len() && target::is_target(
                    target::trimmed_junk(#[trigger] words[w]),
                ) implies at.contains(w) by {
                if w < n {
                    assert(fewer[w] == words[w]);
                    let i = choose|i: int| 0 <= i < before.len() && before[i] == w;
                    assert(at[i] == w);
                } else {
                    assert(at[before.len() as int] == w);
                }
            }
            at
        } else {
            assert forall|w: int|
                0 <= w < words.len() && target::is_target(
                    target::trimmed_junk(#[trigger] words[w]),
                ) implies before.contains(w) by {
                assert(fewer[w] == words[w]);
            }
            before
        }
    }
}

/// Every target among words is the trimmed form of one of them, and every word
/// whose trimmed form is a target is among them.
proof fn word_targets_are_the_words(words: Seq<Seq<char>>, context: Seq<char>)
    ensures
        forall|i: int|
            0 <= i < scrollback::word_targets(words, context).len() ==> {
                let t = #[trigger] scrollback::word_targets(words, context)[i];
                &&& target::is_target(t.token)
                &&& t.context == context
                &&& exists|w: int|
                    0 <= w < words.len() && target::trimmed_junk(#[trigger] words[w]) == t.token
            },
        forall|w: int|
            0 <= w < words.len() && target::is_target(target::trimmed_junk(#[trigger] words[w]))
                ==> scrollback::has_token(
                scrollback::word_targets(words, context),
                target::trimmed_junk(words[w]),
            ),
    decreases words.len(),
{
    if words.len() > 0 {
        let fewer = words.drop_last();
        word_targets_are_the_words(fewer, context);
        let before = scrollback::word_targets(fewer, context);
        let all = scrollback::word_targets(words, context);
        let last = target::trimmed_junk(words.last());
        assert forall|i: int| 0 <= i < all.len() implies {
            let t = #[trigger] all[i];
            &&& target::is_target(t.token)
            &&& t.context == context
            &&& exists|w: int|
                0 <= w < words.len() && target::trimmed_junk(#[trigger] words[w]) == t.token
        } by {
            if i < before.len() {
                assert(all[i] == before[i]);
                let w = choose|w: int|
                    0 <= w < fewer.len() && target::trimmed_junk(#[trigger] fewer[w])
                        == before[i].token;
                assert(words[w] == fewer[w]);
            } else {
                assert(words[words.len() - 1] == words.last());
            }
        }
        assert forall|w: int|
            0 <= w < words.len() && target::is_target(
                target::trimmed_junk(#[trigger] words[w]),
            ) implies scrollback::has_token(all, target::trimmed_junk(words[w])) by {
            if w < fewer.len() {
                assert(words[w] == fewer[w]);
                let i = choose|i: int|
                    0 <= i < before.len() && (#[trigger] before[i]).token == target::trimmed_junk(
                        fewer[w],
                    );
                assert(all[i] == before[i]);
            } else {
                assert(all[before.len() as int].token == last);
            }
        }
    }
}

/// The line that the target at position `k` of `all_targets` comes from.
spec fn line_of(lines: Seq<Seq<char>>, k: int) -> int
    decreases lines.len(),
{
    if lines.len() == 0 {
        -1
    } else if k < scrollback::line_targets(lines.last()).len() {
        lines.len() - 1
    } else {
        line_of(lines.drop_last(), k - scrollback::line_targets(lines.last()).len())
    }
}

/// Each target stands in its line.
proof fn line_of_mentions(lines: Seq<Seq<char>>, k: int)
    requires
        0 <= k < scrollback::all_targets(lines).len(),
    ensures
        0 <= line_of(lines, k) < lines.len(),
        ({
            let t = scrollback::all_targets(lines)[k];
            &&& target::is_target(t.token)
            &&& t.context == scrollback::trimmed(lines[line_of(lines, k)])
            &&& mentions(lines[line_of(lines, k)], t.token)
        }),
    decreases lines.len(),
{
    let own = scrollback::line_targets(lines.last());
    word_targets_are_the_words(
        scrollback::words(lines.last()),
        scrollback::trimmed(lines.last()),
    );
    if k < own.len() {
        assert(scrollback::all_targets(lines)[k] == own[k]);
        assert(has_word(lines.last(), own[k].token));
        mentions_are_words(lines.last(), own[k].token);
    } else {
        line_of_mentions(lines.drop_last(), k - own.len());
        assert(scrollback::all_targets(lines)[k] == scrollback::all_targets(lines.drop_last())[k
            - own.len()]);
    }
}

/// Later targets come from lines further up.
proof fn line_of_decreases(lines: Seq<Seq<char>>, k: int, m: int)
    requires
        0 <= k <= m < scrollback::all_targets(lines).len(),
    ensures
        line_of(lines, k) >= line_of(lines, m),
    decreases lines.len(),
{
    let own = scrollback::line_targets(lines.last());
    if k < own.len() {
        line_of_mentions(lines, m);
    } else {
        line_of_decreases(lines.drop_last(), k - own.len(), m - own.len());
    }
}

/// A target that a line mentions is among all targets, as one of that line.
proof fn mentioned_is_among_all(lines: Seq<Seq<char>>, l: int, token: Seq<char>) -> (k: int)
    requires
        0 <= l < lines.len(),
        mentions(lines[l], token),
        target::is_target(token),
    ensures
        0 <= k < scrollback::all_targets(lines).len(),
        scrollback::all_targets(lines)[k].token == token,
        line_of(lines, k) == l,
    decreases lines.len(),
{
    let own = scrollback::line_targets(lines.last());
    if l == lines.len() - 1 {
        mentions_are_words(lines[l], token);
        word_targets_are_the_words(
            scrollback::words(lines.last()),
            scrollback::trimmed(lines.last()),
        );
        assert(scrollback::has_token(own, token));
        let k = choose|k: int| 0 <= k < own.len() && (#[trigger] own[k]).token == token;
        assert(scrollback::all_targets(lines)[k] == own[k]);
        k
    } else {
        let k = mentioned_is_among_all(lines.drop_last(), l, token);
        assert(scrollback::all_targets(lines)[k + own.len()] == scrollback::all_targets(
            lines.drop_last(),
        )[k]);
        k + own.len()
    }
}

/// What is kept of a sequence of targets are the first occurrences of the tokens,
/// in order; `at` gives where they stand.
pub proof fn kept_are_the_first_occurrences(all: Seq<TargetModel>) -> (at: Seq<int>)
    ensures
        ({
            let kept = scrollback::with_new(Seq::empty(), all);
            &&& at.len() == kept.len()
            &&& forall|i: int|
                0 <= i < at.len() ==> 0 <= #[trigger] at[i] < all.len() && all[at[i]] == kept[i]
            &&& forall|i: int, j: int|
                0 <= i < j < at.len() ==> #[trigger] at[i] < #[trigger] at[j]
            &&& forall|i: int, k: int|
                0 <= i < at.len() && 0 <= k < at[i] ==> #[trigger] all[k].token
                    != #[trigger] kept[i].token
            &&& forall|k: int|
                0 <= k < all.len() ==> scrollback::has_token(kept, (#[trigger] all[k]).token)
        }),
    decreases all.len(),
{
    let kept = scrollback::with_new(Seq::empty(), all);
    if all.len() == 0 {
        Seq::empty()
    } else {
        let fewer = all.drop_last();
        let before = scrollback::with_new(Seq::empty(), fewer);
        let at = kept_are_the_first_occurrences(fewer);
        let n = all.len() - 1;
        if scrollback::has_token(before, all.last().token) {
            assert forall|i: int| 0 <= i < at.len() implies 0 <= #[trigger] at[i] < all.len()
                && all[at[i]] == kept[i] by {
                assert(fewer[at[i]] == before[i]);
            }
            assert forall|i: int, k: int|
                0 <= i < at.len() && 0 <= k < at[i] implies #[trigger] all[k].token
                != #[trigger] kept[i].token by {
                assert(fewer[at[i]] == before[i]);
                assert(fewer[k].token != before[i].token);
            }
            assert forall|k: int| 0 <= k < all.len() implies scrollback::has_token(
                kept,
                (#[trigger] all[k]).token,
            ) by {
                if k < n {
                    assert(fewer[k] == all[k]);
                }
            }
            at
        } else {
            let more = at.push(n);
            assert forall|i: int| 0 <= i < more.len() implies 0 <= #[trigger] more[i] < all.len()
                && all[more[i]] == kept[i] by {
                if i < at.len() {
                    assert(fewer[at[i]] == before[i]);
                }
            }
            assert forall|i: int, j: int| 0 <= i < j < more.len() implies #[trigger] more[i]
                < #[trigger] more[j] by {
                if j < at.len() {
                    assert(at[i] < at[j]);
                } else {
                    assert(0 <= at[i] < fewer.len());
                }
            }
            assert forall|i: int, k: int|
                0 <= i < more.len() && 0 <= k < more[i] implies #[trigger] all[k].token
                != #[trigger] kept[i].token by {
                assert(fewer[k] == all[k]) by {
                    if i < at.len() {
                        assert(0 <= at[i] < fewer.len());
                    }
                }
                if i < at.len() {
                    assert(kept[i] == before[i]);
                    assert(fewer[k].token != before[i].token);
                } else {
                    assert(scrollback::has_token(before, fewer[k].token));
                }
            }
            assert forall|k: int| 0 <= k < all.len() implies scrollback::has_token(
                kept,
                (#[trigger] all[k]).token,
            ) by {
                if k < n {
                    assert(fewer[k] == all[k]);
                    assert(scrollback::has_token(before, fewer[k].token));
                    let i = choose|i: int|
                        0 <= i < before.len() && (#[trigger] before[i]).token == all[k].token;
                    assert(kept[i] == before[i]);
                } else {
                    assert(kept[before.len() as int] == all[k]);
                }
            }
            more
        }
    }
}

/// Neither one of the targets nor one before it in `more` has the token of the one
/// at position `k`.
pub open spec fn is_new(targets: Seq<TargetModel>, more: Seq<TargetModel>, k: int) -> bool {
    &&& forall|m: int| 0 <= m < targets.len() ==> (#[trigger] targets[m]).token != more[k].token
    &&& forall|m: int| 0 <= m < k ==> (#[trigger] more[m]).token != more[k].token
}

/// What is added to targets are, in order, those of `more` whose token neither the
/// targets have nor one that comes before in `more`; `at` gives which they are. The
/// targets stay in front of them as they were.
pub proof fn new_tokens_are_added(targets: Seq<TargetModel>, more: Seq<TargetModel>) -> (at: Seq<
    int,
>)
    ensures
        ({
            let all = scrollback::with_new(targets, more);
            let n = targets.len() as int;
            &&& all.len() == n + at.len()
            &&& all.take(n) == targets
            &&& forall|i: int|
                0 <= i < at.len() ==> 0 <= #[trigger] at[i] < more.len() && all[n + i]
                    == more[at[i]]
            &&& forall|i: int, j: int|
                0 <= i < j < at.len() ==> #[trigger] at[i] < #[trigger] at[j]
            &&& forall|k: int|
                0 <= k < more.len() ==> (at.contains(k) <==> #[trigger] is_new(targets, more, k))
        }),
    decreases more.len(),
{
    let all = scrollback::with_new(targets, more);
    let n = targets.len() as int;
    if more.len() == 0 {
        assert(targets.take(n) =~= targets);
        Seq::empty()
    } else {
        let fewer = more.drop_last();
        let before = scrollback::with_new(targets, fewer);
        let at = new_tokens_are_added(targets, fewer);
        let last = more.len() - 1;
        let t = more.last();
        assert(before.take(n) =~= targets);
        // The token is there already if a target has it, or one before it.
        let is_old = (exists|m: int| 0 <= m < n && (#[trigger] targets[m]).token == t.token) || (
        exists|m: int| 0 <= m < last && (#[trigger] more[m]).token == t.token);
        assert(scrollback::has_token(before, t.token) <==> is_old) by {
            if scrollback::has_token(before, t.token) {
                let i = choose|i: int|
                    0 <= i < before.len() && (#[trigger] before[i]).token == t.token;
                if i < n {
                    assert(before.take(n)[i] == targets[i]);
                    assert(targets[i].token == t.token);
                } else {
                    assert(0 <= at[i - n] < fewer.len() && before[n + (i - n)] == fewer[at[i - n]]);
                    assert(more[at[i - n]].token == t.token);
                }
            }
            if exists|m: int| 0 <= m < n && (#[trigger] targets[m]).token == t.token {
                let m = choose|m: int| 0 <= m < n && (#[trigger] targets[m]).token == t.token;
                assert(before.take(n)[m] == targets[m]);
                assert(before[m].token == t.token);
            } else if exists|m: int| 0 <= m < last && (#[trigger] more[m]).token == t.token {
                let m = choose|m: int| 0 <= m < last && (#[trigger] more[m]).token == t.token;
                assert(fewer[m].token == t.token);
                first_of_its_token(fewer, t.token);
                let k = choose|k: int|
                    0 <= k < fewer.len() && (#[trigger] fewer[k]).token == t.token && forall|m: int|
                        0 <= m < k ==> (#[trigger] fewer[m]).token != t.token;
                assert(is_new(targets, fewer, k));
                assert(at.contains(k));
                let i = choose|i: int| 0 <= i < at.len() && at[i] == k;
                assert(0 <= at[i] < fewer.len() && before[n + i] == fewer[at[i]]);
                assert(before[n + i].token == t.token);
            }
        }
        let now = if is_old {
            at
        } else {
            at.push(last)
        };
        assert(all.take(n) =~= targets);
        assert forall|i: int| 0 <= i < now.len() implies 0 <= #[trigger] now[i] < more.len()
            && all[n + i] == more[now[i]] by {
            if i < at.len() {
                assert(before[n + i] == fewer[at[i]]);
            }
        }
        assert forall|i: int, j: int| 0 <= i < j < now.len() implies #[trigger] now[i]
            < #[trigger] now[j] by {
            if j < at.len() {
                assert(at[i] < at[j]);
            } else {
                assert(0 <= at[i] < fewer.len());
            }
        }
        assert forall|k: int| 0 <= k < more.len() implies (now.contains(k) <==> #[trigger] is_new(
            targets,
            more,
            k,
        )) by {
            if k < last {
                assert(is_new(targets, more, k) <==> is_new(targets, fewer, k)) by {
                    assert(fewer[k] == more[k]);
                    assert(forall|m: int| 0 <= m < k ==> #[trigger] more[m] == fewer[m]);
                    assert(forall|m: int| 0 <= m < k ==> #[trigger] fewer[m] == more[m]);
                }
                assert(now.contains(k) <==> at.contains(k)) by {
                    if at.contains(k) {
                        let i = choose|i: int| 0 <= i < at.len() && at[i] == k;
                        assert(now[i] == k);
                    }
                    if now.contains(k) {
                        let i = choose|i: int| 0 <= i < now.len() && now[i] == k;
                        assert(i < at.len());
                        assert(at[i] == k);
                    }
                }
            } else {
                assert(now.contains(k) <==> !is_old) by {
                    if !is_old {
                        assert(now[at.len() as int] == k);
                    } else if now.contains(k) {
                        let i = choose|i: int| 0 <= i < now.len() && now[i] == k;
                        assert(0 <= at[i] < fewer.len());
                    }
                }
            }
        }
        now
    }
}

/// Where a token occurs, there is a first that has it.
proof fn first_of_its_token(all: Seq<TargetModel>, token: Seq<char>)
    requires
        exists|m: int| 0 <= m < all.len() && (#[trigger] all[m]).token == token,
    ensures
        exists|k: int|
            0 <= k < all.len() && (#[trigger] all[k]).token == token && forall|m: int|
                0 <= m < k ==> (#[trigger] all[m]).token != token,
    decreases all.len(),
{
    let fewer = all.drop_last();
    if exists|m: int| 0 <= m < fewer.len() && (#[trigger] fewer[m]).token == token {
        first_of_its_token(fewer, token);
        let k = choose|k: int|
            0 <= k < fewer.len() && (#[trigger] fewer[k]).token == token && forall|m: int|
                0 <= m < k ==> (#[trigger] fewer[m]).token != token;
        assert(all[k] == fewer[k]);
        assert forall|m: int| 0 <= m < k implies (#[trigger] all[m]).token != token by {
            assert(fewer[m] == all[m]);
        }
    } else {
        let k = all.len() - 1;
        let some = choose|m: int| 0 <= m < all.len() && (#[trigger] all[m]).token == token;
        assert(some == k) by {
            if some < k {
                assert(fewer[some].token == token);
            }
        }
        assert forall|m: int| 0 <= m < k implies (#[trigger] all[m]).token != token by {
            assert(fewer[m] == all[m]);
        }
    }
}

/// No token is listed twice.
pub proof fn tokens_are_distinct(lines: Seq<Seq<char>>, i: int, j: int)
    requires
        0 <= i < j < scrollback::extracted(lines).len(),
    ensures
        scrollback::extracted(lines)[i].token != scrollback::extracted(lines)[j].token,
{
    let all = scrollback::all_targets(lines);
    let at = kept_are_the_first_occurrences(all);
    let kept = scrollback::extracted(lines);
    assert(at[i] < at[j]);
    assert(all[at[i]] == kept[i]);
    assert(all[at[i]].token != kept[j].token);
}

/// The list is most recent first. Each target comes from a line that mentions it
/// and that is its context, no line further down mentions it, and a target never
/// comes from a line below the line of one before it. `from` gives the lines.
pub proof fn recent_first(lines: Seq<Seq<char>>) -> (from: Seq<int>)
    ensures
        ({
            let kept = scrollback::extracted(lines);
            &&& from.len() == kept.len()
            &&& forall|i: int|
                0 <= i < kept.len() ==> {
                    &&& 0 <= #[trigger] from[i] < lines.len()
                    &&& target::is_target(kept[i].token)
                    &&& mentions(lines[from[i]], kept[i].token)
                    &&& kept[i].context == scrollback::trimmed(lines[from[i]])
                }
            &&& forall|i: int, l: int|
                0 <= i < kept.len() && from[i] < l < lines.len() ==> !#[trigger] mentions(
                    lines[l],
                    kept[i].token,
                )
            &&& forall|i: int, j: int|
                0 <= i < j < kept.len() ==> #[trigger] from[i] >= #[trigger] from[j]
        }),
{
    let all = scrollback::all_targets(lines);
    let at = kept_are_the_first_occurrences(all);
    let kept = scrollback::extracted(lines);
    let from = Seq::new(kept.len(), |i: int| line_of(lines, at[i]));
    assert forall|i: int| 0 <= i < kept.len() implies {
        &&& 0 <= #[trigger] from[i] < lines.len()
        &&& target::is_target(kept[i].token)
        &&& mentions(lines[from[i]], kept[i].token)
        &&& kept[i].context == scrollback::trimmed(lines[from[i]])
    } by {
        assert(all[at[i]] == kept[i]);
        line_of_mentions(lines, at[i]);
    }
    assert forall|i: int, l: int|
        0 <= i < kept.len() && from[i] < l < lines.len() implies !#[trigger] mentions(
        lines[l],
        kept[i].token,
    ) by {
        assert(all[at[i]] == kept[i]);
        line_of_mentions(lines, at[i]);
        if mentions(lines[l], kept[i].token) {
            let k = mentioned_is_among_all(lines, l, kept[i].token);
            if k < at[i] {
                assert(all[k].token != kept[i].token);
            } else {
                line_of_decreases(lines, at[i], k);
            }
        }
    }
    assert forall|i: int, j: int| 0 <= i < j < kept.len() implies #[trigger] from[i]
        >= #[trigger] from[j] by {
        assert(at[i] < at[j]);
        line_of_decreases(lines, at[i], at[j]);
    }
    from
}

/// Nothing is missed: a target that some line mentions is listed.
pub proof fn every_mentioned_target_is_listed(lines: Seq<Seq<char>>, l: int, token: Seq<char>)
    requires
        0 <= l < lines.len(),
        mentions(lines[l], token),
        target::is_target(token),
    ensures
        exists|i: int|
            0 <= i < scrollback::extracted(lines).len() && (#[trigger] scrollback::extracted(
                lines,
            )[i]).token == token,
{
    let all = scrollback::all_targets(lines);
    let at = kept_are_the_first_occurrences(all);
    let k = mentioned_is_among_all(lines, l, token);
    assert(scrollback::has_token(scrollback::extracted(lines), all[k].token));
}

/// Each word of a line occurs in it in one piece, and no blank is in it.
pub proof fn words_occur_in_the_line(line: Seq<char>, w: int) -> (p: int)
    requires
        0 <= w < scrollback::words(line).len(),
    ensures
        chars::occurs_at(line, scrollback::words(line)[w], p),
        scrollback::words(line)[w].len() > 0,
        forall|i: int|
            0 <= i < scrollback::words(line)[w].len() ==> !chars::whitespace(
                #[trigger] scrollback::words(line)[w][i],
            ),
    decreases line.len(),
{
    let word = scrollback::words(line)[w];
    if chars::whitespace(line[0]) {
        let p = words_occur_in_the_line(line.skip(1), w);
        assert(line.subrange(p + 1, p + 1 + word.len()) =~= line.skip(1).subrange(
            p,
            p + word.len(),
        ));
        p + 1
    } else {
        scrollback::word_len_fits(line);
        let n = scrollback::word_len(line) as int;
        if w == 0 {
            assert(word == line.take(n));
            assert(line.subrange(0, n) =~= line.take(n));
            assert forall|i: int| 0 <= i < word.len() implies !chars::whitespace(
                #[trigger] word[i],
            ) by {
                assert(word[i] == line[i]);
            }
            0
        } else {
            let p = words_occur_in_the_line(line.skip(n), w - 1);
            assert(word == scrollback::words(line.skip(n))[w - 1]);
            assert(line.subrange(p + n, p + n + word.len()) =~= line.skip(n).subrange(
                p,
                p + word.len(),
            ));
            p + n
        }
    }
}

/// The context of a target shows the target: the token occurs in the trimmed
/// line that mentions it.
pub proof fn context_shows_the_token(line: Seq<char>, token: Seq<char>)
    requires
        mentions(line, token),
        token.len() > 0,
    ensures
        chars::occurs_in(scrollback::trimmed(line), token),
{
    mentions_are_words(line, token);
    context_shows_the_word(line, token);
}

/// A trimmed word occurs in the trimmed line.
proof fn context_shows_the_word(line: Seq<char>, token: Seq<char>)
    requires
        has_word(line, token),
        token.len() > 0,
    ensures
        chars::occurs_in(scrollback::trimmed(line), token),
{
    let w = choose|w: int|
        0 <= w < scrollback::words(line).len() && target::trimmed_junk(
            #[trigger] scrollback::words(line)[w],
        ) == token;
    let word = scrollback::words(line)[w];
    let p = words_occur_in_the_line(line, w);
    let i = tokens::trimmed_junk_is_a_clean_part(word);
    let a = chars::strip_start_is_suffix(line, scrollback::blank());
    let rest = line.skip(a);
    let b = chars::strip_end_is_prefix(rest, scrollback::blank());
    assert(line[p] == word[0]) by {
        assert(line.subrange(p, p + word.len())[0] == line[p]);
    }
    assert(line[p + word.len() - 1] == word[word.len() - 1]) by {
        assert(line.subrange(p, p + word.len())[word.len() - 1] == line[p + word.len() - 1]);
    }
    assert(a <= p) by {
        if p < a {
            assert(scrollback::blank()(line[p]));
        }
    }
    assert(p + word.len() <= a + b) by {
        if a + b < p + word.len() {
            let k = p + word.len() - 1 - a;
            assert(rest[k] == line[p + word.len() - 1]);
            assert(scrollback::blank()(rest[k]));
        }
    }
    let shown = scrollback::trimmed(line);
    assert(shown =~= line.subrange(a, a + b));
    let at = p - a + i;
    let found = shown.subrange(at, at + token.len());
    assert forall|k: int| 0 <= k < token.len() implies #[trigger] found[k] == token[k] by {
        assert(line.subrange(p, p + word.len())[i + k] == line[p + i + k]);
        assert(word.subrange(i, i + token.len())[k] == word[i + k]);
    }
    assert(found =~= token);
    assert(chars::occurs_at(shown, token, at));
}

/// Every listed target occurs in its own context.
pub proof fn listed_tokens_occur_in_their_context(lines: Seq<Seq<char>>, i: int)
    requires
        0 <= i < scrollback::extracted(lines).len(),
    ensures
        chars::occurs_in(
            scrollback::extracted(lines)[i].context,
            scrollback::extracted(lines)[i].token,
        ),
{
    let from = recent_first(lines);
    let kept = scrollback::extracted(lines);
    assert(0 <= from[i] < lines.len());
    context_shows_the_token(lines[from[i]], kept[i].token);
}

/// The targets whose tokens are not among those of `listed`, in unchanged order.
pub open spec fn without_tokens(targets: Seq<TargetModel>, listed: Seq<TargetModel>) -> Seq<
    TargetModel,
> {
    targets.filter(|t: TargetModel| !scrollback::has_token(listed, t.token))
}

/// Of two sequences in a row, the tokens are those of the one and of the other.
proof fn has_token_concat(a: Seq<TargetModel>, b: Seq<TargetModel>, token: Seq<char>)
    ensures
        scrollback::has_token(a + b, token) <==> scrollback::has_token(a, token)
            || scrollback::has_token(b, token),
{
    if scrollback::has_token(a, token) {
        let i = choose|i: int| 0 <= i < a.len() && (#[trigger] a[i]).token == token;
        assert((a + b)[i] == a[i]);
    }
    if scrollback::has_token(b, token) {
        let i = choose|i: int| 0 <= i < b.len() && (#[trigger] b[i]).token == token;
        assert((a + b)[a.len() + i] == b[i]);
    }
    if scrollback::has_token(a + b, token) {
        let i = choose|i: int| 0 <= i < (a + b).len() && (#[trigger] (a + b)[i]).token == token;
        if i < a.len() {
            assert(a[i].token == token);
        } else {
            assert(b[i - a.len()].token == token);
        }
    }
}

/// A token that `listed` lacks is among the targets without those of `listed` if
/// and only if it is among the targets.
proof fn without_keeps_other_tokens(
    targets: Seq<TargetModel>,
    listed: Seq<TargetModel>,
    token: Seq<char>,
)
    requires
        !scrollback::has_token(listed, token),
    ensures
        scrollback::has_token(without_tokens(targets, listed), token) <==> scrollback::has_token(
            targets,
            token,
        ),
    decreases targets.len(),
{
    reveal(Seq::filter);
    if targets.len() > 0 {
        let last = seq![targets.last()];
        without_keeps_other_tokens(targets.drop_last(), listed, token);
        assert(targets =~= targets.drop_last() + last);
        has_token_concat(targets.drop_last(), last, token);
        let rest = without_tokens(targets.drop_last(), listed);
        has_token_concat(rest, last, token);
        assert(rest + last =~= rest.push(targets.last()));
        assert(scrollback::has_token(last, token) <==> last[0].token == token);
    }
}

/// Adding targets behind others adds those that are kept of them by themselves,
/// without the tokens that were there before.
proof fn with_new_adds_the_others(targets: Seq<TargetModel>, more: Seq<TargetModel>)
    ensures
        scrollback::with_new(targets, more) == targets + without_tokens(
            scrollback::with_new(Seq::empty(), more),
            targets,
        ),
    decreases more.len(),
{
    reveal(Seq::filter);
    let others = scrollback::with_new(Seq::empty(), more);
    if more.len() == 0 {
        assert(targets + without_tokens(others, targets) =~= targets);
    } else {
        let t = more.last();
        let fewer = scrollback::with_new(Seq::empty(), more.drop_last());
        let kept = without_tokens(fewer, targets);
        with_new_adds_the_others(targets, more.drop_last());
        has_token_concat(targets, kept, t.token);
        assert(fewer.push(t).drop_last() =~= fewer);
        if !scrollback::has_token(targets, t.token) {
            without_keeps_other_tokens(fewer, targets, t.token);
        }
        assert(targets + kept.push(t) =~= (targets + kept).push(t));
    }
}

/// More output comes first: after further lines have come below a scrollback, the
/// list is that of the further lines, followed by what was listed before without
/// their tokens, in unchanged order and with unchanged contexts.
pub proof fn further_lines_come_first(above: Seq<Seq<char>>, below: Seq<Seq<char>>)
    ensures
        scrollback::extracted(above + below) == scrollback::extracted(below) + without_tokens(
            scrollback::extracted(above),
            scrollback::extracted(below),
        ),
{
    scrollback::all_targets_concat(above, below);
    scrollback::with_new_concat(
        Seq::empty(),
        scrollback::all_targets(below),
        scrollback::all_targets(above),
    );
    with_new_adds_the_others(scrollback::extracted(below), scrollback::all_targets(above));
}

/// After a line has come below a scrollback, the list is the targets of that line,
/// each token once, followed by what was listed before without their tokens.
pub proof fn an_added_line_comes_first(lines: Seq<Seq<char>>, line: Seq<char>)
    ensures
        ({
            let own = scrollback::with_new(Seq::empty(), scrollback::line_targets(line));
            scrollback::extracted(lines.push(line)) == own + without_tokens(
                scrollback::extracted(lines),
                own,
            )
        }),
{
    let below = seq![line];
    assert(lines.push(line) =~= lines + below);
    assert(below.drop_last() =~= Seq::<Seq<char>>::empty());
    assert(scrollback::all_targets(below) =~= scrollback::line_targets(line)) by {
        reveal_with_fuel(scrollback::all_targets, 2);
    }
    further_lines_come_first(lines, below);
}

/// More output only adds: every token of a scrollback is still listed after
/// further lines have come below it.
pub proof fn further_lines_lose_no_token(above: Seq<Seq<char>>, below: Seq<Seq<char>>, i: int)
    requires
        0 <= i < scrollback::extracted(above).len(),
    ensures
        scrollback::has_token(
            scrollback::extracted(above + below),
            scrollback::extracted(above)[i].token,
        ),
{
    let from = recent_first(above);
    assert(0 <= from[i] < above.len());
    assert((above + below)[from[i]] == above[from[i]]);
    every_mentioned_target_is_listed(
        above + below,
        from[i],
        scrollback::extracted(above)[i].token,
    );
}

/// A place in a scrollback: a part of a line.
pub struct Place {
    pub line: int,
    pub start: int,
    pub end: int,
}

/// The token stands at the place.
pub open spec fn stands_at(lines: Seq<Seq<char>>, token: Seq<char>, p: Place) -> bool {
    0 <= p.line < lines.len() && mentioned_at(lines[p.line], token, p.start, p.end)
}

/// Places further down come first, and within a line those further left.
pub open spec fn comes_before(p: Place, q: Place) -> bool {
    p.line > q.line || (p.line == q.line && p.start < q.start)
}

/// What stands at a place is one token.
proof fn one_token_at_a_place(line: Seq<char>, t: Seq<char>, u: Seq<char>, a: int, b: int)
    requires
        mentioned_at(line, t, a, b),
        mentioned_at(line, u, a, b),
    ensures
        t == u,
{
    lines::wrapping_is_cut_off(line.subrange(a, b), t);
    lines::wrapping_is_cut_off(line.subrange(a, b), u);
}

/// Where the targets of a line stand in it.
proof fn line_places(line: Seq<char>, l: int) -> (at: Seq<Place>)
    ensures
        ({
            let found = scrollback::line_targets(line);
            &&& at.len() == found.len()
            &&& forall|i: int|
                0 <= i < at.len() ==> {
                    &&& (#[trigger] at[i]).line == l
                    &&& mentioned_at(line, found[i].token, at[i].start, at[i].end)
                    &&& target::is_target(found[i].token)
                    &&& found[i].context == scrollback::trimmed(line)
                }
            &&& forall|i: int, j: int|
                0 <= i < j < at.len() ==> (#[trigger] at[i]).start < (#[trigger] at[j]).start
            &&& forall|token: Seq<char>, a: int, b: int| #[trigger]
                mentioned_at(line, token, a, b) && target::is_target(token) ==> at.contains(
                    Place { line: l, start: a, end: b },
                )
        }),
{
    let words = scrollback::words(line);
    let found = scrollback::line_targets(line);
    let starts = lines::words_are_the_runs(line);
    let which = targets_among_words(words, scrollback::trimmed(line));
    let at = Seq::new(
        found.len(),
        |i: int|
            Place {
                line: l,
                start: starts[which[i]],
                end: starts[which[i]] + words[which[i]].len(),
            },
    );
    assert forall|i: int| 0 <= i < at.len() implies {
        &&& (#[trigger] at[i]).line == l
        &&& mentioned_at(line, found[i].token, at[i].start, at[i].end)
        &&& target::is_target(found[i].token)
        &&& found[i].context == scrollback::trimmed(line)
    } by {
        let w = which[i];
        assert(lines::is_run(line, starts[w], starts[w] + words[w].len()));
        lines::wrapping_is_cut_off(words[w], found[i].token);
    }
    assert forall|i: int, j: int| 0 <= i < j < at.len() implies (#[trigger] at[i]).start < (
    #[trigger] at[j]).start by {
        assert(which[i] < which[j]);
        assert(0 <= which[i] < words.len() && 0 <= which[j] < words.len());
        assert(starts[which[i]] < starts[which[j]]);
    }
    assert forall|token: Seq<char>, a: int, b: int| #[trigger]
        mentioned_at(line, token, a, b) && target::is_target(token) implies at.contains(
        Place { line: l, start: a, end: b },
    ) by {
        assert(lines::is_run(line, a, b));
        let w = choose|w: int|
            0 <= w < starts.len() && #[trigger] starts[w] == a && words[w] == line.subrange(a, b);
        lines::wrapping_is_cut_off(words[w], token);
        assert(which.contains(w));
        let i = choose|i: int| 0 <= i < which.len() && which[i] == w;
        assert(at[i] == Place { line: l, start: a, end: b });
    }
    at
}

/// Where all targets stand.
proof fn all_places(lines: Seq<Seq<char>>) -> (at: Seq<Place>)
    ensures
        ({
            let all = scrollback::all_targets(lines);
            &&& at.len() == all.len()
            &&& forall|k: int|
                0 <= k < at.len() ==> {
                    &&& stands_at(lines, all[k].token, #[trigger] at[k])
                    &&& target::is_target(all[k].token)
                    &&& all[k].context == scrollback::trimmed(lines[at[k].line])
                }
            &&& forall|i: int, j: int|
                0 <= i < j < at.len() ==> comes_before(#[trigger] at[i], #[trigger] at[j])
            &&& forall|token: Seq<char>, p: Place| #[trigger]
                stands_at(lines, token, p) && target::is_target(token) ==> at.contains(p)
        }),
    decreases lines.len(),
{
    let all = scrollback::all_targets(lines);
    if lines.len() == 0 {
        Seq::empty()
    } else {
        let above = lines.drop_last();
        let n = lines.len() - 1;
        let own = line_places(lines.last(), n);
        let found = scrollback::line_targets(lines.last());
        let rest = all_places(above);
        let others = scrollback::all_targets(above);
        let at = own + rest;
        assert(all == found + others);
        assert forall|k: int| 0 <= k < at.len() implies {
            &&& stands_at(lines, all[k].token, #[trigger] at[k])
            &&& target::is_target(all[k].token)
            &&& all[k].context == scrollback::trimmed(lines[at[k].line])
        } by {
            if k < own.len() {
                assert(at[k] == own[k]);
                assert(all[k] == found[k]);
            } else {
                assert(at[k] == rest[k - own.len()]);
                assert(all[k] == others[k - own.len()]);
                assert(stands_at(above, others[k - own.len()].token, rest[k - own.len()]));
                assert(above[at[k].line] == lines[at[k].line]);
            }
        }
        assert forall|i: int, j: int| 0 <= i < j < at.len() implies comes_before(
            #[trigger] at[i],
            #[trigger] at[j],
        ) by {
            if j < own.len() {
                assert(own[i].start < own[j].start);
            } else {
                assert(stands_at(above, others[j - own.len()].token, rest[j - own.len()]));
                if i < own.len() {
                    assert(own[i].line == n);
                } else {
                    assert(comes_before(rest[i - own.len()], rest[j - own.len()]));
                }
            }
        }
        assert forall|token: Seq<char>, p: Place| #[trigger]
            stands_at(lines, token, p) && target::is_target(token) implies at.contains(p) by {
            if p.line == n {
                assert(mentioned_at(lines.last(), token, p.start, p.end));
                assert(own.contains(Place { line: n, start: p.start, end: p.end }));
                let i = choose|i: int| 0 <= i < own.len() && own[i] == p;
                assert(at[i] == p);
            } else {
                assert(above[p.line] == lines[p.line]);
                assert(stands_at(above, token, p));
                let i = choose|i: int| 0 <= i < rest.len() && rest[i] == p;
                assert(at[own.len() + i] == p);
            }
        }
        at
    }
}

/// The list, read off the lines. Each entry is a target that stands somewhere in the
/// scrollback; its context is that line without the blanks around it; it is listed
/// by its first place, from the bottom up and within a line from left to right, and
/// the entries come in the order of these places. Whatever target stands anywhere
/// in the scrollback is listed. `from` gives the places.
pub proof fn the_list_is_read_off_the_lines(lines: Seq<Seq<char>>) -> (from: Seq<Place>)
    ensures
        ({
            let kept = scrollback::extracted(lines);
            &&& from.len() == kept.len()
            &&& forall|i: int|
                0 <= i < kept.len() ==> {
                    &&& stands_at(lines, kept[i].token, #[trigger] from[i])
                    &&& target::is_target(kept[i].token)
                    &&& lines::cut(
                        lines[from[i].line],
                        |c: char| chars::whitespace(c),
                        |c: char| chars::whitespace(c),
                        kept[i].context,
                    )
                }
            &&& forall|i: int, j: int|
                0 <= i < j < kept.len() ==> comes_before(#[trigger] from[i], #[trigger] from[j])
            &&& forall|i: int, p: Place|
                0 <= i < kept.len() && #[trigger] stands_at(lines, kept[i].token, p) ==> p
                    == from[i] || comes_before(from[i], p)
            &&& forall|token: Seq<char>, p: Place| #[trigger]
                stands_at(lines, token, p) && target::is_target(token) ==> exists|i: int|
                    0 <= i < kept.len() && (#[trigger] kept[i]).token == token
        }),
{
    let all = scrollback::all_targets(lines);
    let kept = scrollback::extracted(lines);
    let places = all_places(lines);
    let at = kept_are_the_first_occurrences(all);
    let from = Seq::new(kept.len(), |i: int| places[at[i]]);
    assert forall|i: int| 0 <= i < kept.len() implies {
        &&& stands_at(lines, kept[i].token, #[trigger] from[i])
        &&& target::is_target(kept[i].token)
        &&& lines::cut(
            lines[from[i].line],
            |c: char| chars::whitespace(c),
            |c: char| chars::whitespace(c),
            kept[i].context,
        )
    } by {
        assert(all[at[i]] == kept[i]);
        assert(stands_at(lines, all[at[i]].token, places[at[i]]));
        lines::blanks_are_cut_off(lines[from[i].line], kept[i].context);
    }
    assert forall|i: int, j: int| 0 <= i < j < kept.len() implies comes_before(
        #[trigger] from[i],
        #[trigger] from[j],
    ) by {
        assert(at[i] < at[j]);
        assert(0 <= at[i] < all.len() && 0 <= at[j] < all.len());
        assert(comes_before(places[at[i]], places[at[j]]));
    }
    assert forall|i: int, p: Place|
        0 <= i < kept.len() && #[trigger] stands_at(lines, kept[i].token, p) implies p == from[i]
        || comes_before(from[i], p) by {
        assert(all[at[i]] == kept[i]);
        assert(stands_at(lines, all[at[i]].token, places[at[i]]));
        assert(places.contains(p));
        let k = choose|k: int| 0 <= k < places.len() && places[k] == p;
        assert(stands_at(lines, all[k].token, places[k]));
        one_token_at_a_place(lines[p.line], all[k].token, kept[i].token, p.start, p.end);
        if k < at[i] {
            assert(all[k].token != kept[i].token);
        } else if at[i] < k {
            assert(comes_before(places[at[i]], places[k]));
        }
    }
    assert forall|token: Seq<char>, p: Place| #[trigger]
        stands_at(lines, token, p) && target::is_target(token) implies exists|i: int|
        0 <= i < kept.len() && (#[trigger] kept[i]).token == token by {
        let k = choose|k: int| 0 <= k < places.len() && places[k] == p;
        assert(stands_at(lines, all[k].token, places[k]));
        one_token_at_a_place(lines[p.line], all[k].token, token, p.start, p.end);
        assert(scrollback::has_token(kept, all[k].token));
    }
    from
}

/// All targets of a scrollback, before tokens that come again are left out: none of
/// no lines, those of a line, and those of lines below before those above.
pub proof fn lower_lines_come_first(above: Seq<Seq<char>>, line: Seq<char>)
    ensures
        scrollback::all_targets(Seq::empty()).len() == 0,
        scrollback::all_targets(above.push(line)) == scrollback::word_targets(
            scrollback::words(line),
            scrollback::trimmed(line),
        ) + scrollback::all_targets(above),
{
    assert(above.push(line).drop_last() =~= above);
}

}
