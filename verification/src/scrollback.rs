//! Extracting targets from the scrollback of a pane.

use vstd::hash_set::StringHashSet;
use vstd::prelude::*;

use crate::chars;
use crate::target;

verus! {

/// One pickable target: the `path[:line[:col]]` token and the scrollback line it
/// came from, which shows the text around it.
#[derive(Debug)]
pub struct Target {
    pub token: String,
    pub context: String,
}

/// The characters of a target.
#[verifier::ext_equal]
pub struct TargetModel {
    pub token: Seq<char>,
    pub context: Seq<char>,
}

impl View for Target {
    type V = TargetModel;

    open spec fn view(&self) -> TargetModel {
        TargetModel { token: self.token@, context: self.context@ }
    }
}

impl Clone for Target {
    fn clone(&self) -> (r: Self)
        ensures
            r@ == self@,
    {
        Target { token: self.token.clone(), context: self.context.clone() }
    }
}

/// The lines of a pane, from top to bottom: those above what is visible, those
/// that are visible and those below.
pub struct PaneContents {
    pub lines_above_viewport: Vec<String>,
    pub viewport: Vec<String>,
    pub lines_below_viewport: Vec<String>,
}

/// The characters of each string.
pub open spec fn views(v: Seq<String>) -> Seq<Seq<char>> {
    Seq::new(v.len(), |i: int| v[i]@)
}

/// The characters of each target.
pub open spec fn models(v: Seq<Target>) -> Seq<TargetModel> {
    Seq::new(v.len(), |i: int| v[i]@)
}

impl PaneContents {
    /// All lines, from top to bottom.
    pub open spec fn lines(self) -> Seq<Seq<char>> {
        views(self.lines_above_viewport@) + views(self.viewport@) + views(
            self.lines_below_viewport@,
        )
    }
}

/// The blank characters.
pub open spec fn blank() -> spec_fn(char) -> bool {
    |c: char| chars::whitespace(c)
}

/// A line without the blanks at its start and its end.
pub open spec fn trimmed(line: Seq<char>) -> Seq<char> {
    chars::strip_end(chars::strip_start(line, blank()), blank())
}

/// The number of characters before the first blank.
pub open spec fn word_len(s: Seq<char>) -> nat
    decreases s.len(),
{
    if s.len() == 0 || chars::whitespace(s[0]) {
        0
    } else {
        1 + word_len(s.skip(1))
    }
}

/// The words of a line: its runs of characters that are not blank, in order.
pub open spec fn words(s: Seq<char>) -> Seq<Seq<char>>
    decreases s.len(),
{
    if s.len() == 0 {
        Seq::empty()
    } else if chars::whitespace(s[0]) {
        words(s.skip(1))
    } else {
        proof {
            word_len_fits(s);
        }
        seq![s.take(word_len(s) as int)] + words(s.skip(word_len(s) as int))
    }
}

/// The first word ends at the end of the line or before a blank, and no blank is
/// in it.
pub proof fn word_len_fits(s: Seq<char>)
    ensures
        word_len(s) <= s.len(),
        forall|i: int| 0 <= i < word_len(s) ==> !chars::whitespace(#[trigger] s[i]),
        word_len(s) < s.len() ==> chars::whitespace(s[word_len(s) as int]),
    decreases s.len(),
{
    if s.len() > 0 && !chars::whitespace(s[0]) {
        word_len_fits(s.skip(1));
        assert forall|i: int| 0 <= i < word_len(s) implies !chars::whitespace(#[trigger] s[i]) by {
            if i > 0 {
                assert(s.skip(1)[i - 1] == s[i]);
            }
        }
    }
}

/// The targets among words that stand in one line, in order.
pub open spec fn word_targets(words: Seq<Seq<char>>, context: Seq<char>) -> Seq<TargetModel>
    decreases words.len(),
{
    if words.len() == 0 {
        Seq::empty()
    } else {
        let before = word_targets(words.drop_last(), context);
        let token = target::trimmed_junk(words.last());
        if target::is_target(token) {
            before.push(TargetModel { token, context })
        } else {
            before
        }
    }
}

/// The targets of a line, in order, with the line itself as their context.
pub open spec fn line_targets(line: Seq<char>) -> Seq<TargetModel> {
    word_targets(words(line), trimmed(line))
}

/// The targets of all lines, those of the bottom line first.
pub open spec fn all_targets(lines: Seq<Seq<char>>) -> Seq<TargetModel>
    decreases lines.len(),
{
    if lines.len() == 0 {
        Seq::empty()
    } else {
        line_targets(lines.last()) + all_targets(lines.drop_last())
    }
}

/// Some target has the token.
pub open spec fn has_token(targets: Seq<TargetModel>, token: Seq<char>) -> bool {
    exists|i: int| 0 <= i < targets.len() && (#[trigger] targets[i]).token == token
}

/// `targets` and, behind them, those of `more` whose token was not there before.
pub open spec fn with_new(targets: Seq<TargetModel>, more: Seq<TargetModel>) -> Seq<TargetModel>
    decreases more.len(),
{
    if more.len() == 0 {
        targets
    } else {
        let before = with_new(targets, more.drop_last());
        if has_token(before, more.last().token) {
            before
        } else {
            before.push(more.last())
        }
    }
}

/// The targets of a scrollback: the most recent first, and of several with the
/// same token only the first of them.
pub open spec fn extracted(lines: Seq<Seq<char>>) -> Seq<TargetModel> {
    with_new(Seq::empty(), all_targets(lines))
}

/// Adding targets in two goes is adding them in one.
pub proof fn with_new_concat(
    targets: Seq<TargetModel>,
    a: Seq<TargetModel>,
    b: Seq<TargetModel>,
)
    ensures
        with_new(with_new(targets, a), b) == with_new(targets, a + b),
    decreases b.len(),
{
    if b.len() == 0 {
        assert(a + b =~= a);
    } else {
        with_new_concat(targets, a, b.drop_last());
        assert((a + b).drop_last() =~= a + b.drop_last());
    }
}

/// The targets of lines that stand below others come first.
pub proof fn all_targets_concat(above: Seq<Seq<char>>, below: Seq<Seq<char>>)
    ensures
        all_targets(above + below) == all_targets(below) + all_targets(above),
    decreases below.len(),
{
    if below.len() == 0 {
        assert(above + below =~= above);
        assert(all_targets(below) + all_targets(above) =~= all_targets(above));
    } else {
        all_targets_concat(above, below.drop_last());
        assert((above + below).drop_last() =~= above + below.drop_last());
        assert(all_targets(above + below) =~= all_targets(below) + all_targets(above));
    }
}

/// A line without the blanks at its start and its end.
pub fn trim(line: &str) -> (r: &str)
    ensures
        r@ == trimmed(line@),
{
    let v = chars::chars_of(line);
    let n: usize = v.len();
    let mut i: usize = 0;
    assert(line@.skip(0) =~= line@);
    while i < n && v[i].is_whitespace()
        invariant
            v@ == line@,
            n == v@.len(),
            i <= n,
            chars::strip_start(line@, blank()) == chars::strip_start(line@.skip(i as int), blank()),
        decreases n - i,
    {
        assert(line@.skip(i as int).skip(1) =~= line@.skip(i + 1));
        i += 1;
    }
    let ghost rest = line@.skip(i as int);
    let mut j: usize = n;
    assert(line@.subrange(i as int, n as int) =~= rest);
    while i < j && v[j - 1].is_whitespace()
        invariant
            v@ == line@,
            n == v@.len(),
            i <= j <= n,
            chars::strip_end(rest, blank()) == chars::strip_end(
                line@.subrange(i as int, j as int),
                blank(),
            ),
        decreases j,
    {
        assert(line@.subrange(i as int, j as int).drop_last() =~= line@.subrange(i as int, j - 1));
        j -= 1;
    }
    line.substring_char(i, j)
}

/// The words of a line, in order.
pub fn split_words(line: &str) -> (r: Vec<String>)
    ensures
        views(r@) == words(line@),
{
    let v = chars::chars_of(line);
    let n: usize = v.len();
    let mut r: Vec<String> = Vec::new();
    let mut i: usize = 0;
    assert(v@.skip(0) =~= v@);
    assert(views(r@) + words(v@) =~= words(v@));
    while i < n
        invariant
            v@ == line@,
            n == v@.len(),
            i <= n,
            views(r@) + words(v@.skip(i as int)) == words(line@),
        decreases n - i,
    {
        let ghost rest = v@.skip(i as int);
        if v[i].is_whitespace() {
            assert(rest.skip(1) =~= v@.skip(i + 1));
            i += 1;
        } else {
            let mut j: usize = i;
            assert(v@.skip(j as int) =~= rest);
            while j < n && !v[j].is_whitespace()
                invariant
                    n == v@.len(),
                    i <= j <= n,
                    word_len(rest) == (j - i) + word_len(v@.skip(j as int)),
                decreases n - j,
            {
                assert(v@.skip(j as int).skip(1) =~= v@.skip(j + 1));
                j += 1;
            }
            assert(word_len(rest) == j - i);
            let ghost before = views(r@);
            r.push(chars::string_of(&v, i, j));
            assert(rest.take(j - i) =~= v@.subrange(i as int, j as int));
            assert(rest.skip(j - i) =~= v@.skip(j as int));
            assert(views(r@) =~= before.push(rest.take(j - i)));
            assert(words(rest) == seq![rest.take(j - i)] + words(rest.skip(j - i)));
            assert(views(r@) + words(v@.skip(j as int)) =~= before + words(rest));
            i = j;
        }
    }
    assert(views(r@) + words(v@.skip(n as int)) =~= views(r@));
    r
}

/// Targets that are being collected, and the tokens that were seen among them.
pub struct Collector {
    pub targets: Vec<Target>,
    pub seen: StringHashSet,
}

impl Collector {
    /// What was seen are the tokens of the targets.
    pub open spec fn wf(self) -> bool {
        forall|token: Seq<char>|
            self.seen@.contains(token) <==> #[trigger] has_token(models(self.targets@), token)
    }

    pub fn new() -> (r: Self)
        ensures
            r.wf(),
            models(r.targets@) == Seq::<TargetModel>::empty(),
    {
        let r = Collector { targets: Vec::new(), seen: StringHashSet::new() };
        assert(models(r.targets@) =~= Seq::<TargetModel>::empty());
        r
    }

    /// Adds the targets among the words of a line, as far as they are new.
    pub fn add_words(&mut self, words: &Vec<String>, context: &str)
        requires
            old(self).wf(),
        ensures
            final(self).wf(),
            models(final(self).targets@) == with_new(
                models(old(self).targets@),
                word_targets(views(words@), context@),
            ),
    {
        let ghost before = models(self.targets@);
        let ghost all = views(words@);
        assert(all.take(0) =~= Seq::<Seq<char>>::empty());
        for i in 0..words.len()
            invariant
                self.wf(),
                all == views(words@),
                models(self.targets@) == with_new(before, word_targets(all.take(i as int), context@)),
        {
            let token = target::trim_junk(words[i].as_str());
            assert(all.take(i + 1).drop_last() =~= all.take(i as int));
            assert(all.take(i + 1).last() == words@[i as int]@);
            if let Some(t) = target::as_target(token) {
                let ghost now = word_targets(all.take(i as int), context@);
                let ghost entry = TargetModel { token: t@, context: context@ };
                assert(now.push(entry).drop_last() =~= now);
                let ghost kept = models(self.targets@);
                if self.seen.insert(t.to_string()) {
                    self.targets.push(
                        Target { token: t.to_string(), context: context.to_string() },
                    );
                    assert(models(self.targets@) =~= kept.push(entry));
                    assert forall|token: Seq<char>|
                        self.seen@.contains(token) <==> #[trigger] has_token(
                            models(self.targets@),
                            token,
                        ) by {
                        if has_token(kept, token) {
                            let k = choose|k: int|
                                0 <= k < kept.len() && (#[trigger] kept[k]).token == token;
                            assert(models(self.targets@)[k].token == token);
                        }
                        if token == t@ {
                            assert(models(self.targets@)[kept.len() as int].token == token);
                        }
                        if has_token(models(self.targets@), token) && token != t@ {
                            let k = choose|k: int|
                                0 <= k < models(self.targets@).len() && (
                                #[trigger] models(self.targets@)[k]).token == token;
                            assert(kept[k].token == token);
                        }
                    }
                }
            }
        }
        assert(all.take(all.len() as int) =~= all);
    }

    /// Adds the targets of lines, from the bottom up, as far as they are new.
    pub fn add_lines(&mut self, lines: &Vec<String>)
        requires
            old(self).wf(),
        ensures
            final(self).wf(),
            models(final(self).targets@) == with_new(
                models(old(self).targets@),
                all_targets(views(lines@)),
            ),
    {
        let ghost before = models(self.targets@);
        let ghost all = views(lines@);
        let mut i: usize = lines.len();
        assert(all.skip(all.len() as int) =~= Seq::<Seq<char>>::empty());
        while i > 0
            invariant
                self.wf(),
                all == views(lines@),
                i <= lines@.len(),
                models(self.targets@) == with_new(before, all_targets(all.skip(i as int))),
            decreases i,
        {
            i -= 1;
            let line = lines[i].as_str();
            let context = trim(line);
            let words = split_words(line);
            self.add_words(&words, context);
            proof {
                let below = all.skip(i + 1);
                assert(all.skip(i as int) =~= seq![line@] + below);
                all_targets_concat(seq![line@], below);
                assert(seq![line@].drop_last() =~= Seq::<Seq<char>>::empty());
                assert(all_targets(seq![line@]) =~= line_targets(line@)) by {
                    reveal_with_fuel(all_targets, 2);
                }
                with_new_concat(before, all_targets(below), line_targets(line@));
            }
        }
        assert(all.skip(0) =~= all);
    }
}

/// Pulls every target out of the scrollback, the most recent first, each token
/// once. Each target keeps the line it came from, without the blanks around it.
pub fn extract_targets(contents: &PaneContents) -> (r: Vec<Target>)
    ensures
        models(r@) == extracted(contents.lines()),
{
    let mut collector = Collector::new();
    collector.add_lines(&contents.lines_below_viewport);
    collector.add_lines(&contents.viewport);
    collector.add_lines(&contents.lines_above_viewport);
    proof {
        let above = views(contents.lines_above_viewport@);
        let shown = views(contents.viewport@);
        let below = views(contents.lines_below_viewport@);
        all_targets_concat(above + shown, below);
        all_targets_concat(above, shown);
        with_new_concat(Seq::empty(), all_targets(below), all_targets(shown));
        with_new_concat(
            Seq::empty(),
            all_targets(below) + all_targets(shown),
            all_targets(above),
        );
        assert(all_targets(below) + all_targets(shown) + all_targets(above) =~= all_targets(below)
            + (all_targets(shown) + all_targets(above)));
    }
    collector.targets
}

}
