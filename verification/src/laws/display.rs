//! Laws of what is shown: the selection is in sight, nothing overlaps, and the
//! colors fall where they should.

use vstd::prelude::*;

use crate::chars;
use crate::laws::picker;
use crate::laws::tokens;
use crate::render;
use crate::scrollback::TargetModel;
use crate::state::StateModel;
use crate::target;
use crate::text;

verus! {

/// Wherever the list is shown, the selection is in sight, and it is the one
/// entry that is drawn as selected.
pub proof fn selection_is_in_sight(s: StateModel, rows: usize, cols: usize)
    requires
        picker::valid(s),
        render::shows_list(s, rows),
    ensures
        ({
            let t = render::rendered(s, rows);
            let entries = render::body_draws(s, rows, cols);
            let at = s.selected - t.scroll_offset;
            &&& t.scroll_offset <= s.selected < t.scroll_offset + render::body_height(rows)
            &&& 0 <= at < entries.len()
            &&& entries[at].text.selected
            &&& forall|i: int|
                0 <= i < entries.len() && i != at ==> !(#[trigger] entries[i]).text.selected
        }),
{
    picker::selection_is_a_match(s);
}

/// The list is not scrolled while the selection is in sight.
pub proof fn no_scrolling_without_need(s: StateModel, rows: usize)
    requires
        s.scroll_offset <= s.selected < s.scroll_offset + render::body_height(rows),
    ensures
        render::rendered(s, rows) == s,
{
}

/// Drawing again draws the same and scrolls no further.
pub proof fn drawing_again_changes_nothing(s: StateModel, rows: usize, cols: usize)
    ensures
        ({
            let t = render::rendered(s, rows);
            &&& render::rendered(t, rows) == t
            &&& render::frame(t, rows, cols) == render::frame(s, rows, cols)
        }),
{
    let t = render::rendered(s, rows);
    assert(t.filtered() == s.filtered());
    assert(render::rendered(t, rows) == t);
    assert(t.selected_token() == s.selected_token());
    assert(render::body_draws(t, rows, cols) == render::body_draws(s, rows, cols));
}

/// Everything in the body is drawn below the search line and above the footer,
/// each thing in a line of its own, further down the later it comes.
pub proof fn the_body_stays_between_search_line_and_footer(s: StateModel, rows: usize, cols: usize)
    requires
        rows >= 3,
    ensures
        ({
            let body = render::body_draws(s, rows, cols);
            &&& body.len() <= render::body_height(rows)
            &&& forall|i: int|
                0 <= i < body.len() ==> 2 <= (#[trigger] body[i]).y < rows - 1 && body[i].y == 2 + i
                    && body[i].height == Some(1usize)
            &&& render::search_draw(s.query, cols).y == 1
            &&& render::footer_draw(s, rows, cols).y == rows - 1
        }),
{
}

/// As many matches are shown as there are lines for, wherever there are so many
/// from the first one that is shown.
pub proof fn the_body_is_filled(s: StateModel, rows: usize, cols: usize)
    requires
        render::shows_list(s, rows),
    ensures
        ({
            let t = render::rendered(s, rows);
            let n = render::body_draws(s, rows, cols).len();
            n == render::body_height(rows) || t.scroll_offset + n >= s.filtered().len()
        }),
{
    assert(render::rendered(s, rows).filtered() == s.filtered());
}

/// The entry of a target shows the token with the path in one color and
/// `:line[:col]` in another, and nothing else colored.
pub proof fn entries_highlight_path_and_line(t: TargetModel, is_selected: bool)
    requires
        chars::occurs_in(t.context, t.token),
        t.context.len() + 2 <= usize::MAX,
    ensures
        ({
            let e = render::entry_text(t, is_selected);
            let start = 2 + chars::first_occurrence(t.context, t.token)->0;
            let middle = start + target::parts(t.token).base.len();
            let end = start + t.token.len();
            &&& e.content == render::marker(is_selected) + t.context
            &&& e.selected == is_selected
            &&& end <= e.content.len()
            &&& e.content.subrange(start as int, end as int) == t.token
            &&& e.content.subrange(start as int, middle as int) == target::parts(t.token).base
            &&& e.levels.len() >= 1
            &&& e.levels[0] == text::positions(start as usize, middle as usize)
            &&& target::parts(t.token).line is None ==> e.levels.len() == 1
            &&& target::parts(t.token).line is Some ==> e.levels.len() == 3 && e.levels[1]
                == Seq::<usize>::empty() && e.levels[2] == text::positions(
                middle as usize,
                end as usize,
            )
        }),
{
    let tok = t.token;
    let base = target::parts(tok).base;
    tokens::base_is_a_prefix(tok);
    tokens::parts_make_up_the_token(tok);
    let i = choose|i: int| chars::occurs_at(t.context, tok, i);
    chars::first_from_is_first(t.context, tok, 0);
    assert(0 <= i && chars::occurs_at(t.context, tok, i));
    let b = chars::first_occurrence(t.context, tok)->0 as int;
    reveal_strlit("▸ ");
    reveal_strlit("  ");
    let content = render::marker(is_selected) + t.context;
    let start = 2 + b;
    let middle = start + base.len();
    let end = start + tok.len();
    assert(content.subrange(start as int, end as int) =~= t.context.subrange(
        b,
        b + tok.len(),
    ));
    assert(content.subrange(start as int, middle as int) =~= tok.take(base.len() as int)) by {
        assert forall|k: int| 0 <= k < base.len() implies content[start + k] == #[trigger] tok[k] by {
            assert(t.context.subrange(b, b + tok.len())[k] == t.context[b + k]);
        }
    }
    let e = render::entry_text(t, is_selected);
    let none = Seq::<usize>::empty();
    assert(none + text::positions(start as usize, middle as usize) =~= text::positions(
        start as usize,
        middle as usize,
    ));
    assert(none + text::positions(middle as usize, end as usize) =~= text::positions(
        middle as usize,
        end as usize,
    ));
}

/// The keys in a line of hints are colored and their labels are not: level 3 is
/// the one level that is not empty, a key spells itself where it stands, its
/// positions are colored, and every colored position lies in a key.
pub proof fn hints_color_the_keys(hints: Seq<(Seq<char>, Seq<char>)>)
    requires
        text::hint_line(hints).len() <= usize::MAX,
    ensures
        hints.len() > 0 ==> text::hint_levels(hints).len() == 4,
        forall|l: int|
            0 <= l < text::hint_levels(hints).len() && l != 3 ==> (#[trigger] text::hint_levels(
                hints,
            )[l]).len() == 0,
        forall|j: int|
            0 <= j < hints.len() ==> #[trigger] key_is_colored(hints, j),
        hints.len() > 0 ==> forall|p: usize|
            text::hint_levels(hints)[3].contains(p) ==> exists|j: int|
                0 <= j < hints.len() && key_start(hints, j) <= p < key_start(hints, j)
                    + (#[trigger] hints[j]).0.len(),
    decreases hints.len(),
{
    if hints.len() > 0 {
        let fewer = hints.drop_last();
        let n = hints.len() - 1;
        let line = text::hint_line(hints);
        let before = text::hint_line(fewer);
        let start = text::hint_prefix(hints).len() as int;
        let key = hints.last().0;
        reveal_strlit(" ");
        reveal_strlit("  ");
        assert(hints.take(n + 1) =~= hints);
        assert(before.len() <= start);
        assert(start + key.len() <= line.len());
        hints_color_the_keys(fewer);
        let old_levels = text::hint_levels(fewer);
        let levels = text::hint_levels(hints);
        let added = text::positions(start as usize, (start + key.len()) as usize);
        assert(levels.len() == 4);
        let old_3 = if fewer.len() > 0 {
            old_levels[3]
        } else {
            Seq::empty()
        };
        assert(levels[3] =~= old_3 + added);
        assert forall|j: int| 0 <= j < hints.len() implies #[trigger] key_is_colored(hints, j) by {
            if j < n {
                assert(key_is_colored(fewer, j));
                assert(fewer.take(j + 1) =~= hints.take(j + 1));
                let s = key_start(hints, j);
                let e = s + hints[j].0.len();
                assert(line.subrange(s, e) =~= before.subrange(s, e));
                assert forall|p: usize| s <= p < e implies #[trigger] levels[3].contains(p) by {
                    assert(old_3.contains(p));
                    let i = choose|i: int| 0 <= i < old_3.len() && old_3[i] == p;
                    assert(levels[3][i] == p);
                }
            } else {
                assert(line.subrange(start, start + key.len()) =~= key);
                assert forall|p: usize| start <= p < start + key.len() implies #[trigger] levels[
                    3
                ].contains(p) by {
                    assert(added[p - start] == p);
                    assert(levels[3][old_3.len() + (p - start)] == p);
                }
            }
        }
        assert forall|p: usize| levels[3].contains(p) implies exists|j: int|
            0 <= j < hints.len() && key_start(hints, j) <= p < key_start(hints, j) + (
            #[trigger] hints[j]).0.len() by {
            let i = choose|i: int| 0 <= i < levels[3].len() && levels[3][i] == p;
            if i < old_3.len() {
                assert(old_3[i] == p);
                assert(old_3.contains(p));
                let j = choose|j: int|
                    0 <= j < fewer.len() && key_start(fewer, j) <= p < key_start(fewer, j) + (
                    #[trigger] fewer[j]).0.len();
                assert(fewer.take(j + 1) =~= hints.take(j + 1));
                assert(hints[j] == fewer[j]);
            } else {
                assert(added[i - old_3.len()] == p);
                assert(hints[n] == hints.last());
            }
        }
    }
}

/// Where the key of a hint begins in the line.
pub open spec fn key_start(hints: Seq<(Seq<char>, Seq<char>)>, j: int) -> int {
    text::hint_prefix(hints.take(j + 1)).len() as int
}

/// The key of a hint stands in the line, and its positions are colored.
pub open spec fn key_is_colored(hints: Seq<(Seq<char>, Seq<char>)>, j: int) -> bool {
    let start = key_start(hints, j);
    let end = start + hints[j].0.len();
    &&& 0 <= start <= end <= text::hint_line(hints).len()
    &&& text::hint_line(hints).subrange(start, end) == hints[j].0
    &&& forall|p: usize| start <= p < end ==> #[trigger] text::hint_levels(hints)[3].contains(p)
}

}
