//! Laws of the screen: what is drawn where, character by character and color by
//! color.

use vstd::prelude::*;

use crate::chars;
use crate::laws::search;
use crate::laws::tokens;
use crate::render;
use crate::render::DrawModel;
use crate::scrollback::TargetModel;
use crate::state::StateModel;
use crate::target;
use crate::text;
use crate::text::TextModel;

verus! {

/// The positions from `a` up to `b`, in order.
pub open spec fn counts(p: Seq<usize>, a: int, b: int) -> bool {
    p.len() == b - a && forall|k: int| 0 <= k < p.len() ==> #[trigger] p[k] == a + k
}

/// Nothing in the text has a color.
pub open spec fn is_uncolored(t: TextModel) -> bool {
    !t.opaque && forall|l: int| 0 <= l < t.levels.len() ==> (#[trigger] t.levels[l]).len() == 0
}

/// The positions from `a` up to `b` have the color of the level, and nothing else in
/// the text has a color.
pub open spec fn has_one_color(t: TextModel, level: int, a: int, b: int) -> bool {
    &&& !t.opaque
    &&& t.levels.len() == level + 1
    &&& counts(t.levels[level], a, b)
    &&& forall|l: int| 0 <= l < level ==> (#[trigger] t.levels[l]).len() == 0
}

/// The draw is a line of its own over the whole width.
pub open spec fn is_line(d: DrawModel, y: int, cols: usize) -> bool {
    !d.ribbon && d.x == 0 && d.y == y && d.width == Some(cols) && d.height == Some(1usize)
}

/// While the permissions are not granted, that is all that is shown, and nothing is
/// scrolled.
pub proof fn the_picker_waits_for_permissions(s: StateModel, rows: usize, cols: usize)
    requires
        !s.permissions_granted,
    ensures
        ({
            let drawn = render::frame(s, rows, cols);
            &&& drawn.len() == 1
            &&& drawn[0].text.content == "Waiting for permissions..."@
            &&& !drawn[0].text.selected && is_uncolored(drawn[0].text)
            &&& !drawn[0].ribbon && drawn[0].x == 0 && drawn[0].y == 0
            &&& drawn[0].width == Some(cols) && drawn[0].height is None
        }),
        render::rendered(s, rows) == s,
{
}

/// Else the title stands on top, as a ribbon, and below it the search line: a prompt
/// in a color, what was typed, and a block.
pub proof fn title_and_search_line_stand_on_top(s: StateModel, rows: usize, cols: usize)
    requires
        s.permissions_granted,
    ensures
        ({
            let drawn = render::frame(s, rows, cols);
            let typed = drawn[1].text.content;
            &&& drawn.len() >= 3
            &&& drawn[0].ribbon && drawn[0].x == 0 && drawn[0].y == 0
            &&& drawn[0].width == Some(cols) && drawn[0].height == Some(1usize)
            &&& drawn[0].text.content == " pick vim-target "@
            &&& drawn[0].text.selected && is_uncolored(drawn[0].text)
            &&& is_line(drawn[1], 1, cols)
            &&& typed.len() == s.query.len() + 3
            &&& typed[0] == '>' && typed[1] == ' ' && typed.last() == '\u{2588}'
            &&& typed.subrange(2, s.query.len() as int + 2) == s.query
            &&& !drawn[1].text.selected && has_one_color(drawn[1].text, 2, 0, 1)
        }),
{
    let typed = render::search_draw(s.query, cols).text.content;
    reveal_strlit("> ");
    reveal_strlit("\u{2588}");
    assert(typed.subrange(2, s.query.len() as int + 2) =~= s.query);
    assert(render::frame(s, rows, cols)[1] == render::search_draw(s.query, cols));
    assert(text::positions(0, 1).len() == 1);
}

/// The footer stands in the last line. A message comes before anything else, and is
/// colored as a whole.
pub proof fn the_footer_shows_the_message(
    s: StateModel,
    message: Seq<char>,
    rows: usize,
    cols: usize,
)
    requires
        s.permissions_granted,
        s.status == Some(message),
        message.len() <= usize::MAX,
    ensures
        ({
            let d = render::frame(s, rows, cols)[2];
            &&& is_line(d, if rows > 0 { rows - 1 } else { 0 }, cols)
            &&& d.text.content == message
            &&& !d.text.selected && has_one_color(d.text, 1, 0, message.len() as int)
        }),
{
    assert(render::frame(s, rows, cols)[2] == render::footer_draw(s, rows, cols));
}

/// Without a message, the footer shows what would be copied of the selection, behind
/// the names of the two keys, which are colored.
pub proof fn the_footer_shows_the_selection(s: StateModel, rows: usize, cols: usize)
    requires
        s.permissions_granted,
        s.status is None,
        s.selected < s.filtered().len(),
    ensures
        ({
            let d = render::frame(s, rows, cols)[2];
            let token = s.targets[s.filtered()[s.selected as int] as int].token;
            let levels = d.text.levels;
            &&& is_line(d, if rows > 0 { rows - 1 } else { 0 }, cols)
            &&& d.text.content == "\u{23ce} open   ^y copy: "@ + target::vim_form(token)
            &&& d.text.content.subrange(0, 1) == seq!['\u{23ce}']
            &&& d.text.content.subrange(9, 11) == seq!['^', 'y']
            &&& !d.text.selected && !d.text.opaque
            &&& levels.len() == 4
            &&& levels[3] == seq![0usize, 9usize, 10usize]
            &&& levels[0].len() == 0 && levels[1].len() == 0 && levels[2].len() == 0
        }),
{
    let d = render::frame(s, rows, cols)[2];
    assert(d == render::footer_draw(s, rows, cols));
    reveal_strlit("\u{23ce} open   ^y copy: ");
    assert(d.text.content.subrange(0, 1) =~= seq!['\u{23ce}']);
    assert(d.text.content.subrange(9, 11) =~= seq!['^', 'y']);
    assert(d.text.levels[3] =~= seq![0usize, 9usize, 10usize]);
}

/// Where there is neither, the footer shows what the keys do.
pub proof fn the_footer_shows_the_keys_else(s: StateModel, rows: usize, cols: usize)
    requires
        s.permissions_granted,
        s.status is None,
        s.selected >= s.filtered().len(),
    ensures
        ({
            let d = render::frame(s, rows, cols)[2];
            let hints = seq![
                ("\u{2191}\u{2193}/^jk"@, "navigate"@),
                ("Enter"@, "open"@),
                ("^y"@, "copy"@),
                ("Esc"@, "close"@),
            ];
            &&& is_line(d, if rows > 0 { rows - 1 } else { 0 }, cols)
            &&& d.text.content == text::hint_line(hints)
            &&& d.text.levels == text::hint_levels(hints)
            &&& !d.text.selected && !d.text.opaque
        }),
{
    let d = render::frame(s, rows, cols)[2];
    assert(d == render::footer_draw(s, rows, cols));
    let hints = seq![
        ("\u{2191}\u{2193}/^jk"@, "navigate"@),
        ("Enter"@, "open"@),
        ("^y"@, "copy"@),
        ("Esc"@, "close"@),
    ];
    assert(hints =~= render::key_hints());
}

/// One more hint goes behind the others, with two spaces between; its key and its
/// label have one. The key gets the color, the label does not, and what was colored
/// before stays so.
pub proof fn hints_go_one_behind_the_other(
    hints: Seq<(Seq<char>, Seq<char>)>,
    key: Seq<char>,
    label: Seq<char>,
)
    requires
        text::hint_line(hints.push((key, label))).len() <= usize::MAX,
    ensures
        ({
            let line = text::hint_line(hints);
            let start = if hints.len() == 0 {
                0
            } else {
                line.len() + 2
            };
            let more = text::hint_line(hints.push((key, label)));
            let levels = text::hint_levels(hints.push((key, label)));
            &&& hints.len() == 0 ==> line.len() == 0 && text::hint_levels(hints).len() == 0
            &&& more.len() == start + key.len() + 1 + label.len()
            &&& more.take(line.len() as int) == line
            &&& hints.len() > 0 ==> more[line.len() as int] == ' ' && more[line.len() as int + 1] == ' '
            &&& more.subrange(start as int, (start + key.len()) as int) == key
            &&& more[(start + key.len()) as int] == ' '
            &&& more.skip((start + key.len() + 1) as int) == label
            &&& levels.len() == 4
            &&& levels[0].len() == 0 && levels[1].len() == 0 && levels[2].len() == 0
            &&& hints.len() == 0 ==> counts(levels[3], 0, key.len() as int)
            &&& hints.len() > 0 ==> exists|own: Seq<usize>|
                counts(own, start as int, (start + key.len()) as int) && levels[3]
                    == #[trigger] (text::hint_levels(hints)[3] + own)
        }),
    decreases hints.len(),
{
    let all = hints.push((key, label));
    let line = text::hint_line(hints);
    let more = text::hint_line(all);
    let levels = text::hint_levels(all);
    assert(all.drop_last() =~= hints);
    reveal_strlit(" ");
    reveal_strlit("  ");
    let start = if hints.len() == 0 {
        0
    } else {
        line.len() + 2
    };
    assert(text::hint_prefix(all).len() == start);
    assert(more =~= text::hint_prefix(all) + key + " "@ + label);
    assert(more.take(line.len() as int) =~= line);
    assert(more.subrange(start as int, (start + key.len()) as int) =~= key);
    assert(more.skip((start + key.len() + 1) as int) =~= label);
    let own = text::positions(start as usize, (start + key.len()) as usize);
    assert(counts(own, start as int, (start + key.len()) as int));
    let before = text::hint_levels(hints);
    assert(levels == text::painted(before, 3, start as usize, (start + key.len()) as usize));
    if hints.len() == 0 {
        assert(before =~= Seq::<Seq<usize>>::empty());
        assert(text::padded(before, 4)[3] == Seq::<usize>::empty());
        assert(levels[3] =~= own);
    } else {
        let fewer = hints.drop_last();
        assert(hints =~= fewer.push(hints.last()));
        assert(line.len() <= more.len());
        hints_go_one_behind_the_other(fewer, hints.last().0, hints.last().1);
        assert(levels[3] =~= text::hint_levels(hints)[3] + own);
    }
}

/// Behind the footer comes the body: nothing where there is no room for it, and one
/// colored message where there are no targets or none that matches.
pub proof fn the_body_says_why_it_is_empty(s: StateModel, rows: usize, cols: usize)
    requires
        s.permissions_granted,
    ensures
        ({
            let drawn = render::frame(s, rows, cols);
            let message = drawn[3].text;
            &&& rows <= 3 ==> drawn.len() == 3
            &&& rows > 3 && (s.targets.len() == 0 || s.filtered().len() == 0) ==> drawn.len() == 4
                && is_line(drawn[3], 2, cols) && !message.selected && has_one_color(
                message,
                1,
                0,
                message.content.len() as int,
            )
            &&& rows > 3 && s.targets.len() == 0 ==> message.content
                == "  No file paths found in scrollback"@
            &&& rows > 3 && s.targets.len() > 0 && s.filtered().len() == 0 ==> message.content
                == "  No matches"@
        }),
{
    reveal_strlit("  No file paths found in scrollback");
    reveal_strlit("  No matches");
    let drawn = render::frame(s, rows, cols);
    if rows > 3 && (s.targets.len() == 0 || s.filtered().len() == 0) {
        assert(drawn[3] == render::body_draws(s, rows, cols)[0]);
    }
}

/// Drawing scrolls the list, and changes nothing else: not at all while the selection
/// is in sight or no list is shown; else so that the selection is in the first line
/// or in the last one, whichever is nearer.
pub proof fn drawing_scrolls_to_the_selection(s: StateModel, rows: usize)
    ensures
        ({
            let t = render::rendered(s, rows);
            let shows = s.permissions_granted && rows > 3 && s.targets.len() > 0
                && s.filtered().len() > 0;
            let height = rows - 3;
            &&& t == (StateModel { scroll_offset: t.scroll_offset, ..s })
            &&& !shows ==> t.scroll_offset == s.scroll_offset
            &&& shows && s.scroll_offset <= s.selected < s.scroll_offset + height
                ==> t.scroll_offset == s.scroll_offset
            &&& shows && s.selected < s.scroll_offset ==> t.scroll_offset == s.selected
            &&& shows && s.selected >= s.scroll_offset + height ==> t.scroll_offset + height - 1
                == s.selected
        }),
{
}

/// Each line of the list is a match, the lines follow one another as the matches do,
/// from the first one in sight on, and there are as many as fit. A line shows the
/// whole context of its target behind a marker, and only the selected match has the
/// arrow and is drawn as selected.
pub proof fn the_list_shows_the_matches(s: StateModel, rows: usize, cols: usize, i: int)
    requires
        s.permissions_granted,
        rows > 3,
        0 < s.targets.len() <= usize::MAX,
        s.filtered().len() > 0,
    ensures
        ({
            let drawn = render::frame(s, rows, cols);
            let first = render::rendered(s, rows).scroll_offset;
            let left = s.filtered().len() - first;
            let row = first + i;
            &&& left > 0 ==> drawn.len() == 3 + (if left < rows - 3 {
                left
            } else {
                rows - 3
            })
            &&& left <= 0 ==> drawn.len() == 3
            &&& 0 <= i < drawn.len() - 3 ==> {
                let d = drawn[3 + i];
                let k = s.filtered()[row] as int;
                &&& 0 <= row < s.filtered().len()
                &&& 0 <= k < s.targets.len()
                &&& is_line(d, 2 + i, cols)
                &&& d.text.content.len() == s.targets[k].context.len() + 2
                &&& d.text.content.skip(2) == s.targets[k].context
                &&& d.text.content[0] == (if row == s.selected {
                    '\u{25b8}'
                } else {
                    ' '
                })
                &&& d.text.content[1] == ' '
                &&& d.text.selected <==> row == s.selected
                &&& d.text == render::entry_text(s.targets[k], row == s.selected)
            }
        }),
{
    let drawn = render::frame(s, rows, cols);
    let t = render::rendered(s, rows);
    let first = t.scroll_offset;
    s.filtered_is_in_range();
    assert(t.filtered() == s.filtered());
    let body = render::body_draws(s, rows, cols);
    assert(body == render::list_draws(t, rows, cols));
    if 0 <= i < drawn.len() - 3 {
        let row = first + i;
        let k = s.filtered()[row] as int;
        assert(drawn[3 + i] == body[i]);
        assert(body[i] == render::entry_draw(t, row, (2 + i) as usize, cols));
        reveal_strlit("\u{25b8} ");
        reveal_strlit("  ");
        let content = drawn[3 + i].text.content;
        assert(content == render::marker(row == s.selected) + s.targets[k].context);
        assert(content.skip(2) =~= s.targets[k].context);
    }
}

/// So each line of the list belongs to a target that matches the query, and no two
/// lines to the same one.
pub proof fn no_match_is_listed_twice(s: StateModel, rows: usize, cols: usize, i: int, j: int)
    requires
        s.permissions_granted,
        rows > 3,
        0 < s.targets.len() <= usize::MAX,
        s.filtered().len() > 0,
        0 <= i < j < render::frame(s, rows, cols).len() - 3,
    ensures
        exists|k: int, m: int|
            #![trigger s.targets[k], s.targets[m]]
            {
                let drawn = render::frame(s, rows, cols);
                &&& 0 <= k < m < s.targets.len()
                &&& drawn[3 + i].text.content.skip(2) == s.targets[k].context
                &&& drawn[3 + j].text.content.skip(2) == s.targets[m].context
                &&& crate::fuzzy::is_subsequence(
                    chars::lowercase(s.targets[k].token.push(' ') + s.targets[k].context),
                    chars::lowercase(s.query),
                )
                &&& crate::fuzzy::is_subsequence(
                    chars::lowercase(s.targets[m].token.push(' ') + s.targets[m].context),
                    chars::lowercase(s.query),
                )
            },
{
    the_list_shows_the_matches(s, rows, cols, i);
    the_list_shows_the_matches(s, rows, cols, j);
    s.filtered_is_in_range();
    let first = render::rendered(s, rows).scroll_offset;
    let k = s.filtered()[first + i] as int;
    let m = s.filtered()[first + j] as int;
    assert(s.filtered().contains(k as usize));
    assert(s.filtered().contains(m as usize));
    search::token_and_whole_context_are_searched(s, k);
    search::token_and_whole_context_are_searched(s, m);
    assert(s.targets[k] == s.targets[k] && s.targets[m] == s.targets[m]);
}

/// In a line of the list the token has two colors where it stands first: one up to
/// the line number, and another from there to its end. A token without a line number
/// has only the first, and where the token does not stand nothing has a color.
pub proof fn the_token_has_two_colors(t: TargetModel, is_selected: bool)
    requires
        t.context.len() + 2 <= usize::MAX,
    ensures
        ({
            let e = render::entry_text(t, is_selected);
            let base = target::parts(t.token).base;
            &&& e.content.len() == t.context.len() + 2
            &&& e.content.skip(2) == t.context
            &&& e.content[0] == (if is_selected {
                '\u{25b8}'
            } else {
                ' '
            })
            &&& e.content[1] == ' '
            &&& e.selected == is_selected
            &&& !e.opaque
            &&& (forall|j: int|
                0 <= j && j + t.token.len() <= t.context.len() ==> #[trigger] t.context.subrange(
                    j,
                    j + t.token.len(),
                ) != t.token) ==> is_uncolored(e)
            &&& forall|b: int|
                0 <= b && b + t.token.len() <= t.context.len() && #[trigger] t.context.subrange(
                    b,
                    b + t.token.len(),
                ) == t.token && (forall|j: int|
                    0 <= j < b ==> #[trigger] t.context.subrange(j, j + t.token.len()) != t.token)
                    ==> {
                    &&& e.levels.len() == (if base.len() < t.token.len() {
                        3int
                    } else {
                        1int
                    })
                    &&& counts(e.levels[0], 2 + b, 2 + b + base.len())
                    &&& base.len() < t.token.len() ==> e.levels[1].len() == 0 && counts(
                        e.levels[2],
                        2 + b + base.len(),
                        2 + b + t.token.len(),
                    )
                }
        }),
{
    let e = render::entry_text(t, is_selected);
    let tok = t.token;
    let base = target::parts(tok).base;
    reveal_strlit("\u{25b8} ");
    reveal_strlit("  ");
    assert(e.content == render::marker(is_selected) + t.context);
    assert(e.content.skip(2) =~= t.context);
    tokens::base_is_a_prefix(tok);
    search::first_occurrences_are_first(t.context, tok);
    match chars::first_occurrence(t.context, tok) {
        None => {},
        Some(f) => {
            let at = f as int;
            assert(t.context.subrange(at, at + tok.len()) == tok);
            let start = 2 + at;
            let none = Seq::<usize>::empty();
            assert(none + text::positions(start as usize, (start + base.len()) as usize)
                =~= text::positions(start as usize, (start + base.len()) as usize));
            assert(none + text::positions(
                (start + base.len()) as usize,
                (start + tok.len()) as usize,
            ) =~= text::positions((start + base.len()) as usize, (start + tok.len()) as usize));
            assert forall|b: int|
                0 <= b && b + tok.len() <= t.context.len() && #[trigger] t.context.subrange(
                    b,
                    b + tok.len(),
                ) == tok && (forall|j: int|
                    0 <= j < b ==> #[trigger] t.context.subrange(j, j + tok.len())
                        != tok) implies b == at by {
                if b < at {
                    assert(t.context.subrange(b, b + tok.len()) != tok);
                } else if at < b {
                    assert(t.context.subrange(at, at + tok.len()) != tok);
                }
            }
        },
    }
}

/// A text that is colored as a whole.
pub proof fn whole_texts_are_colored(content: Seq<char>, level: u8)
    requires
        content.len() <= usize::MAX,
    ensures
        ({
            let t = text::plain(content).colored(level, 0, content.len() as usize);
            &&& t.content == content
            &&& !t.selected
            &&& has_one_color(t, level as int, 0, content.len() as int)
        }),
{
}

}
