//! Laws of the picker: what every event keeps, what keys do and undo, and when
//! the scrollback is read.

use vstd::prelude::*;

use crate::chars;
use crate::fuzzy;
use crate::key::{BareKey, KeyWithModifier};
use crate::laws::extraction;
use crate::pane;
use crate::pane::{PaneId, PaneInfo};
use crate::render;
use crate::scrollback;
use crate::scrollback::TargetModel;
use crate::state;
use crate::state::{EffectModel, EventModel, Resume, StateModel, StepModel};
use crate::target;

verus! {

/// Targets as the picker lists them: no token twice, each a target, and each
/// with a context that shows it.
pub open spec fn well_listed(targets: Seq<TargetModel>) -> bool {
    &&& targets.len() <= usize::MAX
    &&& forall|i: int, j: int|
        0 <= i < j < targets.len() ==> (#[trigger] targets[i]).token != (
        #[trigger] targets[j]).token
    &&& forall|i: int|
        0 <= i < targets.len() ==> target::is_target((#[trigger] targets[i]).token)
            && chars::occurs_in(targets[i].context, targets[i].token)
}

/// A valid picker: its targets are well listed, the selection is a match or at
/// the top, and the list is scrolled to one of the targets or to the top.
pub open spec fn valid(s: StateModel) -> bool {
    &&& well_listed(s.targets)
    &&& s.selected == 0 || s.selected < s.filtered().len()
    &&& s.scroll_offset == 0 || s.scroll_offset < s.targets.len()
}

/// The picker starts valid.
pub proof fn starts_valid()
    ensures
        valid(state::initial()),
{
}

/// Every event leaves a valid picker valid.
pub proof fn events_keep_it_valid(s: StateModel, event: EventModel)
    requires
        valid(s),
    ensures
        valid(s.updated(event).0),
{
}

/// So does learning which tab is focused.
pub proof fn resuming_keeps_it_valid(s: StateModel, resume: Resume, focused_tab: Option<usize>)
    requires
        valid(s),
    ensures
        valid(s.resumed(resume, focused_tab).0),
{
}

/// So does reading a scrollback, whatever its lines, as long as the targets can
/// be counted; and so does failing to read one.
pub proof fn reading_keeps_it_valid(
    s: StateModel,
    source: PaneId,
    lines: Seq<Seq<char>>,
    error: Seq<char>,
)
    requires
        valid(s),
        scrollback::extracted(lines).len() <= usize::MAX,
    ensures
        valid(s.built(source, lines)),
        valid(s.build_failed(error)),
{
    let kept = scrollback::extracted(lines);
    assert forall|i: int, j: int| 0 <= i < j < kept.len() implies (#[trigger] kept[i]).token != (
    #[trigger] kept[j]).token by {
        extraction::tokens_are_distinct(lines, i, j);
    }
    let from = extraction::recent_first(lines);
    assert forall|i: int| 0 <= i < kept.len() implies target::is_target((#[trigger] kept[i]).token)
        && chars::occurs_in(kept[i].context, kept[i].token) by {
        assert(0 <= from[i] < lines.len());
        extraction::listed_tokens_occur_in_their_context(lines, i);
    }
}

/// So does opening a file.
pub proof fn opening_keeps_it_valid(s: StateModel)
    requires
        valid(s),
    ensures
        valid(StateModel { suppress_reopen: true, ..s }),
{
}

/// So does drawing.
pub proof fn drawing_keeps_it_valid(s: StateModel, rows: usize)
    requires
        valid(s),
    ensures
        valid(render::rendered(s, rows)),
{
    s.filtered_is_in_range();
}

/// The filter is exact and keeps the order: a target is shown if and only if it
/// matches the query, and the positions ascend.
pub proof fn filter_is_exact(s: StateModel, k: int)
    requires
        s.targets.len() <= usize::MAX,
        0 <= k < s.targets.len(),
    ensures
        s.filtered().contains(k as usize) <==> state::matches(s.targets[k], s.query),
        forall|i: int, j: int|
            0 <= i < j < s.filtered().len() ==> #[trigger] s.filtered()[i]
                < #[trigger] s.filtered()[j],
{
    let hays = state::searched(s.targets);
    let query = chars::lowercase(s.query);
    fuzzy::hits_are_the_matches(hays, query, s.targets.len());
    assert(hays[k] == chars::lowercase(state::haystack(s.targets[k])));
    if s.filtered().contains(k as usize) {
        let i = choose|i: int| 0 <= i < s.filtered().len() && s.filtered()[i] == k as usize;
        assert(fuzzy::is_subsequence(hays[s.filtered()[i] as int], query));
    }
    s.filtered_is_in_range();
}

/// As long as anything matches, a target that matches is selected.
pub proof fn selection_is_a_match(s: StateModel)
    requires
        valid(s),
        s.filtered().len() > 0,
    ensures
        ({
            let k = s.filtered()[s.selected as int] as int;
            &&& s.selected < s.filtered().len()
            &&& 0 <= k < s.targets.len()
            &&& s.selected_token() == Some(s.targets[k].token)
            &&& state::matches(s.targets[k], s.query)
        }),
{
    let k = s.filtered()[s.selected as int] as int;
    s.filtered_is_in_range();
    assert(s.filtered().contains(k as usize));
    filter_is_exact(s, k);
}

/// A query from which another can be had by leaving characters out shows no more
/// than that one.
pub proof fn a_longer_query_shows_no_more(s: StateModel, longer: Seq<char>, k: int)
    requires
        s.targets.len() <= usize::MAX,
        0 <= k < s.targets.len(),
        fuzzy::is_subsequence(chars::lowercase(longer), chars::lowercase(s.query)),
        s.with_query(longer).filtered().contains(k as usize),
    ensures
        s.filtered().contains(k as usize),
{
    filter_is_exact(s, k);
    filter_is_exact(s.with_query(longer), k);
    fuzzy::subsequence_is_transitive(
        chars::lowercase(state::haystack(s.targets[k])),
        chars::lowercase(longer),
        chars::lowercase(s.query),
    );
}

/// Typing narrows the list, wherever the query in small letters goes on as it was.
pub proof fn typing_narrows_the_list(s: StateModel, c: char, k: int)
    requires
        s.targets.len() <= usize::MAX,
        0 <= k < s.targets.len(),
        chars::lowercase(s.query).is_prefix_of(chars::lowercase(s.query.push(c))),
        s.with_query(s.query.push(c)).filtered().contains(k as usize),
    ensures
        s.filtered().contains(k as usize),
{
    let short = chars::lowercase(s.query);
    let long = chars::lowercase(s.query.push(c));
    assert(long.subrange(0, short.len() as int) =~= short);
    assert(chars::occurs_at(long, short, 0));
    fuzzy::a_part_is_a_subsequence(long, short, 0);
    a_longer_query_shows_no_more(s, s.query.push(c), k);
}

/// The token and the line around it can both be searched: whatever occurs in
/// either, in small letters, is matched.
pub proof fn token_and_context_are_searched(t: TargetModel, query: Seq<char>)
    requires
        chars::occurs_in(chars::lowercase(state::haystack(t)), chars::lowercase(query)),
    ensures
        state::matches(t, query),
{
    let hay = chars::lowercase(state::haystack(t));
    let i = choose|i: int| chars::occurs_at(hay, chars::lowercase(query), i);
    fuzzy::a_part_is_a_subsequence(hay, chars::lowercase(query), i);
}

/// No key reads the scrollback or makes it pending, and none changes the targets
/// or anything else but the query and the selection.
pub proof fn keys_change_query_and_selection_only(s: StateModel, key: KeyWithModifier)
    ensures
        ({
            let (t, step) = s.key_pressed(key);
            &&& t == (StateModel { query: t.query, selected: t.selected, ..s })
            &&& !(step is ReadScrollback)
            &&& step matches StepModel::AskFocusedTab(resume) ==> resume == Resume::Open
        }),
{
}

/// A key by itself.
pub open spec fn bare(key: BareKey) -> KeyWithModifier {
    KeyWithModifier { bare_key: key, ctrl: false, alt: false, shift: false, super_key: false }
}

/// A character with Ctrl.
pub open spec fn ctrl(c: char) -> KeyWithModifier {
    KeyWithModifier {
        bare_key: BareKey::Char(c),
        ctrl: true,
        alt: false,
        shift: false,
        super_key: false,
    }
}

/// Esc clears the filter, or closes the picker if there is none: the second of
/// two always closes.
pub proof fn esc_clears_and_esc_again_closes(s: StateModel)
    ensures
        ({
            let (t, first) = s.key_pressed(bare(BareKey::Esc));
            let (u, second) = t.key_pressed(bare(BareKey::Esc));
            &&& t.query.len() == 0
            &&& s.query.len() == 0 ==> t == s && first == state::done_with(
                EffectModel::Close,
                false,
            )
            &&& s.query.len() > 0 ==> first == state::done(true)
            &&& u == t
            &&& second == state::done_with(EffectModel::Close, false)
        }),
{
}

/// Ctrl-c closes the picker and changes nothing.
pub proof fn ctrl_c_closes(s: StateModel)
    ensures
        s.key_pressed(ctrl('c')) == (s, state::done_with(EffectModel::Close, false)),
{
}

/// Backspace takes back the character that was typed last, with or without Shift.
pub proof fn backspace_takes_back_what_was_typed(s: StateModel, c: char, shift: bool)
    ensures
        ({
            let typed = s.key_pressed(
                KeyWithModifier { shift, ..bare(BareKey::Char(c)) },
            ).0;
            &&& typed.query == s.query.push(c)
            &&& typed.key_pressed(bare(BareKey::Backspace)).0 == s.with_query(s.query)
        }),
{
    assert(s.query.push(c).drop_last() =~= s.query);
}

/// The arrow keys, Ctrl-j with Ctrl-k and Ctrl-n with Ctrl-p do the same.
pub proof fn navigation_keys_agree(s: StateModel)
    ensures
        s.key_pressed(bare(BareKey::Up)) == s.key_pressed(ctrl('k')),
        s.key_pressed(bare(BareKey::Up)) == s.key_pressed(ctrl('p')),
        s.key_pressed(bare(BareKey::Down)) == s.key_pressed(ctrl('j')),
        s.key_pressed(bare(BareKey::Down)) == s.key_pressed(ctrl('n')),
        s.key_pressed(bare(BareKey::Up)) == (s.moved_up(), state::done(true)),
        s.key_pressed(bare(BareKey::Down)) == (s.moved_down(), state::done(true)),
{
}

/// Moving down and up again, where there is a match below, leaves everything as
/// it was; so does moving up and down again, where there is one above.
pub proof fn moving_back_restores(s: StateModel)
    requires
        valid(s),
    ensures
        s.selected + 1 < s.filtered().len() ==> s.moved_down().moved_up() == s,
        s.selected > 0 ==> s.moved_up().moved_down() == s,
{
    s.filtered_is_in_range();
}

/// Enter changes nothing and does not close the picker.
pub proof fn enter_keeps_the_picker_open(s: StateModel, source: Option<PaneId>, editor: Option<PaneId>)
    ensures
        s.key_pressed(bare(BareKey::Enter)).0 == s,
        s.key_pressed(bare(BareKey::Enter)).1 matches StepModel::Done { effects, .. }
            ==> effects.len() == 0,
        s.open_step(source) matches StepModel::Done { effects, .. } ==> effects.len() == 0,
        s.opened_step(source, editor) matches StepModel::Done { effects, .. }
            && !effects.contains(EffectModel::Close) && effects.last() == EffectModel::FocusPlugin(
            s.plugin_id,
        ),
{
    let effects = s.opened_step(source, editor)->effects;
    if effects.contains(EffectModel::Close) {
        let i = choose|i: int| 0 <= i < effects.len() && effects[i] == EffectModel::Close;
        assert(i == 0 || i == 1);
    }
}

/// Several files can be opened in a row: after one was opened, the pane update
/// by which the picker gets its focus back leaves the list, the query and the
/// selection as they were, and nothing is read again that was not pending.
pub proof fn opening_survives_the_refocus(
    s: StateModel,
    manifest: Map<usize, Seq<PaneInfo>>,
    focused_tab: Option<usize>,
)
    ensures
        ({
            let opened = StateModel { suppress_reopen: true, ..s };
            let told = opened.updated(EventModel::PaneUpdate(manifest)).0;
            let (t, step) = told.resumed(Resume::TrackFocus, focused_tab);
            &&& t.targets == s.targets
            &&& t.query == s.query
            &&& t.selected == s.selected
            &&& t.scroll_offset == s.scroll_offset
            &&& t.status == s.status
            &&& t.built_source == s.built_source
            &&& t.pending_build == s.pending_build
            &&& !s.pending_build ==> step == state::done(true)
        }),
{
}

/// The suppression lasts for one regained focus: the next one that follows it is
/// the user's again.
pub proof fn suppression_is_used_up(s: StateModel, focused_tab: Option<usize>)
    requires
        s.suppress_reopen,
        !s.was_focused,
        s.focus_noted(focused_tab).plugin_focused(),
    ensures
        !s.panes_updated(focused_tab).suppress_reopen,
{
}

/// When the user opens the picker, the filter is empty and the scrollback is
/// read afresh as soon as that is permitted.
pub proof fn reopening_reads_afresh(s: StateModel, focused_tab: Option<usize>)
    requires
        !s.suppress_reopen,
        !s.was_focused,
        s.focus_noted(focused_tab).plugin_focused(),
    ensures
        ({
            let (t, step) = s.resumed(Resume::TrackFocus, focused_tab);
            &&& t.query.len() == 0
            &&& t.selected == 0
            &&& t.scroll_offset == 0
            &&& t.pending_build
            &&& t.was_focused
            &&& s.permissions_granted ==> step == StepModel::AskFocusedTab(Resume::Build(true))
        }),
{
}

/// The first reading is armed when the picker is loaded, and starts when the
/// permissions are granted.
pub proof fn first_reading_starts_with_the_permission(s: StateModel, plugin_id: u32)
    ensures
        (StateModel { plugin_id, pending_build: true, ..s }).updated(
            EventModel::PermissionRequestResult(true),
        ).1 == StepModel::AskFocusedTab(Resume::Build(false)),
{
}

/// Without the permissions nothing is read.
pub proof fn nothing_is_read_without_permission(s: StateModel, event: EventModel)
    requires
        !s.permissions_granted,
        event != EventModel::PermissionRequestResult(true),
    ensures
        ({
            let (t, step) = s.updated(event);
            &&& !t.permissions_granted
            &&& step matches StepModel::AskFocusedTab(resume) ==> !(resume is Build)
            &&& !(step is ReadScrollback)
        }),
{
}

/// A scrollback that was read is not read again until the picker is reopened; one
/// that could not be read stays pending, and the targets stay.
pub proof fn reading_is_done_once(
    s: StateModel,
    source: PaneId,
    lines: Seq<Seq<char>>,
    error: Seq<char>,
    render: bool,
)
    ensures
        s.built(source, lines).build_step(render) == state::done(render),
        s.build_failed(error).pending_build == s.pending_build,
        s.build_failed(error).targets == s.targets,
        s.build_failed(error).status is Some,
        s.built(source, lines).status is None,
{
}

/// Once a scrollback was read, opening a target always starts from the pane that
/// was read, wherever the focus has gone since, and hands over the path and the
/// line of the token.
pub proof fn opens_stay_anchored(s: StateModel, source: PaneId, token: Seq<char>)
    requires
        s.built_source == Some(source),
        s.selected_token() == Some(token),
    ensures
        ({
            let p = target::parts(token);
            s.key_pressed(bare(BareKey::Enter)).1 == (StepModel::OpenFile {
                path: p.base,
                line_number: match p.line {
                    Some(l) => Some(l as usize),
                    None => None,
                },
                source: Some(source),
            })
        }),
        (StateModel { suppress_reopen: true, ..s }).built_source == Some(source),
{
}

/// Ctrl-y copies the Vim target of the selection, with its column, and closes.
pub proof fn ctrl_y_copies_and_closes(s: StateModel)
    requires
        valid(s),
        s.filtered().len() > 0,
    ensures
        s.key_pressed(ctrl('y')) == (
            s,
            StepModel::Done {
                effects: seq![
                    EffectModel::Copy(
                        target::vim_form(
                            s.targets[s.filtered()[s.selected as int] as int].token,
                        ),
                    ),
                    EffectModel::Close,
                ],
                render: false,
            },
        ),
{
    selection_is_a_match(s);
}

/// The first pane that is looked for is one of the panes, and there is one
/// whenever any pane qualifies.
proof fn first_pane_is_found(panes: Seq<PaneInfo>, p: spec_fn(PaneInfo) -> bool)
    ensures
        match pane::first_pane(panes, p) {
            Some(found) => panes.contains(found) && p(found),
            None => forall|i: int| 0 <= i < panes.len() ==> !p(#[trigger] panes[i]),
        },
    decreases panes.len(),
{
    if panes.len() > 0 && !p(panes[0]) {
        first_pane_is_found(panes.skip(1), p);
        match pane::first_pane(panes, p) {
            Some(found) => {
                let i = choose|i: int| 0 <= i < panes.skip(1).len() && panes.skip(1)[i] == found;
                assert(panes[i + 1] == found);
            },
            None => {
                assert forall|i: int| 0 <= i < panes.len() implies !p(#[trigger] panes[i]) by {
                    if i > 0 {
                        assert(panes.skip(1)[i - 1] == panes[i]);
                    }
                }
            },
        }
    }
}

/// The source is a focused terminal of the active tab, a tiled one wherever one
/// is focused; it is missing only where no terminal of the tab is focused.
pub proof fn source_is_a_focused_terminal(panes: Seq<PaneInfo>)
    ensures
        match pane::source_among(panes) {
            Some(id) => exists|i: int|
                0 <= i < panes.len() && id == PaneId::Terminal((#[trigger] panes[i]).id)
                    && panes[i].is_focused && !panes[i].is_plugin && (panes[i].is_floating ==> (
                forall|j: int|
                    0 <= j < panes.len() ==> !((#[trigger] panes[j]).is_focused
                        && !panes[j].is_plugin && !panes[j].is_floating))),
            None => forall|i: int|
                0 <= i < panes.len() ==> !((#[trigger] panes[i]).is_focused
                    && !panes[i].is_plugin),
        },
{
    first_pane_is_found(panes, pane::tiled_source());
    first_pane_is_found(panes, pane::any_source());
    match pane::first_pane(panes, pane::tiled_source()) {
        Some(p) => {
            let i = choose|i: int| 0 <= i < panes.len() && panes[i] == p;
            assert(panes[i].is_focused);
        },
        None => {
            assert forall|j: int| 0 <= j < panes.len() implies !((#[trigger] panes[j]).is_focused
                && !panes[j].is_plugin && !panes[j].is_floating) by {
                assert(!pane::tiled_source()(panes[j]));
            }
            match pane::first_pane(panes, pane::any_source()) {
                Some(p) => {
                    let i = choose|i: int| 0 <= i < panes.len() && panes[i] == p;
                    assert(panes[i].is_focused);
                },
                None => {
                    assert forall|i: int| 0 <= i < panes.len() implies !((
                    #[trigger] panes[i]).is_focused && !panes[i].is_plugin) by {
                        assert(!pane::any_source()(panes[i]));
                    }
                },
            }
        },
    }
}

/// The pane to read is never a plugin: as long as what was noted is a terminal, so
/// is what is read, and so is what is noted next.
pub proof fn sources_are_terminals(s: StateModel, focused_tab: Option<usize>)
    requires
        s.last_focused matches Some(p) ==> p is Terminal,
    ensures
        s.source_pane(focused_tab) matches Some(p) ==> p is Terminal,
        s.focus_noted(focused_tab).last_focused matches Some(p) ==> p is Terminal,
{
}

/// A source that was noted is kept while no terminal of the active tab is focused,
/// and is what is read then.
pub proof fn last_focused_terminal_is_the_fallback(s: StateModel, focused_tab: Option<usize>)
    requires
        s.focused_source_pane(focused_tab) is None,
    ensures
        s.source_pane(focused_tab) == s.last_focused,
        s.focus_noted(focused_tab) == s,
{
}

}
