//! Laws of events: what each of them changes and asks for, and that it changes
//! nothing else.

use vstd::prelude::*;

use crate::key::{BareKey, KeyWithModifier};
use crate::pane::{PaneId, PaneInfo};
use crate::request;
use crate::request::{EventType, PermissionType};
use crate::scrollback;
use crate::state;
use crate::state::{EffectModel, EventModel, Resume, StateModel, StepModel};
use crate::target;

verus! {

/// Nothing is left to be done but perhaps to redraw.
pub open spec fn is_over(step: StepModel, redraw: bool) -> bool {
    step matches StepModel::Done { effects, render } && effects.len() == 0 && render == redraw
}

/// The scrollback is about to be read if that is permitted and pending; else nothing
/// is left to be done.
pub open spec fn reads_if_it_may(s: StateModel, step: StepModel, redraw: bool) -> bool {
    if s.permissions_granted && s.pending_build {
        step == StepModel::AskFocusedTab(Resume::Build(redraw))
    } else {
        is_over(step, redraw)
    }
}

/// The picker is ready for a new search: nothing typed, nothing selected but the top,
/// nothing scrolled and no message; what it knows otherwise is as it was.
pub open spec fn is_cleared(s: StateModel, t: StateModel) -> bool {
    &&& t.query.len() == 0
    &&& t.selected == 0
    &&& t.scroll_offset == 0
    &&& t.status is None
    &&& t.pending_build
    &&& t.targets == s.targets
    &&& t.built_source == s.built_source
    &&& t.permissions_granted == s.permissions_granted
    &&& t.plugin_id == s.plugin_id
    &&& t.manifest == s.manifest
}

/// A fresh picker knows nothing, has no permission and waits for nothing.
pub proof fn a_fresh_picker_is_blank()
    ensures
        ({
            let s = state::initial();
            &&& !s.permissions_granted && !s.was_focused && !s.suppress_reopen && !s.pending_build
            &&& s.plugin_id == 0 && s.selected == 0 && s.scroll_offset == 0
            &&& s.manifest is None && s.last_focused is None && s.built_source is None
            &&& s.status is None && s.targets.len() == 0 && s.query.len() == 0
        }),
{
}

/// Whether a reading starts.
pub proof fn a_reading_needs_permission_and_cause(s: StateModel, redraw: bool)
    ensures
        reads_if_it_may(s, s.build_step(redraw), redraw),
{
}

/// The answer to the request for permissions is noted, and nothing else changes. If
/// they are granted, a pending reading starts; if not, the screen shows it.
pub proof fn permissions_are_noted(s: StateModel, granted: bool)
    ensures
        ({
            let (t, step) = s.updated(EventModel::PermissionRequestResult(granted));
            &&& t == (StateModel { permissions_granted: granted, ..s })
            &&& granted ==> reads_if_it_may(t, step, false)
            &&& !granted ==> is_over(step, true)
        }),
{
}

/// The panes are noted, nothing else changes, and the focused tab is asked for.
pub proof fn panes_are_noted(s: StateModel, manifest: Map<usize, Seq<PaneInfo>>)
    ensures
        s.updated(EventModel::PaneUpdate(manifest)) == (
            StateModel { manifest: Some(manifest), ..s },
            StepModel::AskFocusedTab(Resume::TrackFocus),
        ),
{
}

/// Becoming visible clears the picker and reads afresh, becoming hidden and events of
/// any other kind change nothing.
pub proof fn becoming_visible_reads_afresh(s: StateModel)
    ensures
        ({
            let (t, step) = s.updated(EventModel::Visible(true));
            &&& is_cleared(s, t)
            &&& t.was_focused == s.was_focused
            &&& t.suppress_reopen == s.suppress_reopen
            &&& t.last_focused == s.last_focused
            &&& reads_if_it_may(t, step, true)
        }),
        s.updated(EventModel::Visible(false)).0 == s,
        is_over(s.updated(EventModel::Visible(false)).1, false),
        s.updated(EventModel::Other).0 == s,
        is_over(s.updated(EventModel::Other).1, false),
{
}

/// Once the focused tab is known after a pane update, it is noted whether the picker
/// is focused. If it was not and now is, the picker is cleared and reads afresh,
/// unless it took the focus itself, which is then used up. Else only the focused
/// terminal is noted.
pub proof fn regained_focus_reads_afresh(s: StateModel, tab: Option<usize>)
    ensures
        ({
            let (t, step) = s.resumed(Resume::TrackFocus, tab);
            let regained = s.plugin_focused() && !s.was_focused;
            &&& t.was_focused == s.plugin_focused()
            &&& t.last_focused == (if s.focused_source_pane(tab) is Some {
                s.focused_source_pane(tab)
            } else {
                s.last_focused
            })
            &&& regained && !s.suppress_reopen ==> is_cleared(s, t) && !t.suppress_reopen
            &&& regained && s.suppress_reopen ==> t == (StateModel {
                suppress_reopen: false,
                was_focused: t.was_focused,
                last_focused: t.last_focused,
                ..s
            })
            &&& !regained ==> t == (StateModel {
                was_focused: t.was_focused,
                last_focused: t.last_focused,
                ..s
            })
            &&& reads_if_it_may(t, step, true)
        }),
{
}

/// A scrollback that was read replaces the list, with the top selected and in sight;
/// its pane is noted, the reading is done, and a message is gone. What was typed and
/// all else stays.
pub proof fn a_reading_replaces_the_list(s: StateModel, source: PaneId, lines: Seq<Seq<char>>)
    ensures
        ({
            let t = s.built(source, lines);
            &&& t.targets == scrollback::extracted(lines)
            &&& t.built_source == Some(source)
            &&& t.selected == 0
            &&& t.scroll_offset == 0
            &&& !t.pending_build
            &&& t.status is None
            &&& t.query == s.query
            &&& t.permissions_granted == s.permissions_granted
            &&& t.plugin_id == s.plugin_id
            &&& t.was_focused == s.was_focused
            &&& t.suppress_reopen == s.suppress_reopen
            &&& t.manifest == s.manifest
            &&& t.last_focused == s.last_focused
        }),
{
}

/// A scrollback that could not be read leaves a message with the reason, and all
/// else as it was.
pub proof fn a_failed_reading_leaves_a_message(s: StateModel, error: Seq<char>)
    ensures
        ({
            let t = s.build_failed(error);
            &&& t.status == Some("Couldn't read scrollback: "@ + error)
            &&& t == (StateModel { status: t.status, ..s })
        }),
{
}

/// After a file was opened the picker takes the focus back, last of all; before that
/// the editor is stacked with the source, where both are known.
pub proof fn opening_ends_with_the_focus(
    s: StateModel,
    source: Option<PaneId>,
    editor: Option<PaneId>,
)
    ensures
        s.opened_step(source, editor) matches StepModel::Done { effects, render } && render
            && effects.len() > 0 && effects.last() == EffectModel::FocusPlugin(s.plugin_id) && match (
            source,
            editor,
        ) {
            (Some(p), Some(e)) => effects.len() == 2 && effects[0] == EffectModel::StackPanes(p, e),
            _ => effects.len() == 1,
        },
{
}

/// The selected target is the one at the selected place among those that match;
/// where there is no such place, none is selected.
pub proof fn the_selection_counts_among_the_matches(s: StateModel)
    ensures
        s.selected < s.filtered().len() ==> s.selected_token() == Some(
            s.targets[s.filtered()[s.selected as int] as int].token,
        ),
        s.selected >= s.filtered().len() ==> s.selected_token() is None,
{
}

/// No modifier is held.
pub open spec fn alone(key: KeyWithModifier) -> bool {
    !key.ctrl && !key.alt && !key.shift && !key.super_key
}

/// A character with Ctrl, whatever else is held.
pub open spec fn ctrl_with(key: KeyWithModifier, c: char) -> bool {
    key.ctrl && key.bare_key == BareKey::Char(c)
}

/// Enter alone.
pub open spec fn opens(key: KeyWithModifier) -> bool {
    alone(key) && key.bare_key == BareKey::Enter
}

/// Up alone, Ctrl-k or Ctrl-p.
pub open spec fn moves_up(key: KeyWithModifier) -> bool {
    (alone(key) && key.bare_key == BareKey::Up) || ctrl_with(key, 'k') || ctrl_with(key, 'p')
}

/// Down alone, Ctrl-j or Ctrl-n.
pub open spec fn moves_down(key: KeyWithModifier) -> bool {
    (alone(key) && key.bare_key == BareKey::Down) || ctrl_with(key, 'j') || ctrl_with(key, 'n')
}

/// Esc alone.
pub open spec fn escapes(key: KeyWithModifier) -> bool {
    alone(key) && key.bare_key == BareKey::Esc
}

/// Backspace alone.
pub open spec fn erases(key: KeyWithModifier) -> bool {
    alone(key) && key.bare_key == BareKey::Backspace
}

/// A character that is typed: alone or with Shift, and not with Ctrl one of the six
/// that mean something else.
pub open spec fn types(key: KeyWithModifier, c: char) -> bool {
    &&& key.bare_key == BareKey::Char(c)
    &&& alone(key) || key.shift
    &&& !(key.ctrl && (c == 'y' || c == 'c' || c == 'j' || c == 'k' || c == 'n' || c == 'p'))
}

/// Enter opens the selected target, by its path and line, from the pane that was
/// read. Where none was read, the focused tab is asked for first. Where nothing is
/// selected, nothing is opened. The picker stays as it is.
pub proof fn enter_opens_the_selection(s: StateModel, key: KeyWithModifier)
    requires
        opens(key),
    ensures
        ({
            let (t, step) = s.key_pressed(key);
            &&& t == s
            &&& step == s.open_selected_step()
            &&& s.selected >= s.filtered().len() ==> is_over(step, true)
            &&& s.selected < s.filtered().len() ==> match s.built_source {
                None => step == StepModel::AskFocusedTab(Resume::Open),
                Some(p) => {
                    let parts = target::parts(
                        s.targets[s.filtered()[s.selected as int] as int].token,
                    );
                    step matches StepModel::OpenFile { path, line_number, source } && path
                        == parts.base && source == Some(p) && (parts.line is None ==> line_number
                        is None) && (parts.line matches Some(l) ==> line_number matches Some(n) && n
                        == l)
                },
            }
        }),
{
}

/// Ctrl-y closes the picker, and copies the Vim target of the selection first, if
/// there is one. The picker stays as it is.
pub proof fn ctrl_y_copies_the_selection(s: StateModel, key: KeyWithModifier)
    requires
        ctrl_with(key, 'y'),
    ensures
        ({
            let (t, step) = s.key_pressed(key);
            &&& t == s
            &&& step matches StepModel::Done { effects, render } && !render && effects.len() > 0
                && effects.last() == EffectModel::Close && (s.selected < s.filtered().len() ==> {
                let token = s.targets[s.filtered()[s.selected as int] as int].token;
                effects.len() == 2 && effects[0] == EffectModel::Copy(target::vim_form(token))
            }) && (s.selected >= s.filtered().len() ==> effects.len() == 1)
        }),
{
}

/// Ctrl-c closes the picker, and so does Esc where nothing is typed. Esc with
/// something typed takes all of it back and selects the top.
pub proof fn ctrl_c_and_esc_close(s: StateModel, key: KeyWithModifier)
    requires
        ctrl_with(key, 'c') || escapes(key),
    ensures
        ({
            let (t, step) = s.key_pressed(key);
            if escapes(key) && s.query.len() > 0 {
                &&& t.query.len() == 0
                &&& t.selected == 0
                &&& t == (StateModel { query: t.query, selected: 0, ..s })
                &&& is_over(step, true)
            } else {
                &&& t == s
                &&& step matches StepModel::Done { effects, render } && !render && effects.len()
                    == 1 && effects[0] == EffectModel::Close
            }
        }),
{
}

/// The keys that move the selection move it by one, and not past the first or the
/// last match.
pub proof fn the_selection_moves_by_one(s: StateModel, key: KeyWithModifier)
    requires
        s.targets.len() <= usize::MAX,
        moves_up(key) || moves_down(key),
    ensures
        ({
            let (t, step) = s.key_pressed(key);
            &&& t == (StateModel { selected: t.selected, ..s })
            &&& is_over(step, true)
            &&& moves_up(key) && s.selected > 0 ==> t.selected == s.selected - 1
            &&& moves_up(key) && s.selected == 0 ==> t.selected == 0
            &&& moves_down(key) && s.selected + 1 < s.filtered().len() ==> t.selected == s.selected
                + 1
            &&& moves_down(key) && s.selected + 1 >= s.filtered().len() ==> t.selected == s.selected
        }),
{
    s.filtered_is_in_range();
}

/// Typing a character puts it behind what was typed, Backspace takes the last one
/// away, if there is one; both select the top and change nothing else.
pub proof fn typing_edits_the_query(s: StateModel, key: KeyWithModifier, c: char)
    requires
        types(key, c) || erases(key),
    ensures
        ({
            let (t, step) = s.key_pressed(key);
            &&& t == (StateModel { query: t.query, selected: 0, ..s })
            &&& is_over(step, true)
            &&& types(key, c) ==> t.query.len() == s.query.len() + 1 && t.query.last() == c
                && t.query.drop_last() == s.query
            &&& erases(key) && s.query.len() > 0 ==> s.query == t.query.push(s.query.last())
            &&& erases(key) && s.query.len() == 0 ==> t.query.len() == 0
        }),
{
    let t = s.key_pressed(key).0;
    if types(key, c) {
        assert(t.query.drop_last() =~= s.query);
    } else if s.query.len() > 0 {
        assert(s.query =~= t.query.push(s.query.last()));
    }
}

/// Any other key does nothing.
pub proof fn other_keys_do_nothing(s: StateModel, key: KeyWithModifier)
    requires
        !opens(key) && !escapes(key) && !erases(key) && !moves_up(key) && !moves_down(key),
        !ctrl_with(key, 'y') && !ctrl_with(key, 'c'),
        key.bare_key matches BareKey::Char(c) ==> !types(key, c),
    ensures
        s.key_pressed(key).0 == s,
        is_over(s.key_pressed(key).1, false),
{
}

/// A key event is a key that is pressed.
pub proof fn key_events_are_keys(s: StateModel, key: KeyWithModifier)
    ensures
        s.updated(EventModel::Key(key)) == s.key_pressed(key),
{
}

/// What is asked of a key: whether it is the one and nothing is held, whether Ctrl is
/// held with it, and whether nothing is held.
pub proof fn modifiers_are_told_apart(key: KeyWithModifier, bare: BareKey, c: char)
    ensures
        key.is_bare(bare) <==> key.bare_key == bare && alone(key),
        key.is_ctrl(c) <==> ctrl_with(key, c),
        key.unmodified() <==> alone(key),
{
}

/// The kind of an event.
pub open spec fn kind(event: EventModel) -> Option<EventType> {
    match event {
        EventModel::PermissionRequestResult(_) => Some(EventType::PermissionRequestResult),
        EventModel::PaneUpdate(_) => Some(EventType::PaneUpdate),
        EventModel::Visible(_) => Some(EventType::Visible),
        EventModel::Key(_) => Some(EventType::Key),
        EventModel::Other => None,
    }
}

/// The picker is told of every event that can do anything, and of each kind once.
pub proof fn every_event_that_matters_is_subscribed_to(s: StateModel, event: EventModel)
    ensures
        s.updated(event) != (s, StepModel::Done { effects: Seq::empty(), render: false })
            ==> kind(event) is Some,
        kind(event) matches Some(k) ==> request::handled_events().contains(k),
        request::handled_events().no_duplicates(),
{
    let all = request::handled_events();
    assert(all[0] == EventType::PermissionRequestResult);
    assert(all[1] == EventType::PaneUpdate);
    assert(all[2] == EventType::Visible);
    assert(all[3] == EventType::Key);
}

/// Every permission there is, is asked for, and each once.
pub proof fn every_permission_is_requested(permission: PermissionType)
    ensures
        request::needed_permissions().contains(permission),
        request::needed_permissions().no_duplicates(),
{
    let all = request::needed_permissions();
    assert(all[0] == PermissionType::ReadApplicationState);
    assert(all[1] == PermissionType::ReadPaneContents);
    assert(all[2] == PermissionType::WriteToClipboard);
    assert(all[3] == PermissionType::OpenFiles);
    assert(all[4] == PermissionType::ChangeApplicationState);
}

}
