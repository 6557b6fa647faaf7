//! Laws of panes: which terminal is the source, and when the picker is focused.

use vstd::prelude::*;

use crate::pane;
use crate::pane::{PaneId, PaneInfo};
use crate::state::{Resume, StateModel, StepModel};
use crate::target;

verus! {

/// A terminal that is focused within its layer.
pub open spec fn is_focused_terminal(p: PaneInfo) -> bool {
    p.is_focused && !p.is_plugin
}

/// The pane at position `i` is the source among the panes of a tab: a focused
/// terminal. A tiled one has no tiled one before it; a floating one has no floating
/// one before it, and none is tiled.
pub open spec fn is_source_at(panes: Seq<PaneInfo>, i: int) -> bool {
    &&& 0 <= i < panes.len()
    &&& is_focused_terminal(panes[i])
    &&& if panes[i].is_floating {
        forall|j: int|
            0 <= j < panes.len() && is_focused_terminal(#[trigger] panes[j]) ==> panes[j].is_floating
                && i <= j
    } else {
        forall|j: int|
            0 <= j < i && is_focused_terminal(#[trigger] panes[j]) ==> panes[j].is_floating
    }
}

/// The first pane that is looked for stands at a position before which none is.
proof fn first_pane_at(panes: Seq<PaneInfo>, p: spec_fn(PaneInfo) -> bool) -> (i: int)
    ensures
        match pane::first_pane(panes, p) {
            Some(found) => 0 <= i < panes.len() && panes[i] == found && p(found) && forall|j: int|
                0 <= j < i ==> !p(#[trigger] panes[j]),
            None => forall|j: int| 0 <= j < panes.len() ==> !p(#[trigger] panes[j]),
        },
    decreases panes.len(),
{
    if panes.len() == 0 || p(panes[0]) {
        0
    } else {
        let rest = panes.skip(1);
        let i = first_pane_at(rest, p);
        assert forall|j: int|
            0 <= j < panes.len() && (pane::first_pane(panes, p) is Some ==> j < i + 1) implies !p(
            #[trigger] panes[j],
        ) by {
            if j > 0 {
                assert(rest[j - 1] == panes[j]);
            }
        }
        i + 1
    }
}

/// Of the panes of a tab the source is chosen, and there is none only where none of
/// them is a focused terminal.
pub proof fn the_source_is_the_first_in_its_layer(panes: Seq<PaneInfo>)
    ensures
        match pane::source_among(panes) {
            Some(id) => exists|i: int| #[trigger]
                is_source_at(panes, i) && id == PaneId::Terminal(panes[i].id),
            None => forall|i: int|
                0 <= i < panes.len() ==> !is_focused_terminal(#[trigger] panes[i]),
        },
{
    let t = first_pane_at(panes, pane::tiled_source());
    let a = first_pane_at(panes, pane::any_source());
    if pane::first_pane(panes, pane::tiled_source()) is Some {
        assert forall|j: int|
            0 <= j < t && is_focused_terminal(#[trigger] panes[j]) implies panes[j].is_floating by {
            assert(!pane::tiled_source()(panes[j]));
        }
        assert(is_source_at(panes, t));
    } else {
        assert forall|j: int|
            0 <= j < panes.len() && is_focused_terminal(
                #[trigger] panes[j],
            ) implies panes[j].is_floating by {
            assert(!pane::tiled_source()(panes[j]));
        }
        if pane::first_pane(panes, pane::any_source()) is Some {
            assert forall|j: int|
                0 <= j < panes.len() && is_focused_terminal(#[trigger] panes[j]) implies a <= j by {
                if j < a {
                    assert(!pane::any_source()(panes[j]));
                }
            }
            assert(is_source_at(panes, a));
        } else {
            assert forall|i: int| 0 <= i < panes.len() implies !is_focused_terminal(
                #[trigger] panes[i],
            ) by {
                assert(!pane::any_source()(panes[i]));
            }
        }
    }
}

/// Where the panes of the active tab are known, the focused source is the source
/// among them, and there is none only where none of them is a focused terminal.
pub proof fn the_source_is_in_the_active_tab(
    s: StateModel,
    manifest: Map<usize, Seq<PaneInfo>>,
    tab: usize,
)
    requires
        s.manifest == Some(manifest),
        manifest.contains_key(tab),
    ensures
        match s.focused_source_pane(Some(tab)) {
            Some(id) => exists|i: int| #[trigger]
                is_source_at(manifest[tab], i) && id == PaneId::Terminal(manifest[tab][i].id),
            None => forall|i: int|
                0 <= i < manifest[tab].len() ==> !is_focused_terminal(#[trigger] manifest[tab][i]),
        },
{
    the_source_is_the_first_in_its_layer(manifest[tab]);
}

/// Where the active tab or its panes are not known, no source is focused.
pub proof fn an_unknown_tab_has_no_source(s: StateModel, tab: usize)
    ensures
        s.focused_source_pane(None) is None,
        s.manifest is None ==> s.focused_source_pane(Some(tab)) is None,
        s.manifest matches Some(m) && !m.contains_key(tab) ==> s.focused_source_pane(
            Some(tab),
        ) is None,
{
}

/// A terminal that is focused now is the one to read, whatever was read or noted
/// before: it is what is read, what a file is opened from where none was read, and
/// what is noted as focused last.
pub proof fn the_focused_terminal_is_read(
    s: StateModel,
    tab: Option<usize>,
    p: PaneId,
    render: bool,
)
    requires
        s.focused_source_pane(tab) == Some(p),
    ensures
        s.source_pane(tab) == Some(p),
        s.resumed(Resume::Build(render), tab) == (s, StepModel::ReadScrollback(p)),
        s.resumed(Resume::Open, tab).1 matches StepModel::OpenFile { source, .. } ==> source == Some(
            p,
        ),
        s.resumed(Resume::TrackFocus, tab).0.last_focused == Some(p),
        s.focus_noted(tab) == (StateModel { last_focused: Some(p), ..s }),
{
}

/// While no terminal is focused, the one that was noted last is read, and stays
/// noted; if there is none, nothing is read.
pub proof fn the_noted_terminal_is_read_else(s: StateModel, tab: Option<usize>, render: bool)
    requires
        s.focused_source_pane(tab) is None,
    ensures
        s.source_pane(tab) == s.last_focused,
        s.last_focused matches Some(p) ==> s.resumed(Resume::Build(render), tab) == (
            s,
            StepModel::ReadScrollback(p),
        ),
        s.last_focused is None ==> s.resumed(Resume::Build(render), tab) == (
            s,
            StepModel::Done { effects: Seq::empty(), render },
        ),
        s.resumed(Resume::Open, tab).1 matches StepModel::OpenFile { source, .. } ==> source
            == s.last_focused,
        s.resumed(Resume::TrackFocus, tab).0.last_focused == s.last_focused,
        s.focus_noted(tab) == s,
{
}

/// A pane of the plugin with the id is focused in some tab.
pub open spec fn has_focused_plugin(m: Map<usize, Seq<PaneInfo>>, id: u32) -> bool {
    exists|tab: usize, i: int|
        #![trigger m[tab][i]]
        m.contains_key(tab) && 0 <= i < m[tab].len() && m[tab][i].is_plugin && m[tab][i].id == id
            && m[tab][i].is_focused
}

/// Panes have the focused plugin if and only if one of them is that plugin and is
/// focused, in whatever tab.
pub proof fn focused_plugins_are_found_in_any_tab(m: Map<usize, Seq<PaneInfo>>, id: u32)
    ensures
        pane::is_plugin_focused(m, id) <==> has_focused_plugin(m, id),
{
    if pane::is_plugin_focused(m, id) {
        let tab = choose|tab: usize|
            m.contains_key(tab) && pane::focused_plugin_among(#[trigger] m[tab], id);
        let i = choose|i: int|
            0 <= i < m[tab].len() && (#[trigger] m[tab][i]).is_plugin && m[tab][i].id == id
                && m[tab][i].is_focused;
        assert(m[tab][i].is_plugin);
    }
    if has_focused_plugin(m, id) {
        let (tab, i) = choose|tab: usize, i: int|
            #![trigger m[tab][i]]
            m.contains_key(tab) && 0 <= i < m[tab].len() && m[tab][i].is_plugin && m[tab][i].id
                == id && m[tab][i].is_focused;
        assert(pane::focused_plugin_among(m[tab], id));
    }
}

/// The picker is focused if and only if its own pane, a plugin with its id, is
/// focused in some tab.
pub proof fn the_picker_is_focused_by_its_own_pane(s: StateModel)
    ensures
        s.manifest is None ==> !s.plugin_focused(),
        s.manifest matches Some(m) ==> (s.plugin_focused() <==> has_focused_plugin(m, s.plugin_id)),
{
    if let Some(m) = s.manifest {
        focused_plugins_are_found_in_any_tab(m, s.plugin_id);
    }
}

/// A target is opened by its path and its line, from the source that is given; where
/// nothing is selected, nothing is opened.
pub proof fn opening_hands_over_path_and_line(s: StateModel, tab: Option<usize>)
    ensures
        s.resumed(Resume::Open, tab).0 == s,
        match s.selected_token() {
            Some(token) => s.resumed(Resume::Open, tab).1 matches StepModel::OpenFile {
                path,
                line_number,
                source,
            } && path == target::parts(token).base && source == s.source_pane(tab) && (
            target::parts(token).line is None ==> line_number is None) && (
            target::parts(token).line matches Some(l) ==> line_number matches Some(n) && n == l),
            None => s.resumed(Resume::Open, tab).1 == (StepModel::Done {
                effects: Seq::empty(),
                render: true,
            }),
        },
{
}

}
