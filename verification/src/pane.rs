//! Panes, and which of them the picker reads.

use std::collections::HashMap;
use vstd::prelude::*;

verus! {

broadcast use vstd::std_specs::hash::group_hash_axioms;

/// The identity of a pane.
#[derive(Clone, Copy, Debug, PartialEq, Eq, Structural)]
pub enum PaneId {
    Terminal(u32),
    Plugin(u32),
}

/// What matters of an open pane. A pane is focused within its layer: one tiled
/// and one floating pane of a tab can be focused at the same time.
#[derive(Clone, Copy, Debug, PartialEq, Eq, Structural)]
pub struct PaneInfo {
    pub id: u32,
    pub is_plugin: bool,
    pub is_focused: bool,
    pub is_floating: bool,
}

/// The panes of each tab, by the position of the tab.
pub struct PaneManifest {
    pub panes: HashMap<usize, Vec<PaneInfo>>,
}

impl View for PaneManifest {
    type V = Map<usize, Seq<PaneInfo>>;

    open spec fn view(&self) -> Map<usize, Seq<PaneInfo>> {
        self.panes@.map_values(|v: Vec<PaneInfo>| v@)
    }
}

/// A focused terminal in the tiled layer.
pub open spec fn tiled_source() -> spec_fn(PaneInfo) -> bool {
    |p: PaneInfo| p.is_focused && !p.is_plugin && !p.is_floating
}

/// A focused terminal in any layer.
pub open spec fn any_source() -> spec_fn(PaneInfo) -> bool {
    |p: PaneInfo| p.is_focused && !p.is_plugin
}

/// The first pane that satisfies `p`.
pub open spec fn first_pane(panes: Seq<PaneInfo>, p: spec_fn(PaneInfo) -> bool) -> Option<PaneInfo>
    decreases panes.len(),
{
    if panes.len() == 0 {
        None
    } else if p(panes[0]) {
        Some(panes[0])
    } else {
        first_pane(panes.skip(1), p)
    }
}

/// Of the panes of a tab, the terminal that is focused: one in the tiled layer
/// before one in the floating layer.
pub open spec fn source_among(panes: Seq<PaneInfo>) -> Option<PaneId> {
    match first_pane(panes, tiled_source()) {
        Some(p) => Some(PaneId::Terminal(p.id)),
        None => match first_pane(panes, any_source()) {
            Some(p) => Some(PaneId::Terminal(p.id)),
            None => None,
        },
    }
}

/// The pane of the plugin is focused, and is one of the panes.
pub open spec fn focused_plugin_among(panes: Seq<PaneInfo>, plugin_id: u32) -> bool {
    exists|i: int|
        0 <= i < panes.len() && (#[trigger] panes[i]).is_plugin && panes[i].id == plugin_id
            && panes[i].is_focused
}

/// The pane of the plugin is focused in some tab.
pub open spec fn is_plugin_focused(manifest: Map<usize, Seq<PaneInfo>>, plugin_id: u32) -> bool {
    exists|tab: usize|
        manifest.contains_key(tab) && focused_plugin_among(#[trigger] manifest[tab], plugin_id)
}

fn find_focused_plugin(panes: &Vec<PaneInfo>, plugin_id: u32) -> (r: bool)
    ensures
        r == focused_plugin_among(panes@, plugin_id),
{
    for i in 0..panes.len()
        invariant
            forall|j: int|
                0 <= j < i ==> !((#[trigger] panes@[j]).is_plugin && panes@[j].id == plugin_id
                    && panes@[j].is_focused),
    {
        let p = panes[i];
        if p.is_plugin && p.id == plugin_id && p.is_focused {
            return true;
        }
    }
    false
}

fn find_source(panes: &Vec<PaneInfo>, tiled_only: bool) -> (r: Option<PaneId>)
    ensures
        r == (match first_pane(
            panes@,
            if tiled_only {
                tiled_source()
            } else {
                any_source()
            },
        ) {
            Some(p) => Some(PaneId::Terminal(p.id)),
            None => None,
        }),
{
    let ghost wanted = if tiled_only {
        tiled_source()
    } else {
        any_source()
    };
    assert(panes@.skip(0) =~= panes@);
    for i in 0..panes.len()
        invariant
            wanted == (if tiled_only {
                tiled_source()
            } else {
                any_source()
            }),
            first_pane(panes@, wanted) == first_pane(panes@.skip(i as int), wanted),
    {
        let p = panes[i];
        assert(panes@.skip(i as int)[0] == p);
        if p.is_focused && !p.is_plugin && !(tiled_only && p.is_floating) {
            return Some(PaneId::Terminal(p.id));
        }
        assert(panes@.skip(i as int).skip(1) =~= panes@.skip(i + 1));
    }
    None
}

impl PaneManifest {
    /// The terminal that is focused in a tab.
    pub fn source_in_tab(&self, tab: usize) -> (r: Option<PaneId>)
        ensures
            r == (if self@.contains_key(tab) {
                source_among(self@[tab])
            } else {
                None
            }),
    {
        match self.panes.get(&tab) {
            None => None,
            Some(panes) => match find_source(panes, true) {
                Some(p) => Some(p),
                None => find_source(panes, false),
            },
        }
    }

    /// Whether the pane of the plugin is focused.
    pub fn plugin_focused(&self, plugin_id: u32) -> (r: bool)
        ensures
            r == is_plugin_focused(self@, plugin_id),
    {
        for panes in it: self.panes.values()
            invariant
                it.seq().unref().to_set() == self.panes@.values(),
                forall|k: int|
                    0 <= k < it.index() ==> !focused_plugin_among(
                        (#[trigger] it.seq()[k])@,
                        plugin_id,
                    ),
        {
            if find_focused_plugin(panes, plugin_id) {
                proof {
                    assert(it.seq().unref()[it.index()] == *panes);
                    assert(it.seq().unref().to_set().contains(*panes));
                    let tab = choose|tab: usize|
                        self.panes@.contains_key(tab) && #[trigger] self.panes@[tab] == *panes;
                    assert(self@[tab] == panes@);
                }
                return true;
            }
        }
        proof {
            if is_plugin_focused(self@, plugin_id) {
                let tab = choose|tab: usize|
                    self@.contains_key(tab) && focused_plugin_among(
                        #[trigger] self@[tab],
                        plugin_id,
                    );
                assert(self.panes@.values().contains(self.panes@[tab]));
            }
        }
        false
    }
}

}
