//! Laws of views: a view shows all there is of a value, each part where it belongs.

use vstd::prelude::*;
use zellij_tile::ui_components::Text;

use crate::pane::PaneManifest;
use crate::render;
use crate::render::Draw;
use crate::scrollback;
use crate::scrollback::{PaneContents, Target};
use crate::state::{Effect, EffectModel, Event, EventModel, State, Step, StepModel};
use crate::text;

verus! {

/// The characters of strings, the models of targets and of draws, one for one.
pub proof fn sequences_are_viewed_one_for_one(
    strings: Seq<String>,
    targets: Seq<Target>,
    drawn: Seq<Draw>,
    hints: Seq<(&str, &str)>,
    i: int,
)
    ensures
        scrollback::views(strings).len() == strings.len(),
        0 <= i < strings.len() ==> scrollback::views(strings)[i] == strings[i]@,
        scrollback::models(targets).len() == targets.len(),
        0 <= i < targets.len() ==> scrollback::models(targets)[i].token == targets[i].token@
            && scrollback::models(targets)[i].context == targets[i].context@,
        render::draws(drawn).len() == drawn.len(),
        0 <= i < drawn.len() ==> render::draws(drawn)[i] == drawn[i]@,
        text::hint_views(hints).len() == hints.len(),
        0 <= i < hints.len() ==> text::hint_views(hints)[i] == (hints[i].0@, hints[i].1@),
{
}

/// The lines of a pane: those above what is visible, then those that are visible, then
/// those below, each in order and none left out.
pub proof fn lines_go_from_top_to_bottom(pane: PaneContents, i: int)
    ensures
        ({
            let a = pane.lines_above_viewport@;
            let v = pane.viewport@;
            let b = pane.lines_below_viewport@;
            &&& pane.lines().len() == a.len() + v.len() + b.len()
            &&& 0 <= i < a.len() ==> pane.lines()[i] == a[i]@
            &&& 0 <= i < v.len() ==> pane.lines()[a.len() + i] == v[i]@
            &&& 0 <= i < b.len() ==> pane.lines()[a.len() + v.len() + i] == b[i]@
        }),
{
}

/// All of a picker is in its view.
pub proof fn a_picker_is_viewed_whole(s: State, i: int)
    ensures
        s@.permissions_granted == s.permissions_granted,
        s@.plugin_id == s.plugin_id,
        s@.was_focused == s.was_focused,
        s@.suppress_reopen == s.suppress_reopen,
        s@.manifest is Some <==> s.manifest is Some,
        s.manifest matches Some(m) ==> s@.manifest == Some(m@),
        s@.last_focused == s.last_focused,
        s@.pending_build == s.pending_build,
        s@.built_source == s.built_source,
        s@.targets.len() == s.targets@.len(),
        0 <= i < s.targets@.len() ==> s@.targets[i].token == s.targets@[i].token@
            && s@.targets[i].context == s.targets@[i].context@,
        s@.query == s.query@,
        s@.selected == s.selected,
        s@.scroll_offset == s.scroll_offset,
        s@.status is Some <==> s.status is Some,
        s.status matches Some(m) ==> s@.status == Some(m@),
{
}

/// So are the panes of each tab.
pub proof fn panes_are_viewed_by_tab(m: PaneManifest, tab: usize)
    ensures
        m@.contains_key(tab) <==> m.panes@.contains_key(tab),
        m@.contains_key(tab) ==> m@[tab] == m.panes@[tab]@,
{
}

/// So is an event.
pub proof fn events_are_viewed_whole(event: Event)
    ensures
        match event {
            Event::PermissionRequestResult(granted) => event@ == EventModel::PermissionRequestResult(
                granted,
            ),
            Event::PaneUpdate(m) => event@ == EventModel::PaneUpdate(m@),
            Event::Visible(visible) => event@ == EventModel::Visible(visible),
            Event::Key(key) => event@ == EventModel::Key(key),
            Event::Other => event@ == EventModel::Other,
        },
{
}

/// So are a step and its effects.
pub proof fn steps_are_viewed_whole(step: Step, effect: Effect, i: int)
    ensures
        match step {
            Step::AskFocusedTab(resume) => step@ == StepModel::AskFocusedTab(resume),
            Step::ReadScrollback(p) => step@ == StepModel::ReadScrollback(p),
            Step::OpenFile { path, line_number, source } => step@ == (StepModel::OpenFile {
                path: path@,
                line_number,
                source,
            }),
            Step::Done { effects, render } => step@ matches StepModel::Done {
                effects: models,
                render: redraw,
            } && redraw == render && models.len() == effects@.len() && (0 <= i < models.len()
                ==> models[i] == effects@[i]@),
        },
        match effect {
            Effect::Copy(s) => effect@ == EffectModel::Copy(s@),
            Effect::Close => effect@ == EffectModel::Close,
            Effect::StackPanes(a, b) => effect@ == EffectModel::StackPanes(a, b),
            Effect::FocusPlugin(id) => effect@ == EffectModel::FocusPlugin(id),
        },
{
}

/// So are a text and what is drawn of it.
pub proof fn draws_are_viewed_whole(d: Draw, t: Text)
    ensures
        text::text_model(t).content == text::text_content(t),
        text::text_model(t).selected == text::text_selected(t),
        text::text_model(t).opaque == text::text_opaque(t),
        text::text_model(t).levels == text::text_levels(t),
        d@.text == text::text_model(d.text),
        d@.ribbon == d.ribbon,
        d@.x == d.x,
        d@.y == d.y,
        d@.width == d.width,
        d@.height == d.height,
{
}

}
