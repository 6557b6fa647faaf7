//! Laws of whole runs: what holds of the picker after any sequence of inputs.

use vstd::prelude::*;

use crate::laws::picker;
use crate::pane::PaneId;
use crate::render;
use crate::scrollback;
use crate::state;
use crate::state::{EventModel, Resume, StateModel};

verus! {

/// Everything that can be done to a picker.
pub enum Input {
    Load(u32),
    Event(EventModel),
    FocusedTab(Resume, Option<usize>),
    ScrollbackRead(PaneId, Seq<Seq<char>>),
    ScrollbackFailed(Seq<char>),
    FileOpened,
    Draw(usize),
}

/// The picker after an input.
pub open spec fn after(s: StateModel, input: Input) -> StateModel {
    match input {
        Input::Load(plugin_id) => StateModel { plugin_id, pending_build: true, ..s },
        Input::Event(event) => s.updated(event).0,
        Input::FocusedTab(resume, tab) => s.resumed(resume, tab).0,
        Input::ScrollbackRead(source, lines) => s.built(source, lines),
        Input::ScrollbackFailed(error) => s.build_failed(error),
        Input::FileOpened => StateModel { suppress_reopen: true, ..s },
        Input::Draw(rows) => render::rendered(s, rows),
    }
}

/// A fresh picker after a sequence of inputs.
pub open spec fn run(inputs: Seq<Input>) -> StateModel
    decreases inputs.len(),
{
    if inputs.len() == 0 {
        state::initial()
    } else {
        after(run(inputs.drop_last()), inputs.last())
    }
}

/// The scrollback that was read last, and the pane it came from.
pub open spec fn last_reading(inputs: Seq<Input>) -> Option<(PaneId, Seq<Seq<char>>)>
    decreases inputs.len(),
{
    if inputs.len() == 0 {
        None
    } else {
        match inputs.last() {
            Input::ScrollbackRead(source, lines) => Some((source, lines)),
            _ => last_reading(inputs.drop_last()),
        }
    }
}

/// The targets of every scrollback that is read can be counted.
pub open spec fn countable(inputs: Seq<Input>) -> bool {
    forall|i: int|
        0 <= i < inputs.len() ==> (#[trigger] inputs[i] matches Input::ScrollbackRead(_, lines)
            ==> scrollback::extracted(lines).len() <= usize::MAX)
}

/// The picker is valid after any inputs, and what it took note of is a terminal.
pub proof fn every_run_is_valid(inputs: Seq<Input>)
    requires
        countable(inputs),
    ensures
        picker::valid(run(inputs)),
        run(inputs).last_focused matches Some(p) ==> p is Terminal,
    decreases inputs.len(),
{
    if inputs.len() == 0 {
        picker::starts_valid();
    } else {
        let before = inputs.drop_last();
        assert forall|i: int| 0 <= i < before.len() implies (
        #[trigger] before[i] matches Input::ScrollbackRead(_, lines) ==> scrollback::extracted(
            lines,
        ).len() <= usize::MAX) by {
            assert(before[i] == inputs[i]);
        }
        every_run_is_valid(before);
        let s = run(before);
        assert(inputs[inputs.len() - 1] == inputs.last());
        match inputs.last() {
            Input::Load(_) => {},
            Input::Event(event) => {
                picker::events_keep_it_valid(s, event);
            },
            Input::FocusedTab(resume, tab) => {
                picker::resuming_keeps_it_valid(s, resume, tab);
                picker::sources_are_terminals(s, tab);
            },
            Input::ScrollbackRead(source, lines) => {
                picker::reading_keeps_it_valid(s, source, lines, Seq::empty());
            },
            Input::ScrollbackFailed(_) => {},
            Input::FileOpened => {
                picker::opening_keeps_it_valid(s);
            },
            Input::Draw(rows) => {
                picker::drawing_keeps_it_valid(s, rows);
            },
        }
    }
}

/// Whatever happens, the picker lists the targets of the scrollback that was read
/// last, and keeps the pane it came from; nothing else changes the list.
pub proof fn the_list_is_that_of_the_last_reading(inputs: Seq<Input>)
    ensures
        match last_reading(inputs) {
            Some((source, lines)) => run(inputs).targets == scrollback::extracted(lines) && run(
                inputs,
            ).built_source == Some(source),
            None => run(inputs).targets.len() == 0 && run(inputs).built_source is None,
        },
    decreases inputs.len(),
{
    if inputs.len() > 0 {
        the_list_is_that_of_the_last_reading(inputs.drop_last());
    }
}

}
