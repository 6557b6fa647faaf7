//! What the picker asks of Zellij when it is loaded.

use vstd::prelude::*;

verus! {

/// A permission to ask the user for.
#[derive(Clone, Copy, Debug, PartialEq, Eq, Structural)]
pub enum PermissionType {
    /// To be told of the panes, and to look up the focused pane and the directory
    /// of a pane.
    ReadApplicationState,
    /// To read the scrollback.
    ReadPaneContents,
    /// To copy a target.
    WriteToClipboard,
    /// To open a target.
    OpenFiles,
    /// To stack the editor with the source pane.
    ChangeApplicationState,
}

/// A kind of event to be told of.
#[derive(Clone, Copy, Debug, PartialEq, Eq, Structural)]
pub enum EventType {
    PermissionRequestResult,
    PaneUpdate,
    Visible,
    Key,
}

/// The permissions that the picker needs.
pub open spec fn needed_permissions() -> Seq<PermissionType> {
    seq![
        PermissionType::ReadApplicationState,
        PermissionType::ReadPaneContents,
        PermissionType::WriteToClipboard,
        PermissionType::OpenFiles,
        PermissionType::ChangeApplicationState,
    ]
}

/// The kinds of events that the picker reacts to.
pub open spec fn handled_events() -> Seq<EventType> {
    seq![
        EventType::PermissionRequestResult,
        EventType::PaneUpdate,
        EventType::Visible,
        EventType::Key,
    ]
}

/// The permissions to request when the picker is loaded.
pub fn permissions() -> (r: Vec<PermissionType>)
    ensures
        r@ == needed_permissions(),
{
    vec![
        PermissionType::ReadApplicationState,
        PermissionType::ReadPaneContents,
        PermissionType::WriteToClipboard,
        PermissionType::OpenFiles,
        PermissionType::ChangeApplicationState,
    ]
}

/// The kinds of events to subscribe to when the picker is loaded.
pub fn subscriptions() -> (r: Vec<EventType>)
    ensures
        r@ == handled_events(),
{
    vec![
        EventType::PermissionRequestResult,
        EventType::PaneUpdate,
        EventType::Visible,
        EventType::Key,
    ]
}

}
