use zellij_pick_vim_target::{permissions, subscriptions, EventType, PermissionType};

#[test]
fn every_permission_that_is_needed_is_requested() {
    assert_eq!(
        permissions(),
        vec![
            PermissionType::ReadApplicationState,
            PermissionType::ReadPaneContents,
            PermissionType::WriteToClipboard,
            PermissionType::OpenFiles,
            PermissionType::ChangeApplicationState,
        ]
    );
}

#[test]
fn every_event_that_is_handled_is_subscribed_to() {
    assert_eq!(
        subscriptions(),
        vec![
            EventType::PermissionRequestResult,
            EventType::PaneUpdate,
            EventType::Visible,
            EventType::Key,
        ]
    );
}
