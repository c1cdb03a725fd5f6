//! What follows where the notifications of the bar change.
use xbar::dbus::notifications::{
    server_information, steps_after, store_call, ActionInvocation, NotificationRequest,
    NotificationStep, StoreCall, StoreOutcome,
};
use xbar::domain::notification::{HistoryEntryId, NotificationId};
use xbar::domain::state::WindowId;

fn invocation(closed: Option<u32>) -> ActionInvocation {
    ActionInvocation { notification_id: NotificationId(4), action_key: "open".to_owned(), closed }
}

#[test]
fn the_service_says_who_it_is() {
    let (name, vendor, version, protocol) = server_information("0.1.0");
    assert_eq!(name, "xbar");
    assert_eq!(vendor, "Demostenes Albert");
    assert_eq!(version, "0.1.0");
    assert_eq!(protocol, "1.2");
}

#[test]
fn each_request_has_its_call_to_the_store() {
    assert_eq!(store_call(NotificationRequest::TimerFired), StoreCall::Expire);
    assert_eq!(
        store_call(NotificationRequest::DismissHistoryEntry(HistoryEntryId(7))),
        StoreCall::Dismiss(HistoryEntryId(7))
    );
    assert_eq!(store_call(NotificationRequest::ClearHistory), StoreCall::Clear);
    assert_eq!(
        store_call(NotificationRequest::InvokeDefault(HistoryEntryId(7))),
        StoreCall::Invoke(HistoryEntryId(7), "default".to_owned())
    );
    assert_eq!(
        store_call(NotificationRequest::InvokeAction(HistoryEntryId(7), "open".to_owned())),
        StoreCall::Invoke(HistoryEntryId(7), "open".to_owned())
    );
    assert_eq!(
        store_call(NotificationRequest::WindowAttention {
            window: WindowId(3),
            app_name: "Mail".to_owned(),
            attention: true,
        }),
        StoreCall::Attention { window: WindowId(3), app_name: "Mail".to_owned(), attention: true }
    );
}

#[test]
fn a_change_is_kept_and_shown() {
    let kept = vec![NotificationStep::Save, NotificationStep::Publish];
    assert_eq!(steps_after(StoreOutcome::Notified), kept);
    assert_eq!(steps_after(StoreOutcome::HistoryChanged(true)), kept);
    assert_eq!(steps_after(StoreOutcome::HistoryChanged(false)), vec![]);
    assert_eq!(steps_after(StoreOutcome::Attention), vec![NotificationStep::Publish]);
}

#[test]
fn a_closed_notification_is_told_of_last() {
    let closed = |was_open| StoreOutcome::Closed { id: NotificationId(4), was_open, reason: 3 };
    assert_eq!(
        steps_after(closed(true)),
        vec![
            NotificationStep::Save,
            NotificationStep::Publish,
            NotificationStep::TellClosed { id: 4, reason: 3 },
        ]
    );
    assert_eq!(steps_after(closed(false)), vec![]);
}

#[test]
fn an_action_is_told_of_before_the_notification_is_closed() {
    let told = NotificationStep::TellInvoked { id: 4, action_key: "open".to_owned() };
    assert_eq!(steps_after(StoreOutcome::Invoked(None)), vec![]);
    assert_eq!(steps_after(StoreOutcome::Invoked(Some(invocation(None)))), vec![told.clone()]);
    assert_eq!(
        steps_after(StoreOutcome::Invoked(Some(invocation(Some(2))))),
        vec![
            told,
            NotificationStep::Save,
            NotificationStep::Publish,
            NotificationStep::TellClosed { id: 4, reason: 2 },
        ]
    );
}

#[test]
fn each_expired_notification_is_told_of() {
    let ids = vec![NotificationId(9), NotificationId(4)];
    assert_eq!(
        steps_after(StoreOutcome::Expired { ids, reason: 1 }),
        vec![
            NotificationStep::TellClosed { id: 9, reason: 1 },
            NotificationStep::TellClosed { id: 4, reason: 1 },
        ]
    );
    assert_eq!(steps_after(StoreOutcome::Expired { ids: vec![], reason: 1 }), vec![]);
}
