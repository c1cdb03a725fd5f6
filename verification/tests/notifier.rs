//! The attachment to the watcher of tray items.
use std::collections::VecDeque;
use xbar::dbus::notifier::{
    apply_ordered_watcher_event, choose_sni_icon, item_wake_is_terminal,
    retain_sni_owner_on_setup_failure, select_pixmap, sibling_sni_watcher_path, ItemWake,
    OrderedWatcherEvent, StatusNotifierAttachmentControl,
};
use xbar::dbus::notifications::notification_capabilities;
use xbar::domain::event::Event;
use xbar::domain::status_notifier::{
    format_notifier_item_id, parse_notifier_item_id, StatusNotifierEndpoint, StatusNotifierIcon,
    StatusNotifierItem, StatusNotifierStatus,
};

#[test]
fn notification_capabilities_advertise_actions_without_action_icons() {
    assert_eq!(notification_capabilities(), ["body", "actions"]);
    assert!(!notification_capabilities()
        .iter()
        .any(|capability| capability == "action-icons"));
}

#[test]
fn registration_forms_resolve_to_service_and_path() {
    let service_form = StatusNotifierEndpoint {
        service: "org.example.Item".into(),
        object_path: "/StatusNotifierItem".into(),
    };
    assert_eq!(
        parse_notifier_item_id(&format_notifier_item_id(&service_form)),
        Some(service_form)
    );
    let endpoint =
        parse_notifier_item_id(":1.50/StatusNotifierItem/2").expect("path form canonical id");
    assert_eq!(endpoint.service, ":1.50");
    assert_eq!(endpoint.object_path, "/StatusNotifierItem/2");
    assert!(parse_notifier_item_id("/StatusNotifierItem").is_none());
}

#[test]
fn pixmap_selection_targets_sixteen_pixels_and_rejects_invalid_data() {
    let selected = select_pixmap(vec![
        (32, 32, vec![0; 32 * 32 * 4]),
        (16, 16, [0xff, 0, 0, 0].repeat(16 * 16)),
    ])
    .expect("valid pixmap");
    assert_eq!(
        selected,
        StatusNotifierIcon::Pixmap {
            width: 16,
            height: 16,
            argb: vec![0xff00_0000; 16 * 16],
        }
    );
    assert!(select_pixmap(vec![(16, 16, vec![0; 3])]).is_none());
}

#[test]
fn attention_status_prefers_attention_and_falls_back_to_normal() {
    let normal = StatusNotifierIcon::Pixmap {
        width: 16,
        height: 16,
        argb: vec![1],
    };
    let attention = StatusNotifierIcon::Pixmap {
        width: 16,
        height: 16,
        argb: vec![2],
    };
    assert_eq!(
        choose_sni_icon(
            &StatusNotifierStatus::NeedsAttention,
            Some(normal.clone()),
            Some(attention.clone()),
        ),
        Some(attention)
    );
    assert_eq!(
        choose_sni_icon(
            &StatusNotifierStatus::NeedsAttention,
            Some(normal.clone()),
            None
        ),
        Some(normal)
    );
}

fn control() -> StatusNotifierAttachmentControl {
    StatusNotifierAttachmentControl::new()
}

fn endpoint() -> StatusNotifierEndpoint {
    StatusNotifierEndpoint {
        service: ":1.9".into(),
        object_path: "/StatusNotifierItem".into(),
    }
}

fn item_count(control: &StatusNotifierAttachmentControl) -> usize {
    control.items.keys().len()
}

fn apply_ordered(control: &mut StatusNotifierAttachmentControl, event: OrderedWatcherEvent) {
    let mut events = VecDeque::new();
    let mut wake = Vec::new();
    let _ = apply_ordered_watcher_event(control, &mut events, &mut wake, event);
}

#[test]
fn unregister_stops_item_and_allows_fresh_registration() {
    let mut control = control();
    let item = endpoint();
    assert!(control.start_item(&item).is_some());
    control.stop_item(&item);
    assert!(control.start_item(&item).is_some());
}

#[test]
fn attachment_drop_cancels_all_item_watchers() {
    let mut control = control();
    let item = endpoint();
    control.start_item(&item).expect("item watcher");
    let cancelled = control.cancel();
    assert!(!control.is_active());
    assert!(cancelled.contains(&item));
    assert_eq!(item_count(&control), 0);
}

#[test]
fn direct_replacement_tears_down_a_before_b() {
    let mut a = control();
    a.cancel();
    assert!(!a.is_active());

    let mut b = control();
    assert!(b.start_item(&endpoint()).is_some());
    assert_eq!(item_count(&b), 1);
}

#[test]
fn bootstrap_and_signal_share_one_item_watcher() {
    let mut control = control();
    let item = endpoint();
    assert!(control.start_item(&item).is_some());
    assert!(control.start_item(&item).is_none());
    assert_eq!(item_count(&control), 1);
}

#[test]
fn attachment_cancel_reaches_signal_and_every_item_watcher() {
    let mut control = control();
    control.start_item(&endpoint()).expect("first watcher");
    let second_endpoint = StatusNotifierEndpoint {
        service: ":1.10".into(),
        object_path: "/StatusNotifierItem".into(),
    };
    control
        .start_item(&second_endpoint)
        .expect("second watcher");
    let cancelled = control.cancel();
    assert!(!control.is_active());
    assert!(cancelled.contains(&endpoint()));
    assert!(cancelled.contains(&second_endpoint));
    assert_eq!(cancelled.len(), 2);
}

#[test]
fn old_item_generation_cannot_claim_re_registration() {
    let mut control = control();
    let item = endpoint();
    let old_id = control.start_item(&item).expect("old watcher");
    control.stop_item(&item);
    let new_id = control.start_item(&item).expect("new watcher");
    assert_ne!(old_id, new_id);
    assert!(!control.is_current_item(&item, old_id));
    assert!(control.is_current_item(&item, new_id));
}

#[test]
fn stop_item_orders_before_stale_publication() {
    let mut control = control();
    let item = endpoint();
    let old_id = control.start_item(&item).expect("old watcher");
    control.stop_item(&item);
    let mut events = VecDeque::new();
    let mut wake = Vec::new();
    assert!(!control.publish_item(
        &item,
        old_id,
        &mut events,
        &mut wake,
        Event::StatusNotifierItemUpdated(StatusNotifierItem {
            endpoint: item.clone(),
            status: StatusNotifierStatus::Passive,
            icon: None,
            icon_name: None,
            attention_icon_name: None,
            item_is_menu: false,
            menu: None,
        }),
    ));
    assert!(events.is_empty());
}

#[test]
fn start_item_cannot_reopen_cancelled_attachment() {
    let mut control = control();
    control.cancel();
    assert!(control.start_item(&endpoint()).is_none());
}

#[test]
fn unregister_then_reregister_has_one_live_generation() {
    let mut control = control();
    let item = endpoint();
    let old_id = control.start_item(&item).expect("old watcher");
    control.stop_item(&item);
    let new_id = control.start_item(&item).expect("new watcher");
    assert!(!control.is_current_item(&item, old_id));
    assert!(control.is_current_item(&item, new_id));
    assert_eq!(item_count(&control), 1);
}

#[test]
fn closed_item_cancel_is_terminal() {
    let mut control = control();
    let item = endpoint();
    control.start_item(&item).expect("watcher");
    assert!(control.stop_item(&item));
    assert!(item_wake_is_terminal(ItemWake::ItemCancelled));
    assert!(item_wake_is_terminal(ItemWake::PropertyStreamEnded));
    assert!(!item_wake_is_terminal(ItemWake::PropertyChanged));
}

#[test]
fn cancelled_attachment_cannot_publish_after_teardown() {
    let mut control = control();
    let mut events = VecDeque::new();
    let mut wake = Vec::new();
    control.cancel();
    assert!(!control.publish(&mut events, &mut wake, Event::StatusNotifierHostRegistered));
    assert!(events.is_empty());
}

#[test]
fn companion_path_is_resolved_beside_xbar_executable() {
    assert_eq!(
        sibling_sni_watcher_path("/opt/xbar/bin/xbar"),
        Some("/opt/xbar/bin/xbar-sni-watcher".to_owned())
    );
}

#[test]
fn a_path_without_a_directory_has_no_companion() {
    assert_eq!(sibling_sni_watcher_path("/"), None);
    assert_eq!(
        sibling_sni_watcher_path("xbar"),
        Some("xbar-sni-watcher".to_owned())
    );
}

#[test]
fn snapshot_item_then_queued_unregistered_stays_removed() {
    let mut control = control();
    let item = endpoint();
    apply_ordered(&mut control, OrderedWatcherEvent::Registered(item.clone()));
    apply_ordered(&mut control, OrderedWatcherEvent::Unregistered(item));
    assert_eq!(item_count(&control), 0);
}

#[test]
fn snapshot_item_then_queued_registered_has_one_generation() {
    let mut control = control();
    let item = endpoint();
    apply_ordered(&mut control, OrderedWatcherEvent::Registered(item.clone()));
    apply_ordered(&mut control, OrderedWatcherEvent::Registered(item));
    assert_eq!(item_count(&control), 1);
}

#[test]
fn excluded_snapshot_then_queued_registered_has_one_live_item() {
    let mut control = control();
    apply_ordered(&mut control, OrderedWatcherEvent::Registered(endpoint()));
    assert_eq!(item_count(&control), 1);
}

#[test]
fn queued_registered_then_unregistered_is_absent_in_order() {
    let mut control = control();
    let item = endpoint();
    apply_ordered(&mut control, OrderedWatcherEvent::Registered(item.clone()));
    apply_ordered(&mut control, OrderedWatcherEvent::Unregistered(item));
    assert_eq!(item_count(&control), 0);
}

#[test]
fn queued_unregistered_then_registered_is_a_new_generation() {
    let mut control = control();
    let item = endpoint();
    apply_ordered(&mut control, OrderedWatcherEvent::Unregistered(item.clone()));
    apply_ordered(&mut control, OrderedWatcherEvent::Registered(item.clone()));
    let id = *control.items.get(&item).expect("new generation");
    assert!(control.is_current_item(&item, id));
}

#[test]
fn ordered_primitive_does_not_have_a_member_subscription_gap() {
    let mut control = control();
    let item = endpoint();
    apply_ordered(&mut control, OrderedWatcherEvent::Unregistered(item.clone()));
    apply_ordered(&mut control, OrderedWatcherEvent::Registered(item.clone()));
    apply_ordered(&mut control, OrderedWatcherEvent::Unregistered(item.clone()));
    apply_ordered(&mut control, OrderedWatcherEvent::Registered(item));
    assert_eq!(item_count(&control), 1);
}

#[test]
fn setup_failure_keeps_live_owner_until_disappearance_then_recovers() {
    let mut owner = None;
    retain_sni_owner_on_setup_failure(&mut owner, ":1.40");
    assert_eq!(owner.as_deref(), Some(":1.40"));

    if owner.as_deref() == Some(":1.40") {
        owner = None;
    }
    assert!(owner.is_none());
    retain_sni_owner_on_setup_failure(&mut owner, ":1.41");
    assert_eq!(owner.as_deref(), Some(":1.41"));
}
