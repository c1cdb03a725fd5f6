//! What holds of the bar whatever happens to it, on single cases.
use xbar::domain::event::Event;
use xbar::domain::menu::{
    GtkMenuEndpoint, MenuEndpoint, MenuItem, MenuItemId, MenuItemPropertiesUpdate, MenuItemType,
    MenuModel, MenuPropertyUpdate, MenuRegistry, MenuSource,
};
use xbar::domain::notification::{
    notification_center_items, GroupKey, HistoryEntryId, NotificationHistoryEntry,
    NotificationSource,
};
use xbar::domain::reducer::reduce;
use xbar::domain::state::{
    AudioState, BluetoothState, MenuInteractionState, MenuPresentationPolicy,
    MenuState, NetworkState, NetworkStatus, State, WindowId, WorkspaceState,
};
use xbar::domain::status_notifier::StatusNotifierEndpoint;
use xbar::domain::tracker::MenuLayoutReloadTracker;
use xbar::domain::usage::{
    AccountIdentity, ActiveAgentUsage, UsageMeter, UsageStatus, UsageSummary,
};
use xbar::table::KeySet;

fn menu(service: &str) -> MenuEndpoint {
    MenuEndpoint { service: service.to_owned(), object_path: "/menu".to_owned() }
}

fn source(service: &str) -> MenuSource {
    MenuSource::DbusMenu(menu(service))
}

fn exported(bus_name: &str) -> GtkMenuEndpoint {
    GtkMenuEndpoint {
        bus_name: bus_name.to_owned(),
        menu_object_path: "/menus".to_owned(),
        actions_object_paths: vec!["/actions".to_owned()],
    }
}

fn item(id: i32, children: Vec<MenuItem>) -> MenuItem {
    MenuItem {
        id: MenuItemId(id),
        label: Some(format!("item {id}")),
        enabled: true,
        visible: true,
        item_type: MenuItemType::Standard,
        children_display: None,
        shortcut: None,
        icon_name: None,
        action: None,
        children,
    }
}

/// A bar with two windows that have menus, the first of them focused.
fn bar() -> (State, MenuRegistry) {
    let mut state = State::default();
    let mut registry = MenuRegistry::default();
    for event in [
        Event::WorkspacesSnapshot(vec![
            WorkspaceState { name: "1".to_owned(), output: None, focused: true },
            WorkspaceState { name: "2".to_owned(), output: None, focused: false },
        ]),
        Event::MenuRegistered { window_id: WindowId(1), endpoint: source(":1.1") },
        Event::MenuRegistered { window_id: WindowId(2), endpoint: source(":1.2") },
        Event::WindowFocused(Some(WindowId(1))),
    ] {
        reduce(&mut state, event, &mut registry);
    }
    (state, registry)
}

#[test]
fn opening_a_popup_closes_the_others() {
    let (mut state, mut registry) = bar();
    for event in [
        Event::AudioPopupToggled,
        Event::BluetoothPopupToggled,
        Event::NetworkPopupToggled,
        Event::AudioPopupToggled,
    ] {
        reduce(&mut state, event, &mut registry);
        let open = [state.audio_popup_open, state.bluetooth_popup_open, state.network_popup_open];
        assert_eq!(open.iter().filter(|open| **open).count(), 1);
    }
    reduce(&mut state, Event::MenuClickedOutside, &mut registry);
    assert!(!state.audio_popup_open && !state.bluetooth_popup_open && !state.network_popup_open);
    assert_eq!(state.menu_interaction.open_root, None);
}

#[test]
fn a_late_network_report_opens_its_popup_behind_another() {
    let (mut state, mut registry) = bar();
    reduce(&mut state, Event::NetworkPopupOpenRequested, &mut registry);
    assert!(state.network_popup_open_pending);
    state.audio_popup_open = true;
    reduce(
        &mut state,
        Event::NetworkPopupSnapshotReceived(NetworkState::default()),
        &mut registry,
    );
    assert!(state.network_popup_open);
    assert!(state.audio_popup_open);
}

#[test]
fn a_report_of_the_link_outlasts_reports_of_the_network() {
    let (mut state, mut registry) = bar();
    let status = NetworkStatus { available: true, connected: true, ..Default::default() };
    reduce(&mut state, Event::NetworkStatusChanged(status), &mut registry);
    for event in [
        Event::NetworkPopupOpenRequested,
        Event::WindowFocused(Some(WindowId(2))),
        Event::AudioUnavailable,
        Event::MenuClickedOutside,
        Event::StatusNotifierWatcherUnavailable,
    ] {
        reduce(&mut state, event, &mut registry);
    }
    for event in [
        Event::NetworkSnapshotReceived(NetworkState::default()),
        Event::NetworkPopupSnapshotReceived(NetworkState::default()),
    ] {
        let before = state.clone();
        assert!(!reduce(&mut state, event, &mut registry));
        assert_eq!(state, before);
        assert!(state.network.available);
    }
}

#[test]
fn reports_that_come_again_are_quiet() {
    let (mut state, mut registry) = bar();
    for event in [
        Event::WindowFocused(Some(WindowId(2))),
        Event::WorkspaceFocused { name: Some("2".to_owned()) },
        Event::AudioSnapshotReceived(AudioState { available: true, ..Default::default() }),
        Event::NetworkSnapshotReceived(NetworkState { available: true, ..Default::default() }),
        Event::BluetoothSnapshotReceived(BluetoothState {
            available: true,
            ..Default::default()
        }),
        Event::ActiveAiUsageChanged(vec![agent("a", &[])]),
    ] {
        reduce(&mut state, event.clone(), &mut registry);
        let first = state.clone();
        assert!(!reduce(&mut state, event, &mut registry));
        assert_eq!(state, first);
    }
}

#[test]
fn a_load_that_nobody_waits_for_changes_nothing() {
    let (mut state, mut registry) = bar();
    let before = state.clone();
    let model = MenuModel { revision: 1, root: item(0, vec![]) };
    for event in [
        Event::MenuLoaded {
            window_id: WindowId(1),
            endpoint: source(":1.1"),
            request_id: 7,
            model: model.clone(),
        },
        Event::MenuLoadFailed {
            window_id: WindowId(1),
            endpoint: source(":1.1"),
            request_id: 7,
            error: "late".to_owned(),
        },
        Event::TrayMenuLoaded { endpoint: menu(":1.3"), request_id: 7, model },
        Event::KeyboardGrabAcquired { session_id: 9 },
    ] {
        assert!(!reduce(&mut state, event, &mut registry));
        assert_eq!(state, before);
    }
}

#[test]
fn a_pinned_menu_stays_until_the_workspace_changes() {
    let (mut state, mut registry) = bar();
    reduce(&mut state, Event::PinCurrentMenuPresentation, &mut registry);
    assert_eq!(
        state.menu_presentation_policy,
        MenuPresentationPolicy::Pinned { workspace: "1".to_owned() }
    );
    reduce(&mut state, Event::WindowFocused(Some(WindowId(2))), &mut registry);
    assert_eq!(state.menu_presentation_window(), Some(WindowId(1)));
    assert_eq!(state.focused_window, Some(WindowId(2)));
    reduce(&mut state, Event::WorkspaceFocused { name: Some("2".to_owned()) }, &mut registry);
    assert_eq!(state.menu_presentation_policy, MenuPresentationPolicy::FollowFocus);
    assert_eq!(state.menu_presentation, None);
    assert_eq!(state.menu, MenuState::NoMenu);
}

#[test]
fn a_pin_ends_with_its_menu() {
    let (mut state, mut registry) = bar();
    reduce(&mut state, Event::PinCurrentMenuPresentation, &mut registry);
    reduce(&mut state, Event::MenuUnregistered { window_id: WindowId(1) }, &mut registry);
    assert_eq!(state.menu_presentation_policy, MenuPresentationPolicy::FollowFocus);
    assert_eq!(state.menu_presentation, None);
}

#[test]
fn sessions_are_numbered_one_by_one() {
    let (mut state, mut registry) = bar();
    let first = state.next_menu_navigation_session;
    reduce(&mut state, Event::MenuNavigationStarted, &mut registry);
    let second = state.next_menu_navigation_session;
    assert!(second == first || second == first.wrapping_add(1));
    reduce(&mut state, Event::MenuNavigateEscape, &mut registry);
    assert_eq!(state.next_menu_navigation_session, second);
}

#[test]
fn wishes_do_not_change_what_is_known_of_devices() {
    let (mut state, mut registry) = bar();
    let (network, bluetooth) = (state.network.clone(), state.bluetooth.clone());
    for event in [
        Event::NetworkSetWireless(true),
        Event::BluetoothSetPowered(true),
        Event::BluetoothConnectDevice("/dev".to_owned()),
    ] {
        reduce(&mut state, event, &mut registry);
    }
    assert_eq!(state.network, network);
    assert_eq!(state.bluetooth, bluetooth);
}

#[test]
fn devices_leave_the_presented_menu_alone() {
    let (mut state, mut registry) = bar();
    let presented = state.menu_presentation.clone();
    reduce(&mut state, Event::AudioPopupToggled, &mut registry);
    reduce(&mut state, Event::BluetoothUnavailable, &mut registry);
    assert_eq!(state.menu_presentation, presented);
    assert!(presented.is_some());
}

#[test]
fn a_tray_that_is_gone_leaves_nothing_and_keeps_window_menus() {
    let (mut state, mut registry) = bar();
    let endpoint = StatusNotifierEndpoint {
        service: ":1.8".to_owned(),
        object_path: "/item".to_owned(),
    };
    let other = StatusNotifierEndpoint {
        service: ":1.9".to_owned(),
        object_path: "/item".to_owned(),
    };
    for endpoint in [&endpoint, &other] {
        reduce(
            &mut state,
            Event::StatusNotifierRegistered(endpoint.clone()),
            &mut registry,
        );
    }
    reduce(&mut state, Event::StatusNotifierOwnerVanished(":1.8".to_owned()), &mut registry);
    assert_eq!(*state.status_notifiers.endpoints(), [other]);
    reduce(&mut state, Event::StatusNotifierHostRegistered, &mut registry);
    let presented = state.menu_presentation.clone();
    reduce(&mut state, Event::StatusNotifierWatcherUnavailable, &mut registry);
    assert!(state.status_notifiers.is_empty());
    assert!(!state.status_notifier_host_registered);
    assert_eq!(state.menu_presentation, presented);
}

#[test]
fn only_registrations_change_the_registry() {
    let (mut state, mut registry) = bar();
    let before = registry.clone();
    for event in [
        Event::WindowFocused(None),
        Event::MenuClickedOutside,
        Event::AudioPopupToggled,
        Event::StatusNotifierWatcherUnavailable,
    ] {
        reduce(&mut state, event, &mut registry);
    }
    assert_eq!(registry, before);
    reduce(&mut state, Event::MenuOwnerVanished { sender: ":1.1".to_owned() }, &mut registry);
    assert_eq!(registry.get(WindowId(1)), None);
    assert_eq!(registry.get(WindowId(2)), Some(&menu(":1.2")));
}

#[test]
fn a_registered_menu_leads_and_a_discovered_one_waits() {
    let mut registry = MenuRegistry::default();
    let window = WindowId(4);
    registry.register_gtk(window, exported(":1.4"));
    assert_eq!(registry.active(Some(window)), Some(MenuSource::GtkGMenu(exported(":1.4"))));
    registry.register(window, ":1.5".to_owned(), "/menu".to_owned());
    assert_eq!(registry.active(Some(window)), Some(source(":1.5")));
    assert_eq!(registry.unregister(window), Some(menu(":1.5")));
    assert_eq!(registry.active(Some(window)), Some(MenuSource::GtkGMenu(exported(":1.4"))));
    let before = registry.clone();
    registry.register(WindowId(5), ":1.6".to_owned(), "/menu".to_owned());
    registry.unregister(WindowId(5));
    assert_eq!(registry, before);
    assert_eq!(registry.remove_sender(":1.4"), vec![window]);
    assert_eq!(registry.active(Some(window)), None);
}

#[test]
fn one_retry_and_no_more() {
    let mut tracker = MenuLayoutReloadTracker::default();
    let endpoint = source(":1.1");
    tracker.begin_load(endpoint.clone(), 1);
    assert!(tracker.watcher_ready(endpoint.clone(), 5, 1));
    assert!(tracker.record(endpoint.clone(), 5, Some(10)));
    assert!(!tracker.record(endpoint.clone(), 5, Some(10)));
    assert!(!tracker.record(endpoint.clone(), 4, Some(11)));
    assert!(tracker.complete_load(&endpoint, 1, 3));
    assert!(!tracker.complete_load(&endpoint, 1, 3));
    tracker.begin_load(endpoint.clone(), 2);
    assert!(tracker.complete_load(&endpoint, 2, 4));
    tracker.begin_load(endpoint.clone(), 3);
    assert!(!tracker.complete_load(&endpoint, 3, 5));
    tracker.begin_load(endpoint.clone(), 4);
    assert!(!tracker.complete_load(&endpoint, 4, 6));
    assert!(tracker.has_pending(&endpoint));
    tracker.begin_load(endpoint.clone(), 5);
    assert!(!tracker.complete_load(&endpoint, 5, 10));
    assert!(!tracker.has_pending(&endpoint));
}

#[test]
fn late_invalidations_ask_for_one_load() {
    let mut tracker = MenuLayoutReloadTracker::default();
    let endpoint = source(":1.1");
    tracker.begin_load(endpoint.clone(), 1);
    tracker.watcher_ready(endpoint.clone(), 5, 1);
    for _ in 0..3 {
        assert!(tracker.record(endpoint.clone(), 5, None));
    }
    assert!(tracker.complete_load(&endpoint, 1, 1));
    tracker.begin_load(endpoint.clone(), 2);
    assert!(!tracker.complete_load(&endpoint, 2, 1));
    assert!(!tracker.has_pending(&endpoint));
}

#[test]
fn a_replaced_watcher_does_not_count() {
    let mut tracker = MenuLayoutReloadTracker::default();
    let endpoint = source(":1.1");
    tracker.begin_load(endpoint.clone(), 1);
    tracker.watcher_ready(endpoint.clone(), 5, 1);
    tracker.record(endpoint.clone(), 5, Some(3));
    tracker.watcher_ready(endpoint.clone(), 6, 1);
    assert!(!tracker.has_pending(&endpoint));
    assert!(!tracker.accepts_watcher(&endpoint, 5));
    assert!(tracker.accepts_watcher(&endpoint, 6));
    tracker.remove_watchers_for_owner(":1.1");
    assert!(!tracker.accepts_watcher(&endpoint, 6));
}

fn entry(id: u64, app_name: &str) -> NotificationHistoryEntry {
    NotificationHistoryEntry {
        id: HistoryEntryId(id),
        live_notification_id: None,
        source: NotificationSource::Freedesktop,
        app_name: app_name.to_owned(),
        summary: String::new(),
        body: String::new(),
        order: id,
        received_at: id,
        updated_at: id,
    }
}

#[test]
fn every_entry_has_one_row() {
    let history = [entry(5, "a"), entry(4, ""), entry(3, "b"), entry(2, "a"), entry(1, "")];
    let rows = notification_center_items(&history, &KeySet::new());
    let members: Vec<Vec<u64>> = rows
        .iter()
        .map(|row| row.members().iter().map(|member| member.0).collect())
        .collect();
    assert_eq!(members, vec![vec![5, 2], vec![4], vec![3], vec![1]]);
    let mut expanded = KeySet::new();
    expanded.insert(GroupKey::ApplicationName("a".to_owned()));
    let open = notification_center_items(&history, &expanded);
    assert!(open[0].is_expanded() && !rows[0].is_expanded());
    assert_eq!(open[0].members(), rows[0].members());
}

fn agent(provider: &str, meters: &[&str]) -> ActiveAgentUsage {
    ActiveAgentUsage {
        agent_id: "agent".to_owned(),
        provider_id: provider.to_owned(),
        account_id: AccountIdentity::Default,
        display_name: "Agent".to_owned(),
        active_instances: 1,
        meters: meters
            .iter()
            .map(|id| UsageMeter {
                id: id.to_string(),
                label: id.to_string(),
                remaining_pct: None,
                used_pct: None,
                value: None,
                reset_at: None,
            })
            .collect(),
        summary: UsageSummary::default(),
        status: UsageStatus::Fresh,
        fetched_at: None,
        cache_age_secs: None,
    }
}

#[test]
fn agents_come_to_one_order() {
    let (mut state, mut registry) = bar();
    let (mut other, mut other_registry) = bar();
    reduce(
        &mut state,
        Event::ActiveAiUsageChanged(vec![agent("b", &["y", "x"]), agent("a", &[])]),
        &mut registry,
    );
    reduce(
        &mut other,
        Event::ActiveAiUsageChanged(vec![agent("a", &[]), agent("b", &["x", "y"])]),
        &mut other_registry,
    );
    assert_eq!(state.ai_usage, other.ai_usage);
    assert_eq!(state.ai_usage[0].provider_id, "a");
    assert_eq!(state.ai_usage[1].meters[0].id, "x");
}

#[test]
fn a_patch_keeps_the_items() {
    let (mut state, mut registry) = bar();
    let model = MenuModel { revision: 1, root: item(0, vec![item(1, vec![item(2, vec![])])]) };
    reduce(
        &mut state,
        Event::MenuLoadRequested {
            window_id: WindowId(1),
            endpoint: source(":1.1"),
            request_id: 1,
        },
        &mut registry,
    );
    reduce(
        &mut state,
        Event::MenuLoaded {
            window_id: WindowId(1),
            endpoint: source(":1.1"),
            request_id: 1,
            model,
        },
        &mut registry,
    );
    reduce(
        &mut state,
        Event::MenuWatcherReady {
            endpoint: source(":1.1"),
            watcher_generation: 1,
            request_id: 1,
        },
        &mut registry,
    );
    reduce(
        &mut state,
        Event::MenuPropertiesUpdated {
            endpoint: source(":1.1"),
            watcher_generation: Some(1),
            updates: vec![MenuItemPropertiesUpdate {
                item_id: MenuItemId(2),
                properties: vec![MenuPropertyUpdate::Enabled(false)],
            }],
        },
        &mut registry,
    );
    match &state.menu {
        MenuState::Loaded { model, .. } => {
            assert_eq!(model.root.children[0].id, MenuItemId(1));
            assert_eq!(model.root.children[0].children[0].id, MenuItemId(2));
            assert!(!model.root.children[0].children[0].enabled);
        }
        other => panic!("menu is {other:?}"),
    }
    assert_eq!(state.menu_interaction, MenuInteractionState::default());
}
