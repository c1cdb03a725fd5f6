//! What comes over the bus, on single cases.
use std::collections::VecDeque;
use xbar::dbus::ai_usage::{AiUsageSnapshotWire, BUS_NAME};
use xbar::dbus::exported::{
    activation_timestamp, exported_menus_ended, exported_menus_loaded, load_revision, local_action,
    menu_action_target, ExportedLoad,
};
use xbar::dbus::inventory::{
    bluetooth_snapshot, finish_bluetooth_action, start_bluetooth_action, BluezObject,
};
use xbar::dbus::menu::{convert_item, parse_layout, LayoutNode};
use xbar::dbus::notifier::{
    action_call, describe_item, retry_setup, ItemArguments, ItemProperties,
    StatusNotifierAttachmentControl, SNI_NAME,
};
use xbar::dbus::watchers::{
    about_to_show_completed, dbus_menu_endpoint_key, end_menu_watcher, exported_menus_changed,
    layout_finished, layout_requested, layout_updated, properties_updated, watcher_installed,
    watcher_refused, AboutRequest, LayoutRequest, LayoutStep, MenuWatchers,
};
use xbar::dbus::wire::{get_property, WireValue};
use xbar::dbus::worker::{
    bluetooth_finished, menu_for_window, usage_reported, usage_started, window_registered,
    window_unregistered, OwnerChange, UsageStart, Worker,
};
use xbar::domain::event::Event;
use xbar::domain::menu::{
    GtkMenuEndpoint, MenuActionTarget, MenuEndpoint, MenuItem, MenuItemId, MenuItemType, MenuModel,
    MenuRegistry, MenuSource,
};
use xbar::domain::state::{BluetoothPendingAction, WindowId};
use xbar::domain::status_notifier::{
    StatusNotifierAction, StatusNotifierEndpoint, StatusNotifierStatus,
};
use xbar::table::{KeySet, Table};

fn text(value: &str) -> WireValue {
    WireValue::Str(value.to_owned())
}

fn named(values: &[(&str, WireValue)]) -> Vec<(String, WireValue)> {
    values
        .iter()
        .map(|(name, value)| {
            let value = match value {
                WireValue::Str(value) => WireValue::Str(value.clone()),
                WireValue::Bool(value) => WireValue::Bool(*value),
                WireValue::U32(value) => WireValue::U32(*value),
                other => panic!("no such value here: {other:?}"),
            };
            (name.to_string(), value)
        })
        .collect()
}

fn endpoint(service: &str) -> MenuEndpoint {
    MenuEndpoint { service: service.to_owned(), object_path: "/menu".to_owned() }
}

fn request(service: &str, request_id: u64) -> LayoutRequest {
    LayoutRequest { window_id: WindowId(1), endpoint: endpoint(service), request_id }
}

fn model() -> MenuModel {
    MenuModel {
        revision: 1,
        root: MenuItem {
            id: MenuItemId(0),
            label: None,
            enabled: true,
            visible: true,
            item_type: MenuItemType::Standard,
            children_display: None,
            shortcut: None,
            icon_name: None,
            action: None,
            children: vec![],
        },
    }
}

#[test]
fn bluetooth_devices_are_those_paired_or_connected_by_path() {
    let device = |path: &str, alias: &str, paired: bool, connected: bool| BluezObject {
        path: path.to_owned(),
        adapter: None,
        device: Some(named(&[
            ("Address", text("00:11")),
            ("Name", text("Name")),
            ("Alias", text(alias)),
            ("Paired", WireValue::Bool(paired)),
            ("Connected", WireValue::Bool(connected)),
        ])),
    };
    let state = bluetooth_snapshot(&vec![
        device("/b", "Second", true, false),
        device("/c", "Third", false, false),
        BluezObject {
            path: "/adapter".to_owned(),
            adapter: Some(named(&[("Powered", WireValue::Bool(true))])),
            device: None,
        },
        device("/a", "", false, true),
    ]);
    assert!(state.available && state.powered);
    let paths: Vec<&str> = state.devices.iter().map(|device| device.path.as_str()).collect();
    assert_eq!(paths, ["/a", "/b"]);
    assert_eq!(state.devices[0].alias, "Name");
    assert_eq!(state.devices[1].alias, "Second");
    assert!(!bluetooth_snapshot(&vec![]).available);
}

#[test]
fn one_request_of_a_kind_is_under_way() {
    let mut in_flight = Vec::new();
    let action = BluetoothPendingAction::SetPowered(true);
    assert!(start_bluetooth_action(&mut in_flight, &action));
    assert!(!start_bluetooth_action(&mut in_flight, &action));
    finish_bluetooth_action(&mut in_flight, &action);
    assert!(in_flight.is_empty());
    assert!(start_bluetooth_action(&mut in_flight, &action));
    assert_eq!(
        bluetooth_finished(&mut in_flight, action.clone()),
        Event::BluetoothActionFinished(action)
    );
    assert!(in_flight.is_empty());
}

#[test]
fn an_item_is_described_by_what_can_be_read_of_it() {
    let endpoint = StatusNotifierEndpoint {
        service: ":1.1".to_owned(),
        object_path: "/item".to_owned(),
    };
    let unread = ItemProperties {
        status: None,
        icon_name: None,
        icon_pixmap: None,
        attention_icon_name: None,
        attention_icon_pixmap: None,
        item_is_menu: None,
        menu: None,
    };
    let item = describe_item(endpoint.clone(), unread);
    assert_eq!(item.status, StatusNotifierStatus::Passive);
    assert_eq!((item.icon, item.menu, item.item_is_menu), (None, None, false));
    let pixels = vec![7_u8; 16 * 16 * 4];
    let item = describe_item(
        endpoint,
        ItemProperties {
            status: Some("NeedsAttention".to_owned()),
            icon_name: Some(String::new()),
            icon_pixmap: Some(vec![(16, 16, pixels)]),
            attention_icon_name: Some("alert".to_owned()),
            attention_icon_pixmap: None,
            item_is_menu: Some(true),
            menu: Some("/Menu".to_owned()),
        },
    );
    assert_eq!(item.status, StatusNotifierStatus::NeedsAttention);
    assert!(item.icon.is_some());
    assert_eq!(item.icon_name, None);
    assert_eq!(item.attention_icon_name.as_deref(), Some("alert"));
    assert_eq!(item.menu.unwrap().object_path, "/Menu");
}

#[test]
fn actions_of_items_are_calls() {
    assert_eq!(
        action_call(&StatusNotifierAction::ContextMenu, 3, 4),
        ("ContextMenu".to_owned(), ItemArguments::Point(3, 4))
    );
    assert_eq!(
        action_call(
            &StatusNotifierAction::Scroll { delta: -120, orientation: "vertical" },
            3,
            4
        ),
        ("Scroll".to_owned(), ItemArguments::Turn(-120, "vertical".to_owned()))
    );
}

#[test]
fn a_cancelled_tray_stays_cancelled() {
    let mut control = StatusNotifierAttachmentControl::new();
    let item = StatusNotifierEndpoint {
        service: ":1.1".to_owned(),
        object_path: "/item".to_owned(),
    };
    assert_eq!(control.start_item(&item), Some(0));
    assert_eq!(control.start_item(&item), None);
    assert_eq!(control.cancel(), vec![item.clone()]);
    assert_eq!(control.start_item(&item), None);
    assert!(!control.is_active());
}

#[test]
fn setup_is_tried_again_only_for_the_same_owner() {
    assert!(retry_setup(&Some(":1.1".to_owned()), ":1.1"));
    assert!(!retry_setup(&Some(":1.2".to_owned()), ":1.1"));
    assert!(!retry_setup(&None, ":1.1"));
}

#[test]
fn a_change_of_an_owner_goes_where_it_belongs() {
    let mut worker = Worker::new(Some(":1.1".to_owned()));
    let mut events = VecDeque::new();
    let mut wake = Vec::new();
    let mut change = |worker: &mut Worker, name: &str, new: Option<&str>, old: Option<&str>| {
        worker.name_owner_changed(
            &mut events,
            &mut wake,
            name,
            new.map(str::to_owned),
            old.map(str::to_owned),
        )
    };
    match change(&mut worker, SNI_NAME, Some(":1.2"), Some(":1.1")) {
        OwnerChange::Watcher(step) => {
            assert!(step.detach && step.unavailable);
            assert_eq!(step.attach.as_deref(), Some(":1.2"));
        }
        other => panic!("{other:?}"),
    }
    assert_eq!(worker.sni_owner.as_deref(), Some(":1.2"));
    assert_eq!(
        change(&mut worker, BUS_NAME, Some(":1.3"), None),
        OwnerChange::Usage(Some(":1.3".to_owned()))
    );
    let mut next = 1;
    watcher_installed(&mut worker.menu_watchers, &mut next, &request(":1.9", 1));
    assert_eq!(
        change(&mut worker, ":1.9", None, Some(":1.9")),
        OwnerChange::Gone(vec![dbus_menu_endpoint_key(&endpoint(":1.9"))])
    );
    assert_eq!(change(&mut worker, "org.other", None, Some(":1.9")), OwnerChange::Nothing);
    assert_eq!(change(&mut worker, ":1.9", Some(":1.9"), None), OwnerChange::Nothing);
    assert_eq!(wake.len(), events.len());
    assert_eq!(
        events.pop_back(),
        Some(Event::StatusNotifierOwnerVanished(":1.9".to_owned()))
    );
    assert_eq!(
        events.pop_back(),
        Some(Event::MenuOwnerVanished { sender: ":1.9".to_owned() })
    );
}

#[test]
fn the_usage_service_is_started_once() {
    let mut worker = Worker::new(None);
    assert_eq!(
        usage_started(&mut worker.ai_usage, &mut worker.ai_activation, None),
        UsageStart::Activate
    );
    assert_eq!(
        usage_started(&mut worker.ai_usage, &mut worker.ai_activation, None),
        UsageStart::Nothing
    );
    assert_eq!(
        usage_started(&mut worker.ai_usage, &mut worker.ai_activation, Some(":1.3".to_owned())),
        UsageStart::Ask(":1.3".to_owned())
    );
}

#[test]
fn a_report_counts_once_and_from_its_owner_alone() {
    let mut worker = Worker::new(None);
    worker.ai_usage.owner_appeared(":1.3".to_owned());
    let mut events = VecDeque::new();
    let mut wake = Vec::new();
    let report = || Ok(AiUsageSnapshotWire { state_revision: 1, agents: vec![] });
    for (owner, count) in [(":1.4", 0), (":1.3", 1), (":1.3", 1)] {
        assert!(
            usage_reported(&mut worker.ai_usage, &mut events, &mut wake, owner, report()).is_ok()
        );
        assert_eq!(events.len(), count);
    }
    let refused = usage_reported(
        &mut worker.ai_usage,
        &mut events,
        &mut wake,
        ":1.3",
        Err("no report".to_owned()),
    );
    assert_eq!(refused.unwrap_err().message(), "no report");
    assert_eq!(events.len(), 1);
}

#[test]
fn windows_are_registered_and_looked_up() {
    assert_eq!(
        window_registered(7, ":1.1".to_owned(), "/menu".to_owned()),
        Event::MenuRegistered {
            window_id: WindowId(7),
            endpoint: MenuSource::DbusMenu(endpoint(":1.1")),
        }
    );
    assert_eq!(window_unregistered(7), Event::MenuUnregistered { window_id: WindowId(7) });
    let mut registry = MenuRegistry::default();
    assert_eq!(menu_for_window(&registry, 7), (String::new(), "/".to_owned()));
    registry.register(WindowId(7), ":1.1".to_owned(), "/menu".to_owned());
    assert_eq!(menu_for_window(&registry, 7), (":1.1".to_owned(), "/menu".to_owned()));
}

#[test]
fn a_layout_is_loaded_and_told_once() {
    let mut watchers = MenuWatchers::default();
    let mut next = 5;
    assert_eq!(layout_requested(&mut watchers, &request(":1.1", 1)), LayoutStep::Install);
    assert!(matches!(
        watcher_installed(&mut watchers, &mut next, &request(":1.1", 1)),
        Event::MenuWatcherReady { watcher_generation: 5, request_id: 1, .. }
    ));
    assert_eq!(next, 6);
    assert!(matches!(
        layout_requested(&mut watchers, &request(":1.1", 2)),
        LayoutStep::Load { cancelled: Some(1), .. }
    ));
    assert_eq!(layout_finished(&mut watchers, request(":1.1", 1), Ok(model())), None);
    assert!(matches!(
        layout_finished(&mut watchers, request(":1.1", 2), Ok(model())),
        Some(Event::MenuLoaded { request_id: 2, .. })
    ));
    assert_eq!(layout_finished(&mut watchers, request(":1.1", 2), Ok(model())), None);
    layout_requested(&mut watchers, &request(":1.1", 3));
    let tray = LayoutRequest { window_id: WindowId(u32::MAX), ..request(":1.1", 3) };
    assert!(matches!(
        layout_finished(&mut watchers, tray, Err("gone".to_owned())),
        Some(Event::TrayMenuLoadFailed { request_id: 3, error, .. }) if error == "gone"
    ));
    assert!(end_menu_watcher(&mut watchers, &endpoint(":1.1")));
    assert!(!end_menu_watcher(&mut watchers, &endpoint(":1.1")));
    assert!(matches!(
        watcher_refused(request(":1.1", 4), "no".to_owned()),
        Event::MenuLoadFailed { request_id: 4, error, .. } if error == "no"
    ));
}

#[test]
fn signals_of_menus_are_events() {
    let menu = endpoint(":1.1");
    assert_eq!(
        layout_updated(&menu, 3, 9),
        Event::MenuLayoutInvalidated {
            endpoint: MenuSource::DbusMenu(menu.clone()),
            watcher_generation: Some(3),
            revision: Some(9),
        }
    );
    assert!(properties_updated(
        &menu,
        3,
        vec![(1, vec![("label".to_owned(), WireValue::Bool(true))])],
        vec![]
    )
    .is_none());
    assert!(properties_updated(
        &menu,
        3,
        vec![(1, vec![("label".to_owned(), text("New"))])],
        vec![(2, vec!["enabled".to_owned()])]
    )
    .is_some());
    let answered = about_to_show_completed(
        AboutRequest {
            window_id: WindowId(1),
            endpoint: menu,
            item_id: MenuItemId(4),
            request_id: 8,
            lazy_root: true,
            intent_id: Some(2),
            watcher_generation: Some(3),
        },
        Err("late".to_owned()),
    );
    assert!(matches!(
        answered,
        Event::MenuAboutToShowCompleted {
            need_update: false,
            error: Some(error),
            request_id: 8,
            ..
        } if error == "late"
    ));
}

fn exported() -> GtkMenuEndpoint {
    GtkMenuEndpoint {
        bus_name: ":1.7".to_owned(),
        menu_object_path: "/menus".to_owned(),
        actions_object_paths: vec!["/actions".to_owned()],
    }
}

fn link(group: u32, menu: u32) -> WireValue {
    WireValue::Structure(vec![WireValue::U32(group), WireValue::U32(menu)])
}

#[test]
fn exported_menus_are_loaded_group_by_group() {
    let mut load = ExportedLoad::new();
    let next = load.take(vec![(
        0,
        0,
        vec![vec![("label".to_owned(), text("File")), (":submenu".to_owned(), link(4, 0))]],
    )]);
    assert_eq!(next, [4]);
    let next = load.take(vec![(
        4,
        0,
        vec![vec![
            ("label".to_owned(), text("Open")),
            ("action".to_owned(), text("app.open")),
        ]],
    )]);
    assert!(next.is_empty());
    let mut actions = Table::new();
    actions.insert("open".to_owned(), true);
    let (model, groups) = load.finish(u64::MAX, &actions).unwrap();
    assert_eq!(model.revision, u32::MAX);
    assert_eq!(groups, [0, 4]);
    assert_eq!(model.root.children[0].label.as_deref(), Some("File"));
    assert_eq!(model.root.children[0].children[0].label.as_deref(), Some("Open"));
    assert_eq!(load_revision(7), 7);
}

#[test]
fn exported_menus_are_watched_once_and_ended() {
    let mut subscriptions = Table::new();
    let mut watched = KeySet::new();
    let loaded = |subscriptions: &mut Table<String, Vec<u32>>,
                  watched: &mut KeySet<String>,
                  result| {
        exported_menus_loaded(subscriptions, watched, WindowId(1), &exported(), 3, result)
    };
    let (event, install) =
        loaded(&mut subscriptions, &mut watched, Ok((model(), vec![0, 4])));
    assert!(matches!(event, Event::MenuLoaded { request_id: 3, .. }));
    assert!(install);
    let (event, install) =
        loaded(&mut subscriptions, &mut watched, Err("no".to_owned()));
    assert!(matches!(event, Event::MenuLoadFailed { request_id: 3, .. }));
    assert!(!install);
    assert_eq!(exported_menus_ended(&mut subscriptions, &mut watched, &exported()), [0, 4]);
    assert_eq!(exported_menus_ended(&mut subscriptions, &mut watched, &exported()), [0]);
    assert_eq!(
        exported_menus_changed(&exported()),
        Event::MenuLayoutInvalidated {
            endpoint: MenuSource::GtkGMenu(exported()),
            watcher_generation: None,
            revision: None,
        }
    );
}

#[test]
fn targets_and_timestamps_are_sent_as_they_are() {
    assert_eq!(menu_action_target(&MenuActionTarget::Int32(-3)), WireValue::I32(-3));
    assert_eq!(menu_action_target(&MenuActionTarget::String("x".to_owned())), text("x"));
    assert_eq!(menu_action_target(&MenuActionTarget::Boolean(true)), WireValue::Bool(true));
    assert_eq!(menu_action_target(&MenuActionTarget::Uint32(3)), WireValue::U32(3));
    assert_eq!(activation_timestamp(0), None);
    assert_eq!(activation_timestamp(9), Some(9));
}

#[test]
fn layouts_that_are_none_are_refused() {
    let refused = |value| parse_layout(value).unwrap_err();
    assert_eq!(refused(WireValue::Bool(true)), "incorrect type");
    assert_eq!(
        refused(WireValue::Structure(vec![WireValue::I32(1)])),
        "DBusMenu layout item must have three fields"
    );
    assert_eq!(
        refused(WireValue::Structure(vec![
            WireValue::I32(1),
            WireValue::Bool(true),
            WireValue::Array(vec![]),
        ])),
        "invalid item properties: incorrect type"
    );
    assert_eq!(
        refused(WireValue::Structure(vec![
            WireValue::I32(1),
            WireValue::Dict(vec![]),
            WireValue::Array(vec![WireValue::Bool(true)]),
        ])),
        "invalid child layout: incorrect type"
    );
    let node = LayoutNode(3, vec![("shortcut".to_owned(), WireValue::Bool(true))], vec![]);
    assert_eq!(
        convert_item(node).unwrap_err(),
        "invalid shortcut for item 3: incorrect type"
    );
    let node = LayoutNode(3, vec![("visible".to_owned(), text("no"))], vec![]);
    assert_eq!(
        convert_item(node).unwrap_err(),
        "invalid visible property: incorrect type"
    );
    assert_eq!(get_property(&vec![("a".to_owned(), text("b"))], "c"), None);
}

#[test]
fn an_action_is_named_within_its_group() {
    assert_eq!(local_action("app.open"), "open");
    assert_eq!(local_action("win.view.zoom"), "view.zoom");
    assert_eq!(local_action("quit"), "quit");
    assert_eq!(local_action("app."), "");
}
