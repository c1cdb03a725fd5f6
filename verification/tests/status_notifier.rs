//! The items of the tray.
use xbar::domain::status_notifier::{
    SCROLL_STEP, StatusNotifierAction, StatusNotifierEndpoint, StatusNotifierIcon,
    StatusNotifierItem, StatusNotifierItemRegistry, StatusNotifierRegistry, StatusNotifierStatus,
    format_notifier_item_id, parse_notifier_item_id,
};

fn endpoint(service: &str, path: &str) -> StatusNotifierEndpoint {
    StatusNotifierEndpoint {
        service: service.into(),
        object_path: path.into(),
    }
}
#[test]
fn identity_is_service_and_path_and_duplicates_are_ignored() {
    let mut registry = StatusNotifierRegistry::default();
    assert!(registry.register(endpoint(":1.50", "/a")));
    assert!(!registry.register(endpoint(":1.50", "/a")));
    assert!(registry.register(endpoint(":1.50", "/b")));
    assert_eq!(registry.len(), 2);
}
#[test]
fn owner_vanished_removes_only_that_service() {
    let mut registry = StatusNotifierRegistry::default();
    registry.register(endpoint(":1.50", "/a"));
    registry.register(endpoint(":1.50", "/b"));
    registry.register(endpoint(":1.51", "/c"));
    assert_eq!(registry.remove_service(":1.50").len(), 2);
    assert_eq!(registry.endpoints(), &[endpoint(":1.51", "/c")]);
}

#[test]
fn canonical_item_id_roundtrips_service_and_path() {
    let endpoint = endpoint(":1.141", "/StatusNotifierItem/2");
    assert_eq!(
        format_notifier_item_id(&endpoint),
        ":1.141/StatusNotifierItem/2"
    );
    assert_eq!(
        parse_notifier_item_id(":1.141/StatusNotifierItem/2"),
        Some(endpoint)
    );
    assert!(parse_notifier_item_id("/StatusNotifierItem").is_none());
}

fn tray_item(
    status: StatusNotifierStatus,
    icon: Option<StatusNotifierIcon>,
) -> StatusNotifierItem {
    StatusNotifierItem {
        endpoint: endpoint(":1.50", "/StatusNotifierItem"),
        status,
        icon,
        icon_name: None,
        attention_icon_name: None,
        item_is_menu: false,
        menu: None,
    }
}

#[test]
fn item_registry_ignores_identical_updates_and_replaces_changed_state() {
    let icon = Some(StatusNotifierIcon::Pixmap {
        width: 16,
        height: 16,
        argb: vec![0xff00_0000],
    });
    let mut registry = StatusNotifierItemRegistry::default();
    let item = tray_item(StatusNotifierStatus::Active, icon.clone());
    assert!(registry.upsert(item.clone()));
    assert!(!registry.upsert(item));
    assert!(registry.upsert(tray_item(StatusNotifierStatus::Passive, icon)));
}

#[test]
fn mouse_buttons_map_to_sni_actions() {
    assert_eq!(
        StatusNotifierAction::for_button(1, false),
        Some(StatusNotifierAction::Activate)
    );
    assert_eq!(
        StatusNotifierAction::for_button(2, false),
        Some(StatusNotifierAction::SecondaryActivate)
    );
    assert_eq!(
        StatusNotifierAction::for_button(3, false),
        Some(StatusNotifierAction::ContextMenu)
    );
    assert_eq!(
        StatusNotifierAction::for_button(1, true),
        Some(StatusNotifierAction::ContextMenu)
    );
    assert_eq!(
        StatusNotifierAction::for_button(4, false),
        Some(StatusNotifierAction::Scroll {
            delta: SCROLL_STEP,
            orientation: "vertical"
        })
    );
    assert_eq!(
        StatusNotifierAction::for_button(5, false),
        Some(StatusNotifierAction::Scroll {
            delta: -SCROLL_STEP,
            orientation: "vertical"
        })
    );
    assert_eq!(
        StatusNotifierAction::for_button(6, false),
        Some(StatusNotifierAction::Scroll {
            delta: -SCROLL_STEP,
            orientation: "horizontal"
        })
    );
    assert_eq!(
        StatusNotifierAction::for_button(7, false),
        Some(StatusNotifierAction::Scroll {
            delta: SCROLL_STEP,
            orientation: "horizontal"
        })
    );
}
