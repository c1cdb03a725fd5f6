//! The programs that stand in for applications and services.
use xbar::dbus::menu::{convert_layout, convert_property_updates, parse_wire_layout};
use xbar::dbus::wire::{get_property, WireValue};
use xbar::domain::menu::{ChildrenDisplay, MenuItem, MenuItemId, MenuItemType};
use xbar::fixture::appmenu;
use xbar::fixture::tray;
use xbar::fixture::watcher::{self, parse_command, Command, Notice, Watcher};
use xbar::text::NumberError;

fn args(values: &[&str]) -> Vec<String> {
    values.iter().map(|value| value.to_string()).collect()
}

fn items(
    prepared: bool,
    disabled_new: bool,
    hidden_new: bool,
    extra_export: bool,
    remove_recent: bool,
) -> Vec<MenuItem> {
    let layout = appmenu::layout(
        prepared,
        disabled_new,
        hidden_new,
        extra_export,
        remove_recent,
        "Fixture",
    );
    convert_layout(1, parse_wire_layout(layout).unwrap()).unwrap().root.children
}

fn ids(items: &[MenuItem]) -> Vec<i32> {
    items.iter().map(|item| item.id.0).collect()
}

#[test]
fn the_menu_of_the_application_reads_back() {
    let roots = items(false, false, false, false, false);
    assert_eq!(ids(&roots), [1, 4, 5, 6]);
    assert_eq!(roots[0].label.as_deref(), Some("Fixture-_Arquivo"));
    assert_eq!(roots[0].children_display, Some(ChildrenDisplay::Submenu));
    assert_eq!(ids(&roots[0].children), [2, 9, 10, 3]);
    assert_eq!(ids(&roots[1].children), [11, 12]);
    assert_eq!(roots[1].label.as_deref(), Some("Fixture-Editar"));
    assert_eq!(roots[2].label.as_deref(), Some("Fixture-Exibir"));
    assert_eq!(roots[2].children_display, None);
    assert!(!roots[3].visible);
    let file = &roots[0].children;
    assert!(file[0].enabled && file[0].visible);
    assert_eq!(
        file[0].shortcut.as_ref().unwrap().keys,
        vec![vec!["<Control>".to_owned(), "N".to_owned()]]
    );
    assert!(file[1].children.is_empty());
    assert_eq!(file[2].item_type, MenuItemType::Separator);
    assert_eq!(file[2].label, None);
    assert!(!file[3].enabled);
    assert_eq!(file[3].icon_name.as_deref(), Some("application-exit"));
    assert!(!roots[1].children[1].enabled);
}

#[test]
fn the_menu_of_the_application_changes_as_asked() {
    let file = &items(true, true, true, true, false)[0];
    assert_eq!(ids(&file.children), [2, 13, 9, 10, 3]);
    assert!(!file.children[0].enabled && !file.children[0].visible);
    assert_eq!(ids(&file.children[2].children), [7, 8]);
    let file = &items(true, false, false, false, true)[0];
    assert!(file.children[1].children.is_empty());
}

#[test]
fn what_was_opened_last_is_filled_once() {
    let mut fixture = appmenu::Fixture::new("A".to_owned());
    assert_eq!(fixture.get_layout().0, 1);
    assert!(!fixture.about_to_show(2));
    assert!(fixture.about_to_show(9));
    assert!(!fixture.about_to_show(9));
    assert_eq!(fixture.get_layout().0, 2);
    fixture.revision = u32::MAX;
    fixture.prepared = false;
    assert!(fixture.about_to_show(9));
    assert_eq!(fixture.revision, 0);
}

#[test]
fn options_of_the_application_are_read() {
    let options = appmenu::parse_options(&args(&["app"])).ok().unwrap();
    assert_eq!(options.xid, 0x02e0_0003);
    assert_eq!(options.prefix, "Fixture");
    assert!(!options.query && !options.unregister);
    assert!(!options.announces_properties() && !options.announces_layout());
    let options = appmenu::parse_options(&args(&[
        "app",
        "--xid",
        "0x1F",
        "--prefix",
        "Other",
        "--hide-new",
        "--add-export",
        "--query",
    ]))
    .ok()
    .unwrap();
    assert_eq!(options.xid, 31);
    assert_eq!(options.prefix, "Other");
    assert!(options.hide_new && options.add_export && options.query);
    assert!(options.announces_properties() && options.announces_layout());
    assert_eq!(appmenu::parse_options(&args(&["app", "--xid", "+42"])).ok().unwrap().xid, 42);
    let failed = |number: &str| appmenu::parse_options(&args(&["app", "--xid", number])).err();
    assert_eq!(failed(""), Some(NumberError::Empty));
    assert_eq!(failed("0x"), Some(NumberError::Empty));
    assert_eq!(failed("12a"), Some(NumberError::InvalidDigit));
    assert_eq!(failed("+"), Some(NumberError::InvalidDigit));
    assert_eq!(failed("-1"), Some(NumberError::InvalidDigit));
    assert_eq!(failed("4294967296"), Some(NumberError::TooLarge));
    assert_eq!(failed("99999999999x"), Some(NumberError::TooLarge));
}

#[test]
fn options_apply_to_the_menu() {
    let options = appmenu::parse_options(&args(&["app", "--disable-new", "--remove-recent"]))
        .ok()
        .unwrap();
    let mut fixture = appmenu::Fixture::new("A".to_owned());
    fixture.apply(&options);
    assert_eq!(fixture.revision, 2);
    assert!(fixture.disabled_new && fixture.remove_recent);
    assert!(!fixture.hidden_new && !fixture.extra_export);
}

#[test]
fn changed_properties_are_announced() {
    let options =
        appmenu::parse_options(&args(&["app", "--disable-new", "--rename-new"])).ok().unwrap();
    let updated = appmenu::property_updates(&options);
    assert_eq!(updated.len(), 1);
    assert_eq!(updated[0].0, 2);
    assert_eq!(updated[0].1.len(), 2);
    assert_eq!(get_property(&updated[0].1, "enabled"), Some(&WireValue::Bool(false)));
    assert_eq!(
        get_property(&updated[0].1, "label"),
        Some(&WireValue::Str("Novo atualizado".to_owned()))
    );
    let changes = convert_property_updates(updated, vec![]).unwrap();
    assert_eq!(changes[0].item_id, MenuItemId(2));
    assert_eq!(changes[0].properties.len(), 2);
}

#[test]
fn chosen_items_are_named() {
    let labels: Vec<&str> =
        [2, 7, 8, 11, 3, 5].iter().map(|id| appmenu::event_label(*id)).collect();
    assert_eq!(labels, ["Novo", "projeto-a", "projeto-b", "Copiar", "Sair", "unknown"]);
}

#[test]
fn options_of_the_item_are_read() {
    let options = tray::parse_options(&args(&["item"]));
    assert_eq!(options.path, "/StatusNotifierItem");
    assert_eq!(options.status, "Active");
    assert_eq!(options.color, 0);
    let options = tray::parse_options(&args(&[
        "item",
        "--path",
        "/Other",
        "--second",
        "--color",
        "200",
        "--attention",
    ]));
    assert_eq!(options.path, "/Other");
    assert!(options.second && !options.unregister);
    assert_eq!(options.color, 200);
    assert_eq!(options.status, "NeedsAttention");
    assert_eq!(tray::parse_options(&args(&["item", "--color", "256"])).color, 0);
    assert_eq!(tray::parse_options(&args(&["item", "--color", "red"])).color, 0);
    assert_eq!(tray::parse_options(&args(&["item", "--color"])).color, 0);
    assert_eq!(
        tray::parse_options(&args(&["item", "--attention", "--passive"])).status,
        "Passive"
    );
}

#[test]
fn the_icon_of_the_item_is_a_board() {
    let item = tray::FixtureItem::new("Active".to_owned(), 0x90);
    let icons = item.icon_pixmap();
    assert_eq!(icons.len(), 1);
    let (width, height, pixels) = &icons[0];
    assert_eq!((*width, *height, pixels.len()), (16, 16, 1024));
    assert_eq!(pixels[0..8], [255, 0xc0, 0x90, 0xe0, 255, 255, 0x90, 0xe0]);
    assert_eq!(pixels[64..68], [255, 255, 0x90, 0xe0]);
    let plain = tray::FixtureItem::new("Active".to_owned(), 0).icon_pixmap();
    assert_eq!(plain[0].2[1], 0x30);
    assert_eq!(plain[0].2[5], 0x80);
}

#[test]
fn the_item_follows_commands() {
    let mut item = tray::FixtureItem::new("Active".to_owned(), 0);
    assert_eq!(item.menu(), "/StatusNotifierMenu");
    assert!(matches!(item.follow("  attention\n"), tray::Notice::NewStatus(s) if s == "NeedsAttention"));
    assert_eq!(item.status, "NeedsAttention");
    assert!(matches!(item.follow("passive"), tray::Notice::NewStatus(s) if s == "Passive"));
    assert!(matches!(item.follow("active"), tray::Notice::NewStatus(s) if s == "Active"));
    assert!(matches!(item.follow("menu"), tray::Notice::NewItemIsMenu));
    assert!(item.item_is_menu);
    assert!(matches!(item.follow("normal"), tray::Notice::NewItemIsMenu));
    assert!(!item.item_is_menu);
    assert!(matches!(item.follow("menu-a"), tray::Notice::NewMenu));
    assert_eq!(item.menu(), "/MenuA");
    assert!(matches!(item.follow("menu-b"), tray::Notice::NewMenu));
    assert_eq!(item.menu(), "/MenuB");
    assert!(matches!(item.follow("menu-clear"), tray::Notice::NewMenu));
    assert_eq!(item.menu(), "/");
    assert!(matches!(item.follow("menu a"), tray::Notice::Nothing));
    assert!(matches!(item.follow("\tquit "), tray::Notice::Quit));
}

#[test]
fn the_menu_of_the_item_reads_back() {
    let (revision, layout) = tray::MenuFixture.get_layout();
    assert_eq!(revision, 1);
    let menu = convert_layout(revision, parse_wire_layout(layout).unwrap()).unwrap();
    let labels: Vec<&str> =
        menu.root.children.iter().map(|item| item.label.as_deref().unwrap()).collect();
    assert_eq!(labels, ["Abrir", "Opção", "Sair"]);
    assert!(!tray::MenuFixture.about_to_show(1));
}

#[test]
fn commands_of_the_watcher_are_read() {
    assert_eq!(parse_command("add :1.2/A more"), Some(Command::Add(":1.2/A".to_owned())));
    assert_eq!(parse_command("  remove \t x"), Some(Command::Remove("x".to_owned())));
    assert_eq!(parse_command("quit now"), Some(Command::Quit));
    assert_eq!(parse_command("add"), None);
    assert_eq!(parse_command("remove  "), None);
    assert_eq!(parse_command(""), None);
    assert_eq!(parse_command("added x"), None);
}

#[test]
fn the_watcher_keeps_each_item_once() {
    let mut service = Watcher::new();
    assert_eq!(watcher::initial(":1.5"), ":1.5/StatusNotifierItem");
    assert!(matches!(
        service.follow(Command::Add("a".to_owned())),
        Notice::Registered(item) if item == "a"
    ));
    assert!(matches!(service.follow(Command::Add("a".to_owned())), Notice::Nothing));
    assert!(matches!(service.follow(Command::Remove("b".to_owned())), Notice::Nothing));
    assert_eq!(service.items, ["a"]);
    assert!(matches!(
        service.follow(Command::Remove("a".to_owned())),
        Notice::Unregistered(item) if item == "a"
    ));
    assert!(service.items.is_empty());
    assert!(matches!(service.follow(Command::Quit), Notice::Quit));
    assert!(!service.is_status_notifier_host_registered());
    service.register_status_notifier_host("bar".to_owned());
    assert!(service.is_status_notifier_host_registered());
}
