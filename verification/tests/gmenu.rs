//! The menus that applications export.
use xbar::dbus::gmenu::{RawItem, convert_start, referenced_groups};
use xbar::dbus::wire::WireValue;
use xbar::domain::menu::{ChildrenDisplay, MenuAction, MenuActionTarget, MenuItemType};
use xbar::table::Table;

fn value(value: &str) -> WireValue {
    WireValue::Str(value.to_owned())
}

fn link(group: u32, menu: u32) -> WireValue {
    WireValue::Structure(vec![WireValue::U32(group), WireValue::U32(menu)])
}

fn item(properties: Vec<(&str, WireValue)>) -> RawItem {
    properties
        .into_iter()
        .map(|(name, value)| (name.to_owned(), value))
        .collect()
}

fn actions(known: &[(&str, bool)]) -> Table<String, bool> {
    let mut actions = Table::new();
    for (name, enabled) in known {
        actions.insert((*name).to_owned(), *enabled);
    }
    actions
}

#[test]
fn converts_menu_sections_submenus_and_actions() {
    let root = vec![
        item(vec![
            ("label", value("Arquivo")),
            ("action", value("app.file")),
            (":submenu", link(0, 1)),
        ]),
        item(vec![("label", value("Editar"))]),
    ];
    let file = vec![
        item(vec![("label", value("Novo")), ("action", value("app.new"))]),
        item(vec![(":section", link(0, 2))]),
    ];
    let section = vec![item(vec![("label", value("Sair"))])];
    let model = convert_start(
        7,
        vec![(0, 0, root), (0, 1, file), (0, 2, section)],
        &actions(&[("app.file", true), ("app.new", false)]),
    )
    .expect("GMenu model");

    assert_eq!(model.revision, 7);
    assert_eq!(model.root.children.len(), 2);
    assert_eq!(model.root.children[0].label.as_deref(), Some("Arquivo"));
    assert_eq!(
        model.root.children[0].children_display,
        Some(ChildrenDisplay::Submenu)
    );
    assert!(!model.root.children[0].children[0].enabled);
    assert!(matches!(
        model.root.children[0].children[1].item_type,
        MenuItemType::Separator
    ));
    assert_eq!(
        model.root.children[0].children[2].label.as_deref(),
        Some("Sair")
    );
}

#[test]
fn item_ids_are_deterministic_and_targets_are_preserved() {
    let menu = || {
        vec![item(vec![
            ("label", value("Abrir")),
            ("action", value("app.open")),
            ("target", value("/tmp")),
        ])]
    };
    let actions = actions(&[("app.open", true)]);
    let first = convert_start(1, vec![(0, 0, menu())], &actions).unwrap();
    let second = convert_start(1, vec![(0, 0, menu())], &actions).unwrap();
    assert_eq!(first, second);
    assert_eq!(
        first.root.children[0].action,
        Some(MenuAction {
            name: "app.open".into(),
            target: Some(MenuActionTarget::String("/tmp".into())),
        })
    );
}

#[test]
fn missing_linked_menu_is_a_submenu_but_has_no_children() {
    let model = convert_start(
        1,
        vec![(
            0,
            0,
            vec![item(vec![("label", value("Vazio")), (":submenu", link(0, 9))])],
        )],
        &actions(&[]),
    )
    .unwrap();
    let child = &model.root.children[0];
    assert_eq!(child.children_display, Some(ChildrenDisplay::Submenu));
    assert!(child.children.is_empty());
}

#[test]
fn referenced_groups_are_unique_and_exclude_root_group() {
    let content = vec![
        (
            0,
            0,
            vec![item(vec![(":submenu", link(2, 0)), (":section", link(3, 0))])],
        ),
        (2, 0, vec![item(vec![(":submenu", link(3, 1))])]),
    ];
    assert_eq!(referenced_groups(&content), vec![2, 3]);
}
