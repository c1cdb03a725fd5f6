//! The layouts of menus as they come over the bus.
use xbar::dbus::menu::{LayoutNode, convert_layout, convert_property_updates};
use xbar::dbus::wire::WireValue;
use xbar::domain::menu::{ChildrenDisplay, MenuItemType, MenuPropertyUpdate};

fn node(id: i32, props: Vec<(&str, WireValue)>, children: Vec<LayoutNode>) -> LayoutNode {
    LayoutNode(
        id,
        props
            .into_iter()
            .map(|(name, value)| (name.to_owned(), value))
            .collect(),
        children,
    )
}
fn s(value: &str) -> WireValue {
    WireValue::Str(value.to_owned())
}
fn b(value: bool) -> WireValue {
    WireValue::Bool(value)
}

#[test]
fn converts_nested_tree_and_defaults() {
    let root = node(
        0,
        vec![],
        vec![node(
            1,
            vec![("label", s("_File")), ("children-display", s("submenu"))],
            vec![node(
                2,
                vec![
                    ("label", s("New")),
                    (
                        "shortcut",
                        WireValue::Array(vec![WireValue::Array(vec![s("<Control>"), s("N")])]),
                    ),
                ],
                vec![],
            )],
        )],
    );
    let model = convert_layout(1, root).unwrap();
    assert_eq!(model.revision, 1);
    assert_eq!(model.root.children[0].label.as_deref(), Some("_File"));
    assert!(model.root.enabled && model.root.visible);
    assert_eq!(
        model.root.children[0].children_display,
        Some(ChildrenDisplay::Submenu)
    );
    assert_eq!(
        model.root.children[0].children[0]
            .shortcut
            .as_ref()
            .unwrap()
            .keys[0],
        vec!["<Control>", "N"]
    );
}

#[test]
fn preserves_flags_unknown_type_and_optional_properties() {
    let root = node(
        0,
        vec![],
        vec![node(
            1,
            vec![
                ("label", s("Hidden")),
                ("enabled", b(false)),
                ("visible", b(false)),
                ("type", s("future")),
                ("icon-name", s("document-new")),
            ],
            vec![],
        )],
    );
    let item = &convert_layout(1, root).unwrap().root.children[0];
    assert!(!item.enabled && !item.visible);
    assert_eq!(item.item_type, MenuItemType::Unknown("future".into()));
    assert_eq!(item.icon_name.as_deref(), Some("document-new"));
}

#[test]
fn property_updates_use_defaults_for_removals_and_ignore_unknown_properties() {
    let updates = convert_property_updates(
        vec![(
            1,
            vec![("enabled".into(), b(false)), ("future".into(), s("x"))],
        )],
        vec![(1, vec!["enabled".into(), "visible".into(), "future".into()])],
    )
    .unwrap();
    assert_eq!(updates.len(), 2);
    assert_eq!(
        updates[0].properties,
        vec![MenuPropertyUpdate::Enabled(false)]
    );
    assert_eq!(
        updates[1].properties,
        vec![
            MenuPropertyUpdate::Enabled(true),
            MenuPropertyUpdate::Visible(true)
        ]
    );
}
