//! Menus as applications send them over the bus.
use vstd::prelude::*;

use crate::dbus::menu;
use crate::dbus::menu::{LayoutNodeView, WireLayoutNode};
use crate::dbus::wire;
use crate::dbus::wire::{Properties, WireValue};
use crate::domain::menu::{MenuItemId, MenuItemTypeView, MenuItemView, MenuShortcutView};
use crate::value::Value;

verus! {

/// What an application says of an item of its menu; what it does not say is not sent.
pub struct Entry {
    pub id: i32,
    pub label: Option<String>,
    pub enabled: Option<bool>,
    pub visible: Option<bool>,
    pub item_type: Option<String>,
    pub children_display: Option<String>,
    pub shortcut: Option<Vec<Vec<String>>>,
    pub icon_name: Option<String>,
}

/// The item that an application describes, without its children.
pub open spec fn entry_item(entry: Entry) -> MenuItemView {
    MenuItemView {
        id: MenuItemId(entry.id),
        label: entry.label.deep_view(),
        enabled: entry.enabled != Some(false),
        visible: entry.visible != Some(false),
        item_type: match entry.item_type {
            Some(name) => menu::item_type_of(name@),
            None => MenuItemTypeView::Standard,
        },
        children_display: match entry.children_display {
            Some(name) => Some(menu::children_display_of(name@)),
            None => None,
        },
        shortcut: match entry.shortcut {
            Some(keys) => Some(MenuShortcutView { keys: keys.deep_view() }),
            None => None,
        },
        icon_name: entry.icon_name.deep_view(),
        action: None,
        children: Seq::empty(),
    }
}

/// An item that has nothing but a label.
pub open spec fn plain_item(id: i32, label: Seq<char>) -> MenuItemView {
    MenuItemView {
        id: MenuItemId(id),
        label: Some(label),
        enabled: true,
        visible: true,
        item_type: MenuItemTypeView::Standard,
        children_display: None,
        shortcut: None,
        icon_name: None,
        action: None,
        children: Seq::empty(),
    }
}

/// An entry of which nothing but its label is said.
pub fn plain(id: i32, label: &str) -> (r: Entry)
    ensures
        entry_item(r) == plain_item(id, label@),
        r.id == id,
        r.label matches Some(l) && l@ == label@,
        r.enabled is None,
        r.visible is None,
        r.item_type is None,
        r.children_display is None,
        r.shortcut is None,
        r.icon_name is None,
{
    Entry {
        id,
        label: Some(label.to_owned()),
        enabled: None,
        visible: None,
        item_type: None,
        children_display: None,
        shortcut: None,
        icon_name: None,
    }
}

proof fn lemma_property_push(
    properties: Seq<(Seq<char>, WireValue)>,
    last: (Seq<char>, WireValue),
    name: Seq<char>,
)
    ensures
        wire::property(properties.push(last), name) == (match wire::property(properties, name) {
            Some(v) => Some(v),
            None => if last.0 == name {
                Some(last.1)
            } else {
                None
            },
        }),
    decreases properties.len(),
{
    let all = properties.push(last);
    if properties.len() == 0 {
        assert(all.skip(1) =~= Seq::empty());
        assert(wire::property(all.skip(1), name) is None);
        assert(wire::property(properties, name) is None);
    } else {
        lemma_property_push(properties.skip(1), last, name);
        assert(all.skip(1) =~= properties.skip(1).push(last));
    }
}

/// Adds a property; where there is one of the name already, that one counts.
pub(crate) fn set_property(properties: &mut Properties, name: &str, v: WireValue)
    ensures
        forall|other: Seq<char>| #[trigger]
            wire::property(wire::named(final(properties)@), other) == (match wire::property(
                wire::named(old(properties)@),
                other,
            ) {
                Some(w) => Some(w),
                None => if name@ == other {
                    Some(v)
                } else {
                    None
                },
            }),
{
    let ghost before = wire::named(properties@);
    properties.push((name.to_owned(), v));
    assert(wire::named(properties@) =~= before.push((name@, v)));
    assert forall|other: Seq<char>| #[trigger]
        wire::property(wire::named(properties@), other) == (match wire::property(before, other) {
            Some(w) => Some(w),
            None => if name@ == other {
                Some(v)
            } else {
                None
            },
        }) by {
        lemma_property_push(before, (name@, v), other);
    }
}

fn text_value(text: &Option<String>) -> (r: Option<WireValue>)
    ensures
        match text {
            Some(s) => r matches Some(v) && wire::text_of(v) == Some(s@),
            None => r is None,
        },
{
    match text {
        Some(s) => Some(WireValue::Str(s.dup())),
        None => None,
    }
}

fn texts_value(texts: &Vec<String>) -> (r: WireValue)
    ensures
        r matches WireValue::Array(elements) && wire::texts_of(elements@) == Some(
            texts.deep_view(),
        ),
{
    let mut elements: Vec<WireValue> = Vec::new();
    let mut i: usize = 0;
    while i < texts.len()
        invariant
            i <= texts.len(),
            wire::texts_of(elements@) matches Some(t) && t =~= texts.deep_view().take(i as int),
        decreases texts.len() - i,
    {
        let ghost before = elements@;
        elements.push(WireValue::Str(texts[i].dup()));
        assert(elements@.drop_last() =~= before);
        i += 1;
    }
    assert(texts.deep_view().take(i as int) =~= texts.deep_view());
    WireValue::Array(elements)
}

fn keys_value(keys: &Vec<Vec<String>>) -> (r: WireValue)
    ensures
        wire::keys_of(r) == Some(keys.deep_view()),
{
    let mut elements: Vec<WireValue> = Vec::new();
    let mut i: usize = 0;
    while i < keys.len()
        invariant
            i <= keys.len(),
            wire::text_lists_of(elements@) matches Some(t) && t =~= keys.deep_view().take(i as int),
        decreases keys.len() - i,
    {
        let ghost before = elements@;
        elements.push(texts_value(&keys[i]));
        assert(elements@.drop_last() =~= before);
        i += 1;
    }
    assert(keys.deep_view().take(i as int) =~= keys.deep_view());
    WireValue::Array(elements)
}

/// No two properties of an item have the same name.
pub proof fn lemma_names_differ()
    ensures
        "label"@.len() == 5,
        "enabled"@.len() == 7,
        "visible"@.len() == 7,
        "enabled"@ != "visible"@,
        "type"@.len() == 4,
        "children-display"@.len() == 16,
        "shortcut"@.len() == 8,
        "icon-name"@.len() == 9,
{
    reveal_strlit("label");
    reveal_strlit("enabled");
    reveal_strlit("visible");
    reveal_strlit("type");
    reveal_strlit("children-display");
    reveal_strlit("shortcut");
    reveal_strlit("icon-name");
    assert("enabled"@[0] != "visible"@[0]);
}

/// What is sent of an item besides its children.
pub fn entry_properties(entry: &Entry) -> (r: Properties)
    ensures
        menu::childless_item_of(
            (LayoutNodeView {
                id: entry.id,
                properties: wire::named(r@),
                children: Seq::empty(),
            }),
        ) == Ok::<MenuItemView, Seq<char>>(entry_item(*entry)),
{
    let mut properties: Properties = Vec::new();
    proof {
        lemma_names_differ();
    }
    assert(forall|name: Seq<char>| #[trigger]
        wire::property(wire::named(properties@), name) is None);
    match text_value(&entry.label) {
        Some(v) => set_property(&mut properties, "label", v),
        None => {},
    }
    match entry.enabled {
        Some(b) => set_property(&mut properties, "enabled", WireValue::Bool(b)),
        None => {},
    }
    match entry.visible {
        Some(b) => set_property(&mut properties, "visible", WireValue::Bool(b)),
        None => {},
    }
    match text_value(&entry.item_type) {
        Some(v) => set_property(&mut properties, "type", v),
        None => {},
    }
    match text_value(&entry.children_display) {
        Some(v) => set_property(&mut properties, "children-display", v),
        None => {},
    }
    match &entry.shortcut {
        Some(keys) => set_property(&mut properties, "shortcut", keys_value(keys)),
        None => {},
    }
    match text_value(&entry.icon_name) {
        Some(v) => set_property(&mut properties, "icon-name", v),
        None => {},
    }
    properties
}

/// A value is the layout of an item.
pub open spec fn stands_for(v: WireValue, item: MenuItemView) -> bool {
    &&& v is Structure
    &&& menu::layout_of(v) matches Ok(node)
    &&& menu::item_of(node) == Ok::<MenuItemView, Seq<char>>(item)
}

/// Values are the layouts of items, one by one.
pub open spec fn stand_for(values: Seq<WireValue>, items: Seq<MenuItemView>) -> bool {
    values.len() == items.len() && forall|i: int|
        0 <= i < values.len() ==> stands_for(#[trigger] values[i], items[i])
}

/// What layouts of items come to when they are read.
pub proof fn lemma_stand_for(values: Seq<WireValue>, items: Seq<MenuItemView>)
    requires
        stand_for(values, items),
    ensures
        menu::layouts_of(values) matches Ok(nodes) && menu::items_of(nodes) == Ok::<
            Seq<MenuItemView>,
            Seq<char>,
        >(items),
    decreases values.len(),
{
    if values.len() > 0 {
        assert(stands_for(values[0], items[0]));
        let (rest, rest_items) = (values.skip(1), items.skip(1));
        assert forall|i: int| 0 <= i < rest.len() implies stands_for(
            #[trigger] rest[i],
            rest_items[i],
        ) by {
            assert(stands_for(values[i + 1], items[i + 1]));
        }
        lemma_stand_for(rest, rest_items);
        let node = menu::layout_of(values[0])->Ok_0;
        let nodes = menu::layouts_of(rest)->Ok_0;
        assert((seq![node] + nodes).skip(1) =~= nodes);
        assert(seq![items[0]] + rest_items =~= items);
    } else {
        assert(items =~= Seq::empty());
    }
}

fn wrap_all(values: Vec<WireValue>) -> (r: Vec<WireValue>)
    ensures
        r@.len() == values@.len(),
        forall|i: int|
            0 <= i < r@.len() ==> wire::unwrapped_once(#[trigger] r@[i]) == values@[i],
{
    let ghost all = values@;
    let mut rest = values;
    let mut wrapped: Vec<WireValue> = Vec::new();
    while rest.len() > 0
        invariant
            wrapped@.len() + rest@.len() == all.len(),
            rest@ =~= all.skip(wrapped@.len() as int),
            forall|i: int|
                0 <= i < wrapped@.len() ==> wire::unwrapped_once(#[trigger] wrapped@[i]) == all[i],
        decreases rest.len(),
    {
        let v = rest.remove(0);
        wrapped.push(WireValue::Variant(Box::new(v)));
    }
    wrapped
}

proof fn lemma_wrapped_layouts(values: Seq<WireValue>, wrapped: Seq<WireValue>)
    requires
        wrapped.len() == values.len(),
        forall|i: int| 0 <= i < values.len() ==> #[trigger] values[i] is Structure,
        forall|i: int|
            0 <= i < values.len() ==> wire::unwrapped_once(#[trigger] wrapped[i]) == values[i],
    ensures
        menu::layouts_of(wrapped) == menu::layouts_of(values),
    decreases values.len(),
{
    if values.len() > 0 {
        assert(values[0] is Structure);
        assert(wire::unwrapped_once(wrapped[0]) == values[0]);
        assert(menu::layout_of(wrapped[0]) == menu::layout_of(values[0]));
        let (v, w) = (values.skip(1), wrapped.skip(1));
        assert forall|i: int| 0 <= i < v.len() implies #[trigger] v[i] is Structure by {
            assert(values[i + 1] is Structure);
        }
        assert forall|i: int| 0 <= i < v.len() implies wire::unwrapped_once(#[trigger] w[i])
            == v[i] by {
            assert(wire::unwrapped_once(wrapped[i + 1]) == values[i + 1]);
        }
        lemma_wrapped_layouts(v, w);
    }
}

fn dictionary(properties: Properties) -> (r: Vec<(WireValue, WireValue)>)
    ensures
        menu::properties_of(r@) == Some(wire::named(properties@)),
{
    let ghost all = properties@;
    let mut rest = properties;
    let mut entries: Vec<(WireValue, WireValue)> = Vec::new();
    let ghost mut seen: int = 0;
    assert(all.skip(0) =~= all);
    while rest.len() > 0
        invariant
            0 <= seen <= all.len(),
            rest@ == all.skip(seen),
            menu::properties_of(entries@) matches Some(p) && p =~= wire::named(all.take(seen)),
        decreases rest.len(),
    {
        let ghost before = entries@;
        let (name, v) = rest.remove(0);
        assert(all[seen] == (name, v));
        assert(rest@ =~= all.skip(seen + 1));
        entries.push((WireValue::Str(name), WireValue::Variant(Box::new(v))));
        assert(entries@.drop_last() =~= before);
        assert(wire::named(all.take(seen + 1)) =~= wire::named(all.take(seen)).push((name@, v)));
        proof {
            seen = seen + 1;
        }
    }
    assert(all.take(seen) =~= all);
    entries
}

/// The layout of an item with children.
pub(crate) fn item(
    entry: Entry,
    children: Vec<WireValue>,
    Ghost(items): Ghost<Seq<MenuItemView>>,
) -> (r: WireValue)
    requires
        stand_for(children@, items),
    ensures
        stands_for(r, (MenuItemView { children: items, ..entry_item(entry) })),
{
    let ghost below = children@;
    let properties = entry_properties(&entry);
    let ghost named = wire::named(properties@);
    let entries = dictionary(properties);
    let wrapped = wrap_all(children);
    proof {
        lemma_stand_for(below, items);
        assert forall|i: int| 0 <= i < below.len() implies #[trigger] below[i] is Structure by {
            assert(stands_for(below[i], items[i]));
        }
        lemma_wrapped_layouts(below, wrapped@);
    }
    let ghost nodes = menu::layouts_of(below)->Ok_0;
    let fields: Vec<WireValue> = vec![
        WireValue::I32(entry.id),
        WireValue::Dict(entries),
        WireValue::Array(wrapped),
    ];
    let r = WireValue::Structure(fields);
    proof {
        let node = LayoutNodeView { id: entry.id, properties: named, children: nodes };
        assert(menu::layout_of(r) == Ok::<LayoutNodeView, Seq<char>>(node));
        assert(menu::childless_item_of(node) == Ok::<MenuItemView, Seq<char>>(entry_item(entry)));
    }
    r
}

/// The layout of an item without children.
pub(crate) fn leaf(entry: Entry) -> (r: WireValue)
    ensures
        stands_for(r, entry_item(entry)),
{
    let r = item(entry, Vec::new(), Ghost(Seq::empty()));
    assert(MenuItemView { children: Seq::empty(), ..entry_item(entry) } =~= entry_item(entry));
    r
}

/// What is sent is a menu with the given items.
pub open spec fn is_menu_of(layout: WireLayoutNode, items: Seq<MenuItemView>) -> bool {
    &&& layout.0 == 0
    &&& layout.1@.len() == 0
    &&& menu::layouts_of(layout.2@) matches Ok(nodes)
    &&& menu::items_of(nodes) == Ok::<Seq<MenuItemView>, Seq<char>>(items)
}

} // verus!
