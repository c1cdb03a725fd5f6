//! The layout of a menu as it comes over the bus, and what it stands for.
use vstd::prelude::*;

use crate::dbus::wire;
use crate::dbus::wire::{Properties, WireValue};
use crate::domain::menu;
use crate::domain::menu::{
    ChildrenDisplay, ChildrenDisplayView, MenuItem, MenuItemId, MenuItemPropertiesUpdate,
    MenuItemPropertiesUpdateView, MenuItemType, MenuItemTypeView, MenuItemView, MenuModel,
    MenuModelView, MenuPropertyUpdate, MenuPropertyUpdateView, MenuShortcut, MenuShortcutView,
};
use crate::domain::reducer::tree;
use crate::lists;
use crate::text;
use crate::value;
use crate::value::Value;

verus! {

/// A node of a layout, with its children still in the form in which they came.
#[derive(Debug, Eq, PartialEq)]
pub struct WireLayoutNode(pub i32, pub Properties, pub Vec<WireValue>);

/// A node of a layout.
#[derive(Debug, Eq, PartialEq)]
pub struct LayoutNode(pub i32, pub Properties, pub Vec<LayoutNode>);

/// The model of a [`LayoutNode`]: its id, its named values and its children.
pub struct LayoutNodeView {
    pub id: i32,
    pub properties: Seq<(Seq<char>, WireValue)>,
    pub children: Seq<LayoutNodeView>,
}

/// The model of a [`LayoutNode`].
pub open spec fn node_view(node: LayoutNode) -> LayoutNodeView
    decreases node,
{
    LayoutNodeView {
        id: node.0,
        properties: wire::named(node.1@),
        children: Seq::new(
            node.2@.len(),
            |i: int|
                if 0 <= i < node.2@.len() {
                    node_view(node.2[i])
                } else {
                    arbitrary()
                },
        ),
    }
}

impl DeepView for LayoutNode {
    type V = LayoutNodeView;

    open spec fn deep_view(&self) -> LayoutNodeView {
        node_view(*self)
    }
}

/// A text in front of the reason of an error.
pub open spec fn because(what: Seq<char>, reason: Seq<char>) -> Seq<char> {
    what + ": "@ + reason
}

fn explain(what: &str, reason: &str) -> (r: String)
    ensures
        r@ == because(what@, reason@),
{
    let s = text::concat(what, ": ");
    text::concat(s.as_str(), reason)
}

/// The named values of a dictionary: the names are texts, and names and values may be in variants.
pub open spec fn properties_of(entries: Seq<(WireValue, WireValue)>) -> Option<
    Seq<(Seq<char>, WireValue)>,
>
    decreases entries.len(),
{
    if entries.len() == 0 {
        Some(Seq::empty())
    } else {
        match (
            properties_of(entries.drop_last()),
            wire::text_of(wire::unwrapped_once(entries.last().0)),
        ) {
            (Some(before), Some(name)) => Some(
                before.push((name, wire::unwrapped_once(entries.last().1))),
            ),
            _ => None,
        }
    }
}

/// The layout that a value stands for: a structure of an id, a dictionary of named values and an array
/// of children, the whole of it in a variant or not.
pub open spec fn layout_of(v: WireValue) -> Result<LayoutNodeView, Seq<char>>
    decreases v, 0nat,
{
    match wire::unwrapped_once(v) {
        WireValue::Structure(fields) => if fields@.len() != 3 {
            Err("DBusMenu layout item must have three fields"@)
        } else {
            match wire::signed_of(fields[0]) {
                None => Err(wire::wrong_type()),
                Some(id) => match fields[1] {
                    WireValue::Dict(entries) => match properties_of(entries@) {
                        None => Err(because("invalid item properties"@, wire::wrong_type())),
                        Some(properties) => match fields[2] {
                            WireValue::Array(elements) => match layouts_of(elements@) {
                                Ok(children) => Ok(LayoutNodeView { id, properties, children }),
                                Err(reason) => Err(reason),
                            },
                            _ => Err(wire::wrong_type()),
                        },
                    },
                    _ => Err(because("invalid item properties"@, wire::wrong_type())),
                },
            }
        },
        _ => Err(wire::wrong_type()),
    }
}

/// The layouts that values stand for, or why the first one that is refused is refused.
pub open spec fn layouts_of(values: Seq<WireValue>) -> Result<Seq<LayoutNodeView>, Seq<char>>
    decreases values, values.len(),
{
    if values.len() == 0 {
        Ok(Seq::empty())
    } else {
        match layout_of(values[0]) {
            Err(reason) => Err(because("invalid child layout"@, reason)),
            Ok(first) => match layouts_of(values.skip(1)) {
                Err(reason) => Err(reason),
                Ok(rest) => Ok(seq![first] + rest),
            },
        }
    }
}

fn unwrap_owned(v: WireValue) -> (r: WireValue)
    ensures
        r == wire::unwrapped_once(v),
{
    match v {
        WireValue::Variant(inner) => *inner,
        other => other,
    }
}

proof fn lemma_properties_prefix(entries: Seq<(WireValue, WireValue)>, n: int)
    requires
        0 <= n <= entries.len(),
        properties_of(entries.take(n)) is None,
    ensures
        properties_of(entries) is None,
    decreases entries.len(),
{
    if n < entries.len() {
        assert(entries.drop_last().take(n) =~= entries.take(n));
        lemma_properties_prefix(entries.drop_last(), n);
    } else {
        assert(entries.take(n) =~= entries);
    }
}

fn take_properties(entries: Vec<(WireValue, WireValue)>) -> (r: Option<Properties>)
    ensures
        match properties_of(entries@) {
            Some(properties) => r matches Some(p) && wire::named(p@) == properties,
            None => r is None,
        },
{
    let ghost all = entries@;
    let mut rest = entries;
    let mut properties: Properties = Vec::new();
    let ghost mut i: int = 0;
    assert(all.take(0) =~= Seq::<(WireValue, WireValue)>::empty());
    assert(all.skip(0) =~= all);
    assert(wire::named(properties@) =~= Seq::<(Seq<char>, WireValue)>::empty());
    while rest.len() > 0
        invariant
            0 <= i <= all.len(),
            all == entries@,
            rest@ == all.skip(i),
            properties_of(all.take(i)) == Some(wire::named(properties@)),
        decreases rest.len(),
    {
        let ghost before = properties@;
        let (key, value) = rest.remove(0);
        assert(all.skip(i)[0] == all[i]);
        assert(rest@ =~= all.skip(i + 1));
        assert(all.take(i + 1).drop_last() =~= all.take(i));
        assert(all.take(i + 1).last() == all[i]);
        match unwrap_owned(key) {
            WireValue::Str(name) => {
                properties.push((name, unwrap_owned(value)));
                assert(wire::named(properties@) =~= wire::named(before).push(
                    (name@, wire::unwrapped_once(value)),
                ));
            },
            _ => {
                proof {
                    lemma_properties_prefix(all, i + 1);
                }
                return None;
            },
        }
        proof {
            i = i + 1;
        }
    }
    assert(all.take(i) =~= all);
    Some(properties)
}

/// The layout that a value stands for.
pub fn parse_layout(value: WireValue) -> (r: Result<LayoutNode, String>)
    ensures
        match layout_of(value) {
            Ok(node) => r matches Ok(n) && node_view(n) == node,
            Err(reason) => r matches Err(e) && e@ == reason,
        },
    decreases value,
{
    let fields = match unwrap_owned(value) {
        WireValue::Structure(fields) => fields,
        _ => {
            return Err("incorrect type".to_owned());
        },
    };
    let ghost all = fields@;
    if fields.len() != 3 {
        return Err("DBusMenu layout item must have three fields".to_owned());
    }
    let mut fields = fields;
    let third = fields.pop();
    let second = fields.pop();
    let first = fields.pop();
    let (first, second, third) = match (first, second, third) {
        (Some(first), Some(second), Some(third)) => (first, second, third),
        _ => {
            return Err("incorrect type".to_owned());
        },
    };
    assert(first == all[0] && second == all[1] && third == all[2]);
    let id = match wire::as_signed(&first) {
        Some(id) => id,
        None => {
            return Err("incorrect type".to_owned());
        },
    };
    let properties = match second {
        WireValue::Dict(entries) => match take_properties(entries) {
            Some(properties) => properties,
            None => {
                return Err(explain("invalid item properties", "incorrect type"));
            },
        },
        _ => {
            return Err(explain("invalid item properties", "incorrect type"));
        },
    };
    match third {
        WireValue::Array(elements) => match parse_layouts(elements) {
            Ok(children) => {
                let node = LayoutNode(id, properties, children);
                assert(node_view(node).children =~= children.deep_view());
                Ok(node)
            },
            Err(e) => Err(e),
        },
        _ => Err("incorrect type".to_owned()),
    }
}

proof fn lemma_layouts_at(values: Seq<WireValue>, nodes: Seq<LayoutNodeView>, at: int)
    requires
        0 <= at <= values.len(),
        nodes.len() == at,
        forall|i: int|
            0 <= i < at ==> layout_of(#[trigger] values[i]) == Ok::<LayoutNodeView, Seq<char>>(
                nodes[i],
            ),
    ensures
        at == values.len() ==> layouts_of(values) == Ok::<Seq<LayoutNodeView>, Seq<char>>(nodes),
        at < values.len() ==> (layout_of(values[at]) matches Err(reason) ==> layouts_of(values)
            == Err::<Seq<LayoutNodeView>, Seq<char>>(because("invalid child layout"@, reason))),
    decreases at,
{
    if at > 0 {
        assert(layout_of(values[0]) == Ok::<LayoutNodeView, Seq<char>>(nodes[0]));
        assert forall|i: int| 0 <= i < at - 1 implies layout_of(#[trigger] values.skip(1)[i])
            == Ok::<LayoutNodeView, Seq<char>>(nodes.skip(1)[i]) by {
            assert(layout_of(values[i + 1]) == Ok::<LayoutNodeView, Seq<char>>(nodes[i + 1]));
        }
        lemma_layouts_at(values.skip(1), nodes.skip(1), at - 1);
        assert(seq![nodes[0]] + nodes.skip(1) =~= nodes);
    } else {
        assert(nodes =~= Seq::<LayoutNodeView>::empty());
    }
}

fn parse_layouts(values: Vec<WireValue>) -> (r: Result<Vec<LayoutNode>, String>)
    ensures
        match layouts_of(values@) {
            Ok(nodes) => r matches Ok(n) && n.deep_view() == nodes,
            Err(reason) => r matches Err(e) && e@ == reason,
        },
    decreases values,
{
    let ghost all = values@;
    let mut rest = values;
    let mut nodes: Vec<LayoutNode> = Vec::new();
    let ghost mut i: int = 0;
    assert(all.skip(0) =~= all);
    while rest.len() > 0
        invariant
            0 <= i <= all.len(),
            all == values@,
            rest@ == all.skip(i),
            nodes.deep_view().len() == i,
            forall|j: int|
                0 <= j < i ==> layout_of(#[trigger] all[j]) == Ok::<LayoutNodeView, Seq<char>>(
                    nodes.deep_view()[j],
                ),
        decreases rest.len(),
    {
        let ghost before = nodes.deep_view();
        let value = rest.remove(0);
        assert(value == all[i]);
        assert(value == values[i]);
        assert(rest@ =~= all.skip(i + 1));
        match parse_layout(value) {
            Ok(node) => {
                lists::push(&mut nodes, node);
            },
            Err(reason) => {
                proof {
                    lemma_layouts_at(all, before, i);
                }
                return Err(explain("invalid child layout", reason.as_str()));
            },
        }
        proof {
            i = i + 1;
        }
    }
    proof {
        lemma_layouts_at(all, nodes.deep_view(), i);
    }
    Ok(nodes)
}

/// The layout that a node stands for whose children are still in the form in which they came.
pub fn parse_wire_layout(wire: WireLayoutNode) -> (r: Result<LayoutNode, String>)
    ensures
        match layouts_of(wire.2@) {
            Ok(children) => r matches Ok(n) && node_view(n) == (LayoutNodeView {
                id: wire.0,
                properties: wire::named(wire.1@),
                children,
            }),
            Err(reason) => r matches Err(e) && e@ == reason,
        },
{
    match parse_layouts(wire.2) {
        Ok(children) => {
            let node = LayoutNode(wire.0, wire.1, children);
            assert(node_view(node).children =~= children.deep_view());
            Ok(node)
        },
        Err(e) => Err(e),
    }
}

/// What is said of a property that has another type than the one asked for.
pub open spec fn refused_property(name: Seq<char>) -> Seq<char> {
    because("invalid "@ + name + " property"@, wire::wrong_type())
}

fn refuse_property(name: &str) -> (r: String)
    ensures
        r@ == refused_property(name@),
{
    let s = text::concat("invalid ", name);
    let s = text::concat(s.as_str(), " property");
    explain(s.as_str(), "incorrect type")
}

/// The text of a property, if there is such a property.
pub open spec fn property_text(
    properties: Seq<(Seq<char>, WireValue)>,
    name: Seq<char>,
) -> Result<Option<Seq<char>>, Seq<char>> {
    match wire::property(properties, name) {
        None => Ok(None),
        Some(v) => match wire::text_of(v) {
            Some(s) => Ok(Some(s)),
            None => Err(refused_property(name)),
        },
    }
}

/// The text of a property, if there is such a property.
pub fn string_property(properties: &Properties, name: &str) -> (r: Result<Option<String>, String>)
    ensures
        match property_text(wire::named(properties@), name@) {
            Ok(text) => r matches Ok(t) && t.deep_view() == text,
            Err(reason) => r matches Err(e) && e@ == reason,
        },
{
    match wire::get_property(properties, name) {
        None => Ok(None),
        Some(v) => match wire::as_text(v) {
            Some(s) => Ok(Some(s.dup())),
            None => Err(refuse_property(name)),
        },
    }
}

/// The truth value of a property, if there is such a property.
pub open spec fn property_flag(
    properties: Seq<(Seq<char>, WireValue)>,
    name: Seq<char>,
) -> Result<Option<bool>, Seq<char>> {
    match wire::property(properties, name) {
        None => Ok(None),
        Some(v) => match wire::flag_of(v) {
            Some(b) => Ok(Some(b)),
            None => Err(refused_property(name)),
        },
    }
}

/// The truth value of a property, if there is such a property.
pub fn bool_property(properties: &Properties, name: &str) -> (r: Result<Option<bool>, String>)
    ensures
        match property_flag(wire::named(properties@), name@) {
            Ok(flag) => r == Ok::<Option<bool>, String>(flag),
            Err(reason) => r matches Err(e) && e@ == reason,
        },
{
    match wire::get_property(properties, name) {
        None => Ok(None),
        Some(v) => match wire::as_flag(v) {
            Some(b) => Ok(Some(b)),
            None => Err(refuse_property(name)),
        },
    }
}

/// The type of item that a text names.
pub open spec fn item_type_of(name: Seq<char>) -> MenuItemTypeView {
    if name == "separator"@ {
        MenuItemTypeView::Separator
    } else if name == "standard"@ || name == ""@ {
        MenuItemTypeView::Standard
    } else {
        MenuItemTypeView::Unknown(name)
    }
}

fn named_item_type(name: String) -> (r: MenuItemType)
    ensures
        r.deep_view() == item_type_of(name@),
{
    if value::is_text(&name, "separator") {
        MenuItemType::Separator
    } else if value::is_text(&name, "standard") || value::is_text(&name, "") {
        MenuItemType::Standard
    } else {
        MenuItemType::Unknown(name)
    }
}

/// The way to show children that a text names.
pub open spec fn children_display_of(name: Seq<char>) -> ChildrenDisplayView {
    if name == "submenu"@ {
        ChildrenDisplayView::Submenu
    } else {
        ChildrenDisplayView::Unknown(name)
    }
}

fn named_children_display(name: String) -> (r: ChildrenDisplay)
    ensures
        r.deep_view() == children_display_of(name@),
{
    if value::is_text(&name, "submenu") {
        ChildrenDisplay::Submenu
    } else {
        ChildrenDisplay::Unknown(name)
    }
}

/// The shortcut of an item, if it has one.
pub open spec fn property_shortcut(
    id: i32,
    properties: Seq<(Seq<char>, WireValue)>,
) -> Result<Option<MenuShortcutView>, Seq<char>> {
    match wire::property(properties, "shortcut"@) {
        None => Ok(None),
        Some(v) => match wire::keys_of(v) {
            Some(keys) => Ok(Some(MenuShortcutView { keys })),
            None => Err(
                because(
                    "invalid shortcut for item "@ + text::signed_decimal(id as int),
                    wire::wrong_type(),
                ),
            ),
        },
    }
}

fn shortcut_property(id: i32, properties: &Properties) -> (r: Result<Option<MenuShortcut>, String>)
    ensures
        match property_shortcut(id, wire::named(properties@)) {
            Ok(shortcut) => r matches Ok(s) && s.deep_view() == shortcut,
            Err(reason) => r matches Err(e) && e@ == reason,
        },
{
    match wire::get_property(properties, "shortcut") {
        None => Ok(None),
        Some(v) => match wire::as_keys(v) {
            Some(keys) => Ok(Some(MenuShortcut { keys })),
            None => {
                let number = text::format_signed(id as i64);
                let what = text::concat("invalid shortcut for item ", number.as_str());
                Err(explain(what.as_str(), "incorrect type"))
            },
        },
    }
}

/// The item that a node stands for, without its children.
pub open spec fn childless_item_of(node: LayoutNodeView) -> Result<MenuItemView, Seq<char>> {
    match property_text(node.properties, "label"@) {
        Err(reason) => Err(reason),
        Ok(label) => match property_flag(node.properties, "enabled"@) {
            Err(reason) => Err(reason),
            Ok(enabled) => match property_flag(node.properties, "visible"@) {
                Err(reason) => Err(reason),
                Ok(visible) => match property_text(node.properties, "type"@) {
                    Err(reason) => Err(reason),
                    Ok(item_type) => match property_text(node.properties, "children-display"@) {
                        Err(reason) => Err(reason),
                        Ok(display) => match property_shortcut(node.id, node.properties) {
                            Err(reason) => Err(reason),
                            Ok(shortcut) => match property_text(node.properties, "icon-name"@) {
                                Err(reason) => Err(reason),
                                Ok(icon_name) => Ok(
                                    MenuItemView {
                                        id: MenuItemId(node.id),
                                        label,
                                        enabled: if let Some(b) = enabled { b } else { true },
                                        visible: if let Some(b) = visible { b } else { true },
                                        item_type: if let Some(name) = item_type {
                                            item_type_of(name)
                                        } else {
                                            MenuItemTypeView::Standard
                                        },
                                        children_display: if let Some(name) = display {
                                            Some(children_display_of(name))
                                        } else {
                                            None
                                        },
                                        shortcut,
                                        icon_name,
                                        action: None,
                                        children: Seq::empty(),
                                    },
                                ),
                            },
                        },
                    },
                },
            },
        },
    }
}

/// The item that a node stands for.
pub open spec fn item_of(node: LayoutNodeView) -> Result<MenuItemView, Seq<char>>
    decreases node, 0nat,
{
    match childless_item_of(node) {
        Err(reason) => Err(reason),
        Ok(item) => match items_of(node.children) {
            Err(reason) => Err(reason),
            Ok(children) => Ok(MenuItemView { children, ..item }),
        },
    }
}

/// The items that nodes stand for, or why the first one that is refused is refused.
pub open spec fn items_of(nodes: Seq<LayoutNodeView>) -> Result<Seq<MenuItemView>, Seq<char>>
    decreases nodes, nodes.len(),
{
    if nodes.len() == 0 {
        Ok(Seq::empty())
    } else {
        match item_of(nodes[0]) {
            Err(reason) => Err(reason),
            Ok(first) => match items_of(nodes.skip(1)) {
                Err(reason) => Err(reason),
                Ok(rest) => Ok(seq![first] + rest),
            },
        }
    }
}

proof fn lemma_items_at(nodes: Seq<LayoutNodeView>, items: Seq<MenuItemView>, at: int)
    requires
        0 <= at <= nodes.len(),
        items.len() == at,
        forall|i: int|
            0 <= i < at ==> item_of(#[trigger] nodes[i]) == Ok::<MenuItemView, Seq<char>>(items[i]),
    ensures
        at == nodes.len() ==> items_of(nodes) == Ok::<Seq<MenuItemView>, Seq<char>>(items),
        at < nodes.len() ==> (item_of(nodes[at]) matches Err(reason) ==> items_of(nodes) == Err::<
            Seq<MenuItemView>,
            Seq<char>,
        >(reason)),
    decreases at,
{
    if at > 0 {
        assert(item_of(nodes[0]) == Ok::<MenuItemView, Seq<char>>(items[0]));
        assert forall|i: int| 0 <= i < at - 1 implies item_of(#[trigger] nodes.skip(1)[i]) == Ok::<
            MenuItemView,
            Seq<char>,
        >(items.skip(1)[i]) by {
            assert(item_of(nodes[i + 1]) == Ok::<MenuItemView, Seq<char>>(items[i + 1]));
        }
        lemma_items_at(nodes.skip(1), items.skip(1), at - 1);
        assert(seq![items[0]] + items.skip(1) =~= items);
    } else {
        assert(items =~= Seq::<MenuItemView>::empty());
    }
}

fn convert_childless_item(id: i32, properties: &Properties) -> (r: Result<MenuItem, String>)
    ensures
        match childless_item_of(
            LayoutNodeView { id, properties: wire::named(properties@), children: Seq::empty() },
        ) {
            Ok(item) => r matches Ok(i) && i.deep_view() == item && i.children@.len() == 0,
            Err(reason) => r matches Err(e) && e@ == reason,
        },
{
    let label = match string_property(properties, "label") {
        Ok(label) => label,
        Err(e) => {
            return Err(e);
        },
    };
    let enabled = match bool_property(properties, "enabled") {
        Ok(Some(enabled)) => enabled,
        Ok(None) => true,
        Err(e) => {
            return Err(e);
        },
    };
    let visible = match bool_property(properties, "visible") {
        Ok(Some(visible)) => visible,
        Ok(None) => true,
        Err(e) => {
            return Err(e);
        },
    };
    let item_type = match string_property(properties, "type") {
        Ok(Some(name)) => named_item_type(name),
        Ok(None) => MenuItemType::Standard,
        Err(e) => {
            return Err(e);
        },
    };
    let children_display = match string_property(properties, "children-display") {
        Ok(Some(name)) => Some(named_children_display(name)),
        Ok(None) => None,
        Err(e) => {
            return Err(e);
        },
    };
    let shortcut = match shortcut_property(id, properties) {
        Ok(shortcut) => shortcut,
        Err(e) => {
            return Err(e);
        },
    };
    let icon_name = match string_property(properties, "icon-name") {
        Ok(icon_name) => icon_name,
        Err(e) => {
            return Err(e);
        },
    };
    let item = MenuItem {
        id: MenuItemId(id),
        label,
        enabled,
        visible,
        item_type,
        children_display,
        shortcut,
        icon_name,
        action: None,
        children: Vec::new(),
    };
    proof {
        menu::lemma_item_children(item);
        assert(item.children.deep_view() =~= Seq::<MenuItemView>::empty());
    }
    Ok(item)
}

/// The item that a node stands for.
pub fn convert_item(raw: LayoutNode) -> (r: Result<MenuItem, String>)
    ensures
        match item_of(raw.deep_view()) {
            Ok(item) => r matches Ok(i) && i.deep_view() == item,
            Err(reason) => r matches Err(e) && e@ == reason,
        },
    decreases raw,
{
    assert(node_view(raw).children =~= raw.2.deep_view());
    let LayoutNode(id, properties, children) = raw;
    match convert_childless_item(id, &properties) {
        Ok(item) => match convert_items(children) {
            Ok(children) => {
                let ghost childless = item;
                let converted = MenuItem { children, ..item };
                proof {
                    menu::lemma_item_children(childless);
                    menu::lemma_item_children(converted);
                }
                Ok(converted)
            },
            Err(e) => Err(e),
        },
        Err(e) => Err(e),
    }
}

fn convert_items(nodes: Vec<LayoutNode>) -> (r: Result<Vec<MenuItem>, String>)
    ensures
        match items_of(nodes.deep_view()) {
            Ok(items) => r matches Ok(i) && i.deep_view() == items,
            Err(reason) => r matches Err(e) && e@ == reason,
        },
    decreases nodes,
{
    let ghost all = nodes@;
    let ghost model = nodes.deep_view();
    let mut rest = nodes;
    let mut items: Vec<MenuItem> = Vec::new();
    let ghost mut i: int = 0;
    assert(all.skip(0) =~= all);
    while rest.len() > 0
        invariant
            0 <= i <= all.len(),
            all == nodes@,
            model == nodes.deep_view(),
            model.len() == all.len(),
            rest@ == all.skip(i),
            items.deep_view().len() == i,
            forall|j: int|
                0 <= j < i ==> item_of(#[trigger] model[j]) == Ok::<MenuItemView, Seq<char>>(
                    items.deep_view()[j],
                ),
        decreases rest.len(),
    {
        let ghost before = items.deep_view();
        let node = rest.remove(0);
        assert(node == nodes[i]);
        assert(model[i] == node.deep_view());
        assert(rest@ =~= all.skip(i + 1));
        match convert_item(node) {
            Ok(item) => {
                lists::push(&mut items, item);
            },
            Err(reason) => {
                proof {
                    lemma_items_at(model, before, i);
                }
                return Err(reason);
            },
        }
        proof {
            i = i + 1;
        }
    }
    proof {
        lemma_items_at(model, items.deep_view(), i);
    }
    Ok(items)
}

/// The menu that a layout stands for.
pub fn convert_layout(revision: u32, layout: LayoutNode) -> (r: Result<MenuModel, String>)
    ensures
        match item_of(layout.deep_view()) {
            Ok(root) => r matches Ok(model) && model.deep_view() == (MenuModelView {
                revision,
                root,
            }),
            Err(reason) => r matches Err(e) && e@ == reason,
        },
{
    match convert_item(layout) {
        Ok(root) => Ok(MenuModel { revision, root }),
        Err(e) => Err(e),
    }
}

/// What a function gives of the elements of a sequence, or why the first one that is refused is
/// refused.
pub open spec fn collected<A, B>(
    elements: Seq<A>,
    f: spec_fn(A) -> Result<Option<B>, Seq<char>>,
) -> Result<Seq<B>, Seq<char>>
    decreases elements.len(),
{
    if elements.len() == 0 {
        Ok(Seq::empty())
    } else {
        match collected(elements.drop_last(), f) {
            Err(reason) => Err(reason),
            Ok(before) => match f(elements.last()) {
                Err(reason) => Err(reason),
                Ok(Some(b)) => Ok(before.push(b)),
                Ok(None) => Ok(before),
            },
        }
    }
}

proof fn lemma_collected_prefix<A, B>(
    elements: Seq<A>,
    f: spec_fn(A) -> Result<Option<B>, Seq<char>>,
    n: int,
)
    requires
        0 <= n <= elements.len(),
        collected(elements.take(n), f) is Err,
    ensures
        collected(elements, f) == collected(elements.take(n), f),
    decreases elements.len(),
{
    if n < elements.len() {
        assert(elements.drop_last().take(n) =~= elements.take(n));
        lemma_collected_prefix(elements.drop_last(), f, n);
    } else {
        assert(elements.take(n) =~= elements);
    }
}

proof fn lemma_collected_step<A, B>(
    elements: Seq<A>,
    f: spec_fn(A) -> Result<Option<B>, Seq<char>>,
    i: int,
)
    requires
        0 <= i < elements.len(),
    ensures
        collected(elements.take(i + 1), f) == (match collected(elements.take(i), f) {
            Err(reason) => Err(reason),
            Ok(before) => match f(elements[i]) {
                Err(reason) => Err(reason),
                Ok(Some(b)) => Ok(before.push(b)),
                Ok(None) => Ok(before),
            },
        }),
{
    assert(elements.take(i + 1).drop_last() =~= elements.take(i));
    assert(elements.take(i + 1).last() == elements[i]);
}

/// The change that a new value of a property stands for; a property of another name changes nothing.
pub open spec fn update_of(property: (Seq<char>, WireValue)) -> Result<
    Option<MenuPropertyUpdateView>,
    Seq<char>,
> {
    let (name, v) = property;
    let refused = because("invalid "@ + name, wire::wrong_type());
    if name == "label"@ {
        match wire::text_of(v) {
            Some(s) => Ok(Some(MenuPropertyUpdateView::Label(Some(s)))),
            None => Err(refused),
        }
    } else if name == "enabled"@ {
        match wire::flag_of(v) {
            Some(b) => Ok(Some(MenuPropertyUpdateView::Enabled(b))),
            None => Err(refused),
        }
    } else if name == "visible"@ {
        match wire::flag_of(v) {
            Some(b) => Ok(Some(MenuPropertyUpdateView::Visible(b))),
            None => Err(refused),
        }
    } else if name == "type"@ {
        match wire::text_of(v) {
            Some(s) => Ok(Some(MenuPropertyUpdateView::ItemType(item_type_of(s)))),
            None => Err(refused),
        }
    } else if name == "children-display"@ {
        match wire::text_of(v) {
            Some(s) => Ok(
                Some(MenuPropertyUpdateView::ChildrenDisplay(Some(children_display_of(s)))),
            ),
            None => Err(refused),
        }
    } else if name == "shortcut"@ {
        match wire::keys_of(v) {
            Some(keys) => Ok(
                Some(MenuPropertyUpdateView::Shortcut(Some(MenuShortcutView { keys }))),
            ),
            None => Err(refused),
        }
    } else if name == "icon-name"@ {
        match wire::text_of(v) {
            Some(s) => Ok(Some(MenuPropertyUpdateView::IconName(Some(s)))),
            None => Err(refused),
        }
    } else {
        Ok(None)
    }
}

fn convert_property(name: &String, v: &WireValue) -> (r: Result<Option<MenuPropertyUpdate>, String>)
    ensures
        match update_of((name@, *v)) {
            Ok(update) => r matches Ok(u) && u.deep_view() == update,
            Err(reason) => r matches Err(e) && e@ == reason,
        },
{
    let converted = if value::is_text(name, "label") {
        match wire::as_text(v) {
            Some(s) => Some(MenuPropertyUpdate::Label(Some(s.dup()))),
            None => None,
        }
    } else if value::is_text(name, "enabled") {
        match wire::as_flag(v) {
            Some(b) => Some(MenuPropertyUpdate::Enabled(b)),
            None => None,
        }
    } else if value::is_text(name, "visible") {
        match wire::as_flag(v) {
            Some(b) => Some(MenuPropertyUpdate::Visible(b)),
            None => None,
        }
    } else if value::is_text(name, "type") {
        match wire::as_text(v) {
            Some(s) => Some(MenuPropertyUpdate::ItemType(named_item_type(s.dup()))),
            None => None,
        }
    } else if value::is_text(name, "children-display") {
        match wire::as_text(v) {
            Some(s) => Some(
                MenuPropertyUpdate::ChildrenDisplay(Some(named_children_display(s.dup()))),
            ),
            None => None,
        }
    } else if value::is_text(name, "shortcut") {
        match wire::as_keys(v) {
            Some(keys) => Some(MenuPropertyUpdate::Shortcut(Some(MenuShortcut { keys }))),
            None => None,
        }
    } else if value::is_text(name, "icon-name") {
        match wire::as_text(v) {
            Some(s) => Some(MenuPropertyUpdate::IconName(Some(s.dup()))),
            None => None,
        }
    } else {
        return Ok(None);
    };
    match converted {
        Some(update) => Ok(Some(update)),
        None => {
            let what = text::concat("invalid ", name.as_str());
            Err(explain(what.as_str(), "incorrect type"))
        },
    }
}

/// The changes that new values of the properties of an item stand for.
pub open spec fn item_updates_of(entry: (i32, Seq<(Seq<char>, WireValue)>)) -> Result<
    Option<MenuItemPropertiesUpdateView>,
    Seq<char>,
> {
    match collected(entry.1, |p: (Seq<char>, WireValue)| update_of(p)) {
        Err(reason) => Err(reason),
        Ok(properties) => Ok(
            Some(MenuItemPropertiesUpdateView { item_id: MenuItemId(entry.0), properties }),
        ),
    }
}

fn convert_properties(properties: &Properties) -> (r: Result<Vec<MenuPropertyUpdate>, String>)
    ensures
        match collected(
            wire::named(properties@),
            |p: (Seq<char>, WireValue)| update_of(p),
        ) {
            Ok(updates) => r matches Ok(u) && u.deep_view() == updates,
            Err(reason) => r matches Err(e) && e@ == reason,
        },
{
    let ghost all = wire::named(properties@);
    let ghost f = |p: (Seq<char>, WireValue)| update_of(p);
    let mut updates: Vec<MenuPropertyUpdate> = Vec::new();
    let mut i: usize = 0;
    assert(all.take(0) =~= Seq::<(Seq<char>, WireValue)>::empty());
    assert(updates.deep_view() =~= Seq::<MenuPropertyUpdateView>::empty());
    while i < properties.len()
        invariant
            i <= properties.len(),
            all == wire::named(properties@),
            f == (|p: (Seq<char>, WireValue)| update_of(p)),
            collected(all.take(i as int), f) == Ok::<Seq<MenuPropertyUpdateView>, Seq<char>>(
                updates.deep_view(),
            ),
        decreases properties.len() - i,
    {
        proof {
            lemma_collected_step(all, f, i as int);
        }
        assert(all[i as int] == (properties[i as int].0@, properties[i as int].1));
        match convert_property(&properties[i].0, &properties[i].1) {
            Ok(Some(update)) => {
                lists::push(&mut updates, update);
            },
            Ok(None) => {},
            Err(e) => {
                proof {
                    lemma_collected_prefix(all, f, i + 1);
                }
                return Err(e);
            },
        }
        i += 1;
    }
    assert(all.take(i as int) =~= all);
    Ok(updates)
}

/// The change that the removal of a property stands for: the property has its default again.
pub open spec fn removal_of(name: Seq<char>) -> Option<MenuPropertyUpdateView> {
    if name == "label"@ {
        Some(MenuPropertyUpdateView::Label(None))
    } else if name == "enabled"@ {
        Some(MenuPropertyUpdateView::Enabled(true))
    } else if name == "visible"@ {
        Some(MenuPropertyUpdateView::Visible(true))
    } else if name == "type"@ {
        Some(MenuPropertyUpdateView::ItemType(MenuItemTypeView::Standard))
    } else if name == "children-display"@ {
        Some(MenuPropertyUpdateView::ChildrenDisplay(None))
    } else if name == "shortcut"@ {
        Some(MenuPropertyUpdateView::Shortcut(None))
    } else if name == "icon-name"@ {
        Some(MenuPropertyUpdateView::IconName(None))
    } else {
        None
    }
}

fn convert_removal(name: &String) -> (r: Option<MenuPropertyUpdate>)
    ensures
        r.deep_view() == removal_of(name@),
{
    if value::is_text(name, "label") {
        Some(MenuPropertyUpdate::Label(None))
    } else if value::is_text(name, "enabled") {
        Some(MenuPropertyUpdate::Enabled(true))
    } else if value::is_text(name, "visible") {
        Some(MenuPropertyUpdate::Visible(true))
    } else if value::is_text(name, "type") {
        Some(MenuPropertyUpdate::ItemType(MenuItemType::Standard))
    } else if value::is_text(name, "children-display") {
        Some(MenuPropertyUpdate::ChildrenDisplay(None))
    } else if value::is_text(name, "shortcut") {
        Some(MenuPropertyUpdate::Shortcut(None))
    } else if value::is_text(name, "icon-name") {
        Some(MenuPropertyUpdate::IconName(None))
    } else {
        None
    }
}

/// The changes that the removals of properties stand for.
pub open spec fn removals_of(names: Seq<Seq<char>>) -> Seq<MenuPropertyUpdateView>
    decreases names.len(),
{
    if names.len() == 0 {
        Seq::empty()
    } else {
        match removal_of(names.last()) {
            Some(update) => removals_of(names.drop_last()).push(update),
            None => removals_of(names.drop_last()),
        }
    }
}

fn convert_removals(names: &Vec<String>) -> (r: Vec<MenuPropertyUpdate>)
    ensures
        r.deep_view() == removals_of(names.deep_view()),
{
    let ghost all = names.deep_view();
    let mut updates: Vec<MenuPropertyUpdate> = Vec::new();
    let mut i: usize = 0;
    assert(all.take(0) =~= Seq::<Seq<char>>::empty());
    assert(updates.deep_view() =~= Seq::<MenuPropertyUpdateView>::empty());
    while i < names.len()
        invariant
            i <= names.len(),
            all == names.deep_view(),
            updates.deep_view() == removals_of(all.take(i as int)),
        decreases names.len() - i,
    {
        assert(all.take(i + 1).drop_last() =~= all.take(i as int));
        assert(all.take(i + 1).last() == names[i as int]@);
        match convert_removal(&names[i]) {
            Some(update) => {
                lists::push(&mut updates, update);
            },
            None => {},
        }
        i += 1;
    }
    assert(all.take(i as int) =~= all);
    updates
}

/// The changes that the removals of the properties of an item stand for.
pub open spec fn item_removals_of(entry: (i32, Seq<Seq<char>>)) -> MenuItemPropertiesUpdateView {
    MenuItemPropertiesUpdateView { item_id: MenuItemId(entry.0), properties: removals_of(entry.1) }
}

/// The new values of properties by item, by the text of their names.
pub open spec fn named_by_item(updated: Seq<(i32, Properties)>) -> Seq<
    (i32, Seq<(Seq<char>, WireValue)>),
> {
    updated.map_values(|entry: (i32, Properties)| (entry.0, wire::named(entry.1@)))
}

/// The changes that new values and removals of properties stand for: first the new values of each
/// item, then the removals of each item.
pub open spec fn property_updates_of(
    updated: Seq<(i32, Seq<(Seq<char>, WireValue)>)>,
    removed: Seq<(i32, Seq<Seq<char>>)>,
) -> Result<Seq<MenuItemPropertiesUpdateView>, Seq<char>> {
    match collected(updated, |e: (i32, Seq<(Seq<char>, WireValue)>)| item_updates_of(e)) {
        Err(reason) => Err(reason),
        Ok(updates) => Ok(
            updates + removed.map_values(|e: (i32, Seq<Seq<char>>)| item_removals_of(e)),
        ),
    }
}

fn convert_updated(updated: &Vec<(i32, Properties)>) -> (r: Result<
    Vec<MenuItemPropertiesUpdate>,
    String,
>)
    ensures
        match collected(
            named_by_item(updated@),
            |e: (i32, Seq<(Seq<char>, WireValue)>)| item_updates_of(e),
        ) {
            Ok(updates) => r matches Ok(u) && u.deep_view() == updates,
            Err(reason) => r matches Err(e) && e@ == reason,
        },
{
    let ghost all = named_by_item(updated@);
    let ghost f = |e: (i32, Seq<(Seq<char>, WireValue)>)| item_updates_of(e);
    let mut result: Vec<MenuItemPropertiesUpdate> = Vec::new();
    let mut i: usize = 0;
    assert(all.take(0) =~= Seq::<(i32, Seq<(Seq<char>, WireValue)>)>::empty());
    assert(result.deep_view() =~= Seq::<MenuItemPropertiesUpdateView>::empty());
    while i < updated.len()
        invariant
            i <= updated.len(),
            all == named_by_item(updated@),
            f == (|e: (i32, Seq<(Seq<char>, WireValue)>)| item_updates_of(e)),
            collected(all.take(i as int), f) == Ok::<Seq<MenuItemPropertiesUpdateView>, Seq<char>>(
                result.deep_view(),
            ),
        decreases updated.len() - i,
    {
        proof {
            lemma_collected_step(all, f, i as int);
        }
        assert(all[i as int] == (updated[i as int].0, wire::named(updated[i as int].1@)));
        match convert_properties(&updated[i].1) {
            Ok(properties) => {
                let update = MenuItemPropertiesUpdate {
                    item_id: MenuItemId(updated[i].0),
                    properties,
                };
                lists::push(&mut result, update);
            },
            Err(e) => {
                proof {
                    lemma_collected_prefix(all, f, i + 1);
                }
                return Err(e);
            },
        }
        i += 1;
    }
    assert(all.take(i as int) =~= all);
    Ok(result)
}

/// The changes that new values and removals of properties stand for.
pub fn convert_property_updates(
    updated: Vec<(i32, Properties)>,
    removed: Vec<(i32, Vec<String>)>,
) -> (r: Result<Vec<MenuItemPropertiesUpdate>, String>)
    ensures
        match property_updates_of(named_by_item(updated@), removed.deep_view()) {
            Ok(updates) => r matches Ok(u) && u.deep_view() == updates,
            Err(reason) => r matches Err(e) && e@ == reason,
        },
{
    let mut result = match convert_updated(&updated) {
        Ok(result) => result,
        Err(e) => {
            return Err(e);
        },
    };
    let ghost first = result.deep_view();
    let ghost all = removed.deep_view();
    let ghost f = |e: (i32, Seq<Seq<char>>)| item_removals_of(e);
    let mut i: usize = 0;
    assert(first + all.take(0).map_values(f) =~= first);
    while i < removed.len()
        invariant
            i <= removed.len(),
            all == removed.deep_view(),
            f == (|e: (i32, Seq<Seq<char>>)| item_removals_of(e)),
            result.deep_view() == first + all.take(i as int).map_values(f),
        decreases removed.len() - i,
    {
        assert(all[i as int] == (removed[i as int].0, removed[i as int].1.deep_view()));
        let update = MenuItemPropertiesUpdate {
            item_id: MenuItemId(removed[i].0),
            properties: convert_removals(&removed[i].1),
        };
        lists::push(&mut result, update);
        assert(first + all.take(i + 1).map_values(f) =~= (first + all.take(i as int).map_values(
            f,
        )).push(update.deep_view()));
        i += 1;
    }
    assert(all.take(i as int) =~= all);
    Ok(result)
}

/// The ids of a node and of all nodes below it, from top to bottom.
pub open spec fn ids_of(node: LayoutNodeView) -> Seq<MenuItemId>
    decreases node, 0nat,
{
    seq![MenuItemId(node.id)] + ids_in(node.children)
}

/// The ids of nodes and of all nodes below them, from top to bottom.
pub open spec fn ids_in(nodes: Seq<LayoutNodeView>) -> Seq<MenuItemId>
    decreases nodes, nodes.len(),
{
    if nodes.len() == 0 {
        Seq::empty()
    } else {
        ids_of(nodes[0]) + ids_in(nodes.skip(1))
    }
}

/// A menu has the items of the layout that it was made of, all of them and in their order.
pub proof fn lemma_menu_has_all_items(node: LayoutNodeView)
    ensures
        item_of(node) matches Ok(item) ==> tree::ids_of(item) == ids_of(node),
    decreases node, 0nat,
{
    lemma_menus_have_all_items(node.children);
}

proof fn lemma_menus_have_all_items(nodes: Seq<LayoutNodeView>)
    ensures
        items_of(nodes) matches Ok(items) ==> tree::ids_in(items) == ids_in(nodes),
    decreases nodes, nodes.len(),
{
    if nodes.len() > 0 {
        lemma_menu_has_all_items(nodes[0]);
        lemma_menus_have_all_items(nodes.skip(1));
        if items_of(nodes) is Ok {
            let items = items_of(nodes)->Ok_0;
            assert(items.skip(1) =~= items_of(nodes.skip(1))->Ok_0);
        }
    }
}

proof fn lemma_names_differ()
    ensures
        "label"@.len() == 5,
        "enabled"@.len() == 7,
        "visible"@.len() == 7,
        "enabled"@ != "visible"@,
        "type"@.len() == 4,
        "children-display"@.len() == 16,
        "shortcut"@.len() == 8,
        "icon-name"@.len() == 9,
{
    reveal_strlit("label");
    reveal_strlit("enabled");
    reveal_strlit("visible");
    reveal_strlit("type");
    reveal_strlit("children-display");
    reveal_strlit("shortcut");
    reveal_strlit("icon-name");
    assert("enabled"@[0] != "visible"@[0]);
}

/// A node with a property set, whatever it was before.
pub open spec fn with_set(node: LayoutNodeView, set: (Seq<char>, WireValue)) -> LayoutNodeView {
    LayoutNodeView { properties: seq![set] + node.properties, ..node }
}

/// A node without a property.
pub open spec fn with_unset(node: LayoutNodeView, name: Seq<char>) -> LayoutNodeView {
    LayoutNodeView { properties: wire::without(node.properties, name), ..node }
}

/// What an item looks like is what the properties of its node say: where it is shown and can be used
/// unless they say that it is not, and has a label, a type, a way to show its children and an icon by
/// their names.
pub proof fn lemma_item_looks_as_laid_out(node: LayoutNodeView)
    ensures
        childless_item_of(node) matches Ok(item) ==> {
            &&& item.id == MenuItemId(node.id)
            &&& item.visible <==> wire::property(node.properties, "visible"@) != Some(
                WireValue::Bool(false),
            )
            &&& item.enabled <==> wire::property(node.properties, "enabled"@) != Some(
                WireValue::Bool(false),
            )
            &&& match wire::property(node.properties, "label"@) {
                Some(v) => v matches WireValue::Str(s) && item.label == Some(s@),
                None => item.label is None,
            }
            &&& match wire::property(node.properties, "icon-name"@) {
                Some(v) => v matches WireValue::Str(s) && item.icon_name == Some(s@),
                None => item.icon_name is None,
            }
            &&& match wire::property(node.properties, "type"@) {
                Some(v) => v matches WireValue::Str(s) && (item.item_type
                    == MenuItemTypeView::Separator <==> s@ == "separator"@) && (item.item_type
                    == MenuItemTypeView::Standard <==> (s@ == "standard"@ || s@.len() == 0)),
                None => item.item_type == MenuItemTypeView::Standard,
            }
            &&& match wire::property(node.properties, "children-display"@) {
                Some(v) => v matches WireValue::Str(s) && item.children_display is Some && (
                item.children_display == Some(ChildrenDisplayView::Submenu) <==> s@ == "submenu"@),
                None => item.children_display is None,
            }
            &&& item.shortcut is Some <==> wire::property(node.properties, "shortcut"@) is Some
            &&& item.action is None
        },
{
    reveal_strlit("");
    reveal_strlit("separator");
    reveal_strlit("standard");
    assert("separator"@[1] != "standard"@[1]);
    match wire::property(node.properties, "type"@) {
        Some(WireValue::Str(s)) => {
            if s@.len() == 0 {
                assert(s@ =~= ""@);
            }
        },
        _ => {},
    }
}

/// A node is refused only where one of the properties that are looked at has the wrong type.
pub proof fn lemma_item_is_refused_for_types(node: LayoutNodeView)
    requires
        wire::property(node.properties, "label"@) matches Some(v) ==> v is Str,
        wire::property(node.properties, "enabled"@) matches Some(v) ==> v is Bool,
        wire::property(node.properties, "visible"@) matches Some(v) ==> v is Bool,
        wire::property(node.properties, "type"@) matches Some(v) ==> v is Str,
        wire::property(node.properties, "children-display"@) matches Some(v) ==> v is Str,
        wire::property(node.properties, "icon-name"@) matches Some(v) ==> v is Str,
        wire::property(node.properties, "shortcut"@) is None,
    ensures
        childless_item_of(node) is Ok,
{
}

/// An update and a layout agree: the item of a node with the update of a property is the item of the
/// node in which the property is set, and an update that is refused is refused in a layout too.
pub proof fn lemma_update_agrees_with_layout(
    node: LayoutNodeView,
    set: (Seq<char>, WireValue),
)
    requires
        childless_item_of(node) is Ok,
    ensures
        ({
            let item = childless_item_of(node)->Ok_0;
            match update_of(set) {
                Ok(Some(update)) => childless_item_of(with_set(node, set)) == Ok::<
                    MenuItemView,
                    Seq<char>,
                >(tree::with_property(item, update)),
                Ok(None) => childless_item_of(with_set(node, set)) == Ok::<MenuItemView, Seq<char>>(
                    item,
                ),
                Err(_) => childless_item_of(with_set(node, set)) is Err,
            }
        }),
{
    lemma_names_differ();
    wire::lemma_property_in_front(node.properties, set, "label"@);
    wire::lemma_property_in_front(node.properties, set, "enabled"@);
    wire::lemma_property_in_front(node.properties, set, "visible"@);
    wire::lemma_property_in_front(node.properties, set, "type"@);
    wire::lemma_property_in_front(node.properties, set, "children-display"@);
    wire::lemma_property_in_front(node.properties, set, "shortcut"@);
    wire::lemma_property_in_front(node.properties, set, "icon-name"@);
}

/// A removal and a layout agree: the item of a node with the removal of a property is the item of the
/// node without the property.
pub proof fn lemma_removal_agrees_with_layout(node: LayoutNodeView, name: Seq<char>)
    requires
        childless_item_of(node) is Ok,
    ensures
        ({
            let item = childless_item_of(node)->Ok_0;
            childless_item_of(with_unset(node, name)) == Ok::<MenuItemView, Seq<char>>(
                match removal_of(name) {
                    Some(update) => tree::with_property(item, update),
                    None => item,
                },
            )
        }),
{
    lemma_names_differ();
    wire::lemma_property_removed(node.properties, name, "label"@);
    wire::lemma_property_removed(node.properties, name, "enabled"@);
    wire::lemma_property_removed(node.properties, name, "visible"@);
    wire::lemma_property_removed(node.properties, name, "type"@);
    wire::lemma_property_removed(node.properties, name, "children-display"@);
    wire::lemma_property_removed(node.properties, name, "shortcut"@);
    wire::lemma_property_removed(node.properties, name, "icon-name"@);
}

/// An update that shows, hides, enables or disables an item leaves it so.
pub proof fn lemma_flag_updates_are_taken(item: MenuItemView, flag: bool)
    ensures
        update_of(("visible"@, WireValue::Bool(flag))) matches Ok(Some(update)) && ({
            let after = tree::with_property(item, update);
            after.visible == flag && after.enabled == item.enabled && after.label == item.label
        }),
        update_of(("enabled"@, WireValue::Bool(flag))) matches Ok(Some(update)) && ({
            let after = tree::with_property(item, update);
            after.enabled == flag && after.visible == item.visible && after.label == item.label
        }),
{
    lemma_names_differ();
}

/// A node with properties set one after the other.
pub open spec fn with_all_set(
    node: LayoutNodeView,
    properties: Seq<(Seq<char>, WireValue)>,
) -> LayoutNodeView
    decreases properties.len(),
{
    if properties.len() == 0 {
        node
    } else {
        with_set(with_all_set(node, properties.drop_last()), properties.last())
    }
}

/// The updates of an item and a layout agree: the item of a node with the updates is the item of the
/// node in which all the properties are set.
pub proof fn lemma_updates_agree_with_layout(
    node: LayoutNodeView,
    id: i32,
    properties: Seq<(Seq<char>, WireValue)>,
)
    requires
        childless_item_of(node) is Ok,
    ensures
        item_updates_of((id, properties)) matches Ok(update) ==> update is Some && (
        update->0).item_id == MenuItemId(id) && childless_item_of(with_all_set(node, properties))
            == Ok::<MenuItemView, Seq<char>>(
            tree::with_properties(childless_item_of(node)->Ok_0, (update->0).properties),
        ),
    decreases properties.len(),
{
    let f = |p: (Seq<char>, WireValue)| update_of(p);
    if properties.len() > 0 {
        let before = properties.drop_last();
        lemma_updates_agree_with_layout(node, id, before);
        if collected(properties, f) is Ok {
            lemma_update_agrees_with_layout(with_all_set(node, before), properties.last());
            let updates = collected(before, f)->Ok_0;
            match update_of(properties.last()) {
                Ok(Some(update)) => {
                    assert(updates.push(update).drop_last() =~= updates);
                },
                _ => {},
            }
        }
    }
}

/// Each item of which values or removals are told has its updates, in the order in which they are told:
/// first the values and then the removals.
pub proof fn lemma_updates_name_their_items(
    updated: Seq<(i32, Seq<(Seq<char>, WireValue)>)>,
    removed: Seq<(i32, Seq<Seq<char>>)>,
)
    ensures
        property_updates_of(updated, removed) matches Ok(updates) ==> {
            &&& updates.len() == updated.len() + removed.len()
            &&& forall|i: int|
                0 <= i < updated.len() ==> (#[trigger] updates[i]).item_id == MenuItemId(
                    updated[i].0,
                ) && item_updates_of(updated[i]) == Ok::<
                    Option<MenuItemPropertiesUpdateView>,
                    Seq<char>,
                >(Some(updates[i]))
            &&& forall|j: int|
                0 <= j < removed.len() ==> (#[trigger] updates[updated.len() + j]).item_id
                    == MenuItemId(removed[j].0)
        },
{
    lemma_collected_updates(updated);
}

proof fn lemma_collected_updates(updated: Seq<(i32, Seq<(Seq<char>, WireValue)>)>)
    ensures
        collected(updated, |e: (i32, Seq<(Seq<char>, WireValue)>)| item_updates_of(e)) matches Ok(
            updates,
        ) ==> {
            &&& updates.len() == updated.len()
            &&& forall|i: int|
                0 <= i < updated.len() ==> (#[trigger] updates[i]).item_id == MenuItemId(
                    updated[i].0,
                ) && item_updates_of(updated[i]) == Ok::<
                    Option<MenuItemPropertiesUpdateView>,
                    Seq<char>,
                >(Some(updates[i]))
        },
    decreases updated.len(),
{
    if updated.len() > 0 {
        lemma_collected_updates(updated.drop_last());
    }
}

/// The children of an item are those of its node, one for one and in order.
pub proof fn lemma_children_are_kept(node: LayoutNodeView)
    ensures
        item_of(node) matches Ok(item) ==> {
            &&& childless_item_of(node) is Ok
            &&& item == (MenuItemView { children: item.children, ..childless_item_of(node)->Ok_0 })
            &&& item.children.len() == node.children.len()
            &&& forall|i: int|
                0 <= i < node.children.len() ==> item_of(#[trigger] node.children[i]) == Ok::<
                    MenuItemView,
                    Seq<char>,
                >(item.children[i])
        },
{
    lemma_items_one_for_one(node.children);
}

proof fn lemma_items_one_for_one(nodes: Seq<LayoutNodeView>)
    ensures
        items_of(nodes) matches Ok(items) ==> {
            &&& items.len() == nodes.len()
            &&& forall|i: int|
                0 <= i < nodes.len() ==> item_of(#[trigger] nodes[i]) == Ok::<
                    MenuItemView,
                    Seq<char>,
                >(items[i])
        },
    decreases nodes.len(),
{
    if nodes.len() > 0 {
        lemma_items_one_for_one(nodes.skip(1));
        if items_of(nodes) is Ok {
            let items = items_of(nodes)->Ok_0;
            assert forall|i: int| 0 <= i < nodes.len() implies item_of(#[trigger] nodes[i]) == Ok::<
                MenuItemView,
                Seq<char>,
            >(items[i]) by {
                if i > 0 {
                    assert(nodes.skip(1)[i - 1] == nodes[i]);
                }
            }
        }
    }
}

/// A structure of a number, a dictionary and an array is a node with that number, and with the nodes of
/// the elements of the array, one for one and in order.
pub proof fn lemma_layout_is_kept(v: WireValue)
    ensures
        layout_of(v) matches Ok(node) ==> (wire::unwrapped_once(v) matches WireValue::Structure(
            fields,
        ) && fields@.len() == 3 && fields[0] == WireValue::I32(node.id) && fields[1] is Dict && (
        fields[2] matches WireValue::Array(elements) && elements@.len() == node.children.len()
            && forall|i: int|
            0 <= i < elements@.len() ==> layout_of(#[trigger] elements@[i]) == Ok::<
                LayoutNodeView,
                Seq<char>,
            >(node.children[i]))),
{
    match wire::unwrapped_once(v) {
        WireValue::Structure(fields) => {
            if fields@.len() == 3 {
                match fields[2] {
                    WireValue::Array(elements) => {
                        lemma_layouts_one_for_one(elements@);
                    },
                    _ => {},
                }
            }
        },
        _ => {},
    }
}

proof fn lemma_layouts_one_for_one(values: Seq<WireValue>)
    ensures
        layouts_of(values) matches Ok(nodes) ==> {
            &&& nodes.len() == values.len()
            &&& forall|i: int|
                0 <= i < values.len() ==> layout_of(#[trigger] values[i]) == Ok::<
                    LayoutNodeView,
                    Seq<char>,
                >(nodes[i])
        },
    decreases values.len(),
{
    if values.len() > 0 {
        lemma_layouts_one_for_one(values.skip(1));
        if layouts_of(values) is Ok {
            let nodes = layouts_of(values)->Ok_0;
            assert forall|i: int| 0 <= i < values.len() implies layout_of(#[trigger] values[i])
                == Ok::<LayoutNodeView, Seq<char>>(nodes[i]) by {
                if i > 0 {
                    assert(values.skip(1)[i - 1] == values[i]);
                }
            }
        }
    }
}

} // verus!
