//! The menus that an application exports with their actions, and the menu that they stand for.
use vstd::prelude::*;

use crate::dbus::wire;
use crate::dbus::wire::{Properties, WireValue};
use crate::domain::menu;
use crate::domain::menu::{
    ChildrenDisplay, ChildrenDisplayView, GtkMenuEndpoint, MenuAction, MenuActionTarget,
    MenuActionTargetView, MenuActionView, MenuItem, MenuItemId, MenuItemType, MenuItemTypeView,
    MenuItemView, MenuModel, MenuModelView,
};
use crate::lists;
use crate::seqs;
use crate::table::Table;
use crate::text;
use crate::value::Value;

verus! {

/// An entry of a menu, by its named values.
pub type RawItem = Properties;

/// A menu by its group, its number and its entries.
pub type RawMenu = (u32, u32, Vec<RawItem>);

/// The model of an entry: its values by the text of their names.
pub type Entry = Seq<(Seq<char>, WireValue)>;

/// The model of menus: the group, number and entries of each.
pub type Content = Seq<((u32, u32), Seq<Entry>)>;

/// The entries of a menu by the text of their names.
pub open spec fn entries_view(items: Seq<RawItem>) -> Seq<Entry> {
    items.map_values(|item: RawItem| wire::named(item@))
}

/// Menus by the text of the names in their entries.
pub open spec fn content_view(content: Seq<RawMenu>) -> Content {
    content.map_values(|m: RawMenu| ((m.0, m.1), entries_view(m.2@)))
}

/// The group and number of a menu that a value holds.
pub open spec fn pair_of(v: WireValue) -> Option<(u32, u32)> {
    match wire::unwrapped(v) {
        WireValue::Structure(fields) => if fields@.len() != 2 {
            None
        } else {
            match (wire::number_of(fields[0]), wire::number_of(fields[1])) {
                (Some(group), Some(menu)) => Some((group, menu)),
                _ => None,
            }
        },
        _ => None,
    }
}

fn pair(v: &WireValue) -> (r: Option<(u32, u32)>)
    ensures
        r == pair_of(*v),
{
    match wire::unwrap(v) {
        WireValue::Structure(fields) => {
            if fields.len() != 2 {
                None
            } else {
                match (wire::as_number(&fields[0]), wire::as_number(&fields[1])) {
                    (Some(group), Some(menu)) => Some((group, menu)),
                    _ => None,
                }
            }
        },
        _ => None,
    }
}

/// The menu that a property of an entry links to.
pub open spec fn link_named(item: Entry, name: Seq<char>) -> Option<
    (u32, u32),
> {
    match wire::property(item, name) {
        Some(v) => pair_of(v),
        None => None,
    }
}

fn get_link(item: &RawItem, name: &str) -> (r: Option<(u32, u32)>)
    ensures
        r == link_named(wire::named(item@), name@),
{
    match wire::get_property(item, name) {
        Some(v) => pair(v),
        None => None,
    }
}

/// The menu that an entry links to under a name, or under the name behind a colon where there is no
/// property of the bare name.
pub open spec fn link_of(item: Entry, name: Seq<char>) -> Option<(u32, u32)> {
    match wire::property(item, name) {
        Some(v) => pair_of(v),
        None => link_named(item, ":"@ + name),
    }
}

fn find_link(item: &RawItem, name: &str) -> (r: Option<(u32, u32)>)
    ensures
        r == link_of(wire::named(item@), name@),
{
    match wire::get_property(item, name) {
        Some(v) => pair(v),
        None => {
            let with_colon = text::concat(":", name);
            get_link(item, with_colon.as_str())
        },
    }
}

/// Whether an entry links to a menu.
pub open spec fn links_to(item: Entry, key: (u32, u32)) -> bool {
    ||| link_named(item, "submenu"@) == Some(key)
    ||| link_named(item, ":submenu"@) == Some(key)
    ||| link_named(item, "section"@) == Some(key)
    ||| link_named(item, ":section"@) == Some(key)
}

/// The entries of a menu: of two menus with one group and number, the later counts.
pub open spec fn menu_at(
    content: Content,
    key: (u32, u32),
) -> Option<Seq<Entry>>
    decreases content.len(),
{
    if content.len() == 0 {
        None
    } else if content.last().0 == key {
        Some(content.last().1)
    } else {
        menu_at(content.drop_last(), key)
    }
}

fn get_menu(content: &Vec<RawMenu>, key: (u32, u32)) -> (r: Option<&Vec<RawItem>>)
    ensures
        match menu_at(content_view(content@), key) {
            Some(items) => r matches Some(i) && entries_view(i@) == items,
            None => r is None,
        },
{
    let ghost all = content_view(content@);
    let mut n: usize = content.len();
    assert(all.take(n as int) =~= all);
    while n > 0
        invariant
            n <= content.len(),
            all == content_view(content@),
            menu_at(all, key) == menu_at(all.take(n as int), key),
        decreases n,
    {
        assert(all.take(n as int).drop_last() =~= all.take(n - 1));
        assert(all.take(n as int).last() == all[n - 1]);
        let menu = &content[n - 1];
        if menu.0 == key.0 && menu.1 == key.1 {
            return Some(&menu.2);
        }
        n -= 1;
    }
    None
}

proof fn lemma_menu_at(
    content: Content,
    key: (u32, u32),
)
    ensures
        menu_at(content, key) is Some <==> exists|i: int|
            0 <= i < content.len() && (#[trigger] content[i]).0 == key,
    decreases content.len(),
{
    if content.len() > 0 {
        lemma_menu_at(content.drop_last(), key);
        if content.last().0 == key {
            assert(content[content.len() - 1].0 == key);
        } else if menu_at(content, key) is Some {
            let i = choose|i: int|
                0 <= i < content.drop_last().len() && (#[trigger] content.drop_last()[i]).0 == key;
            assert(content[i].0 == key);
        } else {
            assert forall|i: int| 0 <= i < content.len() implies (#[trigger] content[i]).0
                != key by {
                if i < content.len() - 1 {
                    assert(content.drop_last()[i].0 != key);
                }
            }
        }
    }
}

/// Whether some menu has an entry that links to the menu of a key.
pub open spec fn is_referenced(
    content: Content,
    key: (u32, u32),
) -> bool {
    exists|from: (u32, u32), i: int| #[trigger] refers(content, from, i, key)
}

/// Whether the entry at an index of a menu links to the menu of a key.
pub open spec fn refers(
    content: Content,
    from: (u32, u32),
    i: int,
    key: (u32, u32),
) -> bool {
    menu_at(content, from) matches Some(items) && 0 <= i < items.len() && links_to(items[i], key)
}

/// Whether a menu is there to which no entry links.
pub open spec fn is_free(content: Content, key: (u32, u32)) -> bool {
    menu_at(content, key) is Some && !is_referenced(content, key)
}

/// The order of menus by group and number.
pub open spec fn key_le(a: (u32, u32), b: (u32, u32)) -> bool {
    a.0 < b.0 || (a.0 == b.0 && a.1 <= b.1)
}

/// The order of menus by the number of their entries, then by group and number.
pub open spec fn size_le(content: Content, a: (u32, u32), b: (u32, u32)) -> bool {
    let (size_a, size_b) = (menu_at(content, a)->0.len(), menu_at(content, b)->0.len());
    size_a < size_b || (size_a == size_b && key_le(a, b))
}

/// Whether a menu is the one to start from: the largest to which no entry links, or the last of all
/// where entries link to each of them.
pub open spec fn is_root(content: Content, key: (u32, u32)) -> bool {
    if exists|k: (u32, u32)| is_free(content, k) {
        is_free(content, key) && forall|k: (u32, u32)| #[trigger]
            is_free(content, k) ==> size_le(content, k, key)
    } else {
        menu_at(content, key) is Some && forall|k: (u32, u32)|
            (#[trigger] menu_at(content, k)) is Some ==> key_le(k, key)
    }
}

/// The menu to start from.
pub open spec fn root_of(content: Content) -> Option<(u32, u32)> {
    if content.len() == 0 {
        None
    } else {
        Some(choose|key: (u32, u32)| is_root(content, key))
    }
}

/// At most one menu is the one to start from.
pub proof fn lemma_root_unique(content: Content, a: (u32, u32), b: (u32, u32))
    requires
        is_root(content, a),
        is_root(content, b),
    ensures
        a == b,
{
    assert(menu_at(content, a) is Some);
    assert(menu_at(content, b) is Some);
    if exists|k: (u32, u32)| is_free(content, k) {
        assert(is_free(content, a) && is_free(content, b));
        assert(size_le(content, a, b) && size_le(content, b, a));
    } else {
        assert(key_le(a, b) && key_le(b, a));
    }
}

fn is_link(item: &RawItem, name: &str, key: (u32, u32)) -> (r: bool)
    ensures
        r == (link_named(wire::named(item@), name@) == Some(key)),
{
    match get_link(item, name) {
        Some(found) => found.0 == key.0 && found.1 == key.1,
        None => false,
    }
}

fn item_links_to(item: &RawItem, key: (u32, u32)) -> (r: bool)
    ensures
        r == links_to(wire::named(item@), key),
{
    is_link(item, "submenu", key) || is_link(item, ":submenu", key) || is_link(
        item,
        "section",
        key,
    ) || is_link(item, ":section", key)
}

fn any_links_to(items: &Vec<RawItem>, key: (u32, u32)) -> (r: bool)
    ensures
        r == exists|i: int| 0 <= i < items@.len() && links_to(#[trigger] entries_view(items@)[i], key),
{
    let mut i: usize = 0;
    while i < items.len()
        invariant
            i <= items.len(),
            forall|j: int| 0 <= j < i ==> !links_to(#[trigger] entries_view(items@)[j], key),
        decreases items.len() - i,
    {
        assert(entries_view(items@)[i as int] == wire::named(items[i as int]@));
        if item_links_to(&items[i], key) {
            return true;
        }
        i += 1;
    }
    false
}

fn referenced(content: &Vec<RawMenu>, key: (u32, u32)) -> (r: bool)
    ensures
        r == is_referenced(content_view(content@), key),
{
    let ghost all = content_view(content@);
    let mut j: usize = 0;
    while j < content.len()
        invariant
            j <= content.len(),
            all == content_view(content@),
            forall|k: int, i: int| 0 <= k < j ==> !#[trigger] refers(all, all[k].0, i, key),
        decreases content.len() - j,
    {
        let from = (content[j].0, content[j].1);
        assert(all[j as int].0 == from);
        if let Some(items) = get_menu(content, from) {
            if any_links_to(items, key) {
                proof {
                    let i = choose|i: int|
                        0 <= i < items@.len() && links_to(#[trigger] entries_view(items@)[i], key);
                    assert(refers(all, from, i, key));
                }
                return true;
            }
        }
        j += 1;
    }
    assert forall|from: (u32, u32), i: int| !#[trigger] refers(all, from, i, key) by {
        if refers(all, from, i, key) {
            lemma_menu_at(all, from);
            let k = choose|k: int| 0 <= k < all.len() && (#[trigger] all[k]).0 == from;
            assert(refers(all, all[k].0, i, key));
        }
    }
    false
}

fn key_not_after(a: (u32, u32), b: (u32, u32)) -> (r: bool)
    ensures
        r == key_le(a, b),
{
    a.0 < b.0 || (a.0 == b.0 && a.1 <= b.1)
}

fn menu_size(content: &Vec<RawMenu>, key: (u32, u32)) -> (r: usize)
    requires
        menu_at(content_view(content@), key) is Some,
    ensures
        r == menu_at(content_view(content@), key)->0.len(),
{
    match get_menu(content, key) {
        Some(items) => items.len(),
        None => 0,
    }
}

fn size_not_after(content: &Vec<RawMenu>, a: (u32, u32), b: (u32, u32)) -> (r: bool)
    requires
        menu_at(content_view(content@), a) is Some,
        menu_at(content_view(content@), b) is Some,
    ensures
        r == size_le(content_view(content@), a, b),
{
    let size_a: usize = menu_size(content, a);
    let size_b: usize = menu_size(content, b);
    size_a < size_b || (size_a == size_b && key_not_after(a, b))
}

fn largest_free(content: &Vec<RawMenu>) -> (r: Option<(u32, u32)>)
    ensures
        match r {
            Some(key) => is_free(content_view(content@), key) && forall|k: (u32, u32)| #[trigger]
                is_free(content_view(content@), k) ==> size_le(content_view(content@), k, key),
            None => forall|k: (u32, u32)| !#[trigger] is_free(content_view(content@), k),
        },
{
    let ghost all = content_view(content@);
    let mut best: Option<(u32, u32)> = None;
    let mut j: usize = 0;
    while j < content.len()
        invariant
            j <= content.len(),
            all == content_view(content@),
            match best {
                Some(key) => is_free(all, key) && forall|i: int|
                    0 <= i < j && is_free(all, (#[trigger] all[i]).0) ==> size_le(
                        all,
                        all[i].0,
                        key,
                    ),
                None => forall|i: int| 0 <= i < j ==> !is_free(all, (#[trigger] all[i]).0),
            },
        decreases content.len() - j,
    {
        let key = (content[j].0, content[j].1);
        assert(all[j as int].0 == key);
        proof {
            lemma_menu_at(all, key);
        }
        if !referenced(content, key) {
            match best {
                Some(old_best) => {
                    if size_not_after(content, old_best, key) {
                        best = Some(key);
                    }
                },
                None => {
                    best = Some(key);
                },
            }
        }
        j += 1;
    }
    assert forall|k: (u32, u32)| #[trigger] is_free(all, k) implies exists|i: int|
        0 <= i < all.len() && (#[trigger] all[i]).0 == k by {
        lemma_menu_at(all, k);
    }
    best
}

fn last_menu(content: &Vec<RawMenu>) -> (r: Option<(u32, u32)>)
    ensures
        match r {
            Some(key) => menu_at(content_view(content@), key) is Some && forall|k: (u32, u32)|
                (#[trigger] menu_at(content_view(content@), k)) is Some ==> key_le(k, key),
            None => content@.len() == 0,
        },
{
    let ghost all = content_view(content@);
    let mut best: Option<(u32, u32)> = None;
    let mut j: usize = 0;
    while j < content.len()
        invariant
            j <= content.len(),
            all == content_view(content@),
            match best {
                Some(key) => menu_at(all, key) is Some && forall|i: int|
                    0 <= i < j ==> key_le((#[trigger] all[i]).0, key),
                None => j == 0,
            },
        decreases content.len() - j,
    {
        let key = (content[j].0, content[j].1);
        assert(all[j as int].0 == key);
        proof {
            lemma_menu_at(all, key);
        }
        match best {
            Some(old_best) => {
                if key_not_after(old_best, key) {
                    best = Some(key);
                }
            },
            None => {
                best = Some(key);
            },
        }
        j += 1;
    }
    assert forall|k: (u32, u32)| (#[trigger] menu_at(all, k)) is Some implies exists|i: int|
        0 <= i < all.len() && (#[trigger] all[i]).0 == k by {
        lemma_menu_at(all, k);
    }
    best
}

/// The menu to start from.
pub fn root_menu(content: &Vec<RawMenu>) -> (r: Result<(u32, u32), String>)
    ensures
        match root_of(content_view(content@)) {
            Some(key) => r == Ok::<(u32, u32), String>(key) && is_root(content_view(content@), key),
            None => r matches Err(e) && e@ == "GMenu Start returned no menus"@,
        },
{
    let ghost all = content_view(content@);
    match largest_free(content) {
        Some(key) => {
            proof {
                assert(is_free(all, key));
                assert(is_root(all, key));
                lemma_menu_at(all, key);
                lemma_root_unique(all, key, root_of(all)->0);
            }
            Ok(key)
        },
        None => match last_menu(content) {
            Some(key) => {
                proof {
                    assert(is_root(all, key));
                    lemma_menu_at(all, key);
                    lemma_root_unique(all, key, root_of(all)->0);
                }
                Ok(key)
            },
            None => Err("GMenu Start returned no menus".to_owned()),
        },
    }
}

/// A number mixed into a running hash.
pub open spec fn mixed(hash: u32, value: u32) -> u32 {
    (hash ^ value).wrapping_mul(16777619)
}

/// The id of the entry at an index of a menu: a hash of the menu, the index and a salt, made positive.
pub open spec fn item_id_of(key: (u32, u32), index: usize, salt: u32) -> i32 {
    let hash = mixed(mixed(mixed(mixed(2166136261, key.0), key.1), index as u32), salt);
    if hash & 0x7fff_ffff == 0 {
        1
    } else {
        (hash & 0x7fff_ffff) as i32
    }
}

/// Every id of an entry is positive.
pub proof fn lemma_item_id_positive(key: (u32, u32), index: usize, salt: u32)
    ensures
        item_id_of(key, index, salt) >= 1,
{
    let hash = mixed(mixed(mixed(mixed(2166136261, key.0), key.1), index as u32), salt);
    assert(hash & 0x7fff_ffff <= 0x7fff_ffff) by (bit_vector);
}

fn item_id(key: (u32, u32), index: usize, salt: u32) -> (r: MenuItemId)
    ensures
        r == MenuItemId(item_id_of(key, index, salt)),
{
    let hash: u32 = (2166136261 ^ key.0).wrapping_mul(16777619);
    let hash: u32 = (hash ^ key.1).wrapping_mul(16777619);
    let hash: u32 = (hash ^ (index as u32)).wrapping_mul(16777619);
    let hash: u32 = (hash ^ salt).wrapping_mul(16777619);
    let low: u32 = hash & 0x7fff_ffff;
    assert(hash & 0x7fff_ffff <= 0x7fff_ffff) by (bit_vector);
    if low == 0 {
        MenuItemId(1)
    } else {
        MenuItemId(low as i32)
    }
}

/// The salt in the id of a separator.
pub const SEPARATOR_SALT: u32 = 0xffff_ffff;

/// The separator in front of the section at an index of a menu.
pub open spec fn separator_view(id: i32) -> MenuItemView {
    MenuItemView {
        id: MenuItemId(id),
        label: None,
        enabled: false,
        visible: true,
        item_type: MenuItemTypeView::Separator,
        children_display: None,
        shortcut: None,
        icon_name: None,
        action: None,
        children: Seq::empty(),
    }
}

fn separator(id: MenuItemId) -> (r: MenuItem)
    ensures
        r.deep_view() == separator_view(id.0),
{
    let item = MenuItem {
        id,
        label: None,
        enabled: false,
        visible: true,
        item_type: MenuItemType::Separator,
        children_display: None,
        shortcut: None,
        icon_name: None,
        action: None,
        children: Vec::new(),
    };
    proof {
        menu::lemma_item_children(item);
        assert(item.children.deep_view() =~= Seq::<MenuItemView>::empty());
    }
    item
}

/// The argument of an action that a value holds.
pub open spec fn target_of(v: WireValue) -> Option<MenuActionTargetView> {
    match wire::unwrapped(v) {
        WireValue::Str(s) => Some(MenuActionTargetView::String(s@)),
        WireValue::Bool(b) => Some(MenuActionTargetView::Boolean(b)),
        WireValue::I32(n) => Some(MenuActionTargetView::Int32(n)),
        WireValue::U32(n) => Some(MenuActionTargetView::Uint32(n)),
        _ => None,
    }
}

fn action_target(v: &WireValue) -> (r: Option<MenuActionTarget>)
    ensures
        r.deep_view() == target_of(*v),
{
    match wire::unwrap(v) {
        WireValue::Str(s) => Some(MenuActionTarget::String(s.dup())),
        WireValue::Bool(b) => Some(MenuActionTarget::Boolean(*b)),
        WireValue::I32(n) => Some(MenuActionTarget::Int32(*n)),
        WireValue::U32(n) => Some(MenuActionTarget::Uint32(*n)),
        _ => None,
    }
}

/// The text of a property of an entry.
pub open spec fn entry_text(item: Entry, name: Seq<char>) -> Option<Seq<char>> {
    match wire::property(item, name) {
        Some(v) => wire::text_of(v),
        None => None,
    }
}

fn get_text(item: &RawItem, name: &str) -> (r: Option<String>)
    ensures
        r.deep_view() == entry_text(wire::named(item@), name@),
{
    match wire::get_property(item, name) {
        Some(v) => match wire::as_text(v) {
            Some(s) => Some(s.dup()),
            None => None,
        },
        None => None,
    }
}

/// The name of the action of an entry.
pub open spec fn action_name(item: Entry) -> Option<Seq<char>> {
    if wire::property(item, "action"@) is Some {
        entry_text(item, "action"@)
    } else {
        entry_text(item, ":action"@)
    }
}

fn get_action_name(item: &RawItem) -> (r: Option<String>)
    ensures
        r.deep_view() == action_name(wire::named(item@)),
{
    if wire::get_property(item, "action").is_some() {
        get_text(item, "action")
    } else {
        get_text(item, ":action")
    }
}

/// The argument of the action of an entry.
pub open spec fn entry_target(item: Entry) -> Option<MenuActionTargetView> {
    match wire::property(item, "target"@) {
        Some(v) => target_of(v),
        None => None,
    }
}

/// Whether the action of an entry can be used: an action that nothing is known of can be.
pub open spec fn entry_enabled(item: Entry, actions: Map<Seq<char>, bool>) -> bool {
    match action_name(item) {
        Some(name) => if actions.contains_key(name) {
            actions[name]
        } else {
            true
        },
        None => true,
    }
}

/// The item that the entry at an index of a menu stands for, where it is no section.
pub open spec fn entry_item(
    key: (u32, u32),
    index: usize,
    item: Entry,
    actions: Map<Seq<char>, bool>,
    children: Seq<MenuItemView>,
) -> MenuItemView {
    MenuItemView {
        id: MenuItemId(item_id_of(key, index, 0)),
        label: entry_text(item, "label"@),
        enabled: entry_enabled(item, actions),
        visible: true,
        item_type: MenuItemTypeView::Standard,
        children_display: if link_of(item, "submenu"@) is Some {
            Some(ChildrenDisplayView::Submenu)
        } else {
            None
        },
        shortcut: None,
        icon_name: None,
        action: match action_name(item) {
            Some(name) => Some(MenuActionView { name, target: entry_target(item) }),
            None => None,
        },
        children,
    }
}

fn convert_entry(
    key: (u32, u32),
    index: usize,
    raw: &RawItem,
    actions: &Table<String, bool>,
    has_submenu: bool,
    children: Vec<MenuItem>,
) -> (r: MenuItem)
    requires
        has_submenu == (link_of(wire::named(raw@), "submenu"@) is Some),
    ensures
        r.deep_view() == entry_item(
            key,
            index,
            wire::named(raw@),
            actions.deep_view(),
            children.deep_view(),
        ),
{
    let name = get_action_name(raw);
    let enabled = match &name {
        Some(name) => match actions.get(name) {
            Some(enabled) => *enabled,
            None => true,
        },
        None => true,
    };
    let target = match wire::get_property(raw, "target") {
        Some(v) => action_target(v),
        None => None,
    };
    let action = match name {
        Some(name) => Some(MenuAction { name, target }),
        None => None,
    };
    let item = MenuItem {
        id: item_id(key, index, 0),
        label: get_text(raw, "label"),
        enabled,
        visible: true,
        item_type: MenuItemType::Standard,
        children_display: if has_submenu {
            Some(ChildrenDisplay::Submenu)
        } else {
            None
        },
        shortcut: None,
        icon_name: None,
        action,
        children,
    };
    proof {
        menu::lemma_item_children(item);
    }
    item
}

/// How many of some menus are not on a path.
pub open spec fn fresh(content: Content, path: Seq<(u32, u32)>) -> nat
    decreases content.len(),
{
    if content.len() == 0 {
        0
    } else {
        fresh(content.drop_last(), path) + if path.contains(content.last().0) {
            0nat
        } else {
            1nat
        }
    }
}

/// One step further on a path, fewer menus are not on it.
pub proof fn lemma_fresh_shrinks(content: Content, path: Seq<(u32, u32)>, key: (u32, u32))
    ensures
        fresh(content, path.push(key)) <= fresh(content, path),
        menu_at(content, key) is Some && !path.contains(key) ==> fresh(content, path.push(key))
            < fresh(content, path),
    decreases content.len(),
{
    if content.len() > 0 {
        lemma_fresh_shrinks(content.drop_last(), path, key);
        let longer = path.push(key);
        assert(longer[path.len() as int] == key);
        if path.contains(content.last().0) {
            let i = choose|i: int| 0 <= i < path.len() && path[i] == content.last().0;
            assert(longer[i] == content.last().0);
        }
    }
}

/// What is said of a menu that is part of itself.
pub open spec fn cycle_at(key: (u32, u32)) -> Seq<char> {
    "GMenu cycle at group "@ + text::decimal(key.0 as nat) + " menu "@ + text::decimal(key.1 as nat)
}

/// The items that a menu stands for, reached by a path of menus: an entry that is a section stands for
/// the items of the linked menu, behind a separator where items stand before it.
pub open spec fn menu_items(
    content: Content,
    key: (u32, u32),
    actions: Map<Seq<char>, bool>,
    path: Seq<(u32, u32)>,
) -> Result<Seq<MenuItemView>, Seq<char>>
    decreases fresh(content, path), 0nat,
{
    if path.contains(key) {
        Err(cycle_at(key))
    } else {
        match menu_at(content, key) {
            None => Ok(Seq::empty()),
            Some(items) => {
                proof {
                    lemma_fresh_shrinks(content, path, key);
                }
                entries_items(content, key, items, items.len(), actions, path.push(key))
            },
        }
    }
}

/// The items that the first entries of a menu stand for.
pub open spec fn entries_items(
    content: Content,
    key: (u32, u32),
    items: Seq<Entry>,
    n: nat,
    actions: Map<Seq<char>, bool>,
    path: Seq<(u32, u32)>,
) -> Result<Seq<MenuItemView>, Seq<char>>
    decreases fresh(content, path), n + 1,
{
    if n == 0 {
        Ok(Seq::empty())
    } else {
        let index = (n - 1) as usize;
        let item = items[n - 1];
        match entries_items(content, key, items, (n - 1) as nat, actions, path) {
            Err(reason) => Err(reason),
            Ok(before) => match link_of(item, "section"@) {
                Some(section) => match menu_items(content, section, actions, path) {
                    Err(reason) => Err(reason),
                    Ok(inner) => Ok(
                        (if before.len() > 0 {
                            before.push(separator_view(item_id_of(key, index, SEPARATOR_SALT)))
                        } else {
                            before
                        }) + inner,
                    ),
                },
                None => match link_of(item, "submenu"@) {
                    Some(target) => match menu_items(content, target, actions, path) {
                        Err(reason) => Err(reason),
                        Ok(children) => Ok(
                            before.push(entry_item(key, index, item, actions, children)),
                        ),
                    },
                    None => Ok(before.push(entry_item(key, index, item, actions, Seq::empty()))),
                },
            },
        }
    }
}

fn on_path(path: &Vec<(u32, u32)>, key: (u32, u32)) -> (r: bool)
    ensures
        r == path@.contains(key),
{
    let mut i: usize = 0;
    while i < path.len()
        invariant
            i <= path.len(),
            forall|j: int| 0 <= j < i ==> path@[j] != key,
        decreases path.len() - i,
    {
        if path[i].0 == key.0 && path[i].1 == key.1 {
            assert(path@[i as int] == key);
            return true;
        }
        i += 1;
    }
    false
}

fn refuse_cycle(key: (u32, u32)) -> (r: String)
    ensures
        r@ == cycle_at(key),
{
    let group = text::format_decimal(key.0 as u64);
    let number = text::format_decimal(key.1 as u64);
    let s = text::concat("GMenu cycle at group ", group.as_str());
    let s = text::concat(s.as_str(), " menu ");
    text::concat(s.as_str(), number.as_str())
}

fn append_items(items: &mut Vec<MenuItem>, more: Vec<MenuItem>)
    ensures
        final(items).deep_view() == old(items).deep_view() + more.deep_view(),
{
    let ghost first = items.deep_view();
    let ghost second = more.deep_view();
    let mut more = more;
    items.append(&mut more);
    assert(items.deep_view() =~= first + second);
}

proof fn lemma_entries_refused(
    content: Content,
    key: (u32, u32),
    items: Seq<Entry>,
    n: nat,
    m: nat,
    actions: Map<Seq<char>, bool>,
    path: Seq<(u32, u32)>,
)
    requires
        n <= m,
        entries_items(content, key, items, n, actions, path) is Err,
    ensures
        entries_items(content, key, items, m, actions, path) == entries_items(
            content,
            key,
            items,
            n,
            actions,
            path,
        ),
    decreases m,
{
    if n < m {
        lemma_entries_refused(content, key, items, n, (m - 1) as nat, actions, path);
    }
}

/// The items that a menu stands for, reached by a path of menus.
fn convert_menu(
    content: &Vec<RawMenu>,
    key: (u32, u32),
    actions: &Table<String, bool>,
    path: &mut Vec<(u32, u32)>,
) -> (r: Result<Vec<MenuItem>, String>)
    ensures
        match menu_items(content_view(content@), key, actions.deep_view(), old(path)@) {
            Ok(items) => r matches Ok(i) && i.deep_view() == items && final(path)@ == old(path)@,
            Err(reason) => r matches Err(e) && e@ == reason,
        },
    decreases fresh(content_view(content@), old(path)@), 0nat,
{
    if on_path(path, key) {
        return Err(refuse_cycle(key));
    }
    let items = match get_menu(content, key) {
        Some(items) => items,
        None => {
            let none: Vec<MenuItem> = Vec::new();
            assert(none.deep_view() =~= Seq::<MenuItemView>::empty());
            return Ok(none);
        },
    };
    proof {
        lemma_fresh_shrinks(content_view(content@), path@, key);
    }
    path.push(key);
    match convert_entries(content, key, items, actions, path) {
        Ok(converted) => {
            path.pop();
            assert(path@ =~= old(path)@);
            Ok(converted)
        },
        Err(e) => Err(e),
    }
}

fn convert_entries(
    content: &Vec<RawMenu>,
    key: (u32, u32),
    items: &Vec<RawItem>,
    actions: &Table<String, bool>,
    path: &mut Vec<(u32, u32)>,
) -> (r: Result<Vec<MenuItem>, String>)
    ensures
        match entries_items(
            content_view(content@),
            key,
            entries_view(items@),
            items@.len(),
            actions.deep_view(),
            old(path)@,
        ) {
            Ok(converted) => r matches Ok(c) && c.deep_view() == converted && final(path)@ == old(
                path,
            )@,
            Err(reason) => r matches Err(e) && e@ == reason,
        },
    decreases fresh(content_view(content@), old(path)@), items@.len() + 1,
{
    let ghost all = content_view(content@);
    let ghost entries = entries_view(items@);
    let ghost known = actions.deep_view();
    let ghost way = path@;
    let mut result: Vec<MenuItem> = Vec::new();
    let mut index: usize = 0;
    assert(result.deep_view() =~= Seq::<MenuItemView>::empty());
    while index < items.len()
        invariant
            index <= items.len(),
            all == content_view(content@),
            entries == entries_view(items@),
            known == actions.deep_view(),
            way == path@,
            way == old(path)@,
            entries_items(all, key, entries, index as nat, known, way) == Ok::<
                Seq<MenuItemView>,
                Seq<char>,
            >(result.deep_view()),
        decreases items.len() - index,
    {
        let raw = &items[index];
        let ghost before = result.deep_view();
        assert(entries[index as int] == wire::named(raw@));
        if let Some(section) = find_link(raw, "section") {
            match convert_menu(content, section, actions, path) {
                Ok(inner) => {
                    if result.len() > 0 {
                        lists::push(
                            &mut result,
                            separator(item_id(key, index, SEPARATOR_SALT)),
                        );
                    }
                    append_items(&mut result, inner);
                },
                Err(e) => {
                    proof {
                        lemma_entries_refused(
                            all,
                            key,
                            entries,
                            (index + 1) as nat,
                            items@.len(),
                            known,
                            way,
                        );
                    }
                    return Err(e);
                },
            }
        } else {
            let (has_submenu, children) = match find_link(raw, "submenu") {
                Some(target) => match convert_menu(content, target, actions, path) {
                    Ok(children) => (true, children),
                    Err(e) => {
                        proof {
                            lemma_entries_refused(
                                all,
                                key,
                                entries,
                                (index + 1) as nat,
                                items@.len(),
                                known,
                                way,
                            );
                        }
                        return Err(e);
                    },
                },
                None => (false, Vec::new()),
            };
            assert(!has_submenu ==> children.deep_view() =~= Seq::<MenuItemView>::empty());
            lists::push(
                &mut result,
                convert_entry(key, index, raw, actions, has_submenu, children),
            );
        }
        index += 1;
    }
    Ok(result)
}

/// The root of a menu with some items.
pub open spec fn root_item(children: Seq<MenuItemView>) -> MenuItemView {
    MenuItemView {
        id: MenuItemId(0),
        label: None,
        enabled: true,
        visible: true,
        item_type: MenuItemTypeView::Standard,
        children_display: None,
        shortcut: None,
        icon_name: None,
        action: None,
        children,
    }
}

/// The menu that some menus stand for.
pub open spec fn start_model(revision: u32, content: Content, actions: Map<Seq<char>, bool>) -> Result<
    MenuModelView,
    Seq<char>,
> {
    match root_of(content) {
        None => Err("GMenu Start returned no menus"@),
        Some(key) => match menu_items(content, key, actions, Seq::empty()) {
            Err(reason) => Err(reason),
            Ok(children) => Ok(MenuModelView { revision, root: root_item(children) }),
        },
    }
}

/// The menu that some menus stand for.
pub fn convert_start(
    revision: u32,
    content: Vec<RawMenu>,
    actions: &Table<String, bool>,
) -> (r: Result<MenuModel, String>)
    ensures
        match start_model(revision, content_view(content@), actions.deep_view()) {
            Ok(model) => r matches Ok(m) && m.deep_view() == model,
            Err(reason) => r matches Err(e) && e@ == reason,
        },
{
    let key = match root_menu(&content) {
        Ok(key) => key,
        Err(e) => {
            return Err(e);
        },
    };
    let mut path: Vec<(u32, u32)> = Vec::new();
    assert(path@ =~= Seq::<(u32, u32)>::empty());
    match convert_menu(&content, key, actions, &mut path) {
        Ok(children) => {
            let root = MenuItem {
                id: MenuItemId(0),
                label: None,
                enabled: true,
                visible: true,
                item_type: MenuItemType::Standard,
                children_display: None,
                shortcut: None,
                icon_name: None,
                action: None,
                children,
            };
            proof {
                menu::lemma_item_children(root);
            }
            Ok(MenuModel { revision, root })
        },
        Err(e) => Err(e),
    }
}

/// The name under which the menu of an application is kept.
pub fn endpoint_key(endpoint: &GtkMenuEndpoint) -> (r: String)
    ensures
        r@ == endpoint.bus_name@ + endpoint.menu_object_path@,
{
    text::concat(endpoint.bus_name.as_str(), endpoint.menu_object_path.as_str())
}

/// Whether an entry of some menus links to a menu of a group.
pub open spec fn group_referenced(content: Content, group: u32) -> bool {
    exists|m: int, i: int, menu: u32| #[trigger] linked_from(content, m, i, (group, menu))
}

/// Whether the entry at an index of the menu at an index links to the menu of a key.
pub open spec fn linked_from(content: Content, m: int, i: int, key: (u32, u32)) -> bool {
    0 <= m < content.len() && 0 <= i < content[m].1.len() && links_to(content[m].1[i], key)
}

/// Numbers in ascending order, each of them once.
pub open spec fn strictly_ascending(s: Seq<u32>) -> bool {
    forall|i: int, j: int| 0 <= i < j < s.len() ==> s[i] < s[j]
}

/// What is left by a filter of numbers in ascending order is in ascending order.
pub proof fn lemma_filter_ascending(s: Seq<u32>, p: spec_fn(u32) -> bool)
    requires
        strictly_ascending(s),
    ensures
        strictly_ascending(s.filter(p)),
    decreases s.len(),
{
    reveal(Seq::filter);
    if s.len() > 0 {
        let before = s.drop_last();
        assert forall|i: int, j: int| 0 <= i < j < before.len() implies before[i] < before[j] by {
            assert(s[i] < s[j]);
        }
        lemma_filter_ascending(before, p);
        assert forall|i: int| 0 <= i < before.filter(p).len() implies #[trigger] before.filter(p)[i]
            < s.last() by {
            seqs::lemma_filter_members(before, p, before.filter(p)[i]);
            let k = choose|k: int| 0 <= k < before.len() && before[k] == before.filter(p)[i];
            assert(s[k] < s[s.len() - 1]);
        }
    }
}

/// Adds a group to groups in ascending order.
pub(crate) fn insert_group(groups: &mut Vec<u32>, group: u32)
    requires
        strictly_ascending(old(groups)@),
    ensures
        strictly_ascending(final(groups)@),
        forall|g: u32| #[trigger]
            final(groups)@.contains(g) <==> old(groups)@.contains(g) || g == group,
{
    let ghost before = groups@;
    let mut at: usize = 0;
    while at < groups.len() && groups[at] < group
        invariant
            at <= groups.len(),
            groups@ == before,
            strictly_ascending(before),
            forall|i: int| 0 <= i < at ==> before[i] < group,
        decreases groups.len() - at,
    {
        at += 1;
    }
    if at < groups.len() && groups[at] == group {
        assert(before.contains(before[at as int]));
        return;
    }
    groups.insert(at, group);
    assert(groups@ =~= before.insert(at as int, group));
    assert forall|g: u32| #[trigger] groups@.contains(g) <==> before.contains(g) || g == group by {
        if before.contains(g) {
            let i = choose|i: int| 0 <= i < before.len() && before[i] == g;
            assert(groups@[if i < at { i } else { i + 1 }] == g);
        }
        assert(groups@[at as int] == group);
        if groups@.contains(g) && g != group {
            let i = choose|i: int| 0 <= i < groups@.len() && groups@[i] == g;
            assert(before[if i < at { i } else { i - 1 }] == g);
        }
    }
}

/// Whether a link of one of the four names leads to a menu of a group.
pub open spec fn entry_references(item: Entry, group: u32) -> bool {
    ||| (link_named(item, "submenu"@) matches Some(key) && key.0 == group)
    ||| (link_named(item, ":submenu"@) matches Some(key) && key.0 == group)
    ||| (link_named(item, "section"@) matches Some(key) && key.0 == group)
    ||| (link_named(item, ":section"@) matches Some(key) && key.0 == group)
}

fn insert_link(groups: &mut Vec<u32>, item: &RawItem, name: &str)
    requires
        strictly_ascending(old(groups)@),
    ensures
        strictly_ascending(final(groups)@),
        forall|g: u32| #[trigger]
            final(groups)@.contains(g) <==> old(groups)@.contains(g) || (g != 0 && (link_named(
                wire::named(item@),
                name@,
            ) matches Some(key) && key.0 == g)),
{
    if let Some(key) = get_link(item, name) {
        if key.0 != 0 {
            insert_group(groups, key.0);
        }
    }
}

fn insert_entry_groups(groups: &mut Vec<u32>, item: &RawItem)
    requires
        strictly_ascending(old(groups)@),
    ensures
        strictly_ascending(final(groups)@),
        forall|g: u32| #[trigger]
            final(groups)@.contains(g) <==> old(groups)@.contains(g) || (g != 0
                && entry_references(wire::named(item@), g)),
{
    insert_link(groups, item, "submenu");
    insert_link(groups, item, ":submenu");
    insert_link(groups, item, "section");
    insert_link(groups, item, ":section");
}

/// Whether one of the first entries of a menu links to a menu of a group.
spec fn menu_references(items: Seq<Entry>, n: int, group: u32) -> bool {
    exists|i: int| 0 <= i < n && entry_references(#[trigger] items[i], group)
}

fn insert_menu_groups(groups: &mut Vec<u32>, items: &Vec<RawItem>)
    requires
        strictly_ascending(old(groups)@),
    ensures
        strictly_ascending(final(groups)@),
        forall|g: u32| #[trigger]
            final(groups)@.contains(g) <==> old(groups)@.contains(g) || (g != 0
                && menu_references(entries_view(items@), items@.len() as int, g)),
{
    let ghost before = groups@;
    let ghost entries = entries_view(items@);
    let mut i: usize = 0;
    while i < items.len()
        invariant
            i <= items.len(),
            entries == entries_view(items@),
            strictly_ascending(groups@),
            forall|g: u32| #[trigger]
                groups@.contains(g) <==> before.contains(g) || (g != 0 && menu_references(
                    entries,
                    i as int,
                    g,
                )),
        decreases items.len() - i,
    {
        assert(entries[i as int] == wire::named(items[i as int]@));
        insert_entry_groups(groups, &items[i]);
        assert forall|g: u32| #[trigger] groups@.contains(g) <==> before.contains(g) || (g != 0
            && menu_references(entries, i + 1, g)) by {
            if menu_references(entries, i + 1, g) {
                let j = choose|j: int| 0 <= j < i + 1 && entry_references(#[trigger] entries[j], g);
                if j < i {
                    assert(menu_references(entries, i as int, g));
                }
            }
            if entry_references(entries[i as int], g) {
                assert(menu_references(entries, i + 1, g));
            }
        }
        i += 1;
    }
}

/// The groups other than the first one that entries link to, in ascending order.
pub fn referenced_groups(content: &Vec<RawMenu>) -> (r: Vec<u32>)
    ensures
        strictly_ascending(r@),
        forall|g: u32| #[trigger]
            r@.contains(g) <==> g != 0 && group_referenced(content_view(content@), g),
{
    let ghost all = content_view(content@);
    let mut groups: Vec<u32> = Vec::new();
    let mut m: usize = 0;
    while m < content.len()
        invariant
            m <= content.len(),
            all == content_view(content@),
            strictly_ascending(groups@),
            forall|g: u32| #[trigger]
                groups@.contains(g) <==> g != 0 && exists|k: int|
                    0 <= k < m && #[trigger] menu_references(
                        all[k].1,
                        all[k].1.len() as int,
                        g,
                    ),
        decreases content.len() - m,
    {
        let ghost before = groups@;
        assert(all[m as int].1 == entries_view(content[m as int].2@));
        insert_menu_groups(&mut groups, &content[m].2);
        assert forall|g: u32| #[trigger] groups@.contains(g) <==> g != 0 && exists|k: int|
            0 <= k < m + 1 && #[trigger] menu_references(all[k].1, all[k].1.len() as int, g) by {
            assert(groups@.contains(g) <==> before.contains(g) || (g != 0 && menu_references(
                all[m as int].1,
                all[m as int].1.len() as int,
                g,
            )));
        }
        m += 1;
    }
    assert forall|g: u32| #[trigger] groups@.contains(g) <==> g != 0 && group_referenced(all, g) by {
        lemma_group_referenced(all, g);
    }
    groups
}

proof fn lemma_group_referenced(content: Content, group: u32)
    ensures
        group_referenced(content, group) <==> exists|k: int|
            0 <= k < content.len() && #[trigger] menu_references(
                content[k].1,
                content[k].1.len() as int,
                group,
            ),
{
    if group_referenced(content, group) {
        let (m, i, menu) = choose|m: int, i: int, menu: u32| #[trigger]
            linked_from(content, m, i, (group, menu));
        assert(entry_references(content[m].1[i], group));
        assert(menu_references(content[m].1, content[m].1.len() as int, group));
    }
    if exists|k: int|
        0 <= k < content.len() && #[trigger] menu_references(
            content[k].1,
            content[k].1.len() as int,
            group,
        ) {
        let m = choose|k: int|
            0 <= k < content.len() && #[trigger] menu_references(
                content[k].1,
                content[k].1.len() as int,
                group,
            );
        let i = choose|i: int|
            0 <= i < content[m].1.len() && entry_references(#[trigger] content[m].1[i], group);
        let item = content[m].1[i];
        if link_named(item, "submenu"@) matches Some(key) && key.0 == group {
            assert(linked_from(content, m, i, link_named(item, "submenu"@)->0));
        } else if link_named(item, ":submenu"@) matches Some(key) && key.0 == group {
            assert(linked_from(content, m, i, link_named(item, ":submenu"@)->0));
        } else if link_named(item, "section"@) matches Some(key) && key.0 == group {
            assert(linked_from(content, m, i, link_named(item, "section"@)->0));
        } else {
            assert(linked_from(content, m, i, link_named(item, ":section"@)->0));
        }
    }
}

/// Whether an entry links to a menu: it has a property of the name that holds the group and the menu.
pub open spec fn says_link(item: Entry, name: Seq<char>, group: u32, menu: u32) -> bool {
    wire::property(item, name) matches Some(v) && v matches WireValue::Structure(fields)
        && fields@.len() == 2 && fields@[0] == WireValue::U32(group) && fields@[1]
        == WireValue::U32(menu)
}

/// Whether an entry has no property of the name, and none of its other spelling.
pub open spec fn says_nothing(item: Entry, name: Seq<char>) -> bool {
    wire::property(item, name) is None && wire::property(item, seq![':'] + name) is None
}

proof fn lemma_spelling(name: Seq<char>)
    ensures
        ":"@ + name == seq![':'] + name,
{
    reveal_strlit(":");
    assert(":"@ =~= seq![':']);
}

/// A link names the group first and the menu second, and counts as a reference to the menu. Both
/// spellings of its name mean the same.
pub proof fn lemma_links_name_menus(item: Entry, group: u32, menu: u32)
    ensures
        says_link(item, "submenu"@, group, menu) ==> link_of(item, "submenu"@) == Some((group, menu)),
        says_link(item, "section"@, group, menu) ==> link_of(item, "section"@) == Some((group, menu)),
        wire::property(item, "submenu"@) is None && says_link(item, ":submenu"@, group, menu)
            ==> link_of(item, "submenu"@) == Some((group, menu)),
        wire::property(item, "section"@) is None && says_link(item, ":section"@, group, menu)
            ==> link_of(item, "section"@) == Some((group, menu)),
        says_link(item, "submenu"@, group, menu) || says_link(item, ":submenu"@, group, menu)
            || says_link(item, "section"@, group, menu) || says_link(
            item,
            ":section"@,
            group,
            menu,
        ) ==> links_to(item, (group, menu)),
        says_nothing(item, "submenu"@) && says_nothing(item, "section"@) ==> !links_to(
            item,
            (group, menu),
        ),
{
    lemma_spelling("submenu"@);
    lemma_spelling("section"@);
    lemma_colons();
    reveal_with_fuel(wire::unwrapped, 2);
}

proof fn lemma_colons()
    ensures
        ":submenu"@ == seq![':'] + "submenu"@,
        ":section"@ == seq![':'] + "section"@,
{
    reveal_strlit(":submenu");
    reveal_strlit("submenu");
    reveal_strlit(":section");
    reveal_strlit("section");
    assert(":submenu"@ =~= seq![':'] + "submenu"@);
    assert(":section"@ =~= seq![':'] + "section"@);
}

/// Whether an item shows an entry: with its label, its action and the target of the action. It can be
/// used unless the action is known to be switched off.
pub open spec fn shows_entry(
    shown: MenuItemView,
    item: Entry,
    actions: Map<Seq<char>, bool>,
) -> bool {
    &&& shown.visible
    &&& shown.item_type is Standard
    &&& match wire::property(item, "label"@) {
        Some(WireValue::Str(label)) => shown.label == Some(label@),
        _ => shown.label is None,
    }
    &&& wire::property(item, "action"@) matches Some(v) ==> (v matches WireValue::Str(name) ==> {
        &&& shown.action matches Some(action) && action.name == name@
        &&& shown.enabled == !(actions.contains_key(name@) && !actions[name@])
        &&& match wire::property(item, "target"@) {
            Some(WireValue::Str(s)) => shown.action->0.target == Some(
                MenuActionTargetView::String(s@),
            ),
            Some(WireValue::Bool(b)) => shown.action->0.target == Some(
                MenuActionTargetView::Boolean(b),
            ),
            Some(WireValue::I32(n)) => shown.action->0.target == Some(
                MenuActionTargetView::Int32(n),
            ),
            Some(WireValue::U32(n)) => shown.action->0.target == Some(
                MenuActionTargetView::Uint32(n),
            ),
            Some(_) => true,
            None => shown.action->0.target is None,
        }
    })
    &&& says_nothing(item, "action"@) ==> shown.action is None && shown.enabled
}

proof fn lemma_entry_item(
    key: (u32, u32),
    index: usize,
    item: Entry,
    actions: Map<Seq<char>, bool>,
    children: Seq<MenuItemView>,
)
    ensures
        shows_entry(entry_item(key, index, item, actions, children), item, actions),
{
    reveal_with_fuel(wire::unwrapped, 2);
    reveal_strlit(":action");
    reveal_strlit("action");
    assert(":action"@ =~= seq![':'] + "action"@);
}

/// Whether no entry of a menu links to a section.
pub open spec fn has_no_sections(items: Seq<Entry>) -> bool {
    forall|i: int| 0 <= i < items.len() ==> link_of(#[trigger] items[i], "section"@) is None
}

/// Whether the items under one that is shown are those of the menu that its entry links to.
pub open spec fn shows_submenu(
    content: Content,
    shown: MenuItemView,
    item: Entry,
    actions: Map<Seq<char>, bool>,
    path: Seq<(u32, u32)>,
) -> bool {
    &&& forall|group: u32, menu: u32| #[trigger]
        says_link(item, "submenu"@, group, menu) ==> shown.children_display == Some(
            ChildrenDisplayView::Submenu,
        ) && menu_items(content, (group, menu), actions, path) == Ok::<
            Seq<MenuItemView>,
            Seq<char>,
        >(shown.children)
    &&& says_nothing(item, "submenu"@) ==> shown.children_display is None && shown.children.len() == 0
}

/// A menu without sections is shown entry by entry, in order, each with the menu that it links to
/// under it.
pub proof fn lemma_entries_are_shown(
    content: Content,
    key: (u32, u32),
    actions: Map<Seq<char>, bool>,
    path: Seq<(u32, u32)>,
)
    requires
        menu_at(content, key) is Some,
        has_no_sections(menu_at(content, key)->0),
    ensures
        menu_items(content, key, actions, path) matches Ok(shown) ==> {
            let items = menu_at(content, key)->0;
            &&& shown.len() == items.len()
            &&& forall|i: int|
                0 <= i < items.len() ==> shows_entry(#[trigger] shown[i], items[i], actions)
                    && shows_submenu(content, shown[i], items[i], actions, path.push(key))
        },
{
    if menu_items(content, key, actions, path) is Ok {
        lemma_fresh_shrinks(content, path, key);
        let items = menu_at(content, key)->0;
        lemma_first_entries(content, key, items, items.len(), actions, path.push(key));
    }
}

proof fn lemma_first_entries(
    content: Content,
    key: (u32, u32),
    items: Seq<Entry>,
    n: nat,
    actions: Map<Seq<char>, bool>,
    path: Seq<(u32, u32)>,
)
    requires
        n <= items.len(),
        has_no_sections(items),
    ensures
        entries_items(content, key, items, n, actions, path) matches Ok(shown) ==> {
            &&& shown.len() == n
            &&& forall|i: int|
                0 <= i < n ==> shows_entry(#[trigger] shown[i], items[i], actions) && shows_submenu(
                    content,
                    shown[i],
                    items[i],
                    actions,
                    path,
                )
        },
    decreases n,
{
    if n > 0 && entries_items(content, key, items, n, actions, path) is Ok {
        lemma_first_entries(content, key, items, (n - 1) as nat, actions, path);
        let shown = entries_items(content, key, items, n, actions, path)->Ok_0;
        let before = entries_items(content, key, items, (n - 1) as nat, actions, path)->Ok_0;
        let item = items[n - 1];
        assert(link_of(item, "section"@) is None);
        lemma_entry_item(key, (n - 1) as usize, item, actions, shown[n - 1].children);
        assert forall|group: u32, menu: u32| says_link(item, "submenu"@, group, menu) implies link_of(
            item,
            "submenu"@,
        ) == Some((group, menu)) by {
            lemma_links_name_menus(item, group, menu);
        }
        lemma_spelling("submenu"@);
        assert(shows_submenu(content, shown[n - 1], item, actions, path));
        assert forall|i: int| 0 <= i < n implies shows_entry(#[trigger] shown[i], items[i], actions)
            && shows_submenu(content, shown[i], items[i], actions, path) by {
            if i < n - 1 {
                assert(shown[i] == before[i]);
            }
        }
    }
}

/// A menu never starts with a separator.
pub proof fn lemma_no_leading_separator(
    content: Content,
    key: (u32, u32),
    actions: Map<Seq<char>, bool>,
    path: Seq<(u32, u32)>,
)
    ensures
        menu_items(content, key, actions, path) matches Ok(shown) ==> (shown.len() > 0
            ==> shown[0].item_type is Standard),
    decreases fresh(content, path), 0nat,
{
    if !path.contains(key) && menu_at(content, key) is Some {
        lemma_fresh_shrinks(content, path, key);
        let items = menu_at(content, key)->0;
        lemma_entries_lead(content, key, items, items.len(), actions, path.push(key));
    }
}

proof fn lemma_entries_lead(
    content: Content,
    key: (u32, u32),
    items: Seq<Entry>,
    n: nat,
    actions: Map<Seq<char>, bool>,
    path: Seq<(u32, u32)>,
)
    ensures
        entries_items(content, key, items, n, actions, path) matches Ok(shown) ==> (shown.len() > 0
            ==> shown[0].item_type is Standard),
    decreases fresh(content, path), n + 1,
{
    if n > 0 {
        lemma_entries_lead(content, key, items, (n - 1) as nat, actions, path);
        match link_of(items[n - 1], "section"@) {
            Some(section) => {
                lemma_no_leading_separator(content, section, actions, path);
            },
            None => {},
        }
    }
}

/// The items of a section stand among those of the menu itself, behind a separator where others stand
/// before them.
pub proof fn lemma_sections_are_separated(
    content: Content,
    key: (u32, u32),
    actions: Map<Seq<char>, bool>,
    path: Seq<(u32, u32)>,
    first: (u32, u32),
    second: (u32, u32),
)
    requires
        menu_at(content, key) matches Some(items) && items.len() == 2 && says_link(
            items[0],
            "section"@,
            first.0,
            first.1,
        ) && says_link(items[1], "section"@, second.0, second.1),
    ensures
        menu_items(content, key, actions, path) matches Ok(shown) ==> {
            &&& menu_items(content, first, actions, path.push(key)) matches Ok(above)
            &&& menu_items(content, second, actions, path.push(key)) matches Ok(below)
            &&& above.len() == 0 ==> shown == below
            &&& above.len() > 0 ==> {
                &&& shown.len() == above.len() + 1 + below.len()
                &&& shown.take(above.len() as int) == above
                &&& shown[above.len() as int].item_type is Separator
                &&& shown.skip(above.len() as int + 1) == below
            }
        },
{
    if menu_items(content, key, actions, path) is Ok {
        lemma_fresh_shrinks(content, path, key);
        let items = menu_at(content, key)->0;
        lemma_links_name_menus(items[0], first.0, first.1);
        lemma_links_name_menus(items[1], second.0, second.1);
        let inside = path.push(key);
        reveal_with_fuel(entries_items, 3);
        let above = menu_items(content, first, actions, inside)->Ok_0;
        let below = menu_items(content, second, actions, inside)->Ok_0;
        let shown = menu_items(content, key, actions, path)->Ok_0;
        assert(entries_items(content, key, items, 1, actions, inside)->Ok_0 =~= above);
        if above.len() > 0 {
            assert(shown.take(above.len() as int) =~= above);
            assert(shown.skip(above.len() as int + 1) =~= below);
        } else {
            assert(shown =~= below);
        }
    }
}

proof fn lemma_last_of(
    keys: Seq<(u32, u32)>,
    p: spec_fn((u32, u32)) -> bool,
    le: spec_fn((u32, u32), (u32, u32)) -> bool,
) -> (last: (u32, u32))
    requires
        seqs::is_total_order(le),
        exists|i: int| 0 <= i < keys.len() && p(#[trigger] keys[i]),
    ensures
        p(last),
        keys.contains(last),
        forall|i: int| 0 <= i < keys.len() && p(#[trigger] keys[i]) ==> le(keys[i], last),
    decreases keys.len(),
{
    let before = keys.drop_last();
    let key = keys.last();
    assert(le(key, key));
    if exists|i: int| 0 <= i < before.len() && p(#[trigger] before[i]) {
        let last = lemma_last_of(before, p, le);
        let i = choose|i: int| 0 <= i < before.len() && before[i] == last;
        assert(keys[i] == last);
        if p(key) && le(last, key) {
            assert forall|i: int| 0 <= i < keys.len() && p(#[trigger] keys[i]) implies le(
                keys[i],
                key,
            ) by {
                if i < before.len() {
                    assert(before[i] == keys[i]);
                    assert(le(keys[i], last) && le(last, key));
                }
            }
            key
        } else {
            assert forall|i: int| 0 <= i < keys.len() && p(#[trigger] keys[i]) implies le(
                keys[i],
                last,
            ) by {
                if i < before.len() {
                    assert(before[i] == keys[i]);
                } else {
                    assert(le(last, key) || le(key, last));
                }
            }
            last
        }
    } else {
        assert forall|i: int| 0 <= i < keys.len() && p(#[trigger] keys[i]) implies i == keys.len()
            - 1 by {
            if i < before.len() {
                assert(before[i] == keys[i]);
            }
        }
        key
    }
}

proof fn lemma_has_root(content: Content)
    requires
        content.len() > 0,
    ensures
        exists|key: (u32, u32)| is_root(content, key),
{
    let keys = content.map_values(|m: ((u32, u32), Seq<Entry>)| m.0);
    assert forall|k: (u32, u32)| (#[trigger] menu_at(content, k)) is Some implies keys.contains(k) by {
        lemma_menu_at(content, k);
        let i = choose|i: int| 0 <= i < content.len() && (#[trigger] content[i]).0 == k;
        assert(keys[i] == k);
    }
    if exists|k: (u32, u32)| is_free(content, k) {
        let k = choose|k: (u32, u32)| is_free(content, k);
        let p = |k: (u32, u32)| is_free(content, k);
        let le = |a: (u32, u32), b: (u32, u32)| size_le(content, a, b);
        assert(keys.contains(k));
        let i = choose|i: int| 0 <= i < keys.len() && keys[i] == k;
        assert(p(keys[i]));
        let last = lemma_last_of(keys, p, le);
        assert forall|k: (u32, u32)| #[trigger] is_free(content, k) implies size_le(content, k, last) by {
            assert(keys.contains(k));
            let i = choose|i: int| 0 <= i < keys.len() && keys[i] == k;
            assert(le(keys[i], last));
        }
        assert(is_root(content, last));
    } else {
        let p = |k: (u32, u32)| true;
        let le = |a: (u32, u32), b: (u32, u32)| key_le(a, b);
        assert(p(keys[0]));
        let last = lemma_last_of(keys, p, le);
        lemma_menu_at(content, last);
        let i = choose|i: int| 0 <= i < keys.len() && keys[i] == last;
        assert(content[i].0 == last);
        assert forall|k: (u32, u32)| (#[trigger] menu_at(content, k)) is Some implies key_le(k, last) by {
            assert(keys.contains(k));
            let i = choose|i: int| 0 <= i < keys.len() && keys[i] == k;
            assert(le(keys[i], last));
        }
        assert(is_root(content, last));
    }
}

/// Of the menus that are given for one key the last one counts, and menus of other keys do not matter.
pub proof fn lemma_last_menu_counts(
    content: Content,
    key: (u32, u32),
    items: Seq<Entry>,
    other: (u32, u32),
)
    ensures
        menu_at(content.push((key, items)), key) == Some(items),
        other != key ==> menu_at(content.push((key, items)), other) == menu_at(content, other),
{
    assert(content.push((key, items)).drop_last() =~= content);
}

/// The menu to start from has an entry in the content. It is one that no other links to where there is
/// such a menu: of those the one with the most entries, and of those as large the last one. Where all
/// are linked to, it is the last menu.
pub proof fn lemma_starts_from_largest(content: Content, group: u32, menu: u32)
    requires
        root_of(content) is Some,
        menu_at(content, (group, menu)) is Some,
    ensures
        ({
            let root = root_of(content)->0;
            let size = menu_at(content, (group, menu))->0.len();
            &&& menu_at(content, root) matches Some(items) && (!is_referenced(
                content,
                (group, menu),
            ) ==> {
                &&& !is_referenced(content, root)
                &&& items.len() >= size
                &&& items.len() == size ==> root.0 > group || (root.0 == group && root.1 >= menu)
            })
            &&& is_referenced(content, root) ==> root.0 > group || (root.0 == group && root.1
                >= menu)
        }),
{
    let root = root_of(content)->0;
    lemma_has_root(content);
    assert(is_root(content, root));
    if !is_referenced(content, (group, menu)) {
        assert(is_free(content, (group, menu)));
    } else if is_referenced(content, root) {
        assert(!is_free(content, root));
    }
}

} // verus!
