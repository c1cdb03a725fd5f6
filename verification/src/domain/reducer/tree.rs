//! Looking up and changing items of a menu tree.
use vstd::prelude::*;

use crate::domain::menu;
use crate::domain::menu::{
    ChildrenDisplay, ChildrenDisplayView, MenuItem, MenuItemId, MenuItemPropertiesUpdate,
    MenuItemPropertiesUpdateView, MenuItemType, MenuItemTypeView, MenuItemView, MenuModel,
    MenuModelView, MenuPropertyUpdate, MenuPropertyUpdateView,
};
use crate::lists;
use crate::seqs;
use crate::value::Value;

verus! {

/// The first item with the given id, in the order of a walk that visits each item before its
/// children.
pub open spec fn find_item(node: MenuItemView, id: MenuItemId) -> Option<MenuItemView>
    decreases node, 0nat,
{
    if node.id == id {
        Some(node)
    } else {
        find_in(node.children, id)
    }
}

/// The first item with the given id in the trees, in the same order.
pub open spec fn find_in(nodes: Seq<MenuItemView>, id: MenuItemId) -> Option<MenuItemView>
    decreases nodes, nodes.len(),
{
    if nodes.len() == 0 {
        None
    } else {
        match find_item(nodes[0], id) {
            Some(found) => Some(found),
            None => find_in(nodes.skip(1), id),
        }
    }
}

proof fn lemma_find_in_at(nodes: Seq<MenuItemView>, id: MenuItemId, at: int)
    requires
        0 <= at <= nodes.len(),
        forall|i: int| 0 <= i < at ==> find_item(#[trigger] nodes[i], id) is None,
    ensures
        find_in(nodes, id) == find_in(nodes.skip(at), id),
        at < nodes.len() && find_item(nodes[at], id) is Some ==> find_in(nodes, id) == find_item(
            nodes[at],
            id,
        ),
        at == nodes.len() ==> find_in(nodes, id) is None,
    decreases nodes.len(),
{
    if at > 0 {
        assert(find_item(nodes[0], id) is None);
        assert forall|i: int| 0 <= i < at - 1 implies find_item(
            #[trigger] nodes.skip(1)[i],
            id,
        ) is None by {
            assert(find_item(nodes[i + 1], id) is None);
        }
        lemma_find_in_at(nodes.skip(1), id, at - 1);
        assert(nodes.skip(1).skip(at - 1) =~= nodes.skip(at));
    } else {
        assert(nodes.skip(0) =~= nodes);
    }
}

fn walk(node: &MenuItem, id: MenuItemId) -> (r: Option<&MenuItem>)
    ensures
        r.deep_view() == find_item(node.deep_view(), id),
    decreases node,
{
    proof {
        menu::lemma_item_children(*node);
    }
    if node.id == id {
        return Some(node);
    }
    let mut i: usize = 0;
    while i < node.children.len()
        invariant
            i <= node.children.len(),
            node.id != id,
            node.deep_view().children == node.children.deep_view(),
            forall|j: int|
                0 <= j < i ==> find_item(#[trigger] node.children.deep_view()[j], id) is None,
        decreases node.children.len() - i,
    {
        let found = walk(&node.children[i], id);
        if found.is_some() {
            proof {
                lemma_find_in_at(node.children.deep_view(), id, i as int);
            }
            return found;
        }
        i += 1;
    }
    proof {
        lemma_find_in_at(node.children.deep_view(), id, i as int);
    }
    None
}

/// The item of a menu with the given id.
pub(crate) fn item(model: &MenuModel, id: MenuItemId) -> (r: Option<&MenuItem>)
    ensures
        r.deep_view() == find_item(model.deep_view().root, id),
{
    walk(&model.root, id)
}

/// The user can select the item.
pub open spec fn is_selectable(item: MenuItemView) -> bool {
    item.visible && item.enabled && item.item_type != MenuItemTypeView::Separator
}

pub(crate) fn selectable(item: &MenuItem) -> (r: bool)
    ensures
        r == is_selectable(item.deep_view()),
{
    let separator = match item.item_type {
        MenuItemType::Separator => true,
        _ => false,
    };
    item.visible && item.enabled && !separator
}

/// The ids of the children that the user can select, in order.
pub open spec fn selectable_ids(children: Seq<MenuItemView>) -> Seq<MenuItemId> {
    children.filter(|c: MenuItemView| is_selectable(c)).map_values(|c: MenuItemView| c.id)
}

pub(crate) fn selectable_children(item: &MenuItem) -> (r: Vec<MenuItemId>)
    ensures
        r@ == selectable_ids(item.deep_view().children),
{
    let ghost children = item.children.deep_view();
    let ghost p = |c: MenuItemView| is_selectable(c);
    proof {
        menu::lemma_item_children(*item);
        seqs::lemma_filter_none(children, p);
    }
    let mut ids: Vec<MenuItemId> = Vec::new();
    let mut i: usize = 0;
    while i < item.children.len()
        invariant
            i <= item.children.len(),
            children == item.children.deep_view(),
            p == (|c: MenuItemView| is_selectable(c)),
            ids@ =~= children.take(i as int).filter(p).map_values(|c: MenuItemView| c.id),
        decreases item.children.len() - i,
    {
        proof {
            seqs::lemma_filter_take(children, p, i as int);
        }
        if selectable(&item.children[i]) {
            ids.push(item.children[i].id);
        }
        i += 1;
    }
    assert(children.take(i as int) =~= children);
    ids
}

/// The item opens a submenu.
pub open spec fn opens_submenu(item: MenuItemView) -> bool {
    item.children_display == Some(ChildrenDisplayView::Submenu)
}

pub(crate) fn shows_submenu(item: &MenuItem) -> (r: bool)
    ensures
        r == opens_submenu(item.deep_view()),
{
    match &item.children_display {
        Some(ChildrenDisplay::Submenu) => true,
        _ => false,
    }
}

/// The item is a top-level menu that the keyboard can be taken to.
pub open spec fn is_eligible_root(model: MenuModelView, id: MenuItemId) -> bool {
    seqs::any_in(
        model.root.children,
        |c: MenuItemView| c.id == id && is_selectable(c) && opens_submenu(c),
    )
}

pub(crate) fn eligible_root(model: &MenuModel, id: MenuItemId) -> (r: bool)
    ensures
        r == is_eligible_root(model.deep_view(), id),
{
    proof {
        menu::lemma_item_children(model.root);
    }
    let test = |c: &MenuItem| -> (b: bool)
        ensures
            b == (c.deep_view().id == id && is_selectable(c.deep_view()) && opens_submenu(
                c.deep_view(),
            )),
    {
        c.id == id && selectable(c) && shows_submenu(c)
    };
    lists::any(
        &model.root.children,
        test,
        Ghost(|c: MenuItemView| c.id == id && is_selectable(c) && opens_submenu(c)),
    )
}

/// An item with one property set.
pub open spec fn with_property(
    node: MenuItemView,
    property: MenuPropertyUpdateView,
) -> MenuItemView {
    match property {
        MenuPropertyUpdateView::Label(value) => MenuItemView { label: value, ..node },
        MenuPropertyUpdateView::Enabled(value) => MenuItemView { enabled: value, ..node },
        MenuPropertyUpdateView::Visible(value) => MenuItemView { visible: value, ..node },
        MenuPropertyUpdateView::ItemType(value) => MenuItemView { item_type: value, ..node },
        MenuPropertyUpdateView::ChildrenDisplay(value) => MenuItemView {
            children_display: value,
            ..node
        },
        MenuPropertyUpdateView::Shortcut(value) => MenuItemView { shortcut: value, ..node },
        MenuPropertyUpdateView::IconName(value) => MenuItemView { icon_name: value, ..node },
    }
}

/// An item with properties set one after the other.
pub open spec fn with_properties(
    node: MenuItemView,
    properties: Seq<MenuPropertyUpdateView>,
) -> MenuItemView
    decreases properties.len(),
{
    if properties.len() == 0 {
        node
    } else {
        with_property(with_properties(node, properties.drop_last()), properties.last())
    }
}

/// Whether setting properties one after the other changes any of them on the way.
pub open spec fn properties_change(
    node: MenuItemView,
    properties: Seq<MenuPropertyUpdateView>,
) -> bool
    decreases properties.len(),
{
    properties.len() > 0 && (properties_change(node, properties.drop_last()) || with_property(
        with_properties(node, properties.drop_last()),
        properties.last(),
    ) != with_properties(node, properties.drop_last()))
}

/// A tree in which the first item that an update names and changes has been updated, and whether
/// there is one. Items below an item with the id are not looked at.
pub open spec fn patched(node: MenuItemView, update: MenuItemPropertiesUpdateView) -> (
    MenuItemView,
    bool,
)
    decreases node, 0nat,
{
    if node.id == update.item_id {
        (with_properties(node, update.properties), properties_change(node, update.properties))
    } else {
        let (children, changed) = patched_in(node.children, update);
        (MenuItemView { children, ..node }, changed)
    }
}

/// The trees in which the first item that an update names and changes has been updated, and
/// whether there is one.
pub open spec fn patched_in(
    nodes: Seq<MenuItemView>,
    update: MenuItemPropertiesUpdateView,
) -> (Seq<MenuItemView>, bool)
    decreases nodes, nodes.len(),
{
    if nodes.len() == 0 {
        (nodes, false)
    } else {
        let (first, changed) = patched(nodes[0], update);
        if changed {
            (seq![first] + nodes.skip(1), true)
        } else {
            let (rest, changed_later) = patched_in(nodes.skip(1), update);
            (seq![nodes[0]] + rest, changed_later)
        }
    }
}

proof fn lemma_unchanged_properties(node: MenuItemView, properties: Seq<MenuPropertyUpdateView>)
    requires
        !properties_change(node, properties),
    ensures
        with_properties(node, properties) == node,
    decreases properties.len(),
{
    if properties.len() > 0 {
        lemma_unchanged_properties(node, properties.drop_last());
    }
}

/// An update that changes nothing leaves the tree as it is.
pub proof fn lemma_unchanged(node: MenuItemView, update: MenuItemPropertiesUpdateView)
    requires
        !patched(node, update).1,
    ensures
        patched(node, update).0 == node,
    decreases node, 0nat,
{
    if node.id == update.item_id {
        lemma_unchanged_properties(node, update.properties);
    } else {
        lemma_unchanged_in(node.children, update);
    }
}

proof fn lemma_unchanged_in(nodes: Seq<MenuItemView>, update: MenuItemPropertiesUpdateView)
    requires
        !patched_in(nodes, update).1,
    ensures
        patched_in(nodes, update).0 == nodes,
    decreases nodes, nodes.len(),
{
    if nodes.len() > 0 {
        lemma_unchanged(nodes[0], update);
        lemma_unchanged_in(nodes.skip(1), update);
        assert(seq![nodes[0]] + nodes.skip(1) =~= nodes);
    }
}

/// The ids of an item and of all items below it, from top to bottom.
pub open spec fn ids_of(node: MenuItemView) -> Seq<MenuItemId>
    decreases node, 0nat,
{
    seq![node.id] + ids_in(node.children)
}

/// The ids of items and of all items below them, from top to bottom.
pub open spec fn ids_in(nodes: Seq<MenuItemView>) -> Seq<MenuItemId>
    decreases nodes, nodes.len(),
{
    if nodes.len() == 0 {
        Seq::empty()
    } else {
        ids_of(nodes[0]) + ids_in(nodes.skip(1))
    }
}

proof fn lemma_properties_keep_items(node: MenuItemView, properties: Seq<MenuPropertyUpdateView>)
    ensures
        with_properties(node, properties).id == node.id,
        with_properties(node, properties).children == node.children,
    decreases properties.len(),
{
    if properties.len() > 0 {
        lemma_properties_keep_items(node, properties.drop_last());
    }
}

/// An update changes what items look like, never which items there are.
pub proof fn lemma_patch_keeps_items(node: MenuItemView, update: MenuItemPropertiesUpdateView)
    ensures
        ids_of(patched(node, update).0) == ids_of(node),
    decreases node, 0nat,
{
    if node.id == update.item_id {
        lemma_properties_keep_items(node, update.properties);
    } else {
        lemma_patch_keeps_items_in(node.children, update);
    }
}

proof fn lemma_patch_keeps_items_in(nodes: Seq<MenuItemView>, update: MenuItemPropertiesUpdateView)
    ensures
        ids_in(patched_in(nodes, update).0) == ids_in(nodes),
    decreases nodes, nodes.len(),
{
    if nodes.len() > 0 {
        let (first, changed) = patched(nodes[0], update);
        lemma_patch_keeps_items(nodes[0], update);
        let after = patched_in(nodes, update).0;
        if changed {
            assert(after.skip(1) =~= nodes.skip(1));
        } else {
            lemma_patch_keeps_items_in(nodes.skip(1), update);
            assert(after.skip(1) =~= patched_in(nodes.skip(1), update).0);
        }
    }
}

proof fn lemma_patched_in_at(
    nodes: Seq<MenuItemView>,
    update: MenuItemPropertiesUpdateView,
    at: int,
)
    requires
        0 <= at < nodes.len(),
        forall|i: int| 0 <= i < at ==> !patched(#[trigger] nodes[i], update).1,
        patched(nodes[at], update).1,
    ensures
        patched_in(nodes, update) == (nodes.update(at, patched(nodes[at], update).0), true),
    decreases nodes.len(),
{
    if at == 0 {
        assert(seq![patched(nodes[0], update).0] + nodes.skip(1) =~= nodes.update(
            0,
            patched(nodes[0], update).0,
        ));
    } else {
        assert(!patched(nodes[0], update).1);
        assert forall|i: int| 0 <= i < at - 1 implies !patched(
            #[trigger] nodes.skip(1)[i],
            update,
        ).1 by {
            assert(!patched(nodes[i + 1], update).1);
        }
        lemma_patched_in_at(nodes.skip(1), update, at - 1);
        assert(seq![nodes[0]] + nodes.skip(1).update(at - 1, patched(nodes[at], update).0)
            =~= nodes.update(at, patched(nodes[at], update).0));
    }
}

proof fn lemma_patched_in_none(nodes: Seq<MenuItemView>, update: MenuItemPropertiesUpdateView)
    requires
        forall|i: int| 0 <= i < nodes.len() ==> !patched(#[trigger] nodes[i], update).1,
    ensures
        patched_in(nodes, update) == (nodes, false),
    decreases nodes.len(),
{
    if nodes.len() > 0 {
        assert(!patched(nodes[0], update).1);
        assert forall|i: int| 0 <= i < nodes.len() - 1 implies !patched(
            #[trigger] nodes.skip(1)[i],
            update,
        ).1 by {
            assert(!patched(nodes[i + 1], update).1);
        }
        lemma_patched_in_none(nodes.skip(1), update);
        assert(seq![nodes[0]] + nodes.skip(1) =~= nodes);
    }
}

fn set_property(node: &mut MenuItem, property: &MenuPropertyUpdate) -> (r: bool)
    ensures
        final(node).deep_view() == with_property(old(node).deep_view(), property.deep_view()),
        r == (final(node).deep_view() != old(node).deep_view()),
        final(node).children == old(node).children,
        final(node).id == old(node).id,
{
    match property {
        MenuPropertyUpdate::Label(value) => {
            let changed = !node.label.same(value);
            if changed {
                node.label = value.dup();
            }
            changed
        },
        MenuPropertyUpdate::Enabled(value) => {
            let changed = node.enabled != *value;
            node.enabled = *value;
            changed
        },
        MenuPropertyUpdate::Visible(value) => {
            let changed = node.visible != *value;
            node.visible = *value;
            changed
        },
        MenuPropertyUpdate::ItemType(value) => {
            let changed = !node.item_type.same(value);
            if changed {
                node.item_type = value.dup();
            }
            changed
        },
        MenuPropertyUpdate::ChildrenDisplay(value) => {
            let changed = !node.children_display.same(value);
            if changed {
                node.children_display = value.dup();
            }
            changed
        },
        MenuPropertyUpdate::Shortcut(value) => {
            let changed = !node.shortcut.same(value);
            if changed {
                node.shortcut = value.dup();
            }
            changed
        },
        MenuPropertyUpdate::IconName(value) => {
            let changed = !node.icon_name.same(value);
            if changed {
                node.icon_name = value.dup();
            }
            changed
        },
    }
}

/// Applies an update to a tree, and returns whether it changed anything.
pub(crate) fn patch_item(node: &mut MenuItem, update: &MenuItemPropertiesUpdate) -> (r: bool)
    ensures
        (final(node).deep_view(), r) == patched(old(node).deep_view(), update.deep_view()),
    decreases *old(node),
{
    let ghost before = node.deep_view();
    if node.id == update.item_id {
        let ghost properties = update.properties.deep_view();
        let mut changed = false;
        let mut i: usize = 0;
        while i < update.properties.len()
            invariant
                i <= update.properties.len(),
                properties == update.properties.deep_view(),
                node.deep_view() == with_properties(before, properties.take(i as int)),
                changed == properties_change(before, properties.take(i as int)),
            decreases update.properties.len() - i,
        {
            assert(properties.take(i + 1).drop_last() =~= properties.take(i as int));
            assert(properties.take(i + 1).last() == properties[i as int]);
            let one = set_property(node, &update.properties[i]);
            changed = changed || one;
            i += 1;
        }
        assert(properties.take(i as int) =~= properties);
        return changed;
    }
    let ghost children = node.children.deep_view();
    proof {
        menu::lemma_item_children(*node);
    }
    let ghost start = *node;
    let mut i: usize = 0;
    while i < node.children.len()
        invariant
            i <= node.children.len(),
            start == *old(node),
            children == start.children.deep_view(),
            node.children.deep_view() == children,
            node.children.len() == start.children.len(),
            forall|j: int| i <= j < node.children.len() ==> node.children[j] == start.children[j],
            before == start.deep_view(),
            before.children == children,
            node.deep_view() == before,
            node.id == start.id,
            node.id != update.item_id,
            before.id == node.id,
            forall|j: int| 0 <= j < i ==> !patched(#[trigger] children[j], update.deep_view()).1,
        decreases node.children.len() - i,
    {
        let ghost child = node.children[i as int].deep_view();
        assert(child == children[i as int]);
        let ghost unpatched = *node;
        let changed = patch_item(&mut node.children[i], update);
        proof {
            menu::lemma_item_children(*node);
            assert(node.children.deep_view() =~= children.update(
                i as int,
                patched(child, update.deep_view()).0,
            ));
        }
        if changed {
            proof {
                lemma_patched_in_at(children, update.deep_view(), i as int);
            }
            return true;
        }
        proof {
            lemma_unchanged(child, update.deep_view());
            assert(children.update(i as int, child) =~= children);
        }
        i += 1;
    }
    proof {
        lemma_patched_in_none(children, update.deep_view());
    }
    false
}

/// An item is found exactly where the tree has its id, and has that id.
pub proof fn lemma_found_by_id(node: MenuItemView, id: MenuItemId)
    ensures
        find_item(node, id) is Some <==> ids_of(node).contains(id),
        find_item(node, id) matches Some(item) ==> item.id == id,
    decreases node, 0nat,
{
    lemma_found_in(node.children, id);
    let below = ids_in(node.children);
    let all = ids_of(node);
    assert(all =~= seq![node.id] + below);
    if node.id == id {
        assert(all[0] == id);
    } else {
        if below.contains(id) {
            let i = choose|i: int| 0 <= i < below.len() && below[i] == id;
            assert(all[i + 1] == id);
        }
        if all.contains(id) {
            let i = choose|i: int| 0 <= i < all.len() && all[i] == id;
            assert(below[i - 1] == id);
        }
    }
}

proof fn lemma_found_in(nodes: Seq<MenuItemView>, id: MenuItemId)
    ensures
        find_in(nodes, id) is Some <==> ids_in(nodes).contains(id),
        find_in(nodes, id) matches Some(item) ==> item.id == id,
    decreases nodes, nodes.len(),
{
    if nodes.len() > 0 {
        lemma_found_by_id(nodes[0], id);
        lemma_found_in(nodes.skip(1), id);
        let (first, rest) = (ids_of(nodes[0]), ids_in(nodes.skip(1)));
        let all = ids_in(nodes);
        assert(all =~= first + rest);
        if first.contains(id) {
            let i = choose|i: int| 0 <= i < first.len() && first[i] == id;
            assert(all[i] == id);
        }
        if rest.contains(id) {
            let i = choose|i: int| 0 <= i < rest.len() && rest[i] == id;
            assert(all[first.len() + i] == id);
        }
        if all.contains(id) && !first.contains(id) {
            let i = choose|i: int| 0 <= i < all.len() && all[i] == id;
            if i < first.len() {
                assert(first[i] == id);
            }
            assert(rest[i - first.len()] == id);
        }
    }
}

proof fn lemma_unnamed_is_unchanged(node: MenuItemView, update: MenuItemPropertiesUpdateView)
    requires
        !ids_of(node).contains(update.item_id),
    ensures
        patched(node, update) == (node, false),
    decreases node, 0nat,
{
    let all = ids_of(node);
    let below = ids_in(node.children);
    assert(all[0] == node.id);
    assert(!below.contains(update.item_id)) by {
        if below.contains(update.item_id) {
            let i = choose|i: int| 0 <= i < below.len() && below[i] == update.item_id;
            assert(all[i + 1] == update.item_id);
        }
    }
    lemma_unnamed_are_unchanged(node.children, update);
}

proof fn lemma_unnamed_are_unchanged(
    nodes: Seq<MenuItemView>,
    update: MenuItemPropertiesUpdateView,
)
    requires
        !ids_in(nodes).contains(update.item_id),
    ensures
        patched_in(nodes, update) == (nodes, false),
    decreases nodes, nodes.len(),
{
    if nodes.len() > 0 {
        let (first, rest) = (ids_of(nodes[0]), ids_in(nodes.skip(1)));
        let all = ids_in(nodes);
        assert(!first.contains(update.item_id)) by {
            if first.contains(update.item_id) {
                let i = choose|i: int| 0 <= i < first.len() && first[i] == update.item_id;
                assert(all[i] == update.item_id);
            }
        }
        assert(!rest.contains(update.item_id)) by {
            if rest.contains(update.item_id) {
                let i = choose|i: int| 0 <= i < rest.len() && rest[i] == update.item_id;
                assert(all[first.len() + i] == update.item_id);
            }
        }
        lemma_unnamed_is_unchanged(nodes[0], update);
        lemma_unnamed_are_unchanged(nodes.skip(1), update);
        assert(seq![nodes[0]] + nodes.skip(1) =~= nodes);
    }
}

/// Where no two items have one id, the item that an update names has the properties of the update
/// afterwards.
pub proof fn lemma_patch_sets_properties(node: MenuItemView, update: MenuItemPropertiesUpdateView)
    requires
        ids_of(node).no_duplicates(),
    ensures
        match find_item(node, update.item_id) {
            Some(item) => find_item(patched(node, update).0, update.item_id) == Some(
                with_properties(item, update.properties),
            ),
            None => patched(node, update) == (node, false),
        },
    decreases node, 0nat,
{
    lemma_found_by_id(node, update.item_id);
    if node.id == update.item_id {
        lemma_properties_keep_items(node, update.properties);
    } else {
        let all = ids_of(node);
        let below = ids_in(node.children);
        assert(below.no_duplicates()) by {
            assert forall|i: int, j: int| 0 <= i < below.len() && 0 <= j < below.len() && i
                != j implies below[i] != below[j] by {
                assert(all[i + 1] == below[i] && all[j + 1] == below[j]);
            }
        }
        lemma_patches_set_properties(node.children, update);
    }
}

proof fn lemma_patches_set_properties(
    nodes: Seq<MenuItemView>,
    update: MenuItemPropertiesUpdateView,
)
    requires
        ids_in(nodes).no_duplicates(),
    ensures
        match find_in(nodes, update.item_id) {
            Some(item) => find_in(patched_in(nodes, update).0, update.item_id) == Some(
                with_properties(item, update.properties),
            ),
            None => patched_in(nodes, update) == (nodes, false),
        },
    decreases nodes, nodes.len(),
{
    let id = update.item_id;
    if nodes.len() > 0 {
        let (first, rest) = (ids_of(nodes[0]), ids_in(nodes.skip(1)));
        let all = ids_in(nodes);
        assert forall|i: int, j: int| 0 <= i < first.len() && 0 <= j < first.len() && i
            != j implies first[i] != first[j] by {
            assert(all[i] == first[i] && all[j] == first[j]);
        }
        assert forall|i: int, j: int| 0 <= i < rest.len() && 0 <= j < rest.len() && i
            != j implies rest[i] != rest[j] by {
            assert(all[first.len() + i] == rest[i] && all[first.len() + j] == rest[j]);
        }
        lemma_patch_sets_properties(nodes[0], update);
        lemma_patches_set_properties(nodes.skip(1), update);
        lemma_found_by_id(nodes[0], id);
        lemma_found_in(nodes.skip(1), id);
        let after = patched_in(nodes, update).0;
        if patched(nodes[0], update).1 {
            assert(after.skip(1) =~= nodes.skip(1));
            lemma_patch_keeps_items(nodes[0], update);
            lemma_found_by_id(after[0], id);
            if find_item(nodes[0], id) is None {
                assert(false);
            }
        } else {
            lemma_unchanged(nodes[0], update);
            assert(after.skip(1) =~= patched_in(nodes.skip(1), update).0);
            if find_item(nodes[0], id) is Some {
                let i = choose|i: int| 0 <= i < first.len() && first[i] == id;
                assert(!rest.contains(id)) by {
                    if rest.contains(id) {
                        let j = choose|j: int| 0 <= j < rest.len() && rest[j] == id;
                        assert(all[i] == all[first.len() + j]);
                    }
                }
            } else {
                assert(seq![nodes[0]] + nodes.skip(1) =~= nodes);
            }
        }
    }
}

/// Setting a property sets that property of the item, and no other one.
pub proof fn lemma_property_is_set(node: MenuItemView, property: MenuPropertyUpdateView)
    ensures
        ({
            let after = with_property(node, property);
            &&& match property {
                MenuPropertyUpdateView::Label(value) => after.label == value,
                MenuPropertyUpdateView::Enabled(value) => after.enabled == value,
                MenuPropertyUpdateView::Visible(value) => after.visible == value,
                MenuPropertyUpdateView::ItemType(value) => after.item_type == value,
                MenuPropertyUpdateView::ChildrenDisplay(value) => after.children_display == value,
                MenuPropertyUpdateView::Shortcut(value) => after.shortcut == value,
                MenuPropertyUpdateView::IconName(value) => after.icon_name == value,
            }
            &&& after.id == node.id
            &&& after.children == node.children
            &&& after.action == node.action
            &&& property !is Label ==> after.label == node.label
            &&& property !is Enabled ==> after.enabled == node.enabled
            &&& property !is Visible ==> after.visible == node.visible
            &&& property !is ItemType ==> after.item_type == node.item_type
            &&& property !is ChildrenDisplay ==> after.children_display == node.children_display
            &&& property !is Shortcut ==> after.shortcut == node.shortcut
            &&& property !is IconName ==> after.icon_name == node.icon_name
        }),
{
}

/// The ids that the user can select among are those of the children that are shown, can be used and are
/// no separators.
pub proof fn lemma_selectable_ids(children: Seq<MenuItemView>, id: MenuItemId)
    ensures
        selectable_ids(children).contains(id) <==> exists|i: int|
            0 <= i < children.len() && (#[trigger] children[i]).id == id && children[i].visible
                && children[i].enabled && children[i].item_type != MenuItemTypeView::Separator,
{
    let p = |c: MenuItemView| is_selectable(c);
    let left = children.filter(p);
    let ids = selectable_ids(children);
    if ids.contains(id) {
        let k = choose|k: int| 0 <= k < ids.len() && ids[k] == id;
        assert(left[k].id == id);
        children.lemma_filter_pred(p, k);
        assert(left.contains(left[k]));
        children.lemma_filter_contains_rev(p, left[k]);
        let i = choose|i: int| 0 <= i < children.len() && children[i] == left[k];
        assert(children[i].id == id);
    }
    if exists|i: int|
        0 <= i < children.len() && (#[trigger] children[i]).id == id && is_selectable(children[i]) {
        let i = choose|i: int|
            0 <= i < children.len() && (#[trigger] children[i]).id == id && is_selectable(
                children[i],
            );
        children.lemma_filter_contains(p, i);
        let k = choose|k: int| 0 <= k < left.len() && left[k] == children[i];
        assert(ids[k] == id);
    }
}

/// Of the values that are set for one property the last one counts, and the others are kept.
pub proof fn lemma_last_value_counts(
    node: MenuItemView,
    properties: Seq<MenuPropertyUpdateView>,
    enabled: bool,
    visible: bool,
)
    ensures
        ({
            let before = with_properties(node, properties);
            let on = with_properties(node, properties.push(MenuPropertyUpdateView::Enabled(enabled)));
            let shown = with_properties(
                node,
                properties.push(MenuPropertyUpdateView::Visible(visible)),
            );
            &&& on.enabled == enabled && on.visible == before.visible && on.label == before.label
            &&& shown.visible == visible && shown.enabled == before.enabled && shown.label
                == before.label
            &&& with_properties(node, Seq::empty()) == node
        }),
{
    assert(properties.push(MenuPropertyUpdateView::Enabled(enabled)).drop_last() =~= properties);
    assert(properties.push(MenuPropertyUpdateView::Visible(visible)).drop_last() =~= properties);
}

} // verus!
