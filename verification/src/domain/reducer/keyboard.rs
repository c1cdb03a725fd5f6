//! What the keys and the pointer do in an open menu.
use vstd::prelude::*;

use crate::domain::event::Event;
use crate::domain::menu::{
    ChildrenDisplayView, MenuItemId, MenuItemTypeView, MenuItemView, MenuRegistryView,
};
use crate::domain::reducer;
use crate::domain::reducer::{interaction, navigation, tree};
use crate::domain::state::{KeyboardGrabState, MenuStateView, StateView};
use crate::seqs;

verus! {

/// Whether an item is offered to the user: it is shown, it can be used, and it is no separator.
pub open spec fn is_offered(item: MenuItemView) -> bool {
    item.visible && item.enabled && item.item_type != MenuItemTypeView::Separator
}

/// Whether a menu is loaded whose root is the given item.
pub open spec fn shows_root(s: StateView, root: MenuItemView) -> bool {
    match s.menu {
        MenuStateView::Loaded { model, .. } => model.root == root,
        MenuStateView::TrayLoaded { model, .. } => model.root == root,
        _ => false,
    }
}

/// Whether the keyboard moves among the children of an item: a session is under way, and the open part
/// of the menu ends at the item.
pub open spec fn moves_among(s: StateView, root: MenuItemView, parent: MenuItemView) -> bool {
    &&& s.menu_navigation is Some
    &&& shows_root(s, root)
    &&& s.menu_interaction.open_root is Some
    &&& s.menu_interaction.open_path.len() > 0
    &&& tree::find_item(root, s.menu_interaction.open_path.last()) == Some(parent)
}

/// Whether the keyboard selects the item with the given id in the innermost open menu.
pub open spec fn selects(s: StateView, id: MenuItemId) -> bool {
    s.menu_navigation matches Some(session) && session.selected_path == Some(
        s.menu_interaction.open_path.push(id),
    )
}

/// Whether nothing but what is selected and highlighted differs, which is the item with the given id.
pub open spec fn only_selects(before: StateView, after: StateView, id: MenuItemId) -> bool {
    &&& selects(after, id)
    &&& after.menu_interaction.hovered_path == before.menu_interaction.open_path.push(id)
    &&& after.menu_interaction.open_path == before.menu_interaction.open_path
    &&& after.menu_interaction.open_root == before.menu_interaction.open_root
    &&& after.menu == before.menu
}

/// Whether two children are offered and none between them is.
pub open spec fn are_neighbours(children: Seq<MenuItemView>, a: int, b: int) -> bool {
    &&& 0 <= a < b < children.len()
    &&& is_offered(children[a])
    &&& is_offered(children[b])
    &&& forall|i: int| a < i < b ==> !is_offered(#[trigger] children[i])
}

/// Whether a child is the first one of its id that is offered.
pub open spec fn is_first_of_id(children: Seq<MenuItemView>, at: int) -> bool {
    forall|i: int|
        0 <= i < at && is_offered(#[trigger] children[i]) ==> children[i].id != children[at].id
}

/// The ids among which up and down move stand in the order of the children that are offered.
proof fn lemma_ids_around(children: Seq<MenuItemView>, at: int)
    requires
        0 <= at < children.len(),
        is_offered(children[at]),
    ensures
        ({
            let ids = tree::selectable_ids(children);
            let before = tree::selectable_ids(children.take(at));
            let behind = tree::selectable_ids(children.skip(at + 1));
            &&& ids == before + seq![children[at].id] + behind
            &&& is_first_of_id(children, at) ==> seqs::position_in(ids, children[at].id) == Some(
                before.len() as int,
            )
        }),
{
    let p = |c: MenuItemView| tree::is_selectable(c);
    let id_of = |c: MenuItemView| c.id;
    let ids = tree::selectable_ids(children);
    let before = tree::selectable_ids(children.take(at));
    seqs::lemma_filter_around(children, p, at);
    assert(ids =~= before + seq![children[at].id] + tree::selectable_ids(children.skip(at + 1)));
    if is_first_of_id(children, at) {
        assert forall|i: int| 0 <= i < before.len() implies (#[trigger] ids[i]) != children[at].id by {
            let left = children.take(at).filter(p);
            assert(ids[i] == before[i]);
            assert(before[i] == left[i].id);
            children.take(at).lemma_filter_pred(p, i);
            assert(left.contains(left[i]));
            children.take(at).lemma_filter_contains_rev(p, left[i]);
            let k = choose|k: int| 0 <= k < at && children.take(at)[k] == left[i];
            assert(children[k] == left[i]);
        }
        seqs::lemma_position_at(ids, children[at].id, before.len() as int);
    }
}

proof fn lemma_no_ids(children: Seq<MenuItemView>)
    requires
        forall|i: int| 0 <= i < children.len() ==> !is_offered(#[trigger] children[i]),
    ensures
        tree::selectable_ids(children).len() == 0,
{
    let p = |c: MenuItemView| tree::is_selectable(c);
    assert forall|i: int| 0 <= i < children.len() implies !p(#[trigger] children[i]) by {
        assert(!is_offered(children[i]));
    }
    seqs::lemma_filter_nothing(children, p);
}

/// Of two neighbours the ids stand side by side.
proof fn lemma_ids_of_neighbours(children: Seq<MenuItemView>, a: int, b: int)
    requires
        are_neighbours(children, a, b),
    ensures
        ({
            let ids = tree::selectable_ids(children);
            let at = tree::selectable_ids(children.take(a)).len() as int;
            &&& 0 <= at
            &&& at + 1 < ids.len()
            &&& ids[at] == children[a].id
            &&& ids[at + 1] == children[b].id
            &&& is_first_of_id(children, a) ==> seqs::position_in(ids, children[a].id) == Some(at)
            &&& is_first_of_id(children, b) ==> seqs::position_in(ids, children[b].id) == Some(
                at + 1,
            )
        }),
{
    lemma_ids_around(children, a);
    lemma_ids_around(children, b);
    let head = children.take(b);
    assert(head.take(a) =~= children.take(a));
    assert(is_offered(head[a]));
    lemma_ids_around(head, a);
    let between = head.skip(a + 1);
    assert forall|i: int| 0 <= i < between.len() implies !is_offered(#[trigger] between[i]) by {
        assert(between[i] == children[a + 1 + i]);
    }
    lemma_no_ids(between);
}

proof fn lemma_is_list_step(s: StateView, r: MenuRegistryView)
    ensures
        reducer::step(s, r, Event::MenuNavigateDown) == reducer::state_step(
            r,
            navigation::list_navigated(s, 1),
        ),
        reducer::step(s, r, Event::MenuNavigateUp) == reducer::state_step(
            r,
            navigation::list_navigated(s, -1),
        ),
{
    reveal(reducer::step);
}

proof fn lemma_listed(s: StateView, root: MenuItemView, parent: MenuItemView)
    requires
        moves_among(s, root, parent),
    ensures
        navigation::listed(s) == tree::selectable_ids(parent.children),
{
}

/// Down goes from an item of the open menu to the next one that is offered.
pub proof fn lemma_down_selects_next(
    s: StateView,
    r: MenuRegistryView,
    root: MenuItemView,
    parent: MenuItemView,
    a: int,
    b: int,
)
    requires
        moves_among(s, root, parent),
        are_neighbours(parent.children, a, b),
        is_first_of_id(parent.children, a),
        selects(s, parent.children[a].id),
    ensures
        ({
            let taken = reducer::step(s, r, Event::MenuNavigateDown);
            &&& only_selects(s, taken.state, parent.children[b].id)
            &&& taken.dirty == (parent.children[a].id != parent.children[b].id)
        }),
{
    lemma_is_list_step(s, r);
    lemma_listed(s, root, parent);
    lemma_ids_of_neighbours(parent.children, a, b);
    reveal(navigation::list_navigated);
    let path = s.menu_interaction.open_path;
    assert(path.push(parent.children[a].id).last() == parent.children[a].id);
    assert(path.push(parent.children[b].id).last() == parent.children[b].id);
}

/// Up goes from an item of the open menu to the one before that is offered.
pub proof fn lemma_up_selects_previous(
    s: StateView,
    r: MenuRegistryView,
    root: MenuItemView,
    parent: MenuItemView,
    a: int,
    b: int,
)
    requires
        moves_among(s, root, parent),
        are_neighbours(parent.children, a, b),
        is_first_of_id(parent.children, b),
        selects(s, parent.children[b].id),
    ensures
        ({
            let taken = reducer::step(s, r, Event::MenuNavigateUp);
            &&& only_selects(s, taken.state, parent.children[a].id)
            &&& taken.dirty
        }),
{
    lemma_is_list_step(s, r);
    lemma_listed(s, root, parent);
    lemma_ids_of_neighbours(parent.children, a, b);
    reveal(navigation::list_navigated);
    let path = s.menu_interaction.open_path;
    assert(path.push(parent.children[a].id).last() == parent.children[a].id);
    assert(path.push(parent.children[b].id).last() == parent.children[b].id);
}

/// Down and then up selects the item again that was selected before, where no two items that are
/// offered have one id.
pub proof fn lemma_up_undoes_down(
    s: StateView,
    r: MenuRegistryView,
    root: MenuItemView,
    parent: MenuItemView,
    a: int,
    b: int,
)
    requires
        moves_among(s, root, parent),
        are_neighbours(parent.children, a, b),
        is_first_of_id(parent.children, a),
        is_first_of_id(parent.children, b),
        selects(s, parent.children[a].id),
    ensures
        ({
            let down = reducer::step(s, r, Event::MenuNavigateDown).state;
            let up = reducer::step(down, r, Event::MenuNavigateUp).state;
            &&& !selects(down, parent.children[a].id)
            &&& selects(up, parent.children[a].id)
        }),
{
    lemma_down_selects_next(s, r, root, parent, a, b);
    let down = reducer::step(s, r, Event::MenuNavigateDown).state;
    assert(is_offered(parent.children[a]));
    assert(parent.children[a].id != parent.children[b].id);
    let path = s.menu_interaction.open_path;
    assert(path.push(parent.children[a].id).last() != path.push(parent.children[b].id).last());
    lemma_up_selects_previous(down, r, root, parent, a, b);
}

/// The keyboard stays at the ends of the open menu: down at the last item that is offered, up at the
/// first one.
pub proof fn lemma_list_has_ends(
    s: StateView,
    r: MenuRegistryView,
    root: MenuItemView,
    parent: MenuItemView,
    at: int,
)
    requires
        moves_among(s, root, parent),
        0 <= at < parent.children.len(),
        is_offered(parent.children[at]),
        is_first_of_id(parent.children, at),
        selects(s, parent.children[at].id),
    ensures
        (forall|i: int| at < i < parent.children.len() ==> !is_offered(#[trigger] parent.children[i]))
            ==> ({
            let taken = reducer::step(s, r, Event::MenuNavigateDown);
            selects(taken.state, parent.children[at].id) && !taken.dirty
        }),
        (forall|i: int| 0 <= i < at ==> !is_offered(#[trigger] parent.children[i])) ==> ({
            let taken = reducer::step(s, r, Event::MenuNavigateUp);
            selects(taken.state, parent.children[at].id) && !taken.dirty
        }),
{
    lemma_is_list_step(s, r);
    lemma_listed(s, root, parent);
    lemma_ids_around(parent.children, at);
    reveal(navigation::list_navigated);
    let path = s.menu_interaction.open_path;
    assert(path.push(parent.children[at].id).last() == parent.children[at].id);
    if forall|i: int| at < i < parent.children.len() ==> !is_offered(#[trigger] parent.children[i]) {
        let behind = parent.children.skip(at + 1);
        assert forall|i: int| 0 <= i < behind.len() implies !is_offered(#[trigger] behind[i]) by {
            assert(behind[i] == parent.children[at + 1 + i]);
        }
        lemma_no_ids(behind);
    }
    if forall|i: int| 0 <= i < at ==> !is_offered(#[trigger] parent.children[i]) {
        let before = parent.children.take(at);
        assert forall|i: int| 0 <= i < before.len() implies !is_offered(#[trigger] before[i]) by {
            assert(before[i] == parent.children[i]);
        }
        lemma_no_ids(before);
    }
}

/// From outside the items of the open menu, such as the entry that opened it, down goes to the first
/// item that is offered and up to the last one.
pub proof fn lemma_list_is_entered(
    s: StateView,
    r: MenuRegistryView,
    root: MenuItemView,
    parent: MenuItemView,
    at: int,
)
    requires
        moves_among(s, root, parent),
        0 <= at < parent.children.len(),
        is_offered(parent.children[at]),
        s.menu_navigation matches Some(session) && (session.selected_path matches Some(path)
            ==> path.len() > 0 && forall|i: int|
            0 <= i < parent.children.len() && is_offered(#[trigger] parent.children[i])
                ==> parent.children[i].id != path.last()),
    ensures
        (forall|i: int| 0 <= i < at ==> !is_offered(#[trigger] parent.children[i])) ==> selects(
            reducer::step(s, r, Event::MenuNavigateDown).state,
            parent.children[at].id,
        ),
        (forall|i: int| at < i < parent.children.len() ==> !is_offered(#[trigger] parent.children[i]))
            ==> selects(
            reducer::step(s, r, Event::MenuNavigateUp).state,
            parent.children[at].id,
        ),
{
    lemma_is_list_step(s, r);
    lemma_listed(s, root, parent);
    lemma_ids_around(parent.children, at);
    reveal(navigation::list_navigated);
    let children = parent.children;
    let ids = tree::selectable_ids(children);
    let session = s.menu_navigation->0;
    if session.selected_path is Some {
        let last = (session.selected_path->0).last();
        let p = |c: MenuItemView| tree::is_selectable(c);
        assert(!ids.contains(last)) by {
            if ids.contains(last) {
                let left = children.filter(p);
                let i = choose|i: int| 0 <= i < ids.len() && ids[i] == last;
                assert(ids[i] == left[i].id);
                children.lemma_filter_pred(p, i);
                assert(left.contains(left[i]));
                children.lemma_filter_contains_rev(p, left[i]);
                let k = choose|k: int| 0 <= k < children.len() && children[k] == left[i];
                assert(is_offered(children[k]));
            }
        }
        seqs::lemma_position_none(ids, last);
    }
    if forall|i: int| 0 <= i < at ==> !is_offered(#[trigger] children[i]) {
        let before = children.take(at);
        assert forall|i: int| 0 <= i < before.len() implies !is_offered(#[trigger] before[i]) by {
            assert(before[i] == children[i]);
        }
        lemma_no_ids(before);
    }
    if forall|i: int| at < i < children.len() ==> !is_offered(#[trigger] children[i]) {
        let behind = children.skip(at + 1);
        assert forall|i: int| 0 <= i < behind.len() implies !is_offered(#[trigger] behind[i]) by {
            assert(behind[i] == children[at + 1 + i]);
        }
        lemma_no_ids(behind);
    }
}

/// Whether a top-level menu is the open one, with nothing open below it.
pub open spec fn opens_only(s: StateView, id: MenuItemId) -> bool {
    &&& s.menu_interaction.open_root == Some(id)
    &&& s.menu_interaction.open_path == seq![id]
}

/// Whether the keyboard has gone to a top-level menu: it is the open one, it is selected, and none of
/// its items is highlighted.
pub open spec fn goes_to_root(before: StateView, after: StateView, id: MenuItemId) -> bool {
    &&& opens_only(after, id)
    &&& after.menu_interaction.hovered_path.len() == 0
    &&& after.menu_navigation matches Some(session) && session.selected_path == Some(seq![id])
    &&& after.menu == before.menu
}

proof fn lemma_is_sideways(s: StateView, r: MenuRegistryView)
    ensures
        reducer::step(s, r, Event::MenuNavigateLeft) == reducer::state_step(
            r,
            interaction::left_navigated(s),
        ),
        reducer::step(s, r, Event::MenuNavigateRight) == reducer::state_step(
            r,
            interaction::right_navigated(s),
        ),
        reducer::step(s, r, Event::MenuNavigateEnter) == reducer::state_step(
            r,
            interaction::enter_navigated(s, r),
        ),
        reducer::step(s, r, Event::MenuNavigateEscape) == reducer::state_step(
            r,
            interaction::escape_navigated(s, r),
        ),
{
    reveal(reducer::step);
}

proof fn lemma_root_step(s: StateView, root: MenuItemView, a: int, b: int)
    requires
        s.menu_navigation is Some,
        shows_root(s, root),
        are_neighbours(root.children, a, b),
        is_first_of_id(root.children, a),
        s.menu_interaction.open_root == Some(root.children[a].id),
    ensures
        goes_to_root(s, navigation::root_navigated(s, 1).0, root.children[b].id),
        navigation::root_navigated(s, 1).1,
{
    lemma_ids_of_neighbours(root.children, a, b);
    reveal(navigation::root_navigated);
}

proof fn lemma_right_root(s: StateView, root: MenuItemView, a: int, b: int)
    requires
        s.menu_navigation matches Some(session) && session.selected_path matches Some(path)
            && path.len() > 0 && (path.last() == root.children[a].id || (tree::find_item(
            root,
            path.last(),
        ) matches Some(item) && item.children_display != Some(ChildrenDisplayView::Submenu))),
        shows_root(s, root),
        are_neighbours(root.children, a, b),
        is_first_of_id(root.children, a),
        s.menu_interaction.open_root == Some(root.children[a].id),
    ensures
        goes_to_root(s, interaction::right_navigated(s).0, root.children[b].id),
        interaction::right_navigated(s).1,
{
    lemma_root_step(s, root, a, b);
    assert(interaction::right_navigated(s) == navigation::root_navigated(s, 1)) by {
        reveal(interaction::right_navigated);
    }
}

/// Right goes from a top-level menu to the next one that is offered, where the menu itself is selected
/// or an item of it that opens no submenu.
pub proof fn lemma_right_goes_to_next_root(
    s: StateView,
    r: MenuRegistryView,
    root: MenuItemView,
    a: int,
    b: int,
)
    requires
        s.menu_navigation matches Some(session) && session.selected_path matches Some(path)
            && path.len() > 0 && (path.last() == root.children[a].id || (tree::find_item(
            root,
            path.last(),
        ) matches Some(item) && item.children_display != Some(ChildrenDisplayView::Submenu))),
        shows_root(s, root),
        are_neighbours(root.children, a, b),
        is_first_of_id(root.children, a),
        s.menu_interaction.open_root == Some(root.children[a].id),
    ensures
        ({
            let taken = reducer::step(s, r, Event::MenuNavigateRight);
            goes_to_root(s, taken.state, root.children[b].id) && taken.dirty
        }),
{
    lemma_is_sideways(s, r);
    lemma_right_root(s, root, a, b);
}

/// Left goes from a top-level menu to the one before that is offered, unless a submenu is open.
pub proof fn lemma_left_goes_to_previous_root(
    s: StateView,
    r: MenuRegistryView,
    root: MenuItemView,
    a: int,
    b: int,
)
    requires
        s.menu_navigation is Some,
        shows_root(s, root),
        are_neighbours(root.children, a, b),
        is_first_of_id(root.children, b),
        s.menu_interaction.open_root == Some(root.children[b].id),
        s.menu_interaction.open_path.len() <= 1,
    ensures
        ({
            let taken = reducer::step(s, r, Event::MenuNavigateLeft);
            goes_to_root(s, taken.state, root.children[a].id) && taken.dirty
        }),
{
    lemma_is_sideways(s, r);
    lemma_ids_of_neighbours(root.children, a, b);
    reveal(interaction::left_navigated);
    reveal(navigation::root_navigated);
}

/// Right and then left goes back to the top-level menu that was open before.
pub proof fn lemma_left_undoes_right(
    s: StateView,
    r: MenuRegistryView,
    root: MenuItemView,
    a: int,
    b: int,
)
    requires
        s.menu_navigation matches Some(session) && session.selected_path == Some(
            seq![root.children[a].id],
        ),
        shows_root(s, root),
        are_neighbours(root.children, a, b),
        is_first_of_id(root.children, a),
        is_first_of_id(root.children, b),
        opens_only(s, root.children[a].id),
    ensures
        ({
            let right = reducer::step(s, r, Event::MenuNavigateRight).state;
            let left = reducer::step(right, r, Event::MenuNavigateLeft).state;
            goes_to_root(s, left, root.children[a].id)
        }),
{
    assert(seq![root.children[a].id].last() == root.children[a].id);
    lemma_right_goes_to_next_root(s, r, root, a, b);
    let right = reducer::step(s, r, Event::MenuNavigateRight).state;
    lemma_left_goes_to_previous_root(right, r, root, a, b);
}

proof fn lemma_submenu_entered(s: StateView, root: MenuItemView, id: MenuItemId)
    requires
        s.menu_navigation is Some,
        selects(s, id),
        shows_root(s, root),
        s.menu_interaction.open_root is Some,
        s.menu_interaction.open_root != Some(id),
        s.menu_interaction.open_path.len() > 0,
        tree::find_item(root, id) matches Some(item) && item.children_display == Some(
            ChildrenDisplayView::Submenu,
        ) && item.children.len() > 0,
    ensures
        ({
            let right = interaction::right_navigated(s);
            &&& right.1
            &&& right.0.menu_interaction.open_path == s.menu_interaction.open_path.push(id)
            &&& right.0.menu_interaction.open_root == s.menu_interaction.open_root
            &&& right.0.menu_navigation == s.menu_navigation
        }),
{
    reveal(interaction::right_navigated);
    assert(s.menu_interaction.open_path.push(id).last() == id);
}

proof fn lemma_submenu_left(s: StateView, r: MenuRegistryView)
    requires
        s.menu_navigation is Some,
        s.menu_interaction.open_path.len() > 1,
    ensures
        ({
            let left = interaction::left_navigated(s);
            let path = s.menu_interaction.open_path.drop_last();
            &&& left == interaction::escape_navigated(s, r)
            &&& left.1
            &&& left.0.menu_interaction.open_path == path
            &&& left.0.menu_interaction.open_root == s.menu_interaction.open_root
            &&& left.0.menu_navigation matches Some(session) && session.selected_path == Some(path)
        }),
{
    reveal(interaction::left_navigated);
    reveal(interaction::escape_navigated);
}

/// Right at an item with a submenu opens the submenu: the open part of the menu ends at the item, which
/// stays selected. Left closes it again.
pub proof fn lemma_submenu_opens_and_closes(
    s: StateView,
    r: MenuRegistryView,
    root: MenuItemView,
    id: MenuItemId,
)
    requires
        s.menu_navigation is Some,
        selects(s, id),
        shows_root(s, root),
        s.menu_interaction.open_root is Some,
        s.menu_interaction.open_root != Some(id),
        s.menu_interaction.open_path.len() > 0,
        tree::find_item(root, id) matches Some(item) && item.children_display == Some(
            ChildrenDisplayView::Submenu,
        ) && item.children.len() > 0,
    ensures
        ({
            let path = s.menu_interaction.open_path;
            let right = reducer::step(s, r, Event::MenuNavigateRight);
            let left = reducer::step(right.state, r, Event::MenuNavigateLeft);
            let escape = reducer::step(right.state, r, Event::MenuNavigateEscape);
            &&& right.dirty
            &&& right.state.menu_interaction.open_path == path.push(id)
            &&& right.state.menu_interaction.open_root == s.menu_interaction.open_root
            &&& right.state.menu_navigation == s.menu_navigation
            &&& left.dirty
            &&& left.state.menu_interaction.open_path == path
            &&& left.state.menu_interaction.open_root == s.menu_interaction.open_root
            &&& left.state == escape.state
            &&& left.state.menu_navigation matches Some(session) && session.selected_path == Some(
                path,
            )
        }),
{
    let right = interaction::right_navigated(s).0;
    lemma_is_sideways(s, r);
    lemma_submenu_entered(s, root, id);
    lemma_is_sideways(right, r);
    lemma_submenu_left(right, r);
    assert(s.menu_interaction.open_path.push(id).drop_last() =~= s.menu_interaction.open_path);
}

/// Escape with no submenu open ends the session, and nothing of the menu is open any more.
pub proof fn lemma_escape_ends_navigation(s: StateView, r: MenuRegistryView)
    requires
        s.menu_navigation is Some,
        s.menu_interaction.open_path.len() <= 1,
    ensures
        ({
            let taken = reducer::step(s, r, Event::MenuNavigateEscape);
            &&& taken.dirty
            &&& taken.state.menu_navigation is None
            &&& taken.state.menu_interaction.open_root is None
            &&& taken.state.menu_interaction.open_path.len() == 0
            &&& taken.state.menu_interaction.hovered_path.len() == 0
        }),
{
    lemma_is_sideways(s, r);
    reveal(interaction::escape_navigated);
}

/// Enter at an item that opens no submenu changes nothing; at a top-level menu with items it goes where
/// down goes, and in a submenu where right goes.
pub proof fn lemma_enter_opens(s: StateView, r: MenuRegistryView, root: MenuItemView, item: MenuItemView)
    requires
        s.menu_navigation matches Some(session) && session.selected_path matches Some(path)
            && path.len() > 0 && tree::find_item(root, path.last()) == Some(item),
        shows_root(s, root),
    ensures
        ({
            let taken = reducer::step(s, r, Event::MenuNavigateEnter);
            let submenu = item.children_display == Some(ChildrenDisplayView::Submenu);
            let inner = s.menu_interaction.open_path.len() > 1;
            &&& !submenu ==> taken == reducer::state_step(r, (s, false))
            &&& submenu && inner ==> taken == reducer::step(s, r, Event::MenuNavigateRight)
            &&& submenu && !inner && item.children.len() > 0 ==> taken == reducer::step(
                s,
                r,
                Event::MenuNavigateDown,
            )
        }),
{
    lemma_is_sideways(s, r);
    lemma_is_list_step(s, r);
    reveal(interaction::enter_navigated);
}

proof fn lemma_is_pointer(s: StateView, r: MenuRegistryView, path: Vec<MenuItemId>, id: MenuItemId)
    ensures
        reducer::step(s, r, Event::MenuItemHovered { path }) == reducer::state_step(
            r,
            interaction::item_hovered(s, path.deep_view()),
        ),
        reducer::step(s, r, Event::MenuRootClicked(id)) == reducer::state_step(
            r,
            interaction::root_clicked(s, r, id),
        ),
{
    reveal(reducer::step);
}

/// The item that the pointer is over is highlighted, and the keyboard goes on from it; what is open
/// stays open.
pub proof fn lemma_pointer_leads_keyboard(s: StateView, r: MenuRegistryView, path: Vec<MenuItemId>)
    requires
        s.menu_interaction.open_root is Some,
    ensures
        ({
            let taken = reducer::step(s, r, Event::MenuItemHovered { path });
            let after = taken.state;
            &&& taken.dirty == (s.menu_interaction.hovered_path != path.deep_view())
            &&& after.menu_interaction.hovered_path == path.deep_view()
            &&& after.menu_interaction.open_root == s.menu_interaction.open_root
            &&& after.menu_interaction.open_path == s.menu_interaction.open_path
            &&& after.menu == s.menu
            &&& taken.dirty ==> (after.menu_navigation matches Some(session)
                ==> session.selected_path == Some(path.deep_view()))
            &&& after.menu_navigation is Some <==> s.menu_navigation is Some
            &&& taken.dirty ==> (after.menu_interaction.pending_about_to_show matches Some(pending)
                ==> path@.len() > 0 && pending.item_id == path.deep_view().last())
        }),
{
    lemma_is_pointer(s, r, path, MenuItemId(0));
    reveal(interaction::item_hovered);
}

/// A click on a top-level menu with items opens it, and a second click closes it; popups of devices
/// close on the way.
pub proof fn lemma_click_opens_and_closes(
    s: StateView,
    r: MenuRegistryView,
    root: MenuItemView,
    at: int,
)
    requires
        s.menu is Loaded,
        shows_root(s, root),
        0 <= at < root.children.len(),
        root.children[at].visible,
        root.children[at].enabled,
        root.children[at].children_display is Some,
        root.children[at].children.len() > 0,
        forall|i: int| 0 <= i < at ==> (#[trigger] root.children[i]).id != root.children[at].id,
        s.menu_interaction.open_root != Some(root.children[at].id),
    ensures
        ({
            let id = root.children[at].id;
            let open = reducer::step(s, r, Event::MenuRootClicked(id));
            let close = reducer::step(open.state, r, Event::MenuRootClicked(id));
            &&& open.dirty
            &&& opens_only(open.state, id)
            &&& open.state.menu_interaction.hovered_path.len() == 0
            &&& open.state.menu == s.menu
            &&& !open.state.audio_popup_open
            &&& !open.state.bluetooth_popup_open
            &&& !open.state.network_popup_open
            &&& close.dirty
            &&& close.state.menu_interaction.open_root is None
            &&& close.state.menu_interaction.open_path.len() == 0
            &&& close.state.menu_navigation is None
        }),
{
    let id = root.children[at].id;
    let open = reducer::step(s, r, Event::MenuRootClicked(id)).state;
    let nothing: Vec<MenuItemId> = arbitrary();
    lemma_is_pointer(s, r, nothing, id);
    lemma_is_pointer(open, r, nothing, id);
    reveal(interaction::root_clicked);
    let has_id = |c: MenuItemView| c.id == id;
    seqs::lemma_first_at(root.children, has_id, at);
}

/// A click on a top-level entry that is hidden or disabled opens nothing.
pub proof fn lemma_disabled_root_stays_closed(
    s: StateView,
    r: MenuRegistryView,
    root: MenuItemView,
    at: int,
)
    requires
        s.menu is Loaded,
        shows_root(s, root),
        0 <= at < root.children.len(),
        !root.children[at].visible || !root.children[at].enabled,
        forall|i: int| 0 <= i < at ==> (#[trigger] root.children[i]).id != root.children[at].id,
    ensures
        ({
            let taken = reducer::step(s, r, Event::MenuRootClicked(root.children[at].id));
            &&& !taken.dirty
            &&& taken.state.menu_interaction == s.menu_interaction
            &&& taken.state.menu == s.menu
        }),
{
    let id = root.children[at].id;
    let nothing: Vec<MenuItemId> = arbitrary();
    lemma_is_pointer(s, r, nothing, id);
    reveal(interaction::root_clicked);
    let has_id = |c: MenuItemView| c.id == id;
    seqs::lemma_first_at(root.children, has_id, at);
}

/// The answer to the request for the keyboard is kept in the session that asked for it.
pub proof fn lemma_grab_is_kept(s: StateView, r: MenuRegistryView, session_id: u64)
    requires
        s.menu_navigation matches Some(session) && session.id == session_id,
    ensures
        ({
            let acquired = reducer::step(s, r, Event::KeyboardGrabAcquired { session_id });
            let failed = reducer::step(s, r, Event::KeyboardGrabFailed { session_id });
            &&& acquired.dirty
            &&& failed.dirty
            &&& acquired.state.menu_navigation matches Some(session) && session.grab_state
                == KeyboardGrabState::Active && session.id == session_id && session.selected_path
                == (s.menu_navigation->0).selected_path
            &&& failed.state.menu_navigation matches Some(session) && session.grab_state
                == KeyboardGrabState::Failed && session.id == session_id && session.selected_path
                == (s.menu_navigation->0).selected_path
        }),
{
    reveal(reducer::step);
}

} // verus!
