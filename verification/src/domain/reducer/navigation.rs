//! Moving through the open part of a menu.
use vstd::prelude::*;

use crate::domain::menu;
use crate::domain::menu::{MenuItem, MenuItemId, MenuItemView, MenuModel, MenuModelView};
use crate::domain::reducer::presentation;
use crate::domain::reducer::tree;
use crate::domain::state::{
    MenuInteractionState, MenuInteractionStateView, MenuNavigationSessionView, State, StateView,
};
use crate::lists;
use crate::seqs;
use crate::value::Value;

verus! {

/// The number after `n`, starting over after the last one.
pub open spec fn next_number(n: u64) -> u64 {
    if n == u64::MAX {
        0
    } else {
        (n + 1) as u64
    }
}

pub(crate) fn number_after(n: u64) -> (r: u64)
    ensures
        r == next_number(n),
{
    if n == u64::MAX {
        0
    } else {
        n + 1
    }
}

/// The keyboard selects the given path, in a session that is under way.
pub open spec fn with_selection(
    navigation: Option<MenuNavigationSessionView>,
    path: Option<Seq<MenuItemId>>,
) -> Option<MenuNavigationSessionView> {
    match navigation {
        Some(session) => Some(MenuNavigationSessionView { selected_path: path, ..session }),
        None => None,
    }
}

pub(crate) fn set_selection(state: &mut State, path: Option<Vec<MenuItemId>>)
    ensures
        final(state).deep_view() == (StateView {
            menu_navigation: with_selection(
                old(state).deep_view().menu_navigation,
                path.deep_view(),
            ),
            ..old(state).deep_view()
        }),
{
    match &mut state.menu_navigation {
        Some(session) => {
            session.selected_path = path;
        },
        None => {},
    }
}

/// The path holds a single item.
pub(crate) fn path_of(id: MenuItemId) -> (r: Vec<MenuItemId>)
    ensures
        r.deep_view() == seq![id],
{
    let mut path: Vec<MenuItemId> = Vec::new();
    path.push(id);
    assert(path.deep_view() =~= seq![id]);
    path
}

/// The second item is a child of the first that the user can select.
pub open spec fn selectable_step(
    model: MenuModelView,
    parent: MenuItemId,
    child: MenuItemId,
) -> bool {
    tree::find_item(model.root, parent) matches Some(item) && seqs::any_in(
        item.children,
        |c: MenuItemView| c.id == child && tree::is_selectable(c),
    )
}

fn can_select_step(model: &MenuModel, parent: MenuItemId, child: MenuItemId) -> (r: bool)
    ensures
        r == selectable_step(model.deep_view(), parent, child),
{
    match tree::item(model, parent) {
        Some(item) => {
            proof {
                menu::lemma_item_children(*item);
            }
            let test = |c: &MenuItem| -> (b: bool)
                ensures
                    b == (c.deep_view().id == child && tree::is_selectable(c.deep_view())),
            {
                c.id == child && tree::selectable(c)
            };
            lists::any(
                &item.children,
                test,
                Ghost(|c: MenuItemView| c.id == child && tree::is_selectable(c)),
            )
        },
        None => false,
    }
}

/// The path goes through the open part of the menu and ends at an item that the user can select.
pub open spec fn is_valid_selection(
    model: MenuModelView,
    open_path: Seq<MenuItemId>,
    path: Seq<MenuItemId>,
) -> bool {
    &&& path.len() > 0
    &&& open_path.len() <= path.len() && open_path == path.take(open_path.len() as int)
    &&& forall|i: int|
        0 <= i < path.len() - 1 ==> selectable_step(model, #[trigger] path[i], path[i + 1])
    &&& tree::find_item(model.root, path.last()) matches Some(item) && tree::is_selectable(item)
}

fn valid_selection(model: &MenuModel, open_path: &Vec<MenuItemId>, path: &Vec<MenuItemId>) -> (r:
    bool)
    ensures
        r == is_valid_selection(model.deep_view(), open_path.deep_view(), path.deep_view()),
{
    let ghost p = path.deep_view();
    if path.len() == 0 || open_path.len() > path.len() {
        return false;
    }
    let mut i: usize = 0;
    while i < open_path.len()
        invariant
            i <= open_path.len() <= path.len(),
            p == path.deep_view(),
            forall|j: int| 0 <= j < i ==> open_path.deep_view()[j] == p[j],
        decreases open_path.len() - i,
    {
        if open_path[i] != path[i] {
            assert(open_path.deep_view()[i as int] != p.take(open_path.len() as int)[i as int]);
            return false;
        }
        i += 1;
    }
    assert(open_path.deep_view() =~= p.take(open_path.len() as int));
    i = 0;
    while i < path.len() - 1
        invariant
            i <= path.len() - 1,
            p == path.deep_view(),
            forall|j: int|
                0 <= j < i ==> selectable_step(model.deep_view(), #[trigger] p[j], p[j + 1]),
        decreases path.len() - i,
    {
        if !can_select_step(model, path[i], path[i + 1]) {
            assert(!selectable_step(model.deep_view(), p[i as int], p[i + 1]));
            return false;
        }
        i += 1;
    }
    match tree::item(model, path[path.len() - 1]) {
        Some(item) => tree::selectable(item),
        None => false,
    }
}

/// The keyboard selection, where the menu still has it.
pub open spec fn kept_selection(
    model: MenuModelView,
    open_path: Seq<MenuItemId>,
    selection: Option<Seq<MenuItemId>>,
) -> Option<Seq<MenuItemId>> {
    match selection {
        Some(path) => if is_valid_selection(model, open_path, path) {
            Some(path)
        } else {
            None
        },
        None => None,
    }
}

fn keep_selection(
    model: &MenuModel,
    open_path: &Vec<MenuItemId>,
    selection: &Option<Vec<MenuItemId>>,
) -> (r: Option<Vec<MenuItemId>>)
    ensures
        r.deep_view() == kept_selection(
            model.deep_view(),
            open_path.deep_view(),
            selection.deep_view(),
        ),
{
    match selection {
        Some(path) => if valid_selection(model, open_path, path) {
            Some(path.dup())
        } else {
            None
        },
        None => None,
    }
}

/// The keyboard selects the given path, which is highlighted.
pub open spec fn selection_shown(s: StateView, path: Option<Seq<MenuItemId>>) -> StateView {
    StateView {
        menu_navigation: with_selection(s.menu_navigation, path),
        menu_interaction: MenuInteractionStateView {
            hovered_path: match path {
                Some(ids) => ids,
                None => Seq::empty(),
            },
            ..s.menu_interaction
        },
        ..s
    }
}

pub(crate) fn show_selection(state: &mut State, path: Option<Vec<MenuItemId>>)
    ensures
        final(state).deep_view() == selection_shown(old(state).deep_view(), path.deep_view()),
{
    let hovered = match &path {
        Some(ids) => ids.dup(),
        None => {
            let none: Vec<MenuItemId> = Vec::new();
            assert(none.deep_view() =~= Seq::<MenuItemId>::empty());
            none
        },
    };
    state.menu_interaction.hovered_path = hovered;
    set_selection(state, path);
}

/// The keyboard selection is dropped where the menu no longer has it, and what is highlighted goes
/// along with it.
pub open spec fn selection_normalized(s: StateView) -> StateView {
    match (s.active_menu_model(), s.menu_navigation) {
        (None, navigation) => StateView {
            menu_navigation: with_selection(navigation, None),
            ..s
        },
        (Some(model), None) => s,
        (Some(model), Some(session)) => selection_shown(
            s,
            kept_selection(model, s.menu_interaction.open_path, session.selected_path),
        ),
    }
}

fn current_kept_selection(state: &State) -> (r: Option<Vec<MenuItemId>>)
    requires
        state.deep_view().active_menu_model() is Some,
        state.deep_view().menu_navigation is Some,
    ensures
        r.deep_view() == kept_selection(
            state.deep_view().active_menu_model()->0,
            state.deep_view().menu_interaction.open_path,
            (state.deep_view().menu_navigation->0).selected_path,
        ),
{
    match (state.active_menu_model(), &state.menu_navigation) {
        (Some(model), Some(session)) => keep_selection(
            model,
            &state.menu_interaction.open_path,
            &session.selected_path,
        ),
        _ => None,
    }
}

pub(crate) fn normalize_keyboard_selection(state: &mut State)
    ensures
        final(state).deep_view() == selection_normalized(old(state).deep_view()),
{
    let loaded = state.active_menu_model().is_some();
    if !loaded {
        set_selection(state, None);
    } else if state.menu_navigation.is_some() {
        let kept = current_kept_selection(state);
        show_selection(state, kept);
    }
}


/// The item is shown and can be used.
pub open spec fn is_usable(item: MenuItemView) -> bool {
    item.visible && item.enabled
}

/// The second item is a child of the first that is shown and can be used.
pub open spec fn usable_step(model: MenuModelView, parent: MenuItemId, child: MenuItemId) -> bool {
    tree::find_item(model.root, parent) matches Some(item) && seqs::any_in(
        item.children,
        |c: MenuItemView| c.id == child && is_usable(c),
    )
}

fn can_use_step(model: &MenuModel, parent: MenuItemId, child: MenuItemId) -> (r: bool)
    ensures
        r == usable_step(model.deep_view(), parent, child),
{
    match tree::item(model, parent) {
        Some(item) => {
            proof {
                menu::lemma_item_children(*item);
            }
            let test = |c: &MenuItem| -> (b: bool)
                ensures
                    b == (c.deep_view().id == child && is_usable(c.deep_view())),
            {
                c.id == child && c.visible && c.enabled
            };
            lists::any(
                &item.children,
                test,
                Ghost(|c: MenuItemView| c.id == child && is_usable(c)),
            )
        },
        None => false,
    }
}

/// A path continued by as many of the given ids as lead from child to child.
pub open spec fn path_continued(
    model: MenuModelView,
    path: Seq<MenuItemId>,
    ids: Seq<MenuItemId>,
) -> Seq<MenuItemId>
    decreases ids.len(),
{
    if ids.len() > 0 && usable_step(model, path.last(), ids[0]) {
        path_continued(model, path.push(ids[0]), ids.skip(1))
    } else {
        path
    }
}

/// The part of an open path, from its root, that the menu still has.
pub open spec fn path_normalized(
    model: MenuModelView,
    root: MenuItemId,
    open_path: Seq<MenuItemId>,
) -> Seq<MenuItemId> {
    path_continued(
        model,
        seq![root],
        if open_path.len() > 0 {
            open_path.skip(1)
        } else {
            open_path
        },
    )
}

fn normalize_path(model: &MenuModel, root: MenuItemId, open_path: &Vec<MenuItemId>) -> (r: Vec<
    MenuItemId,
>)
    ensures
        r.deep_view() == path_normalized(model.deep_view(), root, open_path.deep_view()),
{
    let ghost ids = open_path.deep_view();
    let mut path = path_of(root);
    let mut last = root;
    let mut i: usize = 1;
    assert(ids.len() > 0 ==> ids.skip(1).skip(0) =~= ids.skip(1));
    while i < open_path.len()
        invariant
            1 <= i,
            i <= open_path.len() || open_path.len() == 0,
            ids == open_path.deep_view(),
            path.deep_view().len() > 0,
            path.deep_view().last() == last,
            ids.len() > 0 ==> path_normalized(model.deep_view(), root, ids) == path_continued(
                model.deep_view(),
                path.deep_view(),
                ids.skip(i as int),
            ),
            ids.len() == 0 ==> path.deep_view() == seq![root],
        decreases open_path.len() - i,
    {
        let id = open_path[i];
        assert(ids.skip(i as int)[0] == id);
        if !can_use_step(model, last, id) {
            return path;
        }
        assert(ids.skip(i as int).skip(1) =~= ids.skip(i + 1));
        lists::push(&mut path, id);
        last = id;
        i += 1;
    }
    assert(ids.len() > 0 ==> ids.skip(i as int) =~= Seq::<MenuItemId>::empty());
    path
}

/// The part of a highlighted path that the menu still shows.
pub open spec fn hover_normalized(model: MenuModelView, hovered: Seq<MenuItemId>) -> Seq<
    MenuItemId,
> {
    hovered.filter(
        |id: MenuItemId| tree::find_item(model.root, id) matches Some(item) && item.visible,
    )
}

fn normalize_hover(model: &MenuModel, hovered: &Vec<MenuItemId>) -> (r: Vec<MenuItemId>)
    ensures
        r.deep_view() == hover_normalized(model.deep_view(), hovered.deep_view()),
{
    let mut kept = hovered.dup();
    let shown = |id: &MenuItemId| -> (b: bool)
        ensures
            b == (tree::find_item(model.deep_view().root, *id) matches Some(item) && item.visible),
    {
        match tree::item(model, *id) {
            Some(item) => item.visible,
            None => false,
        }
    };
    lists::retain(
        &mut kept,
        shown,
        Ghost(
            |id: MenuItemId|
                tree::find_item(model.deep_view().root, id) matches Some(item) && item.visible,
        ),
    );
    kept
}

/// The menu has the item, and the item can be used.
pub open spec fn is_usable_id(model: MenuModelView, id: MenuItemId) -> bool {
    tree::find_item(model.root, id) matches Some(item) && is_usable(item)
}

fn usable_id(model: &MenuModel, id: MenuItemId) -> (r: bool)
    ensures
        r == is_usable_id(model.deep_view(), id),
{
    match tree::item(model, id) {
        Some(item) => item.visible && item.enabled,
        None => false,
    }
}

/// The open and the highlighted path are set.
pub open spec fn paths_set(
    s: StateView,
    open_path: Seq<MenuItemId>,
    hovered_path: Seq<MenuItemId>,
) -> StateView {
    StateView {
        menu_interaction: MenuInteractionStateView { open_path, hovered_path, ..s.menu_interaction },
        ..s
    }
}

/// What is open is cut back to what the menu still has.
#[verifier::opaque]
pub open spec fn normalized(s: StateView) -> StateView {
    match (s.active_menu_model(), s.menu_interaction.open_root) {
        (Some(model), Some(root)) => if is_usable_id(model, root) {
            selection_normalized(
                paths_set(
                    s,
                    path_normalized(model, root, s.menu_interaction.open_path),
                    hover_normalized(model, s.menu_interaction.hovered_path),
                ),
            )
        } else {
            presentation::closed(s)
        },
        _ => presentation::closed(s),
    }
}

fn root_usable(state: &State) -> (r: bool)
    ensures
        r == (match (state.deep_view().active_menu_model(), state.deep_view().menu_interaction.open_root) {
            (Some(model), Some(root)) => is_usable_id(model, root),
            _ => false,
        }),
{
    match (state.active_menu_model(), state.menu_interaction.open_root) {
        (Some(model), Some(root)) => usable_id(model, root),
        _ => false,
    }
}

fn current_paths(state: &State) -> (r: (Vec<MenuItemId>, Vec<MenuItemId>))
    requires
        state.deep_view().active_menu_model() is Some,
        state.deep_view().menu_interaction.open_root is Some,
    ensures
        r.0.deep_view() == path_normalized(
            state.deep_view().active_menu_model()->0,
            state.deep_view().menu_interaction.open_root->0,
            state.deep_view().menu_interaction.open_path,
        ),
        r.1.deep_view() == hover_normalized(
            state.deep_view().active_menu_model()->0,
            state.deep_view().menu_interaction.hovered_path,
        ),
{
    match (state.active_menu_model(), state.menu_interaction.open_root) {
        (Some(model), Some(root)) => (
            normalize_path(model, root, &state.menu_interaction.open_path),
            normalize_hover(model, &state.menu_interaction.hovered_path),
        ),
        _ => (Vec::new(), Vec::new()),
    }
}

pub(crate) fn normalize_interaction(state: &mut State)
    ensures
        final(state).deep_view() == normalized(old(state).deep_view()),
{
    reveal(normalized);
    if root_usable(state) {
        let (open_path, hovered_path) = current_paths(state);
        state.menu_interaction.open_path = open_path;
        state.menu_interaction.hovered_path = hovered_path;
        normalize_keyboard_selection(state);
    } else {
        state.menu_interaction = MenuInteractionState::default();
    }
}

/// The ids among which up and down move, in order.
pub open spec fn listed(s: StateView) -> Seq<MenuItemId> {
    match (s.active_menu_model(), s.menu_interaction.open_root) {
        (Some(model), Some(root)) => {
            let parent = match presentation::path_end(Some(s.menu_interaction.open_path)) {
                Some(id) => id,
                None => root,
            };
            match tree::find_item(model.root, parent) {
                Some(item) => tree::selectable_ids(item.children),
                None => Seq::empty(),
            }
        },
        _ => Seq::empty(),
    }
}

fn listed_ids(state: &State) -> (r: Vec<MenuItemId>)
    ensures
        r@ == listed(state.deep_view()),
{
    match (state.active_menu_model(), state.menu_interaction.open_root) {
        (Some(model), Some(root)) => {
            let parent = match presentation::last_id(&state.menu_interaction.open_path) {
                Some(id) => id,
                None => root,
            };
            match tree::item(model, parent) {
                Some(item) => tree::selectable_children(item),
                None => Vec::new(),
            }
        },
        _ => Vec::new(),
    }
}

/// The id that a step in a list leads to: from nowhere to the near end, and not beyond the far
/// one.
pub open spec fn list_step(ids: Seq<MenuItemId>, current: Option<MenuItemId>, direction: int) -> Option<
    MenuItemId,
> {
    let at = match current {
        Some(id) => seqs::position_in(ids, id),
        None => None,
    };
    if ids.len() == 0 || (direction != 1 && direction != -1) {
        None
    } else {
        match at {
            None => Some(
                if direction == 1 {
                    ids[0]
                } else {
                    ids.last()
                },
            ),
            Some(i) => Some(
                if direction == 1 && i + 1 < ids.len() {
                    ids[i + 1]
                } else if direction == -1 && i > 0 {
                    ids[i - 1]
                } else {
                    ids[i]
                },
            ),
        }
    }
}

fn step_in_list(ids: &Vec<MenuItemId>, current: Option<MenuItemId>, direction: i32) -> (r: Option<
    MenuItemId,
>)
    ensures
        r == list_step(ids@, current, direction as int),
{
    assert(ids.deep_view() =~= ids@);
    if ids.len() == 0 || (direction != 1 && direction != -1) {
        return None;
    }
    let at = match current {
        Some(id) => lists::position(ids, &id),
        None => None,
    };
    match at {
        None => if direction == 1 {
            Some(ids[0])
        } else {
            Some(ids[ids.len() - 1])
        },
        Some(i) => if direction == 1 && i < ids.len() - 1 {
            Some(ids[i + 1])
        } else if direction == -1 && i > 0 {
            Some(ids[i - 1])
        } else {
            Some(ids[i])
        },
    }
}

/// The keyboard has moved up (-1) or down (1), and whether that changes the selection.
#[verifier::opaque]
pub open spec fn list_navigated(s: StateView, direction: int) -> (StateView, bool) {
    match (list_step(listed(s), presentation::selected(s), direction), s.menu_navigation) {
        (Some(next), Some(session)) => {
            let path = s.menu_interaction.open_path.push(next);
            (
                selection_shown(s, Some(path)),
                session.selected_path != Some(path),
            )
        },
        _ => (s, false),
    }
}

pub(crate) fn navigate_list(state: &mut State, direction: i32) -> (r: bool)
    ensures
        (final(state).deep_view(), r) == list_navigated(old(state).deep_view(), direction as int),
{
    proof {
        reveal(list_navigated);
    }
    let children = listed_ids(state);
    let next = match step_in_list(&children, presentation::selected_id(state), direction) {
        Some(next) => next,
        None => {
            return false;
        },
    };
    let mut path = state.menu_interaction.open_path.dup();
    lists::push(&mut path, next);
    let changed = match &state.menu_navigation {
        Some(session) => match &session.selected_path {
            Some(selected) => !selected.same(&path),
            None => true,
        },
        None => {
            return false;
        },
    };
    show_selection(state, Some(path));
    changed
}

/// The top-level menu beside the open one, to the left (below 0) or to the right.
pub open spec fn root_beside(s: StateView, direction: int) -> Option<MenuItemId> {
    match (s.active_menu_model(), s.menu_interaction.open_root) {
        (Some(model), Some(current)) => {
            let roots = tree::selectable_ids(model.root.children);
            match seqs::position_in(roots, current) {
                Some(i) => if direction < 0 && i > 0 {
                    Some(roots[i - 1])
                } else if direction >= 0 && i + 1 < roots.len() {
                    Some(roots[i + 1])
                } else {
                    None
                },
                None => None,
            }
        },
        _ => None,
    }
}

/// A top-level menu is open, none of its items is highlighted, and the keyboard selects it.
pub open spec fn root_shown(s: StateView, id: MenuItemId) -> StateView {
    StateView {
        menu_navigation: with_selection(s.menu_navigation, Some(seq![id])),
        menu_interaction: MenuInteractionStateView {
            open_root: Some(id),
            open_path: seq![id],
            hovered_path: Seq::empty(),
            ..s.menu_interaction
        },
        ..s
    }
}

pub(crate) fn show_root(state: &mut State, id: MenuItemId)
    ensures
        final(state).deep_view() == root_shown(old(state).deep_view(), id),
{
    state.menu_interaction.open_root = Some(id);
    state.menu_interaction.open_path = path_of(id);
    state.menu_interaction.hovered_path = Vec::new();
    assert(state.menu_interaction.hovered_path.deep_view() =~= Seq::<MenuItemId>::empty());
    set_selection(state, Some(path_of(id)));
}

/// The keyboard has moved to the top-level menu beside the open one, where there is one.
#[verifier::opaque]
pub open spec fn root_navigated(s: StateView, direction: int) -> (StateView, bool) {
    match root_beside(s, direction) {
        Some(next) => (root_shown(s, next), true),
        None => (s, false),
    }
}

pub(crate) fn navigate_root(state: &mut State, direction: i32) -> (r: bool)
    ensures
        (final(state).deep_view(), r) == root_navigated(old(state).deep_view(), direction as int),
{
    proof {
        reveal(root_navigated);
    }
    let next = match (state.active_menu_model(), state.menu_interaction.open_root) {
        (Some(model), Some(current)) => {
            let roots = tree::selectable_children(&model.root);
            assert(roots.deep_view() =~= roots@);
            match lists::position(&roots, &current) {
                Some(i) => if direction < 0 && i > 0 {
                    Some(roots[i - 1])
                } else if direction >= 0 && i < roots.len() - 1 {
                    Some(roots[i + 1])
                } else {
                    None
                },
                None => None,
            }
        },
        _ => None,
    };
    match next {
        Some(next) => {
            show_root(state, next);
            true
        },
        None => false,
    }
}

/// Whether an item of a menu is shown and can be used, and another one right above it has it.
pub open spec fn is_open_below(model: MenuModelView, parent: MenuItemId, child: MenuItemId) -> bool {
    tree::find_item(model.root, parent) matches Some(item) && exists|i: int|
        0 <= i < item.children.len() && (#[trigger] item.children[i]).id == child
            && item.children[i].visible && item.children[i].enabled
}

proof fn lemma_path_continued(model: MenuModelView, path: Seq<MenuItemId>, ids: Seq<MenuItemId>)
    requires
        path.len() > 0,
    ensures
        ({
            let open = path_continued(model, path, ids);
            &&& path.len() <= open.len() <= path.len() + ids.len()
            &&& open == (path + ids).take(open.len() as int)
            &&& forall|i: int|
                path.len() <= i < open.len() ==> is_open_below(model, open[i - 1], #[trigger] open[i])
            &&& open.len() < path.len() + ids.len() ==> !is_open_below(
                model,
                open.last(),
                ids[open.len() - path.len()],
            )
        }),
    decreases ids.len(),
{
    let open = path_continued(model, path, ids);
    if ids.len() > 0 {
        lemma_usable_step(model, path.last(), ids[0]);
    }
    if ids.len() > 0 && usable_step(model, path.last(), ids[0]) {
        let longer = path.push(ids[0]);
        let rest = ids.skip(1);
        lemma_path_continued(model, longer, rest);
        assert(longer + rest =~= path + ids);
        assert(open[path.len() as int] == ids[0] && open[path.len() - 1] == path.last());
        assert forall|i: int| path.len() <= i < open.len() implies is_open_below(
            model,
            open[i - 1],
            #[trigger] open[i],
        ) by {
            if i > path.len() {
                assert(is_open_below(model, open[i - 1], open[i]));
            }
        }
    } else {
        assert(open =~= (path + ids).take(path.len() as int));
    }
}

proof fn lemma_usable_step(model: MenuModelView, parent: MenuItemId, child: MenuItemId)
    ensures
        usable_step(model, parent, child) == is_open_below(model, parent, child),
{
    let p = |c: MenuItemView| c.id == child && is_usable(c);
    if tree::find_item(model.root, parent) is Some {
        let item = tree::find_item(model.root, parent)->0;
        if usable_step(model, parent, child) {
            let i = choose|i: int| 0 <= i < item.children.len() && p(#[trigger] item.children[i]);
            assert(item.children[i].id == child);
        }
        if is_open_below(model, parent, child) {
            let i = choose|i: int|
                0 <= i < item.children.len() && (#[trigger] item.children[i]).id == child
                    && item.children[i].visible && item.children[i].enabled;
            assert(p(item.children[i]));
        }
    }
}

/// What is open of a menu that has changed stays open as far as it can still be used, from the root on
/// and without a gap; where the root cannot be used nothing is open. Nothing is open that was not.
pub proof fn lemma_open_stays_where_usable(s: StateView, model: MenuModelView, root: MenuItemId)
    requires
        s.active_menu_model() == Some(model),
        s.menu_interaction.open_root == Some(root),
        s.menu_interaction.open_path.len() > 0,
        s.menu_interaction.open_path[0] == root,
    ensures
        ({
            let before = s.menu_interaction.open_path;
            let after = normalized(s).menu_interaction;
            let usable = tree::find_item(model.root, root) matches Some(item) && item.visible
                && item.enabled;
            &&& usable ==> {
                let open = after.open_path;
                &&& after.open_root == Some(root)
                &&& 1 <= open.len() <= before.len()
                &&& open == before.take(open.len() as int)
                &&& forall|i: int|
                    1 <= i < open.len() ==> is_open_below(model, open[i - 1], #[trigger] open[i])
                &&& open.len() < before.len() ==> !is_open_below(
                    model,
                    open.last(),
                    before[open.len() as int],
                )
            }
            &&& !usable ==> after.open_root is None && after.open_path.len() == 0
        }),
{
    reveal(normalized);
    let before = s.menu_interaction.open_path;
    let first = seq![root];
    lemma_path_continued(model, first, before.skip(1));
    assert(first + before.skip(1) =~= before);
}

} // verus!
