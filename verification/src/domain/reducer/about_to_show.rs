//! Telling an application that one of its submenus is about to be shown.
use vstd::prelude::*;

use crate::domain::menu;
use crate::domain::menu::{
    MenuItemId, MenuModel, MenuModelView, MenuRegistry, MenuRegistryView, MenuSource,
    MenuSourceView,
};
use crate::domain::reducer::navigation;
use crate::domain::reducer::presentation;
use crate::domain::reducer::tree;
use crate::domain::state::{
    AboutToShowPending, AboutToShowPendingView, MenuInteractionStateView, MenuState, MenuStateView,
    State, StateView, WindowId,
};
use crate::value::Value;

verus! {

/// The request is made on account of a top-level menu that is wanted open, under the watcher that
/// is current.
pub open spec fn is_for_lazy_root(s: StateView, request: AboutToShowPendingView) -> bool {
    &&& request.lazy_root
    &&& s.menu_interaction.pending_lazy_root matches Some(pending)
    &&& pending.window_id == request.window_id
    &&& pending.endpoint == request.endpoint
    &&& pending.item_id == request.item_id
    &&& request.intent_id == Some(pending.intent_id)
    &&& request.watcher_generation == Some(pending.watcher_generation)
    &&& s.watcher_generations.contains_key(request.endpoint)
    &&& request.watcher_generation == Some(s.watcher_generations[request.endpoint])
}

fn for_lazy_root(state: &State, request: &AboutToShowPending) -> (r: bool)
    ensures
        r == is_for_lazy_root(state.deep_view(), request.deep_view()),
{
    let current = match state.watcher_generations.get(&request.endpoint) {
        Some(generation) => request.watcher_generation.same(&Some(*generation)),
        None => false,
    };
    match &state.menu_interaction.pending_lazy_root {
        Some(pending) => request.lazy_root && pending.window_id == request.window_id
            && pending.endpoint.same(&request.endpoint) && pending.item_id == request.item_id
            && request.intent_id.same(&Some(pending.intent_id)) && request.watcher_generation.same(
            &Some(pending.watcher_generation),
        ) && current,
        None => false,
    }
}

/// The request is made for the item that the pointer is over.
pub open spec fn is_for_hovered(s: StateView, request: AboutToShowPendingView) -> bool {
    s.menu_interaction.open_root is Some && presentation::path_end(
        Some(s.menu_interaction.hovered_path),
    ) == Some(request.item_id)
}

/// The loaded menu comes from the given source.
pub open spec fn comes_from(s: StateView, endpoint: MenuSourceView) -> bool {
    match s.menu {
        MenuStateView::Loaded { endpoint: current, .. } => current == endpoint,
        MenuStateView::TrayLoaded { endpoint: current, .. } => MenuSourceView::Tray(current)
            == endpoint,
        _ => false,
    }
}

fn loaded_comes_from(state: &State, endpoint: &MenuSource) -> (r: bool)
    ensures
        r == comes_from(state.deep_view(), endpoint.deep_view()),
{
    match &state.menu {
        MenuState::Loaded { endpoint: current, .. } => current.same(endpoint),
        MenuState::TrayLoaded { endpoint: current, .. } => MenuSource::Tray(current.dup()).same(
            endpoint,
        ),
        _ => false,
    }
}

/// An application is to be told that a submenu is about to be shown.
#[verifier::opaque]
pub open spec fn requested(
    s: StateView,
    registry: MenuRegistryView,
    request: AboutToShowPendingView,
) -> (StateView, bool) {
    if presentation::has_authority(s, registry, request.window_id, request.endpoint) && comes_from(
        s,
        request.endpoint,
    ) && (is_for_hovered(s, request) || is_for_lazy_root(s, request)) {
        (
            StateView {
                menu_interaction: MenuInteractionStateView {
                    pending_about_to_show: Some(request),
                    about_to_show_item: Some(request.item_id),
                    ..s.menu_interaction
                },
                ..s
            },
            true,
        )
    } else {
        (s, false)
    }
}

pub(crate) fn ask(state: &mut State, registry: &MenuRegistry, request: AboutToShowPending) -> (r:
    bool)
    ensures
        (final(state).deep_view(), r) == requested(
            old(state).deep_view(),
            registry.deep_view(),
            request.deep_view(),
        ),
{
    proof {
        reveal(requested);
    }
    let hovered = state.menu_interaction.open_root.is_some() && presentation::last_id(
        &state.menu_interaction.hovered_path,
    ).same(&Some(request.item_id));
    let authorized = presentation::authorized(
        state,
        registry,
        request.window_id,
        &request.endpoint,
    );
    if authorized && loaded_comes_from(state, &request.endpoint) && (hovered || for_lazy_root(
        state,
        &request,
    )) {
        state.menu_interaction.about_to_show_item = Some(request.item_id);
        state.menu_interaction.pending_about_to_show = Some(request);
        true
    } else {
        false
    }
}

/// The number, or 0 where there is none.
pub open spec fn or_zero(n: Option<u64>) -> u64 {
    match n {
        Some(n) => n,
        None => 0,
    }
}

/// The top-level menu on whose account a request was made is still wanted open.
pub open spec fn is_still_wanted(s: StateView, request: AboutToShowPendingView) -> bool {
    &&& s.menu_interaction.pending_lazy_root matches Some(pending)
    &&& pending.window_id == request.window_id
    &&& pending.endpoint == request.endpoint
    &&& pending.item_id == request.item_id
    &&& pending.intent_id == or_zero(request.intent_id)
    &&& pending.watcher_generation == or_zero(request.watcher_generation)
}

fn still_wanted(state: &State, request: &AboutToShowPending) -> (r: bool)
    ensures
        r == is_still_wanted(state.deep_view(), request.deep_view()),
{
    match &state.menu_interaction.pending_lazy_root {
        Some(pending) => {
            let intent_id = match request.intent_id {
                Some(id) => id,
                None => 0,
            };
            let watcher_generation = match request.watcher_generation {
                Some(generation) => generation,
                None => 0,
            };
            pending.window_id == request.window_id && pending.endpoint.same(&request.endpoint)
                && pending.item_id == request.item_id && pending.intent_id == intent_id
                && pending.watcher_generation == watcher_generation
        },
        None => false,
    }
}

/// An answer is awaited: it is to the request that is pending, whose source may still present the
/// menu, and whose item is still wanted.
pub open spec fn is_awaited(
    s: StateView,
    registry: MenuRegistryView,
    request: AboutToShowPendingView,
) -> bool {
    &&& s.menu_interaction.pending_about_to_show == Some(request)
    &&& presentation::has_authority(s, registry, request.window_id, request.endpoint)
    &&& if request.lazy_root {
        is_still_wanted(s, request)
    } else {
        presentation::path_end(Some(s.menu_interaction.hovered_path)) == Some(request.item_id)
    }
}

fn awaited(state: &State, registry: &MenuRegistry, request: &AboutToShowPending) -> (r: bool)
    ensures
        r == is_awaited(state.deep_view(), registry.deep_view(), request.deep_view()),
{
    let pending = match &state.menu_interaction.pending_about_to_show {
        Some(pending) => pending.same(request),
        None => false,
    };
    if !pending || !presentation::authorized(
        state,
        registry,
        request.window_id,
        &request.endpoint,
    ) {
        return false;
    }
    if request.lazy_root {
        still_wanted(state, request)
    } else {
        presentation::last_id(&state.menu_interaction.hovered_path).same(&Some(request.item_id))
    }
}

/// The item has a submenu that can be opened.
pub open spec fn has_open_submenu(s: StateView, id: MenuItemId) -> bool {
    match s.active_menu_model() {
        Some(model) => match tree::find_item(model.root, id) {
            Some(item) => navigation::is_usable(item) && item.children_display is Some
                && item.children.len() > 0,
            None => false,
        },
        None => false,
    }
}

fn may_open_submenu(state: &State, id: MenuItemId) -> (r: bool)
    ensures
        r == has_open_submenu(state.deep_view(), id),
{
    match state.active_menu_model() {
        Some(model) => match tree::item(model, id) {
            Some(item) => {
                proof {
                    menu::lemma_item_children(*item);
                }
                item.visible && item.enabled && item.children_display.is_some()
                    && !item.children.is_empty()
            },
            None => false,
        },
        None => false,
    }
}

/// A path that starts at the given root.
pub open spec fn rooted(path: Seq<MenuItemId>, root: Option<MenuItemId>) -> Seq<MenuItemId> {
    match root {
        Some(id) => if path.len() > 0 && path[0] == id {
            path
        } else {
            seq![id] + path
        },
        None => path,
    }
}

fn root_path(path: &Vec<MenuItemId>, root: Option<MenuItemId>) -> (r: Vec<MenuItemId>)
    ensures
        r.deep_view() == rooted(path.deep_view(), root),
{
    let mut rooted_path = path.dup();
    match root {
        Some(id) => {
            if path.len() == 0 || path[0] != id {
                rooted_path.insert(0, id);
                assert(rooted_path.deep_view() =~= seq![id] + path.deep_view());
            }
        },
        None => {},
    }
    rooted_path
}

/// The submenu that the pointer is over is opened, where the menu has it.
pub open spec fn submenu_opened(s: StateView, id: MenuItemId) -> StateView {
    if has_open_submenu(s, id) {
        StateView {
            menu_interaction: MenuInteractionStateView {
                open_path: rooted(s.menu_interaction.hovered_path, s.menu_interaction.open_root),
                ..s.menu_interaction
            },
            ..s
        }
    } else {
        s
    }
}

fn open_submenu(state: &mut State, id: MenuItemId)
    ensures
        final(state).deep_view() == submenu_opened(old(state).deep_view(), id),
{
    if may_open_submenu(state, id) {
        let path = root_path(
            &state.menu_interaction.hovered_path,
            state.menu_interaction.open_root,
        );
        state.menu_interaction.open_path = path;
    }
}

/// A menu that has been loaded anew.
pub open spec fn loaded_state(
    window_id: WindowId,
    endpoint: MenuSourceView,
    model: MenuModelView,
) -> MenuStateView {
    match endpoint {
        MenuSourceView::Tray(e) => MenuStateView::TrayLoaded { endpoint: e, model },
        _ => MenuStateView::Loaded { window_id, endpoint, model },
    }
}

/// No answer is awaited.
pub open spec fn request_dropped(s: StateView) -> StateView {
    StateView {
        menu_interaction: MenuInteractionStateView {
            pending_about_to_show: None,
            ..s.menu_interaction
        },
        ..s
    }
}

fn drop_request(state: &mut State)
    ensures
        final(state).deep_view() == request_dropped(old(state).deep_view()),
{
    state.menu_interaction.pending_about_to_show = None;
}

/// No top-level menu is wanted open.
pub open spec fn wish_dropped(s: StateView) -> StateView {
    StateView {
        menu_interaction: MenuInteractionStateView {
            pending_lazy_root: None,
            ..s.menu_interaction
        },
        ..s
    }
}

fn drop_wish(state: &mut State)
    ensures
        final(state).deep_view() == wish_dropped(old(state).deep_view()),
{
    state.menu_interaction.pending_lazy_root = None;
}

/// An application has answered. An error gives up the top-level menu on whose account it was
/// asked; a changed menu replaces the one shown; the submenu is opened where it has children.
#[verifier::opaque]
pub open spec fn completed(
    s: StateView,
    registry: MenuRegistryView,
    request: AboutToShowPendingView,
    need_update: bool,
    model: Option<MenuModelView>,
    failed: bool,
) -> (StateView, bool) {
    if !is_awaited(s, registry, request) {
        (s, false)
    } else {
        let s1 = request_dropped(s);
        (
            if failed && request.lazy_root {
                presentation::lazy_root_given_up(wish_dropped(s1), registry, request.item_id)
            } else if failed || request.lazy_root {
                s1
            } else if need_update {
                match model {
                    Some(m) => submenu_opened(
                        navigation::normalized(
                            StateView {
                                menu: loaded_state(request.window_id, request.endpoint, m),
                                ..s1
                            },
                        ),
                        request.item_id,
                    ),
                    None => s1,
                }
            } else {
                submenu_opened(s1, request.item_id)
            },
            true,
        )
    }
}

fn replace_menu(state: &mut State, window_id: WindowId, endpoint: MenuSource, model: MenuModel)
    ensures
        final(state).deep_view() == (StateView {
            menu: loaded_state(window_id, endpoint.deep_view(), model.deep_view()),
            ..old(state).deep_view()
        }),
{
    let menu = match endpoint {
        MenuSource::Tray(e) => MenuState::TrayLoaded { endpoint: e, model },
        other => MenuState::Loaded { window_id, endpoint: other, model },
    };
    presentation::set_menu(state, menu);
}

pub(crate) fn answer(
    state: &mut State,
    registry: &MenuRegistry,
    request: AboutToShowPending,
    need_update: bool,
    model: Option<MenuModel>,
    failed: bool,
) -> (r: bool)
    ensures
        (final(state).deep_view(), r) == completed(
            old(state).deep_view(),
            registry.deep_view(),
            request.deep_view(),
            need_update,
            model.deep_view(),
            failed,
        ),
{
    proof {
        reveal(completed);
    }
    if !awaited(state, registry, &request) {
        return false;
    }
    let item_id = request.item_id;
    drop_request(state);
    if failed && request.lazy_root {
        drop_wish(state);
        presentation::teardown_navigation_waiting_for_lazy_root(state, registry, item_id);
    } else if failed || request.lazy_root {
    } else if need_update {
        match model {
            Some(m) => {
                replace_menu(state, request.window_id, request.endpoint, m);
                navigation::normalize_interaction(state);
                open_submenu(state, item_id);
            },
            None => {},
        }
    } else {
        open_submenu(state, item_id);
    }
    true
}

} // verus!
