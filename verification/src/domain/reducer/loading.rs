//! How menus come, change and go.
use vstd::prelude::*;

use crate::domain::menu;
use crate::domain::menu::{
    GtkMenuEndpoint, GtkMenuEndpointView, MenuEndpoint, MenuEndpointView, MenuItem, MenuItemId,
    MenuItemPropertiesUpdate, MenuItemPropertiesUpdateView, MenuItemView, MenuModel,
    MenuModelView, MenuRegistry, MenuRegistryView, MenuSource, MenuSourceView,
};
use crate::domain::reducer::navigation;
use crate::domain::reducer::presentation;
use crate::domain::reducer::tree;
use crate::domain::state::{
    LazyRootOpenPending, LazyRootOpenPendingView, MenuInteractionStateView, MenuState,
    MenuStateView, State, StateView, WindowId,
};
use crate::lists;
use crate::seqs;
use crate::table;
use crate::table::Table;
use crate::value::Value;

verus! {

/// The presentation goes along where the focused window got another menu.
pub open spec fn focus_menu_changed(
    s: StateView,
    registry: MenuRegistryView,
    window_id: WindowId,
) -> StateView {
    if presentation::follows_focus(s) && s.focused_window == Some(window_id) {
        presentation::reconciled(s, registry)
    } else {
        s
    }
}

fn focused_menu_changed(state: &mut State, registry: &MenuRegistry, window_id: WindowId)
    ensures
        final(state).deep_view() == focus_menu_changed(
            old(state).deep_view(),
            registry.deep_view(),
            window_id,
        ),
{
    if presentation::presentation_follows_focus(state) && state.focused_window.same(
        &Some(window_id),
    ) {
        presentation::reconcile_menu_presentation_to_focus(state, registry);
    }
}

/// An application has registered a menu for a window.
pub open spec fn menu_registered(
    s: StateView,
    registry: MenuRegistryView,
    window_id: WindowId,
    endpoint: MenuSourceView,
) -> (StateView, MenuRegistryView, bool) {
    match endpoint {
        MenuSourceView::DbusMenu(e) => {
            let registry1 = menu::with_registered(registry, window_id, e);
            (focus_menu_changed(s, registry1, window_id), registry1, true)
        },
        _ => (s, registry, false),
    }
}

pub(crate) fn register_menu(
    state: &mut State,
    registry: &mut MenuRegistry,
    window_id: WindowId,
    endpoint: MenuSource,
) -> (r: bool)
    ensures
        (final(state).deep_view(), final(registry).deep_view(), r) == menu_registered(
            old(state).deep_view(),
            old(registry).deep_view(),
            window_id,
            endpoint.deep_view(),
        ),
{
    match endpoint {
        MenuSource::DbusMenu(e) => {
            registry.register(window_id, e.service, e.object_path);
            focused_menu_changed(state, registry, window_id);
            true
        },
        _ => false,
    }
}

/// A menu has been discovered on a window.
pub open spec fn menu_discovered(
    s: StateView,
    registry: MenuRegistryView,
    window_id: WindowId,
    endpoint: GtkMenuEndpointView,
) -> (StateView, MenuRegistryView, bool) {
    let changed = menu::sources_of(registry, window_id).gtk != Some(endpoint);
    let registry1 = menu::with_discovered(registry, window_id, endpoint);
    (
        if changed {
            focus_menu_changed(s, registry1, window_id)
        } else {
            s
        },
        registry1,
        changed,
    )
}

pub(crate) fn discover_menu(
    state: &mut State,
    registry: &mut MenuRegistry,
    window_id: WindowId,
    endpoint: GtkMenuEndpoint,
) -> (r: bool)
    ensures
        (final(state).deep_view(), final(registry).deep_view(), r) == menu_discovered(
            old(state).deep_view(),
            old(registry).deep_view(),
            window_id,
            endpoint.deep_view(),
        ),
{
    let changed = match registry.gtk(window_id) {
        Some(current) => !current.same(&endpoint),
        None => true,
    };
    registry.register_gtk(window_id, endpoint);
    if changed {
        focused_menu_changed(state, registry, window_id);
    }
    changed
}

/// The discovered menu of a window is gone. A registered one takes its place.
pub open spec fn discovered_menu_removed(
    s: StateView,
    registry: MenuRegistryView,
    window_id: WindowId,
    endpoint: GtkMenuEndpointView,
) -> (StateView, MenuRegistryView, bool) {
    if menu::sources_of(registry, window_id).gtk == Some(endpoint) {
        let registry1 = menu::without_discovered(registry, window_id);
        (
            if s.menu_presentation_window() == Some(window_id) && menu::registered(
                registry1,
                window_id,
            ) is None {
                presentation::withdrawn(s, registry1)
            } else {
                s
            },
            registry1,
            true,
        )
    } else {
        (s, registry, false)
    }
}

pub(crate) fn remove_discovered_menu(
    state: &mut State,
    registry: &mut MenuRegistry,
    window_id: WindowId,
    endpoint: &GtkMenuEndpoint,
) -> (r: bool)
    ensures
        (final(state).deep_view(), final(registry).deep_view(), r) == discovered_menu_removed(
            old(state).deep_view(),
            old(registry).deep_view(),
            window_id,
            endpoint.deep_view(),
        ),
{
    let removed = registry.remove_gtk_if_matches(window_id, endpoint);
    if removed && state.menu_presentation_window().same(&Some(window_id)) && registry.get(
        window_id,
    ).is_none() {
        presentation::withdraw_presentation(state, registry);
    }
    removed
}

/// The registered menu of a window is gone, and so is the watcher of its source.
pub open spec fn menu_unregistered(
    s: StateView,
    registry: MenuRegistryView,
    window_id: WindowId,
) -> (StateView, MenuRegistryView, bool) {
    let registry1 = menu::without_registered(registry, window_id);
    match menu::registered(registry, window_id) {
        Some(endpoint) => {
            let s1 = StateView {
                watcher_generations: s.watcher_generations.remove(
                    MenuSourceView::DbusMenu(endpoint),
                ),
                ..s
            };
            (
                if s.menu_presentation_window() == Some(window_id) {
                    presentation::withdrawn(s1, registry1)
                } else {
                    s1
                },
                registry1,
                true,
            )
        },
        None => (s, registry1, false),
    }
}

fn forget_watcher(state: &mut State, endpoint: &MenuSource)
    ensures
        final(state).deep_view() == (StateView {
            watcher_generations: old(state).deep_view().watcher_generations.remove(
                endpoint.deep_view(),
            ),
            ..old(state).deep_view()
        }),
{
    state.watcher_generations.remove(endpoint);
}

pub(crate) fn unregister_menu(
    state: &mut State,
    registry: &mut MenuRegistry,
    window_id: WindowId,
) -> (r: bool)
    ensures
        (final(state).deep_view(), final(registry).deep_view(), r) == menu_unregistered(
            old(state).deep_view(),
            old(registry).deep_view(),
            window_id,
        ),
{
    match registry.unregister(window_id) {
        Some(endpoint) => {
            forget_watcher(state, &MenuSource::DbusMenu(endpoint));
            if state.menu_presentation_window().same(&Some(window_id)) {
                presentation::withdraw_presentation(state, registry);
            }
            true
        },
        None => false,
    }
}

/// The source is a menu that the given bus name serves.
pub open spec fn is_served_by(source: MenuSourceView, owner: Seq<char>) -> bool {
    source matches MenuSourceView::DbusMenu(e) && e.service == owner
}

pub(crate) fn served_by(source: &MenuSource, owner: &String) -> (r: bool)
    ensures
        r == is_served_by(source.deep_view(), owner@),
{
    match source {
        MenuSource::DbusMenu(e) => e.service.same(owner),
        _ => false,
    }
}

/// The watchers without those of menus that the given bus name serves.
pub open spec fn watchers_without_owner(
    generations: Map<MenuSourceView, u64>,
    owner: Seq<char>,
) -> Map<MenuSourceView, u64> {
    table::restricted(generations, |e: MenuSourceView| !is_served_by(e, owner))
}

pub(crate) fn drop_watchers_of(generations: &mut Table<MenuSource, u64>, owner: &String)
    ensures
        final(generations).deep_view() == watchers_without_owner(
            old(generations).deep_view(),
            owner@,
        ),
{
    let keep = |e: &MenuSource| -> (b: bool)
        ensures
            b == !is_served_by(e.deep_view(), owner@),
    {
        !served_by(e, owner)
    };
    generations.retain(keep, Ghost(|e: MenuSourceView| !is_served_by(e, owner@)));
}

/// A bus name is gone, and with it all its menus and their watchers.
pub open spec fn owner_vanished(
    s: StateView,
    registry: MenuRegistryView,
    sender: Seq<char>,
) -> (StateView, MenuRegistryView, bool) {
    let registry1 = menu::registry_without_owner(registry, sender);
    let s1 = StateView {
        watcher_generations: watchers_without_owner(s.watcher_generations, sender),
        ..s
    };
    (
        if s.menu_presentation_window() matches Some(w) && menu::window_owned_by(
            registry,
            w,
            sender,
        ) {
            presentation::withdrawn(s1, registry1)
        } else {
            s1
        },
        registry1,
        exists|w: WindowId| menu::window_owned_by(registry, w, sender),
    )
}

fn forget_watchers_of(state: &mut State, owner: &String)
    ensures
        final(state).deep_view() == (StateView {
            watcher_generations: watchers_without_owner(
                old(state).deep_view().watcher_generations,
                owner@,
            ),
            ..old(state).deep_view()
        }),
{
    drop_watchers_of(&mut state.watcher_generations, owner);
}

pub(crate) fn forget_owner(state: &mut State, registry: &mut MenuRegistry, sender: String) -> (r:
    bool)
    ensures
        (final(state).deep_view(), final(registry).deep_view(), r) == owner_vanished(
            old(state).deep_view(),
            old(registry).deep_view(),
            sender@,
        ),
{
    let ghost registry0 = registry.deep_view();
    let removed = registry.remove_sender(sender.as_str());
    assert(removed.deep_view() =~= removed@);
    forget_watchers_of(state, &sender);
    match state.menu_presentation_window() {
        Some(window) => {
            if lists::contains(&removed, &window) {
                presentation::withdraw_presentation(state, registry);
            }
        },
        None => {},
    }
    proof {
        if removed.len() > 0 {
            assert(removed@.contains(removed@[0]));
        }
        if exists|w: WindowId| menu::window_owned_by(registry0, w, sender@) {
            let w = choose|w: WindowId| menu::window_owned_by(registry0, w, sender@);
            assert(removed@.contains(w));
        }
    }
    !removed.is_empty()
}

/// The menu of a source is to be loaded.
pub open spec fn loading_state(
    window_id: WindowId,
    endpoint: MenuSourceView,
    request_id: u64,
) -> MenuStateView {
    match endpoint {
        MenuSourceView::Tray(e) => MenuStateView::TrayLoading { endpoint: e, request_id },
        _ => MenuStateView::Loading { window_id, endpoint, request_id },
    }
}

/// A menu has been asked for, which counts only from a source that may present it.
pub open spec fn load_requested(
    s: StateView,
    registry: MenuRegistryView,
    window_id: WindowId,
    endpoint: MenuSourceView,
    request_id: u64,
) -> (StateView, bool) {
    if presentation::has_authority(s, registry, window_id, endpoint) {
        (
            StateView {
                audio_popup_open: false,
                audio_dragging: false,
                audio_drag_input: false,
                menu: loading_state(window_id, endpoint, request_id),
                ..s
            },
            true,
        )
    } else {
        (s, false)
    }
}

pub(crate) fn request_load(
    state: &mut State,
    registry: &MenuRegistry,
    window_id: WindowId,
    endpoint: MenuSource,
    request_id: u64,
) -> (r: bool)
    ensures
        (final(state).deep_view(), r) == load_requested(
            old(state).deep_view(),
            registry.deep_view(),
            window_id,
            endpoint.deep_view(),
            request_id,
        ),
{
    if !presentation::authorized(state, registry, window_id, &endpoint) {
        return false;
    }
    state.audio_popup_open = false;
    state.audio_dragging = false;
    state.audio_drag_input = false;
    let menu = match endpoint {
        MenuSource::Tray(e) => MenuState::TrayLoading { endpoint: e, request_id },
        other => MenuState::Loading { window_id, endpoint: other, request_id },
    };
    presentation::set_menu(state, menu);
    true
}

/// The watcher of a source is the one of the given generation.
pub open spec fn is_watched(s: StateView, endpoint: MenuSourceView, generation: u64) -> bool {
    s.watcher_generations.contains_key(endpoint) && s.watcher_generations[endpoint] == generation
}

fn watched(state: &State, endpoint: &MenuSource, generation: u64) -> (r: bool)
    ensures
        r == is_watched(state.deep_view(), endpoint.deep_view(), generation),
{
    match state.watcher_generations.get(endpoint) {
        Some(current) => *current == generation,
        None => false,
    }
}

/// The layout of a top-level menu that is wanted open has been asked for.
#[verifier::opaque]
pub open spec fn lazy_layout_requested(
    s: StateView,
    registry: MenuRegistryView,
    window_id: WindowId,
    endpoint: MenuSourceView,
    request_id: u64,
    intent_id: u64,
    watcher_generation: u64,
) -> (StateView, bool) {
    match s.menu_interaction.pending_lazy_root {
        Some(pending) => if pending.window_id == window_id && pending.endpoint == endpoint
            && pending.intent_id == intent_id && pending.watcher_generation == watcher_generation
            && is_watched(s, endpoint, watcher_generation)
            && presentation::presented_and_registered(s, registry, window_id, endpoint) {
            (
                StateView {
                    menu: MenuStateView::Loading { window_id, endpoint, request_id },
                    menu_interaction: MenuInteractionStateView {
                        pending_lazy_root: Some(
                            LazyRootOpenPendingView {
                                layout_request_id: Some(request_id),
                                ..pending
                            },
                        ),
                        ..s.menu_interaction
                    },
                    ..s
                },
                true,
            )
        } else {
            (s, false)
        },
        None => (s, false),
    }
}

fn set_lazy_layout_request(state: &mut State, request_id: u64)
    requires
        old(state).deep_view().menu_interaction.pending_lazy_root is Some,
    ensures
        final(state).deep_view() == (StateView {
            menu_interaction: MenuInteractionStateView {
                pending_lazy_root: Some(
                    LazyRootOpenPendingView {
                        layout_request_id: Some(request_id),
                        ..old(state).deep_view().menu_interaction.pending_lazy_root->0
                    },
                ),
                ..old(state).deep_view().menu_interaction
            },
            ..old(state).deep_view()
        }),
{
    match &mut state.menu_interaction.pending_lazy_root {
        Some(pending) => {
            pending.layout_request_id = Some(request_id);
        },
        None => {},
    }
}

pub(crate) fn request_lazy_layout(
    state: &mut State,
    registry: &MenuRegistry,
    window_id: WindowId,
    endpoint: MenuSource,
    request_id: u64,
    intent_id: u64,
    watcher_generation: u64,
) -> (r: bool)
    ensures
        (final(state).deep_view(), r) == lazy_layout_requested(
            old(state).deep_view(),
            registry.deep_view(),
            window_id,
            endpoint.deep_view(),
            request_id,
            intent_id,
            watcher_generation,
        ),
{
    proof {
        reveal(lazy_layout_requested);
    }
    let valid = match &state.menu_interaction.pending_lazy_root {
        Some(pending) => pending.window_id == window_id && pending.endpoint.same(&endpoint)
            && pending.intent_id == intent_id && pending.watcher_generation == watcher_generation
            && watched(state, &endpoint, watcher_generation)
            && presentation::presentation_matches_registry(state, registry, window_id, &endpoint),
        None => false,
    };
    if !valid {
        return false;
    }
    set_lazy_layout_request(state, request_id);
    presentation::set_menu(state, MenuState::Loading { window_id, endpoint, request_id });
    true
}

/// No top-level menu is wanted open any more.
pub open spec fn lazy_root_dropped(s: StateView) -> StateView {
    StateView {
        menu_interaction: MenuInteractionStateView {
            pending_lazy_root: None,
            ..s.menu_interaction
        },
        ..s
    }
}

fn drop_lazy_root(state: &mut State)
    ensures
        final(state).deep_view() == lazy_root_dropped(old(state).deep_view()),
{
    state.menu_interaction.pending_lazy_root = None;
}

/// The layout of a wanted top-level menu has come and is to be asked for once more, or will not
/// get any better.
#[verifier::opaque]
pub open spec fn lazy_load_converged(
    s: StateView,
    registry: MenuRegistryView,
    window_id: WindowId,
    endpoint: MenuSourceView,
    request_id: u64,
    follow_up_request_id: Option<u64>,
) -> (StateView, bool) {
    match s.menu_interaction.pending_lazy_root {
        Some(pending) => if pending.window_id == window_id && pending.endpoint == endpoint
            && pending.layout_request_id == Some(request_id) {
            (
                match follow_up_request_id {
                    Some(next) => StateView {
                        menu_interaction: MenuInteractionStateView {
                            pending_lazy_root: Some(
                                LazyRootOpenPendingView {
                                    layout_request_id: Some(next),
                                    ..pending
                                },
                            ),
                            ..s.menu_interaction
                        },
                        ..s
                    },
                    None => presentation::lazy_root_given_up(
                        lazy_root_dropped(s),
                        registry,
                        pending.item_id,
                    ),
                },
                true,
            )
        } else {
            (s, false)
        },
        None => (s, false),
    }
}

pub(crate) fn converge_lazy_load(
    state: &mut State,
    registry: &MenuRegistry,
    window_id: WindowId,
    endpoint: &MenuSource,
    request_id: u64,
    follow_up_request_id: Option<u64>,
) -> (r: bool)
    ensures
        (final(state).deep_view(), r) == lazy_load_converged(
            old(state).deep_view(),
            registry.deep_view(),
            window_id,
            endpoint.deep_view(),
            request_id,
            follow_up_request_id,
        ),
{
    proof {
        reveal(lazy_load_converged);
    }
    let item_id = match &state.menu_interaction.pending_lazy_root {
        Some(pending) => if pending.window_id == window_id && pending.endpoint.same(endpoint)
            && pending.layout_request_id.same(&Some(request_id)) {
            pending.item_id
        } else {
            return false;
        },
        None => {
            return false;
        },
    };
    match follow_up_request_id {
        Some(next) => {
            set_lazy_layout_request(state, next);
        },
        None => {
            drop_lazy_root(state);
            presentation::teardown_navigation_waiting_for_lazy_root(state, registry, item_id);
        },
    }
    true
}

/// The menu has a top-level menu that can be opened and has children.
pub open spec fn can_open(model: MenuModelView, id: MenuItemId) -> bool {
    seqs::any_in(
        model.root.children,
        |c: MenuItemView|
            c.id == id && navigation::is_usable(c) && tree::opens_submenu(c) && c.children.len()
                > 0,
    )
}

fn may_open(model: &MenuModel, id: MenuItemId) -> (r: bool)
    ensures
        r == can_open(model.deep_view(), id),
{
    proof {
        menu::lemma_item_children(model.root);
    }
    let test = |c: &MenuItem| -> (b: bool)
        ensures
            b == (c.deep_view().id == id && navigation::is_usable(c.deep_view())
                && tree::opens_submenu(c.deep_view()) && c.deep_view().children.len() > 0),
    {
        proof {
            menu::lemma_item_children(*c);
        }
        c.id == id && c.visible && c.enabled && tree::shows_submenu(c) && !c.children.is_empty()
    };
    lists::any(
        &model.root.children,
        test,
        Ghost(
            |c: MenuItemView|
                c.id == id && navigation::is_usable(c) && tree::opens_submenu(c)
                    && c.children.len() > 0,
        ),
    )
}

/// A request is the one that is under way, and its source may still present the menu.
pub open spec fn is_awaited(
    s: StateView,
    registry: MenuRegistryView,
    window_id: WindowId,
    endpoint: MenuSourceView,
    request_id: u64,
) -> bool {
    s.menu == (MenuStateView::Loading { window_id, endpoint, request_id })
        && presentation::has_authority(s, registry, window_id, endpoint)
}

fn awaited(
    state: &State,
    registry: &MenuRegistry,
    window_id: WindowId,
    endpoint: &MenuSource,
    request_id: u64,
) -> (r: bool)
    ensures
        r == is_awaited(
            state.deep_view(),
            registry.deep_view(),
            window_id,
            endpoint.deep_view(),
            request_id,
        ),
{
    match &state.menu {
        MenuState::Loading { window_id: w, endpoint: e, request_id: id } => *w == window_id
            && e.same(endpoint) && *id == request_id && presentation::authorized(
            state,
            registry,
            window_id,
            endpoint,
        ),
        _ => false,
    }
}

/// A menu is there, and is what the windows present.
pub open spec fn model_set(
    s: StateView,
    window_id: WindowId,
    endpoint: MenuSourceView,
    model: MenuModelView,
) -> StateView {
    StateView {
        menu: MenuStateView::Loaded { window_id, endpoint, model },
        global_menu_model: Some((window_id, endpoint, model)),
        ..s
    }
}

fn set_model(state: &mut State, window_id: WindowId, endpoint: MenuSource, model: MenuModel)
    ensures
        final(state).deep_view() == model_set(
            old(state).deep_view(),
            window_id,
            endpoint.deep_view(),
            model.deep_view(),
        ),
{
    state.global_menu_model = Some((window_id, endpoint.dup(), model.dup()));
    state.menu = MenuState::Loaded { window_id, endpoint, model };
}

/// The whole menu is open, from its root.
pub open spec fn tray_root_opened(s: StateView) -> StateView {
    StateView {
        menu_interaction: MenuInteractionStateView {
            open_root: Some(MenuItemId(0)),
            open_path: seq![MenuItemId(0)],
            ..s.menu_interaction
        },
        ..s
    }
}

fn open_tray_root(state: &mut State)
    ensures
        final(state).deep_view() == tray_root_opened(old(state).deep_view()),
{
    state.menu_interaction.open_root = Some(MenuItemId(0));
    state.menu_interaction.open_path = navigation::path_of(MenuItemId(0));
}

/// A top-level menu that was wanted open is opened, where the layout that was asked for on its
/// account has it with children.
pub open spec fn lazy_root_resolved(
    s: StateView,
    pending: Option<LazyRootOpenPendingView>,
    window_id: WindowId,
    endpoint: MenuSourceView,
    request_id: u64,
    model: MenuModelView,
) -> StateView {
    match pending {
        Some(p) => if p.endpoint == endpoint && p.window_id == window_id && p.layout_request_id
            == Some(request_id) && is_watched(s, endpoint, p.watcher_generation) {
            StateView {
                menu_interaction: if can_open(model, p.item_id) {
                    MenuInteractionStateView {
                        open_root: Some(p.item_id),
                        open_path: seq![p.item_id],
                        pending_lazy_root: None,
                        ..s.menu_interaction
                    }
                } else {
                    MenuInteractionStateView { pending_lazy_root: Some(p), ..s.menu_interaction }
                },
                ..s
            }
        } else {
            s
        },
        None => s,
    }
}

fn resolve_lazy_root(
    state: &mut State,
    pending: Option<LazyRootOpenPending>,
    window_id: WindowId,
    endpoint: &MenuSource,
    request_id: u64,
    model: &MenuModel,
)
    ensures
        final(state).deep_view() == lazy_root_resolved(
            old(state).deep_view(),
            pending.deep_view(),
            window_id,
            endpoint.deep_view(),
            request_id,
            model.deep_view(),
        ),
{
    match pending {
        Some(p) => {
            if p.endpoint.same(endpoint) && p.window_id == window_id && p.layout_request_id.same(
                &Some(request_id),
            ) && watched(state, endpoint, p.watcher_generation) {
                if may_open(model, p.item_id) {
                    state.menu_interaction.open_root = Some(p.item_id);
                    state.menu_interaction.open_path = navigation::path_of(p.item_id);
                    state.menu_interaction.pending_lazy_root = None;
                } else {
                    state.menu_interaction.pending_lazy_root = Some(p);
                }
            }
        },
        None => {},
    }
}

/// A menu has come, which counts only in answer to the request that is under way.
#[verifier::opaque]
pub open spec fn menu_loaded(
    s: StateView,
    registry: MenuRegistryView,
    window_id: WindowId,
    endpoint: MenuSourceView,
    request_id: u64,
    model: MenuModelView,
) -> (StateView, bool) {
    if is_awaited(s, registry, window_id, endpoint, request_id) {
        let s1 = model_set(s, window_id, endpoint, model);
        let s2 = if endpoint is Tray {
            tray_root_opened(s1)
        } else {
            s1
        };
        (
            lazy_root_resolved(
                navigation::normalized(s2),
                s.menu_interaction.pending_lazy_root,
                window_id,
                endpoint,
                request_id,
                model,
            ),
            true,
        )
    } else {
        (s, false)
    }
}

pub(crate) fn load_menu(
    state: &mut State,
    registry: &MenuRegistry,
    window_id: WindowId,
    endpoint: MenuSource,
    request_id: u64,
    model: MenuModel,
) -> (r: bool)
    ensures
        (final(state).deep_view(), r) == menu_loaded(
            old(state).deep_view(),
            registry.deep_view(),
            window_id,
            endpoint.deep_view(),
            request_id,
            model.deep_view(),
        ),
{
    proof {
        reveal(menu_loaded);
    }
    if !awaited(state, registry, window_id, &endpoint, request_id) {
        return false;
    }
    let pending = state.menu_interaction.pending_lazy_root.dup();
    set_model(state, window_id, endpoint.dup(), model.dup());
    let tray = match &endpoint {
        MenuSource::Tray(_) => true,
        _ => false,
    };
    if tray {
        open_tray_root(state);
    }
    navigation::normalize_interaction(state);
    resolve_lazy_root(state, pending, window_id, &endpoint, request_id, &model);
    true
}

/// A menu could not be loaded.
#[verifier::opaque]
pub open spec fn menu_failed(
    s: StateView,
    registry: MenuRegistryView,
    window_id: WindowId,
    endpoint: MenuSourceView,
    request_id: u64,
    error: Seq<char>,
) -> (StateView, bool) {
    if is_awaited(s, registry, window_id, endpoint, request_id) {
        let s1 = presentation::closed(
            StateView { menu: MenuStateView::Error { window_id, endpoint, request_id, error }, ..s },
        );
        (
            match s.menu_interaction.pending_lazy_root {
                Some(pending) => presentation::lazy_root_given_up(s1, registry, pending.item_id),
                None => s1,
            },
            true,
        )
    } else {
        (s, false)
    }
}

fn pending_lazy_item(state: &State) -> (r: Option<MenuItemId>)
    ensures
        r == (match state.deep_view().menu_interaction.pending_lazy_root {
            Some(pending) => Some(pending.item_id),
            None => None,
        }),
{
    match &state.menu_interaction.pending_lazy_root {
        Some(pending) => Some(pending.item_id),
        None => None,
    }
}

pub(crate) fn fail_menu(
    state: &mut State,
    registry: &MenuRegistry,
    window_id: WindowId,
    endpoint: MenuSource,
    request_id: u64,
    error: String,
) -> (r: bool)
    ensures
        (final(state).deep_view(), r) == menu_failed(
            old(state).deep_view(),
            registry.deep_view(),
            window_id,
            endpoint.deep_view(),
            request_id,
            error@,
        ),
{
    proof {
        reveal(menu_failed);
    }
    if !awaited(state, registry, window_id, &endpoint, request_id) {
        return false;
    }
    let lazy = pending_lazy_item(state);
    presentation::set_menu(state, MenuState::Error { window_id, endpoint, request_id, error });
    presentation::close_menu(state);
    match lazy {
        Some(item_id) => {
            presentation::teardown_navigation_waiting_for_lazy_root(state, registry, item_id);
        },
        None => {},
    }
    true
}

/// The tray menu of the given request is being loaded.
pub open spec fn is_tray_awaited(s: StateView, endpoint: MenuEndpointView, request_id: u64) -> bool {
    s.menu == (MenuStateView::TrayLoading { endpoint, request_id })
}

fn tray_awaited(state: &State, endpoint: &MenuEndpoint, request_id: u64) -> (r: bool)
    ensures
        r == is_tray_awaited(state.deep_view(), endpoint.deep_view(), request_id),
{
    match &state.menu {
        MenuState::TrayLoading { endpoint: e, request_id: id } => e.same(endpoint) && *id
            == request_id,
        _ => false,
    }
}

/// The menu of a tray item has come.
pub open spec fn tray_menu_loaded(
    s: StateView,
    endpoint: MenuEndpointView,
    request_id: u64,
    model: MenuModelView,
) -> (StateView, bool) {
    if is_tray_awaited(s, endpoint, request_id) {
        (
            tray_root_opened(
                StateView { menu: MenuStateView::TrayLoaded { endpoint, model }, ..s },
            ),
            true,
        )
    } else {
        (s, false)
    }
}

pub(crate) fn load_tray_menu(
    state: &mut State,
    endpoint: MenuEndpoint,
    request_id: u64,
    model: MenuModel,
) -> (r: bool)
    ensures
        (final(state).deep_view(), r) == tray_menu_loaded(
            old(state).deep_view(),
            endpoint.deep_view(),
            request_id,
            model.deep_view(),
        ),
{
    if !tray_awaited(state, &endpoint, request_id) {
        return false;
    }
    presentation::set_menu(state, MenuState::TrayLoaded { endpoint, model });
    open_tray_root(state);
    true
}

/// The menu of a tray item could not be loaded.
pub open spec fn tray_menu_failed(
    s: StateView,
    endpoint: MenuEndpointView,
    request_id: u64,
    error: Seq<char>,
) -> (StateView, bool) {
    if is_tray_awaited(s, endpoint, request_id) {
        (
            presentation::closed(
                StateView { menu: MenuStateView::TrayError { endpoint, request_id, error }, ..s },
            ),
            true,
        )
    } else {
        (s, false)
    }
}

pub(crate) fn fail_tray_menu(
    state: &mut State,
    endpoint: MenuEndpoint,
    request_id: u64,
    error: String,
) -> (r: bool)
    ensures
        (final(state).deep_view(), r) == tray_menu_failed(
            old(state).deep_view(),
            endpoint.deep_view(),
            request_id,
            error@,
        ),
{
    if !tray_awaited(state, &endpoint, request_id) {
        return false;
    }
    presentation::set_menu(state, MenuState::TrayError { endpoint, request_id, error });
    presentation::close_menu(state);
    true
}

/// The source of a menu has got a watcher. What was asked under another watcher no longer counts.
#[verifier::opaque]
pub open spec fn watcher_ready(
    s: StateView,
    registry: MenuRegistryView,
    endpoint: MenuSourceView,
    watcher_generation: u64,
) -> StateView {
    let replaced = s.watcher_generations.contains_key(endpoint) && s.watcher_generations[endpoint]
        != watcher_generation;
    let s1 = StateView {
        watcher_generations: s.watcher_generations.insert(endpoint, watcher_generation),
        ..s
    };
    match s.menu_interaction.pending_lazy_root {
        Some(pending) => if replaced && pending.endpoint == endpoint {
            presentation::lazy_root_given_up(
                StateView {
                    menu_interaction: MenuInteractionStateView {
                        pending_lazy_root: None,
                        pending_about_to_show: None,
                        ..s.menu_interaction
                    },
                    ..s1
                },
                registry,
                pending.item_id,
            )
        } else {
            s1
        },
        None => s1,
    }
}

fn set_watcher(state: &mut State, endpoint: MenuSource, watcher_generation: u64) -> (r: Option<u64>)
    ensures
        final(state).deep_view() == (StateView {
            watcher_generations: old(state).deep_view().watcher_generations.insert(
                endpoint.deep_view(),
                watcher_generation,
            ),
            ..old(state).deep_view()
        }),
        r == (if old(state).deep_view().watcher_generations.contains_key(endpoint.deep_view()) {
            Some(old(state).deep_view().watcher_generations[endpoint.deep_view()])
        } else {
            None
        }),
{
    state.watcher_generations.insert(endpoint, watcher_generation)
}

fn drop_requests(state: &mut State)
    ensures
        final(state).deep_view() == (StateView {
            menu_interaction: MenuInteractionStateView {
                pending_lazy_root: None,
                pending_about_to_show: None,
                ..old(state).deep_view().menu_interaction
            },
            ..old(state).deep_view()
        }),
{
    state.menu_interaction.pending_lazy_root = None;
    state.menu_interaction.pending_about_to_show = None;
}

pub(crate) fn ready_watcher(
    state: &mut State,
    registry: &MenuRegistry,
    endpoint: MenuSource,
    watcher_generation: u64,
)
    ensures
        final(state).deep_view() == watcher_ready(
            old(state).deep_view(),
            registry.deep_view(),
            endpoint.deep_view(),
            watcher_generation,
        ),
{
    proof {
        reveal(watcher_ready);
    }
    let waiting = match &state.menu_interaction.pending_lazy_root {
        Some(pending) => if pending.endpoint.same(&endpoint) {
            Some(pending.item_id)
        } else {
            None
        },
        None => None,
    };
    let replaced = match set_watcher(state, endpoint, watcher_generation) {
        Some(previous) => previous != watcher_generation,
        None => false,
    };
    match waiting {
        Some(item_id) => {
            if replaced {
                drop_requests(state);
                presentation::teardown_navigation_waiting_for_lazy_root(state, registry, item_id);
            }
        },
        None => {},
    }
}

/// A tree with updates applied one after the other, and whether any of them changed it.
pub open spec fn patched_all(node: MenuItemView, updates: Seq<MenuItemPropertiesUpdateView>) -> (
    MenuItemView,
    bool,
)
    decreases updates.len(),
{
    if updates.len() == 0 {
        (node, false)
    } else {
        let (before, changed) = patched_all(node, updates.drop_last());
        let (after, changed_now) = tree::patched(before, updates.last());
        (after, changed || changed_now)
    }
}

fn patch_all(node: &mut MenuItem, updates: &Vec<MenuItemPropertiesUpdate>) -> (r: bool)
    ensures
        (final(node).deep_view(), r) == patched_all(old(node).deep_view(), updates.deep_view()),
{
    let ghost all = updates.deep_view();
    let mut changed = false;
    let mut i: usize = 0;
    while i < updates.len()
        invariant
            i <= updates.len(),
            all == updates.deep_view(),
            (node.deep_view(), changed) == patched_all(old(node).deep_view(), all.take(i as int)),
        decreases updates.len() - i,
    {
        assert(all.take(i + 1).drop_last() =~= all.take(i as int));
        assert(all.take(i + 1).last() == all[i as int]);
        let one = tree::patch_item(node, &updates[i]);
        changed = changed || one;
        i += 1;
    }
    assert(all.take(i as int) =~= all);
    changed
}

/// Items of the presented menu have got new properties.
#[verifier::opaque]
pub open spec fn properties_updated(
    s: StateView,
    registry: MenuRegistryView,
    endpoint: MenuSourceView,
    updates: Seq<MenuItemPropertiesUpdateView>,
) -> (StateView, bool) {
    match s.menu {
        MenuStateView::Loaded { window_id, endpoint: current, model } => if current == endpoint
            && s.active_menu_endpoint(registry) == Some(endpoint) {
            let (root, changed) = patched_all(model.root, updates);
            let s1 = StateView {
                menu: MenuStateView::Loaded {
                    window_id,
                    endpoint,
                    model: MenuModelView { root, ..model },
                },
                ..s
            };
            (
                if changed {
                    navigation::normalized(s1)
                } else {
                    s1
                },
                changed,
            )
        } else {
            (s, false)
        },
        _ => (s, false),
    }
}

fn presents_loaded(state: &State, registry: &MenuRegistry, endpoint: &MenuSource) -> (r: bool)
    ensures
        r == (state.deep_view().menu matches MenuStateView::Loaded { endpoint: current, .. }
            && current == endpoint.deep_view() && state.deep_view().active_menu_endpoint(
            registry.deep_view(),
        ) == Some(endpoint.deep_view())),
{
    let loaded = match &state.menu {
        MenuState::Loaded { endpoint: current, .. } => current.same(endpoint),
        _ => false,
    };
    let active = match state.active_menu_endpoint(registry) {
        Some(active) => active.same(endpoint),
        None => false,
    };
    loaded && active
}

fn patch_loaded(state: &mut State, updates: &Vec<MenuItemPropertiesUpdate>) -> (r: bool)
    requires
        old(state).deep_view().menu is Loaded,
    ensures
        ({
            let s = old(state).deep_view();
            let (root, changed) = patched_all(s.menu->Loaded_model.root, updates.deep_view());
            &&& r == changed
            &&& final(state).deep_view() == (StateView {
                menu: MenuStateView::Loaded {
                    window_id: s.menu->Loaded_window_id,
                    endpoint: s.menu->Loaded_endpoint,
                    model: MenuModelView { root, ..s.menu->Loaded_model },
                },
                ..s
            })
        }),
{
    match &mut state.menu {
        MenuState::Loaded { model, .. } => patch_all(&mut model.root, updates),
        _ => false,
    }
}

pub(crate) fn update_properties(
    state: &mut State,
    registry: &MenuRegistry,
    endpoint: &MenuSource,
    updates: &Vec<MenuItemPropertiesUpdate>,
) -> (r: bool)
    ensures
        (final(state).deep_view(), r) == properties_updated(
            old(state).deep_view(),
            registry.deep_view(),
            endpoint.deep_view(),
            updates.deep_view(),
        ),
{
    proof {
        reveal(properties_updated);
    }
    if !presents_loaded(state, registry, endpoint) {
        return false;
    }
    let changed = patch_loaded(state, updates);
    if changed {
        navigation::normalize_interaction(state);
    }
    changed
}

} // verus!
