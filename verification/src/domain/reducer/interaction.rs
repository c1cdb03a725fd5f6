//! What the pointer and the keyboard do to the presented menu.
use vstd::prelude::*;

use crate::domain::menu;
use crate::domain::menu::{
    MenuItem, MenuItemId, MenuItemTypeView, MenuItemView, MenuModel, MenuModelView, MenuRegistry,
    MenuRegistryView, MenuSource, MenuSourceView,
};
use crate::domain::reducer::navigation;
use crate::domain::reducer::presentation;
use crate::domain::reducer::tree;
use crate::domain::state::{
    KeyboardGrabState, LazyRootOpenPending, LazyRootOpenPendingView, MenuInteractionState,
    MenuInteractionStateView, MenuNavigationSession, MenuNavigationSessionView, MenuState,
    MenuStateView, State, StateView, WindowId,
};
use crate::lists;
use crate::seqs;
use crate::value::Value;

verus! {

/// The audio, Bluetooth and network popups are closed.
pub open spec fn popups_closed(s: StateView) -> StateView {
    StateView {
        audio_popup_open: false,
        audio_dragging: false,
        audio_drag_input: false,
        bluetooth_popup_open: false,
        network_popup_open: false,
        ..s
    }
}

pub(crate) fn close_popups(state: &mut State)
    ensures
        final(state).deep_view() == popups_closed(old(state).deep_view()),
{
    state.audio_popup_open = false;
    state.audio_dragging = false;
    state.audio_drag_input = false;
    state.bluetooth_popup_open = false;
    state.network_popup_open = false;
}

/// The source of the loaded menu, where it is one whose top-level menus can be loaded on demand
/// and is being watched.
pub open spec fn lazy_source(s: StateView) -> Option<(WindowId, MenuSourceView)> {
    match s.menu {
        MenuStateView::Loaded { window_id, endpoint, .. } => if endpoint is DbusMenu
            && s.watcher_generations.contains_key(endpoint) {
            Some((window_id, endpoint))
        } else {
            None
        },
        _ => None,
    }
}

/// The loaded menu is one whose top-level menus can be loaded on demand.
pub open spec fn loads_lazily(s: StateView) -> bool {
    s.menu matches MenuStateView::Loaded { endpoint, .. } && endpoint is DbusMenu
}

fn current_loads_lazily(state: &State) -> (r: bool)
    ensures
        r == loads_lazily(state.deep_view()),
{
    match &state.menu {
        MenuState::Loaded { endpoint: MenuSource::DbusMenu(_), .. } => true,
        _ => false,
    }
}

fn current_lazy_source(state: &State) -> (r: Option<(WindowId, MenuSource, u64)>)
    ensures
        match r {
            Some((window_id, endpoint, generation)) => lazy_source(state.deep_view()) == Some(
                (window_id, endpoint.deep_view()),
            ) && state.deep_view().watcher_generations[endpoint.deep_view()] == generation,
            None => lazy_source(state.deep_view()) is None,
        },
{
    match &state.menu {
        MenuState::Loaded { window_id, endpoint, .. } => match endpoint {
            MenuSource::DbusMenu(_) => match state.watcher_generations.get(endpoint) {
                Some(generation) => Some((*window_id, endpoint.dup(), *generation)),
                None => None,
            },
            _ => None,
        },
        _ => None,
    }
}

/// The user wants a top-level menu open whose children are still to be loaded.
pub open spec fn lazy_root_wanted(
    s: StateView,
    window_id: WindowId,
    endpoint: MenuSourceView,
    id: MenuItemId,
) -> StateView {
    let intent = navigation::next_number(s.next_lazy_root_intent);
    StateView {
        next_lazy_root_intent: intent,
        menu_interaction: MenuInteractionStateView {
            pending_lazy_root: Some(
                LazyRootOpenPendingView {
                    window_id,
                    endpoint,
                    item_id: id,
                    intent_id: intent,
                    watcher_generation: s.watcher_generations[endpoint],
                    layout_request_id: None,
                },
            ),
            open_root: None,
            open_path: Seq::empty(),
            ..s.menu_interaction
        },
        ..s
    }
}

fn want_lazy_root(
    state: &mut State,
    window_id: WindowId,
    endpoint: MenuSource,
    watcher_generation: u64,
    id: MenuItemId,
)
    requires
        old(state).deep_view().watcher_generations[endpoint.deep_view()] == watcher_generation,
    ensures
        final(state).deep_view() == lazy_root_wanted(
            old(state).deep_view(),
            window_id,
            endpoint.deep_view(),
            id,
        ),
{
    state.next_lazy_root_intent = navigation::number_after(state.next_lazy_root_intent);
    state.menu_interaction.pending_lazy_root =
    Some(
        LazyRootOpenPending {
            window_id,
            endpoint,
            item_id: id,
            intent_id: state.next_lazy_root_intent,
            watcher_generation,
            layout_request_id: None,
        },
    );
    state.menu_interaction.open_root = None;
    state.menu_interaction.open_path = Vec::new();
    assert(state.menu_interaction.open_path.deep_view() =~= Seq::<MenuItemId>::empty());
}

/// The top-level menu with the given id.
pub open spec fn top_level(model: MenuModelView, id: MenuItemId) -> Option<MenuItemView> {
    seqs::first_in(model.root.children, |c: MenuItemView| c.id == id)
}

fn top_level_item(model: &MenuModel, id: MenuItemId) -> (r: Option<&MenuItem>)
    ensures
        r.deep_view() == top_level(model.deep_view(), id),
{
    proof {
        menu::lemma_item_children(model.root);
    }
    let test = |c: &MenuItem| -> (b: bool)
        ensures
            b == (c.deep_view().id == id),
    {
        c.id == id
    };
    lists::first(&model.root.children, test, Ghost(|c: MenuItemView| c.id == id))
}

/// What a click on a top-level menu comes to.
pub enum RootClick {
    /// Nothing: there is no such menu, or it cannot be used.
    Ignored,
    /// Its children are still to be loaded.
    Lazy,
    /// It has no children to show.
    Leaf,
    /// It has children to show.
    Submenu,
}

/// What a click on a top-level menu comes to.
pub open spec fn root_click(s: StateView, id: MenuItemId) -> RootClick {
    match s.active_menu_model() {
        Some(model) => match top_level(model, id) {
            Some(item) => if !navigation::is_usable(item) {
                RootClick::Ignored
            } else if tree::opens_submenu(item) && item.children.len() == 0 && loads_lazily(s) {
                RootClick::Lazy
            } else if item.children_display is None || item.children.len() == 0 {
                RootClick::Leaf
            } else {
                RootClick::Submenu
            },
            None => RootClick::Ignored,
        },
        None => RootClick::Ignored,
    }
}

fn classify_root_click(state: &State, id: MenuItemId) -> (r: RootClick)
    ensures
        r == root_click(state.deep_view(), id),
{
    match state.active_menu_model() {
        Some(model) => match top_level_item(model, id) {
            Some(item) => {
                proof {
                    menu::lemma_item_children(*item);
                }
                if !item.visible || !item.enabled {
                    RootClick::Ignored
                } else if tree::shows_submenu(item) && item.children.is_empty()
                    && current_loads_lazily(state) {
                    RootClick::Lazy
                } else if item.children_display.is_none() || item.children.is_empty() {
                    RootClick::Leaf
                } else {
                    RootClick::Submenu
                }
            },
            None => RootClick::Ignored,
        },
        None => RootClick::Ignored,
    }
}

/// A menu is loaded and one of its top-level menus is to be open.
pub open spec fn menu_opened_at(
    s: StateView,
    kept: (WindowId, MenuSourceView, MenuModelView),
    id: MenuItemId,
) -> StateView {
    StateView {
        menu: MenuStateView::Loaded { window_id: kept.0, endpoint: kept.1, model: kept.2 },
        menu_interaction: MenuInteractionStateView {
            open_root: Some(id),
            open_path: seq![id],
            ..MenuInteractionStateView::initial()
        },
        ..s
    }
}

/// A tray menu has given way to the menu of the window that was presented before it, with the
/// given top-level menu open.
pub open spec fn tray_left(s: StateView, id: MenuItemId) -> StateView {
    match s.global_menu_model {
        None => presentation::closed(StateView { menu: MenuStateView::NoMenu, ..s }),
        Some(kept) => navigation::normalized(menu_opened_at(s, kept, id)),
    }
}

fn kept_menu(state: &State) -> (r: Option<(WindowId, MenuSource, MenuModel)>)
    ensures
        r.deep_view() == state.deep_view().global_menu_model,
{
    match &state.global_menu_model {
        Some((window_id, endpoint, model)) => Some((*window_id, endpoint.dup(), model.dup())),
        None => None,
    }
}

fn open_menu_at(state: &mut State, kept: (WindowId, MenuSource, MenuModel), id: MenuItemId)
    ensures
        final(state).deep_view() == menu_opened_at(old(state).deep_view(), kept.deep_view(), id),
{
    let (window_id, endpoint, model) = kept;
    presentation::set_menu(state, MenuState::Loaded { window_id, endpoint, model });
    let mut interaction = MenuInteractionState::default();
    interaction.open_root = Some(id);
    interaction.open_path = navigation::path_of(id);
    presentation::set_interaction(state, interaction);
}

fn leave_tray(state: &mut State, id: MenuItemId)
    ensures
        final(state).deep_view() == tray_left(old(state).deep_view(), id),
{
    match kept_menu(state) {
        None => {
            presentation::set_menu(state, MenuState::NoMenu);
            presentation::close_menu(state);
        },
        Some(kept) => {
            open_menu_at(state, kept, id);
            navigation::normalize_interaction(state);
        },
    }
}

/// Keyboard navigation, where it is under way, has ended.
pub open spec fn navigation_left(s: StateView, registry: MenuRegistryView) -> StateView {
    if s.menu_navigation is Some {
        presentation::navigation_ended(s, registry)
    } else {
        presentation::closed(s)
    }
}

pub(crate) fn leave_navigation(state: &mut State, registry: &MenuRegistry)
    ensures
        final(state).deep_view() == navigation_left(old(state).deep_view(), registry.deep_view()),
{
    if state.menu_navigation.is_some() {
        presentation::teardown_navigation(state, registry);
    } else {
        state.menu_interaction = MenuInteractionState::default();
    }
}

/// A top-level menu with children has been opened by a click.
pub open spec fn root_opened(s: StateView, id: MenuItemId) -> StateView {
    navigation::root_shown(
        StateView {
            menu_interaction: MenuInteractionStateView {
                pending_lazy_root: None,
                pending_about_to_show: None,
                about_to_show_item: None,
                ..s.menu_interaction
            },
            ..s
        },
        id,
    )
}

/// A top-level menu has been clicked, and whether that shows. A click closes the other popups, and
/// closes the menu that it finds open.
#[verifier::opaque]
pub open spec fn root_clicked(s: StateView, registry: MenuRegistryView, id: MenuItemId) -> (
    StateView,
    bool,
) {
    let s0 = popups_closed(s);
    if s.menu is TrayLoaded {
        (tray_left(s0, id), true)
    } else {
        match root_click(s, id) {
            RootClick::Ignored => (s0, false),
            RootClick::Lazy => match lazy_source(s) {
                Some((window_id, endpoint)) => {
                    let wanted = lazy_root_wanted(s0, window_id, endpoint, id);
                    (
                        StateView {
                            menu_interaction: MenuInteractionStateView {
                                pending_about_to_show: None,
                                ..wanted.menu_interaction
                            },
                            ..wanted
                        },
                        true,
                    )
                },
                None => (s0, false),
            },
            RootClick::Leaf => if s.menu_interaction.open_root is Some {
                (navigation_left(s0, registry), true)
            } else {
                (s0, false)
            },
            RootClick::Submenu => if s.menu_interaction.open_root == Some(id) {
                (navigation_left(s0, registry), true)
            } else {
                (root_opened(s0, id), true)
            },
        }
    }
}

pub(crate) fn click_root(state: &mut State, registry: &MenuRegistry, id: MenuItemId) -> (r: bool)
    ensures
        (final(state).deep_view(), r) == root_clicked(
            old(state).deep_view(),
            registry.deep_view(),
            id,
        ),
{
    proof {
        reveal(root_clicked);
    }
    let tray = match &state.menu {
        MenuState::TrayLoaded { .. } => true,
        _ => false,
    };
    let click = classify_root_click(state, id);
    close_popups(state);
    if tray {
        leave_tray(state, id);
        return true;
    }
    match click {
        RootClick::Ignored => false,
        RootClick::Lazy => match current_lazy_source(state) {
            Some((window_id, endpoint, generation)) => {
                want_lazy_root(state, window_id, endpoint, generation, id);
                state.menu_interaction.pending_about_to_show = None;
                true
            },
            None => false,
        },
        RootClick::Leaf => {
            if state.menu_interaction.open_root.is_some() {
                leave_navigation(state, registry);
                true
            } else {
                false
            }
        },
        RootClick::Submenu => {
            if state.menu_interaction.open_root.same(&Some(id)) {
                leave_navigation(state, registry);
            } else {
                state.menu_interaction.pending_lazy_root = None;
                state.menu_interaction.pending_about_to_show = None;
                state.menu_interaction.about_to_show_item = None;
                navigation::show_root(state, id);
            }
            true
        },
    }
}

/// The first top-level menu that the keyboard can be taken to.
pub open spec fn first_root(s: StateView) -> Option<MenuItemId> {
    match presentation::presentation_model(s) {
        Some(model) => match seqs::first_in(
            model.root.children,
            |c: MenuItemView| tree::is_selectable(c) && tree::opens_submenu(c),
        ) {
            Some(item) => Some(item.id),
            None => None,
        },
        None => None,
    }
}

fn first_eligible_root(state: &State) -> (r: Option<MenuItemId>)
    ensures
        r == first_root(state.deep_view()),
{
    match presentation::current_presentation_model(state) {
        Some(model) => {
            proof {
                menu::lemma_item_children(model.root);
            }
            let test = |c: &MenuItem| -> (b: bool)
                ensures
                    b == (tree::is_selectable(c.deep_view()) && tree::opens_submenu(
                        c.deep_view(),
                    )),
            {
                tree::selectable(c) && tree::shows_submenu(c)
            };
            match lists::first(
                &model.root.children,
                test,
                Ghost(|c: MenuItemView| tree::is_selectable(c) && tree::opens_submenu(c)),
            ) {
                Some(item) => Some(item.id),
                None => None,
            }
        },
        None => None,
    }
}

/// The presented menu has the top-level menu, and the keyboard can be taken to it.
pub open spec fn can_start_at(s: StateView, root: MenuItemId) -> bool {
    presentation::presentation_model(s) matches Some(model) && tree::is_eligible_root(model, root)
}

fn may_start_at(state: &State, root: MenuItemId) -> (r: bool)
    ensures
        r == can_start_at(state.deep_view(), root),
{
    match presentation::current_presentation_model(state) {
        Some(model) => tree::eligible_root(model, root),
        None => false,
    }
}

/// A session of keyboard navigation has started at a top-level menu of the presented menu, under a
/// new number, and waits for the keyboard.
pub open spec fn session_started(s: StateView, root: MenuItemId) -> (StateView, bool) {
    match s.menu_presentation {
        Some(source) => if can_start_at(s, root) {
            let id = navigation::next_number(s.next_menu_navigation_session);
            (
                StateView {
                    next_menu_navigation_session: id,
                    menu_navigation: Some(
                        MenuNavigationSessionView {
                            id,
                            source_window: source.window_id,
                            endpoint: source.endpoint,
                            selected_path: Some(seq![root]),
                            grab_state: KeyboardGrabState::Requested,
                        },
                    ),
                    ..s
                },
                true,
            )
        } else {
            (s, false)
        },
        None => (s, false),
    }
}

fn start_navigation_session(state: &mut State, root: MenuItemId) -> (r: bool)
    ensures
        (final(state).deep_view(), r) == session_started(old(state).deep_view(), root),
{
    if !may_start_at(state, root) {
        return false;
    }
    let (source_window, endpoint) = match &state.menu_presentation {
        Some(presentation) => (presentation.window_id, presentation.endpoint.dup()),
        None => {
            return false;
        },
    };
    state.next_menu_navigation_session =
    navigation::number_after(state.next_menu_navigation_session);
    state.menu_navigation =
    Some(
        MenuNavigationSession {
            id: state.next_menu_navigation_session,
            source_window,
            endpoint,
            selected_path: Some(navigation::path_of(root)),
            grab_state: KeyboardGrabState::Requested,
        },
    );
    true
}

/// Keyboard navigation has been asked for, and whether it starts: at the top-level menu that is
/// open, or else at the first one that can be opened.
#[verifier::opaque]
pub open spec fn navigation_started(s: StateView, registry: MenuRegistryView) -> (StateView, bool) {
    if s.menu_navigation is Some {
        (s, false)
    } else {
        match s.menu_interaction.open_root {
            Some(root) => session_started(s, root),
            None => match first_root(s) {
                Some(root) => {
                    let (clicked, shows) = root_clicked(s, registry, root);
                    if shows {
                        session_started(clicked, root)
                    } else {
                        (clicked, false)
                    }
                },
                None => (s, false),
            },
        }
    }
}

pub(crate) fn start_navigation(state: &mut State, registry: &MenuRegistry) -> (r: bool)
    ensures
        (final(state).deep_view(), r) == navigation_started(
            old(state).deep_view(),
            registry.deep_view(),
        ),
{
    proof {
        reveal(navigation_started);
    }
    if state.menu_navigation.is_some() {
        return false;
    }
    let root = match state.menu_interaction.open_root {
        Some(root) => root,
        None => {
            let root = match first_eligible_root(state) {
                Some(root) => root,
                None => {
                    return false;
                },
            };
            if !click_root(state, registry, root) {
                return false;
            }
            root
        },
    };
    start_navigation_session(state, root)
}

/// The keyboard grab of a session has come to an end one way or the other. An answer for another
/// session is ignored.
pub open spec fn grab_answered(s: StateView, session_id: u64, grab: KeyboardGrabState) -> (
    StateView,
    bool,
) {
    match s.menu_navigation {
        Some(session) => if session.id == session_id {
            (
                StateView {
                    menu_navigation: Some(
                        MenuNavigationSessionView { grab_state: grab, ..session },
                    ),
                    ..s
                },
                true,
            )
        } else {
            (s, false)
        },
        None => (s, false),
    }
}

pub(crate) fn answer_grab(state: &mut State, session_id: u64, grab: KeyboardGrabState) -> (r: bool)
    ensures
        (final(state).deep_view(), r) == grab_answered(old(state).deep_view(), session_id, grab),
{
    match &mut state.menu_navigation {
        Some(session) => {
            if session.id != session_id {
                return false;
            }
            session.grab_state = grab;
            true
        },
        None => false,
    }
}

/// The innermost open submenu has been closed; the keyboard goes back to the item that opened it.
pub open spec fn submenu_closed(s: StateView) -> StateView {
    let path = s.menu_interaction.open_path.drop_last();
    StateView {
        menu_navigation: navigation::with_selection(s.menu_navigation, Some(path)),
        menu_interaction: MenuInteractionStateView {
            open_path: path,
            hovered_path: path,
            ..s.menu_interaction
        },
        ..s
    }
}

fn close_submenu(state: &mut State)
    requires
        old(state).deep_view().menu_interaction.open_path.len() > 0,
    ensures
        final(state).deep_view() == submenu_closed(old(state).deep_view()),
{
    let mut path = state.menu_interaction.open_path.dup();
    let ghost full = path.deep_view();
    path.pop();
    assert(path.deep_view() =~= full.drop_last());
    set_open_path(state, path);
}

/// The open path is set, and is highlighted and selected.
pub open spec fn open_path_set(s: StateView, path: Seq<MenuItemId>) -> StateView {
    StateView {
        menu_navigation: navigation::with_selection(s.menu_navigation, Some(path)),
        menu_interaction: MenuInteractionStateView {
            open_path: path,
            hovered_path: path,
            ..s.menu_interaction
        },
        ..s
    }
}

fn set_open_path(state: &mut State, path: Vec<MenuItemId>)
    ensures
        final(state).deep_view() == open_path_set(old(state).deep_view(), path.deep_view()),
{
    state.menu_interaction.open_path = path.dup();
    state.menu_interaction.hovered_path = path.dup();
    navigation::set_selection(state, Some(path));
}

/// The keyboard has moved left: out of a submenu, or else to the top-level menu on the left.
#[verifier::opaque]
pub open spec fn left_navigated(s: StateView) -> (StateView, bool) {
    if s.menu_navigation is None {
        (s, false)
    } else if s.menu_interaction.open_path.len() > 1 {
        (submenu_closed(s), true)
    } else {
        navigation::root_navigated(s, -1)
    }
}

pub(crate) fn navigate_left(state: &mut State) -> (r: bool)
    ensures
        (final(state).deep_view(), r) == left_navigated(old(state).deep_view()),
{
    proof {
        reveal(left_navigated);
    }
    if state.menu_navigation.is_none() {
        false
    } else if state.menu_interaction.open_path.len() > 1 {
        close_submenu(state);
        true
    } else {
        navigation::navigate_root(state, -1)
    }
}

/// The menu holds the item that the keyboard selects.
pub open spec fn selected_item(s: StateView) -> Option<MenuItemView> {
    match (s.active_menu_model(), presentation::selected(s)) {
        (Some(model), Some(id)) => tree::find_item(model.root, id),
        _ => None,
    }
}

/// What is known of the selected item: whether it opens a submenu, and whether it has children.
fn selected_item_kind(state: &State) -> (r: Option<(bool, bool)>)
    ensures
        match selected_item(state.deep_view()) {
            Some(item) => r == Some((tree::opens_submenu(item), item.children.len() > 0)),
            None => r is None,
        },
{
    match (state.active_menu_model(), presentation::selected_id(state)) {
        (Some(model), Some(id)) => match tree::item(model, id) {
            Some(item) => {
                proof {
                    menu::lemma_item_children(*item);
                }
                Some((tree::shows_submenu(item), !item.children.is_empty()))
            },
            None => None,
        },
        _ => None,
    }
}

/// A top-level menu is already wanted open, for the menu that is loaded and the watcher that is
/// current.
pub open spec fn is_pending_lazy_root(s: StateView, id: MenuItemId) -> bool {
    &&& s.menu_interaction.pending_lazy_root matches Some(pending)
    &&& pending.item_id == id
    &&& s.menu matches MenuStateView::Loaded { window_id, endpoint, .. }
    &&& window_id == pending.window_id
    &&& endpoint == pending.endpoint
    &&& s.watcher_generations.contains_key(pending.endpoint)
    &&& s.watcher_generations[pending.endpoint] == pending.watcher_generation
}

fn current_pending_lazy_root_matches(state: &State, item_id: MenuItemId) -> (r: bool)
    ensures
        r == is_pending_lazy_root(state.deep_view(), item_id),
{
    match (&state.menu_interaction.pending_lazy_root, &state.menu) {
        (Some(pending), MenuState::Loaded { window_id, endpoint, .. }) => {
            let generation = match state.watcher_generations.get(&pending.endpoint) {
                Some(generation) => *generation == pending.watcher_generation,
                None => false,
            };
            pending.item_id == item_id && *window_id == pending.window_id && endpoint.same(
                &pending.endpoint,
            ) && generation
        },
        _ => false,
    }
}

/// The keyboard has moved right: into the submenu of the selected item, which may have to be
/// loaded first, or else to the top-level menu on the right.
#[verifier::opaque]
pub open spec fn right_navigated(s: StateView) -> (StateView, bool) {
    match (s.menu_navigation, presentation::selected(s)) {
        (None, _) => (s, false),
        (Some(session), None) => navigation::root_navigated(s, 1),
        (Some(session), Some(id)) => if s.menu_interaction.open_root == Some(id) {
            navigation::root_navigated(s, 1)
        } else {
            match selected_item(s) {
                None => (s, false),
                Some(item) => if !tree::opens_submenu(item) {
                    navigation::root_navigated(s, 1)
                } else if item.children.len() > 0 {
                    (open_path_set(s, s.menu_interaction.open_path.push(id)), true)
                } else {
                    match lazy_source(s) {
                        Some((window_id, endpoint)) => if is_pending_lazy_root(s, id) {
                            (s, false)
                        } else {
                            (lazy_root_wanted(s, window_id, endpoint, id), true)
                        },
                        None => (s, false),
                    }
                },
            }
        },
    }
}

fn enter_submenu(state: &mut State, id: MenuItemId)
    ensures
        final(state).deep_view() == open_path_set(
            old(state).deep_view(),
            old(state).deep_view().menu_interaction.open_path.push(id),
        ),
{
    let mut path = state.menu_interaction.open_path.dup();
    lists::push(&mut path, id);
    set_open_path(state, path);
}

fn want_selected_lazy_root(state: &mut State, id: MenuItemId) -> (r: bool)
    ensures
        (final(state).deep_view(), r) == (match lazy_source(old(state).deep_view()) {
            Some((window_id, endpoint)) => if is_pending_lazy_root(old(state).deep_view(), id) {
                (old(state).deep_view(), false)
            } else {
                (lazy_root_wanted(old(state).deep_view(), window_id, endpoint, id), true)
            },
            None => (old(state).deep_view(), false),
        }),
{
    match current_lazy_source(state) {
        Some((window_id, endpoint, generation)) => {
            if current_pending_lazy_root_matches(state, id) {
                return false;
            }
            want_lazy_root(state, window_id, endpoint, generation, id);
            true
        },
        None => false,
    }
}

pub(crate) fn navigate_right(state: &mut State) -> (r: bool)
    ensures
        (final(state).deep_view(), r) == right_navigated(old(state).deep_view()),
{
    proof {
        reveal(right_navigated);
    }
    if state.menu_navigation.is_none() {
        return false;
    }
    let id = match presentation::selected_id(state) {
        Some(id) => id,
        None => {
            return navigation::navigate_root(state, 1);
        },
    };
    if state.menu_interaction.open_root.same(&Some(id)) {
        return navigation::navigate_root(state, 1);
    }
    match selected_item_kind(state) {
        None => false,
        Some((submenu, children)) => {
            if !submenu {
                navigation::navigate_root(state, 1)
            } else if children {
                enter_submenu(state, id);
                true
            } else {
                want_selected_lazy_root(state, id)
            }
        },
    }
}

/// Enter has been pressed: it opens the selected submenu, and at the top level goes down into the
/// menu that is open.
#[verifier::opaque]
pub open spec fn enter_navigated(s: StateView, registry: MenuRegistryView) -> (StateView, bool) {
    match (selected_item(s), presentation::selected(s)) {
        (Some(item), Some(id)) => if !tree::opens_submenu(item) {
            (s, false)
        } else if s.menu_interaction.open_path.len() > 1 {
            right_navigated(s)
        } else if item.children.len() > 0 {
            navigation::list_navigated(s, 1)
        } else if is_pending_lazy_root(s, id) {
            (s, false)
        } else {
            root_clicked(s, registry, id)
        },
        _ => (s, false),
    }
}

pub(crate) fn navigate_enter(state: &mut State, registry: &MenuRegistry) -> (r: bool)
    ensures
        (final(state).deep_view(), r) == enter_navigated(
            old(state).deep_view(),
            registry.deep_view(),
        ),
{
    proof {
        reveal(enter_navigated);
    }
    match (selected_item_kind(state), presentation::selected_id(state)) {
        (Some((submenu, children)), Some(id)) => {
            if !submenu {
                false
            } else if state.menu_interaction.open_path.len() > 1 {
                navigate_right(state)
            } else if children {
                navigation::navigate_list(state, 1)
            } else if current_pending_lazy_root_matches(state, id) {
                false
            } else {
                click_root(state, registry, id)
            }
        },
        _ => false,
    }
}

/// Escape has been pressed: it closes the innermost submenu, and at the top level ends keyboard
/// navigation.
#[verifier::opaque]
pub open spec fn escape_navigated(s: StateView, registry: MenuRegistryView) -> (StateView, bool) {
    if s.menu_interaction.open_path.len() > 1 {
        (submenu_closed(s), true)
    } else if s.menu_navigation is Some {
        (presentation::navigation_ended(s, registry), true)
    } else {
        (s, false)
    }
}

pub(crate) fn navigate_escape(state: &mut State, registry: &MenuRegistry) -> (r: bool)
    ensures
        (final(state).deep_view(), r) == escape_navigated(
            old(state).deep_view(),
            registry.deep_view(),
        ),
{
    proof {
        reveal(escape_navigated);
    }
    if state.menu_interaction.open_path.len() > 1 {
        close_submenu(state);
        true
    } else if state.menu_navigation.is_some() {
        presentation::teardown_navigation(state, registry);
        true
    } else {
        false
    }
}

/// The pointer is over another item, which the keyboard selects too. What was asked of an item
/// that the pointer has left no longer counts.
#[verifier::opaque]
pub open spec fn item_hovered(s: StateView, path: Seq<MenuItemId>) -> (StateView, bool) {
    let end = presentation::path_end(Some(path));
    if s.menu_interaction.open_root is None || s.menu_interaction.hovered_path == path {
        (s, false)
    } else {
        (
            StateView {
                menu_navigation: navigation::with_selection(s.menu_navigation, Some(path)),
                menu_interaction: MenuInteractionStateView {
                    hovered_path: path,
                    about_to_show_item: if s.menu_interaction.about_to_show_item == end {
                        end
                    } else {
                        None
                    },
                    pending_about_to_show: match s.menu_interaction.pending_about_to_show {
                        Some(pending) => if end == Some(pending.item_id) {
                            Some(pending)
                        } else {
                            None
                        },
                        None => None,
                    },
                    ..s.menu_interaction
                },
                ..s
            },
            true,
        )
    }
}

pub(crate) fn hover_item(state: &mut State, path: Vec<MenuItemId>) -> (r: bool)
    ensures
        (final(state).deep_view(), r) == item_hovered(old(state).deep_view(), path.deep_view()),
{
    proof {
        reveal(item_hovered);
    }
    if state.menu_interaction.open_root.is_none() || state.menu_interaction.hovered_path.same(
        &path,
    ) {
        return false;
    }
    let end = presentation::last_id(&path);
    if !state.menu_interaction.about_to_show_item.same(&end) {
        state.menu_interaction.about_to_show_item = None;
    }
    let left = match &state.menu_interaction.pending_about_to_show {
        Some(pending) => !end.same(&Some(pending.item_id)),
        None => false,
    };
    if left {
        state.menu_interaction.pending_about_to_show = None;
    }
    state.menu_interaction.hovered_path = path.dup();
    navigation::set_selection(state, Some(path));
    true
}

/// A click outside has closed whatever is open.
#[verifier::opaque]
pub open spec fn clicked_outside(s: StateView, registry: MenuRegistryView) -> (StateView, bool) {
    if s.menu_interaction.open_root is Some || s.audio_popup_open || s.bluetooth_popup_open
        || s.network_popup_open {
        (popups_closed(navigation_left(s, registry)), true)
    } else {
        (s, false)
    }
}

pub(crate) fn click_outside(state: &mut State, registry: &MenuRegistry) -> (r: bool)
    ensures
        (final(state).deep_view(), r) == clicked_outside(
            old(state).deep_view(),
            registry.deep_view(),
        ),
{
    proof {
        reveal(clicked_outside);
    }
    if state.menu_interaction.open_root.is_some() || state.audio_popup_open
        || state.bluetooth_popup_open || state.network_popup_open {
        leave_navigation(state, registry);
        close_popups(state);
        true
    } else {
        false
    }
}

/// The menu that is loaded is that of the given source.
pub open spec fn is_loaded_from(s: StateView, window_id: WindowId, endpoint: MenuSourceView) -> bool {
    match s.menu {
        MenuStateView::Loaded { window_id: w, endpoint: e, .. } => w == window_id && e == endpoint,
        MenuStateView::TrayLoaded { endpoint: e, .. } => window_id.0 == presentation::TRAY_WINDOW
            && MenuSourceView::Tray(e) == endpoint,
        _ => false,
    }
}

fn loaded_from(state: &State, window_id: WindowId, endpoint: &MenuSource) -> (r: bool)
    ensures
        r == is_loaded_from(state.deep_view(), window_id, endpoint.deep_view()),
{
    match &state.menu {
        MenuState::Loaded { window_id: w, endpoint: e, .. } => *w == window_id && e.same(endpoint),
        MenuState::TrayLoaded { endpoint: e, .. } => {
            window_id.0 == presentation::TRAY_WINDOW && MenuSource::Tray(e.dup()).same(endpoint)
        },
        _ => false,
    }
}

/// The item does something by itself when it is chosen.
pub open spec fn is_actionable(item: MenuItemView) -> bool {
    tree::is_selectable(item) && item.children_display is None
}

/// The loaded menu has the item, and the item does something when it is chosen.
pub open spec fn is_actionable_id(s: StateView, id: MenuItemId) -> bool {
    match s.active_menu_model() {
        Some(model) => match tree::find_item(model.root, id) {
            Some(item) => is_actionable(item),
            None => false,
        },
        None => false,
    }
}

fn actionable_id(state: &State, id: MenuItemId) -> (r: bool)
    ensures
        r == is_actionable_id(state.deep_view(), id),
{
    match state.active_menu_model() {
        Some(model) => match tree::item(model, id) {
            Some(item) => tree::selectable(item) && item.children_display.is_none(),
            None => false,
        },
        None => false,
    }
}

/// An item has been chosen, which closes the menu. The choice counts only for an open menu whose
/// source may present it and that has the item.
#[verifier::opaque]
pub open spec fn item_activated(
    s: StateView,
    registry: MenuRegistryView,
    window_id: WindowId,
    endpoint: MenuSourceView,
    item_id: MenuItemId,
) -> (StateView, bool) {
    if presentation::has_authority(s, registry, window_id, endpoint) && is_loaded_from(
        s,
        window_id,
        endpoint,
    ) && s.menu_interaction.open_root is Some && is_actionable_id(s, item_id) {
        (navigation_left(s, registry), true)
    } else {
        (s, false)
    }
}

pub(crate) fn activate_item(
    state: &mut State,
    registry: &MenuRegistry,
    window_id: WindowId,
    endpoint: &MenuSource,
    item_id: MenuItemId,
) -> (r: bool)
    ensures
        (final(state).deep_view(), r) == item_activated(
            old(state).deep_view(),
            registry.deep_view(),
            window_id,
            endpoint.deep_view(),
            item_id,
        ),
{
    proof {
        reveal(item_activated);
    }
    if presentation::authorized(state, registry, window_id, endpoint) && loaded_from(
        state,
        window_id,
        endpoint,
    ) && state.menu_interaction.open_root.is_some() && actionable_id(state, item_id) {
        leave_navigation(state, registry);
        true
    } else {
        false
    }
}

/// An item of the open menu that is chosen closes the menu and ends the navigation, where it is shown,
/// can be used and has no items below it; nothing else does.
pub proof fn lemma_chosen_item_closes_menu(
    s: StateView,
    registry: MenuRegistryView,
    window_id: WindowId,
    endpoint: MenuSourceView,
    model: MenuModelView,
    item_id: MenuItemId,
)
    requires
        s.menu == (MenuStateView::Loaded { window_id, endpoint, model }),
        s.menu_presentation matches Some(presented) && presented.window_id == window_id
            && presented.endpoint == endpoint,
        menu::active_source(registry, Some(window_id)) == Some(endpoint),
        s.menu_interaction.open_root is Some,
    ensures
        ({
            let (after, dirty) = item_activated(s, registry, window_id, endpoint, item_id);
            let offered = tree::find_item(model.root, item_id) matches Some(item) && item.visible
                && item.enabled && item.item_type != MenuItemTypeView::Separator
                && item.children_display is None;
            &&& dirty == offered
            &&& offered ==> {
                &&& after.menu_interaction.open_root is None
                &&& after.menu_interaction.open_path.len() == 0
                &&& after.menu_navigation is None
            }
            &&& !offered ==> after == s
        }),
{
    reveal(item_activated);
}

} // verus!
