//! Which menu is presented, and how that follows focus.
use vstd::prelude::*;

use crate::domain::menu;
use crate::domain::menu::{
    MenuItemId, MenuModel, MenuModelView, MenuRegistry, MenuRegistryView, MenuSource,
    MenuSourceView,
};
use crate::domain::state::{
    MenuInteractionState, MenuInteractionStateView, MenuPresentation, MenuPresentationPolicy,
    MenuPresentationPolicyView, MenuPresentationView, MenuState, MenuStateView, State, StateView,
    WindowId,
};
use crate::value::Value;

verus! {

/// The presented menu goes along with focus.
pub open spec fn follows_focus(s: StateView) -> bool {
    s.menu_presentation_policy is FollowFocus
}

pub(crate) fn presentation_follows_focus(state: &State) -> (r: bool)
    ensures
        r == follows_focus(state.deep_view()),
{
    match &state.menu_presentation_policy {
        MenuPresentationPolicy::FollowFocus => true,
        MenuPresentationPolicy::Pinned { .. } => false,
    }
}

/// The workspace that the presented menu is pinned to.
pub open spec fn pin(s: StateView) -> Option<Seq<char>> {
    match s.menu_presentation_policy {
        MenuPresentationPolicyView::FollowFocus => None,
        MenuPresentationPolicyView::Pinned { workspace } => Some(workspace),
    }
}

/// The presented menu is pinned to the given workspace.
pub(crate) fn pinned_to(state: &State, workspace: &Option<String>) -> (r: bool)
    ensures
        r == (pin(state.deep_view()) == workspace.deep_view()),
{
    match (&state.menu_presentation_policy, workspace) {
        (MenuPresentationPolicy::FollowFocus, None) => true,
        (MenuPresentationPolicy::Pinned { workspace: pinned }, Some(name)) => pinned.same(name),
        _ => false,
    }
}

/// Nothing of the menu is open.
pub open spec fn closed(s: StateView) -> StateView {
    StateView { menu_interaction: MenuInteractionStateView::initial(), ..s }
}

pub(crate) fn set_interaction(state: &mut State, interaction: MenuInteractionState)
    ensures
        final(state).deep_view() == (StateView {
            menu_interaction: interaction.deep_view(),
            ..old(state).deep_view()
        }),
{
    state.menu_interaction = interaction;
}

pub(crate) fn set_menu(state: &mut State, menu: MenuState)
    ensures
        final(state).deep_view() == (StateView {
            menu: menu.deep_view(),
            ..old(state).deep_view()
        }),
{
    state.menu = menu;
}

pub(crate) fn close_menu(state: &mut State)
    ensures
        final(state).deep_view() == closed(old(state).deep_view()),
{
    state.menu_interaction = MenuInteractionState::default();
}

/// The menu of the focused window, to be presented.
pub open spec fn focus_presentation(s: StateView, registry: MenuRegistryView) -> Option<
    MenuPresentationView,
> {
    match s.focused_window {
        Some(window_id) => match menu::active_source(registry, Some(window_id)) {
            Some(endpoint) => Some(MenuPresentationView { window_id, endpoint }),
            None => None,
        },
        None => None,
    }
}

/// The menu of the focused window is presented, and is still to be loaded.
pub open spec fn reconciled(s: StateView, registry: MenuRegistryView) -> StateView {
    StateView {
        menu_presentation: focus_presentation(s, registry),
        menu: MenuStateView::NoMenu,
        menu_interaction: MenuInteractionStateView::initial(),
        global_menu_model: None,
        menu_presentation_needs_focus_reconciliation: false,
        ..s
    }
}

pub fn reconcile_menu_presentation_to_focus(state: &mut State, registry: &MenuRegistry)
    ensures
        final(state).deep_view() == reconciled(old(state).deep_view(), registry.deep_view()),
{
    state.menu_presentation =
    match state.focused_window {
        Some(window_id) => match registry.active(Some(window_id)) {
            Some(endpoint) => Some(MenuPresentation { window_id, endpoint }),
            None => None,
        },
        None => None,
    };
    state.menu = MenuState::NoMenu;
    state.menu_interaction = MenuInteractionState::default();
    state.global_menu_model = None;
    state.menu_presentation_needs_focus_reconciliation = false;
}

/// A pinned presentation has ended, and the menu of the focused window is presented.
pub open spec fn unpinned(s: StateView, registry: MenuRegistryView) -> StateView {
    reconciled(
        StateView {
            menu_navigation: None,
            menu_presentation_policy: MenuPresentationPolicyView::FollowFocus,
            ..s
        },
        registry,
    )
}

pub(crate) fn end_pinned_presentation(state: &mut State, registry: &MenuRegistry)
    ensures
        final(state).deep_view() == unpinned(old(state).deep_view(), registry.deep_view()),
{
    state.menu_navigation = None;
    state.menu_presentation_policy = MenuPresentationPolicy::FollowFocus;
    reconcile_menu_presentation_to_focus(state, registry);
}

/// A pinned presentation has ended because its workspace was left: nothing is presented until
/// the next focus event.
pub open spec fn unpinned_by_workspace(s: StateView) -> StateView {
    StateView {
        menu_navigation: None,
        menu_presentation_policy: MenuPresentationPolicyView::FollowFocus,
        menu_presentation: None,
        menu: MenuStateView::NoMenu,
        menu_interaction: MenuInteractionStateView::initial(),
        global_menu_model: None,
        menu_presentation_needs_focus_reconciliation: true,
        ..s
    }
}

pub(crate) fn end_pinned_presentation_for_workspace_change(state: &mut State)
    ensures
        final(state).deep_view() == unpinned_by_workspace(old(state).deep_view()),
{
    state.menu_navigation = None;
    state.menu_presentation_policy = MenuPresentationPolicy::FollowFocus;
    state.menu_presentation = None;
    state.menu = MenuState::NoMenu;
    state.menu_interaction = MenuInteractionState::default();
    state.global_menu_model = None;
    state.menu_presentation_needs_focus_reconciliation = true;
}

/// The presented menu is gone: a pinned presentation ends, and one that follows focus is dropped.
pub open spec fn withdrawn(s: StateView, registry: MenuRegistryView) -> StateView {
    if follows_focus(s) {
        StateView {
            menu_navigation: None,
            menu: MenuStateView::NoMenu,
            menu_interaction: MenuInteractionStateView::initial(),
            global_menu_model: None,
            menu_presentation: None,
            ..s
        }
    } else {
        unpinned(s, registry)
    }
}

pub(crate) fn withdraw_presentation(state: &mut State, registry: &MenuRegistry)
    ensures
        final(state).deep_view() == withdrawn(old(state).deep_view(), registry.deep_view()),
{
    if presentation_follows_focus(state) {
        state.menu_navigation = None;
        state.menu = MenuState::NoMenu;
        state.menu_interaction = MenuInteractionState::default();
        state.global_menu_model = None;
        state.menu_presentation = None;
    } else {
        end_pinned_presentation(state, registry);
    }
}

/// What is presented is the menu to show for the focused window.
pub open spec fn presents_focus(s: StateView, registry: MenuRegistryView) -> bool {
    &&& s.focused_window matches Some(window)
    &&& s.menu_presentation matches Some(presentation)
    &&& window == presentation.window_id
    &&& menu::active_source(registry, Some(window)) == Some(presentation.endpoint)
}

fn still_presents_focus(state: &State, registry: &MenuRegistry) -> (r: bool)
    ensures
        r == presents_focus(state.deep_view(), registry.deep_view()),
{
    match (state.focused_window, &state.menu_presentation) {
        (Some(window), Some(presentation)) => window == presentation.window_id
            && registry.source_matches(window, &presentation.endpoint),
        _ => false,
    }
}

/// Keyboard navigation has ended. The presentation stays where it is pinned or still that of the
/// focused window, and goes back to focus otherwise.
pub open spec fn navigation_ended(s: StateView, registry: MenuRegistryView) -> StateView {
    let ended = StateView { menu_navigation: None, ..s };
    if follows_focus(s) && !presents_focus(s, registry) {
        reconciled(ended, registry)
    } else {
        closed(ended)
    }
}

pub(crate) fn teardown_navigation(state: &mut State, registry: &MenuRegistry)
    ensures
        final(state).deep_view() == navigation_ended(old(state).deep_view(), registry.deep_view()),
{
    state.menu_navigation = None;
    if presentation_follows_focus(state) && !still_presents_focus(state, registry) {
        reconcile_menu_presentation_to_focus(state, registry);
    } else {
        state.menu_interaction = MenuInteractionState::default();
    }
}

/// The last item of a path.
pub open spec fn path_end(path: Option<Seq<MenuItemId>>) -> Option<MenuItemId> {
    match path {
        Some(ids) => if ids.len() > 0 {
            Some(ids.last())
        } else {
            None
        },
        None => None,
    }
}

/// The item that the keyboard selects.
pub open spec fn selected(s: StateView) -> Option<MenuItemId> {
    match s.menu_navigation {
        Some(session) => path_end(session.selected_path),
        None => None,
    }
}

pub(crate) fn last_id(path: &Vec<MenuItemId>) -> (r: Option<MenuItemId>)
    ensures
        r == path_end(Some(path.deep_view())),
{
    if path.len() == 0 {
        None
    } else {
        Some(path[path.len() - 1])
    }
}

pub(crate) fn selected_id(state: &State) -> (r: Option<MenuItemId>)
    ensures
        r == selected(state.deep_view()),
{
    match &state.menu_navigation {
        Some(session) => match &session.selected_path {
            Some(path) => last_id(path),
            None => None,
        },
        None => None,
    }
}

/// Keyboard navigation has ended if it was waiting for an item that will not be opened.
pub open spec fn lazy_root_given_up(
    s: StateView,
    registry: MenuRegistryView,
    item_id: MenuItemId,
) -> StateView {
    if selected(s) == Some(item_id) && s.menu_interaction.open_root is None {
        navigation_ended(s, registry)
    } else {
        s
    }
}

pub(crate) fn teardown_navigation_waiting_for_lazy_root(
    state: &mut State,
    registry: &MenuRegistry,
    item_id: MenuItemId,
)
    ensures
        final(state).deep_view() == lazy_root_given_up(
            old(state).deep_view(),
            registry.deep_view(),
            item_id,
        ),
{
    let waiting_for_item = selected_id(state).same(&Some(item_id));
    if waiting_for_item && state.menu_interaction.open_root.is_none() {
        teardown_navigation(state, registry);
    }
}

/// The loaded menu, where it is that of the presentation.
pub open spec fn presentation_model(s: StateView) -> Option<MenuModelView> {
    match (s.menu_presentation, s.menu) {
        (Some(presentation), MenuStateView::Loaded { window_id, endpoint, model }) => if window_id
            == presentation.window_id && endpoint == presentation.endpoint {
            Some(model)
        } else {
            None
        },
        _ => None,
    }
}

pub(crate) fn current_presentation_model(state: &State) -> (r: Option<&MenuModel>)
    ensures
        r.deep_view() == presentation_model(state.deep_view()),
{
    match (&state.menu_presentation, &state.menu) {
        (Some(presentation), MenuState::Loaded { window_id, endpoint, model }) => {
            if *window_id == presentation.window_id && endpoint.same(&presentation.endpoint) {
                Some(model)
            } else {
                None
            }
        },
        _ => None,
    }
}

/// A window's menu is the one presented, and the one to show for that window.
pub open spec fn presented_and_registered(
    s: StateView,
    registry: MenuRegistryView,
    window_id: WindowId,
    endpoint: MenuSourceView,
) -> bool {
    s.menu_presentation_matches(window_id, endpoint) && menu::active_source(
        registry,
        Some(window_id),
    ) == Some(endpoint)
}

pub(crate) fn presentation_matches_registry(
    state: &State,
    registry: &MenuRegistry,
    window_id: WindowId,
    endpoint: &MenuSource,
) -> (r: bool)
    ensures
        r == presented_and_registered(
            state.deep_view(),
            registry.deep_view(),
            window_id,
            endpoint.deep_view(),
        ),
{
    state.menu_presentation_matches(window_id, endpoint) && registry.source_matches(
        window_id,
        endpoint,
    )
}

/// The number of the window that stands for the tray, which has none.
pub const TRAY_WINDOW: u32 = 0xffff_ffff;

/// A source may present its menu: that of a tray item always, that of a window while it is the
/// presented and registered one.
pub open spec fn has_authority(
    s: StateView,
    registry: MenuRegistryView,
    window_id: WindowId,
    endpoint: MenuSourceView,
) -> bool {
    (endpoint is Tray && window_id.0 == TRAY_WINDOW) || presented_and_registered(
        s,
        registry,
        window_id,
        endpoint,
    )
}

pub(crate) fn authorized(
    state: &State,
    registry: &MenuRegistry,
    window_id: WindowId,
    endpoint: &MenuSource,
) -> (r: bool)
    ensures
        r == has_authority(
            state.deep_view(),
            registry.deep_view(),
            window_id,
            endpoint.deep_view(),
        ),
{
    let tray = match endpoint {
        MenuSource::Tray(_) => true,
        _ => false,
    };
    (tray && window_id.0 == TRAY_WINDOW) || presentation_matches_registry(
        state,
        registry,
        window_id,
        endpoint,
    )
}

/// Opening another popup dismisses only what is open of the menu; the loaded menu itself stays,
/// for focus and endpoint events to invalidate.
pub(crate) fn dismiss_menu_presentation(state: &mut State) -> (r: bool)
    ensures
        final(state).deep_view() == closed(old(state).deep_view()),
        r == (old(state).deep_view().menu_interaction != MenuInteractionStateView::initial()),
{
    let changed = !state.menu_interaction.same(&MenuInteractionState::default());
    state.menu_interaction = MenuInteractionState::default();
    changed
}

} // verus!
