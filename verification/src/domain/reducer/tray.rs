//! Tray items and their menus.
use vstd::prelude::*;

use crate::domain::menu::{MenuEndpoint, MenuEndpointView};
use crate::domain::reducer::interaction;
use crate::domain::reducer::presentation;
use crate::domain::state::{MenuInteractionStateView, MenuState, MenuStateView, State, StateView};
use crate::domain::status_notifier;
use crate::domain::status_notifier::{
    StatusNotifierEndpoint, StatusNotifierEndpointView, StatusNotifierItem,
    StatusNotifierItemRegistry, StatusNotifierItemView, StatusNotifierRegistry,
};
use crate::value::Value;

verus! {

/// The tray menu that is shown or being loaded.
pub open spec fn tray_menu(s: StateView) -> Option<MenuEndpointView> {
    match s.menu {
        MenuStateView::TrayLoaded { endpoint, .. } => Some(endpoint),
        MenuStateView::TrayLoading { endpoint, .. } => Some(endpoint),
        _ => None,
    }
}

fn current_tray_menu(state: &State) -> (r: Option<&MenuEndpoint>)
    ensures
        r.deep_view() == tray_menu(state.deep_view()),
{
    match &state.menu {
        MenuState::TrayLoaded { endpoint, .. } => Some(endpoint),
        MenuState::TrayLoading { endpoint, .. } => Some(endpoint),
        _ => None,
    }
}

/// The menu is dropped.
pub open spec fn menu_dropped(s: StateView) -> StateView {
    presentation::closed(StateView { menu: MenuStateView::NoMenu, ..s })
}

fn drop_menu(state: &mut State)
    ensures
        final(state).deep_view() == menu_dropped(old(state).deep_view()),
{
    presentation::set_menu(state, MenuState::NoMenu);
    presentation::close_menu(state);
}

/// A tray menu is dropped where it is one of the given service.
pub open spec fn service_menu_dropped(s: StateView, service: Seq<char>) -> StateView {
    if tray_menu(s) matches Some(e) && e.service == service {
        menu_dropped(s)
    } else {
        s
    }
}

fn drop_service_menu(state: &mut State, service: &String)
    ensures
        final(state).deep_view() == service_menu_dropped(old(state).deep_view(), service@),
{
    let of_service = match current_tray_menu(state) {
        Some(e) => e.service.same(service),
        None => false,
    };
    if of_service {
        drop_menu(state);
    }
}

/// A tray item has been registered.
pub open spec fn item_registered(s: StateView, endpoint: StatusNotifierEndpointView) -> StateView {
    StateView {
        status_notifiers: status_notifier::with_endpoint(s.status_notifiers, endpoint),
        ..s
    }
}

pub(crate) fn register_item(state: &mut State, endpoint: StatusNotifierEndpoint)
    ensures
        final(state).deep_view() == item_registered(
            old(state).deep_view(),
            endpoint.deep_view(),
        ),
{
    state.status_notifiers.register(endpoint);
}

/// A tray item is gone.
pub open spec fn item_unregistered(s: StateView, endpoint: StatusNotifierEndpointView) -> (
    StateView,
    bool,
) {
    (
        service_menu_dropped(
            StateView {
                status_notifiers: status_notifier::without_endpoint(s.status_notifiers, endpoint),
                status_notifier_items: status_notifier::without_item(
                    s.status_notifier_items,
                    endpoint,
                ),
                ..s
            },
            endpoint.service,
        ),
        status_notifier::item_index(s.status_notifier_items, endpoint) is Some,
    )
}

fn forget_item(state: &mut State, endpoint: &StatusNotifierEndpoint) -> (r: bool)
    ensures
        final(state).deep_view() == (StateView {
            status_notifiers: status_notifier::without_endpoint(
                old(state).deep_view().status_notifiers,
                endpoint.deep_view(),
            ),
            status_notifier_items: status_notifier::without_item(
                old(state).deep_view().status_notifier_items,
                endpoint.deep_view(),
            ),
            ..old(state).deep_view()
        }),
        r == (status_notifier::item_index(
            old(state).deep_view().status_notifier_items,
            endpoint.deep_view(),
        ) is Some),
{
    state.status_notifiers.unregister(endpoint);
    state.status_notifier_items.remove(endpoint)
}

pub(crate) fn unregister_item(state: &mut State, endpoint: &StatusNotifierEndpoint) -> (r: bool)
    ensures
        (final(state).deep_view(), r) == item_unregistered(
            old(state).deep_view(),
            endpoint.deep_view(),
        ),
{
    let removed = forget_item(state, endpoint);
    drop_service_menu(state, &endpoint.service);
    removed
}

/// The endpoints of other services.
pub open spec fn other_endpoints(
    endpoints: Seq<StatusNotifierEndpointView>,
    service: Seq<char>,
) -> Seq<StatusNotifierEndpointView> {
    endpoints.filter(|e: StatusNotifierEndpointView| e.service != service)
}

/// The items of other services.
pub open spec fn other_items(items: Seq<StatusNotifierItemView>, service: Seq<char>) -> Seq<
    StatusNotifierItemView,
> {
    items.filter(|i: StatusNotifierItemView| i.endpoint.service != service)
}

/// The items of a service.
pub open spec fn own_items(items: Seq<StatusNotifierItemView>, service: Seq<char>) -> Seq<
    StatusNotifierItemView,
> {
    items.filter(|i: StatusNotifierItemView| i.endpoint.service == service)
}

/// A service is gone, and with it its tray items.
pub open spec fn service_vanished(s: StateView, service: Seq<char>) -> (StateView, bool) {
    (
        service_menu_dropped(
            StateView {
                status_notifiers: other_endpoints(s.status_notifiers, service),
                status_notifier_items: other_items(s.status_notifier_items, service),
                ..s
            },
            service,
        ),
        own_items(s.status_notifier_items, service).len() > 0,
    )
}

fn forget_service_items(state: &mut State, service: &String) -> (r: bool)
    ensures
        final(state).deep_view() == (StateView {
            status_notifiers: other_endpoints(old(state).deep_view().status_notifiers, service@),
            status_notifier_items: other_items(
                old(state).deep_view().status_notifier_items,
                service@,
            ),
            ..old(state).deep_view()
        }),
        r == (own_items(old(state).deep_view().status_notifier_items, service@).len() > 0),
{
    state.status_notifiers.remove_service(service.as_str());
    let removed: usize = state.status_notifier_items.remove_service(service.as_str());
    removed > 0
}

pub(crate) fn forget_service(state: &mut State, service: &String) -> (r: bool)
    ensures
        (final(state).deep_view(), r) == service_vanished(old(state).deep_view(), service@),
{
    let removed = forget_service_items(state, service);
    drop_service_menu(state, service);
    removed
}

/// Nothing is known of the tray any more.
pub open spec fn tray_forgotten(s: StateView) -> StateView {
    StateView {
        status_notifiers: Seq::empty(),
        status_notifier_items: Seq::empty(),
        status_notifier_host_registered: false,
        ..s
    }
}

/// The tray is gone as a whole.
pub open spec fn tray_lost(s: StateView) -> (StateView, bool) {
    (
        if tray_menu(s) is Some {
            menu_dropped(tray_forgotten(s))
        } else {
            tray_forgotten(s)
        },
        s.status_notifiers.len() > 0 || s.status_notifier_items.len() > 0
            || s.status_notifier_host_registered,
    )
}

fn forget_tray(state: &mut State)
    ensures
        final(state).deep_view() == tray_forgotten(old(state).deep_view()),
{
    state.status_notifiers = StatusNotifierRegistry::default();
    state.status_notifier_items = StatusNotifierItemRegistry::default();
    state.status_notifier_host_registered = false;
}

pub(crate) fn lose_tray(state: &mut State) -> (r: bool)
    ensures
        (final(state).deep_view(), r) == tray_lost(old(state).deep_view()),
{
    let items = state.status_notifier_items.items().len();
    let changed = !state.status_notifiers.is_empty() || items > 0
        || state.status_notifier_host_registered;
    let shown = current_tray_menu(state).is_some();
    forget_tray(state);
    if shown {
        drop_menu(state);
    }
    changed
}

/// Where the menu of an item is exported, empty where it has none.
pub open spec fn menu_path(item: StatusNotifierItemView) -> Seq<char> {
    match item.menu {
        Some(menu) => menu.object_path,
        None => Seq::empty(),
    }
}

/// The tray menu belongs to the service of an item whose menu is now another one.
pub open spec fn closes_menu(s: StateView, item: StatusNotifierItemView) -> bool {
    tray_menu(s) matches Some(e) && e.service == item.endpoint.service && e.object_path
        != menu_path(item)
}

fn menu_is_stale(state: &State, item: &StatusNotifierItem) -> (r: bool)
    ensures
        r == closes_menu(state.deep_view(), item.deep_view()),
{
    match current_tray_menu(state) {
        Some(e) => {
            let same_path = match &item.menu {
                Some(menu) => e.object_path.same(&menu.object_path),
                None => e.object_path.same(&String::new()),
            };
            e.service.same(&item.endpoint.service) && !same_path
        },
        None => false,
    }
}

/// A tray item has been reported.
pub open spec fn item_updated(s: StateView, item: StatusNotifierItemView) -> (StateView, bool) {
    let items = status_notifier::with_item(s.status_notifier_items, item);
    let s1 = StateView { status_notifier_items: items, ..s };
    (
        if closes_menu(s, item) {
            menu_dropped(s1)
        } else {
            s1
        },
        items != s.status_notifier_items || closes_menu(s, item),
    )
}

fn take_item(state: &mut State, item: StatusNotifierItem) -> (r: bool)
    ensures
        final(state).deep_view() == (StateView {
            status_notifier_items: status_notifier::with_item(
                old(state).deep_view().status_notifier_items,
                item.deep_view(),
            ),
            ..old(state).deep_view()
        }),
        r == (final(state).deep_view().status_notifier_items
            != old(state).deep_view().status_notifier_items),
{
    state.status_notifier_items.upsert(item)
}

pub(crate) fn update_item(state: &mut State, item: StatusNotifierItem) -> (r: bool)
    ensures
        (final(state).deep_view(), r) == item_updated(old(state).deep_view(), item.deep_view()),
{
    let closes = menu_is_stale(state, &item);
    let changed = take_item(state, item);
    if closes {
        drop_menu(state);
    }
    changed || closes
}

/// The menu of a tray item is wanted: popups and what is open of the menu close.
pub open spec fn tray_menu_wanted(s: StateView) -> (StateView, bool) {
    let popup = s.audio_popup_open || s.audio_dragging || s.bluetooth_popup_open
        || s.network_popup_open;
    (
        interaction::popups_closed(presentation::closed(s)),
        popup || s.menu_interaction != MenuInteractionStateView::initial(),
    )
}

pub(crate) fn want_tray_menu(state: &mut State) -> (r: bool)
    ensures
        (final(state).deep_view(), r) == tray_menu_wanted(old(state).deep_view()),
{
    let popup = state.audio_popup_open || state.audio_dragging || state.bluetooth_popup_open
        || state.network_popup_open;
    let dismissed = presentation::dismiss_menu_presentation(state);
    interaction::close_popups(state);
    popup || dismissed
}

} // verus!
