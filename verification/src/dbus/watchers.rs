//! The watchers that follow the menus of applications, and the loads of their layouts.
use vstd::prelude::*;

use crate::dbus::menu;
use crate::dbus::wire::Properties;
use crate::domain::event::Event;
use crate::domain::menu::{
    GtkMenuEndpoint, MenuEndpoint, MenuEndpointView, MenuItemId, MenuItemPropertiesUpdateView,
    MenuModel, MenuModelView, MenuSource, MenuSourceView,
};
use crate::domain::reducer::presentation;
use crate::domain::state::WindowId;
use crate::lists;
use crate::seqs;
use crate::table;
use crate::table::Table;
use crate::text;
use crate::value::Value;

verus! {

/// A request for the layout of a menu.
#[derive(Clone, Debug, Eq, PartialEq)]
pub struct LayoutRequest {
    pub window_id: WindowId,
    pub endpoint: MenuEndpoint,
    pub request_id: u64,
}

/// The model of a [`LayoutRequest`].
#[verifier::ext_equal]
pub struct LayoutRequestView {
    pub window_id: WindowId,
    pub endpoint: MenuEndpointView,
    pub request_id: u64,
}

impl DeepView for LayoutRequest {
    type V = LayoutRequestView;

    open spec fn deep_view(&self) -> LayoutRequestView {
        LayoutRequestView {
            window_id: self.window_id,
            endpoint: self.endpoint.deep_view(),
            request_id: self.request_id,
        }
    }
}

/// A request to tell an application that an item is about to be shown.
#[derive(Clone, Debug, Eq, PartialEq)]
pub struct AboutRequest {
    pub window_id: WindowId,
    pub endpoint: MenuEndpoint,
    pub item_id: MenuItemId,
    pub request_id: u64,
    pub lazy_root: bool,
    pub intent_id: Option<u64>,
    pub watcher_generation: Option<u64>,
}

/// The model of a [`AboutRequest`].
#[verifier::ext_equal]
pub struct AboutRequestView {
    pub window_id: WindowId,
    pub endpoint: MenuEndpointView,
    pub item_id: MenuItemId,
    pub request_id: u64,
    pub lazy_root: bool,
    pub intent_id: Option<u64>,
    pub watcher_generation: Option<u64>,
}

impl DeepView for AboutRequest {
    type V = AboutRequestView;

    open spec fn deep_view(&self) -> AboutRequestView {
        AboutRequestView {
            window_id: self.window_id,
            endpoint: self.endpoint.deep_view(),
            item_id: self.item_id,
            request_id: self.request_id,
            lazy_root: self.lazy_root,
            intent_id: self.intent_id.deep_view(),
            watcher_generation: self.watcher_generation.deep_view(),
        }
    }
}

/// What is known of the watcher of a menu.
#[derive(Clone, Debug, Eq, PartialEq)]
pub struct MenuWatcherControl {
    pub watcher_generation: u64,
    /// The load that is under way, by its request.
    pub load: Option<u64>,
}

/// The model of a [`MenuWatcherControl`].
#[verifier::ext_equal]
pub struct MenuWatcherControlView {
    pub watcher_generation: u64,
    pub load: Option<u64>,
}

impl DeepView for MenuWatcherControl {
    type V = MenuWatcherControlView;

    open spec fn deep_view(&self) -> MenuWatcherControlView {
        MenuWatcherControlView {
            watcher_generation: self.watcher_generation,
            load: self.load.deep_view(),
        }
    }
}

impl Value for MenuWatcherControl {
    fn same(&self, other: &Self) -> (r: bool) {
        self.watcher_generation == other.watcher_generation && self.load.same(&other.load)
    }

    fn dup(&self) -> (r: Self) {
        MenuWatcherControl {
            watcher_generation: self.watcher_generation,
            load: self.load.dup(),
        }
    }
}

/// The watchers of menus by the keys of their endpoints.
pub type MenuWatchers = Table<String, MenuWatcherControl>;

/// The key of the endpoint of a menu.
pub open spec fn key_of(endpoint: MenuEndpointView) -> Seq<char> {
    endpoint.service + seq!['\0'] + endpoint.object_path
}

/// The key of the endpoint of a menu.
pub fn dbus_menu_endpoint_key(endpoint: &MenuEndpoint) -> (r: String)
    ensures
        r@ == key_of(endpoint.deep_view()),
{
    proof {
        reveal_strlit("\0");
    }
    let s = text::concat(endpoint.service.as_str(), "\0");
    text::concat(s.as_str(), endpoint.object_path.as_str())
}

/// Endpoints of services whose names hold no NUL have one key only where they are one endpoint.
pub proof fn lemma_key_names_endpoint(a: MenuEndpointView, b: MenuEndpointView)
    requires
        !a.service.contains('\0'),
        !b.service.contains('\0'),
        key_of(a) == key_of(b),
    ensures
        a == b,
{
    let (n, m) = (a.service.len() as int, b.service.len() as int);
    assert(key_of(a)[n] == '\0');
    assert(key_of(b)[m] == '\0');
    if n < m {
        assert(b.service[n] == key_of(b)[n]);
        assert(b.service.contains('\0'));
    }
    if m < n {
        assert(a.service[m] == key_of(a)[m]);
        assert(a.service.contains('\0'));
    }
    assert(a.service =~= key_of(a).take(n));
    assert(b.service =~= key_of(b).take(n));
    assert(a.object_path =~= key_of(a).skip(n + 1));
    assert(b.object_path =~= key_of(b).skip(n + 1));
}

/// Whether a key is that of an endpoint of an owner.
pub open spec fn key_of_owner(key: Seq<char>, owner: Seq<char>) -> bool {
    text::is_prefix(key, owner + seq!['\0'])
}

/// Where no name holds a NUL, the keys of an owner are those of its own endpoints.
pub proof fn lemma_key_of_owner(endpoint: MenuEndpointView, owner: Seq<char>)
    requires
        !endpoint.service.contains('\0'),
        !owner.contains('\0'),
    ensures
        key_of_owner(key_of(endpoint), owner) <==> endpoint.service == owner,
{
    let key = key_of(endpoint);
    let prefix = owner + seq!['\0'];
    let (n, m) = (endpoint.service.len() as int, owner.len() as int);
    assert(key[n] == '\0');
    if endpoint.service == owner {
        assert(key.take(prefix.len() as int) =~= prefix);
    }
    if text::is_prefix(key, prefix) {
        assert(key.take(prefix.len() as int)[m] == prefix[m]);
        if n < m {
            assert(key.take(prefix.len() as int)[n] == prefix[n]);
            assert(owner[n] == '\0');
            assert(owner.contains('\0'));
        }
        if m < n {
            assert(endpoint.service[m] == key[m]);
            assert(endpoint.service.contains('\0'));
        }
        assert forall|i: int| 0 <= i < m implies endpoint.service[i] == owner[i] by {
            assert(key.take(prefix.len() as int)[i] == prefix[i]);
        }
        assert(endpoint.service =~= owner);
    }
}

/// The number after a generation.
pub open spec fn next_generation(n: u64) -> u64 {
    if n == u64::MAX {
        0
    } else {
        (n + 1) as u64
    }
}

/// Takes the next generation.
pub fn allocate_menu_watcher_generation(next: &mut u64) -> (r: u64)
    ensures
        r == *old(next),
        *final(next) == next_generation(*old(next)),
{
    let generation: u64 = *next;
    *next = generation.wrapping_add(1);
    generation
}

impl MenuWatcherControlView {
    /// A watcher without a load.
    pub open spec fn fresh(watcher_generation: u64) -> MenuWatcherControlView {
        MenuWatcherControlView { watcher_generation, load: None }
    }

    /// After a load was started.
    pub open spec fn loading(self, request_id: u64) -> MenuWatcherControlView {
        MenuWatcherControlView { load: Some(request_id), ..self }
    }

    /// After a load was finished.
    pub open spec fn finished(self, request_id: u64) -> MenuWatcherControlView {
        if self.load == Some(request_id) {
            MenuWatcherControlView { load: None, ..self }
        } else {
            self
        }
    }
}

impl MenuWatcherControl {
    /// A watcher without a load.
    pub fn new(watcher_generation: u64) -> (r: Self)
        ensures
            r.deep_view() == MenuWatcherControlView::fresh(watcher_generation),
    {
        MenuWatcherControl { watcher_generation, load: None }
    }

    /// Starts a load; returns the one to cancel.
    pub fn start_load(&mut self, request_id: u64) -> (r: Option<u64>)
        ensures
            final(self).deep_view() == old(self).deep_view().loading(request_id),
            r == old(self).load,
    {
        let cancelled = self.load;
        self.load = Some(request_id);
        cancelled
    }

    /// Finishes a load; returns whether it was the one under way.
    pub fn finish_load(&mut self, request_id: u64) -> (r: bool)
        ensures
            final(self).deep_view() == old(self).deep_view().finished(request_id),
            r == (old(self).load == Some(request_id)),
    {
        let current = match self.load {
            Some(current) => current == request_id,
            None => false,
        };
        if current {
            self.load = None;
        }
        current
    }
}

/// What happens to the watchers of menus.
pub enum WatcherChange {
    /// A layout is requested.
    Requested(LayoutRequestView),
    /// A watcher is installed for a request, with a generation.
    Installed(LayoutRequestView, u64),
    /// A load comes to its end.
    Finished(LayoutRequestView),
    /// A menu is not followed any more.
    Ended(MenuEndpointView),
    /// An owner is gone.
    OwnerGone(Seq<char>),
}

/// The watchers after a change. A request for the menu of a watcher replaces the load under way.
pub open spec fn changed_by(
    watchers: Map<Seq<char>, MenuWatcherControlView>,
    change: WatcherChange,
) -> Map<Seq<char>, MenuWatcherControlView> {
    match change {
        WatcherChange::Requested(request) => {
            let key = key_of(request.endpoint);
            if watchers.contains_key(key) {
                watchers.insert(key, watchers[key].loading(request.request_id))
            } else {
                watchers
            }
        },
        WatcherChange::Installed(request, generation) => watchers.insert(
            key_of(request.endpoint),
            MenuWatcherControlView::fresh(generation).loading(request.request_id),
        ),
        WatcherChange::Finished(request) => load_finished(
            watchers,
            key_of(request.endpoint),
            request.request_id,
        ),
        WatcherChange::Ended(endpoint) => watchers.remove(key_of(endpoint)),
        WatcherChange::OwnerGone(owner) => table::restricted(
            watchers,
            |key: Seq<char>| !key_of_owner(key, owner),
        ),
    }
}

/// The watchers after changes, one after the other.
pub open spec fn changed_by_all(
    watchers: Map<Seq<char>, MenuWatcherControlView>,
    changes: Seq<WatcherChange>,
) -> Map<Seq<char>, MenuWatcherControlView>
    decreases changes.len(),
{
    if changes.len() == 0 {
        watchers
    } else {
        changed_by(changed_by_all(watchers, changes.drop_last()), changes.last())
    }
}

/// Removes the watchers of an owner; returns the keys of those to cancel.
pub fn cancel_watchers_for_unique_owner(watchers: &mut MenuWatchers, owner: &str) -> (r: Vec<
    String,
>)
    ensures
        final(watchers).deep_view() == changed_by(
            old(watchers).deep_view(),
            WatcherChange::OwnerGone(owner@),
        ),
        forall|key: Seq<char>| #[trigger]
            r.deep_view().contains(key) <==> old(watchers).deep_view().contains_key(key)
                && key_of_owner(key, owner@),
{
    proof {
        reveal_strlit("\0");
    }
    let prefix = text::concat(owner, "\0");
    assert(prefix@ =~= owner@ + seq!['\0']);
    let keys = watchers.keys();
    let gone = |key: &String| -> (b: bool)
        ensures
            b == key_of_owner(key@, owner@),
    {
        text::starts_with(key.as_str(), prefix.as_str())
    };
    let ghost of_owner = |key: Seq<char>| key_of_owner(key, owner@);
    let cancelled = lists::select(&keys, gone, Ghost(of_owner));
    let stays = |key: &String| -> (b: bool)
        ensures
            b == !key_of_owner(key@, owner@),
    {
        !text::starts_with(key.as_str(), prefix.as_str())
    };
    watchers.retain(stays, Ghost(|key: Seq<char>| !key_of_owner(key, owner@)));
    assert forall|key: Seq<char>| #[trigger]
        cancelled.deep_view().contains(key) <==> old(watchers).deep_view().contains_key(key)
            && key_of_owner(key, owner@) by {
        seqs::lemma_filter_members(keys.deep_view(), of_owner, key);
    }
    cancelled
}

/// The watchers after a load was finished.
pub open spec fn load_finished(
    watchers: Map<Seq<char>, MenuWatcherControlView>,
    key: Seq<char>,
    request_id: u64,
) -> Map<Seq<char>, MenuWatcherControlView> {
    if watchers.contains_key(key) {
        watchers.insert(key, watchers[key].finished(request_id))
    } else {
        watchers
    }
}

/// Whether a load is the one under way for the menu of a key.
pub open spec fn is_loading(
    watchers: Map<Seq<char>, MenuWatcherControlView>,
    key: Seq<char>,
    request_id: u64,
) -> bool {
    watchers.contains_key(key) && watchers[key].load == Some(request_id)
}

/// Whether the outcome of a request is waited for: its load is the one under way for its menu.
pub open spec fn is_awaited(
    watchers: Map<Seq<char>, MenuWatcherControlView>,
    request: LayoutRequestView,
) -> bool {
    is_loading(watchers, key_of(request.endpoint), request.request_id)
}

/// Finishes a load; returns whether it was the one under way for its menu.
pub fn finish_layout_load(
    watchers: &mut MenuWatchers,
    endpoint: &MenuEndpoint,
    request_id: u64,
) -> (r: bool)
    ensures
        final(watchers).deep_view() == load_finished(
            old(watchers).deep_view(),
            key_of(endpoint.deep_view()),
            request_id,
        ),
        r == is_loading(old(watchers).deep_view(), key_of(endpoint.deep_view()), request_id),
{
    let key = dbus_menu_endpoint_key(endpoint);
    let found = match watchers.get(&key) {
        Some(control) => Some(control.dup()),
        None => None,
    };
    match found {
        Some(control) => {
            let mut control = control;
            let current = control.finish_load(request_id);
            watchers.insert(key, control);
            current
        },
        None => false,
    }
}

/// Whether an event says that the watcher of a menu is ready for a load.
pub open spec fn is_ready_event(
    event: Event,
    endpoint: MenuEndpointView,
    generation: u64,
    request: u64,
) -> bool {
    event matches Event::MenuWatcherReady { endpoint: source, watcher_generation, request_id }
        && source.deep_view() == MenuSourceView::DbusMenu(endpoint) && watcher_generation
        == generation && request_id == request
}

fn ready_event(endpoint: &MenuEndpoint, watcher_generation: u64, request_id: u64) -> (r: Event)
    ensures
        is_ready_event(r, endpoint.deep_view(), watcher_generation, request_id),
{
    Event::MenuWatcherReady {
        endpoint: MenuSource::DbusMenu(endpoint.dup()),
        watcher_generation,
        request_id,
    }
}

/// What a request for a layout asks for.
#[derive(Clone, Debug, PartialEq)]
pub enum LayoutStep {
    /// No watcher follows the menu yet: one is to be installed first.
    Install,
    /// The load is to be started, in place of the one to cancel.
    Load { ready: Event, cancelled: Option<u64> },
}

/// Takes a request for a layout in.
pub fn layout_requested(watchers: &mut MenuWatchers, request: &LayoutRequest) -> (r: LayoutStep)
    ensures
        ({
            let key = key_of(request.endpoint.deep_view());
            let before = old(watchers).deep_view();
            &&& final(watchers).deep_view() == changed_by(
                before,
                WatcherChange::Requested(request.deep_view()),
            )
            &&& if before.contains_key(key) {
                r matches LayoutStep::Load { ready, cancelled } && cancelled
                    == before[key].load && is_ready_event(
                    ready,
                    request.endpoint.deep_view(),
                    before[key].watcher_generation,
                    request.request_id,
                )
            } else {
                r is Install
            }
        }),
{
    let key = dbus_menu_endpoint_key(&request.endpoint);
    let found = match watchers.get(&key) {
        Some(control) => Some(control.dup()),
        None => None,
    };
    match found {
        Some(control) => {
            let mut control = control;
            let ready = ready_event(
                &request.endpoint,
                control.watcher_generation,
                request.request_id,
            );
            let cancelled = control.start_load(request.request_id);
            watchers.insert(key, control);
            LayoutStep::Load { ready, cancelled }
        },
        None => LayoutStep::Install,
    }
}

/// Takes a watcher in that was installed for a request: it has a new generation, and the load of the
/// request is under way.
pub fn watcher_installed(
    watchers: &mut MenuWatchers,
    next: &mut u64,
    request: &LayoutRequest,
) -> (r: Event)
    ensures
        final(watchers).deep_view() == changed_by(
            old(watchers).deep_view(),
            WatcherChange::Installed(request.deep_view(), *old(next)),
        ),
        *final(next) == next_generation(*old(next)),
        is_ready_event(r, request.endpoint.deep_view(), *old(next), request.request_id),
{
    let generation: u64 = allocate_menu_watcher_generation(next);
    let mut control = MenuWatcherControl::new(generation);
    control.start_load(request.request_id);
    watchers.insert(dbus_menu_endpoint_key(&request.endpoint), control);
    ready_event(&request.endpoint, generation, request.request_id)
}

/// Whether an event says that the load of the menu of a window failed.
pub open spec fn is_failed_event(event: Event, request: LayoutRequestView, reason: Seq<char>) -> bool {
    event matches Event::MenuLoadFailed { window_id, endpoint, request_id, error } && window_id
        == request.window_id && endpoint.deep_view() == MenuSourceView::DbusMenu(request.endpoint)
        && request_id == request.request_id && error@ == reason
}

/// What is told of a request whose watcher could not be installed.
pub fn watcher_refused(request: LayoutRequest, error: String) -> (r: Event)
    ensures
        is_failed_event(r, request.deep_view(), error@),
{
    Event::MenuLoadFailed {
        window_id: request.window_id,
        endpoint: MenuSource::DbusMenu(request.endpoint),
        request_id: request.request_id,
        error,
    }
}

/// Whether an event tells of the outcome of a load: of the menu of a window, or of a menu in the tray
/// where the request names the window that stands for the tray.
pub open spec fn is_outcome_event(
    event: Event,
    request: LayoutRequestView,
    result: Result<MenuModelView, Seq<char>>,
) -> bool {
    let tray = request.window_id.0 == presentation::TRAY_WINDOW;
    match result {
        Ok(loaded) => if tray {
            event matches Event::TrayMenuLoaded { endpoint, request_id, model }
                && endpoint.deep_view() == request.endpoint && request_id == request.request_id
                && model.deep_view() == loaded
        } else {
            event matches Event::MenuLoaded { window_id, endpoint, request_id, model } && window_id
                == request.window_id && endpoint.deep_view() == MenuSourceView::DbusMenu(
                request.endpoint,
            ) && request_id == request.request_id && model.deep_view() == loaded
        },
        Err(reason) => if tray {
            event matches Event::TrayMenuLoadFailed { endpoint, request_id, error }
                && endpoint.deep_view() == request.endpoint && request_id == request.request_id
                && error@ == reason
        } else {
            is_failed_event(event, request, reason)
        },
    }
}

/// The model of the outcome of a load.
pub open spec fn outcome_view(result: Result<MenuModel, String>) -> Result<
    MenuModelView,
    Seq<char>,
> {
    match result {
        Ok(model) => Ok(model.deep_view()),
        Err(e) => Err(e@),
    }
}

fn outcome_event(request: LayoutRequest, result: Result<MenuModel, String>) -> (r: Event)
    ensures
        is_outcome_event(r, request.deep_view(), outcome_view(result)),
{
    let tray = request.window_id.0 == presentation::TRAY_WINDOW;
    match result {
        Ok(model) => {
            if tray {
                Event::TrayMenuLoaded {
                    endpoint: request.endpoint,
                    request_id: request.request_id,
                    model,
                }
            } else {
                Event::MenuLoaded {
                    window_id: request.window_id,
                    endpoint: MenuSource::DbusMenu(request.endpoint),
                    request_id: request.request_id,
                    model,
                }
            }
        },
        Err(error) => {
            if tray {
                Event::TrayMenuLoadFailed {
                    endpoint: request.endpoint,
                    request_id: request.request_id,
                    error,
                }
            } else {
                Event::MenuLoadFailed {
                    window_id: request.window_id,
                    endpoint: MenuSource::DbusMenu(request.endpoint),
                    request_id: request.request_id,
                    error,
                }
            }
        },
    }
}

/// Takes the outcome of a load in; it is told only where the load is the one under way.
pub fn layout_finished(
    watchers: &mut MenuWatchers,
    request: LayoutRequest,
    result: Result<MenuModel, String>,
) -> (r: Option<Event>)
    ensures
        final(watchers).deep_view() == changed_by(
            old(watchers).deep_view(),
            WatcherChange::Finished(request.deep_view()),
        ),
        match r {
            Some(event) => is_awaited(old(watchers).deep_view(), request.deep_view())
                && is_outcome_event(event, request.deep_view(), outcome_view(result)),
            None => !is_awaited(old(watchers).deep_view(), request.deep_view()),
        },
{
    if finish_layout_load(watchers, &request.endpoint, request.request_id) {
        Some(outcome_event(request, result))
    } else {
        None
    }
}

/// Stops following a menu; returns whether a watcher is to be cancelled.
pub fn end_menu_watcher(watchers: &mut MenuWatchers, endpoint: &MenuEndpoint) -> (r: bool)
    ensures
        final(watchers).deep_view() == changed_by(
            old(watchers).deep_view(),
            WatcherChange::Ended(endpoint.deep_view()),
        ),
        r == old(watchers).deep_view().contains_key(key_of(endpoint.deep_view())),
{
    let key = dbus_menu_endpoint_key(endpoint);
    let found = watchers.get(&key).is_some();
    watchers.remove(&key);
    found
}

/// What is told where an application says that the layout of its menu changed.
pub fn layout_updated(endpoint: &MenuEndpoint, generation: u64, revision: u32) -> (r: Event)
    ensures
        r matches Event::MenuLayoutInvalidated {
            endpoint: source,
            watcher_generation,
            revision: changed,
        } && source.deep_view() == MenuSourceView::DbusMenu(endpoint.deep_view())
            && watcher_generation == Some(generation) && changed == Some(revision),
{
    Event::MenuLayoutInvalidated {
        endpoint: MenuSource::DbusMenu(endpoint.dup()),
        watcher_generation: Some(generation),
        revision: Some(revision),
    }
}

/// Whether an event tells of changes to properties of items.
pub open spec fn is_properties_event(
    event: Event,
    endpoint: MenuEndpointView,
    generation: u64,
    changes: Seq<MenuItemPropertiesUpdateView>,
) -> bool {
    event matches Event::MenuPropertiesUpdated { endpoint: source, watcher_generation, updates }
        && source.deep_view() == MenuSourceView::DbusMenu(endpoint) && watcher_generation == Some(
        generation,
    ) && updates.deep_view() == changes
}

/// What is told where an application says that properties of items changed: nothing where a value has
/// the wrong type.
pub fn properties_updated(
    endpoint: &MenuEndpoint,
    generation: u64,
    updated: Vec<(i32, Properties)>,
    removed: Vec<(i32, Vec<String>)>,
) -> (r: Option<Event>)
    ensures
        match menu::property_updates_of(menu::named_by_item(updated@), removed.deep_view()) {
            Ok(changes) => r matches Some(event) && is_properties_event(
                event,
                endpoint.deep_view(),
                generation,
                changes,
            ),
            Err(_) => r is None,
        },
{
    match menu::convert_property_updates(updated, removed) {
        Ok(updates) => Some(
            Event::MenuPropertiesUpdated {
                endpoint: MenuSource::DbusMenu(endpoint.dup()),
                watcher_generation: Some(generation),
                updates,
            },
        ),
        Err(_) => None,
    }
}

/// What is told where an application says that its exported menus changed.
pub fn exported_menus_changed(endpoint: &GtkMenuEndpoint) -> (r: Event)
    ensures
        r matches Event::MenuLayoutInvalidated { endpoint: source, watcher_generation, revision }
            && source.deep_view() == MenuSourceView::GtkGMenu(endpoint.deep_view())
            && watcher_generation is None && revision is None,
{
    Event::MenuLayoutInvalidated {
        endpoint: MenuSource::GtkGMenu(endpoint.dup()),
        watcher_generation: None,
        revision: None,
    }
}

/// What is told where an application answered that an item is about to be shown.
pub fn about_to_show_completed(request: AboutRequest, answer: Result<bool, String>) -> (r: Event)
    ensures
        r matches Event::MenuAboutToShowCompleted {
            window_id,
            endpoint,
            item_id,
            request_id,
            lazy_root,
            intent_id,
            watcher_generation,
            need_update,
            model,
            error,
        } && window_id == request.window_id && endpoint.deep_view() == MenuSourceView::DbusMenu(
            request.endpoint.deep_view(),
        ) && item_id == request.item_id && request_id == request.request_id && lazy_root
            == request.lazy_root && intent_id == request.intent_id && watcher_generation
            == request.watcher_generation && model is None && (match answer {
            Ok(update) => need_update == update && error is None,
            Err(reason) => !need_update && error.deep_view() == Some(reason@),
        }),
{
    let (need_update, error) = match answer {
        Ok(need_update) => (need_update, None),
        Err(error) => (false, Some(error)),
    };
    Event::MenuAboutToShowCompleted {
        window_id: request.window_id,
        endpoint: MenuSource::DbusMenu(request.endpoint),
        item_id: request.item_id,
        request_id: request.request_id,
        lazy_root: request.lazy_root,
        intent_id: request.intent_id,
        watcher_generation: request.watcher_generation,
        need_update,
        model: None,
        error,
    }
}

/// A load that finishes after its watcher was removed is not told of, and does not bring the watcher
/// back.
pub proof fn lemma_late_load_is_void(
    watchers: Map<Seq<char>, MenuWatcherControlView>,
    key: Seq<char>,
    request_id: u64,
)
    ensures
        !is_loading(watchers.remove(key), key, request_id),
        load_finished(watchers.remove(key), key, request_id) == watchers.remove(key),
{
}

/// Whether a change leaves the load of a request under way: it starts no other load of the same menu,
/// does not end this one, and the menu stays followed.
pub open spec fn leaves_load(change: WatcherChange, request: LayoutRequestView) -> bool {
    let key = key_of(request.endpoint);
    match change {
        WatcherChange::Requested(other) => key_of(other.endpoint) != key,
        WatcherChange::Installed(other, _) => key_of(other.endpoint) != key,
        WatcherChange::Finished(other) => key_of(other.endpoint) != key || other.request_id
            != request.request_id,
        WatcherChange::Ended(endpoint) => key_of(endpoint) != key,
        WatcherChange::OwnerGone(owner) => !key_of_owner(key, owner),
    }
}

/// A load stays under way over all changes that leave it.
pub proof fn lemma_load_goes_on(
    watchers: Map<Seq<char>, MenuWatcherControlView>,
    request: LayoutRequestView,
    changes: Seq<WatcherChange>,
)
    requires
        is_awaited(watchers, request),
        forall|i: int| 0 <= i < changes.len() ==> leaves_load(#[trigger] changes[i], request),
    ensures
        is_awaited(changed_by_all(watchers, changes), request),
    decreases changes.len(),
{
    if changes.len() > 0 {
        let rest = changes.drop_last();
        assert forall|i: int| 0 <= i < rest.len() implies leaves_load(#[trigger] rest[i], request) by {
            assert(rest[i] == changes[i]);
        }
        lemma_load_goes_on(watchers, request, rest);
        assert(leaves_load(changes[changes.len() - 1], request));
    }
}

/// Of the requests for a menu the last one alone is told of, once. Whatever happens since it was taken
/// in, as long as the menu is followed and no other request for it comes: the end of a request that it
/// replaced is silent, its own end is told of, and is silent where it comes a second time.
pub proof fn lemma_last_request_is_told_once(
    watchers: Map<Seq<char>, MenuWatcherControlView>,
    first: LayoutRequestView,
    last: LayoutRequestView,
    generation: u64,
    changes: Seq<WatcherChange>,
)
    requires
        first.endpoint == last.endpoint,
        first.request_id != last.request_id,
        forall|i: int| 0 <= i < changes.len() ==> leaves_load(#[trigger] changes[i], last),
    ensures
        ({
            let taken_in = if watchers.contains_key(key_of(last.endpoint)) {
                changed_by(watchers, WatcherChange::Requested(last))
            } else {
                changed_by(watchers, WatcherChange::Installed(last, generation))
            };
            let now = changed_by_all(taken_in, changes);
            let told = changed_by(now, WatcherChange::Finished(last));
            &&& !is_awaited(now, first)
            &&& changed_by(now, WatcherChange::Finished(first)) == now
            &&& is_awaited(now, last)
            &&& !is_awaited(told, last)
            &&& !is_awaited(told, first)
        }),
{
    let taken_in = if watchers.contains_key(key_of(last.endpoint)) {
        changed_by(watchers, WatcherChange::Requested(last))
    } else {
        changed_by(watchers, WatcherChange::Installed(last, generation))
    };
    lemma_load_goes_on(taken_in, last, changes);
    let now = changed_by_all(taken_in, changes);
    assert(changed_by(now, WatcherChange::Finished(first)) =~= now);
}

/// A load that is asked for is awaited until it is finished or the watcher ends; the watchers of other
/// endpoints stay as they are.
pub proof fn lemma_load_is_awaited(
    watchers: Map<Seq<char>, MenuWatcherControlView>,
    request: LayoutRequestView,
    generation: u64,
    other: Seq<char>,
)
    ensures
        ({
            let key = key_of(request.endpoint);
            let installed = changed_by(watchers, WatcherChange::Installed(request, generation));
            let finished = changed_by(installed, WatcherChange::Finished(request));
            let ended = changed_by(installed, WatcherChange::Ended(request.endpoint));
            let asked = changed_by(watchers, WatcherChange::Requested(request));
            &&& is_awaited(installed, request)
            &&& installed[key].watcher_generation == generation
            &&& !is_awaited(finished, request)
            &&& finished.contains_key(key) && finished[key].watcher_generation == generation
            &&& !ended.contains_key(key)
            &&& watchers.contains_key(key) ==> is_awaited(asked, request)
                && asked[key].watcher_generation == watchers[key].watcher_generation
            &&& !watchers.contains_key(key) ==> asked == watchers
            &&& other != key ==> {
                &&& ended.contains_key(other) <==> watchers.contains_key(other)
                &&& ended.contains_key(other) ==> ended[other] == watchers[other]
                &&& finished.contains_key(other) <==> watchers.contains_key(other)
                &&& finished.contains_key(other) ==> finished[other] == watchers[other]
            }
        }),
{
}

/// A new watcher has another generation than the last one.
pub proof fn lemma_generations_differ(n: u64)
    ensures
        next_generation(n) != n,
        n < u64::MAX ==> next_generation(n) > n,
{
}

} // verus!
