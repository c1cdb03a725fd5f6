//! How menus come, are loaded, change and go.
use vstd::prelude::*;

use crate::domain::event::Event;
use crate::domain::menu;
use crate::domain::menu::{
    ChildrenDisplayView, GtkMenuEndpoint, MenuEndpoint, MenuEndpointView,
    MenuItemPropertiesUpdateView, MenuItemView, MenuModelView, MenuRegistryView, MenuSource,
    MenuSourceView,
};
use crate::domain::reducer;
use crate::domain::reducer::{
    about_to_show, focus, interaction, loading, navigation, presentation, tray, tree,
};
use crate::domain::state::{
    AboutToShowPendingView, LazyRootOpenPendingView, MenuPresentationPolicyView, MenuStateView,
    StateView, WindowId, WorkspaceState, WorkspaceStateView,
};
use crate::domain::status_notifier::{
    StatusNotifierEndpoint, StatusNotifierItem, StatusNotifierItemView,
};
use crate::seqs;

verus! {

/// A menu that is found for the focused window is presented where the window has registered none; one
/// that was found before changes nothing.
pub proof fn lemma_found_menu_is_presented(
    s: StateView,
    r: MenuRegistryView,
    window_id: WindowId,
    endpoint: GtkMenuEndpoint,
)
    requires
        s.menu_presentation_policy == MenuPresentationPolicyView::FollowFocus,
        s.focused_window == Some(window_id),
        menu::registered(r, window_id) is None,
    ensures
        ({
            let found = reducer::step(s, r, Event::GtkMenuDiscovered { window_id, endpoint });
            let shown = MenuSourceView::GtkGMenu(endpoint.deep_view());
            let known = menu::active_source(r, Some(window_id)) == Some(shown);
            &&& menu::active_source(found.registry, Some(window_id)) == Some(shown)
            &&& found.dirty == !known
            &&& !known ==> {
                &&& found.state.menu_presentation matches Some(presented) && presented.window_id
                    == window_id && presented.endpoint == shown
                &&& found.state.menu == MenuStateView::NoMenu
            }
            &&& known ==> found.state == s
        }),
{
    reducer::lemma_is_presentation(s, r, Event::GtkMenuDiscovered { window_id, endpoint });
}

/// A menu that is not registered any more is not presented any more, and is not watched; the menus of
/// other windows stay.
pub proof fn lemma_unregistered_menu_goes(
    s: StateView,
    r: MenuRegistryView,
    window_id: WindowId,
    other: WindowId,
)
    requires
        menu::registered(r, window_id) is Some,
    ensures
        ({
            let gone = reducer::step(s, r, Event::MenuUnregistered { window_id });
            let source = MenuSourceView::DbusMenu(menu::registered(r, window_id)->0);
            &&& gone.dirty
            &&& menu::registered(gone.registry, window_id) is None
            &&& menu::active_source(gone.registry, Some(window_id)) != Some(source)
            &&& !gone.state.watcher_generations.contains_key(source)
            &&& other != window_id ==> menu::active_source(gone.registry, Some(other))
                == menu::active_source(r, Some(other))
            &&& s.menu_presentation_window() == Some(window_id) ==> {
                &&& gone.state.menu == MenuStateView::NoMenu
                &&& gone.state.menu_navigation is None
                &&& gone.state.menu_presentation matches Some(presented) ==> menu::active_source(
                    gone.registry,
                    Some(presented.window_id),
                ) == Some(presented.endpoint)
            }
            &&& s.menu_presentation_window() != Some(window_id) ==> gone.state.menu == s.menu
                && gone.state.menu_presentation == s.menu_presentation
        }),
{
    reducer::lemma_is_presentation(s, r, Event::MenuUnregistered { window_id });
}

/// A menu that is found no more goes, and is not presented any more where nothing else is registered
/// for its window; another one than the last that was found changes nothing.
pub proof fn lemma_found_menu_goes(
    s: StateView,
    r: MenuRegistryView,
    window_id: WindowId,
    endpoint: GtkMenuEndpoint,
)
    requires
        menu::registered(r, window_id) is None,
    ensures
        ({
            let gone = reducer::step(s, r, Event::GtkMenuRemoved { window_id, endpoint });
            let known = menu::active_source(r, Some(window_id)) == Some(
                MenuSourceView::GtkGMenu(endpoint.deep_view()),
            );
            &&& gone.dirty == known
            &&& known ==> menu::active_source(gone.registry, Some(window_id)) is None
            &&& known && s.menu_presentation_window() == Some(window_id) ==> gone.state.menu
                == MenuStateView::NoMenu
            &&& !known ==> gone.state == s && gone.registry == r
        }),
{
    reducer::lemma_is_presentation(s, r, Event::GtkMenuRemoved { window_id, endpoint });
}

/// A load that fails leaves the error in place of the menu, and nothing of it open.
pub proof fn lemma_failed_load_is_shown(
    s: StateView,
    r: MenuRegistryView,
    window_id: WindowId,
    endpoint: MenuEndpoint,
    request_id: u64,
    error: String,
)
    requires
        s.menu == (MenuStateView::Loading {
            window_id,
            endpoint: MenuSourceView::DbusMenu(endpoint.deep_view()),
            request_id,
        }),
        s.menu_presentation matches Some(presented) && presented.window_id == window_id
            && presented.endpoint == MenuSourceView::DbusMenu(endpoint.deep_view()),
        menu::active_source(r, Some(window_id)) == Some(
            MenuSourceView::DbusMenu(endpoint.deep_view()),
        ),
        s.menu_interaction.pending_lazy_root is None,
    ensures
        ({
            let source = MenuSource::DbusMenu(endpoint);
            let failed = reducer::step(
                s,
                r,
                Event::MenuLoadFailed { window_id, endpoint: source, request_id, error },
            );
            &&& failed.dirty
            &&& failed.state.menu == (MenuStateView::Error {
                window_id,
                endpoint: MenuSourceView::DbusMenu(endpoint.deep_view()),
                request_id,
                error: error@,
            })
            &&& failed.state.menu_interaction.open_root is None
            &&& failed.state.menu_interaction.open_path.len() == 0
        }),
{
    let source = MenuSource::DbusMenu(endpoint);
    reducer::lemma_is_loading(
        s,
        r,
        Event::MenuLoadFailed { window_id, endpoint: source, request_id, error },
    );
    lemma_failed(s, r, window_id, source.deep_view(), request_id, error@);
}

proof fn lemma_failed(
    s: StateView,
    r: MenuRegistryView,
    window_id: WindowId,
    endpoint: MenuSourceView,
    request_id: u64,
    error: Seq<char>,
)
    requires
        loading::is_awaited(s, r, window_id, endpoint, request_id),
        s.menu_interaction.pending_lazy_root is None,
    ensures
        loading::menu_failed(s, r, window_id, endpoint, request_id, error) == (
            presentation::closed(
                StateView {
                    menu: MenuStateView::Error { window_id, endpoint, request_id, error },
                    ..s
                },
            ),
            true,
        ),
{
    reveal(loading::menu_failed);
}

/// A root that is opened before its items are loaded is open once they come, in the answer that it waits
/// for.
pub proof fn lemma_awaited_root_opens(
    s: StateView,
    r: MenuRegistryView,
    pending: LazyRootOpenPendingView,
    request_id: u64,
    model: MenuModelView,
    at: int,
)
    requires
        s.menu_interaction.pending_lazy_root == Some(pending),
        pending.layout_request_id == Some(request_id),
        pending.endpoint !is Tray,
        s.menu == (MenuStateView::Loading {
            window_id: pending.window_id,
            endpoint: pending.endpoint,
            request_id,
        }),
        s.menu_presentation matches Some(presented) && presented.window_id == pending.window_id
            && presented.endpoint == pending.endpoint,
        menu::active_source(r, Some(pending.window_id)) == Some(pending.endpoint),
        s.watcher_generations.contains_key(pending.endpoint),
        s.watcher_generations[pending.endpoint] == pending.watcher_generation,
        0 <= at < model.root.children.len(),
        model.root.children[at].id == pending.item_id,
        model.root.children[at].visible,
        model.root.children[at].enabled,
        model.root.children[at].children_display == Some(ChildrenDisplayView::Submenu),
        model.root.children[at].children.len() > 0,
    ensures
        ({
            let loaded = loading::menu_loaded(
                s,
                r,
                pending.window_id,
                pending.endpoint,
                request_id,
                model,
            );
            &&& loaded.1
            &&& loaded.0.menu_interaction.open_root == Some(pending.item_id)
            &&& loaded.0.menu_interaction.open_path == seq![pending.item_id]
            &&& loaded.0.menu_interaction.pending_lazy_root is None
        }),
{
    reveal(loading::menu_loaded);
    reveal(navigation::normalized);
    let p = |c: MenuItemView|
        c.id == pending.item_id && navigation::is_usable(c) && tree::opens_submenu(c)
            && c.children.len() > 0;
    assert(p(model.root.children[at]));
    assert(loading::can_open(model, pending.item_id));
}

/// New values of a property of an item of the loaded menu are those that the item has afterwards.
pub proof fn lemma_update_reaches_menu(
    s: StateView,
    r: MenuRegistryView,
    endpoint: MenuSourceView,
    window_id: WindowId,
    model: MenuModelView,
    update: MenuItemPropertiesUpdateView,
)
    requires
        s.menu == (MenuStateView::Loaded { window_id, endpoint, model }),
        s.active_menu_endpoint(r) == Some(endpoint),
        tree::ids_of(model.root).no_duplicates(),
    ensures
        ({
            let updated = loading::properties_updated(s, r, endpoint, seq![update]);
            updated.0.menu matches MenuStateView::Loaded { window_id: w, endpoint: e, model: m } && w
                == window_id && e == endpoint && match tree::find_item(model.root, update.item_id) {
                Some(item) => tree::find_item(m.root, update.item_id) == Some(
                    tree::with_properties(item, update.properties),
                ),
                None => m.root == model.root && !updated.1,
            }
        }),
{
    let updates = seq![update];
    assert(updates.drop_last() =~= Seq::<MenuItemPropertiesUpdateView>::empty());
    assert(updates.last() == update);
    reveal_with_fuel(loading::patched_all, 2);
    reveal(loading::properties_updated);
    reveal(navigation::normalized);
    tree::lemma_patch_sets_properties(model.root, update);
}

/// What is about to show is asked for once, and shows when it is ready: the path to the item is open
/// then, from the open root on. Where the answer is an error nothing more opens.
pub proof fn lemma_submenu_shows_when_ready(
    s: StateView,
    r: MenuRegistryView,
    request: AboutToShowPendingView,
    failed: bool,
)
    requires
        s.menu_interaction.pending_about_to_show == Some(request),
        !request.lazy_root,
        s.menu_presentation matches Some(presented) && presented.window_id == request.window_id
            && presented.endpoint == request.endpoint,
        menu::active_source(r, Some(request.window_id)) == Some(request.endpoint),
        s.menu_interaction.hovered_path.len() > 0,
        s.menu_interaction.hovered_path.last() == request.item_id,
    ensures
        ({
            let done = about_to_show::completed(s, r, request, false, None, failed);
            let model = s.active_menu_model();
            let item = tree::find_item(model->0.root, request.item_id);
            let opens = model is Some && item is Some && item->0.visible && item->0.enabled
                && item->0.children_display is Some && item->0.children.len() > 0;
            let path = done.0.menu_interaction.open_path;
            &&& done.1
            &&& done.0.menu_interaction.pending_about_to_show is None
            &&& done.0.menu == s.menu
            &&& !failed && opens ==> {
                &&& path.len() > 0 && path.last() == request.item_id
                &&& s.menu_interaction.open_root matches Some(root) ==> path[0] == root
            }
            &&& failed ==> path == s.menu_interaction.open_path
        }),
{
    reveal(about_to_show::completed);
    let s1 = about_to_show::request_dropped(s);
    assert(s1.active_menu_model() == s.active_menu_model());
}

/// A request for what is about to show is pending as it was made, where the pointer is on its item.
pub proof fn lemma_about_to_show_is_pending(
    s: StateView,
    r: MenuRegistryView,
    request: AboutToShowPendingView,
    model: MenuModelView,
)
    requires
        s.menu == (MenuStateView::Loaded {
            window_id: request.window_id,
            endpoint: request.endpoint,
            model,
        }),
        s.menu_presentation matches Some(presented) && presented.window_id == request.window_id
            && presented.endpoint == request.endpoint,
        menu::active_source(r, Some(request.window_id)) == Some(request.endpoint),
        s.menu_interaction.open_root is Some,
        s.menu_interaction.hovered_path.len() > 0,
        s.menu_interaction.hovered_path.last() == request.item_id,
    ensures
        ({
            let asked = about_to_show::requested(s, r, request);
            &&& asked.1
            &&& asked.0.menu_interaction.pending_about_to_show == Some(request)
            &&& asked.0.menu_interaction.open_path == s.menu_interaction.open_path
            &&& asked.0.menu == s.menu
        }),
{
    reveal(about_to_show::requested);
}

/// The workspaces are those that are reported, and the focused one is the first that is marked.
pub proof fn lemma_workspaces_are_known(
    s: StateView,
    r: MenuRegistryView,
    workspaces: Vec<WorkspaceState>,
    at: int,
)
    requires
        0 <= at < workspaces.deep_view().len(),
        workspaces.deep_view()[at].focused,
        forall|i: int| 0 <= i < at ==> !(#[trigger] workspaces.deep_view()[i]).focused,
    ensures
        ({
            let after = reducer::step(s, r, Event::WorkspacesSnapshot(workspaces)).state;
            &&& after.workspaces == workspaces.deep_view()
            &&& after.focused_workspace == Some(workspaces.deep_view()[at].name)
        }),
{
    reducer::lemma_is_presentation(s, r, Event::WorkspacesSnapshot(workspaces));
    seqs::lemma_first_at(workspaces.deep_view(), |w: WorkspaceStateView| w.focused, at);
}

/// The name of the focused application is the one that is reported with the focused window.
pub proof fn lemma_application_is_named(
    s: StateView,
    r: MenuRegistryView,
    window: Option<WindowId>,
    app_name: Option<String>,
)
    ensures
        ({
            let after = reducer::step(s, r, Event::WindowFocusedWithApp { window, app_name }).state;
            &&& after.focused_window == window
            &&& after.focused_app_name == app_name.deep_view()
        }),
{
    reducer::lemma_is_presentation(s, r, Event::WindowFocusedWithApp { window, app_name });
}

/// The menu of a tray item goes with the item, and the menu of a window stays.
pub proof fn lemma_tray_menu_goes_with_item(
    s: StateView,
    r: MenuRegistryView,
    endpoint: StatusNotifierEndpoint,
)
    ensures
        ({
            let after = reducer::step(s, r, Event::StatusNotifierUnregistered(endpoint)).state;
            &&& (s.menu matches MenuStateView::TrayLoaded { endpoint: e, .. } && e.service
                == endpoint.deep_view().service) ==> after.menu == MenuStateView::NoMenu
                && after.menu_interaction.open_root is None
            &&& s.menu is Loaded ==> after.menu == s.menu && after.menu_interaction
                == s.menu_interaction
            &&& (s.menu matches MenuStateView::TrayLoaded { endpoint: e, .. } && e.service
                != endpoint.deep_view().service) ==> after.menu == s.menu
        }),
{
    reducer::lemma_is_tray(s, r, Event::StatusNotifierUnregistered(endpoint));
}

/// The bar is known to show the tray once it is registered for that.
pub proof fn lemma_host_is_known(s: StateView, r: MenuRegistryView)
    ensures
        reducer::step(s, r, Event::StatusNotifierHostRegistered).state
            == (StateView { status_notifier_host_registered: true, ..s }),
{
    reducer::lemma_is_tray(s, r, Event::StatusNotifierHostRegistered);
}

/// A click on a top-level entry whose items are not loaded yet opens nothing at once: what is wanted is
/// kept, under a new number, with the watcher of the menu at the time.
pub proof fn lemma_unloaded_root_is_wanted(
    s: StateView,
    r: MenuRegistryView,
    window_id: WindowId,
    endpoint: MenuSourceView,
    model: MenuModelView,
    at: int,
)
    requires
        s.menu == (MenuStateView::Loaded { window_id, endpoint, model }),
        endpoint is DbusMenu,
        s.watcher_generations.contains_key(endpoint),
        0 <= at < model.root.children.len(),
        model.root.children[at].visible,
        model.root.children[at].enabled,
        model.root.children[at].children_display == Some(ChildrenDisplayView::Submenu),
        model.root.children[at].children.len() == 0,
        forall|i: int|
            0 <= i < at ==> (#[trigger] model.root.children[i]).id != model.root.children[at].id,
    ensures
        ({
            let id = model.root.children[at].id;
            let (after, dirty) = interaction::root_clicked(s, r, id);
            &&& dirty
            &&& after.menu == s.menu
            &&& after.menu_interaction.open_root is None
            &&& after.menu_interaction.open_path.len() == 0
            &&& after.next_lazy_root_intent != s.next_lazy_root_intent
            &&& after.menu_interaction.pending_lazy_root matches Some(pending) && {
                &&& pending.window_id == window_id
                &&& pending.endpoint == endpoint
                &&& pending.item_id == id
                &&& pending.intent_id == after.next_lazy_root_intent
                &&& pending.watcher_generation == s.watcher_generations[endpoint]
                &&& pending.layout_request_id is None
            }
        }),
{
    reveal(interaction::root_clicked);
    let id = model.root.children[at].id;
    seqs::lemma_first_at(model.root.children, |c: MenuItemView| c.id == id, at);
}

/// The load of the items of a root that is wanted is awaited by its number, and a load that follows it
/// takes its place; where none follows, the wish is given up.
pub proof fn lemma_wanted_root_is_loaded(
    s: StateView,
    r: MenuRegistryView,
    pending: LazyRootOpenPendingView,
    request_id: u64,
    next: u64,
)
    requires
        s.menu_interaction.pending_lazy_root == Some(pending),
        s.menu_presentation matches Some(presented) && presented.window_id == pending.window_id
            && presented.endpoint == pending.endpoint,
        menu::active_source(r, Some(pending.window_id)) == Some(pending.endpoint),
        s.watcher_generations.contains_key(pending.endpoint),
        s.watcher_generations[pending.endpoint] == pending.watcher_generation,
        s.menu_navigation is None,
    ensures
        ({
            let (window, source) = (pending.window_id, pending.endpoint);
            let asked = loading::lazy_layout_requested(
                s,
                r,
                window,
                source,
                request_id,
                pending.intent_id,
                pending.watcher_generation,
            );
            let followed = loading::lazy_load_converged(
                asked.0,
                r,
                window,
                source,
                request_id,
                Some(next),
            );
            let ended = loading::lazy_load_converged(asked.0, r, window, source, request_id, None);
            &&& asked.1
            &&& asked.0.menu == (MenuStateView::Loading {
                window_id: window,
                endpoint: source,
                request_id,
            })
            &&& asked.0.menu_interaction.pending_lazy_root == Some(
                LazyRootOpenPendingView { layout_request_id: Some(request_id), ..pending },
            )
            &&& followed.1
            &&& followed.0.menu_interaction.pending_lazy_root == Some(
                LazyRootOpenPendingView { layout_request_id: Some(next), ..pending },
            )
            &&& ended.1
            &&& ended.0.menu_interaction.pending_lazy_root is None
        }),
{
    reveal(loading::lazy_layout_requested);
    reveal(loading::lazy_load_converged);
}

/// A wish to open a root is given up where the watcher that it was made under is replaced, and only
/// then.
pub proof fn lemma_replaced_watcher_ends_wish(
    s: StateView,
    r: MenuRegistryView,
    pending: LazyRootOpenPendingView,
    endpoint: MenuSourceView,
    generation: u64,
)
    requires
        s.menu_interaction.pending_lazy_root == Some(pending),
        s.watcher_generations.contains_key(endpoint),
        s.menu_navigation is None,
    ensures
        ({
            let after = loading::watcher_ready(s, r, endpoint, generation);
            let replaced = pending.endpoint == endpoint && s.watcher_generations[endpoint]
                != generation;
            &&& replaced ==> after.menu_interaction.pending_lazy_root is None
            &&& !replaced ==> after.menu_interaction == s.menu_interaction
        }),
{
    reveal(loading::watcher_ready);
}

/// The menu of a tray item that is open closes where the item comes to have another menu, and stays
/// otherwise; where it closes or an item looks different, the bar is drawn anew.
pub proof fn lemma_tray_menu_follows_item(
    s: StateView,
    r: MenuRegistryView,
    item: StatusNotifierItem,
    open: MenuEndpointView,
)
    requires
        s.menu matches MenuStateView::TrayLoaded { endpoint, .. } && endpoint == open,
        open.object_path.len() > 0,
    ensures
        ({
            let taken = reducer::step(s, r, Event::StatusNotifierItemUpdated(item));
            let updated = item.deep_view();
            let other = open.service == updated.endpoint.service && (updated.menu is None
                || updated.menu->0.object_path != open.object_path);
            &&& other ==> taken.dirty && taken.state.menu == MenuStateView::NoMenu
                && taken.state.menu_interaction.open_root is None
            &&& !other ==> taken.state.menu == s.menu && taken.state.menu_interaction
                == s.menu_interaction && (taken.dirty <==> taken.state.status_notifier_items
                != s.status_notifier_items)
        }),
{
    reducer::lemma_is_tray(s, r, Event::StatusNotifierItemUpdated(item));
}

/// Before the menu of a tray item is shown, nothing else is open.
pub proof fn lemma_tray_menu_opens_alone(s: StateView)
    ensures
        ({
            let (after, dirty) = tray::tray_menu_wanted(s);
            &&& !after.audio_popup_open
            &&& !after.audio_dragging
            &&& !after.bluetooth_popup_open
            &&& !after.network_popup_open
            &&& after.menu_interaction.open_root is None
            &&& after.menu_interaction.open_path.len() == 0
            &&& after.menu == s.menu
            &&& after.menu_presentation == s.menu_presentation
            &&& s.audio_popup_open || s.bluetooth_popup_open || s.network_popup_open
                || s.menu_interaction.open_root is Some ==> dirty
        }),
{
}

/// The bar is drawn anew where a service that is gone had an item in the tray, or where the tray that is
/// gone had anything in it, and only there.
pub proof fn lemma_lost_items_are_drawn(s: StateView, r: MenuRegistryView, service: String)
    ensures
        reducer::step(s, r, Event::StatusNotifierOwnerVanished(service)).dirty <==> exists|i: int|
            0 <= i < s.status_notifier_items.len() && (
            #[trigger] s.status_notifier_items[i]).endpoint.service == service@,
        reducer::step(s, r, Event::StatusNotifierWatcherUnavailable).dirty
            <==> s.status_notifiers.len() > 0 || s.status_notifier_items.len() > 0
            || s.status_notifier_host_registered,
{
    reducer::lemma_is_tray(s, r, Event::StatusNotifierOwnerVanished(service));
    reducer::lemma_is_tray(s, r, Event::StatusNotifierWatcherUnavailable);
    let items = s.status_notifier_items;
    let p = |i: StatusNotifierItemView| i.endpoint.service == service@;
    let own = items.filter(p);
    if own.len() > 0 {
        assert(own.contains(own[0]));
        seqs::lemma_filter_members(items, p, own[0]);
        let i = choose|i: int| 0 <= i < items.len() && items[i] == own[0];
        assert(items[i].endpoint.service == service@);
    }
    if exists|i: int|
        0 <= i < items.len() && (#[trigger] items[i]).endpoint.service == service@ {
        let i = choose|i: int|
            0 <= i < items.len() && (#[trigger] items[i]).endpoint.service == service@;
        items.lemma_filter_contains(p, i);
    }
}

/// A workspace that is focused before it was reported is taken to be on the output of the one that was
/// focused before it.
pub proof fn lemma_new_workspace_is_beside(
    workspaces: Seq<WorkspaceStateView>,
    name: Seq<char>,
    at: int,
)
    requires
        forall|i: int| 0 <= i < workspaces.len() ==> (#[trigger] workspaces[i]).name != name,
        0 <= at < workspaces.len(),
        workspaces[at].focused,
        forall|i: int| 0 <= i < at ==> !(#[trigger] workspaces[i]).focused,
    ensures
        ({
            let after = focus::with_workspace(workspaces, Some(name));
            &&& after.len() == workspaces.len() + 1
            &&& after.drop_last() == workspaces
            &&& after.last().name == name
            &&& after.last().output == workspaces[at].output
        }),
{
    seqs::lemma_first_at(workspaces, |w: WorkspaceStateView| w.focused, at);
    let after = focus::with_workspace(workspaces, Some(name));
    let p = |w: WorkspaceStateView| w.name == name;
    assert(!seqs::any_in(workspaces, p));
    assert(after.drop_last() =~= workspaces);
}

} // verus!
