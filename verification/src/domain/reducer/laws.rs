//! What holds of the bar whatever happens to it.
use vstd::prelude::*;

use crate::domain::event::Event;
use crate::domain::menu;
use crate::domain::menu::{
    MenuItemId, MenuItemPropertiesUpdateView, MenuModelView, MenuRegistryView, MenuSourceView,
};
use crate::domain::reducer;
use crate::domain::reducer::{
    about_to_show, interaction, loading, navigation, presentation, tray, Concern,
};
use crate::domain::state::{
    AboutToShowPendingView, MenuInteractionStateView, MenuStateView, StateView, WindowId,
};

verus! {

/// A number is kept or is the next one.
pub open spec fn advances(before: u64, after: u64) -> bool {
    after == before || after == navigation::next_number(before)
}

/// A state that differs from another one in what concerns menus alone, and in popups that are closed;
/// sessions and wishes are numbered one by one, and a pinned menu stays presented.
pub open spec fn beside_menus(
    r: MenuRegistryView,
    before: StateView,
    after: StateView,
) -> bool {
    &&& after.outputs == before.outputs
    &&& after.workspaces == before.workspaces
    &&& after.focused_workspace == before.focused_workspace
    &&& after.focused_window == before.focused_window
    &&& after.focused_app_name == before.focused_app_name
    &&& after.clock == before.clock
    &&& after.audio == before.audio
    &&& after.network == before.network
    &&& after.network_status == before.network_status
    &&& after.network_status_authoritative == before.network_status_authoritative
    &&& after.network_pending == before.network_pending
    &&& after.bluetooth == before.bluetooth
    &&& after.bluetooth_pending == before.bluetooth_pending
    &&& after.network_popup_open_pending == before.network_popup_open_pending
    &&& after.ai_usage == before.ai_usage
    &&& after.plugin_zone == before.plugin_zone
    &&& after.notifications == before.notifications
    &&& after.notification_history == before.notification_history
    &&& after.notification_action_projections == before.notification_action_projections
    &&& after.notification_center_open == before.notification_center_open
    &&& after.expanded_notification_groups == before.expanded_notification_groups
    &&& after.status_notifiers == before.status_notifiers
    &&& after.status_notifier_items == before.status_notifier_items
    &&& after.status_notifier_host_registered == before.status_notifier_host_registered
    &&& after.menu_presentation_policy == before.menu_presentation_policy
    &&& after.menu_presentation == before.menu_presentation || (presentation::follows_focus(before)
        && after.menu_presentation == presentation::focus_presentation(before, r))
    &&& after.audio_popup_open ==> before.audio_popup_open
    &&& after.bluetooth_popup_open ==> before.bluetooth_popup_open
    &&& after.network_popup_open ==> before.network_popup_open
    &&& advances(before.next_menu_navigation_session, after.next_menu_navigation_session)
    &&& advances(before.next_lazy_root_intent, after.next_lazy_root_intent)
}

proof fn lemma_normalized(r: MenuRegistryView, s: StateView)
    ensures
        beside_menus(r, s, navigation::normalized(s)),
        navigation::normalized(s).next_menu_navigation_session == s.next_menu_navigation_session,
        navigation::normalized(s).next_lazy_root_intent == s.next_lazy_root_intent,
{
    reveal(navigation::normalized);
}

proof fn lemma_menu_loaded(
    s: StateView,
    r: MenuRegistryView,
    window_id: WindowId,
    endpoint: MenuSourceView,
    request_id: u64,
    model: MenuModelView,
)
    ensures
        beside_menus(r, s, loading::menu_loaded(s, r, window_id, endpoint, request_id, model).0),
{
    reveal(loading::menu_loaded);
    let s1 = loading::model_set(s, window_id, endpoint, model);
    lemma_normalized(r, s1);
    lemma_normalized(r, loading::tray_root_opened(s1));
}

proof fn lemma_about_to_show(
    s: StateView,
    r: MenuRegistryView,
    request: AboutToShowPendingView,
    need_update: bool,
    model: Option<MenuModelView>,
    failed: bool,
)
    ensures
        beside_menus(r, s, about_to_show::completed(s, r, request, need_update, model, failed).0),
{
    reveal(about_to_show::completed);
    if model is Some {
        lemma_normalized(
            r,
            StateView {
                menu: about_to_show::loaded_state(request.window_id, request.endpoint, model->0),
                ..about_to_show::request_dropped(s)
            },
        );
    }
}

proof fn lemma_properties_updated(
    s: StateView,
    r: MenuRegistryView,
    endpoint: MenuSourceView,
    updates: Seq<MenuItemPropertiesUpdateView>,
)
    ensures
        beside_menus(r, s, loading::properties_updated(s, r, endpoint, updates).0),
{
    reveal(loading::properties_updated);
    match s.menu {
        MenuStateView::Loaded { window_id, endpoint: current, model } => {
            let (root, changed) = loading::patched_all(model.root, updates);
            lemma_normalized(
            r,
                StateView {
                    menu: MenuStateView::Loaded {
                        window_id,
                        endpoint,
                        model: MenuModelView { root, ..model },
                    },
                    ..s
                },
            );
        },
        _ => {},
    }
}

proof fn lemma_root_clicked(s: StateView, r: MenuRegistryView, id: MenuItemId)
    ensures
        beside_menus(r, s, interaction::root_clicked(s, r, id).0),
        interaction::root_clicked(s, r, id).0.next_menu_navigation_session
            == s.next_menu_navigation_session,
{
    reveal(interaction::root_clicked);
    let s0 = interaction::popups_closed(s);
    if s.global_menu_model is Some {
        lemma_normalized(r, interaction::menu_opened_at(s0, s.global_menu_model->0, id));
    }
}

proof fn lemma_list_navigated(r: MenuRegistryView, s: StateView, direction: int)
    ensures
        beside_menus(r, s, navigation::list_navigated(s, direction).0),
{
    reveal(navigation::list_navigated);
}

proof fn lemma_root_navigated(r: MenuRegistryView, s: StateView, direction: int)
    ensures
        beside_menus(r, s, navigation::root_navigated(s, direction).0),
{
    reveal(navigation::root_navigated);
}

proof fn lemma_right_navigated(r: MenuRegistryView, s: StateView)
    ensures
        beside_menus(r, s, interaction::right_navigated(s).0),
{
    reveal(interaction::right_navigated);
    lemma_root_navigated(r, s, 1);
}

proof fn lemma_enter_navigated(s: StateView, r: MenuRegistryView)
    ensures
        beside_menus(r, s, interaction::enter_navigated(s, r).0),
{
    reveal(interaction::enter_navigated);
    lemma_right_navigated(r, s);
    lemma_list_navigated(r, s, 1);
    if presentation::selected(s) is Some {
        lemma_root_clicked(s, r, presentation::selected(s)->0);
    }
}

proof fn lemma_navigation_started(s: StateView, r: MenuRegistryView)
    ensures
        beside_menus(r, s, interaction::navigation_started(s, r).0),
{
    reveal(interaction::navigation_started);
    if interaction::first_root(s) is Some {
        lemma_root_clicked(s, r, interaction::first_root(s)->0);
    }
}

proof fn lemma_lazy_layout_requested(
    s: StateView,
    r: MenuRegistryView,
    window_id: WindowId,
    endpoint: MenuSourceView,
    request_id: u64,
    intent_id: u64,
    watcher_generation: u64,
)
    ensures
        beside_menus(
            r,
            s,
            loading::lazy_layout_requested(
                s,
                r,
                window_id,
                endpoint,
                request_id,
                intent_id,
                watcher_generation,
            ).0,
        ),
{
    reveal(loading::lazy_layout_requested);
}

proof fn lemma_lazy_load_converged(
    s: StateView,
    r: MenuRegistryView,
    window_id: WindowId,
    endpoint: MenuSourceView,
    request_id: u64,
    follow_up: Option<u64>,
)
    ensures
        beside_menus(
            r,
            s,
            loading::lazy_load_converged(s, r, window_id, endpoint, request_id, follow_up).0,
        ),
{
    reveal(loading::lazy_load_converged);
}

proof fn lemma_menu_failed(
    s: StateView,
    r: MenuRegistryView,
    window_id: WindowId,
    endpoint: MenuSourceView,
    request_id: u64,
    error: Seq<char>,
)
    ensures
        beside_menus(r, s, loading::menu_failed(s, r, window_id, endpoint, request_id, error).0),
{
    reveal(loading::menu_failed);
}

proof fn lemma_watcher_ready(
    s: StateView,
    r: MenuRegistryView,
    endpoint: MenuSourceView,
    watcher_generation: u64,
)
    ensures
        beside_menus(r, s, loading::watcher_ready(s, r, endpoint, watcher_generation)),
{
    reveal(loading::watcher_ready);
}

proof fn lemma_asked(s: StateView, r: MenuRegistryView, request: AboutToShowPendingView)
    ensures
        beside_menus(r, s, about_to_show::requested(s, r, request).0),
{
    reveal(about_to_show::requested);
}

proof fn lemma_left_navigated(r: MenuRegistryView, s: StateView)
    ensures
        beside_menus(r, s, interaction::left_navigated(s).0),
{
    reveal(interaction::left_navigated);
    lemma_root_navigated(r, s, -1);
}

proof fn lemma_escape_navigated(s: StateView, r: MenuRegistryView)
    ensures
        beside_menus(r, s, interaction::escape_navigated(s, r).0),
{
    reveal(interaction::escape_navigated);
}

proof fn lemma_item_activated(
    s: StateView,
    r: MenuRegistryView,
    window_id: WindowId,
    endpoint: MenuSourceView,
    id: MenuItemId,
)
    ensures
        beside_menus(r, s, interaction::item_activated(s, r, window_id, endpoint, id).0),
{
    reveal(interaction::item_activated);
}

proof fn lemma_item_hovered(r: MenuRegistryView, s: StateView, path: Seq<MenuItemId>)
    ensures
        beside_menus(r, s, interaction::item_hovered(s, path).0),
{
    reveal(interaction::item_hovered);
}

proof fn lemma_clicked_outside(s: StateView, r: MenuRegistryView)
    ensures
        beside_menus(r, s, interaction::clicked_outside(s, r).0),
{
    reveal(interaction::clicked_outside);
}

#[verifier::spinoff_prover]
proof fn lemma_loading(s: StateView, r: MenuRegistryView, event: Event)
    ensures
        beside_menus(r, s, reducer::loading_event(s, r, event).state),
        reducer::loading_event(s, r, event).registry == r,
{
    match event {
        Event::MenuLoaded { window_id, endpoint, request_id, model } => {
            lemma_menu_loaded(
                s,
                r,
                window_id,
                endpoint.deep_view(),
                request_id,
                model.deep_view(),
            );
        },
        Event::MenuAboutToShowCompleted {
            window_id,
            endpoint,
            item_id,
            request_id,
            lazy_root,
            intent_id,
            watcher_generation,
            need_update,
            model,
            error,
        } => {
            let request = AboutToShowPendingView {
                window_id,
                endpoint: endpoint.deep_view(),
                item_id,
                request_id,
                lazy_root,
                intent_id,
                watcher_generation,
            };
            lemma_about_to_show(s, r, request, need_update, model.deep_view(), error is Some);
        },
        Event::MenuPropertiesUpdated { endpoint, updates, .. } => {
            lemma_properties_updated(s, r, endpoint.deep_view(), updates.deep_view());
        },
        Event::MenuAboutToShowRequested {
            window_id,
            endpoint,
            item_id,
            request_id,
            lazy_root,
            intent_id,
            watcher_generation,
        } => {
            let request = AboutToShowPendingView {
                window_id,
                endpoint: endpoint.deep_view(),
                item_id,
                request_id,
                lazy_root,
                intent_id,
                watcher_generation,
            };
            lemma_asked(s, r, request);
        },
        Event::MenuLazyRootLayoutRequested {
            window_id,
            endpoint,
            request_id,
            intent_id,
            watcher_generation,
        } => {
            lemma_lazy_layout_requested(
                s,
                r,
                window_id,
                endpoint.deep_view(),
                request_id,
                intent_id,
                watcher_generation,
            );
        },
        Event::MenuLazyRootLoadConvergence {
            window_id,
            endpoint,
            request_id,
            follow_up_request_id,
        } => {
            lemma_lazy_load_converged(
                s,
                r,
                window_id,
                endpoint.deep_view(),
                request_id,
                follow_up_request_id,
            );
        },
        Event::MenuLoadFailed { window_id, endpoint, request_id, error } => {
            lemma_menu_failed(s, r, window_id, endpoint.deep_view(), request_id, error@);
        },
        Event::MenuWatcherReady { endpoint, watcher_generation, .. } => {
            lemma_watcher_ready(s, r, endpoint.deep_view(), watcher_generation);
        },
        _ => {},
    }
}

/// What concerns the loading of menus leaves everything else alone.
#[verifier::spinoff_prover]
pub proof fn lemma_loading_beside_menus(s: StateView, r: MenuRegistryView, event: Event)
    requires
        reducer::concern(event) is Loading,
    ensures
        beside_menus(r, s, reducer::reduced(s, r, event).state),
        reducer::reduced(s, r, event).registry == r,
{
    lemma_loading(s, r, event);
}

#[verifier::spinoff_prover]
proof fn lemma_interaction(s: StateView, r: MenuRegistryView, event: Event)
    ensures
        beside_menus(r, s, reducer::interaction_event(s, r, event).state),
        reducer::interaction_event(s, r, event).registry == r,
{
    match event {
        Event::MenuRootClicked(id) => {
            lemma_root_clicked(s, r, id);
        },
        Event::MenuNavigationStarted => {
            lemma_navigation_started(s, r);
        },
        Event::MenuNavigateLeft => {
            lemma_left_navigated(r, s);
        },
        Event::MenuNavigateEscape => {
            lemma_escape_navigated(s, r);
        },
        Event::MenuItemActivateRequested { window_id, endpoint, item_id, .. } => {
            lemma_item_activated(s, r, window_id, endpoint.deep_view(), item_id);
        },
        Event::MenuItemHovered { path } => {
            lemma_item_hovered(r, s, path.deep_view());
        },
        Event::MenuClickedOutside => {
            lemma_clicked_outside(s, r);
        },
        Event::MenuNavigateRight => {
            lemma_right_navigated(r, s);
        },
        Event::MenuNavigateDown => {
            lemma_list_navigated(r, s, 1);
        },
        Event::MenuNavigateUp => {
            lemma_list_navigated(r, s, -1);
        },
        Event::MenuNavigateEnter => {
            lemma_enter_navigated(s, r);
        },
        Event::KeyboardGrabAcquired { .. } => {},
        Event::KeyboardGrabFailed { .. } => {},
        Event::TrayMenuOpenRequested { .. } => {},
        _ => {},
    }
}

/// What the user does in menus leaves everything else alone.
#[verifier::spinoff_prover]
pub proof fn lemma_interaction_beside_menus(s: StateView, r: MenuRegistryView, event: Event)
    requires
        reducer::concern(event) is Interaction,
    ensures
        beside_menus(r, s, reducer::reduced(s, r, event).state),
        reducer::reduced(s, r, event).registry == r,
{
    lemma_interaction(s, r, event);
}

/// At most one of the popups of devices is open.
pub open spec fn one_popup(s: StateView) -> bool {
    &&& !(s.audio_popup_open && s.bluetooth_popup_open)
    &&& !(s.audio_popup_open && s.network_popup_open)
    &&& !(s.bluetooth_popup_open && s.network_popup_open)
}

/// The same menu is presented under the same policy, and navigated in the same way.
pub open spec fn presentation_kept(before: StateView, after: StateView) -> bool {
    &&& after.menu_navigation == before.menu_navigation
    &&& after.menu_presentation == before.menu_presentation
    &&& after.menu_presentation_policy == before.menu_presentation_policy
}

/// The same menu is kept, and the same watchers are known.
pub open spec fn sources_kept(before: StateView, after: StateView) -> bool {
    &&& after.global_menu_model == before.global_menu_model
    &&& after.watcher_generations == before.watcher_generations
}

/// No session and no wish was numbered.
pub open spec fn numbers_kept(before: StateView, after: StateView) -> bool {
    &&& after.next_menu_navigation_session == before.next_menu_navigation_session
    &&& after.next_lazy_root_intent == before.next_lazy_root_intent
}

/// Everything that concerns menus is the same, but for what is open of them and what of them is loaded.
pub open spec fn menus_kept(before: StateView, after: StateView) -> bool {
    presentation_kept(before, after) && sources_kept(before, after) && numbers_kept(before, after)
}

/// What is loaded of a menu is the same.
pub open spec fn loaded_kept(before: StateView, after: StateView) -> bool {
    after.menu == before.menu
}

/// What is known of agents is the same.
pub open spec fn usage_kept(before: StateView, after: StateView) -> bool {
    after.ai_usage == before.ai_usage && after.plugin_zone == before.plugin_zone
}

/// Whether the report that the network popup waits for comes while another popup is open.
pub open spec fn fills_behind_popup(s: StateView, event: Event) -> bool {
    event is NetworkPopupSnapshotReceived && s.network_popup_open_pending && (s.audio_popup_open
        || s.bluetooth_popup_open)
}

#[verifier::spinoff_prover]
proof fn lemma_devices_popups(s: StateView, event: Event)
    requires
        one_popup(s),
        !fills_behind_popup(s, event),
    ensures
        one_popup(reducer::device_event(s, event).0),
{
}

#[verifier::spinoff_prover]
proof fn lemma_devices_presentation(s: StateView, event: Event)
    ensures
        presentation_kept(s, reducer::device_event(s, event).0),
{
}

#[verifier::spinoff_prover]
proof fn lemma_devices_sources(s: StateView, event: Event)
    ensures
        sources_kept(s, reducer::device_event(s, event).0),
{
}

#[verifier::spinoff_prover]
proof fn lemma_devices_numbers(s: StateView, event: Event)
    ensures
        numbers_kept(s, reducer::device_event(s, event).0),
{
}

#[verifier::spinoff_prover]
proof fn lemma_devices_loaded(s: StateView, event: Event)
    ensures
        loaded_kept(s, reducer::device_event(s, event).0),
{
}

#[verifier::spinoff_prover]
proof fn lemma_devices_usage(s: StateView, event: Event)
    requires
        event !is ActiveAiUsageChanged,
    ensures
        usage_kept(s, reducer::device_event(s, event).0),
{
}

#[verifier::spinoff_prover]
proof fn lemma_tray(s: StateView, event: Event)
    ensures
        one_popup(s) ==> one_popup(reducer::tray_event(s, event).0),
        usage_kept(s, reducer::tray_event(s, event).0),
        reducer::tray_event(s, event).0.next_menu_navigation_session
            == s.next_menu_navigation_session,
        reducer::tray_event(s, event).0.next_lazy_root_intent == s.next_lazy_root_intent,
        reducer::tray_event(s, event).0.network_status_authoritative
            == s.network_status_authoritative,
{
}

#[verifier::spinoff_prover]
proof fn lemma_presentation(s: StateView, r: MenuRegistryView, event: Event)
    ensures
        one_popup(s) ==> one_popup(reducer::presentation_event(s, r, event).state),
        usage_kept(s, reducer::presentation_event(s, r, event).state),
        reducer::presentation_event(s, r, event).state.next_menu_navigation_session
            == s.next_menu_navigation_session,
        reducer::presentation_event(s, r, event).state.next_lazy_root_intent
            == s.next_lazy_root_intent,
        reducer::presentation_event(s, r, event).state.network_status_authoritative
            == s.network_status_authoritative,
{
}

/// At most one popup of a device is open, whatever happens. The one exception is the report that the
/// network popup waits for, where another popup was opened meanwhile.
#[verifier::spinoff_prover]
pub proof fn lemma_one_popup(s: StateView, r: MenuRegistryView, event: Event)
    requires
        one_popup(s),
        !fills_behind_popup(s, event),
    ensures
        one_popup(reducer::reduced(s, r, event).state),
{
    match reducer::concern(event) {
        Concern::Presentation => {
            lemma_presentation(s, r, event);
        },
        Concern::Loading => {
            lemma_loading(s, r, event);
        },
        Concern::Interaction => {
            lemma_interaction(s, r, event);
        },
        Concern::Devices => {
            lemma_devices_popups(s, event);
        },
        Concern::Tray => {
            lemma_tray(s, event);
        },
        Concern::Elsewhere => {},
    }
}

#[verifier::spinoff_prover]
proof fn lemma_devices_link(s: StateView, event: Event)
    requires
        s.network_status_authoritative,
    ensures
        reducer::device_event(s, event).0.network_status_authoritative,
{
}

/// Once the Wi-Fi link has reported by itself, it stays the one to be believed, whatever happens.
#[verifier::spinoff_prover]
pub proof fn lemma_link_stays_authoritative(s: StateView, r: MenuRegistryView, event: Event)
    requires
        s.network_status_authoritative,
    ensures
        reducer::reduced(s, r, event).state.network_status_authoritative,
{
    match reducer::concern(event) {
        Concern::Presentation => {
            lemma_presentation(s, r, event);
        },
        Concern::Loading => {
            lemma_loading(s, r, event);
        },
        Concern::Interaction => {
            lemma_interaction(s, r, event);
        },
        Concern::Devices => {
            lemma_devices_link(s, event);
        },
        Concern::Tray => {
            lemma_tray(s, event);
        },
        Concern::Elsewhere => {},
    }
}

/// Whether an event opens a popup, or has the menu of a tray item opened.
pub open spec fn opens_popup(s: StateView, event: Event) -> bool {
    match event {
        Event::AudioPopupToggled => !s.audio_popup_open,
        Event::BluetoothPopupToggled => !s.bluetooth_popup_open,
        Event::NetworkPopupToggled => !s.network_popup_open,
        Event::NetworkPopupOpenRequested => !s.network_popup_open && !s.network_popup_open_pending,
        Event::TrayMenuOpenRequested { .. } => true,
        _ => false,
    }
}

#[verifier::spinoff_prover]
proof fn lemma_device_popup(s: StateView, event: Event)
    requires
        opens_popup(s, event),
        reducer::concern(event) is Devices,
    ensures
        reducer::device_event(s, event).0.menu_interaction == MenuInteractionStateView::initial(),
{
}

/// Opening another popup dismisses what is open of the menu, and nothing else of it: the loaded model,
/// the presentation and the navigation stay.
#[verifier::spinoff_prover]
pub proof fn lemma_popup_dismisses_interaction(s: StateView, r: MenuRegistryView, event: Event)
    requires
        opens_popup(s, event),
    ensures
        ({
            let after = reducer::reduced(s, r, event).state;
            &&& after.menu_interaction == MenuInteractionStateView::initial()
            &&& menus_kept(s, after)
            &&& loaded_kept(s, after)
        }),
        reducer::reduced(s, r, event).registry == r,
{
    if event is TrayMenuOpenRequested {
        assert(reducer::reduced(s, r, event) == reducer::state_step(r, tray::tray_menu_wanted(s)));
    } else {
        lemma_devices_keep_menus(s, r, event);
        lemma_device_popup(s, event);
    }
}

/// What is known of agents changes by the reports of the usage service alone.
#[verifier::spinoff_prover]
pub proof fn lemma_usage_changes_by_reports(s: StateView, r: MenuRegistryView, event: Event)
    requires
        event !is ActiveAiUsageChanged,
    ensures
        usage_kept(s, reducer::reduced(s, r, event).state),
{
    match reducer::concern(event) {
        Concern::Presentation => {
            lemma_presentation(s, r, event);
        },
        Concern::Loading => {
            lemma_loading(s, r, event);
        },
        Concern::Interaction => {
            lemma_interaction(s, r, event);
        },
        Concern::Devices => {
            lemma_devices_usage(s, event);
        },
        Concern::Tray => {
            lemma_tray(s, event);
        },
        Concern::Elsewhere => {},
    }
}

/// Sessions of keyboard navigation, and wishes to open menus that are still to be loaded, are numbered
/// one by one: no event skips a number or takes one back.
#[verifier::spinoff_prover]
pub proof fn lemma_numbers_advance(s: StateView, r: MenuRegistryView, event: Event)
    ensures
        advances(
            s.next_menu_navigation_session,
            reducer::reduced(s, r, event).state.next_menu_navigation_session,
        ),
        advances(
            s.next_lazy_root_intent,
            reducer::reduced(s, r, event).state.next_lazy_root_intent,
        ),
{
    match reducer::concern(event) {
        Concern::Presentation => {
            lemma_presentation(s, r, event);
        },
        Concern::Loading => {
            lemma_loading(s, r, event);
        },
        Concern::Interaction => {
            lemma_interaction(s, r, event);
        },
        Concern::Devices => {
            lemma_devices_numbers(s, event);
        },
        Concern::Tray => {
            lemma_tray(s, event);
        },
        Concern::Elsewhere => {},
    }
}

/// What happens to devices and notifications leaves the presented menu alone, but for what is open of
/// it: opening a popup does not drop what is loaded.
#[verifier::spinoff_prover]
pub proof fn lemma_devices_keep_menus(s: StateView, r: MenuRegistryView, event: Event)
    requires
        reducer::concern(event) is Devices,
    ensures
        menus_kept(s, reducer::reduced(s, r, event).state),
        loaded_kept(s, reducer::reduced(s, r, event).state),
        reducer::reduced(s, r, event).registry == r,
{
    lemma_devices_presentation(s, event);
    lemma_devices_sources(s, event);
    lemma_devices_numbers(s, event);
    lemma_devices_loaded(s, event);
}

/// A pinned menu is presented, and pinned to the focused workspace.
pub open spec fn pin_holds(s: StateView) -> bool {
    presentation::follows_focus(s) || (s.menu_presentation is Some && presentation::pin(s)
        == s.focused_workspace)
}

#[verifier::spinoff_prover]
proof fn lemma_presentation_pin(s: StateView, r: MenuRegistryView, event: Event)
    requires
        pin_holds(s),
    ensures
        pin_holds(reducer::presentation_event(s, r, event).state),
{
}

#[verifier::spinoff_prover]
proof fn lemma_devices_pin(s: StateView, event: Event)
    requires
        pin_holds(s),
    ensures
        pin_holds(reducer::device_event(s, event).0),
{
}

#[verifier::spinoff_prover]
proof fn lemma_tray_pin(s: StateView, event: Event)
    requires
        pin_holds(s),
    ensures
        pin_holds(reducer::tray_event(s, event).0),
{
}

/// No pin outlives the focus of its workspace or the menu that was pinned, whatever happens.
#[verifier::spinoff_prover]
pub proof fn lemma_pin_holds(s: StateView, r: MenuRegistryView, event: Event)
    requires
        pin_holds(s),
    ensures
        pin_holds(reducer::reduced(s, r, event).state),
{
    match reducer::concern(event) {
        Concern::Presentation => {
            lemma_presentation_pin(s, r, event);
        },
        Concern::Loading => {
            lemma_loading(s, r, event);
        },
        Concern::Interaction => {
            lemma_interaction(s, r, event);
        },
        Concern::Devices => {
            lemma_devices_pin(s, event);
        },
        Concern::Tray => {
            lemma_tray_pin(s, event);
        },
        Concern::Elsewhere => {},
    }
}

/// The window whose menu is presented has a menu.
pub open spec fn presents_a_menu(r: MenuRegistryView, s: StateView) -> bool {
    s.menu_presentation matches Some(p) ==> menu::active_source(r, Some(p.window_id)) is Some
}

#[verifier::spinoff_prover]
proof fn lemma_presentation_presents(s: StateView, r: MenuRegistryView, event: Event)
    requires
        presents_a_menu(r, s),
    ensures
        presents_a_menu(
            reducer::presentation_event(s, r, event).registry,
            reducer::presentation_event(s, r, event).state,
        ),
{
}

#[verifier::spinoff_prover]
proof fn lemma_tray_presents(s: StateView, event: Event)
    ensures
        reducer::tray_event(s, event).0.menu_presentation == s.menu_presentation,
{
}

/// What is presented is the menu of a window that has one, whatever happens.
#[verifier::spinoff_prover]
pub proof fn lemma_presents_a_menu(s: StateView, r: MenuRegistryView, event: Event)
    requires
        presents_a_menu(r, s),
    ensures
        presents_a_menu(
            reducer::reduced(s, r, event).registry,
            reducer::reduced(s, r, event).state,
        ),
{
    match reducer::concern(event) {
        Concern::Presentation => {
            lemma_presentation_presents(s, r, event);
        },
        Concern::Loading => {
            lemma_loading(s, r, event);
        },
        Concern::Interaction => {
            lemma_interaction(s, r, event);
        },
        Concern::Devices => {
            lemma_devices_presentation(s, event);
        },
        Concern::Tray => {
            lemma_tray_presents(s, event);
        },
        Concern::Elsewhere => {},
    }
}

#[verifier::spinoff_prover]
proof fn lemma_presentation_registry(s: StateView, r: MenuRegistryView, event: Event)
    requires
        menu::no_empty_window(r),
    ensures
        menu::no_empty_window(reducer::presentation_event(s, r, event).registry),
{
}

/// Whether an event tells of menus that came or went.
pub open spec fn is_registration(event: Event) -> bool {
    match event {
        Event::MenuRegistered { .. } => true,
        Event::MenuUnregistered { .. } => true,
        Event::MenuOwnerVanished { .. } => true,
        Event::GtkMenuDiscovered { .. } => true,
        Event::GtkMenuRemoved { .. } => true,
        _ => false,
    }
}

#[verifier::spinoff_prover]
proof fn lemma_presentation_keeps_registry(s: StateView, r: MenuRegistryView, event: Event)
    requires
        !is_registration(event),
    ensures
        reducer::presentation_event(s, r, event).registry == r,
{
}

/// Which menus there are changes by what tells of them alone, and no window is listed without a menu.
#[verifier::spinoff_prover]
pub proof fn lemma_registry_changes_by_registration(s: StateView, r: MenuRegistryView, event: Event)
    ensures
        !is_registration(event) ==> reducer::reduced(s, r, event).registry == r,
        menu::no_empty_window(r) ==> menu::no_empty_window(reducer::reduced(s, r, event).registry),
{
    match reducer::concern(event) {
        Concern::Presentation => {
            if !is_registration(event) {
                lemma_presentation_keeps_registry(s, r, event);
            }
            if menu::no_empty_window(r) {
                lemma_presentation_registry(s, r, event);
            }
        },
        Concern::Loading => {
            lemma_loading(s, r, event);
        },
        Concern::Interaction => {
            lemma_interaction(s, r, event);
        },
        _ => {},
    }
}

} // verus!
