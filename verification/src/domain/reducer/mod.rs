//! What events do to the state of the bar.
use vstd::prelude::*;

use crate::domain::event::Event;
use crate::domain::menu::{MenuRegistry, MenuRegistryView};
use crate::domain::state::{
    AboutToShowPending, AboutToShowPendingView, BluetoothPendingAction, BluetoothPendingActionView,
    KeyboardGrabState, State, StateView,
};
use crate::platform::x11::X11Event;

pub mod about_to_show;
pub mod devices;
pub mod effects;
pub mod focus;
pub mod interaction;
pub mod keyboard;
pub mod laws;
pub mod lifecycle;
pub mod loading;
pub mod navigation;
pub mod presentation;
pub mod reports;
pub mod tray;
pub mod tree;

verus! {

/// What comes of an event: the state and the registry after it, and whether the bar has to be
/// drawn anew.
pub struct Step {
    pub state: StateView,
    pub registry: MenuRegistryView,
    pub dirty: bool,
}

/// An event that leaves the registry alone.
pub open spec fn state_step(registry: MenuRegistryView, after: (StateView, bool)) -> Step {
    Step { state: after.0, registry, dirty: after.1 }
}

/// An event that may change the registry.
pub open spec fn registry_step(after: (StateView, MenuRegistryView, bool)) -> Step {
    Step { state: after.0, registry: after.1, dirty: after.2 }
}

/// What comes of an event that concerns which menu is presented.
pub open spec fn presentation_event(s: StateView, r: MenuRegistryView, event: Event) -> Step {
    match event {
        Event::WorkspacesSnapshot(workspaces) => state_step(
            r,
            focus::workspaces_reported(s, workspaces.deep_view()),
        ),
        Event::WorkspaceFocused { name } => state_step(
            r,
            focus::workspace_focused(s, name.deep_view()),
        ),
        Event::WindowFocused(window) => state_step(r, focus::window_focused(s, r, window)),
        Event::WindowFocusedWithApp { window, app_name } => state_step(
            r,
            focus::app_focused(s, r, window, app_name.deep_view()),
        ),
        Event::PinCurrentMenuPresentation => state_step(r, focus::pinned(s, r)),
        Event::UnpinMenuPresentation => state_step(r, focus::pin_released(s, r)),
        Event::ToggleMenuPresentationPin => state_step(r, focus::pin_toggled(s, r)),
        Event::MenuRegistered { window_id, endpoint } => registry_step(
            loading::menu_registered(s, r, window_id, endpoint.deep_view()),
        ),
        Event::GtkMenuDiscovered { window_id, endpoint } => registry_step(
            loading::menu_discovered(s, r, window_id, endpoint.deep_view()),
        ),
        Event::GtkMenuRemoved { window_id, endpoint } => registry_step(
            loading::discovered_menu_removed(s, r, window_id, endpoint.deep_view()),
        ),
        Event::MenuUnregistered { window_id } => registry_step(
            loading::menu_unregistered(s, r, window_id),
        ),
        Event::MenuOwnerVanished { sender } => registry_step(
            loading::owner_vanished(s, r, sender@),
        ),
        _ => state_step(r, (s, false)),
    }
}

/// What comes of an event that concerns the loading of a menu.
pub open spec fn loading_event(s: StateView, r: MenuRegistryView, event: Event) -> Step {
    match event {
        Event::MenuLoadRequested { window_id, endpoint, request_id } => state_step(
            r,
            loading::load_requested(s, r, window_id, endpoint.deep_view(), request_id),
        ),
        Event::MenuLazyRootLayoutRequested {
            window_id,
            endpoint,
            request_id,
            intent_id,
            watcher_generation,
        } => state_step(
            r,
            loading::lazy_layout_requested(
                s,
                r,
                window_id,
                endpoint.deep_view(),
                request_id,
                intent_id,
                watcher_generation,
            ),
        ),
        Event::MenuLazyRootLoadConvergence {
            window_id,
            endpoint,
            request_id,
            follow_up_request_id,
        } => state_step(
            r,
            loading::lazy_load_converged(
                s,
                r,
                window_id,
                endpoint.deep_view(),
                request_id,
                follow_up_request_id,
            ),
        ),
        Event::MenuLoaded { window_id, endpoint, request_id, model } => state_step(
            r,
            loading::menu_loaded(
                s,
                r,
                window_id,
                endpoint.deep_view(),
                request_id,
                model.deep_view(),
            ),
        ),
        Event::MenuLoadFailed { window_id, endpoint, request_id, error } => state_step(
            r,
            loading::menu_failed(s, r, window_id, endpoint.deep_view(), request_id, error@),
        ),
        Event::TrayMenuLoaded { endpoint, request_id, model } => state_step(
            r,
            loading::tray_menu_loaded(s, endpoint.deep_view(), request_id, model.deep_view()),
        ),
        Event::TrayMenuLoadFailed { endpoint, request_id, error } => state_step(
            r,
            loading::tray_menu_failed(s, endpoint.deep_view(), request_id, error@),
        ),
        Event::MenuWatcherReady { endpoint, watcher_generation, .. } => state_step(
            r,
            (loading::watcher_ready(s, r, endpoint.deep_view(), watcher_generation), false),
        ),
        Event::MenuPropertiesUpdated { endpoint, updates, .. } => state_step(
            r,
            loading::properties_updated(s, r, endpoint.deep_view(), updates.deep_view()),
        ),
        Event::MenuAboutToShowRequested {
            window_id,
            endpoint,
            item_id,
            request_id,
            lazy_root,
            intent_id,
            watcher_generation,
        } => state_step(
            r,
            about_to_show::requested(
                s,
                r,
                AboutToShowPendingView {
                    window_id,
                    endpoint: endpoint.deep_view(),
                    item_id,
                    request_id,
                    lazy_root,
                    intent_id,
                    watcher_generation,
                },
            ),
        ),
        Event::MenuAboutToShowCompleted {
            window_id,
            endpoint,
            item_id,
            request_id,
            lazy_root,
            intent_id,
            watcher_generation,
            need_update,
            model,
            error,
        } => state_step(
            r,
            about_to_show::completed(
                s,
                r,
                AboutToShowPendingView {
                    window_id,
                    endpoint: endpoint.deep_view(),
                    item_id,
                    request_id,
                    lazy_root,
                    intent_id,
                    watcher_generation,
                },
                need_update,
                model.deep_view(),
                error is Some,
            ),
        ),
        _ => state_step(r, (s, false)),
    }
}

/// What comes of an event by which the user moves through a menu.
pub open spec fn interaction_event(s: StateView, r: MenuRegistryView, event: Event) -> Step {
    match event {
        Event::MenuRootClicked(id) => state_step(r, interaction::root_clicked(s, r, id)),
        Event::MenuNavigationStarted => state_step(r, interaction::navigation_started(s, r)),
        Event::KeyboardGrabAcquired { session_id } => state_step(
            r,
            interaction::grab_answered(s, session_id, KeyboardGrabState::Active),
        ),
        Event::KeyboardGrabFailed { session_id } => state_step(
            r,
            interaction::grab_answered(s, session_id, KeyboardGrabState::Failed),
        ),
        Event::MenuNavigateLeft => state_step(r, interaction::left_navigated(s)),
        Event::MenuNavigateRight => state_step(r, interaction::right_navigated(s)),
        Event::MenuNavigateDown => state_step(r, navigation::list_navigated(s, 1)),
        Event::MenuNavigateUp => state_step(r, navigation::list_navigated(s, -1)),
        Event::MenuNavigateEnter => state_step(r, interaction::enter_navigated(s, r)),
        Event::MenuNavigateEscape => state_step(r, interaction::escape_navigated(s, r)),
        Event::MenuItemActivateRequested { window_id, endpoint, item_id, .. } => state_step(
            r,
            interaction::item_activated(s, r, window_id, endpoint.deep_view(), item_id),
        ),
        Event::MenuItemHovered { path } => state_step(
            r,
            interaction::item_hovered(s, path.deep_view()),
        ),
        Event::MenuClickedOutside => state_step(r, interaction::clicked_outside(s, r)),
        Event::TrayMenuOpenRequested { .. } => state_step(r, tray::tray_menu_wanted(s)),
        _ => state_step(r, (s, false)),
    }
}

/// What comes of an event that concerns the desktop around the menus.
pub open spec fn device_event(s: StateView, event: Event) -> (StateView, bool) {
    match event {
        Event::OutputsChanged(outputs) => devices::outputs_changed(s, outputs.deep_view()),
        Event::ClockUpdated(clock) => devices::clock_updated(s, clock),
        Event::AudioSnapshotReceived(audio) => devices::audio_reported(s, audio.deep_view()),
        Event::AudioInventoryReceived { outputs, inputs } => devices::audio_listed(
            s,
            outputs.deep_view(),
            inputs.deep_view(),
        ),
        Event::AudioUnavailable => devices::audio_lost(s),
        Event::AudioPopupToggled => (devices::audio_popup_toggled(s), true),
        Event::AudioTrackChanged { input, .. } => devices::audio_dragged(s, input),
        Event::AudioDragReleased => devices::audio_released(s),
        Event::AudioMuteToggled { .. } => (s, s.audio_popup_open),
        Event::NetworkSnapshotReceived(network) => devices::network_reported(
            s,
            network.deep_view(),
        ),
        Event::NetworkStatusChanged(status) => devices::link_reported(s, status.deep_view()),
        Event::NetworkPopupProjectionChanged(network) => devices::popup_projected(
            s,
            network.deep_view(),
        ),
        Event::NetworkConnectSavedWifi(target) => (s, devices::can_connect(s, target.deep_view())),
        Event::NetworkPopupOpenRequested => devices::network_popup_wanted(s),
        Event::NetworkPopupSnapshotReceived(network) => devices::network_popup_filled(
            s,
            network.deep_view(),
        ),
        Event::NetworkPopupSnapshotFailed => devices::network_popup_failed(s),
        Event::NetworkPopupToggled => (devices::network_popup_toggled(s), true),
        Event::NetworkSetWireless(enabled) => devices::wireless_wanted(s, enabled),
        Event::NetworkActionFinished(action) => devices::network_finished(s, action),
        Event::ActiveAiUsageChanged(usage) => devices::usage_changed(s, usage.deep_view()),
        Event::BluetoothSnapshotReceived(bluetooth) => devices::bluetooth_reported(
            s,
            bluetooth.deep_view(),
        ),
        Event::BluetoothUnavailable => devices::bluetooth_lost(s),
        Event::BluetoothPopupToggled => (devices::bluetooth_popup_toggled(s), true),
        Event::BluetoothSetPowered(powered) => devices::bluetooth_begun(
            s,
            BluetoothPendingActionView::SetPowered(powered),
        ),
        Event::BluetoothConnectDevice(path) => devices::bluetooth_begun(
            s,
            BluetoothPendingActionView::ConnectDevice(path@),
        ),
        Event::BluetoothDisconnectDevice(path) => devices::bluetooth_begun(
            s,
            BluetoothPendingActionView::DisconnectDevice(path@),
        ),
        Event::BluetoothActionFinished(action) => devices::bluetooth_finished(
            s,
            action.deep_view(),
        ),
        Event::NotificationsSnapshot(notifications) => devices::notifications_reported(
            s,
            notifications.deep_view(),
        ),
        Event::NotificationsState {
            active,
            history,
            action_projections,
        } => devices::notification_state_reported(
            s,
            active.deep_view(),
            history.deep_view(),
            action_projections.deep_view(),
        ),
        Event::ToggleNotificationCenter(output) => (
            devices::notification_center_toggled(s, output),
            true,
        ),
        Event::X11(X11Event::RandrChanged) => (s, true),
        Event::X11(X11Event::Expose(_)) => (s, true),
        _ => (s, false),
    }
}

/// What comes of an event that concerns the tray.
pub open spec fn tray_event(s: StateView, event: Event) -> (StateView, bool) {
    match event {
        Event::StatusNotifierRegistered(endpoint) => (
            tray::item_registered(s, endpoint.deep_view()),
            false,
        ),
        Event::StatusNotifierUnregistered(endpoint) => tray::item_unregistered(
            s,
            endpoint.deep_view(),
        ),
        Event::StatusNotifierOwnerVanished(service) => tray::service_vanished(s, service@),
        Event::StatusNotifierWatcherUnavailable => tray::tray_lost(s),
        Event::StatusNotifierItemUpdated(item) => tray::item_updated(s, item.deep_view()),
        Event::StatusNotifierHostRegistered => (
            StateView { status_notifier_host_registered: true, ..s },
            false,
        ),
        _ => (s, false),
    }
}

/// The part of the bar that an event concerns.
pub enum Concern {
    Presentation,
    Loading,
    Interaction,
    Devices,
    Tray,
    /// The event is for others than the reducer: it leaves everything as it is.
    Elsewhere,
}

/// The part of the bar that an event concerns.
pub open spec fn concern(event: Event) -> Concern {
    match event {
        Event::WorkspacesSnapshot(_) => Concern::Presentation,
        Event::WorkspaceFocused { .. } => Concern::Presentation,
        Event::WindowFocused(_) => Concern::Presentation,
        Event::WindowFocusedWithApp { .. } => Concern::Presentation,
        Event::PinCurrentMenuPresentation => Concern::Presentation,
        Event::UnpinMenuPresentation => Concern::Presentation,
        Event::ToggleMenuPresentationPin => Concern::Presentation,
        Event::MenuRegistered { .. } => Concern::Presentation,
        Event::GtkMenuDiscovered { .. } => Concern::Presentation,
        Event::GtkMenuRemoved { .. } => Concern::Presentation,
        Event::MenuUnregistered { .. } => Concern::Presentation,
        Event::MenuOwnerVanished { .. } => Concern::Presentation,
        Event::MenuLoadRequested { .. } => Concern::Loading,
        Event::MenuLazyRootLayoutRequested { .. } => Concern::Loading,
        Event::MenuLazyRootLoadConvergence { .. } => Concern::Loading,
        Event::MenuLoaded { .. } => Concern::Loading,
        Event::MenuLoadFailed { .. } => Concern::Loading,
        Event::TrayMenuLoaded { .. } => Concern::Loading,
        Event::TrayMenuLoadFailed { .. } => Concern::Loading,
        Event::MenuWatcherReady { .. } => Concern::Loading,
        Event::MenuPropertiesUpdated { .. } => Concern::Loading,
        Event::MenuAboutToShowRequested { .. } => Concern::Loading,
        Event::MenuAboutToShowCompleted { .. } => Concern::Loading,
        Event::MenuRootClicked(_) => Concern::Interaction,
        Event::MenuNavigationStarted => Concern::Interaction,
        Event::KeyboardGrabAcquired { .. } => Concern::Interaction,
        Event::KeyboardGrabFailed { .. } => Concern::Interaction,
        Event::MenuNavigateLeft => Concern::Interaction,
        Event::MenuNavigateRight => Concern::Interaction,
        Event::MenuNavigateUp => Concern::Interaction,
        Event::MenuNavigateDown => Concern::Interaction,
        Event::MenuNavigateEnter => Concern::Interaction,
        Event::MenuNavigateEscape => Concern::Interaction,
        Event::MenuItemActivateRequested { .. } => Concern::Interaction,
        Event::MenuItemHovered { .. } => Concern::Interaction,
        Event::MenuClickedOutside => Concern::Interaction,
        Event::TrayMenuOpenRequested { .. } => Concern::Interaction,
        Event::StatusNotifierRegistered(_) => Concern::Tray,
        Event::StatusNotifierUnregistered(_) => Concern::Tray,
        Event::StatusNotifierOwnerVanished(_) => Concern::Tray,
        Event::StatusNotifierWatcherUnavailable => Concern::Tray,
        Event::StatusNotifierItemUpdated(_) => Concern::Tray,
        Event::StatusNotifierHostRegistered => Concern::Tray,
        Event::MenuLayoutInvalidated { .. } => Concern::Elsewhere,
        Event::PassivePopupDismissRequested { .. } => Concern::Elsewhere,
        Event::AudioSelectOutput(_) => Concern::Elsewhere,
        Event::AudioSelectInput(_) => Concern::Elsewhere,
        Event::AiUsagePopupToggled { .. } => Concern::Elsewhere,
        Event::EnsureNotificationCenterOpen { .. } => Concern::Elsewhere,
        Event::ExpandNotificationGroup(_) => Concern::Elsewhere,
        Event::CollapseNotificationGroup(_) => Concern::Elsewhere,
        Event::NotificationToastConsumed => Concern::Elsewhere,
        Event::WindowAttentionChanged { .. } => Concern::Elsewhere,
        Event::StatusNotifierActionRequested { .. } => Concern::Elsewhere,
        Event::CalendarSnapshotUpdated(_) => Concern::Elsewhere,
        Event::CalendarSnapshotFailed(_) => Concern::Elsewhere,
        _ => Concern::Devices,
    }
}

/// What comes of an event.
pub open spec fn reduced(s: StateView, r: MenuRegistryView, event: Event) -> Step {
    match concern(event) {
        Concern::Presentation => presentation_event(s, r, event),
        Concern::Loading => loading_event(s, r, event),
        Concern::Interaction => interaction_event(s, r, event),
        Concern::Devices => state_step(r, device_event(s, event)),
        Concern::Tray => state_step(r, tray_event(s, event)),
        Concern::Elsewhere => state_step(r, (s, false)),
    }
}

/// What comes of an event, taken as a whole: what [`reduced`] says of it is not looked into unless it is
/// asked for.
#[verifier::opaque]
pub open spec fn step(s: StateView, r: MenuRegistryView, event: Event) -> Step {
    reduced(s, r, event)
}

/// What comes of an event that concerns what happens to devices and notifications.
pub proof fn lemma_is_device(s: StateView, r: MenuRegistryView, event: Event)
    requires
        concern(event) is Devices,
    ensures
        step(s, r, event) == state_step(r, device_event(s, event)),
{
    reveal(step);
}

/// What comes of an event that concerns what happens in the tray.
pub proof fn lemma_is_tray(s: StateView, r: MenuRegistryView, event: Event)
    requires
        concern(event) is Tray,
    ensures
        step(s, r, event) == state_step(r, tray_event(s, event)),
{
    reveal(step);
}

/// What comes of an event that concerns what is focused, pinned or registered.
pub proof fn lemma_is_presentation(s: StateView, r: MenuRegistryView, event: Event)
    requires
        concern(event) is Presentation,
    ensures
        step(s, r, event) == presentation_event(s, r, event),
{
    reveal(step);
}

/// What comes of an event that concerns the loading of menus.
pub proof fn lemma_is_loading(s: StateView, r: MenuRegistryView, event: Event)
    requires
        concern(event) is Loading,
    ensures
        step(s, r, event) == loading_event(s, r, event),
{
    reveal(step);
}

#[verifier::spinoff_prover]
fn reduce_presentation(state: &mut State, event: Event, registry: &mut MenuRegistry) -> (dirty:
    bool)
    ensures
        (Step {
            state: final(state).deep_view(),
            registry: final(registry).deep_view(),
            dirty,
        }) == presentation_event(old(state).deep_view(), old(registry).deep_view(), event),
{
    match event {
        Event::WorkspacesSnapshot(workspaces) => focus::report_workspaces(state, workspaces),
        Event::WorkspaceFocused { name } => focus::focus_workspace(state, name),
        Event::WindowFocused(window) => focus::focus_window(state, registry, window),
        Event::WindowFocusedWithApp { window, app_name } => focus::focus_app(
            state,
            registry,
            window,
            app_name,
        ),
        Event::PinCurrentMenuPresentation => focus::pin(state, registry),
        Event::UnpinMenuPresentation => focus::unpin(state, registry),
        Event::ToggleMenuPresentationPin => focus::toggle_pin(state, registry),
        Event::MenuRegistered { window_id, endpoint } => loading::register_menu(
            state,
            registry,
            window_id,
            endpoint,
        ),
        Event::GtkMenuDiscovered { window_id, endpoint } => loading::discover_menu(
            state,
            registry,
            window_id,
            endpoint,
        ),
        Event::GtkMenuRemoved { window_id, endpoint } => loading::remove_discovered_menu(
            state,
            registry,
            window_id,
            &endpoint,
        ),
        Event::MenuUnregistered { window_id } => loading::unregister_menu(
            state,
            registry,
            window_id,
        ),
        Event::MenuOwnerVanished { sender } => loading::forget_owner(state, registry, sender),
        _ => false,
    }
}

#[verifier::spinoff_prover]
fn reduce_loading(state: &mut State, event: Event, registry: &MenuRegistry) -> (dirty: bool)
    ensures
        (Step { state: final(state).deep_view(), registry: registry.deep_view(), dirty })
            == loading_event(old(state).deep_view(), registry.deep_view(), event),
{
    match event {
        Event::MenuLoadRequested { window_id, endpoint, request_id } => loading::request_load(
            state,
            registry,
            window_id,
            endpoint,
            request_id,
        ),
        Event::MenuLazyRootLayoutRequested {
            window_id,
            endpoint,
            request_id,
            intent_id,
            watcher_generation,
        } => loading::request_lazy_layout(
            state,
            registry,
            window_id,
            endpoint,
            request_id,
            intent_id,
            watcher_generation,
        ),
        Event::MenuLazyRootLoadConvergence {
            window_id,
            endpoint,
            request_id,
            follow_up_request_id,
        } => loading::converge_lazy_load(
            state,
            registry,
            window_id,
            &endpoint,
            request_id,
            follow_up_request_id,
        ),
        Event::MenuLoaded { window_id, endpoint, request_id, model } => loading::load_menu(
            state,
            registry,
            window_id,
            endpoint,
            request_id,
            model,
        ),
        Event::MenuLoadFailed { window_id, endpoint, request_id, error } => loading::fail_menu(
            state,
            registry,
            window_id,
            endpoint,
            request_id,
            error,
        ),
        Event::TrayMenuLoaded { endpoint, request_id, model } => loading::load_tray_menu(
            state,
            endpoint,
            request_id,
            model,
        ),
        Event::TrayMenuLoadFailed { endpoint, request_id, error } => loading::fail_tray_menu(
            state,
            endpoint,
            request_id,
            error,
        ),
        Event::MenuWatcherReady { endpoint, watcher_generation, .. } => {
            loading::ready_watcher(state, registry, endpoint, watcher_generation);
            false
        },
        Event::MenuPropertiesUpdated { endpoint, updates, .. } => loading::update_properties(
            state,
            registry,
            &endpoint,
            &updates,
        ),
        Event::MenuAboutToShowRequested {
            window_id,
            endpoint,
            item_id,
            request_id,
            lazy_root,
            intent_id,
            watcher_generation,
        } => about_to_show::ask(
            state,
            registry,
            AboutToShowPending {
                window_id,
                endpoint,
                item_id,
                request_id,
                lazy_root,
                intent_id,
                watcher_generation,
            },
        ),
        Event::MenuAboutToShowCompleted {
            window_id,
            endpoint,
            item_id,
            request_id,
            lazy_root,
            intent_id,
            watcher_generation,
            need_update,
            model,
            error,
        } => about_to_show::answer(
            state,
            registry,
            AboutToShowPending {
                window_id,
                endpoint,
                item_id,
                request_id,
                lazy_root,
                intent_id,
                watcher_generation,
            },
            need_update,
            model,
            error.is_some(),
        ),
        _ => false,
    }
}

#[verifier::spinoff_prover]
fn reduce_interaction(state: &mut State, event: Event, registry: &MenuRegistry) -> (dirty: bool)
    ensures
        (Step { state: final(state).deep_view(), registry: registry.deep_view(), dirty })
            == interaction_event(old(state).deep_view(), registry.deep_view(), event),
{
    match event {
        Event::MenuRootClicked(id) => interaction::click_root(state, registry, id),
        Event::MenuNavigationStarted => interaction::start_navigation(state, registry),
        Event::KeyboardGrabAcquired { session_id } => interaction::answer_grab(
            state,
            session_id,
            KeyboardGrabState::Active,
        ),
        Event::KeyboardGrabFailed { session_id } => interaction::answer_grab(
            state,
            session_id,
            KeyboardGrabState::Failed,
        ),
        Event::MenuNavigateLeft => interaction::navigate_left(state),
        Event::MenuNavigateRight => interaction::navigate_right(state),
        Event::MenuNavigateDown => navigation::navigate_list(state, 1),
        Event::MenuNavigateUp => navigation::navigate_list(state, -1),
        Event::MenuNavigateEnter => interaction::navigate_enter(state, registry),
        Event::MenuNavigateEscape => interaction::navigate_escape(state, registry),
        Event::MenuItemActivateRequested { window_id, endpoint, item_id, .. } => {
            interaction::activate_item(state, registry, window_id, &endpoint, item_id)
        },
        Event::MenuItemHovered { path } => interaction::hover_item(state, path),
        Event::MenuClickedOutside => interaction::click_outside(state, registry),
        Event::TrayMenuOpenRequested { .. } => tray::want_tray_menu(state),
        _ => false,
    }
}

#[verifier::spinoff_prover]
fn reduce_devices(state: &mut State, event: Event) -> (dirty: bool)
    ensures
        (final(state).deep_view(), dirty) == device_event(old(state).deep_view(), event),
{
    match event {
        Event::OutputsChanged(outputs) => devices::change_outputs(state, outputs),
        Event::ClockUpdated(clock) => devices::update_clock(state, clock),
        Event::AudioSnapshotReceived(audio) => devices::report_audio(state, audio),
        Event::AudioInventoryReceived { outputs, inputs } => devices::list_audio(
            state,
            outputs,
            inputs,
        ),
        Event::AudioUnavailable => devices::lose_audio(state),
        Event::AudioPopupToggled => {
            devices::toggle_audio_popup(state);
            true
        },
        Event::AudioTrackChanged { input, .. } => devices::drag_audio(state, input),
        Event::AudioDragReleased => devices::release_audio(state),
        Event::AudioMuteToggled { .. } => state.audio_popup_open,
        Event::NetworkSnapshotReceived(network) => devices::report_network(state, network),
        Event::NetworkStatusChanged(status) => devices::report_link(state, status),
        Event::NetworkPopupProjectionChanged(network) => devices::project_popup(state, network),
        Event::NetworkConnectSavedWifi(target) => devices::may_connect(state, &target),
        Event::NetworkPopupOpenRequested => devices::want_network_popup(state),
        Event::NetworkPopupSnapshotReceived(network) => devices::fill_network_popup(
            state,
            network,
        ),
        Event::NetworkPopupSnapshotFailed => devices::fail_network_popup(state),
        Event::NetworkPopupToggled => {
            devices::toggle_network_popup(state);
            true
        },
        Event::NetworkSetWireless(enabled) => devices::want_wireless(state, enabled),
        Event::NetworkActionFinished(action) => devices::finish_network(state, action),
        Event::ActiveAiUsageChanged(usage) => devices::change_usage(state, usage),
        Event::BluetoothSnapshotReceived(bluetooth) => devices::report_bluetooth(state, bluetooth),
        Event::BluetoothUnavailable => devices::lose_bluetooth(state),
        Event::BluetoothPopupToggled => {
            devices::toggle_bluetooth_popup(state);
            true
        },
        Event::BluetoothSetPowered(powered) => devices::begin_bluetooth_action(
            state,
            BluetoothPendingAction::SetPowered(powered),
        ),
        Event::BluetoothConnectDevice(path) => devices::begin_bluetooth_action(
            state,
            BluetoothPendingAction::ConnectDevice(path),
        ),
        Event::BluetoothDisconnectDevice(path) => devices::begin_bluetooth_action(
            state,
            BluetoothPendingAction::DisconnectDevice(path),
        ),
        Event::BluetoothActionFinished(action) => devices::finish_bluetooth(state, &action),
        Event::NotificationsSnapshot(notifications) => devices::report_notifications(
            state,
            notifications,
        ),
        Event::NotificationsState {
            active,
            history,
            action_projections,
        } => devices::report_notification_state(state, active, history, action_projections),
        Event::ToggleNotificationCenter(output) => {
            devices::toggle_notification_center(state, output);
            true
        },
        Event::X11(X11Event::RandrChanged) => true,
        Event::X11(X11Event::Expose(_)) => true,
        _ => false,
    }
}

fn set_host_registered(state: &mut State)
    ensures
        final(state).deep_view() == (StateView {
            status_notifier_host_registered: true,
            ..old(state).deep_view()
        }),
{
    state.status_notifier_host_registered = true;
}

#[verifier::spinoff_prover]
fn reduce_tray(state: &mut State, event: Event) -> (dirty: bool)
    ensures
        (final(state).deep_view(), dirty) == tray_event(old(state).deep_view(), event),
{
    match event {
        Event::StatusNotifierRegistered(endpoint) => {
            tray::register_item(state, endpoint);
            false
        },
        Event::StatusNotifierUnregistered(endpoint) => tray::unregister_item(state, &endpoint),
        Event::StatusNotifierOwnerVanished(service) => tray::forget_service(state, &service),
        Event::StatusNotifierWatcherUnavailable => tray::lose_tray(state),
        Event::StatusNotifierItemUpdated(item) => tray::update_item(state, item),
        Event::StatusNotifierHostRegistered => {
            set_host_registered(state);
            false
        },
        _ => false,
    }
}

#[verifier::spinoff_prover]
fn concern_of(event: &Event) -> (r: Concern)
    ensures
        r == concern(*event),
{
    match event {
        Event::WorkspacesSnapshot(_)
        | Event::WorkspaceFocused { .. }
        | Event::WindowFocused(_)
        | Event::WindowFocusedWithApp { .. }
        | Event::PinCurrentMenuPresentation
        | Event::UnpinMenuPresentation
        | Event::ToggleMenuPresentationPin
        | Event::MenuRegistered { .. }
        | Event::GtkMenuDiscovered { .. }
        | Event::GtkMenuRemoved { .. }
        | Event::MenuUnregistered { .. }
        | Event::MenuOwnerVanished { .. } => Concern::Presentation,
        Event::MenuLoadRequested { .. }
        | Event::MenuLazyRootLayoutRequested { .. }
        | Event::MenuLazyRootLoadConvergence { .. }
        | Event::MenuLoaded { .. }
        | Event::MenuLoadFailed { .. }
        | Event::TrayMenuLoaded { .. }
        | Event::TrayMenuLoadFailed { .. }
        | Event::MenuWatcherReady { .. }
        | Event::MenuPropertiesUpdated { .. }
        | Event::MenuAboutToShowRequested { .. }
        | Event::MenuAboutToShowCompleted { .. } => Concern::Loading,
        Event::MenuRootClicked(_)
        | Event::MenuNavigationStarted
        | Event::KeyboardGrabAcquired { .. }
        | Event::KeyboardGrabFailed { .. }
        | Event::MenuNavigateLeft
        | Event::MenuNavigateRight
        | Event::MenuNavigateUp
        | Event::MenuNavigateDown
        | Event::MenuNavigateEnter
        | Event::MenuNavigateEscape
        | Event::MenuItemActivateRequested { .. }
        | Event::MenuItemHovered { .. }
        | Event::MenuClickedOutside
        | Event::TrayMenuOpenRequested { .. } => Concern::Interaction,
        Event::StatusNotifierRegistered(_)
        | Event::StatusNotifierUnregistered(_)
        | Event::StatusNotifierOwnerVanished(_)
        | Event::StatusNotifierWatcherUnavailable
        | Event::StatusNotifierItemUpdated(_)
        | Event::StatusNotifierHostRegistered => Concern::Tray,
        Event::MenuLayoutInvalidated { .. }
        | Event::PassivePopupDismissRequested { .. }
        | Event::AudioSelectOutput(_)
        | Event::AudioSelectInput(_)
        | Event::AiUsagePopupToggled { .. }
        | Event::EnsureNotificationCenterOpen { .. }
        | Event::ExpandNotificationGroup(_)
        | Event::CollapseNotificationGroup(_)
        | Event::NotificationToastConsumed
        | Event::WindowAttentionChanged { .. }
        | Event::StatusNotifierActionRequested { .. }
        | Event::CalendarSnapshotUpdated(_)
        | Event::CalendarSnapshotFailed(_) => Concern::Elsewhere,
        _ => Concern::Devices,
    }
}

/// Takes an event into the state and the registry, and returns whether the bar has to be drawn
/// anew.
#[verifier::spinoff_prover]
pub fn reduce(state: &mut State, event: Event, registry: &mut MenuRegistry) -> (dirty: bool)
    ensures
        (Step {
            state: final(state).deep_view(),
            registry: final(registry).deep_view(),
            dirty,
        }) == reduced(old(state).deep_view(), old(registry).deep_view(), event),
        laws::one_popup(old(state).deep_view()) && !laws::fills_behind_popup(
            old(state).deep_view(),
            event,
        ) ==> laws::one_popup(final(state).deep_view()),
        old(state).deep_view().network_status_authoritative
            ==> final(state).deep_view().network_status_authoritative,
{
    proof {
        let (s, r) = (state.deep_view(), registry.deep_view());
        if laws::one_popup(s) && !laws::fills_behind_popup(s, event) {
            laws::lemma_one_popup(s, r, event);
        }
        if s.network_status_authoritative {
            laws::lemma_link_stays_authoritative(s, r, event);
        }
    }
    match concern_of(&event) {
        Concern::Presentation => reduce_presentation(state, event, registry),
        Concern::Loading => reduce_loading(state, event, registry),
        Concern::Interaction => reduce_interaction(state, event, registry),
        Concern::Devices => reduce_devices(state, event),
        Concern::Tray => reduce_tray(state, event),
        Concern::Elsewhere => false,
    }
}

} // verus!
