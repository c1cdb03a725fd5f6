//! What single events come to, from reports that say nothing new to clicks beside everything.
use vstd::prelude::*;

use crate::domain::event::Event;
use crate::domain::menu;
use crate::domain::menu::{MenuRegistryView, MenuSourceView};
use crate::domain::reducer;
use crate::domain::reducer::{devices, interaction, laws, loading, presentation, tray};
use crate::domain::state::{MenuStateView, StateView, WindowId};
use crate::domain::status_notifier::{StatusNotifierEndpointView, StatusNotifierItemView};
use crate::seqs;

verus! {

/// Whether an event reports how things are, so that it says nothing new when it comes again.
pub open spec fn is_report(event: Event) -> bool {
    match event {
        Event::WindowFocused(_) => true,
        Event::WindowFocusedWithApp { .. } => true,
        Event::WorkspaceFocused { .. } => true,
        Event::OutputsChanged(_) => true,
        Event::ClockUpdated(_) => true,
        Event::AudioSnapshotReceived(_) => true,
        Event::AudioInventoryReceived { .. } => true,
        Event::AudioUnavailable => true,
        Event::NetworkSnapshotReceived(_) => true,
        Event::NetworkStatusChanged(_) => true,
        Event::NetworkPopupProjectionChanged(_) => true,
        Event::ActiveAiUsageChanged(_) => true,
        Event::BluetoothSnapshotReceived(_) => true,
        Event::BluetoothUnavailable => true,
        Event::NotificationsSnapshot(_) => true,
        Event::NotificationsState { .. } => true,
        _ => false,
    }
}

/// Two states are one.
pub open spec fn unchanged(before: StateView, after: StateView) -> bool {
    after == before
}

#[verifier::spinoff_prover]
proof fn lemma_repeated_focus(s: StateView, r: MenuRegistryView, event: Event)
    requires
        is_report(event),
    ensures
        ({
            let first = reducer::presentation_event(s, r, event);
            let again = reducer::presentation_event(first.state, r, event);
            &&& !again.dirty
            &&& unchanged(first.state, again.state)
            &&& first.registry == r
            &&& again.registry == r
        }),
{
}

/// What a report that comes again comes to.
pub open spec fn quiet_again(s: StateView, event: Event) -> bool {
    let first = reducer::device_event(s, event).0;
    let again = reducer::device_event(first, event);
    !again.1 && unchanged(first, again.0)
}

#[verifier::spinoff_prover]
proof fn lemma_repeated_sound(s: StateView, event: Event)
    requires
        event is AudioSnapshotReceived || event is AudioInventoryReceived || event is AudioUnavailable || event is ClockUpdated,
    ensures
        quiet_again(s, event),
{
}

#[verifier::spinoff_prover]
proof fn lemma_repeated_link(s: StateView, event: Event)
    requires
        event is NetworkStatusChanged,
    ensures
        quiet_again(s, event),
{
    let status = event->NetworkStatusChanged_0.deep_view();
    let first = devices::link_reported(s, status).0;
    assert(devices::with_link(first.network, status) == first.network);
}

#[verifier::spinoff_prover]
proof fn lemma_repeated_network(s: StateView, event: Event)
    requires
        event is NetworkSnapshotReceived || event is NetworkPopupProjectionChanged,
    ensures
        quiet_again(s, event),
{
}

#[verifier::spinoff_prover]
proof fn lemma_repeated_outputs(s: StateView, event: Event)
    requires
        event is OutputsChanged,
    ensures
        quiet_again(s, event),
{
}

#[verifier::spinoff_prover]
proof fn lemma_repeated_others(s: StateView, event: Event)
    requires
        event is ActiveAiUsageChanged || event is BluetoothSnapshotReceived || event is BluetoothUnavailable || event is NotificationsSnapshot || event is NotificationsState,
    ensures
        quiet_again(s, event),
{
}

#[verifier::spinoff_prover]
proof fn lemma_is_presentation(s: StateView, r: MenuRegistryView, event: Event)
    requires
        reducer::concern(event) is Presentation,
    ensures
        reducer::reduced(s, r, event) == reducer::presentation_event(s, r, event),
{
}

#[verifier::spinoff_prover]
proof fn lemma_is_device(s: StateView, r: MenuRegistryView, event: Event)
    requires
        reducer::concern(event) is Devices,
    ensures
        reducer::reduced(s, r, event) == reducer::state_step(r, reducer::device_event(s, event)),
{
}

proof fn lemma_report_concern(event: Event)
    requires
        is_report(event),
    ensures
        reducer::concern(event) is Presentation || reducer::concern(event) is Devices,
        reducer::concern(event) is Devices ==> !(event is WindowFocused || event
            is WindowFocusedWithApp || event is WorkspaceFocused),
{
}

/// A report that comes again changes nothing, neither of the state nor of the registry, and does not
/// have the bar drawn anew.
#[verifier::spinoff_prover]
pub proof fn lemma_repeated_report_is_quiet(s: StateView, r: MenuRegistryView, event: Event)
    requires
        is_report(event),
    ensures
        ({
            let first = reducer::reduced(s, r, event);
            let again = reducer::reduced(first.state, first.registry, event);
            &&& !again.dirty
            &&& again.state == first.state
            &&& again.registry == first.registry
        }),
{
    lemma_report_concern(event);
    if reducer::concern(event) is Presentation {
        let first = reducer::presentation_event(s, r, event).state;
        lemma_is_presentation(s, r, event);
        lemma_is_presentation(first, r, event);
        lemma_repeated_focus(s, r, event);
    } else {
        let first = reducer::device_event(s, event).0;
        lemma_is_device(s, r, event);
        lemma_is_device(first, r, event);
        if event is AudioSnapshotReceived || event is AudioInventoryReceived || event
            is AudioUnavailable || event is ClockUpdated {
            lemma_repeated_sound(s, event);
        } else if event is NetworkSnapshotReceived || event is NetworkPopupProjectionChanged {
            lemma_repeated_network(s, event);
        } else if event is NetworkStatusChanged {
            lemma_repeated_link(s, event);
        } else if event is OutputsChanged {
            lemma_repeated_outputs(s, event);
        } else {
            lemma_repeated_others(s, event);
        }
    }
}

/// The outcome of a load that the menu does not wait for changes nothing.
#[verifier::spinoff_prover]
pub proof fn lemma_stale_load_changes_nothing(s: StateView, r: MenuRegistryView, event: Event)
    requires
        match event {
            Event::MenuLoaded { window_id, endpoint, request_id, .. } => s.menu
                != (MenuStateView::Loading {
                window_id,
                endpoint: endpoint.deep_view(),
                request_id,
            }),
            Event::MenuLoadFailed { window_id, endpoint, request_id, .. } => s.menu
                != (MenuStateView::Loading {
                window_id,
                endpoint: endpoint.deep_view(),
                request_id,
            }),
            Event::TrayMenuLoaded { endpoint, request_id, .. } => s.menu
                != (MenuStateView::TrayLoading { endpoint: endpoint.deep_view(), request_id }),
            Event::TrayMenuLoadFailed { endpoint, request_id, .. } => s.menu
                != (MenuStateView::TrayLoading { endpoint: endpoint.deep_view(), request_id }),
            _ => false,
        },
    ensures
        reducer::reduced(s, r, event) == reducer::state_step(r, (s, false)),
{
    reveal(loading::menu_loaded);
    reveal(loading::menu_failed);
}

/// The answer to a request for the keyboard of another session than the current one changes nothing.
#[verifier::spinoff_prover]
pub proof fn lemma_stale_grab_changes_nothing(s: StateView, r: MenuRegistryView, session_id: u64)
    requires
        s.menu_navigation matches Some(session) ==> session.id != session_id,
    ensures
        reducer::reduced(s, r, Event::KeyboardGrabAcquired { session_id }) == reducer::state_step(
            r,
            (s, false),
        ),
        reducer::reduced(s, r, Event::KeyboardGrabFailed { session_id }) == reducer::state_step(
            r,
            (s, false),
        ),
{
}

/// A menu that is pinned, or that the keyboard moves through, stays where it is whichever window is
/// focused.
#[verifier::spinoff_prover]
pub proof fn lemma_held_menu_survives_focus(
    s: StateView,
    r: MenuRegistryView,
    window: Option<WindowId>,
)
    requires
        !presentation::follows_focus(s) || s.menu_navigation is Some,
    ensures
        ({
            let after = reducer::reduced(s, r, Event::WindowFocused(window)).state;
            &&& laws::presentation_kept(s, after)
            &&& laws::sources_kept(s, after)
            &&& laws::loaded_kept(s, after)
            &&& after.menu_interaction == s.menu_interaction
            &&& after.focused_window == window
        }),
{
}

/// A pinned menu is given up when another workspace is focused than the one it is pinned to.
#[verifier::spinoff_prover]
pub proof fn lemma_workspace_change_ends_pin(
    s: StateView,
    r: MenuRegistryView,
    name: Option<String>,
)
    requires
        !presentation::follows_focus(s),
        s.focused_workspace == presentation::pin(s),
        name.deep_view() != presentation::pin(s),
    ensures
        ({
            let after = reducer::reduced(s, r, Event::WorkspaceFocused { name }).state;
            &&& presentation::follows_focus(after)
            &&& after.menu_presentation is None
            &&& after.menu_navigation is None
            &&& after.menu is NoMenu
            &&& after.focused_workspace == name.deep_view()
        }),
{
}

/// Whether an event asks something of a device.
pub open spec fn is_wish(event: Event) -> bool {
    match event {
        Event::NetworkSetWireless(_) => true,
        Event::NetworkConnectSavedWifi(_) => true,
        Event::BluetoothSetPowered(_) => true,
        Event::BluetoothConnectDevice(_) => true,
        Event::BluetoothDisconnectDevice(_) => true,
        Event::AudioTrackChanged { .. } => true,
        Event::AudioMuteToggled { .. } => true,
        _ => false,
    }
}

/// What is known of devices is the same.
pub open spec fn devices_kept(before: StateView, after: StateView) -> bool {
    &&& after.network == before.network
    &&& after.network_status == before.network_status
    &&& after.bluetooth == before.bluetooth
    &&& after.audio == before.audio
}

#[verifier::spinoff_prover]
proof fn lemma_wish(s: StateView, event: Event)
    requires
        is_wish(event),
    ensures
        devices_kept(s, reducer::device_event(s, event).0),
{
}

/// What the user asks of devices is not taken for done: only their own reports change what is known of
/// them.
#[verifier::spinoff_prover]
pub proof fn lemma_wishes_are_not_reports(s: StateView, r: MenuRegistryView, event: Event)
    requires
        is_wish(event),
    ensures
        devices_kept(s, reducer::reduced(s, r, event).state),
{
    lemma_wish(s, event);
}

/// Once the Wi-Fi link reports by itself, no report of the network as a whole takes its place.
#[verifier::spinoff_prover]
pub proof fn lemma_link_report_stays(s: StateView, r: MenuRegistryView, event: Event)
    requires
        s.network_status_authoritative,
        event is NetworkSnapshotReceived || event is NetworkPopupSnapshotReceived,
    ensures
        reducer::reduced(s, r, event) == reducer::state_step(r, (s, false)),
{
}

/// The state and the registry after events, one after the other.
pub open spec fn reduced_all(s: StateView, r: MenuRegistryView, events: Seq<Event>) -> (
    StateView,
    MenuRegistryView,
)
    decreases events.len(),
{
    if events.len() == 0 {
        (s, r)
    } else {
        let before = reduced_all(s, r, events.drop_last());
        let step = reducer::reduced(before.0, before.1, events.last());
        (step.state, step.registry)
    }
}

proof fn lemma_authority_lasts(s: StateView, r: MenuRegistryView, events: Seq<Event>)
    requires
        s.network_status_authoritative,
    ensures
        reduced_all(s, r, events).0.network_status_authoritative,
    decreases events.len(),
{
    if events.len() > 0 {
        lemma_authority_lasts(s, r, events.drop_last());
        let before = reduced_all(s, r, events.drop_last());
        laws::lemma_link_stays_authoritative(before.0, before.1, events.last());
    }
}

#[verifier::spinoff_prover]
proof fn lemma_link_has_authority(s: StateView, event: Event)
    requires
        event is NetworkStatusChanged,
    ensures
        reducer::device_event(s, event).0.network_status_authoritative,
{
}

/// Once the Wi-Fi link has reported by itself, no later report of the network as a whole takes its
/// place, whatever happens in between.
#[verifier::spinoff_prover]
pub proof fn lemma_link_report_lasts(
    s: StateView,
    r: MenuRegistryView,
    report: Event,
    between: Seq<Event>,
    late: Event,
)
    requires
        report is NetworkStatusChanged,
        late is NetworkSnapshotReceived || late is NetworkPopupSnapshotReceived,
    ensures
        ({
            let first = reducer::reduced(s, r, report);
            let now = reduced_all(first.state, first.registry, between);
            let step = reducer::reduced(now.0, now.1, late);
            &&& !step.dirty
            &&& step.state == now.0
            &&& step.registry == now.1
        }),
{
    lemma_is_device(s, r, report);
    lemma_link_has_authority(s, report);
    let first = reducer::reduced(s, r, report);
    lemma_authority_lasts(first.state, first.registry, between);
    let now = reduced_all(first.state, first.registry, between);
    lemma_link_report_stays(now.0, now.1, late);
}

/// A click beside everything that is open leaves nothing open.
#[verifier::spinoff_prover]
pub proof fn lemma_click_outside_closes(s: StateView, r: MenuRegistryView)
    ensures
        ({
            let after = reducer::reduced(s, r, Event::MenuClickedOutside).state;
            &&& after.menu_interaction.open_root is None
            &&& !after.audio_popup_open
            &&& !after.bluetooth_popup_open
            &&& !after.network_popup_open
        }),
{
    reveal(interaction::clicked_outside);
}

/// Everything but the tray is the same, and but for what is loaded and open of a menu.
pub open spec fn beside_tray(before: StateView, after: StateView) -> bool {
    &&& laws::presentation_kept(before, after)
    &&& laws::sources_kept(before, after)
    &&& laws::numbers_kept(before, after)
    &&& laws::usage_kept(before, after)
    &&& devices_kept(before, after)
    &&& after.focused_window == before.focused_window
    &&& after.focused_workspace == before.focused_workspace
    &&& after.workspaces == before.workspaces
    &&& after.outputs == before.outputs
    &&& after.notifications == before.notifications
    &&& after.notification_history == before.notification_history
    &&& tray::tray_menu(before) is None ==> after.menu == before.menu && after.menu_interaction
        == before.menu_interaction
}

#[verifier::spinoff_prover]
proof fn lemma_tray_event(s: StateView, event: Event)
    ensures
        beside_tray(s, reducer::tray_event(s, event).0),
{
}

/// What happens in the tray leaves everything else alone: no menu of a window is dropped for it.
#[verifier::spinoff_prover]
pub proof fn lemma_tray_beside_menus(s: StateView, r: MenuRegistryView, event: Event)
    requires
        reducer::concern(event) is Tray,
    ensures
        beside_tray(s, reducer::reduced(s, r, event).state),
        reducer::reduced(s, r, event).registry == r,
{
    lemma_tray_event(s, event);
}

/// Once the watcher of the tray is gone, nothing is left of the tray, nor of a menu that it showed.
#[verifier::spinoff_prover]
pub proof fn lemma_lost_tray_is_empty(s: StateView, r: MenuRegistryView)
    ensures
        ({
            let after = reducer::reduced(s, r, Event::StatusNotifierWatcherUnavailable).state;
            &&& after.status_notifiers.len() == 0
            &&& after.status_notifier_items.len() == 0
            &&& !after.status_notifier_host_registered
            &&& tray::tray_menu(after) is None
        }),
{
}

/// Once a service is gone, the tray has no item of it, and keeps those of others.
#[verifier::spinoff_prover]
pub proof fn lemma_gone_service_has_no_items(s: StateView, r: MenuRegistryView, service: String)
    ensures
        ({
            let after = reducer::reduced(s, r, Event::StatusNotifierOwnerVanished(service)).state;
            &&& forall|e: StatusNotifierEndpointView| #[trigger]
                after.status_notifiers.contains(e) <==> s.status_notifiers.contains(e) && e.service
                    != service@
            &&& forall|i: StatusNotifierItemView| #[trigger]
                after.status_notifier_items.contains(i) <==> s.status_notifier_items.contains(i)
                    && i.endpoint.service != service@
            &&& !(tray::tray_menu(after) matches Some(e) && e.service == service@)
        }),
{
    let other = |e: StatusNotifierEndpointView| e.service != service@;
    let other_item = |i: StatusNotifierItemView| i.endpoint.service != service@;
    assert forall|e: StatusNotifierEndpointView| #[trigger]
        s.status_notifiers.filter(other).contains(e) <==> s.status_notifiers.contains(e)
            && e.service != service@ by {
        seqs::lemma_filter_members(s.status_notifiers, other, e);
    }
    assert forall|i: StatusNotifierItemView| #[trigger]
        s.status_notifier_items.filter(other_item).contains(i) <==> s.status_notifier_items.contains(
            i,
        ) && i.endpoint.service != service@ by {
        seqs::lemma_filter_members(s.status_notifier_items, other_item, i);
    }
}

/// Once the bus name of an application is gone, none of its menus is registered or watched.
#[verifier::spinoff_prover]
pub proof fn lemma_gone_application_has_no_menu(
    s: StateView,
    r: MenuRegistryView,
    sender: String,
    window: WindowId,
    endpoint: MenuSourceView,
)
    ensures
        ({
            let after = reducer::reduced(s, r, Event::MenuOwnerVanished { sender });
            &&& !menu::window_owned_by(after.registry, window, sender@)
            &&& after.state.watcher_generations.contains_key(endpoint) <==> (
            s.watcher_generations.contains_key(endpoint) && !loading::is_served_by(
                endpoint,
                sender@,
            ))
        }),
{
    menu::lemma_gone_owner_has_no_menu(r, sender@, window);
}

} // verus!
