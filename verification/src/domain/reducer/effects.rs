//! What the bar knows and shows after single events.
use vstd::prelude::*;

use crate::domain::event::Event;
use crate::domain::menu;
use crate::domain::menu::{
    MenuEndpoint, MenuItemId, MenuModel, MenuModelView, MenuRegistryView, MenuSource,
    MenuSourceView,
};
use crate::domain::reducer;
use crate::domain::reducer::{devices, focus, loading, navigation};
use crate::domain::state::{
    BluetoothDeviceView, BluetoothPendingActionView, BluetoothStateView, MenuPresentationPolicyView,
    MenuStateView, NetworkAccessPointView, NetworkConnectivity, NetworkLinkKind,
    NetworkPendingAction, NetworkStateView, NetworkWifiTarget, OutputId, OutputState, OutputStateView,
    StateView, WindowId, WorkspaceStateView,
};
use crate::domain::status_notifier;
use crate::domain::status_notifier::{
    StatusNotifierEndpoint, StatusNotifierItem, StatusNotifierItemView,
};
use crate::domain::usage;
use crate::domain::usage::{ActiveAgentUsage, PluginSummaryView};
use crate::seqs;

verus! {

/// Whether a state holds what an event reports of sound, Bluetooth, the clock and notifications.
pub open spec fn holds_report(before: StateView, after: StateView, event: Event) -> bool {
    match event {
        Event::OutputsChanged(outputs) => after.outputs == outputs.deep_view(),
        Event::ClockUpdated(clock) => after.clock == Some(clock),
        Event::AudioSnapshotReceived(audio) => after.audio == audio.deep_view(),
        Event::AudioInventoryReceived { outputs, inputs } => {
            &&& after.audio.outputs == outputs.deep_view()
            &&& after.audio.inputs == inputs.deep_view()
            &&& after.audio.muted == before.audio.muted
            &&& after.audio.volume_percent == before.audio.volume_percent
            &&& after.audio.default_output == before.audio.default_output
            &&& after.audio.default_input == before.audio.default_input
        },
        Event::AudioUnavailable => {
            &&& !after.audio.available
            &&& after.audio.outputs.len() == 0
            &&& !after.audio_popup_open
            &&& !after.audio_dragging
        },
        Event::BluetoothSnapshotReceived(bluetooth) => after.bluetooth == bluetooth.deep_view(),
        Event::BluetoothUnavailable => {
            &&& !after.bluetooth.available
            &&& after.bluetooth.devices.len() == 0
            &&& after.bluetooth_pending.len() == 0
            &&& !after.bluetooth_popup_open
        },
        Event::NotificationsSnapshot(notifications) => {
            &&& after.notifications == notifications.deep_view()
            &&& after.notification_history == before.notification_history
        },
        Event::NotificationsState { active, history, action_projections } => {
            &&& after.notifications == active.deep_view()
            &&& after.notification_history == history.deep_view()
            &&& after.notification_action_projections == action_projections.deep_view()
        },
        _ => true,
    }
}

/// What is reported of sound, Bluetooth, the clock and notifications is what is known afterwards.
pub proof fn lemma_reports_are_held(s: StateView, r: MenuRegistryView, event: Event)
    requires
        reducer::concern(event) is Devices,
    ensures
        holds_report(s, reducer::step(s, r, event).state, event),
{
    reducer::lemma_is_device(s, r, event);
}

/// A report of the clock, of sound or of notifications has the bar drawn anew exactly where it changes
/// what is known.
pub proof fn lemma_changes_are_drawn(s: StateView, r: MenuRegistryView, event: Event)
    requires
        event is ClockUpdated || event is AudioSnapshotReceived || event is AudioInventoryReceived
            || event is NotificationsSnapshot || event is NotificationsState,
    ensures
        ({
            let taken = reducer::step(s, r, event);
            taken.dirty == !(taken.state.clock == s.clock && taken.state.audio == s.audio
                && taken.state.notifications == s.notifications && taken.state.notification_history
                == s.notification_history && taken.state.notification_action_projections
                == s.notification_action_projections)
        }),
{
    reducer::lemma_is_device(s, r, event);
    if let Event::AudioInventoryReceived { outputs, inputs } = event {
        let after = devices::audio_listed(s, outputs.deep_view(), inputs.deep_view()).0;
        assert(after.audio.outputs == outputs.deep_view());
        assert(after.audio.inputs == inputs.deep_view());
        if s.audio.outputs == outputs.deep_view() && s.audio.inputs == inputs.deep_view() {
            assert(after.audio == s.audio);
        }
    }
}

/// What the Wi-Fi link reports is shown of the network: whether it is there and connected, its name,
/// its interface and its signal. What else is known of the network stays.
pub proof fn lemma_link_is_shown(s: StateView, r: MenuRegistryView, event: Event)
    requires
        event is NetworkStatusChanged,
    ensures
        ({
            let status = event->NetworkStatusChanged_0.deep_view();
            let after = reducer::step(s, r, event).state;
            &&& after.network_status == status
            &&& after.network_status_authoritative
            &&& after.network.available == status.available
            &&& (after.network.connectivity == NetworkConnectivity::Connected) == (status.available
                && status.connected)
            &&& (after.network.connectivity == NetworkConnectivity::Disconnected) == !(
            status.available && status.connected)
            &&& (after.network.link_kind == NetworkLinkKind::Wifi) == status.connected
            &&& after.network.interface == status.interface
            &&& after.network.display_name == status.ssid
            &&& after.network.signal_percent == status.strength
            &&& after.network.access_points == s.network.access_points
            &&& after.network.wifi_devices == s.network.wifi_devices
            &&& after.network.wireless_enabled == s.network.wireless_enabled
        }),
{
    reducer::lemma_is_device(s, r, event);
}

/// A report of the network as a whole is what is known of it, until the Wi-Fi link reports by itself;
/// the popup that waited for it opens.
pub proof fn lemma_network_is_known(s: StateView, r: MenuRegistryView, event: Event)
    requires
        !s.network_status_authoritative,
    ensures
        event matches Event::NetworkSnapshotReceived(network) ==> reducer::step(
            s,
            r,
            event,
        ).state.network == network.deep_view(),
        event matches Event::NetworkPopupSnapshotReceived(network) ==> (
        s.network_popup_open_pending ==> ({
            let taken = reducer::step(s, r, event);
            &&& taken.dirty
            &&& taken.state.network == network.deep_view()
            &&& taken.state.network_popup_open
            &&& !taken.state.network_popup_open_pending
        })),
{
    if event is NetworkSnapshotReceived || event is NetworkPopupSnapshotReceived {
        reducer::lemma_is_device(s, r, event);
    }
}

/// What the popup of the network lists is taken over from the report for it, and nothing else.
pub proof fn lemma_projection_is_listed(s: StateView, r: MenuRegistryView, event: Event)
    requires
        event is NetworkPopupProjectionChanged,
    ensures
        ({
            let network = event->NetworkPopupProjectionChanged_0.deep_view();
            let taken = reducer::step(s, r, event);
            let after = taken.state.network;
            &&& after.access_points == network.access_points
            &&& after.wifi_devices == network.wifi_devices
            &&& after.wireless_enabled == network.wireless_enabled
            &&& after.available == s.network.available
            &&& after.connectivity == s.network.connectivity
            &&& after.display_name == s.network.display_name
            &&& after.signal_percent == s.network.signal_percent
            &&& !s.network_popup_open ==> !taken.dirty
            &&& s.network_popup_open && (network.access_points != s.network.access_points
                || network.wireless_enabled != s.network.wireless_enabled) ==> taken.dirty
        }),
{
    reducer::lemma_is_device(s, r, event);
}

/// Where nothing but the signal of a connected Wi-Fi link differs, the bar is drawn anew exactly where
/// the signal is in another third.
pub proof fn lemma_signal_is_shown_in_thirds(
    s: StateView,
    r: MenuRegistryView,
    event: Event,
    before: u8,
    after: u8,
)
    requires
        event is NetworkSnapshotReceived,
        !s.network_status_authoritative,
        !s.network_popup_open,
        s.network.available,
        s.network.connectivity == NetworkConnectivity::Connected,
        s.network.link_kind == NetworkLinkKind::Wifi,
        s.network.signal_percent == Some(before),
        event->NetworkSnapshotReceived_0.deep_view() == (NetworkStateView {
            signal_percent: Some(after),
            ..s.network
        }),
    ensures
        reducer::step(s, r, event).dirty == ((before > 33) != (after > 33) || (before > 66) != (after
            > 66)),
{
    reducer::lemma_is_device(s, r, event);
    let network = NetworkStateView { signal_percent: Some(after), ..s.network };
    if s.network == network {
        assert(s.network.signal_percent == network.signal_percent);
    }
}

/// A popup that is toggled is open afterwards exactly where it was not.
pub proof fn lemma_popups_toggle(s: StateView, r: MenuRegistryView)
    ensures
        ({
            let taken = reducer::step(s, r, Event::AudioPopupToggled);
            taken.dirty && taken.state.audio_popup_open != s.audio_popup_open
        }),
        ({
            let taken = reducer::step(s, r, Event::BluetoothPopupToggled);
            taken.dirty && taken.state.bluetooth_popup_open != s.bluetooth_popup_open
        }),
        ({
            let taken = reducer::step(s, r, Event::NetworkPopupToggled);
            taken.dirty && taken.state.network_popup_open != s.network_popup_open
        }),
{
    reducer::lemma_is_device(s, r, Event::AudioPopupToggled);
    reducer::lemma_is_device(s, r, Event::BluetoothPopupToggled);
    reducer::lemma_is_device(s, r, Event::NetworkPopupToggled);
}

/// The network popup that is wanted opens at once where the Wi-Fi link reports by itself, and waits for
/// a report otherwise; a report that fails ends the waiting.
pub proof fn lemma_network_popup_waits(s: StateView, r: MenuRegistryView)
    requires
        !s.network_popup_open,
        !s.network_popup_open_pending,
    ensures
        ({
            let taken = reducer::step(s, r, Event::NetworkPopupOpenRequested);
            let failed = reducer::step(taken.state, r, Event::NetworkPopupSnapshotFailed);
            &&& taken.dirty
            &&& taken.state.network_popup_open == s.network_status_authoritative
            &&& taken.state.network_popup_open_pending == !s.network_status_authoritative
            &&& !failed.state.network_popup_open_pending
            &&& failed.dirty == !s.network_status_authoritative
        }),
{
    reducer::lemma_is_device(s, r, Event::NetworkPopupOpenRequested);
    let waiting = reducer::step(s, r, Event::NetworkPopupOpenRequested).state;
    reducer::lemma_is_device(waiting, r, Event::NetworkPopupSnapshotFailed);
}

/// The notification center opens on the output that is asked for, moves there from another one, and
/// closes where it is open there already.
pub proof fn lemma_notification_center_toggles(s: StateView, r: MenuRegistryView, output: OutputId)
    ensures
        ({
            let once = reducer::step(s, r, Event::ToggleNotificationCenter(output)).state;
            let twice = reducer::step(once, r, Event::ToggleNotificationCenter(output)).state;
            &&& s.notification_center_open != Some(output) ==> once.notification_center_open == Some(
                output,
            ) && twice.notification_center_open is None
            &&& s.notification_center_open == Some(output) ==> once.notification_center_open is None
                && twice.notification_center_open == Some(output)
        }),
{
    reducer::lemma_is_device(s, r, Event::ToggleNotificationCenter(output));
    let once = reducer::step(s, r, Event::ToggleNotificationCenter(output)).state;
    reducer::lemma_is_device(once, r, Event::ToggleNotificationCenter(output));
}

/// The slider of the output or of the input is dragged as long as it is held, and only in the open
/// popup.
pub proof fn lemma_slider_is_held(s: StateView, r: MenuRegistryView, input: bool, percent: u32)
    ensures
        ({
            let held = reducer::step(s, r, Event::AudioTrackChanged { percent, input });
            let released = reducer::step(held.state, r, Event::AudioDragReleased);
            &&& held.dirty == s.audio_popup_open
            &&& s.audio_popup_open ==> held.state.audio_dragging && held.state.audio_drag_input
                == input && released.dirty
            &&& !s.audio_popup_open ==> held.state == s
            &&& !released.state.audio_dragging
            &&& released.state.audio_popup_open == s.audio_popup_open
        }),
{
    reducer::lemma_is_device(s, r, Event::AudioTrackChanged { percent, input });
    let held = reducer::step(s, r, Event::AudioTrackChanged { percent, input }).state;
    reducer::lemma_is_device(held, r, Event::AudioDragReleased);
}

/// What is asked of the network is pending until it is answered; nothing is pending twice, and nothing
/// else stops being pending.
pub proof fn lemma_network_wish_is_pending(
    s: StateView,
    r: MenuRegistryView,
    enabled: bool,
    other: NetworkPendingAction,
)
    ensures
        ({
            let action = NetworkPendingAction::SetWireless(enabled);
            let asked = reducer::step(s, r, Event::NetworkSetWireless(enabled));
            let answered = reducer::step(asked.state, r, Event::NetworkActionFinished(action));
            &&& asked.state.network_pending.contains(action)
            &&& asked.dirty == !s.network_pending.contains(action)
            &&& !asked.dirty ==> asked.state == s
            &&& answered.dirty
            &&& !answered.state.network_pending.contains(action)
            &&& other != action ==> (answered.state.network_pending.contains(other)
                <==> s.network_pending.contains(other))
        }),
{
    let action = NetworkPendingAction::SetWireless(enabled);
    reducer::lemma_is_device(s, r, Event::NetworkSetWireless(enabled));
    let asked = reducer::step(s, r, Event::NetworkSetWireless(enabled)).state;
    reducer::lemma_is_device(asked, r, Event::NetworkActionFinished(action));
    lemma_pending(s.network_pending, action, other);
}

proof fn lemma_pending<A>(pending: Seq<A>, action: A, other: A)
    ensures
        ({
            let asked = devices::with_pending(pending, action);
            let left = devices::without_pending(asked, action);
            &&& asked.contains(action)
            &&& pending.contains(action) ==> asked == pending
            &&& !left.contains(action)
            &&& other != action ==> (left.contains(other) <==> pending.contains(other))
            &&& other != action ==> (devices::without_pending(pending, action).contains(other)
                <==> pending.contains(other))
        }),
{
    let asked = devices::with_pending(pending, action);
    let p = |a: A| a != action;
    if !pending.contains(action) {
        assert(asked[pending.len() as int] == action);
    }
    seqs::lemma_filter_members(asked, p, action);
    seqs::lemma_filter_members(asked, p, other);
    seqs::lemma_filter_members(pending, p, other);
    if pending.contains(other) && !pending.contains(action) {
        let i = choose|i: int| 0 <= i < pending.len() && pending[i] == other;
        assert(asked[i] == other);
    }
    if asked.contains(other) && other != action && !pending.contains(action) {
        let i = choose|i: int| 0 <= i < asked.len() && asked[i] == other;
        assert(pending[i] == other);
    }
}

/// The request to the Bluetooth service that an event is.
pub open spec fn bluetooth_wish(event: Event) -> Option<BluetoothPendingActionView> {
    match event {
        Event::BluetoothSetPowered(powered) => Some(
            BluetoothPendingActionView::SetPowered(powered),
        ),
        Event::BluetoothConnectDevice(path) => Some(
            BluetoothPendingActionView::ConnectDevice(path@),
        ),
        Event::BluetoothDisconnectDevice(path) => Some(
            BluetoothPendingActionView::DisconnectDevice(path@),
        ),
        _ => None,
    }
}

/// What is asked of the Bluetooth service is pending until it is answered; nothing is pending twice, and
/// nothing else stops being pending.
pub proof fn lemma_bluetooth_wish_is_pending(
    s: StateView,
    r: MenuRegistryView,
    wish: Event,
    answer: Event,
    other: BluetoothPendingActionView,
)
    requires
        bluetooth_wish(wish) is Some,
        answer matches Event::BluetoothActionFinished(action) && Some(action.deep_view())
            == bluetooth_wish(wish),
    ensures
        ({
            let action = bluetooth_wish(wish)->0;
            let asked = reducer::step(s, r, wish);
            let answered = reducer::step(asked.state, r, answer);
            &&& asked.state.bluetooth_pending.contains(action)
            &&& asked.dirty == !s.bluetooth_pending.contains(action)
            &&& !asked.dirty ==> asked.state == s
            &&& answered.dirty
            &&& !answered.state.bluetooth_pending.contains(action)
            &&& other != action ==> (answered.state.bluetooth_pending.contains(other)
                <==> s.bluetooth_pending.contains(other))
        }),
{
    let action = bluetooth_wish(wish)->0;
    reducer::lemma_is_device(s, r, wish);
    let asked = reducer::step(s, r, wish).state;
    reducer::lemma_is_device(asked, r, answer);
    lemma_pending(s.bluetooth_pending, action, other);
}

/// Whether two states of Bluetooth look the same on the bar: both are absent, both are off, or both are
/// on with or without a connected device.
pub open spec fn bluetooth_alike(a: BluetoothStateView, b: BluetoothStateView) -> bool {
    ||| !a.available && !b.available
    ||| a.available && b.available && !a.powered && !b.powered
    ||| a.available && b.available && a.powered && b.powered && (has_connected(a.devices)
        == has_connected(b.devices))
}

/// Whether a device is connected.
pub open spec fn has_connected(devices: Seq<BluetoothDeviceView>) -> bool {
    exists|i: int| 0 <= i < devices.len() && (#[trigger] devices[i]).connected
}

/// With the popup closed, a report of Bluetooth has the bar drawn anew exactly where it looks different.
pub proof fn lemma_bluetooth_is_drawn(s: StateView, r: MenuRegistryView, event: Event)
    requires
        event is BluetoothSnapshotReceived,
        !s.bluetooth_popup_open,
    ensures
        reducer::step(s, r, event).dirty == !bluetooth_alike(
            s.bluetooth,
            event->BluetoothSnapshotReceived_0.deep_view(),
        ),
{
    reducer::lemma_is_device(s, r, event);
    let after = event->BluetoothSnapshotReceived_0.deep_view();
    lemma_any_connected(s.bluetooth.devices);
    lemma_any_connected(after.devices);
}

proof fn lemma_any_connected(devices: Seq<BluetoothDeviceView>)
    ensures
        seqs::any_in(devices, |d: BluetoothDeviceView| d.connected) == has_connected(devices),
{
    let p = |d: BluetoothDeviceView| d.connected;
    if has_connected(devices) {
        let i = choose|i: int| 0 <= i < devices.len() && (#[trigger] devices[i]).connected;
        assert(p(devices[i]));
    }
    if seqs::any_in(devices, p) {
        let i = choose|i: int| 0 <= i < devices.len() && p(#[trigger] devices[i]);
        assert(devices[i].connected);
    }
}

/// A saved network is connected to where it is in reach by the interface and in the band that are asked
/// for, and is not connected already.
pub proof fn lemma_saved_network_is_connected(
    s: StateView,
    r: MenuRegistryView,
    target: NetworkWifiTarget,
)
    ensures
        ({
            let taken = reducer::step(s, r, Event::NetworkConnectSavedWifi(target));
            &&& taken.state == s
            &&& taken.dirty <==> exists|i: int|
                0 <= i < s.network.access_points.len() && is_target(
                    #[trigger] s.network.access_points[i],
                    target,
                )
        }),
{
    reducer::lemma_is_device(s, r, Event::NetworkConnectSavedWifi(target));
    let points = s.network.access_points;
    let wanted = target.deep_view();
    let p = |ap: NetworkAccessPointView| devices::serves_target(ap, wanted);
    assert forall|i: int| 0 <= i < points.len() implies #[trigger] is_target(points[i], target) == p(
        points[i],
    ) by {}
    if seqs::any_in(points, p) {
        let i = choose|i: int| 0 <= i < points.len() && p(#[trigger] points[i]);
        assert(is_target(points[i], target));
    }
    if exists|i: int| 0 <= i < points.len() && is_target(#[trigger] points[i], target) {
        let i = choose|i: int| 0 <= i < points.len() && is_target(#[trigger] points[i], target);
        assert(p(points[i]));
    }
}

/// Whether an access point is of the network, by the interface and in the band that are asked for, is
/// saved and is not connected.
pub open spec fn is_target(point: NetworkAccessPointView, target: NetworkWifiTarget) -> bool {
    &&& point.ssid == target.ssid@
    &&& point.interface == target.interface@
    &&& point.saved_profile is Some
    &&& !point.is_active
    &&& target.band@ == (if 2400 <= point.frequency <= 2500 {
        "2.4 GHz"@
    } else if 4900 <= point.frequency <= 6000 {
        "5 GHz"@
    } else {
        "unknown band"@
    })
}

/// The window that is focused is the one that is reported. Where it is another one than before and the
/// menu is neither pinned nor navigated, what is presented is the menu to show for it, which is still
/// to be loaded, and all popups close.
pub proof fn lemma_focus_is_followed(
    s: StateView,
    r: MenuRegistryView,
    window: Option<WindowId>,
)
    ensures
        ({
            let taken = reducer::step(s, r, Event::WindowFocused(window));
            let after = taken.state;
            &&& after.focused_window == window
            &&& s.focused_window != window ==> {
                &&& taken.dirty
                &&& !after.audio_popup_open
                &&& !after.bluetooth_popup_open
                &&& !after.network_popup_open
            }
            &&& s.focused_window != window && s.menu_presentation_policy
                == MenuPresentationPolicyView::FollowFocus && s.menu_navigation is None ==> {
                &&& after.menu == MenuStateView::NoMenu
                &&& after.menu_interaction.open_root is None
                &&& match after.menu_presentation {
                    Some(presented) => window == Some(presented.window_id) && menu::active_source(
                        r,
                        window,
                    ) == Some(presented.endpoint),
                    None => menu::active_source(r, window) is None,
                }
            }
        }),
{
    reducer::lemma_is_presentation(s, r, Event::WindowFocused(window));
}

/// The focused workspace is the one that is reported. Where it is another one than before, it is among
/// the workspaces, and is the only one that is marked.
pub proof fn lemma_workspace_is_marked(s: StateView, r: MenuRegistryView, name: Option<String>)
    ensures
        ({
            let after = reducer::step(s, r, Event::WorkspaceFocused { name }).state;
            &&& after.focused_workspace == name.deep_view()
            &&& s.focused_workspace != name.deep_view() ==> {
                &&& forall|i: int|
                    0 <= i < after.workspaces.len() ==> (#[trigger] after.workspaces[i]).focused == (
                    Some(after.workspaces[i].name) == name.deep_view())
                &&& name matches Some(n) ==> exists|i: int|
                    0 <= i < after.workspaces.len() && (#[trigger] after.workspaces[i]).name == n@
                &&& forall|i: int|
                    0 <= i < s.workspaces.len() ==> i < after.workspaces.len() && (
                    #[trigger] after.workspaces[i]).name == s.workspaces[i].name
                        && after.workspaces[i].output == s.workspaces[i].output
            }
        }),
{
    reducer::lemma_is_presentation(s, r, Event::WorkspaceFocused { name });
    if s.focused_workspace != name.deep_view() {
        lemma_workspace(s, name);
    }
}

proof fn lemma_workspace(s: StateView, name: Option<String>)
    requires
        s.focused_workspace != name.deep_view(),
    ensures
        ({
            let after = focus::workspace_focused(s, name.deep_view()).0;
            &&& forall|i: int|
                0 <= i < after.workspaces.len() ==> (#[trigger] after.workspaces[i]).focused == (Some(
                    after.workspaces[i].name,
                ) == name.deep_view())
            &&& name matches Some(n) ==> exists|i: int|
                0 <= i < after.workspaces.len() && (#[trigger] after.workspaces[i]).name == n@
            &&& forall|i: int|
                0 <= i < s.workspaces.len() ==> i < after.workspaces.len() && (
                #[trigger] after.workspaces[i]).name == s.workspaces[i].name
                    && after.workspaces[i].output == s.workspaces[i].output
        }),
{
    let with = focus::with_workspace(s.workspaces, name.deep_view());
    let marked = focus::with_mark(with, name.deep_view());
    let after = focus::workspace_focused(s, name.deep_view()).0;
    assert(after.workspaces == marked);
    if name is Some {
        let n = (name->0)@;
        let p = |w: WorkspaceStateView| w.name == n;
        if seqs::any_in(s.workspaces, p) {
            let i = choose|i: int| 0 <= i < s.workspaces.len() && p(#[trigger] s.workspaces[i]);
            assert(marked[i].name == n);
        } else {
            assert(marked[s.workspaces.len() as int].name == n);
        }
    }
}

proof fn lemma_is_pin(s: StateView, r: MenuRegistryView)
    ensures
        reducer::step(s, r, Event::ToggleMenuPresentationPin) == reducer::state_step(
            r,
            focus::pin_toggled(s, r),
        ),
{
    reducer::lemma_is_presentation(s, r, Event::ToggleMenuPresentationPin);
}

/// A menu that is not pinned is pinned to the focused workspace as it is, where both are there.
pub proof fn lemma_pin_is_set(s: StateView, r: MenuRegistryView)
    requires
        s.menu_presentation_policy == MenuPresentationPolicyView::FollowFocus,
    ensures
        ({
            let pinned = reducer::step(s, r, Event::ToggleMenuPresentationPin);
            &&& pinned.dirty ==> {
                &&& s.focused_workspace matches Some(workspace)
                    && pinned.state.menu_presentation_policy == (MenuPresentationPolicyView::Pinned {
                    workspace,
                })
                &&& pinned.state.menu_presentation == s.menu_presentation
                &&& pinned.state.menu == s.menu
            }
            &&& !pinned.dirty ==> pinned.state == s
            &&& pinned.dirty <==> {
                &&& s.focused_workspace matches Some(workspace) && workspace.len() > 0
                &&& s.menu_presentation matches Some(presented) && menu::active_source(
                    r,
                    Some(presented.window_id),
                ) == Some(presented.endpoint)
            }
        }),
{
    lemma_is_pin(s, r);
}

/// A menu that is pinned is released, and then the menu to show for the focused window is presented.
pub proof fn lemma_pin_is_released(s: StateView, r: MenuRegistryView)
    requires
        s.menu_presentation_policy != MenuPresentationPolicyView::FollowFocus,
    ensures
        ({
            let released = reducer::step(s, r, Event::ToggleMenuPresentationPin);
            &&& released.dirty
            &&& released.state.menu_presentation_policy == MenuPresentationPolicyView::FollowFocus
            &&& released.state.menu_navigation is None
            &&& released.state.focused_window == s.focused_window
            &&& match released.state.menu_presentation {
                Some(presented) => s.focused_window == Some(presented.window_id)
                    && menu::active_source(r, s.focused_window) == Some(presented.endpoint),
                None => menu::active_source(r, s.focused_window) is None,
            }
        }),
{
    lemma_is_pin(s, r);
}

/// A menu that is registered for the focused window is presented, unless another one is pinned, and is
/// still to be loaded.
pub proof fn lemma_registered_menu_is_presented(
    s: StateView,
    r: MenuRegistryView,
    window_id: WindowId,
    endpoint: MenuEndpoint,
)
    requires
        s.menu_presentation_policy == MenuPresentationPolicyView::FollowFocus,
        s.focused_window == Some(window_id),
    ensures
        ({
            let source = MenuSource::DbusMenu(endpoint);
            let taken = reducer::step(s, r, Event::MenuRegistered { window_id, endpoint: source });
            let shown = MenuSourceView::DbusMenu(endpoint.deep_view());
            &&& taken.dirty
            &&& menu::active_source(taken.registry, Some(window_id)) == Some(shown)
            &&& taken.state.menu_presentation matches Some(presented) && presented.window_id
                == window_id && presented.endpoint == shown
            &&& taken.state.menu == MenuStateView::NoMenu
        }),
{
    let source = MenuSource::DbusMenu(endpoint);
    reducer::lemma_is_presentation(s, r, Event::MenuRegistered { window_id, endpoint: source });
}

/// Whether the menu of a window is presented, and is the one to show for the window.
pub open spec fn is_presented(
    s: StateView,
    r: MenuRegistryView,
    window_id: WindowId,
    endpoint: MenuSourceView,
) -> bool {
    &&& s.menu_presentation matches Some(presented) && presented.window_id == window_id
        && presented.endpoint == endpoint
    &&& menu::active_source(r, Some(window_id)) == Some(endpoint)
}

proof fn lemma_normalized_keeps_menu(s: StateView)
    ensures
        navigation::normalized(s).menu == s.menu,
        navigation::normalized(s).global_menu_model == s.global_menu_model,
{
    reveal(navigation::normalized);
}

/// The menu of a presented window that is asked for is loaded with the model that comes in answer.
pub proof fn lemma_menu_is_loaded(
    s: StateView,
    r: MenuRegistryView,
    window_id: WindowId,
    endpoint: MenuEndpoint,
    request_id: u64,
    model: MenuModel,
)
    requires
        is_presented(s, r, window_id, MenuSourceView::DbusMenu(endpoint.deep_view())),
    ensures
        ({
            let source = MenuSource::DbusMenu(endpoint);
            let shown = MenuSourceView::DbusMenu(endpoint.deep_view());
            let asked = reducer::step(
                s,
                r,
                Event::MenuLoadRequested { window_id, endpoint: source, request_id },
            );
            let loaded = reducer::step(
                asked.state,
                r,
                Event::MenuLoaded { window_id, endpoint: source, request_id, model },
            );
            &&& asked.dirty
            &&& asked.state.menu == (MenuStateView::Loading { window_id, endpoint: shown, request_id })
            &&& loaded.dirty
            &&& loaded.state.menu == (MenuStateView::Loaded {
                window_id,
                endpoint: shown,
                model: model.deep_view(),
            })
            &&& loaded.state.global_menu_model == Some((window_id, shown, model.deep_view()))
            &&& loaded.state.menu_presentation == s.menu_presentation
        }),
{
    let source = MenuSource::DbusMenu(endpoint);
    let shown = MenuSourceView::DbusMenu(endpoint.deep_view());
    let ask = Event::MenuLoadRequested { window_id, endpoint: source, request_id };
    reducer::lemma_is_loading(s, r, ask);
    let asked = reducer::step(s, r, ask).state;
    assert(asked == loading::load_requested(s, r, window_id, shown, request_id).0);
    let load = Event::MenuLoaded { window_id, endpoint: source, request_id, model };
    reducer::lemma_is_loading(asked, r, load);
    lemma_loaded(asked, r, window_id, shown, request_id, model.deep_view());
}

proof fn lemma_loaded(
    s: StateView,
    r: MenuRegistryView,
    window_id: WindowId,
    endpoint: MenuSourceView,
    request_id: u64,
    model: MenuModelView,
)
    requires
        is_presented(s, r, window_id, endpoint),
        endpoint !is Tray,
        s.menu == (MenuStateView::Loading { window_id, endpoint, request_id }),
    ensures
        ({
            let loaded = loading::menu_loaded(s, r, window_id, endpoint, request_id, model);
            &&& loaded.1
            &&& loaded.0.menu == (MenuStateView::Loaded { window_id, endpoint, model })
            &&& loaded.0.global_menu_model == Some((window_id, endpoint, model))
            &&& loaded.0.menu_presentation == s.menu_presentation
        }),
{
    reveal(loading::menu_loaded);
    reveal(navigation::normalized);
    lemma_normalized_keeps_menu(loading::model_set(s, window_id, endpoint, model));
}

/// The menu of a tray item that is asked for is shown with the model that comes in answer, open from its
/// root; where the answer is an error, the error is kept and nothing is open.
pub proof fn lemma_tray_menu_is_loaded(
    s: StateView,
    r: MenuRegistryView,
    endpoint: MenuEndpoint,
    request_id: u64,
    model: MenuModel,
    error: String,
)
    requires
        s.menu == (MenuStateView::TrayLoading { endpoint: endpoint.deep_view(), request_id }),
    ensures
        ({
            let loaded = reducer::step(s, r, Event::TrayMenuLoaded { endpoint, request_id, model });
            let failed = reducer::step(
                s,
                r,
                Event::TrayMenuLoadFailed { endpoint, request_id, error },
            );
            &&& loaded.dirty
            &&& loaded.state.menu == (MenuStateView::TrayLoaded {
                endpoint: endpoint.deep_view(),
                model: model.deep_view(),
            })
            &&& loaded.state.menu_interaction.open_root == Some(MenuItemId(0))
            &&& loaded.state.menu_interaction.open_path == seq![MenuItemId(0)]
            &&& failed.dirty
            &&& failed.state.menu == (MenuStateView::TrayError {
                endpoint: endpoint.deep_view(),
                request_id,
                error: error@,
            })
            &&& failed.state.menu_interaction.open_root is None
        }),
{
    reducer::lemma_is_loading(s, r, Event::TrayMenuLoaded { endpoint, request_id, model });
    reducer::lemma_is_loading(s, r, Event::TrayMenuLoadFailed { endpoint, request_id, error });
}

/// The watcher of a menu is known by its generation once it is ready; the watchers of other menus stay.
pub proof fn lemma_watcher_is_known(
    s: StateView,
    r: MenuRegistryView,
    endpoint: MenuSource,
    watcher_generation: u64,
    request_id: u64,
    other: MenuSourceView,
)
    ensures
        ({
            let ready = Event::MenuWatcherReady { endpoint, watcher_generation, request_id };
            let known = reducer::step(s, r, ready).state.watcher_generations;
            &&& known.contains_key(endpoint.deep_view())
            &&& known[endpoint.deep_view()] == watcher_generation
            &&& other != endpoint.deep_view() ==> (known.contains_key(other)
                <==> s.watcher_generations.contains_key(other)) && (known.contains_key(other)
                ==> known[other] == s.watcher_generations[other])
        }),
{
    let ready = Event::MenuWatcherReady { endpoint, watcher_generation, request_id };
    reducer::lemma_is_loading(s, r, ready);
    lemma_watcher(s, r, endpoint.deep_view(), watcher_generation);
}

proof fn lemma_watcher(
    s: StateView,
    r: MenuRegistryView,
    endpoint: MenuSourceView,
    watcher_generation: u64,
)
    ensures
        loading::watcher_ready(s, r, endpoint, watcher_generation).watcher_generations
            == s.watcher_generations.insert(endpoint, watcher_generation),
{
    reveal(loading::watcher_ready);
}

/// A tray item that is reported is the one that is kept for its endpoint, and the items of other
/// endpoints stay.
pub proof fn lemma_tray_item_is_kept(
    s: StateView,
    r: MenuRegistryView,
    item: StatusNotifierItem,
    other: StatusNotifierItemView,
)
    ensures
        ({
            let items = reducer::step(
                s,
                r,
                Event::StatusNotifierItemUpdated(item),
            ).state.status_notifier_items;
            &&& items.contains(item.deep_view())
            &&& other.endpoint != item.deep_view().endpoint ==> (items.contains(other)
                <==> s.status_notifier_items.contains(other))
            &&& status_notifier::one_item_per_endpoint(s.status_notifier_items)
                ==> status_notifier::one_item_per_endpoint(items)
        }),
{
    reducer::lemma_is_tray(s, r, Event::StatusNotifierItemUpdated(item));
    status_notifier::lemma_upsert_keeps_others(
        s.status_notifier_items,
        item.deep_view(),
        other,
    );
    if status_notifier::one_item_per_endpoint(s.status_notifier_items) {
        status_notifier::lemma_upsert_unique(s.status_notifier_items, item.deep_view());
    }
}

/// A tray item that is registered is listed, and one that is unregistered is neither listed nor shown
/// any more; the others stay.
pub proof fn lemma_tray_item_comes_and_goes(
    s: StateView,
    r: MenuRegistryView,
    endpoint: StatusNotifierEndpoint,
    other: StatusNotifierItemView,
)
    requires
        s.status_notifiers.no_duplicates(),
        status_notifier::one_item_per_endpoint(s.status_notifier_items),
    ensures
        ({
            let come = reducer::step(s, r, Event::StatusNotifierRegistered(endpoint)).state;
            let gone = reducer::step(s, r, Event::StatusNotifierUnregistered(endpoint));
            let after = gone.state;
            &&& come.status_notifiers.contains(endpoint.deep_view())
            &&& !after.status_notifiers.contains(endpoint.deep_view())
            &&& forall|i: int|
                0 <= i < after.status_notifier_items.len() ==> (
                #[trigger] after.status_notifier_items[i]).endpoint != endpoint.deep_view()
            &&& other.endpoint != endpoint.deep_view() ==> (after.status_notifier_items.contains(
                other,
            ) <==> s.status_notifier_items.contains(other))
            &&& gone.dirty == (after.status_notifier_items.len() < s.status_notifier_items.len())
        }),
{
    reducer::lemma_is_tray(s, r, Event::StatusNotifierRegistered(endpoint));
    reducer::lemma_is_tray(s, r, Event::StatusNotifierUnregistered(endpoint));
    let e = endpoint.deep_view();
    if !s.status_notifiers.contains(e) {
        assert(s.status_notifiers.push(e)[s.status_notifiers.len() as int] == e);
    }
    status_notifier::lemma_unregistered_is_gone(s.status_notifiers, e);
    status_notifier::lemma_removed_is_gone(s.status_notifier_items, e, other);
}

/// Whether two states of the network look the same on the bar: both are without a connection, both are
/// on a cable, or both have a signal in one third.
pub open spec fn network_alike(a: NetworkStateView, b: NetworkStateView) -> bool {
    let on = |n: NetworkStateView|
        n.available && n.connectivity != NetworkConnectivity::Disconnected;
    let cable = |n: NetworkStateView| on(n) && n.link_kind == NetworkLinkKind::Ethernet;
    let above = |n: NetworkStateView, percent: u8|
        n.signal_percent matches Some(signal) && signal > percent;
    &&& on(a) == on(b)
    &&& cable(a) == cable(b)
    &&& on(a) && !cable(a) ==> above(a, 33) == above(b, 33) && above(a, 66) == above(b, 66)
}

/// A report of the Wi-Fi link has the bar drawn anew exactly where it is news and the network looks
/// different with it.
pub proof fn lemma_link_is_drawn(s: StateView, r: MenuRegistryView, event: Event)
    requires
        event is NetworkStatusChanged,
    ensures
        ({
            let taken = reducer::step(s, r, event);
            taken.dirty <==> s.network_status != taken.state.network_status && !network_alike(
                s.network,
                taken.state.network,
            )
        }),
{
    reducer::lemma_is_device(s, r, event);
}

/// The notification center stays open as long as its output is there, and closes with it.
pub proof fn lemma_center_goes_with_output(
    s: StateView,
    r: MenuRegistryView,
    outputs: Vec<OutputState>,
    open: OutputId,
)
    requires
        s.notification_center_open == Some(open),
        s.outputs != outputs.deep_view(),
    ensures
        ({
            let after = reducer::step(s, r, Event::OutputsChanged(outputs)).state;
            let there = exists|i: int|
                0 <= i < outputs.deep_view().len() && (#[trigger] outputs.deep_view()[i]).id == open;
            &&& there ==> after.notification_center_open == Some(open)
            &&& !there ==> after.notification_center_open is None
        }),
{
    reducer::lemma_is_device(s, r, Event::OutputsChanged(outputs));
    let all = outputs.deep_view();
    let p = |o: OutputStateView| o.id == open;
    if exists|i: int| 0 <= i < all.len() && (#[trigger] all[i]).id == open {
        let i = choose|i: int| 0 <= i < all.len() && (#[trigger] all[i]).id == open;
        assert(p(all[i]));
    }
    if seqs::any_in(all, p) {
        let i = choose|i: int| 0 <= i < all.len() && p(#[trigger] all[i]);
        assert(all[i].id == open);
    }
}

/// What is reported of agents is shown by one plugin for each, in the order of the agents. The bar is
/// drawn anew exactly where the number of plugins, or the id or the text of one, is another.
pub proof fn lemma_agents_are_shown(
    s: StateView,
    r: MenuRegistryView,
    reported: Vec<ActiveAgentUsage>,
)
    ensures
        ({
            let taken = reducer::step(s, r, Event::ActiveAiUsageChanged(reported));
            let agents = taken.state.ai_usage;
            let before = s.plugin_zone.plugins;
            let plugins = taken.state.plugin_zone.plugins;
            &&& agents == usage::canonical_order(reported.deep_view())
            &&& plugins.len() == agents.len()
            &&& forall|i: int|
                0 <= i < agents.len() ==> (#[trigger] plugins[i]).display_name
                    == agents[i].display_name && plugins[i] == usage::summary_of(agents[i])
            &&& taken.dirty <==> before.len() != plugins.len() || exists|i: int|
                0 <= i < plugins.len() && ((#[trigger] plugins[i]).id != before[i].id
                    || plugins[i].text != before[i].text)
        }),
{
    let event = Event::ActiveAiUsageChanged(reported);
    reducer::lemma_is_device(s, r, event);
    let taken = reducer::step(s, r, event);
    let plugins = taken.state.plugin_zone.plugins;
    lemma_keys_differ(s.plugin_zone.plugins, plugins);
}

proof fn lemma_keys_differ(before: Seq<PluginSummaryView>, after: Seq<PluginSummaryView>)
    ensures
        usage::visual_keys(before) != usage::visual_keys(after) <==> before.len() != after.len()
            || exists|i: int|
            0 <= i < after.len() && ((#[trigger] after[i]).id != before[i].id || after[i].text
                != before[i].text),
{
    let (a, b) = (usage::visual_keys(before), usage::visual_keys(after));
    if before.len() == after.len() {
        if exists|i: int|
            0 <= i < after.len() && ((#[trigger] after[i]).id != before[i].id || after[i].text
                != before[i].text) {
            let i = choose|i: int|
                0 <= i < after.len() && ((#[trigger] after[i]).id != before[i].id || after[i].text
                    != before[i].text);
            assert(a[i] != b[i]);
        } else {
            assert forall|i: int| 0 <= i < a.len() implies a[i] == b[i] by {
                assert(after[i].id == before[i].id);
            }
            assert(a =~= b);
        }
    } else {
        assert(a.len() != b.len());
    }
}

} // verus!
