//! Monitors, the clock, sound, network, Bluetooth, agents and notifications.
use vstd::prelude::*;

use crate::domain::notification::{
    Notification, NotificationActionProjection, NotificationActionProjectionView,
    NotificationHistoryEntry, NotificationHistoryEntryView, NotificationView,
};
use crate::domain::reducer::presentation;
use crate::domain::state;
use crate::domain::state::{
    AudioDevice, AudioDeviceView, AudioState, AudioStateView, BluetoothDevice,
    BluetoothDeviceView, BluetoothPendingAction, BluetoothPendingActionView, BluetoothState,
    BluetoothStateView, ClockState, NetworkAccessPoint,
    NetworkAccessPointView, NetworkConnectivity, NetworkLinkKind, NetworkPendingAction,
    NetworkState, NetworkStateView, NetworkStatus, NetworkStatusView, NetworkWifiTarget,
    NetworkWifiTargetView, OutputId, OutputState, OutputStateView, State, StateView,
};
use crate::domain::usage;
use crate::domain::usage::{ActiveAgentUsage, ActiveAgentUsageView, PluginZoneStateView};
use crate::lists;
use crate::seqs;
use crate::value;
use crate::value::Value;

verus! {

/// The monitors have been reported. A notification center on a monitor that is gone closes.
pub open spec fn outputs_changed(s: StateView, outputs: Seq<OutputStateView>) -> (StateView, bool) {
    if s.outputs == outputs {
        (s, false)
    } else {
        (
            StateView {
                outputs,
                notification_center_open: match s.notification_center_open {
                    Some(open) => if seqs::any_in(outputs, |o: OutputStateView| o.id == open) {
                        Some(open)
                    } else {
                        None
                    },
                    None => None,
                },
                ..s
            },
            true,
        )
    }
}

pub(crate) fn change_outputs(state: &mut State, outputs: Vec<OutputState>) -> (r: bool)
    ensures
        (final(state).deep_view(), r) == outputs_changed(
            old(state).deep_view(),
            outputs.deep_view(),
        ),
{
    if state.outputs.same(&outputs) {
        return false;
    }
    match state.notification_center_open {
        Some(open) => {
            let test = |o: &OutputState| -> (b: bool)
                ensures
                    b == (o.deep_view().id == open),
            {
                o.id == open
            };
            if !lists::any(&outputs, test, Ghost(|o: OutputStateView| o.id == open)) {
                state.notification_center_open = None;
            }
        },
        None => {},
    }
    state.outputs = outputs;
    true
}

/// A minute has passed.
pub open spec fn clock_updated(s: StateView, clock: ClockState) -> (StateView, bool) {
    (StateView { clock: Some(clock), ..s }, s.clock != Some(clock))
}

pub(crate) fn update_clock(state: &mut State, clock: ClockState) -> (r: bool)
    ensures
        (final(state).deep_view(), r) == clock_updated(old(state).deep_view(), clock),
{
    let changed = !state.clock.same(&Some(clock));
    state.clock = Some(clock);
    changed
}

/// The sound server has reported.
pub open spec fn audio_reported(s: StateView, audio: AudioStateView) -> (StateView, bool) {
    (StateView { audio, ..s }, s.audio != audio)
}

pub(crate) fn report_audio(state: &mut State, audio: AudioState) -> (r: bool)
    ensures
        (final(state).deep_view(), r) == audio_reported(old(state).deep_view(), audio.deep_view()),
{
    let changed = !state.audio.same(&audio);
    state.audio = audio;
    changed
}

/// The sound server has listed its devices.
pub open spec fn audio_listed(
    s: StateView,
    outputs: Seq<AudioDeviceView>,
    inputs: Seq<AudioDeviceView>,
) -> (StateView, bool) {
    (
        StateView { audio: AudioStateView { outputs, inputs, ..s.audio }, ..s },
        s.audio.outputs != outputs || s.audio.inputs != inputs,
    )
}

pub(crate) fn list_audio(
    state: &mut State,
    outputs: Vec<AudioDevice>,
    inputs: Vec<AudioDevice>,
) -> (r: bool)
    ensures
        (final(state).deep_view(), r) == audio_listed(
            old(state).deep_view(),
            outputs.deep_view(),
            inputs.deep_view(),
        ),
{
    let changed = !state.audio.outputs.same(&outputs) || !state.audio.inputs.same(&inputs);
    state.audio.outputs = outputs;
    state.audio.inputs = inputs;
    changed
}

/// The sound server is gone, and its popup with it.
pub open spec fn audio_lost(s: StateView) -> (StateView, bool) {
    if s.audio == AudioStateView::initial() && !s.audio_popup_open && !s.audio_dragging {
        (s, false)
    } else {
        (
            StateView {
                audio: AudioStateView::initial(),
                audio_popup_open: false,
                audio_dragging: false,
                audio_drag_input: false,
                ..s
            },
            true,
        )
    }
}

pub(crate) fn lose_audio(state: &mut State) -> (r: bool)
    ensures
        (final(state).deep_view(), r) == audio_lost(old(state).deep_view()),
{
    let audio = AudioState::default();
    if state.audio.same(&audio) && !state.audio_popup_open && !state.audio_dragging {
        return false;
    }
    state.audio = audio;
    state.audio_popup_open = false;
    state.audio_dragging = false;
    state.audio_drag_input = false;
    true
}

/// The audio popup has been opened or closed. Opening it closes what else is open.
pub open spec fn audio_popup_toggled(s: StateView) -> StateView {
    let s1 = StateView {
        audio_popup_open: !s.audio_popup_open,
        audio_dragging: false,
        audio_drag_input: false,
        ..s
    };
    if s.audio_popup_open {
        s1
    } else {
        presentation::closed(
            StateView { bluetooth_popup_open: false, network_popup_open: false, ..s1 },
        )
    }
}

pub(crate) fn toggle_audio_popup(state: &mut State)
    ensures
        final(state).deep_view() == audio_popup_toggled(old(state).deep_view()),
{
    state.audio_popup_open = !state.audio_popup_open;
    state.audio_dragging = false;
    state.audio_drag_input = false;
    if state.audio_popup_open {
        state.bluetooth_popup_open = false;
        state.network_popup_open = false;
        presentation::close_menu(state);
    }
}

/// A slider of the audio popup is being dragged.
pub open spec fn audio_dragged(s: StateView, input: bool) -> (StateView, bool) {
    if s.audio_popup_open {
        (StateView { audio_dragging: true, audio_drag_input: input, ..s }, true)
    } else {
        (s, false)
    }
}

pub(crate) fn drag_audio(state: &mut State, input: bool) -> (r: bool)
    ensures
        (final(state).deep_view(), r) == audio_dragged(old(state).deep_view(), input),
{
    if !state.audio_popup_open {
        return false;
    }
    state.audio_dragging = true;
    state.audio_drag_input = input;
    true
}

/// The slider has been let go.
pub open spec fn audio_released(s: StateView) -> (StateView, bool) {
    (StateView { audio_dragging: false, audio_drag_input: false, ..s }, s.audio_dragging)
}

pub(crate) fn release_audio(state: &mut State) -> (r: bool)
    ensures
        (final(state).deep_view(), r) == audio_released(old(state).deep_view()),
{
    let changed = state.audio_dragging;
    state.audio_dragging = false;
    state.audio_drag_input = false;
    changed
}

/// What of the network can be seen on the bar: whether it is connected, and how many bars.
pub open spec fn network_look(network: NetworkStateView) -> (bool, u8) {
    if !network.available || network.connectivity is Disconnected {
        (false, 0)
    } else if network.link_kind is Ethernet {
        (true, 4)
    } else {
        let signal = match network.signal_percent {
            Some(percent) => percent,
            None => 0,
        };
        (
            true,
            if signal <= 33 {
                1
            } else if signal <= 66 {
                2
            } else {
                3
            },
        )
    }
}

fn network_visual_state(network: &NetworkState) -> (r: (bool, u8))
    ensures
        r == network_look(network.deep_view()),
{
    let disconnected = match network.connectivity {
        NetworkConnectivity::Disconnected => true,
        _ => false,
    };
    if !network.available || disconnected {
        return (false, 0);
    }
    match network.link_kind {
        NetworkLinkKind::Ethernet => {
            return (true, 4);
        },
        _ => {},
    }
    let signal: u8 = match network.signal_percent {
        Some(percent) => percent,
        None => 0,
    };
    let band: u8 = if signal <= 33 {
        1
    } else if signal <= 66 {
        2
    } else {
        3
    };
    (true, band)
}

fn looks_equal(a: (bool, u8), b: (bool, u8)) -> (r: bool)
    ensures
        r == (a == b),
{
    a.0 == b.0 && a.1 == b.1
}

/// The network has been reported as a whole, which counts until the Wi-Fi link is reported by
/// itself.
pub open spec fn network_reported(s: StateView, network: NetworkStateView) -> (StateView, bool) {
    if s.network_status_authoritative || s.network == network {
        (s, false)
    } else {
        (
            StateView { network, ..s },
            network_look(s.network) != network_look(network) || s.network_popup_open,
        )
    }
}

pub(crate) fn report_network(state: &mut State, network: NetworkState) -> (r: bool)
    ensures
        (final(state).deep_view(), r) == network_reported(
            old(state).deep_view(),
            network.deep_view(),
        ),
{
    if state.network_status_authoritative || state.network.same(&network) {
        return false;
    }
    let before = network_visual_state(&state.network);
    let after = network_visual_state(&network);
    state.network = network;
    !looks_equal(before, after) || state.network_popup_open
}

/// The network as far as the state of the Wi-Fi link determines it.
pub open spec fn with_link(network: NetworkStateView, status: NetworkStatusView) -> NetworkStateView {
    NetworkStateView {
        available: status.available,
        connectivity: if status.available && status.connected {
            NetworkConnectivity::Connected
        } else {
            NetworkConnectivity::Disconnected
        },
        link_kind: if status.connected {
            NetworkLinkKind::Wifi
        } else {
            NetworkLinkKind::Other
        },
        interface: status.interface,
        display_name: status.ssid,
        signal_percent: status.strength,
        ..network
    }
}

/// The Wi-Fi link has been reported by itself.
pub open spec fn link_reported(s: StateView, status: NetworkStatusView) -> (StateView, bool) {
    (
        StateView {
            network_status: status,
            network_status_authoritative: true,
            network: with_link(s.network, status),
            ..s
        },
        s.network_status != status && network_look(s.network) != network_look(
            with_link(s.network, status),
        ),
    )
}

fn set_link(network: &mut NetworkState, status: &NetworkStatus)
    ensures
        final(network).deep_view() == with_link(old(network).deep_view(), status.deep_view()),
{
    network.available = status.available;
    network.connectivity =
    if status.available && status.connected {
        NetworkConnectivity::Connected
    } else {
        NetworkConnectivity::Disconnected
    };
    network.link_kind =
    if status.connected {
        NetworkLinkKind::Wifi
    } else {
        NetworkLinkKind::Other
    };
    network.interface = status.interface.dup();
    network.display_name = status.ssid.dup();
    network.signal_percent = status.strength;
}

pub(crate) fn report_link(state: &mut State, status: NetworkStatus) -> (r: bool)
    ensures
        (final(state).deep_view(), r) == link_reported(old(state).deep_view(), status.deep_view()),
{
    let before = network_visual_state(&state.network);
    let changed = !state.network_status.same(&status);
    set_link(&mut state.network, &status);
    let after = network_visual_state(&state.network);
    state.network_status = status;
    state.network_status_authoritative = true;
    changed && !looks_equal(before, after)
}

/// What the network popup shows has been reported. It can be seen only while the popup is open.
pub open spec fn popup_projected(s: StateView, network: NetworkStateView) -> (StateView, bool) {
    let changed = s.network.wireless_enabled != network.wireless_enabled || s.network.wifi_devices
        != network.wifi_devices || s.network.access_points != network.access_points;
    (
        StateView {
            network: NetworkStateView {
                wireless_enabled: network.wireless_enabled,
                wifi_devices: network.wifi_devices,
                access_points: network.access_points,
                ..s.network
            },
            ..s
        },
        changed && s.network_popup_open,
    )
}

pub(crate) fn project_popup(state: &mut State, network: NetworkState) -> (r: bool)
    ensures
        (final(state).deep_view(), r) == popup_projected(
            old(state).deep_view(),
            network.deep_view(),
        ),
{
    let changed = state.network.wireless_enabled != network.wireless_enabled
        || !state.network.wifi_devices.same(&network.wifi_devices)
        || !state.network.access_points.same(&network.access_points);
    state.network.wireless_enabled = network.wireless_enabled;
    state.network.wifi_devices = network.wifi_devices;
    state.network.access_points = network.access_points;
    changed && state.network_popup_open
}

/// The access point is one that a Wi-Fi target can be connected through.
pub open spec fn serves_target(ap: NetworkAccessPointView, target: NetworkWifiTargetView) -> bool {
    ap.interface == target.interface && ap.ssid == target.ssid && state::band_label(ap.frequency)
        == target.band && ap.saved_profile is Some && !ap.is_active
}

/// A saved Wi-Fi network can be connected.
pub open spec fn can_connect(s: StateView, target: NetworkWifiTargetView) -> bool {
    seqs::any_in(s.network.access_points, |ap: NetworkAccessPointView| serves_target(ap, target))
}

pub(crate) fn may_connect(state: &State, target: &NetworkWifiTarget) -> (r: bool)
    ensures
        r == can_connect(state.deep_view(), target.deep_view()),
{
    let test = |ap: &NetworkAccessPoint| -> (b: bool)
        ensures
            b == serves_target(ap.deep_view(), target.deep_view()),
    {
        ap.interface.same(&target.interface) && ap.ssid.same(&target.ssid) && value::is_text(
            &target.band,
            state::wifi_band(ap.frequency),
        ) && ap.saved_profile.is_some() && !ap.is_active
    };
    lists::any(
        &state.network.access_points,
        test,
        Ghost(|ap: NetworkAccessPointView| serves_target(ap, target.deep_view())),
    )
}

/// The network popup is wanted. It opens at once where the Wi-Fi link reports by itself, and waits
/// for a report otherwise.
pub open spec fn network_popup_wanted(s: StateView) -> (StateView, bool) {
    if s.network_popup_open || s.network_popup_open_pending {
        (s, false)
    } else {
        (
            presentation::closed(
                StateView {
                    network_popup_open: s.network_status_authoritative,
                    network_popup_open_pending: !s.network_status_authoritative,
                    audio_popup_open: false,
                    audio_dragging: false,
                    audio_drag_input: false,
                    bluetooth_popup_open: false,
                    ..s
                },
            ),
            true,
        )
    }
}

pub(crate) fn want_network_popup(state: &mut State) -> (r: bool)
    ensures
        (final(state).deep_view(), r) == network_popup_wanted(old(state).deep_view()),
{
    if state.network_popup_open || state.network_popup_open_pending {
        return false;
    }
    state.network_popup_open = state.network_status_authoritative;
    state.network_popup_open_pending = !state.network_status_authoritative;
    state.audio_popup_open = false;
    state.audio_dragging = false;
    state.audio_drag_input = false;
    state.bluetooth_popup_open = false;
    presentation::close_menu(state);
    true
}

/// The report that the network popup waits for has come.
pub open spec fn network_popup_filled(s: StateView, network: NetworkStateView) -> (StateView, bool) {
    if s.network_status_authoritative || !s.network_popup_open_pending {
        (s, false)
    } else {
        (
            StateView {
                network,
                network_popup_open: true,
                network_popup_open_pending: false,
                ..s
            },
            true,
        )
    }
}

pub(crate) fn fill_network_popup(state: &mut State, network: NetworkState) -> (r: bool)
    ensures
        (final(state).deep_view(), r) == network_popup_filled(
            old(state).deep_view(),
            network.deep_view(),
        ),
{
    if state.network_status_authoritative || !state.network_popup_open_pending {
        return false;
    }
    state.network_popup_open_pending = false;
    state.network = network;
    state.network_popup_open = true;
    true
}

/// The report that the network popup waits for will not come.
pub open spec fn network_popup_failed(s: StateView) -> (StateView, bool) {
    (StateView { network_popup_open_pending: false, ..s }, s.network_popup_open_pending)
}

pub(crate) fn fail_network_popup(state: &mut State) -> (r: bool)
    ensures
        (final(state).deep_view(), r) == network_popup_failed(old(state).deep_view()),
{
    let pending = state.network_popup_open_pending;
    state.network_popup_open_pending = false;
    pending
}

/// The network popup has been opened or closed. Opening it closes what else is open, but the loaded
/// menu stays.
pub open spec fn network_popup_toggled(s: StateView) -> StateView {
    if s.network_popup_open {
        StateView { network_popup_open: false, network_popup_open_pending: false, ..s }
    } else {
        presentation::closed(
            StateView {
                network_popup_open: true,
                network_popup_open_pending: false,
                audio_popup_open: false,
                audio_dragging: false,
                audio_drag_input: false,
                bluetooth_popup_open: false,
                ..s
            },
        )
    }
}

pub(crate) fn toggle_network_popup(state: &mut State)
    ensures
        final(state).deep_view() == network_popup_toggled(old(state).deep_view()),
{
    state.network_popup_open = !state.network_popup_open;
    state.network_popup_open_pending = false;
    if state.network_popup_open {
        state.audio_popup_open = false;
        state.audio_dragging = false;
        state.audio_drag_input = false;
        state.bluetooth_popup_open = false;
        presentation::close_menu(state);
    }
}

/// Actions with one more, unless it is pending already.
pub open spec fn with_pending<A>(pending: Seq<A>, action: A) -> Seq<A> {
    if pending.contains(action) {
        pending
    } else {
        pending.push(action)
    }
}

/// Actions without one that is finished.
pub open spec fn without_pending<A>(pending: Seq<A>, action: A) -> Seq<A> {
    pending.filter(|a: A| a != action)
}

fn begin<T: Value>(pending: &mut Vec<T>, action: T) -> (r: bool)
    ensures
        final(pending).deep_view() == with_pending(old(pending).deep_view(), action.deep_view()),
        r == !old(pending).deep_view().contains(action.deep_view()),
{
    if lists::contains(pending, &action) {
        false
    } else {
        lists::push(pending, action);
        true
    }
}

proof fn lemma_without_absent<A>(pending: Seq<A>, action: A)
    ensures
        pending.contains(action) <==> without_pending(pending, action).len() != pending.len(),
    decreases pending.len(),
{
    let p = |a: A| a != action;
    reveal(Seq::filter);
    if pending.len() > 0 {
        lemma_without_absent(pending.drop_last(), action);
        assert(without_pending(pending.drop_last(), action).len() <= pending.drop_last().len()) by {
            seqs::lemma_filter_split(pending.drop_last(), p);
        }
        if pending.contains(action) {
            let i = choose|i: int| 0 <= i < pending.len() && pending[i] == action;
            if i < pending.len() - 1 {
                assert(pending.drop_last()[i] == action);
            }
        }
        if pending.drop_last().contains(action) {
            let i = choose|i: int|
                0 <= i < pending.drop_last().len() && pending.drop_last()[i] == action;
            assert(pending[i] == action);
        }
        if pending.last() == action {
            assert(pending[pending.len() - 1] == action);
        }
    }
}

fn finish<T: Value>(pending: &mut Vec<T>, action: &T) -> (r: bool)
    ensures
        final(pending).deep_view() == without_pending(
            old(pending).deep_view(),
            action.deep_view(),
        ),
        r == old(pending).deep_view().contains(action.deep_view()),
{
    proof {
        lemma_without_absent(pending.deep_view(), action.deep_view());
    }
    let before: usize = pending.len();
    let stays = |a: &T| -> (b: bool)
        ensures
            b == (a.deep_view() != action.deep_view()),
    {
        !a.same(action)
    };
    lists::retain(pending, stays, Ghost(|a: T::V| a != action.deep_view()));
    before != pending.len()
}

/// Wi-Fi is to be switched on or off.
pub open spec fn wireless_wanted(s: StateView, enabled: bool) -> (StateView, bool) {
    let action = NetworkPendingAction::SetWireless(enabled);
    (
        StateView { network_pending: with_pending(s.network_pending, action), ..s },
        !s.network_pending.contains(action),
    )
}

pub(crate) fn want_wireless(state: &mut State, enabled: bool) -> (r: bool)
    ensures
        (final(state).deep_view(), r) == wireless_wanted(old(state).deep_view(), enabled),
{
    begin(&mut state.network_pending, NetworkPendingAction::SetWireless(enabled))
}

/// A network action has been answered.
pub open spec fn network_finished(s: StateView, action: NetworkPendingAction) -> (StateView, bool) {
    (
        StateView { network_pending: without_pending(s.network_pending, action), ..s },
        s.network_pending.contains(action),
    )
}

pub(crate) fn finish_network(state: &mut State, action: NetworkPendingAction) -> (r: bool)
    ensures
        (final(state).deep_view(), r) == network_finished(old(state).deep_view(), action),
{
    finish(&mut state.network_pending, &action)
}

/// A Bluetooth action has been started.
pub open spec fn bluetooth_begun(s: StateView, action: BluetoothPendingActionView) -> (
    StateView,
    bool,
) {
    (
        StateView { bluetooth_pending: with_pending(s.bluetooth_pending, action), ..s },
        !s.bluetooth_pending.contains(action),
    )
}

pub(crate) fn begin_bluetooth_action(state: &mut State, action: BluetoothPendingAction) -> (r: bool)
    ensures
        (final(state).deep_view(), r) == bluetooth_begun(
            old(state).deep_view(),
            action.deep_view(),
        ),
{
    begin(&mut state.bluetooth_pending, action)
}

/// A Bluetooth action has been answered.
pub open spec fn bluetooth_finished(s: StateView, action: BluetoothPendingActionView) -> (
    StateView,
    bool,
) {
    (
        StateView { bluetooth_pending: without_pending(s.bluetooth_pending, action), ..s },
        s.bluetooth_pending.contains(action),
    )
}

pub(crate) fn finish_bluetooth(state: &mut State, action: &BluetoothPendingAction) -> (r: bool)
    ensures
        (final(state).deep_view(), r) == bluetooth_finished(
            old(state).deep_view(),
            action.deep_view(),
        ),
{
    finish(&mut state.bluetooth_pending, action)
}

/// What of Bluetooth can be seen on the bar: absent, off, on, or connected.
pub open spec fn bluetooth_look(bluetooth: BluetoothStateView) -> u8 {
    if !bluetooth.available {
        0
    } else if !bluetooth.powered {
        1
    } else if seqs::any_in(bluetooth.devices, |d: BluetoothDeviceView| d.connected) {
        3
    } else {
        2
    }
}

fn bluetooth_visual_state(bluetooth: &BluetoothState) -> (r: u8)
    ensures
        r == bluetooth_look(bluetooth.deep_view()),
{
    let test = |d: &BluetoothDevice| -> (b: bool)
        ensures
            b == d.deep_view().connected,
    {
        d.connected
    };
    if !bluetooth.available {
        0
    } else if !bluetooth.powered {
        1
    } else if lists::any(&bluetooth.devices, test, Ghost(|d: BluetoothDeviceView| d.connected)) {
        3
    } else {
        2
    }
}

/// Bluetooth has been reported.
pub open spec fn bluetooth_reported(s: StateView, bluetooth: BluetoothStateView) -> (
    StateView,
    bool,
) {
    (
        StateView { bluetooth, ..s },
        s.bluetooth != bluetooth && (bluetooth_look(s.bluetooth) != bluetooth_look(bluetooth)
            || s.bluetooth_popup_open),
    )
}

pub(crate) fn report_bluetooth(state: &mut State, bluetooth: BluetoothState) -> (r: bool)
    ensures
        (final(state).deep_view(), r) == bluetooth_reported(
            old(state).deep_view(),
            bluetooth.deep_view(),
        ),
{
    let before = bluetooth_visual_state(&state.bluetooth);
    let after = bluetooth_visual_state(&bluetooth);
    let changed = !state.bluetooth.same(&bluetooth);
    state.bluetooth = bluetooth;
    changed && (before != after || state.bluetooth_popup_open)
}

/// Bluetooth is gone, with its popup and what was asked of it.
pub open spec fn bluetooth_lost(s: StateView) -> (StateView, bool) {
    (
        StateView {
            bluetooth: BluetoothStateView::initial(),
            bluetooth_pending: Seq::empty(),
            bluetooth_popup_open: false,
            ..s
        },
        bluetooth_look(s.bluetooth) != 0,
    )
}

pub(crate) fn lose_bluetooth(state: &mut State) -> (r: bool)
    ensures
        (final(state).deep_view(), r) == bluetooth_lost(old(state).deep_view()),
{
    let before = bluetooth_visual_state(&state.bluetooth);
    state.bluetooth = BluetoothState::default();
    state.bluetooth_pending = Vec::new();
    assert(state.bluetooth_pending.deep_view() =~= Seq::<BluetoothPendingActionView>::empty());
    state.bluetooth_popup_open = false;
    before != bluetooth_visual_state(&state.bluetooth)
}

/// The Bluetooth popup has been opened or closed. Opening it closes what else is open.
pub open spec fn bluetooth_popup_toggled(s: StateView) -> StateView {
    if s.bluetooth_popup_open {
        StateView { bluetooth_popup_open: false, ..s }
    } else {
        presentation::closed(
            StateView {
                bluetooth_popup_open: true,
                audio_popup_open: false,
                audio_dragging: false,
                audio_drag_input: false,
                network_popup_open: false,
                ..s
            },
        )
    }
}

pub(crate) fn toggle_bluetooth_popup(state: &mut State)
    ensures
        final(state).deep_view() == bluetooth_popup_toggled(old(state).deep_view()),
{
    state.bluetooth_popup_open = !state.bluetooth_popup_open;
    if state.bluetooth_popup_open {
        state.audio_popup_open = false;
        state.audio_dragging = false;
        state.audio_drag_input = false;
        state.network_popup_open = false;
        presentation::close_menu(state);
    }
}

/// What agents have used has been reported.
pub open spec fn usage_changed(s: StateView, reported: Seq<ActiveAgentUsageView>) -> (
    StateView,
    bool,
) {
    let ordered = usage::canonical_order(reported);
    let plugins = usage::plugins_of(ordered);
    (
        StateView { ai_usage: ordered, plugin_zone: PluginZoneStateView { plugins }, ..s },
        usage::visual_keys(s.plugin_zone.plugins) != usage::visual_keys(plugins),
    )
}

pub(crate) fn change_usage(state: &mut State, reported: Vec<ActiveAgentUsage>) -> (r: bool)
    ensures
        (final(state).deep_view(), r) == usage_changed(
            old(state).deep_view(),
            reported.deep_view(),
        ),
{
    let ordered = usage::canonicalize_ai_usage_order(reported);
    let plugins = usage::summarize(&ordered);
    let visual_changed = !usage::looks_same(&state.plugin_zone.plugins, &plugins);
    state.ai_usage = ordered;
    state.plugin_zone.plugins = plugins;
    visual_changed
}

/// The notifications on show have been reported.
pub open spec fn notifications_reported(s: StateView, notifications: Seq<NotificationView>) -> (
    StateView,
    bool,
) {
    (StateView { notifications, ..s }, s.notifications != notifications)
}

pub(crate) fn report_notifications(state: &mut State, notifications: Vec<Notification>) -> (r: bool)
    ensures
        (final(state).deep_view(), r) == notifications_reported(
            old(state).deep_view(),
            notifications.deep_view(),
        ),
{
    let changed = !state.notifications.same(&notifications);
    state.notifications = notifications;
    changed
}

/// The notifications on show, their history and their actions are set.
pub open spec fn notification_state_set(
    s: StateView,
    active: Seq<NotificationView>,
    history: Seq<NotificationHistoryEntryView>,
    projections: Seq<NotificationActionProjectionView>,
) -> StateView {
    StateView {
        notifications: active,
        notification_history: history,
        notification_action_projections: projections,
        ..s
    }
}

fn set_notification_state(
    state: &mut State,
    active: Vec<Notification>,
    history: Vec<NotificationHistoryEntry>,
    projections: Vec<NotificationActionProjection>,
)
    ensures
        final(state).deep_view() == notification_state_set(
            old(state).deep_view(),
            active.deep_view(),
            history.deep_view(),
            projections.deep_view(),
        ),
{
    state.notifications = active;
    state.notification_history = history;
    state.notification_action_projections = projections;
}

/// The notifications on show, their history and their actions have been reported.
pub open spec fn notification_state_reported(
    s: StateView,
    active: Seq<NotificationView>,
    history: Seq<NotificationHistoryEntryView>,
    projections: Seq<NotificationActionProjectionView>,
) -> (StateView, bool) {
    (
        notification_state_set(s, active, history, projections),
        s.notifications != active || s.notification_history != history
            || s.notification_action_projections != projections,
    )
}

pub(crate) fn report_notification_state(
    state: &mut State,
    active: Vec<Notification>,
    history: Vec<NotificationHistoryEntry>,
    projections: Vec<NotificationActionProjection>,
) -> (r: bool)
    ensures
        (final(state).deep_view(), r) == notification_state_reported(
            old(state).deep_view(),
            active.deep_view(),
            history.deep_view(),
            projections.deep_view(),
        ),
{
    let shown = state.notifications.same(&active);
    let kept = state.notification_history.same(&history);
    let offered = state.notification_action_projections.same(&projections);
    set_notification_state(state, active, history, projections);
    !shown || !kept || !offered
}

/// The notification center has been opened on a monitor, moved there, or closed there.
pub open spec fn notification_center_toggled(s: StateView, output: OutputId) -> StateView {
    StateView {
        notification_center_open: if s.notification_center_open == Some(output) {
            None
        } else {
            Some(output)
        },
        ..s
    }
}

pub(crate) fn toggle_notification_center(state: &mut State, output: OutputId)
    ensures
        final(state).deep_view() == notification_center_toggled(old(state).deep_view(), output),
{
    let open_here = state.notification_center_open.same(&Some(output));
    state.notification_center_open = if open_here {
        None
    } else {
        Some(output)
    };
}

} // verus!
