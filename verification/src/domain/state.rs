//! What the bar knows of the desktop.
use vstd::prelude::*;

use crate::domain::menu;
use crate::domain::menu::{
    MenuEndpoint, MenuEndpointView, MenuItemId, MenuModel, MenuModelView, MenuRegistry,
    MenuRegistryView, MenuSource, MenuSourceView,
};
use crate::domain::notification::{
    GroupKey, GroupKeyView, Notification, NotificationActionProjection,
    NotificationActionProjectionView, NotificationHistoryEntry, NotificationHistoryEntryView,
    NotificationView,
};
use crate::domain::status_notifier::{
    StatusNotifierEndpointView, StatusNotifierItemRegistry, StatusNotifierItemView,
    StatusNotifierRegistry,
};
use crate::domain::usage::{ActiveAgentUsage, ActiveAgentUsageView, PluginZoneState, PluginZoneStateView};
use crate::table::{KeySet, Table};
use crate::value::Value;

verus! {

/// An X11 window.
#[derive(Clone, Copy, Debug, Eq, Hash, PartialEq, Structural)]
pub struct WindowId(pub u32);

impl DeepView for WindowId {
    type V = WindowId;

    open spec fn deep_view(&self) -> WindowId {
        *self
    }
}

impl Value for WindowId {
    fn same(&self, other: &Self) -> (r: bool) {
        *self == *other
    }

    fn dup(&self) -> (r: Self) {
        *self
    }
}

/// A monitor.
#[derive(Clone, Copy, Debug, Eq, Hash, PartialEq, Structural)]
pub struct OutputId(pub u32);

impl DeepView for OutputId {
    type V = OutputId;

    open spec fn deep_view(&self) -> OutputId {
        *self
    }
}

impl Value for OutputId {
    fn same(&self, other: &Self) -> (r: bool) {
        *self == *other
    }

    fn dup(&self) -> (r: Self) {
        *self
    }
}

/// Where a monitor lies on the screen.
#[derive(Clone, Debug, PartialEq)]
pub struct OutputState {
    pub id: OutputId,
    pub name: String,
    pub x: i16,
    pub y: i16,
    pub width: u16,
    pub height: u16,
}

/// The model of a [`OutputState`].
#[verifier::ext_equal]
pub struct OutputStateView {
    pub id: OutputId,
    pub name: Seq<char>,
    pub x: i16,
    pub y: i16,
    pub width: u16,
    pub height: u16,
}

impl DeepView for OutputState {
    type V = OutputStateView;

    open spec fn deep_view(&self) -> OutputStateView {
        OutputStateView {
            id: self.id,
            name: self.name.deep_view(),
            x: self.x,
            y: self.y,
            width: self.width,
            height: self.height,
        }
    }
}

impl Value for OutputState {
    fn same(&self, other: &Self) -> (r: bool) {
        self.id == other.id && self.name.same(&other.name) && self.x == other.x && self.y == other.y && self.width == other.width && self.height == other.height
    }

    fn dup(&self) -> (r: Self) {
        OutputState {
            id: self.id,
            name: self.name.dup(),
            x: self.x,
            y: self.y,
            width: self.width,
            height: self.height,
        }
    }
}

/// A workspace and the monitor that shows it.
#[derive(Clone, Debug, PartialEq)]
pub struct WorkspaceState {
    pub name: String,
    pub output: Option<String>,
    pub focused: bool,
}

/// The model of a [`WorkspaceState`].
#[verifier::ext_equal]
pub struct WorkspaceStateView {
    pub name: Seq<char>,
    pub output: Option<Seq<char>>,
    pub focused: bool,
}

impl DeepView for WorkspaceState {
    type V = WorkspaceStateView;

    open spec fn deep_view(&self) -> WorkspaceStateView {
        WorkspaceStateView {
            name: self.name.deep_view(),
            output: self.output.deep_view(),
            focused: self.focused,
        }
    }
}

impl Value for WorkspaceState {
    fn same(&self, other: &Self) -> (r: bool) {
        self.name.same(&other.name) && self.output.same(&other.output) && self.focused == other.focused
    }

    fn dup(&self) -> (r: Self) {
        WorkspaceState {
            name: self.name.dup(),
            output: self.output.dup(),
            focused: self.focused,
        }
    }
}

/// Local wall-clock time, to the minute.
#[derive(Clone, Copy, Debug, Eq, PartialEq, Structural)]
pub struct ClockState {
    pub year: i32,
    /// Days since Sunday.
    pub weekday: u8,
    pub hour: u8,
    pub minute: u8,
    pub day: u8,
    pub month: u8,
}

impl DeepView for ClockState {
    type V = ClockState;

    open spec fn deep_view(&self) -> ClockState {
        *self
    }
}

impl Value for ClockState {
    fn same(&self, other: &Self) -> (r: bool) {
        *self == *other
    }

    fn dup(&self) -> (r: Self) {
        *self
    }
}

/// An audio output or input.
#[derive(Clone, Debug, PartialEq)]
pub struct AudioDevice {
    pub name: String,
    pub display_name: String,
}

/// The model of a [`AudioDevice`].
#[verifier::ext_equal]
pub struct AudioDeviceView {
    pub name: Seq<char>,
    pub display_name: Seq<char>,
}

impl DeepView for AudioDevice {
    type V = AudioDeviceView;

    open spec fn deep_view(&self) -> AudioDeviceView {
        AudioDeviceView {
            name: self.name.deep_view(),
            display_name: self.display_name.deep_view(),
        }
    }
}

impl Value for AudioDevice {
    fn same(&self, other: &Self) -> (r: bool) {
        self.name.same(&other.name) && self.display_name.same(&other.display_name)
    }

    fn dup(&self) -> (r: Self) {
        AudioDevice {
            name: self.name.dup(),
            display_name: self.display_name.dup(),
        }
    }
}

impl AudioDeviceView {
    /// The model of a default [`AudioDevice`].
    pub open spec fn initial() -> AudioDeviceView {
        AudioDeviceView {
            name: Seq::empty(),
            display_name: Seq::empty(),
        }
    }
}

impl Default for AudioDevice {
    fn default() -> (r: Self)
        ensures
            r.deep_view() == AudioDeviceView::initial(),
    {
        let r = AudioDevice {
            name: String::new(),
            display_name: String::new(),
        };
        assert(r.deep_view() =~= AudioDeviceView::initial());
        r
    }
}

/// The sound server as last reported.
#[derive(Clone, Debug, PartialEq)]
pub struct AudioState {
    pub available: bool,
    pub default_output: Option<String>,
    pub volume_percent: u32,
    pub muted: bool,
    pub default_input: Option<String>,
    pub input_description: Option<String>,
    pub input_volume_percent: u32,
    pub input_muted: bool,
    pub output_description: Option<String>,
    pub outputs: Vec<AudioDevice>,
    pub inputs: Vec<AudioDevice>,
}

/// The model of a [`AudioState`].
#[verifier::ext_equal]
pub struct AudioStateView {
    pub available: bool,
    pub default_output: Option<Seq<char>>,
    pub volume_percent: u32,
    pub muted: bool,
    pub default_input: Option<Seq<char>>,
    pub input_description: Option<Seq<char>>,
    pub input_volume_percent: u32,
    pub input_muted: bool,
    pub output_description: Option<Seq<char>>,
    pub outputs: Seq<AudioDeviceView>,
    pub inputs: Seq<AudioDeviceView>,
}

impl DeepView for AudioState {
    type V = AudioStateView;

    open spec fn deep_view(&self) -> AudioStateView {
        AudioStateView {
            available: self.available,
            default_output: self.default_output.deep_view(),
            volume_percent: self.volume_percent,
            muted: self.muted,
            default_input: self.default_input.deep_view(),
            input_description: self.input_description.deep_view(),
            input_volume_percent: self.input_volume_percent,
            input_muted: self.input_muted,
            output_description: self.output_description.deep_view(),
            outputs: self.outputs.deep_view(),
            inputs: self.inputs.deep_view(),
        }
    }
}

impl Value for AudioState {
    fn same(&self, other: &Self) -> (r: bool) {
        self.available == other.available && self.default_output.same(&other.default_output) && self.volume_percent == other.volume_percent && self.muted == other.muted && self.default_input.same(&other.default_input) && self.input_description.same(&other.input_description) && self.input_volume_percent == other.input_volume_percent && self.input_muted == other.input_muted && self.output_description.same(&other.output_description) && self.outputs.same(&other.outputs) && self.inputs.same(&other.inputs)
    }

    fn dup(&self) -> (r: Self) {
        AudioState {
            available: self.available,
            default_output: self.default_output.dup(),
            volume_percent: self.volume_percent,
            muted: self.muted,
            default_input: self.default_input.dup(),
            input_description: self.input_description.dup(),
            input_volume_percent: self.input_volume_percent,
            input_muted: self.input_muted,
            output_description: self.output_description.dup(),
            outputs: self.outputs.dup(),
            inputs: self.inputs.dup(),
        }
    }
}

impl AudioStateView {
    /// The model of a default [`AudioState`].
    pub open spec fn initial() -> AudioStateView {
        AudioStateView {
            available: false,
            default_output: None,
            volume_percent: 0,
            muted: false,
            default_input: None,
            input_description: None,
            input_volume_percent: 0,
            input_muted: false,
            output_description: None,
            outputs: Seq::empty(),
            inputs: Seq::empty(),
        }
    }
}

impl Default for AudioState {
    fn default() -> (r: Self)
        ensures
            r.deep_view() == AudioStateView::initial(),
    {
        let r = AudioState {
            available: false,
            default_output: None,
            volume_percent: 0,
            muted: false,
            default_input: None,
            input_description: None,
            input_volume_percent: 0,
            input_muted: false,
            output_description: None,
            outputs: Vec::new(),
            inputs: Vec::new(),
        };
        assert(r.deep_view() =~= AudioStateView::initial());
        r
    }
}

/// A Wi-Fi access point in range.
#[derive(Clone, Debug, PartialEq)]
pub struct NetworkAccessPoint {
    pub path: String,
    pub device_path: String,
    pub interface: String,
    pub ssid: String,
    pub strength: u8,
    pub frequency: u32,
    pub is_active: bool,
    pub saved_profile: Option<String>,
}

/// The model of a [`NetworkAccessPoint`].
#[verifier::ext_equal]
pub struct NetworkAccessPointView {
    pub path: Seq<char>,
    pub device_path: Seq<char>,
    pub interface: Seq<char>,
    pub ssid: Seq<char>,
    pub strength: u8,
    pub frequency: u32,
    pub is_active: bool,
    pub saved_profile: Option<Seq<char>>,
}

impl DeepView for NetworkAccessPoint {
    type V = NetworkAccessPointView;

    open spec fn deep_view(&self) -> NetworkAccessPointView {
        NetworkAccessPointView {
            path: self.path.deep_view(),
            device_path: self.device_path.deep_view(),
            interface: self.interface.deep_view(),
            ssid: self.ssid.deep_view(),
            strength: self.strength,
            frequency: self.frequency,
            is_active: self.is_active,
            saved_profile: self.saved_profile.deep_view(),
        }
    }
}

impl Value for NetworkAccessPoint {
    fn same(&self, other: &Self) -> (r: bool) {
        self.path.same(&other.path) && self.device_path.same(&other.device_path) && self.interface.same(&other.interface) && self.ssid.same(&other.ssid) && self.strength == other.strength && self.frequency == other.frequency && self.is_active == other.is_active && self.saved_profile.same(&other.saved_profile)
    }

    fn dup(&self) -> (r: Self) {
        NetworkAccessPoint {
            path: self.path.dup(),
            device_path: self.device_path.dup(),
            interface: self.interface.dup(),
            ssid: self.ssid.dup(),
            strength: self.strength,
            frequency: self.frequency,
            is_active: self.is_active,
            saved_profile: self.saved_profile.dup(),
        }
    }
}

impl NetworkAccessPointView {
    /// The model of a default [`NetworkAccessPoint`].
    pub open spec fn initial() -> NetworkAccessPointView {
        NetworkAccessPointView {
            path: Seq::empty(),
            device_path: Seq::empty(),
            interface: Seq::empty(),
            ssid: Seq::empty(),
            strength: 0,
            frequency: 0,
            is_active: false,
            saved_profile: None,
        }
    }
}

impl Default for NetworkAccessPoint {
    fn default() -> (r: Self)
        ensures
            r.deep_view() == NetworkAccessPointView::initial(),
    {
        let r = NetworkAccessPoint {
            path: String::new(),
            device_path: String::new(),
            interface: String::new(),
            ssid: String::new(),
            strength: 0,
            frequency: 0,
            is_active: false,
            saved_profile: None,
        };
        assert(r.deep_view() =~= NetworkAccessPointView::initial());
        r
    }
}

/// A Wi-Fi network that the user picked.
#[derive(Clone, Debug, Eq, PartialEq)]
pub struct NetworkWifiTarget {
    pub interface: String,
    pub ssid: String,
    pub band: String,
    pub saved: bool,
    pub active: bool,
}

/// The model of a [`NetworkWifiTarget`].
#[verifier::ext_equal]
pub struct NetworkWifiTargetView {
    pub interface: Seq<char>,
    pub ssid: Seq<char>,
    pub band: Seq<char>,
    pub saved: bool,
    pub active: bool,
}

impl DeepView for NetworkWifiTarget {
    type V = NetworkWifiTargetView;

    open spec fn deep_view(&self) -> NetworkWifiTargetView {
        NetworkWifiTargetView {
            interface: self.interface.deep_view(),
            ssid: self.ssid.deep_view(),
            band: self.band.deep_view(),
            saved: self.saved,
            active: self.active,
        }
    }
}

impl Value for NetworkWifiTarget {
    fn same(&self, other: &Self) -> (r: bool) {
        self.interface.same(&other.interface) && self.ssid.same(&other.ssid) && self.band.same(&other.band) && self.saved == other.saved && self.active == other.active
    }

    fn dup(&self) -> (r: Self) {
        NetworkWifiTarget {
            interface: self.interface.dup(),
            ssid: self.ssid.dup(),
            band: self.band.dup(),
            saved: self.saved,
            active: self.active,
        }
    }
}

impl NetworkWifiTargetView {
    /// The model of a default [`NetworkWifiTarget`].
    pub open spec fn initial() -> NetworkWifiTargetView {
        NetworkWifiTargetView {
            interface: Seq::empty(),
            ssid: Seq::empty(),
            band: Seq::empty(),
            saved: false,
            active: false,
        }
    }
}

impl Default for NetworkWifiTarget {
    fn default() -> (r: Self)
        ensures
            r.deep_view() == NetworkWifiTargetView::initial(),
    {
        let r = NetworkWifiTarget {
            interface: String::new(),
            ssid: String::new(),
            band: String::new(),
            saved: false,
            active: false,
        };
        assert(r.deep_view() =~= NetworkWifiTargetView::initial());
        r
    }
}

/// A Wi-Fi adapter.
#[derive(Clone, Debug, PartialEq)]
pub struct WifiDevice {
    pub path: String,
    pub interface: String,
    pub driver: Option<String>,
    pub state: u32,
    pub raw_access_points: usize,
    pub named_access_points: usize,
    pub active_connection: Option<String>,
    pub active_ap: Option<String>,
    pub access_points: Vec<NetworkAccessPoint>,
}

/// The model of a [`WifiDevice`].
#[verifier::ext_equal]
pub struct WifiDeviceView {
    pub path: Seq<char>,
    pub interface: Seq<char>,
    pub driver: Option<Seq<char>>,
    pub state: u32,
    pub raw_access_points: usize,
    pub named_access_points: usize,
    pub active_connection: Option<Seq<char>>,
    pub active_ap: Option<Seq<char>>,
    pub access_points: Seq<NetworkAccessPointView>,
}

impl DeepView for WifiDevice {
    type V = WifiDeviceView;

    open spec fn deep_view(&self) -> WifiDeviceView {
        WifiDeviceView {
            path: self.path.deep_view(),
            interface: self.interface.deep_view(),
            driver: self.driver.deep_view(),
            state: self.state,
            raw_access_points: self.raw_access_points,
            named_access_points: self.named_access_points,
            active_connection: self.active_connection.deep_view(),
            active_ap: self.active_ap.deep_view(),
            access_points: self.access_points.deep_view(),
        }
    }
}

impl Value for WifiDevice {
    fn same(&self, other: &Self) -> (r: bool) {
        self.path.same(&other.path) && self.interface.same(&other.interface) && self.driver.same(&other.driver) && self.state == other.state && self.raw_access_points == other.raw_access_points && self.named_access_points == other.named_access_points && self.active_connection.same(&other.active_connection) && self.active_ap.same(&other.active_ap) && self.access_points.same(&other.access_points)
    }

    fn dup(&self) -> (r: Self) {
        WifiDevice {
            path: self.path.dup(),
            interface: self.interface.dup(),
            driver: self.driver.dup(),
            state: self.state,
            raw_access_points: self.raw_access_points,
            named_access_points: self.named_access_points,
            active_connection: self.active_connection.dup(),
            active_ap: self.active_ap.dup(),
            access_points: self.access_points.dup(),
        }
    }
}

impl WifiDeviceView {
    /// The model of a default [`WifiDevice`].
    pub open spec fn initial() -> WifiDeviceView {
        WifiDeviceView {
            path: Seq::empty(),
            interface: Seq::empty(),
            driver: None,
            state: 0,
            raw_access_points: 0,
            named_access_points: 0,
            active_connection: None,
            active_ap: None,
            access_points: Seq::empty(),
        }
    }
}

impl Default for WifiDevice {
    fn default() -> (r: Self)
        ensures
            r.deep_view() == WifiDeviceView::initial(),
    {
        let r = WifiDevice {
            path: String::new(),
            interface: String::new(),
            driver: None,
            state: 0,
            raw_access_points: 0,
            named_access_points: 0,
            active_connection: None,
            active_ap: None,
            access_points: Vec::new(),
        };
        assert(r.deep_view() =~= WifiDeviceView::initial());
        r
    }
}

/// A network request that has not been answered yet.
#[derive(Clone, Copy, Debug, Eq, PartialEq, Structural)]
pub enum NetworkPendingAction {
    SetWireless(bool),
}

impl DeepView for NetworkPendingAction {
    type V = NetworkPendingAction;

    open spec fn deep_view(&self) -> NetworkPendingAction {
        *self
    }
}

impl Value for NetworkPendingAction {
    fn same(&self, other: &Self) -> (r: bool) {
        *self == *other
    }

    fn dup(&self) -> (r: Self) {
        *self
    }
}

/// Whether the network can be reached.
#[derive(Clone, Copy, Debug, Default, Eq, PartialEq, Structural)]
pub enum NetworkConnectivity {
    #[default]
    Disconnected,
    Connecting,
    Connected,
    Limited,
}

impl DeepView for NetworkConnectivity {
    type V = NetworkConnectivity;

    open spec fn deep_view(&self) -> NetworkConnectivity {
        *self
    }
}

impl Value for NetworkConnectivity {
    fn same(&self, other: &Self) -> (r: bool) {
        *self == *other
    }

    fn dup(&self) -> (r: Self) {
        *self
    }
}

/// The medium of the network link.
#[derive(Clone, Copy, Debug, Default, Eq, PartialEq, Structural)]
pub enum NetworkLinkKind {
    #[default]
    Other,
    Ethernet,
    Wifi,
}

impl DeepView for NetworkLinkKind {
    type V = NetworkLinkKind;

    open spec fn deep_view(&self) -> NetworkLinkKind {
        *self
    }
}

impl Value for NetworkLinkKind {
    fn same(&self, other: &Self) -> (r: bool) {
        *self == *other
    }

    fn dup(&self) -> (r: Self) {
        *self
    }
}

/// The network as last reported.
#[derive(Clone, Debug, PartialEq)]
pub struct NetworkState {
    pub available: bool,
    pub wireless_enabled: bool,
    pub connectivity: NetworkConnectivity,
    pub link_kind: NetworkLinkKind,
    pub interface: Option<String>,
    pub display_name: Option<String>,
    pub signal_percent: Option<u8>,
    pub access_points: Vec<NetworkAccessPoint>,
    pub wifi_devices: Vec<WifiDevice>,
}

/// The model of a [`NetworkState`].
#[verifier::ext_equal]
pub struct NetworkStateView {
    pub available: bool,
    pub wireless_enabled: bool,
    pub connectivity: NetworkConnectivity,
    pub link_kind: NetworkLinkKind,
    pub interface: Option<Seq<char>>,
    pub display_name: Option<Seq<char>>,
    pub signal_percent: Option<u8>,
    pub access_points: Seq<NetworkAccessPointView>,
    pub wifi_devices: Seq<WifiDeviceView>,
}

impl DeepView for NetworkState {
    type V = NetworkStateView;

    open spec fn deep_view(&self) -> NetworkStateView {
        NetworkStateView {
            available: self.available,
            wireless_enabled: self.wireless_enabled,
            connectivity: self.connectivity,
            link_kind: self.link_kind,
            interface: self.interface.deep_view(),
            display_name: self.display_name.deep_view(),
            signal_percent: self.signal_percent.deep_view(),
            access_points: self.access_points.deep_view(),
            wifi_devices: self.wifi_devices.deep_view(),
        }
    }
}

impl Value for NetworkState {
    fn same(&self, other: &Self) -> (r: bool) {
        self.available == other.available && self.wireless_enabled == other.wireless_enabled && self.connectivity == other.connectivity && self.link_kind == other.link_kind && self.interface.same(&other.interface) && self.display_name.same(&other.display_name) && self.signal_percent.same(&other.signal_percent) && self.access_points.same(&other.access_points) && self.wifi_devices.same(&other.wifi_devices)
    }

    fn dup(&self) -> (r: Self) {
        NetworkState {
            available: self.available,
            wireless_enabled: self.wireless_enabled,
            connectivity: self.connectivity,
            link_kind: self.link_kind,
            interface: self.interface.dup(),
            display_name: self.display_name.dup(),
            signal_percent: self.signal_percent.dup(),
            access_points: self.access_points.dup(),
            wifi_devices: self.wifi_devices.dup(),
        }
    }
}

impl NetworkStateView {
    /// The model of a default [`NetworkState`].
    pub open spec fn initial() -> NetworkStateView {
        NetworkStateView {
            available: false,
            wireless_enabled: false,
            connectivity: NetworkConnectivity::Disconnected,
            link_kind: NetworkLinkKind::Other,
            interface: None,
            display_name: None,
            signal_percent: None,
            access_points: Seq::empty(),
            wifi_devices: Seq::empty(),
        }
    }
}

impl Default for NetworkState {
    fn default() -> (r: Self)
        ensures
            r.deep_view() == NetworkStateView::initial(),
    {
        let r = NetworkState {
            available: false,
            wireless_enabled: false,
            connectivity: NetworkConnectivity::Disconnected,
            link_kind: NetworkLinkKind::Other,
            interface: None,
            display_name: None,
            signal_percent: None,
            access_points: Vec::new(),
            wifi_devices: Vec::new(),
        };
        assert(r.deep_view() =~= NetworkStateView::initial());
        r
    }
}

/// The state of the Wi-Fi link alone.
#[derive(Clone, Debug, PartialEq)]
pub struct NetworkStatus {
    pub available: bool,
    pub connected: bool,
    pub interface: Option<String>,
    pub ssid: Option<String>,
    pub frequency: Option<u32>,
    pub strength: Option<u8>,
}

/// The model of a [`NetworkStatus`].
#[verifier::ext_equal]
pub struct NetworkStatusView {
    pub available: bool,
    pub connected: bool,
    pub interface: Option<Seq<char>>,
    pub ssid: Option<Seq<char>>,
    pub frequency: Option<u32>,
    pub strength: Option<u8>,
}

impl DeepView for NetworkStatus {
    type V = NetworkStatusView;

    open spec fn deep_view(&self) -> NetworkStatusView {
        NetworkStatusView {
            available: self.available,
            connected: self.connected,
            interface: self.interface.deep_view(),
            ssid: self.ssid.deep_view(),
            frequency: self.frequency.deep_view(),
            strength: self.strength.deep_view(),
        }
    }
}

impl Value for NetworkStatus {
    fn same(&self, other: &Self) -> (r: bool) {
        self.available == other.available && self.connected == other.connected && self.interface.same(&other.interface) && self.ssid.same(&other.ssid) && self.frequency.same(&other.frequency) && self.strength.same(&other.strength)
    }

    fn dup(&self) -> (r: Self) {
        NetworkStatus {
            available: self.available,
            connected: self.connected,
            interface: self.interface.dup(),
            ssid: self.ssid.dup(),
            frequency: self.frequency.dup(),
            strength: self.strength.dup(),
        }
    }
}

impl NetworkStatusView {
    /// The model of a default [`NetworkStatus`].
    pub open spec fn initial() -> NetworkStatusView {
        NetworkStatusView {
            available: false,
            connected: false,
            interface: None,
            ssid: None,
            frequency: None,
            strength: None,
        }
    }
}

impl Default for NetworkStatus {
    fn default() -> (r: Self)
        ensures
            r.deep_view() == NetworkStatusView::initial(),
    {
        let r = NetworkStatus {
            available: false,
            connected: false,
            interface: None,
            ssid: None,
            frequency: None,
            strength: None,
        };
        assert(r.deep_view() =~= NetworkStatusView::initial());
        r
    }
}

/// A known Bluetooth device.
#[derive(Clone, Debug, Eq, PartialEq)]
pub struct BluetoothDevice {
    pub path: String,
    pub address: String,
    pub alias: String,
    pub name: String,
    pub paired: bool,
    pub trusted: bool,
    pub connected: bool,
}

/// The model of a [`BluetoothDevice`].
#[verifier::ext_equal]
pub struct BluetoothDeviceView {
    pub path: Seq<char>,
    pub address: Seq<char>,
    pub alias: Seq<char>,
    pub name: Seq<char>,
    pub paired: bool,
    pub trusted: bool,
    pub connected: bool,
}

impl DeepView for BluetoothDevice {
    type V = BluetoothDeviceView;

    open spec fn deep_view(&self) -> BluetoothDeviceView {
        BluetoothDeviceView {
            path: self.path.deep_view(),
            address: self.address.deep_view(),
            alias: self.alias.deep_view(),
            name: self.name.deep_view(),
            paired: self.paired,
            trusted: self.trusted,
            connected: self.connected,
        }
    }
}

impl Value for BluetoothDevice {
    fn same(&self, other: &Self) -> (r: bool) {
        self.path.same(&other.path) && self.address.same(&other.address) && self.alias.same(&other.alias) && self.name.same(&other.name) && self.paired == other.paired && self.trusted == other.trusted && self.connected == other.connected
    }

    fn dup(&self) -> (r: Self) {
        BluetoothDevice {
            path: self.path.dup(),
            address: self.address.dup(),
            alias: self.alias.dup(),
            name: self.name.dup(),
            paired: self.paired,
            trusted: self.trusted,
            connected: self.connected,
        }
    }
}

impl BluetoothDeviceView {
    /// The model of a default [`BluetoothDevice`].
    pub open spec fn initial() -> BluetoothDeviceView {
        BluetoothDeviceView {
            path: Seq::empty(),
            address: Seq::empty(),
            alias: Seq::empty(),
            name: Seq::empty(),
            paired: false,
            trusted: false,
            connected: false,
        }
    }
}

impl Default for BluetoothDevice {
    fn default() -> (r: Self)
        ensures
            r.deep_view() == BluetoothDeviceView::initial(),
    {
        let r = BluetoothDevice {
            path: String::new(),
            address: String::new(),
            alias: String::new(),
            name: String::new(),
            paired: false,
            trusted: false,
            connected: false,
        };
        assert(r.deep_view() =~= BluetoothDeviceView::initial());
        r
    }
}

/// The Bluetooth adapter as last reported.
#[derive(Clone, Debug, Eq, PartialEq)]
pub struct BluetoothState {
    pub available: bool,
    pub powered: bool,
    pub devices: Vec<BluetoothDevice>,
}

/// The model of a [`BluetoothState`].
#[verifier::ext_equal]
pub struct BluetoothStateView {
    pub available: bool,
    pub powered: bool,
    pub devices: Seq<BluetoothDeviceView>,
}

impl DeepView for BluetoothState {
    type V = BluetoothStateView;

    open spec fn deep_view(&self) -> BluetoothStateView {
        BluetoothStateView {
            available: self.available,
            powered: self.powered,
            devices: self.devices.deep_view(),
        }
    }
}

impl Value for BluetoothState {
    fn same(&self, other: &Self) -> (r: bool) {
        self.available == other.available && self.powered == other.powered && self.devices.same(&other.devices)
    }

    fn dup(&self) -> (r: Self) {
        BluetoothState {
            available: self.available,
            powered: self.powered,
            devices: self.devices.dup(),
        }
    }
}

impl BluetoothStateView {
    /// The model of a default [`BluetoothState`].
    pub open spec fn initial() -> BluetoothStateView {
        BluetoothStateView {
            available: false,
            powered: false,
            devices: Seq::empty(),
        }
    }
}

impl Default for BluetoothState {
    fn default() -> (r: Self)
        ensures
            r.deep_view() == BluetoothStateView::initial(),
    {
        let r = BluetoothState {
            available: false,
            powered: false,
            devices: Vec::new(),
        };
        assert(r.deep_view() =~= BluetoothStateView::initial());
        r
    }
}

/// A Bluetooth request that has not been answered yet.
#[derive(Clone, Debug, Eq, Hash, PartialEq)]
pub enum BluetoothPendingAction {
    SetPowered(bool),
    ConnectDevice(String),
    DisconnectDevice(String),
}

/// The model of a [`BluetoothPendingAction`].
#[verifier::ext_equal]
pub enum BluetoothPendingActionView {
    SetPowered(bool),
    ConnectDevice(Seq<char>),
    DisconnectDevice(Seq<char>),
}

impl DeepView for BluetoothPendingAction {
    type V = BluetoothPendingActionView;

    open spec fn deep_view(&self) -> BluetoothPendingActionView {
        match self {
            BluetoothPendingAction::SetPowered(a) => BluetoothPendingActionView::SetPowered(*a),
            BluetoothPendingAction::ConnectDevice(a) => BluetoothPendingActionView::ConnectDevice(a.deep_view()),
            BluetoothPendingAction::DisconnectDevice(a) => BluetoothPendingActionView::DisconnectDevice(a.deep_view()),
        }
    }
}

impl Value for BluetoothPendingAction {
    fn same(&self, other: &Self) -> (r: bool) {
        match (self, other) {
            (BluetoothPendingAction::SetPowered(a), BluetoothPendingAction::SetPowered(u)) => *a == *u,
            (BluetoothPendingAction::ConnectDevice(a), BluetoothPendingAction::ConnectDevice(u)) => a.same(u),
            (BluetoothPendingAction::DisconnectDevice(a), BluetoothPendingAction::DisconnectDevice(u)) => a.same(u),
            _ => false,
        }
    }

    fn dup(&self) -> (r: Self) {
        match self {
            BluetoothPendingAction::SetPowered(a) => BluetoothPendingAction::SetPowered(*a),
            BluetoothPendingAction::ConnectDevice(a) => BluetoothPendingAction::ConnectDevice(a.dup()),
            BluetoothPendingAction::DisconnectDevice(a) => BluetoothPendingAction::DisconnectDevice(a.dup()),
        }
    }
}

/// An item whose application has been told that its submenu is about to be shown.
#[derive(Clone, Debug, PartialEq)]
pub struct AboutToShowPending {
    pub window_id: WindowId,
    pub endpoint: MenuSource,
    pub item_id: MenuItemId,
    pub request_id: u64,
    pub lazy_root: bool,
    pub intent_id: Option<u64>,
    pub watcher_generation: Option<u64>,
}

/// The model of a [`AboutToShowPending`].
#[verifier::ext_equal]
pub struct AboutToShowPendingView {
    pub window_id: WindowId,
    pub endpoint: MenuSourceView,
    pub item_id: MenuItemId,
    pub request_id: u64,
    pub lazy_root: bool,
    pub intent_id: Option<u64>,
    pub watcher_generation: Option<u64>,
}

impl DeepView for AboutToShowPending {
    type V = AboutToShowPendingView;

    open spec fn deep_view(&self) -> AboutToShowPendingView {
        AboutToShowPendingView {
            window_id: self.window_id,
            endpoint: self.endpoint.deep_view(),
            item_id: self.item_id,
            request_id: self.request_id,
            lazy_root: self.lazy_root,
            intent_id: self.intent_id.deep_view(),
            watcher_generation: self.watcher_generation.deep_view(),
        }
    }
}

impl Value for AboutToShowPending {
    fn same(&self, other: &Self) -> (r: bool) {
        self.window_id == other.window_id && self.endpoint.same(&other.endpoint) && self.item_id == other.item_id && self.request_id == other.request_id && self.lazy_root == other.lazy_root && self.intent_id.same(&other.intent_id) && self.watcher_generation.same(&other.watcher_generation)
    }

    fn dup(&self) -> (r: Self) {
        AboutToShowPending {
            window_id: self.window_id,
            endpoint: self.endpoint.dup(),
            item_id: self.item_id,
            request_id: self.request_id,
            lazy_root: self.lazy_root,
            intent_id: self.intent_id.dup(),
            watcher_generation: self.watcher_generation.dup(),
        }
    }
}

/// A top-level menu that the user wants open and whose children are still to be loaded.
#[derive(Clone, Debug, PartialEq)]
pub struct LazyRootOpenPending {
    pub window_id: WindowId,
    pub endpoint: MenuSource,
    pub item_id: MenuItemId,
    pub intent_id: u64,
    pub watcher_generation: u64,
    pub layout_request_id: Option<u64>,
}

/// The model of a [`LazyRootOpenPending`].
#[verifier::ext_equal]
pub struct LazyRootOpenPendingView {
    pub window_id: WindowId,
    pub endpoint: MenuSourceView,
    pub item_id: MenuItemId,
    pub intent_id: u64,
    pub watcher_generation: u64,
    pub layout_request_id: Option<u64>,
}

impl DeepView for LazyRootOpenPending {
    type V = LazyRootOpenPendingView;

    open spec fn deep_view(&self) -> LazyRootOpenPendingView {
        LazyRootOpenPendingView {
            window_id: self.window_id,
            endpoint: self.endpoint.deep_view(),
            item_id: self.item_id,
            intent_id: self.intent_id,
            watcher_generation: self.watcher_generation,
            layout_request_id: self.layout_request_id.deep_view(),
        }
    }
}

impl Value for LazyRootOpenPending {
    fn same(&self, other: &Self) -> (r: bool) {
        self.window_id == other.window_id && self.endpoint.same(&other.endpoint) && self.item_id == other.item_id && self.intent_id == other.intent_id && self.watcher_generation == other.watcher_generation && self.layout_request_id.same(&other.layout_request_id)
    }

    fn dup(&self) -> (r: Self) {
        LazyRootOpenPending {
            window_id: self.window_id,
            endpoint: self.endpoint.dup(),
            item_id: self.item_id,
            intent_id: self.intent_id,
            watcher_generation: self.watcher_generation,
            layout_request_id: self.layout_request_id.dup(),
        }
    }
}

/// Which part of the presented menu is open.
#[derive(Clone, Debug, PartialEq)]
pub struct MenuInteractionState {
    pub open_root: Option<MenuItemId>,
    pub open_path: Vec<MenuItemId>,
    pub hovered_path: Vec<MenuItemId>,
    pub about_to_show_item: Option<MenuItemId>,
    pub pending_about_to_show: Option<AboutToShowPending>,
    pub pending_lazy_root: Option<LazyRootOpenPending>,
}

/// The model of a [`MenuInteractionState`].
#[verifier::ext_equal]
pub struct MenuInteractionStateView {
    pub open_root: Option<MenuItemId>,
    pub open_path: Seq<MenuItemId>,
    pub hovered_path: Seq<MenuItemId>,
    pub about_to_show_item: Option<MenuItemId>,
    pub pending_about_to_show: Option<AboutToShowPendingView>,
    pub pending_lazy_root: Option<LazyRootOpenPendingView>,
}

impl DeepView for MenuInteractionState {
    type V = MenuInteractionStateView;

    open spec fn deep_view(&self) -> MenuInteractionStateView {
        MenuInteractionStateView {
            open_root: self.open_root.deep_view(),
            open_path: self.open_path.deep_view(),
            hovered_path: self.hovered_path.deep_view(),
            about_to_show_item: self.about_to_show_item.deep_view(),
            pending_about_to_show: self.pending_about_to_show.deep_view(),
            pending_lazy_root: self.pending_lazy_root.deep_view(),
        }
    }
}

impl Value for MenuInteractionState {
    fn same(&self, other: &Self) -> (r: bool) {
        self.open_root.same(&other.open_root) && self.open_path.same(&other.open_path) && self.hovered_path.same(&other.hovered_path) && self.about_to_show_item.same(&other.about_to_show_item) && self.pending_about_to_show.same(&other.pending_about_to_show) && self.pending_lazy_root.same(&other.pending_lazy_root)
    }

    fn dup(&self) -> (r: Self) {
        MenuInteractionState {
            open_root: self.open_root.dup(),
            open_path: self.open_path.dup(),
            hovered_path: self.hovered_path.dup(),
            about_to_show_item: self.about_to_show_item.dup(),
            pending_about_to_show: self.pending_about_to_show.dup(),
            pending_lazy_root: self.pending_lazy_root.dup(),
        }
    }
}

impl MenuInteractionStateView {
    /// The model of a default [`MenuInteractionState`].
    pub open spec fn initial() -> MenuInteractionStateView {
        MenuInteractionStateView {
            open_root: None,
            open_path: Seq::empty(),
            hovered_path: Seq::empty(),
            about_to_show_item: None,
            pending_about_to_show: None,
            pending_lazy_root: None,
        }
    }
}

impl Default for MenuInteractionState {
    fn default() -> (r: Self)
        ensures
            r.deep_view() == MenuInteractionStateView::initial(),
    {
        let r = MenuInteractionState {
            open_root: None,
            open_path: Vec::new(),
            hovered_path: Vec::new(),
            about_to_show_item: None,
            pending_about_to_show: None,
            pending_lazy_root: None,
        };
        assert(r.deep_view() =~= MenuInteractionStateView::initial());
        r
    }
}

/// Identifies the remote source currently allowed to present and update the canonical global-menu
/// model. It is independent of real X11 focus: while the policy is to follow focus it goes along
/// with it, while a pinned presentation keeps this identity as `focused_window` moves on.
#[derive(Clone, Debug, Eq, PartialEq)]
pub struct MenuPresentation {
    pub window_id: WindowId,
    pub endpoint: MenuSource,
}

/// The model of a [`MenuPresentation`].
#[verifier::ext_equal]
pub struct MenuPresentationView {
    pub window_id: WindowId,
    pub endpoint: MenuSourceView,
}

impl DeepView for MenuPresentation {
    type V = MenuPresentationView;

    open spec fn deep_view(&self) -> MenuPresentationView {
        MenuPresentationView {
            window_id: self.window_id,
            endpoint: self.endpoint.deep_view(),
        }
    }
}

impl Value for MenuPresentation {
    fn same(&self, other: &Self) -> (r: bool) {
        self.window_id == other.window_id && self.endpoint.same(&other.endpoint)
    }

    fn dup(&self) -> (r: Self) {
        MenuPresentation {
            window_id: self.window_id,
            endpoint: self.endpoint.dup(),
        }
    }
}

/// Whether the presented menu goes along with focus or stays with one workspace.
#[derive(Clone, Debug, Eq, PartialEq)]
pub enum MenuPresentationPolicy {
    FollowFocus,
    Pinned { workspace: String },
}

/// The model of a [`MenuPresentationPolicy`].
#[verifier::ext_equal]
pub enum MenuPresentationPolicyView {
    FollowFocus,
    Pinned { workspace: Seq<char> },
}

impl DeepView for MenuPresentationPolicy {
    type V = MenuPresentationPolicyView;

    open spec fn deep_view(&self) -> MenuPresentationPolicyView {
        match self {
            MenuPresentationPolicy::FollowFocus => MenuPresentationPolicyView::FollowFocus,
            MenuPresentationPolicy::Pinned { workspace } => MenuPresentationPolicyView::Pinned { workspace: workspace.deep_view() },
        }
    }
}

impl Value for MenuPresentationPolicy {
    fn same(&self, other: &Self) -> (r: bool) {
        match (self, other) {
            (MenuPresentationPolicy::FollowFocus, MenuPresentationPolicy::FollowFocus) => true,
            (MenuPresentationPolicy::Pinned { workspace: a_workspace }, MenuPresentationPolicy::Pinned { workspace: b_workspace }) => a_workspace.same(b_workspace),
            _ => false,
        }
    }

    fn dup(&self) -> (r: Self) {
        match self {
            MenuPresentationPolicy::FollowFocus => MenuPresentationPolicy::FollowFocus,
            MenuPresentationPolicy::Pinned { workspace } => MenuPresentationPolicy::Pinned { workspace: workspace.dup() },
        }
    }
}

impl MenuPresentationPolicyView {
    /// The model of a default [`MenuPresentationPolicy`].
    pub open spec fn initial() -> MenuPresentationPolicyView {
        MenuPresentationPolicyView::FollowFocus
    }
}

impl Default for MenuPresentationPolicy {
    fn default() -> (r: Self)
        ensures
            r.deep_view() == MenuPresentationPolicyView::initial(),
    {
        MenuPresentationPolicy::FollowFocus
    }
}

/// How far the keyboard grab of a navigation session has come.
#[derive(Clone, Copy, Debug, Default, Eq, PartialEq, Structural)]
pub enum KeyboardGrabState {
    #[default]
    Requested,
    Active,
    Failed,
}

impl DeepView for KeyboardGrabState {
    type V = KeyboardGrabState;

    open spec fn deep_view(&self) -> KeyboardGrabState {
        *self
    }
}

impl Value for KeyboardGrabState {
    fn same(&self, other: &Self) -> (r: bool) {
        *self == *other
    }

    fn dup(&self) -> (r: Self) {
        *self
    }
}

/// Keyboard navigation through the presented menu.
#[derive(Clone, Debug, Eq, PartialEq)]
pub struct MenuNavigationSession {
    pub id: u64,
    pub source_window: WindowId,
    pub endpoint: MenuSource,
    pub selected_path: Option<Vec<MenuItemId>>,
    pub grab_state: KeyboardGrabState,
}

/// The model of a [`MenuNavigationSession`].
#[verifier::ext_equal]
pub struct MenuNavigationSessionView {
    pub id: u64,
    pub source_window: WindowId,
    pub endpoint: MenuSourceView,
    pub selected_path: Option<Seq<MenuItemId>>,
    pub grab_state: KeyboardGrabState,
}

impl DeepView for MenuNavigationSession {
    type V = MenuNavigationSessionView;

    open spec fn deep_view(&self) -> MenuNavigationSessionView {
        MenuNavigationSessionView {
            id: self.id,
            source_window: self.source_window,
            endpoint: self.endpoint.deep_view(),
            selected_path: self.selected_path.deep_view(),
            grab_state: self.grab_state,
        }
    }
}

impl Value for MenuNavigationSession {
    fn same(&self, other: &Self) -> (r: bool) {
        self.id == other.id && self.source_window == other.source_window && self.endpoint.same(&other.endpoint) && self.selected_path.same(&other.selected_path) && self.grab_state == other.grab_state
    }

    fn dup(&self) -> (r: Self) {
        MenuNavigationSession {
            id: self.id,
            source_window: self.source_window,
            endpoint: self.endpoint.dup(),
            selected_path: self.selected_path.dup(),
            grab_state: self.grab_state,
        }
    }
}

/// How far the menu to be shown has been loaded.
#[derive(Clone, Debug, PartialEq)]
pub enum MenuState {
    NoMenu,
    Loading { window_id: WindowId, endpoint: MenuSource, request_id: u64 },
    Loaded { window_id: WindowId, endpoint: MenuSource, model: MenuModel },
    Error { window_id: WindowId, endpoint: MenuSource, request_id: u64, error: String },
    TrayLoading { endpoint: MenuEndpoint, request_id: u64 },
    TrayLoaded { endpoint: MenuEndpoint, model: MenuModel },
    TrayError { endpoint: MenuEndpoint, request_id: u64, error: String },
}

/// The model of a [`MenuState`].
#[verifier::ext_equal]
pub enum MenuStateView {
    NoMenu,
    Loading { window_id: WindowId, endpoint: MenuSourceView, request_id: u64 },
    Loaded { window_id: WindowId, endpoint: MenuSourceView, model: MenuModelView },
    Error { window_id: WindowId, endpoint: MenuSourceView, request_id: u64, error: Seq<char> },
    TrayLoading { endpoint: MenuEndpointView, request_id: u64 },
    TrayLoaded { endpoint: MenuEndpointView, model: MenuModelView },
    TrayError { endpoint: MenuEndpointView, request_id: u64, error: Seq<char> },
}

impl DeepView for MenuState {
    type V = MenuStateView;

    open spec fn deep_view(&self) -> MenuStateView {
        match self {
            MenuState::NoMenu => MenuStateView::NoMenu,
            MenuState::Loading { window_id, endpoint, request_id } => MenuStateView::Loading { window_id: *window_id, endpoint: endpoint.deep_view(), request_id: *request_id },
            MenuState::Loaded { window_id, endpoint, model } => MenuStateView::Loaded { window_id: *window_id, endpoint: endpoint.deep_view(), model: model.deep_view() },
            MenuState::Error { window_id, endpoint, request_id, error } => MenuStateView::Error { window_id: *window_id, endpoint: endpoint.deep_view(), request_id: *request_id, error: error.deep_view() },
            MenuState::TrayLoading { endpoint, request_id } => MenuStateView::TrayLoading { endpoint: endpoint.deep_view(), request_id: *request_id },
            MenuState::TrayLoaded { endpoint, model } => MenuStateView::TrayLoaded { endpoint: endpoint.deep_view(), model: model.deep_view() },
            MenuState::TrayError { endpoint, request_id, error } => MenuStateView::TrayError { endpoint: endpoint.deep_view(), request_id: *request_id, error: error.deep_view() },
        }
    }
}

impl MenuStateView {
    /// The model of a default [`MenuState`].
    pub open spec fn initial() -> MenuStateView {
        MenuStateView::NoMenu
    }
}

impl Default for MenuState {
    fn default() -> (r: Self)
        ensures
            r.deep_view() == MenuStateView::initial(),
    {
        MenuState::NoMenu
    }
}

/// Everything that the bar shows or remembers.
#[derive(Clone, Debug, PartialEq)]
pub struct State {
    pub outputs: Vec<OutputState>,
    pub workspaces: Vec<WorkspaceState>,
    pub focused_workspace: Option<String>,
    pub focused_window: Option<WindowId>,
    pub focused_app_name: Option<String>,
    pub menu_presentation: Option<MenuPresentation>,
    pub menu_presentation_policy: MenuPresentationPolicy,
    pub menu_presentation_needs_focus_reconciliation: bool,
    pub menu_navigation: Option<MenuNavigationSession>,
    pub next_menu_navigation_session: u64,
    pub menu: MenuState,
    pub global_menu_model: Option<(WindowId, MenuSource, MenuModel)>,
    pub watcher_generations: Table<MenuSource, u64>,
    pub next_lazy_root_intent: u64,
    pub menu_interaction: MenuInteractionState,
    pub clock: Option<ClockState>,
    pub audio: AudioState,
    pub network: NetworkState,
    pub network_status: NetworkStatus,
    pub network_status_authoritative: bool,
    pub network_pending: Vec<NetworkPendingAction>,
    pub bluetooth: BluetoothState,
    pub bluetooth_pending: Vec<BluetoothPendingAction>,
    pub bluetooth_popup_open: bool,
    pub network_popup_open: bool,
    pub network_popup_open_pending: bool,
    pub ai_usage: Vec<ActiveAgentUsage>,
    pub plugin_zone: PluginZoneState,
    pub audio_popup_open: bool,
    pub notifications: Vec<Notification>,
    pub notification_history: Vec<NotificationHistoryEntry>,
    pub notification_action_projections: Vec<NotificationActionProjection>,
    pub notification_center_open: Option<OutputId>,
    pub expanded_notification_groups: KeySet<GroupKey>,
    pub audio_dragging: bool,
    pub audio_drag_input: bool,
    pub status_notifiers: StatusNotifierRegistry,
    pub status_notifier_items: StatusNotifierItemRegistry,
    pub status_notifier_host_registered: bool,
}

/// The model of a [`State`].
#[verifier::ext_equal]
pub struct StateView {
    pub outputs: Seq<OutputStateView>,
    pub workspaces: Seq<WorkspaceStateView>,
    pub focused_workspace: Option<Seq<char>>,
    pub focused_window: Option<WindowId>,
    pub focused_app_name: Option<Seq<char>>,
    pub menu_presentation: Option<MenuPresentationView>,
    pub menu_presentation_policy: MenuPresentationPolicyView,
    pub menu_presentation_needs_focus_reconciliation: bool,
    pub menu_navigation: Option<MenuNavigationSessionView>,
    pub next_menu_navigation_session: u64,
    pub menu: MenuStateView,
    pub global_menu_model: Option<(WindowId, MenuSourceView, MenuModelView)>,
    pub watcher_generations: Map<MenuSourceView, u64>,
    pub next_lazy_root_intent: u64,
    pub menu_interaction: MenuInteractionStateView,
    pub clock: Option<ClockState>,
    pub audio: AudioStateView,
    pub network: NetworkStateView,
    pub network_status: NetworkStatusView,
    pub network_status_authoritative: bool,
    pub network_pending: Seq<NetworkPendingAction>,
    pub bluetooth: BluetoothStateView,
    pub bluetooth_pending: Seq<BluetoothPendingActionView>,
    pub bluetooth_popup_open: bool,
    pub network_popup_open: bool,
    pub network_popup_open_pending: bool,
    pub ai_usage: Seq<ActiveAgentUsageView>,
    pub plugin_zone: PluginZoneStateView,
    pub audio_popup_open: bool,
    pub notifications: Seq<NotificationView>,
    pub notification_history: Seq<NotificationHistoryEntryView>,
    pub notification_action_projections: Seq<NotificationActionProjectionView>,
    pub notification_center_open: Option<OutputId>,
    pub expanded_notification_groups: Set<GroupKeyView>,
    pub audio_dragging: bool,
    pub audio_drag_input: bool,
    pub status_notifiers: Seq<StatusNotifierEndpointView>,
    pub status_notifier_items: Seq<StatusNotifierItemView>,
    pub status_notifier_host_registered: bool,
}

impl DeepView for State {
    type V = StateView;

    open spec fn deep_view(&self) -> StateView {
        StateView {
            outputs: self.outputs.deep_view(),
            workspaces: self.workspaces.deep_view(),
            focused_workspace: self.focused_workspace.deep_view(),
            focused_window: self.focused_window.deep_view(),
            focused_app_name: self.focused_app_name.deep_view(),
            menu_presentation: self.menu_presentation.deep_view(),
            menu_presentation_policy: self.menu_presentation_policy.deep_view(),
            menu_presentation_needs_focus_reconciliation: self.menu_presentation_needs_focus_reconciliation,
            menu_navigation: self.menu_navigation.deep_view(),
            next_menu_navigation_session: self.next_menu_navigation_session,
            menu: self.menu.deep_view(),
            global_menu_model: self.global_menu_model.deep_view(),
            watcher_generations: self.watcher_generations.deep_view(),
            next_lazy_root_intent: self.next_lazy_root_intent,
            menu_interaction: self.menu_interaction.deep_view(),
            clock: self.clock.deep_view(),
            audio: self.audio.deep_view(),
            network: self.network.deep_view(),
            network_status: self.network_status.deep_view(),
            network_status_authoritative: self.network_status_authoritative,
            network_pending: self.network_pending.deep_view(),
            bluetooth: self.bluetooth.deep_view(),
            bluetooth_pending: self.bluetooth_pending.deep_view(),
            bluetooth_popup_open: self.bluetooth_popup_open,
            network_popup_open: self.network_popup_open,
            network_popup_open_pending: self.network_popup_open_pending,
            ai_usage: self.ai_usage.deep_view(),
            plugin_zone: self.plugin_zone.deep_view(),
            audio_popup_open: self.audio_popup_open,
            notifications: self.notifications.deep_view(),
            notification_history: self.notification_history.deep_view(),
            notification_action_projections: self.notification_action_projections.deep_view(),
            notification_center_open: self.notification_center_open.deep_view(),
            expanded_notification_groups: self.expanded_notification_groups.deep_view(),
            audio_dragging: self.audio_dragging,
            audio_drag_input: self.audio_drag_input,
            status_notifiers: self.status_notifiers.deep_view(),
            status_notifier_items: self.status_notifier_items.deep_view(),
            status_notifier_host_registered: self.status_notifier_host_registered,
        }
    }
}

impl StateView {
    /// The model of a default [`State`].
    pub open spec fn initial() -> StateView {
        StateView {
            outputs: Seq::empty(),
            workspaces: Seq::empty(),
            focused_workspace: None,
            focused_window: None,
            focused_app_name: None,
            menu_presentation: None,
            menu_presentation_policy: MenuPresentationPolicyView::initial(),
            menu_presentation_needs_focus_reconciliation: false,
            menu_navigation: None,
            next_menu_navigation_session: 0,
            menu: MenuStateView::initial(),
            global_menu_model: None,
            watcher_generations: Map::empty(),
            next_lazy_root_intent: 0,
            menu_interaction: MenuInteractionStateView::initial(),
            clock: None,
            audio: AudioStateView::initial(),
            network: NetworkStateView::initial(),
            network_status: NetworkStatusView::initial(),
            network_status_authoritative: false,
            network_pending: Seq::empty(),
            bluetooth: BluetoothStateView::initial(),
            bluetooth_pending: Seq::empty(),
            bluetooth_popup_open: false,
            network_popup_open: false,
            network_popup_open_pending: false,
            ai_usage: Seq::empty(),
            plugin_zone: PluginZoneStateView::initial(),
            audio_popup_open: false,
            notifications: Seq::empty(),
            notification_history: Seq::empty(),
            notification_action_projections: Seq::empty(),
            notification_center_open: None,
            expanded_notification_groups: Set::empty(),
            audio_dragging: false,
            audio_drag_input: false,
            status_notifiers: Seq::empty(),
            status_notifier_items: Seq::empty(),
            status_notifier_host_registered: false,
        }
    }
}

impl Default for State {
    fn default() -> (r: Self)
        ensures
            r.deep_view() == StateView::initial(),
    {
        let r = State {
            outputs: Vec::new(),
            workspaces: Vec::new(),
            focused_workspace: None,
            focused_window: None,
            focused_app_name: None,
            menu_presentation: None,
            menu_presentation_policy: MenuPresentationPolicy::default(),
            menu_presentation_needs_focus_reconciliation: false,
            menu_navigation: None,
            next_menu_navigation_session: 0,
            menu: MenuState::default(),
            global_menu_model: None,
            watcher_generations: Table::new(),
            next_lazy_root_intent: 0,
            menu_interaction: MenuInteractionState::default(),
            clock: None,
            audio: AudioState::default(),
            network: NetworkState::default(),
            network_status: NetworkStatus::default(),
            network_status_authoritative: false,
            network_pending: Vec::new(),
            bluetooth: BluetoothState::default(),
            bluetooth_pending: Vec::new(),
            bluetooth_popup_open: false,
            network_popup_open: false,
            network_popup_open_pending: false,
            ai_usage: Vec::new(),
            plugin_zone: PluginZoneState::default(),
            audio_popup_open: false,
            notifications: Vec::new(),
            notification_history: Vec::new(),
            notification_action_projections: Vec::new(),
            notification_center_open: None,
            expanded_notification_groups: KeySet::new(),
            audio_dragging: false,
            audio_drag_input: false,
            status_notifiers: StatusNotifierRegistry::default(),
            status_notifier_items: StatusNotifierItemRegistry::default(),
            status_notifier_host_registered: false,
        };
        assert(r.deep_view() =~= StateView::initial());
        r
    }
}

impl StateView {
    /// The menu that is loaded.
    pub open spec fn active_menu_model(self) -> Option<MenuModelView> {
        match self.menu {
            MenuStateView::Loaded { model, .. } => Some(model),
            MenuStateView::TrayLoaded { model, .. } => Some(model),
            _ => None,
        }
    }

    /// The source whose menu is presented: that of the presentation, or else that of the focused
    /// window.
    pub open spec fn active_menu_endpoint(self, registry: MenuRegistryView) -> Option<
        MenuSourceView,
    > {
        match self.menu_presentation {
            Some(presentation) => Some(presentation.endpoint),
            None => menu::active_source(registry, self.focused_window),
        }
    }

    /// Whether a window's menu is the one presented. Without a presentation the focused window
    /// counts, whatever its source.
    pub open spec fn menu_presentation_matches(
        self,
        window_id: WindowId,
        endpoint: MenuSourceView,
    ) -> bool {
        match self.menu_presentation {
            Some(presentation) => presentation.window_id == window_id && presentation.endpoint
                == endpoint,
            None => self.focused_window == Some(window_id),
        }
    }

    /// The window whose menu is presented.
    pub open spec fn menu_presentation_window(self) -> Option<WindowId> {
        match self.menu_presentation {
            Some(presentation) => Some(presentation.window_id),
            None => self.focused_window,
        }
    }

    /// The source that the menu comes from, or else the one it would come from.
    pub open spec fn current_menu_source(self, registry: MenuRegistryView) -> Option<
        MenuSourceView,
    > {
        match self.menu {
            MenuStateView::Loading { endpoint, .. } => Some(endpoint),
            MenuStateView::Loaded { endpoint, .. } => Some(endpoint),
            MenuStateView::Error { endpoint, .. } => Some(endpoint),
            MenuStateView::TrayLoading { endpoint, .. } => Some(MenuSourceView::Tray(endpoint)),
            MenuStateView::TrayLoaded { endpoint, .. } => Some(MenuSourceView::Tray(endpoint)),
            MenuStateView::TrayError { endpoint, .. } => Some(MenuSourceView::Tray(endpoint)),
            MenuStateView::NoMenu => self.active_menu_endpoint(registry),
        }
    }
}

impl State {
    /// The menu that is loaded.
    pub fn active_menu_model(&self) -> (r: Option<&MenuModel>)
        ensures
            r.deep_view() == self.deep_view().active_menu_model(),
    {
        match &self.menu {
            MenuState::Loaded { model, .. } => Some(model),
            MenuState::TrayLoaded { model, .. } => Some(model),
            _ => None,
        }
    }

    /// The source whose menu is presented.
    pub fn active_menu_endpoint(&self, registry: &MenuRegistry) -> (r: Option<MenuSource>)
        ensures
            r.deep_view() == self.deep_view().active_menu_endpoint(registry.deep_view()),
    {
        match &self.menu_presentation {
            Some(presentation) => Some(presentation.endpoint.dup()),
            None => registry.active(self.focused_window),
        }
    }

    /// Whether a window's menu is the one presented.
    pub fn menu_presentation_matches(&self, window_id: WindowId, endpoint: &MenuSource) -> (r: bool)
        ensures
            r == self.deep_view().menu_presentation_matches(window_id, endpoint.deep_view()),
    {
        match &self.menu_presentation {
            Some(presentation) => presentation.window_id == window_id && presentation.endpoint.same(
                endpoint,
            ),
            None => self.focused_window.same(&Some(window_id)),
        }
    }

    /// The window whose menu is presented.
    pub fn menu_presentation_window(&self) -> (r: Option<WindowId>)
        ensures
            r == self.deep_view().menu_presentation_window(),
    {
        match &self.menu_presentation {
            Some(presentation) => Some(presentation.window_id),
            None => self.focused_window,
        }
    }

    /// The source that the menu comes from, or else the one it would come from.
    pub fn current_menu_source(&self, registry: &MenuRegistry) -> (r: Option<MenuSource>)
        ensures
            r.deep_view() == self.deep_view().current_menu_source(registry.deep_view()),
    {
        match &self.menu {
            MenuState::Loading { endpoint, .. } => Some(endpoint.dup()),
            MenuState::Loaded { endpoint, .. } => Some(endpoint.dup()),
            MenuState::Error { endpoint, .. } => Some(endpoint.dup()),
            MenuState::TrayLoading { endpoint, .. } => Some(MenuSource::Tray(endpoint.dup())),
            MenuState::TrayLoaded { endpoint, .. } => Some(MenuSource::Tray(endpoint.dup())),
            MenuState::TrayError { endpoint, .. } => Some(MenuSource::Tray(endpoint.dup())),
            MenuState::NoMenu => self.active_menu_endpoint(registry),
        }
    }
}

/// The label of the radio band that a frequency in MHz lies in.
pub open spec fn band_label(frequency: u32) -> Seq<char> {
    if 2400 <= frequency <= 2500 {
        "2.4 GHz"@
    } else if 4900 <= frequency <= 6000 {
        "5 GHz"@
    } else {
        "unknown band"@
    }
}

/// The label of the radio band that a frequency in MHz lies in.
pub fn wifi_band(frequency: u32) -> (r: &'static str)
    ensures
        r@ == band_label(frequency),
{
    if 2400 <= frequency && frequency <= 2500 {
        "2.4 GHz"
    } else if 4900 <= frequency && frequency <= 6000 {
        "5 GHz"
    } else {
        "unknown band"
    }
}

/// The label of a Wi-Fi adapter state as NetworkManager numbers it.
pub fn wifi_device_state_label(state: u32) -> (r: &'static str)
    ensures
        state == 10 ==> r@ == "Não gerenciada"@,
        state == 20 ==> r@ == "Indisponível"@,
        state == 30 ==> r@ == "Desconectada"@,
        40 <= state <= 90 ==> r@ == "Conectando"@,
        state == 100 ==> r@ == "Conectada"@,
        state == 110 ==> r@ == "Desconectando"@,
        state == 120 ==> r@ == "Falha"@,
        state != 10 && state != 20 && state != 30 && !(40 <= state <= 90) && state != 100 && state
            != 110 && state != 120 ==> r@ == "Estado desconhecido"@,
{
    if state == 10 {
        "Não gerenciada"
    } else if state == 20 {
        "Indisponível"
    } else if state == 30 {
        "Desconectada"
    } else if 40 <= state && state <= 90 {
        "Conectando"
    } else if state == 100 {
        "Conectada"
    } else if state == 110 {
        "Desconectando"
    } else if state == 120 {
        "Falha"
    } else {
        "Estado desconhecido"
    }
}

/// The presented menu is that of the presentation, whichever window is focused; without a presentation it
/// is that of the focused window.
pub proof fn lemma_presentation_leads(
    s: StateView,
    registry: MenuRegistryView,
    window_id: WindowId,
    endpoint: MenuSourceView,
)
    ensures
        s.menu_presentation matches Some(presented) ==> {
            &&& s.active_menu_endpoint(registry) == Some(presented.endpoint)
            &&& s.menu_presentation_window() == Some(presented.window_id)
            &&& s.menu_presentation_matches(window_id, endpoint) <==> window_id
                == presented.window_id && endpoint == presented.endpoint
        },
        s.menu_presentation is None ==> {
            &&& s.active_menu_endpoint(registry) == menu::active_source(registry, s.focused_window)
            &&& s.menu_presentation_window() == s.focused_window
            &&& s.menu_presentation_matches(window_id, endpoint) <==> s.focused_window == Some(
                window_id,
            )
        },
        s.active_menu_model() is Some ==> s.menu is Loaded || s.menu is TrayLoaded,
        s.menu matches MenuStateView::Loaded { endpoint, model, .. } ==> s.active_menu_model()
            == Some(model) && s.current_menu_source(registry) == Some(endpoint),
        s.menu matches MenuStateView::TrayLoaded { endpoint, model } ==> s.active_menu_model()
            == Some(model) && s.current_menu_source(registry) == Some(MenuSourceView::Tray(endpoint)),
        s.menu is NoMenu ==> s.current_menu_source(registry) == s.active_menu_endpoint(registry),
{
}

} // verus!
