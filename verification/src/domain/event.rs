//! Everything that can happen to the bar.
use vstd::prelude::*;

use crate::calendar::TodayAgenda;
use crate::domain::menu::{
    GtkMenuEndpoint, MenuEndpoint, MenuItemId, MenuItemPropertiesUpdate, MenuModel, MenuSource,
};
use crate::domain::notification::{
    GroupKey, HistoryEntryId, Notification, NotificationActionProjection, NotificationHistoryEntry,
};
use crate::domain::state::{
    AudioDevice, AudioState, BluetoothPendingAction, BluetoothState, ClockState,
    NetworkPendingAction, NetworkState, NetworkStatus, NetworkWifiTarget, OutputId, OutputState,
    WindowId, WorkspaceState,
};
use crate::domain::status_notifier::{
    StatusNotifierAction, StatusNotifierEndpoint, StatusNotifierItem,
};
use crate::domain::usage::{ActiveAgentUsage, PluginId};
use crate::platform::x11::X11Event;

verus! {

/// Something that happened, on the desktop or to the bar itself.
#[derive(Clone, Debug, PartialEq)]
pub enum Event {
    WorkspacesSnapshot(Vec<WorkspaceState>),
    WorkspaceFocused {
        name: Option<String>,
    },
    WindowFocused(Option<WindowId>),
    WindowFocusedWithApp {
        window: Option<WindowId>,
        app_name: Option<String>,
    },
    MenuRegistered {
        window_id: WindowId,
        endpoint: MenuSource,
    },
    GtkMenuDiscovered {
        window_id: WindowId,
        endpoint: GtkMenuEndpoint,
    },
    GtkMenuRemoved {
        window_id: WindowId,
        endpoint: GtkMenuEndpoint,
    },
    MenuUnregistered {
        window_id: WindowId,
    },
    MenuOwnerVanished {
        sender: String,
    },
    MenuWatcherReady {
        endpoint: MenuSource,
        watcher_generation: u64,
        request_id: u64,
    },
    MenuLoadRequested {
        window_id: WindowId,
        endpoint: MenuSource,
        request_id: u64,
    },
    MenuLazyRootLayoutRequested {
        window_id: WindowId,
        endpoint: MenuSource,
        request_id: u64,
        intent_id: u64,
        watcher_generation: u64,
    },
    MenuLazyRootLoadConvergence {
        window_id: WindowId,
        endpoint: MenuSource,
        request_id: u64,
        follow_up_request_id: Option<u64>,
    },
    MenuLoaded {
        window_id: WindowId,
        endpoint: MenuSource,
        request_id: u64,
        model: MenuModel,
    },
    MenuLoadFailed {
        window_id: WindowId,
        endpoint: MenuSource,
        request_id: u64,
        error: String,
    },
    MenuRootClicked(MenuItemId),
    MenuItemActivateRequested {
        window_id: WindowId,
        endpoint: MenuSource,
        item_id: MenuItemId,
        timestamp: u32,
    },
    MenuItemHovered {
        path: Vec<MenuItemId>,
    },
    MenuClickedOutside,
    PassivePopupDismissRequested {
        ai_usage: bool,
        notification_center: bool,
    },
    PinCurrentMenuPresentation,
    UnpinMenuPresentation,
    ToggleMenuPresentationPin,
    MenuNavigationStarted,
    MenuNavigateLeft,
    MenuNavigateRight,
    MenuNavigateUp,
    MenuNavigateDown,
    MenuNavigateEnter,
    MenuNavigateEscape,
    KeyboardGrabAcquired {
        session_id: u64,
    },
    KeyboardGrabFailed {
        session_id: u64,
    },
    TrayMenuOpenRequested {
        endpoint: MenuEndpoint,
    },
    TrayMenuLoaded {
        endpoint: MenuEndpoint,
        request_id: u64,
        model: MenuModel,
    },
    TrayMenuLoadFailed {
        endpoint: MenuEndpoint,
        request_id: u64,
        error: String,
    },
    MenuAboutToShowRequested {
        window_id: WindowId,
        endpoint: MenuSource,
        item_id: MenuItemId,
        request_id: u64,
        lazy_root: bool,
        intent_id: Option<u64>,
        watcher_generation: Option<u64>,
    },
    MenuAboutToShowCompleted {
        window_id: WindowId,
        endpoint: MenuSource,
        item_id: MenuItemId,
        request_id: u64,
        lazy_root: bool,
        intent_id: Option<u64>,
        watcher_generation: Option<u64>,
        need_update: bool,
        model: Option<MenuModel>,
        error: Option<String>,
    },
    MenuLayoutInvalidated {
        endpoint: MenuSource,
        watcher_generation: Option<u64>,
        revision: Option<u32>,
    },
    MenuPropertiesUpdated {
        endpoint: MenuSource,
        watcher_generation: Option<u64>,
        updates: Vec<MenuItemPropertiesUpdate>,
    },
    OutputsChanged(Vec<OutputState>),
    ClockUpdated(ClockState),
    AudioSnapshotReceived(AudioState),
    AudioInventoryReceived {
        outputs: Vec<AudioDevice>,
        inputs: Vec<AudioDevice>,
    },
    AudioSelectOutput(String),
    AudioSelectInput(String),
    AudioUnavailable,
    NetworkSnapshotReceived(NetworkState),
    NetworkStatusChanged(NetworkStatus),
    NetworkPopupProjectionChanged(NetworkState),
    NetworkConnectSavedWifi(NetworkWifiTarget),
    NetworkPopupOpenRequested,
    NetworkPopupSnapshotReceived(NetworkState),
    NetworkPopupSnapshotFailed,
    NetworkPopupToggled,
    NetworkSetWireless(bool),
    NetworkActionFinished(NetworkPendingAction),
    ActiveAiUsageChanged(Vec<ActiveAgentUsage>),
    AiUsagePopupToggled {
        plugin: PluginId,
        output: OutputId,
    },
    BluetoothSnapshotReceived(BluetoothState),
    BluetoothUnavailable,
    BluetoothPopupToggled,
    BluetoothSetPowered(bool),
    BluetoothConnectDevice(String),
    BluetoothDisconnectDevice(String),
    BluetoothActionFinished(BluetoothPendingAction),
    NotificationsSnapshot(Vec<Notification>),
    NotificationsState {
        active: Vec<Notification>,
        history: Vec<NotificationHistoryEntry>,
        action_projections: Vec<NotificationActionProjection>,
    },
    ToggleNotificationCenter(OutputId),
    EnsureNotificationCenterOpen {
        output: OutputId,
        target: Option<HistoryEntryId>,
    },
    ExpandNotificationGroup(GroupKey),
    CollapseNotificationGroup(GroupKey),
    NotificationToastConsumed,
    WindowAttentionChanged {
        window: WindowId,
        app_name: String,
        attention: bool,
    },
    AudioPopupToggled,
    AudioTrackChanged {
        input: bool,
        percent: u32,
    },
    AudioDragReleased,
    AudioMuteToggled {
        input: bool,
    },
    StatusNotifierRegistered(StatusNotifierEndpoint),
    StatusNotifierUnregistered(StatusNotifierEndpoint),
    StatusNotifierOwnerVanished(String),
    StatusNotifierWatcherUnavailable,
    StatusNotifierItemUpdated(StatusNotifierItem),
    StatusNotifierHostRegistered,
    StatusNotifierActionRequested {
        endpoint: StatusNotifierEndpoint,
        action: StatusNotifierAction,
        root_x: i32,
        root_y: i32,
    },
    X11(X11Event),
    CalendarSnapshotUpdated(TodayAgenda),
    CalendarSnapshotFailed(String),
}

} // verus!
