//! What the bar shows, and how events change it.
pub mod event;
pub mod menu;
pub mod notification;
pub mod reducer;
pub mod state;
pub mod status_notifier;
pub mod tracker;
pub mod usage;

pub use event::Event;
pub use menu::{
    ChildrenDisplay, GtkMenuEndpoint, MenuAction, MenuActionTarget, MenuEndpoint, MenuItem,
    MenuItemId, MenuItemPropertiesUpdate, MenuItemType, MenuModel, MenuPropertyUpdate, MenuRegistry,
    MenuShortcut, MenuSource,
};
pub use notification::{
    notification_center_items, notification_group_for_history_id, notification_group_keys, GroupKey,
    HistoryEntryId, Notification, NotificationActionProjection, NotificationCenterItem,
    NotificationHistoryEntry, NotificationId,
    NotificationSource,
};
pub use reducer::reduce;
pub use state::{
    wifi_band, wifi_device_state_label, AboutToShowPending, AudioDevice, AudioState,
    BluetoothDevice, BluetoothPendingAction, BluetoothState, ClockState, KeyboardGrabState,
    LazyRootOpenPending, MenuNavigationSession, MenuPresentation, MenuPresentationPolicy, MenuState,
    NetworkAccessPoint, NetworkConnectivity, NetworkLinkKind, NetworkPendingAction, NetworkState,
    NetworkStatus, NetworkWifiTarget, OutputId, OutputState, State, WifiDevice, WindowId,
    WorkspaceState,
};
pub use status_notifier::{
    parse_notifier_item_id, StatusNotifierAction, StatusNotifierEndpoint, StatusNotifierIcon,
    StatusNotifierItem, StatusNotifierItemRegistry, StatusNotifierRegistry, StatusNotifierStatus,
};
pub use tracker::MenuLayoutReloadTracker;
pub use usage::{
    AccountIdentity, ActiveAgentUsage, PluginId, PluginStatus, PluginSummary, UsageMeter,
    UsageStatus, UsageSummary, UsageValue,
};
