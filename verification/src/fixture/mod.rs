//! Programs that stand in for applications and services, to try the bar with.
pub mod appmenu;
pub mod args;
pub mod menu;
pub mod tray;
pub mod watcher;
