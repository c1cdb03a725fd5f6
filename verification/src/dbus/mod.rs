//! What is exchanged over the bus.
pub mod ai_usage;
pub mod exported;
pub mod gmenu;
pub mod inventory;
pub mod menu;
pub mod notifications;
pub mod notifier;
pub mod watchers;
pub mod wire;
pub mod worker;
