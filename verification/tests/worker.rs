//! What the bar decides on what it hears from the bus.
use std::collections::VecDeque;
use xbar::dbus::exported::platform_data;
use xbar::dbus::notifier::push_event_with_writer;
use xbar::dbus::wire::{get_property, WireValue};
use xbar::domain::event::Event;

fn startup_id(timestamp: Option<u32>) -> Option<String> {
    match get_property(&platform_data(timestamp), "desktop-startup-id") {
        Some(WireValue::Str(value)) => Some(value.clone()),
        _ => None,
    }
}

#[test]
fn input_timestamp_becomes_startup_id_without_stale_state() {
    assert_eq!(startup_id(Some(136746)).as_deref(), Some("_TIME136746"));
    assert_eq!(startup_id(Some(7)).as_deref(), Some("_TIME7"));
}

#[test]
fn absent_or_zero_timestamp_does_not_create_time_zero() {
    assert!(platform_data(None).is_empty());
    assert!(platform_data(Some(0)).is_empty());
}

fn queued_ai_event_wakes_main_loop() {
    let mut events = VecDeque::new();
    let mut wake = Vec::new();
    push_event_with_writer(
        &mut events,
        &mut wake,
        Event::ActiveAiUsageChanged(Vec::new()),
    );
    assert_eq!(wake, [1]);
    assert!(matches!(
        events.pop_front(),
        Some(Event::ActiveAiUsageChanged(usage)) if usage.is_empty()
    ));
}

#[test]
fn late_collector_get_state_completion_wakes_main_loop() {
    queued_ai_event_wakes_main_loop();
}

#[test]
fn ai_state_changed_signal_wakes_main_loop() {
    queued_ai_event_wakes_main_loop();
}

#[test]
fn owner_loss_wakes_main_loop() {
    queued_ai_event_wakes_main_loop();
}
