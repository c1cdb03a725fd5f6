//! The registry of menus, and the loads of their layouts.
use xbar::domain::menu::{GtkMenuEndpoint, MenuEndpoint, MenuRegistry, MenuSource};
use xbar::domain::state::WindowId;
use xbar::domain::tracker::{LayoutConvergencePhase, MenuLayoutReloadTracker};

fn dbus_source(service: &str, path: &str) -> MenuSource {
    MenuSource::DbusMenu(MenuEndpoint {
        service: service.into(),
        object_path: path.into(),
    })
}

fn begin_initial_load(
    tracker: &mut MenuLayoutReloadTracker,
    endpoint: &MenuSource,
    watcher_generation: u64,
    request_id: u64,
) {
    tracker.begin_load(endpoint.clone(), request_id);
    assert!(tracker.watcher_ready(endpoint.clone(), watcher_generation, request_id));
}

#[test]
fn layout_invalidations_coalesce_to_the_highest_revision() {
    let endpoint = dbus_source(":1.9", "/menu");
    let mut tracker = MenuLayoutReloadTracker::default();
    begin_initial_load(&mut tracker, &endpoint, 10, 1);
    assert!(tracker.record(endpoint.clone(), 10, Some(5)));
    assert!(tracker.record(endpoint.clone(), 10, Some(8)));
    assert!(!tracker.record(endpoint.clone(), 10, Some(6)));
    assert!(tracker.complete_load(&endpoint, 1, 3));
    tracker.begin_load(endpoint.clone(), 2);
    assert!(!tracker.complete_load(&endpoint, 2, 8));
}

#[test]
fn a_signal_without_revision_remains_authoritative_until_reloaded() {
    let endpoint = dbus_source(":1.9", "/menu");
    let mut tracker = MenuLayoutReloadTracker::default();
    begin_initial_load(&mut tracker, &endpoint, 10, 1);
    assert!(tracker.record(endpoint.clone(), 10, None));
    assert!(tracker.complete_load(&endpoint, 1, 8));
    tracker.begin_load(endpoint.clone(), 2);
    assert!(!tracker.complete_load(&endpoint, 2, 8));
}

#[test]
fn invalidation_for_old_endpoint_cannot_schedule_new_endpoint() {
    let old = dbus_source(":1.9", "/old");
    let current = dbus_source(":1.10", "/new");
    let mut tracker = MenuLayoutReloadTracker::default();
    begin_initial_load(&mut tracker, &old, 10, 1);
    assert!(!tracker.record(old, 99, Some(8)));
    begin_initial_load(&mut tracker, &current, 11, 2);
    assert!(!tracker.has_pending(&current));
}

#[test]
fn invalidation_during_initial_load_requires_one_follow_up() {
    let endpoint = dbus_source(":1.9", "/menu");
    let mut tracker = MenuLayoutReloadTracker::default();
    begin_initial_load(&mut tracker, &endpoint, 10, 1);
    assert!(tracker.record(endpoint.clone(), 10, Some(8)));
    assert!(tracker.complete_load(&endpoint, 1, 3));
    tracker.begin_load(endpoint.clone(), 2);
    assert!(!tracker.complete_load(&endpoint, 2, 8));
}

#[test]
fn newer_accepted_layout_satisfies_an_older_invalidation() {
    let endpoint = dbus_source(":1.9", "/menu");
    let mut tracker = MenuLayoutReloadTracker::default();
    begin_initial_load(&mut tracker, &endpoint, 10, 1);
    assert!(tracker.record(endpoint.clone(), 10, Some(3)));
    assert!(!tracker.complete_load(&endpoint, 1, 8));
    assert!(!tracker.has_pending(&endpoint));
}

#[test]
fn repeated_invalidations_during_one_load_stay_bounded() {
    let endpoint = dbus_source(":1.9", "/menu");
    let mut tracker = MenuLayoutReloadTracker::default();
    begin_initial_load(&mut tracker, &endpoint, 10, 1);
    assert!(tracker.record(endpoint.clone(), 10, Some(5)));
    assert!(tracker.record(endpoint.clone(), 10, Some(6)));
    assert!(tracker.record(endpoint.clone(), 10, Some(8)));
    assert!(tracker.complete_load(&endpoint, 1, 3));
    tracker.begin_load(endpoint.clone(), 2);
    assert!(!tracker.complete_load(&endpoint, 2, 8));
}

#[test]
fn unregister_clears_pending_reload_before_a_new_endpoint_can_use_it() {
    let endpoint_a = dbus_source(":1.9", "/a");
    let endpoint_b = dbus_source(":1.10", "/b");
    let mut tracker = MenuLayoutReloadTracker::default();
    begin_initial_load(&mut tracker, &endpoint_a, 10, 1);
    assert!(tracker.record(endpoint_a.clone(), 10, Some(8)));
    tracker.remove_watcher(&endpoint_a);
    begin_initial_load(&mut tracker, &endpoint_b, 11, 2);
    assert!(!tracker.has_pending(&endpoint_b));
}

#[test]
fn older_follow_up_requests_exactly_one_immediate_convergence_retry() {
    let endpoint = dbus_source(":1.9", "/menu");
    let mut tracker = MenuLayoutReloadTracker::default();
    begin_initial_load(&mut tracker, &endpoint, 10, 1);
    assert!(tracker.record(endpoint.clone(), 10, Some(9)));
    assert!(tracker.complete_load(&endpoint, 1, 3));
    tracker.begin_load(endpoint.clone(), 2);
    assert!(tracker.complete_load(&endpoint, 2, 8));
    assert_eq!(
        tracker.convergence_phase(&endpoint),
        Some(LayoutConvergencePhase::RetryAvailable)
    );
    tracker.begin_load(endpoint.clone(), 3);
    assert_eq!(
        tracker.convergence_phase(&endpoint),
        Some(LayoutConvergencePhase::RetryInFlight)
    );
}

#[test]
fn convergence_retry_equal_to_watermark_clears_pending_state() {
    let endpoint = dbus_source(":1.9", "/menu");
    let mut tracker = MenuLayoutReloadTracker::default();
    begin_initial_load(&mut tracker, &endpoint, 10, 1);
    assert!(tracker.record(endpoint.clone(), 10, Some(9)));
    assert!(tracker.complete_load(&endpoint, 1, 3));
    tracker.begin_load(endpoint.clone(), 2);
    assert!(tracker.complete_load(&endpoint, 2, 8));
    tracker.begin_load(endpoint.clone(), 3);
    assert!(!tracker.complete_load(&endpoint, 3, 9));
    assert!(!tracker.has_pending(&endpoint));
}

#[test]
fn convergence_retry_newer_than_watermark_clears_pending_state() {
    let endpoint = dbus_source(":1.9", "/menu");
    let mut tracker = MenuLayoutReloadTracker::default();
    begin_initial_load(&mut tracker, &endpoint, 10, 1);
    assert!(tracker.record(endpoint.clone(), 10, Some(9)));
    assert!(tracker.complete_load(&endpoint, 1, 3));
    tracker.begin_load(endpoint.clone(), 2);
    assert!(tracker.complete_load(&endpoint, 2, 8));
    tracker.begin_load(endpoint.clone(), 3);
    assert!(!tracker.complete_load(&endpoint, 3, 12));
    assert!(!tracker.has_pending(&endpoint));
}

#[test]
fn second_older_result_waits_for_a_new_invalidation_without_a_third_load() {
    let endpoint = dbus_source(":1.9", "/menu");
    let mut tracker = MenuLayoutReloadTracker::default();
    begin_initial_load(&mut tracker, &endpoint, 10, 1);
    assert!(tracker.record(endpoint.clone(), 10, Some(9)));
    assert!(tracker.complete_load(&endpoint, 1, 3));
    tracker.begin_load(endpoint.clone(), 2);
    assert!(tracker.complete_load(&endpoint, 2, 8));
    tracker.begin_load(endpoint.clone(), 3);
    assert!(!tracker.complete_load(&endpoint, 3, 8));
    assert!(tracker.has_pending(&endpoint));
    assert_eq!(
        tracker.convergence_phase(&endpoint),
        Some(LayoutConvergencePhase::AwaitingNewInvalidation)
    );
}

#[test]
fn higher_invalidation_rearms_convergence_while_awaiting() {
    let endpoint = dbus_source(":1.9", "/menu");
    let mut tracker = MenuLayoutReloadTracker::default();
    begin_initial_load(&mut tracker, &endpoint, 10, 1);
    assert!(tracker.record(endpoint.clone(), 10, Some(9)));
    assert!(tracker.complete_load(&endpoint, 1, 3));
    tracker.begin_load(endpoint.clone(), 2);
    assert!(tracker.complete_load(&endpoint, 2, 8));
    tracker.begin_load(endpoint.clone(), 3);
    assert!(!tracker.complete_load(&endpoint, 3, 8));
    assert!(tracker.record(endpoint.clone(), 10, Some(10)));
    assert_eq!(
        tracker.convergence_phase(&endpoint),
        Some(LayoutConvergencePhase::FollowUpNeeded)
    );
    tracker.begin_load(endpoint.clone(), 4);
    assert!(tracker.complete_load(&endpoint, 4, 9));
    tracker.begin_load(endpoint.clone(), 5);
    assert!(!tracker.complete_load(&endpoint, 5, 10));
    assert!(!tracker.has_pending(&endpoint));
}

#[test]
fn duplicate_or_lower_invalidation_does_not_rearm_awaiting_convergence() {
    let endpoint = dbus_source(":1.9", "/menu");
    let mut tracker = MenuLayoutReloadTracker::default();
    begin_initial_load(&mut tracker, &endpoint, 10, 1);
    assert!(tracker.record(endpoint.clone(), 10, Some(9)));
    assert!(tracker.complete_load(&endpoint, 1, 3));
    tracker.begin_load(endpoint.clone(), 2);
    assert!(tracker.complete_load(&endpoint, 2, 8));
    tracker.begin_load(endpoint.clone(), 3);
    assert!(!tracker.complete_load(&endpoint, 3, 8));
    assert!(!tracker.record(endpoint.clone(), 10, Some(9)));
    assert!(!tracker.record(endpoint.clone(), 10, Some(8)));
    assert_eq!(
        tracker.convergence_phase(&endpoint),
        Some(LayoutConvergencePhase::AwaitingNewInvalidation)
    );
}

#[test]
fn revisionless_invalidation_preserves_existing_numeric_watermark() {
    let endpoint = dbus_source(":1.9", "/menu");
    let mut tracker = MenuLayoutReloadTracker::default();
    begin_initial_load(&mut tracker, &endpoint, 10, 1);

    assert!(tracker.record(endpoint.clone(), 10, Some(9)));
    assert!(tracker.record(endpoint.clone(), 10, None));
    assert_eq!(tracker.numeric_watermark(&endpoint), Some(9));
    assert_eq!(tracker.revisionless_epochs(&endpoint), Some((1, 0)));
}

#[test]
fn numeric_watermark_is_recorded_after_revisionless_invalidation() {
    let endpoint = dbus_source(":1.9", "/menu");
    let mut tracker = MenuLayoutReloadTracker::default();
    begin_initial_load(&mut tracker, &endpoint, 10, 1);

    assert!(tracker.record(endpoint.clone(), 10, None));
    assert!(tracker.record(endpoint.clone(), 10, Some(9)));
    assert_eq!(tracker.numeric_watermark(&endpoint), Some(9));
    assert_eq!(tracker.revisionless_epochs(&endpoint), Some((1, 0)));
}

#[test]
fn mixed_result_below_watermark_keeps_numeric_obligation() {
    let endpoint = dbus_source(":1.9", "/menu");
    let mut tracker = MenuLayoutReloadTracker::default();
    begin_initial_load(&mut tracker, &endpoint, 10, 1);
    assert!(tracker.record(endpoint.clone(), 10, Some(9)));
    assert!(tracker.record(endpoint.clone(), 10, None));

    assert!(tracker.complete_load(&endpoint, 1, 8));
    assert_eq!(tracker.numeric_watermark(&endpoint), Some(9));
    assert_eq!(tracker.revisionless_epochs(&endpoint), Some((1, 0)));
}

#[test]
fn mixed_result_at_watermark_keeps_only_later_revisionless_follow_up() {
    let endpoint = dbus_source(":1.9", "/menu");
    let mut tracker = MenuLayoutReloadTracker::default();
    begin_initial_load(&mut tracker, &endpoint, 10, 1);
    assert!(tracker.record(endpoint.clone(), 10, Some(9)));
    assert!(tracker.record(endpoint.clone(), 10, None));

    assert!(tracker.complete_load(&endpoint, 1, 9));
    assert_eq!(tracker.numeric_watermark(&endpoint), None);
    assert_eq!(tracker.revisionless_epochs(&endpoint), Some((1, 0)));
    tracker.begin_load(endpoint.clone(), 2);
    assert!(!tracker.complete_load(&endpoint, 2, 9));
    assert!(!tracker.has_pending(&endpoint));
}

#[test]
fn revisionless_invalidation_before_load_is_satisfied_by_that_load() {
    let endpoint = dbus_source(":1.9", "/menu");
    let mut tracker = MenuLayoutReloadTracker::default();
    begin_initial_load(&mut tracker, &endpoint, 10, 1);
    assert!(!tracker.complete_load(&endpoint, 1, 8));

    assert!(tracker.record(endpoint.clone(), 10, None));
    tracker.begin_load(endpoint.clone(), 2);
    assert!(!tracker.complete_load(&endpoint, 2, 8));
    assert!(!tracker.has_pending(&endpoint));
}

#[test]
fn revisionless_invalidation_during_load_requires_exactly_one_follow_up() {
    let endpoint = dbus_source(":1.9", "/menu");
    let mut tracker = MenuLayoutReloadTracker::default();
    begin_initial_load(&mut tracker, &endpoint, 10, 1);

    assert!(tracker.record(endpoint.clone(), 10, None));
    assert!(tracker.complete_load(&endpoint, 1, 8));
    tracker.begin_load(endpoint.clone(), 2);
    assert!(!tracker.complete_load(&endpoint, 2, 8));
    assert!(!tracker.has_pending(&endpoint));
}

#[test]
fn multiple_revisionless_invalidations_during_load_coalesce() {
    let endpoint = dbus_source(":1.9", "/menu");
    let mut tracker = MenuLayoutReloadTracker::default();
    begin_initial_load(&mut tracker, &endpoint, 10, 1);

    assert!(tracker.record(endpoint.clone(), 10, None));
    assert!(tracker.record(endpoint.clone(), 10, None));
    assert!(tracker.record(endpoint.clone(), 10, None));
    assert!(tracker.complete_load(&endpoint, 1, 8));
    tracker.begin_load(endpoint.clone(), 2);
    assert!(!tracker.complete_load(&endpoint, 2, 8));
    assert!(!tracker.has_pending(&endpoint));
}

#[test]
fn revisionless_invalidation_during_follow_up_requires_one_more_follow_up() {
    let endpoint = dbus_source(":1.9", "/menu");
    let mut tracker = MenuLayoutReloadTracker::default();
    begin_initial_load(&mut tracker, &endpoint, 10, 1);
    assert!(tracker.record(endpoint.clone(), 10, None));
    assert!(tracker.complete_load(&endpoint, 1, 8));

    tracker.begin_load(endpoint.clone(), 2);
    assert!(tracker.record(endpoint.clone(), 10, None));
    assert!(tracker.complete_load(&endpoint, 2, 8));
    assert_eq!(tracker.revisionless_epochs(&endpoint), Some((2, 1)));
    tracker.begin_load(endpoint.clone(), 3);
    assert!(!tracker.complete_load(&endpoint, 3, 8));
    assert!(!tracker.has_pending(&endpoint));
}

#[test]
fn revisionless_during_numeric_follow_up_survives_numeric_satisfaction() {
    let endpoint = dbus_source(":1.9", "/menu");
    let mut tracker = MenuLayoutReloadTracker::default();
    begin_initial_load(&mut tracker, &endpoint, 10, 1);
    assert!(tracker.record(endpoint.clone(), 10, Some(9)));
    assert!(tracker.complete_load(&endpoint, 1, 8));
    tracker.begin_load(endpoint.clone(), 2);
    assert!(tracker.record(endpoint.clone(), 10, None));

    assert!(tracker.complete_load(&endpoint, 2, 9));
    assert_eq!(tracker.numeric_watermark(&endpoint), None);
    assert_eq!(tracker.revisionless_epochs(&endpoint), Some((1, 0)));
    tracker.begin_load(endpoint.clone(), 3);
    assert!(!tracker.complete_load(&endpoint, 3, 9));
    assert!(!tracker.has_pending(&endpoint));
}

#[test]
fn revisionless_during_older_numeric_follow_up_preserves_both_obligations() {
    let endpoint = dbus_source(":1.9", "/menu");
    let mut tracker = MenuLayoutReloadTracker::default();
    begin_initial_load(&mut tracker, &endpoint, 10, 1);
    assert!(tracker.record(endpoint.clone(), 10, Some(9)));
    assert!(tracker.complete_load(&endpoint, 1, 8));
    tracker.begin_load(endpoint.clone(), 2);
    assert!(tracker.record(endpoint.clone(), 10, None));

    assert!(tracker.complete_load(&endpoint, 2, 8));
    assert_eq!(tracker.numeric_watermark(&endpoint), Some(9));
    assert_eq!(
        tracker.convergence_phase(&endpoint),
        Some(LayoutConvergencePhase::RetryAvailable)
    );
    assert_eq!(tracker.revisionless_epochs(&endpoint), Some((1, 0)));
    tracker.begin_load(endpoint.clone(), 3);
    assert_eq!(
        tracker.convergence_phase(&endpoint),
        Some(LayoutConvergencePhase::RetryInFlight)
    );
}

#[test]
fn numeric_invalidation_during_revisionless_load_preserves_both_obligations() {
    let endpoint = dbus_source(":1.9", "/menu");
    let mut tracker = MenuLayoutReloadTracker::default();
    begin_initial_load(&mut tracker, &endpoint, 10, 1);
    assert!(!tracker.complete_load(&endpoint, 1, 8));
    assert!(tracker.record(endpoint.clone(), 10, None));
    tracker.begin_load(endpoint.clone(), 2);
    assert!(tracker.record(endpoint.clone(), 10, Some(12)));

    assert!(tracker.complete_load(&endpoint, 2, 9));
    assert_eq!(tracker.numeric_watermark(&endpoint), Some(12));
    assert_eq!(tracker.revisionless_epochs(&endpoint), Some((1, 1)));
    tracker.begin_load(endpoint.clone(), 3);
    assert_eq!(
        tracker.convergence_phase(&endpoint),
        Some(LayoutConvergencePhase::FollowUpInFlight)
    );
    assert!(!tracker.complete_load(&endpoint, 3, 12));
    assert!(!tracker.has_pending(&endpoint));
}

#[test]
fn higher_numeric_invalidation_during_follow_up_in_flight_is_bounded() {
    let endpoint = dbus_source(":1.9", "/menu");
    let mut tracker = MenuLayoutReloadTracker::default();
    begin_initial_load(&mut tracker, &endpoint, 10, 1);
    assert!(tracker.record(endpoint.clone(), 10, Some(9)));
    assert!(tracker.complete_load(&endpoint, 1, 8));
    tracker.begin_load(endpoint.clone(), 2);

    assert!(tracker.record(endpoint.clone(), 10, Some(12)));
    assert!(tracker.complete_load(&endpoint, 2, 9));
    assert_eq!(tracker.numeric_watermark(&endpoint), Some(12));
    assert_eq!(
        tracker.convergence_phase(&endpoint),
        Some(LayoutConvergencePhase::RetryAvailable)
    );
}

#[test]
fn higher_numeric_invalidation_during_retry_starts_new_bounded_epoch() {
    let endpoint = dbus_source(":1.9", "/menu");
    let mut tracker = MenuLayoutReloadTracker::default();
    begin_initial_load(&mut tracker, &endpoint, 10, 1);
    assert!(tracker.record(endpoint.clone(), 10, Some(9)));
    assert!(tracker.complete_load(&endpoint, 1, 3));
    tracker.begin_load(endpoint.clone(), 2);
    assert!(tracker.complete_load(&endpoint, 2, 8));
    tracker.begin_load(endpoint.clone(), 3);

    assert!(tracker.record(endpoint.clone(), 10, Some(12)));
    assert!(tracker.complete_load(&endpoint, 3, 9));
    assert_eq!(tracker.numeric_watermark(&endpoint), Some(12));
    assert_eq!(
        tracker.convergence_phase(&endpoint),
        Some(LayoutConvergencePhase::RetryAvailable)
    );
    tracker.begin_load(endpoint.clone(), 4);
    assert!(!tracker.complete_load(&endpoint, 4, 8));
    assert_eq!(
        tracker.convergence_phase(&endpoint),
        Some(LayoutConvergencePhase::AwaitingNewInvalidation)
    );
}

#[test]
fn duplicate_or_lower_numeric_during_retry_does_not_replenish_budget() {
    let endpoint = dbus_source(":1.9", "/menu");
    let mut tracker = MenuLayoutReloadTracker::default();
    begin_initial_load(&mut tracker, &endpoint, 10, 1);
    assert!(tracker.record(endpoint.clone(), 10, Some(9)));
    assert!(tracker.complete_load(&endpoint, 1, 3));
    tracker.begin_load(endpoint.clone(), 2);
    assert!(tracker.complete_load(&endpoint, 2, 8));
    tracker.begin_load(endpoint.clone(), 3);

    assert!(!tracker.record(endpoint.clone(), 10, Some(9)));
    assert!(!tracker.record(endpoint.clone(), 10, Some(8)));
    assert!(!tracker.complete_load(&endpoint, 3, 8));
    assert_eq!(
        tracker.convergence_phase(&endpoint),
        Some(LayoutConvergencePhase::AwaitingNewInvalidation)
    );
}

#[test]
fn revisionless_invalidation_rearms_awaiting_numeric_epoch_boundedly() {
    let endpoint = dbus_source(":1.9", "/menu");
    let mut tracker = MenuLayoutReloadTracker::default();
    begin_initial_load(&mut tracker, &endpoint, 10, 1);
    assert!(tracker.record(endpoint.clone(), 10, Some(9)));
    assert!(tracker.complete_load(&endpoint, 1, 3));
    tracker.begin_load(endpoint.clone(), 2);
    assert!(tracker.complete_load(&endpoint, 2, 8));
    tracker.begin_load(endpoint.clone(), 3);
    assert!(!tracker.complete_load(&endpoint, 3, 8));

    assert!(tracker.record(endpoint.clone(), 10, None));
    assert_eq!(tracker.numeric_watermark(&endpoint), Some(9));
    assert_eq!(
        tracker.convergence_phase(&endpoint),
        Some(LayoutConvergencePhase::FollowUpNeeded)
    );
    tracker.begin_load(endpoint.clone(), 4);
    assert!(tracker.complete_load(&endpoint, 4, 8));
    assert_eq!(tracker.revisionless_epochs(&endpoint), Some((1, 1)));
    tracker.begin_load(endpoint.clone(), 5);
    assert!(!tracker.complete_load(&endpoint, 5, 8));
    assert_eq!(
        tracker.convergence_phase(&endpoint),
        Some(LayoutConvergencePhase::AwaitingNewInvalidation)
    );
}

#[test]
fn endpoint_transition_discards_mixed_obligations() {
    let endpoint_a = dbus_source(":1.9", "/a");
    let endpoint_b = dbus_source(":1.9", "/b");
    let mut tracker = MenuLayoutReloadTracker::default();
    begin_initial_load(&mut tracker, &endpoint_a, 10, 1);
    assert!(tracker.record(endpoint_a.clone(), 10, Some(9)));
    assert!(tracker.record(endpoint_a.clone(), 10, None));

    begin_initial_load(&mut tracker, &endpoint_b, 11, 2);
    assert!(!tracker.has_pending(&endpoint_b));
    assert_eq!(tracker.numeric_watermark(&endpoint_b), None);
    assert!(!tracker.record(endpoint_a, 10, Some(12)));
}

#[test]
fn watcher_recreation_keeps_mixed_obligations_generation_fenced() {
    let endpoint = dbus_source(":1.9", "/menu");
    let mut tracker = MenuLayoutReloadTracker::default();
    begin_initial_load(&mut tracker, &endpoint, 10, 1);
    assert!(tracker.record(endpoint.clone(), 10, Some(9)));
    assert!(tracker.record(endpoint.clone(), 10, None));
    tracker.remove_watcher(&endpoint);

    tracker.begin_load(endpoint.clone(), 2);
    assert!(tracker.watcher_ready(endpoint.clone(), 11, 2));
    assert!(!tracker.record(endpoint.clone(), 10, Some(12)));
    assert!(tracker.record(endpoint.clone(), 11, Some(12)));
    assert_eq!(tracker.numeric_watermark(&endpoint), Some(12));
    assert_eq!(tracker.revisionless_epochs(&endpoint), Some((0, 0)));
}

#[test]
fn generation_replacement_resets_revisionless_load_capture() {
    let endpoint = dbus_source(":1.9", "/menu");
    let mut tracker = MenuLayoutReloadTracker::default();
    begin_initial_load(&mut tracker, &endpoint, 10, 1);
    assert!(tracker.record(endpoint.clone(), 10, None));
    assert!(tracker.complete_load(&endpoint, 1, 8));
    tracker.begin_load(endpoint.clone(), 2);

    assert!(tracker.watcher_ready(endpoint.clone(), 11, 2));
    assert!(tracker.record(endpoint.clone(), 11, None));
    assert!(tracker.complete_load(&endpoint, 2, 8));
    assert_eq!(tracker.revisionless_epochs(&endpoint), Some((1, 0)));
}

#[test]
fn old_watermark_cannot_affect_a_new_endpoint() {
    let old = dbus_source(":1.9", "/old");
    let current = dbus_source(":1.10", "/new");
    let mut tracker = MenuLayoutReloadTracker::default();
    begin_initial_load(&mut tracker, &old, 10, 1);
    assert!(tracker.record(old.clone(), 10, Some(9)));
    begin_initial_load(&mut tracker, &current, 11, 2);
    assert!(!tracker.accepts_watcher(&old, 10));
    assert!(!tracker.has_pending(&current));
}

#[test]
fn live_watcher_generation_survives_focus_away_and_back() {
    let endpoint_a = dbus_source(":1.9", "/a");
    let endpoint_b = dbus_source(":1.9", "/b");
    let mut tracker = MenuLayoutReloadTracker::default();
    begin_initial_load(&mut tracker, &endpoint_a, 10, 1);
    begin_initial_load(&mut tracker, &endpoint_b, 11, 2);
    tracker.begin_load(endpoint_a.clone(), 25);
    assert!(tracker.watcher_ready(endpoint_a.clone(), 10, 25));
    assert!(tracker.accepts_watcher(&endpoint_a, 10));
    assert!(tracker.record(endpoint_a, 10, Some(9)));
}

#[test]
fn recreated_watcher_replaces_generation_and_rejects_queued_old_signal() {
    let endpoint = dbus_source(":1.9", "/menu");
    let mut tracker = MenuLayoutReloadTracker::default();
    begin_initial_load(&mut tracker, &endpoint, 10, 1);
    tracker.remove_watcher(&endpoint);
    tracker.begin_load(endpoint.clone(), 25);
    assert!(tracker.watcher_ready(endpoint.clone(), 12, 25));
    assert!(!tracker.record(endpoint.clone(), 10, Some(9)));
    assert!(tracker.record(endpoint, 12, Some(9)));
}

#[test]
fn delayed_ready_for_an_old_request_cannot_restore_a_dead_generation() {
    let endpoint = dbus_source(":1.9", "/menu");
    let mut tracker = MenuLayoutReloadTracker::default();
    begin_initial_load(&mut tracker, &endpoint, 10, 1);
    tracker.remove_watcher(&endpoint);
    tracker.begin_load(endpoint.clone(), 2);

    assert!(!tracker.watcher_ready(endpoint.clone(), 10, 1));
    assert!(!tracker.accepts_watcher(&endpoint, 10));
    assert!(tracker.watcher_ready(endpoint.clone(), 11, 2));
    assert!(tracker.accepts_watcher(&endpoint, 11));
}

#[test]
fn same_owner_endpoints_keep_independent_watcher_generations() {
    let endpoint_a = dbus_source(":1.9", "/a");
    let endpoint_b = dbus_source(":1.9", "/b");
    let mut tracker = MenuLayoutReloadTracker::default();
    tracker.begin_load(endpoint_a.clone(), 25);
    assert!(tracker.watcher_ready(endpoint_a.clone(), 10, 25));
    assert!(tracker.accepts_watcher(&endpoint_a, 10));
    assert!(!tracker.accepts_watcher(&endpoint_a, 11));
    tracker.begin_load(endpoint_b.clone(), 26);
    assert!(tracker.watcher_ready(endpoint_b.clone(), 11, 26));
    assert!(tracker.accepts_watcher(&endpoint_b, 11));
    assert!(!tracker.accepts_watcher(&endpoint_b, 10));
}

#[test]
fn request_ids_advance_independently_of_live_watcher_generation() {
    let endpoint = dbus_source(":1.9", "/menu");
    let mut tracker = MenuLayoutReloadTracker::default();
    tracker.begin_load(endpoint.clone(), 25);
    assert!(tracker.watcher_ready(endpoint.clone(), 10, 25));
    for request_id in [25, 26, 27] {
        tracker.begin_load(endpoint.clone(), request_id);
        assert!(tracker.accepts_watcher(&endpoint, 10));
    }
}

fn endpoint(service: &str, path: &str) -> MenuEndpoint {
    MenuEndpoint {
        service: service.into(),
        object_path: path.into(),
    }
}

#[test]
fn register_get_and_unregister() {
    let mut registry = MenuRegistry::default();
    registry.register(WindowId(10), ":1.1".into(), "/menu/a".into());
    assert_eq!(
        registry.get(WindowId(10)),
        Some(&endpoint(":1.1", "/menu/a"))
    );
    assert_eq!(
        registry.unregister(WindowId(10)),
        Some(endpoint(":1.1", "/menu/a"))
    );
    assert_eq!(registry.get(WindowId(10)), None);
}

#[test]
fn replacement_cleans_previous_sender() {
    let mut registry = MenuRegistry::default();
    registry.register(WindowId(10), ":1.1".into(), "/old".into());
    registry.register(WindowId(10), ":1.2".into(), "/new".into());
    assert_eq!(registry.get(WindowId(10)), Some(&endpoint(":1.2", "/new")));
    assert!(registry.remove_sender(":1.1").is_empty());
}

#[test]
fn old_owner_vanishing_does_not_remove_replacement() {
    let mut registry = MenuRegistry::default();
    registry.register(WindowId(10), ":1.old".into(), "/menu/a".into());
    registry.register(WindowId(10), ":1.new".into(), "/menu/b".into());
    assert_eq!(
        registry.get(WindowId(10)),
        Some(&endpoint(":1.new", "/menu/b"))
    );
    assert!(registry.remove_sender(":1.old").is_empty());
    assert_eq!(
        registry.get(WindowId(10)),
        Some(&endpoint(":1.new", "/menu/b"))
    );
}

#[test]
fn sender_cleanup_removes_all_owned_windows() {
    let mut registry = MenuRegistry::default();
    registry.register(WindowId(2), ":1.1".into(), "/two".into());
    registry.register(WindowId(1), ":1.1".into(), "/one".into());
    registry.register(WindowId(3), ":1.2".into(), "/three".into());
    assert_eq!(
        registry.remove_sender(":1.1"),
        vec![WindowId(1), WindowId(2)]
    );
    assert_eq!(registry.get(WindowId(3)), Some(&endpoint(":1.2", "/three")));
}

#[test]
fn focused_lookup_is_derived_from_registry() {
    let mut registry = MenuRegistry::default();
    registry.register(WindowId(10), ":1.1".into(), "/menu".into());
    assert_eq!(
        registry.active(Some(WindowId(10))),
        Some(MenuSource::DbusMenu(endpoint(":1.1", "/menu")))
    );
    assert_eq!(registry.active(Some(WindowId(11))), None);
    assert_eq!(registry.active(None), None);
}

#[test]
fn dbus_menu_has_precedence_and_gtk_falls_back_after_unregister() {
    let mut registry = MenuRegistry::default();
    let gtk = GtkMenuEndpoint {
        bus_name: ":1.gtk".into(),
        menu_object_path: "/gtk/menu".into(),
        actions_object_paths: vec!["/gtk/actions".into()],
    };
    registry.register_gtk(WindowId(10), gtk.clone());
    assert_eq!(
        registry.active(Some(WindowId(10))),
        Some(MenuSource::GtkGMenu(gtk.clone()))
    );
    registry.register(WindowId(10), ":1.dbus".into(), "/dbus/menu".into());
    assert!(matches!(
        registry.active(Some(WindowId(10))),
        Some(MenuSource::DbusMenu(_))
    ));
    registry.unregister(WindowId(10));
    assert_eq!(
        registry.active(Some(WindowId(10))),
        Some(MenuSource::GtkGMenu(gtk))
    );
}

#[test]
fn gtk_replacement_is_not_removed_by_old_owner() {
    let mut registry = MenuRegistry::default();
    let old = GtkMenuEndpoint {
        bus_name: ":1.old".into(),
        menu_object_path: "/gtk/old".into(),
        actions_object_paths: vec![],
    };
    let current = GtkMenuEndpoint {
        bus_name: ":1.current".into(),
        menu_object_path: "/gtk/current".into(),
        actions_object_paths: vec![],
    };
    registry.register_gtk(WindowId(10), old);
    registry.register_gtk(WindowId(10), current.clone());
    assert!(registry.remove_sender(":1.old").is_empty());
    assert_eq!(registry.gtk(WindowId(10)), Some(&current));
}
