//! The alarm of the clock.
use xbar::clock::{next_minute_deadline, next_minute_delay};

#[test]
fn aligns_deadline_to_next_minute_without_drift() {
    assert_eq!(next_minute_delay(18 * 3600 + 42 * 60), 60);
    assert_eq!(next_minute_delay(18 * 3600 + 42 * 60 + 1), 59);
    assert_eq!(next_minute_delay(18 * 3600 + 42 * 60 + 37), 23);
    assert_eq!(next_minute_delay(18 * 3600 + 42 * 60 + 59), 1);
    assert_eq!(
        next_minute_deadline(18 * 3600 + 42 * 60 + 37),
        18 * 3600 + 43 * 60
    );
}
