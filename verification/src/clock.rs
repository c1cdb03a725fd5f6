//! When the clock on the bar has to change.
use vstd::prelude::*;

verus! {

/// The seconds until the next full minute, a whole minute where it is full already.
pub fn next_minute_delay(seconds: i64) -> (r: i64)
    ensures
        r == 60 - seconds as int % 60,
        1 <= r <= 60,
{
    let past: i64 = match seconds.checked_rem_euclid(60) {
        Some(past) => past,
        None => 0,
    };
    60 - past
}

/// The next full minute.
pub fn next_minute_deadline(seconds: i64) -> (r: i64)
    requires
        seconds + 60 - seconds as int % 60 <= i64::MAX,
    ensures
        r == seconds + 60 - seconds as int % 60,
        r as int % 60 == 0,
        seconds < r <= seconds + 60,
{
    let deadline: i64 = seconds + next_minute_delay(seconds);
    assert(deadline == 60 * (seconds as int / 60 + 1));
    deadline
}

/// A deadline is the first full minute after the time that it was taken from.
pub proof fn lemma_deadline_is_next(seconds: int, minute: int)
    requires
        minute % 60 == 0,
        seconds < minute,
    ensures
        seconds + 60 - seconds % 60 <= minute,
{
}

} // verus!
