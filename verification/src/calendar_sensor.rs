//! Reading the agenda of the day from the calendar adapter.
use vstd::prelude::*;
use vstd::string::*;

use crate::calendar;
use crate::calendar::{AgendaItem, AgendaItemView, AgendaStatus, TodayAgenda, TodayAgendaView};
use crate::domain::event::Event;
use crate::domain::state::ClockState;
use crate::lists;
use crate::text;
use crate::value;
use crate::value::Value;

verus! {

/// How many bytes the adapter may write.
pub const MAX_ADAPTER_OUTPUT: usize = 524_288;

/// How many seconds an agenda is good for.
pub const REFRESH_INTERVAL: u64 = 300;

/// The byte is a decimal digit.
pub open spec fn is_digit(b: u8) -> bool {
    48 <= b <= 57
}

/// The number that decimal digits stand for; none where there are no digits or anything else.
pub open spec fn digits_number(s: Seq<u8>) -> Option<int>
    decreases s.len(),
{
    if s.len() == 0 || !is_digit(s.last()) {
        None
    } else if s.len() == 1 {
        Some(s.last() - 48)
    } else {
        match digits_number(s.drop_last()) {
            Some(n) => Some(10 * n + (s.last() - 48)),
            None => None,
        }
    }
}

/// The number that digits stand for, with or without a sign before them.
pub open spec fn signed_number(s: Seq<u8>) -> Option<int> {
    if s.len() > 0 && s[0] == 43 {
        digits_number(s.skip(1))
    } else if s.len() > 0 && s[0] == 45 {
        match digits_number(s.skip(1)) {
            Some(n) => Some(-n),
            None => None,
        }
    } else {
        digits_number(s)
    }
}

/// A number is not below zero, and not below what its first digits stand for.
proof fn lemma_digits_grow(s: Seq<u8>, i: int)
    requires
        0 < i <= s.len(),
        digits_number(s) is Some,
    ensures
        digits_number(s.take(i)) is Some,
        0 <= digits_number(s.take(i))->0 <= digits_number(s)->0,
    decreases s.len(),
{
    if i == s.len() {
        assert(s.take(i) =~= s);
        if s.len() > 1 {
            lemma_digits_grow(s.drop_last(), s.len() - 1);
            assert(s.drop_last().take(s.len() - 1) =~= s.drop_last());
        }
    } else {
        lemma_digits_grow(s.drop_last(), i);
        assert(s.drop_last().take(i) =~= s.take(i));
    }
}

/// The number that the digits in a part of the bytes stand for, where it is not above the limit.
fn parse_digits(bytes: &[u8], from: usize, to: usize, limit: u64) -> (r: Option<u64>)
    requires
        from <= to <= bytes.len(),
        limit <= 0xffff_ffff,
    ensures
        match digits_number(bytes@.subrange(from as int, to as int)) {
            Some(n) => if n <= limit {
                r is Some && r->0 == n
            } else {
                r is None
            },
            None => r is None,
        },
{
    let ghost s = bytes@.subrange(from as int, to as int);
    if from == to {
        return None;
    }
    let mut n: u64 = 0;
    let mut i: usize = from;
    while i < to
        invariant
            from <= i <= to <= bytes.len(),
            from < to,
            limit <= 0xffff_ffff,
            s == bytes@.subrange(from as int, to as int),
            n <= limit,
            i == from ==> n == 0,
            i > from ==> digits_number(s.take(i - from)) == Some(n as int),
        decreases to - i,
    {
        let b = bytes[i];
        let ghost k = i - from;
        assert(s.take(k + 1).last() == b);
        assert(s.take(k + 1).drop_last() =~= s.take(k));
        if b < 48 || b > 57 {
            proof {
                if digits_number(s) is Some {
                    lemma_digits_grow(s, k + 1);
                }
            }
            return None;
        }
        n = n * 10 + (b - 48) as u64;
        assert(digits_number(s.take(k + 1)) == Some(n as int));
        if n > limit {
            proof {
                if digits_number(s) is Some {
                    lemma_digits_grow(s, k + 1);
                }
            }
            return None;
        }
        i += 1;
    }
    assert(s.take(to - from) =~= s);
    Some(n)
}

/// The number in a part of the bytes, of at most four bytes.
fn parse_number(bytes: &[u8], from: usize, to: usize) -> (r: Option<i64>)
    requires
        from <= to <= bytes.len(),
        to - from <= 4,
    ensures
        match signed_number(bytes@.subrange(from as int, to as int)) {
            Some(n) => r == Some(n as i64) && -9999 <= n <= 9999,
            None => r is None,
        },
{
    let ghost s = bytes@.subrange(from as int, to as int);
    proof {
        lemma_short_number(s);
        if s.len() > 0 {
            lemma_short_number(s.skip(1));
        }
    }
    if from == to {
        return None;
    }
    let first = bytes[from];
    assert(first == s[0]);
    assert(s.skip(1) =~= bytes@.subrange(from + 1, to as int));
    if first == 43 {
        match parse_digits(bytes, from + 1, to, 9999) {
            Some(n) => Some(n as i64),
            None => None,
        }
    } else if first == 45 {
        match parse_digits(bytes, from + 1, to, 9999) {
            Some(n) => Some(-(n as i64)),
            None => None,
        }
    } else {
        match parse_digits(bytes, from, to, 9999) {
            Some(n) => Some(n as i64),
            None => None,
        }
    }
}

/// A number of at most four digits is below ten thousand.
proof fn lemma_short_number(s: Seq<u8>)
    requires
        s.len() <= 4,
    ensures
        digits_number(s) matches Some(n) ==> 0 <= n <= 9999,
{
    reveal_with_fuel(digits_number, 5);
}

/// Where a byte first stands at or after a position.
pub open spec fn next_byte(s: Seq<u8>, b: u8, from: int) -> Option<int>
    decreases s.len() - from,
{
    if from >= s.len() {
        None
    } else if s[from] == b {
        Some(from)
    } else {
        next_byte(s, b, from + 1)
    }
}

fn find_byte(bytes: &[u8], b: u8, from: usize) -> (r: Option<usize>)
    requires
        from <= bytes.len(),
    ensures
        match r {
            Some(i) => from <= i < bytes.len() && next_byte(bytes@, b, from as int) == Some(
                i as int,
            ),
            None => next_byte(bytes@, b, from as int) is None,
        },
{
    let mut i: usize = from;
    while i < bytes.len()
        invariant
            from <= i <= bytes.len(),
            next_byte(bytes@, b, from as int) == next_byte(bytes@, b, i as int),
        decreases bytes.len() - i,
    {
        if bytes[i] == b {
            return Some(i);
        }
        i += 1;
    }
    None
}

/// A number without a minus sign that is within the given bounds.
pub open spec fn is_number_within(s: Seq<u8>, low: int, high: int) -> bool {
    let digits = if s.len() > 0 && s[0] == 43 {
        s.skip(1)
    } else {
        s
    };
    digits_number(digits) matches Some(n) && low <= n <= high
}

fn number_within(bytes: &[u8], from: usize, to: usize, low: u64, high: u64) -> (r: bool)
    requires
        from <= to <= bytes.len(),
        high <= 0xffff_ffff,
    ensures
        r == is_number_within(
            bytes@.subrange(from as int, to as int),
            low as int,
            high as int,
        ),
{
    let ghost s = bytes@.subrange(from as int, to as int);
    let signed = from < to && bytes[from] == 43;
    assert(from < to ==> s[0] == bytes@[from as int]);
    assert(from < to ==> s.skip(1) =~= bytes@.subrange(from + 1, to as int));
    let start: usize = if signed {
        from + 1
    } else {
        from
    };
    match parse_digits(bytes, start, to, high) {
        Some(n) => low <= n,
        None => false,
    }
}

/// A date is a year, a month and a day with a dash between each; the year is any number, the month
/// is from 1 to 12, and the day from 1 to 31.
pub open spec fn is_valid_date(s: Seq<u8>) -> bool {
    match next_byte(s, 45, 0) {
        Some(i) => match next_byte(s, 45, i + 1) {
            Some(j) => next_byte(s, 45, j + 1) is None && is_number_within(
                s.subrange(0, i),
                0,
                i32::MAX as int,
            ) && is_number_within(s.subrange(i + 1, j), 1, 12) && is_number_within(
                s.subrange(j + 1, s.len() as int),
                1,
                31,
            ),
            None => false,
        },
        None => false,
    }
}

fn valid_date(value: &str) -> (r: bool)
    ensures
        r == is_valid_date(value.spec_bytes()),
{
    let bytes = value.as_bytes();
    let i = match find_byte(bytes, 45, 0) {
        Some(i) => i,
        None => {
            return false;
        },
    };
    let j = match find_byte(bytes, 45, i + 1) {
        Some(j) => j,
        None => {
            return false;
        },
    };
    find_byte(bytes, 45, j + 1).is_none() && number_within(bytes, 0, i, 0, 2_147_483_647)
        && number_within(bytes, i + 1, j, 1, 12) && number_within(
        bytes,
        j + 1,
        bytes.len(),
        1,
        31,
    )
}

/// The number of days from the first of January 1970.
fn days_from_civil(year: i32, month: u8, day: u8) -> (r: i64)
    requires
        1 <= month <= 12,
        year > i32::MIN,
    ensures
        r == calendar::day_number(year as int, month as int, day as int),
{
    let y: i64 = if month <= 2 {
        year as i64 - 1
    } else {
        year as i64
    };
    let era: i64 = match y.checked_div_euclid(400) {
        Some(quotient) => quotient,
        None => 0,
    };
    let year_of_era: i64 = match y.checked_rem_euclid(400) {
        Some(remainder) => remainder,
        None => 0,
    };
    let m: i64 = if month > 2 {
        month as i64 - 3
    } else {
        month as i64 + 9
    };
    let day_of_year: i64 = (153 * m + 2) / 5 + day as i64 - 1;
    let day_of_era: i64 = year_of_era * 365 + year_of_era / 4 - year_of_era / 100 + day_of_year;
    proof {
        calendar::lemma_march_years(year as int, month as int);
        lemma_era(y as int);
    }
    era * 146_097 + day_of_era - 719_468
}

/// The leap days of the years that begin in March, by eras of 400 years.
proof fn lemma_era(y: int)
    ensures
        y / 4 == 100 * (y / 400) + (y % 400) / 4,
        y / 100 == 4 * (y / 400) + (y % 400) / 100,
{
    let era = y / 400;
    let r = y % 400;
    assert(y == 400 * era + r);
    assert(y / 4 == 100 * era + r / 4);
    assert(y / 100 == 4 * era + r / 100);
}

/// Why a time is refused.
pub enum TimeError {
    /// It does not have the form of a time.
    Form,
    /// It does not end in a time zone.
    Offset,
    /// A part of it is too large.
    Range,
}

/// The parts of a time stand where they should, with a dash, a `T` or a colon between each.
pub open spec fn has_time_form(b: Seq<u8>) -> bool {
    b.len() >= 20 && b[4] == 45 && b[7] == 45 && b[10] == 84 && b[13] == 58 && b[16] == 58
}

/// The seconds by which a time zone is ahead: none behind a `Z`, and otherwise what a sign, hours, a
/// colon and minutes come to.
pub open spec fn offset_minutes(tail: Seq<u8>) -> Option<int> {
    if tail.len() > 0 && tail[0] == 90 {
        Some(0)
    } else if tail.len() < 6 || (tail[0] != 43 && tail[0] != 45) || tail[3] != 58 {
        None
    } else {
        match (signed_number(tail.subrange(1, 3)), signed_number(tail.subrange(4, 6))) {
            (Some(hours), Some(minutes)) => Some(
                if tail[0] == 45 {
                    -(hours * 60 + minutes)
                } else {
                    hours * 60 + minutes
                },
            ),
            _ => None,
        }
    }
}

/// The number in a part of a time.
pub open spec fn field(b: Seq<u8>, from: int, to: int) -> Option<int> {
    signed_number(b.subrange(from, to))
}

/// The date is one of the calendar and the time of day is not too late.
pub open spec fn is_in_range(
    year: int,
    month: int,
    day: int,
    hour: int,
    minute: int,
    second: int,
) -> bool {
    1 <= month <= 12 && 1 <= day <= calendar::month_length(year, month) && hour <= 23 && minute
        <= 59 && second <= 59
}

/// The seconds since 1970 that a time in RFC 3339 stands for.
pub open spec fn time_of(b: Seq<u8>) -> Result<int, TimeError> {
    if !has_time_form(b) {
        Err(TimeError::Form)
    } else {
        match (
            field(b, 0, 4),
            field(b, 5, 7),
            field(b, 8, 10),
            field(b, 11, 13),
            field(b, 14, 16),
            field(b, 17, 19),
        ) {
            (
                Some(year),
                Some(month),
                Some(day),
                Some(hour),
                Some(minute),
                Some(second),
            ) => match offset_minutes(b.skip(19)) {
                Some(offset) => if is_in_range(year, month, day, hour, minute, second) {
                    Ok(
                        calendar::day_number(year, month, day) * 86_400 + hour * 3_600 + minute * 60
                            + second - offset * 60,
                    )
                } else {
                    Err(TimeError::Range)
                },
                None => Err(TimeError::Offset),
            },
            _ => Err(TimeError::Form),
        }
    }
}

/// What is said of a time that is refused.
pub open spec fn time_error_text(error: TimeError) -> Seq<char> {
    match error {
        TimeError::Form => "adapter returned an invalid RFC3339 time"@,
        TimeError::Offset => "adapter returned an invalid RFC3339 offset"@,
        TimeError::Range => "adapter returned an out-of-range RFC3339 time"@,
    }
}

fn describe(error: &TimeError) -> (r: String)
    ensures
        r@ == time_error_text(*error),
{
    match error {
        TimeError::Form => "adapter returned an invalid RFC3339 time".to_owned(),
        TimeError::Offset => "adapter returned an invalid RFC3339 offset".to_owned(),
        TimeError::Range => "adapter returned an out-of-range RFC3339 time".to_owned(),
    }
}

fn parse_offset(bytes: &[u8], from: usize) -> (r: Option<i64>)
    requires
        from <= bytes.len(),
    ensures
        match offset_minutes(bytes@.skip(from as int)) {
            Some(n) => r == Some(n as i64) && -700_000 <= n <= 700_000,
            None => r is None,
        },
{
    let ghost tail = bytes@.skip(from as int);
    let n: usize = bytes.len() - from;
    if n == 0 {
        return None;
    }
    let first = bytes[from];
    assert(first == tail[0]);
    if first == 90 {
        return Some(0);
    }
    if n < 6 || (first != 43 && first != 45) || bytes[from + 3] != 58 {
        return None;
    }
    assert(tail.subrange(1, 3) =~= bytes@.subrange(from + 1, from + 3));
    assert(tail.subrange(4, 6) =~= bytes@.subrange(from + 4, from + 6));
    match (parse_number(bytes, from + 1, from + 3), parse_number(bytes, from + 4, from + 6)) {
        (Some(hours), Some(minutes)) => {
            let ahead: i64 = hours * 60 + minutes;
            if first == 45 {
                Some(-ahead)
            } else {
                Some(ahead)
            }
        },
        _ => None,
    }
}

fn parse_rfc3339(value: &str) -> (r: Result<i64, TimeError>)
    ensures
        match time_of(value.spec_bytes()) {
            Ok(n) => r == Ok::<i64, TimeError>(n as i64) && -400_000_000_000 <= n
                <= 400_000_000_000,
            Err(e) => r == Err::<i64, TimeError>(e),
        },
{
    let bytes = value.as_bytes();
    if bytes.len() < 20 || bytes[4] != 45 || bytes[7] != 45 || bytes[10] != 84 || bytes[13] != 58
        || bytes[16] != 58 {
        return Err(TimeError::Form);
    }
    let date = (
        parse_number(bytes, 0, 4),
        parse_number(bytes, 5, 7),
        parse_number(bytes, 8, 10),
    );
    let time = (
        parse_number(bytes, 11, 13),
        parse_number(bytes, 14, 16),
        parse_number(bytes, 17, 19),
    );
    let (year, month, day) = match date {
        (Some(year), Some(month), Some(day)) => (year, month, day),
        _ => {
            return Err(TimeError::Form);
        },
    };
    let (hour, minute, second) = match time {
        (Some(hour), Some(minute), Some(second)) => (hour, minute, second),
        _ => {
            return Err(TimeError::Form);
        },
    };
    let offset: i64 = match parse_offset(bytes, 19) {
        Some(offset) => offset,
        None => {
            return Err(TimeError::Offset);
        },
    };
    if month < 1 || month > 12 {
        return Err(TimeError::Range);
    }
    let length: i64 = calendar::days_in_month(year as i32, month as u8) as i64;
    if day < 1 || day > length || hour > 23 || minute > 59 || second > 59 {
        return Err(TimeError::Range);
    }
    let days: i64 = days_from_civil(year as i32, month as u8, day as u8);
    proof {
        lemma_day_bounds(year as int, month as int, day as int);
    }
    Ok(days * 86_400 + hour * 3_600 + minute * 60 + second - offset * 60)
}

/// The days of four-digit years are far from the ends of the number types.
proof fn lemma_day_bounds(year: int, month: int, day: int)
    requires
        -9999 <= year <= 9999,
        1 <= month <= 12,
        1 <= day <= 31,
    ensures
        -4_500_000 <= calendar::day_number(year, month, day) <= 4_500_000,
{
    reveal_with_fuel(calendar::days_before_month, 13);
}

/// A calendar event as the adapter writes it.
#[derive(Clone, Debug, Eq, PartialEq)]
pub struct AdapterEvent {
    pub calendar_id: String,
    pub id: String,
    pub recurring_event_id: Option<String>,
    /// The `dateTime` of the original start, where it is given as text.
    pub original_start_date_time: Option<String>,
    pub original_start_time_utc: Option<String>,
    pub summary: String,
    pub start: Option<String>,
    pub end: Option<String>,
    pub start_utc: Option<String>,
    pub end_utc: Option<String>,
    pub timezone: Option<String>,
    pub start_date: Option<String>,
    pub end_date: Option<String>,
    pub all_day: bool,
    pub status: String,
}

/// The model of a [`AdapterEvent`].
#[verifier::ext_equal]
pub struct AdapterEventView {
    pub calendar_id: Seq<char>,
    pub id: Seq<char>,
    pub recurring_event_id: Option<Seq<char>>,
    pub original_start_date_time: Option<Seq<char>>,
    pub original_start_time_utc: Option<Seq<char>>,
    pub summary: Seq<char>,
    pub start: Option<Seq<char>>,
    pub end: Option<Seq<char>>,
    pub start_utc: Option<Seq<char>>,
    pub end_utc: Option<Seq<char>>,
    pub timezone: Option<Seq<char>>,
    pub start_date: Option<Seq<char>>,
    pub end_date: Option<Seq<char>>,
    pub all_day: bool,
    pub status: Seq<char>,
}

impl DeepView for AdapterEvent {
    type V = AdapterEventView;

    open spec fn deep_view(&self) -> AdapterEventView {
        AdapterEventView {
            calendar_id: self.calendar_id.deep_view(),
            id: self.id.deep_view(),
            recurring_event_id: self.recurring_event_id.deep_view(),
            original_start_date_time: self.original_start_date_time.deep_view(),
            original_start_time_utc: self.original_start_time_utc.deep_view(),
            summary: self.summary.deep_view(),
            start: self.start.deep_view(),
            end: self.end.deep_view(),
            start_utc: self.start_utc.deep_view(),
            end_utc: self.end_utc.deep_view(),
            timezone: self.timezone.deep_view(),
            start_date: self.start_date.deep_view(),
            end_date: self.end_date.deep_view(),
            all_day: self.all_day,
            status: self.status.deep_view(),
        }
    }
}

/// What the adapter writes.
#[derive(Clone, Debug, Eq, PartialEq)]
pub struct AdapterDocument {
    pub generated_at: String,
    pub timezone: String,
    pub local_date: String,
    pub mode: String,
    pub events: Vec<AdapterEvent>,
}

/// The model of a [`AdapterDocument`].
#[verifier::ext_equal]
pub struct AdapterDocumentView {
    pub generated_at: Seq<char>,
    pub timezone: Seq<char>,
    pub local_date: Seq<char>,
    pub mode: Seq<char>,
    pub events: Seq<AdapterEventView>,
}

impl DeepView for AdapterDocument {
    type V = AdapterDocumentView;

    open spec fn deep_view(&self) -> AdapterDocumentView {
        AdapterDocumentView {
            generated_at: self.generated_at.deep_view(),
            timezone: self.timezone.deep_view(),
            local_date: self.local_date.deep_view(),
            mode: self.mode.deep_view(),
            events: self.events.deep_view(),
        }
    }
}

/// The agenda as last read.
#[derive(Clone, Debug, Eq, PartialEq)]
pub struct CalendarSnapshot {
    pub agenda: TodayAgenda,
}

/// The model of a [`CalendarSnapshot`].
#[verifier::ext_equal]
pub struct CalendarSnapshotView {
    pub agenda: TodayAgendaView,
}

impl DeepView for CalendarSnapshot {
    type V = CalendarSnapshotView;

    open spec fn deep_view(&self) -> CalendarSnapshotView {
        CalendarSnapshotView {
            agenda: self.agenda.deep_view(),
        }
    }
}

/// How the adapter is run.
#[derive(Clone, Debug, Eq, PartialEq)]
pub struct CalendarConfig {
    pub python: String,
    pub adapter: String,
    pub credentials: String,
    pub token: String,
}

/// The model of a [`CalendarConfig`].
#[verifier::ext_equal]
pub struct CalendarConfigView {
    pub python: Seq<char>,
    pub adapter: Seq<char>,
    pub credentials: Seq<char>,
    pub token: Seq<char>,
}

impl DeepView for CalendarConfig {
    type V = CalendarConfigView;

    open spec fn deep_view(&self) -> CalendarConfigView {
        CalendarConfigView {
            python: self.python.deep_view(),
            adapter: self.adapter.deep_view(),
            credentials: self.credentials.deep_view(),
            token: self.token.deep_view(),
        }
    }
}

/// A time where it is given.
pub open spec fn optional_time(time: Option<Seq<char>>) -> Result<Option<i64>, Seq<char>> {
    match time {
        Some(text) => match time_of(vstd::utf8::encode_utf8(text)) {
            Ok(n) => Ok(Some(n as i64)),
            Err(e) => Err(time_error_text(e)),
        },
        None => Ok(None),
    }
}

fn read_optional_time(time: &Option<String>) -> (r: Result<Option<i64>, String>)
    ensures
        match optional_time(time.deep_view()) {
            Ok(n) => r == Ok::<Option<i64>, String>(n),
            Err(error) => r matches Err(e) && e@ == error,
        },
{
    match time {
        Some(text) => match parse_rfc3339(text.as_str()) {
            Ok(n) => Ok(Some(n)),
            Err(e) => Err(describe(&e)),
        },
        None => Ok(None),
    }
}

/// When an event starts and ends; an event that lasts all day needs dates, and any other needs
/// times.
pub open spec fn event_times(event: AdapterEventView) -> Result<
    (Option<i64>, Option<i64>),
    Seq<char>,
> {
    match optional_time(event.start_utc) {
        Err(error) => Err(error),
        Ok(start) => match optional_time(event.end_utc) {
            Err(error) => Err(error),
            Ok(end) => if event.all_day && (event.start_date is None || event.end_date is None) {
                Err("adapter returned an invalid all-day event"@)
            } else if !event.all_day && (event.start is None || event.end is None || start is None
                || end is None) {
                Err("adapter returned an invalid timed event"@)
            } else {
                Ok((start, end))
            },
        },
    }
}

fn read_event_times(event: &AdapterEvent) -> (r: Result<(Option<i64>, Option<i64>), String>)
    ensures
        match event_times(event.deep_view()) {
            Ok(times) => r == Ok::<(Option<i64>, Option<i64>), String>(times),
            Err(error) => r matches Err(e) && e@ == error,
        },
{
    let start = match read_optional_time(&event.start_utc) {
        Ok(start) => start,
        Err(e) => {
            return Err(e);
        },
    };
    let end = match read_optional_time(&event.end_utc) {
        Ok(end) => end,
        Err(e) => {
            return Err(e);
        },
    };
    if event.all_day {
        if event.start_date.is_none() || event.end_date.is_none() {
            return Err("adapter returned an invalid all-day event".to_owned());
        }
    } else if event.start.is_none() || event.end.is_none() || start.is_none() || end.is_none() {
        return Err("adapter returned an invalid timed event".to_owned());
    }
    Ok((start, end))
}

/// Names an occurrence: by its series and its original start where it recurs, and otherwise by the
/// event and its start.
pub open spec fn occurrence_name(event: AdapterEventView, start: Option<i64>) -> Seq<char> {
    event.calendar_id + ":"@ + match (event.recurring_event_id, event.original_start_time_utc) {
        (Some(series), Some(original)) => "recurring:"@ + series + ":"@ + original,
        _ => "event:"@ + event.id + ":"@ + text::signed_decimal(
            match start {
                Some(n) => n as int,
                None => 0,
            },
        ),
    }
}

fn occurrence_id(event: &AdapterEvent, start_epoch: Option<i64>) -> (r: String)
    ensures
        r@ == occurrence_name(event.deep_view(), start_epoch),
{
    let identity = match (&event.recurring_event_id, &event.original_start_time_utc) {
        (Some(series), Some(original)) => {
            let s = text::concat("recurring:", series.as_str());
            let s = text::concat(s.as_str(), ":");
            text::concat(s.as_str(), original.as_str())
        },
        _ => {
            let start: i64 = match start_epoch {
                Some(n) => n,
                None => 0,
            };
            let s = text::concat("event:", event.id.as_str());
            let s = text::concat(s.as_str(), ":");
            text::concat(s.as_str(), text::format_signed(start).as_str())
        },
    };
    let s = text::concat(event.calendar_id.as_str(), ":");
    text::concat(s.as_str(), identity.as_str())
}

/// An event as an item of the agenda. The local time of its start is what the system clock makes of
/// it.
pub open spec fn item_of(
    event: AdapterEventView,
    times: (Option<i64>, Option<i64>),
    local: (u8, u8),
) -> AgendaItemView {
    AgendaItemView {
        occurrence_id: occurrence_name(event, times.0),
        calendar_id: event.calendar_id,
        event_id: event.id,
        recurring_event_id: event.recurring_event_id,
        original_start: match event.original_start_time_utc {
            Some(original) => Some(original),
            None => event.original_start_date_time,
        },
        start_epoch: times.0,
        end_epoch: times.1,
        local_hour: if times.0 is Some {
            Some(local.0)
        } else {
            None
        },
        local_minute: if times.0 is Some {
            Some(local.1)
        } else {
            None
        },
        all_day: event.all_day,
        title: if text::is_blank(event.summary) {
            "(Sem título)"@
        } else {
            event.summary
        },
        status: event.status,
        timezone: event.timezone,
    }
}

fn agenda_item(event: &AdapterEvent, times: (Option<i64>, Option<i64>), local: (u8, u8)) -> (r:
    AgendaItem)
    ensures
        r.deep_view() == item_of(event.deep_view(), times, local),
{
    let original_start = match &event.original_start_time_utc {
        Some(original) => Some(original.dup()),
        None => event.original_start_date_time.dup(),
    };
    let (local_hour, local_minute) = if times.0.is_some() {
        (Some(local.0), Some(local.1))
    } else {
        (None, None)
    };
    let title = if text::blank(event.summary.as_str()) {
        "(Sem título)".to_owned()
    } else {
        event.summary.dup()
    };
    AgendaItem {
        occurrence_id: occurrence_id(event, times.0),
        calendar_id: event.calendar_id.dup(),
        event_id: event.id.dup(),
        recurring_event_id: event.recurring_event_id.dup(),
        original_start,
        start_epoch: times.0,
        end_epoch: times.1,
        local_hour,
        local_minute,
        all_day: event.all_day,
        title,
        status: event.status.dup(),
        timezone: event.timezone.dup(),
    }
}

/// The document is an agenda of a day.
pub open spec fn is_today(document: AdapterDocumentView) -> bool {
    document.mode == "today"@ && is_valid_date(vstd::utf8::encode_utf8(document.local_date))
}

/// When the first so many events start and end, or why one of them is refused.
pub open spec fn events_times(events: Seq<AdapterEventView>) -> Result<
    Seq<(Option<i64>, Option<i64>)>,
    Seq<char>,
>
    decreases events.len(),
{
    if events.len() == 0 {
        Ok(Seq::empty())
    } else {
        match events_times(events.drop_last()) {
            Err(error) => Err(error),
            Ok(times) => match event_times(events.last()) {
                Err(error) => Err(error),
                Ok(last) => Ok(times.push(last)),
            },
        }
    }
}

/// When the events of an agenda start and end, or why it is refused.
pub open spec fn document_times(document: AdapterDocumentView) -> Result<
    Seq<(Option<i64>, Option<i64>)>,
    Seq<char>,
> {
    if is_today(document) {
        events_times(document.events)
    } else {
        Err("adapter returned an invalid today snapshot"@)
    }
}

/// The first event that is refused is why the events are refused.
proof fn lemma_events_times_prefix(events: Seq<AdapterEventView>, n: int)
    requires
        0 <= n <= events.len(),
        events_times(events.take(n)) is Err,
    ensures
        events_times(events) == events_times(events.take(n)),
    decreases events.len(),
{
    if n < events.len() {
        assert(events.drop_last().take(n) =~= events.take(n));
        lemma_events_times_prefix(events.drop_last(), n);
    } else {
        assert(events.take(n) =~= events);
    }
}

/// When each event of an agenda starts and ends, in seconds since 1970.
pub fn read_document_times(document: &AdapterDocument) -> (r: Result<
    Vec<(Option<i64>, Option<i64>)>,
    String,
>)
    ensures
        match document_times(document.deep_view()) {
            Ok(times) => r matches Ok(v) && v@ == times && v.len() == document.events.len(),
            Err(error) => r matches Err(e) && e@ == error,
        },
{
    if !value::is_text(&document.mode, "today") || !valid_date(document.local_date.as_str()) {
        return Err("adapter returned an invalid today snapshot".to_owned());
    }
    let ghost events = document.events.deep_view();
    let mut times: Vec<(Option<i64>, Option<i64>)> = Vec::new();
    let mut i: usize = 0;
    assert(events.take(0) =~= Seq::<AdapterEventView>::empty());
    while i < document.events.len()
        invariant
            i <= document.events.len(),
            events == document.events.deep_view(),
            is_today(document.deep_view()),
            times.len() == i,
            events_times(events.take(i as int)) == Ok::<
                Seq<(Option<i64>, Option<i64>)>,
                Seq<char>,
            >(times@),
        decreases document.events.len() - i,
    {
        assert(events.take(i + 1).drop_last() =~= events.take(i as int));
        assert(events.take(i + 1).last() == events[i as int]);
        match read_event_times(&document.events[i]) {
            Ok(one) => {
                times.push(one);
            },
            Err(e) => {
                proof {
                    lemma_events_times_prefix(events, i + 1);
                }
                return Err(e);
            },
        }
        i += 1;
    }
    assert(events.take(i as int) =~= events);
    Ok(times)
}

/// The agenda that a document describes.
pub open spec fn agenda_of(
    document: AdapterDocumentView,
    times: Seq<(Option<i64>, Option<i64>)>,
    local: Seq<(u8, u8)>,
) -> TodayAgendaView {
    TodayAgendaView {
        local_date: document.local_date,
        generated_at: document.generated_at,
        source_timezone: document.timezone,
        items: Seq::new(
            document.events.len(),
            |i: int| item_of(document.events[i], times[i], local[i]),
        ),
        status: AgendaStatus::Fresh,
    }
}

/// The agenda that a document describes. `local_times` holds for each event the hour and the minute
/// of its start as the system clock has them; that of an event without a start is not looked at.
pub fn snapshot_from_document(document: &AdapterDocument, local_times: &Vec<(u8, u8)>) -> (r: Result<
    CalendarSnapshot,
    String,
>)
    requires
        local_times.len() == document.events.len(),
    ensures
        match document_times(document.deep_view()) {
            Ok(times) => r matches Ok(snapshot) && snapshot.deep_view().agenda == agenda_of(
                document.deep_view(),
                times,
                local_times@,
            ),
            Err(error) => r matches Err(e) && e@ == error,
        },
{
    let times = match read_document_times(document) {
        Ok(times) => times,
        Err(e) => {
            return Err(e);
        },
    };
    let ghost events = document.events.deep_view();
    let mut items: Vec<AgendaItem> = Vec::new();
    let mut i: usize = 0;
    while i < document.events.len()
        invariant
            i <= document.events.len(),
            times.len() == document.events.len(),
            local_times.len() == document.events.len(),
            events == document.events.deep_view(),
            items.deep_view() =~= Seq::new(
                i as nat,
                |j: int| item_of(events[j], times@[j], local_times@[j]),
            ),
        decreases document.events.len() - i,
    {
        lists::push(&mut items, agenda_item(&document.events[i], times[i], local_times[i]));
        i += 1;
    }
    let agenda = TodayAgenda {
        local_date: document.local_date.dup(),
        generated_at: document.generated_at.dup(),
        source_timezone: document.timezone.dup(),
        items,
        status: AgendaStatus::Fresh,
    };
    assert(agenda.deep_view() =~= agenda_of(document.deep_view(), times@, local_times@));
    Ok(CalendarSnapshot { agenda })
}

impl CalendarConfig {
    /// A configuration, where all of it is set and none of it is empty.
    pub fn complete(
        python: Option<String>,
        adapter: Option<String>,
        credentials: Option<String>,
        token: Option<String>,
    ) -> (r: Option<CalendarConfig>)
        ensures
            match (
                python.deep_view(),
                adapter.deep_view(),
                credentials.deep_view(),
                token.deep_view(),
            ) {
                (Some(p), Some(a), Some(c), Some(t)) => r.deep_view() == (if p.len() > 0 && a.len()
                    > 0 && c.len() > 0 && t.len() > 0 {
                    Some(CalendarConfigView { python: p, adapter: a, credentials: c, token: t })
                } else {
                    None
                }),
                _ => r is None,
            },
    {
        match (python, adapter, credentials, token) {
            (Some(python), Some(adapter), Some(credentials), Some(token)) => {
                if python.as_str().is_empty() || adapter.as_str().is_empty()
                    || credentials.as_str().is_empty() || token.as_str().is_empty() {
                    None
                } else {
                    Some(CalendarConfig { python, adapter, credentials, token })
                }
            },
            _ => None,
        }
    }

    /// The arguments that the adapter is run with.
    pub fn arguments(&self) -> (r: Vec<String>)
        ensures
            r.deep_view() == seq![
                self.deep_view().adapter,
                "today"@,
                "--credentials"@,
                self.deep_view().credentials,
                "--token"@,
                self.deep_view().token,
                "--no-browser"@,
            ],
    {
        let mut arguments: Vec<String> = Vec::new();
        arguments.push(self.adapter.dup());
        arguments.push("today".to_owned());
        arguments.push("--credentials".to_owned());
        arguments.push(self.credentials.dup());
        arguments.push("--token".to_owned());
        arguments.push(self.token.dup());
        arguments.push("--no-browser".to_owned());
        assert(arguments.deep_view() =~= seq![
            self.deep_view().adapter,
            "today"@,
            "--credentials"@,
            self.deep_view().credentials,
            "--token"@,
            self.deep_view().token,
            "--no-browser"@,
        ]);
        arguments
    }
}

/// The date of a clock.
pub open spec fn date_text(clock: ClockState) -> Seq<char> {
    (if clock.year < 0 {
        "-"@ + text::zero_padded(text::decimal((-clock.year) as nat), 3)
    } else {
        text::zero_padded(text::decimal(clock.year as nat), 4)
    }) + "-"@ + calendar::two_digits(clock.month) + "-"@ + calendar::two_digits(clock.day)
}

fn format_date(clock: &ClockState) -> (r: String)
    ensures
        r@ == date_text(*clock),
{
    let year = if clock.year < 0 {
        text::concat(
            "-",
            text::pad_with_zeros(text::format_decimal((-(clock.year as i64)) as u64), 3).as_str(),
        )
    } else {
        text::pad_with_zeros(text::format_decimal(clock.year as u64), 4)
    };
    let s = text::concat(year.as_str(), "-");
    let s = text::concat(s.as_str(), text::format_two_digits(clock.month).as_str());
    let s = text::concat(s.as_str(), "-");
    text::concat(s.as_str(), text::format_two_digits(clock.day).as_str())
}

/// The agenda has to be read: never while it is being read, once where the time is not known, and
/// otherwise where it is that of another day or too old. `age` is how many whole seconds ago it was
/// read, or else asked for.
pub open spec fn is_refresh_due(
    enabled: bool,
    in_flight: bool,
    requested: bool,
    read_date: Option<Seq<char>>,
    age: Option<u64>,
    clock: Option<ClockState>,
) -> bool {
    enabled && !in_flight && match clock {
        None => !requested,
        Some(now) => read_date != Some(date_text(now)) || match age {
            Some(seconds) => seconds >= REFRESH_INTERVAL,
            None => true,
        },
    }
}

/// Whether the agenda has to be read.
pub fn refresh_due(
    enabled: bool,
    in_flight: bool,
    requested: bool,
    read_date: &Option<String>,
    age: Option<u64>,
    clock: Option<ClockState>,
) -> (r: bool)
    ensures
        r == is_refresh_due(enabled, in_flight, requested, read_date.deep_view(), age, clock),
{
    if !enabled || in_flight {
        return false;
    }
    let now = match clock {
        Some(now) => now,
        None => {
            return !requested;
        },
    };
    let today = format_date(&now);
    let same_day = match read_date {
        Some(date) => date.same(&today),
        None => false,
    };
    let old = match age {
        Some(seconds) => seconds >= REFRESH_INTERVAL,
        None => true,
    };
    !same_day || old
}

/// Takes in what the adapter wrote, and returns whether that is too much. What is too much is not
/// taken in.
pub fn take_output(output: &mut Vec<u8>, chunk: &[u8]) -> (r: bool)
    ensures
        r == (old(output).len() + chunk.len() > MAX_ADAPTER_OUTPUT),
        final(output)@ == (if r {
            old(output)@
        } else {
            old(output)@ + chunk@
        }),
{
    let room: usize = if output.len() <= MAX_ADAPTER_OUTPUT {
        MAX_ADAPTER_OUTPUT - output.len()
    } else {
        0
    };
    if output.len() > MAX_ADAPTER_OUTPUT || chunk.len() > room {
        return true;
    }
    let ghost before = output@;
    output.extend_from_slice(chunk);
    assert(output@ =~= before + chunk@);
    false
}

/// What is made of a run of the adapter: the agenda that it wrote, or why there is none.
pub fn adapter_event(success: bool, snapshot: Result<CalendarSnapshot, String>) -> (r: Event)
    ensures
        !success ==> (r matches Event::CalendarSnapshotFailed(error) && error@
            == "adapter exited unsuccessfully"@),
        success ==> match snapshot {
            Ok(read) => r == Event::CalendarSnapshotUpdated(read.agenda),
            Err(error) => r == Event::CalendarSnapshotFailed(error),
        },
{
    if !success {
        return Event::CalendarSnapshotFailed("adapter exited unsuccessfully".to_owned());
    }
    match snapshot {
        Ok(read) => Event::CalendarSnapshotUpdated(read.agenda),
        Err(error) => Event::CalendarSnapshotFailed(error),
    }
}

/// The digits of a number below one hundred.
pub open spec fn two_bytes(n: int) -> Seq<u8> {
    seq![(48 + n / 10) as u8, (48 + n % 10) as u8]
}

/// The digits of a number below ten thousand.
pub open spec fn four_bytes(n: int) -> Seq<u8> {
    two_bytes(n / 100) + two_bytes(n % 100)
}

/// A date and a time of day.
pub struct Moment {
    pub year: int,
    pub month: int,
    pub day: int,
    pub hour: int,
    pub minute: int,
    pub second: int,
}

/// A date and a time of day as they are written in RFC 3339, without the time zone.
#[verifier::opaque]
pub open spec fn written(m: Moment) -> Seq<u8> {
    four_bytes(m.year) + seq![45u8] + two_bytes(m.month) + seq![45u8] + two_bytes(m.day)
        + seq![84u8] + two_bytes(m.hour) + seq![58u8] + two_bytes(m.minute) + seq![58u8]
        + two_bytes(m.second)
}

/// How many days the month of a moment has.
pub open spec fn days_in(m: Moment) -> int {
    if m.month == 2 {
        if m.year % 4 == 0 && (m.year % 100 != 0 || m.year % 400 == 0) {
            29
        } else {
            28
        }
    } else if m.month == 4 || m.month == 6 || m.month == 9 || m.month == 11 {
        30
    } else {
        31
    }
}

/// Whether a moment is one of the calendar, in a year of four digits.
pub open spec fn is_moment(m: Moment) -> bool {
    &&& 0 <= m.year <= 9999
    &&& 1 <= m.month <= 12
    &&& 1 <= m.day <= days_in(m)
    &&& 0 <= m.hour <= 23
    &&& 0 <= m.minute <= 59
    &&& 0 <= m.second <= 59
}

/// The moment one second later.
pub open spec fn next_second(m: Moment) -> Moment {
    if m.second < 59 {
        Moment { second: m.second + 1, ..m }
    } else if m.minute < 59 {
        Moment { second: 0, minute: m.minute + 1, ..m }
    } else if m.hour < 23 {
        Moment { second: 0, minute: 0, hour: m.hour + 1, ..m }
    } else if m.day < days_in(m) {
        Moment { second: 0, minute: 0, hour: 0, day: m.day + 1, ..m }
    } else if m.month < 12 {
        Moment { second: 0, minute: 0, hour: 0, day: 1, month: m.month + 1, ..m }
    } else {
        Moment { second: 0, minute: 0, hour: 0, day: 1, month: 1, year: m.year + 1 }
    }
}

proof fn lemma_two_bytes(n: int)
    requires
        0 <= n <= 99,
    ensures
        signed_number(two_bytes(n)) == Some(n),
{
    let s = two_bytes(n);
    reveal_with_fuel(digits_number, 3);
    assert(s.drop_last() =~= seq![(48 + n / 10) as u8]);
    assert(s.drop_last().last() == (48 + n / 10) as u8);
}

proof fn lemma_four_bytes(n: int)
    requires
        0 <= n <= 9999,
    ensures
        signed_number(four_bytes(n)) == Some(n),
{
    let s = four_bytes(n);
    let (a, b) = (n / 100, n % 100);
    assert(0 <= a <= 99 && 0 <= b <= 99);
    let d0 = (48 + a / 10) as u8;
    let d1 = (48 + a % 10) as u8;
    let d2 = (48 + b / 10) as u8;
    let d3 = (48 + b % 10) as u8;
    assert(s =~= seq![d0, d1, d2, d3]);
    assert(s.drop_last() =~= seq![d0, d1, d2]);
    assert(s.drop_last().drop_last() =~= seq![d0, d1]);
    assert(s.drop_last().drop_last().drop_last() =~= seq![d0]);
    reveal_with_fuel(digits_number, 5);
    assert(digits_number(seq![d0]) == Some(a / 10));
    assert(digits_number(seq![d0, d1]) == Some(a));
    assert(digits_number(seq![d0, d1, d2]) == Some(10 * a + b / 10));
}

/// Whether the parts of a moment have as many digits as are written of them.
pub open spec fn has_digits(m: Moment) -> bool {
    &&& 0 <= m.year <= 9999
    &&& 0 <= m.month <= 99
    &&& 0 <= m.day <= 99
    &&& 0 <= m.hour <= 99
    &&& 0 <= m.minute <= 99
    &&& 0 <= m.second <= 99
}

proof fn lemma_written(m: Moment, tail: Seq<u8>)
    requires
        has_digits(m),
        tail.len() > 0,
    ensures
        ({
            let b = written(m) + tail;
            &&& has_time_form(b)
            &&& field(b, 0, 4) == Some(m.year)
            &&& field(b, 5, 7) == Some(m.month)
            &&& field(b, 8, 10) == Some(m.day)
            &&& field(b, 11, 13) == Some(m.hour)
            &&& field(b, 14, 16) == Some(m.minute)
            &&& field(b, 17, 19) == Some(m.second)
            &&& b.skip(19) == tail
            &&& 1 <= m.month <= 12 ==> calendar::month_length(m.year, m.month) == days_in(m)
        }),
{
    reveal(written);
    let b = written(m) + tail;
    lemma_four_bytes(m.year);
    lemma_two_bytes(m.month);
    lemma_two_bytes(m.day);
    lemma_two_bytes(m.hour);
    lemma_two_bytes(m.minute);
    lemma_two_bytes(m.second);
    assert(b.subrange(0, 4) =~= four_bytes(m.year));
    assert(b.subrange(5, 7) =~= two_bytes(m.month));
    assert(b.subrange(8, 10) =~= two_bytes(m.day));
    assert(b.subrange(11, 13) =~= two_bytes(m.hour));
    assert(b.subrange(14, 16) =~= two_bytes(m.minute));
    assert(b.subrange(17, 19) =~= two_bytes(m.second));
    assert(b.skip(19) =~= tail);
}

/// The seconds since 1970, in Greenwich.
#[verifier::opaque]
spec fn seconds_of(m: Moment) -> int {
    calendar::day_number(m.year, m.month, m.day) * 86_400 + m.hour * 3_600 + m.minute * 60 + m.second
}

proof fn lemma_written_time(m: Moment)
    requires
        is_moment(m),
    ensures
        time_of(written(m) + seq![90u8]) == Ok::<int, TimeError>(seconds_of(m)),
{
    let b = written(m) + seq![90u8];
    lemma_written(m, seq![90u8]);
    assert(is_in_range(m.year, m.month, m.day, m.hour, m.minute, m.second));
    assert(offset_minutes(b.skip(19)) == Some(0int));
    reveal(seconds_of);
}

proof fn lemma_next_day(m: Moment)
    requires
        is_moment(m),
        m.hour == 23 && m.minute == 59 && m.second == 59,
    ensures
        ({
            let next = next_second(m);
            calendar::day_number(next.year, next.month, next.day) == calendar::day_number(
                m.year,
                m.month,
                m.day,
            ) + 1
        }),
{
    assert(calendar::days_before_month(m.year, m.month + 1) == calendar::days_before_month(
        m.year,
        m.month,
    ) + calendar::month_length(m.year, m.month));
    if m.month == 12 {
        calendar::lemma_year_length(m.year);
        assert(calendar::days_before_month(m.year + 1, 1) == 0);
    }
}

proof fn lemma_next_second(m: Moment)
    requires
        is_moment(m),
    ensures
        seconds_of(next_second(m)) == seconds_of(m) + 1,
        (m.year == 1970 && m.month == 1 && m.day == 1 && m.hour == 0 && m.minute == 0)
            ==> seconds_of(m) == m.second,
{
    reveal(seconds_of);
    if m.hour == 23 && m.minute == 59 && m.second == 59 {
        lemma_next_day(m);
    }
}

/// Time is counted in seconds from the start of 1970, in Greenwich: from second to second it is one
/// more, over the ends of minutes, hours, days, months and years.
pub proof fn lemma_time_counts_seconds(m: Moment)
    requires
        is_moment(m),
        is_moment(next_second(m)),
    ensures
        time_of(written(m) + seq![90u8]) is Ok,
        time_of(written(next_second(m)) + seq![90u8]) == Ok::<int, TimeError>(
            time_of(written(m) + seq![90u8])->Ok_0 + 1,
        ),
        (m.year == 1970 && m.month == 1 && m.day == 1 && m.hour == 0 && m.minute == 0) ==> time_of(
            written(m) + seq![90u8],
        )->Ok_0 == m.second,
{
    lemma_written_time(m);
    lemma_written_time(next_second(m));
    lemma_next_second(m);
}

/// A time whose clock is ahead is that much earlier than it says, and one whose clock is behind that
/// much later.
pub proof fn lemma_zone_moves_time(m: Moment, hours: int, minutes: int)
    requires
        is_moment(m),
        0 <= hours <= 99,
        0 <= minutes <= 99,
    ensures
        ({
            let zone = two_bytes(hours) + seq![58u8] + two_bytes(minutes);
            let t = time_of(written(m) + seq![90u8]);
            &&& t is Ok
            &&& time_of(written(m) + (seq![43u8] + zone)) == Ok::<int, TimeError>(
                t->Ok_0 - 3600 * hours - 60 * minutes,
            )
            &&& time_of(written(m) + (seq![45u8] + zone)) == Ok::<int, TimeError>(
                t->Ok_0 + 3600 * hours + 60 * minutes,
            )
        }),
{
    let zone = two_bytes(hours) + seq![58u8] + two_bytes(minutes);
    let ahead = seq![43u8] + zone;
    let behind = seq![45u8] + zone;
    lemma_written(m, seq![90u8]);
    assert(is_in_range(m.year, m.month, m.day, m.hour, m.minute, m.second));
    lemma_written(m, ahead);
    lemma_written(m, behind);
    lemma_two_bytes(hours);
    lemma_two_bytes(minutes);
    assert(ahead.subrange(1, 3) =~= two_bytes(hours));
    assert(ahead.subrange(4, 6) =~= two_bytes(minutes));
    assert(behind.subrange(1, 3) =~= two_bytes(hours));
    assert(behind.subrange(4, 6) =~= two_bytes(minutes));
}

/// A date that is not in the calendar, or a time of day that is too late, is refused.
pub proof fn lemma_no_such_time(m: Moment)
    requires
        has_digits(m),
        !is_moment(m),
    ensures
        time_of(written(m) + seq![90u8]) == Err::<int, TimeError>(TimeError::Range),
{
    lemma_written(m, seq![90u8]);
    assert(!is_in_range(m.year, m.month, m.day, m.hour, m.minute, m.second));
}

/// Whether a moment of an item is the time that an event gives for it.
pub open spec fn is_time_of(epoch: Option<i64>, given: Option<Seq<char>>) -> bool {
    match (epoch, given) {
        (Some(n), Some(text)) => time_of(vstd::utf8::encode_utf8(text)) matches Ok(t) && n == t as i64,
        (None, None) => true,
        _ => false,
    }
}

/// The agenda holds one item for each event, in the order of the events. An item starts and ends when
/// its event does, and has its title unless that is blank. A timed event has both a start and an end.
pub proof fn lemma_agenda_holds_events(
    document: AdapterDocumentView,
    local: Seq<(u8, u8)>,
    i: int,
)
    requires
        document_times(document) is Ok,
        0 <= i < document.events.len(),
    ensures
        ({
            let agenda = agenda_of(document, document_times(document)->Ok_0, local);
            let event = document.events[i];
            let item = agenda.items[i];
            &&& agenda.local_date == document.local_date
            &&& agenda.status is Fresh
            &&& agenda.items.len() == document.events.len()
            &&& item.event_id == event.id
            &&& item.calendar_id == event.calendar_id
            &&& item.status == event.status
            &&& item.all_day == event.all_day
            &&& is_time_of(item.start_epoch, event.start_utc)
            &&& is_time_of(item.end_epoch, event.end_utc)
            &&& !event.all_day ==> item.start_epoch is Some && item.end_epoch is Some
            &&& item.start_epoch is Some ==> item.local_hour == Some(local[i].0)
                && item.local_minute == Some(local[i].1)
            &&& item.start_epoch is None ==> item.local_hour is None && item.local_minute is None
            &&& !text::is_blank(event.summary) ==> item.title == event.summary
            &&& text::is_blank(event.summary) ==> !text::is_blank(item.title)
        }),
{
    lemma_events_times_at(document.events, i);
    lemma_one_time(document.events[i]);
    reveal_strlit("(Sem título)");
    assert("(Sem título)"@[0] == '(');
    assert(!text::is_white_space("(Sem título)"@[0]));
}

proof fn lemma_events_times_count(events: Seq<AdapterEventView>)
    requires
        events_times(events) is Ok,
    ensures
        events_times(events)->Ok_0.len() == events.len(),
    decreases events.len(),
{
    if events.len() > 0 {
        lemma_events_times_count(events.drop_last());
    }
}

#[verifier::opaque]
spec fn one_time(event: AdapterEventView) -> Result<(Option<i64>, Option<i64>), Seq<char>> {
    event_times(event)
}

proof fn lemma_one_time(event: AdapterEventView)
    ensures
        one_time(event) == event_times(event),
{
    reveal(one_time);
}

proof fn lemma_events_times_at(events: Seq<AdapterEventView>, i: int)
    requires
        events_times(events) is Ok,
        0 <= i < events.len(),
    ensures
        events_times(events)->Ok_0.len() == events.len(),
        one_time(events[i]) == Ok::<(Option<i64>, Option<i64>), Seq<char>>(
            events_times(events)->Ok_0[i],
        ),
    decreases events.len(),
{
    let before = events.drop_last();
    lemma_events_times_count(before);
    lemma_one_time(events.last());
    if i < before.len() {
        lemma_events_times_at(before, i);
        assert(before[i] == events[i]);
    }
}

/// An agenda of the day that has just been read is not read again before its time is up, is read again
/// from then on, and is never read twice at once.
pub proof fn lemma_agenda_is_read_in_time(
    requested: bool,
    age: u64,
    later: u64,
    now: ClockState,
)
    requires
        age <= later,
    ensures
        ({
            let today = Some(date_text(now));
            &&& !is_refresh_due(true, false, requested, today, Some(0), Some(now))
            &&& is_refresh_due(true, false, requested, today, Some(REFRESH_INTERVAL), Some(now))
            &&& is_refresh_due(true, false, requested, today, Some(age), Some(now))
                ==> is_refresh_due(true, false, requested, today, Some(later), Some(now))
            &&& !is_refresh_due(true, true, requested, today, Some(age), Some(now))
            &&& !is_refresh_due(false, false, requested, today, Some(age), Some(now))
        }),
{
}

/// An agenda of another day is read again at once, as is one that was never read; where the time is
/// not known it is read once.
pub proof fn lemma_new_day_is_read(
    requested: bool,
    read_date: Option<Seq<char>>,
    age: Option<u64>,
    now: ClockState,
)
    ensures
        read_date != Some(date_text(now)) ==> is_refresh_due(
            true,
            false,
            requested,
            read_date,
            age,
            Some(now),
        ),
        is_refresh_due(true, false, requested, read_date, None, Some(now)),
        is_refresh_due(true, false, requested, read_date, age, None) == !requested,
        !is_refresh_due(true, true, requested, read_date, age, None),
{
}

} // verus!
