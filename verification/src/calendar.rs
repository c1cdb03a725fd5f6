//! The calendar: months as a grid of days, and the agenda of the day.
use vstd::prelude::*;

use crate::domain::state::ClockState;
use crate::lists;
use crate::seqs;
use crate::text;
use crate::value;
use crate::value::Value;

verus! {

/// How far an agenda can be relied on.
#[derive(Clone, Copy, Debug, Default, Eq, PartialEq, Structural)]
pub enum AgendaStatus {
    /// No agenda has been read yet.
    #[default]
    Unavailable,
    /// The agenda has been read.
    Fresh,
}

impl DeepView for AgendaStatus {
    type V = AgendaStatus;

    open spec fn deep_view(&self) -> AgendaStatus {
        *self
    }
}

impl Value for AgendaStatus {
    fn same(&self, other: &Self) -> (r: bool) {
        *self == *other
    }

    fn dup(&self) -> (r: Self) {
        *self
    }
}

/// One occurrence of a calendar event.
#[derive(Clone, Debug, Eq, PartialEq)]
pub struct AgendaItem {
    pub occurrence_id: String,
    pub calendar_id: String,
    pub event_id: String,
    pub recurring_event_id: Option<String>,
    pub original_start: Option<String>,
    pub start_epoch: Option<i64>,
    pub end_epoch: Option<i64>,
    pub local_hour: Option<u8>,
    pub local_minute: Option<u8>,
    pub all_day: bool,
    pub title: String,
    pub status: String,
    pub timezone: Option<String>,
}

/// The model of a [`AgendaItem`].
#[verifier::ext_equal]
pub struct AgendaItemView {
    pub occurrence_id: Seq<char>,
    pub calendar_id: Seq<char>,
    pub event_id: Seq<char>,
    pub recurring_event_id: Option<Seq<char>>,
    pub original_start: Option<Seq<char>>,
    pub start_epoch: Option<i64>,
    pub end_epoch: Option<i64>,
    pub local_hour: Option<u8>,
    pub local_minute: Option<u8>,
    pub all_day: bool,
    pub title: Seq<char>,
    pub status: Seq<char>,
    pub timezone: Option<Seq<char>>,
}

impl DeepView for AgendaItem {
    type V = AgendaItemView;

    open spec fn deep_view(&self) -> AgendaItemView {
        AgendaItemView {
            occurrence_id: self.occurrence_id.deep_view(),
            calendar_id: self.calendar_id.deep_view(),
            event_id: self.event_id.deep_view(),
            recurring_event_id: self.recurring_event_id.deep_view(),
            original_start: self.original_start.deep_view(),
            start_epoch: self.start_epoch.deep_view(),
            end_epoch: self.end_epoch.deep_view(),
            local_hour: self.local_hour.deep_view(),
            local_minute: self.local_minute.deep_view(),
            all_day: self.all_day,
            title: self.title.deep_view(),
            status: self.status.deep_view(),
            timezone: self.timezone.deep_view(),
        }
    }
}

impl Value for AgendaItem {
    fn same(&self, other: &Self) -> (r: bool) {
        self.occurrence_id.same(&other.occurrence_id) && self.calendar_id.same(&other.calendar_id) && self.event_id.same(&other.event_id) && self.recurring_event_id.same(&other.recurring_event_id) && self.original_start.same(&other.original_start) && self.start_epoch.same(&other.start_epoch) && self.end_epoch.same(&other.end_epoch) && self.local_hour.same(&other.local_hour) && self.local_minute.same(&other.local_minute) && self.all_day == other.all_day && self.title.same(&other.title) && self.status.same(&other.status) && self.timezone.same(&other.timezone)
    }

    fn dup(&self) -> (r: Self) {
        AgendaItem {
            occurrence_id: self.occurrence_id.dup(),
            calendar_id: self.calendar_id.dup(),
            event_id: self.event_id.dup(),
            recurring_event_id: self.recurring_event_id.dup(),
            original_start: self.original_start.dup(),
            start_epoch: self.start_epoch.dup(),
            end_epoch: self.end_epoch.dup(),
            local_hour: self.local_hour.dup(),
            local_minute: self.local_minute.dup(),
            all_day: self.all_day,
            title: self.title.dup(),
            status: self.status.dup(),
            timezone: self.timezone.dup(),
        }
    }
}

impl AgendaItemView {
    /// The model of a default [`AgendaItem`].
    pub open spec fn initial() -> AgendaItemView {
        AgendaItemView {
            occurrence_id: Seq::empty(),
            calendar_id: Seq::empty(),
            event_id: Seq::empty(),
            recurring_event_id: None,
            original_start: None,
            start_epoch: None,
            end_epoch: None,
            local_hour: None,
            local_minute: None,
            all_day: false,
            title: Seq::empty(),
            status: Seq::empty(),
            timezone: None,
        }
    }
}

impl Default for AgendaItem {
    fn default() -> (r: Self)
        ensures
            r.deep_view() == AgendaItemView::initial(),
    {
        let r = AgendaItem {
            occurrence_id: String::new(),
            calendar_id: String::new(),
            event_id: String::new(),
            recurring_event_id: None,
            original_start: None,
            start_epoch: None,
            end_epoch: None,
            local_hour: None,
            local_minute: None,
            all_day: false,
            title: String::new(),
            status: String::new(),
            timezone: None,
        };
        assert(r.deep_view() =~= AgendaItemView::initial());
        r
    }
}

/// What is on today.
#[derive(Clone, Debug, Eq, PartialEq)]
pub struct TodayAgenda {
    pub local_date: String,
    pub generated_at: String,
    pub source_timezone: String,
    pub items: Vec<AgendaItem>,
    pub status: AgendaStatus,
}

/// The model of a [`TodayAgenda`].
#[verifier::ext_equal]
pub struct TodayAgendaView {
    pub local_date: Seq<char>,
    pub generated_at: Seq<char>,
    pub source_timezone: Seq<char>,
    pub items: Seq<AgendaItemView>,
    pub status: AgendaStatus,
}

impl DeepView for TodayAgenda {
    type V = TodayAgendaView;

    open spec fn deep_view(&self) -> TodayAgendaView {
        TodayAgendaView {
            local_date: self.local_date.deep_view(),
            generated_at: self.generated_at.deep_view(),
            source_timezone: self.source_timezone.deep_view(),
            items: self.items.deep_view(),
            status: self.status,
        }
    }
}

impl Value for TodayAgenda {
    fn same(&self, other: &Self) -> (r: bool) {
        self.local_date.same(&other.local_date) && self.generated_at.same(&other.generated_at) && self.source_timezone.same(&other.source_timezone) && self.items.same(&other.items) && self.status == other.status
    }

    fn dup(&self) -> (r: Self) {
        TodayAgenda {
            local_date: self.local_date.dup(),
            generated_at: self.generated_at.dup(),
            source_timezone: self.source_timezone.dup(),
            items: self.items.dup(),
            status: self.status,
        }
    }
}

impl TodayAgendaView {
    /// The model of a default [`TodayAgenda`].
    pub open spec fn initial() -> TodayAgendaView {
        TodayAgendaView {
            local_date: Seq::empty(),
            generated_at: Seq::empty(),
            source_timezone: Seq::empty(),
            items: Seq::empty(),
            status: AgendaStatus::Unavailable,
        }
    }
}

impl Default for TodayAgenda {
    fn default() -> (r: Self)
        ensures
            r.deep_view() == TodayAgendaView::initial(),
    {
        let r = TodayAgenda {
            local_date: String::new(),
            generated_at: String::new(),
            source_timezone: String::new(),
            items: Vec::new(),
            status: AgendaStatus::Unavailable,
        };
        assert(r.deep_view() =~= TodayAgendaView::initial());
        r
    }
}

/// The names of the months.
pub const MONTH_NAMES: [&'static str; 12] = [
    "janeiro",
    "fevereiro",
    "março",
    "abril",
    "maio",
    "junho",
    "julho",
    "agosto",
    "setembro",
    "outubro",
    "novembro",
    "dezembro",
];

/// The names of the days of the week, from Sunday.
pub const WEEKDAY_NAMES: [&'static str; 7] = [
    "domingo",
    "segunda-feira",
    "terça-feira",
    "quarta-feira",
    "quinta-feira",
    "sexta-feira",
    "sábado",
];

/// The year has a 29th of February.
pub open spec fn is_leap(year: int) -> bool {
    (year % 4 == 0 && year % 100 != 0) || year % 400 == 0
}

/// Whether a year has a 29th of February.
pub fn is_leap_year(year: i32) -> (r: bool)
    ensures
        r == is_leap(year as int),
{
    (floor_mod(year, 4) == 0 && floor_mod(year, 100) != 0) || floor_mod(year, 400) == 0
}

/// The number of days of a month, 0 where there is no such month.
pub open spec fn month_length(year: int, month: int) -> int {
    if month == 2 {
        if is_leap(year) {
            29
        } else {
            28
        }
    } else if month == 4 || month == 6 || month == 9 || month == 11 {
        30
    } else if 1 <= month <= 12 {
        31
    } else {
        0
    }
}

/// The number of days of a month.
pub fn days_in_month(year: i32, month: u8) -> (r: u8)
    ensures
        r == month_length(year as int, month as int),
{
    match month {
        1 | 3 | 5 | 7 | 8 | 10 | 12 => 31,
        4 | 6 | 9 | 11 => 30,
        2 => if is_leap_year(year) {
            29
        } else {
            28
        },
        _ => 0,
    }
}

/// The number of days from the first of January of year 0 to that of the given year.
pub open spec fn days_before_year(year: int) -> int {
    365 * year + (year + 3) / 4 - (year + 99) / 100 + (year + 399) / 400
}

/// The number of days of a year before the given month.
pub open spec fn days_before_month(year: int, month: int) -> int
    decreases month,
{
    if month <= 1 {
        0
    } else {
        days_before_month(year, month - 1) + month_length(year, month - 1)
    }
}

/// The number of days from the first of January 1970 to the given day of the Gregorian calendar.
pub open spec fn day_number(year: int, month: int, day: int) -> int {
    days_before_year(year) + days_before_month(year, month) + day - 1 - 719528
}

/// The number of days from the first of January 1970 to the first of the given month, counted in years
/// that begin in March. It goes on beyond the months of a year as if they had no end.
pub open spec fn month_number(year: int, month: int) -> int {
    let y = if month <= 2 {
        year - 1
    } else {
        year
    };
    let m = if month <= 2 {
        month + 12
    } else {
        month
    };
    365 * y + y / 4 - y / 100 + y / 400 + (153 * (m - 3) + 2) / 5 - 719468
}

/// The weekday of the first of the given month, in days since Sunday: a Thursday for January 1970.
pub open spec fn first_weekday(year: int, month: int) -> int {
    (month_number(year, month) + 4) % 7
}

fn floor_div(a: i32, b: i32) -> (r: i32)
    requires
        b > 1,
    ensures
        r == a as int / b as int,
{
    assert(i32::MIN <= a as int / b as int <= i32::MAX) by (nonlinear_arith)
        requires
            b > 1,
    ;
    match a.checked_div_euclid(b) {
        Some(quotient) => quotient,
        None => 0,
    }
}

fn floor_mod(a: i32, b: i32) -> (r: i32)
    requires
        b > 1,
    ensures
        r == a as int % b as int,
{
    match a.checked_rem_euclid(b) {
        Some(remainder) => remainder,
        None => 0,
    }
}

proof fn lemma_ceil_4(n: int)
    ensures
        (n + 3) / 4 == n / 4 + (if n % 4 == 0 {
            0int
        } else {
            1
        }),
{
}

proof fn lemma_ceil_100(n: int)
    ensures
        (n + 99) / 100 == n / 100 + (if n % 100 == 0 {
            0int
        } else {
            1
        }),
{
}

proof fn lemma_ceil_400(n: int)
    ensures
        (n + 399) / 400 == n / 400 + (if n % 400 == 0 {
            0int
        } else {
            1
        }),
{
}

proof fn lemma_century_divides(n: int)
    ensures
        n % 400 == 0 ==> n % 100 == 0,
        n % 100 == 0 ==> n % 4 == 0,
{
    if n % 400 == 0 {
        assert(n == 100 * (4 * (n / 400)));
    }
    if n % 100 == 0 {
        assert(n == 4 * (25 * (n / 100)));
    }
}

/// The leap years before a year, and the year itself if it is one.
proof fn lemma_leap_years(year: int)
    ensures
        (year + 3) / 4 - (year + 99) / 100 + (year + 399) / 400 + (if is_leap(year) {
            1int
        } else {
            0
        }) == year / 4 - year / 100 + year / 400 + 1,
{
    lemma_ceil_4(year);
    lemma_ceil_100(year);
    lemma_ceil_400(year);
    lemma_century_divides(year);
}

/// A year in terms of its century and its place in it.
proof fn lemma_century_split(y: int)
    ensures
        y / 4 == 25 * (y / 100) + (y % 100) / 4,
        y / 400 == (y / 100) / 4,
{
    let j = y / 100;
    let k = y % 100;
    assert(y == 100 * j + k);
    assert(y / 4 == 25 * j + k / 4);
    let (a, b) = (j / 4, j % 4);
    assert(y == 400 * a + (100 * b + k));
    assert(0 <= 100 * b + k < 400);
}

proof fn lemma_same_remainder(a: int, b: int, t: int)
    requires
        a == b + 7 * t,
    ensures
        a % 7 == b % 7,
{
}

/// The days of the months since March, as the congruence counts them.
proof fn lemma_month_shift(m: int)
    ensures
        (153 * (m - 3) + 2) / 5 + 3 - (13 * (m + 1)) / 5 == 7 * (4 * (m - 3) - 1),
{
    let n = 13 * m - 37;
    assert(153 * (m - 3) + 2 == 5 * (28 * (m - 3)) + n);
    assert(13 * (m + 1) == 5 * 10 + n);
    assert((5 * (28 * (m - 3)) + n) / 5 == 28 * (m - 3) + n / 5);
}

/// A year has 366 days where it has a 29th of February, and 365 days otherwise.
pub proof fn lemma_year_length(year: int)
    ensures
        days_before_year(year + 1) - days_before_year(year) == (if is_leap(year) {
            366int
        } else {
            365
        }),
        days_before_month(year, 13) == days_before_year(year + 1) - days_before_year(year),
{
    reveal_with_fuel(days_before_month, 14);
    lemma_leap_years(year);
    assert((year + 4) / 4 == year / 4 + 1);
    assert((year + 100) / 100 == year / 100 + 1);
    assert((year + 400) / 400 == year / 400 + 1);
}

/// The first of a month has one number, whether the years begin in January or in March.
pub proof fn lemma_march_years(year: int, month: int)
    requires
        1 <= month <= 12,
    ensures
        day_number(year, month, 1) == month_number(year, month),
{
    reveal_with_fuel(days_before_month, 13);
    lemma_leap_years(year);
    if month <= 2 {
        let y = year - 1;
        assert((year + 3) / 4 == y / 4 + 1);
        assert((year + 99) / 100 == y / 100 + 1);
        assert((year + 399) / 400 == y / 400 + 1);
    }
}

proof fn lemma_congruence(j: int, k: int, k4: int, j4: int, offset: int, shift: int, q: int)
    requires
        offset + 3 - shift == 7 * q,
    ensures
        ((1 + shift + k + k4 + j4 + 5 * j) % 7 + 6) % 7 == (365 * (100 * j + k) + 25 * j + k4 - j
            + j4 + offset - 719464) % 7,
{
    let sum = 1 + shift + k + k4 + j4 + 5 * j;
    let number = 365 * (100 * j + k) + 25 * j + k4 - j + j4 + offset - 719464;
    assert(number == (sum + 6) + 7 * (5217 * j + 52 * k + q - 102782));
    lemma_same_remainder(number, sum + 6, 5217 * j + 52 * k + q - 102782);
    assert((sum % 7 + 6) % 7 == (sum + 6) % 7);
}

/// The weekday of the first of a month is what counting the days from a Thursday, the first of January
/// 1970, comes to.
pub proof fn lemma_weekday_counts_days(year: int, month: int)
    requires
        1 <= month <= 12,
    ensures
        first_weekday(year, month) == (day_number(year, month, 1) + 4) % 7,
{
    lemma_march_years(year, month);
}

/// Zeller's congruence, for a year that begins in March: the century `j` and the year `k` in it.
proof fn lemma_zeller(y: int, m: int)
    ensures
        ({
            let (j, k) = (y / 100, y % 100);
            ((1 + (13 * (m + 1)) / 5 + k + k / 4 + j / 4 + 5 * j) % 7 + 6) % 7 == (365 * y + y / 4
                - y / 100 + y / 400 + (153 * (m - 3) + 2) / 5 - 719464) % 7
        }),
{
    let (j, k) = (y / 100, y % 100);
    lemma_century_split(y);
    lemma_month_shift(m);
    lemma_congruence(
        j,
        k,
        k / 4,
        j / 4,
        (153 * (m - 3) + 2) / 5,
        (13 * (m + 1)) / 5,
        4 * (m - 3) - 1,
    );
    assert(y == 100 * j + k);
}

/// Sunday-first weekday for the first day of a Gregorian month.
pub fn weekday_of_first(year: i32, month: u8) -> (r: u8)
    requires
        year > i32::MIN || month > 2,
    ensures
        r == first_weekday(year as int, month as int),
        1 <= month <= 12 ==> r == (day_number(year as int, month as int, 1) + 4) % 7,
        r < 7,
{
    let adjusted_year: i32 = if month <= 2 {
        year - 1
    } else {
        year
    };
    let adjusted_month: i32 = if month <= 2 {
        month as i32 + 12
    } else {
        month as i32
    };
    let century: i32 = floor_mod(adjusted_year, 100);
    let zero_based_century: i32 = floor_div(adjusted_year, 100);
    let sum: i32 = 1 + (13 * (adjusted_month + 1)) / 5 + century + century / 4 + floor_div(
        zero_based_century,
        4,
    ) + 5 * zero_based_century;
    proof {
        lemma_zeller(adjusted_year as int, adjusted_month as int);
        if 1 <= month <= 12 {
            lemma_weekday_counts_days(year as int, month as int);
        }
    }
    ((floor_mod(sum, 7) as u8) + 6) % 7
}

/// A number brought into the range of the year type.
pub open spec fn in_i32(n: int) -> int {
    if n > i32::MAX {
        i32::MAX as int
    } else if n < i32::MIN {
        i32::MIN as int
    } else {
        n
    }
}

fn clamp_i32(n: i64) -> (r: i32)
    ensures
        r == in_i32(n as int),
{
    if n > 2_147_483_647 {
        2_147_483_647
    } else if n < -2_147_483_648 {
        -2_147_483_648
    } else {
        n as i32
    }
}

/// The number of months from January of year 0, held at the ends of the range of the year type.
pub open spec fn month_index(year: int, month: int) -> int {
    in_i32(
        in_i32(year * 12) + (if month > 0 {
            month - 1
        } else {
            0
        }),
    )
}

/// The month that is the given number of months later.
pub open spec fn month_shifted(year: int, month: int, delta: int) -> (int, int) {
    let index = in_i32(month_index(year, month) + delta);
    (index / 12, index % 12 + 1)
}

/// The month that is the given number of months later.
pub fn shift_month(year: i32, month: u8, delta: i8) -> (r: (i32, u8))
    ensures
        (r.0 as int, r.1 as int) == month_shifted(year as int, month as int, delta as int),
{
    let start: i64 = if month > 0 {
        month as i64 - 1
    } else {
        0
    };
    let base: i32 = clamp_i32(year as i64 * 12);
    let index: i32 = clamp_i32(base as i64 + start);
    let index: i32 = clamp_i32(index as i64 + delta as i64);
    (floor_div(index, 12), (floor_mod(index, 12) + 1) as u8)
}

/// Going a number of months ahead and back again ends where it started, as long as the number of months
/// from January of year 0 stays in the range of the year type.
pub proof fn lemma_shift_month_back(year: int, month: int, delta: int)
    requires
        1 <= month <= 12,
        i32::MIN <= 12 * year,
        12 * year + month - 1 <= i32::MAX,
        ({
            let index = 12 * year + month - 1 + delta;
            i32::MIN <= index - index % 12 && index <= i32::MAX
        }),
    ensures
        ({
            let (y, m) = month_shifted(year, month, delta);
            month_shifted(y, m, -delta) == (year, month)
        }),
        1 <= month_shifted(year, month, delta).1 <= 12,
{
    let index = year * 12 + month - 1 + delta;
    assert((index / 12) * 12 + index % 12 == index);
    assert((year * 12 + month - 1) / 12 == year);
    assert((year * 12 + month - 1) % 12 == month - 1);
}

/// How many cells of the grid stand before the end of a month.
pub open spec fn grid_cells(year: int, month: int) -> int {
    first_weekday(year, month) + month_length(year, month)
}

/// How many weeks a month stretches over.
pub fn grid_rows(year: i32, month: u8) -> (r: u8)
    requires
        year > i32::MIN || month > 2,
    ensures
        r == (grid_cells(year as int, month as int) + 6) / 7,
        r <= 6,
{
    let cells: u16 = weekday_of_first(year, month) as u16 + days_in_month(year, month) as u16;
    ((cells + 6) / 7) as u8
}

/// The day in a cell of the grid, where the first so many cells and those after the last day are
/// empty.
pub open spec fn cell_day(index: int, leading: int, days: int) -> Option<u8> {
    if index < leading || index - leading + 1 > days {
        None
    } else {
        Some((index - leading + 1) as u8)
    }
}

/// The day in a cell of the grid.
pub fn grid_day(index: usize, leading: usize, days: usize) -> (r: Option<u8>)
    requires
        index - leading < usize::MAX,
    ensures
        r == cell_day(index as int, leading as int, days as int),
{
    if index < leading {
        return None;
    }
    let day: usize = index - leading + 1;
    if day <= days {
        Some(day as u8)
    } else {
        None
    }
}

/// The days of a month in weeks from Sunday.
pub open spec fn month_grid(year: int, month: int) -> Seq<Option<u8>> {
    Seq::new(
        ((grid_cells(year, month) + 6) / 7 * 7) as nat,
        |i: int| cell_day(i, first_weekday(year, month), month_length(year, month)),
    )
}

/// The days of a month in weeks from Sunday.
pub fn grid_days(year: i32, month: u8) -> (r: Vec<Option<u8>>)
    requires
        year > i32::MIN || month > 2,
    ensures
        r@ == month_grid(year as int, month as int),
{
    let leading: usize = weekday_of_first(year, month) as usize;
    let days: usize = days_in_month(year, month) as usize;
    let rows: usize = grid_rows(year, month) as usize;
    let cells: usize = rows * 7;
    let mut grid: Vec<Option<u8>> = Vec::new();
    let mut i: usize = 0;
    while i < cells
        invariant
            i <= cells <= 42,
            grid@ =~= Seq::new(i as nat, |j: int| cell_day(j, leading as int, days as int)),
        decreases cells - i,
    {
        grid.push(grid_day(i, leading, days));
        i += 1;
    }
    assert(grid@ =~= month_grid(year as int, month as int));
    grid
}

/// Every day of a month stands in the grid once, the first in the column of its weekday and each
/// other behind the one before; all other cells are empty.
pub proof fn lemma_grid_holds_month(year: int, month: int, i: int)
    requires
        1 <= month <= 12,
        0 <= i < month_grid(year, month).len(),
    ensures
        first_weekday(year, month) + month_length(year, month) <= month_grid(year, month).len(),
        month_grid(year, month)[i] == (if first_weekday(year, month) <= i < first_weekday(year, month)
            + month_length(year, month) {
            Some((i - first_weekday(year, month) + 1) as u8)
        } else {
            None
        }),
{
}

/// The name of a day of the week; Sunday where there is no such day.
pub open spec fn weekday_name(weekday: int) -> Seq<char> {
    if 0 <= weekday < 7 {
        WEEKDAY_NAMES@[weekday]@
    } else {
        "domingo"@
    }
}

/// A number in two digits at least.
pub open spec fn two_digits(n: u8) -> Seq<char> {
    text::zero_padded(text::decimal(n as nat), 2)
}

/// The weekday, the date and the time.
pub open spec fn clock_text(clock: ClockState) -> Seq<char> {
    weekday_name(clock.weekday as int) + " "@ + two_digits(clock.day) + "/"@ + two_digits(
        clock.month,
    ) + " "@ + two_digits(clock.hour) + ":"@ + two_digits(clock.minute)
}

/// The weekday, the date and the time.
pub fn format_clock(clock: &ClockState) -> (r: String)
    ensures
        r@ == clock_text(*clock),
{
    let weekday: &str = if clock.weekday < 7 {
        WEEKDAY_NAMES[clock.weekday as usize]
    } else {
        "domingo"
    };
    let s = text::concat(weekday, " ");
    let s = text::concat(s.as_str(), text::format_two_digits(clock.day).as_str());
    let s = text::concat(s.as_str(), "/");
    let s = text::concat(s.as_str(), text::format_two_digits(clock.month).as_str());
    let s = text::concat(s.as_str(), " ");
    let s = text::concat(s.as_str(), text::format_two_digits(clock.hour).as_str());
    let s = text::concat(s.as_str(), ":");
    text::concat(s.as_str(), text::format_two_digits(clock.minute).as_str())
}

/// The name of a month; that of January for 0, and a question mark where there is no such month.
pub open spec fn month_name(month: int) -> Seq<char> {
    if month == 0 {
        MONTH_NAMES@[0]@
    } else if 1 <= month <= 12 {
        MONTH_NAMES@[month - 1]@
    } else {
        "?"@
    }
}

/// A character as a capital, where it is a small letter of the basic alphabet.
pub open spec fn capital(c: char) -> char {
    if 'a' as int <= c as int <= 'z' as int {
        (c as int - 32) as char
    } else {
        c
    }
}

/// Text with its first character as a capital.
pub open spec fn capitalized(text: Seq<char>) -> Seq<char> {
    if text.len() == 0 {
        text
    } else {
        seq![capital(text[0])] + text.skip(1)
    }
}

/// The name of a month as a title.
pub open spec fn month_title(month: int) -> Seq<char> {
    capitalized(month_name(month))
}

fn title_of_month(month: u8) -> (r: &'static str)
    ensures
        r@ == month_title(month as int),
{
    proof {
        reveal_strlit("janeiro");
        reveal_strlit("fevereiro");
        reveal_strlit("março");
        reveal_strlit("abril");
        reveal_strlit("maio");
        reveal_strlit("junho");
        reveal_strlit("julho");
        reveal_strlit("agosto");
        reveal_strlit("setembro");
        reveal_strlit("outubro");
        reveal_strlit("novembro");
        reveal_strlit("dezembro");
        reveal_strlit("Janeiro");
        reveal_strlit("Fevereiro");
        reveal_strlit("Março");
        reveal_strlit("Abril");
        reveal_strlit("Maio");
        reveal_strlit("Junho");
        reveal_strlit("Julho");
        reveal_strlit("Agosto");
        reveal_strlit("Setembro");
        reveal_strlit("Outubro");
        reveal_strlit("Novembro");
        reveal_strlit("Dezembro");
        reveal_strlit("?");
    }
    let title = match month {
        0 | 1 => "Janeiro",
        2 => "Fevereiro",
        3 => "Março",
        4 => "Abril",
        5 => "Maio",
        6 => "Junho",
        7 => "Julho",
        8 => "Agosto",
        9 => "Setembro",
        10 => "Outubro",
        11 => "Novembro",
        12 => "Dezembro",
        _ => "?",
    };
    assert(title@ =~= month_title(month as int));
    title
}

/// The name of a month as a title, and the year.
pub fn format_month(year: i32, month: u8) -> (r: String)
    ensures
        r@ == month_title(month as int) + " "@ + text::signed_decimal(year as int),
{
    let s = text::concat(title_of_month(month), " ");
    text::concat(s.as_str(), text::format_signed(year as i64).as_str())
}

/// The item is worth showing: it is not cancelled, and it lasts all day or has not ended yet.
pub open spec fn is_visible(item: AgendaItemView, now: Option<i64>) -> bool {
    item.status != "cancelled"@ && (item.all_day || match (item.end_epoch, now) {
        (Some(end), Some(now)) => end > now,
        _ => false,
    })
}

fn shows(item: &AgendaItem, now: Option<i64>) -> (r: bool)
    ensures
        r == is_visible(item.deep_view(), now),
{
    let pending = match (item.end_epoch, now) {
        (Some(end), Some(now)) => end > now,
        _ => false,
    };
    !value::is_text(&item.status, "cancelled") && (item.all_day || pending)
}

/// The order of the agenda: what lasts all day first, then by start, then by occurrence.
pub open spec fn agenda_le(a: AgendaItemView, b: AgendaItemView) -> bool {
    if a.all_day != b.all_day {
        a.all_day
    } else if a.start_epoch != b.start_epoch {
        match (a.start_epoch, b.start_epoch) {
            (None, _) => true,
            (_, None) => false,
            (Some(x), Some(y)) => x < y,
        }
    } else {
        text::text_le(a.occurrence_id, b.occurrence_id)
    }
}

fn agenda_not_after(a: &AgendaItem, b: &AgendaItem) -> (r: bool)
    ensures
        r == agenda_le(a.deep_view(), b.deep_view()),
{
    if a.all_day != b.all_day {
        a.all_day
    } else if !a.start_epoch.same(&b.start_epoch) {
        match (a.start_epoch, b.start_epoch) {
            (None, _) => true,
            (_, None) => false,
            (Some(x), Some(y)) => x < y,
        }
    } else {
        text::not_after(a.occurrence_id.as_str(), b.occurrence_id.as_str())
    }
}

/// The items of the agenda that are worth showing, in order.
pub open spec fn visible_items(items: Seq<AgendaItemView>, now: Option<i64>) -> Seq<AgendaItemView> {
    seqs::stable_sorted(
        items.filter(|i: AgendaItemView| is_visible(i, now)),
        |a: AgendaItemView, b: AgendaItemView| agenda_le(a, b),
    )
}

/// The items of the agenda that are worth showing, in order. What does not last all day is shown
/// only where the time is known, in seconds since 1970.
pub fn visible_agenda_items(agenda: &TodayAgenda, now: Option<i64>) -> (r: Vec<&AgendaItem>)
    ensures
        r.deep_view() == visible_items(agenda.deep_view().items, now),
{
    let ghost all = agenda.items.deep_view();
    let ghost p = |i: AgendaItemView| is_visible(i, now);
    proof {
        seqs::lemma_filter_none(all, p);
    }
    let mut visible: Vec<&AgendaItem> = Vec::new();
    let mut i: usize = 0;
    while i < agenda.items.len()
        invariant
            i <= agenda.items.len(),
            all == agenda.items.deep_view(),
            p == (|i: AgendaItemView| is_visible(i, now)),
            visible.deep_view() =~= all.take(i as int).filter(p),
        decreases agenda.items.len() - i,
    {
        proof {
            seqs::lemma_filter_take(all, p, i as int);
        }
        if shows(&agenda.items[i], now) {
            lists::push(&mut visible, &agenda.items[i]);
        }
        i += 1;
    }
    assert(all.take(i as int) =~= all);
    let not_after = |a: &&AgendaItem, b: &&AgendaItem| -> (c: bool)
        ensures
            c == agenda_le(a.deep_view(), b.deep_view()),
    {
        agenda_not_after(*a, *b)
    };
    lists::sort(visible, not_after, Ghost(|a: AgendaItemView, b: AgendaItemView| agenda_le(a, b)))
}

/// The order of the agenda is total and transitive.
pub proof fn lemma_agenda_order()
    ensures
        seqs::is_total_order(|a: AgendaItemView, b: AgendaItemView| agenda_le(a, b)),
{
    let le = |a: AgendaItemView, b: AgendaItemView| agenda_le(a, b);
    assert forall|a: AgendaItemView, b: AgendaItemView| #[trigger] le(a, b) || le(b, a) by {
        text::lemma_text_le_total(a.occurrence_id, b.occurrence_id);
    }
    assert forall|a: AgendaItemView, b: AgendaItemView, c: AgendaItemView| #[trigger]
        le(a, b) && #[trigger] le(b, c) implies le(a, c) by {
        if text::text_le(a.occurrence_id, b.occurrence_id) && text::text_le(
            b.occurrence_id,
            c.occurrence_id,
        ) {
            text::lemma_text_le_transitive(a.occurrence_id, b.occurrence_id, c.occurrence_id);
        }
    }
}

/// The agenda that is shown holds the visible items and no others, in order.
pub proof fn lemma_visible_items_ordered(items: Seq<AgendaItemView>, now: Option<i64>)
    ensures
        seqs::is_ordered(
            visible_items(items, now),
            |a: AgendaItemView, b: AgendaItemView| agenda_le(a, b),
        ),
        visible_items(items, now).to_multiset() == items.filter(
            |i: AgendaItemView| is_visible(i, now),
        ).to_multiset(),
{
    let le = |a: AgendaItemView, b: AgendaItemView| agenda_le(a, b);
    lemma_agenda_order();
    seqs::lemma_sorted_ordered(items.filter(|i: AgendaItemView| is_visible(i, now)), le);
    seqs::lemma_sorted_multiset(items.filter(|i: AgendaItemView| is_visible(i, now)), le);
}

/// A local time in the fields of the C library, seconds left at zero.
#[derive(Clone, Copy, Debug, Eq, PartialEq, Structural)]
pub struct BrokenDownTime {
    pub minute: i32,
    pub hour: i32,
    pub day: i32,
    /// Months since January.
    pub month: i32,
    /// Years since 1900.
    pub year: i32,
}

/// The fields of the C library for a clock, where the year fits.
pub fn broken_down_time(clock: ClockState) -> (r: Option<BrokenDownTime>)
    ensures
        match r {
            Some(time) => time.minute == clock.minute && time.hour == clock.hour && time.day
                == clock.day && time.month == clock.month - 1 && time.year == clock.year - 1900,
            None => clock.year - 1900 < i32::MIN,
        },
{
    match clock.year.checked_sub(1900) {
        Some(year) => Some(
            BrokenDownTime {
                minute: clock.minute as i32,
                hour: clock.hour as i32,
                day: clock.day as i32,
                month: clock.month as i32 - 1,
                year,
            },
        ),
        None => None,
    }
}

/// A time since 1970 as the C library gives it, which is below zero where it knows of none.
pub fn known_epoch(epoch: i64) -> (r: Option<i64>)
    ensures
        r == (if epoch >= 0 {
            Some(epoch)
        } else {
            None
        }),
{
    if epoch >= 0 {
        Some(epoch)
    } else {
        None
    }
}

/// The start of an item as the agenda shows it.
pub open spec fn agenda_time(item: AgendaItemView) -> Seq<char> {
    if item.all_day {
        "Dia todo"@
    } else {
        two_digits(
            match item.local_hour {
                Some(hour) => hour,
                None => 0,
            },
        ) + ":"@ + two_digits(
            match item.local_minute {
                Some(minute) => minute,
                None => 0,
            },
        )
    }
}

/// The start of an item as the agenda shows it.
pub fn format_agenda_time(item: &AgendaItem) -> (r: String)
    ensures
        r@ == agenda_time(item.deep_view()),
{
    if item.all_day {
        return "Dia todo".to_owned();
    }
    let hour: u8 = match item.local_hour {
        Some(hour) => hour,
        None => 0,
    };
    let minute: u8 = match item.local_minute {
        Some(minute) => minute,
        None => 0,
    };
    let s = text::concat(text::format_two_digits(hour).as_str(), ":");
    text::concat(s.as_str(), text::format_two_digits(minute).as_str())
}

/// The agenda that is shown is in order: what lasts all day comes first, then what starts earlier, and
/// what starts at one time in the order of the occurrences.
pub proof fn lemma_agenda_runs_forward(
    items: Seq<AgendaItemView>,
    now: Option<i64>,
    i: int,
    j: int,
)
    requires
        0 <= i < j < visible_items(items, now).len(),
    ensures
        ({
            let first = visible_items(items, now)[i];
            let second = visible_items(items, now)[j];
            &&& second.all_day ==> first.all_day
            &&& first.all_day == second.all_day ==> {
                &&& first.start_epoch is Some ==> second.start_epoch is Some
                &&& first.start_epoch is Some && second.start_epoch is Some
                    ==> first.start_epoch->0 <= second.start_epoch->0
                &&& first.start_epoch == second.start_epoch ==> text::text_le(
                    first.occurrence_id,
                    second.occurrence_id,
                )
            }
        }),
{
    lemma_visible_items_ordered(items, now);
}

/// An item is shown exactly where it is in the agenda, is not cancelled, and lasts all day or ends after
/// now.
pub proof fn lemma_agenda_shows_what_is_left(
    items: Seq<AgendaItemView>,
    now: Option<i64>,
    item: AgendaItemView,
)
    ensures
        visible_items(items, now).contains(item) <==> {
            &&& items.contains(item)
            &&& item.status != "cancelled"@
            &&& item.all_day || (item.end_epoch is Some && now is Some && now->0
                < item.end_epoch->0)
        },
        visible_items(items, now).len() <= items.len(),
{
    let p = |i: AgendaItemView| is_visible(i, now);
    let le = |a: AgendaItemView, b: AgendaItemView| agenda_le(a, b);
    let kept = items.filter(p);
    lemma_visible_items_ordered(items, now);
    seqs::lemma_sorted_multiset(kept, le);
    seqs::lemma_filter_members(items, p, item);
    items.lemma_filter_len(p);
    kept.to_multiset_ensures();
    visible_items(items, now).to_multiset_ensures();
    assert(kept.contains(item) <==> kept.to_multiset().count(item) > 0);
    assert(visible_items(items, now).contains(item) <==> visible_items(
        items,
        now,
    ).to_multiset().count(item) > 0);
}

/// The day in a cell of the grid falls on the weekday of its column, from Sunday on.
pub proof fn lemma_grid_columns_are_weekdays(year: int, month: int, i: int)
    requires
        1 <= month <= 12,
        0 <= i < month_grid(year, month).len(),
    ensures
        month_grid(year, month)[i] matches Some(day) ==> {
            &&& 1 <= day <= month_length(year, month)
            &&& i % 7 == (day_number(year, month, day as int) + 4) % 7
        },
{
    lemma_grid_holds_month(year, month, i);
    lemma_weekday_counts_days(year, month);
    let n = day_number(year, month, 1) + 4;
    let w = first_weekday(year, month);
    if w <= i < w + month_length(year, month) {
        let k = i - w;
        assert(day_number(year, month, k + 1) == day_number(year, month, 1) + k);
        assert((n % 7 + k) % 7 == (n + k) % 7);
    }
}

/// The last day of a month is followed by the first of the next one.
pub proof fn lemma_months_follow_each_other(year: int, month: int)
    requires
        1 <= month <= 12,
    ensures
        day_number(year, month, month_length(year, month)) + 1 == (if month < 12 {
            day_number(year, month + 1, 1)
        } else {
            day_number(year + 1, 1, 1)
        }),
        28 <= month_length(year, month) <= 31,
{
    lemma_year_length(year);
    if month == 12 {
        assert(days_before_month(year, 13) == days_before_month(year, 12) + month_length(year, 12));
    }
}

/// The month that is a number of months later is that many months away.
pub proof fn lemma_shift_month_counts(year: int, month: int, delta: int)
    requires
        1 <= month <= 12,
        i32::MIN <= 12 * year,
        12 * year + month - 1 <= i32::MAX,
        i32::MIN <= 12 * year + month - 1 + delta <= i32::MAX,
    ensures
        ({
            let (y, m) = month_shifted(year, month, delta);
            12 * y + m == 12 * year + month + delta && 1 <= m <= 12
        }),
{
}

/// A number of two digits is read back.
pub proof fn lemma_two_digits_read_back(n: u8)
    requires
        n <= 99,
    ensures
        two_digits(n).len() == 2,
        text::number_of(two_digits(n), false, 99) == Ok::<u32, text::NumberError>(n as u32),
{
    let shown = two_digits(n);
    text::lemma_number_reads_back(n as u32, 99);
    reveal_with_fuel(text::decimal, 3);
    reveal_with_fuel(text::zero_padded, 3);
    reveal_with_fuel(text::digits_of, 3);
    let tens = text::digit_char(n as int / 10);
    let ones = text::digit_char(n as int % 10);
    assert(shown =~= seq![tens, ones]);
    assert(shown.drop_last() =~= seq![tens]);
    assert(shown.drop_last().drop_last() =~= Seq::<char>::empty());
    assert(text::digit_of(tens, false) == Some(n as int / 10));
    assert(text::digit_of(ones, false) == Some(n as int % 10));
}

/// The clock shows the weekday at its front, and the hour and the minute at its end, behind the day and
/// the month.
pub proof fn lemma_clock_shows_time(clock: ClockState)
    ensures
        text::is_prefix(clock_text(clock), weekday_name(clock.weekday as int)),
        text::is_suffix(
            clock_text(clock),
            two_digits(clock.day) + "/"@ + two_digits(clock.month) + " "@ + two_digits(clock.hour)
                + ":"@ + two_digits(clock.minute),
        ),
{
    let name = weekday_name(clock.weekday as int);
    let end = two_digits(clock.day) + "/"@ + two_digits(clock.month) + " "@ + two_digits(clock.hour)
        + ":"@ + two_digits(clock.minute);
    assert(clock_text(clock) =~= name + (" "@ + end));
    assert(clock_text(clock) =~= (name + " "@) + end);
    text::lemma_parts_stand_at_ends(name, " "@ + end);
    text::lemma_parts_stand_at_ends(name + " "@, end);
}

/// An item that does not last all day is shown with the hour in front of the minute of its start.
pub proof fn lemma_agenda_shows_start(item: AgendaItemView, hour: u8, minute: u8)
    requires
        !item.all_day,
        item.local_hour == Some(hour),
        item.local_minute == Some(minute),
    ensures
        text::is_prefix(agenda_time(item), two_digits(hour) + ":"@),
        text::is_suffix(agenda_time(item), ":"@ + two_digits(minute)),
{
    assert(agenda_time(item) =~= two_digits(hour) + (":"@ + two_digits(minute)));
    text::lemma_parts_stand_at_ends(two_digits(hour) + ":"@, two_digits(minute));
    text::lemma_parts_stand_at_ends(two_digits(hour), ":"@ + two_digits(minute));
}

/// A text that starts with a capital is the same text but for the first letter.
pub proof fn lemma_only_first_letter_changes(text: Seq<char>)
    ensures
        capitalized(text).len() == text.len(),
        capitalized(text).skip(1) == text.skip(1),
        text.len() > 0 ==> !('a' <= capitalized(text)[0] && capitalized(text)[0] <= 'z'),
        text.len() > 0 && !('a' <= text[0] && text[0] <= 'z') ==> capitalized(text) == text,
        capitalized(capitalized(text)) == capitalized(text),
{
    if text.len() > 0 {
        let c = text[0];
        assert(capitalized(text).skip(1) =~= text.skip(1));
        assert(seq![c] + text.skip(1) =~= text);
        assert(capital(capital(c)) == capital(c));
        assert(capitalized(capitalized(text)) =~= capitalized(text));
    }
}

} // verus!
