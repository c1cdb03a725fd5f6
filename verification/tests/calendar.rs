//! The calendar and the agenda of the day.
use xbar::calendar::{
    AgendaItem, AgendaStatus, TodayAgenda, WEEKDAY_NAMES, days_in_month, format_agenda_time,
    format_clock, grid_days, grid_rows, known_epoch, shift_month, visible_agenda_items,
    weekday_of_first,
};
use xbar::domain::state::ClockState;

fn item(id: &str, start: i64, end: i64, all_day: bool, status: &str) -> AgendaItem {
    AgendaItem {
        occurrence_id: id.to_owned(),
        start_epoch: Some(start),
        end_epoch: Some(end),
        all_day,
        status: status.to_owned(),
        title: id.to_owned(),
        ..AgendaItem::default()
    }
}

#[test]
fn portuguese_weekday_formatting_is_full_and_localized() {
    let expected = [
        "domingo",
        "segunda-feira",
        "terça-feira",
        "quarta-feira",
        "quinta-feira",
        "sexta-feira",
        "sábado",
    ];
    assert_eq!(WEEKDAY_NAMES, expected);
    assert_eq!(
        format_clock(&ClockState {
            year: 2026,
            weekday: 1,
            hour: 11,
            minute: 52,
            day: 21,
            month: 9,
        }),
        "segunda-feira 21/09 11:52"
    );
}

#[test]
fn month_lengths_cover_leap_normal_thirty_and_thirty_one_day_months() {
    assert_eq!(days_in_month(2024, 2), 29);
    assert_eq!(days_in_month(2025, 2), 28);
    assert_eq!(days_in_month(2025, 4), 30);
    assert_eq!(days_in_month(2025, 1), 31);
}

#[test]
fn navigation_crosses_year_boundaries() {
    assert_eq!(shift_month(2026, 1, -1), (2025, 12));
    assert_eq!(shift_month(2026, 12, 1), (2027, 1));
}

#[test]
fn sunday_first_grid_placement_is_deterministic() {
    assert_eq!(weekday_of_first(2026, 2), 0);
    assert_eq!(grid_days(2026, 2).first(), Some(&Some(1)));
    assert_eq!(grid_rows(2026, 2), 4);
    assert_eq!(grid_rows(2026, 8), 6);
}

#[test]
fn grid_leading_cells_are_empty_for_each_weekday_start() {
    assert_eq!(weekday_of_first(2026, 2), 0);
    assert_eq!(grid_days(2026, 2).first().copied(), Some(Some(1)));

    assert_eq!(weekday_of_first(2026, 6), 1);
    assert_eq!(grid_days(2026, 6).get(..2), Some(&[None, Some(1)][..]));

    assert_eq!(weekday_of_first(2026, 9), 2);
    assert_eq!(
        grid_days(2026, 9).get(..3),
        Some(&[None, None, Some(1)][..])
    );

    assert_eq!(weekday_of_first(2026, 8), 6);
    assert_eq!(
        grid_days(2026, 8).get(..7),
        Some(&[None, None, None, None, None, None, Some(1)][..])
    );
}

#[test]
fn grid_trailing_cells_are_empty_for_all_month_lengths() {
    for (year, month, last_day) in [(2025, 2, 28), (2024, 2, 29), (2025, 4, 30), (2025, 1, 31)]
    {
        let grid = grid_days(year, month);
        let last_index = grid
            .iter()
            .rposition(|day| *day == Some(last_day))
            .expect("last day must be present");
        assert!(grid[last_index + 1..].iter().all(Option::is_none));
    }
}

#[test]
fn agenda_filters_cancelled_and_ended_items_and_sorts_all_day_first() {
    let agenda = TodayAgenda {
        status: AgendaStatus::Fresh,
        items: vec![
            item("ended", 10, 20, false, "confirmed"),
            item("future", 20_000, 30_000, false, "confirmed"),
            item("all-day", 0, 0, true, "confirmed"),
            item("cancelled", 10_000, 20_000, false, "cancelled"),
        ],
        ..TodayAgenda::default()
    };
    let clock = ClockState {
        year: 1970,
        weekday: 4,
        hour: 0,
        minute: 2,
        day: 1,
        month: 1,
    };
    let seconds = i64::from(clock.hour) * 3600 + i64::from(clock.minute) * 60;
    let visible = visible_agenda_items(&agenda, known_epoch(seconds));
    assert_eq!(
        visible
            .iter()
            .map(|item| item.occurrence_id.as_str())
            .collect::<Vec<_>>(),
        ["all-day", "future"]
    );
}

#[test]
fn agenda_time_uses_localized_parsed_fields() {
    let event = item("event", 0, 100, false, "confirmed");
    assert_eq!(format_agenda_time(&event), "00:00");
    assert_eq!(
        format_agenda_time(&item("all-day", 0, 0, true, "confirmed")),
        "Dia todo"
    );
}

#[test]
fn weekdays_go_on_before_the_first_year() {
    assert_eq!(weekday_of_first(1, 1), 1);
    assert_eq!(weekday_of_first(0, 1), 6);
    assert_eq!(weekday_of_first(0, 3), 3);
    assert_eq!(weekday_of_first(-1, 12), 3);
    for year in [-800, -400, 400, 2000] {
        assert_eq!(weekday_of_first(year, 1), weekday_of_first(0, 1));
    }
}

#[test]
fn months_go_ahead_and_back_up_to_the_ends_of_the_range() {
    for (year, month) in [(178_956_960, 8), (-178_956_950, 1), (0, 1), (2026, 12)] {
        for delta in [-127, -1, 0, 1, 100] {
            let (shifted, shifted_month) = shift_month(year, month, delta);
            assert_eq!(shift_month(shifted, shifted_month, -delta), (year, month));
        }
    }
    assert_eq!(shift_month(178_956_970, 8, 1), (178_956_970, 8));
}
