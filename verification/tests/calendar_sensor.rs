//! The documents of the calendar adapter.
use serde_json::Value;
use xbar::calendar_sensor::{
    read_document_times, snapshot_from_document, AdapterDocument, AdapterEvent, CalendarSnapshot,
};

fn text(value: &Value, name: &str) -> Result<String, String> {
    match value.get(name).and_then(Value::as_str) {
        Some(text) => Ok(text.to_owned()),
        None => Err(format!("missing {name}")),
    }
}

fn optional(value: &Value, name: &str) -> Option<String> {
    value.get(name).and_then(Value::as_str).map(str::to_owned)
}

fn event(value: &Value) -> Result<AdapterEvent, String> {
    Ok(AdapterEvent {
        calendar_id: text(value, "calendar_id")?,
        id: text(value, "id")?,
        recurring_event_id: optional(value, "recurring_event_id"),
        original_start_date_time: value
            .get("original_start_time")
            .and_then(|start| optional(start, "dateTime")),
        original_start_time_utc: optional(value, "original_start_time_utc"),
        summary: text(value, "summary")?,
        start: optional(value, "start"),
        end: optional(value, "end"),
        start_utc: optional(value, "start_utc"),
        end_utc: optional(value, "end_utc"),
        timezone: optional(value, "timezone"),
        start_date: optional(value, "start_date"),
        end_date: optional(value, "end_date"),
        all_day: value.get("all_day").and_then(Value::as_bool).unwrap_or(false),
        status: text(value, "status")?,
    })
}

fn parse_snapshot(bytes: &[u8]) -> Result<CalendarSnapshot, String> {
    let value: Value = serde_json::from_slice(bytes).map_err(|error| error.to_string())?;
    let mut events = Vec::new();
    for one in value
        .get("events")
        .and_then(Value::as_array)
        .ok_or("missing events")?
    {
        events.push(event(one)?);
    }
    let document = AdapterDocument {
        generated_at: text(&value, "generated_at")?,
        timezone: text(&value, "timezone")?,
        local_date: text(&value, "local_date")?,
        mode: text(&value, "mode")?,
        events,
    };
    let local_times = vec![(0, 0); document.events.len()];
    snapshot_from_document(&document, &local_times)
}

fn document(event: &str) -> Vec<u8> {
    format!(
        r#"{{"generated_at":"2026-09-21T17:00:00Z","timezone":"America/Sao_Paulo","local_date":"2026-09-21","mode":"today","events":[{event}]}}"#
    )
    .into_bytes()
}

#[test]
fn parses_synthetic_snapshot_and_occurrence_identity() {
    let snapshot = parse_snapshot(br#"{"generated_at":"2026-09-21T17:00:00Z","timezone":"America/Sao_Paulo","local_date":"2026-09-21","mode":"today","events":[{"calendar_id":"calendar-test","id":"event-123","recurring_event_id":"series-1","original_start_time":{"dateTime":"2026-09-14T14:30:00-03:00"},"original_start_time_utc":"2026-09-14T17:30:00Z","summary":"Evento recorrente","start":"2026-09-21T14:30:00-03:00","end":"2026-09-21T15:00:00-03:00","start_utc":"2026-09-21T17:30:00Z","end_utc":"2026-09-21T18:00:00Z","timezone":"America/Sao_Paulo","start_date":null,"end_date":null,"all_day":false,"status":"confirmed"}]}"#).unwrap();
    assert_eq!(
        snapshot.agenda.items[0].occurrence_id,
        "calendar-test:recurring:series-1:2026-09-14T17:30:00Z"
    );
}

#[test]
fn rejects_malformed_or_invalid_snapshots() {
    assert!(parse_snapshot(b"not-json").is_err());
    assert!(parse_snapshot(
        br#"{"generated_at":"x","timezone":"x","local_date":"bad","mode":"today","events":[]}"#
    )
    .is_err());
}

#[test]
fn preserves_all_day_dates_and_normalizes_empty_title() {
    let snapshot = parse_snapshot(&document(
        r#"{"calendar_id":"calendar-test","id":"event-all-day","recurring_event_id":null,"original_start_time":null,"original_start_time_utc":null,"summary":"","start":null,"end":null,"start_utc":null,"end_utc":null,"timezone":null,"start_date":"2026-09-21","end_date":"2026-09-22","all_day":true,"status":"cancelled"}"#,
    ))
    .unwrap();
    let item = &snapshot.agenda.items[0];
    assert!(item.all_day);
    assert_eq!(item.title, "(Sem título)");
    assert_eq!(item.status, "cancelled");
}

#[test]
fn rejects_missing_timed_fields() {
    assert!(parse_snapshot(&document(
        r#"{"calendar_id":"calendar-test","id":"event-missing","summary":"Evento A","all_day":false,"status":"confirmed","start":null,"end":null,"start_utc":null,"end_utc":null}"#,
    ))
    .is_err());
}

#[test]
fn times_are_seconds_since_the_epoch() {
    let document = AdapterDocument {
        generated_at: "2026-09-21T17:00:00Z".to_owned(),
        timezone: "America/Sao_Paulo".to_owned(),
        local_date: "2026-09-21".to_owned(),
        mode: "today".to_owned(),
        events: vec![AdapterEvent {
            calendar_id: "calendar-test".to_owned(),
            id: "event-123".to_owned(),
            recurring_event_id: None,
            original_start_date_time: None,
            original_start_time_utc: None,
            summary: "Evento".to_owned(),
            start: Some("2026-09-21T14:30:00-03:00".to_owned()),
            end: Some("2026-09-21T15:00:00-03:00".to_owned()),
            start_utc: Some("2026-09-21T17:30:00Z".to_owned()),
            end_utc: Some("2026-09-21T18:00:00Z".to_owned()),
            timezone: None,
            start_date: None,
            end_date: None,
            all_day: false,
            status: "confirmed".to_owned(),
        }],
    };
    assert_eq!(
        read_document_times(&document),
        Ok(vec![(Some(1_790_011_800), Some(1_790_013_600))])
    );
}
