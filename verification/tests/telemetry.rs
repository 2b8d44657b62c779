use std::collections::BTreeMap;
use threadbridge::telemetry::{summarize_events, truncate_error, RuntimeTelemetryEvent, RuntimeTelemetryLog};

fn event(operation: &str, status: &str, elapsed_ms: u64, slow: bool, error: Option<&str>) -> RuntimeTelemetryEvent {
    RuntimeTelemetryEvent {
        recorded_at: "2026-03-19T00:00:00.000Z".to_owned(),
        operation: operation.to_owned(),
        status: status.to_owned(),
        elapsed_ms,
        slow,
        fields: BTreeMap::new(),
        metrics: BTreeMap::new(),
        error: error.map(str::to_owned),
    }
}

#[test]
fn runtime_telemetry_summary_orders_by_total_elapsed() {
    let mut telemetry = RuntimeTelemetryLog::new("/tmp/telemetry-summary.jsonl".to_owned());
    telemetry.record_duration(
        "t".to_owned(),
        "workspace.ensure_runtime".to_owned(),
        15,
        "ok".to_owned(),
        BTreeMap::new(),
        BTreeMap::new(),
        None,
    );
    telemetry.record_duration(
        "t".to_owned(),
        "management.workspace_views".to_owned(),
        80,
        "ok".to_owned(),
        BTreeMap::new(),
        BTreeMap::new(),
        None,
    );
    let snapshot = telemetry.snapshot(20);
    assert_eq!(snapshot.events.len(), 2);
    assert_eq!(
        snapshot.summary.first().map(|item| item.operation.as_str()),
        Some("management.workspace_views")
    );
    assert!(snapshot.summary.first().is_some_and(|item| item.total_elapsed_ms >= 80));
}

#[test]
fn runtime_telemetry_snapshot_limit_returns_latest_events() {
    let mut telemetry = RuntimeTelemetryLog::new("/tmp/telemetry-limit.jsonl".to_owned());
    for index in 0..3 {
        let mut fields = BTreeMap::new();
        fields.insert("index".to_owned(), index.to_string());
        telemetry.record_duration(
            "t".to_owned(),
            "desktop.collect_snapshot".to_owned(),
            0,
            "ok".to_owned(),
            fields,
            BTreeMap::new(),
            None,
        );
    }
    let snapshot = telemetry.snapshot(2);
    assert_eq!(snapshot.events.len(), 2);
    assert_eq!(snapshot.events[0].fields.get("index").map(String::as_str), Some("1"));
    assert_eq!(snapshot.events[1].fields.get("index").map(String::as_str), Some("2"));
}

#[test]
fn summary_figures_per_operation() {
    let events = vec![
        event("a", "ok", 10, false, None),
        event("b", "error", 70, true, None),
        event("a", "ok", 30, false, Some("boom")),
        event("a", "ok", 20, true, None),
    ];
    let summary = summarize_events(&events);
    assert_eq!(summary.len(), 2);
    let a = &summary[0];
    assert_eq!(a.operation, "b");
    assert_eq!((a.count, a.slow_count, a.error_count), (1, 1, 1));
    let b = &summary[1];
    assert_eq!(b.operation, "a");
    assert_eq!((b.count, b.slow_count, b.error_count), (3, 1, 1));
    assert_eq!((b.total_elapsed_ms, b.average_elapsed_ms, b.max_elapsed_ms, b.last_elapsed_ms), (60, 20, 30, 20));
}

#[test]
fn summary_ties_fall_back_to_max_then_name() {
    let events = vec![
        event("z", "ok", 10, false, None),
        event("y", "ok", 5, false, None),
        event("y", "ok", 5, false, None),
        event("x", "ok", 10, false, None),
    ];
    let names: Vec<String> = summarize_events(&events).into_iter().map(|i| i.operation).collect();
    assert_eq!(names, vec!["x".to_owned(), "z".to_owned(), "y".to_owned()]);
}

#[test]
fn total_elapsed_saturates() {
    let events = vec![event("a", "ok", u64::MAX - 1, false, None), event("a", "ok", 5, false, None)];
    let summary = summarize_events(&events);
    assert_eq!(summary[0].total_elapsed_ms, u64::MAX);
    assert_eq!(summary[0].average_elapsed_ms, u64::MAX / 2);
}

#[test]
fn error_texts_are_cut_to_the_limit() {
    assert_eq!(truncate_error("short"), "short");
    let long = "é".repeat(300);
    let cut = truncate_error(&long);
    assert_eq!(cut.chars().count(), 243);
    assert!(cut.ends_with("..."));
    assert_eq!(truncate_error(&"x".repeat(240)), "x".repeat(240));
}

#[test]
fn slow_events_and_errors_are_recorded() {
    let mut telemetry = RuntimeTelemetryLog::new("/tmp/t.jsonl".to_owned());
    let fast = telemetry.record_duration("t".to_owned(), "op".to_owned(), 49, "ok".to_owned(), BTreeMap::new(), BTreeMap::new(), None);
    assert!(!fast.slow);
    let slow = telemetry.record_duration("t".to_owned(), "op".to_owned(), 50, "ok".to_owned(), BTreeMap::new(), BTreeMap::new(), Some("e".repeat(241)));
    assert!(slow.slow);
    assert_eq!(slow.error.map(|e| e.chars().count()), Some(243));
    assert_eq!(telemetry.path(), "/tmp/t.jsonl");
    let snapshot = telemetry.snapshot(0);
    assert_eq!(snapshot.returned_event_count, 1);
    assert_eq!(snapshot.retained_event_count, 2);
    assert_eq!(snapshot.events[0].elapsed_ms, 50);
}

#[test]
fn retention_drops_the_oldest_event() {
    let mut telemetry = RuntimeTelemetryLog::new("/tmp/t2.jsonl".to_owned());
    for i in 0..501u64 {
        telemetry.record_event(event("op", "ok", i, false, None));
    }
    let snapshot = telemetry.snapshot(1000);
    assert_eq!(snapshot.retained_event_count, 500);
    assert_eq!(snapshot.events.len(), 500);
    assert_eq!(snapshot.events[0].elapsed_ms, 1);
    assert_eq!(snapshot.events[499].elapsed_ms, 500);
}

#[test]
fn retention_keeps_the_latest_five_hundred_recordings() {
    let mut telemetry = RuntimeTelemetryLog::new("/tmp/telemetry-retention.jsonl".to_owned());
    for index in 0..503u64 {
        telemetry.record_duration(
            index.to_string(),
            "op".to_owned(),
            index,
            "ok".to_owned(),
            BTreeMap::new(),
            BTreeMap::new(),
            None,
        );
    }
    let snapshot = telemetry.snapshot(10_000);
    assert_eq!(snapshot.retained_event_count, 500);
    assert_eq!(snapshot.returned_event_count, 500);
    assert_eq!(snapshot.events.first().map(|e| e.elapsed_ms), Some(3));
    assert_eq!(snapshot.events.last().map(|e| e.elapsed_ms), Some(502));
    assert_eq!(snapshot.slow_event_threshold_ms, 50);
    let latest = telemetry.snapshot(0);
    assert_eq!(latest.returned_event_count, 1);
    assert_eq!(latest.events[0].elapsed_ms, 502);
}
