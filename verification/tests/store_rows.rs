use raven::reliability::{CallRecord, ReliabilityOutcome, ReliabilityTracker};
use raven::scheduler::PersistedJob;
use raven::store::{
    decode_row, decode_rows, decode_samples, encode_job, encode_sample, id_text, write_time,
    JobRow, SampleRow,
};

// 2023-11-14T22:13:20Z
const T0: i64 = 1_700_000_000;
const ID: u128 = 0x550e8400_e29b_41d4_a716_446655440000;

fn job(id: u128, name: &str) -> PersistedJob {
    PersistedJob {
        id,
        name: name.to_string(),
        cron_expr: "*/5 * * * *".to_string(),
        task_goal: Some(format!("Run {name}")),
        max_iterations: 50,
        enabled: true,
        last_run: Some(T0 + 60),
        next_run: None,
        run_count: 3,
        created_at: T0,
    }
}

fn row(id: &str, created_at: &str, last_run: Option<&str>) -> JobRow {
    JobRow {
        id: id.to_string(),
        name: "n".to_string(),
        cron_expr: "* * * * *".to_string(),
        task_goal: None,
        max_iterations: 7,
        enabled: 0,
        last_run: last_run.map(|s| s.to_string()),
        next_run: None,
        run_count: 9,
        created_at: created_at.to_string(),
    }
}

#[test]
fn saved_job_row_holds_text_columns() {
    let r = encode_job(&job(ID, "backup"));
    assert_eq!(r.id, "550e8400-e29b-41d4-a716-446655440000");
    assert_eq!(r.created_at, "2023-11-14T22:13:20+00:00");
    assert_eq!(r.last_run.as_deref(), Some("2023-11-14T22:14:20+00:00"));
    assert_eq!(r.next_run, None);
    assert_eq!(r.enabled, 1);
    assert_eq!(r.max_iterations, 50);
    assert_eq!(r.run_count, 3);
    assert_eq!(r.task_goal.as_deref(), Some("Run backup"));
}

#[test]
fn saved_job_reads_back() {
    let original = job(ID, "backup");
    let back = decode_row(&encode_job(&original)).unwrap();
    assert_eq!(back.id, original.id);
    assert_eq!(back.name, original.name);
    assert_eq!(back.cron_expr, original.cron_expr);
    assert_eq!(back.task_goal, original.task_goal);
    assert_eq!(back.max_iterations, original.max_iterations);
    assert_eq!(back.enabled, original.enabled);
    assert_eq!(back.last_run, original.last_run);
    assert_eq!(back.next_run, original.next_run);
    assert_eq!(back.run_count, original.run_count);
    assert_eq!(back.created_at, original.created_at);
}

#[test]
fn largest_run_count_reads_back() {
    let mut original = job(ID, "big");
    original.run_count = u64::MAX;
    let r = encode_job(&original);
    assert_eq!(r.run_count, -1);
    assert_eq!(decode_row(&r).unwrap().run_count, u64::MAX);
}

#[test]
fn row_with_bad_created_at_is_refused() {
    let e = decode_row(&row("550e8400-e29b-41d4-a716-446655440000", "yesterday", None)).unwrap_err();
    assert!(e.starts_with("Invalid created_at: "), "{e}");
}

#[test]
fn row_with_bad_id_is_refused() {
    let e = decode_row(&row("nope", "2023-11-14T22:13:20+00:00", None)).unwrap_err();
    assert!(e.starts_with("Invalid job id 'nope': "), "{e}");
}

#[test]
fn unreadable_last_run_reads_as_none() {
    let j = decode_row(&row("550e8400-e29b-41d4-a716-446655440000", "2023-11-14T22:13:20Z", Some("soon")))
        .unwrap();
    assert_eq!(j.last_run, None);
    assert_eq!(j.created_at, T0);
    assert!(!j.enabled);
    assert_eq!(j.max_iterations, 7);
    assert_eq!(j.run_count, 9);
}

#[test]
fn offsets_are_read_as_the_same_instant() {
    let j = decode_row(&row("550e8400e29b41d4a716446655440000", "2023-11-15T00:13:20+02:00", None))
        .unwrap();
    assert_eq!(j.created_at, T0);
    assert_eq!(j.id, ID);
}

#[test]
fn loading_rows_keeps_order_and_stops_at_first_error() {
    let rows = vec![encode_job(&job(1, "a")), encode_job(&job(2, "b"))];
    let jobs = decode_rows(&rows).unwrap();
    assert_eq!(jobs.len(), 2);
    assert_eq!(jobs[0].name, "a");
    assert_eq!(jobs[1].id, 2);

    let rows = vec![
        encode_job(&job(1, "a")),
        row("bad-id", "2023-11-14T22:13:20Z", None),
        row("x", "bad time", None),
    ];
    let e = decode_rows(&rows).unwrap_err();
    assert!(e.starts_with("Invalid job id 'bad-id'"), "{e}");
}

#[test]
fn id_and_time_texts() {
    assert_eq!(id_text(0), "00000000-0000-0000-0000-000000000000");
    assert_eq!(write_time(&Some(0)).as_deref(), Some("1970-01-01T00:00:00+00:00"));
    assert_eq!(write_time(&None), None);
}

#[test]
fn stored_sample_reads_back() {
    let rec = CallRecord::at(ReliabilityOutcome::TransportFailure, 42, T0 * 1000 + 123);
    let r = encode_sample("web_fetch", &rec);
    assert_eq!(r.outcome, "transport_failure");
    assert_eq!(r.timestamp, "2023-11-14T22:13:20.123+00:00");
    let back = decode_samples(&vec![r]).unwrap();
    assert_eq!(back.len(), 1);
    assert_eq!(back[0].0, "web_fetch");
    assert_eq!(back[0].1, rec);
}

#[test]
fn sample_before_the_epoch_reads_back() {
    let rec = CallRecord::at(ReliabilityOutcome::Success, 1, -1);
    let r = encode_sample("t", &rec);
    assert_eq!(r.timestamp, "1969-12-31T23:59:59.999+00:00");
    assert_eq!(decode_samples(&vec![r]).unwrap()[0].1, rec);
}

#[test]
fn unknown_outcomes_are_skipped_and_bad_times_refused() {
    let good = encode_sample("t", &CallRecord::at(ReliabilityOutcome::Success, 1, 5_000));
    let odd = SampleRow {
        tool_name: "t".to_string(),
        outcome: "maybe".to_string(),
        duration_ms: 1,
        timestamp: "not a time".to_string(),
    };
    let loaded = decode_samples(&vec![odd.clone(), good.clone()]).unwrap();
    assert_eq!(loaded.len(), 1);
    assert_eq!(loaded[0].1.timestamp, 5_000);

    let mut bad = good.clone();
    bad.timestamp = "not a time".to_string();
    let e = decode_samples(&vec![good, bad]).unwrap_err();
    assert!(e.starts_with("invalid reliability timestamp: "), "{e}");
}

#[test]
fn reloaded_samples_fill_the_window() {
    let rows: Vec<SampleRow> = (1..=4)
        .map(|i| encode_sample("tool", &CallRecord::at(ReliabilityOutcome::Success, i, i as i64 * 1000)))
        .collect();
    let samples = decode_samples(&rows).unwrap();
    let mut tracker = ReliabilityTracker::new(3);
    tracker.load(&samples);
    let kept = tracker.samples_for("tool");
    assert_eq!(kept.len(), 3);
    assert_eq!(kept[0].duration_ms, 2);
    assert_eq!(kept[2].timestamp, 4000);
}

#[test]
fn times_past_year_9999_do_not_read_back() {
    let mut far = job(ID, "far");
    far.created_at = raven::cron::MAX_TIMESTAMP;
    let r = encode_job(&far);
    assert!(r.created_at.starts_with('+'));
    let e = decode_row(&r).unwrap_err();
    assert!(e.starts_with("Invalid created_at: "), "{e}");

    let mut edge = job(ID, "edge");
    edge.created_at = raven::store::RFC3339_MAX;
    let r = encode_job(&edge);
    assert_eq!(r.created_at, "9999-12-31T23:59:59+00:00");
    assert_eq!(decode_row(&r).unwrap().created_at, raven::store::RFC3339_MAX);
}
