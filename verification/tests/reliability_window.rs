use raven::reliability::{
    classify_tool_error, count_samples, trim, CallRecord, ReliabilityOutcome, ReliabilityTracker,
    ToolErrorKind,
};

#[test]
fn empty_state_is_explicit() {
    let tracker = ReliabilityTracker::new(100);
    assert_eq!(tracker.sample_count(), 0);
    assert_eq!(tracker.tool_count(), 0);
    let info = tracker.get("missing");
    assert_eq!(info.total_calls, 0);
    assert_eq!(info.calls_until_mature, 100);
    assert_eq!(info.latest_timestamp, None);
}

#[test]
fn classifications_remain_distinct() {
    let mut tracker = ReliabilityTracker::new(100);
    for outcome in [
        ReliabilityOutcome::Success,
        ReliabilityOutcome::PolicyDenial,
        ReliabilityOutcome::ValidationFailure,
        ReliabilityOutcome::TransportFailure,
        ReliabilityOutcome::ToolFailure,
    ] {
        tracker.record_outcome("tool", outcome, 10);
    }
    let info = tracker.get("tool");
    assert_eq!(info.total_calls, 5);
    assert_eq!(info.success_count, 1);
    assert_eq!(info.failure_count, 4);
    assert_eq!(info.policy_denial_count, 1);
    assert_eq!(info.validation_failure_count, 1);
    assert_eq!(info.transport_failure_count, 1);
    assert_eq!(info.tool_failure_count, 1);
    assert_eq!(info.total_duration_ms, 50);
    assert_eq!(info.calls_until_mature, 95);
}

#[test]
fn persistent_store_survives_restart_and_is_bounded() {
    // what a restart reloads goes through the same window as live samples
    let stored = vec![
        ("tool".to_string(), CallRecord::at(ReliabilityOutcome::PolicyDenial, 1, 1)),
        ("tool".to_string(), CallRecord::at(ReliabilityOutcome::ValidationFailure, 2, 2)),
        ("tool".to_string(), CallRecord::at(ReliabilityOutcome::TransportFailure, 3, 3)),
        ("tool".to_string(), CallRecord::at(ReliabilityOutcome::Success, 4, 4)),
    ];
    let mut tracker = ReliabilityTracker::new(3);
    tracker.load(&stored);
    let info = tracker.get("tool");
    assert_eq!(info.total_calls, 3);
    assert_eq!(info.policy_denial_count, 0);
    assert_eq!(info.validation_failure_count, 1);
    assert_eq!(info.transport_failure_count, 1);
    assert_eq!(info.success_count, 1);
    assert_eq!(info.total_duration_ms, 9);
    assert_eq!(info.latest_timestamp, Some(4));
}

#[test]
fn recent_successes_replace_old_failures() {
    let mut tracker = ReliabilityTracker::new(2);
    tracker.record_outcome("tool", ReliabilityOutcome::ToolFailure, 5);
    tracker.record_outcome("tool", ReliabilityOutcome::ToolFailure, 5);
    tracker.record_success("tool", 5);
    tracker.record_success("tool", 5);
    let samples = tracker.samples_for("tool");
    assert_eq!(samples.len(), 2);
    assert!(samples.iter().all(|r| r.outcome == ReliabilityOutcome::Success));
}

#[test]
fn error_classification_does_not_use_messages() {
    assert_eq!(classify_tool_error(ToolErrorKind::PermissionDenied), ReliabilityOutcome::PolicyDenial);
    assert_eq!(classify_tool_error(ToolErrorKind::Validation), ReliabilityOutcome::ValidationFailure);
    assert_eq!(classify_tool_error(ToolErrorKind::ToolJson), ReliabilityOutcome::ValidationFailure);
    assert_eq!(classify_tool_error(ToolErrorKind::Timeout), ReliabilityOutcome::TransportFailure);
    assert_eq!(classify_tool_error(ToolErrorKind::Provider), ReliabilityOutcome::TransportFailure);
    assert_eq!(classify_tool_error(ToolErrorKind::Other), ReliabilityOutcome::ToolFailure);
}

#[test]
fn outcome_names_roundtrip() {
    for o in [
        ReliabilityOutcome::Success,
        ReliabilityOutcome::PolicyDenial,
        ReliabilityOutcome::ValidationFailure,
        ReliabilityOutcome::TransportFailure,
        ReliabilityOutcome::ToolFailure,
    ] {
        assert_eq!(ReliabilityOutcome::parse(o.as_str()), Some(o));
    }
    assert_eq!(ReliabilityOutcome::Success.as_str(), "success");
    assert_eq!(ReliabilityOutcome::TransportFailure.as_str(), "transport_failure");
    assert_eq!(ReliabilityOutcome::parse("exploded"), None);
    assert!(ReliabilityOutcome::Success.is_success());
    assert!(!ReliabilityOutcome::ToolFailure.is_success());
}

#[test]
fn trim_keeps_the_latest() {
    let mut v: Vec<CallRecord> =
        (0..5).map(|k| CallRecord::at(ReliabilityOutcome::Success, k, k as i64)).collect();
    trim(&mut v, 2);
    assert_eq!(v.iter().map(|r| r.duration_ms).collect::<Vec<_>>(), vec![3, 4]);
    trim(&mut v, 0);
    assert!(v.is_empty());
}

#[test]
fn reset_and_counts() {
    let mut tracker = ReliabilityTracker::new(10);
    tracker.record_failure("a", 7, "secret text");
    tracker.record("b", CallRecord::success(3));
    tracker.record("b", CallRecord::at(ReliabilityOutcome::Success, 4, 9));
    assert_eq!(tracker.tool_count(), 2);
    assert_eq!(tracker.sample_count(), 3);
    tracker.reset("a");
    assert_eq!(tracker.tool_count(), 1);
    assert_eq!(tracker.get("a").total_calls, 0);
    assert_eq!(tracker.get("b").latest_timestamp, Some(9));
    tracker.reset_all();
    assert_eq!(tracker.sample_count(), 0);
    let c = count_samples(&[CallRecord::at(ReliabilityOutcome::ToolFailure, 2, 1)], 1);
    assert_eq!(c.failure_count, 1);
    assert_eq!(c.calls_until_mature, 0);
}

#[test]
fn failure_text_changes_no_count() {
    let mut t1 = ReliabilityTracker::new(5);
    let mut t2 = ReliabilityTracker::new(5);
    t1.record_success("tool", 3);
    t2.record_success("tool", 3);
    t1.record_failure("tool", 7, "secret token in output");
    t2.record_failure("tool", 7, "");
    let (a, b) = (t1.get("tool"), t2.get("tool"));
    assert_eq!(a.total_calls, b.total_calls);
    assert_eq!(a.tool_failure_count, 1);
    assert_eq!(a.tool_failure_count, b.tool_failure_count);
    assert_eq!(a.failure_count, b.failure_count);
    assert_eq!(a.total_duration_ms, b.total_duration_ms);
    assert_eq!(a.calls_until_mature, b.calls_until_mature);
}

#[test]
fn sample_count_grows_until_the_window_is_full() {
    let mut t = ReliabilityTracker::new(2);
    t.record_success("a", 1);
    assert_eq!(t.sample_count(), 1);
    t.record_success("a", 1);
    assert_eq!(t.sample_count(), 2);
    t.record_success("a", 1);
    assert_eq!(t.sample_count(), 2);
    t.record_success("b", 1);
    assert_eq!(t.sample_count(), 3);
}
