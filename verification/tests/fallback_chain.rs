use raven::fallback::{
    CallKind, ChainStep, CircuitBreakerState, FallbackProvider, HealthStatus, COOLDOWN_SECS,
};

const T0: i64 = 1_700_000_000;

fn chain(threshold: u32) -> FallbackProvider {
    FallbackProvider::new("chain", "primary", &vec!["fallback".to_string()], threshold, 0)
}

#[test]
fn breaker_opens_at_threshold_and_cools_down() {
    let mut b = CircuitBreakerState::new(2, 60);
    b.record_failure_at(T0);
    assert_eq!(b.failure_count, 1);
    assert!(!b.circuit_open);
    assert!(!b.is_skippable_at(T0));
    b.record_failure_at(T0 + 1);
    assert_eq!(b.failure_count, 2);
    assert!(b.circuit_open);
    assert!(b.is_skippable_at(T0 + 30));
    assert!(!b.should_retry_at(T0 + 30));
    assert!(!b.is_skippable_at(T0 + 61));
    assert!(b.should_retry_at(T0 + 61));
    b.record_success();
    assert_eq!(b.failure_count, 0);
    assert!(!b.circuit_open);
    assert!(!b.is_skippable_at(T0 + 2));
}

#[test]
fn zero_threshold_never_opens() {
    let mut b = CircuitBreakerState::new(0, 60);
    for k in 0..5 {
        b.record_failure_at(T0 + k);
    }
    assert_eq!(b.failure_count, 5);
    assert!(!b.circuit_open);
    assert!(!b.is_skippable());
    assert!(!b.should_retry());
}

#[test]
fn clock_failure_records_a_failure() {
    let mut b = CircuitBreakerState::new(1, 60);
    b.record_failure();
    assert!(b.circuit_open);
    assert!(b.last_failure_time > T0);
    assert!(b.is_skippable());
}

#[test]
fn primary_succeeds_first() {
    let mut c = chain(3);
    let mut a = c.begin();
    assert_eq!(c.next_step(&mut a, T0), ChainStep::Try(0));
    assert_eq!(c.record_success(0), "primary");
    let info = c.provider_info();
    assert_eq!(info.len(), 2);
    assert_eq!(info[0].name, "primary");
    assert_eq!(info[0].provider_type, "primary");
    assert_eq!(info[0].health, HealthStatus::Healthy);
    assert_eq!(info[1].name, "fallback");
    assert_eq!(info[1].provider_type, "fallback");
    assert_eq!(info[1].health, HealthStatus::Unknown);
}

#[test]
fn fallback_on_failure() {
    let mut c = chain(3);
    let mut a = c.begin();
    assert_eq!(c.next_step(&mut a, T0), ChainStep::Try(0));
    c.record_failure(&mut a, 0, "boom".to_string(), T0, CallKind::Chat);
    assert_eq!(c.next_step(&mut a, T0), ChainStep::Try(1));
    assert_eq!(c.record_success(1), "fallback");
}

#[test]
fn all_fail_reports_every_provider() {
    let mut c = chain(3);
    let mut a = c.begin();
    assert_eq!(c.next_step(&mut a, T0), ChainStep::Try(0));
    c.record_failure(&mut a, 0, "first error".to_string(), T0, CallKind::Chat);
    assert_eq!(c.next_step(&mut a, T0), ChainStep::Try(1));
    c.record_failure(&mut a, 1, "second error".to_string(), T0, CallKind::Chat);
    let step = c.next_step(&mut a, T0);
    assert_eq!(
        step,
        ChainStep::Exhausted(
            "All providers in fallback chain failed. Tried: [primary, fallback]. Last error: second error"
                .to_string()
        )
    );
}

#[test]
fn open_circuit_is_skipped_then_retried() {
    let mut c = chain(2);
    for round in 0..2 {
        let mut a = c.begin();
        assert_eq!(c.next_step(&mut a, T0 + round), ChainStep::Try(0));
        c.record_failure(&mut a, 0, "down".to_string(), T0 + round, CallKind::Chat);
        assert_eq!(c.next_step(&mut a, T0 + round), ChainStep::Try(1));
        c.record_success(1);
    }
    let states = c.circuit_breaker_states();
    assert!(states.contains(&("primary".to_string(), 2, true)));
    assert_eq!(
        c.provider_info()[0].health,
        HealthStatus::Unhealthy { reason: "Circuit breaker opened after 2 failures".to_string() }
    );

    // within the cooldown the primary is skipped
    let mut a = c.begin();
    assert_eq!(c.next_step(&mut a, T0 + 10), ChainStep::Try(1));
    assert_eq!(a.tried, vec!["primary (circuit open)".to_string()]);
    c.record_failure(&mut a, 1, "also down".to_string(), T0 + 10, CallKind::Stream);
    assert_eq!(
        c.next_step(&mut a, T0 + 10),
        ChainStep::Exhausted(
            "All providers in fallback chain failed. Tried: [primary (circuit open), fallback]. Last error: also down"
                .to_string()
        )
    );
    // a failed stream leaves the health as it was
    assert_eq!(c.provider_info()[1].health, HealthStatus::Healthy);

    // after the cooldown it is tried again
    let mut a = c.begin();
    let later = T0 + 1 + COOLDOWN_SECS as i64;
    assert_eq!(c.next_step(&mut a, later), ChainStep::Try(0));
}

#[test]
fn health_checks_start_once() {
    let mut c = FallbackProvider::new("chain", "p", &vec![], 3, 30);
    assert!(c.ensure_health_checks());
    assert!(!c.ensure_health_checks());
    c.apply_health_check(0, false);
    assert_eq!(
        c.provider_info()[0].health,
        HealthStatus::Unhealthy { reason: "Health check failed".to_string() }
    );
    c.apply_health_check(0, true);
    assert_eq!(c.provider_info()[0].health, HealthStatus::Healthy);
    let mut d = chain(3);
    assert!(!d.ensure_health_checks());
}

#[test]
fn duplicate_names_share_one_breaker() {
    let mut c = FallbackProvider::new("chain", "same", &vec!["same".to_string()], 1, 0);
    assert_eq!(c.len(), 2);
    let mut a = c.begin();
    assert_eq!(c.next_step(&mut a, T0), ChainStep::Try(0));
    c.record_failure(&mut a, 0, "x".to_string(), T0, CallKind::Chat);
    // the second entry shares the now open breaker
    assert_eq!(
        c.next_step(&mut a, T0),
        ChainStep::Exhausted(
            "All providers in fallback chain failed. Tried: [same, same (circuit open)]. Last error: x"
                .to_string()
        )
    );
    assert_eq!(c.circuit_breaker_states().len(), 1);
}

#[test]
fn the_chain_keeps_its_own_name() {
    let c = chain(3);
    assert_eq!(c.name(), "chain");
    assert_eq!(c.provider_name(0), "primary");
}
