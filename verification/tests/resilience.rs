use cell_sdk::circuit_breaker::{BreakerState, CircuitBreaker, CircuitBreakerError};
use cell_sdk::metrics::{bucket_of, Metrics};
use cell_sdk::recovery::{
    direct_route, first_send_outcome, ConnectPlan, ConnectStep, DirectRoute, FirstSendOutcome,
    Recovery, RecoveryEvent, RecoveryFailure, RecoveryStep,
};
use cell_sdk::resilience::{
    backoff_next, connect_budget, is_transient_failure, needs_reconnect, reconnect_budget,
    ConnHealth, ConnState, ResilienceConfig, RetryBudget, RetryDecision,
};

#[test]
fn breaker_opens_after_threshold_and_recovers() {
    let mut b = CircuitBreaker::new(2, 10);
    let r: Result<u32, _> = b.call(0, || Err(anyhow::Error::msg("x")));
    assert!(matches!(r, Err(CircuitBreakerError::Execution(_))));
    assert!(!b.is_open());
    let r: Result<u32, _> = b.call(1, || Err(anyhow::Error::msg("y")));
    assert!(matches!(r, Err(CircuitBreakerError::Execution(_))));
    assert!(b.is_open());
    // still within the timeout: refused without running the call
    let mut ran = false;
    let r: Result<u32, _> = b.call(5, || {
        ran = true;
        Ok(1)
    });
    assert!(matches!(r, Err(CircuitBreakerError::Open)));
    assert!(!ran);
    assert_eq!(CircuitBreaker::error_text(&CircuitBreakerError::Open), "Circuit breaker is open");
    // timeout passed: half-open trial, two successes close it
    let r: Result<u32, _> = b.call(11, || Ok(7));
    assert_eq!(r.ok(), Some(7));
    assert!(!b.is_open());
    let r: Result<u32, _> = b.call(12, || Ok(8));
    assert_eq!(r.ok(), Some(8));
    let _ = BreakerState::Closed;
}

#[test]
fn breaker_success_resets_consecutive_failures() {
    let mut b = CircuitBreaker::new(2, 3600);
    let r: Result<(), _> = b.call(0, || Err(anyhow::Error::msg("a")));
    assert!(matches!(r, Err(CircuitBreakerError::Execution(_))));
    let r: Result<(), _> = b.call(1, || Ok(()));
    assert!(r.is_ok());
    let r: Result<(), _> = b.call(2, || Err(anyhow::Error::msg("b")));
    assert!(matches!(r, Err(CircuitBreakerError::Execution(_))));
    assert!(!b.is_open());
}

#[test]
fn breaker_execution_error_text() {
    let e = CircuitBreakerError::Execution(anyhow::Error::msg("disk full"));
    assert_eq!(CircuitBreaker::error_text(&e), "Execution failed: disk full");
}

#[test]
fn metrics_histogram_and_percentiles() {
    assert_eq!(bucket_of(500), 0);
    assert_eq!(bucket_of(1_000), 0);
    assert_eq!(bucket_of(1_001), 1);
    assert_eq!(bucket_of(60_000), 4);
    assert_eq!(bucket_of(20_000_000), 9);
    let mut m = Metrics::new();
    m.record_request(500, true);
    m.record_request(700, true);
    m.record_request(3_000, false);
    m.record_request(2_000_000, true);
    let s = m.snapshot();
    assert_eq!(s.requests_total, 4);
    assert_eq!(s.requests_success, 3);
    assert_eq!(s.requests_failed, 1);
    assert_eq!(s.requests_total, s.requests_success + s.requests_failed);
    assert_eq!(s.latency_histogram.iter().sum::<u64>(), s.requests_total);
    assert_eq!(s.latency_histogram, vec![2, 1, 0, 0, 0, 0, 0, 1, 0, 0]);
    assert_eq!(s.p50_latency(), "<1ms");
    assert_eq!(s.p99_latency(), "<5ms");
    let empty = Metrics::new().snapshot();
    assert_eq!(empty.p50_latency(), "N/A");
}

#[test]
fn backoff_doubles_up_to_the_cap() {
    assert_eq!(backoff_next(100, 0, 5000), 200);
    assert_eq!(backoff_next(100, 7, 5000), 207);
    assert_eq!(backoff_next(3000, 0, 5000), 5000);
    assert_eq!(backoff_next(u64::MAX, 1, 5000), 5000);
}

#[test]
fn retry_budget_gives_up_after_the_last_attempt() {
    let mut b = RetryBudget::new(3, 100, 250);
    assert!(b.can_attempt());
    assert_eq!(b.on_failure(0), RetryDecision::RetryAfter(100));
    assert_eq!(b.on_failure(0), RetryDecision::RetryAfter(200));
    assert_eq!(b.on_failure(0), RetryDecision::GiveUp);
    assert!(!b.can_attempt());
    let c = connect_budget();
    assert_eq!((c.max_attempts, c.delay_ms, c.max_delay_ms), (10, 100, 2000));
    let r = reconnect_budget(&ResilienceConfig::default());
    assert_eq!((r.max_attempts, r.delay_ms, r.max_delay_ms), (10, 100, 5000));
}

#[test]
fn connection_health_counters() {
    let mut h = ConnHealth::new();
    h.record_success();
    assert_eq!(h.requests_total, 1);
    h.record_failure(2);
    assert_eq!(h.current_state, ConnState::Healthy);
    h.record_failure(2);
    assert_eq!(h.current_state, ConnState::CircuitOpen);
    assert!(!h.allows_send());
    h.record_reconnected();
    assert_eq!(h.reconnections, 1);
    assert_eq!(h.consecutive_failures, 0);
    assert!(h.allows_send());
    h.record_send(false);
    assert_eq!(h.transport_state, ConnState::Unhealthy);
    h.record_reconnect_exhausted();
    assert_eq!(h.current_state, ConnState::CircuitOpen);
    assert!(needs_reconnect(Some(31_000), 30_000, ConnState::CircuitOpen));
    assert!(!needs_reconnect(Some(30_000), 30_000, ConnState::CircuitOpen));
    assert!(!needs_reconnect(None, 30_000, ConnState::CircuitOpen));
    assert!(!needs_reconnect(Some(31_000), 30_000, ConnState::Healthy));
}

#[test]
fn transient_failures_are_recognised() {
    assert!(is_transient_failure("write: Broken pipe (os error 32)"));
    assert!(is_transient_failure("Connection reset by peer"));
    assert!(is_transient_failure("Timeout waiting"));
    assert!(!is_transient_failure("permission denied"));
    assert!(!is_transient_failure("timeout"));
}

#[test]
fn connect_plan_walks_the_strategies() {
    let (mut p, s) = ConnectPlan::start(true);
    assert_eq!(s, ConnectStep::TryNeighbor);
    assert_eq!(p.step(false), ConnectStep::TryIoCell);
    assert_eq!(p.step(true), ConnectStep::TryUpgrade);
    assert_eq!(p.step(false), ConnectStep::UseSocket);
    let (mut q, _) = ConnectPlan::start(false);
    assert_eq!(q.step(false), ConnectStep::TryIoCell);
    assert_eq!(q.step(false), ConnectStep::TryGlobal);
    assert_eq!(q.step(false), ConnectStep::Fail);
    assert_eq!(direct_route(true, Some(false), true), DirectRoute::NeighborNotReady);
    assert_eq!(direct_route(true, None, false), DirectRoute::Neighbor);
    assert_eq!(direct_route(false, None, true), DirectRoute::Global);
    assert_eq!(direct_route(false, None, false), DirectRoute::NoPath);
}

#[test]
fn recovery_retries_then_downgrades_then_reconnects() {
    let cfg = ResilienceConfig::default();
    let (mut r, s) = Recovery::start(&cfg, true);
    assert_eq!(s, RecoveryStep::Sleep(100));
    assert_eq!(r.step(RecoveryEvent::Slept), RecoveryStep::Send);
    assert_eq!(r.step(RecoveryEvent::SendFailed), RecoveryStep::Sleep(200));
    assert_eq!(r.step(RecoveryEvent::Slept), RecoveryStep::Send);
    assert_eq!(r.step(RecoveryEvent::SendFailed), RecoveryStep::Sleep(400));
    assert_eq!(r.step(RecoveryEvent::Slept), RecoveryStep::Send);
    assert_eq!(
        r.step(RecoveryEvent::SendFailed),
        RecoveryStep::Reconnect { allow_upgrade: false }
    );
    assert_eq!(r.step(RecoveryEvent::ReconnectOk), RecoveryStep::Send);
    assert_eq!(
        r.step(RecoveryEvent::SendFailed),
        RecoveryStep::Reconnect { allow_upgrade: false }
    );
    assert_eq!(r.step(RecoveryEvent::ReconnectOk), RecoveryStep::Send);
    assert_eq!(
        r.step(RecoveryEvent::SendFailed),
        RecoveryStep::Fail(RecoveryFailure::RequestFailed)
    );
}

#[test]
fn recovery_succeeds_on_a_retry_and_rejects_unexpected_events() {
    let cfg = ResilienceConfig::default();
    let (mut r, _) = Recovery::start(&cfg, false);
    assert_eq!(r.step(RecoveryEvent::Slept), RecoveryStep::Send);
    assert_eq!(r.step(RecoveryEvent::SendOk), RecoveryStep::Succeed);
    let (mut u, _) = Recovery::start(&cfg, false);
    assert_eq!(
        u.step(RecoveryEvent::ReconnectOk),
        RecoveryStep::Fail(RecoveryFailure::Unexpected)
    );
    assert_eq!(first_send_outcome(true, false), FirstSendOutcome::Succeed);
    assert_eq!(first_send_outcome(false, true), FirstSendOutcome::Recover);
    assert_eq!(first_send_outcome(false, false), FirstSendOutcome::Fail);
}
