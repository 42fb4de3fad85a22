use cell_sdk::conn_pool::ConnectionPool;
use cell_sdk::error::CellError;
use cell_sdk::pool::{
    circuit_gate, connections_to_open, finish_request, score, select_connection, should_recycle,
    ConnStats, GlobalMetrics, PoolConfig, PoolConnState,
};

#[test]
fn pool_config_defaults() {
    let c = PoolConfig::default();
    assert_eq!(c.max_connections, 10);
    assert_eq!(c.min_connections, 2);
    assert_eq!(c.circuit_breaker_threshold, 5);
    assert_eq!(c.retry_max_delay_ms, 5000);
    assert!(c.enable_jitter);
}

#[test]
fn selection_prefers_the_cheapest_live_connection() {
    assert_eq!(score(PoolConnState::Dead, 5), None);
    assert_eq!(score(PoolConnState::Healthy, 5), Some(5));
    assert_eq!(score(PoolConnState::Degraded, 5), Some(10_000));
    let conns = vec![
        (PoolConnState::Degraded, 1),
        (PoolConnState::Healthy, 20_000),
        (PoolConnState::Healthy, 300),
        (PoolConnState::Healthy, 300),
        (PoolConnState::Dead, 0),
    ];
    assert_eq!(select_connection(&conns), Some(2));
    assert_eq!(select_connection(&vec![(PoolConnState::Dead, 0)]), None);
    assert_eq!(select_connection(&vec![]), None);
}

#[test]
fn circuit_gate_and_recycling() {
    assert_eq!(
        circuit_gate(PoolConnState::CircuitOpen, 10, 30_000),
        Err(CellError::CircuitBreakerOpen)
    );
    assert_eq!(
        circuit_gate(PoolConnState::CircuitOpen, 30_001, 30_000),
        Ok(PoolConnState::Unhealthy)
    );
    assert_eq!(circuit_gate(PoolConnState::Healthy, 0, 0), Ok(PoolConnState::Healthy));
    assert!(should_recycle(PoolConnState::Dead, 6000, 5000));
    assert!(!should_recycle(PoolConnState::Healthy, 6000, 5000));
    assert!(!should_recycle(PoolConnState::Dead, 5000, 5000));
}

#[test]
fn finishing_requests_updates_state_and_counters() {
    let mut stats = ConnStats::new();
    let mut global = GlobalMetrics::new();
    let s = finish_request(false, 0, &mut stats, PoolConnState::Healthy, 2, &mut global);
    assert_eq!(s, PoolConnState::Degraded);
    let s = finish_request(false, 0, &mut stats, s, 2, &mut global);
    assert_eq!(s, PoolConnState::CircuitOpen);
    let s = finish_request(true, 250, &mut stats, s, 2, &mut global);
    assert_eq!(s, PoolConnState::Healthy);
    assert_eq!(stats.requests_total, 3);
    assert_eq!(stats.requests_failed, 2);
    assert_eq!(stats.latency_us, 250);
    assert_eq!(global.total_requests, 3);
    assert_eq!(global.failed_requests, 2);
    assert!(stats.failure_rate_above_half());
}

#[test]
fn upkeep_opens_enough_connections() {
    let states = vec![
        Some(PoolConnState::Healthy),
        Some(PoolConnState::Dead),
        None,
        Some(PoolConnState::CircuitOpen),
    ];
    assert_eq!(connections_to_open(&states, 3), 2);
    assert_eq!(connections_to_open(&states, 1), 0);
}

#[test]
fn idle_pool_gives_back_the_last_released() {
    let mut p: ConnectionPool<u32> = ConnectionPool::new(2, 100);
    assert_eq!(p.max_total_connections(), 100);
    assert_eq!(p.take_idle("a"), None);
    p.release("a".to_string(), 1);
    p.release("a".to_string(), 2);
    p.release("a".to_string(), 3); // over the limit: dropped
    p.release("b".to_string(), 9);
    assert_eq!(p.take_idle("a"), Some(2));
    assert_eq!(p.take_idle("a"), Some(1));
    assert_eq!(p.take_idle("a"), None);
    assert_eq!(p.take_idle("b"), Some(9));
}

#[test]
fn idle_pool_with_zero_limit_keeps_nothing() {
    let mut p: ConnectionPool<u32> = ConnectionPool::new(0, 1);
    p.release("a".to_string(), 1);
    assert_eq!(p.take_idle("a"), None);
}
