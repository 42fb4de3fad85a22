//! Connection pool policy: per-connection statistics, which connection a
//! request goes to, the circuit breaker of a connection, and the upkeep that
//! keeps a minimum number of healthy connections.

use vstd::prelude::*;
use crate::error::CellError;

verus! {

/// Pool configuration. Durations are in milliseconds.
#[derive(Debug, Clone, Copy, PartialEq, Eq, Structural)]
pub struct PoolConfig {
    /// Maximum connections per cell
    pub max_connections: usize,
    /// Minimum connections to maintain
    pub min_connections: usize,
    /// Connection timeout
    pub connect_timeout_ms: u64,
    /// Request timeout
    pub request_timeout_ms: u64,
    /// Health check interval
    pub health_check_interval_ms: u64,
    /// Circuit breaker threshold (failures before opening)
    pub circuit_breaker_threshold: u32,
    /// Circuit breaker reset timeout
    pub circuit_breaker_reset_ms: u64,
    /// Maximum retry attempts
    pub max_retries: u32,
    /// Base delay for exponential backoff
    pub retry_base_delay_ms: u64,
    /// Maximum retry delay
    pub retry_max_delay_ms: u64,
    /// Whether to add jitter to retry delays
    pub enable_jitter: bool,
}

impl PoolConfig {
    pub open spec fn spec_default() -> PoolConfig {
        PoolConfig {
            max_connections: 10,
            min_connections: 2,
            connect_timeout_ms: 10000,
            request_timeout_ms: 30000,
            health_check_interval_ms: 5000,
            circuit_breaker_threshold: 5,
            circuit_breaker_reset_ms: 30000,
            max_retries: 10,
            retry_base_delay_ms: 100,
            retry_max_delay_ms: 5000,
            enable_jitter: true,
        }
    }
}

impl Default for PoolConfig {
    fn default() -> (c: Self)
        ensures
            c == PoolConfig::spec_default(),
    {
        PoolConfig {
            max_connections: 10,
            min_connections: 2,
            connect_timeout_ms: 10000,
            request_timeout_ms: 30000,
            health_check_interval_ms: 5000,
            circuit_breaker_threshold: 5,
            circuit_breaker_reset_ms: 30000,
            max_retries: 10,
            retry_base_delay_ms: 100,
            retry_max_delay_ms: 5000,
            enable_jitter: true,
        }
    }
}

/// Lifecycle state of a pooled connection.
#[derive(Debug, Clone, Copy, PartialEq, Eq, Structural)]
pub enum PoolConnState {
    Healthy,
    /// Slow but working
    Degraded,
    /// Failed, retrying
    Unhealthy,
    /// Circuit breaker tripped
    CircuitOpen,
    /// Permanently failed
    Dead,
}

/// Request statistics of one pooled connection.
#[derive(Debug, Clone, Copy, PartialEq, Eq, Structural)]
pub struct ConnStats {
    pub requests_total: u64,
    pub requests_failed: u64,
    /// Latency of the last successful request, in microseconds
    pub latency_us: u64,
    pub consecutive_failures: u32,
}

impl ConnStats {
    pub fn new() -> (s: Self)
        ensures
            s == (ConnStats { requests_total: 0, requests_failed: 0, latency_us: 0, consecutive_failures: 0 }),
    {
        ConnStats { requests_total: 0, requests_failed: 0, latency_us: 0, consecutive_failures: 0 }
    }

    pub fn record_success(&mut self, latency_us: u64)
        requires
            old(self).requests_total < u64::MAX,
        ensures
            *final(self) == (ConnStats {
                requests_total: (old(self).requests_total + 1) as u64,
                latency_us,
                consecutive_failures: 0,
                ..*old(self)
            }),
    {
        self.requests_total = self.requests_total + 1;
        self.latency_us = latency_us;
        self.consecutive_failures = 0;
    }

    pub fn record_failure(&mut self)
        requires
            old(self).requests_total < u64::MAX,
            old(self).requests_failed < u64::MAX,
            old(self).consecutive_failures < u32::MAX,
        ensures
            *final(self) == (ConnStats {
                requests_total: (old(self).requests_total + 1) as u64,
                requests_failed: (old(self).requests_failed + 1) as u64,
                consecutive_failures: (old(self).consecutive_failures + 1) as u32,
                ..*old(self)
            }),
    {
        self.requests_total = self.requests_total + 1;
        self.requests_failed = self.requests_failed + 1;
        self.consecutive_failures = self.consecutive_failures + 1;
    }

    /// Whether more than half of all requests failed (never, before the
    /// first request).
    pub fn failure_rate_above_half(&self) -> (b: bool)
        ensures
            b == (self.requests_total > 0 && 2 * self.requests_failed > self.requests_total),
    {
        self.requests_total > 0 && self.requests_failed > self.requests_total / 2
    }
}

/// The cost of sending over a connection, in microseconds of expected
/// latency; dead connections are never chosen.
pub open spec fn spec_score(state: PoolConnState, latency_us: u64) -> Option<u64> {
    match state {
        PoolConnState::Dead => None,
        PoolConnState::CircuitOpen => Some(1_000_000),
        PoolConnState::Unhealthy => Some(100_000),
        PoolConnState::Degraded => Some(10_000),
        PoolConnState::Healthy => Some(latency_us),
    }
}

pub fn score(state: PoolConnState, latency_us: u64) -> (r: Option<u64>)
    ensures
        r == spec_score(state, latency_us),
{
    match state {
        PoolConnState::Dead => None,
        PoolConnState::CircuitOpen => Some(1_000_000),
        PoolConnState::Unhealthy => Some(100_000),
        PoolConnState::Degraded => Some(10_000),
        PoolConnState::Healthy => Some(latency_us),
    }
}

/// `i` is the first connection of least cost.
pub open spec fn is_best(conns: Seq<(PoolConnState, u64)>, i: int) -> bool {
    &&& 0 <= i < conns.len()
    &&& spec_score(conns[i].0, conns[i].1) is Some
    &&& forall|j: int|
        0 <= j < conns.len() && (#[trigger] spec_score(conns[j].0, conns[j].1)) is Some ==> {
            let sj = spec_score(conns[j].0, conns[j].1)->0;
            let si = spec_score(conns[i].0, conns[i].1)->0;
            &&& si <= sj
            &&& j < i ==> si < sj
        }
}

/// The connection chosen is never dead, and the healthier state wins: a
/// healthy connection faster than 10 ms beats any degraded, unhealthy or
/// open one; a healthy one faster than 100 ms, or a degraded one, beats any
/// unhealthy or open one; a healthy one faster than 1 s, or a degraded or
/// unhealthy one, beats any open one; and among healthy connections the
/// lower latency wins.
pub proof fn lemma_best_prefers_healthier(conns: Seq<(PoolConnState, u64)>, i: int, j: int)
    requires
        is_best(conns, i),
        0 <= j < conns.len(),
    ensures
        conns[i].0 != PoolConnState::Dead,
        conns[j].0 == PoolConnState::Healthy && conns[j].1 < 10_000 ==> conns[i].0
            == PoolConnState::Healthy,
        conns[j].0 == PoolConnState::Healthy && conns[j].1 < 100_000 ==> (conns[i].0
            == PoolConnState::Healthy || conns[i].0 == PoolConnState::Degraded),
        conns[j].0 == PoolConnState::Degraded ==> (conns[i].0 == PoolConnState::Healthy
            || conns[i].0 == PoolConnState::Degraded),
        conns[j].0 == PoolConnState::Healthy && conns[j].1 < 1_000_000 ==> conns[i].0
            != PoolConnState::CircuitOpen,
        conns[j].0 == PoolConnState::Unhealthy ==> conns[i].0 != PoolConnState::CircuitOpen,
        conns[j].0 == PoolConnState::Healthy && conns[i].0 == PoolConnState::Healthy
            ==> conns[i].1 <= conns[j].1,
{
    let _ = spec_score(conns[j].0, conns[j].1);
}

/// Chooses the connection a request goes to: the first of least cost, or
/// none when every connection is dead.
pub fn select_connection(conns: &Vec<(PoolConnState, u64)>) -> (r: Option<usize>)
    ensures
        r matches Some(i) ==> is_best(conns@, i as int),
        r is None <==> forall|j: int|
            0 <= j < conns@.len() ==> #[trigger] spec_score(conns@[j].0, conns@[j].1) is None,
{
    let mut best: Option<usize> = None;
    let mut best_score: u64 = 0;
    let mut i: usize = 0;
    while i < conns.len()
        invariant
            i <= conns@.len(),
            best is None ==> forall|j: int|
                0 <= j < i ==> #[trigger] spec_score(conns@[j].0, conns@[j].1) is None,
            best matches Some(b) ==> {
                &&& b < i
                &&& spec_score(conns@[b as int].0, conns@[b as int].1) == Some(best_score)
                &&& forall|j: int|
                    0 <= j < i && (#[trigger] spec_score(conns@[j].0, conns@[j].1)) is Some ==> {
                        let sj = spec_score(conns@[j].0, conns@[j].1)->0;
                        &&& best_score <= sj
                        &&& j < b ==> best_score < sj
                    }
            },
        decreases conns@.len() - i,
    {
        let (st, lat) = conns[i];
        match score(st, lat) {
            Some(s) => {
                match best {
                    None => {
                        best = Some(i);
                        best_score = s;
                    },
                    Some(_) => {
                        if s < best_score {
                            best = Some(i);
                            best_score = s;
                        }
                    },
                }
            },
            None => {},
        }
        i = i + 1;
    }
    best
}

/// The state a request sees on a connection whose circuit may be open:
/// an open circuit idle for longer than the reset timeout is tried again
/// (as unhealthy); otherwise the request is refused.
pub open spec fn spec_circuit_gate(state: PoolConnState, idle_ms: u64, reset_ms: u64) -> Result<
    PoolConnState,
    CellError,
> {
    if state == PoolConnState::CircuitOpen {
        if idle_ms > reset_ms {
            Ok(PoolConnState::Unhealthy)
        } else {
            Err(CellError::CircuitBreakerOpen)
        }
    } else {
        Ok(state)
    }
}

pub fn circuit_gate(state: PoolConnState, idle_ms: u64, reset_ms: u64) -> (r: Result<
    PoolConnState,
    CellError,
>)
    ensures
        r == spec_circuit_gate(state, idle_ms, reset_ms),
{
    if state == PoolConnState::CircuitOpen {
        if idle_ms > reset_ms {
            Ok(PoolConnState::Unhealthy)
        } else {
            Err(CellError::CircuitBreakerOpen)
        }
    } else {
        Ok(state)
    }
}

/// Pool-wide counters.
#[derive(Debug, Clone, Copy, PartialEq, Eq, Structural)]
pub struct GlobalMetrics {
    pub total_connections: u64,
    pub total_requests: u64,
    pub failed_requests: u64,
    pub circuit_breaker_trips: u64,
}

impl GlobalMetrics {
    pub fn new() -> (m: Self)
        ensures
            m == (GlobalMetrics { total_connections: 0, total_requests: 0, failed_requests: 0, circuit_breaker_trips: 0 }),
    {
        GlobalMetrics { total_connections: 0, total_requests: 0, failed_requests: 0, circuit_breaker_trips: 0 }
    }
}

/// The state of a connection after a request ends, given its updated
/// statistics: success makes it healthy; a failure opens the circuit at the
/// threshold, or marks the connection degraded when most requests fail.
pub open spec fn spec_state_after(
    ok: bool,
    stats: ConnStats,
    state: PoolConnState,
    threshold: u32,
) -> PoolConnState {
    if ok {
        PoolConnState::Healthy
    } else if stats.consecutive_failures >= threshold {
        PoolConnState::CircuitOpen
    } else if stats.requests_total > 0 && 2 * stats.requests_failed > stats.requests_total {
        PoolConnState::Degraded
    } else {
        state
    }
}

/// Book-keeping after a request through the pool: the connection's
/// statistics and state, and the pool-wide counters.
pub fn finish_request(
    ok: bool,
    latency_us: u64,
    stats: &mut ConnStats,
    state: PoolConnState,
    threshold: u32,
    global: &mut GlobalMetrics,
) -> (r: PoolConnState)
    requires
        old(stats).requests_total < u64::MAX,
        old(stats).requests_failed < u64::MAX,
        old(stats).consecutive_failures < u32::MAX,
        old(global).total_requests < u64::MAX,
        old(global).failed_requests < u64::MAX,
        old(global).circuit_breaker_trips < u64::MAX,
    ensures
        ok ==> final(stats).requests_total == old(stats).requests_total + 1
            && final(stats).latency_us == latency_us && final(stats).consecutive_failures == 0
            && final(stats).requests_failed == old(stats).requests_failed,
        !ok ==> final(stats).requests_total == old(stats).requests_total + 1
            && final(stats).requests_failed == old(stats).requests_failed + 1
            && final(stats).consecutive_failures == old(stats).consecutive_failures + 1
            && final(stats).latency_us == old(stats).latency_us,
        r == spec_state_after(ok, *final(stats), state, threshold),
        final(global).total_requests == old(global).total_requests + 1,
        final(global).failed_requests == old(global).failed_requests + if ok { 0int } else { 1 },
        final(global).circuit_breaker_trips == old(global).circuit_breaker_trips + if !ok
            && final(stats).consecutive_failures >= threshold {
            1int
        } else {
            0
        },
        final(global).total_connections == old(global).total_connections,
{
    let next;
    if ok {
        stats.record_success(latency_us);
        next = PoolConnState::Healthy;
    } else {
        stats.record_failure();
        if stats.consecutive_failures >= threshold {
            next = PoolConnState::CircuitOpen;
            global.circuit_breaker_trips = global.circuit_breaker_trips + 1;
        } else if stats.failure_rate_above_half() {
            next = PoolConnState::Degraded;
        } else {
            next = state;
        }
    }
    global.total_requests = global.total_requests + 1;
    if !ok {
        global.failed_requests = global.failed_requests + 1;
    }
    next
}

/// Whether a connection counts toward the pool's minimum: it is free (not
/// busy, `None` when busy) and neither dead nor open-circuited.
pub open spec fn counts_healthy(s: Option<PoolConnState>) -> bool {
    match s {
        Some(st) => st != PoolConnState::Dead && st != PoolConnState::CircuitOpen,
        None => false,
    }
}

pub open spec fn healthy_count(states: Seq<Option<PoolConnState>>) -> nat
    decreases states.len(),
{
    if states.len() == 0 {
        0
    } else {
        healthy_count(states.drop_last()) + if counts_healthy(states.last()) {
            1nat
        } else {
            0
        }
    }
}

/// How many connections the upkeep opens: enough to reach the minimum.
pub open spec fn spec_connections_to_open(states: Seq<Option<PoolConnState>>, min: usize) -> nat {
    if healthy_count(states) < min {
        (min - healthy_count(states)) as nat
    } else {
        0
    }
}

pub fn connections_to_open(states: &Vec<Option<PoolConnState>>, min: usize) -> (n: usize)
    ensures
        n == spec_connections_to_open(states@, min),
{
    let mut count: usize = 0;
    let mut i: usize = 0;
    while i < states.len()
        invariant
            i <= states@.len(),
            count == healthy_count(states@.take(i as int)),
            count <= i,
        decreases states@.len() - i,
    {
        proof {
            assert(states@.take(i + 1).drop_last() =~= states@.take(i as int));
        }
        let healthy = match states[i] {
            Some(st) => st != PoolConnState::Dead && st != PoolConnState::CircuitOpen,
            None => false,
        };
        if healthy {
            count = count + 1;
        }
        i = i + 1;
    }
    proof {
        assert(states@.take(states@.len() as int) =~= states@);
    }
    if count < min {
        min - count
    } else {
        0
    }
}

/// Whether the upkeep replaces a connection: its health check is due and
/// it is dead.
pub open spec fn spec_should_recycle(state: PoolConnState, since_check_ms: u64, interval_ms: u64) -> bool {
    since_check_ms > interval_ms && state == PoolConnState::Dead
}

pub fn should_recycle(state: PoolConnState, since_check_ms: u64, interval_ms: u64) -> (b: bool)
    ensures
        b == spec_should_recycle(state, since_check_ms, interval_ms),
{
    since_check_ms > interval_ms && state == PoolConnState::Dead
}

} // verus!
