//! Resilience policies of a connection: capped exponential backoff, retry
//! budgets, the order of connection strategies, health bookkeeping and the
//! recovery procedure run when a request fails.
//!
//! Each procedure is a state machine: the caller performs the returned step
//! (sleep, send, reconnect) and reports what happened as the next event.

use vstd::prelude::*;
use vstd::string::StringSliceAdditionalSpecFns;

verus! {

/// Connection state for health tracking.
#[derive(Debug, Clone, Copy, PartialEq, Eq, Structural)]
pub enum ConnState {
    Healthy,
    /// Slow but working
    Degraded,
    /// Failed, will retry
    Unhealthy,
    /// Currently reconnecting
    Reconnecting,
    /// Too many failures, cooling down
    CircuitOpen,
}

/// Configuration for resilience behavior. Durations are in milliseconds.
#[derive(Debug, Clone, Copy, PartialEq, Eq, Structural)]
pub struct ResilienceConfig {
    /// Max reconnection attempts before giving up
    pub max_reconnect_attempts: u32,
    /// Base delay for exponential backoff
    pub reconnect_base_delay_ms: u64,
    /// Max delay between reconnection attempts
    pub reconnect_max_delay_ms: u64,
    /// Circuit breaker threshold (consecutive failures)
    pub circuit_breaker_threshold: u32,
    /// Circuit breaker reset timeout
    pub circuit_breaker_reset_ms: u64,
    /// Health check interval
    pub health_check_interval_ms: u64,
    /// Request timeout
    pub request_timeout_ms: u64,
    /// Enable transport upgrade (socket to shared memory)
    pub enable_transport_upgrade: bool,
    /// Enable transport downgrade (shared memory to socket on failure)
    pub enable_transport_downgrade: bool,
}

impl ResilienceConfig {
    pub open spec fn spec_default() -> ResilienceConfig {
        ResilienceConfig {
            max_reconnect_attempts: 10,
            reconnect_base_delay_ms: 100,
            reconnect_max_delay_ms: 5000,
            circuit_breaker_threshold: 5,
            circuit_breaker_reset_ms: 30000,
            health_check_interval_ms: 5000,
            request_timeout_ms: 30000,
            enable_transport_upgrade: true,
            enable_transport_downgrade: true,
        }
    }
}

impl Default for ResilienceConfig {
    fn default() -> (c: Self)
        ensures
            c == ResilienceConfig::spec_default(),
    {
        ResilienceConfig {
            max_reconnect_attempts: 10,
            reconnect_base_delay_ms: 100,
            reconnect_max_delay_ms: 5000,
            circuit_breaker_threshold: 5,
            circuit_breaker_reset_ms: 30000,
            health_check_interval_ms: 5000,
            request_timeout_ms: 30000,
            enable_transport_upgrade: true,
            enable_transport_downgrade: true,
        }
    }
}

/// `min(2 * delay + jitter, max)`: the next delay of a capped exponential
/// backoff.
pub open spec fn next_delay(delay: u64, jitter: u64, max: u64) -> u64 {
    if 2 * delay + jitter >= max { max } else { (2 * delay + jitter) as u64 }
}

/// Computes `min(2 * delay + jitter, max)` without overflow.
pub fn backoff_next(delay: u64, jitter: u64, max: u64) -> (r: u64)
    ensures
        r == next_delay(delay, jitter, max),
{
    if delay >= max || max - delay <= delay || max - delay - delay <= jitter {
        max
    } else {
        delay * 2 + jitter
    }
}

/// The `k`-th delay of a backoff without jitter starting at `base`.
pub open spec fn delay_at(base: u64, max: u64, k: nat) -> u64
    decreases k,
{
    if k == 0 {
        base
    } else {
        next_delay(delay_at(base, max, (k - 1) as nat), 0, max)
    }
}

/// Backoff delays never exceed the cap once the first step is taken, and
/// never exceed the larger of the start and the cap.
pub proof fn lemma_backoff_bounded(base: u64, max: u64, k: nat)
    ensures
        k > 0 ==> delay_at(base, max, k) <= max,
        delay_at(base, max, k) <= if base > max { base } else { max },
    decreases k,
{
    if k > 0 {
        lemma_backoff_bounded(base, max, (k - 1) as nat);
    }
}

/// A budget of attempts with backoff between them.
pub struct RetryBudget {
    /// Attempts allowed in all
    pub max_attempts: u32,
    /// Attempts made so far
    pub attempts: u32,
    /// The delay before the next attempt
    pub delay_ms: u64,
    /// The cap on delays
    pub max_delay_ms: u64,
}

/// What to do after a failed attempt.
#[derive(Debug, Clone, Copy, PartialEq, Eq, Structural)]
pub enum RetryDecision {
    /// Wait this many milliseconds, then try again
    RetryAfter(u64),
    /// No attempts are left
    GiveUp,
}

impl RetryBudget {
    pub fn new(max_attempts: u32, base_delay_ms: u64, max_delay_ms: u64) -> (b: Self)
        ensures
            b.max_attempts == max_attempts,
            b.attempts == 0,
            b.delay_ms == base_delay_ms,
            b.max_delay_ms == max_delay_ms,
    {
        RetryBudget { max_attempts, attempts: 0, delay_ms: base_delay_ms, max_delay_ms }
    }

    /// Whether another attempt may be made.
    pub fn can_attempt(&self) -> (b: bool)
        ensures
            b == (self.attempts < self.max_attempts),
    {
        self.attempts < self.max_attempts
    }

    /// Record that an attempt failed. While attempts remain, the caller waits
    /// the current delay and the delay grows (by `jitter` extra); after the
    /// last attempt the budget gives up.
    pub fn on_failure(&mut self, jitter_ms: u64) -> (d: RetryDecision)
        requires
            old(self).attempts < old(self).max_attempts,
        ensures
            final(self).attempts == old(self).attempts + 1,
            final(self).max_attempts == old(self).max_attempts,
            final(self).max_delay_ms == old(self).max_delay_ms,
            final(self).attempts < final(self).max_attempts ==> {
                &&& d == RetryDecision::RetryAfter(old(self).delay_ms)
                &&& final(self).delay_ms == next_delay(
                    old(self).delay_ms,
                    jitter_ms,
                    old(self).max_delay_ms,
                )
            },
            final(self).attempts == final(self).max_attempts ==> {
                &&& d == RetryDecision::GiveUp
                &&& final(self).delay_ms == old(self).delay_ms
            },
    {
        self.attempts = self.attempts + 1;
        if self.attempts < self.max_attempts {
            let d = self.delay_ms;
            self.delay_ms = backoff_next(self.delay_ms, jitter_ms, self.max_delay_ms);
            RetryDecision::RetryAfter(d)
        } else {
            RetryDecision::GiveUp
        }
    }
}

/// The budget a connection uses to reconnect.
pub fn reconnect_budget(config: &ResilienceConfig) -> (b: RetryBudget)
    ensures
        b.max_attempts == config.max_reconnect_attempts,
        b.attempts == 0,
        b.delay_ms == config.reconnect_base_delay_ms,
        b.max_delay_ms == config.reconnect_max_delay_ms,
{
    RetryBudget::new(
        config.max_reconnect_attempts,
        config.reconnect_base_delay_ms,
        config.reconnect_max_delay_ms,
    )
}

/// The budget of a direct connection attempt: ten tries, starting at 100 ms
/// and doubling up to 2 s.
pub fn connect_budget() -> (b: RetryBudget)
    ensures
        b.max_attempts == 10,
        b.attempts == 0,
        b.delay_ms == 100,
        b.max_delay_ms == 2000,
{
    RetryBudget::new(10, 100, 2000)
}

/// Request and failure counters of one connection.
#[derive(Debug, Clone, Copy, PartialEq, Eq, Structural)]
pub struct ConnHealth {
    pub requests_total: u64,
    pub requests_failed: u64,
    pub reconnections: u64,
    pub consecutive_failures: u32,
    /// State reported to observers
    pub current_state: ConnState,
    /// Health of the transport in use
    pub transport_state: ConnState,
}

impl ConnHealth {
    pub fn new() -> (h: Self)
        ensures
            h.requests_total == 0,
            h.requests_failed == 0,
            h.reconnections == 0,
            h.consecutive_failures == 0,
            h.current_state == ConnState::Healthy,
            h.transport_state == ConnState::Healthy,
    {
        ConnHealth {
            requests_total: 0,
            requests_failed: 0,
            reconnections: 0,
            consecutive_failures: 0,
            current_state: ConnState::Healthy,
            transport_state: ConnState::Healthy,
        }
    }

    /// Record a successful request.
    pub fn record_success(&mut self)
        requires
            old(self).requests_total < u64::MAX,
        ensures
            *final(self) == (ConnHealth {
                requests_total: (old(self).requests_total + 1) as u64,
                current_state: ConnState::Healthy,
                consecutive_failures: 0,
                ..*old(self)
            }),
    {
        self.requests_total = self.requests_total + 1;
        self.current_state = ConnState::Healthy;
        self.consecutive_failures = 0;
    }

    /// Record a failed request; `threshold` consecutive failures open the
    /// circuit on both the connection and its transport.
    pub fn record_failure(&mut self, threshold: u32)
        requires
            old(self).requests_total < u64::MAX,
            old(self).requests_failed < u64::MAX,
            old(self).consecutive_failures < u32::MAX,
        ensures
            final(self).requests_total == old(self).requests_total + 1,
            final(self).requests_failed == old(self).requests_failed + 1,
            final(self).consecutive_failures == old(self).consecutive_failures + 1,
            final(self).reconnections == old(self).reconnections,
            final(self).consecutive_failures >= threshold ==> {
                &&& final(self).current_state == ConnState::CircuitOpen
                &&& final(self).transport_state == ConnState::CircuitOpen
            },
            final(self).consecutive_failures < threshold ==> {
                &&& final(self).current_state == old(self).current_state
                &&& final(self).transport_state == old(self).transport_state
            },
    {
        self.requests_total = self.requests_total + 1;
        self.requests_failed = self.requests_failed + 1;
        self.consecutive_failures = self.consecutive_failures + 1;
        if self.consecutive_failures >= threshold {
            self.current_state = ConnState::CircuitOpen;
            self.transport_state = ConnState::CircuitOpen;
        }
    }

    /// Record a successful reconnection onto a fresh transport.
    pub fn record_reconnected(&mut self)
        requires
            old(self).reconnections < u64::MAX,
        ensures
            *final(self) == (ConnHealth {
                reconnections: (old(self).reconnections + 1) as u64,
                current_state: ConnState::Healthy,
                transport_state: ConnState::Healthy,
                consecutive_failures: 0,
                ..*old(self)
            }),
    {
        self.reconnections = self.reconnections + 1;
        self.current_state = ConnState::Healthy;
        self.transport_state = ConnState::Healthy;
        self.consecutive_failures = 0;
    }

    /// Record that reconnection gave up.
    pub fn record_reconnect_exhausted(&mut self)
        ensures
            *final(self) == (ConnHealth { current_state: ConnState::CircuitOpen, ..*old(self) }),
    {
        self.current_state = ConnState::CircuitOpen;
    }

    /// Whether a request may be sent over the current transport.
    pub fn allows_send(&self) -> (b: bool)
        ensures
            b == (self.transport_state != ConnState::CircuitOpen),
    {
        self.transport_state != ConnState::CircuitOpen
    }

    /// Record the outcome of one send on the transport.
    pub fn record_send(&mut self, ok: bool)
        ensures
            *final(self) == if ok {
                *old(self)
            } else {
                ConnHealth { transport_state: ConnState::Unhealthy, ..*old(self) }
            },
    {
        if !ok {
            self.transport_state = ConnState::Unhealthy;
        }
    }
}

/// Whether the health checker should try to reconnect: the circuit is open
/// and the last failure lies further back than the reset timeout.
pub open spec fn spec_needs_reconnect(
    since_last_failure_ms: Option<u64>,
    reset_ms: u64,
    state: ConnState,
) -> bool {
    match since_last_failure_ms {
        Some(e) => e > reset_ms && state == ConnState::CircuitOpen,
        None => false,
    }
}

pub fn needs_reconnect(since_last_failure_ms: Option<u64>, reset_ms: u64, state: ConnState) -> (b:
    bool)
    ensures
        b == spec_needs_reconnect(since_last_failure_ms, reset_ms, state),
{
    match since_last_failure_ms {
        Some(e) => e > reset_ms && state == ConnState::CircuitOpen,
        None => false,
    }
}

/// Whether `needle` occurs in `hay`.
pub open spec fn contains_bytes(hay: Seq<u8>, needle: Seq<u8>) -> bool {
    exists|i: int|
        0 <= i && i + needle.len() <= hay.len() && #[trigger] hay.subrange(i, i + needle.len())
            == needle
}

pub fn find_bytes(hay: &[u8], needle: &[u8]) -> (b: bool)
    ensures
        b == contains_bytes(hay@, needle@),
{
    if needle.len() > hay.len() {
        return false;
    }
    if needle.len() == 0 {
        proof {
            assert(hay@.subrange(0int, 0int + needle@.len()) =~= needle@);
        }
        return true;
    }
    let n = needle.len();
    let last = hay.len() - n;
    let mut i: usize = 0;
    while i <= last
        invariant
            last + n == hay@.len(),
            last + n == hay.len(),
            n == needle@.len(),
            n >= 1,
            i <= last + 1,
            forall|k: int| 0 <= k < i ==> #[trigger] hay@.subrange(k, k + n) != needle@,
        decreases last + 1 - i,
    {
        let mut j: usize = 0;
        let mut ok = true;
        while j < n
            invariant
                last + n == hay@.len(),
                last + n == hay.len(),
                n == needle@.len(),
                i <= last,
                j <= n,
                ok == (forall|k: int| 0 <= k < j ==> hay@[i + k] == needle@[k]),
            decreases n - j,
        {
            if hay[i + j] != needle[j] {
                ok = false;
            }
            j = j + 1;
        }
        if ok {
            proof {
                assert(hay@.subrange(i as int, i + n) =~= needle@);
            }
            return true;
        }
        proof {
            let k = choose|k: int| 0 <= k < n && hay@[i + k] != needle@[k];
            assert(hay@.subrange(i as int, i + n)[k] != needle@[k]);
        }
        i = i + 1;
    }
    proof {
        assert forall|k: int|
            0 <= k && k + needle@.len() <= hay@.len() implies #[trigger] hay@.subrange(
            k,
            k + needle@.len(),
        ) != needle@ by {
            assert(k < i);
        }
    }
    false
}

/// "Broken pipe"
pub open spec fn broken_pipe_text() -> Seq<u8> {
    seq![0x42u8, 0x72, 0x6f, 0x6b, 0x65, 0x6e, 0x20, 0x70, 0x69, 0x70, 0x65]
}

/// "Connection reset"
pub open spec fn connection_reset_text() -> Seq<u8> {
    seq![0x43u8, 0x6f, 0x6e, 0x6e, 0x65, 0x63, 0x74, 0x69, 0x6f, 0x6e, 0x20, 0x72, 0x65, 0x73,
        0x65, 0x74]
}

/// "Timeout"
pub open spec fn timeout_text() -> Seq<u8> {
    seq![0x54u8, 0x69, 0x6d, 0x65, 0x6f, 0x75, 0x74]
}

/// A failure is worth recovering from when its message mentions a broken
/// pipe, a reset connection or a timeout.
pub open spec fn spec_is_transient_failure(message: Seq<u8>) -> bool {
    contains_bytes(message, broken_pipe_text()) || contains_bytes(message, connection_reset_text())
        || contains_bytes(message, timeout_text())
}

pub fn is_transient_failure(message: &str) -> (b: bool)
    ensures
        b == spec_is_transient_failure(message.spec_bytes()),
{
    let m = message.as_bytes();
    let bp: Vec<u8> = vec![0x42u8, 0x72, 0x6f, 0x6b, 0x65, 0x6e, 0x20, 0x70, 0x69, 0x70, 0x65];
    let cr: Vec<u8> = vec![0x43u8, 0x6f, 0x6e, 0x6e, 0x65, 0x63, 0x74, 0x69, 0x6f, 0x6e, 0x20,
        0x72, 0x65, 0x73, 0x65, 0x74];
    let to: Vec<u8> = vec![0x54u8, 0x69, 0x6d, 0x65, 0x6f, 0x75, 0x74];
    proof {
        assert(bp@ =~= broken_pipe_text());
        assert(cr@ =~= connection_reset_text());
        assert(to@ =~= timeout_text());
    }
    find_bytes(m, bp.as_slice()) || find_bytes(m, cr.as_slice()) || find_bytes(m, to.as_slice())
}

} // verus!
