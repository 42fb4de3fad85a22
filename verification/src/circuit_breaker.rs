//! A circuit breaker: after enough consecutive failures it opens and refuses
//! calls; once the timeout has passed it lets calls through on trial, and
//! closes again after enough trial successes.

use vstd::prelude::*;

verus! {

/// The state of a breaker.
#[derive(Debug, Clone, Copy, PartialEq, Eq, Structural)]
pub enum BreakerState {
    Closed,
    Open,
    HalfOpen,
}

/// Why a call through the breaker failed.
pub enum CircuitBreakerError {
    /// The breaker is open and the call was not made.
    Open,
    /// The call was made and failed.
    Execution(anyhow::Error),
}

pub struct CircuitBreaker {
    failure_threshold: u64,
    success_threshold: u64,
    timeout_secs: u64,
    state: BreakerState,
    failure_count: u64,
    success_count: u64,
    last_failure_time: u64,
}

/// The number of successes in the half-open state that close the breaker.
pub open spec fn trial_successes() -> u64 {
    2
}

impl CircuitBreaker {
    pub closed spec fn spec_state(&self) -> BreakerState {
        self.state
    }

    pub closed spec fn spec_failure_threshold(&self) -> u64 {
        self.failure_threshold
    }

    pub closed spec fn spec_success_threshold(&self) -> u64 {
        self.success_threshold
    }

    pub closed spec fn spec_timeout(&self) -> u64 {
        self.timeout_secs
    }

    pub closed spec fn spec_failures(&self) -> u64 {
        self.failure_count
    }

    pub closed spec fn spec_successes(&self) -> u64 {
        self.success_count
    }

    pub closed spec fn spec_last_failure(&self) -> u64 {
        self.last_failure_time
    }

    /// True when the breaker, open at `now`, has waited out its timeout.
    pub open spec fn timeout_elapsed(&self, now: u64) -> bool {
        now - self.spec_last_failure() >= self.spec_timeout()
    }

    /// The state after a success.
    pub open spec fn after_success(
        state: BreakerState,
        successes: u64,
        threshold: u64,
    ) -> BreakerState {
        if state == BreakerState::HalfOpen && successes + 1 >= threshold {
            BreakerState::Closed
        } else {
            state
        }
    }

    /// A success never opens the breaker; a success while closed keeps it
    /// closed; and a success in the half-open state that brings the trial
    /// successes to the threshold closes it, while one that does not leaves
    /// it half-open.
    pub proof fn lemma_success_closes(state: BreakerState, successes: u64, threshold: u64)
        ensures
            Self::after_success(state, successes, threshold) != BreakerState::Open
                || state == BreakerState::Open,
            state == BreakerState::Closed ==> Self::after_success(state, successes, threshold)
                == BreakerState::Closed,
            state == BreakerState::HalfOpen && successes + 1 >= threshold ==> Self::after_success(
                state,
                successes,
                threshold,
            ) == BreakerState::Closed,
            state == BreakerState::HalfOpen && successes + 1 < threshold ==> Self::after_success(
                state,
                successes,
                threshold,
            ) == BreakerState::HalfOpen,
    {
    }

    /// A closed breaker that opens after `failure_threshold` consecutive
    /// failures and tries again `timeout_secs` seconds after the last one.
    pub fn new(failure_threshold: u64, timeout_secs: u64) -> (b: Self)
        ensures
            b.spec_state() == BreakerState::Closed,
            b.spec_failure_threshold() == failure_threshold,
            b.spec_success_threshold() == trial_successes(),
            b.spec_timeout() == timeout_secs,
            b.spec_failures() == 0,
            b.spec_successes() == 0,
            b.spec_last_failure() == 0,
    {
        CircuitBreaker {
            failure_threshold,
            success_threshold: 2,
            timeout_secs,
            state: BreakerState::Closed,
            failure_count: 0,
            success_count: 0,
            last_failure_time: 0,
        }
    }

    /// Record a successful call.
    fn on_success(&mut self)
        requires
            old(self).spec_state() == BreakerState::HalfOpen ==> old(self).spec_successes()
                < u64::MAX,
        ensures
            final(self).spec_state() == Self::after_success(
                old(self).spec_state(),
                old(self).spec_successes(),
                old(self).spec_success_threshold(),
            ),
            old(self).spec_state() == BreakerState::HalfOpen ==> final(self).spec_successes()
                == old(self).spec_successes() + 1,
            old(self).spec_state() != BreakerState::HalfOpen ==> final(self).spec_successes()
                == old(self).spec_successes(),
            (old(self).spec_state() != BreakerState::HalfOpen || final(self).spec_state()
                == BreakerState::Closed) ==> final(self).spec_failures() == 0,
            (old(self).spec_state() == BreakerState::HalfOpen && final(self).spec_state()
                != BreakerState::Closed) ==> final(self).spec_failures() == old(
                self,
            ).spec_failures(),
            final(self).spec_last_failure() == old(self).spec_last_failure(),
            final(self).spec_failure_threshold() == old(self).spec_failure_threshold(),
            final(self).spec_success_threshold() == old(self).spec_success_threshold(),
            final(self).spec_timeout() == old(self).spec_timeout(),
            old(self).spec_state() == BreakerState::HalfOpen && old(self).spec_successes() + 1
                >= old(self).spec_success_threshold() ==> final(self).spec_state()
                == BreakerState::Closed && final(self).spec_failures() == 0,
    {
        if self.state == BreakerState::HalfOpen {
            let successes = self.success_count + 1;
            self.success_count = successes;
            if successes >= self.success_threshold {
                self.state = BreakerState::Closed;
                self.failure_count = 0;
            }
        } else {
            self.failure_count = 0;
        }
    }

    /// Record a failed call at time `now`.
    fn on_failure(&mut self, now: u64)
        requires
            old(self).spec_failures() < u64::MAX,
        ensures
            final(self).spec_last_failure() == now,
            final(self).spec_failures() == old(self).spec_failures() + 1,
            final(self).spec_state() == if old(self).spec_failures() + 1 >= old(
                self,
            ).spec_failure_threshold() {
                BreakerState::Open
            } else {
                old(self).spec_state()
            },
            final(self).spec_successes() == old(self).spec_successes(),
            final(self).spec_failure_threshold() == old(self).spec_failure_threshold(),
            final(self).spec_success_threshold() == old(self).spec_success_threshold(),
            final(self).spec_timeout() == old(self).spec_timeout(),
    {
        self.last_failure_time = now;
        let failures = self.failure_count + 1;
        self.failure_count = failures;
        if failures >= self.failure_threshold {
            self.state = BreakerState::Open;
        }
    }

    /// Run `f` through the breaker at time `now` (seconds).
    ///
    /// An open breaker whose timeout has not passed refuses the call; one
    /// whose timeout has passed moves to half-open and makes the call.
    pub fn call<F, T>(&mut self, now: u64, f: F) -> (r: Result<T, CircuitBreakerError>) where
        F: FnOnce() -> Result<T, anyhow::Error>,

        requires
            f.requires(()),
            old(self).spec_state() == BreakerState::Open ==> old(self).spec_last_failure() <= now,
            old(self).spec_failures() < u64::MAX,
            old(self).spec_state() == BreakerState::HalfOpen ==> old(self).spec_successes()
                < u64::MAX,
        ensures
            old(self).spec_state() == BreakerState::Open && !old(self).timeout_elapsed(now) ==> {
                &&& r matches Err(CircuitBreakerError::Open)
                &&& *final(self) == *old(self)
            },
            !(old(self).spec_state() == BreakerState::Open && !old(self).timeout_elapsed(now))
                ==> ({
                // the state in which the call is made
                let st = if old(self).spec_state() == BreakerState::Open {
                    BreakerState::HalfOpen
                } else {
                    old(self).spec_state()
                };
                let succ = if old(self).spec_state() == BreakerState::Open {
                    0
                } else {
                    old(self).spec_successes()
                };
                match r {
                    Ok(v) => {
                        &&& f.ensures((), Ok(v))
                        &&& final(self).spec_state() == Self::after_success(
                            st,
                            succ,
                            old(self).spec_success_threshold(),
                        )
                        &&& final(self).spec_last_failure() == old(self).spec_last_failure()
                        &&& st == BreakerState::HalfOpen && succ + 1 >= old(
                            self,
                        ).spec_success_threshold() ==> final(self).spec_state()
                            == BreakerState::Closed && final(self).spec_failures() == 0
                        &&& st == BreakerState::Closed ==> final(self).spec_state()
                            == BreakerState::Closed && final(self).spec_failures() == 0
                        &&& final(self).spec_successes() == if st == BreakerState::HalfOpen {
                            (succ + 1) as u64
                        } else {
                            succ
                        }
                        &&& (st != BreakerState::HalfOpen || final(self).spec_state()
                            == BreakerState::Closed) ==> final(self).spec_failures() == 0
                        &&& (st == BreakerState::HalfOpen && final(self).spec_state()
                            != BreakerState::Closed) ==> final(self).spec_failures() == old(
                            self,
                        ).spec_failures()
                    },
                    Err(CircuitBreakerError::Execution(e)) => {
                        &&& f.ensures((), Err(e))
                        &&& final(self).spec_last_failure() == now
                        &&& final(self).spec_failures() == old(self).spec_failures() + 1
                        &&& final(self).spec_successes() == succ
                        &&& final(self).spec_state() == if old(self).spec_failures() + 1 >= old(
                            self,
                        ).spec_failure_threshold() {
                            BreakerState::Open
                        } else {
                            st
                        }
                    },
                    Err(CircuitBreakerError::Open) => false,
                }
            }),
            final(self).spec_failure_threshold() == old(self).spec_failure_threshold(),
            final(self).spec_success_threshold() == old(self).spec_success_threshold(),
            final(self).spec_timeout() == old(self).spec_timeout(),
    {
        if self.state == BreakerState::Open {
            let last_failure = self.last_failure_time;
            if now - last_failure >= self.timeout_secs {
                self.state = BreakerState::HalfOpen;
                self.success_count = 0;
            } else {
                return Err(CircuitBreakerError::Open);
            }
        }
        match f() {
            Ok(result) => {
                self.on_success();
                Ok(result)
            },
            Err(e) => {
                self.on_failure(now);
                Err(CircuitBreakerError::Execution(e))
            },
        }
    }

    pub fn is_open(&self) -> (b: bool)
        ensures
            b == (self.spec_state() == BreakerState::Open),
    {
        self.state == BreakerState::Open
    }

    /// The text of an error, as the breaker reports it: a fixed sentence
    /// for a refused call, and the failure's own text behind
    /// "Execution failed: " for a failed one.
    pub fn error_text(e: &CircuitBreakerError) -> (s: String)
        ensures
            e is Open ==> s@ == "Circuit breaker is open"@,
            e is Execution ==> exists|t: Seq<char>| s@ == "Execution failed: "@ + t,
    {
        match e {
            CircuitBreakerError::Open => String::from_str("Circuit breaker is open"),
            CircuitBreakerError::Execution(inner) => execution_failed_text(&execution_text(inner)),
        }
    }
}

/// The report of a failed call whose error reads `t`.
pub fn execution_failed_text(t: &String) -> (s: String)
    ensures
        s@ == "Execution failed: "@ + t@,
{
    let mut s = String::from_str("Execution failed: ");
    s.append(t.as_str());
    s
}

/// The `Display` text of an `anyhow::Error` (`format!("{}", e)`). Nothing is
/// stated of the text.
#[verifier::external_body]
fn execution_text(e: &anyhow::Error) -> String {
    format!("{}", e)
}

} // verus!
