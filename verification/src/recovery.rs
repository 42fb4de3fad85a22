//! The procedures a resilient connection runs: which strategies establish a
//! connection, and how a failed request is recovered (retry with backoff,
//! downgrade from shared memory to a socket, full reconnection).

use vstd::prelude::*;
use crate::resilience::{ResilienceConfig, backoff_next};

verus! {

/// What the caller should do next while establishing a connection.
#[derive(Debug, Clone, Copy, PartialEq, Eq, Structural)]
pub enum ConnectStep {
    /// Connect through the neighbor link in the working directory
    TryNeighbor,
    /// Ask the IO cell for a connection
    TryIoCell,
    /// Connect through the global registry socket
    TryGlobal,
    /// Ask the peer to move the connection to shared memory
    TryUpgrade,
    /// Use the socket connection just made
    UseSocket,
    /// Use the shared memory channel just negotiated
    UseShm,
    /// Every strategy failed
    Fail,
}

#[derive(Debug, Clone, Copy, PartialEq, Eq, Structural)]
pub enum ConnectPhase {
    Neighbor,
    IoCell,
    Global,
    Upgrade,
    Done,
}

/// Establishing a connection: neighbor link, then IO cell, then global
/// registry; a connection made by either of the first two may be upgraded
/// to shared memory.
pub struct ConnectPlan {
    pub phase: ConnectPhase,
    pub upgrade: bool,
}

pub open spec fn connect_rank(p: ConnectPhase) -> nat {
    match p {
        ConnectPhase::Neighbor => 4,
        ConnectPhase::IoCell => 3,
        ConnectPhase::Global => 2,
        ConnectPhase::Upgrade => 1,
        ConnectPhase::Done => 0,
    }
}

impl ConnectPlan {
    pub fn start(enable_upgrade: bool) -> (r: (ConnectPlan, ConnectStep))
        ensures
            r.0.phase == ConnectPhase::Neighbor,
            r.0.upgrade == enable_upgrade,
            r.1 == ConnectStep::TryNeighbor,
    {
        (ConnectPlan { phase: ConnectPhase::Neighbor, upgrade: enable_upgrade }, ConnectStep::TryNeighbor)
    }

    pub open spec fn spec_step(self, ok: bool) -> (ConnectPhase, ConnectStep) {
        match self.phase {
            ConnectPhase::Neighbor | ConnectPhase::IoCell => if ok {
                if self.upgrade {
                    (ConnectPhase::Upgrade, ConnectStep::TryUpgrade)
                } else {
                    (ConnectPhase::Done, ConnectStep::UseSocket)
                }
            } else if self.phase == ConnectPhase::Neighbor {
                (ConnectPhase::IoCell, ConnectStep::TryIoCell)
            } else {
                (ConnectPhase::Global, ConnectStep::TryGlobal)
            },
            ConnectPhase::Global => if ok {
                (ConnectPhase::Done, ConnectStep::UseSocket)
            } else {
                (ConnectPhase::Done, ConnectStep::Fail)
            },
            ConnectPhase::Upgrade => if ok {
                (ConnectPhase::Done, ConnectStep::UseShm)
            } else {
                (ConnectPhase::Done, ConnectStep::UseSocket)
            },
            ConnectPhase::Done => (ConnectPhase::Done, ConnectStep::Fail),
        }
    }

    /// Report whether the last step succeeded; returns the next step. Each
    /// report moves the plan strictly closer to its end.
    pub fn step(&mut self, ok: bool) -> (s: ConnectStep)
        ensures
            (final(self).phase, s) == old(self).spec_step(ok),
            final(self).upgrade == old(self).upgrade,
            old(self).phase != ConnectPhase::Done ==> connect_rank(final(self).phase)
                < connect_rank(old(self).phase),
    {
        let (p, s) = match self.phase {
            ConnectPhase::Neighbor | ConnectPhase::IoCell => if ok {
                if self.upgrade {
                    (ConnectPhase::Upgrade, ConnectStep::TryUpgrade)
                } else {
                    (ConnectPhase::Done, ConnectStep::UseSocket)
                }
            } else if self.phase == ConnectPhase::Neighbor {
                (ConnectPhase::IoCell, ConnectStep::TryIoCell)
            } else {
                (ConnectPhase::Global, ConnectStep::TryGlobal)
            },
            ConnectPhase::Global => if ok {
                (ConnectPhase::Done, ConnectStep::UseSocket)
            } else {
                (ConnectPhase::Done, ConnectStep::Fail)
            },
            ConnectPhase::Upgrade => if ok {
                (ConnectPhase::Done, ConnectStep::UseShm)
            } else {
                (ConnectPhase::Done, ConnectStep::UseSocket)
            },
            ConnectPhase::Done => (ConnectPhase::Done, ConnectStep::Fail),
        };
        self.phase = p;
        s
    }
}

/// Where a direct connection (without the IO cell) goes.
#[derive(Debug, Clone, Copy, PartialEq, Eq, Structural)]
pub enum DirectRoute {
    /// Connect through the neighbor link
    Neighbor,
    /// The neighbor link exists but its socket is not there yet
    NeighborNotReady,
    /// Connect through the global registry socket
    Global,
    /// No path to the target
    NoPath,
}

/// A neighbor link takes precedence over the global registry; a link whose
/// target is known to be missing means the cell is not ready. `target_ready`
/// is `None` when the link could not be read.
pub open spec fn spec_direct_route(
    link_exists: bool,
    target_ready: Option<bool>,
    global_exists: bool,
) -> DirectRoute {
    if link_exists {
        if target_ready == Some(false) {
            DirectRoute::NeighborNotReady
        } else {
            DirectRoute::Neighbor
        }
    } else if global_exists {
        DirectRoute::Global
    } else {
        DirectRoute::NoPath
    }
}

pub fn direct_route(link_exists: bool, target_ready: Option<bool>, global_exists: bool) -> (r:
    DirectRoute)
    ensures
        r == spec_direct_route(link_exists, target_ready, global_exists),
{
    if link_exists {
        match target_ready {
            Some(false) => DirectRoute::NeighborNotReady,
            _ => DirectRoute::Neighbor,
        }
    } else if global_exists {
        DirectRoute::Global
    } else {
        DirectRoute::NoPath
    }
}

/// The number of retries on the same transport before other strategies.
pub const SAME_TRANSPORT_RETRIES: u32 = 3;

#[derive(Debug, Clone, Copy, PartialEq, Eq, Structural)]
pub enum RecoveryPhase {
    /// Waiting before retry number `attempt` (1 to 3)
    Backoff { attempt: u32 },
    /// Retry number `attempt` is in flight
    RetrySend { attempt: u32 },
    /// Reconnecting over a socket after shared memory failed
    Downgrade,
    /// The request is in flight over the downgraded socket
    DowngradeSend,
    /// Full reconnection in progress
    Reconnect,
    /// The last attempt is in flight after reconnection
    FinalSend,
    Done,
}

#[derive(Debug, Clone, Copy, PartialEq, Eq, Structural)]
pub enum RecoveryFailure {
    /// Reconnection gave up
    ReconnectFailed,
    /// The request failed even after reconnection
    RequestFailed,
    /// An event arrived that the procedure did not ask for
    Unexpected,
}

#[derive(Debug, Clone, Copy, PartialEq, Eq, Structural)]
pub enum RecoveryStep {
    /// Wait this many milliseconds, then report `Slept`
    Sleep(u64),
    /// Send the request again, then report `SendOk` or `SendFailed`
    Send,
    /// Reconnect, allowing a shared memory upgrade or not
    Reconnect { allow_upgrade: bool },
    /// The request succeeded
    Succeed,
    /// Recovery failed
    Fail(RecoveryFailure),
}

#[derive(Debug, Clone, Copy, PartialEq, Eq, Structural)]
pub enum RecoveryEvent {
    Slept,
    SendOk,
    SendFailed,
    ReconnectOk,
    ReconnectFailed,
}

/// Recovery of a request whose first send failed transiently.
pub struct Recovery {
    pub phase: RecoveryPhase,
    pub delay_ms: u64,
    pub max_delay_ms: u64,
    /// Whether to try a socket downgrade (enabled, and shared memory in use)
    pub downgrade: bool,
    /// Whether a full reconnection may upgrade to shared memory
    pub allow_upgrade: bool,
}

pub open spec fn recovery_rank(p: RecoveryPhase) -> nat {
    match p {
        RecoveryPhase::Backoff { attempt } => if attempt <= 3 {
            (6 + 2 * (3 - attempt)) as nat
        } else {
            6
        },
        RecoveryPhase::RetrySend { attempt } => if attempt <= 3 {
            (5 + 2 * (3 - attempt)) as nat
        } else {
            5
        },
        RecoveryPhase::Downgrade => 4,
        RecoveryPhase::DowngradeSend => 3,
        RecoveryPhase::Reconnect => 2,
        RecoveryPhase::FinalSend => 1,
        RecoveryPhase::Done => 0,
    }
}

pub open spec fn attempt_valid(p: RecoveryPhase) -> bool {
    match p {
        RecoveryPhase::Backoff { attempt } => 1 <= attempt <= 3,
        RecoveryPhase::RetrySend { attempt } => 1 <= attempt <= 3,
        _ => true,
    }
}

impl Recovery {
    pub open spec fn wf(self) -> bool {
        attempt_valid(self.phase)
    }

    /// Begin recovery: wait the base delay before the first retry.
    pub fn start(config: &ResilienceConfig, using_shm: bool) -> (r: (Recovery, RecoveryStep))
        ensures
            r.0.wf(),
            r.0.phase == (RecoveryPhase::Backoff { attempt: 1 }),
            r.0.delay_ms == config.reconnect_base_delay_ms,
            r.0.max_delay_ms == config.reconnect_max_delay_ms,
            r.0.downgrade == (config.enable_transport_downgrade && using_shm),
            r.0.allow_upgrade == config.enable_transport_upgrade,
            r.1 == RecoveryStep::Sleep(config.reconnect_base_delay_ms),
    {
        (
            Recovery {
                phase: RecoveryPhase::Backoff { attempt: 1 },
                delay_ms: config.reconnect_base_delay_ms,
                max_delay_ms: config.reconnect_max_delay_ms,
                downgrade: config.enable_transport_downgrade && using_shm,
                allow_upgrade: config.enable_transport_upgrade,
            },
            RecoveryStep::Sleep(config.reconnect_base_delay_ms),
        )
    }

    /// The transition taken on `ev`: the next state and the step to perform.
    pub open spec fn spec_step(self, ev: RecoveryEvent) -> (Recovery, RecoveryStep) {
        match (self.phase, ev) {
            (RecoveryPhase::Backoff { attempt }, RecoveryEvent::Slept) => (
                Recovery { phase: RecoveryPhase::RetrySend { attempt }, ..self },
                RecoveryStep::Send,
            ),
            (RecoveryPhase::RetrySend { attempt }, RecoveryEvent::SendOk) => (
                Recovery { phase: RecoveryPhase::Done, ..self },
                RecoveryStep::Succeed,
            ),
            (RecoveryPhase::RetrySend { attempt }, RecoveryEvent::SendFailed) => {
                let d = crate::resilience::next_delay(self.delay_ms, 0, self.max_delay_ms);
                if attempt < SAME_TRANSPORT_RETRIES {
                    (
                        Recovery {
                            phase: RecoveryPhase::Backoff { attempt: (attempt + 1) as u32 },
                            delay_ms: d,
                            ..self
                        },
                        RecoveryStep::Sleep(d),
                    )
                } else if self.downgrade {
                    (
                        Recovery {
                            phase: RecoveryPhase::Downgrade,
                            delay_ms: d,
                            allow_upgrade: false,
                            ..self
                        },
                        RecoveryStep::Reconnect { allow_upgrade: false },
                    )
                } else {
                    (
                        Recovery { phase: RecoveryPhase::Reconnect, delay_ms: d, ..self },
                        RecoveryStep::Reconnect { allow_upgrade: self.allow_upgrade },
                    )
                }
            },
            (RecoveryPhase::Downgrade, RecoveryEvent::ReconnectOk) => (
                Recovery { phase: RecoveryPhase::DowngradeSend, ..self },
                RecoveryStep::Send,
            ),
            (RecoveryPhase::Downgrade, RecoveryEvent::ReconnectFailed) => (
                Recovery { phase: RecoveryPhase::Reconnect, ..self },
                RecoveryStep::Reconnect { allow_upgrade: self.allow_upgrade },
            ),
            (RecoveryPhase::DowngradeSend, RecoveryEvent::SendOk) => (
                Recovery { phase: RecoveryPhase::Done, ..self },
                RecoveryStep::Succeed,
            ),
            (RecoveryPhase::DowngradeSend, RecoveryEvent::SendFailed) => (
                Recovery { phase: RecoveryPhase::Reconnect, ..self },
                RecoveryStep::Reconnect { allow_upgrade: self.allow_upgrade },
            ),
            (RecoveryPhase::Reconnect, RecoveryEvent::ReconnectOk) => (
                Recovery { phase: RecoveryPhase::FinalSend, ..self },
                RecoveryStep::Send,
            ),
            (RecoveryPhase::Reconnect, RecoveryEvent::ReconnectFailed) => (
                Recovery { phase: RecoveryPhase::Done, ..self },
                RecoveryStep::Fail(RecoveryFailure::ReconnectFailed),
            ),
            (RecoveryPhase::FinalSend, RecoveryEvent::SendOk) => (
                Recovery { phase: RecoveryPhase::Done, ..self },
                RecoveryStep::Succeed,
            ),
            (RecoveryPhase::FinalSend, RecoveryEvent::SendFailed) => (
                Recovery { phase: RecoveryPhase::Done, ..self },
                RecoveryStep::Fail(RecoveryFailure::RequestFailed),
            ),
            _ => (
                Recovery { phase: RecoveryPhase::Done, ..self },
                RecoveryStep::Fail(RecoveryFailure::Unexpected),
            ),
        }
    }

    /// Report an event; returns the next step. Every report on an unfinished
    /// recovery moves it strictly closer to its end, so a recovery performs
    /// at most five sends and two reconnections.
    pub fn step(&mut self, ev: RecoveryEvent) -> (s: RecoveryStep)
        requires
            old(self).wf(),
        ensures
            (*final(self), s) == old(self).spec_step(ev),
            final(self).wf(),
            old(self).phase != RecoveryPhase::Done ==> recovery_rank(final(self).phase)
                < recovery_rank(old(self).phase),
    {
        match (self.phase, ev) {
            (RecoveryPhase::Backoff { attempt }, RecoveryEvent::Slept) => {
                self.phase = RecoveryPhase::RetrySend { attempt };
                RecoveryStep::Send
            },
            (RecoveryPhase::RetrySend { attempt: _ }, RecoveryEvent::SendOk) => {
                self.phase = RecoveryPhase::Done;
                RecoveryStep::Succeed
            },
            (RecoveryPhase::RetrySend { attempt }, RecoveryEvent::SendFailed) => {
                let d = backoff_next(self.delay_ms, 0, self.max_delay_ms);
                self.delay_ms = d;
                if attempt < SAME_TRANSPORT_RETRIES {
                    self.phase = RecoveryPhase::Backoff { attempt: attempt + 1 };
                    RecoveryStep::Sleep(d)
                } else if self.downgrade {
                    self.phase = RecoveryPhase::Downgrade;
                    self.allow_upgrade = false;
                    RecoveryStep::Reconnect { allow_upgrade: false }
                } else {
                    self.phase = RecoveryPhase::Reconnect;
                    RecoveryStep::Reconnect { allow_upgrade: self.allow_upgrade }
                }
            },
            (RecoveryPhase::Downgrade, RecoveryEvent::ReconnectOk) => {
                self.phase = RecoveryPhase::DowngradeSend;
                RecoveryStep::Send
            },
            (RecoveryPhase::Downgrade, RecoveryEvent::ReconnectFailed) => {
                self.phase = RecoveryPhase::Reconnect;
                RecoveryStep::Reconnect { allow_upgrade: self.allow_upgrade }
            },
            (RecoveryPhase::DowngradeSend, RecoveryEvent::SendOk) => {
                self.phase = RecoveryPhase::Done;
                RecoveryStep::Succeed
            },
            (RecoveryPhase::DowngradeSend, RecoveryEvent::SendFailed) => {
                self.phase = RecoveryPhase::Reconnect;
                RecoveryStep::Reconnect { allow_upgrade: self.allow_upgrade }
            },
            (RecoveryPhase::Reconnect, RecoveryEvent::ReconnectOk) => {
                self.phase = RecoveryPhase::FinalSend;
                RecoveryStep::Send
            },
            (RecoveryPhase::Reconnect, RecoveryEvent::ReconnectFailed) => {
                self.phase = RecoveryPhase::Done;
                RecoveryStep::Fail(RecoveryFailure::ReconnectFailed)
            },
            (RecoveryPhase::FinalSend, RecoveryEvent::SendOk) => {
                self.phase = RecoveryPhase::Done;
                RecoveryStep::Succeed
            },
            (RecoveryPhase::FinalSend, RecoveryEvent::SendFailed) => {
                self.phase = RecoveryPhase::Done;
                RecoveryStep::Fail(RecoveryFailure::RequestFailed)
            },
            _ => {
                self.phase = RecoveryPhase::Done;
                RecoveryStep::Fail(RecoveryFailure::Unexpected)
            },
        }
    }
}

/// The phases in which the recovery has asked for the request to be sent.
pub open spec fn awaiting_send(p: RecoveryPhase) -> bool {
    p is RetrySend || p is DowngradeSend || p is FinalSend
}

/// A request is reported as succeeded exactly when a send the recovery
/// asked for (a retry, the send over the downgraded socket, or the final
/// send after reconnection) went through; it is reported as failed exactly
/// when the final send after reconnection failed; and reconnection is
/// reported as failed exactly when the full reconnection failed.
pub proof fn lemma_recovery_outcomes(r: Recovery, ev: RecoveryEvent)
    ensures
        (r.spec_step(ev).1 == RecoveryStep::Succeed) <==> (awaiting_send(r.phase) && ev
            == RecoveryEvent::SendOk),
        (r.spec_step(ev).1 == RecoveryStep::Fail(RecoveryFailure::RequestFailed)) <==> (r.phase
            == RecoveryPhase::FinalSend && ev == RecoveryEvent::SendFailed),
        (r.spec_step(ev).1 == RecoveryStep::Fail(RecoveryFailure::ReconnectFailed)) <==> (r.phase
            == RecoveryPhase::Reconnect && ev == RecoveryEvent::ReconnectFailed),
        awaiting_send(r.phase) && ev == RecoveryEvent::SendOk ==> r.spec_step(ev).0.phase
            == RecoveryPhase::Done,
        r.phase is Backoff && ev == RecoveryEvent::Slept ==> r.spec_step(ev).1
            == RecoveryStep::Send,
        (r.phase == RecoveryPhase::Downgrade || r.phase == RecoveryPhase::Reconnect) && ev
            == RecoveryEvent::ReconnectOk ==> r.spec_step(ev).1 == RecoveryStep::Send,
        r.phase == RecoveryPhase::Done ==> r.spec_step(ev).1 == RecoveryStep::Fail(
            RecoveryFailure::Unexpected,
        ),
        r.spec_step(ev).1 is Send ==> awaiting_send(r.spec_step(ev).0.phase),
{
}

/// Every wait a recovery asks for is bounded by the larger of the base
/// delay and the cap, and once the first retry has failed, by the cap.
pub proof fn lemma_recovery_sleep_bounded(r: Recovery, ev: RecoveryEvent, bound: u64)
    requires
        r.delay_ms <= bound,
        r.max_delay_ms <= bound,
    ensures
        r.spec_step(ev).0.delay_ms <= bound,
        r.spec_step(ev).1 matches RecoveryStep::Sleep(d) ==> d <= r.max_delay_ms,
{
}

/// What follows the first send of a request.
#[derive(Debug, Clone, Copy, PartialEq, Eq, Structural)]
pub enum FirstSendOutcome {
    /// Record success and return the response
    Succeed,
    /// Record the failure and start recovery
    Recover,
    /// Return the error as it is
    Fail,
}

pub open spec fn spec_first_send_outcome(ok: bool, transient: bool) -> FirstSendOutcome {
    if ok {
        FirstSendOutcome::Succeed
    } else if transient {
        FirstSendOutcome::Recover
    } else {
        FirstSendOutcome::Fail
    }
}

pub fn first_send_outcome(ok: bool, transient: bool) -> (r: FirstSendOutcome)
    ensures
        r == spec_first_send_outcome(ok, transient),
{
    if ok {
        FirstSendOutcome::Succeed
    } else if transient {
        FirstSendOutcome::Recover
    } else {
        FirstSendOutcome::Fail
    }
}

} // verus!
