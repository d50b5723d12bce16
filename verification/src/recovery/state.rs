//! The recovery state machine: phases from detection to completion, with failure and
//! restart.
use vstd::prelude::*;
use crate::env::now_millis;
use crate::error::SyncEngineError;
use crate::text::{cat4, owned};

verus! {

/// A phase of recovery.
#[derive(Debug, Clone, Copy, PartialEq, Eq, Structural)]
pub enum RecoveryPhase {
    Detection,
    Isolation,
    Reconnection,
    Catchup,
    Normalization,
    Verification,
    Complete,
    Failed,
}

/// The name of a phase.
pub open spec fn phase_name(p: RecoveryPhase) -> Seq<char> {
    match p {
        RecoveryPhase::Detection => "detection"@,
        RecoveryPhase::Isolation => "isolation"@,
        RecoveryPhase::Reconnection => "reconnection"@,
        RecoveryPhase::Catchup => "catchup"@,
        RecoveryPhase::Normalization => "normalization"@,
        RecoveryPhase::Verification => "verification"@,
        RecoveryPhase::Complete => "complete"@,
        RecoveryPhase::Failed => "failed"@,
    }
}

/// The name under which a phase is shown in messages.
pub open spec fn phase_label(p: RecoveryPhase) -> Seq<char> {
    match p {
        RecoveryPhase::Detection => "Detection"@,
        RecoveryPhase::Isolation => "Isolation"@,
        RecoveryPhase::Reconnection => "Reconnection"@,
        RecoveryPhase::Catchup => "Catchup"@,
        RecoveryPhase::Normalization => "Normalization"@,
        RecoveryPhase::Verification => "Verification"@,
        RecoveryPhase::Complete => "Complete"@,
        RecoveryPhase::Failed => "Failed"@,
    }
}

/// The allowed moves: each phase to the next in order up to completion, any phase to
/// failure, and failure back to detection.
pub open spec fn valid_transition(from: RecoveryPhase, to: RecoveryPhase) -> bool {
    ||| (from == RecoveryPhase::Detection && to == RecoveryPhase::Isolation)
    ||| (from == RecoveryPhase::Isolation && to == RecoveryPhase::Reconnection)
    ||| (from == RecoveryPhase::Reconnection && to == RecoveryPhase::Catchup)
    ||| (from == RecoveryPhase::Catchup && to == RecoveryPhase::Normalization)
    ||| (from == RecoveryPhase::Normalization && to == RecoveryPhase::Verification)
    ||| (from == RecoveryPhase::Verification && to == RecoveryPhase::Complete)
    ||| to == RecoveryPhase::Failed
    ||| (from == RecoveryPhase::Failed && to == RecoveryPhase::Detection)
}

impl RecoveryPhase {
    /// The phase's name.
    pub fn as_str(&self) -> (r: &'static str)
        ensures
            r@ == phase_name(*self),
    {
        match self {
            RecoveryPhase::Detection => "detection",
            RecoveryPhase::Isolation => "isolation",
            RecoveryPhase::Reconnection => "reconnection",
            RecoveryPhase::Catchup => "catchup",
            RecoveryPhase::Normalization => "normalization",
            RecoveryPhase::Verification => "verification",
            RecoveryPhase::Complete => "complete",
            RecoveryPhase::Failed => "failed",
        }
    }

    /// The name under which the phase is shown in messages.
    pub fn label(&self) -> (r: &'static str)
        ensures
            r@ == phase_label(*self),
    {
        match self {
            RecoveryPhase::Detection => "Detection",
            RecoveryPhase::Isolation => "Isolation",
            RecoveryPhase::Reconnection => "Reconnection",
            RecoveryPhase::Catchup => "Catchup",
            RecoveryPhase::Normalization => "Normalization",
            RecoveryPhase::Verification => "Verification",
            RecoveryPhase::Complete => "Complete",
            RecoveryPhase::Failed => "Failed",
        }
    }
}

/// The recovery of one node: its phase, mode and progress.
#[derive(Debug, Clone)]
pub struct RecoveryStateMachine {
    pub node_id: u128,
    pub region: String,
    pub current_phase: RecoveryPhase,
    pub last_completed_phase: Option<RecoveryPhase>,
    pub autonomous_mode: bool,
    pub pending_events: u64,
    pub synced_events: u64,
    pub conflict_count: u32,
    /// Milliseconds since the Unix epoch.
    pub last_reconnect_attempt: Option<i64>,
    pub reconnect_attempts: u32,
    pub last_error: Option<String>,
    /// Milliseconds since the Unix epoch.
    pub started_at: i64,
}

/// The two machines agree on everything but phase, mode, progress and error.
pub open spec fn same_identity(a: RecoveryStateMachine, b: RecoveryStateMachine) -> bool {
    a.node_id == b.node_id && a.region == b.region && a.started_at == b.started_at
}

impl RecoveryStateMachine {
    /// A machine for `node_id` in `region`, detecting, started now.
    pub fn new(node_id: u128, region: &str) -> (r: Self)
        ensures
            r.node_id == node_id,
            r.region@ == region@,
            r.current_phase == RecoveryPhase::Detection,
            r.last_completed_phase is None,
            !r.autonomous_mode,
            r.pending_events == 0,
            r.synced_events == 0,
            r.conflict_count == 0,
            r.last_reconnect_attempt is None,
            r.reconnect_attempts == 0,
            r.last_error is None,
            -0x20_0000_0000_0000 < r.started_at < 0x20_0000_0000_0000,
    {
        RecoveryStateMachine {
            node_id,
            region: owned(region),
            current_phase: RecoveryPhase::Detection,
            last_completed_phase: None,
            autonomous_mode: false,
            pending_events: 0,
            synced_events: 0,
            conflict_count: 0,
            last_reconnect_attempt: None,
            reconnect_attempts: 0,
            last_error: None,
            started_at: now_millis(),
        }
    }

    /// Moves to `phase` when the move is allowed, remembering the phase left; otherwise
    /// leaves the machine as it is and reports the refused move.
    pub fn transition_to(&mut self, phase: RecoveryPhase) -> (r: Result<(), SyncEngineError>)
        ensures
            r is Ok <==> valid_transition(old(self).current_phase, phase),
            r is Ok ==> *final(self) == (RecoveryStateMachine {
                current_phase: phase,
                last_completed_phase: Some(old(self).current_phase),
                ..*old(self)
            }),
            r is Err ==> *final(self) == *old(self),
            r matches Err(e) ==> e matches SyncEngineError::Recovery(m) && m@ == "Invalid phase transition: "@
                + phase_label(old(self).current_phase) + " -> "@ + phase_label(phase),
    {
        if !self.is_valid_transition(phase) {
            let message = cat4("Invalid phase transition: ", self.current_phase.label(), " -> ", phase.label());
            return Err(SyncEngineError::Recovery(message));
        }
        self.last_completed_phase = Some(self.current_phase);
        self.current_phase = phase;
        Ok(())
    }

    /// Switches autonomous operation on.
    pub fn enter_autonomous_mode(&mut self)
        ensures
            *final(self) == (RecoveryStateMachine { autonomous_mode: true, ..*old(self) }),
    {
        self.autonomous_mode = true;
    }

    /// Switches autonomous operation off.
    pub fn exit_autonomous_mode(&mut self)
        ensures
            *final(self) == (RecoveryStateMachine { autonomous_mode: false, ..*old(self) }),
    {
        self.autonomous_mode = false;
    }

    /// Counts a reconnect attempt made now.
    pub fn record_reconnect_attempt(&mut self)
        requires
            old(self).reconnect_attempts < u32::MAX,
        ensures
            final(self).reconnect_attempts == old(self).reconnect_attempts + 1,
            final(self).last_reconnect_attempt is Some,
            *final(self) == (RecoveryStateMachine {
                reconnect_attempts: final(self).reconnect_attempts,
                last_reconnect_attempt: final(self).last_reconnect_attempt,
                ..*old(self)
            }),
    {
        self.reconnect_attempts = self.reconnect_attempts + 1;
        self.last_reconnect_attempt = Some(now_millis());
    }

    /// Records `events_synced` more events as synced; as many fewer are pending, down to
    /// none.
    pub fn record_progress(&mut self, events_synced: u64)
        requires
            old(self).synced_events + events_synced <= u64::MAX,
        ensures
            final(self).synced_events == old(self).synced_events + events_synced,
            final(self).pending_events == (if old(self).pending_events >= events_synced {
                old(self).pending_events - events_synced } else { 0 }),
            *final(self) == (RecoveryStateMachine {
                synced_events: final(self).synced_events,
                pending_events: final(self).pending_events,
                ..*old(self)
            }),
    {
        self.synced_events = self.synced_events + events_synced;
        self.pending_events = self.pending_events.saturating_sub(events_synced);
    }

    /// Counts one more conflict.
    pub fn record_conflict(&mut self)
        requires
            old(self).conflict_count < u32::MAX,
        ensures
            *final(self) == (RecoveryStateMachine { conflict_count: (old(self).conflict_count + 1) as u32, ..*old(self) }),
    {
        self.conflict_count = self.conflict_count + 1;
    }

    /// Records `error` as the last error.
    pub fn set_error(&mut self, error: &str)
        ensures
            final(self).last_error matches Some(e) && e@ == error@,
            *final(self) == (RecoveryStateMachine { last_error: final(self).last_error, ..*old(self) }),
    {
        self.last_error = Some(owned(error));
    }

    /// The milliseconds since recovery started.
    pub fn elapsed(&self) -> (r: i64)
        requires
            -0x20_0000_0000_0000 < self.started_at < 0x20_0000_0000_0000,
        ensures
            -0x20_0000_0000_0000 < r + self.started_at < 0x20_0000_0000_0000,
    {
        let now = now_millis();
        now - self.started_at
    }

    /// Whether recovery is complete.
    pub fn is_complete(&self) -> (r: bool)
        ensures
            r == (self.current_phase == RecoveryPhase::Complete),
    {
        self.current_phase == RecoveryPhase::Complete
    }

    /// Whether recovery failed.
    pub fn is_failed(&self) -> (r: bool)
        ensures
            r == (self.current_phase == RecoveryPhase::Failed),
    {
        self.current_phase == RecoveryPhase::Failed
    }

    /// Whether the node should start operating on its own: it missed at least `threshold`
    /// heartbeats and is not autonomous yet.
    pub fn needs_autonomous_operation(&self, missed_heartbeats: u32, threshold: u32) -> (r: bool)
        ensures
            r == (missed_heartbeats >= threshold && !self.autonomous_mode),
    {
        missed_heartbeats >= threshold && !self.autonomous_mode
    }

    /// Whether the machine may move from its current phase to `target`.
    pub fn is_valid_transition(&self, target: RecoveryPhase) -> (r: bool)
        ensures
            r == valid_transition(self.current_phase, target),
    {
        match (self.current_phase, target) {
            (RecoveryPhase::Detection, RecoveryPhase::Isolation) => true,
            (RecoveryPhase::Isolation, RecoveryPhase::Reconnection) => true,
            (RecoveryPhase::Reconnection, RecoveryPhase::Catchup) => true,
            (RecoveryPhase::Catchup, RecoveryPhase::Normalization) => true,
            (RecoveryPhase::Normalization, RecoveryPhase::Verification) => true,
            (RecoveryPhase::Verification, RecoveryPhase::Complete) => true,
            (_, RecoveryPhase::Failed) => true,
            (RecoveryPhase::Failed, RecoveryPhase::Detection) => true,
            _ => false,
        }
    }
}

/// The phases of a full recovery, in order.
pub open spec fn recovery_path() -> Seq<RecoveryPhase> {
    seq![RecoveryPhase::Detection, RecoveryPhase::Isolation, RecoveryPhase::Reconnection, RecoveryPhase::Catchup,
        RecoveryPhase::Normalization, RecoveryPhase::Verification, RecoveryPhase::Complete]
}

/// A full recovery moves through the phases in order, each move allowed.
pub proof fn lemma_recovery_path_allowed()
    ensures
        forall|i: int| 0 <= i < recovery_path().len() - 1 ==>
            valid_transition(#[trigger] recovery_path()[i], recovery_path()[i + 1]),
{
}

/// Failure can be entered from every phase, and left only by restarting detection.
pub proof fn lemma_failure_and_restart(p: RecoveryPhase, q: RecoveryPhase)
    ensures
        valid_transition(p, RecoveryPhase::Failed),
        valid_transition(RecoveryPhase::Failed, q) <==> (q == RecoveryPhase::Detection || q == RecoveryPhase::Failed),
{
}

/// The phase that follows `p` on a full recovery, if any.
pub open spec fn next_on_path(p: RecoveryPhase) -> Option<RecoveryPhase> {
    match p {
        RecoveryPhase::Detection => Some(RecoveryPhase::Isolation),
        RecoveryPhase::Isolation => Some(RecoveryPhase::Reconnection),
        RecoveryPhase::Reconnection => Some(RecoveryPhase::Catchup),
        RecoveryPhase::Catchup => Some(RecoveryPhase::Normalization),
        RecoveryPhase::Normalization => Some(RecoveryPhase::Verification),
        RecoveryPhase::Verification => Some(RecoveryPhase::Complete),
        _ => None,
    }
}

/// Completion is left only by failing, and no phase is skipped: apart from failing
/// and restarting, the only allowed move is to the next phase of a full recovery.
pub proof fn lemma_no_skipping(p: RecoveryPhase, q: RecoveryPhase)
    ensures
        valid_transition(RecoveryPhase::Complete, q) <==> q == RecoveryPhase::Failed,
        q != RecoveryPhase::Failed && !(p == RecoveryPhase::Failed && q == RecoveryPhase::Detection) ==>
            (valid_transition(p, q) <==> next_on_path(p) == Some(q)),
{
}

} // verus!
