//! The sync protocol: sessions and their phases, from discovery through Merkle exchange,
//! delta transfer and reconciliation to commitment.
use vstd::prelude::*;
use crate::env::now_millis;
use crate::records::SyncPhase;

pub mod codec;
pub mod handshake;
pub mod transfer;
pub mod exchange;
pub mod reconcile;
pub mod commit;
pub mod discovery;

verus! {

/// A sync session between two nodes.
#[derive(Debug)]
pub struct SyncSession {
    pub session_id: u128,
    pub initiator: u128,
    pub target: u128,
    pub current_phase: SyncPhase,
    pub partitions: Vec<String>,
    /// Milliseconds since the Unix epoch.
    pub started_at: i64,
    /// Milliseconds since the Unix epoch.
    pub last_activity: i64,
    pub bytes_transferred: u64,
    pub records_synced: u32,
}

/// Timestamps within the range of chrono's date-times.
pub open spec fn clock_time(t: int) -> bool {
    -0x20_0000_0000_0000 < t < 0x20_0000_0000_0000
}

impl SyncSession {
    /// A session from `initiator` to `target` over `partitions`, in discovery, with a fresh
    /// identifier, started now.
    pub fn new(initiator: u128, target: u128, partitions: Vec<String>) -> (r: Self)
        ensures
            r.initiator == initiator,
            r.target == target,
            r.current_phase == SyncPhase::Discovery,
            r.partitions == partitions,
            clock_time(r.started_at as int),
            clock_time(r.last_activity as int),
            r.bytes_transferred == 0,
            r.records_synced == 0,
    {
        let now = now_millis();
        SyncSession {
            session_id: crate::env::fresh_id(),
            initiator,
            target,
            current_phase: SyncPhase::Discovery,
            partitions,
            started_at: now,
            last_activity: now,
            bytes_transferred: 0,
            records_synced: 0,
        }
    }

    /// Moves the session to `phase`, now.
    pub fn advance_phase(&mut self, phase: SyncPhase)
        ensures
            final(self).current_phase == phase,
            clock_time(final(self).last_activity as int),
            final(self).session_id == old(self).session_id,
            final(self).initiator == old(self).initiator,
            final(self).target == old(self).target,
            final(self).partitions == old(self).partitions,
            final(self).started_at == old(self).started_at,
            final(self).bytes_transferred == old(self).bytes_transferred,
            final(self).records_synced == old(self).records_synced,
    {
        self.current_phase = phase;
        self.last_activity = now_millis();
    }

    /// Counts `bytes` more bytes and `records` more records transferred, now.
    pub fn add_transfer(&mut self, bytes: u64, records: u32)
        requires
            old(self).bytes_transferred + bytes <= u64::MAX,
            old(self).records_synced + records <= u32::MAX,
        ensures
            final(self).bytes_transferred == old(self).bytes_transferred + bytes,
            final(self).records_synced == old(self).records_synced + records,
            clock_time(final(self).last_activity as int),
            final(self).session_id == old(self).session_id,
            final(self).initiator == old(self).initiator,
            final(self).target == old(self).target,
            final(self).current_phase == old(self).current_phase,
            final(self).partitions == old(self).partitions,
            final(self).started_at == old(self).started_at,
    {
        self.bytes_transferred = self.bytes_transferred + bytes;
        self.records_synced = self.records_synced + records;
        self.last_activity = now_millis();
    }

    /// The milliseconds since the session started.
    pub fn elapsed(&self) -> (r: i64)
        requires
            clock_time(self.started_at as int),
        ensures
            clock_time(r + self.started_at),
    {
        now_millis() - self.started_at
    }

    /// The milliseconds since the session's last activity.
    pub fn idle_for(&self) -> (r: i64)
        requires
            clock_time(self.last_activity as int),
        ensures
            clock_time(r + self.last_activity),
    {
        now_millis() - self.last_activity
    }
}

} // verus!
