//! Quarantine of conflicts that wait for a decision, with expiry and escalation by age.
use vstd::prelude::*;
use crate::env::now_millis;

verus! {

/// Milliseconds in a day.
pub const MILLIS_PER_DAY: i64 = 86_400_000;

/// A conflict held in quarantine.
#[derive(Debug, Clone)]
pub struct QuarantineEntry {
    pub conflict_id: u128,
    pub partition_key: String,
    pub record_id: String,
    pub record_type: String,
    pub local_payload: Vec<u8>,
    pub remote_payload: Vec<u8>,
    pub strategy: String,
    pub status: QuarantineStatus,
    /// Milliseconds since the Unix epoch.
    pub escalated_at: i64,
    pub resolved_by: Option<u128>,
    pub resolution: Option<String>,
    /// Milliseconds since the Unix epoch.
    pub resolved_at: Option<i64>,
    /// Milliseconds since the Unix epoch.
    pub created_at: i64,
}

/// Where a quarantined conflict stands.
#[derive(Debug, Clone, Copy, PartialEq, Eq, Structural)]
pub enum QuarantineStatus {
    Open,
    AutoResolved,
    ManualResolved,
    Escalated,
    Expired,
}

/// Decides when quarantined conflicts expire or are escalated.
pub struct QuarantineManager {
    pub max_quarantine_days: u32,
}

/// The whole days from `created_at` to `now`, rounded toward zero.
pub open spec fn whole_days(created_at: i64, now: i64) -> int {
    let ms = now - created_at;
    if ms >= 0 { ms / (MILLIS_PER_DAY as int) } else { -((-ms) / (MILLIS_PER_DAY as int)) }
}

/// Timestamps within the range of chrono's date-times.
pub open spec fn in_clock_range(t: i64) -> bool {
    -0x20_0000_0000_0000 < t < 0x20_0000_0000_0000
}

fn days_between(created_at: i64, now: i64) -> (r: i64)
    requires
        in_clock_range(created_at),
        in_clock_range(now),
    ensures
        r == whole_days(created_at, now),
{
    let ms = now - created_at;
    if ms >= 0 { ms / MILLIS_PER_DAY } else { -((-ms) / MILLIS_PER_DAY) }
}

impl QuarantineManager {
    /// A manager that keeps conflicts at most `max_quarantine_days` days.
    pub fn new(max_quarantine_days: u32) -> (r: Self)
        ensures
            r.max_quarantine_days == max_quarantine_days,
    {
        QuarantineManager { max_quarantine_days }
    }

    /// Whether `entry`, at time `now`, has been quarantined more whole days than allowed.
    pub fn is_expired_at(&self, entry: &QuarantineEntry, now: i64) -> (r: bool)
        requires
            in_clock_range(entry.created_at),
            in_clock_range(now),
        ensures
            r == (whole_days(entry.created_at, now) > self.max_quarantine_days),
    {
        days_between(entry.created_at, now) > self.max_quarantine_days as i64
    }

    /// Whether `entry`, at time `now`, is still open and has been quarantined more whole
    /// days than half the limit (rounded down).
    pub fn should_escalate_at(&self, entry: &QuarantineEntry, now: i64) -> (r: bool)
        requires
            in_clock_range(entry.created_at),
            in_clock_range(now),
        ensures
            r == (entry.status == QuarantineStatus::Open
                && whole_days(entry.created_at, now) > self.max_quarantine_days / 2),
    {
        if entry.status != QuarantineStatus::Open {
            return false;
        }
        days_between(entry.created_at, now) > (self.max_quarantine_days / 2) as i64
    }

    /// Whether `entry` has by now been quarantined more whole days than allowed.
    pub fn is_expired(&self, entry: &QuarantineEntry) -> (r: bool)
        requires
            in_clock_range(entry.created_at),
        ensures
            exists|now: i64| in_clock_range(now) && r == (whole_days(entry.created_at, now) > self.max_quarantine_days),
    {
        let now = now_millis();
        self.is_expired_at(entry, now)
    }

    /// Whether `entry` is by now open and older in whole days than half the limit.
    pub fn should_escalate(&self, entry: &QuarantineEntry) -> (r: bool)
        requires
            in_clock_range(entry.created_at),
        ensures
            exists|now: i64| in_clock_range(now) && r == (entry.status == QuarantineStatus::Open
                && whole_days(entry.created_at, now) > self.max_quarantine_days / 2),
    {
        let now = now_millis();
        self.should_escalate_at(entry, now)
    }
}

} // verus!
