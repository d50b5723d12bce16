//! Storage governance: append-only checks, snapshots, compaction plans, quotas and
//! replay retention.
use vstd::prelude::*;
use crate::env::{fresh_id, now_millis};
use vstd::string::StringSliceAdditionalSpecFns;
use crate::crypto::{sha256, sha256_digest, u64_le, le_bytes64, bytes_eq, concat_bytes};
use crate::text::{cat4, cat5, owned, u64_text, decimal, strs_view};

verus! {

/// Governs append-only storage.
pub struct StorageGovernor;

/// How one kind of store is retained and bounded.
#[derive(Debug, Clone)]
pub struct StoragePolicy {
    pub policy_id: u128,
    pub policy_type: StoragePolicyType,
    pub retention_days: u64,
    pub max_size_bytes: u64,
    pub compaction_enabled: bool,
    pub snapshot_interval_secs: u64,
    pub encryption_required: bool,
}

/// The kind of store a policy governs.
#[derive(Debug, Clone, Copy, PartialEq, Eq, Structural)]
pub enum StoragePolicyType {
    EventStore,
    CheckpointStore,
    AuditLog,
    ConflictJournal,
    ReplayArchive,
    LocalCache,
}

/// Takes snapshots.
pub struct SnapshotEngine;

/// A snapshot of a stream.
#[derive(Debug)]
pub struct SnapshotManifest {
    pub snapshot_id: u128,
    pub domain: String,
    pub stream_id: String,
    pub event_count: u64,
    pub snapshot_hash: Vec<u8>,
    pub checkpoint_depth: u64,
    /// Milliseconds since the Unix epoch.
    pub taken_at: i64,
    pub deterministic: bool,
}

/// Plans and checks compactions.
pub struct CompactionEngine;

/// A planned compaction.
#[derive(Debug)]
pub struct CompactionPlan {
    pub plan_id: u128,
    pub target: String,
    pub compaction_type: CompactionType,
    pub estimated_space_savings: u64,
    pub replay_safe: bool,
}

/// The kind of compaction.
#[derive(Debug, Clone, Copy, PartialEq, Eq, Structural)]
pub enum CompactionType {
    CrdtMerge,
    SnapshotPruning,
    LogCompaction,
    IndexRebuild,
}

/// Enforces storage quotas.
pub struct QuotaEnforcer;

/// What is done about storage use.
#[derive(Debug, Clone, Copy, PartialEq, Eq, Structural)]
pub enum QuotaAction {
    NoAction,
    Warn,
    Throttle,
    BlockWrites,
    EmergencyCompaction,
}

/// Plans replay retention.
pub struct ReplayRetentionEngine;

/// The span of a stream that is retained.
#[derive(Debug)]
pub struct RetentionPlan {
    pub plan_id: u128,
    pub stream_id: String,
    /// Milliseconds since the Unix epoch.
    pub retain_from: i64,
    /// Milliseconds since the Unix epoch.
    pub retain_until: i64,
    pub pruning_strategy: PruningStrategy,
    pub archive_target: Option<String>,
}

/// How retained data is pruned.
#[derive(Debug, Clone, Copy, PartialEq, Eq, Structural)]
pub enum PruningStrategy {
    NoPruning,
    AgeBased(u64),
    SizeBased(u64),
    CheckpointBased(u64),
    GovernanceApproved,
}

/// The direction in which storage pressure moves.
#[derive(Debug, Clone, Copy, PartialEq, Eq, Structural)]
pub enum PressureTrend {
    Declining,
    Stable,
    Growing,
    Critical,
}

/// Every hash equals the one before it.
pub open spec fn all_consecutive_equal(hs: Seq<Vec<u8>>) -> bool {
    forall|i: int| 0 <= i < hs.len() - 1 ==> (#[trigger] hs[i])@ == hs[i + 1]@
}

impl StorageGovernor {
    /// A new governor.
    pub fn new() -> (r: Self) {
        StorageGovernor
    }

    /// A policy for stores of type `policy_type`: compaction on, hourly snapshots, and
    /// encryption for audit logs and conflict journals.
    pub fn create_policy(policy_type: StoragePolicyType, retention_days: u64, max_size: u64) -> (r: StoragePolicy)
        ensures
            r.policy_type == policy_type,
            r.retention_days == retention_days,
            r.max_size_bytes == max_size,
            r.compaction_enabled,
            r.snapshot_interval_secs == 3600,
            r.encryption_required == (policy_type == StoragePolicyType::AuditLog || policy_type == StoragePolicyType::ConflictJournal),
    {
        StoragePolicy {
            policy_id: fresh_id(),
            policy_type,
            retention_days,
            max_size_bytes: max_size,
            compaction_enabled: true,
            snapshot_interval_secs: 3600,
            encryption_required: policy_type == StoragePolicyType::AuditLog || policy_type == StoragePolicyType::ConflictJournal,
        }
    }

    /// Whether every entry of the hash log equals the entry before it.
    pub fn verify_append_only(&self, log_hashes: &[Vec<u8>]) -> (r: bool)
        ensures
            r == all_consecutive_equal(log_hashes@),
    {
        let n = log_hashes.len();
        if n < 2 {
            return true;
        }
        for i in 0..n - 1
            invariant
                n == log_hashes@.len(),
                n >= 2,
                forall|j: int| 0 <= j < i ==> (#[trigger] log_hashes@[j])@ == log_hashes@[j + 1]@,
        {
            if !bytes_eq(log_hashes[i].as_slice(), log_hashes[i + 1].as_slice()) {
                return false;
            }
        }
        true
    }
}

/// The bytes a snapshot hash is computed over: domain, stream id, then the event count
/// in little-endian order.
pub open spec fn snapshot_input(domain: &str, stream_id: &str, event_count: u64) -> Seq<u8> {
    domain.spec_bytes() + stream_id.spec_bytes() + le_bytes64(event_count)
}

impl SnapshotEngine {
    /// A new engine.
    pub fn new() -> (r: Self) {
        SnapshotEngine
    }

    /// A deterministic snapshot of `stream_id` in `domain`, hashed over its identity and
    /// event count.
    pub fn create_snapshot(&self, domain: &str, stream_id: &str, event_count: u64, depth: u64) -> (r: SnapshotManifest)
        ensures
            r.domain@ == domain@,
            r.stream_id@ == stream_id@,
            r.event_count == event_count,
            r.snapshot_hash@ == sha256_digest(snapshot_input(domain, stream_id, event_count)),
            r.checkpoint_depth == depth,
            r.deterministic,
    {
        let head = concat_bytes(domain.as_bytes(), stream_id.as_bytes());
        let count = u64_le(event_count);
        let input = concat_bytes(head.as_slice(), count.as_slice());
        let hash = sha256(input.as_slice());
        SnapshotManifest {
            snapshot_id: fresh_id(),
            domain: owned(domain),
            stream_id: owned(stream_id),
            event_count,
            snapshot_hash: hash,
            checkpoint_depth: depth,
            taken_at: now_millis(),
            deterministic: true,
        }
    }
}

/// The name under which a compaction type is shown.
pub open spec fn compaction_type_name(t: CompactionType) -> Seq<char> {
    match t {
        CompactionType::CrdtMerge => "CrdtMerge"@,
        CompactionType::SnapshotPruning => "SnapshotPruning"@,
        CompactionType::LogCompaction => "LogCompaction"@,
        CompactionType::IndexRebuild => "IndexRebuild"@,
    }
}

impl CompactionType {
    /// The name under which the compaction type is shown.
    pub fn name(&self) -> (r: &'static str)
        ensures
            r@ == compaction_type_name(*self),
    {
        match self {
            CompactionType::CrdtMerge => "CrdtMerge",
            CompactionType::SnapshotPruning => "SnapshotPruning",
            CompactionType::LogCompaction => "LogCompaction",
            CompactionType::IndexRebuild => "IndexRebuild",
        }
    }
}

/// The findings of a compaction check, in order.
pub open spec fn compaction_findings(plan: CompactionPlan, actual: u64) -> Seq<Seq<char>> {
    (if !plan.replay_safe {
        seq!["Compaction type "@ + compaction_type_name(plan.compaction_type) + " on '"@ + plan.target@ + "' is not replay-safe"@]
    } else {
        Seq::<Seq<char>>::empty()
    }) + (if actual > plan.estimated_space_savings * 2 {
        seq!["Actual savings "@ + decimal(actual as nat) + " exceeds double estimate "@
            + decimal(plan.estimated_space_savings as nat) + " \u{2014} possible data loss"@]
    } else {
        Seq::<Seq<char>>::empty()
    }) + (if actual < plan.estimated_space_savings / 10 {
        seq!["Actual savings "@ + decimal(actual as nat) + " is <10% of estimate "@
            + decimal(plan.estimated_space_savings as nat) + " \u{2014} compaction ineffective"@]
    } else {
        Seq::<Seq<char>>::empty()
    })
}

impl CompactionEngine {
    /// A new engine.
    pub fn new() -> (r: Self) {
        CompactionEngine
    }

    /// A compaction plan of `target`; CRDT merges and snapshot pruning are replay-safe.
    pub fn create_plan(target: &str, ctype: CompactionType, savings: u64) -> (r: CompactionPlan)
        ensures
            r.target@ == target@,
            r.compaction_type == ctype,
            r.estimated_space_savings == savings,
            r.replay_safe == (ctype == CompactionType::CrdtMerge || ctype == CompactionType::SnapshotPruning),
    {
        CompactionPlan {
            plan_id: fresh_id(),
            target: owned(target),
            compaction_type: ctype,
            estimated_space_savings: savings,
            replay_safe: ctype == CompactionType::CrdtMerge || ctype == CompactionType::SnapshotPruning,
        }
    }

    /// Checks a compaction: the type must be replay-safe, and the actual savings must lie
    /// between a tenth and twice the estimate.
    pub fn verify_compaction(&self, plan: &CompactionPlan, actual_savings: u64) -> (r: Vec<String>)
        requires
            plan.estimated_space_savings * 2 <= u64::MAX,
        ensures
            strs_view(r@) == compaction_findings(*plan, actual_savings),
    {
        let mut issues: Vec<String> = Vec::new();
        if !plan.replay_safe {
            issues.push(cat5("Compaction type ", plan.compaction_type.name(), " on '", plan.target.as_str(), "' is not replay-safe"));
        }
        let ghost a = strs_view(issues@);
        if actual_savings > plan.estimated_space_savings * 2 {
            issues.push(cat4(
                cat2_num("Actual savings ", actual_savings).as_str(),
                " exceeds double estimate ",
                u64_text(plan.estimated_space_savings).as_str(),
                " \u{2014} possible data loss",
            ));
        }
        let ghost b = strs_view(issues@);
        if actual_savings < plan.estimated_space_savings / 10 {
            issues.push(cat4(
                cat2_num("Actual savings ", actual_savings).as_str(),
                " is <10% of estimate ",
                u64_text(plan.estimated_space_savings).as_str(),
                " \u{2014} compaction ineffective",
            ));
        }
        assert(strs_view(issues@) =~= compaction_findings(*plan, actual_savings));
        issues
    }
}

/// `prefix` followed by the decimal rendering of `n`.
fn cat2_num(prefix: &str, n: u64) -> (r: String)
    ensures
        r@ == prefix@ + decimal(n as nat),
{
    crate::text::cat2(prefix, u64_text(n).as_str())
}

/// The storage use of a domain against its quota.
#[derive(Debug, Clone)]
pub struct QuotaState {
    pub domain: String,
    pub storage_used_bytes: u64,
    pub storage_quota_bytes: u64,
    pub over_quota: bool,
    pub enforcement_action: QuotaAction,
}

/// The action for `used` bytes against a quota of `quota` bytes: by the share used (0
/// when the quota is 0), blocking writes from all of it, compacting from 95%,
/// throttling from 85%, warning from 75%.
pub open spec fn quota_action(used: u64, quota: u64) -> QuotaAction {
    if quota == 0 {
        QuotaAction::NoAction
    } else if used >= quota {
        QuotaAction::BlockWrites
    } else if 100 * used >= 95 * quota {
        QuotaAction::EmergencyCompaction
    } else if 100 * used >= 85 * quota {
        QuotaAction::Throttle
    } else if 100 * used >= 75 * quota {
        QuotaAction::Warn
    } else {
        QuotaAction::NoAction
    }
}

impl QuotaEnforcer {
    /// A new enforcer.
    pub fn new() -> (r: Self) {
        QuotaEnforcer
    }

    /// The quota state of `domain` using `used` of `quota` bytes; the share used is
    /// compared exactly.
    pub fn check_quota(domain: &str, used: u64, quota: u64) -> (r: QuotaState)
        ensures
            r.domain@ == domain@,
            r.storage_used_bytes == used,
            r.storage_quota_bytes == quota,
            r.over_quota == (quota > 0 && used >= quota),
            r.enforcement_action == quota_action(used, quota),
    {
        let u = used as u128;
        let q = quota as u128;
        let action = if quota == 0 {
            QuotaAction::NoAction
        } else if used >= quota {
            QuotaAction::BlockWrites
        } else if 100 * u >= 95 * q {
            QuotaAction::EmergencyCompaction
        } else if 100 * u >= 85 * q {
            QuotaAction::Throttle
        } else if 100 * u >= 75 * q {
            QuotaAction::Warn
        } else {
            QuotaAction::NoAction
        };
        QuotaState {
            domain: crate::text::owned(domain),
            storage_used_bytes: used,
            storage_quota_bytes: quota,
            over_quota: quota > 0 && used >= quota,
            enforcement_action: action,
        }
    }
}

/// Milliseconds in a day.
pub const MILLIS_PER_DAY: i64 = 86_400_000;

impl ReplayRetentionEngine {
    /// A new engine.
    pub fn new() -> (r: Self) {
        ReplayRetentionEngine
    }

    /// Retains the last `retention_days` days of `stream_id`, pruning by age.
    pub fn create_retention_plan(stream_id: &str, retention_days: u64) -> (r: RetentionPlan)
        requires
            retention_days <= 100_000_000,
        ensures
            r.stream_id@ == stream_id@,
            r.retain_until - r.retain_from == retention_days * MILLIS_PER_DAY,
            r.pruning_strategy == PruningStrategy::AgeBased(retention_days),
            r.archive_target is None,
    {
        let now = now_millis();
        let span = (retention_days as i64) * MILLIS_PER_DAY;
        RetentionPlan {
            plan_id: fresh_id(),
            stream_id: owned(stream_id),
            retain_from: now - span,
            retain_until: now,
            pruning_strategy: PruningStrategy::AgeBased(retention_days),
            archive_target: None,
        }
    }
}

impl Default for StorageGovernor {
    /// The same as `StorageGovernor::new()`.
    fn default() -> (r: Self)
    {
        Self::new()
    }
}

impl Default for SnapshotEngine {
    /// The same as `SnapshotEngine::new()`.
    fn default() -> (r: Self)
    {
        Self::new()
    }
}

impl Default for CompactionEngine {
    /// The same as `CompactionEngine::new()`.
    fn default() -> (r: Self)
    {
        Self::new()
    }
}

impl Default for QuotaEnforcer {
    /// The same as `QuotaEnforcer::new()`.
    fn default() -> (r: Self)
    {
        Self::new()
    }
}

impl Default for ReplayRetentionEngine {
    /// The same as `ReplayRetentionEngine::new()`.
    fn default() -> (r: Self)
    {
        Self::new()
    }
}

} // verus!
