//! Migration governance: the registry of database migrations, the policies they must
//! meet and the history of their executions.
use vstd::prelude::*;
use crate::store::{KeyedStore, lookup, stored, derefs, values_of};
use crate::text::{cat3, owned, str_eq, strs_view};

verus! {

/// A database migration.
#[derive(Debug)]
pub struct MigrationRecord {
    pub migration_id: String,
    pub version: semver::Version,
    pub description: String,
    pub migration_type: MigrationType,
    pub checksum: Vec<u8>,
    pub author: String,
    /// Milliseconds since the Unix epoch.
    pub created_at: i64,
    pub dependencies: Vec<String>,
    pub rollback_script: Option<String>,
    pub replay_safe: bool,
    pub reviewed: bool,
    pub approved_by: Option<String>,
}

/// The kinds of migrations.
#[derive(Debug, Clone, Copy, PartialEq, Eq, Structural)]
pub enum MigrationType {
    Schema,
    Data,
    Index,
    Partition,
    Replication,
    Configuration,
    Sovereignty,
}

/// What a migration must satisfy.
#[derive(Debug, Clone)]
pub struct MigrationPolicy {
    pub policy_id: String,
    pub require_review: bool,
    pub require_replay_safe: bool,
    pub require_rollback: bool,
    pub max_per_deployment: usize,
    pub require_approval: bool,
    pub require_checksum_verification: bool,
}

/// One execution of a migration.
#[derive(Debug, Clone)]
pub struct MigrationExecution {
    pub execution_id: u128,
    pub migration_id: String,
    pub status: ExecutionStatus,
    /// Milliseconds since the Unix epoch.
    pub started_at: i64,
    /// Milliseconds since the Unix epoch.
    pub completed_at: Option<i64>,
    pub error_message: Option<String>,
    pub duration_ms: Option<u64>,
    pub executed_by: String,
    pub environment: String,
}

/// Where an execution stands.
#[derive(Debug, Clone, Copy, PartialEq, Eq, Structural)]
pub enum ExecutionStatus {
    Pending,
    Running,
    Completed,
    Failed,
    RolledBack,
}

/// Whether a migration is safe to deploy, with its issues.
#[derive(Debug)]
pub struct MigrationSafetyReport {
    pub migration_id: String,
    pub safe: bool,
    pub issues: Vec<MigrationIssue>,
    pub replay_compatible: bool,
    pub rollback_available: bool,
}

/// A problem with a migration.
#[derive(Debug)]
pub struct MigrationIssue {
    pub severity: IssueSeverity,
    pub message: String,
    pub remediation: Option<String>,
}

/// How grave a migration issue is.
#[derive(Debug, Clone, Copy, PartialEq, Eq, Structural)]
pub enum IssueSeverity {
    Info,
    Warning,
    Blocker,
}

/// Governance for the database migrations of the sovereign architecture.
pub struct MigrationGovernance {
    migrations: KeyedStore<MigrationRecord>,
    migration_policies: Vec<MigrationPolicy>,
    execution_history: Vec<MigrationExecution>,
}

/// The view of an issue: severity, message and remediation.
pub open spec fn issue_view(i: MigrationIssue) -> (IssueSeverity, Seq<char>, Option<Seq<char>>) {
    (i.severity, i.message@, match i.remediation { Some(r) => Some(r@), None => None })
}

/// The views of a list of issues.
pub open spec fn issues_view(v: Seq<MigrationIssue>) -> Seq<(IssueSeverity, Seq<char>, Option<Seq<char>>)> {
    v.map_values(|i: MigrationIssue| issue_view(i))
}

/// The issues one policy finds with migration `m` named `id`: a missing rollback script,
/// a migration not replay-safe, one not reviewed and one not approved, each when the
/// policy requires it.
pub open spec fn policy_issues(p: MigrationPolicy, m: MigrationRecord, id: Seq<char>) -> Seq<(IssueSeverity, Seq<char>, Option<Seq<char>>)> {
    (if p.require_rollback && m.rollback_script is None {
        seq![(IssueSeverity::Blocker, "Migration '"@ + id + "' requires a rollback script but none provided"@,
            Some("Provide a rollback script for this migration"@))]
    } else { Seq::empty() })
    + (if p.require_replay_safe && !m.replay_safe {
        seq![(IssueSeverity::Warning, "Migration '"@ + id + "' is not marked replay-safe"@,
            Some("Mark migration as replay-safe or provide replay compatibility proof"@))]
    } else { Seq::empty() })
    + (if p.require_review && !m.reviewed {
        seq![(IssueSeverity::Blocker, "Migration '"@ + id + "' requires review but has not been reviewed"@,
            Some("Schedule migration review before deployment"@))]
    } else { Seq::empty() })
    + (if p.require_approval && m.approved_by is None {
        seq![(IssueSeverity::Blocker, "Migration '"@ + id + "' requires approval but has not been approved"@,
            Some("Obtain approval for this migration"@))]
    } else { Seq::empty() })
}

/// The issues the first `n` policies find, in order.
pub open spec fn policies_issues(ps: Seq<MigrationPolicy>, m: MigrationRecord, id: Seq<char>, n: int) -> Seq<(IssueSeverity, Seq<char>, Option<Seq<char>>)>
    decreases n,
{
    if n <= 0 { Seq::empty() } else { policies_issues(ps, m, id, n - 1) + policy_issues(ps[n - 1], m, id) }
}

/// The first policy requires checksum verification and the migration has no checksum.
pub open spec fn checksum_missing(ps: Seq<MigrationPolicy>, m: MigrationRecord) -> bool {
    ps.len() > 0 && ps[0].require_checksum_verification && m.checksum@.len() == 0
}

/// All issues of migration `id`: those of the policies, then a missing checksum; an
/// unregistered migration has the one blocker of not being registered.
pub open spec fn migration_issues(ms: Seq<(String, MigrationRecord)>, ps: Seq<MigrationPolicy>, id: Seq<char>) -> Seq<(IssueSeverity, Seq<char>, Option<Seq<char>>)> {
    match lookup(ms, id) {
        Some(m) => policies_issues(ps, m, id, ps.len() as int) + (if checksum_missing(ps, m) {
            seq![(IssueSeverity::Warning, "Migration '"@ + id + "' has no checksum for integrity verification"@,
                Some("Generate and attach a SHA-256 checksum"@))]
        } else { Seq::empty() }),
        None => seq![(IssueSeverity::Blocker, "Migration '"@ + id + "' is not registered in the migration registry"@,
            Some("Register the migration before attempting deployment"@))],
    }
}

/// No issue of the list blocks.
pub open spec fn no_blockers(v: Seq<(IssueSeverity, Seq<char>, Option<Seq<char>>)>) -> bool {
    forall|i: int| 0 <= i < v.len() ==> (#[trigger] v[i]).0 != IssueSeverity::Blocker
}

/// Whether migration `id` has been executed to completion.
pub open spec fn completed(history: Seq<MigrationExecution>, id: Seq<char>) -> bool {
    exists|i: int| 0 <= i < history.len() && (#[trigger] history[i]).status == ExecutionStatus::Completed
        && history[i].migration_id@ == id
}

/// The migrations among the first `n` registered that have not been completed, in order.
pub open spec fn pending_among(ms: Seq<(String, MigrationRecord)>, history: Seq<MigrationExecution>, n: int) -> Seq<MigrationRecord>
    decreases n,
{
    if n <= 0 {
        Seq::empty()
    } else if completed(history, ms[n - 1].1.migration_id@) {
        pending_among(ms, history, n - 1)
    } else {
        pending_among(ms, history, n - 1).push(ms[n - 1].1)
    }
}

fn issue(severity: IssueSeverity, a: &str, b: &str, c: &str, remediation: &str) -> (r: MigrationIssue)
    ensures
        issue_view(r) == (severity, a@ + b@ + c@, Some(remediation@)),
{
    MigrationIssue { severity, message: cat3(a, b, c), remediation: Some(owned(remediation)) }
}

impl MigrationGovernance {
    /// The registered migrations by identifier.
    pub closed spec fn migrations(&self) -> Seq<(String, MigrationRecord)> {
        self.migrations.entries()
    }

    /// The migration policies, in registration order.
    pub closed spec fn policies(&self) -> Seq<MigrationPolicy> {
        self.migration_policies@
    }

    /// The executions, in the order recorded.
    pub closed spec fn history(&self) -> Seq<MigrationExecution> {
        self.execution_history@
    }

    /// Empty governance.
    pub fn new() -> (r: Self)
        ensures
            r.migrations().len() == 0,
            r.policies().len() == 0,
            r.history().len() == 0,
    {
        MigrationGovernance { migrations: KeyedStore::new(), migration_policies: Vec::new(), execution_history: Vec::new() }
    }

    /// Registers `migration` under its identifier, replacing an earlier one.
    pub fn register_migration(&mut self, migration: MigrationRecord)
        ensures
            final(self).migrations() == stored(old(self).migrations(), migration.migration_id, migration),
            final(self).policies() == old(self).policies(),
            final(self).history() == old(self).history(),
    {
        let id = migration.migration_id.clone();
        self.migrations.insert(id, migration);
    }

    /// Adds a migration policy.
    pub fn register_policy(&mut self, policy: MigrationPolicy)
        ensures
            final(self).policies() == old(self).policies().push(policy),
            final(self).migrations() == old(self).migrations(),
            final(self).history() == old(self).history(),
    {
        self.migration_policies.push(policy);
    }

    /// Validates migration `migration_id` against the policies (see `migration_issues`).
    /// It is safe when no issue blocks, replay-compatible unless a policy found it not
    /// replay-safe or its checksum is missing, and has a rollback when some policy saw its
    /// rollback script.
    pub fn validate_migration(&self, migration_id: &str) -> (r: MigrationSafetyReport)
        ensures
            r.migration_id@ == migration_id@,
            issues_view(r.issues@) == migration_issues(self.migrations(), self.policies(), migration_id@),
            r.safe == no_blockers(issues_view(r.issues@)),
            r.replay_compatible == (match lookup(self.migrations(), migration_id@) {
                Some(m) => (!(exists|i: int| 0 <= i < self.policies().len() && (#[trigger] self.policies()[i]).require_replay_safe)
                    || m.replay_safe) && !checksum_missing(self.policies(), m),
                None => true,
            }),
            r.rollback_available == (match lookup(self.migrations(), migration_id@) {
                Some(m) => m.rollback_script is Some && self.policies().len() > 0,
                None => false,
            }),
    {
        let mut issues: Vec<MigrationIssue> = Vec::new();
        let mut replay_compatible = true;
        let mut rollback_available = false;
        match self.migrations.get(migration_id) {
            Some(m) => {
                let n = self.migration_policies.len();
                for i in 0..n
                    invariant
                        n == self.migration_policies@.len(),
                        lookup(self.migrations(), migration_id@) == Some(*m),
                        issues_view(issues@) == policies_issues(self.migration_policies@, *m, migration_id@, i as int),
                        replay_compatible == (!(exists|j: int| 0 <= j < i && (#[trigger] self.migration_policies@[j]).require_replay_safe)
                            || m.replay_safe),
                        rollback_available == (m.rollback_script is Some && i > 0),
                {
                    let policy = &self.migration_policies[i];
                    let ghost before = issues_view(issues@);
                    if policy.require_rollback && m.rollback_script.is_none() {
                        issues.push(issue(IssueSeverity::Blocker, "Migration '", migration_id,
                            "' requires a rollback script but none provided", "Provide a rollback script for this migration"));
                    } else if m.rollback_script.is_some() {
                        rollback_available = true;
                    }
                    let ghost s1 = issues_view(issues@);
                    if policy.require_replay_safe && !m.replay_safe {
                        issues.push(issue(IssueSeverity::Warning, "Migration '", migration_id,
                            "' is not marked replay-safe", "Mark migration as replay-safe or provide replay compatibility proof"));
                        replay_compatible = false;
                    }
                    let ghost s2 = issues_view(issues@);
                    if policy.require_review && !m.reviewed {
                        issues.push(issue(IssueSeverity::Blocker, "Migration '", migration_id,
                            "' requires review but has not been reviewed", "Schedule migration review before deployment"));
                    }
                    let ghost s3 = issues_view(issues@);
                    if policy.require_approval && m.approved_by.is_none() {
                        issues.push(issue(IssueSeverity::Blocker, "Migration '", migration_id,
                            "' requires approval but has not been approved", "Obtain approval for this migration"));
                    }
                    proof {
                        let f = policy_issues(self.migration_policies@[i as int], *m, migration_id@);
                        assert(issues_view(issues@) =~= before + f);
                        assert(policies_issues(self.migration_policies@, *m, migration_id@, i + 1) == before + f);
                        if policy.require_replay_safe {
                            assert(self.migration_policies@[i as int].require_replay_safe);
                        }
                    }
                    assert(issues_view(issues@) =~= policies_issues(self.migration_policies@, *m, migration_id@, i + 1));
                }
                let ghost before = issues_view(issues@);
                if n > 0 {
                    if self.migration_policies[0].require_checksum_verification && m.checksum.len() == 0 {
                        issues.push(issue(IssueSeverity::Warning, "Migration '", migration_id,
                            "' has no checksum for integrity verification", "Generate and attach a SHA-256 checksum"));
                        replay_compatible = false;
                    }
                }
                assert(issues_view(issues@) =~= migration_issues(self.migrations(), self.policies(), migration_id@));
            },
            None => {
                issues.push(issue(IssueSeverity::Blocker, "Migration '", migration_id,
                    "' is not registered in the migration registry", "Register the migration before attempting deployment"));
                assert(issues_view(issues@) =~= migration_issues(self.migrations(), self.policies(), migration_id@));
            },
        }
        let k = issues.len();
        let mut safe = true;
        for i in 0..k
            invariant
                k == issues@.len(),
                safe == (forall|j: int| 0 <= j < i ==> (#[trigger] issues_view(issues@)[j]).0 != IssueSeverity::Blocker),
        {
            assert(issues_view(issues@)[i as int].0 == issues@[i as int].severity);
            if issues[i].severity == IssueSeverity::Blocker {
                safe = false;
            }
        }
        MigrationSafetyReport { migration_id: owned(migration_id), safe, issues, replay_compatible, rollback_available }
    }

    /// Records an execution.
    pub fn record_execution(&mut self, execution: MigrationExecution)
        ensures
            final(self).history() == old(self).history().push(execution),
            final(self).migrations() == old(self).migrations(),
            final(self).policies() == old(self).policies(),
    {
        self.execution_history.push(execution);
    }

    /// The migration registered under `migration_id`.
    pub fn get_migration(&self, migration_id: &str) -> (r: Option<&MigrationRecord>)
        ensures
            match r {
                Some(m) => lookup(self.migrations(), migration_id@) == Some(*m),
                None => lookup(self.migrations(), migration_id@) is None,
            },
    {
        self.migrations.get(migration_id)
    }

    /// The registered migrations not yet executed to completion, in registration order.
    pub fn list_pending_migrations(&self) -> (r: Vec<&MigrationRecord>)
        ensures
            derefs(r@) == pending_among(self.migrations(), self.history(), self.migrations().len() as int),
    {
        let all = self.migrations.values();
        let n = all.len();
        let h = self.execution_history.len();
        let mut r: Vec<&MigrationRecord> = Vec::new();
        for i in 0..n
            invariant
                n == all@.len(),
                n == self.migrations().len(),
                h == self.execution_history@.len(),
                forall|q: int| 0 <= q < n ==> *all@[q] == (#[trigger] self.migrations()[q]).1,
                derefs(r@) == pending_among(self.migrations(), self.history(), i as int),
        {
            let m = all[i];
            let mut done = false;
            let mut j: usize = 0;
            while j < h && !done
                invariant
                    h == self.execution_history@.len(),
                    j <= h,
                    !done ==> forall|q: int| 0 <= q < j ==> !((#[trigger] self.execution_history@[q]).status == ExecutionStatus::Completed
                        && self.execution_history@[q].migration_id@ == m.migration_id@),
                    done ==> completed(self.execution_history@, m.migration_id@),
                decreases h - j + (if done { 0int } else { 1int }),
            {
                let e = &self.execution_history[j];
                if e.status == ExecutionStatus::Completed && str_eq(e.migration_id.as_str(), m.migration_id.as_str()) {
                    assert(self.execution_history@[j as int].migration_id@ == m.migration_id@);
                    done = true;
                } else {
                    j = j + 1;
                }
            }
            let ghost before = derefs(r@);
            if !done {
                r.push(m);
                assert(derefs(r@) =~= before.push(*m));
            }
        }
        r
    }

    /// The executions, in the order recorded.
    pub fn get_execution_history(&self) -> (r: &[MigrationExecution])
        ensures
            r@ == self.history(),
    {
        self.execution_history.as_slice()
    }
}

impl Default for MigrationGovernance {
    /// The same as `MigrationGovernance::new()`.
    fn default() -> (r: Self)
        ensures
            r.migrations().len() == 0,
            r.policies().len() == 0,
            r.history().len() == 0,
    {
        Self::new()
    }
}

} // verus!
