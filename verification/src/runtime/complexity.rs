//! Complexity governance: module and dependency budgets, lifecycle expiration and
//! governance overrides.
use vstd::prelude::*;
use crate::env::{fresh_id, now_millis};
use crate::text::{cat4, owned, u64_text, decimal, strs_view};
use crate::runtime::storage::MILLIS_PER_DAY;

verus! {

/// Governs complexity budgets.
pub struct ComplexityGovernor;

/// The module and dependency limits of a domain's complexity budget.
#[derive(Debug, Clone)]
pub struct ComplexityBudget {
    pub budget_id: u128,
    pub domain: String,
    pub max_modules: u32,
    pub max_dependencies: u32,
    pub expiration_days: u64,
}

/// A domain's module and dependency counts checked against its budget.
#[derive(Debug)]
pub struct ComplexityReport {
    pub domain: String,
    pub current_modules: u32,
    pub current_dependencies: u32,
    pub within_budget: bool,
    pub violations: Vec<String>,
}

/// The findings for `modules` modules and `deps` dependencies against limits of
/// `max_modules` and `max_dependencies`, modules first.
pub open spec fn budget_findings(modules: u32, deps: u32, max_modules: u32, max_dependencies: u32) -> Seq<Seq<char>> {
    (if modules > max_modules {
        seq!["Module count "@ + decimal(modules as nat) + " exceeds budget "@ + decimal(max_modules as nat)]
    } else {
        Seq::<Seq<char>>::empty()
    }) + (if deps > max_dependencies {
        seq!["Dependency count "@ + decimal(deps as nat) + " exceeds budget "@ + decimal(max_dependencies as nat)]
    } else {
        Seq::<Seq<char>>::empty()
    })
}

/// Scores architectural entropy.
pub struct EntropyScoringEngine;

/// The direction in which entropy moves.
#[derive(Debug, Clone, Copy, PartialEq, Eq, Structural)]
pub enum EntropyTrend {
    Declining,
    Stable,
    Increasing,
    Critical,
}

/// Checks module budgets.
pub struct ModuleBudgetEngine;

/// The module count of a domain against its budget.
#[derive(Debug)]
pub struct ModuleBudgetState {
    pub domain: String,
    pub module_count: u32,
    pub budget: u32,
    pub remaining: u32,
    pub over_budget: bool,
}

/// Checks dependency budgets.
pub struct DependencyBudgetEngine;

/// The dependency count of a module against its budget.
#[derive(Debug)]
pub struct DependencyBudgetState {
    pub module: String,
    pub dependency_count: u32,
    pub budget: u32,
    pub remaining: u32,
    pub violations: Vec<String>,
}

/// Assesses module lifecycles.
pub struct LifecycleExpirationEngine;

/// The lifecycle of a module.
#[derive(Debug)]
pub struct LifecycleState {
    pub module: String,
    /// Milliseconds since the Unix epoch.
    pub created_at: i64,
    /// Milliseconds since the Unix epoch.
    pub last_validated: i64,
    pub expiration_days: u64,
    pub expired: bool,
    pub status: LifecycleStatus,
}

/// Where a module is in its lifecycle.
#[derive(Debug, Clone, Copy, PartialEq, Eq, Structural)]
pub enum LifecycleStatus {
    Active,
    Expiring,
    Expired,
    Archived,
    Frozen,
}

/// Records governance overrides.
pub struct GovernanceOverrideAudit;

/// A granted override of a policy.
#[derive(Debug)]
pub struct OverrideRecord {
    pub override_id: u128,
    pub policy: String,
    pub granted_by: String,
    pub reason: String,
    /// Milliseconds since the Unix epoch.
    pub granted_at: i64,
    /// Milliseconds since the Unix epoch.
    pub expires_at: i64,
    pub revoked: bool,
}

impl ComplexityGovernor {
    /// A new governor.
    pub fn new() -> (r: Self) {
        ComplexityGovernor
    }

    /// A budget for `domain`, under a fresh identifier, allowing `modules` modules and
    /// `deps` dependencies and expiring after a year.
    pub fn create_budget(domain: &str, modules: u32, deps: u32) -> (r: ComplexityBudget)
        ensures
            r.domain@ == domain@,
            r.max_modules == modules,
            r.max_dependencies == deps,
            r.expiration_days == 365,
    {
        ComplexityBudget {
            budget_id: fresh_id(),
            domain: owned(domain),
            max_modules: modules,
            max_dependencies: deps,
            expiration_days: 365,
        }
    }

    /// Checks `current_modules` and `current_deps` against `budget`: each count over its
    /// limit is a finding, and the domain is within budget when there is none.
    pub fn check_budget(&self, budget: &ComplexityBudget, current_modules: u32, current_deps: u32) -> (r: ComplexityReport)
        ensures
            r.domain@ == budget.domain@,
            r.current_modules == current_modules,
            r.current_dependencies == current_deps,
            strs_view(r.violations@) == budget_findings(current_modules, current_deps, budget.max_modules, budget.max_dependencies),
            r.within_budget == (current_modules <= budget.max_modules && current_deps <= budget.max_dependencies),
    {
        let mut violations: Vec<String> = Vec::new();
        if current_modules > budget.max_modules {
            violations.push(cat4("Module count ", u64_text(current_modules as u64).as_str(), " exceeds budget ",
                u64_text(budget.max_modules as u64).as_str()));
        }
        if current_deps > budget.max_dependencies {
            violations.push(cat4("Dependency count ", u64_text(current_deps as u64).as_str(), " exceeds budget ",
                u64_text(budget.max_dependencies as u64).as_str()));
        }
        assert(strs_view(violations@) =~= budget_findings(current_modules, current_deps, budget.max_modules, budget.max_dependencies));
        let within_budget = violations.len() == 0;
        ComplexityReport {
            domain: budget.domain.clone(),
            current_modules,
            current_dependencies: current_deps,
            within_budget,
            violations,
        }
    }
}

impl EntropyScoringEngine {
    /// A new engine.
    pub fn new() -> (r: Self) {
        EntropyScoringEngine
    }
}

impl ModuleBudgetEngine {
    /// A new engine.
    pub fn new() -> (r: Self) {
        ModuleBudgetEngine
    }

    /// The module count of `domain` against `budget`.
    pub fn check_budget(domain: &str, count: u32, budget: u32) -> (r: ModuleBudgetState)
        ensures
            r.domain@ == domain@,
            r.module_count == count,
            r.budget == budget,
            r.remaining == if count <= budget { (budget - count) as u32 } else { 0u32 },
            r.over_budget == (count > budget),
    {
        ModuleBudgetState {
            domain: owned(domain),
            module_count: count,
            budget,
            remaining: budget.saturating_sub(count),
            over_budget: count > budget,
        }
    }
}

impl DependencyBudgetEngine {
    /// A new engine.
    pub fn new() -> (r: Self) {
        DependencyBudgetEngine
    }

    /// The dependency count of `module` against `budget`, with a finding when it is exceeded.
    pub fn check_budget(module: &str, count: u32, budget: u32) -> (r: DependencyBudgetState)
        ensures
            r.module@ == module@,
            r.dependency_count == count,
            r.budget == budget,
            r.remaining == if count <= budget { (budget - count) as u32 } else { 0u32 },
            strs_view(r.violations@) == if count > budget {
                seq!["Dependency count "@ + decimal(count as nat) + " exceeds budget "@ + decimal(budget as nat)]
            } else {
                Seq::<Seq<char>>::empty()
            },
    {
        let mut violations: Vec<String> = Vec::new();
        if count > budget {
            violations.push(cat4("Dependency count ", u64_text(count as u64).as_str(), " exceeds budget ", u64_text(budget as u64).as_str()));
        }
        assert(strs_view(violations@) =~= if count > budget {
            seq!["Dependency count "@ + decimal(count as nat) + " exceeds budget "@ + decimal(budget as nat)]
        } else {
            Seq::<Seq<char>>::empty()
        });
        DependencyBudgetState {
            module: owned(module),
            dependency_count: count,
            budget,
            remaining: budget.saturating_sub(count),
            violations,
        }
    }
}

/// Whole days in a span of milliseconds, rounded toward zero.
pub open spec fn whole_days(ms: int) -> int {
    if ms >= 0 { ms / (MILLIS_PER_DAY as int) } else { -((-ms) / (MILLIS_PER_DAY as int)) }
}

/// The age in days of a module created at `created` as seen at `now`, as an unsigned
/// count (a negative age wraps around, as the conversion to an unsigned count does).
pub open spec fn age_days(created: i64, now: i64) -> u64 {
    whole_days(now - created) as u64
}

/// The lifecycle status for an age against an expiration: expired at or after expiry,
/// expiring in the last thirty days before it, active before that.
pub open spec fn lifecycle_status(age: u64, expiration_days: u64) -> LifecycleStatus {
    if age >= expiration_days {
        LifecycleStatus::Expired
    } else if age >= (if expiration_days >= 30 { expiration_days - 30 } else { 0 }) {
        LifecycleStatus::Expiring
    } else {
        LifecycleStatus::Active
    }
}

impl LifecycleExpirationEngine {
    /// A new engine.
    pub fn new() -> (r: Self) {
        LifecycleExpirationEngine
    }

    /// The lifecycle of `module`, created at `created`, as seen now.
    pub fn assess_lifecycle(module: &str, created: i64, expiration_days: u64) -> (r: LifecycleState)
        requires
            -0x20_0000_0000_0000 < created < 0x20_0000_0000_0000,
        ensures
            r.module@ == module@,
            r.created_at == created,
            r.expiration_days == expiration_days,
            r.expired == (age_days(created, r.last_validated) >= expiration_days),
            r.status == lifecycle_status(age_days(created, r.last_validated), expiration_days),
    {
        let now = now_millis();
        Self::assess_lifecycle_at(module, created, expiration_days, now)
    }

    /// The lifecycle of `module`, created at `created`, as seen at `now`.
    pub fn assess_lifecycle_at(module: &str, created: i64, expiration_days: u64, now: i64) -> (r: LifecycleState)
        requires
            -0x20_0000_0000_0000 < created < 0x20_0000_0000_0000,
            -0x20_0000_0000_0000 < now < 0x20_0000_0000_0000,
        ensures
            r.module@ == module@,
            r.created_at == created,
            r.last_validated == now,
            r.expiration_days == expiration_days,
            r.expired == (age_days(created, now) >= expiration_days),
            r.status == lifecycle_status(age_days(created, now), expiration_days),
    {
        let diff = now - created;
        let days: i64 = if diff >= 0 {
            ((diff as u64) / 86_400_000u64) as i64
        } else {
            -((((-diff) as u64) / 86_400_000u64) as i64)
        };
        let age = #[verifier::truncate] (days as u64);
        let expired = age >= expiration_days;
        let status = if expired {
            LifecycleStatus::Expired
        } else if age >= expiration_days.saturating_sub(30) {
            LifecycleStatus::Expiring
        } else {
            LifecycleStatus::Active
        };
        LifecycleState {
            module: owned(module),
            created_at: created,
            last_validated: now,
            expiration_days,
            expired,
            status,
        }
    }
}

impl GovernanceOverrideAudit {
    /// A new audit.
    pub fn new() -> (r: Self) {
        GovernanceOverrideAudit
    }

    /// Records an override of `policy`, granted now for `duration_days` days.
    pub fn record_override(policy: &str, granted_by: &str, reason: &str, duration_days: u64) -> (r: OverrideRecord)
        requires
            duration_days <= 100_000_000,
        ensures
            r.policy@ == policy@,
            r.granted_by@ == granted_by@,
            r.reason@ == reason@,
            r.expires_at - r.granted_at == duration_days * MILLIS_PER_DAY,
            !r.revoked,
    {
        let now = now_millis();
        OverrideRecord {
            override_id: fresh_id(),
            policy: owned(policy),
            granted_by: owned(granted_by),
            reason: owned(reason),
            granted_at: now,
            expires_at: now + (duration_days as i64) * MILLIS_PER_DAY,
            revoked: false,
        }
    }
}

impl Default for ComplexityGovernor {
    /// The same as `ComplexityGovernor::new()`.
    fn default() -> (r: Self)
    {
        Self::new()
    }
}

impl Default for EntropyScoringEngine {
    /// The same as `EntropyScoringEngine::new()`.
    fn default() -> (r: Self)
    {
        Self::new()
    }
}

impl Default for ModuleBudgetEngine {
    /// The same as `ModuleBudgetEngine::new()`.
    fn default() -> (r: Self)
    {
        Self::new()
    }
}

impl Default for DependencyBudgetEngine {
    /// The same as `DependencyBudgetEngine::new()`.
    fn default() -> (r: Self)
    {
        Self::new()
    }
}

impl Default for LifecycleExpirationEngine {
    /// The same as `LifecycleExpirationEngine::new()`.
    fn default() -> (r: Self)
    {
        Self::new()
    }
}

impl Default for GovernanceOverrideAudit {
    /// The same as `GovernanceOverrideAudit::new()`.
    fn default() -> (r: Self)
    {
        Self::new()
    }
}

} // verus!
