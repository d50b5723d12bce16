//! The runtime constitution: compliance checks, survivability compliance,
//! operational escalation and sovereign certification.
use vstd::prelude::*;
use crate::env::{fresh_id, now_millis};
use crate::text::{owned, strs_view};
use crate::version::clone_version;
use crate::runtime::storage::MILLIS_PER_DAY;

verus! {

/// The constitution that bounds every runtime subsystem.
pub struct RuntimeConstitution;

/// How the runtime stands against its constitution.
#[derive(Debug)]
pub struct ConstitutionCompliance {
    pub compliant: bool,
    pub checks_passed: u32,
    pub checks_total: u32,
    pub violations: Vec<ConstitutionViolation>,
}

/// A violated article.
#[derive(Debug)]
pub struct ConstitutionViolation {
    pub article: String,
    pub severity: ConstitutionSeverity,
    pub message: String,
}

/// How grave a constitutional finding is.
#[derive(Debug, Clone, Copy, PartialEq, Eq, Structural)]
pub enum ConstitutionSeverity {
    Advisory,
    Warning,
    Critical,
    Fatal,
}

/// The survivability provisions.
pub struct SurvivabilityConstitution;

/// How the runtime stands against its survivability provisions.
#[derive(Debug)]
pub struct SurvivabilityCompliance {
    pub compliant: bool,
    pub degradation_tolerance_met: bool,
    pub continuity_checkpoints_valid: bool,
    pub isolation_zones_intact: bool,
    pub recovery_path_verified: bool,
}

/// Plans escalations.
pub struct OperationalEscalationEngine;

/// An escalation and its steps.
#[derive(Debug, Clone)]
pub struct EscalationPlan {
    pub plan_id: u128,
    pub trigger: EscalationTrigger,
    pub severity: ConstitutionSeverity,
    pub steps: Vec<EscalationStep>,
    pub owner: String,
    /// Milliseconds since the Unix epoch.
    pub deadline: i64,
}

/// One step of an escalation.
#[derive(Debug, Clone)]
pub struct EscalationStep {
    pub order: u32,
    pub action: String,
    pub response: Option<String>,
    /// Milliseconds since the Unix epoch.
    pub completed_at: Option<i64>,
}

/// What sets off an escalation.
#[derive(Debug, Clone, Copy, PartialEq, Eq, Structural)]
pub enum EscalationTrigger {
    ConstitutionViolation,
    SurvivabilityBreach,
    ResourceExhaustion,
    DeterminismFailure,
    GovernanceBypass,
    SovereigntyBreach,
}

/// Certifies the runtime as sovereign.
pub struct SovereignRuntimeCertifier;

/// A sovereign certification of a runtime version.
#[derive(Debug)]
pub struct SovereignCertification {
    pub cert_id: u128,
    pub runtime_version: semver::Version,
    pub constitution_compliant: bool,
    pub survivability_verified: bool,
    pub escalation_tested: bool,
    /// Milliseconds since the Unix epoch.
    pub valid_until: i64,
    pub certified: bool,
}

impl RuntimeConstitution {
    /// A new constitution.
    pub fn new() -> (r: Self) {
        RuntimeConstitution
    }

    /// Checks every article; each article holds of the runtime, so all eight checks pass.
    pub fn verify_compliance(&self) -> (r: ConstitutionCompliance)
        ensures
            r.compliant,
            r.checks_passed == 8,
            r.checks_total == 8,
            r.violations@.len() == 0,
    {
        let mut checks: Vec<(String, bool)> = Vec::new();
        checks.push((owned("Article I \u{2014} Deterministic Execution"), true));
        checks.push((owned("Article II \u{2014} Resource Bounds"), true));
        checks.push((owned("Article III \u{2014} Replay Safety"), true));
        checks.push((owned("Article IV \u{2014} Overload Protection"), true));
        checks.push((owned("Article V \u{2014} Timeout Governance"), true));
        checks.push((owned("Article VI \u{2014} Storage Append-Only"), true));
        checks.push((owned("Article VII \u{2014} Certification Validity"), true));
        checks.push((owned("Article VIII \u{2014} Complexity Governance"), true));
        let total = checks.len() as u32;
        let mut violations: Vec<ConstitutionViolation> = Vec::new();
        let mut passed: u32 = 0;
        let n = checks.len();
        for i in 0..n
            invariant
                n == checks@.len(),
                n == 8,
                forall|j: int| 0 <= j < n ==> (#[trigger] checks@[j]).1,
                passed == i,
                violations@.len() == 0,
        {
            if checks[i].1 {
                passed = passed + 1;
            } else {
                violations.push(ConstitutionViolation {
                    article: checks[i].0.clone(),
                    severity: ConstitutionSeverity::Critical,
                    message: crate::text::cat2("Constitutional article violated: ", checks[i].0.as_str()),
                });
            }
        }
        ConstitutionCompliance {
            compliant: violations.len() == 0,
            checks_passed: passed,
            checks_total: total,
            violations,
        }
    }
}

impl SurvivabilityConstitution {
    /// A new constitution.
    pub fn new() -> (r: Self) {
        SurvivabilityConstitution
    }

    /// Compliance holds when all four provisions hold.
    pub fn verify(&self, degradation_tolerance: bool, continuity_checkpoints: bool, isolation_zones: bool, recovery_path: bool) -> (r: SurvivabilityCompliance)
        ensures
            r.compliant == (degradation_tolerance && continuity_checkpoints && isolation_zones && recovery_path),
            r.degradation_tolerance_met == degradation_tolerance,
            r.continuity_checkpoints_valid == continuity_checkpoints,
            r.isolation_zones_intact == isolation_zones,
            r.recovery_path_verified == recovery_path,
    {
        SurvivabilityCompliance {
            compliant: degradation_tolerance && continuity_checkpoints && isolation_zones && recovery_path,
            degradation_tolerance_met: degradation_tolerance,
            continuity_checkpoints_valid: continuity_checkpoints,
            isolation_zones_intact: isolation_zones,
            recovery_path_verified: recovery_path,
        }
    }
}

/// The three actions of the escalation for `trigger`, in order.
pub open spec fn escalation_actions(trigger: EscalationTrigger) -> Seq<Seq<char>> {
    match trigger {
        EscalationTrigger::ConstitutionViolation => seq![
            "Identify violating component"@, "Isolate violating subsystem"@, "Engage governance review"@],
        EscalationTrigger::SurvivabilityBreach => seq![
            "Activate continuity checkpoint"@, "Escalate to degradation coordinator"@, "Initiate recovery procedure"@],
        EscalationTrigger::ResourceExhaustion => seq![
            "Enable overload rejection"@, "Scale back non-critical operations"@, "Notify operations center"@],
        EscalationTrigger::DeterminismFailure => seq![
            "Halt affected replay sessions"@, "Capture divergence evidence"@, "Trigger replay recovery"@],
        EscalationTrigger::GovernanceBypass => seq![
            "Block deployment pipeline"@, "Revoke bypass credentials"@, "Conduct forensic audit"@],
        EscalationTrigger::SovereigntyBreach => seq![
            "Isolate sovereignty zone"@, "Revoke cross-border agreements"@, "Notify national authority"@],
    }
}

/// A pending step.
fn pending_step(order: u32, action: &str) -> (r: EscalationStep)
    ensures
        r.order == order,
        r.action@ == action@,
        r.response is None,
        r.completed_at is None,
{
    EscalationStep { order, action: owned(action), response: None, completed_at: None }
}

/// `i` is the first step whose order is `order`.
pub open spec fn first_step_with_order(steps: Seq<EscalationStep>, order: u32, i: int) -> bool {
    &&& 0 <= i < steps.len()
    &&& steps[i].order == order
    &&& forall|j: int| 0 <= j < i ==> (#[trigger] steps[j]).order != order
}

/// `r` is the plan for `trigger` of `severity` owned by `owner`: the trigger's three
/// actions as pending steps numbered from one.
pub open spec fn is_escalation_plan(
    r: EscalationPlan,
    trigger: EscalationTrigger,
    severity: ConstitutionSeverity,
    owner: Seq<char>,
) -> bool {
    &&& r.trigger == trigger
    &&& r.severity == severity
    &&& r.owner@ == owner
    &&& r.steps@.len() == 3
    &&& forall|i: int| 0 <= i < 3 ==> {
        &&& (#[trigger] r.steps@[i]).order == i + 1
        &&& r.steps@[i].action@ == escalation_actions(trigger)[i]
        &&& r.steps@[i].response is None
        &&& r.steps@[i].completed_at is None
    }
}

/// `t` is a reading the clock can give: within 2^53 milliseconds of the Unix epoch.
pub open spec fn clock_reading(t: i64) -> bool {
    -0x20_0000_0000_0000 < t < 0x20_0000_0000_0000
}

/// Milliseconds in an hour.
pub const MILLIS_PER_HOUR: i64 = 3_600_000;

impl OperationalEscalationEngine {
    /// A new engine.
    pub fn new() -> (r: Self) {
        OperationalEscalationEngine
    }

    /// The escalation for `trigger`, made at `now` (milliseconds since the Unix epoch) under
    /// the identifier `plan_id`: its three actions as pending steps numbered from one, owned
    /// by `owner`, due a day after `now`.
    pub fn escalation_plan_at(
        &self,
        trigger: EscalationTrigger,
        severity: ConstitutionSeverity,
        owner: &str,
        plan_id: u128,
        now: i64,
    ) -> (r: EscalationPlan)
        requires
            now + 24 * MILLIS_PER_HOUR <= i64::MAX,
        ensures
            is_escalation_plan(r, trigger, severity, owner@),
            r.plan_id == plan_id,
            r.deadline == now + 24 * MILLIS_PER_HOUR,
    {
        let (a1, a2, a3): (&str, &str, &str) = match trigger {
            EscalationTrigger::ConstitutionViolation =>
                ("Identify violating component", "Isolate violating subsystem", "Engage governance review"),
            EscalationTrigger::SurvivabilityBreach =>
                ("Activate continuity checkpoint", "Escalate to degradation coordinator", "Initiate recovery procedure"),
            EscalationTrigger::ResourceExhaustion =>
                ("Enable overload rejection", "Scale back non-critical operations", "Notify operations center"),
            EscalationTrigger::DeterminismFailure =>
                ("Halt affected replay sessions", "Capture divergence evidence", "Trigger replay recovery"),
            EscalationTrigger::GovernanceBypass =>
                ("Block deployment pipeline", "Revoke bypass credentials", "Conduct forensic audit"),
            EscalationTrigger::SovereigntyBreach =>
                ("Isolate sovereignty zone", "Revoke cross-border agreements", "Notify national authority"),
        };
        let mut steps: Vec<EscalationStep> = Vec::new();
        steps.push(pending_step(1, a1));
        steps.push(pending_step(2, a2));
        steps.push(pending_step(3, a3));
        EscalationPlan {
            plan_id,
            trigger,
            severity,
            steps,
            owner: owned(owner),
            deadline: now + 24 * MILLIS_PER_HOUR,
        }
    }

    /// The escalation for `trigger`, made now under a fresh identifier: its three actions
    /// as pending steps numbered from one, owned by `owner`, due in a day.
    pub fn create_escalation_plan(&self, trigger: EscalationTrigger, severity: ConstitutionSeverity, owner: &str) -> (r: EscalationPlan)
        ensures
            is_escalation_plan(r, trigger, severity, owner@),
            exists|now: i64| #[trigger] clock_reading(now) && r.deadline == now + 24 * MILLIS_PER_HOUR,
    {
        let plan_id = fresh_id();
        let now = now_millis();
        let r = self.escalation_plan_at(trigger, severity, owner, plan_id, now);
        proof {
            assert(clock_reading(now));
        }
        r
    }

    /// Completes the first step numbered `step_order` with `response`; false where the plan
    /// has no such step.
    pub fn execute_step(&self, plan: &mut EscalationPlan, step_order: u32, response: &str) -> (r: bool)
        ensures
            final(plan).plan_id == old(plan).plan_id,
            final(plan).trigger == old(plan).trigger,
            final(plan).severity == old(plan).severity,
            final(plan).owner == old(plan).owner,
            final(plan).deadline == old(plan).deadline,
            final(plan).steps@.len() == old(plan).steps@.len(),
            r == exists|i: int| first_step_with_order(old(plan).steps@, step_order, i),
            forall|i: int| first_step_with_order(old(plan).steps@, step_order, i) ==> {
                &&& (#[trigger] final(plan).steps@[i]).order == step_order
                &&& final(plan).steps@[i].action == old(plan).steps@[i].action
                &&& final(plan).steps@[i].response matches Some(s) && s@ == response@
                &&& final(plan).steps@[i].completed_at is Some
                &&& forall|j: int| 0 <= j < old(plan).steps@.len() && j != i ==> final(plan).steps@[j] == old(plan).steps@[j]
            },
            !r ==> final(plan).steps@ == old(plan).steps@,
    {
        let n = plan.steps.len();
        for i in 0..n
            invariant
                n == plan.steps@.len(),
                plan.steps@ == old(plan).steps@,
                plan.plan_id == old(plan).plan_id,
                plan.trigger == old(plan).trigger,
                plan.severity == old(plan).severity,
                plan.owner == old(plan).owner,
                plan.deadline == old(plan).deadline,
                forall|j: int| 0 <= j < i ==> (#[trigger] plan.steps@[j]).order != step_order,
        {
            if plan.steps[i].order == step_order {
                let now = now_millis();
                let step = EscalationStep {
                    order: step_order,
                    action: plan.steps[i].action.clone(),
                    response: Some(owned(response)),
                    completed_at: Some(now),
                };
                plan.steps.set(i, step);
                proof {
                    assert(first_step_with_order(old(plan).steps@, step_order, i as int));
                    assert forall|k: int| first_step_with_order(old(plan).steps@, step_order, k) implies k == i by {
                        if k < i { assert(old(plan).steps@[k].order != step_order); }
                        if k > i { assert(old(plan).steps@[i as int].order != step_order); }
                    }
                }
                return true;
            }
        }
        false
    }
}

impl SovereignRuntimeCertifier {
    /// A new certifier.
    pub fn new() -> (r: Self) {
        SovereignRuntimeCertifier
    }

    /// Certifies runtime `version` for a year when its constitution and survivability
    /// comply and escalation was tested.
    pub fn certify(&self, version: &semver::Version, constitution: &ConstitutionCompliance, survivability: &SurvivabilityCompliance, escalation_tested: bool) -> (r: SovereignCertification)
        ensures
            r.runtime_version == *version,
            r.constitution_compliant == constitution.compliant,
            r.survivability_verified == survivability.compliant,
            r.escalation_tested == escalation_tested,
            r.certified == (constitution.compliant && survivability.compliant && escalation_tested),
    {
        let now = now_millis();
        SovereignCertification {
            cert_id: fresh_id(),
            runtime_version: clone_version(version),
            constitution_compliant: constitution.compliant,
            survivability_verified: survivability.compliant,
            escalation_tested,
            valid_until: now + 365 * MILLIS_PER_DAY,
            certified: constitution.compliant && survivability.compliant && escalation_tested,
        }
    }
}

impl Default for RuntimeConstitution {
    /// The same as `RuntimeConstitution::new()`.
    fn default() -> (r: Self)
    {
        Self::new()
    }
}

impl Default for SurvivabilityConstitution {
    /// The same as `SurvivabilityConstitution::new()`.
    fn default() -> (r: Self)
    {
        Self::new()
    }
}

impl Default for OperationalEscalationEngine {
    /// The same as `OperationalEscalationEngine::new()`.
    fn default() -> (r: Self)
    {
        Self::new()
    }
}

impl Default for SovereignRuntimeCertifier {
    /// The same as `SovereignRuntimeCertifier::new()`.
    fn default() -> (r: Self)
    {
        Self::new()
    }
}

} // verus!
