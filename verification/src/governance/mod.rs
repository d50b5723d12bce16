//! Governance: policy results shared by the architecture, federation, sovereignty
//! and boundary registries, and the engine that evaluates policies.
use vstd::prelude::*;
use crate::text::{strs_view, pairs_view, owned, cat2, cat3, cat4, cat5, u64_text, decimal};
use crate::env::now_millis;
use crate::store::lookup;

pub mod federation;
pub mod registry;
pub mod sovereignty;
pub mod sovereignty_ext;
pub mod validator;
pub mod deployment;
pub mod migration;
pub mod compatibility;
pub mod replay;
pub mod schema;
pub mod analyzer;
pub mod event_registry;
pub mod schema_evolution;

verus! {

/// How strictly governance findings are enforced.
#[derive(Debug, Clone, Copy, PartialEq, Eq, Structural)]
pub enum EnforcementMode {
    LogOnly,
    WarnOnly,
    Enforce,
    StrictEnforce,
}

/// Severity of a governance policy or violation.
#[derive(Debug, Clone, Copy, PartialEq, Eq, Structural)]
pub enum PolicySeverity {
    Info,
    Warning,
    Error,
    Critical,
}

/// The decision recorded for an evaluated action.
#[derive(Debug, Clone)]
pub enum GovernanceDecision {
    Allowed,
    Denied(String),
    Warning(String),
    Logged,
}

/// The actor, action and target a governance evaluation is about.
#[derive(Debug, Clone)]
pub struct GovernanceContext {
    pub actor: String,
    pub action: String,
    pub target: String,
    pub parameters: Vec<(String, String)>,
}

/// A violated policy, with its context and suggested remediations.
#[derive(Debug, Clone)]
pub struct GovernanceViolation {
    pub policy_id: u128,
    pub policy_name: String,
    pub severity: PolicySeverity,
    pub message: String,
    pub context: Vec<(String, String)>,
    pub remediations: Vec<String>,
}

/// The outcome of checking one policy.
#[derive(Debug, Clone)]
pub enum PolicyEvalResult {
    Pass,
    Violation(GovernanceViolation),
    Warning(String),
}

/// `v` is the violation with nil policy id and the given name, severity, message,
/// context and remediations.
pub open spec fn violation_is(
    v: GovernanceViolation,
    name: Seq<char>,
    severity: PolicySeverity,
    message: Seq<char>,
    context: Seq<(Seq<char>, Seq<char>)>,
    remediations: Seq<Seq<char>>,
) -> bool {
    &&& v.policy_id == 0
    &&& v.policy_name@ == name
    &&& v.severity == severity
    &&& v.message@ == message
    &&& pairs_view(v.context@) == context
    &&& strs_view(v.remediations@) == remediations
}

} // verus!

verus! {

/// What a governance policy checks.
#[derive(Debug, Clone)]
pub enum PolicyRule {
    NoCrossContextDependency(String, String),
    RequiredInterface(String, String),
    ForbiddenDependency(String, String),
    /// The greatest allowed coupling score of the context's target, in thousandths.
    MaxCouplingScore(u64),
    MandatoryOwner(String),
    SchemaEvolutionRule(String, schema::EvolutionRule),
    MigrationSafetyRule(String),
    ReplayDeterminism(String),
    FederationBoundary(String, String),
    DeploymentTag(String, String),
    SovereigntyResidency(String, Vec<String>),
}

/// A governance policy.
#[derive(Debug, Clone)]
pub struct GovernancePolicy {
    pub policy_id: u128,
    pub name: String,
    pub description: String,
    pub severity: PolicySeverity,
    pub rule: PolicyRule,
    pub enabled: bool,
}

/// A logged governance decision.
#[derive(Debug, Clone)]
pub struct GovernanceAuditEntry {
    /// Milliseconds since the Unix epoch.
    pub timestamp: i64,
    pub actor: String,
    pub action: String,
    pub target: String,
    pub decision: GovernanceDecision,
    pub details: String,
}

/// The outcome of evaluating the enabled policies.
#[derive(Debug, Clone)]
pub struct GovernanceReport {
    /// Milliseconds since the Unix epoch.
    pub timestamp: i64,
    pub policies_evaluated: u64,
    pub violations: Vec<GovernanceViolation>,
    pub warnings: Vec<String>,
    pub passed: bool,
}

/// All governance subsystems, the policies evaluated over them, and the audit log.
pub struct GovernanceEngine {
    registry: registry::ArchitectureRegistry,
    analyzer: analyzer::DependencyAnalyzer,
    validator: validator::BoundedContextValidator,
    schema_gov: schema::SchemaGovernance,
    migration_gov: migration::MigrationGovernance,
    replay_gov: replay::ReplayGovernance,
    federation_gov: federation::FederationGovernance,
    deployment_gov: deployment::DeploymentGovernance,
    sovereignty_reg: sovereignty::SovereigntyRegistry,
    audit_log: Vec<GovernanceAuditEntry>,
    policy_rules: Vec<GovernancePolicy>,
    enforcement_mode: EnforcementMode,
}

/// The number of enabled policies among `ps`.
pub open spec fn enabled_count(ps: Seq<GovernancePolicy>) -> nat
    decreases ps.len(),
{
    if ps.len() == 0 { 0 } else { enabled_count(ps.drop_last()) + if ps.last().enabled { 1nat } else { 0nat } }
}

/// The violations among `results`, in order.
pub open spec fn violations_in(results: Seq<PolicyEvalResult>) -> Seq<GovernanceViolation>
    decreases results.len(),
{
    if results.len() == 0 {
        Seq::empty()
    } else {
        violations_in(results.drop_last()) + match results.last() {
            PolicyEvalResult::Violation(v) => seq![v],
            _ => Seq::empty(),
        }
    }
}

/// The warnings among `results`, in order.
pub open spec fn warnings_in(results: Seq<PolicyEvalResult>) -> Seq<String>
    decreases results.len(),
{
    if results.len() == 0 {
        Seq::empty()
    } else {
        warnings_in(results.drop_last()) + match results.last() {
            PolicyEvalResult::Warning(w) => seq![w],
            _ => Seq::empty(),
        }
    }
}

/// The kind of a logged decision with its message (empty where it has none): allowed 0,
/// denied 1, warning 2, logged 3.
pub open spec fn decision_kind(d: GovernanceDecision) -> (nat, Seq<char>) {
    match d {
        GovernanceDecision::Allowed => (0nat, Seq::empty()),
        GovernanceDecision::Denied(m) => (1nat, m@),
        GovernanceDecision::Warning(w) => (2nat, w@),
        GovernanceDecision::Logged => (3nat, Seq::empty()),
    }
}

/// What an audit entry records besides its time: the kind of decision with its message,
/// then the actor, action, target and details.
pub type AuditRecord = (nat, Seq<char>, Seq<char>, Seq<char>, Seq<char>, Seq<char>);

/// The record an audit entry holds, leaving out its timestamp.
pub open spec fn entry_record(e: GovernanceAuditEntry) -> AuditRecord {
    let d = decision_kind(e.decision);
    (d.0, d.1, e.actor@, e.action@, e.target@, e.details@)
}

/// The records the entries hold, in order.
pub open spec fn audit_records(es: Seq<GovernanceAuditEntry>) -> Seq<AuditRecord> {
    es.map_values(|e: GovernanceAuditEntry| entry_record(e))
}

/// The record logged for the outcome `r` of the policy named `name` in `c`: the context's
/// actor, action and target, with allowed and "Policy '<name>' passed" for a pass, denied
/// with the message and "Policy '<name>' violated: <message>" for a violation, and a
/// warning with its text and "Policy '<name>' warning: <text>" for a warning.
pub open spec fn result_record(r: PolicyEvalResult, name: Seq<char>, c: GovernanceContext) -> AuditRecord {
    match r {
        PolicyEvalResult::Pass =>
            (0nat, Seq::empty(), c.actor@, c.action@, c.target@, "Policy '"@ + name + "' passed"@),
        PolicyEvalResult::Violation(v) =>
            (1nat, v.message@, c.actor@, c.action@, c.target@, "Policy '"@ + name + "' violated: "@ + v.message@),
        PolicyEvalResult::Warning(w) =>
            (2nat, w@, c.actor@, c.action@, c.target@, "Policy '"@ + name + "' warning: "@ + w@),
    }
}

/// The records logged in `c` for the outcomes `results` of the first policies of `ps`: one
/// for each enabled policy, in order.
pub open spec fn logged(ps: Seq<GovernancePolicy>, results: Seq<PolicyEvalResult>, c: GovernanceContext) -> Seq<AuditRecord>
    decreases results.len(),
{
    if results.len() == 0 {
        Seq::empty()
    } else {
        logged(ps, results.drop_last(), c) + if ps[results.len() - 1].enabled {
            seq![result_record(results.last(), ps[results.len() - 1].name@, c)]
        } else {
            Seq::empty()
        }
    }
}

/// One record is logged per enabled policy.
proof fn lemma_logged_len(ps: Seq<GovernancePolicy>, results: Seq<PolicyEvalResult>, c: GovernanceContext)
    requires
        results.len() <= ps.len(),
    ensures
        logged(ps, results, c).len() == enabled_count(ps.take(results.len() as int)),
    decreases results.len(),
{
    if results.len() > 0 {
        lemma_logged_len(ps, results.drop_last(), c);
        assert(ps.take(results.len() as int).drop_last() =~= ps.take(results.len() - 1));
    } else {
        assert(ps.take(0) =~= Seq::<GovernancePolicy>::empty());
    }
}

/// Logging one more entry adds its record to those logged since `a0`.
proof fn lemma_log_push(a0: Seq<GovernanceAuditEntry>, ab: Seq<GovernanceAuditEntry>, e: GovernanceAuditEntry)
    requires
        a0.len() <= ab.len(),
        ab.take(a0.len() as int) == a0,
    ensures
        audit_records(ab.push(e).skip(a0.len() as int)) == audit_records(ab.skip(a0.len() as int)).push(entry_record(e)),
        ab.push(e).take(a0.len() as int) == a0,
{
    assert(ab.push(e).skip(a0.len() as int) =~= ab.skip(a0.len() as int).push(e));
    assert(audit_records(ab.push(e).skip(a0.len() as int)) =~= audit_records(ab.skip(a0.len() as int)).push(entry_record(e)));
    assert(ab.push(e).take(a0.len() as int) =~= ab.take(a0.len() as int));
}

/// The coupling score of a component with `e` dependencies and `a` dependents, in
/// hundredths, rounded half up: `0.6 + 0.1 * e / (e + a)`, or `0.6` when both are 0.
pub open spec fn score_hundredths(e: int, a: int) -> int {
    if e + a == 0 { 60 } else { (121 * (e + a) + 20 * e) / (2 * (e + a)) }
}

/// Thousandths `m` in hundredths, rounded half up.
pub open spec fn millis_hundredths(m: int) -> int {
    m / 10 + if m % 10 >= 5 { 1int } else { 0int }
}

/// Hundredths `h` written with two decimal places, as in `0.65`.
pub open spec fn two_places(h: nat) -> Seq<char> {
    decimal(h / 100) + "."@ + decimal((h % 100) / 10) + decimal(h % 10)
}

/// `h` hundredths written with two decimal places.
fn two_places_text(h: u64) -> (r: String)
    ensures
        r@ == two_places(h as nat),
{
    let w = u64_text(h / 100);
    let t = u64_text((h % 100) / 10);
    let u = u64_text(h % 10);
    cat4(w.as_str(), ".", t.as_str(), u.as_str())
}

/// The violation `v` records policy `p` with the given message and remediation and no
/// context.
pub open spec fn policy_violation(v: GovernanceViolation, p: GovernancePolicy, message: Seq<char>, remediation: Seq<char>) -> bool {
    &&& v.policy_id == p.policy_id
    &&& v.policy_name@ == p.name@
    &&& v.severity == p.severity
    &&& v.message@ == message
    &&& v.context@.len() == 0
    &&& strs_view(v.remediations@) == seq![remediation]
}

/// The fields of a violation, with strings by their characters.
pub open spec fn violation_view(v: GovernanceViolation)
    -> (u128, Seq<char>, PolicySeverity, Seq<char>, Seq<(Seq<char>, Seq<char>)>, Seq<Seq<char>>) {
    (v.policy_id, v.policy_name@, v.severity, v.message@, pairs_view(v.context@), strs_view(v.remediations@))
}

/// A copy of `v`.
pub fn copy_violation(v: &GovernanceViolation) -> (r: GovernanceViolation)
    ensures
        violation_view(r) == violation_view(*v),
{
    let mut context: Vec<(String, String)> = Vec::new();
    let n = v.context.len();
    for i in 0..n
        invariant
            n == v.context@.len(),
            pairs_view(context@) == pairs_view(v.context@.take(i as int)),
    {
        let ghost before = context@;
        context.push((v.context[i].0.clone(), v.context[i].1.clone()));
        proof {
            assert(pairs_view(context@) =~= pairs_view(before).push((v.context@[i as int].0@, v.context@[i as int].1@)));
            assert(v.context@.take(i + 1) =~= v.context@.take(i as int).push(v.context@[i as int]));
            assert(pairs_view(v.context@.take(i + 1)) =~= pairs_view(v.context@.take(i as int)).push((v.context@[i as int].0@, v.context@[i as int].1@)));
        }
    }
    proof {
        assert(v.context@.take(n as int) =~= v.context@);
    }
    GovernanceViolation {
        policy_id: v.policy_id,
        policy_name: v.policy_name.clone(),
        severity: v.severity,
        message: v.message.clone(),
        context,
        remediations: crate::text::clone_strings(&v.remediations),
    }
}

/// A violation of policy `p` with `message` and one remediation.
fn violation_of(p: &GovernancePolicy, message: String, remediation: String) -> (r: GovernanceViolation)
    ensures
        policy_violation(r, *p, message@, remediation@),
{
    let mut remediations: Vec<String> = Vec::new();
    remediations.push(remediation);
    proof {
        assert(strs_view(remediations@) =~= seq![remediation@]);
    }
    GovernanceViolation {
        policy_id: p.policy_id,
        policy_name: p.name.clone(),
        severity: p.severity,
        message,
        context: Vec::new(),
        remediations,
    }
}

impl GovernanceEngine {
    /// The policies in the order added.
    pub closed spec fn policies(&self) -> Seq<GovernancePolicy> {
        self.policy_rules@
    }

    /// The audit log, oldest first.
    pub closed spec fn audit(&self) -> Seq<GovernanceAuditEntry> {
        self.audit_log@
    }

    /// The enforcement mode.
    pub closed spec fn mode(&self) -> EnforcementMode {
        self.enforcement_mode
    }

    /// The registry subsystem.
    pub closed spec fn registry_state(&self) -> registry::ArchitectureRegistry {
        self.registry
    }

    /// The registry subsystem.
    pub fn registry(&self) -> (r: &registry::ArchitectureRegistry)
        ensures
            *r == self.registry_state(),
    {
        &self.registry
    }

    /// The registry subsystem, for changes.
    pub fn registry_mut(&mut self) -> (r: &mut registry::ArchitectureRegistry)
        ensures
            *r == old(self).registry_state(),
            final(self).registry_state() == *final(r),
            final(self).analyzer_state() == old(self).analyzer_state(),
            final(self).validator_state() == old(self).validator_state(),
            final(self).schema_gov_state() == old(self).schema_gov_state(),
            final(self).migration_gov_state() == old(self).migration_gov_state(),
            final(self).replay_gov_state() == old(self).replay_gov_state(),
            final(self).federation_gov_state() == old(self).federation_gov_state(),
            final(self).deployment_gov_state() == old(self).deployment_gov_state(),
            final(self).sovereignty_reg_state() == old(self).sovereignty_reg_state(),
            final(self).policies() == old(self).policies(),
            final(self).audit() == old(self).audit(),
            final(self).mode() == old(self).mode(),
    {
        &mut self.registry
    }

    /// The analyzer subsystem.
    pub closed spec fn analyzer_state(&self) -> analyzer::DependencyAnalyzer {
        self.analyzer
    }

    /// The analyzer subsystem.
    pub fn analyzer(&self) -> (r: &analyzer::DependencyAnalyzer)
        ensures
            *r == self.analyzer_state(),
    {
        &self.analyzer
    }

    /// The analyzer subsystem, for changes.
    pub fn analyzer_mut(&mut self) -> (r: &mut analyzer::DependencyAnalyzer)
        ensures
            *r == old(self).analyzer_state(),
            final(self).analyzer_state() == *final(r),
            final(self).registry_state() == old(self).registry_state(),
            final(self).validator_state() == old(self).validator_state(),
            final(self).schema_gov_state() == old(self).schema_gov_state(),
            final(self).migration_gov_state() == old(self).migration_gov_state(),
            final(self).replay_gov_state() == old(self).replay_gov_state(),
            final(self).federation_gov_state() == old(self).federation_gov_state(),
            final(self).deployment_gov_state() == old(self).deployment_gov_state(),
            final(self).sovereignty_reg_state() == old(self).sovereignty_reg_state(),
            final(self).policies() == old(self).policies(),
            final(self).audit() == old(self).audit(),
            final(self).mode() == old(self).mode(),
    {
        &mut self.analyzer
    }

    /// The validator subsystem.
    pub closed spec fn validator_state(&self) -> validator::BoundedContextValidator {
        self.validator
    }

    /// The validator subsystem.
    pub fn validator(&self) -> (r: &validator::BoundedContextValidator)
        ensures
            *r == self.validator_state(),
    {
        &self.validator
    }

    /// The validator subsystem, for changes.
    pub fn validator_mut(&mut self) -> (r: &mut validator::BoundedContextValidator)
        ensures
            *r == old(self).validator_state(),
            final(self).validator_state() == *final(r),
            final(self).registry_state() == old(self).registry_state(),
            final(self).analyzer_state() == old(self).analyzer_state(),
            final(self).schema_gov_state() == old(self).schema_gov_state(),
            final(self).migration_gov_state() == old(self).migration_gov_state(),
            final(self).replay_gov_state() == old(self).replay_gov_state(),
            final(self).federation_gov_state() == old(self).federation_gov_state(),
            final(self).deployment_gov_state() == old(self).deployment_gov_state(),
            final(self).sovereignty_reg_state() == old(self).sovereignty_reg_state(),
            final(self).policies() == old(self).policies(),
            final(self).audit() == old(self).audit(),
            final(self).mode() == old(self).mode(),
    {
        &mut self.validator
    }

    /// The schema governance subsystem.
    pub closed spec fn schema_gov_state(&self) -> schema::SchemaGovernance {
        self.schema_gov
    }

    /// The schema governance subsystem.
    pub fn schema_governance(&self) -> (r: &schema::SchemaGovernance)
        ensures
            *r == self.schema_gov_state(),
    {
        &self.schema_gov
    }

    /// The schema governance subsystem, for changes.
    pub fn schema_governance_mut(&mut self) -> (r: &mut schema::SchemaGovernance)
        ensures
            *r == old(self).schema_gov_state(),
            final(self).schema_gov_state() == *final(r),
            final(self).registry_state() == old(self).registry_state(),
            final(self).analyzer_state() == old(self).analyzer_state(),
            final(self).validator_state() == old(self).validator_state(),
            final(self).migration_gov_state() == old(self).migration_gov_state(),
            final(self).replay_gov_state() == old(self).replay_gov_state(),
            final(self).federation_gov_state() == old(self).federation_gov_state(),
            final(self).deployment_gov_state() == old(self).deployment_gov_state(),
            final(self).sovereignty_reg_state() == old(self).sovereignty_reg_state(),
            final(self).policies() == old(self).policies(),
            final(self).audit() == old(self).audit(),
            final(self).mode() == old(self).mode(),
    {
        &mut self.schema_gov
    }

    /// The migration governance subsystem.
    pub closed spec fn migration_gov_state(&self) -> migration::MigrationGovernance {
        self.migration_gov
    }

    /// The migration governance subsystem.
    pub fn migration_governance(&self) -> (r: &migration::MigrationGovernance)
        ensures
            *r == self.migration_gov_state(),
    {
        &self.migration_gov
    }

    /// The migration governance subsystem, for changes.
    pub fn migration_governance_mut(&mut self) -> (r: &mut migration::MigrationGovernance)
        ensures
            *r == old(self).migration_gov_state(),
            final(self).migration_gov_state() == *final(r),
            final(self).registry_state() == old(self).registry_state(),
            final(self).analyzer_state() == old(self).analyzer_state(),
            final(self).validator_state() == old(self).validator_state(),
            final(self).schema_gov_state() == old(self).schema_gov_state(),
            final(self).replay_gov_state() == old(self).replay_gov_state(),
            final(self).federation_gov_state() == old(self).federation_gov_state(),
            final(self).deployment_gov_state() == old(self).deployment_gov_state(),
            final(self).sovereignty_reg_state() == old(self).sovereignty_reg_state(),
            final(self).policies() == old(self).policies(),
            final(self).audit() == old(self).audit(),
            final(self).mode() == old(self).mode(),
    {
        &mut self.migration_gov
    }

    /// The replay governance subsystem.
    pub closed spec fn replay_gov_state(&self) -> replay::ReplayGovernance {
        self.replay_gov
    }

    /// The replay governance subsystem.
    pub fn replay_governance(&self) -> (r: &replay::ReplayGovernance)
        ensures
            *r == self.replay_gov_state(),
    {
        &self.replay_gov
    }

    /// The replay governance subsystem, for changes.
    pub fn replay_governance_mut(&mut self) -> (r: &mut replay::ReplayGovernance)
        ensures
            *r == old(self).replay_gov_state(),
            final(self).replay_gov_state() == *final(r),
            final(self).registry_state() == old(self).registry_state(),
            final(self).analyzer_state() == old(self).analyzer_state(),
            final(self).validator_state() == old(self).validator_state(),
            final(self).schema_gov_state() == old(self).schema_gov_state(),
            final(self).migration_gov_state() == old(self).migration_gov_state(),
            final(self).federation_gov_state() == old(self).federation_gov_state(),
            final(self).deployment_gov_state() == old(self).deployment_gov_state(),
            final(self).sovereignty_reg_state() == old(self).sovereignty_reg_state(),
            final(self).policies() == old(self).policies(),
            final(self).audit() == old(self).audit(),
            final(self).mode() == old(self).mode(),
    {
        &mut self.replay_gov
    }

    /// The federation governance subsystem.
    pub closed spec fn federation_gov_state(&self) -> federation::FederationGovernance {
        self.federation_gov
    }

    /// The federation governance subsystem.
    pub fn federation_governance(&self) -> (r: &federation::FederationGovernance)
        ensures
            *r == self.federation_gov_state(),
    {
        &self.federation_gov
    }

    /// The federation governance subsystem, for changes.
    pub fn federation_governance_mut(&mut self) -> (r: &mut federation::FederationGovernance)
        ensures
            *r == old(self).federation_gov_state(),
            final(self).federation_gov_state() == *final(r),
            final(self).registry_state() == old(self).registry_state(),
            final(self).analyzer_state() == old(self).analyzer_state(),
            final(self).validator_state() == old(self).validator_state(),
            final(self).schema_gov_state() == old(self).schema_gov_state(),
            final(self).migration_gov_state() == old(self).migration_gov_state(),
            final(self).replay_gov_state() == old(self).replay_gov_state(),
            final(self).deployment_gov_state() == old(self).deployment_gov_state(),
            final(self).sovereignty_reg_state() == old(self).sovereignty_reg_state(),
            final(self).policies() == old(self).policies(),
            final(self).audit() == old(self).audit(),
            final(self).mode() == old(self).mode(),
    {
        &mut self.federation_gov
    }

    /// The deployment governance subsystem.
    pub closed spec fn deployment_gov_state(&self) -> deployment::DeploymentGovernance {
        self.deployment_gov
    }

    /// The deployment governance subsystem.
    pub fn deployment_governance(&self) -> (r: &deployment::DeploymentGovernance)
        ensures
            *r == self.deployment_gov_state(),
    {
        &self.deployment_gov
    }

    /// The deployment governance subsystem, for changes.
    pub fn deployment_governance_mut(&mut self) -> (r: &mut deployment::DeploymentGovernance)
        ensures
            *r == old(self).deployment_gov_state(),
            final(self).deployment_gov_state() == *final(r),
            final(self).registry_state() == old(self).registry_state(),
            final(self).analyzer_state() == old(self).analyzer_state(),
            final(self).validator_state() == old(self).validator_state(),
            final(self).schema_gov_state() == old(self).schema_gov_state(),
            final(self).migration_gov_state() == old(self).migration_gov_state(),
            final(self).replay_gov_state() == old(self).replay_gov_state(),
            final(self).federation_gov_state() == old(self).federation_gov_state(),
            final(self).sovereignty_reg_state() == old(self).sovereignty_reg_state(),
            final(self).policies() == old(self).policies(),
            final(self).audit() == old(self).audit(),
            final(self).mode() == old(self).mode(),
    {
        &mut self.deployment_gov
    }

    /// The sovereignty registry subsystem.
    pub closed spec fn sovereignty_reg_state(&self) -> sovereignty::SovereigntyRegistry {
        self.sovereignty_reg
    }

    /// The sovereignty registry subsystem.
    pub fn sovereignty_registry(&self) -> (r: &sovereignty::SovereigntyRegistry)
        ensures
            *r == self.sovereignty_reg_state(),
    {
        &self.sovereignty_reg
    }

    /// The sovereignty registry subsystem, for changes.
    pub fn sovereignty_registry_mut(&mut self) -> (r: &mut sovereignty::SovereigntyRegistry)
        ensures
            *r == old(self).sovereignty_reg_state(),
            final(self).sovereignty_reg_state() == *final(r),
            final(self).registry_state() == old(self).registry_state(),
            final(self).analyzer_state() == old(self).analyzer_state(),
            final(self).validator_state() == old(self).validator_state(),
            final(self).schema_gov_state() == old(self).schema_gov_state(),
            final(self).migration_gov_state() == old(self).migration_gov_state(),
            final(self).replay_gov_state() == old(self).replay_gov_state(),
            final(self).federation_gov_state() == old(self).federation_gov_state(),
            final(self).deployment_gov_state() == old(self).deployment_gov_state(),
            final(self).policies() == old(self).policies(),
            final(self).audit() == old(self).audit(),
            final(self).mode() == old(self).mode(),
    {
        &mut self.sovereignty_reg
    }

    /// An engine with empty subsystems, no policies, an empty log, enforcing.
    pub fn new() -> (r: Self)
        ensures
            r.policies().len() == 0,
            r.audit().len() == 0,
            r.mode() == EnforcementMode::Enforce,
            r.analyzer_state().graph().len() == 0,
            r.analyzer_state().cycles().len() == 0,
            r.analyzer_state().analysed_at() is None,
            r.registry_state().contexts().len() == 0,
            r.registry_state().context_maps().len() == 0,
            r.registry_state().owners().len() == 0,
            r.registry_state().acls().len() == 0,
            r.validator_state().boundaries().len() == 0,
            r.validator_state().allowed().len() == 0,
            r.validator_state().forbidden().len() == 0,
            r.validator_state().kernels().len() == 0,
            r.validator_state().rules().len() == 0,
            r.schema_gov_state().contracts().len() == 0,
            r.schema_gov_state().policies().len() == 0,
            r.schema_gov_state().rule_sets().len() == 0,
            r.schema_gov_state().deprecated_ids().len() == 0,
            r.migration_gov_state().migrations().len() == 0,
            r.migration_gov_state().policies().len() == 0,
            r.migration_gov_state().history().len() == 0,
            r.replay_gov_state().streams().len() == 0,
            r.replay_gov_state().policies().len() == 0,
            r.replay_gov_state().records().len() == 0,
            r.replay_gov_state().checks().len() == 0,
            r.federation_gov_state().domains().len() == 0,
            r.federation_gov_state().policies().len() == 0,
            r.federation_gov_state().routes().len() == 0,
            r.federation_gov_state().agreements().len() == 0,
            r.deployment_gov_state().components().len() == 0,
            r.deployment_gov_state().environments().len() == 0,
            r.deployment_gov_state().policies().len() == 0,
            r.deployment_gov_state().releases().len() == 0,
            r.deployment_gov_state().tags().len() == 0,
            r.sovereignty_reg_state().zones().len() == 0,
            r.sovereignty_reg_state().residency_policies().len() == 0,
            r.sovereignty_reg_state().jurisdictions().len() == 0,
            r.sovereignty_reg_state().partition_policies().len() == 0,
            r.sovereignty_reg_state().hierarchy().len() == 0,
    {
        GovernanceEngine {
            registry: registry::ArchitectureRegistry::new(),
            analyzer: analyzer::DependencyAnalyzer::new(),
            validator: validator::BoundedContextValidator::new(),
            schema_gov: schema::SchemaGovernance::new(),
            migration_gov: migration::MigrationGovernance::new(),
            replay_gov: replay::ReplayGovernance::new(),
            federation_gov: federation::FederationGovernance::new(),
            deployment_gov: deployment::DeploymentGovernance::new(),
            sovereignty_reg: sovereignty::SovereigntyRegistry::new(),
            audit_log: Vec::new(),
            policy_rules: Vec::new(),
            enforcement_mode: EnforcementMode::Enforce,
        }
    }

    /// Sets the enforcement mode.
    pub fn set_enforcement_mode(&mut self, mode: EnforcementMode)
        ensures
            final(self).mode() == mode,
            final(self).policies() == old(self).policies(),
            final(self).audit() == old(self).audit(),
    {
        self.enforcement_mode = mode;
    }

    /// Adds a policy.
    pub fn add_policy(&mut self, policy: GovernancePolicy)
        ensures
            final(self).policies() == old(self).policies().push(policy),
            final(self).mode() == old(self).mode(),
            final(self).audit() == old(self).audit(),
    {
        self.policy_rules.push(policy);
    }

    /// The audit log, oldest first.
    pub fn get_audit_log(&self) -> (r: &[GovernanceAuditEntry])
        ensures
            r@ == self.audit(),
    {
        self.audit_log.as_slice()
    }

    /// What checking `policy` in `context` gives: the check of dependencies, coupling,
    /// ownership or migrations made here, or the answer of the subsystem that the rule names.
    pub open spec fn policy_outcome(&self, policy: GovernancePolicy, context: GovernanceContext, r: PolicyEvalResult) -> bool {
        match policy.rule {
            PolicyRule::ForbiddenDependency(s, t) => if analyzer::depends_on(self.analyzer_state().graph(), s@, t@) {
                r matches PolicyEvalResult::Violation(v) && policy_violation(v, policy,
                    "Forbidden dependency from '"@ + s@ + "' to '"@ + t@ + "'"@,
                    "Remove dependency from "@ + s@ + " to "@ + t@)
            } else {
                r is Pass
            },
            PolicyRule::MaxCouplingScore(max) => {
                let e = analyzer::deps_of(self.analyzer_state().graph(), context.target@).len() as int;
                let a = analyzer::dependents_of(self.analyzer_state().graph(), context.target@).len() as int;
                if (if e + a == 0 { 600 > max } else { 600 * (e + a) + 100 * e > max * (e + a) }) {
                    r matches PolicyEvalResult::Violation(v) && policy_violation(v, policy,
                        "Coupling score "@ + two_places(score_hundredths(e, a) as nat) + " exceeds max "@
                            + two_places(millis_hundredths(max as int) as nat),
                        "Reduce coupling through interface abstraction"@)
                } else {
                    r is Pass
                }
            },
            PolicyRule::MandatoryOwner(c) => if lookup(self.registry_state().owners(), c@) is None {
                r matches PolicyEvalResult::Violation(v) && policy_violation(v, policy,
                    "Context '"@ + c@ + "' has no registered owner"@,
                    "Register an owner for context '"@ + c@ + "'"@)
            } else {
                r is Pass
            },
            PolicyRule::MigrationSafetyRule(_) => r is Pass,
            PolicyRule::NoCrossContextDependency(s, t) => self.validator_state().dependency_outcome(s@, t@, r),
            PolicyRule::RequiredInterface(c, i) => self.registry_state().interface_outcome(c@, i@, r),
            PolicyRule::SchemaEvolutionRule(id, rule) => self.schema_gov_state().evolution_rule_outcome(id@, rule, r),
            PolicyRule::ReplayDeterminism(stream) => self.replay_gov_state().determinism_outcome(stream@, r),
            PolicyRule::FederationBoundary(d, a) => self.federation_gov_state().boundary_outcome(d@, a@, r),
            PolicyRule::DeploymentTag(c, t) => self.deployment_gov_state().tag_outcome(c@, t@, r),
            PolicyRule::SovereigntyResidency(z, regions) => self.sovereignty_reg_state().residency_outcome(z@, regions@, r),
        }
    }

    /// `r` is what the `i`-th policy gives in `context`: its outcome when it is enabled, a
    /// pass when it is not.
    pub open spec fn outcome_at(&self, context: GovernanceContext, i: int, r: PolicyEvalResult) -> bool {
        if self.policies()[i].enabled {
            self.policy_outcome(self.policies()[i], context, r)
        } else {
            r is Pass
        }
    }

    /// `results` are what the first policies give in `context`, one each, in order.
    pub open spec fn outcomes(&self, context: GovernanceContext, results: Seq<PolicyEvalResult>) -> bool {
        &&& results.len() <= self.policies().len()
        &&& forall|i: int| 0 <= i < results.len() ==> #[trigger] self.outcome_at(context, i, results[i])
    }

    /// Evaluates one policy in `context`. The checks of dependencies, coupling, ownership
    /// and migrations are made here; the others are those of the subsystem the rule names,
    /// with its answer.
    pub fn evaluate_policy(&self, policy: &GovernancePolicy, context: &GovernanceContext) -> (r: PolicyEvalResult)
        ensures
            self.policy_outcome(*policy, *context, r),
    {
        match &policy.rule {
            PolicyRule::NoCrossContextDependency(source, target) =>
                self.validator.validate_dependency(source.as_str(), target.as_str(), context),
            PolicyRule::RequiredInterface(c, i) => self.registry.verify_interface(c.as_str(), i.as_str()),
            PolicyRule::ForbiddenDependency(source, target) => {
                if self.analyzer.has_dependency(source.as_str(), target.as_str()) {
                    PolicyEvalResult::Violation(violation_of(policy,
                        cat5("Forbidden dependency from '", source.as_str(), "' to '", target.as_str(), "'"),
                        cat4("Remove dependency from ", source.as_str(), " to ", target.as_str())))
                } else {
                    PolicyEvalResult::Pass
                }
            },
            PolicyRule::MaxCouplingScore(max) => {
                if self.analyzer.coupling_exceeds(context.target.as_str(), *max) {
                    let counts = self.analyzer.coupling_counts(context.target.as_str());
                    let e = counts.efferent_coupling as u128;
                    let t = e + counts.afferent_coupling as u128;
                    let score: u64 = if t == 0 {
                        60
                    } else {
                        proof {
                            assert((121 * t as int + 20 * e as int) / (2 * t as int) <= 71) by (nonlinear_arith)
                                requires e <= t, t > 0;
                        }
                        ((121 * t + 20 * e) / (2 * t)) as u64
                    };
                    let mh: u64 = *max / 10 + if *max % 10 >= 5 { 1 } else { 0 };
                    let s = two_places_text(score);
                    let m = two_places_text(mh);
                    PolicyEvalResult::Violation(violation_of(policy,
                        cat4("Coupling score ", s.as_str(), " exceeds max ", m.as_str()),
                        owned("Reduce coupling through interface abstraction")))
                } else {
                    PolicyEvalResult::Pass
                }
            },
            PolicyRule::MandatoryOwner(c) => {
                if self.registry.get_owner(c.as_str()).is_none() {
                    PolicyEvalResult::Violation(violation_of(policy,
                        crate::text::cat3("Context '", c.as_str(), "' has no registered owner"),
                        crate::text::cat3("Register an owner for context '", c.as_str(), "'")))
                } else {
                    PolicyEvalResult::Pass
                }
            },
            PolicyRule::SchemaEvolutionRule(id, rule) => self.schema_gov.check_evolution_rule(id.as_str(), rule),
            PolicyRule::MigrationSafetyRule(_) => PolicyEvalResult::Pass,
            PolicyRule::ReplayDeterminism(stream) => self.replay_gov.check_determinism(stream.as_str()),
            PolicyRule::FederationBoundary(domain, allowed) => self.federation_gov.check_boundary(domain.as_str(), allowed.as_str()),
            PolicyRule::DeploymentTag(component, tag) => self.deployment_gov.validate_tag(component.as_str(), tag.as_str()),
            PolicyRule::SovereigntyResidency(zone, regions) => self.sovereignty_reg.check_residency(zone.as_str(), regions.as_slice()),
        }
    }

    /// Evaluates the enabled policies in order, logging each decision with the context's
    /// actor, action and target: a pass as allowed, a violation as denied, a warning as a
    /// warning, each with details naming the policy. In strict mode the first violation
    /// stops the evaluation: its message is returned as the error. Otherwise the report
    /// lists the violations and warnings found, and passes when there are no violations.
    pub fn evaluate(&mut self, context: &GovernanceContext) -> (r: Result<GovernanceReport, String>)
        ensures
            match r {
                Ok(rep) => {
                    &&& rep.policies_evaluated == enabled_count(old(self).policies())
                    &&& rep.passed == (rep.violations@.len() == 0 && old(self).mode() != EnforcementMode::StrictEnforce)
                    &&& old(self).mode() == EnforcementMode::StrictEnforce ==> rep.violations@.len() == 0
                    &&& final(self).audit().len() == old(self).audit().len() + enabled_count(old(self).policies())
                    &&& exists|results: Seq<PolicyEvalResult>| {
                        &&& old(self).outcomes(*context, results)
                        &&& results.len() == old(self).policies().len()
                        &&& violations_in(results) == rep.violations@
                        &&& warnings_in(results) == rep.warnings@
                        &&& audit_records(final(self).audit().skip(old(self).audit().len() as int))
                            == logged(old(self).policies(), results, *context)
                    }
                },
                Err(m) => {
                    &&& old(self).mode() == EnforcementMode::StrictEnforce
                    &&& final(self).audit().len() > old(self).audit().len()
                    &&& exists|results: Seq<PolicyEvalResult>| {
                        &&& old(self).outcomes(*context, results)
                        &&& results.len() > 0
                        &&& violations_in(results.drop_last()).len() == 0
                        &&& results.last() matches PolicyEvalResult::Violation(v) && v.message@ == m@
                        &&& audit_records(final(self).audit().skip(old(self).audit().len() as int))
                            == logged(old(self).policies(), results, *context)
                    }
                },
            },
            final(self).audit().take(old(self).audit().len() as int) == old(self).audit(),
            final(self).policies() == old(self).policies(),
            final(self).mode() == old(self).mode(),
    {
        let mode = self.enforcement_mode;
        let strict = match mode { EnforcementMode::StrictEnforce => true, _ => false };
        let mut violations: Vec<GovernanceViolation> = Vec::new();
        let mut warnings: Vec<String> = Vec::new();
        let mut evaluated: u64 = 0;
        let ghost a0 = self.audit_log@;
        let ghost mut results: Seq<PolicyEvalResult> = Seq::empty();
        let n = self.policy_rules.len();
        for i in 0..n
            invariant
                n == self.policy_rules@.len(),
                self.policy_rules@ == old(self).policy_rules@,
                self.enforcement_mode == mode,
                mode == old(self).enforcement_mode,
                strict == (mode == EnforcementMode::StrictEnforce),
                a0 == old(self).audit_log@,
                evaluated == enabled_count(self.policy_rules@.take(i as int)),
                evaluated <= i,
                strict ==> violations@.len() == 0,
                a0.len() <= self.audit_log@.len(),
                self.audit_log@.take(a0.len() as int) == a0,
                audit_records(self.audit_log@.skip(a0.len() as int)) == logged(old(self).policy_rules@, results, *context),
                self.registry == old(self).registry,
                self.analyzer == old(self).analyzer,
                self.validator == old(self).validator,
                self.schema_gov == old(self).schema_gov,
                self.migration_gov == old(self).migration_gov,
                self.replay_gov == old(self).replay_gov,
                self.federation_gov == old(self).federation_gov,
                self.deployment_gov == old(self).deployment_gov,
                self.sovereignty_reg == old(self).sovereignty_reg,
                results.len() == i,
                old(self).outcomes(*context, results),
                violations_in(results) == violations@,
                warnings_in(results) == warnings@,
        {
            proof {
                assert(self.policy_rules@.take(i + 1).drop_last() =~= self.policy_rules@.take(i as int));
            }
            let policy = &self.policy_rules[i];
            let ghost rb = results;
            if policy.enabled {
                evaluated = evaluated + 1;
                let result = self.evaluate_policy(policy, context);
                let ghost rg = result;
                proof {
                    results = results.push(result);
                    assert(old(self).outcome_at(*context, i as int, result));
                    assert forall|q: int| 0 <= q < results.len()
                        implies #[trigger] old(self).outcome_at(*context, q, results[q]) by {
                        if q < i {
                            assert(results[q] == rb[q]);
                        }
                    }
                    assert(results.drop_last() =~= rb);
                    assert(logged(old(self).policy_rules@, results, *context)
                        == logged(old(self).policy_rules@, rb, *context).push(
                            result_record(result, self.policy_rules@[i as int].name@, *context)));
                }
                match result {
                    PolicyEvalResult::Pass => {
                        let entry = GovernanceAuditEntry {
                            timestamp: now_millis(),
                            actor: context.actor.clone(),
                            action: context.action.clone(),
                            target: context.target.clone(),
                            decision: GovernanceDecision::Allowed,
                            details: cat3("Policy '", policy.name.as_str(), "' passed"),
                        };
                        let ghost ab = self.audit_log@;
                        proof {
                            lemma_log_push(a0, ab, entry);
                        }
                        self.audit_log.push(entry);
                    },
                    PolicyEvalResult::Violation(v) => {
                        let entry = GovernanceAuditEntry {
                            timestamp: now_millis(),
                            actor: context.actor.clone(),
                            action: context.action.clone(),
                            target: context.target.clone(),
                            decision: GovernanceDecision::Denied(v.message.clone()),
                            details: cat4("Policy '", policy.name.as_str(), "' violated: ", v.message.as_str()),
                        };
                        let ghost ab = self.audit_log@;
                        proof {
                            lemma_log_push(a0, ab, entry);
                        }
                        self.audit_log.push(entry);
                        if strict {
                            let msg = v.message.clone();
                            proof {
                                assert(results.last() == rg);
                                assert(rg == PolicyEvalResult::Violation(v));
                                assert(violations_in(results.drop_last()).len() == 0);
                                assert(msg@ == v.message@);
                                assert(old(self).outcomes(*context, results));
                            }
                            return Err(msg);
                        }
                        violations.push(v);
                    },
                    PolicyEvalResult::Warning(w) => {
                        let entry = GovernanceAuditEntry {
                            timestamp: now_millis(),
                            actor: context.actor.clone(),
                            action: context.action.clone(),
                            target: context.target.clone(),
                            decision: GovernanceDecision::Warning(w.clone()),
                            details: cat4("Policy '", policy.name.as_str(), "' warning: ", w.as_str()),
                        };
                        let ghost ab = self.audit_log@;
                        proof {
                            lemma_log_push(a0, ab, entry);
                        }
                        self.audit_log.push(entry);
                        warnings.push(w);
                    },
                }
            } else {
                proof {
                    results = results.push(PolicyEvalResult::Pass);
                    assert forall|q: int| 0 <= q < results.len()
                        implies #[trigger] old(self).outcome_at(*context, q, results[q]) by {
                        if q < i {
                            assert(results[q] == rb[q]);
                        }
                    }
                    assert(results.drop_last() =~= rb);
                    assert(logged(old(self).policy_rules@, results, *context) =~= logged(old(self).policy_rules@, rb, *context));
                }
            }
        }
        proof {
            assert(self.policy_rules@.take(n as int) =~= self.policy_rules@);
            lemma_logged_len(self.policy_rules@, results, *context);
            assert(audit_records(self.audit_log@.skip(a0.len() as int)).len() == self.audit_log@.len() - a0.len());
        }
        let passed = violations.len() == 0 && !strict;
        Ok(GovernanceReport {
            timestamp: now_millis(),
            policies_evaluated: evaluated,
            violations,
            warnings,
            passed,
        })
    }
}

impl Default for GovernanceEngine {
    /// The same as `GovernanceEngine::new()`.
    fn default() -> (r: Self)
        ensures
            r.policies().len() == 0,
            r.audit().len() == 0,
            r.mode() == EnforcementMode::Enforce,
            r.analyzer_state().graph().len() == 0,
            r.analyzer_state().cycles().len() == 0,
            r.analyzer_state().analysed_at() is None,
            r.registry_state().contexts().len() == 0,
            r.registry_state().context_maps().len() == 0,
            r.registry_state().owners().len() == 0,
            r.registry_state().acls().len() == 0,
            r.validator_state().boundaries().len() == 0,
            r.validator_state().allowed().len() == 0,
            r.validator_state().forbidden().len() == 0,
            r.validator_state().kernels().len() == 0,
            r.validator_state().rules().len() == 0,
            r.schema_gov_state().contracts().len() == 0,
            r.schema_gov_state().policies().len() == 0,
            r.schema_gov_state().rule_sets().len() == 0,
            r.schema_gov_state().deprecated_ids().len() == 0,
            r.migration_gov_state().migrations().len() == 0,
            r.migration_gov_state().policies().len() == 0,
            r.migration_gov_state().history().len() == 0,
            r.replay_gov_state().streams().len() == 0,
            r.replay_gov_state().policies().len() == 0,
            r.replay_gov_state().records().len() == 0,
            r.replay_gov_state().checks().len() == 0,
            r.federation_gov_state().domains().len() == 0,
            r.federation_gov_state().policies().len() == 0,
            r.federation_gov_state().routes().len() == 0,
            r.federation_gov_state().agreements().len() == 0,
            r.deployment_gov_state().components().len() == 0,
            r.deployment_gov_state().environments().len() == 0,
            r.deployment_gov_state().policies().len() == 0,
            r.deployment_gov_state().releases().len() == 0,
            r.deployment_gov_state().tags().len() == 0,
            r.sovereignty_reg_state().zones().len() == 0,
            r.sovereignty_reg_state().residency_policies().len() == 0,
            r.sovereignty_reg_state().jurisdictions().len() == 0,
            r.sovereignty_reg_state().partition_policies().len() == 0,
            r.sovereignty_reg_state().hierarchy().len() == 0,
    {
        Self::new()
    }
}

} // verus!
