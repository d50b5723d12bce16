//! Deterministic operations: plans for deployment, replay, reconciliation, failover
//! and recovery, their execution, federation negotiation and promotion.
use vstd::prelude::*;
use crate::env::fresh_id;
use crate::text::{cat2, cat3, cat4, cat6, cat7, owned, str_eq, str_starts_with, is_prefix_of, lists, strs_view,
    sort_strings, chars_sorted, clone_strings, id_text, uuid_text};

verus! {

/// Sequences deterministic operations.
pub struct DeterministicOperationsEngine;

/// An ordered plan of steps for one operation.
#[derive(Debug, Clone)]
pub struct OperationPlan {
    pub plan_id: u128,
    pub operation_type: OperationType,
    pub sequence: Vec<OperationStep>,
    pub deterministic_key: Vec<u8>,
    pub rollback_plan: Option<u128>,
}

/// The kind of operation a plan carries out.
#[derive(Debug, Clone, Copy, PartialEq, Eq, Structural)]
pub enum OperationType {
    Deployment,
    Replay,
    Reconciliation,
    FederationNegotiation,
    Failover,
    Rollback,
    Recovery,
    EdgeSync,
    TopologyTransition,
}

/// One step of a plan.
#[derive(Debug, Clone)]
pub struct OperationStep {
    pub step_id: u128,
    pub action: String,
    pub expected_duration_ms: u64,
    pub verification: String,
    pub critical: bool,
}

/// Orders replay streams.
pub struct ReplayCoordinator;

/// The order in which streams are replayed.
#[derive(Debug)]
pub struct ReplayCoordinationPlan {
    pub plan_id: u128,
    pub streams: Vec<String>,
    pub execution_order: Vec<String>,
    pub estimated_total_duration_ms: u64,
    pub verification_required: bool,
}

/// Plans reconciliation of conflicting keys.
pub struct ReconciliationPlanner;

/// A reconciliation plan.
#[derive(Debug)]
pub struct ReconciliationPlan {
    pub plan_id: u128,
    pub conflicting_keys: Vec<String>,
    pub merge_strategy: String,
    pub deterministic: bool,
}

/// Plans failovers.
pub struct FailoverPlanner;

/// A failover from a primary to a standby domain.
#[derive(Debug)]
pub struct FailoverPlan {
    pub plan_id: u128,
    pub primary_domain: String,
    pub standby_domain: String,
    pub failover_type: FailoverType,
    pub expected_downtime_ms: u64,
    pub data_loss_expected: bool,
}

/// How a failover is carried out.
#[derive(Debug, Clone, Copy, PartialEq, Eq, Structural)]
pub enum FailoverType {
    Graceful,
    Forced,
    Emergency,
    SovereignOverride,
}

/// Orders the recovery of domains.
pub struct RecoverySequencer;

/// The order in which domains recover, and the gates they pass.
#[derive(Debug)]
pub struct RecoverySequence {
    pub sequence_id: u128,
    pub domains: Vec<String>,
    pub recovery_order: Vec<String>,
    pub verification_gates: Vec<String>,
}

/// Executes plans step by step.
pub struct PlanExecutionEngine;

/// The outcome of executing a plan.
#[derive(Debug)]
pub struct ExecutionResult {
    pub plan_id: u128,
    pub all_steps_succeeded: bool,
    pub completed_steps: u32,
    pub total_steps: u32,
    pub first_failure: Option<String>,
    pub rolled_back: bool,
    pub rollback_verified: bool,
}

/// Negotiates agreements between sovereign zones.
pub struct FederationNegotiationEngine;

/// A phase of a federation negotiation.
#[derive(Debug, Clone, Copy, PartialEq, Eq, Structural)]
pub enum NegotiationPhase {
    Discovery,
    CapabilityExchange,
    AgreementFormation,
    Verification,
    Finalization,
}

/// The outcome of a negotiation.
#[derive(Debug)]
pub struct NegotiationResult {
    pub negotiation_id: u128,
    pub phases_completed: Vec<NegotiationPhase>,
    pub agreement_reached: bool,
    pub verification_passed: bool,
    pub phase_failures: Vec<String>,
}

/// Promotes domains through certification levels.
pub struct PromotionEngine;

/// A certification level of a domain.
#[derive(Debug, Clone, Copy, PartialEq, Eq, PartialOrd, Ord, Structural)]
pub enum PromotionLevel {
    Standard,
    Verified,
    Certified,
    Sovereign,
}

/// The outcome of a promotion attempt.
#[derive(Debug)]
pub struct PromotionResult {
    pub domain: String,
    pub from_level: PromotionLevel,
    pub to_level: PromotionLevel,
    pub promoted: bool,
    pub gates_passed: Vec<String>,
    pub gates_failed: Vec<String>,
}

impl DeterministicOperationsEngine {
    /// A new engine.
    pub fn new() -> (r: Self) {
        DeterministicOperationsEngine
    }

    /// A plan of kind `op_type` running `steps` in order, with a fresh id, an empty
    /// deterministic key and no rollback plan.
    pub fn create_plan(&self, op_type: OperationType, steps: Vec<OperationStep>) -> (r: OperationPlan)
        ensures
            r.operation_type == op_type,
            r.sequence == steps,
            r.deterministic_key@.len() == 0,
            r.rollback_plan is None,
    {
        OperationPlan {
            plan_id: fresh_id(),
            operation_type: op_type,
            sequence: steps,
            deterministic_key: Vec::new(),
            rollback_plan: None,
        }
    }
}

impl ReplayCoordinator {
    /// A new coordinator.
    pub fn new() -> (r: Self) {
        ReplayCoordinator
    }

    /// Replays the streams in ascending name order, allowing ten seconds per stream.
    pub fn create_coordination_plan(&self, streams: Vec<String>) -> (r: ReplayCoordinationPlan)
        requires
            streams@.len() * 10000 <= u64::MAX,
        ensures
            r.streams == streams,
            strs_view(r.execution_order@).to_multiset() == strs_view(streams@).to_multiset(),
            chars_sorted(strs_view(r.execution_order@)),
            r.estimated_total_duration_ms == streams@.len() * 10000,
            r.verification_required,
    {
        let mut order = clone_strings(&streams);
        sort_strings(&mut order);
        let n = order.len() as u64;
        ReplayCoordinationPlan {
            plan_id: fresh_id(),
            streams,
            estimated_total_duration_ms: n * 10000,
            execution_order: order,
            verification_required: true,
        }
    }
}

impl ReconciliationPlanner {
    /// A new planner.
    pub fn new() -> (r: Self) {
        ReconciliationPlanner
    }

    /// A deterministic CRDT auto-merge plan for `keys`.
    pub fn create_plan(&self, keys: Vec<String>) -> (r: ReconciliationPlan)
        ensures
            r.conflicting_keys == keys,
            r.merge_strategy@ == "CRDT-auto-merge"@,
            r.deterministic,
    {
        ReconciliationPlan {
            plan_id: fresh_id(),
            conflicting_keys: keys,
            merge_strategy: owned("CRDT-auto-merge"),
            deterministic: true,
        }
    }
}

/// The downtime expected of a failover of type `t`, in milliseconds.
pub open spec fn failover_downtime(t: FailoverType) -> u64 {
    match t {
        FailoverType::Graceful => 5000,
        FailoverType::Forced => 1000,
        FailoverType::Emergency => 100,
        FailoverType::SovereignOverride => 0,
    }
}

impl FailoverPlanner {
    /// A new planner.
    pub fn new() -> (r: Self) {
        FailoverPlanner
    }

    /// A failover plan from `primary` to `standby`; only an emergency failover expects data loss.
    pub fn create_plan(&self, primary: &str, standby: &str, ftype: FailoverType) -> (r: FailoverPlan)
        ensures
            r.primary_domain@ == primary@,
            r.standby_domain@ == standby@,
            r.failover_type == ftype,
            r.expected_downtime_ms == failover_downtime(ftype),
            r.data_loss_expected == (ftype == FailoverType::Emergency),
    {
        let downtime: u64 = match ftype {
            FailoverType::Graceful => 5000,
            FailoverType::Forced => 1000,
            FailoverType::Emergency => 100,
            FailoverType::SovereignOverride => 0,
        };
        FailoverPlan {
            plan_id: fresh_id(),
            primary_domain: owned(primary),
            standby_domain: owned(standby),
            failover_type: ftype,
            expected_downtime_ms: downtime,
            data_loss_expected: ftype == FailoverType::Emergency,
        }
    }
}

/// The domains other than "sovereign", in order.
pub open spec fn non_sovereign(ds: Seq<String>) -> Seq<Seq<char>>
    decreases ds.len(),
{
    if ds.len() == 0 {
        Seq::<Seq<char>>::empty()
    } else if ds.last()@ == "sovereign"@ {
        non_sovereign(ds.drop_last())
    } else {
        non_sovereign(ds.drop_last()).push(ds.last()@)
    }
}

/// The recovery order: "sovereign" first where it is listed, then the other domains in order.
pub open spec fn recovery_order(ds: Seq<String>) -> Seq<Seq<char>> {
    (if lists(ds, "sovereign"@) { seq!["sovereign"@] } else { Seq::<Seq<char>>::empty() }) + non_sovereign(ds)
}

impl RecoverySequencer {
    /// A new sequencer.
    pub fn new() -> (r: Self) {
        RecoverySequencer
    }

    /// The recovery sequence for `domains`: the sovereign domain recovers first, the others
    /// follow in the given order, and four verification gates are passed.
    pub fn create_sequence(&self, domains: Vec<String>) -> (r: RecoverySequence)
        ensures
            r.domains == domains,
            strs_view(r.recovery_order@) == recovery_order(domains@),
            strs_view(r.verification_gates@) == seq![
                "State integrity verified"@,
                "Federation trust re-established"@,
                "Replay checksum validated"@,
                "Governance compliance confirmed"@,
            ],
    {
        let mut order: Vec<String> = Vec::new();
        if crate::text::list_contains(&domains, "sovereign") {
            order.push(owned("sovereign"));
        }
        let ghost head = strs_view(order@);
        let n = domains.len();
        for i in 0..n
            invariant
                n == domains@.len(),
                strs_view(order@) == head + non_sovereign(domains@.take(i as int)),
        {
            assert(domains@.take(i + 1).drop_last() =~= domains@.take(i as int));
            let ghost prev = order@;
            if !str_eq(domains[i].as_str(), "sovereign") {
                order.push(domains[i].clone());
                assert(strs_view(order@) =~= strs_view(prev).push(domains@[i as int]@));
            }
            assert(strs_view(order@) =~= head + non_sovereign(domains@.take(i + 1)));
        }
        assert(domains@.take(n as int) =~= domains@);
        let mut gates: Vec<String> = Vec::new();
        gates.push(owned("State integrity verified"));
        gates.push(owned("Federation trust re-established"));
        gates.push(owned("Replay checksum validated"));
        gates.push(owned("Governance compliance confirmed"));
        assert(strs_view(gates@) =~= seq![
            "State integrity verified"@,
            "Federation trust re-established"@,
            "Replay checksum validated"@,
            "Governance compliance confirmed"@,
        ]);
        RecoverySequence {
            sequence_id: fresh_id(),
            domains,
            recovery_order: order,
            verification_gates: gates,
        }
    }
}

/// A step passes: without verification every step passes; with it, a step passes when
/// it has a positive expected duration, an action and a verification.
pub open spec fn step_passes(step: OperationStep, verify: bool) -> bool {
    !verify || (step.expected_duration_ms > 0 && step.action@.len() != 0 && step.verification@.len() != 0)
}

/// `i` is the first step that does not pass.
pub open spec fn first_failing_step(steps: Seq<OperationStep>, verify: bool, i: int) -> bool {
    &&& 0 <= i < steps.len()
    &&& !step_passes(steps[i], verify)
    &&& forall|j: int| 0 <= j < i ==> step_passes(#[trigger] steps[j], verify)
}

/// The failure report of a step.
pub open spec fn step_failure_text(step: OperationStep) -> Seq<char> {
    "Step "@ + uuid_text(step.step_id) + " ("@ + step.action@ + ") failed: "@ + step.verification@
}

impl PlanExecutionEngine {
    /// A new engine.
    pub fn new() -> (r: Self) {
        PlanExecutionEngine
    }

    /// Executes the steps of `plan` in order, each verified before the next, until one
    /// fails. A failed plan is rolled back when it has a rollback plan, and that rollback is
    /// verified.
    pub fn execute_plan(&self, plan: &OperationPlan, verify_each_step: bool) -> (r: ExecutionResult)
        requires
            plan.sequence@.len() <= u32::MAX,
        ensures
            r.plan_id == plan.plan_id,
            r.total_steps == plan.sequence@.len(),
            match r.first_failure {
                Some(msg) => exists|i: int| first_failing_step(plan.sequence@, verify_each_step, i)
                    && msg@ == step_failure_text(plan.sequence@[i])
                    && r.completed_steps == i
                    && r.rolled_back == plan.rollback_plan is Some,
                None => (forall|i: int| 0 <= i < plan.sequence@.len() ==> step_passes(#[trigger] plan.sequence@[i], verify_each_step))
                    && r.completed_steps == plan.sequence@.len()
                    && !r.rolled_back,
            },
            r.all_steps_succeeded == r.first_failure is None,
            r.rollback_verified == (r.rolled_back && plan.rollback_plan is Some),
    {
        let total = plan.sequence.len() as u32;
        let mut completed: u32 = 0;
        let mut first_failure: Option<String> = None;
        let mut rolled_back = false;
        let n = plan.sequence.len();
        let mut i: usize = 0;
        while i < n
            invariant
                n == plan.sequence@.len(),
                n <= u32::MAX,
                total == n,
                i <= n,
                completed == i,
                first_failure is None,
                !rolled_back,
                forall|j: int| 0 <= j < i ==> step_passes(#[trigger] plan.sequence@[j], verify_each_step),
            decreases n - i,
        {
            let step = &plan.sequence[i];
            if self.execute_step(step, verify_each_step) {
                completed = completed + 1;
                i = i + 1;
            } else {
                let text = cat6("Step ", id_text(step.step_id).as_str(), " (", step.action.as_str(), ") failed: ",
                    step.verification.as_str());
                proof {
                    assert(first_failing_step(plan.sequence@, verify_each_step, i as int));
                }
                first_failure = Some(text);
                if plan.rollback_plan.is_some() {
                    rolled_back = true;
                }
                let all = first_failure.is_none();
                return ExecutionResult {
                    plan_id: plan.plan_id,
                    all_steps_succeeded: all,
                    completed_steps: completed,
                    total_steps: total,
                    first_failure,
                    rolled_back,
                    rollback_verified: rolled_back && plan.rollback_plan.is_some(),
                };
            }
        }
        ExecutionResult {
            plan_id: plan.plan_id,
            all_steps_succeeded: true,
            completed_steps: completed,
            total_steps: total,
            first_failure: None,
            rolled_back: false,
            rollback_verified: false,
        }
    }

    /// Whether `step` passes; see `step_passes`.
    fn execute_step(&self, step: &OperationStep, verify: bool) -> (r: bool)
        ensures
            r == step_passes(*step, verify),
    {
        if !verify {
            return true;
        }
        step.expected_duration_ms > 0 && !step.action.as_str().is_empty() && !step.verification.as_str().is_empty()
    }
}

/// The phases of a negotiation, in order.
pub open spec fn negotiation_phases() -> Seq<NegotiationPhase> {
    seq![NegotiationPhase::Discovery, NegotiationPhase::CapabilityExchange, NegotiationPhase::AgreementFormation,
        NegotiationPhase::Verification, NegotiationPhase::Finalization]
}

/// Some constraint begins with `prefix`.
pub open spec fn some_constraint_begins(cs: Seq<String>, prefix: Seq<char>) -> bool {
    exists|i: int| 0 <= i < cs.len() && is_prefix_of(prefix, (#[trigger] cs[i])@)
}

/// Whether a phase succeeds under the constraints.
pub open spec fn phase_succeeds(p: NegotiationPhase, cs: Seq<String>) -> bool {
    match p {
        NegotiationPhase::Discovery => cs.len() != 0,
        NegotiationPhase::CapabilityExchange => some_constraint_begins(cs, "capability:"@),
        NegotiationPhase::AgreementFormation => some_constraint_begins(cs, "agreement:"@),
        NegotiationPhase::Verification => some_constraint_begins(cs, "verify:"@),
        NegotiationPhase::Finalization => true,
    }
}

/// How many phases succeed before the first that fails (five when none fails).
pub open spec fn phases_reached(cs: Seq<String>) -> nat {
    if !phase_succeeds(NegotiationPhase::Discovery, cs) {
        0
    } else if !phase_succeeds(NegotiationPhase::CapabilityExchange, cs) {
        1
    } else if !phase_succeeds(NegotiationPhase::AgreementFormation, cs) {
        2
    } else if !phase_succeeds(NegotiationPhase::Verification, cs) {
        3
    } else {
        5
    }
}

/// The name under which a phase is reported.
pub open spec fn phase_name(p: NegotiationPhase) -> Seq<char> {
    match p {
        NegotiationPhase::Discovery => "Discovery"@,
        NegotiationPhase::CapabilityExchange => "CapabilityExchange"@,
        NegotiationPhase::AgreementFormation => "AgreementFormation"@,
        NegotiationPhase::Verification => "Verification"@,
        NegotiationPhase::Finalization => "Finalization"@,
    }
}

impl NegotiationPhase {
    /// The name under which the phase is reported.
    pub fn name(&self) -> (r: &'static str)
        ensures
            r@ == phase_name(*self),
    {
        match self {
            NegotiationPhase::Discovery => "Discovery",
            NegotiationPhase::CapabilityExchange => "CapabilityExchange",
            NegotiationPhase::AgreementFormation => "AgreementFormation",
            NegotiationPhase::Verification => "Verification",
            NegotiationPhase::Finalization => "Finalization",
        }
    }
}

/// Whether some constraint begins with `prefix`.
fn any_constraint_begins(constraints: &[String], prefix: &str) -> (r: bool)
    ensures
        r == some_constraint_begins(constraints@, prefix@),
{
    let n = constraints.len();
    for i in 0..n
        invariant
            n == constraints@.len(),
            forall|j: int| 0 <= j < i ==> !is_prefix_of(prefix@, (#[trigger] constraints@[j])@),
    {
        if str_starts_with(constraints[i].as_str(), prefix) {
            return true;
        }
    }
    false
}

impl FederationNegotiationEngine {
    /// A new engine.
    pub fn new() -> (r: Self) {
        FederationNegotiationEngine
    }

    /// Runs the negotiation phases in order and stops at the first that fails: discovery
    /// needs a constraint; capability exchange, agreement formation and verification need a
    /// constraint beginning "capability:", "agreement:" and "verify:"; finalization always succeeds.
    pub fn negotiate(&self, local_zone: &str, remote_zone: &str, constraints: &[String]) -> (r: NegotiationResult)
        ensures
            r.phases_completed@ == negotiation_phases().take(phases_reached(constraints@) as int),
            strs_view(r.phase_failures@) == if phases_reached(constraints@) < 5 {
                seq!["Phase "@ + phase_name(negotiation_phases()[phases_reached(constraints@) as int]) + " failed between '"@
                    + local_zone@ + "' and '"@ + remote_zone@ + "'"@]
            } else {
                Seq::<Seq<char>>::empty()
            },
            r.agreement_reached == (phases_reached(constraints@) == 5),
            r.verification_passed == (phases_reached(constraints@) == 5),
    {
        let mut phases: Vec<NegotiationPhase> = Vec::new();
        phases.push(NegotiationPhase::Discovery);
        phases.push(NegotiationPhase::CapabilityExchange);
        phases.push(NegotiationPhase::AgreementFormation);
        phases.push(NegotiationPhase::Verification);
        phases.push(NegotiationPhase::Finalization);
        assert(phases@ =~= negotiation_phases());
        let mut completed: Vec<NegotiationPhase> = Vec::new();
        let mut failures: Vec<String> = Vec::new();
        let mut i: usize = 0;
        while i < 5
            invariant
                phases@ == negotiation_phases(),
                i <= 5,
                completed@ == negotiation_phases().take(i as int),
                failures@.len() == 0,
                forall|j: int| 0 <= j < i ==> phase_succeeds(#[trigger] negotiation_phases()[j], constraints@),
            decreases 5 - i,
        {
            let phase = phases[i];
            let ok = self.execute_negotiation_phase(phase, local_zone, remote_zone, constraints);
            if ok {
                completed.push(phase);
                assert(completed@ =~= negotiation_phases().take(i + 1));
                i = i + 1;
            } else {
                failures.push(cat7("Phase ", phase.name(), " failed between '", local_zone, "' and '", remote_zone, "'"));
                assert(phases_reached(constraints@) == i) by {
                    if i > 0 { assert(phase_succeeds(negotiation_phases()[0], constraints@)); }
                    if i > 1 { assert(phase_succeeds(negotiation_phases()[1], constraints@)); }
                    if i > 2 { assert(phase_succeeds(negotiation_phases()[2], constraints@)); }
                    if i > 3 { assert(phase_succeeds(negotiation_phases()[3], constraints@)); }
                }
                assert(strs_view(failures@) =~= seq!["Phase "@ + phase_name(negotiation_phases()[i as int]) + " failed between '"@
                    + local_zone@ + "' and '"@ + remote_zone@ + "'"@]);
                return NegotiationResult {
                    negotiation_id: fresh_id(),
                    phases_completed: completed,
                    agreement_reached: false,
                    verification_passed: false,
                    phase_failures: failures,
                };
            }
        }
        proof {
            assert(phase_succeeds(negotiation_phases()[0], constraints@));
            assert(phase_succeeds(negotiation_phases()[1], constraints@));
            assert(phase_succeeds(negotiation_phases()[2], constraints@));
            assert(phase_succeeds(negotiation_phases()[3], constraints@));
        }
        assert(strs_view(failures@) =~= Seq::<Seq<char>>::empty());
        let all_complete = completed.len() == 5;
        NegotiationResult {
            negotiation_id: fresh_id(),
            phases_completed: completed,
            agreement_reached: all_complete,
            verification_passed: all_complete,
            phase_failures: failures,
        }
    }

    /// Whether `phase` succeeds under `constraints`; see `phase_succeeds`.
    fn execute_negotiation_phase(&self, phase: NegotiationPhase, _local: &str, _remote: &str, constraints: &[String]) -> (r: bool)
        ensures
            r == phase_succeeds(phase, constraints@),
    {
        match phase {
            NegotiationPhase::Discovery => constraints.len() != 0,
            NegotiationPhase::CapabilityExchange => any_constraint_begins(constraints, "capability:"),
            NegotiationPhase::AgreementFormation => any_constraint_begins(constraints, "agreement:"),
            NegotiationPhase::Verification => any_constraint_begins(constraints, "verify:"),
            NegotiationPhase::Finalization => true,
        }
    }
}

/// The rank of a promotion level, lowest first.
pub open spec fn level_rank(l: PromotionLevel) -> int {
    match l {
        PromotionLevel::Standard => 0,
        PromotionLevel::Verified => 1,
        PromotionLevel::Certified => 2,
        PromotionLevel::Sovereign => 3,
    }
}

/// The level after a successful promotion from `l`.
pub open spec fn next_level(l: PromotionLevel) -> PromotionLevel {
    match l {
        PromotionLevel::Standard => PromotionLevel::Verified,
        PromotionLevel::Verified => PromotionLevel::Certified,
        PromotionLevel::Certified => PromotionLevel::Sovereign,
        PromotionLevel::Sovereign => PromotionLevel::Sovereign,
    }
}

/// The gates a promotion from `from` must pass, each with whether it passes.
pub open spec fn promotion_gates(from: PromotionLevel, cert: bool, gov: bool, replay: bool) -> Seq<(bool, Seq<char>)> {
    (if level_rank(from) < 1 {
        seq![(true, "Standard \u{2192} Verified: baseline checks"@), (true, "Domain registration verified"@)]
    } else {
        Seq::<(bool, Seq<char>)>::empty()
    }) + (if level_rank(from) < 2 {
        seq![(cert, "Certification valid"@), (gov, "Governance compliance"@)]
    } else {
        Seq::<(bool, Seq<char>)>::empty()
    }) + (if level_rank(from) < 3 {
        seq![(replay, "Replay determinism verified"@), (cert && gov && replay, "All sovereign gates passed"@)]
    } else {
        Seq::<(bool, Seq<char>)>::empty()
    })
}

/// The names of the gates whose outcome is `outcome`, in order.
pub open spec fn gate_names(gates: Seq<(bool, Seq<char>)>, outcome: bool) -> Seq<Seq<char>>
    decreases gates.len(),
{
    if gates.len() == 0 {
        Seq::<Seq<char>>::empty()
    } else if gates.last().0 == outcome {
        gate_names(gates.drop_last(), outcome).push(gates.last().1)
    } else {
        gate_names(gates.drop_last(), outcome)
    }
}

/// Every gate passes.
pub open spec fn all_gates_pass(gates: Seq<(bool, Seq<char>)>) -> bool {
    forall|i: int| 0 <= i < gates.len() ==> (#[trigger] gates[i]).0
}

impl PromotionEngine {
    /// A new engine.
    pub fn new() -> (r: Self) {
        PromotionEngine
    }

    /// Promotes `domain` one level up from `from` when every gate passes; otherwise the
    /// domain stays at `from`.
    pub fn promote(&self, domain: &str, from: PromotionLevel, certification: bool, governance_pass: bool, replay_verified: bool) -> (r: PromotionResult)
        ensures
            r.domain@ == domain@,
            r.from_level == from,
            r.promoted == all_gates_pass(promotion_gates(from, certification, governance_pass, replay_verified)),
            r.to_level == if r.promoted { next_level(from) } else { from },
            strs_view(r.gates_passed@) == gate_names(promotion_gates(from, certification, governance_pass, replay_verified), true),
            strs_view(r.gates_failed@) == gate_names(promotion_gates(from, certification, governance_pass, replay_verified), false),
    {
        let gates = self.compute_gates(from, certification, governance_pass, replay_verified);
        let ghost g = promotion_gates(from, certification, governance_pass, replay_verified);
        let mut all_passed = true;
        let mut passed: Vec<String> = Vec::new();
        let mut failed: Vec<String> = Vec::new();
        let n = gates.len();
        for i in 0..n
            invariant
                n == gates@.len(),
                gates@.len() == g.len(),
                forall|j: int| 0 <= j < g.len() ==> (#[trigger] gates@[j]).0 == g[j].0 && gates@[j].1@ == g[j].1,
                all_passed == all_gates_pass(g.take(i as int)),
                strs_view(passed@) == gate_names(g.take(i as int), true),
                strs_view(failed@) == gate_names(g.take(i as int), false),
        {
            assert(g.take(i + 1).drop_last() =~= g.take(i as int));
            let (ok, name) = (gates[i].0, &gates[i].1);
            let ghost pp = passed@;
            let ghost ff = failed@;
            if ok {
                passed.push(name.clone());
                assert(strs_view(passed@) =~= strs_view(pp).push(name@));
            } else {
                failed.push(name.clone());
                assert(strs_view(failed@) =~= strs_view(ff).push(name@));
                all_passed = false;
            }
            assert(all_passed == all_gates_pass(g.take(i + 1))) by {
                if all_passed {
                    assert forall|j: int| 0 <= j < i + 1 implies (#[trigger] g.take(i + 1)[j]).0 by {
                        if j < i { assert(g.take(i as int)[j] == g.take(i + 1)[j]); }
                    }
                } else if !ok {
                    assert(!g.take(i + 1)[i as int].0);
                } else {
                    let k = choose|k: int| 0 <= k < i && !(#[trigger] g.take(i as int)[k]).0;
                    assert(g.take(i + 1)[k] == g.take(i as int)[k]);
                }
            }
        }
        assert(g.take(n as int) =~= g);
        let to = if all_passed {
            match from {
                PromotionLevel::Standard => PromotionLevel::Verified,
                PromotionLevel::Verified => PromotionLevel::Certified,
                PromotionLevel::Certified => PromotionLevel::Sovereign,
                PromotionLevel::Sovereign => PromotionLevel::Sovereign,
            }
        } else {
            from
        };
        PromotionResult {
            domain: owned(domain),
            from_level: from,
            to_level: to,
            promoted: all_passed,
            gates_passed: passed,
            gates_failed: failed,
        }
    }

    /// The gates of a promotion from `from`; see `promotion_gates`.
    fn compute_gates(&self, from: PromotionLevel, cert: bool, gov: bool, replay: bool) -> (r: Vec<(bool, String)>)
        ensures
            r@.len() == promotion_gates(from, cert, gov, replay).len(),
            forall|j: int| 0 <= j < r@.len() ==> (#[trigger] r@[j]).0 == promotion_gates(from, cert, gov, replay)[j].0
                && r@[j].1@ == promotion_gates(from, cert, gov, replay)[j].1,
    {
        let rank: u8 = match from {
            PromotionLevel::Standard => 0,
            PromotionLevel::Verified => 1,
            PromotionLevel::Certified => 2,
            PromotionLevel::Sovereign => 3,
        };
        let mut gates: Vec<(bool, String)> = Vec::new();
        if rank < 1 {
            gates.push((true, owned("Standard \u{2192} Verified: baseline checks")));
            gates.push((true, owned("Domain registration verified")));
        }
        if rank < 2 {
            gates.push((cert, owned("Certification valid")));
            gates.push((gov, owned("Governance compliance")));
        }
        if rank < 3 {
            gates.push((replay, owned("Replay determinism verified")));
            gates.push((cert && gov && replay, owned("All sovereign gates passed")));
        }
        proof {
            let g = promotion_gates(from, cert, gov, replay);
            assert(gates@.len() == g.len());
            assert forall|j: int| 0 <= j < gates@.len() implies (#[trigger] gates@[j]).0 == g[j].0 && gates@[j].1@ == g[j].1 by {
            }
        }
        gates
    }
}

impl Default for DeterministicOperationsEngine {
    /// The same as `DeterministicOperationsEngine::new()`.
    fn default() -> (r: Self)
    {
        Self::new()
    }
}

impl Default for ReplayCoordinator {
    /// The same as `ReplayCoordinator::new()`.
    fn default() -> (r: Self)
    {
        Self::new()
    }
}

impl Default for ReconciliationPlanner {
    /// The same as `ReconciliationPlanner::new()`.
    fn default() -> (r: Self)
    {
        Self::new()
    }
}

impl Default for FailoverPlanner {
    /// The same as `FailoverPlanner::new()`.
    fn default() -> (r: Self)
    {
        Self::new()
    }
}

impl Default for RecoverySequencer {
    /// The same as `RecoverySequencer::new()`.
    fn default() -> (r: Self)
    {
        Self::new()
    }
}

impl Default for PlanExecutionEngine {
    /// The same as `PlanExecutionEngine::new()`.
    fn default() -> (r: Self)
    {
        Self::new()
    }
}

impl Default for FederationNegotiationEngine {
    /// The same as `FederationNegotiationEngine::new()`.
    fn default() -> (r: Self)
    {
        Self::new()
    }
}

impl Default for PromotionEngine {
    /// The same as `PromotionEngine::new()`.
    fn default() -> (r: Self)
    {
        Self::new()
    }
}

} // verus!
