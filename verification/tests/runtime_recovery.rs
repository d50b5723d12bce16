use sync_engine::runtime::complexity::ComplexityGovernor;
use sync_engine::recovery::replay::ReplayEngine;
use sync_engine::recovery::checkpoint::CheckpointRecoverer;
use sync_engine::error::SyncEngineError;
use sync_engine::runtime::constitution::{ConstitutionSeverity, EscalationTrigger, OperationalEscalationEngine};
use sync_engine::runtime::operations::{OperationPlan, OperationType, PlanExecutionEngine};
use sync_engine::recovery::state::{RecoveryPhase, RecoveryStateMachine};
use sync_engine::reconciliation::strategy::{ConflictStrategy, ResolutionMatrix};
use sync_engine::reconciliation::resolver::union_sorted_strings;
use sync_engine::runtime::replay_runtime::{ReplayBudget, ReplayResourceEnforcer, ReplayRuntime, ReplaySessionStatus, ResourceAccount};
use sync_engine::runtime::scheduler::{BoundedWorkerRuntime, DeterministicScheduler, OverloadController, RetryPolicy, ScheduledTask, TaskPriority, TaskType};
use sync_engine::runtime::storage::{QuotaAction, QuotaEnforcer};
use sync_engine::runtime::survivability::{BlackoutSimulator, DegradationLevel, DegradationSimulator, ExhaustionRisk, ReplayExhaustionEngine};
use sync_engine::store::KeyedStore;

#[test]
fn recovery_follows_the_phase_path() {
    let mut m = RecoveryStateMachine::new(1, "north");
    assert_eq!(m.current_phase, RecoveryPhase::Detection);
    assert!(m.transition_to(RecoveryPhase::Catchup).is_err());
    assert_eq!(m.current_phase, RecoveryPhase::Detection);
    for p in [RecoveryPhase::Isolation, RecoveryPhase::Reconnection, RecoveryPhase::Catchup,
              RecoveryPhase::Normalization, RecoveryPhase::Verification, RecoveryPhase::Complete] {
        assert!(m.transition_to(p).is_ok());
    }
    assert!(m.is_complete());
    assert_eq!(m.last_completed_phase, Some(RecoveryPhase::Verification));
}

#[test]
fn recovery_can_fail_from_any_phase_and_restart() {
    let mut m = RecoveryStateMachine::new(2, "south");
    assert!(m.transition_to(RecoveryPhase::Isolation).is_ok());
    assert!(m.transition_to(RecoveryPhase::Failed).is_ok());
    assert!(m.is_failed());
    assert!(m.transition_to(RecoveryPhase::Detection).is_ok());
    assert_eq!(m.current_phase, RecoveryPhase::Detection);
}

#[test]
fn default_matrix_strategies() {
    let m = ResolutionMatrix::default();
    assert_eq!(m.get_strategy("LedgerEntry"), Some(&ConflictStrategy::Manual));
    assert!(!m.is_auto_resolvable("LedgerEntry"));
    assert_eq!(m.get_strategy("RoleAssignment"), Some(&ConflictStrategy::AdditiveMerge));
    assert!(m.is_auto_resolvable("Unknown"));
}

#[test]
fn store_lookup_after_insert() {
    let mut s: KeyedStore<u32> = KeyedStore::new();
    s.insert("a".to_string(), 1);
    s.insert("b".to_string(), 2);
    s.insert("a".to_string(), 3);
    assert_eq!(s.get("a"), Some(&3));
    assert_eq!(s.get("b"), Some(&2));
    assert_eq!(s.len(), 2);
    s.remove("a");
    assert_eq!(s.get("a"), None);
    assert_eq!(s.get("b"), Some(&2));
}

#[test]
fn union_of_sorted_sets() {
    let a = vec!["b".to_string(), "a".to_string()];
    let b = vec!["c".to_string(), "a".to_string()];
    assert_eq!(union_sorted_strings(&a, &b), vec!["a".to_string(), "b".to_string(), "c".to_string()]);
}

fn task(id: u128, priority: TaskPriority, now: i64) -> ScheduledTask {
    ScheduledTask {
        task_id: id,
        task_type: TaskType::SyncOperation,
        priority,
        max_duration_ms: 60_000,
        memory_budget_bytes: 1024,
        deterministic_key: None,
        retry_policy: RetryPolicy::NoRetry,
        submitted_at: now,
        age_count: 0,
    }
}

#[test]
fn scheduler_picks_highest_priority_first() {
    let now = chrono::Utc::now().timestamp_millis();
    let mut s = DeterministicScheduler::new(4);
    s.submit(task(1, TaskPriority::Background, now));
    s.submit(task(2, TaskPriority::Critical, now));
    s.submit(task(3, TaskPriority::Normal, now));
    let first = s.schedule_next_at(now).unwrap();
    assert_eq!(first.task_id, 2);
    assert!(s.cancel_task(1));
    let second = s.schedule_next_at(now).unwrap();
    assert_eq!(second.task_id, 3);
    assert!(s.schedule_next_at(now).is_none());
    assert_eq!(s.cancelled_count(), 1);
}

#[test]
fn replay_runtime_bounds_sessions() {
    let mut rt = ReplayRuntime::new(1);
    let s = rt.start_session("stream", 0, 10).unwrap();
    assert_eq!(s.status, ReplaySessionStatus::Initializing);
    assert!(rt.start_session("other", 0, 5).is_none());
    let account = ResourceAccount { events_processed: 5, memory_used_bytes: 10, cpu_time_ms: 1, duration_ms: 2, checkpoint_count: 0, envelope_usage_millis: 0 };
    rt.update_resource_usage(s.session_id, account);
    assert_eq!(rt.get_active_sessions()[0].status, ReplaySessionStatus::Replaying);
    rt.complete_session(s.session_id, false);
    assert_eq!(rt.get_active_sessions()[0].status, ReplaySessionStatus::Failed);
    assert_eq!(rt.get_active_sessions()[0].resource_accounting.events_processed, 5);
}

#[test]
fn budget_violations_are_listed_in_order() {
    let budget = ReplayResourceEnforcer::create_budget(10, 100, 1000);
    let within = ResourceAccount { events_processed: 10, memory_used_bytes: 100, cpu_time_ms: 0, duration_ms: 1000, checkpoint_count: 0, envelope_usage_millis: 0 };
    assert!(ReplayResourceEnforcer::enforce_budget(&within, &budget).is_empty());
    let over = ResourceAccount { events_processed: 11, memory_used_bytes: 100, cpu_time_ms: 0, duration_ms: 1001, checkpoint_count: 0, envelope_usage_millis: 0 };
    assert_eq!(ReplayResourceEnforcer::enforce_budget(&over, &budget), vec![
        "Events processed (11) exceeds budget (10)".to_string(),
        "Duration (1001ms) exceeds budget (1000ms)".to_string(),
    ]);
    let _ = ReplayBudget { ..budget };
}

#[test]
fn quota_thresholds() {
    assert_eq!(QuotaEnforcer::check_quota("d", 74, 100).enforcement_action, QuotaAction::NoAction);
    assert_eq!(QuotaEnforcer::check_quota("d", 75, 100).enforcement_action, QuotaAction::Warn);
    assert_eq!(QuotaEnforcer::check_quota("d", 85, 100).enforcement_action, QuotaAction::Throttle);
    assert_eq!(QuotaEnforcer::check_quota("d", 95, 100).enforcement_action, QuotaAction::EmergencyCompaction);
    let full = QuotaEnforcer::check_quota("d", 100, 100);
    assert_eq!(full.enforcement_action, QuotaAction::BlockWrites);
    assert!(full.over_quota);
    assert_eq!(QuotaEnforcer::check_quota("d", 5, 0).enforcement_action, QuotaAction::NoAction);
}

#[test]
fn overload_controller_engages_and_clears() {
    let mut c = OverloadController::new(800);
    assert_eq!(c.assess_load(9, 10), 900);
    assert!(c.should_reject());
    assert!(c.degraded_since.is_some());
    assert_eq!(c.assess_load(1, 10), 100);
    assert!(!c.should_reject());
    assert!(c.degraded_since.is_none());
    assert_eq!(c.assess_load(3, 0), 0);
    let pool = BoundedWorkerRuntime::compute_pool_state(3, 4, 2);
    assert_eq!(pool.saturation_millis, 750);
}

#[test]
fn exhaustion_risk_levels() {
    let mut e = ReplayExhaustionEngine::new();
    e.record_session(40, 10, 10);
    e.record_session(40, 10, 10);
    let r = e.assess_exhaustion(100, 1000, 1000);
    assert_eq!(r.total_events_processed, 80);
    assert_eq!(r.session_count, 2);
    assert_eq!(r.exhaustion_risk, ExhaustionRisk::High);
    assert_eq!(r.recommendations.len(), 2);
    assert_eq!(e.assess_exhaustion(1000, 1000, 1000).exhaustion_risk, ExhaustionRisk::Low);
    assert_eq!(e.assess_exhaustion(160, 1000, 1000).exhaustion_risk, ExhaustionRisk::Medium);
    assert_eq!(e.assess_exhaustion(1000, 0, 1000).exhaustion_risk, ExhaustionRisk::Exhausted);
}

#[test]
fn blackout_and_degradation_simulations() {
    let b = BlackoutSimulator::new().simulate_blackout(3600, 10);
    assert_eq!(b.nodes_offline.len(), 9);
    assert_eq!(b.nodes_offline[8], "node-8");
    assert!(b.self_healed);
    assert!(!BlackoutSimulator::new().simulate_blackout(86_400, 1).self_healed);
    let d = DegradationSimulator::new().simulate_degradation(DegradationLevel::Mild, 3600, 600);
    assert_eq!(d.final_level, DegradationLevel::Severe);
    assert!(d.preservation_triggered && d.escalation_triggered && d.recovery_possible);
}

fn strings(xs: &[&str]) -> Vec<String> {
    xs.iter().map(|x| x.to_string()).collect()
}

fn edge(a: &str, b: &str) -> (String, String) {
    (a.to_string(), b.to_string())
}

#[test]
fn topology_with_reachable_cycle_is_inconsistent() {
    let v = sync_engine::runtime::verification::TopologyVerifier::new();
    let nodes = strings(&["a", "b", "c"]);
    let edges = vec![edge("a", "b"), edge("b", "c"), edge("c", "a")];
    let p = v.verify_topology(&nodes, &edges);
    assert_eq!(p.cycles_detected, 1);
    assert!(p.orphans.is_empty());
    assert!(!p.consistent);
    assert_eq!(p.node_count, 3);
}

#[test]
fn acyclic_topology_is_consistent() {
    let v = sync_engine::runtime::verification::TopologyVerifier::new();
    let nodes = strings(&["a", "b", "c"]);
    let edges = vec![edge("a", "b"), edge("a", "c"), edge("b", "c")];
    let p = v.verify_topology(&nodes, &edges);
    assert_eq!(p.cycles_detected, 0);
    assert!(p.consistent);
}

#[test]
fn self_loop_counts_as_cycle_and_unknown_nodes_are_reported() {
    let v = sync_engine::runtime::verification::TopologyVerifier::new();
    let nodes = strings(&["a"]);
    let edges = vec![edge("a", "a"), edge("a", "z")];
    let p = v.verify_topology(&nodes, &edges);
    assert_eq!(p.cycles_detected, 1);
    assert_eq!(p.orphans, vec!["Edge references unknown node: a -> z".to_string()]);
    assert!(!p.consistent);
}

#[test]
fn cycle_unreachable_from_listed_nodes_is_not_counted() {
    let v = sync_engine::runtime::verification::TopologyVerifier::new();
    let nodes = strings(&["a"]);
    let edges = vec![edge("x", "y"), edge("y", "x")];
    let p = v.verify_topology(&nodes, &edges);
    assert_eq!(p.cycles_detected, 0);
    assert_eq!(p.orphans.len(), 2);
    assert!(!p.consistent);
}

#[test]
fn survivability_needs_four_fifths_of_the_scenarios() {
    let c = sync_engine::runtime::certification::SurvivabilityCertifier::new();
    let ok = c.certify("north", 4, 5);
    assert!(ok.certified);
    assert_eq!(ok.survival_rate_millis, 800);
    assert_eq!(ok.domain, "north");
    let short = c.certify("north", 3, 5);
    assert!(!short.certified);
    assert_eq!(short.survival_rate_millis, 600);
    let none = c.certify("north", 0, 0);
    assert!(!none.certified);
    assert_eq!(none.survival_rate_millis, 0);
    let most = c.certify("south", 7, 8);
    assert!(most.certified);
    assert_eq!(most.survival_rate_millis, 875);
}

#[test]
fn matrix_lists_its_assignments_in_order() {
    let mut m = ResolutionMatrix::new(ConflictStrategy::Manual);
    m.register("b", ConflictStrategy::Lww);
    m.register("a", ConflictStrategy::AdditiveMerge);
    m.register("b", ConflictStrategy::ServiceMerge);
    let got = m.assignments();
    assert_eq!(got, vec![("b".to_string(), ConflictStrategy::ServiceMerge), ("a".to_string(), ConflictStrategy::AdditiveMerge)]);
    assert_eq!(m.default_strategy(), ConflictStrategy::Manual);
}

fn step(id: u128, duration: u64, critical: bool) -> sync_engine::runtime::operations::OperationStep {
    sync_engine::runtime::operations::OperationStep {
        step_id: id,
        action: "act".to_string(),
        expected_duration_ms: duration,
        verification: "check".to_string(),
        critical,
    }
}

#[test]
fn failed_plan_rolls_back_when_it_has_a_rollback_plan() {
    let engine = PlanExecutionEngine::new();
    let plan = OperationPlan {
        plan_id: 9,
        operation_type: OperationType::Deployment,
        sequence: vec![step(1, 10, true), step(2, 0, false), step(3, 10, true)],
        deterministic_key: vec![],
        rollback_plan: Some(77),
    };
    let r = engine.execute_plan(&plan, true);
    assert_eq!(r.completed_steps, 1);
    assert!(!r.all_steps_succeeded);
    assert!(r.first_failure.is_some());
    assert!(r.rolled_back);
    assert!(r.rollback_verified);
    let bare = OperationPlan { rollback_plan: None, ..plan };
    let r2 = engine.execute_plan(&bare, true);
    assert!(!r2.rolled_back);
    assert!(!r2.rollback_verified);
}

#[test]
fn replay_runs_agree_and_prove_determinism() {
    let p = sync_engine::runtime::verification::ReplayProofEngine::new().prove_determinism("stream-1", 3);
    assert!(p.deterministic);
    assert!(p.hashes_match);
    assert!(p.checksum_valid);
    assert_eq!(p.replay_count, 3);
    assert_eq!(p.stream_id, "stream-1");
}

#[test]
fn escalation_plan_is_due_a_day_after_it_is_made() {
    let engine = OperationalEscalationEngine::new();
    let plan = engine.escalation_plan_at(
        EscalationTrigger::DeterminismFailure,
        ConstitutionSeverity::Critical,
        "ops",
        42,
        1_000,
    );
    assert_eq!(plan.plan_id, 42);
    assert_eq!(plan.deadline, 1_000 + 86_400_000);
    assert_eq!(plan.owner, "ops");
    assert_eq!(plan.steps.len(), 3);
    assert_eq!(plan.steps[0].order, 1);
    assert_eq!(plan.steps[0].action, "Halt affected replay sessions");
    assert_eq!(plan.steps[2].action, "Trigger replay recovery");
    assert!(plan.steps.iter().all(|s| s.response.is_none() && s.completed_at.is_none()));
    let fresh = engine.create_escalation_plan(EscalationTrigger::SovereigntyBreach, ConstitutionSeverity::Fatal, "gov");
    assert_eq!(fresh.steps[0].action, "Isolate sovereignty zone");
}

fn replay_input() -> (Vec<String>, Vec<Vec<u8>>) {
    let ids = vec!["r1".to_string(), "r2".to_string(), "r1".to_string()];
    let hashes = vec![vec![1u8], vec![2u8], vec![1u8]];
    (ids, hashes)
}

#[test]
fn replay_events_skips_records_already_in_the_tree() {
    let engine = ReplayEngine::new(2, true, CheckpointRecoverer::new(100, 60));
    let (ids, hashes) = replay_input();
    let mut leaves: KeyedStore<Vec<u8>> = KeyedStore::new();
    let roots = vec![vec![], vec![9u8], vec![9u8]];
    let result = engine.replay_events(&[9u8], &ids, &hashes, &mut leaves, &roots).unwrap();
    assert_eq!(result.events_applied, 2);
    assert_eq!(result.events_skipped, 1);
    assert_eq!(result.total_batches, 2);
    assert_eq!(result.final_merkle_root, vec![9u8]);
    assert!(result.success);
    assert_eq!(leaves.get("r1"), Some(&vec![1u8]));
    assert_eq!(leaves.get("r2"), Some(&vec![2u8]));
}

#[test]
fn replay_events_stops_at_first_mismatching_batch() {
    let engine = ReplayEngine::new(2, true, CheckpointRecoverer::new(100, 60));
    let (ids, hashes) = replay_input();
    let mut leaves: KeyedStore<Vec<u8>> = KeyedStore::new();
    let roots = vec![vec![], vec![9u8], vec![8u8]];
    match engine.replay_events(&[9u8], &ids, &hashes, &mut leaves, &roots) {
        Err(SyncEngineError::Corruption(m)) => assert_eq!(m, "Merkle root mismatch at batch 1 during replay"),
        other => panic!("unexpected {:?}", other.map(|r| r.total_batches)),
    }
    let unchecked = ReplayEngine::new(2, false, CheckpointRecoverer::new(100, 60));
    let mut fresh: KeyedStore<Vec<u8>> = KeyedStore::new();
    let r = unchecked.replay_events(&[9u8], &ids, &hashes, &mut fresh, &roots).unwrap();
    assert_eq!(r.total_batches, 2);
    assert_eq!(r.final_merkle_root, vec![8u8]);
}

#[test]
fn complexity_budget_reports_each_exceeded_count() {
    let governor = ComplexityGovernor::new();
    let budget = ComplexityGovernor::create_budget("sync", 10, 5);
    assert_eq!(budget.domain, "sync");
    assert_eq!(budget.expiration_days, 365);
    let ok = governor.check_budget(&budget, 10, 5);
    assert!(ok.within_budget);
    assert!(ok.violations.is_empty());
    let over = governor.check_budget(&budget, 12, 7);
    assert!(!over.within_budget);
    assert_eq!(over.violations, vec![
        "Module count 12 exceeds budget 10".to_string(),
        "Dependency count 7 exceeds budget 5".to_string(),
    ]);
    assert_eq!(over.domain, "sync");
}

