use sync_engine::governance::analyzer::DependencyAnalyzer;
use sync_engine::governance::event_registry::{ContractStatus, DeprecationRequest, EventContract, EventRegistry, EventType};
use sync_engine::governance::replay::{ReplayEnforcement, ReplayGovernance, ReplayPolicy, ReplayStream};
use sync_engine::governance::schema::{CompatibilityPolicy, EvolutionRule, EvolutionRuleDefinition, SchemaContract, SchemaField, SchemaGovernance, SchemaStatus, SchemaType};
use sync_engine::governance::schema_evolution::{EvolutionType, MigrationStrategy, SchemaEvolution, SchemaEvolutionEngine};
use sync_engine::governance::{EnforcementMode, GovernanceContext, GovernanceDecision, GovernanceEngine, GovernancePolicy, PolicyEvalResult, PolicyRule, PolicySeverity};

fn version(s: &str) -> semver::Version {
    semver::Version::parse(s).unwrap()
}

#[test]
fn analyzer_records_dependencies_both_ways() {
    let mut a = DependencyAnalyzer::new();
    a.register_dependency("orders", "billing");
    a.register_dependency("orders", "billing");
    a.register_dependency("orders", "orders");
    assert!(a.has_dependency("orders", "billing"));
    assert!(!a.has_dependency("billing", "orders"));
    assert!(!a.has_dependency("orders", "orders"));
    let counts = a.coupling_counts("orders");
    assert_eq!(counts.efferent_coupling, 1);
    assert_eq!(counts.afferent_coupling, 0);
    assert!(counts.high_instability);
    assert!(!counts.far_from_main);
    let billing = a.coupling_counts("billing");
    assert_eq!(billing.afferent_coupling, 1);
    assert!(billing.far_from_main);
    assert_eq!(a.component_names(), vec!["orders".to_string(), "billing".to_string()]);
}

#[test]
fn analyzer_finds_the_cycle() {
    let mut a = DependencyAnalyzer::new();
    a.register_dependency("a", "b");
    a.register_dependency("b", "c");
    a.register_dependency("c", "a");
    a.register_dependency("c", "d");
    let cycles = a.detect_cycles();
    assert_eq!(cycles.len(), 1);
    assert_eq!(cycles[0].nodes, vec!["a".to_string(), "b".to_string(), "c".to_string()]);
    assert_eq!(cycles[0].length, 3);
    assert_eq!(a.recorded_cycles().len(), 1);
}

#[test]
fn analyzer_without_cycles_reports_none() {
    let mut a = DependencyAnalyzer::new();
    a.register_dependency("a", "b");
    a.register_dependency("a", "c");
    a.register_dependency("b", "c");
    assert!(a.detect_cycles().is_empty());
}

#[test]
fn impact_follows_dependents_transitively() {
    let mut a = DependencyAnalyzer::new();
    a.register_dependency("api", "core");
    a.register_dependency("ui", "api");
    a.register_dependency("core", "db");
    let impact = a.compute_impact_analysis("core");
    assert_eq!(impact.changed_component, "core");
    assert_eq!(impact.directly_affected, vec!["api".to_string(), "ui".to_string()]);
    assert_eq!(impact.total_affected, 2);
    // the change to core's dependency db affects core, api and ui
    assert_eq!(impact.transitive_dependencies, vec!["core".to_string(), "api".to_string(), "ui".to_string()]);
    let none = a.compute_impact_analysis("unknown");
    assert!(none.directly_affected.is_empty());
    assert_eq!(none.total_affected, 0);
}

#[test]
fn coupling_score_threshold_is_exact() {
    let mut a = DependencyAnalyzer::new();
    a.register_dependency("x", "y");
    // x: one dependency, no dependents: score 0.7
    assert!(a.coupling_exceeds("x", 650));
    assert!(!a.coupling_exceeds("x", 700));
    // an unknown component scores 0.6
    assert!(a.coupling_exceeds("nothing", 599));
    assert!(!a.coupling_exceeds("nothing", 600));
}

fn stream(id: &str, deterministic: bool, checksum: Vec<u8>) -> ReplayStream {
    ReplayStream {
        stream_id: id.to_string(),
        name: id.to_string(),
        domain: "health".to_string(),
        event_types: vec![],
        total_events: 10,
        last_replay: None,
        deterministic,
        checksum,
        schema_version: "1".to_string(),
    }
}

#[test]
fn replay_determinism_and_safety() {
    let mut g = ReplayGovernance::new();
    g.register_stream(stream("s1", true, vec![1, 2, 3, 4, 5, 6, 7, 8, 9]));
    g.register_stream(stream("s2", false, vec![]));
    assert!(matches!(g.check_determinism("s1"), PolicyEvalResult::Pass));
    match g.check_determinism("s2") {
        PolicyEvalResult::Violation(v) => {
            assert_eq!(v.severity, PolicySeverity::Critical);
            assert_eq!(v.remediations.len(), 3);
        }
        _ => panic!("expected a violation"),
    }
    match g.check_determinism("nope") {
        PolicyEvalResult::Violation(v) => {
            assert_eq!(v.severity, PolicySeverity::Error);
            assert_eq!(v.message, "Stream 'nope' not registered for replay governance");
        }
        _ => panic!("expected a violation"),
    }
    let report = g.get_safety_report("s2");
    assert!(!report.safe);
    assert_eq!(report.violations, vec!["Stream is not deterministic".to_string(), "Stream has no checksum for verification".to_string()]);
    assert!(g.get_safety_report("s1").safe);
}

#[test]
fn replay_verification_detects_checksum_mismatch() {
    let mut g = ReplayGovernance::new();
    g.register_stream(stream("s1", true, vec![0xaa; 8]));
    g.register_policy(ReplayPolicy {
        policy_id: "p".to_string(),
        require_determinism: true,
        require_checksum_verification: true,
        max_replay_divergence_detected: 0,
        require_event_ordering: true,
        require_causal_consistency: true,
        enforcement: ReplayEnforcement::Block,
    });
    let ok = g.verify_replay("s1", 5, &[0xaa; 8]);
    assert!(ok.checksum_match && ok.determinism_verified && ok.issues.is_empty());
    let bad = g.verify_replay("s1", 5, &[0x0b; 8]);
    assert!(!bad.checksum_match);
    assert!(!bad.determinism_verified);
    assert_eq!(bad.divergence_detected, 100);
    assert_eq!(bad.issues[0], "Checksum mismatch: expected [aa, aa, aa, aa, aa, aa, aa, aa], got [b, b, b, b, b, b, b, b]");
    assert_eq!(bad.issues.len(), 2);
    assert_eq!(g.get_verification_history().len(), 2);
}

fn schema_contract(id: &str) -> SchemaContract {
    SchemaContract {
        contract_id: id.to_string(),
        name: "Patient".to_string(),
        version: version("1.0.0"),
        schema_type: SchemaType::Event,
        domain: "health".to_string(),
        owner: "team".to_string(),
        fields: vec![SchemaField {
            name: "ssn".to_string(),
            field_type: "string".to_string(),
            required: true,
            deprecated: false,
            description: String::new(),
            constraints: vec![],
            removed_in_version: Some("2.0.0".to_string()),
        }],
        status: SchemaStatus::Active,
        fingerprint: "fp".to_string(),
        created_at: 0,
        checksum: vec![],
    }
}

#[test]
fn schema_evolution_checks() {
    let mut g = SchemaGovernance::new();
    g.register_contract(schema_contract("c1"));
    g.register_compatibility_policy(CompatibilityPolicy {
        contract_id: "c1".to_string(),
        backward_compatible: true,
        forward_compatible: true,
        require_field_preservation: true,
        max_field_removals: 0,
        require_idempotency: true,
    });
    let report = g.validate_evolution("c1", "1.0.0", "2.0.0");
    assert!(!report.backward_compatible);
    assert_eq!(report.violations, vec!["Requires backward compatibility but field 'ssn' was removed".to_string()]);
    assert_eq!(report.breaking_changes, vec!["Removed field 'ssn'".to_string()]);
    assert!(g.validate_evolution("c1", "1.0.0", "1.1.0").backward_compatible);

    g.register_evolution_rule(EvolutionRuleDefinition { contract_id: "c1".to_string(), rules: vec![EvolutionRule::AllowAddField] });
    assert!(matches!(g.check_evolution_rule("c1", &EvolutionRule::AllowAddField), PolicyEvalResult::Pass));
    match g.check_evolution_rule("c1", &EvolutionRule::RequireFieldPreservation("ssn".to_string())) {
        PolicyEvalResult::Violation(v) => assert_eq!(v.message, "Evolution rule 'RequireFieldPreservation(\"ssn\")' not allowed for contract 'c1'"),
        _ => panic!("expected a violation"),
    }
    assert_eq!(g.generate_schema_digest("c1"), Some("fp".to_string()));
    assert_eq!(g.list_active_contracts().len(), 1);
    assert!(g.deprecate_contract("c1").is_ok());
    assert!(g.list_active_contracts().is_empty());
    assert!(g.deprecate_contract("c9").is_err());
}

fn event_contract(id: &str, name: &str, v: &str, status: ContractStatus) -> EventContract {
    EventContract {
        contract_id: id.to_string(),
        event_name: name.to_string(),
        domain: "d".to_string(),
        version: version(v),
        schema_fingerprint: vec![],
        proto_definition: String::new(),
        event_type: EventType::DomainEvent,
        status,
        created_at: 0,
        superseded_by: None,
        audit_hash: vec![],
    }
}

#[test]
fn event_registry_versions_and_deprecation() {
    let mut r = EventRegistry::new();
    r.register_contract(event_contract("c1", "orders.created", "1.0.0", ContractStatus::Active));
    r.register_contract(event_contract("c2", "orders.created", "1.2.0", ContractStatus::Active));
    r.register_contract(event_contract("c3", "orders.created", "2.0.0", ContractStatus::Retired));
    assert_eq!(r.get_contract("orders.created", &version("1.2.0")).unwrap().contract_id, "c2");
    assert_eq!(r.get_latest_contract("orders.created").unwrap().contract_id, "c2");
    assert!(r.get_latest_contract("payments").is_none());
    assert_eq!(r.get_all_versions("orders.created").len(), 3);
    assert!(r.validate_replay_compatibility("orders.created", "1.0.0", "1.2.0"));
    assert!(!r.validate_replay_compatibility("orders.created", "1.2.0", "1.0.0"));
    assert!(!r.validate_replay_compatibility("orders.created", "1.0.0", "9.9.9"));
    assert!(!r.validate_replay_compatibility("orders.created", "bad", "1.0.0"));
    let pb = r.validate_protobuf("c1");
    assert!(pb.valid && pb.package_namespace_valid);
    assert!(!r.validate_protobuf("zz").valid);
    assert!(r.approve_deprecation("c1", "admin").is_err());
    r.submit_deprecation(DeprecationRequest {
        contract_id: "c1".to_string(),
        reason: "old".to_string(),
        sunset_date: 0,
        replacement_contract: None,
        approved: false,
        approved_by: None,
    });
    assert!(r.approve_deprecation("c1", "admin").is_ok());
    assert!(r.approve_deprecation("c1", "admin").is_err());
}

fn evolution(id: u128, from: &str, to: &str, approved: bool, replay_safe: bool) -> SchemaEvolution {
    SchemaEvolution {
        evolution_id: id,
        contract_id: "c1".to_string(),
        from_version: version(from),
        to_version: version(to),
        evolution_type: EvolutionType::Additive,
        migration_strategy: MigrationStrategy::LazyMigration,
        requires_federation_negotiation: false,
        replay_safe,
        approved,
        approved_by: None,
        created_at: 0,
    }
}

#[test]
fn schema_evolution_engine_accepts_safe_changes() {
    let mut e = SchemaEvolutionEngine::new();
    let report = e.propose_evolution(evolution(1, "1.0.0", "1.1.0", true, true));
    assert!(report.safe && report.rollback_possible && report.backward_compatible);
    assert_eq!(report.corruption_risk_percent, 0);
    let bad = e.propose_evolution(evolution(2, "2.0.0", "1.0.0", true, false));
    assert!(!bad.safe);
    assert_eq!(bad.issues, vec!["Version must increase: 2.0.0 -> 1.0.0".to_string(),
        "Evolution is not replay-safe \u{2014} will produce divergent state on replay".to_string()]);
    assert_eq!(bad.corruption_risk_percent, 85);
    assert_eq!(e.get_active_evolutions().len(), 1);
    assert!(e.execute_evolution(1).is_ok());
    assert!(e.execute_evolution(2).is_err());
    assert!(e.validate_temporal_schema("c1", &version("1.1.0")));
    assert!(!e.validate_temporal_schema("c1", &version("2.0.0")));
    let n = e.negotiate_federation("c1", "a", "b", &version("1.0.0"), &version("2.0.0"));
    assert!(!n.accepted);
    assert_eq!(n.conditions, vec!["Proposed version 1.0.0 is lower than current 2.0.0".to_string()]);
    e.complete_evolution(9, vec!["a".to_string()], 3);
    assert_eq!(e.get_history().len(), 1);
}

fn context(target: &str) -> GovernanceContext {
    GovernanceContext {
        actor: "tester".to_string(),
        action: "deploy".to_string(),
        target: target.to_string(),
        parameters: vec![],
    }
}

fn policy(rule: PolicyRule) -> GovernancePolicy {
    GovernancePolicy {
        policy_id: 7,
        name: "p".to_string(),
        description: String::new(),
        severity: PolicySeverity::Error,
        rule,
        enabled: true,
    }
}

#[test]
fn engine_reports_and_logs_violations() {
    let mut engine = GovernanceEngine::new();
    engine.analyzer_mut().register_dependency("a", "b");
    engine.add_policy(policy(PolicyRule::ForbiddenDependency("a".to_string(), "b".to_string())));
    engine.add_policy(policy(PolicyRule::ForbiddenDependency("b".to_string(), "a".to_string())));
    engine.add_policy(policy(PolicyRule::MigrationSafetyRule("m".to_string())));
    let report = engine.evaluate(&context("a")).unwrap();
    assert_eq!(report.policies_evaluated, 3);
    assert_eq!(report.violations.len(), 1);
    assert_eq!(report.violations[0].message, "Forbidden dependency from 'a' to 'b'");
    assert!(!report.passed);
    let log = engine.get_audit_log();
    assert_eq!(log.len(), 3);
    assert!(matches!(log[0].decision, GovernanceDecision::Denied(_)));
    assert!(matches!(log[1].decision, GovernanceDecision::Allowed));
    assert!(matches!(log[2].decision, GovernanceDecision::Allowed));
    assert_eq!(log[1].details, "Policy 'p' passed");
    assert_eq!(log[0].details, "Policy 'p' violated: Forbidden dependency from 'a' to 'b'");
    assert_eq!(log[0].actor, "tester");
    assert_eq!(log[0].action, "deploy");
    assert_eq!(log[0].target, "a");
}

#[test]
fn strict_mode_stops_at_first_violation() {
    let mut engine = GovernanceEngine::new();
    engine.set_enforcement_mode(EnforcementMode::StrictEnforce);
    engine.add_policy(policy(PolicyRule::MandatoryOwner("ctx".to_string())));
    let r = engine.evaluate(&context("a"));
    assert_eq!(r.err(), Some("Context 'ctx' has no registered owner".to_string()));
    let mut lenient = GovernanceEngine::new();
    lenient.add_policy(policy(PolicyRule::MaxCouplingScore(500)));
    let report = lenient.evaluate(&context("x")).unwrap();
    assert_eq!(report.violations[0].message, "Coupling score 0.60 exceeds max 0.50");
}

#[test]
fn forbidding_a_crossing_twice_changes_nothing() {
    let mut v = sync_engine::governance::validator::BoundedContextValidator::new();
    v.forbid_crossing("hr", "payroll");
    let once = v.collect_all_violations();
    v.forbid_crossing("hr", "payroll");
    assert_eq!(v.collect_all_violations(), once);
    assert_eq!(once, vec!["Boundary violation: hr -> payroll".to_string()]);
}

fn bounded_context(name: &str, owner: &str) -> sync_engine::governance::registry::BoundedContext {
    sync_engine::governance::registry::BoundedContext {
        name: name.to_string(),
        owner: owner.to_string(),
        domain: "d".to_string(),
        context_type: sync_engine::governance::registry::ContextType::Core,
        interfaces: vec![],
        allowed_dependencies: vec![],
        forbidden_dependencies: vec![],
        events_published: vec![],
        events_subscribed: vec![],
        sovereignty_zone: "z".to_string(),
        status: sync_engine::governance::registry::ContextStatus::Active,
    }
}

#[test]
fn owners_follow_registered_contexts() {
    let mut reg = sync_engine::governance::registry::ArchitectureRegistry::new();
    reg.register_context(bounded_context("billing", "team-a"));
    reg.register_context(bounded_context("billing", "team-b"));
    assert_eq!(reg.get_owner("billing"), Some(&"team-b".to_string()));
    assert_eq!(reg.get_context("billing").map(|c| &c.owner), reg.get_owner("billing"));
    assert_eq!(reg.get_owner("none"), None);
    assert!(reg.get_context("none").is_none());
}

#[test]
fn no_shared_kernel_is_ever_found() {
    let mut v = sync_engine::governance::validator::BoundedContextValidator::new();
    v.allow_crossing("a", "b");
    assert!(v.validate_shared_kernel("k").is_none());
}

fn zone(id: &str, parent: Option<&str>) -> sync_engine::governance::sovereignty::SovereigntyZone {
    sync_engine::governance::sovereignty::SovereigntyZone {
        zone_id: id.to_string(),
        name: id.to_string(),
        zone_type: sync_engine::governance::sovereignty::ZoneType::Regional,
        jurisdiction: "j".to_string(),
        parent_zone: parent.map(|p| p.to_string()),
        data_classifications: vec![],
        allowed_regions: vec![],
        restricted_regions: vec![],
        isolation_level: sync_engine::governance::sovereignty::IsolationLevel::Logical,
        active: true,
    }
}

#[test]
fn registered_zone_appears_once_among_its_parents_children() {
    let mut reg = sync_engine::governance::sovereignty::SovereigntyRegistry::new();
    reg.register_zone(zone("eu", None));
    reg.register_zone(zone("de", Some("eu")));
    reg.register_zone(zone("fr", Some("eu")));
    let children = reg.get_child_zones("eu");
    assert_eq!(children.len(), 2);
    assert_eq!(children.iter().filter(|c| c.zone_id == "de").count(), 1);
    assert_eq!(children[1].zone_id, "fr");
    assert!(reg.get_child_zones("de").is_empty());
}
