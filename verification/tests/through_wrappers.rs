use sync_engine::governance::schema_evolution::SchemaEvolutionEngine;
use sync_engine::protocol::codec::SyncCodec;
use sync_engine::protocol::handshake::perform_handshake;
use sync_engine::reconciliation::resolver::{Resolution, Resolver};
use sync_engine::records::{NodeIdentity, NodeStatus, NodeType, VersionVector};
use sync_engine::reconciliation::strategy::ResolutionMatrix;
use sync_engine::recovery::checkpoint::CheckpointRecoverer;
use sync_engine::runtime::verification::{DeterministicProofEngine, ReplayProofEngine};
use sync_engine::security_governance::integrity::IntegrityEngine;

#[test]
fn hash_check_uses_sha256() {
    let engine = IntegrityEngine::new();
    let digest = hex::decode("ba7816bf8f01cfea414140de5dae2223b00361a396177a9cb410ff61f20015ad").unwrap();
    assert!(engine.verify_hash(b"abc", &digest));
    assert!(!engine.verify_hash(b"abc", b"abc"));
}

#[test]
fn determinism_scan_is_case_insensitive() {
    let proof = DeterministicProofEngine::new().prove_determinism("RANDOM");
    assert!(!proof.deterministic);
    assert_eq!(proof.non_determinism_sources, vec![
        "Uses random number generation: RANDOM".to_string(),
        "Uses random generation: RANDOM".to_string(),
    ]);
    assert!(DeterministicProofEngine::new().prove_determinism("ledger").deterministic);
}

#[test]
fn race_reports_name_events_and_times() {
    let races = ReplayProofEngine::new().detect_async_races(&[(1, 0), (2, 500), (3, 5000)], 1000);
    assert_eq!(races, vec![
        "Potential race: event 00000000-0000-0000-0000-000000000001 at 1970-01-01 00:00:00 UTC within 500ms of event 00000000-0000-0000-0000-000000000002 at 1970-01-01 00:00:00.500 UTC".to_string(),
    ]);
}

#[test]
fn handshake_reports_versions_when_none_shared() {
    let r = perform_handshake(&["1.0".to_string()], &["2.0".to_string()]).unwrap();
    assert!(!r.accepted);
    assert_eq!(r.reject_reason, Some("No compatible schema version. Local: [\"1.0\"], Remote: [\"2.0\"]".to_string()));
    let ok = perform_handshake(&["1.0".to_string(), "2.0".to_string()], &["2.0".to_string()]).unwrap();
    assert!(ok.accepted);
    assert_eq!(ok.schema_version, "2.0");
}

#[test]
fn checkpoint_recovery_takes_last_path_segments() {
    let r = CheckpointRecoverer::new(100, 60);
    let ids = r.recover_from_checkpoint(true, &["a/b/rec1".to_string(), "rec2".to_string()], vec![]).unwrap();
    assert_eq!(ids, vec!["rec1".to_string(), "rec2".to_string()]);
    let kept = r.recover_from_checkpoint(false, &[], vec!["x".to_string()]).unwrap();
    assert_eq!(kept, vec!["x".to_string()]);
}

#[test]
fn service_merge_of_balances_and_requests() {
    let resolver = Resolver::new(ResolutionMatrix::default());
    match resolver.resolve("LeaveBalance", b"5", b"-2", &vv(0), &vv(0), &node(0), &node(0)) {
        Resolution::Merged(v) => assert_eq!(v, b"3".to_vec()),
        other => panic!("unexpected {:?}", other),
    }
    match resolver.resolve("LeaveBalance", b"oops", b"7", &vv(0), &vv(0), &node(0), &node(0)) {
        Resolution::Merged(v) => assert_eq!(v, b"7".to_vec()),
        other => panic!("unexpected {:?}", other),
    }
    match resolver.resolve("LeaveRequest", b"[\"b\",\"a\"]", b"[\"c\",\"a\"]", &vv(0), &vv(0), &node(0), &node(0)) {
        Resolution::Merged(v) => assert_eq!(v, b"[\"a\",\"b\",\"c\"]".to_vec()),
        other => panic!("unexpected {:?}", other),
    }
}

#[test]
fn last_writer_and_manual_strategies() {
    let resolver = Resolver::new(ResolutionMatrix::default());
    assert!(matches!(resolver.resolve("ClockEvent", b"a", b"b", &vv(5), &vv(3), &node(0), &node(0)), Resolution::AcceptLocal));
    assert!(matches!(resolver.resolve("ClockEvent", b"a", b"b", &vv(2), &vv(3), &node(0), &node(0)), Resolution::AcceptRemote));
    assert!(matches!(resolver.resolve("LedgerEntry", b"a", b"b", &vv(2), &vv(3), &node(0), &node(0)), Resolution::Escalated(_)));
}

#[test]
fn unknown_evolution_is_named_in_the_error() {
    let mut e = SchemaEvolutionEngine::new();
    let err = e.execute_evolution(5).unwrap_err();
    assert_eq!(format!("{:?}", err), "Internal(\"Evolution '00000000-0000-0000-0000-000000000005' not found in active evolutions\")");
}

#[test]
fn dictionary_compression_roundtrip() {
    let codec = SyncCodec::new(3, 3, 1024);
    let dict = b"sync engine dictionary sync engine dictionary";
    let data = b"sync engine payload sync engine payload";
    let c = codec.compress_with_dict(data, dict).unwrap();
    assert_eq!(codec.decompress_with_dict(&c, dict).unwrap(), data.to_vec());
}

fn merged(r: Resolution) -> Vec<u8> {
    match r {
        Resolution::Merged(v) => v,
        other => panic!("unexpected {:?}", other),
    }
}

#[test]
fn merges_agree_whichever_side_is_local() {
    let resolver = Resolver::new(ResolutionMatrix::default());
    let a = b"[\"x\",\"y\"]";
    let b = b"[\"z\",\"x\"]";
    assert_eq!(merged(resolver.resolve("LeaveRequest", a, b, &vv(1), &vv(2), &node(0), &node(0))), merged(resolver.resolve("LeaveRequest", b, a, &vv(2), &vv(1), &node(0), &node(0))));
    let ra = merged(resolver.resolve("RoleAssignment", b"admin", b"auditor", &vv(1), &vv(2), &node(0), &node(0)));
    let rb = merged(resolver.resolve("RoleAssignment", b"auditor", b"admin", &vv(2), &vv(1), &node(0), &node(0)));
    assert_eq!(ra, rb);
    assert_eq!(merged(resolver.resolve("LeaveBalance", b"4", b"6", &vv(0), &vv(0), &node(0), &node(0))), b"10".to_vec());
}

fn vv(t: i64) -> VersionVector {
    VersionVector { clocks: vec![(1, t as u64)], local_timestamp: t }
}

fn node(rank: u32) -> NodeIdentity {
    let node_type = match rank {
        0 => NodeType::Edge,
        1 => NodeType::RegionalRelay,
        _ => NodeType::NationalHub,
    };
    NodeIdentity { node_id: rank as u128, node_type, ministry_id: 0, site_id: None, status: NodeStatus::Online }
}

#[test]
fn authority_and_escalation_follow_the_nodes_and_versions() {
    let resolver = Resolver::new(ResolutionMatrix::default());
    assert!(matches!(resolver.resolve("Shift", b"a", b"b", &vv(1), &vv(2), &node(2), &node(0)), Resolution::AcceptLocal));
    assert!(matches!(resolver.resolve("Shift", b"a", b"b", &vv(1), &vv(2), &node(1), &node(1)), Resolution::AcceptRemote));
    match resolver.resolve("LedgerEntry", b"a", b"b", &vv(4), &vv(9), &node(0), &node(0)) {
        Resolution::Escalated(e) => {
            assert_eq!(e.local_version.local_timestamp, 4);
            assert_eq!(e.remote_version.clocks, vec![(1, 9)]);
            assert_eq!(e.local_payload, b"a".to_vec());
        },
        other => panic!("unexpected {:?}", other),
    }
}

#[test]
fn leave_balances_sum_below_zero() {
    let resolver = Resolver::new(ResolutionMatrix::default());
    assert_eq!(merged(resolver.resolve("LeaveBalance", b"-9", b"2", &vv(0), &vv(0), &node(0), &node(0))), b"-7".to_vec());
}

#[test]
fn dictionary_round_trip_and_full_compression_succeed() {
    let codec = SyncCodec::new(3, 3, 1024);
    let dict = b"sync engine dictionary sync engine dictionary";
    let data = b"sync engine payload";
    let frame = codec.compress_with_dict(data, dict).unwrap();
    assert_eq!(codec.decompress_with_dict(&frame, dict).unwrap(), data.to_vec());
    assert!(codec.compress_full(b"").is_ok());
}
