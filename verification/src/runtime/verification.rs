//! Reliability proofs: hash-chain evidence for invariants, replay determinism, lineage and
//! corruption chains, recovery correctness, state roots and topology consistency.
use vstd::prelude::*;
use vstd::string::StringSliceAdditionalSpecFns;
use crate::env::{fresh_id, now_millis, NIL_ID};
use crate::crypto::{sha256, sha256_digest, hex_encode, hex_text, u64_le, le_bytes64, bytes_eq, concat_bytes};
use crate::text::{cat3, cat4, owned, str_contains, occurs_in, strs_view, lists};

verus! {

/// Checks invariants and records hash-chain evidence for them.
pub struct InvariantVerifier;

/// The outcome of checking one invariant on one target.
#[derive(Debug)]
pub struct VerificationProof {
    pub proof_id: u128,
    pub target: String,
    pub proof_type: ProofType,
    pub valid: bool,
    pub evidence: Vec<String>,
    /// Milliseconds since the Unix epoch.
    pub verified_at: i64,
}

/// The invariant a proof is about.
#[derive(Debug, Clone, Copy, PartialEq, Eq, Structural)]
pub enum ProofType {
    DeterministicReplay,
    ReplayChecksum,
    FederationInvariant,
    SyncInvariant,
    TopologyConsistency,
    DeterministicExecution,
    RecoveryCorrectness,
    CorruptionDetection,
    LineageIntegrity,
}

/// What is recorded for an invariant: the tags hashed before and after the target, the
/// label of the hash line, the phrase said of the target, and an optional closing note.
pub open spec fn invariant_profile(t: ProofType) -> (&'static str, &'static str, &'static str, &'static str, Option<&'static str>) {
    match t {
        ProofType::DeterministicReplay => ("deterministic-replay", "invariant-v1", "Deterministic replay invariant",
            "deterministic execution path verified", Some("No non-determinism sources detected")),
        ProofType::ReplayChecksum => ("replay-checksum", "invariant-v1", "Replay checksum invariant",
            "checksum valid across replay runs", None),
        ProofType::FederationInvariant => ("federation-invariant", "boundary-governance", "Federation boundary invariant",
            "federation domain isolation verified", Some("Cross-border data flow compliant")),
        ProofType::SyncInvariant => ("sync-invariant", "merkle-before-delta", "Sync Merkle-before-delta invariant",
            "sync protocol verified", Some("Merkle proof generated before delta transmission")),
        ProofType::TopologyConsistency => ("topology-consistency", "hierarchy-stable", "Topology hierarchy invariant",
            "topology structure consistent", Some("No hierarchy violations detected")),
        ProofType::DeterministicExecution => ("deterministic-execution", "replay-safe", "Deterministic execution invariant",
            "execution is deterministic", Some("All execution paths produce identical state")),
        ProofType::RecoveryCorrectness => ("recovery-correctness", "deterministic-recovery", "Recovery correctness invariant",
            "recovery path verified", Some("Deterministic recovery sequence validated")),
        ProofType::CorruptionDetection => ("corruption-detection", "tamper-evident", "Corruption detection invariant",
            "corruption detection active", Some("Tamper-evident chain verified")),
        ProofType::LineageIntegrity => ("lineage-integrity", "crypto-chaining", "Lineage integrity invariant",
            "event lineage intact", Some("Cryptographic event chaining verified")),
    }
}

/// The digest recorded for invariant `t` on `target`: SHA-256 over the leading tag, the
/// target's bytes and the trailing tag.
pub open spec fn invariant_digest(t: ProofType, target: &str) -> Seq<u8> {
    sha256_digest(invariant_profile(t).0.spec_bytes() + target.spec_bytes() + invariant_profile(t).1.spec_bytes())
}

/// The evidence lines recorded for invariant `t` on `target`.
pub open spec fn invariant_evidence(t: ProofType, target: &str) -> Seq<Seq<char>> {
    let p = invariant_profile(t);
    let first = p.2@ + ": hash="@ + hex_text(invariant_digest(t, target).take(8));
    let second = "Target '"@ + target@ + "' "@ + p.3@;
    match p.4 {
        Some(note) => seq![first, second, note@],
        None => seq![first, second],
    }
}

/// No line of `lines` mentions a violation.
pub open spec fn free_of_violations(lines: Seq<Seq<char>>) -> bool {
    forall|i: int| 0 <= i < lines.len() ==> !occurs_in("VIOLATION"@, #[trigger] lines[i])
}

fn profile_of(t: ProofType) -> (r: (&'static str, &'static str, &'static str, &'static str, Option<&'static str>))
    ensures
        r == invariant_profile(t),
{
    match t {
        ProofType::DeterministicReplay => ("deterministic-replay", "invariant-v1", "Deterministic replay invariant",
            "deterministic execution path verified", Some("No non-determinism sources detected")),
        ProofType::ReplayChecksum => ("replay-checksum", "invariant-v1", "Replay checksum invariant",
            "checksum valid across replay runs", None),
        ProofType::FederationInvariant => ("federation-invariant", "boundary-governance", "Federation boundary invariant",
            "federation domain isolation verified", Some("Cross-border data flow compliant")),
        ProofType::SyncInvariant => ("sync-invariant", "merkle-before-delta", "Sync Merkle-before-delta invariant",
            "sync protocol verified", Some("Merkle proof generated before delta transmission")),
        ProofType::TopologyConsistency => ("topology-consistency", "hierarchy-stable", "Topology hierarchy invariant",
            "topology structure consistent", Some("No hierarchy violations detected")),
        ProofType::DeterministicExecution => ("deterministic-execution", "replay-safe", "Deterministic execution invariant",
            "execution is deterministic", Some("All execution paths produce identical state")),
        ProofType::RecoveryCorrectness => ("recovery-correctness", "deterministic-recovery", "Recovery correctness invariant",
            "recovery path verified", Some("Deterministic recovery sequence validated")),
        ProofType::CorruptionDetection => ("corruption-detection", "tamper-evident", "Corruption detection invariant",
            "corruption detection active", Some("Tamper-evident chain verified")),
        ProofType::LineageIntegrity => ("lineage-integrity", "crypto-chaining", "Lineage integrity invariant",
            "event lineage intact", Some("Cryptographic event chaining verified")),
    }
}

/// Whether no line of `lines` mentions a violation.
pub fn lines_free_of_violations(lines: &Vec<String>) -> (r: bool)
    ensures
        r == free_of_violations(strs_view(lines@)),
{
    let n = lines.len();
    for i in 0..n
        invariant
            n == lines@.len(),
            forall|j: int| 0 <= j < i ==> !occurs_in("VIOLATION"@, #[trigger] strs_view(lines@)[j]),
    {
        if str_contains(lines[i].as_str(), "VIOLATION") {
            assert(occurs_in("VIOLATION"@, strs_view(lines@)[i as int]));
            return false;
        }
    }
    true
}

impl InvariantVerifier {
    /// A new verifier.
    pub fn new() -> (r: Self) {
        InvariantVerifier
    }

    /// Checks invariant `proof_type` on `target`: the evidence holds a hash line over the
    /// invariant's tags and the target, a line on the target and, for most invariants, a
    /// closing note; the proof is valid when no evidence line mentions a violation.
    pub fn verify(&self, proof_type: ProofType, target: &str) -> (r: VerificationProof)
        ensures
            r.target@ == target@,
            r.proof_type == proof_type,
            strs_view(r.evidence@) == invariant_evidence(proof_type, target),
            r.valid == free_of_violations(strs_view(r.evidence@)),
    {
        let evidence = Self::compute_evidence(proof_type, target);
        let valid = lines_free_of_violations(&evidence);
        VerificationProof {
            proof_id: fresh_id(),
            target: owned(target),
            proof_type,
            valid,
            evidence,
            verified_at: now_millis(),
        }
    }

    fn compute_evidence(proof_type: ProofType, target: &str) -> (r: Vec<String>)
        ensures
            strs_view(r@) == invariant_evidence(proof_type, target),
    {
        let p = profile_of(proof_type);
        let head = concat_bytes(p.0.as_bytes(), target.as_bytes());
        let input = concat_bytes(head.as_slice(), p.1.as_bytes());
        let digest = sha256(input.as_slice());
        let short = vstd::slice::slice_subrange(digest.as_slice(), 0, 8);
        let hash_text = hex_encode(short);
        assert(short@ == invariant_digest(proof_type, target).take(8));
        let mut lines: Vec<String> = Vec::new();
        lines.push(cat3(p.2, ": hash=", hash_text.as_str()));
        lines.push(cat4("Target '", target, "' ", p.3));
        match p.4 {
            Some(note) => {
                lines.push(owned(note));
            },
            None => {},
        }
        assert(strs_view(lines@) =~= invariant_evidence(proof_type, target));
        lines
    }
}

/// Proves replay determinism of streams.
pub struct ReplayProofEngine;

/// The outcome of replaying a stream several times.
#[derive(Debug)]
pub struct ReplayProof {
    pub proof_id: u128,
    pub stream_id: String,
    pub deterministic: bool,
    pub checksum_valid: bool,
    pub replay_count: u64,
    pub hashes_match: bool,
    pub proof_hash: Vec<u8>,
}

/// The digest of a replay run of stream `stream_id`: it depends on the stream alone, so
/// every run of a deterministic replay gives the same one.
pub open spec fn replay_run_digest(stream_id: &str) -> Seq<u8> {
    sha256_digest(stream_id.spec_bytes() + "deterministic-replay".spec_bytes())
}

/// The digest that seals a replay proof: over the stream, the run count and whether the
/// runs matched.
pub open spec fn replay_seal(stream_id: &str, n: u64, matched: bool) -> Seq<u8> {
    sha256_digest(stream_id.spec_bytes() + le_bytes64(n)
        + (if matched { "match".spec_bytes() } else { "mismatch".spec_bytes() }))
}

/// Two events whose times lie within a window of each other.
pub open spec fn within_window(a: i64, b: i64, window_ms: i64) -> bool {
    (if b >= a { b - a } else { a - b }) < window_ms
}

/// The report of a possible race between two events.
pub open spec fn race_report(a: (u128, i64), b: (u128, i64)) -> Seq<char> {
    "Potential race: event "@ + crate::text::uuid_text(a.0) + " at "@ + crate::text::utc_text(a.1)
        + " within "@ + crate::text::decimal((if b.1 >= a.1 { b.1 - a.1 } else { a.1 - b.1 }) as nat) + "ms of event "@
        + crate::text::uuid_text(b.0) + " at "@ + crate::text::utc_text(b.1)
}

/// The race reports for the pairs `(i, j)`, `i < j`, with `i` below `upto`, in order of
/// `i` then `j`.
pub open spec fn race_reports(ev: Seq<(u128, i64)>, window_ms: i64, upto: int) -> Seq<Seq<char>>
    decreases upto,
{
    if upto <= 0 {
        Seq::empty()
    } else {
        race_reports(ev, window_ms, upto - 1) + race_reports_from(ev, window_ms, upto - 1, ev.len() as int)
    }
}

/// The race reports for the pairs `(i, j)` with `i < j < upto`, in order of `j`.
pub open spec fn race_reports_from(ev: Seq<(u128, i64)>, window_ms: i64, i: int, upto: int) -> Seq<Seq<char>>
    decreases upto - i,
{
    if upto <= i + 1 {
        Seq::empty()
    } else {
        race_reports_from(ev, window_ms, i, upto - 1) + (if within_window(ev[i].1, ev[upto - 1].1, window_ms) {
            seq![race_report(ev[i], ev[upto - 1])]
        } else {
            Seq::empty()
        })
    }
}

impl ReplayProofEngine {
    /// A new engine.
    pub fn new() -> (r: Self) {
        ReplayProofEngine
    }

    /// Replays `stream_id` `replay_count` times, hashing each run, and checks that every
    /// run gives the digest of the run before it. A run's digest depends on the stream
    /// alone, so the runs always agree and the replay is proved deterministic; the proof
    /// is sealed by a digest over the stream, the run count and the outcome.
    pub fn prove_determinism(&self, stream_id: &str, replay_count: u64) -> (r: ReplayProof)
        ensures
            r.stream_id@ == stream_id@,
            r.replay_count == replay_count,
            r.deterministic,
            r.checksum_valid,
            r.hashes_match,
            r.proof_hash@ == replay_seal(stream_id, replay_count, true),
    {
        let mut all_match = true;
        let mut prev: Vec<u8> = Vec::new();
        let mut i: u64 = 0;
        while i < replay_count
            invariant
                i <= replay_count,
                all_match,
                i > 0 ==> prev@ == replay_run_digest(stream_id),
            decreases replay_count - i,
        {
            let input = concat_bytes(stream_id.as_bytes(), "deterministic-replay".as_bytes());
            let h = sha256(input.as_slice());
            assert(h@ == replay_run_digest(stream_id));
            if i > 0 && !bytes_eq(prev.as_slice(), h.as_slice()) {
                all_match = false;
            }
            prev = h;
            i = i + 1;
        }
        let tag = if all_match { "match" } else { "mismatch" };
        let head = concat_bytes(stream_id.as_bytes(), u64_le(replay_count).as_slice());
        let input = concat_bytes(head.as_slice(), tag.as_bytes());
        let proof_hash = sha256(input.as_slice());
        ReplayProof {
            proof_id: fresh_id(),
            stream_id: owned(stream_id),
            deterministic: all_match,
            checksum_valid: all_match,
            replay_count,
            hashes_match: all_match,
            proof_hash,
        }
    }

    /// Reports each pair of events, earlier index first, whose times lie strictly within
    /// `window_ms` of each other, naming both events, their times and the gap.
    pub fn detect_async_races(&self, event_timestamps: &[(u128, i64)], window_ms: i64) -> (r: Vec<String>)
        requires
            forall|k: int| 0 <= k < event_timestamps@.len() ==>
                -8_334_601_315_200_000 <= (#[trigger] event_timestamps@[k]).1 <= 8_210_266_876_799_999,
        ensures
            strs_view(r@) == race_reports(event_timestamps@, window_ms, event_timestamps@.len() as int),
    {
        let ghost ev = event_timestamps@;
        let n = event_timestamps.len();
        let mut races: Vec<String> = Vec::new();
        for i in 0..n
            invariant
                n == ev.len(),
                ev == event_timestamps@,
                forall|k: int| 0 <= k < ev.len() ==> -8_334_601_315_200_000 <= (#[trigger] ev[k]).1 <= 8_210_266_876_799_999,
                strs_view(races@) == race_reports(ev, window_ms, i as int),
        {
            for j in (i + 1)..n
                invariant
                    n == ev.len(),
                    i < n,
                    ev == event_timestamps@,
                    forall|k: int| 0 <= k < ev.len() ==> -8_334_601_315_200_000 <= (#[trigger] ev[k]).1 <= 8_210_266_876_799_999,
                    strs_view(races@) == race_reports(ev, window_ms, i as int)
                        + race_reports_from(ev, window_ms, i as int, j as int),
            {
                let a = event_timestamps[i];
                let b = event_timestamps[j];
                let diff: i64 = if b.1 >= a.1 { b.1 - a.1 } else { a.1 - b.1 };
                let ghost before = strs_view(races@);
                if diff < window_ms {
                    let ida = crate::text::id_text(a.0);
                    let ta = crate::text::utc_timestamp_text(a.1);
                    let d = crate::text::u64_text(diff as u64);
                    let idb = crate::text::id_text(b.0);
                    let tb = crate::text::utc_timestamp_text(b.1);
                    let p1 = cat4("Potential race: event ", ida.as_str(), " at ", ta.as_str());
                    let p2 = cat4(" within ", d.as_str(), "ms of event ", idb.as_str());
                    let line = cat4(p1.as_str(), p2.as_str(), " at ", tb.as_str());
                    assert(line@ == race_report(ev[i as int], ev[j as int]));
                    races.push(line);
                    assert(strs_view(races@) =~= before.push(race_report(ev[i as int], ev[j as int])));
                }
                assert(race_reports_from(ev, window_ms, i as int, j + 1) == race_reports_from(ev, window_ms, i as int, j as int)
                    + (if within_window(ev[i as int].1, ev[j as int].1, window_ms) {
                        seq![race_report(ev[i as int], ev[j as int])] } else { Seq::<Seq<char>>::empty() }));
                assert(strs_view(races@) =~= race_reports(ev, window_ms, i as int)
                    + race_reports_from(ev, window_ms, i as int, j + 1));
            }
            assert(race_reports(ev, window_ms, i + 1) == race_reports(ev, window_ms, i as int)
                + race_reports_from(ev, window_ms, i as int, n as int));
        }
        races
    }
}

/// Looks for sources of non-determinism in components.
pub struct DeterministicProofEngine;

/// Whether a component is deterministic, with the sources of non-determinism found.
#[derive(Debug)]
pub struct DeterministicProof {
    pub proof_id: u128,
    pub component: String,
    pub deterministic: bool,
    pub non_determinism_sources: Vec<String>,
    pub proof: VerificationProof,
}

/// The keywords that betray non-determinism in a component's name, with what each means.
pub open spec fn nondeterminism_patterns() -> Seq<(Seq<char>, Seq<char>)> {
    seq![
        ("random"@, "Uses random number generation"@),
        ("time"@, "Uses system time"@),
        ("clock"@, "Uses system clock"@),
        ("now"@, "Uses current timestamp"@),
        ("uuid"@, "Generates UUIDs (may use time-based)"@),
        ("thread"@, "Uses thread-dependent ordering"@),
        ("mutex"@, "Uses mutex (unpredictable ordering)"@),
        ("rand"@, "Uses random generation"@),
        ("instant"@, "Uses Instant (non-deterministic)"@),
        ("systemtime"@, "Uses SystemTime (non-deterministic)"@),
    ]
}

/// For each of the first `n` patterns whose keyword occurs in `lowered`, in order, the
/// pattern's meaning followed by ": " and the component's name.
pub open spec fn nondeterminism_sources(component: Seq<char>, lowered: Seq<char>, n: int) -> Seq<Seq<char>>
    decreases n,
{
    if n <= 0 {
        Seq::empty()
    } else {
        let p = nondeterminism_patterns()[n - 1];
        nondeterminism_sources(component, lowered, n - 1)
            + (if occurs_in(p.0, lowered) { seq![p.1 + ": "@ + component] } else { Seq::empty() })
    }
}

/// The evidence of a determinism proof: the sources found, or one line saying there are none.
pub open spec fn determinism_evidence(component: Seq<char>, sources: Seq<Seq<char>>) -> Seq<Seq<char>> {
    if sources.len() == 0 {
        seq!["Component '"@ + component + "' deterministic: no non-determinism sources detected"@]
    } else {
        sources
    }
}

fn pattern_table() -> (r: Vec<(&'static str, &'static str)>)
    ensures
        r@.len() == 10,
        forall|k: int| 0 <= k < 10 ==> (#[trigger] r@[k]).0@ == nondeterminism_patterns()[k].0
            && r@[k].1@ == nondeterminism_patterns()[k].1,
{
    let r = vec![
        ("random", "Uses random number generation"),
        ("time", "Uses system time"),
        ("clock", "Uses system clock"),
        ("now", "Uses current timestamp"),
        ("uuid", "Generates UUIDs (may use time-based)"),
        ("thread", "Uses thread-dependent ordering"),
        ("mutex", "Uses mutex (unpredictable ordering)"),
        ("rand", "Uses random generation"),
        ("instant", "Uses Instant (non-deterministic)"),
        ("systemtime", "Uses SystemTime (non-deterministic)"),
    ];
    r
}

impl DeterministicProofEngine {
    /// A new engine.
    pub fn new() -> (r: Self) {
        DeterministicProofEngine
    }

    /// The sources of non-determinism in `component`, given its lowercase form `lowered`:
    /// for each known keyword found in `lowered`, in table order, its meaning and the
    /// component's name.
    pub fn sources_in(&self, component: &str, lowered: &str) -> (r: Vec<String>)
        ensures
            strs_view(r@) == nondeterminism_sources(component@, lowered@, 10),
    {
        let table = pattern_table();
        let mut found: Vec<String> = Vec::new();
        for k in 0..10
            invariant
                table@.len() == 10,
                forall|q: int| 0 <= q < 10 ==> (#[trigger] table@[q]).0@ == nondeterminism_patterns()[q].0
                    && table@[q].1@ == nondeterminism_patterns()[q].1,
                strs_view(found@) == nondeterminism_sources(component@, lowered@, k as int),
        {
            let (keyword, reason) = table[k];
            let ghost before = strs_view(found@);
            if str_contains(lowered, keyword) {
                found.push(cat3(reason, ": ", component));
                assert(strs_view(found@) =~= before.push(reason@ + ": "@ + component@));
            }
            assert(strs_view(found@) =~= nondeterminism_sources(component@, lowered@, k + 1));
        }
        found
    }

    /// Whether `component` is deterministic: its lowercase name holds none of the known
    /// keywords of non-determinism. The proof's evidence lists the sources found, or says
    /// there are none.
    pub fn prove_determinism(&self, component: &str) -> (r: DeterministicProof)
        ensures
            r.component@ == component@,
            strs_view(r.non_determinism_sources@)
                == nondeterminism_sources(component@, crate::text::lowercase_of(component@), 10),
            r.deterministic == (r.non_determinism_sources@.len() == 0),
            r.proof.target@ == component@,
            r.proof.proof_type == ProofType::DeterministicExecution,
            r.proof.valid == r.deterministic,
            strs_view(r.proof.evidence@) == determinism_evidence(component@, strs_view(r.non_determinism_sources@)),
    {
        let lower = crate::text::to_lowercase(component);
        let sources = self.sources_in(component, lower.as_str());
        let deterministic = sources.len() == 0;
        let evidence = if deterministic {
            let mut e: Vec<String> = Vec::new();
            e.push(cat3("Component '", component, "' deterministic: no non-determinism sources detected"));
            assert(strs_view(e@) =~= determinism_evidence(component@, strs_view(sources@)));
            e
        } else {
            crate::text::clone_strings(&sources)
        };
        let proof = VerificationProof {
            proof_id: fresh_id(),
            target: owned(component),
            proof_type: ProofType::DeterministicExecution,
            valid: deterministic,
            evidence,
            verified_at: now_millis(),
        };
        DeterministicProof {
            proof_id: fresh_id(),
            component: owned(component),
            deterministic,
            non_determinism_sources: sources,
            proof,
        }
    }
}

/// Proves the lineage of events from their hash chains.
pub struct LineageProofEngine;

/// Whether a lineage chain is intact.
#[derive(Debug)]
pub struct LineageProof {
    pub proof_id: u128,
    pub event_id: u128,
    pub lineage_intact: bool,
    pub chain_verified: bool,
    pub hop_count: u32,
}

/// Each hash of the chain is the SHA-256 of the hash before it followed by the byte 1.
pub open spec fn lineage_linked(hashes: Seq<Vec<u8>>) -> bool {
    forall|k: int| 0 < k < hashes.len() ==> #[trigger] hashes[k]@ == sha256_digest(hashes[k - 1]@.push(1u8))
}

impl LineageProofEngine {
    /// A new engine.
    pub fn new() -> (r: Self) {
        LineageProofEngine
    }

    /// Whether `hashes` form an intact lineage: the chain is not empty and each hash links
    /// to the one before it. The hop count is the chain's length (modulo 2^32).
    pub fn prove_lineage(&self, hashes: &[Vec<u8>]) -> (r: LineageProof)
        ensures
            r.event_id == NIL_ID,
            r.lineage_intact == (hashes@.len() > 0 && lineage_linked(hashes@)),
            r.chain_verified == r.lineage_intact,
            r.hop_count == hashes@.len() as u32,
    {
        if hashes.len() == 0 {
            return LineageProof { proof_id: fresh_id(), event_id: NIL_ID, lineage_intact: false, chain_verified: false, hop_count: 0 };
        }
        let n = hashes.len();
        let mut intact = true;
        let mut k: usize = 1;
        while k < n && intact
            invariant
                1 <= k <= n,
                n == hashes@.len(),
                intact ==> forall|q: int| 0 < q < k ==> #[trigger] hashes@[q]@ == sha256_digest(hashes@[q - 1]@.push(1u8)),
                !intact ==> !lineage_linked(hashes@),
            decreases n - k + (if intact { 1int } else { 0int }),
        {
            let mut input = hashes[k - 1].clone();
            input.push(1u8);
            let expected = sha256(input.as_slice());
            if !bytes_eq(expected.as_slice(), hashes[k].as_slice()) {
                intact = false;
                assert(hashes@[k as int]@ != sha256_digest(hashes@[k - 1]@.push(1u8)));
            } else {
                k = k + 1;
            }
        }
        LineageProof {
            proof_id: fresh_id(),
            event_id: NIL_ID,
            lineage_intact: intact,
            chain_verified: intact,
            hop_count: n as u32,
        }
    }
}

/// Checks hash chains of blocks for corruption.
pub struct CorruptionProofEngine;

/// The corruption found in a chain of blocks.
#[derive(Debug)]
pub struct CorruptionProof {
    pub proof_id: u128,
    pub target: String,
    pub chain_intact: bool,
    pub verified_blocks: u64,
    pub corrupted_blocks: u64,
    pub first_corruption_index: Option<u64>,
}

/// Block `k` of the chain links to the block before it: its hash is the SHA-256 of the
/// previous hash, the block's index (8 little-endian bytes) and the bytes of "chain-link".
pub open spec fn block_linked(blocks: Seq<(u64, Vec<u8>)>, k: int) -> bool {
    blocks[k].1@ == sha256_digest(blocks[k - 1].1@ + le_bytes64(blocks[k].0) + "chain-link".spec_bytes())
}

/// How many of the blocks `1..n` fail to link to the block before them.
pub open spec fn broken_links(blocks: Seq<(u64, Vec<u8>)>, n: int) -> nat
    decreases n,
{
    if n <= 1 {
        0
    } else {
        broken_links(blocks, n - 1) + (if block_linked(blocks, n - 1) { 0nat } else { 1nat })
    }
}

/// The index of the first of the blocks `1..n` that fails to link, if any.
pub open spec fn first_broken(blocks: Seq<(u64, Vec<u8>)>, n: int) -> Option<u64>
    decreases n,
{
    if n <= 1 {
        None
    } else {
        match first_broken(blocks, n - 1) {
            Some(i) => Some(i),
            None => if block_linked(blocks, n - 1) { None } else { Some(blocks[n - 1].0) },
        }
    }
}

proof fn lemma_broken_links_bounded(blocks: Seq<(u64, Vec<u8>)>, n: int)
    requires
        n >= 1,
    ensures
        broken_links(blocks, n) <= n - 1,
    decreases n,
{
    if n > 1 {
        lemma_broken_links_bounded(blocks, n - 1);
    }
}

impl CorruptionProofEngine {
    /// A new engine.
    pub fn new() -> (r: Self) {
        CorruptionProofEngine
    }

    /// Checks the chain of `block_hashes` for `target`: counts the blocks that fail to link
    /// to the block before them and names the index of the first. An empty chain is intact.
    pub fn verify_chain(&self, target: &str, block_hashes: &[(u64, Vec<u8>)]) -> (r: CorruptionProof)
        ensures
            r.target@ == target@,
            r.verified_blocks == block_hashes@.len(),
            r.corrupted_blocks == broken_links(block_hashes@, block_hashes@.len() as int),
            r.first_corruption_index == first_broken(block_hashes@, block_hashes@.len() as int),
            r.chain_intact == (r.corrupted_blocks == 0),
    {
        let n = block_hashes.len();
        let mut corrupted: u64 = 0;
        let mut first: Option<u64> = None;
        let mut k: usize = 1;
        while k < n
            invariant
                n == block_hashes@.len(),
                1 <= k <= n || n == 0,
                n == 0 ==> k == 1,
                corrupted == broken_links(block_hashes@, k as int),
                first == first_broken(block_hashes@, k as int),
            decreases n - k,
        {
            proof {
                lemma_broken_links_bounded(block_hashes@, k as int);
            }
            let (cur_idx, cur_hash) = (block_hashes[k].0, &block_hashes[k].1);
            let head = concat_bytes(block_hashes[k - 1].1.as_slice(), u64_le(cur_idx).as_slice());
            let input = concat_bytes(head.as_slice(), "chain-link".as_bytes());
            let expected = sha256(input.as_slice());
            if !bytes_eq(expected.as_slice(), cur_hash.as_slice()) {
                corrupted = corrupted + 1;
                if first.is_none() {
                    first = Some(cur_idx);
                }
            }
            k = k + 1;
        }
        CorruptionProof {
            proof_id: fresh_id(),
            target: owned(target),
            chain_intact: corrupted == 0,
            verified_blocks: n as u64,
            corrupted_blocks: corrupted,
            first_corruption_index: first,
        }
    }
}

/// Checks that recovery sequences reproduce the expected state at each step.
pub struct RecoveryCorrectnessEngine;

/// The steps of a recovery sequence that matched and that diverged.
#[derive(Debug)]
pub struct RecoveryCorrectnessProof {
    pub proof_id: u128,
    pub recovery_sequence_id: u128,
    pub deterministic: bool,
    pub steps_matched: Vec<String>,
    pub steps_diverged: Vec<String>,
}

/// The number of steps examined: as many as the longer of the two hash lists, but no more
/// than there are step names.
pub open spec fn steps_examined(expected: Seq<Vec<u8>>, actual: Seq<Vec<u8>>, names: Seq<String>) -> int {
    let longer = if expected.len() >= actual.len() { expected.len() } else { actual.len() };
    if longer <= names.len() { longer as int } else { names.len() as int }
}

/// The lines for the matching steps among the first `n`, in order.
pub open spec fn matched_steps(expected: Seq<Vec<u8>>, actual: Seq<Vec<u8>>, names: Seq<String>, n: int) -> Seq<Seq<char>>
    decreases n,
{
    if n <= 0 {
        Seq::empty()
    } else {
        let i = n - 1;
        matched_steps(expected, actual, names, i) + (
            if i < expected.len() && i < actual.len() && expected[i]@ == actual[i]@ {
                seq!["Step '"@ + names[i]@ + "' deterministic: hash matches"@]
            } else {
                Seq::empty()
            })
    }
}

/// The lines for the diverging or missing steps among the first `n`, in order.
pub open spec fn diverged_steps(expected: Seq<Vec<u8>>, actual: Seq<Vec<u8>>, names: Seq<String>, n: int) -> Seq<Seq<char>>
    decreases n,
{
    if n <= 0 {
        Seq::empty()
    } else {
        let i = n - 1;
        diverged_steps(expected, actual, names, i) + (
            if i < expected.len() && i < actual.len() && expected[i]@ != actual[i]@ {
                seq!["Step '"@ + names[i]@ + "' diverged: expected hash differs from actual"@]
            } else if i < expected.len() && i >= actual.len() {
                seq!["Step '"@ + names[i]@ + "' missing: expected hash but no actual hash"@]
            } else {
                Seq::empty()
            })
    }
}

impl RecoveryCorrectnessEngine {
    /// A new engine.
    pub fn new() -> (r: Self) {
        RecoveryCorrectnessEngine
    }

    /// Compares, step by step, the expected and actual state hashes of recovery sequence
    /// `sequence_id`: a step matches when both hashes are present and equal, diverges when
    /// they differ, and is missing when only the expected hash is present. The sequence
    /// is deterministic when no step diverged or went missing.
    pub fn verify_recovery(
        &self,
        sequence_id: u128,
        expected_state_hashes: &[Vec<u8>],
        actual_state_hashes: &[Vec<u8>],
        step_names: &[String],
    ) -> (r: RecoveryCorrectnessProof)
        ensures
            r.recovery_sequence_id == sequence_id,
            strs_view(r.steps_matched@) == matched_steps(expected_state_hashes@, actual_state_hashes@, step_names@,
                steps_examined(expected_state_hashes@, actual_state_hashes@, step_names@)),
            strs_view(r.steps_diverged@) == diverged_steps(expected_state_hashes@, actual_state_hashes@, step_names@,
                steps_examined(expected_state_hashes@, actual_state_hashes@, step_names@)),
            r.deterministic == (r.steps_diverged@.len() == 0),
    {
        let ghost e = expected_state_hashes@;
        let ghost a = actual_state_hashes@;
        let ghost names = step_names@;
        let longer = if expected_state_hashes.len() >= actual_state_hashes.len() {
            expected_state_hashes.len()
        } else {
            actual_state_hashes.len()
        };
        let count = if longer <= step_names.len() { longer } else { step_names.len() };
        let mut matched: Vec<String> = Vec::new();
        let mut diverged: Vec<String> = Vec::new();
        for i in 0..count
            invariant
                count == steps_examined(e, a, names),
                count <= names.len(),
                e == expected_state_hashes@,
                a == actual_state_hashes@,
                names == step_names@,
                strs_view(matched@) == matched_steps(e, a, names, i as int),
                strs_view(diverged@) == diverged_steps(e, a, names, i as int),
        {
            let name = step_names[i].as_str();
            let ghost m0 = strs_view(matched@);
            let ghost d0 = strs_view(diverged@);
            if i < expected_state_hashes.len() && i < actual_state_hashes.len() {
                if bytes_eq(expected_state_hashes[i].as_slice(), actual_state_hashes[i].as_slice()) {
                    matched.push(cat3("Step '", name, "' deterministic: hash matches"));
                    assert(strs_view(matched@) =~= m0.push("Step '"@ + name@ + "' deterministic: hash matches"@));
                } else {
                    diverged.push(cat3("Step '", name, "' diverged: expected hash differs from actual"));
                    assert(strs_view(diverged@) =~= d0.push("Step '"@ + name@ + "' diverged: expected hash differs from actual"@));
                }
            } else if i < expected_state_hashes.len() {
                diverged.push(cat3("Step '", name, "' missing: expected hash but no actual hash"));
                assert(strs_view(diverged@) =~= d0.push("Step '"@ + name@ + "' missing: expected hash but no actual hash"@));
            }
            assert(strs_view(matched@) =~= matched_steps(e, a, names, i + 1));
            assert(strs_view(diverged@) =~= diverged_steps(e, a, names, i + 1));
        }
        RecoveryCorrectnessProof {
            proof_id: fresh_id(),
            recovery_sequence_id: sequence_id,
            deterministic: diverged.len() == 0,
            steps_matched: matched,
            steps_diverged: diverged,
        }
    }
}

/// Computes state roots over transition logs.
pub struct DeterministicStateProofEngine;

/// The state root of a domain's transitions.
#[derive(Debug)]
pub struct DeterministicStateProof {
    pub proof_id: u128,
    pub domain: String,
    pub state_root: Vec<u8>,
    pub transition_count: u64,
    pub deterministic: bool,
    pub non_determinism_evidence: Vec<String>,
}

/// The bytes of the first `n` transitions of a log: each one's position (8 little-endian
/// bytes) followed by its hash.
pub open spec fn transition_log(hashes: Seq<Vec<u8>>, n: int) -> Seq<u8>
    decreases n,
{
    if n <= 0 {
        Seq::empty()
    } else {
        transition_log(hashes, n - 1) + le_bytes64((n - 1) as u64) + hashes[n - 1]@
    }
}

/// The state root of a domain: SHA-256 of "empty-state" when there are no transitions,
/// else of "deterministic-state-root", the domain's bytes and the transition log.
pub open spec fn state_root(domain: &str, hashes: Seq<Vec<u8>>) -> Seq<u8> {
    if hashes.len() == 0 {
        sha256_digest("empty-state".spec_bytes())
    } else {
        sha256_digest("deterministic-state-root".spec_bytes() + domain.spec_bytes() + transition_log(hashes, hashes.len() as int))
    }
}

impl DeterministicStateProofEngine {
    /// A new engine.
    pub fn new() -> (r: Self) {
        DeterministicStateProofEngine
    }

    /// The state root of `domain` over `transition_hashes`; every transition log is
    /// deterministic, so the proof always holds and records no evidence against it.
    pub fn prove_state_determinism(&self, domain: &str, transition_hashes: &[Vec<u8>]) -> (r: DeterministicStateProof)
        ensures
            r.domain@ == domain@,
            r.state_root@ == state_root(domain, transition_hashes@),
            r.transition_count == transition_hashes@.len(),
            r.deterministic,
            r.non_determinism_evidence@.len() == 0,
    {
        let n = transition_hashes.len();
        if n == 0 {
            return DeterministicStateProof {
                proof_id: fresh_id(),
                domain: owned(domain),
                state_root: sha256("empty-state".as_bytes()),
                transition_count: 0,
                deterministic: true,
                non_determinism_evidence: Vec::new(),
            };
        }
        let mut input = concat_bytes("deterministic-state-root".as_bytes(), domain.as_bytes());
        let ghost prefix = input@;
        for i in 0..n
            invariant
                n == transition_hashes@.len(),
                input@ == prefix + transition_log(transition_hashes@, i as int),
        {
            let with_index = concat_bytes(input.as_slice(), u64_le(i as u64).as_slice());
            input = concat_bytes(with_index.as_slice(), transition_hashes[i].as_slice());
            assert(input@ =~= prefix + transition_log(transition_hashes@, i + 1));
        }
        DeterministicStateProof {
            proof_id: fresh_id(),
            domain: owned(domain),
            state_root: sha256(input.as_slice()),
            transition_count: n as u64,
            deterministic: true,
            non_determinism_evidence: Vec::new(),
        }
    }
}

/// Checks topologies for unknown nodes and cycles.
pub struct TopologyVerifier;

/// Whether a topology is consistent.
#[derive(Debug)]
pub struct TopologyProof {
    pub proof_id: u128,
    pub consistent: bool,
    pub node_count: u32,
    pub cycles_detected: u32,
    pub orphans: Vec<String>,
}

/// The reports of the edges among the first `n` that name a node not in `nodes`, in order.
pub open spec fn orphan_reports(nodes: Seq<String>, edges: Seq<(String, String)>, n: int) -> Seq<Seq<char>>
    decreases n,
{
    if n <= 0 {
        Seq::empty()
    } else {
        let e = edges[n - 1];
        orphan_reports(nodes, edges, n - 1) + (if !lists(nodes, e.0@) || !lists(nodes, e.1@) {
            seq!["Edge references unknown node: "@ + e.0@ + " -> "@ + e.1@]
        } else {
            Seq::empty()
        })
    }
}

/// How many of the first `k` nodes are not yet visited.
pub open spec fn unvisited_count(visited: Seq<bool>, k: int) -> nat
    decreases k,
{
    if k <= 0 { 0 } else { unvisited_count(visited, k - 1) + (if visited[k - 1] { 0nat } else { 1nat }) }
}

/// The number of edges leaving the unvisited nodes among the first `k`.
pub open spec fn pending_edges(adj: Seq<Vec<usize>>, visited: Seq<bool>, k: int) -> nat
    decreases k,
{
    if k <= 0 { 0 } else { pending_edges(adj, visited, k - 1) + (if visited[k - 1] { 0nat } else { adj[k - 1]@.len() }) }
}

/// Every successor in `adj` names a node of the graph.
pub open spec fn successors_in_range(adj: Seq<Vec<usize>>) -> bool {
    forall|a: int, b: int| 0 <= a < adj.len() && 0 <= b < adj[a]@.len() ==> (#[trigger] adj[a]@[b]) < adj.len()
}

proof fn lemma_mark_visited(adj: Seq<Vec<usize>>, v: Seq<bool>, u: int, k: int)
    requires
        0 <= u < v.len(),
        !v[u],
        0 <= k <= v.len(),
    ensures
        k > u ==> unvisited_count(v.update(u, true), k) + 1 == unvisited_count(v, k),
        k > u ==> pending_edges(adj, v.update(u, true), k) + adj[u]@.len() == pending_edges(adj, v, k),
        k <= u ==> unvisited_count(v.update(u, true), k) == unvisited_count(v, k),
        k <= u ==> pending_edges(adj, v.update(u, true), k) == pending_edges(adj, v, k),
    decreases k,
{
    if k > 0 {
        lemma_mark_visited(adj, v, u, k - 1);
    }
}

proof fn lemma_visits_grow(adj: Seq<Vec<usize>>, v1: Seq<bool>, v2: Seq<bool>, k: int)
    requires
        v1.len() == v2.len(),
        0 <= k <= v1.len(),
        forall|i: int| 0 <= i < v1.len() && #[trigger] v1[i] ==> v2[i],
    ensures
        unvisited_count(v2, k) <= unvisited_count(v1, k),
        pending_edges(adj, v2, k) <= pending_edges(adj, v1, k),
    decreases k,
{
    if k > 0 {
        lemma_visits_grow(adj, v1, v2, k - 1);
    }
}

/// `adj` has an edge from node `a` to node `b`.
spec fn has_edge(adj: Seq<Vec<usize>>, a: int, b: int) -> bool {
    0 <= a < adj.len() && exists|q: int| 0 <= q < adj[a]@.len() && adj[a]@[q] as int == b
}

/// Each node of `p` has an edge to the next one.
spec fn walk_ok(adj: Seq<Vec<usize>>, p: Seq<usize>) -> bool {
    forall|i: int, j: int| 0 <= i && j == i + 1 && j < p.len()
        ==> has_edge(adj, (#[trigger] p[i]) as int, (#[trigger] p[j]) as int)
}

/// `p` walks from one of `starts`, and its last node has an edge back to its `k`-th node.
spec fn lasso(adj: Seq<Vec<usize>>, starts: Seq<usize>, p: Seq<usize>, k: int) -> bool {
    &&& p.len() > 0
    &&& starts.contains(p[0])
    &&& walk_ok(adj, p)
    &&& 0 <= k < p.len()
    &&& has_edge(adj, p.last() as int, p[k] as int)
}

/// Some cycle of `adj` is reachable from one of `starts`.
spec fn has_lasso(adj: Seq<Vec<usize>>, starts: Seq<usize>) -> bool {
    exists|p: Seq<usize>, k: int| lasso(adj, starts, p, k)
}

/// The nodes marked in `on_path` are exactly those of `path`.
spec fn path_marks(on_path: Seq<bool>, path: Seq<usize>) -> bool {
    &&& forall|k: int| 0 <= k < path.len() ==> (#[trigger] path[k]) < on_path.len() && on_path[path[k] as int]
    &&& forall|i: int| 0 <= i < on_path.len() && #[trigger] on_path[i]
        ==> exists|k: int| 0 <= k < path.len() && path[k] as int == i
}

/// The finishing times of a search that has met no back edge: every finished node is
/// visited, off the path and finished before `clock`; every visited node off the path has
/// finished; and every finished node finished after each of its successors.
spec fn finishing_ok(adj: Seq<Vec<usize>>, fin: Map<int, nat>, clock: nat, visited: Seq<bool>, on_path: Seq<bool>) -> bool {
    &&& forall|i: int| #[trigger] fin.dom().contains(i)
        ==> 0 <= i < adj.len() && visited[i] && !on_path[i] && fin[i] < clock
    &&& forall|i: int| 0 <= i < adj.len() && #[trigger] visited[i] && !on_path[i] ==> fin.dom().contains(i)
    &&& forall|i: int, j: int| #[trigger] fin.dom().contains(i) && #[trigger] has_edge(adj, i, j)
        ==> fin.dom().contains(j) && fin[j] < fin[i]
}

/// `f2` keeps every finishing time of `f1`.
spec fn times_kept(f1: Map<int, nat>, f2: Map<int, nat>) -> bool {
    forall|i: int| #[trigger] f1.dom().contains(i) ==> f2.dom().contains(i) && f2[i] == f1[i]
}

/// Along a walk that starts at a finished node, finishing times fall at each step.
proof fn lemma_times_fall(
    adj: Seq<Vec<usize>>,
    fin: Map<int, nat>,
    clock: nat,
    visited: Seq<bool>,
    on_path: Seq<bool>,
    p: Seq<usize>,
    a: int,
    b: int,
)
    requires
        finishing_ok(adj, fin, clock, visited, on_path),
        walk_ok(adj, p),
        0 <= a <= b < p.len(),
        fin.dom().contains(p[a] as int),
    ensures
        fin.dom().contains(p[b] as int),
        fin[p[b] as int] + (b - a) <= fin[p[a] as int],
    decreases b - a,
{
    if b > a {
        lemma_times_fall(adj, fin, clock, visited, on_path, p, a, b - 1);
        assert(p[b - 1] == p[b - 1] && p[b] == p[b]);
        assert(has_edge(adj, p[b - 1] as int, p[b] as int));
        assert(fin.dom().contains(p[b - 1] as int));
    }
}

/// When every start has finished after all its successors, no cycle is reachable.
proof fn lemma_no_lasso(
    adj: Seq<Vec<usize>>,
    starts: Seq<usize>,
    fin: Map<int, nat>,
    clock: nat,
    visited: Seq<bool>,
    on_path: Seq<bool>,
)
    requires
        finishing_ok(adj, fin, clock, visited, on_path),
        forall|q: int| 0 <= q < starts.len() ==> fin.dom().contains(#[trigger] starts[q] as int),
    ensures
        !has_lasso(adj, starts),
{
    if has_lasso(adj, starts) {
        let (p, k) = choose|p: Seq<usize>, k: int| lasso(adj, starts, p, k);
        let q0 = choose|q: int| 0 <= q < starts.len() && starts[q] == p[0];
        assert(fin.dom().contains(starts[q0] as int));
        lemma_times_fall(adj, fin, clock, visited, on_path, p, 0, k);
        lemma_times_fall(adj, fin, clock, visited, on_path, p, k, p.len() - 1);
        assert(p.last() == p[p.len() - 1]);
        assert(has_edge(adj, p.last() as int, p[k] as int));
        assert(fin.dom().contains(p.last() as int));
    }
}

/// Depth-first search from the unvisited node `u`, counting the edges that lead back to a
/// node on the current path `path`. A count above zero means that a cycle is reachable
/// from `starts`; a count of zero leaves finishing times that rule a cycle out.
fn dfs_back_edges(
    u: usize,
    adj: &Vec<Vec<usize>>,
    visited: &mut Vec<bool>,
    on_path: &mut Vec<bool>,
    cycles: &mut u32,
    Ghost(starts): Ghost<Seq<usize>>,
    Ghost(path): Ghost<Seq<usize>>,
    Ghost(fin): Ghost<Map<int, nat>>,
    Ghost(clock): Ghost<nat>,
) -> (r: Ghost<(Map<int, nat>, nat)>)
    requires
        u < adj@.len(),
        old(visited)@.len() == adj@.len(),
        old(on_path)@.len() == adj@.len(),
        successors_in_range(adj@),
        !old(visited)@[u as int],
        forall|i: int| 0 <= i < adj@.len() && #[trigger] old(on_path)@[i] ==> old(visited)@[i],
        *old(cycles) + pending_edges(adj@, old(visited)@, adj@.len() as int) <= u32::MAX,
        path_marks(old(on_path)@, path),
        walk_ok(adj@, path.push(u)),
        starts.contains(path.push(u)[0]),
        *old(cycles) > 0 ==> has_lasso(adj@, starts),
        *old(cycles) == 0 ==> finishing_ok(adj@, fin, clock, old(visited)@, old(on_path)@),
    ensures
        final(visited)@.len() == adj@.len(),
        final(on_path)@ == old(on_path)@,
        final(visited)@[u as int],
        forall|i: int| 0 <= i < adj@.len() && #[trigger] old(visited)@[i] ==> final(visited)@[i],
        *final(cycles) + pending_edges(adj@, final(visited)@, adj@.len() as int)
            <= *old(cycles) + pending_edges(adj@, old(visited)@, adj@.len() as int),
        unvisited_count(final(visited)@, adj@.len() as int) < unvisited_count(old(visited)@, adj@.len() as int),
        *final(cycles) >= *old(cycles),
        *final(cycles) > 0 ==> has_lasso(adj@, starts),
        *final(cycles) == 0 ==> finishing_ok(adj@, r@.0, r@.1, final(visited)@, final(on_path)@)
            && times_kept(fin, r@.0) && r@.0.dom().contains(u as int),
    decreases unvisited_count(old(visited)@, adj@.len() as int),
{
    let ghost n = adj@.len() as int;
    let ghost v0 = visited@;
    let ghost p0 = on_path@;
    let ghost c0 = *cycles;
    let ghost pp = path.push(u);
    proof {
        lemma_mark_visited(adj@, v0, u as int, n);
    }
    visited.set(u, true);
    on_path.set(u, true);
    let ghost mut fin_c = fin;
    let ghost mut clock_c = clock;
    proof {
        assert(!p0[u as int]);
        assert forall|k: int| 0 <= k < pp.len() implies (#[trigger] pp[k]) < on_path@.len() && on_path@[pp[k] as int] by {
            if k < path.len() {
                assert(pp[k] == path[k]);
            }
        }
        assert forall|i: int| 0 <= i < on_path@.len() && #[trigger] on_path@[i]
            implies exists|k: int| 0 <= k < pp.len() && pp[k] as int == i by {
            if i == u as int {
                assert(pp[path.len() as int] == u);
            } else {
                assert(p0[i]);
                let k = choose|k: int| 0 <= k < path.len() && path[k] as int == i;
                assert(pp[k] == path[k]);
            }
        }
        if c0 == 0 {
            assert forall|i: int| #[trigger] fin_c.dom().contains(i)
                implies 0 <= i < n && visited@[i] && !on_path@[i] && fin_c[i] < clock_c by {
                assert(v0[i]);
            }
            assert forall|i: int| 0 <= i < n && #[trigger] visited@[i] && !on_path@[i] implies fin_c.dom().contains(i) by {
                assert(i != u as int);
                assert(v0[i] && !p0[i]);
            }
        }
    }
    let succ = &adj[u];
    let m = succ.len();
    let mut j: usize = 0;
    while j < m
        invariant
            n == adj@.len(),
            u < n,
            v0.len() == n,
            v0 == old(visited)@,
            p0.len() == n,
            m == succ@.len(),
            succ == adj@[u as int],
            j <= m,
            successors_in_range(adj@),
            visited@.len() == n,
            on_path@ == p0.update(u as int, true),
            visited@[u as int],
            forall|i: int| 0 <= i < n && #[trigger] v0[i] ==> visited@[i],
            forall|i: int| 0 <= i < n && #[trigger] on_path@[i] ==> visited@[i],
            *cycles + pending_edges(adj@, visited@, n) + (m - j) <= c0 + pending_edges(adj@, v0, n),
            c0 + pending_edges(adj@, v0, n) <= u32::MAX,
            unvisited_count(visited@, n) < unvisited_count(v0, n),
            pp == path.push(u),
            path_marks(on_path@, pp),
            walk_ok(adj@, pp),
            starts.contains(pp[0]),
            *cycles >= c0,
            *cycles > 0 ==> has_lasso(adj@, starts),
            *cycles == 0 ==> {
                &&& finishing_ok(adj@, fin_c, clock_c, visited@, on_path@)
                &&& times_kept(fin, fin_c)
                &&& forall|q: int| 0 <= q < j ==> fin_c.dom().contains((#[trigger] succ@[q]) as int)
            },
        decreases m - j,
    {
        let w = succ[j];
        assert(w < n);
        proof {
            assert(has_edge(adj@, u as int, w as int)) by {
                assert(adj@[u as int]@[j as int] == w);
            }
        }
        if !visited[w] {
            let ghost vb = visited@;
            let ghost fb = fin_c;
            let ghost cb = *cycles;
            assert(unvisited_count(visited@, adj@.len() as int) < unvisited_count(v0, adj@.len() as int));
            proof {
                let pw = pp.push(w);
                assert forall|i: int, jj: int| 0 <= i && jj == i + 1 && jj < pw.len()
                    implies has_edge(adj@, (#[trigger] pw[i]) as int, (#[trigger] pw[jj]) as int) by {
                    if jj < pp.len() {
                        assert(pw[i] == pp[i] && pw[jj] == pp[jj]);
                    } else {
                        assert(pw[i] == pp.last() && pw[jj] == w);
                    }
                }
                assert(pw[0] == pp[0]);
            }
            let res = dfs_back_edges(w, adj, visited, on_path, cycles, Ghost(starts), Ghost(pp), Ghost(fin_c), Ghost(clock_c));
            proof {
                assert forall|i: int| 0 <= i < n && #[trigger] v0[i] implies visited@[i] by {
                    assert(vb[i]);
                }
                assert forall|i: int| 0 <= i < n && #[trigger] on_path@[i] implies visited@[i] by {
                    assert(vb[i]);
                }
                if *cycles == 0 {
                    fin_c = res@.0;
                    clock_c = res@.1;
                    assert forall|i: int| #[trigger] fin.dom().contains(i) implies fin_c.dom().contains(i) && fin_c[i] == fin[i] by {
                        assert(fb.dom().contains(i));
                    }
                    assert forall|q: int| 0 <= q < j + 1 implies fin_c.dom().contains((#[trigger] succ@[q]) as int) by {
                        if q < j {
                            assert(fb.dom().contains(succ@[q] as int));
                        }
                    }
                }
            }
        } else if on_path[w] {
            proof {
                let k = choose|k: int| 0 <= k < pp.len() && pp[k] as int == w as int;
                assert(pp.last() == u);
                assert(lasso(adj@, starts, pp, k));
            }
            *cycles = *cycles + 1;
        } else {
            proof {
                if *cycles == 0 {
                    assert(fin_c.dom().contains(w as int));
                    assert forall|q: int| 0 <= q < j + 1 implies fin_c.dom().contains((#[trigger] succ@[q]) as int) by {
                    }
                }
            }
        }
        j = j + 1;
    }
    let ghost onc = on_path@;
    on_path.set(u, false);
    proof {
        assert(on_path@ =~= p0);
        lemma_visits_grow(adj@, v0, visited@, n);
    }
    let ghost fin_out = fin_c.insert(u as int, clock_c);
    let ghost clock_out: nat = clock_c + 1;
    proof {
        if *cycles == 0 {
            assert(!fin_c.dom().contains(u as int));
            assert forall|i: int| #[trigger] fin_out.dom().contains(i)
                implies 0 <= i < n && visited@[i] && !on_path@[i] && fin_out[i] < clock_out by {
                if i != u as int {
                    assert(fin_c.dom().contains(i));
                    assert(!onc[i]);
                }
            }
            assert forall|i: int| 0 <= i < n && #[trigger] visited@[i] && !on_path@[i] implies fin_out.dom().contains(i) by {
                if i != u as int {
                    assert(!onc[i]);
                    assert(fin_c.dom().contains(i));
                }
            }
            assert forall|i: int, jj: int| #[trigger] fin_out.dom().contains(i) && #[trigger] has_edge(adj@, i, jj)
                implies fin_out.dom().contains(jj) && fin_out[jj] < fin_out[i] by {
                if i == u as int {
                    let q = choose|q: int| 0 <= q < adj@[u as int]@.len() && adj@[u as int]@[q] as int == jj;
                    assert(succ@[q] as int == jj);
                    assert(fin_c.dom().contains(jj));
                    assert(jj != u as int);
                } else {
                    assert(fin_c.dom().contains(i));
                    assert(fin_c.dom().contains(jj));
                    assert(jj != u as int);
                }
            }
            assert forall|i: int| #[trigger] fin.dom().contains(i) implies fin_out.dom().contains(i) && fin_out[i] == fin[i] by {
                assert(fin_c.dom().contains(i));
            }
        }
    }
    Ghost((fin_out, clock_out))
}

/// No two entries of `names` are equal.
spec fn names_distinct(names: Seq<String>) -> bool {
    forall|a: int, b: int| 0 <= a < names.len() && 0 <= b < names.len() && a != b
        ==> (#[trigger] names[a])@ != (#[trigger] names[b])@
}

/// The index of `key` in `names`, adding it at the end when it is not there yet.
fn intern(names: &mut Vec<String>, key: &str) -> (r: usize)
    requires
        names_distinct(old(names)@),
    ensures
        names_distinct(final(names)@),
        r < final(names)@.len(),
        final(names)@[r as int]@ == key@,
        final(names)@.len() >= old(names)@.len(),
        forall|i: int| 0 <= i < old(names)@.len() ==> #[trigger] final(names)@[i] == old(names)@[i],
{
    let n = names.len();
    for i in 0..n
        invariant
            n == names@.len(),
            names@ == old(names)@,
            names_distinct(old(names)@),
            forall|j: int| 0 <= j < i ==> (#[trigger] names@[j])@ != key@,
    {
        if crate::text::str_eq(names[i].as_str(), key) {
            return i;
        }
    }
    let ghost before = names@;
    names.push(owned(key));
    proof {
        assert forall|a: int, b: int| 0 <= a < names@.len() && 0 <= b < names@.len() && a != b
            implies (#[trigger] names@[a])@ != (#[trigger] names@[b])@ by {
            if a < n as int && b < n as int {
                assert(names@[a] == before[a] && names@[b] == before[b]);
            } else if a < n as int {
                assert(names@[a] == before[a]);
            } else {
                assert(names@[b] == before[b]);
            }
        }
    }
    n
}

/// Some edge of `edges` goes from `a` to `b`.
pub open spec fn names_edge(edges: Seq<(String, String)>, a: Seq<char>, b: Seq<char>) -> bool {
    exists|q: int| 0 <= q < edges.len() && (#[trigger] edges[q]).0@ == a && edges[q].1@ == b
}

/// `p` is a walk along `edges` from a node of `nodes`, and its last node has an edge back
/// to its `k`-th node: a cycle that can be reached from a listed node.
pub open spec fn reachable_cycle(nodes: Seq<String>, edges: Seq<(String, String)>, p: Seq<Seq<char>>, k: int) -> bool {
    &&& p.len() > 0
    &&& lists(nodes, p[0])
    &&& forall|i: int| 0 <= i < p.len() - 1 ==> names_edge(edges, #[trigger] p[i], p[i + 1])
    &&& 0 <= k < p.len()
    &&& names_edge(edges, p.last(), p[k])
}

/// Some cycle of the graph of `edges` can be reached from a node of `nodes`.
pub open spec fn has_reachable_cycle(nodes: Seq<String>, edges: Seq<(String, String)>) -> bool {
    exists|p: Seq<Seq<char>>, k: int| reachable_cycle(nodes, edges, p, k)
}

/// How the numbered graph stands for the named one: `names` holds each name once, `starts`
/// numbers `nodes`, `pairs` numbers `edges`, and `adj` has exactly the numbered edges.
spec fn numbered(
    nodes: Seq<String>,
    edges: Seq<(String, String)>,
    names: Seq<String>,
    starts: Seq<usize>,
    pairs: Seq<(usize, usize)>,
    adj: Seq<Vec<usize>>,
) -> bool {
    &&& names_distinct(names)
    &&& adj.len() == names.len()
    &&& names.len() <= usize::MAX
    &&& starts.len() == nodes.len()
    &&& forall|q: int| 0 <= q < starts.len()
        ==> (#[trigger] starts[q]) < names.len() && names[starts[q] as int]@ == nodes[q]@
    &&& pairs.len() == edges.len()
    &&& forall|q: int| 0 <= q < pairs.len() ==> {
        &&& (#[trigger] pairs[q]).0 < names.len()
        &&& pairs[q].1 < names.len()
        &&& names[pairs[q].0 as int]@ == edges[q].0@
        &&& names[pairs[q].1 as int]@ == edges[q].1@
    }
    &&& forall|s: int, t: int| #[trigger] has_edge(adj, s, t)
        <==> exists|q: int| 0 <= q < pairs.len() && (#[trigger] pairs[q]).0 as int == s && pairs[q].1 as int == t
}

/// The position of `x` in `names`.
spec fn name_index(names: Seq<String>, x: Seq<char>) -> int {
    choose|j: int| 0 <= j < names.len() && (#[trigger] names[j])@ == x
}

/// A name that is the source of an edge has a position, and it is the only one.
proof fn lemma_source_indexed(
    nodes: Seq<String>,
    edges: Seq<(String, String)>,
    names: Seq<String>,
    starts: Seq<usize>,
    pairs: Seq<(usize, usize)>,
    adj: Seq<Vec<usize>>,
    x: Seq<char>,
    y: Seq<char>,
)
    requires
        numbered(nodes, edges, names, starts, pairs, adj),
        names_edge(edges, x, y),
    ensures
        0 <= name_index(names, x) < names.len(),
        names[name_index(names, x)]@ == x,
        0 <= name_index(names, y) < names.len(),
        names[name_index(names, y)]@ == y,
        has_edge(adj, name_index(names, x), name_index(names, y)),
{
    let q = choose|q: int| 0 <= q < edges.len() && (#[trigger] edges[q]).0@ == x && edges[q].1@ == y;
    let s = pairs[q].0 as int;
    let t = pairs[q].1 as int;
    assert(names[s]@ == x);
    assert(names[t]@ == y);
    let a = name_index(names, x);
    let b = name_index(names, y);
    assert(names[a]@ == x);
    assert(names[b]@ == y);
    assert(a == s);
    assert(b == t);
    assert(has_edge(adj, s, t));
}

/// A reachable cycle of the numbered graph is one of the named graph, and back.
proof fn lemma_numbered_cycles(
    nodes: Seq<String>,
    edges: Seq<(String, String)>,
    names: Seq<String>,
    starts: Seq<usize>,
    pairs: Seq<(usize, usize)>,
    adj: Seq<Vec<usize>>,
)
    requires
        numbered(nodes, edges, names, starts, pairs, adj),
    ensures
        has_lasso(adj, starts) <==> has_reachable_cycle(nodes, edges),
{
    if has_lasso(adj, starts) {
        let (p, k) = choose|p: Seq<usize>, k: int| lasso(adj, starts, p, k);
        let np = Seq::new(p.len(), |i: int| names[p[i] as int]@);
        let q0 = choose|q: int| 0 <= q < starts.len() && starts[q] == p[0];
        assert(starts[q0] == p[0]);
        assert((nodes[q0])@ == np[0]);
        assert forall|i: int| 0 <= i < np.len() - 1 implies names_edge(edges, #[trigger] np[i], np[i + 1]) by {
            assert(p[i] == p[i] && p[i + 1] == p[i + 1]);
            assert(has_edge(adj, p[i] as int, p[i + 1] as int));
            let q = choose|q: int| 0 <= q < pairs.len() && (#[trigger] pairs[q]).0 as int == p[i] as int
                && pairs[q].1 as int == p[i + 1] as int;
            assert(edges[q].0@ == np[i] && edges[q].1@ == np[i + 1]);
        }
        assert(names_edge(edges, np.last(), np[k])) by {
            assert(has_edge(adj, p.last() as int, p[k] as int));
            let q = choose|q: int| 0 <= q < pairs.len() && (#[trigger] pairs[q]).0 as int == p.last() as int
                && pairs[q].1 as int == p[k] as int;
            assert(edges[q].0@ == np.last() && edges[q].1@ == np[k]);
        }
        assert(reachable_cycle(nodes, edges, np, k));
    }
    if has_reachable_cycle(nodes, edges) {
        let (np, k) = choose|np: Seq<Seq<char>>, k: int| reachable_cycle(nodes, edges, np, k);
        let p = Seq::new(np.len(), |i: int| name_index(names, np[i]) as usize);
        assert forall|i: int, j: int| 0 <= i && j == i + 1 && j < p.len()
            implies has_edge(adj, (#[trigger] p[i]) as int, (#[trigger] p[j]) as int) by {
            assert(names_edge(edges, np[i], np[i + 1]));
            lemma_source_indexed(nodes, edges, names, starts, pairs, adj, np[i], np[i + 1]);
        }
        assert(has_edge(adj, p.last() as int, p[k] as int)) by {
            assert(np.last() == np[np.len() - 1]);
            lemma_source_indexed(nodes, edges, names, starts, pairs, adj, np.last(), np[k]);
        }
        assert(starts.contains(p[0])) by {
            let qn = choose|i: int| 0 <= i < nodes.len() && (#[trigger] nodes[i])@ == np[0];
            let s = starts[qn] as int;
            assert(names[s]@ == np[0]);
            if np.len() > 1 {
                assert(names_edge(edges, np[0], np[1]));
                lemma_source_indexed(nodes, edges, names, starts, pairs, adj, np[0], np[1]);
            } else {
                assert(np.last() == np[0]);
                lemma_source_indexed(nodes, edges, names, starts, pairs, adj, np.last(), np[k]);
            }
            assert(name_index(names, np[0]) == s);
            assert(starts[qn] == p[0]);
        }
        assert(lasso(adj, starts, p, k));
    }
}

/// After `t` is added to the successors of `s0`, the edges are the old ones and `s0 -> t`.
proof fn lemma_edge_added(adj: Seq<Vec<usize>>, s0: int, t0: usize, out: Vec<usize>)
    requires
        0 <= s0 < adj.len(),
        out@ == adj[s0]@.push(t0),
    ensures
        forall|s: int, t: int| #[trigger] has_edge(adj.update(s0, out), s, t)
            <==> (has_edge(adj, s, t) || (s == s0 && t == t0 as int)),
{
    let a2 = adj.update(s0, out);
    assert forall|s: int, t: int| #[trigger] has_edge(a2, s, t) <==> (has_edge(adj, s, t) || (s == s0 && t == t0 as int)) by {
        if s == s0 {
            if has_edge(a2, s, t) {
                let q = choose|q: int| 0 <= q < a2[s]@.len() && a2[s]@[q] as int == t;
                if q < adj[s0]@.len() {
                    assert(adj[s]@[q] == a2[s]@[q]);
                }
            }
            if has_edge(adj, s, t) {
                let q = choose|q: int| 0 <= q < adj[s]@.len() && adj[s]@[q] as int == t;
                assert(a2[s]@[q] == adj[s]@[q]);
            }
            if t == t0 as int {
                assert(a2[s]@[adj[s0]@.len() as int] == t0);
            }
        } else if 0 <= s < adj.len() {
            assert(a2[s] == adj[s]);
        }
    }
}

impl TopologyVerifier {
    /// A new verifier.
    pub fn new() -> (r: Self) {
        TopologyVerifier
    }

    /// Checks a topology: each edge naming a node not in `nodes` is reported, and cycles
    /// are counted by depth-first search from the nodes in order. The topology is
    /// consistent when nothing is reported and no cycle is found. The node count is the
    /// number of entries of `nodes` (modulo 2^32).
    pub fn verify_topology(&self, nodes: &[String], edges: &[(String, String)]) -> (r: TopologyProof)
        requires
            edges@.len() <= u32::MAX,
        ensures
            strs_view(r.orphans@) == orphan_reports(nodes@, edges@, edges@.len() as int),
            r.node_count == nodes@.len() as u32,
            r.cycles_detected <= edges@.len(),
            (r.cycles_detected == 0) == !has_reachable_cycle(nodes@, edges@),
            r.consistent == (r.orphans@.len() == 0 && r.cycles_detected == 0),
    {
        let mut orphans: Vec<String> = Vec::new();
        let ne = edges.len();
        for k in 0..ne
            invariant
                ne == edges@.len(),
                strs_view(orphans@) == orphan_reports(nodes@, edges@, k as int),
        {
            let (src, tgt) = (&edges[k].0, &edges[k].1);
            let ghost before = strs_view(orphans@);
            if !crate::text::slice_lists(nodes, src.as_str()) || !crate::text::slice_lists(nodes, tgt.as_str()) {
                orphans.push(cat4("Edge references unknown node: ", src.as_str(), " -> ", tgt.as_str()));
                assert(strs_view(orphans@) =~= before.push("Edge references unknown node: "@ + src@ + " -> "@ + tgt@));
            }
            assert(strs_view(orphans@) =~= orphan_reports(nodes@, edges@, k + 1));
        }
        let cycles = Self::detect_cycles(nodes, edges);
        TopologyProof {
            proof_id: fresh_id(),
            consistent: orphans.len() == 0 && cycles == 0,
            node_count: nodes.len() as u32,
            cycles_detected: cycles,
            orphans,
        }
    }

    /// Counts, by depth-first search from each node in turn, the edges that lead back to a
    /// node on the current search path. Edges are followed in the order given. The count
    /// is zero exactly when no cycle can be reached from a listed node.
    fn detect_cycles(nodes: &[String], edges: &[(String, String)]) -> (r: u32)
        requires
            edges@.len() <= u32::MAX,
        ensures
            r <= edges@.len(),
            (r == 0) == !has_reachable_cycle(nodes@, edges@),
    {
        let mut names: Vec<String> = Vec::new();
        let nn = nodes.len();
        let mut starts: Vec<usize> = Vec::new();
        for i in 0..nn
            invariant
                nn == nodes@.len(),
                starts@.len() == i,
                names_distinct(names@),
                forall|q: int| 0 <= q < i
                    ==> (#[trigger] starts@[q]) < names@.len() && names@[starts@[q] as int]@ == nodes@[q]@,
        {
            let ghost nb = names@;
            let x = intern(&mut names, nodes[i].as_str());
            starts.push(x);
            proof {
                assert forall|q: int| 0 <= q < i + 1
                    implies (#[trigger] starts@[q]) < names@.len() && names@[starts@[q] as int]@ == nodes@[q]@ by {
                    if q < i {
                        assert(names@[starts@[q] as int] == nb[starts@[q] as int]);
                    }
                }
            }
        }
        let ne = edges.len();
        let mut pairs: Vec<(usize, usize)> = Vec::new();
        for k in 0..ne
            invariant
                ne == edges@.len(),
                nn == nodes@.len(),
                pairs@.len() == k,
                starts@.len() == nn,
                names_distinct(names@),
                forall|q: int| 0 <= q < nn
                    ==> (#[trigger] starts@[q]) < names@.len() && names@[starts@[q] as int]@ == nodes@[q]@,
                forall|q: int| 0 <= q < k ==> {
                    &&& (#[trigger] pairs@[q]).0 < names@.len()
                    &&& pairs@[q].1 < names@.len()
                    &&& names@[pairs@[q].0 as int]@ == edges@[q].0@
                    &&& names@[pairs@[q].1 as int]@ == edges@[q].1@
                },
        {
            let ghost nb = names@;
            let s = intern(&mut names, edges[k].0.as_str());
            let ghost nm = names@;
            let t = intern(&mut names, edges[k].1.as_str());
            pairs.push((s, t));
            proof {
                assert forall|q: int| 0 <= q < nn
                    implies (#[trigger] starts@[q]) < names@.len() && names@[starts@[q] as int]@ == nodes@[q]@ by {
                    assert(names@[starts@[q] as int] == nm[starts@[q] as int]);
                    assert(nm[starts@[q] as int] == nb[starts@[q] as int]);
                }
                assert forall|q: int| 0 <= q < k + 1 implies {
                    &&& (#[trigger] pairs@[q]).0 < names@.len()
                    &&& pairs@[q].1 < names@.len()
                    &&& names@[pairs@[q].0 as int]@ == edges@[q].0@
                    &&& names@[pairs@[q].1 as int]@ == edges@[q].1@
                } by {
                    if q < k {
                        assert(names@[pairs@[q].0 as int] == nm[pairs@[q].0 as int]);
                        assert(nm[pairs@[q].0 as int] == nb[pairs@[q].0 as int]);
                        assert(names@[pairs@[q].1 as int] == nm[pairs@[q].1 as int]);
                        assert(nm[pairs@[q].1 as int] == nb[pairs@[q].1 as int]);
                    } else {
                        assert(names@[s as int] == nm[s as int]);
                    }
                }
            }
        }
        let n = names.len();
        let mut adj: Vec<Vec<usize>> = Vec::new();
        for i in 0..n
            invariant
                adj@.len() == i,
                forall|a: int| 0 <= a < i ==> (#[trigger] adj@[a])@.len() == 0,
        {
            adj.push(Vec::new());
        }
        let ghost none: Seq<bool> = Seq::new(n as nat, |i: int| false);
        proof {
            assert(pending_edges(adj@, none, n as int) == 0) by {
                lemma_no_edges(adj@, none, n as int);
            }
            assert forall|s: int, t: int| #[trigger] has_edge(adj@, s, t)
                <==> exists|q: int| 0 <= q < 0 && (#[trigger] pairs@[q]).0 as int == s && pairs@[q].1 as int == t by {
                if has_edge(adj@, s, t) {
                    assert(adj@[s]@.len() == 0);
                }
            }
        }
        for k in 0..ne
            invariant
                n == adj@.len(),
                none.len() == n,
                forall|i: int| 0 <= i < n ==> !#[trigger] none[i],
                pairs@.len() == ne,
                forall|q: int| 0 <= q < ne ==> (#[trigger] pairs@[q]).0 < n && pairs@[q].1 < n,
                successors_in_range(adj@),
                pending_edges(adj@, none, n as int) == k,
                forall|s: int, t: int| #[trigger] has_edge(adj@, s, t)
                    <==> exists|q: int| 0 <= q < k && (#[trigger] pairs@[q]).0 as int == s && pairs@[q].1 as int == t,
        {
            let (s, t) = pairs[k];
            let ghost before = adj@;
            let mut out: Vec<usize> = Vec::new();
            std::mem::swap(&mut out, &mut adj[s]);
            out.push(t);
            let ghost pushed = out;
            adj.set(s, out);
            proof {
                lemma_push_edge(before, none, s as int, t, n as int);
                assert(adj@ == before.update(s as int, pushed));
                lemma_edge_added(before, s as int, t, pushed);
                assert forall|a: int, b: int| #[trigger] has_edge(adj@, a, b)
                    <==> exists|q: int| 0 <= q < k + 1 && (#[trigger] pairs@[q]).0 as int == a && pairs@[q].1 as int == b by {
                    if has_edge(adj@, a, b) {
                        if !has_edge(before, a, b) {
                            assert(pairs@[k as int].0 as int == a && pairs@[k as int].1 as int == b);
                        } else {
                            let q = choose|q: int| 0 <= q < k && (#[trigger] pairs@[q]).0 as int == a && pairs@[q].1 as int == b;
                        }
                    }
                    if exists|q: int| 0 <= q < k + 1 && (#[trigger] pairs@[q]).0 as int == a && pairs@[q].1 as int == b {
                        let q = choose|q: int| 0 <= q < k + 1 && (#[trigger] pairs@[q]).0 as int == a && pairs@[q].1 as int == b;
                        if q < k {
                            assert(has_edge(before, a, b));
                        }
                    }
                }
            }
        }
        proof {
            assert(numbered(nodes@, edges@, names@, starts@, pairs@, adj@));
            lemma_numbered_cycles(nodes@, edges@, names@, starts@, pairs@, adj@);
        }
        let mut visited: Vec<bool> = Vec::new();
        let mut on_path: Vec<bool> = Vec::new();
        for i in 0..n
            invariant
                visited@.len() == i,
                on_path@.len() == i,
                forall|a: int| 0 <= a < i ==> !#[trigger] visited@[a],
                forall|a: int| 0 <= a < i ==> !#[trigger] on_path@[a],
        {
            visited.push(false);
            on_path.push(false);
        }
        proof {
            assert(visited@ =~= none);
        }
        let mut cycles: u32 = 0;
        let ghost mut fin: Map<int, nat> = Map::empty();
        let ghost mut clock: nat = 0;
        for i in 0..nn
            invariant
                n == adj@.len(),
                visited@.len() == n,
                on_path@.len() == n,
                forall|a: int| 0 <= a < n ==> !#[trigger] on_path@[a],
                forall|q: int| 0 <= q < starts@.len() ==> #[trigger] starts@[q] < n,
                starts@.len() == nn,
                successors_in_range(adj@),
                cycles + pending_edges(adj@, visited@, n as int) <= ne,
                ne <= u32::MAX,
                cycles > 0 ==> has_lasso(adj@, starts@),
                cycles == 0 ==> finishing_ok(adj@, fin, clock, visited@, on_path@)
                    && forall|q: int| 0 <= q < i ==> fin.dom().contains((#[trigger] starts@[q]) as int),
        {
            let x = starts[i];
            if !visited[x] {
                let ghost fb = fin;
                proof {
                    let e = Seq::<usize>::empty();
                    assert(e.push(x)[0] == starts@[i as int]);
                    assert(walk_ok(adj@, e.push(x)));
                    assert(path_marks(on_path@, e));
                }
                let res = dfs_back_edges(x, &adj, &mut visited, &mut on_path, &mut cycles, Ghost(starts@),
                    Ghost(Seq::empty()), Ghost(fin), Ghost(clock));
                proof {
                    if cycles == 0 {
                        fin = res@.0;
                        clock = res@.1;
                        assert forall|q: int| 0 <= q < i + 1 implies fin.dom().contains((#[trigger] starts@[q]) as int) by {
                            if q < i {
                                assert(fb.dom().contains(starts@[q] as int));
                            }
                        }
                    }
                }
            } else {
                proof {
                    if cycles == 0 {
                        assert(fin.dom().contains(x as int));
                    }
                }
            }
        }
        proof {
            if cycles == 0 {
                lemma_no_lasso(adj@, starts@, fin, clock, visited@, on_path@);
            }
        }
        cycles
    }
}

proof fn lemma_no_edges(adj: Seq<Vec<usize>>, v: Seq<bool>, k: int)
    requires
        0 <= k <= adj.len(),
        forall|a: int| 0 <= a < adj.len() ==> (#[trigger] adj[a])@.len() == 0,
    ensures
        pending_edges(adj, v, k) == 0,
    decreases k,
{
    if k > 0 {
        lemma_no_edges(adj, v, k - 1);
    }
}

proof fn lemma_push_edge(adj: Seq<Vec<usize>>, v: Seq<bool>, s: int, t: usize, k: int)
    requires
        0 <= s < adj.len(),
        0 <= k <= adj.len(),
        v.len() == adj.len(),
        !v[s],
    ensures
        forall|out: Vec<usize>| out@ == adj[s]@.push(t) ==>
            pending_edges(#[trigger] adj.update(s, out), v, k) == pending_edges(adj, v, k) + (if k > s { 1int } else { 0int }),
    decreases k,
{
    if k > 0 {
        lemma_push_edge(adj, v, s, t, k - 1);
    }
}

impl Default for InvariantVerifier {
    /// The same as `InvariantVerifier::new()`.
    fn default() -> (r: Self)
    {
        Self::new()
    }
}

impl Default for ReplayProofEngine {
    /// The same as `ReplayProofEngine::new()`.
    fn default() -> (r: Self)
    {
        Self::new()
    }
}

impl Default for DeterministicProofEngine {
    /// The same as `DeterministicProofEngine::new()`.
    fn default() -> (r: Self)
    {
        Self::new()
    }
}

impl Default for LineageProofEngine {
    /// The same as `LineageProofEngine::new()`.
    fn default() -> (r: Self)
    {
        Self::new()
    }
}

impl Default for CorruptionProofEngine {
    /// The same as `CorruptionProofEngine::new()`.
    fn default() -> (r: Self)
    {
        Self::new()
    }
}

impl Default for RecoveryCorrectnessEngine {
    /// The same as `RecoveryCorrectnessEngine::new()`.
    fn default() -> (r: Self)
    {
        Self::new()
    }
}

impl Default for DeterministicStateProofEngine {
    /// The same as `DeterministicStateProofEngine::new()`.
    fn default() -> (r: Self)
    {
        Self::new()
    }
}

impl Default for TopologyVerifier {
    /// The same as `TopologyVerifier::new()`.
    fn default() -> (r: Self)
    {
        Self::new()
    }
}

} // verus!
