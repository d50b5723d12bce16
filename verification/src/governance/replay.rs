//! Replay governance: registered event streams, replay policies and the record of
//! replay verifications.
use vstd::prelude::*;
use crate::governance::{GovernanceViolation, PolicyEvalResult, PolicySeverity, violation_is};
use crate::store::{KeyedStore, lookup, stored, derefs, values_of};
use crate::text::{cat3, cat4, owned, hex_debug, hex_debug_text, strs_view, pairs_view};
use crate::crypto::{bytes_eq, prefix_bytes};
use crate::env::now_millis;

verus! {

/// An event stream whose replays are governed.
#[derive(Debug, Clone)]
pub struct ReplayStream {
    pub stream_id: String,
    pub name: String,
    pub domain: String,
    pub event_types: Vec<String>,
    pub total_events: u64,
    /// Milliseconds since the Unix epoch of the last replay, if any.
    pub last_replay: Option<i64>,
    pub deterministic: bool,
    pub checksum: Vec<u8>,
    pub schema_version: String,
}

/// A replay policy.
#[derive(Debug, Clone)]
pub struct ReplayPolicy {
    pub policy_id: String,
    pub require_determinism: bool,
    pub require_checksum_verification: bool,
    /// The largest tolerated divergence, in percent.
    pub max_replay_divergence_detected: u32,
    pub require_event_ordering: bool,
    pub require_causal_consistency: bool,
    pub enforcement: ReplayEnforcement,
}

/// How a replay policy is enforced.
#[derive(Debug, Clone, Copy, PartialEq, Eq, Structural)]
pub enum ReplayEnforcement {
    LogOnly,
    Warn,
    Block,
}

/// The outcome of verifying one replay.
#[derive(Debug, Clone)]
pub struct ReplayVerification {
    pub stream_id: String,
    /// Milliseconds since the Unix epoch.
    pub timestamp: i64,
    pub events_replayed: u64,
    pub checksum_match: bool,
    pub determinism_verified: bool,
    /// The detected divergence in percent: 0 when the checksums agree, else 100.
    pub divergence_detected: u8,
    pub issues: Vec<String>,
}

/// A record of a determinism check of a stream.
#[derive(Debug, Clone)]
pub struct DeterminismCheck {
    pub stream_id: String,
    pub deterministic: bool,
    pub non_determinism_sources: Vec<String>,
    /// Milliseconds since the Unix epoch.
    pub last_verified: i64,
}

/// How safe a stream is to replay.
#[derive(Debug)]
pub struct ReplaySafetyReport {
    pub stream_id: String,
    pub safe: bool,
    pub determinism_verified: bool,
    pub checksum_valid: bool,
    pub event_ordering_valid: bool,
    pub causal_consistency: bool,
    pub violations: Vec<String>,
}

/// Streams, policies and the history of replay verifications.
pub struct ReplayGovernance {
    stream_registry: KeyedStore<ReplayStream>,
    replay_policies: Vec<ReplayPolicy>,
    verification_records: Vec<ReplayVerification>,
    deterministic_checks: KeyedStore<DeterminismCheck>,
}

/// Whether a replay of stream `id` with checksum `checksum` disagrees with the stream's
/// recorded (non-empty) checksum.
pub open spec fn checksum_mismatch(streams: Seq<(String, ReplayStream)>, id: Seq<char>, checksum: Seq<u8>) -> bool {
    match lookup(streams, id) {
        Some(s) => s.checksum@.len() > 0 && checksum != s.checksum@,
        None => false,
    }
}

/// One message per policy of `ps` that requires checksum verification.
pub open spec fn checksum_policy_issues(ps: Seq<ReplayPolicy>) -> Seq<Seq<char>>
    decreases ps.len(),
{
    if ps.len() == 0 {
        Seq::empty()
    } else {
        checksum_policy_issues(ps.drop_last()) + if ps.last().require_checksum_verification {
            seq!["Checksum verification failed \u{2014} replay may have diverged"@]
        } else {
            Seq::<Seq<char>>::empty()
        }
    }
}

/// The message recorded when the checksums disagree.
pub open spec fn mismatch_message(recorded: Seq<u8>, replayed: Seq<u8>) -> Seq<char> {
    "Checksum mismatch: expected "@ + hex_debug_text(recorded.take(8)) + ", got "@
        + hex_debug_text(replayed.take(8))
}

/// The violations of a safety report on stream `id`.
pub open spec fn safety_violations(streams: Seq<(String, ReplayStream)>, id: Seq<char>) -> Seq<Seq<char>> {
    match lookup(streams, id) {
        Some(s) => (if !s.deterministic { seq!["Stream is not deterministic"@] } else { Seq::empty() })
            + (if s.checksum@.len() == 0 { seq!["Stream has no checksum for verification"@] } else { Seq::empty() }),
        None => seq!["Stream not registered in replay governance"@],
    }
}

/// The fields of a verification, with strings by their characters.
pub open spec fn verification_view(v: ReplayVerification) -> (Seq<char>, i64, u64, bool, bool, u8, Seq<Seq<char>>) {
    (v.stream_id@, v.timestamp, v.events_replayed, v.checksum_match, v.determinism_verified,
        v.divergence_detected, strs_view(v.issues@))
}

impl ReplayGovernance {
    /// The registered streams, by id.
    pub closed spec fn streams(&self) -> Seq<(String, ReplayStream)> {
        self.stream_registry.entries()
    }

    /// The policies in registration order.
    pub closed spec fn policies(&self) -> Seq<ReplayPolicy> {
        self.replay_policies@
    }

    /// The verifications made so far, oldest first.
    pub closed spec fn records(&self) -> Seq<ReplayVerification> {
        self.verification_records@
    }

    /// The determinism checks kept by stream.
    pub closed spec fn checks(&self) -> Seq<(String, DeterminismCheck)> {
        self.deterministic_checks.entries()
    }

    /// Governance with no streams, policies, verifications or determinism checks.
    pub fn new() -> (r: Self)
        ensures
            r.streams().len() == 0,
            r.policies().len() == 0,
            r.records().len() == 0,
            r.checks().len() == 0,
    {
        ReplayGovernance {
            stream_registry: KeyedStore::new(),
            replay_policies: Vec::new(),
            verification_records: Vec::new(),
            deterministic_checks: KeyedStore::new(),
        }
    }

    /// Registers `stream` under its id, replacing a stream with the same id.
    pub fn register_stream(&mut self, stream: ReplayStream)
        ensures
            final(self).streams() == stored(old(self).streams(), stream.stream_id, stream),
            final(self).policies() == old(self).policies(),
            final(self).records() == old(self).records(),
    {
        let id = stream.stream_id.clone();
        self.stream_registry.insert(id, stream);
    }

    /// Adds a replay policy.
    pub fn register_policy(&mut self, policy: ReplayPolicy)
        ensures
            final(self).policies() == old(self).policies().push(policy),
            final(self).streams() == old(self).streams(),
            final(self).records() == old(self).records(),
    {
        self.replay_policies.push(policy);
    }

    /// What `check_determinism` answers for these arguments.
    pub open spec fn determinism_outcome(&self, stream_id: Seq<char>, r: PolicyEvalResult) -> bool {
        match lookup(self.streams(), stream_id) {
            None => r matches PolicyEvalResult::Violation(v) && violation_is(
                v,
                "ReplayDeterminism"@,
                PolicySeverity::Error,
                "Stream '"@ + stream_id + "' not registered for replay governance"@,
                seq![("stream_id"@, stream_id)],
                seq!["Register stream '"@ + stream_id + "' in replay governance"@],
            ),
            Some(s) => if !s.deterministic {
                r matches PolicyEvalResult::Violation(v) && violation_is(
                    v,
                    "ReplayDeterminism"@,
                    PolicySeverity::Critical,
                    "Stream '"@ + stream_id
                        + "' is not deterministic \u{2014} replay will produce divergent state"@,
                    seq![("stream_id"@, stream_id), ("deterministic"@, "false"@)],
                    seq!["Remove non-deterministic operations from event handlers"@,
                         "Ensure all event processing is idempotent"@,
                         "Use deterministic data structures in replay"@],
                )
            } else {
                r is Pass
            },
        }
    }

    /// Checks that `stream_id` is registered and deterministic.
    pub fn check_determinism(&self, stream_id: &str) -> (r: PolicyEvalResult)
        ensures
            self.determinism_outcome(stream_id@, r),

    {
        match self.stream_registry.get(stream_id) {
            None => {
                let mut context: Vec<(String, String)> = Vec::new();
                context.push((owned("stream_id"), owned(stream_id)));
                let mut remediations: Vec<String> = Vec::new();
                remediations.push(cat3("Register stream '", stream_id, "' in replay governance"));
                let v = GovernanceViolation {
                    policy_id: 0,
                    policy_name: owned("ReplayDeterminism"),
                    severity: PolicySeverity::Error,
                    message: cat3("Stream '", stream_id, "' not registered for replay governance"),
                    context,
                    remediations,
                };
                proof {
                    assert(strs_view(v.remediations@) =~= seq!["Register stream '"@ + stream_id@ + "' in replay governance"@]);
                    assert(pairs_view(v.context@) =~= seq![("stream_id"@, stream_id@)]);
                }
                PolicyEvalResult::Violation(v)
            },
            Some(s) => {
                if !s.deterministic {
                    let mut context: Vec<(String, String)> = Vec::new();
                    context.push((owned("stream_id"), owned(stream_id)));
                    context.push((owned("deterministic"), owned("false")));
                    let mut remediations: Vec<String> = Vec::new();
                    remediations.push(owned("Remove non-deterministic operations from event handlers"));
                    remediations.push(owned("Ensure all event processing is idempotent"));
                    remediations.push(owned("Use deterministic data structures in replay"));
                    let v = GovernanceViolation {
                        policy_id: 0,
                        policy_name: owned("ReplayDeterminism"),
                        severity: PolicySeverity::Critical,
                        message: cat3("Stream '", stream_id,
                            "' is not deterministic \u{2014} replay will produce divergent state"),
                        context,
                        remediations,
                    };
                    proof {
                        assert(strs_view(v.remediations@) =~= seq!["Remove non-deterministic operations from event handlers"@,
                             "Ensure all event processing is idempotent"@,
                             "Use deterministic data structures in replay"@]);
                        assert(pairs_view(v.context@) =~= seq![("stream_id"@, stream_id@), ("deterministic"@, "false"@)]);
                    }
                    PolicyEvalResult::Violation(v)
                } else {
                    PolicyEvalResult::Pass
                }
            },
        }
    }

    /// Verifies a replay of `event_count` events of `stream_id` that produced `checksum`,
    /// records the verification and returns it.
    ///
    /// The checksums disagree when the stream is registered with a non-empty checksum that
    /// differs from `checksum`; the issue then quotes the first eight bytes of each, so
    /// both must have that many. Each policy that requires checksum verification adds an
    /// issue when they disagree, and any such policy marks determinism as unverified.
    pub fn verify_replay(&mut self, stream_id: &str, event_count: u64, checksum: &[u8]) -> (r: ReplayVerification)
        requires
            match lookup(old(self).streams(), stream_id@) {
                Some(s) => s.checksum@.len() > 0 && checksum@ != s.checksum@
                    ==> s.checksum@.len() >= 8 && checksum@.len() >= 8,
                None => true,
            },
        ensures
            r.stream_id@ == stream_id@,
            r.events_replayed == event_count,
            r.checksum_match == !checksum_mismatch(old(self).streams(), stream_id@, checksum@),
            r.determinism_verified == !(r.checksum_match == false
                && checksum_policy_issues(old(self).policies()).len() > 0),
            r.divergence_detected == (if r.checksum_match { 0u8 } else { 100u8 }),
            strs_view(r.issues@) == if r.checksum_match {
                Seq::<Seq<char>>::empty()
            } else {
                seq![mismatch_message(lookup(old(self).streams(), stream_id@)->Some_0.checksum@, checksum@)]
                    + checksum_policy_issues(old(self).policies())
            },
            final(self).records().len() == old(self).records().len() + 1,
            final(self).records().take(old(self).records().len() as int) == old(self).records(),
            verification_view(final(self).records().last()) == verification_view(r),
            final(self).streams() == old(self).streams(),
            final(self).policies() == old(self).policies(),
    {
        let mut issues: Vec<String> = Vec::new();
        let mut checksum_match = true;
        let mut determinism_verified = true;
        match self.stream_registry.get(stream_id) {
            Some(stream) => {
                if stream.checksum.len() > 0 && !bytes_eq(checksum, stream.checksum.as_slice()) {
                    let expected = prefix_bytes(stream.checksum.as_slice(), 8);
                    let got = prefix_bytes(checksum, 8);
                    let e = hex_debug(expected.as_slice());
                    let g = hex_debug(got.as_slice());
                    issues.push(cat4("Checksum mismatch: expected ", e.as_str(), ", got ", g.as_str()));
                    checksum_match = false;
                }
            },
            None => {},
        }
        let ghost first = strs_view(issues@);
        let n = self.replay_policies.len();
        for i in 0..n
            invariant
                n == self.replay_policies@.len(),
                strs_view(issues@) == first + if checksum_match {
                    Seq::<Seq<char>>::empty()
                } else {
                    checksum_policy_issues(self.replay_policies@.take(i as int))
                },
                determinism_verified == !(checksum_match == false
                    && checksum_policy_issues(self.replay_policies@.take(i as int)).len() > 0),
        {
            let ghost before = issues@;
            proof {
                assert(self.replay_policies@.take(i + 1).drop_last() =~= self.replay_policies@.take(i as int));
                assert(self.replay_policies@.take(i + 1).last() == self.replay_policies@[i as int]);
            }
            if !checksum_match && self.replay_policies[i].require_checksum_verification {
                issues.push(owned("Checksum verification failed \u{2014} replay may have diverged"));
                determinism_verified = false;
            }
            proof {
                if !checksum_match && self.replay_policies@[i as int].require_checksum_verification {
                    assert(issues@ == before.push(issues@.last()));
                    assert(strs_view(issues@) =~= strs_view(before).push("Checksum verification failed \u{2014} replay may have diverged"@));
                } else {
                    assert(issues@ == before);
                }
                assert(strs_view(issues@) =~= first + if checksum_match {
                    Seq::<Seq<char>>::empty()
                } else {
                    checksum_policy_issues(self.replay_policies@.take(i + 1))
                });
            }
        }
        proof {
            assert(self.replay_policies@.take(n as int) =~= self.replay_policies@);
        }
        let timestamp = now_millis();
        let verification = ReplayVerification {
            stream_id: owned(stream_id),
            timestamp,
            events_replayed: event_count,
            checksum_match,
            determinism_verified,
            divergence_detected: if checksum_match { 0 } else { 100 },
            issues,
        };
        let copy = ReplayVerification {
            stream_id: owned(stream_id),
            timestamp,
            events_replayed: event_count,
            checksum_match,
            determinism_verified,
            divergence_detected: verification.divergence_detected,
            issues: crate::text::clone_strings(&verification.issues),
        };
        self.verification_records.push(copy);
        proof {
            assert(self.verification_records@.take(self.verification_records@.len() - 1)
                =~= old(self).verification_records@);
        }
        verification
    }

    /// How safe `stream_id` is to replay: safe when it is registered, deterministic and
    /// carries a checksum.
    pub fn get_safety_report(&self, stream_id: &str) -> (r: ReplaySafetyReport)
        ensures
            r.stream_id@ == stream_id@,
            strs_view(r.violations@) == safety_violations(self.streams(), stream_id@),
            r.determinism_verified == (lookup(self.streams(), stream_id@) matches Some(s) && s.deterministic),
            r.checksum_valid == (lookup(self.streams(), stream_id@) matches Some(s) && s.checksum@.len() > 0),
            r.safe == (r.violations@.len() == 0 && r.determinism_verified),
            r.event_ordering_valid,
            r.causal_consistency,
    {
        let mut violations: Vec<String> = Vec::new();
        let mut determinism_verified = false;
        let mut checksum_valid = false;
        match self.stream_registry.get(stream_id) {
            Some(stream) => {
                determinism_verified = stream.deterministic;
                checksum_valid = stream.checksum.len() > 0;
                if !stream.deterministic {
                    violations.push(owned("Stream is not deterministic"));
                }
                if stream.checksum.len() == 0 {
                    violations.push(owned("Stream has no checksum for verification"));
                }
            },
            None => {
                violations.push(owned("Stream not registered in replay governance"));
            },
        }
        proof {
            assert(strs_view(violations@) =~= safety_violations(self.streams(), stream_id@));
        }
        let safe = violations.len() == 0 && determinism_verified;
        ReplaySafetyReport {
            stream_id: owned(stream_id),
            safe,
            determinism_verified,
            checksum_valid,
            event_ordering_valid: true,
            causal_consistency: true,
            violations,
        }
    }

    /// The verifications made so far, oldest first.
    pub fn get_verification_history(&self) -> (r: &[ReplayVerification])
        ensures
            r@ == self.records(),
    {
        self.verification_records.as_slice()
    }

    /// The registered streams, in registration order.
    pub fn list_streams(&self) -> (r: Vec<&ReplayStream>)
        ensures
            derefs(r@) == values_of(self.streams()),
    {
        self.stream_registry.values()
    }
}

impl Default for ReplayGovernance {
    /// The same as `ReplayGovernance::new()`.
    fn default() -> (r: Self)
        ensures
            r.streams().len() == 0,
            r.policies().len() == 0,
            r.records().len() == 0,
            r.checks().len() == 0,
    {
        Self::new()
    }
}

} // verus!
