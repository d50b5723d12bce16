//! Threat detection: replay anomalies and the signs of insider threats.
use vstd::prelude::*;
use crate::crypto::bytes_eq;
use crate::text::{owned, strs_view};

verus! {

/// Detects threats.
pub struct ThreatEngine;

/// The kinds of threat indicators.
#[derive(Debug, Clone, Copy, PartialEq, Eq, Structural)]
pub enum ThreatIndicatorType {
    ReplayAttack,
    BruteForceAuth,
    CertificateAnomaly,
    DataExfiltration,
    PrivilegeEscalation,
    FederationAbuse,
    TrustPoisoning,
    GovernanceBypass,
}

/// A replay whose checksum or events diverged.
#[derive(Debug)]
pub struct ReplayAnomalyReport {
    pub stream_id: String,
    pub expected_checksum: Vec<u8>,
    pub actual_checksum: Vec<u8>,
    pub divergent_events: Vec<u64>,
    pub detected: bool,
}

/// The behaviour and remediation an indicator of an insider threat calls for, if any.
pub open spec fn insider_response(t: ThreatIndicatorType) -> Option<(Seq<char>, Seq<char>)> {
    match t {
        ThreatIndicatorType::PrivilegeEscalation => Some(("Unauthorized privilege escalation attempt"@,
            "Revoke excessive permissions immediately"@)),
        ThreatIndicatorType::DataExfiltration => Some(("Suspicious data access pattern detected"@,
            "Enable data access logging and restrict sensitive data"@)),
        ThreatIndicatorType::TrustPoisoning => Some(("Attempting to manipulate trust scores"@,
            "Audit trust score changes and re-verify all nodes"@)),
        ThreatIndicatorType::GovernanceBypass => Some(("Attempting to bypass governance policies"@,
            "Enforce governance at infrastructure level"@)),
        _ => None,
    }
}

/// The behaviours (`.0`) and remediations (`.1`) called for by the first `n` indicators.
pub open spec fn insider_responses(types: Seq<ThreatIndicatorType>, n: int) -> (Seq<Seq<char>>, Seq<Seq<char>>)
    decreases n,
{
    if n <= 0 {
        (Seq::empty(), Seq::empty())
    } else {
        let prev = insider_responses(types, n - 1);
        match insider_response(types[n - 1]) {
            Some(p) => (prev.0.push(p.0), prev.1.push(p.1)),
            None => prev,
        }
    }
}

fn response_of(t: ThreatIndicatorType) -> (r: Option<(&'static str, &'static str)>)
    ensures
        match r {
            Some(p) => insider_response(t) == Some((p.0@, p.1@)),
            None => insider_response(t) is None,
        },
{
    match t {
        ThreatIndicatorType::PrivilegeEscalation => Some(("Unauthorized privilege escalation attempt",
            "Revoke excessive permissions immediately")),
        ThreatIndicatorType::DataExfiltration => Some(("Suspicious data access pattern detected",
            "Enable data access logging and restrict sensitive data")),
        ThreatIndicatorType::TrustPoisoning => Some(("Attempting to manipulate trust scores",
            "Audit trust score changes and re-verify all nodes")),
        ThreatIndicatorType::GovernanceBypass => Some(("Attempting to bypass governance policies",
            "Enforce governance at infrastructure level")),
        _ => None,
    }
}

impl ThreatEngine {
    /// A new engine.
    pub fn new() -> (r: Self) {
        ThreatEngine
    }

    /// A replay anomaly is detected when the checksums differ or some events diverged.
    pub fn detect_replay_anomaly(&self, stream_id: &str, expected_checksum: &[u8], actual_checksum: &[u8], divergent_events: Vec<u64>) -> (r: ReplayAnomalyReport)
        ensures
            r.stream_id@ == stream_id@,
            r.expected_checksum@ == expected_checksum@,
            r.actual_checksum@ == actual_checksum@,
            r.divergent_events == divergent_events,
            r.detected == (expected_checksum@ != actual_checksum@ || divergent_events@.len() > 0),
    {
        let detected = !bytes_eq(expected_checksum, actual_checksum) || divergent_events.len() > 0;
        ReplayAnomalyReport {
            stream_id: owned(stream_id),
            expected_checksum: crate::crypto::bytes_of(expected_checksum),
            actual_checksum: crate::crypto::bytes_of(actual_checksum),
            divergent_events,
            detected,
        }
    }

    /// The anomalous behaviours and remediations called for by the indicators of an
    /// insider threat, in order; a threat score above seven tenths adds isolation and a
    /// forensic investigation to the remediations.
    pub fn insider_findings(&self, indicator_types: &[ThreatIndicatorType], score_above_seven_tenths: bool) -> (r: (Vec<String>, Vec<String>))
        ensures
            strs_view(r.0@) == insider_responses(indicator_types@, indicator_types@.len() as int).0,
            strs_view(r.1@) == insider_responses(indicator_types@, indicator_types@.len() as int).1
                + (if score_above_seven_tenths { seq!["Immediate node isolation and forensic investigation"@] } else { Seq::empty() }),
    {
        let n = indicator_types.len();
        let mut behaviors: Vec<String> = Vec::new();
        let mut remediation: Vec<String> = Vec::new();
        for i in 0..n
            invariant
                n == indicator_types@.len(),
                strs_view(behaviors@) == insider_responses(indicator_types@, i as int).0,
                strs_view(remediation@) == insider_responses(indicator_types@, i as int).1,
        {
            match response_of(indicator_types[i]) {
                Some(p) => {
                    let ghost b0 = strs_view(behaviors@);
                    let ghost r0 = strs_view(remediation@);
                    behaviors.push(owned(p.0));
                    remediation.push(owned(p.1));
                    assert(strs_view(behaviors@) =~= b0.push(p.0@));
                    assert(strs_view(remediation@) =~= r0.push(p.1@));
                },
                None => {},
            }
        }
        let ghost r1 = strs_view(remediation@);
        if score_above_seven_tenths {
            remediation.push(owned("Immediate node isolation and forensic investigation"));
        }
        assert(strs_view(remediation@) =~= r1 + (if score_above_seven_tenths {
            seq!["Immediate node isolation and forensic investigation"@] } else { Seq::<Seq<char>>::empty() }));
        (behaviors, remediation)
    }
}

impl Default for ThreatEngine {
    /// The same as `ThreatEngine::new()`.
    fn default() -> (r: Self)
    {
        Self::new()
    }
}

} // verus!
