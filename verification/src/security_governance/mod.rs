//! Security governance: security events, rogue node detection, the security posture,
//! integrity proofs and threat detection.
use vstd::prelude::*;
use crate::env::now_millis;
use crate::text::{owned, strs_view};

pub mod integrity;
pub mod threat;

verus! {

/// Applies zero-trust rules to security events.
pub struct SecurityGovernanceEngine;

/// The kinds of security events.
#[derive(Debug, Clone, Copy, PartialEq, Eq, Structural)]
pub enum SecurityEventType {
    AuthenticationFailure,
    SignatureVerificationFailed,
    ReplayAnomaly,
    TrustScoreDrop,
    UnauthorizedAccess,
    DataTamperingDetected,
    RogueNodeDetected,
    InsiderThreat,
    FederationViolation,
    CertificateAnomaly,
}

/// How grave a security event is, from least to most.
#[derive(Debug, Clone, Copy, PartialEq, Eq, Structural)]
pub enum SecuritySeverity {
    Info,
    Low,
    Medium,
    High,
    Critical,
}

/// The rank of a severity, from least to most grave.
pub open spec fn severity_rank(s: SecuritySeverity) -> int {
    match s {
        SecuritySeverity::Info => 0,
        SecuritySeverity::Low => 1,
        SecuritySeverity::Medium => 2,
        SecuritySeverity::High => 3,
        SecuritySeverity::Critical => 4,
    }
}

impl SecuritySeverity {
    /// The severity's rank, from least to most grave.
    pub fn rank(&self) -> (r: u8)
        ensures
            r == severity_rank(*self),
    {
        match self {
            SecuritySeverity::Info => 0,
            SecuritySeverity::Low => 1,
            SecuritySeverity::Medium => 2,
            SecuritySeverity::High => 3,
            SecuritySeverity::Critical => 4,
        }
    }
}

/// A security event observed on a node.
#[derive(Debug, Clone)]
pub struct SecurityEvent {
    pub event_id: u128,
    pub event_type: SecurityEventType,
    pub node_id: u128,
    pub severity: SecuritySeverity,
    pub description: String,
    /// Milliseconds since the Unix epoch.
    pub timestamp: i64,
    pub evidence_hash: Vec<u8>,
}

/// An entry of the forensic audit trail.
#[derive(Debug, Clone)]
pub struct ForensicAuditEntry {
    pub entry_id: u128,
    pub event_id: u128,
    pub node_id: u128,
    pub action: String,
    pub resource: String,
    pub outcome: String,
    /// Milliseconds since the Unix epoch.
    pub timestamp: i64,
    pub signed_by: Vec<u8>,
    pub previous_hash: Vec<u8>,
    pub entry_hash: Vec<u8>,
}

/// A node found to be rogue. The confidence of the finding is `confidence_tenths` tenths.
#[derive(Debug)]
pub struct RogueNodeReport {
    pub node_id: u128,
    pub anomaly_count: u64,
    pub threat_count: u64,
    pub confidence_tenths: u64,
    /// Milliseconds since the Unix epoch.
    pub detected_at: i64,
    pub recommended_action: String,
}

/// What the security posture states besides the average trust.
#[derive(Debug)]
pub struct PostureFindings {
    pub active_threats: u32,
    pub tamper_events: u32,
    pub recommendations: Vec<String>,
}

/// Events of a node that betray anomalies: failed authentication or signatures, and
/// replay anomalies.
pub open spec fn is_anomaly(t: SecurityEventType) -> bool {
    t == SecurityEventType::AuthenticationFailure || t == SecurityEventType::SignatureVerificationFailed
        || t == SecurityEventType::ReplayAnomaly
}

/// Events of a node that betray threats: tampering and unauthorised access.
pub open spec fn is_threat(t: SecurityEventType) -> bool {
    t == SecurityEventType::DataTamperingDetected || t == SecurityEventType::UnauthorizedAccess
}

/// How many of the first `n` events are of `node` and satisfy `kind`.
pub open spec fn count_of(events: Seq<SecurityEvent>, node: u128, kind: spec_fn(SecurityEventType) -> bool, n: int) -> nat
    decreases n,
{
    if n <= 0 {
        0
    } else {
        count_of(events, node, kind, n - 1) + (if events[n - 1].node_id == node && kind(events[n - 1].event_type) { 1nat } else { 0nat })
    }
}

/// How many of the first `n` events are at least high, and how many are tampering.
pub open spec fn posture_counts(events: Seq<SecurityEvent>, n: int) -> (nat, nat)
    decreases n,
{
    if n <= 0 {
        (0, 0)
    } else {
        let c = posture_counts(events, n - 1);
        (c.0 + (if severity_rank(events[n - 1].severity) >= 3 { 1nat } else { 0nat }),
         c.1 + (if events[n - 1].event_type == SecurityEventType::DataTamperingDetected { 1nat } else { 0nat }))
    }
}

/// The recommendations of a posture: a trust review when average trust is below one half,
/// a lockdown when more than ten events are at least high, and a chain check when any
/// tampering was seen.
pub open spec fn posture_recommendations(trust_below_half: bool, critical: nat, tamper: nat) -> Seq<Seq<char>> {
    (if trust_below_half { seq!["Critical: overall trust score below 0.5 — initiate federation-wide trust review"@] } else { Seq::empty() })
        + (if critical > 10 { seq!["High volume of critical security events — consider sovereign lockdown"@] } else { Seq::empty() })
        + (if tamper > 0 { seq!["Tampering detected — verify event chain integrity across all domains"@] } else { Seq::empty() })
}

impl SecurityGovernanceEngine {
    /// A new engine.
    pub fn new() -> (r: Self) {
        SecurityGovernanceEngine
    }

    /// Whether `node_id` is rogue by its events: more than five anomalies or more than two
    /// threats. The recommended action is isolation when there are threats enough,
    /// closer monitoring otherwise; the confidence is a tenth per anomaly, up to one.
    pub fn detect_rogue_node(&self, node_id: u128, events: &[SecurityEvent]) -> (r: Option<RogueNodeReport>)
        ensures
            ({
                let anomalies = count_of(events@, node_id, |t: SecurityEventType| is_anomaly(t), events@.len() as int);
                let threats = count_of(events@, node_id, |t: SecurityEventType| is_threat(t), events@.len() as int);
                &&& (r is Some) == (anomalies > 5 || threats > 2)
                &&& r matches Some(rep) ==> {
                    &&& rep.node_id == node_id
                    &&& rep.anomaly_count == anomalies
                    &&& rep.threat_count == threats
                    &&& rep.confidence_tenths == (if anomalies < 10 { anomalies } else { 10 })
                    &&& rep.recommended_action@ == (if threats > 2 { "Immediate isolation and forensic investigation"@ }
                        else { "Increase monitoring and restrict permissions"@ })
                }
            }),
    {
        let ghost anomaly_kind = |t: SecurityEventType| is_anomaly(t);
        let ghost threat_kind = |t: SecurityEventType| is_threat(t);
        let n = events.len();
        let mut anomalies: u64 = 0;
        let mut threats: u64 = 0;
        for i in 0..n
            invariant
                n == events@.len(),
                anomaly_kind == (|t: SecurityEventType| is_anomaly(t)),
                threat_kind == (|t: SecurityEventType| is_threat(t)),
                anomalies == count_of(events@, node_id, anomaly_kind, i as int),
                threats == count_of(events@, node_id, threat_kind, i as int),
                anomalies <= i,
                threats <= i,
        {
            let e = &events[i];
            if e.node_id == node_id {
                match e.event_type {
                    SecurityEventType::AuthenticationFailure | SecurityEventType::SignatureVerificationFailed
                    | SecurityEventType::ReplayAnomaly => {
                        anomalies = anomalies + 1;
                    },
                    SecurityEventType::DataTamperingDetected | SecurityEventType::UnauthorizedAccess => {
                        threats = threats + 1;
                    },
                    _ => {},
                }
            }
        }
        if anomalies > 5 || threats > 2 {
            return Some(RogueNodeReport {
                node_id,
                anomaly_count: anomalies,
                threat_count: threats,
                confidence_tenths: if anomalies < 10 { anomalies } else { 10 },
                detected_at: now_millis(),
                recommended_action: if threats > 2 {
                    owned("Immediate isolation and forensic investigation")
                } else {
                    owned("Increase monitoring and restrict permissions")
                },
            });
        }
        None
    }

    /// The counts and recommendations of the security posture over `events`, given
    /// whether the average trust of the nodes is below one half.
    pub fn posture_findings(&self, events: &[SecurityEvent], trust_below_half: bool) -> (r: PostureFindings)
        requires
            events@.len() <= u32::MAX,
        ensures
            r.active_threats == posture_counts(events@, events@.len() as int).0,
            r.tamper_events == posture_counts(events@, events@.len() as int).1,
            strs_view(r.recommendations@) == posture_recommendations(trust_below_half,
                posture_counts(events@, events@.len() as int).0, posture_counts(events@, events@.len() as int).1),
    {
        let n = events.len();
        let mut critical: u32 = 0;
        let mut tamper: u32 = 0;
        for i in 0..n
            invariant
                n == events@.len(),
                n <= u32::MAX,
                (critical as nat, tamper as nat) == posture_counts(events@, i as int),
                critical <= i,
                tamper <= i,
        {
            if events[i].severity.rank() >= 3 {
                critical = critical + 1;
            }
            match events[i].event_type {
                SecurityEventType::DataTamperingDetected => {
                    tamper = tamper + 1;
                },
                _ => {},
            }
        }
        let mut recommendations: Vec<String> = Vec::new();
        if trust_below_half {
            recommendations.push(owned("Critical: overall trust score below 0.5 — initiate federation-wide trust review"));
        }
        let ghost r1 = strs_view(recommendations@);
        if critical > 10 {
            recommendations.push(owned("High volume of critical security events — consider sovereign lockdown"));
        }
        let ghost r2 = strs_view(recommendations@);
        assert(r2 == r1 + (if critical > 10 { seq!["High volume of critical security events — consider sovereign lockdown"@] } else { Seq::<Seq<char>>::empty() }));
        if tamper > 0 {
            recommendations.push(owned("Tampering detected — verify event chain integrity across all domains"));
        }
        assert(strs_view(recommendations@) =~= posture_recommendations(trust_below_half, critical as nat, tamper as nat));
        PostureFindings { active_threats: critical, tamper_events: tamper, recommendations }
    }
}

impl Default for SecurityGovernanceEngine {
    /// The same as `SecurityGovernanceEngine::new()`.
    fn default() -> (r: Self)
    {
        Self::new()
    }
}

} // verus!
