//! Production certification of replay, survivability, degradation, sovereignty and
//! the runtime.
use vstd::prelude::*;
use crate::env::{fresh_id, now_millis};
use crate::text::{cat6, owned, strs_view};
use crate::version::clone_version;
use crate::runtime::storage::MILLIS_PER_DAY;

verus! {

/// Issues certifications.
pub struct CertificationEngine;

/// A certification issued to a domain.
#[derive(Debug)]
pub struct Certification {
    pub cert_id: u128,
    pub cert_type: CertificationType,
    pub domain: String,
    pub version: semver::Version,
    /// Milliseconds since the Unix epoch.
    pub issued_at: i64,
    /// Milliseconds since the Unix epoch.
    pub valid_until: i64,
    pub passed: bool,
    pub evidence: Vec<String>,
    pub issued_by: String,
}

/// What a certification attests.
#[derive(Debug, Clone, Copy, PartialEq, Eq, Structural)]
pub enum CertificationType {
    ReplayStability,
    FederationSurvivability,
    DeterministicRecovery,
    OperationalContinuity,
    DegradationTolerance,
    CorruptionTolerance,
    ReplayDeterminism,
    SovereigntyIsolation,
    GovernanceIntegrity,
    RuntimeSurvivability,
}

/// Certifies replay streams.
pub struct ReplayCertifier;

/// A replay certification.
#[derive(Debug)]
pub struct ReplayCertification {
    pub cert_id: u128,
    pub stream_id: String,
    pub deterministic: bool,
    pub checksum_verified: bool,
    pub replay_count_validated: u64,
    pub certified: bool,
}

/// Certifies survivability.
pub struct SurvivabilityCertifier;

/// A survivability certification: how many scenarios a domain came through.
#[derive(Debug)]
pub struct SurvivabilityCertification {
    pub cert_id: u128,
    pub domain: String,
    pub scenarios_passed: u32,
    pub scenarios_total: u32,
    /// The share of the scenarios passed, in thousandths rounded down; 0 when there were
    /// none.
    pub survival_rate_millis: u64,
    pub certified: bool,
}

/// Certifies graceful degradation.
pub struct DegradationCertifier;

/// A degradation certification.
#[derive(Debug)]
pub struct DegradationCertification {
    pub cert_id: u128,
    pub domain: String,
    pub degradation_level: String,
    pub graceful_degradation_verified: bool,
    pub recovery_verified: bool,
    pub certified: bool,
}

/// Certifies sovereignty isolation.
pub struct SovereigntyCertifier;

/// A sovereignty certification.
#[derive(Debug)]
pub struct SovereigntyCertification {
    pub cert_id: u128,
    pub zone_id: String,
    pub isolation_verified: bool,
    pub cross_border_compliant: bool,
    pub audit_chain_intact: bool,
    pub certified: bool,
}

/// Certifies the runtime.
pub struct RuntimeCertifier;

/// A runtime certification.
#[derive(Debug)]
pub struct RuntimeCertification {
    pub cert_id: u128,
    pub runtime_version: semver::Version,
    pub scheduler_verified: bool,
    pub resource_enforcement_verified: bool,
    pub overload_protection_verified: bool,
    pub timeout_governance_verified: bool,
    pub certified: bool,
}

/// The name under which a certification type is shown.
pub open spec fn certification_type_name(t: CertificationType) -> Seq<char> {
    match t {
        CertificationType::ReplayStability => "ReplayStability"@,
        CertificationType::FederationSurvivability => "FederationSurvivability"@,
        CertificationType::DeterministicRecovery => "DeterministicRecovery"@,
        CertificationType::OperationalContinuity => "OperationalContinuity"@,
        CertificationType::DegradationTolerance => "DegradationTolerance"@,
        CertificationType::CorruptionTolerance => "CorruptionTolerance"@,
        CertificationType::ReplayDeterminism => "ReplayDeterminism"@,
        CertificationType::SovereigntyIsolation => "SovereigntyIsolation"@,
        CertificationType::GovernanceIntegrity => "GovernanceIntegrity"@,
        CertificationType::RuntimeSurvivability => "RuntimeSurvivability"@,
    }
}

impl CertificationType {
    /// The name under which the certification type is shown.
    pub fn name(&self) -> (r: &'static str)
        ensures
            r@ == certification_type_name(*self),
    {
        match self {
            CertificationType::ReplayStability => "ReplayStability",
            CertificationType::FederationSurvivability => "FederationSurvivability",
            CertificationType::DeterministicRecovery => "DeterministicRecovery",
            CertificationType::OperationalContinuity => "OperationalContinuity",
            CertificationType::DegradationTolerance => "DegradationTolerance",
            CertificationType::CorruptionTolerance => "CorruptionTolerance",
            CertificationType::ReplayDeterminism => "ReplayDeterminism",
            CertificationType::SovereigntyIsolation => "SovereigntyIsolation",
            CertificationType::GovernanceIntegrity => "GovernanceIntegrity",
            CertificationType::RuntimeSurvivability => "RuntimeSurvivability",
        }
    }
}

impl CertificationEngine {
    /// A new engine.
    pub fn new() -> (r: Self) {
        CertificationEngine
    }

    /// A certification of `cert_type` for `domain` at `version`, valid for a year from now,
    /// with one line of evidence recording whether it passed.
    pub fn issue_certification(&self, cert_type: CertificationType, domain: &str, version: &semver::Version, passed: bool) -> (r: Certification)
        ensures
            r.cert_type == cert_type,
            r.domain@ == domain@,
            r.version == *version,
            r.valid_until - r.issued_at == 365 * MILLIS_PER_DAY,
            r.passed == passed,
            strs_view(r.evidence@) == seq![certification_type_name(cert_type) + " certification "@
                + (if passed { "PASSED"@ } else { "FAILED"@ }) + " for '"@ + domain@ + "'"@],
            r.issued_by@ == "INWP Sovereign Certification Authority"@,
    {
        let now = now_millis();
        let mut evidence: Vec<String> = Vec::new();
        evidence.push(cat6(cert_type.name(), " certification ", if passed { "PASSED" } else { "FAILED" }, " for '", domain, "'"));
        assert(strs_view(evidence@) =~= seq![certification_type_name(cert_type) + " certification "@
            + (if passed { "PASSED"@ } else { "FAILED"@ }) + " for '"@ + domain@ + "'"@]);
        Certification {
            cert_id: fresh_id(),
            cert_type,
            domain: owned(domain),
            version: clone_version(version),
            issued_at: now,
            valid_until: now + 365 * MILLIS_PER_DAY,
            passed,
            evidence,
            issued_by: owned("INWP Sovereign Certification Authority"),
        }
    }
}

impl ReplayCertifier {
    /// A new certifier.
    pub fn new() -> (r: Self) {
        ReplayCertifier
    }

    /// Certifies `stream_id` when it is deterministic and its checksum verified.
    pub fn certify(&self, stream_id: &str, deterministic: bool, checksum_ok: bool, replay_count: u64) -> (r: ReplayCertification)
        ensures
            r.stream_id@ == stream_id@,
            r.deterministic == deterministic,
            r.checksum_verified == checksum_ok,
            r.replay_count_validated == replay_count,
            r.certified == (deterministic && checksum_ok),
    {
        ReplayCertification {
            cert_id: fresh_id(),
            stream_id: owned(stream_id),
            deterministic,
            checksum_verified: checksum_ok,
            replay_count_validated: replay_count,
            certified: deterministic && checksum_ok,
        }
    }
}

impl SurvivabilityCertifier {
    /// A new certifier.
    pub fn new() -> (r: Self) {
        SurvivabilityCertifier
    }

    /// Certifies `domain` when it passed at least four fifths of `total` scenarios (and
    /// there was at least one); the comparison is made exactly.
    pub fn certify(&self, domain: &str, passed: u32, total: u32) -> (r: SurvivabilityCertification)
        ensures
            r.domain@ == domain@,
            r.scenarios_passed == passed,
            r.scenarios_total == total,
            r.survival_rate_millis == (if total > 0 { (1000 * passed) / (total as int) } else { 0 }),
            r.certified == (total > 0 && 5 * passed >= 4 * total),
    {
        let rate: u64 = if total > 0 { (1000 * (passed as u64)) / (total as u64) } else { 0 };
        let certified = total > 0 && 5 * (passed as u64) >= 4 * (total as u64);
        SurvivabilityCertification {
            cert_id: fresh_id(),
            domain: owned(domain),
            scenarios_passed: passed,
            scenarios_total: total,
            survival_rate_millis: rate,
            certified,
        }
    }
}

impl DegradationCertifier {
    /// A new certifier.
    pub fn new() -> (r: Self) {
        DegradationCertifier
    }

    /// Certifies `domain` at `level` when degradation is graceful and recovery verified.
    pub fn certify(&self, domain: &str, level: &str, graceful: bool, recovery: bool) -> (r: DegradationCertification)
        ensures
            r.domain@ == domain@,
            r.degradation_level@ == level@,
            r.graceful_degradation_verified == graceful,
            r.recovery_verified == recovery,
            r.certified == (graceful && recovery),
    {
        DegradationCertification {
            cert_id: fresh_id(),
            domain: owned(domain),
            degradation_level: owned(level),
            graceful_degradation_verified: graceful,
            recovery_verified: recovery,
            certified: graceful && recovery,
        }
    }
}

impl SovereigntyCertifier {
    /// A new certifier.
    pub fn new() -> (r: Self) {
        SovereigntyCertifier
    }

    /// Certifies zone `zone_id` when it is isolated, compliant across borders and its audit
    /// chain is intact.
    pub fn certify(&self, zone_id: &str, isolated: bool, compliant: bool, audit_intact: bool) -> (r: SovereigntyCertification)
        ensures
            r.zone_id@ == zone_id@,
            r.isolation_verified == isolated,
            r.cross_border_compliant == compliant,
            r.audit_chain_intact == audit_intact,
            r.certified == (isolated && compliant && audit_intact),
    {
        SovereigntyCertification {
            cert_id: fresh_id(),
            zone_id: owned(zone_id),
            isolation_verified: isolated,
            cross_border_compliant: compliant,
            audit_chain_intact: audit_intact,
            certified: isolated && compliant && audit_intact,
        }
    }
}

impl RuntimeCertifier {
    /// A new certifier.
    pub fn new() -> (r: Self) {
        RuntimeCertifier
    }

    /// Certifies runtime `version`: scheduling, resource enforcement, overload protection
    /// and timeout governance are all verified.
    pub fn certify(&self, version: &semver::Version) -> (r: RuntimeCertification)
        ensures
            r.runtime_version == *version,
            r.scheduler_verified,
            r.resource_enforcement_verified,
            r.overload_protection_verified,
            r.timeout_governance_verified,
            r.certified,
    {
        RuntimeCertification {
            cert_id: fresh_id(),
            runtime_version: clone_version(version),
            scheduler_verified: true,
            resource_enforcement_verified: true,
            overload_protection_verified: true,
            timeout_governance_verified: true,
            certified: true,
        }
    }
}

impl Default for CertificationEngine {
    /// The same as `CertificationEngine::new()`.
    fn default() -> (r: Self)
    {
        Self::new()
    }
}

impl Default for ReplayCertifier {
    /// The same as `ReplayCertifier::new()`.
    fn default() -> (r: Self)
    {
        Self::new()
    }
}

impl Default for SurvivabilityCertifier {
    /// The same as `SurvivabilityCertifier::new()`.
    fn default() -> (r: Self)
    {
        Self::new()
    }
}

impl Default for DegradationCertifier {
    /// The same as `DegradationCertifier::new()`.
    fn default() -> (r: Self)
    {
        Self::new()
    }
}

impl Default for SovereigntyCertifier {
    /// The same as `SovereigntyCertifier::new()`.
    fn default() -> (r: Self)
    {
        Self::new()
    }
}

impl Default for RuntimeCertifier {
    /// The same as `RuntimeCertifier::new()`.
    fn default() -> (r: Self)
    {
        Self::new()
    }
}

} // verus!
