//! Sovereignty engines: classified zones, residency verification, partition keys
//! and data lineage.
use vstd::prelude::*;
use crate::governance::sovereignty::DataClassification;
use crate::env::{fresh_id, now_millis};
use crate::text::{cat5, owned, str_eq, str_starts_with, is_prefix_of, strs_view};

verus! {

/// Manages classified data zones.
pub struct SovereigntyEngine;

/// A zone holding data of one classification.
#[derive(Debug, Clone)]
pub struct ClassifiedDataZone {
    pub zone_id: u128,
    pub classification: DataClassification,
    pub jurisdictions: Vec<String>,
    pub retention_policy: RetentionPolicy,
    pub access_controlled: bool,
}

/// How long data is kept and whether it may change.
#[derive(Debug, Clone)]
pub struct RetentionPolicy {
    pub retention_days: u64,
    pub archival_after_days: u64,
    pub immutable: bool,
    pub legal_hold: bool,
}

/// Verifies where data may reside.
pub struct ResidencyEngine;

/// The outcome of a residency verification.
#[derive(Debug)]
pub struct ResidencyVerification {
    pub zone_id: String,
    pub compliant: bool,
    pub local_storage_required: bool,
    pub cross_border_permitted: bool,
    pub applicable_laws: Vec<String>,
    pub violations: Vec<String>,
}

/// Computes and checks partition keys.
pub struct PartitionPolicyEngine;

/// Builds data lineage records.
pub struct LineageEngine;

/// Where an event came from and where it went.
#[derive(Debug)]
pub struct DataLineage {
    pub event_id: u128,
    pub originating_zone: String,
    pub replication_path: Vec<String>,
    pub transformations: Vec<String>,
    pub accessed_by: Vec<String>,
    /// Milliseconds since the Unix epoch.
    pub retention_expires: i64,
    pub legal_hold_active: bool,
}

/// Days that data of classification `c` is retained.
pub open spec fn retention_days_for(c: DataClassification) -> u64 {
    match c {
        DataClassification::TopSecret => 36525,
        DataClassification::Secret => 18262,
        DataClassification::Confidential => 3652,
        DataClassification::Internal => 1826,
        DataClassification::Public => 365,
    }
}

/// Classifications whose data must stay local and immutable.
pub open spec fn is_restricted_class(c: DataClassification) -> bool {
    c == DataClassification::TopSecret || c == DataClassification::Secret
}

impl SovereigntyEngine {
    /// A new engine.
    pub fn new() -> (r: Self) {
        SovereigntyEngine
    }

    /// A new access-controlled zone for `classification`, with the retention that the
    /// classification calls for and a fresh id.
    pub fn create_classified_zone(&self, classification: DataClassification, jurisdictions: Vec<String>) -> (r: ClassifiedDataZone)
        ensures
            r.classification == classification,
            r.jurisdictions == jurisdictions,
            r.retention_policy.retention_days == retention_days_for(classification),
            r.retention_policy.archival_after_days == 0,
            r.retention_policy.immutable == is_restricted_class(classification),
            !r.retention_policy.legal_hold,
            r.access_controlled,
    {
        let retention_days: u64 = match classification {
            DataClassification::TopSecret => 36525,
            DataClassification::Secret => 18262,
            DataClassification::Confidential => 3652,
            DataClassification::Internal => 1826,
            DataClassification::Public => 365,
        };
        let immutable = match classification {
            DataClassification::TopSecret | DataClassification::Secret => true,
            _ => false,
        };
        ClassifiedDataZone {
            zone_id: fresh_id(),
            classification,
            jurisdictions,
            retention_policy: RetentionPolicy {
                retention_days,
                archival_after_days: 0,
                immutable,
                legal_hold: false,
            },
            access_controlled: true,
        }
    }
}

impl ResidencyEngine {
    /// A new engine.
    pub fn new() -> (r: Self) {
        ResidencyEngine
    }

    /// Verifies residency of data of class `data` in zone `zone_id` under `jurisdiction`:
    /// top-secret data complies only under jurisdiction "IQ".
    pub fn verify_residency(&self, zone_id: &str, jurisdiction: &str, data: DataClassification) -> (r: ResidencyVerification)
        ensures
            r.zone_id@ == zone_id@,
            r.compliant == (data != DataClassification::TopSecret || jurisdiction@ == "IQ"@),
            r.local_storage_required == is_restricted_class(data),
            r.cross_border_permitted == (data != DataClassification::TopSecret),
            strs_view(r.applicable_laws@) == seq!["Iraq Personal Data Protection Law"@, "INWP Sovereign Data Governance Act"@],
            strs_view(r.violations@) == if r.compliant {
                Seq::<Seq<char>>::empty()
            } else {
                seq!["TopSecret data must remain within Iraqi jurisdiction"@]
            },
    {
        let top_secret = data == DataClassification::TopSecret;
        let compliant = !top_secret || str_eq(jurisdiction, "IQ");
        let mut laws: Vec<String> = Vec::new();
        laws.push(owned("Iraq Personal Data Protection Law"));
        laws.push(owned("INWP Sovereign Data Governance Act"));
        let mut violations: Vec<String> = Vec::new();
        if !compliant {
            violations.push(owned("TopSecret data must remain within Iraqi jurisdiction"));
        }
        let local = data == DataClassification::TopSecret || data == DataClassification::Secret;
        let r = ResidencyVerification {
            zone_id: owned(zone_id),
            compliant,
            local_storage_required: local,
            cross_border_permitted: !top_secret,
            applicable_laws: laws,
            violations,
        };
        assert(strs_view(r.applicable_laws@) =~= seq!["Iraq Personal Data Protection Law"@, "INWP Sovereign Data Governance Act"@]);
        assert(strs_view(r.violations@) =~= if r.compliant {
            Seq::<Seq<char>>::empty()
        } else {
            seq!["TopSecret data must remain within Iraqi jurisdiction"@]
        });
        r
    }
}

impl PartitionPolicyEngine {
    /// A new engine.
    pub fn new() -> (r: Self) {
        PartitionPolicyEngine
    }

    /// The partition key `domain:region:institution`.
    pub fn compute_partition_key(&self, domain: &str, region: &str, institution: &str) -> (r: String)
        ensures
            r@ == domain@ + ":"@ + region@ + ":"@ + institution@,
    {
        cat5(domain, ":", region, ":", institution)
    }

    /// Whether partition `key` belongs to `node_domain`: the key begins with it.
    pub fn validate_partition_affinity(&self, key: &str, node_domain: &str) -> (r: bool)
        ensures
            r == is_prefix_of(node_domain@, key@),
    {
        str_starts_with(key, node_domain)
    }
}

impl LineageEngine {
    /// A new engine.
    pub fn new() -> (r: Self) {
        LineageEngine
    }

    /// The lineage of event `event_id` from `zone` along `replication_path`, with no
    /// transformations or accesses yet and retention expiring now.
    pub fn build_lineage(&self, event_id: u128, zone: &str, replication_path: Vec<String>) -> (r: DataLineage)
        ensures
            r.event_id == event_id,
            r.originating_zone@ == zone@,
            r.replication_path == replication_path,
            r.transformations@.len() == 0,
            r.accessed_by@.len() == 0,
            !r.legal_hold_active,
    {
        DataLineage {
            event_id,
            originating_zone: owned(zone),
            replication_path,
            transformations: Vec::new(),
            accessed_by: Vec::new(),
            retention_expires: now_millis(),
            legal_hold_active: false,
        }
    }
}

impl Default for SovereigntyEngine {
    /// The same as `SovereigntyEngine::new()`.
    fn default() -> (r: Self)
    {
        Self::new()
    }
}

impl Default for ResidencyEngine {
    /// The same as `ResidencyEngine::new()`.
    fn default() -> (r: Self)
    {
        Self::new()
    }
}

impl Default for PartitionPolicyEngine {
    /// The same as `PartitionPolicyEngine::new()`.
    fn default() -> (r: Self)
    {
        Self::new()
    }
}

impl Default for LineageEngine {
    /// The same as `LineageEngine::new()`.
    fn default() -> (r: Self)
    {
        Self::new()
    }
}

} // verus!
