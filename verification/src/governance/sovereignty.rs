//! Sovereignty registry: zones, data-residency policies, jurisdictions and
//! partition policies.
use vstd::prelude::*;
use crate::governance::{GovernanceViolation, PolicyEvalResult, PolicySeverity, violation_is};
use crate::store::{KeyedStore, has_key, lookup, stored, derefs, values_of, lemma_lookup_after_store};
use crate::text::{cat3, cat4, cat5, cat7, owned, str_eq, list_contains, lists, strs_view, pairs_view};

verus! {

/// A sovereignty zone.
#[derive(Debug, Clone)]
pub struct SovereigntyZone {
    pub zone_id: String,
    pub name: String,
    pub zone_type: ZoneType,
    pub jurisdiction: String,
    pub parent_zone: Option<String>,
    pub data_classifications: Vec<DataClassification>,
    pub allowed_regions: Vec<String>,
    pub restricted_regions: Vec<String>,
    pub isolation_level: IsolationLevel,
    pub active: bool,
}

/// The level of a zone in the sovereignty hierarchy.
#[derive(Debug, Clone, Copy, PartialEq, Eq, Structural)]
pub enum ZoneType {
    Sovereign,
    National,
    Ministry,
    Regional,
    Edge,
}

/// How sensitive data is.
#[derive(Debug, Clone, Copy, PartialEq, Eq, Structural)]
pub enum DataClassification {
    Public,
    Internal,
    Confidential,
    Secret,
    TopSecret,
}

/// How a zone is isolated.
#[derive(Debug, Clone, Copy, PartialEq, Eq, Structural)]
pub enum IsolationLevel {
    Logical,
    Physical,
    Cryptographic,
    AirGapped,
}

/// Where data of one classification may and may not reside.
#[derive(Debug, Clone)]
pub struct ResidencyPolicy {
    pub policy_id: String,
    pub data_classification: DataClassification,
    pub allowed_zones: Vec<String>,
    pub forbidden_zones: Vec<String>,
    pub require_jurisdiction_compliance: bool,
    pub retention_days: u64,
    pub audit_required: bool,
}

/// A legal jurisdiction.
#[derive(Debug, Clone)]
pub struct Jurisdiction {
    pub jurisdiction_id: String,
    pub name: String,
    pub country: String,
    pub regulatory_framework: String,
    pub data_protection_law: String,
    pub requires_local_storage: bool,
    pub requires_cross_border_agreement: bool,
}

/// How one partition of a zone is replicated.
#[derive(Debug, Clone)]
pub struct PartitionPolicy {
    pub policy_id: String,
    pub zone_id: String,
    pub partition_key: String,
    pub replication_factor: u32,
    /// Domains that may receive this partition's data.
    pub allowed_replication_targets: Vec<String>,
    pub encrypted: bool,
    pub compressed: bool,
}

/// Findings of a residency check on one zone.
#[derive(Debug)]
pub struct SovereigntyComplianceReport {
    pub zone: String,
    pub compliant: bool,
    pub violations: Vec<String>,
    pub residency_checks_passed: usize,
    pub residency_checks_failed: usize,
}

/// The name under which a classification is shown in findings.
pub open spec fn classification_name(c: DataClassification) -> Seq<char> {
    match c {
        DataClassification::Public => "Public"@,
        DataClassification::Internal => "Internal"@,
        DataClassification::Confidential => "Confidential"@,
        DataClassification::Secret => "Secret"@,
        DataClassification::TopSecret => "TopSecret"@,
    }
}

impl DataClassification {
    /// The name under which the classification is shown in findings.
    pub fn name(&self) -> (r: &'static str)
        ensures
            r@ == classification_name(*self),
    {
        match self {
            DataClassification::Public => "Public",
            DataClassification::Internal => "Internal",
            DataClassification::Confidential => "Confidential",
            DataClassification::Secret => "Secret",
            DataClassification::TopSecret => "TopSecret",
        }
    }
}

/// What one residency policy says of zone `zone` (looked up under `zone_id`):
/// 0 the check passes, 1 the zone is forbidden, 2 the zone is not among the allowed ones.
pub open spec fn residency_outcome(p: ResidencyPolicy, zone: Option<SovereigntyZone>) -> int {
    let in_allowed = p.allowed_zones@.len() == 0 || (zone matches Some(z) && lists(p.allowed_zones@, z.zone_id@));
    let in_forbidden = zone matches Some(z) && lists(p.forbidden_zones@, z.zone_id@);
    if in_forbidden {
        1
    } else if !in_allowed && p.allowed_zones@.len() != 0 {
        2
    } else {
        0
    }
}

/// The finding of one policy, if it applies to classification `c` and does not pass.
pub open spec fn residency_finding(p: ResidencyPolicy, zone: Option<SovereigntyZone>, zone_id: Seq<char>, c: DataClassification) -> Seq<Seq<char>> {
    if p.data_classification != c {
        Seq::<Seq<char>>::empty()
    } else if residency_outcome(p, zone) == 1 {
        seq!["Data classification "@ + classification_name(c) + " is forbidden in zone '"@ + zone_id + "' by policy '"@ + p.policy_id@ + "'"@]
    } else if residency_outcome(p, zone) == 2 {
        seq!["Zone '"@ + zone_id + "' not in allowed zones for data classification "@ + classification_name(c)]
    } else {
        Seq::<Seq<char>>::empty()
    }
}

/// All findings of the policies, in policy order.
pub open spec fn residency_findings(ps: Seq<ResidencyPolicy>, zone: Option<SovereigntyZone>, zone_id: Seq<char>, c: DataClassification) -> Seq<Seq<char>>
    decreases ps.len(),
{
    if ps.len() == 0 {
        Seq::<Seq<char>>::empty()
    } else {
        residency_findings(ps.drop_last(), zone, zone_id, c) + residency_finding(ps.last(), zone, zone_id, c)
    }
}

/// How many of the policies apply to `c` and pass.
pub open spec fn residency_passes(ps: Seq<ResidencyPolicy>, zone: Option<SovereigntyZone>, c: DataClassification) -> nat
    decreases ps.len(),
{
    if ps.len() == 0 {
        0
    } else {
        residency_passes(ps.drop_last(), zone, c) + if ps.last().data_classification == c && residency_outcome(ps.last(), zone) == 0 { 1nat } else { 0nat }
    }
}

/// How many of the policies apply to `c` and fail.
pub open spec fn residency_failures(ps: Seq<ResidencyPolicy>, zone: Option<SovereigntyZone>, c: DataClassification) -> nat
    decreases ps.len(),
{
    if ps.len() == 0 {
        0
    } else {
        residency_failures(ps.drop_last(), zone, c) + if ps.last().data_classification == c && residency_outcome(ps.last(), zone) != 0 { 1nat } else { 0nat }
    }
}

/// The finding that policy `policy_id` forbids data of classification `c` in zone `zone_id`.
pub open spec fn forbidden_finding(c: DataClassification, zone_id: Seq<char>, policy_id: Seq<char>) -> Seq<char> {
    "Data classification "@ + classification_name(c) + " is forbidden in zone '"@ + zone_id + "' by policy '"@ + policy_id + "'"@
}

/// A policy for classification `c` that lists zone `z` among its forbidden zones makes
/// the check fail with that policy's "is forbidden in zone" finding, whatever zones it
/// allows.
pub proof fn lemma_forbidden_zone_reported(ps: Seq<ResidencyPolicy>, z: SovereigntyZone, zone_id: Seq<char>, c: DataClassification, i: int)
    requires
        0 <= i < ps.len(),
        ps[i].data_classification == c,
        lists(ps[i].forbidden_zones@, z.zone_id@),
    ensures
        residency_findings(ps, Some(z), zone_id, c).contains(forbidden_finding(c, zone_id, ps[i].policy_id@)),
        residency_failures(ps, Some(z), c) >= 1,
    decreases ps.len(),
{
    let pre = residency_findings(ps.drop_last(), Some(z), zone_id, c);
    let all = residency_findings(ps, Some(z), zone_id, c);
    if i == ps.len() - 1 {
        assert(residency_outcome(ps.last(), Some(z)) == 1);
        assert(all[pre.len() as int] == forbidden_finding(c, zone_id, ps[i].policy_id@));
    } else {
        assert(ps.drop_last()[i] == ps[i]);
        lemma_forbidden_zone_reported(ps.drop_last(), z, zone_id, c, i);
        let k = choose|k: int| 0 <= k < pre.len() && pre[k] == forbidden_finding(c, zone_id, ps[i].policy_id@);
        assert(all[k] == pre[k]);
    }
}

/// Policy `p` admits zone `zone` (the zone registered under the checked id, if any): the
/// zone is not among its forbidden zones, and the policy allows every zone or lists it
/// among the allowed ones.
pub open spec fn policy_admits(p: ResidencyPolicy, zone: Option<SovereigntyZone>) -> bool {
    &&& !(zone matches Some(z) && lists(p.forbidden_zones@, z.zone_id@))
    &&& (p.allowed_zones@.len() == 0 || (zone matches Some(z) && lists(p.allowed_zones@, z.zone_id@)))
}

/// The check finds nothing exactly when every policy for classification `c` admits the
/// zone; each such policy counts once, as passed when it admits the zone and as failed
/// otherwise.
pub proof fn lemma_residency_findings_empty(ps: Seq<ResidencyPolicy>, zone: Option<SovereigntyZone>, zone_id: Seq<char>, c: DataClassification)
    ensures
        residency_findings(ps, zone, zone_id, c).len() == 0 <==> forall|i: int| 0 <= i < ps.len()
            && (#[trigger] ps[i]).data_classification == c ==> policy_admits(ps[i], zone),
        residency_failures(ps, zone, c) == 0 <==> residency_findings(ps, zone, zone_id, c).len() == 0,
        residency_passes(ps, zone, c) + residency_failures(ps, zone, c)
            == ps.filter(|p: ResidencyPolicy| p.data_classification == c).len(),
    decreases ps.len(),
{
    if ps.len() > 0 {
        lemma_residency_findings_empty(ps.drop_last(), zone, zone_id, c);
        let q = ps.drop_last();
        assert(ps =~= q.push(ps.last()));
        q.lemma_filter_push(ps.last(), |p: ResidencyPolicy| p.data_classification == c);
        if residency_findings(ps, zone, zone_id, c).len() == 0 {
            assert forall|i: int| 0 <= i < ps.len() && (#[trigger] ps[i]).data_classification == c
                implies policy_admits(ps[i], zone) by {
                if i < ps.len() - 1 {
                    assert(q[i] == ps[i]);
                }
            }
        }
        if forall|i: int| 0 <= i < ps.len() && (#[trigger] ps[i]).data_classification == c ==> policy_admits(ps[i], zone) {
            assert forall|i: int| 0 <= i < q.len() && (#[trigger] q[i]).data_classification == c
                implies policy_admits(q[i], zone) by {
                assert(q[i] == ps[i]);
            }
            if ps.last().data_classification == c {
                assert(ps[ps.len() - 1] == ps.last());
            }
        }
    } else {
        assert(ps.filter(|p: ResidencyPolicy| p.data_classification == c) =~= Seq::<ResidencyPolicy>::empty());
    }
}

/// The registered zones named by `ids`, in order, skipping unregistered ids.
pub open spec fn zones_named(ids: Seq<String>, zones: Seq<(String, SovereigntyZone)>) -> Seq<SovereigntyZone>
    decreases ids.len(),
{
    if ids.len() == 0 {
        Seq::<SovereigntyZone>::empty()
    } else {
        match lookup(zones, ids.last()@) {
            Some(z) => zones_named(ids.drop_last(), zones).push(z),
            None => zones_named(ids.drop_last(), zones),
        }
    }
}

/// `i` is the first of the regions that zone `z` restricts.
pub open spec fn first_restricted(regions: Seq<String>, z: SovereigntyZone, i: int) -> bool {
    &&& 0 <= i < regions.len()
    &&& lists(z.restricted_regions@, regions[i]@)
    &&& forall|j: int| 0 <= j < i ==> !lists(z.restricted_regions@, (#[trigger] regions[j])@)
}

/// `i` is the first partition policy for `key`.
pub open spec fn first_partition_policy(ps: Seq<PartitionPolicy>, key: Seq<char>, i: int) -> bool {
    &&& 0 <= i < ps.len()
    &&& ps[i].partition_key@ == key
    &&& forall|j: int| 0 <= j < i ==> (#[trigger] ps[j]).partition_key@ != key
}

/// The children listed under zone `p` in the hierarchy `h` (none when it has no entry).
pub open spec fn listed_children(h: Seq<(String, Vec<String>)>, p: Seq<char>) -> Seq<String> {
    match lookup(h, p) {
        Some(l) => l@,
        None => Seq::empty(),
    }
}

/// Every zone listed as a child in `h` is registered in `zones`.
pub open spec fn all_children_registered(h: Seq<(String, Vec<String>)>, zones: Seq<(String, SovereigntyZone)>) -> bool {
    forall|p: Seq<char>, j: int| 0 <= j < listed_children(h, p).len()
        ==> has_key(zones, (#[trigger] listed_children(h, p)[j])@)
}

/// Every zone in `zones` is stored under its own id.
pub open spec fn keyed_by_id(zones: Seq<(String, SovereigntyZone)>) -> bool {
    forall|k: Seq<char>| match #[trigger] lookup(zones, k) {
        Some(z) => z.zone_id@ == k,
        None => true,
    }
}

/// Registry for sovereignty zones, residency policies, jurisdictions and partition policies.
pub struct SovereigntyRegistry {
    zones: KeyedStore<SovereigntyZone>,
    residency_policies: Vec<ResidencyPolicy>,
    jurisdiction_map: KeyedStore<Jurisdiction>,
    partition_policies: Vec<PartitionPolicy>,
    zone_hierarchy: KeyedStore<Vec<String>>,
}

impl SovereigntyRegistry {
    /// Registered zones under their ids.
    pub closed spec fn zones(&self) -> Seq<(String, SovereigntyZone)> {
        self.zones.entries()
    }

    /// Residency policies in registration order.
    pub closed spec fn residency_policies(&self) -> Seq<ResidencyPolicy> {
        self.residency_policies@
    }

    /// Jurisdictions under their ids.
    pub closed spec fn jurisdictions(&self) -> Seq<(String, Jurisdiction)> {
        self.jurisdiction_map.entries()
    }

    /// Partition policies in registration order.
    pub closed spec fn partition_policies(&self) -> Seq<PartitionPolicy> {
        self.partition_policies@
    }

    /// Child zone ids under parent ids, in registration order.
    pub closed spec fn hierarchy(&self) -> Seq<(String, Vec<String>)> {
        self.zone_hierarchy.entries()
    }

    /// The children listed under zone `p` (none when it has no entry).
    pub open spec fn children_of(&self, p: Seq<char>) -> Seq<String> {
        listed_children(self.hierarchy(), p)
    }

    /// Every zone listed as a child of another is a registered zone.
    pub open spec fn children_registered(&self) -> bool {
        all_children_registered(self.hierarchy(), self.zones())
    }

    /// Every zone is registered under its own id.
    pub open spec fn zones_keyed_by_id(&self) -> bool {
        keyed_by_id(self.zones())
    }

    /// The registry's invariant: listed children are registered zones, each under its id.
    #[verifier::type_invariant]
    spec fn zones_consistent(&self) -> bool {
        &&& self.children_registered()
        &&& self.zones_keyed_by_id()
    }

    /// An empty registry.
    pub fn new() -> (r: Self)
        ensures
            r.children_registered(),
            r.zones_keyed_by_id(),
            r.zones().len() == 0,
            r.residency_policies().len() == 0,
            r.jurisdictions().len() == 0,
            r.partition_policies().len() == 0,
            r.hierarchy().len() == 0,
    {
        SovereigntyRegistry {
            zones: KeyedStore::new(),
            residency_policies: Vec::new(),
            jurisdiction_map: KeyedStore::new(),
            partition_policies: Vec::new(),
            zone_hierarchy: KeyedStore::new(),
        }
    }

    /// Registers `zone` under its id; a zone with a parent is recorded as that parent's child.
    /// A zone not registered before then stands exactly once, last, among its parent's children.
    pub fn register_zone(&mut self, zone: SovereigntyZone)
        ensures
            final(self).zones() == stored(old(self).zones(), zone.zone_id, zone),
            lookup(final(self).zones(), zone.zone_id@) == Some(zone),
            forall|k: Seq<char>| k != zone.zone_id@ ==> #[trigger] lookup(final(self).zones(), k) == lookup(old(self).zones(), k),
            match zone.parent_zone {
                Some(parent) => {
                    &&& lookup(final(self).hierarchy(), parent@) matches Some(l) && l@ == match lookup(old(self).hierarchy(), parent@) {
                        Some(ol) => ol@,
                        None => Seq::<String>::empty(),
                    }.push(zone.zone_id)
                    &&& forall|k: Seq<char>| k != parent@ ==> #[trigger] lookup(final(self).hierarchy(), k) == lookup(old(self).hierarchy(), k)
                },
                None => final(self).hierarchy() == old(self).hierarchy(),
            },
            final(self).residency_policies() == old(self).residency_policies(),
            final(self).jurisdictions() == old(self).jurisdictions(),
            final(self).partition_policies() == old(self).partition_policies(),
            final(self).children_registered(),
            final(self).zones_keyed_by_id(),
            lookup(old(self).zones(), zone.zone_id@) is None ==> match zone.parent_zone {
                Some(parent) => lookup(final(self).hierarchy(), parent@) matches Some(l)
                    && l@.len() > 0 && l@.last()@ == zone.zone_id@
                    && forall|j: int| 0 <= j < l@.len() - 1 ==> (#[trigger] l@[j])@ != zone.zone_id@,
                None => true,
            },
    {
        proof {
            use_type_invariant(&*self);
        }
        let id = zone.zone_id.clone();
        let ghost zg = zone;
        let mut taken = SovereigntyRegistry::new();
        std::mem::swap(&mut taken, self);
        let SovereigntyRegistry { mut zones, residency_policies, jurisdiction_map, partition_policies, mut zone_hierarchy } = taken;
        let ghost before = zones.entries();
        let ghost h0 = zone_hierarchy.entries();
        match &zone.parent_zone {
            Some(parent) => {
                zone_hierarchy.push_into(parent.clone(), id.clone());
            },
            None => {},
        }
        zones.insert(id, zone);
        proof {
            let h = zone_hierarchy.entries();
            let zs = zones.entries();
            assert(before == old(self).zones());
            assert(h0 == old(self).hierarchy());
            lemma_lookup_after_store(before, zg.zone_id, zg, zg.zone_id@);
            assert forall|k: Seq<char>| k != zg.zone_id@ implies #[trigger] lookup(zs, k) == lookup(before, k) by {
                lemma_lookup_after_store(before, zg.zone_id, zg, k);
            }
            assert forall|k: Seq<char>| match #[trigger] lookup(zs, k) {
                Some(z) => z.zone_id@ == k,
                None => true,
            } by {
                if k != zg.zone_id@ {
                    assert(lookup(zs, k) == lookup(before, k));
                }
            }
            assert forall|p: Seq<char>, j: int| 0 <= j < listed_children(h, p).len()
                implies has_key(zs, (#[trigger] listed_children(h, p)[j])@) by {
                let l = listed_children(h, p);
                let x = l[j]@;
                if x != zg.zone_id@ {
                    match zg.parent_zone {
                        Some(parent) => {
                            if p == parent@ {
                                if j < l.len() - 1 {
                                    assert(l[j] == listed_children(h0, p)[j]);
                                }
                            } else {
                                assert(listed_children(h0, p) == l);
                            }
                        },
                        None => {
                            assert(listed_children(h0, p) == l);
                        },
                    }
                    assert(has_key(before, x));
                    assert(lookup(zs, x) == lookup(before, x));
                }
            }
            if lookup(before, zg.zone_id@) is None {
                match zg.parent_zone {
                    Some(parent) => {
                        let l = lookup(h, parent@)->Some_0;
                        assert forall|j: int| 0 <= j < l@.len() - 1 implies (#[trigger] l@[j])@ != zg.zone_id@ by {
                            let o = listed_children(h0, parent@);
                            assert(l@[j] == o[j]);
                            assert(has_key(before, o[j]@));
                        }
                    },
                    None => {},
                }
            }
        }
        *self = SovereigntyRegistry { zones, residency_policies, jurisdiction_map, partition_policies, zone_hierarchy };
    }

    /// Adds a residency policy.
    pub fn register_residency_policy(&mut self, policy: ResidencyPolicy)
        ensures
            final(self).residency_policies() == old(self).residency_policies().push(policy),
            final(self).zones() == old(self).zones(),
            final(self).jurisdictions() == old(self).jurisdictions(),
            final(self).partition_policies() == old(self).partition_policies(),
            final(self).hierarchy() == old(self).hierarchy(),
    {
        proof {
            use_type_invariant(&*self);
        }
        let mut policies: Vec<ResidencyPolicy> = Vec::new();
        std::mem::swap(&mut policies, &mut self.residency_policies);
        policies.push(policy);
        self.residency_policies = policies;
    }

    /// Registers `jurisdiction` under its id.
    pub fn register_jurisdiction(&mut self, jurisdiction: Jurisdiction)
        ensures
            final(self).jurisdictions() == stored(old(self).jurisdictions(), jurisdiction.jurisdiction_id, jurisdiction),
            final(self).zones() == old(self).zones(),
            final(self).residency_policies() == old(self).residency_policies(),
            final(self).partition_policies() == old(self).partition_policies(),
            final(self).hierarchy() == old(self).hierarchy(),
    {
        proof {
            use_type_invariant(&*self);
        }
        let id = jurisdiction.jurisdiction_id.clone();
        let mut map: KeyedStore<Jurisdiction> = KeyedStore::new();
        std::mem::swap(&mut map, &mut self.jurisdiction_map);
        map.insert(id, jurisdiction);
        self.jurisdiction_map = map;
    }

    /// Adds a partition policy.
    pub fn register_partition_policy(&mut self, policy: PartitionPolicy)
        ensures
            final(self).partition_policies() == old(self).partition_policies().push(policy),
            final(self).zones() == old(self).zones(),
            final(self).residency_policies() == old(self).residency_policies(),
            final(self).jurisdictions() == old(self).jurisdictions(),
            final(self).hierarchy() == old(self).hierarchy(),
    {
        proof {
            use_type_invariant(&*self);
        }
        let mut policies: Vec<PartitionPolicy> = Vec::new();
        std::mem::swap(&mut policies, &mut self.partition_policies);
        policies.push(policy);
        self.partition_policies = policies;
    }

    /// What `check_residency` answers for these arguments.
    pub open spec fn residency_outcome(&self, zone_id: Seq<char>, allowed_regions: Seq<String>, r: PolicyEvalResult) -> bool {
        match lookup(self.zones(), zone_id) {
            None => r matches PolicyEvalResult::Violation(v) && violation_is(
                v,
                "SovereigntyResidency"@,
                PolicySeverity::Critical,
                "Sovereignty zone '"@ + zone_id + "' not registered"@,
                seq![("zone_id"@, zone_id)],
                seq!["Register sovereignty zone '"@ + zone_id + "'"@],
            ),
            Some(z) => match r {
                PolicyEvalResult::Violation(v) => exists|i: int| first_restricted(allowed_regions, z, i)
                    && violation_is(
                        v,
                        "SovereigntyResidency"@,
                        PolicySeverity::Error,
                        "Region '"@ + allowed_regions[i]@ + "' is restricted for sovereignty zone '"@ + zone_id + "'"@,
                        seq![("zone_id"@, zone_id), ("region"@, allowed_regions[i]@)],
                        seq!["Choose a different region for data residency"@, "Update restricted regions list for this zone"@],
                    ),
                PolicyEvalResult::Pass => forall|i: int| 0 <= i < allowed_regions.len()
                    ==> !lists(z.restricted_regions@, (#[trigger] allowed_regions[i])@),
                PolicyEvalResult::Warning(_) => false,
            },
        }
    }

    /// Checks that zone `zone_id` is registered and restricts none of `allowed_regions`.
    pub fn check_residency(&self, zone_id: &str, allowed_regions: &[String]) -> (r: PolicyEvalResult)
        ensures
            self.residency_outcome(zone_id@, allowed_regions@, r),

    {
        let zone = match self.zones.get(zone_id) {
            Some(z) => z,
            None => {
                let mut context: Vec<(String, String)> = Vec::new();
                context.push((owned("zone_id"), owned(zone_id)));
                let mut remediations: Vec<String> = Vec::new();
                remediations.push(cat3("Register sovereignty zone '", zone_id, "'"));
                let v = GovernanceViolation {
                    policy_id: 0,
                    policy_name: owned("SovereigntyResidency"),
                    severity: PolicySeverity::Critical,
                    message: cat3("Sovereignty zone '", zone_id, "' not registered"),
                    context,
                    remediations,
                };
                proof {
                    assert(strs_view(v.remediations@) =~= seq!["Register sovereignty zone '"@ + zone_id@ + "'"@]);
                    assert(pairs_view(v.context@) =~= seq![("zone_id"@, zone_id@)]);
                }
                return PolicyEvalResult::Violation(v);
            },
        };
        let n = allowed_regions.len();
        for i in 0..n
            invariant
                n == allowed_regions@.len(),
                lookup(self.zones.entries(), zone_id@) == Some(*zone),
                forall|j: int| 0 <= j < i ==> !lists(zone.restricted_regions@, (#[trigger] allowed_regions@[j])@),
        {
            let region = &allowed_regions[i];
            if list_contains(&zone.restricted_regions, region.as_str()) {
                let mut context: Vec<(String, String)> = Vec::new();
                context.push((owned("zone_id"), owned(zone_id)));
                context.push((owned("region"), owned(region.as_str())));
                let mut remediations: Vec<String> = Vec::new();
                remediations.push(owned("Choose a different region for data residency"));
                remediations.push(owned("Update restricted regions list for this zone"));
                let v = GovernanceViolation {
                    policy_id: 0,
                    policy_name: owned("SovereigntyResidency"),
                    severity: PolicySeverity::Error,
                    message: cat5("Region '", region.as_str(), "' is restricted for sovereignty zone '", zone_id, "'"),
                    context,
                    remediations,
                };
                proof {
                    assert(strs_view(v.remediations@) =~= seq!["Choose a different region for data residency"@, "Update restricted regions list for this zone"@]);
                    assert(pairs_view(v.context@) =~= seq![("zone_id"@, zone_id@), ("region"@, allowed_regions@[i as int]@)]);
                    assert(first_restricted(allowed_regions@, *zone, i as int));
                }
                return PolicyEvalResult::Violation(v);
            }
        }
        PolicyEvalResult::Pass
    }

    /// Checks the residency policies for `classification` against zone `zone_id`,
    /// counting the checks that pass and fail.
    pub fn check_data_residency_compliance(&self, zone_id: &str, classification: DataClassification) -> (r: SovereigntyComplianceReport)
        ensures
            r.zone@ == zone_id@,
            strs_view(r.violations@) == residency_findings(self.residency_policies(), lookup(self.zones(), zone_id@), zone_id@, classification),
            r.compliant == (residency_findings(self.residency_policies(), lookup(self.zones(), zone_id@), zone_id@, classification).len() == 0),
            r.residency_checks_passed == residency_passes(self.residency_policies(), lookup(self.zones(), zone_id@), classification),
            r.residency_checks_failed == residency_failures(self.residency_policies(), lookup(self.zones(), zone_id@), classification),
            r.compliant <==> forall|i: int| 0 <= i < self.residency_policies().len()
                && (#[trigger] self.residency_policies()[i]).data_classification == classification
                ==> policy_admits(self.residency_policies()[i], lookup(self.zones(), zone_id@)),
            forall|i: int| 0 <= i < self.residency_policies().len()
                && (#[trigger] self.residency_policies()[i]).data_classification == classification
                && has_key(self.zones(), zone_id@)
                && lists(self.residency_policies()[i].forbidden_zones@, zone_id@)
                ==> {
                    &&& !r.compliant
                    &&& strs_view(r.violations@).contains(forbidden_finding(classification, zone_id@, self.residency_policies()[i].policy_id@))
                    &&& r.residency_checks_failed >= 1
                },
    {
        proof {
            use_type_invariant(self);
            lemma_residency_findings_empty(self.residency_policies(), lookup(self.zones(), zone_id@), zone_id@, classification);
            assert forall|i: int| 0 <= i < self.residency_policies().len()
                && (#[trigger] self.residency_policies()[i]).data_classification == classification
                && has_key(self.zones(), zone_id@)
                && lists(self.residency_policies()[i].forbidden_zones@, zone_id@)
                implies residency_findings(self.residency_policies(), lookup(self.zones(), zone_id@), zone_id@, classification)
                    .contains(forbidden_finding(classification, zone_id@, self.residency_policies()[i].policy_id@))
                && residency_failures(self.residency_policies(), lookup(self.zones(), zone_id@), classification) >= 1 by {
                let z = lookup(self.zones(), zone_id@)->0;
                assert(z.zone_id@ == zone_id@);
                lemma_forbidden_zone_reported(self.residency_policies(), z, zone_id@, classification, i);
            }
        }
        let mut violations: Vec<String> = Vec::new();
        let mut checks_passed: usize = 0;
        let mut checks_failed: usize = 0;
        let zone = self.zones.get(zone_id);
        let ghost zo: Option<SovereigntyZone> = match zone { Some(z) => Some(*z), None => None };
        let ps = &self.residency_policies;
        let n = ps.len();
        for i in 0..n
            invariant
                n == ps@.len(),
                ps@ == self.residency_policies@,
                zo == lookup(self.zones.entries(), zone_id@),
                match zone { Some(z) => zo == Some(*z), None => zo is None },
                strs_view(violations@) == residency_findings(ps@.take(i as int), zo, zone_id@, classification),
                checks_passed == residency_passes(ps@.take(i as int), zo, classification),
                checks_failed == residency_failures(ps@.take(i as int), zo, classification),
                checks_passed + checks_failed <= i,
        {
            let policy = &ps[i];
            let ghost before = violations@;
            assert(ps@.take(i + 1).drop_last() =~= ps@.take(i as int));
            if policy.data_classification == classification {
                let in_allowed = policy.allowed_zones.len() == 0 || match zone {
                    Some(z) => list_contains(&policy.allowed_zones, z.zone_id.as_str()),
                    None => false,
                };
                let in_forbidden = match zone {
                    Some(z) => list_contains(&policy.forbidden_zones, z.zone_id.as_str()),
                    None => false,
                };
                if in_forbidden {
                    violations.push(cat7("Data classification ", classification.name(), " is forbidden in zone '", zone_id,
                        "' by policy '", policy.policy_id.as_str(), "'"));
                    checks_failed = checks_failed + 1;
                } else if !in_allowed && policy.allowed_zones.len() != 0 {
                    violations.push(cat4("Zone '", zone_id, "' not in allowed zones for data classification ", classification.name()));
                    checks_failed = checks_failed + 1;
                } else {
                    checks_passed = checks_passed + 1;
                }
            }
            assert(strs_view(violations@) =~= residency_findings(ps@.take(i + 1), zo, zone_id@, classification));
        }
        assert(ps@.take(n as int) =~= ps@);
        let compliant = violations.len() == 0;
        SovereigntyComplianceReport {
            zone: owned(zone_id),
            compliant,
            violations,
            residency_checks_passed: checks_passed,
            residency_checks_failed: checks_failed,
        }
    }

    /// The zone registered under `zone_id`.
    pub fn get_zone(&self, zone_id: &str) -> (r: Option<&SovereigntyZone>)
        ensures
            match r {
                Some(z) => lookup(self.zones(), zone_id@) == Some(*z),
                None => lookup(self.zones(), zone_id@) is None,
            },
    {
        self.zones.get(zone_id)
    }

    /// All registered zones.
    pub fn list_zones(&self) -> (r: Vec<&SovereigntyZone>)
        ensures
            derefs(r@) == values_of(self.zones()),
    {
        self.zones.values()
    }

    /// The partition policies, in registration order.
    pub fn list_partition_policies(&self) -> (r: &[PartitionPolicy])
        ensures
            r@ == self.partition_policies(),
    {
        self.partition_policies.as_slice()
    }

    /// The children of zone `parent_id`, in the order they were registered: one zone for
    /// each id listed under it, which is the zone registered under that id.
    pub fn get_child_zones(&self, parent_id: &str) -> (r: Vec<&SovereigntyZone>)
        ensures
            derefs(r@) == match lookup(self.hierarchy(), parent_id@) {
                Some(ids) => zones_named(ids@, self.zones()),
                None => Seq::<SovereigntyZone>::empty(),
            },
            r@.len() == self.children_of(parent_id@).len(),
            forall|j: int| 0 <= j < r@.len() ==> {
                &&& lookup(self.zones(), self.children_of(parent_id@)[j]@) == Some(*(#[trigger] r@[j]))
                &&& r@[j].zone_id@ == self.children_of(parent_id@)[j]@
            },
    {
        proof {
            use_type_invariant(self);
        }
        let mut r: Vec<&SovereigntyZone> = Vec::new();
        match self.zone_hierarchy.get(parent_id) {
            Some(children) => {
                let n = children.len();
                proof {
                    assert(children@ == self.children_of(parent_id@));
                }
                for i in 0..n
                    invariant
                        n == children@.len(),
                        children@ == self.children_of(parent_id@),
                        self.children_registered(),
                        self.zones_keyed_by_id(),
                        derefs(r@) == zones_named(children@.take(i as int), self.zones.entries()),
                        r@.len() == i,
                        forall|j: int| 0 <= j < i ==> {
                            &&& lookup(self.zones(), children@[j]@) == Some(*(#[trigger] r@[j]))
                            &&& r@[j].zone_id@ == children@[j]@
                        },
                {
                    assert(children@.take(i + 1).drop_last() =~= children@.take(i as int));
                    assert(has_key(self.zones(), children@[i as int]@));
                    let ghost rb = r@;
                    match self.zones.get(children[i].as_str()) {
                        Some(z) => {
                            proof {
                                assert(lookup(self.zones(), children@[i as int]@) matches Some(x) && x.zone_id@ == children@[i as int]@);
                            }
                            r.push(z);
                            proof {
                                assert forall|j: int| 0 <= j < i + 1 implies {
                                    &&& lookup(self.zones(), children@[j]@) == Some(*(#[trigger] r@[j]))
                                    &&& r@[j].zone_id@ == children@[j]@
                                } by {
                                    if j < i {
                                        assert(r@[j] == rb[j]);
                                    }
                                }
                            }
                        },
                        None => {},
                    }
                    assert(derefs(r@) =~= zones_named(children@.take(i + 1), self.zones.entries()));
                }
                assert(children@.take(n as int) =~= children@);
            },
            None => {
                assert(derefs(r@) =~= Seq::<SovereigntyZone>::empty());
            },
        }
        r
    }

    /// Checks that the first partition policy for `partition_key` lets it replicate to
    /// `target_domain`; with no policy for the key the check passes.
    pub fn validate_partition_replication(&self, partition_key: &str, target_domain: &str) -> (r: PolicyEvalResult)
        ensures
            match r {
                PolicyEvalResult::Violation(v) => exists|i: int| first_partition_policy(self.partition_policies(), partition_key@, i)
                    && !lists(self.partition_policies()[i].allowed_replication_targets@, target_domain@)
                    && violation_is(
                        v,
                        "SovereigntyResidency"@,
                        PolicySeverity::Error,
                        "Partition '"@ + partition_key@ + "' not allowed to replicate to domain '"@ + target_domain@ + "'"@,
                        seq![("partition_key"@, partition_key@), ("target_domain"@, target_domain@)],
                        seq!["Add domain to allowed replication targets"@, "Choose a different replication target"@],
                    ),
                PolicyEvalResult::Pass => forall|i: int| first_partition_policy(self.partition_policies(), partition_key@, i)
                    ==> lists(self.partition_policies()[i].allowed_replication_targets@, target_domain@),
                PolicyEvalResult::Warning(_) => false,
            },
    {
        let ps = &self.partition_policies;
        let n = ps.len();
        for i in 0..n
            invariant
                n == ps@.len(),
                ps@ == self.partition_policies@,
                forall|j: int| 0 <= j < i ==> (#[trigger] ps@[j]).partition_key@ != partition_key@,
        {
            let policy = &ps[i];
            if str_eq(policy.partition_key.as_str(), partition_key) {
                assert(first_partition_policy(self.partition_policies(), partition_key@, i as int));
                if !list_contains(&policy.allowed_replication_targets, target_domain) {
                    let mut context: Vec<(String, String)> = Vec::new();
                    context.push((owned("partition_key"), owned(partition_key)));
                    context.push((owned("target_domain"), owned(target_domain)));
                    let mut remediations: Vec<String> = Vec::new();
                    remediations.push(owned("Add domain to allowed replication targets"));
                    remediations.push(owned("Choose a different replication target"));
                    let v = GovernanceViolation {
                        policy_id: 0,
                        policy_name: owned("SovereigntyResidency"),
                        severity: PolicySeverity::Error,
                        message: cat5("Partition '", partition_key, "' not allowed to replicate to domain '", target_domain, "'"),
                        context,
                        remediations,
                    };
                    proof {
                        assert(strs_view(v.remediations@) =~= seq!["Add domain to allowed replication targets"@, "Choose a different replication target"@]);
                        assert(pairs_view(v.context@) =~= seq![("partition_key"@, partition_key@), ("target_domain"@, target_domain@)]);
                    }
                    return PolicyEvalResult::Violation(v);
                }
                proof {
                    assert forall|k: int| first_partition_policy(self.partition_policies(), partition_key@, k)
                        implies lists(self.partition_policies()[k].allowed_replication_targets@, target_domain@) by {
                        if k < i { assert(ps@[k].partition_key@ != partition_key@); }
                        if k > i { assert(ps@[i as int].partition_key@ != partition_key@); }
                    }
                }
                return PolicyEvalResult::Pass;
            }
        }
        PolicyEvalResult::Pass
    }
}

impl Default for SovereigntyRegistry {
    /// The same as `SovereigntyRegistry::new()`.
    fn default() -> (r: Self)
        ensures
            r.children_registered(),
            r.zones_keyed_by_id(),
            r.zones().len() == 0,
            r.residency_policies().len() == 0,
            r.jurisdictions().len() == 0,
            r.partition_policies().len() == 0,
            r.hierarchy().len() == 0,
    {
        Self::new()
    }
}

} // verus!
