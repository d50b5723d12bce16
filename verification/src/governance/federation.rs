//! Federation governance: domains, boundary policies, cross-domain routes and
//! sovereignty agreements.
use vstd::prelude::*;
use crate::governance::{GovernanceViolation, PolicyEvalResult, PolicySeverity, violation_is};
use crate::store::{KeyedStore, has_key, lookup, stored, derefs, values_of, lemma_lookup_after_store};
use crate::text::{cat3, cat5, cat7, owned, str_eq, list_contains, lists, strs_view, pairs_view};

verus! {

/// A domain taking part in the federation.
#[derive(Debug, Clone)]
pub struct FederatedDomain {
    pub domain_id: String,
    pub name: String,
    pub domain_type: DomainType,
    pub jurisdiction: String,
    pub allowed_interactions: Vec<String>,
    pub restricted_interactions: Vec<String>,
    pub trust_level: TrustLevel,
    pub schema_version: String,
    pub contact: String,
}

/// The kind of a federated domain.
#[derive(Debug, Clone, Copy, PartialEq, Eq, Structural)]
pub enum DomainType {
    Sovereign,
    Ministry,
    Regional,
    Institution,
    Edge,
}

/// How far a domain is trusted.
#[derive(Debug, Clone, Copy, PartialEq, Eq, Structural)]
pub enum TrustLevel {
    Untrusted,
    Low,
    Medium,
    High,
    Sovereign,
}

/// What may cross from one domain to another.
#[derive(Debug, Clone)]
pub struct BoundaryPolicy {
    pub policy_id: String,
    pub source_domain: String,
    pub target_domain: String,
    pub allowed_event_types: Vec<String>,
    pub forbidden_event_types: Vec<String>,
    pub require_encryption: bool,
    pub require_signing: bool,
    pub max_throughput: Option<u64>,
    pub require_audit: bool,
}

/// A route between two domains.
#[derive(Debug, Clone)]
pub struct CrossDomainRoute {
    pub route_id: String,
    pub source_domain: String,
    pub target_domain: String,
    pub route_type: RouteType,
    pub latency_budget_ms: u64,
    pub sync_frequency_secs: u64,
    pub enabled: bool,
}

/// How a route carries its traffic.
#[derive(Debug, Clone, Copy, PartialEq, Eq, Structural)]
pub enum RouteType {
    Direct,
    Relayed,
    Federated,
    Sovereign,
}

/// An agreement on what data domains share.
#[derive(Debug, Clone)]
pub struct SovereigntyAgreement {
    pub agreement_id: String,
    pub domains: Vec<String>,
    pub data_shared: Vec<String>,
    pub data_restricted: Vec<String>,
    pub retention_policy: String,
    pub audit_required: bool,
    pub active: bool,
}

/// Findings on the boundaries of one domain.
#[derive(Debug)]
pub struct FederationBoundaryReport {
    pub domain: String,
    pub total_boundaries: usize,
    pub violations: Vec<String>,
    pub active_routes: usize,
    pub sovereignty_agreements: usize,
    pub compliant: bool,
}

/// Governance for federation boundaries, cross-domain routing and sovereignty agreements.
pub struct FederationGovernance {
    domain_registry: KeyedStore<FederatedDomain>,
    boundary_policies: Vec<BoundaryPolicy>,
    cross_domain_routes: Vec<CrossDomainRoute>,
    sovereignty_agreements: Vec<SovereigntyAgreement>,
}

/// The route leaves `id` and is enabled.
pub open spec fn route_active_from(r: CrossDomainRoute, id: Seq<char>) -> bool {
    r.source_domain@ == id && r.enabled
}

/// How many of the routes leave `id` and are enabled.
pub open spec fn count_active_from(rs: Seq<CrossDomainRoute>, id: Seq<char>) -> nat
    decreases rs.len(),
{
    if rs.len() == 0 {
        0
    } else {
        count_active_from(rs.drop_last(), id) + if route_active_from(rs.last(), id) { 1nat } else { 0nat }
    }
}

/// The enabled routes, in registration order.
pub open spec fn enabled_routes(rs: Seq<CrossDomainRoute>) -> Seq<CrossDomainRoute>
    decreases rs.len(),
{
    if rs.len() == 0 {
        Seq::<CrossDomainRoute>::empty()
    } else if rs.last().enabled {
        enabled_routes(rs.drop_last()).push(rs.last())
    } else {
        enabled_routes(rs.drop_last())
    }
}

/// The findings of one boundary policy on domain `id`, given the registered domains.
pub open spec fn policy_findings(p: BoundaryPolicy, doms: Seq<(String, FederatedDomain)>, id: Seq<char>) -> Seq<Seq<char>> {
    if p.source_domain@ == id || p.target_domain@ == id {
        (if !has_key(doms, p.target_domain@) {
            seq!["Boundary policy references non-existent domain '"@ + p.target_domain@ + "'"@]
        } else {
            Seq::<Seq<char>>::empty()
        }) + (if !has_key(doms, p.source_domain@) {
            seq!["Boundary policy references non-existent source domain '"@ + p.source_domain@ + "'"@]
        } else {
            Seq::<Seq<char>>::empty()
        })
    } else {
        Seq::<Seq<char>>::empty()
    }
}

/// The findings of all policies on domain `id`, in policy order.
pub open spec fn boundary_findings(ps: Seq<BoundaryPolicy>, doms: Seq<(String, FederatedDomain)>, id: Seq<char>) -> Seq<Seq<char>>
    decreases ps.len(),
{
    if ps.len() == 0 {
        Seq::<Seq<char>>::empty()
    } else {
        boundary_findings(ps.drop_last(), doms, id) + policy_findings(ps.last(), doms, id)
    }
}

/// The policy governs traffic from `s` to `t`.
pub open spec fn policy_governs(p: BoundaryPolicy, s: Seq<char>, t: Seq<char>) -> bool {
    p.source_domain@ == s && p.target_domain@ == t
}

/// `i` is the first policy governing traffic from `s` to `t`.
pub open spec fn first_governing(ps: Seq<BoundaryPolicy>, i: int, s: Seq<char>, t: Seq<char>) -> bool {
    &&& 0 <= i < ps.len()
    &&& policy_governs(ps[i], s, t)
    &&& forall|j: int| 0 <= j < i ==> !policy_governs(#[trigger] ps[j], s, t)
}

impl FederationGovernance {
    /// The registered domains under their ids.
    pub closed spec fn domains(&self) -> Seq<(String, FederatedDomain)> {
        self.domain_registry.entries()
    }

    /// The boundary policies in registration order.
    pub closed spec fn policies(&self) -> Seq<BoundaryPolicy> {
        self.boundary_policies@
    }

    /// The cross-domain routes in registration order.
    pub closed spec fn routes(&self) -> Seq<CrossDomainRoute> {
        self.cross_domain_routes@
    }

    /// The sovereignty agreements in registration order.
    pub closed spec fn agreements(&self) -> Seq<SovereigntyAgreement> {
        self.sovereignty_agreements@
    }

    /// Empty governance: no domains, policies, routes or agreements.
    pub fn new() -> (r: Self)
        ensures
            r.domains().len() == 0,
            r.policies().len() == 0,
            r.routes().len() == 0,
            r.agreements().len() == 0,
    {
        FederationGovernance {
            domain_registry: KeyedStore::new(),
            boundary_policies: Vec::new(),
            cross_domain_routes: Vec::new(),
            sovereignty_agreements: Vec::new(),
        }
    }

    /// Registers `domain` under its id, replacing a domain registered under the same id.
    pub fn register_domain(&mut self, domain: FederatedDomain)
        ensures
            final(self).domains() == stored(old(self).domains(), domain.domain_id, domain),
            lookup(final(self).domains(), domain.domain_id@) == Some(domain),
            forall|k: Seq<char>| k != domain.domain_id@ ==> #[trigger] lookup(final(self).domains(), k) == lookup(old(self).domains(), k),
            final(self).domains().len() == old(self).domains().len()
                + if lookup(old(self).domains(), domain.domain_id@) is Some { 0int } else { 1int },
            final(self).policies() == old(self).policies(),
            final(self).routes() == old(self).routes(),
            final(self).agreements() == old(self).agreements(),
    {
        let id = domain.domain_id.clone();
        let ghost dg = domain;
        let ghost before = self.domain_registry.entries();
        self.domain_registry.insert(id, domain);
        proof {
            lemma_lookup_after_store(before, dg.domain_id, dg, dg.domain_id@);
            assert forall|k: Seq<char>| k != dg.domain_id@ implies #[trigger] lookup(self.domains(), k) == lookup(before, k) by {
                lemma_lookup_after_store(before, dg.domain_id, dg, k);
            }
        }
    }

    /// Adds a boundary policy.
    pub fn register_boundary_policy(&mut self, policy: BoundaryPolicy)
        ensures
            final(self).policies() == old(self).policies().push(policy),
            final(self).domains() == old(self).domains(),
            final(self).routes() == old(self).routes(),
            final(self).agreements() == old(self).agreements(),
    {
        self.boundary_policies.push(policy);
    }

    /// Adds a cross-domain route.
    pub fn register_route(&mut self, route: CrossDomainRoute)
        ensures
            final(self).routes() == old(self).routes().push(route),
            final(self).domains() == old(self).domains(),
            final(self).policies() == old(self).policies(),
            final(self).agreements() == old(self).agreements(),
    {
        self.cross_domain_routes.push(route);
    }

    /// Adds a sovereignty agreement.
    pub fn register_agreement(&mut self, agreement: SovereigntyAgreement)
        ensures
            final(self).agreements() == old(self).agreements().push(agreement),
            final(self).domains() == old(self).domains(),
            final(self).policies() == old(self).policies(),
            final(self).routes() == old(self).routes(),
    {
        self.sovereignty_agreements.push(agreement);
    }

    /// What `check_boundary` answers for these arguments.
    pub open spec fn boundary_outcome(&self, source: Seq<char>, target: Seq<char>, r: PolicyEvalResult) -> bool {
        match lookup(self.domains(), source) {
            None => r matches PolicyEvalResult::Violation(v) && violation_is(
                v,
                "FederationBoundary"@,
                PolicySeverity::Critical,
                "Source domain '"@ + source + "' not registered in federation governance"@,
                seq![("source"@, source)],
                seq!["Register domain '"@ + source + "' in federation governance"@],
            ),
            Some(d) => if lists(d.restricted_interactions@, target) {
                r matches PolicyEvalResult::Violation(v) && violation_is(
                    v,
                    "FederationBoundary"@,
                    PolicySeverity::Error,
                    "Domain '"@ + source + "' is restricted from interacting with '"@ + target + "'"@,
                    seq![("source"@, source), ("target"@, target)],
                    seq!["Review and update restricted interactions list"@,
                         "Establish sovereignty agreement between domains"@],
                )
            } else {
                r is Pass
            },
        }
    }

    /// Checks that `source` is registered and is not restricted from interacting with `target`.
    pub fn check_boundary(&self, source: &str, target: &str) -> (r: PolicyEvalResult)
        ensures
            self.boundary_outcome(source@, target@, r),

    {
        match self.domain_registry.get(source) {
            None => {
                let mut context: Vec<(String, String)> = Vec::new();
                context.push((owned("source"), owned(source)));
                let mut remediations: Vec<String> = Vec::new();
                remediations.push(cat3("Register domain '", source, "' in federation governance"));
                let v = GovernanceViolation {
                    policy_id: 0,
                    policy_name: owned("FederationBoundary"),
                    severity: PolicySeverity::Critical,
                    message: cat3("Source domain '", source, "' not registered in federation governance"),
                    context,
                    remediations,
                };
                proof {
                    assert(strs_view(v.remediations@) =~= seq!["Register domain '"@ + source@ + "' in federation governance"@]);
                    assert(pairs_view(v.context@) =~= seq![("source"@, source@)]);
                }
                PolicyEvalResult::Violation(v)
            },
            Some(d) => {
                if list_contains(&d.restricted_interactions, target) {
                    let mut context: Vec<(String, String)> = Vec::new();
                    context.push((owned("source"), owned(source)));
                    context.push((owned("target"), owned(target)));
                    let mut remediations: Vec<String> = Vec::new();
                    remediations.push(owned("Review and update restricted interactions list"));
                    remediations.push(owned("Establish sovereignty agreement between domains"));
                    let v = GovernanceViolation {
                        policy_id: 0,
                        policy_name: owned("FederationBoundary"),
                        severity: PolicySeverity::Error,
                        message: cat5("Domain '", source, "' is restricted from interacting with '", target, "'"),
                        context,
                        remediations,
                    };
                    proof {
                        assert(strs_view(v.remediations@) =~= seq!["Review and update restricted interactions list"@,
                             "Establish sovereignty agreement between domains"@]);
                        assert(pairs_view(v.context@) =~= seq![("source"@, source@), ("target"@, target@)]);
                    }
                    PolicyEvalResult::Violation(v)
                } else {
                    PolicyEvalResult::Pass
                }
            },
        }
    }

    /// Checks whether `event_type` may be routed from `source` to `target`: the first
    /// policy for that pair decides; with no such policy the answer is a warning.
    pub fn validate_event_routing(&self, event_type: &str, source: &str, target: &str) -> (r: PolicyEvalResult)
        ensures
            match r {
                PolicyEvalResult::Pass => exists|i: int| first_governing(self.policies(), i, source@, target@)
                    && !lists(self.policies()[i].forbidden_event_types@, event_type@),
                PolicyEvalResult::Violation(v) => (exists|i: int| first_governing(self.policies(), i, source@, target@)
                    && lists(self.policies()[i].forbidden_event_types@, event_type@))
                    && violation_is(
                        v,
                        "FederationBoundary"@,
                        PolicySeverity::Error,
                        "Event type '"@ + event_type@ + "' is forbidden from '"@ + source@ + "' to '"@ + target@ + "'"@,
                        seq![("event_type"@, event_type@), ("source"@, source@), ("target"@, target@)],
                        seq!["Remove event type from routing policy"@, "Update boundary policy to allow event type"@],
                    ),
                PolicyEvalResult::Warning(w) => (forall|i: int| 0 <= i < self.policies().len()
                    ==> !policy_governs(#[trigger] self.policies()[i], source@, target@))
                    && w@ == "No boundary policy defined for routing from '"@ + source@ + "' to '"@ + target@ + "'"@,
            },
    {
        let n = self.boundary_policies.len();
        for i in 0..n
            invariant
                n == self.boundary_policies@.len(),
                forall|j: int| 0 <= j < i ==> !policy_governs(#[trigger] self.boundary_policies@[j], source@, target@),
        {
            let policy = &self.boundary_policies[i];
            if str_eq(policy.source_domain.as_str(), source) && str_eq(policy.target_domain.as_str(), target) {
                assert(first_governing(self.policies(), i as int, source@, target@));
                if list_contains(&policy.forbidden_event_types, event_type) {
                    let mut context: Vec<(String, String)> = Vec::new();
                    context.push((owned("event_type"), owned(event_type)));
                    context.push((owned("source"), owned(source)));
                    context.push((owned("target"), owned(target)));
                    let mut remediations: Vec<String> = Vec::new();
                    remediations.push(owned("Remove event type from routing policy"));
                    remediations.push(owned("Update boundary policy to allow event type"));
                    let v = GovernanceViolation {
                        policy_id: 0,
                        policy_name: owned("FederationBoundary"),
                        severity: PolicySeverity::Error,
                        message: cat7("Event type '", event_type, "' is forbidden from '", source, "' to '", target, "'"),
                        context,
                        remediations,
                    };
                    proof {
                        assert(strs_view(v.remediations@) =~= seq!["Remove event type from routing policy"@,
                            "Update boundary policy to allow event type"@]);
                        assert(pairs_view(v.context@) =~= seq![("event_type"@, event_type@), ("source"@, source@), ("target"@, target@)]);
                    }
                    return PolicyEvalResult::Violation(v);
                }
                return PolicyEvalResult::Pass;
            }
        }
        PolicyEvalResult::Warning(cat5("No boundary policy defined for routing from '", source, "' to '", target, "'"))
    }

    /// Reports on the boundaries of domain `domain_id`: the enabled routes leaving it, and
    /// every policy touching it that names an unregistered domain.
    pub fn analyze_boundaries(&self, domain_id: &str) -> (r: FederationBoundaryReport)
        ensures
            r.domain@ == domain_id@,
            r.total_boundaries == self.policies().len(),
            strs_view(r.violations@) == boundary_findings(self.policies(), self.domains(), domain_id@),
            r.active_routes == count_active_from(self.routes(), domain_id@),
            r.sovereignty_agreements == self.agreements().len(),
            r.compliant == (boundary_findings(self.policies(), self.domains(), domain_id@).len() == 0),
    {
        let mut active_routes: usize = 0;
        let nr = self.cross_domain_routes.len();
        for i in 0..nr
            invariant
                nr == self.cross_domain_routes@.len(),
                active_routes == count_active_from(self.cross_domain_routes@.take(i as int), domain_id@),
                active_routes <= i,
        {
            let route = &self.cross_domain_routes[i];
            assert(self.cross_domain_routes@.take(i + 1).drop_last() =~= self.cross_domain_routes@.take(i as int));
            if str_eq(route.source_domain.as_str(), domain_id) && route.enabled {
                active_routes = active_routes + 1;
            }
        }
        assert(self.cross_domain_routes@.take(nr as int) =~= self.cross_domain_routes@);

        let mut violations: Vec<String> = Vec::new();
        let np = self.boundary_policies.len();
        for i in 0..np
            invariant
                np == self.boundary_policies@.len(),
                strs_view(violations@) == boundary_findings(self.boundary_policies@.take(i as int), self.domain_registry.entries(), domain_id@),
        {
            let policy = &self.boundary_policies[i];
            let ghost before = violations@;
            assert(self.boundary_policies@.take(i + 1).drop_last() =~= self.boundary_policies@.take(i as int));
            if str_eq(policy.source_domain.as_str(), domain_id) || str_eq(policy.target_domain.as_str(), domain_id) {
                let target_exists = self.domain_registry.contains_key(policy.target_domain.as_str());
                let source_exists = self.domain_registry.contains_key(policy.source_domain.as_str());
                if !target_exists {
                    violations.push(cat3("Boundary policy references non-existent domain '", policy.target_domain.as_str(), "'"));
                }
                if !source_exists {
                    violations.push(cat3("Boundary policy references non-existent source domain '", policy.source_domain.as_str(), "'"));
                }
            }
            assert(strs_view(violations@) =~= strs_view(before) + policy_findings(self.boundary_policies@[i as int], self.domain_registry.entries(), domain_id@));
        }
        assert(self.boundary_policies@.take(np as int) =~= self.boundary_policies@);
        let compliant = violations.len() == 0;
        FederationBoundaryReport {
            domain: owned(domain_id),
            total_boundaries: self.boundary_policies.len(),
            violations,
            active_routes,
            sovereignty_agreements: self.sovereignty_agreements.len(),
            compliant,
        }
    }

    /// The domain registered under `domain_id`.
    pub fn get_domain(&self, domain_id: &str) -> (r: Option<&FederatedDomain>)
        ensures
            match r {
                Some(d) => lookup(self.domains(), domain_id@) == Some(*d),
                None => lookup(self.domains(), domain_id@) is None,
            },
    {
        self.domain_registry.get(domain_id)
    }

    /// All registered domains.
    pub fn list_domains(&self) -> (r: Vec<&FederatedDomain>)
        ensures
            derefs(r@) == values_of(self.domains()),
    {
        self.domain_registry.values()
    }

    /// The enabled routes, in registration order.
    pub fn list_active_routes(&self) -> (r: Vec<&CrossDomainRoute>)
        ensures
            derefs(r@) == enabled_routes(self.routes()),
    {
        let mut r: Vec<&CrossDomainRoute> = Vec::new();
        let n = self.cross_domain_routes.len();
        for i in 0..n
            invariant
                n == self.cross_domain_routes@.len(),
                derefs(r@) == enabled_routes(self.cross_domain_routes@.take(i as int)),
        {
            assert(self.cross_domain_routes@.take(i + 1).drop_last() =~= self.cross_domain_routes@.take(i as int));
            let route = &self.cross_domain_routes[i];
            if route.enabled {
                r.push(route);
            }
            assert(derefs(r@) =~= enabled_routes(self.cross_domain_routes@.take(i + 1)));
        }
        assert(self.cross_domain_routes@.take(n as int) =~= self.cross_domain_routes@);
        r
    }
}

impl Default for FederationGovernance {
    /// The same as `FederationGovernance::new()`.
    fn default() -> (r: Self)
        ensures
            r.domains().len() == 0,
            r.policies().len() == 0,
            r.routes().len() == 0,
            r.agreements().len() == 0,
    {
        Self::new()
    }
}

} // verus!
