//! Deployment governance: components, environments, deployment policies, tag policies
//! and the release history.
use vstd::prelude::*;
use crate::governance::{GovernanceViolation, PolicyEvalResult, PolicySeverity, violation_is};
use crate::store::{KeyedStore, lookup, stored, derefs};
use crate::text::{cat2, cat4, cat5, owned, str_eq, list_contains, lists, strs_view};

verus! {

/// A deployable component.
#[derive(Debug, Clone)]
pub struct DeploymentComponent {
    pub component_id: String,
    pub name: String,
    pub component_type: ComponentType,
    pub owner: String,
    pub allowed_environments: Vec<String>,
    pub required_tags: Vec<String>,
    pub dependencies: Vec<String>,
    pub security_scan_required: bool,
    pub sbom_required: bool,
    pub signing_required: bool,
}

/// The kinds of components.
#[derive(Debug, Clone, Copy, PartialEq, Eq, Structural)]
pub enum ComponentType {
    SyncEngine,
    IdentityService,
    FederationService,
    PolicyEngine,
    AuthService,
    TrustService,
    CertificateService,
    EdgeRuntime,
    ControlPlane,
    Governance,
}

/// An environment components are deployed to.
#[derive(Debug, Clone)]
pub struct DeploymentEnvironment {
    pub environment_id: String,
    pub name: String,
    pub tier: EnvironmentTier,
    pub region: String,
    pub allowed_components: Vec<String>,
    pub requires_approval: bool,
    pub requires_audit: bool,
    pub max_concurrent_deployments: usize,
}

/// The tiers of environments.
#[derive(Debug, Clone, Copy, PartialEq, Eq, Structural)]
pub enum EnvironmentTier {
    Development,
    Staging,
    Regional,
    National,
    Sovereign,
}

/// What a deployment must satisfy.
#[derive(Debug, Clone)]
pub struct DeploymentPolicy {
    pub policy_id: String,
    pub name: String,
    pub require_signature_verification: bool,
    pub require_sbom: bool,
    pub require_security_scan: bool,
    pub require_governance_approval: bool,
    pub require_replay_safety_check: bool,
    pub require_schema_validation: bool,
    pub max_rollout_percentage: u8,
    pub cooldown_minutes: u64,
}

/// A release of a component to an environment.
#[derive(Debug, Clone)]
pub struct ReleaseRecord {
    pub release_id: u128,
    pub component_id: String,
    pub version: String,
    pub environment: String,
    /// Milliseconds since the Unix epoch.
    pub deployed_at: i64,
    pub deployed_by: String,
    pub status: ReleaseStatus,
    pub artifact_hash: Vec<u8>,
    pub approval: Option<String>,
}

/// Where a release stands.
#[derive(Debug, Clone, Copy, PartialEq, Eq, Structural)]
pub enum ReleaseStatus {
    Pending,
    Approved,
    Deploying,
    Deployed,
    RolledBack,
    Failed,
}

/// Which components a tag is required on or forbidden for.
#[derive(Debug, Clone)]
pub struct TagPolicy {
    pub tag_name: String,
    pub required_components: Vec<String>,
    pub forbidden_components: Vec<String>,
    pub min_version: Option<String>,
}

/// The checks and violations of one deployment.
#[derive(Debug)]
pub struct DeploymentValidationReport {
    pub component: String,
    pub environment: String,
    pub valid: bool,
    pub policy_checks: Vec<PolicyCheckResult>,
    pub violations: Vec<String>,
}

/// One check of a deployment.
#[derive(Debug)]
pub struct PolicyCheckResult {
    pub check_name: String,
    pub passed: bool,
    pub message: String,
}

/// Governance for deployment policies, infrastructure validation and topology.
pub struct DeploymentGovernance {
    component_registry: KeyedStore<DeploymentComponent>,
    environment_registry: KeyedStore<DeploymentEnvironment>,
    deployment_policies: Vec<DeploymentPolicy>,
    release_history: Vec<ReleaseRecord>,
    tag_policies: Vec<TagPolicy>,
}

/// The view of a check: its name, outcome and message.
pub open spec fn check_view(c: PolicyCheckResult) -> (Seq<char>, bool, Seq<char>) {
    (c.check_name@, c.passed, c.message@)
}

/// The views of a list of checks.
pub open spec fn checks_view(v: Seq<PolicyCheckResult>) -> Seq<(Seq<char>, bool, Seq<char>)> {
    v.map_values(|c: PolicyCheckResult| check_view(c))
}

/// The check and violations of the environment's allowed components, when both the
/// component and the environment are registered.
pub open spec fn environment_findings(comp: Option<DeploymentComponent>, env: Option<DeploymentEnvironment>)
    -> (Seq<(Seq<char>, bool, Seq<char>)>, Seq<Seq<char>>)
{
    match (comp, env) {
        (Some(c), Some(e)) => {
            let allowed = e.allowed_components@.len() == 0 || lists(e.allowed_components@, c.name@);
            (seq![("Environment allowed components"@, allowed, if allowed {
                "Component '"@ + c.name@ + "' allowed in environment '"@ + e.name@ + "'"@
            } else {
                "Component '"@ + c.name@ + "' not allowed in environment '"@ + e.name@ + "'"@
            })], if allowed { Seq::empty() } else {
                seq!["Component '"@ + c.name@ + "' not in allowed list for environment '"@ + e.name@ + "'"@]
            })
        },
        _ => (Seq::empty(), Seq::empty()),
    }
}

/// The checks and violations of one policy on a component (an unregistered component
/// satisfies no requirement): its SBOM, security scan and signing requirements, in that
/// order, each when the policy requires it.
pub open spec fn policy_findings(p: DeploymentPolicy, comp: Option<DeploymentComponent>)
    -> (Seq<(Seq<char>, bool, Seq<char>)>, Seq<Seq<char>>)
{
    let sbom = match comp { Some(c) => c.sbom_required, None => false };
    let scanned = match comp { Some(c) => c.security_scan_required, None => false };
    let signed = match comp { Some(c) => c.signing_required, None => false };
    let c1: Seq<(Seq<char>, bool, Seq<char>)> = if p.require_sbom {
        seq![("SBOM requirement"@, sbom, if sbom { "SBOM present"@ } else { "SBOM missing"@ })] } else { Seq::empty() };
    let v1: Seq<Seq<char>> = if p.require_sbom && !sbom { seq!["SBOM is required but not present"@] } else { Seq::empty() };
    let c2: Seq<(Seq<char>, bool, Seq<char>)> = if p.require_security_scan {
        seq![("Security scan"@, scanned, if scanned { "Security scan passed"@ } else { "Security scan required"@ })] } else { Seq::empty() };
    let v2: Seq<Seq<char>> = if p.require_security_scan && !scanned { seq!["Security scan is required but was not performed"@] } else { Seq::empty() };
    let c3: Seq<(Seq<char>, bool, Seq<char>)> = if p.require_signature_verification {
        seq![("Signature verification"@, signed, if signed { "Artifact signed"@ } else { "Artifact not signed"@ })] } else { Seq::empty() };
    let v3: Seq<Seq<char>> = if p.require_signature_verification && !signed { seq!["Artifact signing is required"@] } else { Seq::empty() };
    (c1 + c2 + c3, v1 + v2 + v3)
}

/// The checks and violations of the first `n` policies, in order.
pub open spec fn policies_findings(ps: Seq<DeploymentPolicy>, comp: Option<DeploymentComponent>, n: int)
    -> (Seq<(Seq<char>, bool, Seq<char>)>, Seq<Seq<char>>)
    decreases n,
{
    if n <= 0 {
        (Seq::empty(), Seq::empty())
    } else {
        let prev = policies_findings(ps, comp, n - 1);
        let f = policy_findings(ps[n - 1], comp);
        (prev.0 + f.0, prev.1 + f.1)
    }
}

/// The releases among the first `n` deployed to `environment`, in order.
pub open spec fn releases_in(rs: Seq<ReleaseRecord>, environment: Seq<char>, n: int) -> Seq<ReleaseRecord>
    decreases n,
{
    if n <= 0 {
        Seq::empty()
    } else if rs[n - 1].environment@ == environment {
        releases_in(rs, environment, n - 1).push(rs[n - 1])
    } else {
        releases_in(rs, environment, n - 1)
    }
}

/// The first tag policy for `tag` among the first `n`, if any.
pub open spec fn first_tag_policy(ps: Seq<TagPolicy>, tag: Seq<char>, n: int) -> Option<int>
    decreases n,
{
    if n <= 0 {
        None
    } else {
        match first_tag_policy(ps, tag, n - 1) {
            Some(i) => Some(i),
            None => if ps[n - 1].tag_name@ == tag { Some(n - 1) } else { None },
        }
    }
}

proof fn lemma_first_tag_policy_stable(ps: Seq<TagPolicy>, tag: Seq<char>, k: int, n: int)
    requires
        0 <= k <= n,
        first_tag_policy(ps, tag, k) is Some,
    ensures
        first_tag_policy(ps, tag, n) == first_tag_policy(ps, tag, k),
    decreases n - k,
{
    if n > k {
        lemma_first_tag_policy_stable(ps, tag, k, n - 1);
    }
}

fn check(name: &str, passed: bool, message: &str) -> (r: PolicyCheckResult)
    ensures
        check_view(r) == (name@, passed, message@),
{
    PolicyCheckResult { check_name: owned(name), passed, message: owned(message) }
}

impl DeploymentGovernance {
    /// The registered components by identifier.
    pub closed spec fn components(&self) -> Seq<(String, DeploymentComponent)> {
        self.component_registry.entries()
    }

    /// The registered environments by identifier.
    pub closed spec fn environments(&self) -> Seq<(String, DeploymentEnvironment)> {
        self.environment_registry.entries()
    }

    /// The deployment policies, in registration order.
    pub closed spec fn policies(&self) -> Seq<DeploymentPolicy> {
        self.deployment_policies@
    }

    /// The releases, in the order recorded.
    pub closed spec fn releases(&self) -> Seq<ReleaseRecord> {
        self.release_history@
    }

    /// The tag policies.
    pub closed spec fn tags(&self) -> Seq<TagPolicy> {
        self.tag_policies@
    }

    /// Empty governance.
    pub fn new() -> (r: Self)
        ensures
            r.components().len() == 0,
            r.environments().len() == 0,
            r.policies().len() == 0,
            r.releases().len() == 0,
            r.tags().len() == 0,
    {
        DeploymentGovernance {
            component_registry: KeyedStore::new(),
            environment_registry: KeyedStore::new(),
            deployment_policies: Vec::new(),
            release_history: Vec::new(),
            tag_policies: Vec::new(),
        }
    }

    /// Registers `component` under its identifier, replacing an earlier one.
    pub fn register_component(&mut self, component: DeploymentComponent)
        ensures
            final(self).components() == stored(old(self).components(), component.component_id, component),
            final(self).environments() == old(self).environments(),
            final(self).policies() == old(self).policies(),
            final(self).releases() == old(self).releases(),
            final(self).tags() == old(self).tags(),
    {
        let id = component.component_id.clone();
        self.component_registry.insert(id, component);
    }

    /// Registers `env` under its identifier, replacing an earlier one.
    pub fn register_environment(&mut self, env: DeploymentEnvironment)
        ensures
            final(self).environments() == stored(old(self).environments(), env.environment_id, env),
            final(self).components() == old(self).components(),
            final(self).policies() == old(self).policies(),
            final(self).releases() == old(self).releases(),
            final(self).tags() == old(self).tags(),
    {
        let id = env.environment_id.clone();
        self.environment_registry.insert(id, env);
    }

    /// Adds a deployment policy.
    pub fn register_policy(&mut self, policy: DeploymentPolicy)
        ensures
            final(self).policies() == old(self).policies().push(policy),
            final(self).components() == old(self).components(),
            final(self).environments() == old(self).environments(),
            final(self).releases() == old(self).releases(),
            final(self).tags() == old(self).tags(),
    {
        self.deployment_policies.push(policy);
    }

    /// Records a release.
    pub fn record_release(&mut self, release: ReleaseRecord)
        ensures
            final(self).releases() == old(self).releases().push(release),
            final(self).components() == old(self).components(),
            final(self).environments() == old(self).environments(),
            final(self).policies() == old(self).policies(),
            final(self).tags() == old(self).tags(),
    {
        self.release_history.push(release);
    }

    /// What `validate_tag` answers for these arguments.
    pub open spec fn tag_outcome(&self, component: Seq<char>, tag: Seq<char>, r: PolicyEvalResult) -> bool {
        match first_tag_policy(self.tags(), tag, self.tags().len() as int) {
            Some(i) => if lists(self.tags()[i].forbidden_components@, component) {
                r matches PolicyEvalResult::Violation(v) && violation_is(v, "DeploymentTag"@, PolicySeverity::Error,
                    "Component '"@ + component + "' is forbidden from using tag '"@ + tag + "'"@,
                    seq![("component"@, component), ("tag"@, tag)],
                    seq!["Remove tag '"@ + tag + "' from component '"@ + component + "'"@,
                        "Update tag policy to allow this component"@])
            } else {
                r is Pass
            },
            None => r is Pass,
        }
    }

    /// Whether `component` may carry `tag`: the first tag policy for the tag decides; a
    /// component it forbids is a violation. Without such a policy the tag passes.
    pub fn validate_tag(&self, component: &str, tag: &str) -> (r: PolicyEvalResult)
        ensures
            self.tag_outcome(component@, tag@, r),

    {
        let n = self.tag_policies.len();
        let mut k: usize = 0;
        while k < n
            invariant
                n == self.tag_policies@.len(),
                k <= n,
                first_tag_policy(self.tag_policies@, tag@, k as int) is None,
            decreases n - k,
        {
            let tp = &self.tag_policies[k];
            if str_eq(tp.tag_name.as_str(), tag) {
                proof {
                    lemma_first_tag_policy_stable(self.tag_policies@, tag@, k + 1, n as int);
                }
                if list_contains(&tp.forbidden_components, component) {
                    let mut context: Vec<(String, String)> = Vec::new();
                    context.push((owned("component"), owned(component)));
                    context.push((owned("tag"), owned(tag)));
                    let mut remediations: Vec<String> = Vec::new();
                    remediations.push(cat5("Remove tag '", tag, "' from component '", component, "'"));
                    remediations.push(owned("Update tag policy to allow this component"));
                    let v = GovernanceViolation {
                        policy_id: 0,
                        policy_name: owned("DeploymentTag"),
                        severity: PolicySeverity::Error,
                        message: cat5("Component '", component, "' is forbidden from using tag '", tag, "'"),
                        context,
                        remediations,
                    };
                    assert(crate::text::pairs_view(v.context@) =~= seq![("component"@, component@), ("tag"@, tag@)]);
                    assert(strs_view(v.remediations@) =~= seq!["Remove tag '"@ + tag@ + "' from component '"@ + component@ + "'"@,
                        "Update tag policy to allow this component"@]);
                    return PolicyEvalResult::Violation(v);
                }
                return PolicyEvalResult::Pass;
            }
            k = k + 1;
        }
        PolicyEvalResult::Pass
    }

    /// Validates deploying `component_id` to `environment_id`: the environment's list of
    /// allowed components when both are registered, then each policy's requirements in
    /// order (see `environment_findings` and `policy_findings`). The deployment is valid
    /// when nothing is violated.
    pub fn validate_deployment(&self, component_id: &str, environment_id: &str, version: &str) -> (r: DeploymentValidationReport)
        ensures
            ({
                let comp = lookup(self.components(), component_id@);
                let env = lookup(self.environments(), environment_id@);
                let ef = environment_findings(comp, env);
                let pf = policies_findings(self.policies(), comp, self.policies().len() as int);
                &&& r.component@ == component_id@
                &&& r.environment@ == environment_id@
                &&& checks_view(r.policy_checks@) == ef.0 + pf.0
                &&& strs_view(r.violations@) == ef.1 + pf.1
                &&& r.valid == (r.violations@.len() == 0)
            }),
    {
        let mut violations: Vec<String> = Vec::new();
        let mut checks: Vec<PolicyCheckResult> = Vec::new();
        let component = self.component_registry.get(component_id);
        let environment = self.environment_registry.get(environment_id);
        let ghost comp = lookup(self.components(), component_id@);
        let ghost env = lookup(self.environments(), environment_id@);
        match (component, environment) {
            (Some(c), Some(e)) => {
                let allowed = e.allowed_components.len() == 0 || list_contains(&e.allowed_components, c.name.as_str());
                if allowed {
                    checks.push(check("Environment allowed components", true,
                        cat5("Component '", c.name.as_str(), "' allowed in environment '", e.name.as_str(), "'").as_str()));
                } else {
                    checks.push(check("Environment allowed components", false,
                        cat5("Component '", c.name.as_str(), "' not allowed in environment '", e.name.as_str(), "'").as_str()));
                    violations.push(cat5("Component '", c.name.as_str(), "' not in allowed list for environment '", e.name.as_str(), "'"));
                }
            },
            _ => {},
        }
        let ghost ef = environment_findings(comp, env);
        assert(checks_view(checks@) =~= ef.0);
        assert(strs_view(violations@) =~= ef.1);
        let sbom = match component { Some(c) => c.sbom_required, None => false };
        let scanned = match component { Some(c) => c.security_scan_required, None => false };
        let signed = match component { Some(c) => c.signing_required, None => false };
        let n = self.deployment_policies.len();
        for i in 0..n
            invariant
                n == self.deployment_policies@.len(),
                sbom == (match comp { Some(c) => c.sbom_required, None => false }),
                scanned == (match comp { Some(c) => c.security_scan_required, None => false }),
                signed == (match comp { Some(c) => c.signing_required, None => false }),
                checks_view(checks@) == ef.0 + policies_findings(self.deployment_policies@, comp, i as int).0,
                strs_view(violations@) == ef.1 + policies_findings(self.deployment_policies@, comp, i as int).1,
        {
            let policy = &self.deployment_policies[i];
            let ghost c0 = checks_view(checks@);
            let ghost v0 = strs_view(violations@);
            if policy.require_sbom {
                checks.push(check("SBOM requirement", sbom, if sbom { "SBOM present" } else { "SBOM missing" }));
                if !sbom {
                    violations.push(owned("SBOM is required but not present"));
                }
            }
            if policy.require_security_scan {
                checks.push(check("Security scan", scanned, if scanned { "Security scan passed" } else { "Security scan required" }));
                if !scanned {
                    violations.push(owned("Security scan is required but was not performed"));
                }
            }
            if policy.require_signature_verification {
                checks.push(check("Signature verification", signed, if signed { "Artifact signed" } else { "Artifact not signed" }));
                if !signed {
                    violations.push(owned("Artifact signing is required"));
                }
            }
            let ghost f = policy_findings(self.deployment_policies@[i as int], comp);
            assert(checks_view(checks@) =~= c0 + f.0);
            assert(strs_view(violations@) =~= v0 + f.1);
            assert(checks_view(checks@) =~= ef.0 + policies_findings(self.deployment_policies@, comp, i + 1).0);
            assert(strs_view(violations@) =~= ef.1 + policies_findings(self.deployment_policies@, comp, i + 1).1);
        }
        let valid = violations.len() == 0;
        DeploymentValidationReport {
            component: owned(component_id),
            environment: owned(environment_id),
            valid,
            policy_checks: checks,
            violations,
        }
    }

    /// The component registered under `component_id`.
    pub fn get_component(&self, component_id: &str) -> (r: Option<&DeploymentComponent>)
        ensures
            match r {
                Some(c) => lookup(self.components(), component_id@) == Some(*c),
                None => lookup(self.components(), component_id@) is None,
            },
    {
        self.component_registry.get(component_id)
    }

    /// The environment registered under `environment_id`.
    pub fn get_environment(&self, environment_id: &str) -> (r: Option<&DeploymentEnvironment>)
        ensures
            match r {
                Some(e) => lookup(self.environments(), environment_id@) == Some(*e),
                None => lookup(self.environments(), environment_id@) is None,
            },
    {
        self.environment_registry.get(environment_id)
    }

    /// The releases, in the order recorded.
    pub fn get_release_history(&self) -> (r: &[ReleaseRecord])
        ensures
            r@ == self.releases(),
    {
        self.release_history.as_slice()
    }

    /// The releases deployed to `environment_id`, in the order recorded.
    pub fn get_deployments_in_environment(&self, environment_id: &str) -> (r: Vec<&ReleaseRecord>)
        ensures
            derefs(r@) == releases_in(self.releases(), environment_id@, self.releases().len() as int),
    {
        let mut r: Vec<&ReleaseRecord> = Vec::new();
        let n = self.release_history.len();
        for i in 0..n
            invariant
                n == self.release_history@.len(),
                derefs(r@) == releases_in(self.release_history@, environment_id@, i as int),
        {
            let rec = &self.release_history[i];
            let ghost before = derefs(r@);
            if str_eq(rec.environment.as_str(), environment_id) {
                r.push(rec);
                assert(derefs(r@) =~= before.push(*rec));
            }
        }
        r
    }
}

impl Default for DeploymentGovernance {
    /// The same as `DeploymentGovernance::new()`.
    fn default() -> (r: Self)
        ensures
            r.components().len() == 0,
            r.environments().len() == 0,
            r.policies().len() == 0,
            r.releases().len() == 0,
            r.tags().len() == 0,
    {
        Self::new()
    }
}

} // verus!
