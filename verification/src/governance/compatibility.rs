//! Compatibility analysis of schema transforms, for evolution, replay safety and
//! federation negotiation.
use vstd::prelude::*;
use crate::text::{cat3, cat5, owned, str_eq, strs_view, lists, list_contains, slice_lists};

verus! {

/// A known transform from one schema to another. `high_corruption_risk` says whether its
/// risk of corrupting existing events exceeds one half.
#[derive(Debug, Clone)]
pub struct SchemaTransform {
    pub from_schema: String,
    pub to_schema: String,
    pub transform_type: TransformType,
    pub backward_compatible: bool,
    pub forward_compatible: bool,
    pub replay_safe: bool,
    pub high_corruption_risk: bool,
}

/// The kinds of schema transforms.
#[derive(Debug, Clone, Copy, PartialEq, Eq, Structural)]
pub enum TransformType {
    AddField,
    RemoveField,
    RenameField,
    ChangeType,
    MakeOptional,
    MakeRequired,
    Restructure,
    Split,
    Merge,
}

/// A rule on what schema changes are allowed.
#[derive(Debug, Clone)]
pub struct CompatibilityRule {
    pub rule_name: String,
    pub allow_removal: bool,
    pub allow_type_change: bool,
    pub allow_rename: bool,
    pub max_field_number_collisions: usize,
    pub require_reserved_numbers: bool,
    pub require_field_preservation: Vec<String>,
}

/// The compatibility of moving from one schema to another.
#[derive(Debug)]
pub struct CompatibilityReport {
    pub from_schema: String,
    pub to_schema: String,
    pub backward_compatible: bool,
    pub forward_compatible: bool,
    pub replay_compatible: bool,
    pub breaking_changes: Vec<BreakingChange>,
    pub warnings: Vec<String>,
    pub recommendation: MigrationRecommendation,
}

/// A change that breaks compatibility.
#[derive(Debug)]
pub struct BreakingChange {
    pub change_type: TransformType,
    pub field: String,
    pub impact: ImpactLevel,
    pub description: String,
    pub mitigation: Option<String>,
}

/// How much a breaking change affects.
#[derive(Debug, Clone, Copy, PartialEq, Eq, Structural)]
pub enum ImpactLevel {
    Low,
    Medium,
    High,
    Critical,
}

/// What a schema change needs before it can be deployed.
#[derive(Debug, Clone, Copy, PartialEq, Eq, Structural)]
pub enum MigrationRecommendation {
    Safe,
    RequiresMigration,
    RequiresCoordinatedDeployment,
    RequiresFederationNegotiation,
    Blocked,
}

/// The schema sets of two federation sides compared.
#[derive(Debug)]
pub struct FederationCompatibilityReport {
    pub local_schemas: usize,
    pub remote_schemas: usize,
    pub intersection: usize,
    pub incompatibilities: Vec<String>,
    pub compatible: bool,
}

/// Compatibility analysis for schema evolution, replay safety and federation negotiation.
pub struct CompatibilityValidator {
    known_transforms: Vec<SchemaTransform>,
    compatibility_rules: Vec<CompatibilityRule>,
}

/// The transform goes from `from` to `to`.
pub open spec fn transform_matches(t: SchemaTransform, from: Seq<char>, to: Seq<char>) -> bool {
    t.from_schema@ == from && t.to_schema@ == to
}

/// The known transforms among the first `n` that go from `from` to `to`, in order.
pub open spec fn matching(ts: Seq<SchemaTransform>, from: Seq<char>, to: Seq<char>, n: int) -> Seq<SchemaTransform>
    decreases n,
{
    if n <= 0 {
        Seq::empty()
    } else if transform_matches(ts[n - 1], from, to) {
        matching(ts, from, to, n - 1).push(ts[n - 1])
    } else {
        matching(ts, from, to, n - 1)
    }
}

/// The view of a breaking change: kind, field, impact, description and mitigation.
pub open spec fn change_view(c: BreakingChange) -> (TransformType, Seq<char>, ImpactLevel, Seq<char>, Option<Seq<char>>) {
    (c.change_type, c.field@, c.impact, c.description@, match c.mitigation { Some(m) => Some(m@), None => None })
}

/// The views of breaking changes.
pub open spec fn changes_view(v: Seq<BreakingChange>) -> Seq<(TransformType, Seq<char>, ImpactLevel, Seq<char>, Option<Seq<char>>)> {
    v.map_values(|c: BreakingChange| change_view(c))
}

/// The recommendation for a change with the given compatibilities.
pub open spec fn recommendation_for(backward: bool, replay: bool) -> MigrationRecommendation {
    if backward && replay {
        MigrationRecommendation::Safe
    } else if !backward {
        MigrationRecommendation::Blocked
    } else {
        MigrationRecommendation::RequiresMigration
    }
}

/// The breaking changes found among matching transforms `m`: when some is not backward
/// compatible, a high-impact change named after the first transform (with a mitigation
/// that depends on its corruption risk); when some is not replay-safe, a critical change.
pub open spec fn breaking_changes_of(m: Seq<SchemaTransform>, from: Seq<char>, to: Seq<char>)
    -> Seq<(TransformType, Seq<char>, ImpactLevel, Seq<char>, Option<Seq<char>>)>
{
    let backward = forall|i: int| 0 <= i < m.len() ==> (#[trigger] m[i]).backward_compatible;
    let replay = forall|i: int| 0 <= i < m.len() ==> (#[trigger] m[i]).replay_safe;
    (if !backward {
        seq![(m[0].transform_type, from + " -> "@ + to, ImpactLevel::High,
            "Schema transform from '"@ + from + "' to '"@ + to + "' breaks backward compatibility"@,
            Some(if m[0].high_corruption_risk {
                "Add data migration layer; schema change may corrupt existing events on replay"@
            } else {
                "Deploy schema change as optional field addition"@
            }))]
    } else { Seq::empty() })
    + (if !replay {
        seq![(if m.len() > 0 { m[0].transform_type } else { TransformType::Restructure }, "replay"@, ImpactLevel::Critical,
            "Schema transform from '"@ + from + "' to '"@ + to
                + "' is not replay-safe — replaying old events will produce divergent state"@,
            Some("Ensure deterministic deserialization for all historical schema versions"@))]
    } else { Seq::empty() })
}

/// The distinct strings among the first `n` of a list, in order of first occurrence.
pub open spec fn distinct_strings(v: Seq<String>, n: int) -> Seq<Seq<char>>
    decreases n,
{
    if n <= 0 {
        Seq::empty()
    } else {
        let prev = distinct_strings(v, n - 1);
        if prev.contains(v[n - 1]@) { prev } else { prev.push(v[n - 1]@) }
    }
}

/// For each of the first `n` schemas of `d`, the message `f` gives when `keep` holds.
pub open spec fn messages(d: Seq<Seq<char>>, n: int, keep: spec_fn(Seq<char>) -> bool, f: spec_fn(Seq<char>) -> Seq<char>) -> Seq<Seq<char>>
    decreases n,
{
    if n <= 0 {
        Seq::empty()
    } else {
        messages(d, n - 1, keep, f) + (if keep(d[n - 1]) { seq![f(d[n - 1])] } else { Seq::empty() })
    }
}

/// How many of the first `n` schemas of `d` satisfy `keep`.
pub open spec fn count_kept(d: Seq<Seq<char>>, n: int, keep: spec_fn(Seq<char>) -> bool) -> nat
    decreases n,
{
    if n <= 0 { 0 } else { count_kept(d, n - 1, keep) + (if keep(d[n - 1]) { 1nat } else { 0nat }) }
}

fn distinct_of(v: &[String]) -> (r: Vec<String>)
    ensures
        strs_view(r@) == distinct_strings(v@, v@.len() as int),
{
    let n = v.len();
    let mut d: Vec<String> = Vec::new();
    for i in 0..n
        invariant
            n == v@.len(),
            strs_view(d@) == distinct_strings(v@, i as int),
    {
        let ghost before = strs_view(d@);
        let present = list_contains(&d, v[i].as_str());
        proof {
            if present {
                let j = choose|j: int| 0 <= j < d@.len() && (#[trigger] d@[j])@ == v@[i as int]@;
                assert(before[j] == v@[i as int]@);
            } else {
                assert forall|j: int| 0 <= j < before.len() implies before[j] != v@[i as int]@ by {
                    assert(d@[j]@ != v@[i as int]@);
                }
            }
        }
        if !present {
            d.push(v[i].clone());
            assert(strs_view(d@) =~= before.push(v@[i as int]@));
        }
    }
    d
}

impl CompatibilityValidator {
    /// The known transforms, in registration order.
    pub closed spec fn transforms(&self) -> Seq<SchemaTransform> {
        self.known_transforms@
    }

    /// The compatibility rules, in the order added.
    pub closed spec fn rules(&self) -> Seq<CompatibilityRule> {
        self.compatibility_rules@
    }

    /// A validator with no transforms and no rules.
    pub fn new() -> (r: Self)
        ensures
            r.transforms().len() == 0,
            r.rules().len() == 0,
    {
        CompatibilityValidator { known_transforms: Vec::new(), compatibility_rules: Vec::new() }
    }

    /// Adds a known transform.
    pub fn register_transform(&mut self, transform: SchemaTransform)
        ensures
            final(self).transforms() == old(self).transforms().push(transform),
            final(self).rules() == old(self).rules(),
    {
        self.known_transforms.push(transform);
    }

    /// Adds a compatibility rule.
    pub fn add_rule(&mut self, rule: CompatibilityRule)
        ensures
            final(self).rules() == old(self).rules().push(rule),
            final(self).transforms() == old(self).transforms(),
    {
        self.compatibility_rules.push(rule);
    }

    /// Analyses moving from `from_schema` to `to_schema` by the known transforms between
    /// them: the move is backward compatible, forward compatible and replay-safe when every
    /// such transform is (vacuously so without any); see `breaking_changes_of` and
    /// `recommendation_for`.
    pub fn analyze(&self, from_schema: &str, to_schema: &str) -> (r: CompatibilityReport)
        ensures
            ({
                let m = matching(self.transforms(), from_schema@, to_schema@, self.transforms().len() as int);
                &&& r.from_schema@ == from_schema@
                &&& r.to_schema@ == to_schema@
                &&& r.backward_compatible == (forall|i: int| 0 <= i < m.len() ==> (#[trigger] m[i]).backward_compatible)
                &&& r.forward_compatible == (forall|i: int| 0 <= i < m.len() ==> (#[trigger] m[i]).forward_compatible)
                &&& r.replay_compatible == (forall|i: int| 0 <= i < m.len() ==> (#[trigger] m[i]).replay_safe)
                &&& changes_view(r.breaking_changes@) == breaking_changes_of(m, from_schema@, to_schema@)
                &&& strs_view(r.warnings@) == (if r.forward_compatible { Seq::<Seq<char>>::empty() } else {
                    seq!["Forward compatibility not guaranteed for '"@ + from_schema@ + "' -> '"@ + to_schema@ + "'"@] })
                &&& r.recommendation == recommendation_for(r.backward_compatible, r.replay_compatible)
            }),
    {
        let ghost ts = self.known_transforms@;
        let n = self.known_transforms.len();
        let mut m: Vec<&SchemaTransform> = Vec::new();
        for i in 0..n
            invariant
                n == ts.len(),
                ts == self.known_transforms@,
                crate::store::derefs(m@) == matching(ts, from_schema@, to_schema@, i as int),
        {
            let t = &self.known_transforms[i];
            let ghost before = crate::store::derefs(m@);
            if str_eq(t.from_schema.as_str(), from_schema) && str_eq(t.to_schema.as_str(), to_schema) {
                m.push(t);
                assert(crate::store::derefs(m@) =~= before.push(*t));
            }
        }
        let ghost ms = crate::store::derefs(m@);
        let k = m.len();
        let mut backward = true;
        let mut forward = true;
        let mut replay = true;
        for i in 0..k
            invariant
                k == m@.len(),
                ms == crate::store::derefs(m@),
                backward == (forall|j: int| 0 <= j < i ==> (#[trigger] ms[j]).backward_compatible),
                forward == (forall|j: int| 0 <= j < i ==> (#[trigger] ms[j]).forward_compatible),
                replay == (forall|j: int| 0 <= j < i ==> (#[trigger] ms[j]).replay_safe),
        {
            assert(ms[i as int] == *m@[i as int]);
            if !m[i].backward_compatible { backward = false; }
            if !m[i].forward_compatible { forward = false; }
            if !m[i].replay_safe { replay = false; }
        }
        let mut changes: Vec<BreakingChange> = Vec::new();
        if !backward {
            let first = m[0];
            assert(ms[0] == *first);
            let mitigation = if first.high_corruption_risk {
                owned("Add data migration layer; schema change may corrupt existing events on replay")
            } else {
                owned("Deploy schema change as optional field addition")
            };
            changes.push(BreakingChange {
                change_type: first.transform_type,
                field: cat3(from_schema, " -> ", to_schema),
                impact: ImpactLevel::High,
                description: cat5("Schema transform from '", from_schema, "' to '", to_schema, "' breaks backward compatibility"),
                mitigation: Some(mitigation),
            });
        }
        let ghost c1 = changes_view(changes@);
        if !replay {
            let kind = if k > 0 { m[0].transform_type } else { TransformType::Restructure };
            changes.push(BreakingChange {
                change_type: kind,
                field: owned("replay"),
                impact: ImpactLevel::Critical,
                description: cat5("Schema transform from '", from_schema, "' to '", to_schema,
                    "' is not replay-safe — replaying old events will produce divergent state"),
                mitigation: Some(owned("Ensure deterministic deserialization for all historical schema versions")),
            });
            assert(changes_view(changes@) =~= c1.push(changes_view(changes@)[changes@.len() - 1]));
        }
        assert(changes_view(changes@) =~= breaking_changes_of(ms, from_schema@, to_schema@));
        let mut warnings: Vec<String> = Vec::new();
        if !forward {
            warnings.push(cat5("Forward compatibility not guaranteed for '", from_schema, "' -> '", to_schema, "'"));
        }
        assert(strs_view(warnings@) =~= (if forward { Seq::<Seq<char>>::empty() } else {
            seq!["Forward compatibility not guaranteed for '"@ + from_schema@ + "' -> '"@ + to_schema@ + "'"@] }));
        let recommendation = if backward && replay {
            MigrationRecommendation::Safe
        } else if !backward {
            MigrationRecommendation::Blocked
        } else if !replay {
            MigrationRecommendation::RequiresMigration
        } else {
            MigrationRecommendation::RequiresCoordinatedDeployment
        };
        CompatibilityReport {
            from_schema: owned(from_schema),
            to_schema: owned(to_schema),
            backward_compatible: backward,
            forward_compatible: forward,
            replay_compatible: replay,
            breaking_changes: changes,
            warnings,
            recommendation,
        }
    }

    /// Whether every known transform from `s` to itself is backward compatible.
    pub open spec fn self_compatible(&self, s: Seq<char>) -> bool {
        let m = matching(self.transforms(), s, s, self.transforms().len() as int);
        forall|i: int| 0 <= i < m.len() ==> (#[trigger] m[i]).backward_compatible
    }

    /// Compares the schemas of the two sides of a federation boundary: each shared schema
    /// whose transforms to itself break backward compatibility, then each schema only on
    /// the local side, then each only on the remote side, is an incompatibility. Each
    /// schema counts once, in order of first appearance on its side.
    pub fn validate_federation_compatibility(&self, local_schemas: &[String], remote_schemas: &[String]) -> (r: FederationCompatibilityReport)
        ensures
            ({
                let dl = distinct_strings(local_schemas@, local_schemas@.len() as int);
                let dr = distinct_strings(remote_schemas@, remote_schemas@.len() as int);
                let shared = |s: Seq<char>| lists(remote_schemas@, s);
                let local_only = |s: Seq<char>| !lists(remote_schemas@, s);
                let remote_only = |s: Seq<char>| !lists(local_schemas@, s);
                let broken = |s: Seq<char>| lists(remote_schemas@, s) && !self.self_compatible(s);
                &&& r.local_schemas == local_schemas@.len()
                &&& r.remote_schemas == remote_schemas@.len()
                &&& r.intersection == count_kept(dl, dl.len() as int, shared)
                &&& strs_view(r.incompatibilities@) ==
                    messages(dl, dl.len() as int, broken, |s: Seq<char>| "Schema '"@ + s + "' has incompatible versions across federation boundary"@)
                    + messages(dl, dl.len() as int, local_only, |s: Seq<char>| "Schema '"@ + s + "' present locally but missing from remote federation"@)
                    + messages(dr, dr.len() as int, remote_only, |s: Seq<char>| "Schema '"@ + s + "' present on remote but missing locally"@)
                &&& r.compatible == (r.incompatibilities@.len() == 0)
            }),
    {
        let dl = distinct_of(local_schemas);
        let dr = distinct_of(remote_schemas);
        let ghost shared = |s: Seq<char>| lists(remote_schemas@, s);
        let ghost local_only = |s: Seq<char>| !lists(remote_schemas@, s);
        let ghost remote_only = |s: Seq<char>| !lists(local_schemas@, s);
        let ghost broken = |s: Seq<char>| lists(remote_schemas@, s) && !self.self_compatible(s);
        let ghost f1 = |s: Seq<char>| "Schema '"@ + s + "' has incompatible versions across federation boundary"@;
        let ghost f2 = |s: Seq<char>| "Schema '"@ + s + "' present locally but missing from remote federation"@;
        let ghost f3 = |s: Seq<char>| "Schema '"@ + s + "' present on remote but missing locally"@;
        let ghost vl = strs_view(dl@);
        let ghost vr = strs_view(dr@);
        let nl = dl.len();
        let nr = dr.len();
        let mut out: Vec<String> = Vec::new();
        let mut intersection: usize = 0;
        for i in 0..nl
            invariant
                nl == dl@.len(),
                vl == strs_view(dl@),
                shared == (|s: Seq<char>| lists(remote_schemas@, s)),
                broken == (|s: Seq<char>| lists(remote_schemas@, s) && !self.self_compatible(s)),
                f1 == (|s: Seq<char>| "Schema '"@ + s + "' has incompatible versions across federation boundary"@),
                strs_view(out@) == messages(vl, i as int, broken, f1),
                intersection == count_kept(vl, i as int, shared),
                intersection <= i,
        {
            let s = dl[i].as_str();
            let ghost before = strs_view(out@);
            if slice_lists(remote_schemas, s) {
                intersection = intersection + 1;
                let report = self.analyze(s, s);
                if !report.backward_compatible {
                    out.push(cat3("Schema '", s, "' has incompatible versions across federation boundary"));
                    assert(strs_view(out@) =~= before.push(f1(vl[i as int])));
                }
            }
        }
        let ghost part1 = strs_view(out@);
        for i in 0..nl
            invariant
                nl == dl@.len(),
                vl == strs_view(dl@),
                local_only == (|s: Seq<char>| !lists(remote_schemas@, s)),
                f2 == (|s: Seq<char>| "Schema '"@ + s + "' present locally but missing from remote federation"@),
                strs_view(out@) == part1 + messages(vl, i as int, local_only, f2),
        {
            let s = dl[i].as_str();
            let ghost before = strs_view(out@);
            if !slice_lists(remote_schemas, s) {
                out.push(cat3("Schema '", s, "' present locally but missing from remote federation"));
                assert(strs_view(out@) =~= before.push(f2(vl[i as int])));
            }
            assert(strs_view(out@) =~= part1 + messages(vl, i + 1, local_only, f2));
        }
        let ghost part2 = strs_view(out@);
        for i in 0..nr
            invariant
                nr == dr@.len(),
                vr == strs_view(dr@),
                remote_only == (|s: Seq<char>| !lists(local_schemas@, s)),
                f3 == (|s: Seq<char>| "Schema '"@ + s + "' present on remote but missing locally"@),
                strs_view(out@) == part2 + messages(vr, i as int, remote_only, f3),
        {
            let s = dr[i].as_str();
            let ghost before = strs_view(out@);
            if !slice_lists(local_schemas, s) {
                out.push(cat3("Schema '", s, "' present on remote but missing locally"));
                assert(strs_view(out@) =~= before.push(f3(vr[i as int])));
            }
            assert(strs_view(out@) =~= part2 + messages(vr, i + 1, remote_only, f3));
        }
        let compatible = out.len() == 0;
        FederationCompatibilityReport {
            local_schemas: local_schemas.len(),
            remote_schemas: remote_schemas.len(),
            intersection,
            incompatibilities: out,
            compatible,
        }
    }
}

impl Default for CompatibilityValidator {
    /// The same as `CompatibilityValidator::new()`.
    fn default() -> (r: Self)
        ensures
            r.transforms().len() == 0,
            r.rules().len() == 0,
    {
        Self::new()
    }
}

} // verus!
