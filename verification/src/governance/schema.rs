//! Schema governance: schema contracts, compatibility policies and the evolution rules
//! allowed for each contract.
use vstd::prelude::*;
use crate::governance::{GovernanceViolation, PolicyEvalResult, PolicySeverity, violation_is};
use crate::error::SyncEngineError;
use crate::store::{KeyedStore, lookup, stored, has_key, key_index, derefs, values_of};
use crate::text::{cat2, cat3, cat4, cat5, owned, str_eq, debug_string, debug_str, strs_view, pairs_view};

verus! {

/// A versioned schema contract.
#[derive(Debug)]
pub struct SchemaContract {
    pub contract_id: String,
    pub name: String,
    pub version: semver::Version,
    pub schema_type: SchemaType,
    pub domain: String,
    pub owner: String,
    pub fields: Vec<SchemaField>,
    pub status: SchemaStatus,
    pub fingerprint: String,
    /// Milliseconds since the Unix epoch.
    pub created_at: i64,
    pub checksum: Vec<u8>,
}

/// What a schema describes.
#[derive(Debug, Clone, Copy, PartialEq, Eq, Structural)]
pub enum SchemaType {
    Event,
    Command,
    Query,
    State,
    SyncContract,
    FederationContract,
}

/// A field of a schema.
#[derive(Debug, Clone)]
pub struct SchemaField {
    pub name: String,
    pub field_type: String,
    pub required: bool,
    pub deprecated: bool,
    pub description: String,
    pub constraints: Vec<String>,
    pub removed_in_version: Option<String>,
}

/// The lifecycle status of a schema contract.
#[derive(Debug, Clone, Copy, PartialEq, Eq, Structural)]
pub enum SchemaStatus {
    Draft,
    Active,
    Deprecated,
    Sunset,
    Retired,
}

/// The compatibility a contract must keep across versions.
#[derive(Debug, Clone)]
pub struct CompatibilityPolicy {
    pub contract_id: String,
    pub backward_compatible: bool,
    pub forward_compatible: bool,
    pub require_field_preservation: bool,
    pub max_field_removals: usize,
    pub require_idempotency: bool,
}

/// A kind of schema change a contract may allow.
#[derive(Debug, Clone)]
pub enum EvolutionRule {
    AllowAddField,
    AllowRemoveField,
    AllowRenameField,
    AllowChangeType,
    AllowMakeOptional,
    AllowMakeRequired,
    RequireFieldPreservation(String),
    RequireBackwardCompatibility,
    RequireForwardCompatibility,
}

/// The evolution rules allowed for a contract.
#[derive(Debug, Clone)]
pub struct EvolutionRuleDefinition {
    pub contract_id: String,
    pub rules: Vec<EvolutionRule>,
}

/// The compatibility of two versions of a contract.
#[derive(Debug)]
pub struct CompatibilityReport {
    pub contract_id: String,
    pub source_version: String,
    pub target_version: String,
    pub backward_compatible: bool,
    pub forward_compatible: bool,
    pub violations: Vec<String>,
    pub breaking_changes: Vec<String>,
}

/// Contracts, compatibility policies and evolution rules.
pub struct SchemaGovernance {
    contracts: KeyedStore<SchemaContract>,
    compatibility_policies: Vec<CompatibilityPolicy>,
    evolution_rules: Vec<EvolutionRuleDefinition>,
    deprecated_schemas: Vec<String>,
}

/// Two evolution rules are the same rule (the preserved field compared by its characters).
pub open spec fn same_rule(a: EvolutionRule, b: EvolutionRule) -> bool {
    match (a, b) {
        (EvolutionRule::RequireFieldPreservation(x), EvolutionRule::RequireFieldPreservation(y)) => x@ == y@,
        (EvolutionRule::AllowAddField, EvolutionRule::AllowAddField) => true,
        (EvolutionRule::AllowRemoveField, EvolutionRule::AllowRemoveField) => true,
        (EvolutionRule::AllowRenameField, EvolutionRule::AllowRenameField) => true,
        (EvolutionRule::AllowChangeType, EvolutionRule::AllowChangeType) => true,
        (EvolutionRule::AllowMakeOptional, EvolutionRule::AllowMakeOptional) => true,
        (EvolutionRule::AllowMakeRequired, EvolutionRule::AllowMakeRequired) => true,
        (EvolutionRule::RequireBackwardCompatibility, EvolutionRule::RequireBackwardCompatibility) => true,
        (EvolutionRule::RequireForwardCompatibility, EvolutionRule::RequireForwardCompatibility) => true,
        _ => false,
    }
}

/// The debug rendering of a rule: its variant name, with the preserved field's debug
/// rendering in brackets.
pub open spec fn rule_text(r: EvolutionRule) -> Seq<char> {
    match r {
        EvolutionRule::AllowAddField => "AllowAddField"@,
        EvolutionRule::AllowRemoveField => "AllowRemoveField"@,
        EvolutionRule::AllowRenameField => "AllowRenameField"@,
        EvolutionRule::AllowChangeType => "AllowChangeType"@,
        EvolutionRule::AllowMakeOptional => "AllowMakeOptional"@,
        EvolutionRule::AllowMakeRequired => "AllowMakeRequired"@,
        EvolutionRule::RequireFieldPreservation(f) => "RequireFieldPreservation("@ + debug_str(f@) + ")"@,
        EvolutionRule::RequireBackwardCompatibility => "RequireBackwardCompatibility"@,
        EvolutionRule::RequireForwardCompatibility => "RequireForwardCompatibility"@,
    }
}

/// `rules` holds `rule`.
pub open spec fn rule_listed(rules: Seq<EvolutionRule>, rule: EvolutionRule) -> bool {
    exists|i: int| 0 <= i < rules.len() && same_rule(#[trigger] rules[i], rule)
}

/// A rule set for contract `id` that does not allow `rule`.
pub open spec fn refuses(d: EvolutionRuleDefinition, id: Seq<char>, rule: EvolutionRule) -> bool {
    d.contract_id@ == id && !rule_listed(d.rules@, rule)
}

/// The index of the first compatibility policy for contract `id`, or -1.
pub open spec fn first_policy(ps: Seq<CompatibilityPolicy>, id: Seq<char>) -> int
    decreases ps.len(),
{
    if ps.len() == 0 {
        -1
    } else {
        let k = first_policy(ps.drop_last(), id);
        if k >= 0 { k } else if ps.last().contract_id@ == id { ps.len() - 1 } else { -1 }
    }
}

/// The names of the fields of `fields` that were removed in `version`.
pub open spec fn removed_in(fields: Seq<SchemaField>, version: Seq<char>) -> Seq<Seq<char>>
    decreases fields.len(),
{
    if fields.len() == 0 {
        Seq::empty()
    } else {
        removed_in(fields.drop_last(), version) + match fields.last().removed_in_version {
            Some(v) => if v@ == version { seq![fields.last().name@] } else { Seq::<Seq<char>>::empty() },
            None => Seq::<Seq<char>>::empty(),
        }
    }
}

/// The fields removed in `version` that a preserving, backward-compatible policy forbids.
pub open spec fn forbidden_removals(
    contracts: Seq<(String, SchemaContract)>,
    ps: Seq<CompatibilityPolicy>,
    id: Seq<char>,
    version: Seq<char>,
) -> Seq<Seq<char>> {
    let k = first_policy(ps, id);
    if k >= 0 && ps[k].backward_compatible && ps[k].require_field_preservation {
        match lookup(contracts, id) {
            Some(c) => removed_in(c.fields@, version),
            None => Seq::empty(),
        }
    } else {
        Seq::empty()
    }
}

/// The violation message for a removed field.
pub open spec fn removal_violation(name: Seq<char>) -> Seq<char> {
    "Requires backward compatibility but field '"@ + name + "' was removed"@
}

/// The breaking change recorded for a removed field.
pub open spec fn removal_change(name: Seq<char>) -> Seq<char> {
    "Removed field '"@ + name + "'"@
}

/// The violation message for each removed field.
pub open spec fn removal_violations(names: Seq<Seq<char>>) -> Seq<Seq<char>> {
    names.map_values(|n: Seq<char>| removal_violation(n))
}

/// The breaking change for each removed field.
pub open spec fn removal_changes(names: Seq<Seq<char>>) -> Seq<Seq<char>> {
    names.map_values(|n: Seq<char>| removal_change(n))
}

/// `c` with its status set to deprecated.
pub open spec fn deprecated(c: SchemaContract) -> SchemaContract {
    SchemaContract { status: SchemaStatus::Deprecated, ..c }
}

/// The contracts among `cs` whose status is active, in order.
pub open spec fn active_among(cs: Seq<SchemaContract>) -> Seq<SchemaContract>
    decreases cs.len(),
{
    if cs.len() == 0 {
        Seq::empty()
    } else {
        active_among(cs.drop_last()) + if cs.last().status == SchemaStatus::Active {
            seq![cs.last()]
        } else {
            Seq::<SchemaContract>::empty()
        }
    }
}

/// Whether two evolution rules are the same rule.
fn rules_equal(a: &EvolutionRule, b: &EvolutionRule) -> (r: bool)
    ensures
        r == same_rule(*a, *b),
{
    match (a, b) {
        (EvolutionRule::RequireFieldPreservation(x), EvolutionRule::RequireFieldPreservation(y)) => str_eq(x.as_str(), y.as_str()),
        (EvolutionRule::AllowAddField, EvolutionRule::AllowAddField) => true,
        (EvolutionRule::AllowRemoveField, EvolutionRule::AllowRemoveField) => true,
        (EvolutionRule::AllowRenameField, EvolutionRule::AllowRenameField) => true,
        (EvolutionRule::AllowChangeType, EvolutionRule::AllowChangeType) => true,
        (EvolutionRule::AllowMakeOptional, EvolutionRule::AllowMakeOptional) => true,
        (EvolutionRule::AllowMakeRequired, EvolutionRule::AllowMakeRequired) => true,
        (EvolutionRule::RequireBackwardCompatibility, EvolutionRule::RequireBackwardCompatibility) => true,
        (EvolutionRule::RequireForwardCompatibility, EvolutionRule::RequireForwardCompatibility) => true,
        _ => false,
    }
}

impl EvolutionRule {
    /// The debug rendering of the rule.
    pub fn debug_text(&self) -> (r: String)
        ensures
            r@ == rule_text(*self),
    {
        match self {
            EvolutionRule::AllowAddField => owned("AllowAddField"),
            EvolutionRule::AllowRemoveField => owned("AllowRemoveField"),
            EvolutionRule::AllowRenameField => owned("AllowRenameField"),
            EvolutionRule::AllowChangeType => owned("AllowChangeType"),
            EvolutionRule::AllowMakeOptional => owned("AllowMakeOptional"),
            EvolutionRule::AllowMakeRequired => owned("AllowMakeRequired"),
            EvolutionRule::RequireFieldPreservation(f) => {
                let d = debug_string(f.as_str());
                cat3("RequireFieldPreservation(", d.as_str(), ")")
            },
            EvolutionRule::RequireBackwardCompatibility => owned("RequireBackwardCompatibility"),
            EvolutionRule::RequireForwardCompatibility => owned("RequireForwardCompatibility"),
        }
    }
}

/// Whether `rules` holds `rule`.
fn rules_contain(rules: &Vec<EvolutionRule>, rule: &EvolutionRule) -> (r: bool)
    ensures
        r == rule_listed(rules@, *rule),
{
    let n = rules.len();
    for i in 0..n
        invariant
            n == rules@.len(),
            forall|j: int| 0 <= j < i ==> !same_rule(#[trigger] rules@[j], *rule),
    {
        if rules_equal(&rules[i], rule) {
            return true;
        }
    }
    false
}

impl SchemaGovernance {
    /// The registered contracts, by contract id.
    pub closed spec fn contracts(&self) -> Seq<(String, SchemaContract)> {
        self.contracts.entries()
    }

    /// The compatibility policies in registration order.
    pub closed spec fn policies(&self) -> Seq<CompatibilityPolicy> {
        self.compatibility_policies@
    }

    /// The evolution rule sets in registration order.
    pub closed spec fn rule_sets(&self) -> Seq<EvolutionRuleDefinition> {
        self.evolution_rules@
    }

    /// The ids of the contracts deprecated so far, in order.
    pub closed spec fn deprecated_ids(&self) -> Seq<Seq<char>> {
        strs_view(self.deprecated_schemas@)
    }

    /// Governance with no contracts, policies or rules.
    pub fn new() -> (r: Self)
        ensures
            r.contracts().len() == 0,
            r.policies().len() == 0,
            r.rule_sets().len() == 0,
            r.deprecated_ids().len() == 0,
    {
        SchemaGovernance {
            contracts: KeyedStore::new(),
            compatibility_policies: Vec::new(),
            evolution_rules: Vec::new(),
            deprecated_schemas: Vec::new(),
        }
    }

    /// Registers `contract` under its id, replacing a contract with the same id.
    pub fn register_contract(&mut self, contract: SchemaContract)
        ensures
            final(self).contracts() == stored(old(self).contracts(), contract.contract_id, contract),
            final(self).policies() == old(self).policies(),
            final(self).rule_sets() == old(self).rule_sets(),
            final(self).deprecated_ids() == old(self).deprecated_ids(),
    {
        let id = contract.contract_id.clone();
        self.contracts.insert(id, contract);
    }

    /// Adds a compatibility policy.
    pub fn register_compatibility_policy(&mut self, policy: CompatibilityPolicy)
        ensures
            final(self).policies() == old(self).policies().push(policy),
            final(self).contracts() == old(self).contracts(),
            final(self).rule_sets() == old(self).rule_sets(),
            final(self).deprecated_ids() == old(self).deprecated_ids(),
    {
        self.compatibility_policies.push(policy);
    }

    /// Adds an evolution rule set.
    pub fn register_evolution_rule(&mut self, rule: EvolutionRuleDefinition)
        ensures
            final(self).rule_sets() == old(self).rule_sets().push(rule),
            final(self).contracts() == old(self).contracts(),
            final(self).policies() == old(self).policies(),
            final(self).deprecated_ids() == old(self).deprecated_ids(),
    {
        self.evolution_rules.push(rule);
    }

    /// Checks a move of `contract_id` from `old_version` to `new_version`. Under the first
    /// policy for the contract, when it is backward compatible and requires field
    /// preservation, each field of the registered contract removed in `new_version` is a
    /// violation and a breaking change; the move is compatible when there are none.
    pub fn validate_evolution(&self, contract_id: &str, old_version: &str, new_version: &str) -> (r: CompatibilityReport)
        ensures
            r.contract_id@ == contract_id@,
            r.source_version@ == old_version@,
            r.target_version@ == new_version@,
            strs_view(r.violations@) == removal_violations(
                forbidden_removals(self.contracts(), self.policies(), contract_id@, new_version@)),
            strs_view(r.breaking_changes@) == removal_changes(
                forbidden_removals(self.contracts(), self.policies(), contract_id@, new_version@)),
            r.backward_compatible == (r.violations@.len() == 0),
            r.forward_compatible == (r.violations@.len() == 0),
    {
        let mut violations: Vec<String> = Vec::new();
        let mut breaking_changes: Vec<String> = Vec::new();
        let ghost ps = self.compatibility_policies@;
        let mut found: Option<usize> = None;
        let np = self.compatibility_policies.len();
        for i in 0..np
            invariant
                np == ps.len(),
                ps == self.compatibility_policies@,
                match found {
                    Some(k) => k == first_policy(ps.take(i as int), contract_id@) && k < i,
                    None => first_policy(ps.take(i as int), contract_id@) == -1,
                },
        {
            proof {
                assert(ps.take(i + 1).drop_last() =~= ps.take(i as int));
            }
            if found.is_none() && str_eq(self.compatibility_policies[i].contract_id.as_str(), contract_id) {
                found = Some(i);
            }
        }
        proof {
            assert(ps.take(np as int) =~= ps);
        }
        let ghost wanted = forbidden_removals(self.contracts(), ps, contract_id@, new_version@);
        match found {
            Some(k) => {
                let policy = &self.compatibility_policies[k];
                if policy.backward_compatible && policy.require_field_preservation {
                    match self.contracts.get(contract_id) {
                        Some(c) => {
                            let nf = c.fields.len();
                            for j in 0..nf
                                invariant
                                    nf == c.fields@.len(),
                                    strs_view(violations@) == removal_violations(removed_in(c.fields@.take(j as int), new_version@)),
                                    strs_view(breaking_changes@) == removal_changes(removed_in(c.fields@.take(j as int), new_version@)),
                            {
                                let ghost fs = c.fields@.take(j + 1);
                                proof {
                                    assert(fs.drop_last() =~= c.fields@.take(j as int));
                                    assert(fs.last() == c.fields@[j as int]);
                                }
                                let field = &c.fields[j];
                                let removed = match &field.removed_in_version {
                                    Some(v) => str_eq(v.as_str(), new_version),
                                    None => false,
                                };
                                let ghost v0 = violations@;
                                let ghost b0 = breaking_changes@;
                                if removed {
                                    violations.push(cat3("Requires backward compatibility but field '", field.name.as_str(), "' was removed"));
                                    breaking_changes.push(cat3("Removed field '", field.name.as_str(), "'"));
                                }
                                proof {
                                    if removed {
                                        assert(violations@ == v0.push(violations@.last()));
                                        assert(breaking_changes@ == b0.push(breaking_changes@.last()));
                                        assert(removed_in(fs, new_version@) == removed_in(c.fields@.take(j as int), new_version@).push(field.name@));
                                        assert(strs_view(violations@) =~= strs_view(v0).push(removal_violation(field.name@)));
                                        assert(strs_view(breaking_changes@) =~= strs_view(b0).push(removal_change(field.name@)));
                                        assert(removal_violations(removed_in(fs, new_version@)) =~= removal_violations(
                                            removed_in(c.fields@.take(j as int), new_version@)).push(removal_violation(field.name@)));
                                        assert(removal_changes(removed_in(fs, new_version@)) =~= removal_changes(
                                            removed_in(c.fields@.take(j as int), new_version@)).push(removal_change(field.name@)));
                                    } else {
                                        assert(removed_in(fs, new_version@) =~= removed_in(c.fields@.take(j as int), new_version@));
                                    }
                                    assert(strs_view(violations@) =~= removal_violations(removed_in(fs, new_version@)));
                                    assert(strs_view(breaking_changes@) =~= removal_changes(removed_in(fs, new_version@)));
                                }
                            }
                            proof {
                                assert(c.fields@.take(nf as int) =~= c.fields@);
                            }
                        },
                        None => {
                            proof {
                                assert(strs_view(violations@) =~= removal_violations(wanted));
                                assert(strs_view(breaking_changes@) =~= removal_changes(wanted));
                            }
                        },
                    }
                } else {
                    proof {
                        assert(strs_view(violations@) =~= removal_violations(wanted));
                        assert(strs_view(breaking_changes@) =~= removal_changes(wanted));
                    }
                }
            },
            None => {
                proof {
                    assert(strs_view(violations@) =~= removal_violations(wanted));
                    assert(strs_view(breaking_changes@) =~= removal_changes(wanted));
                }
            },
        }
        let ok = violations.len() == 0;
        CompatibilityReport {
            contract_id: owned(contract_id),
            source_version: owned(old_version),
            target_version: owned(new_version),
            backward_compatible: ok,
            forward_compatible: ok,
            violations,
            breaking_changes,
        }
    }

    /// What `check_evolution_rule` answers for these arguments.
    pub open spec fn evolution_rule_outcome(&self, contract_id: Seq<char>, rule: EvolutionRule, r: PolicyEvalResult) -> bool {
        if exists|i: int| 0 <= i < self.rule_sets().len() && refuses(#[trigger] self.rule_sets()[i], contract_id, rule) {
            r matches PolicyEvalResult::Violation(v) && violation_is(
                v,
                "SchemaEvolutionRule"@,
                PolicySeverity::Error,
                "Evolution rule '"@ + rule_text(rule) + "' not allowed for contract '"@ + contract_id + "'"@,
                seq![("contract_id"@, contract_id), ("rule"@, rule_text(rule))],
                seq!["Add evolution rule '"@ + rule_text(rule) + "' to contract '"@ + contract_id + "'"@],
            )
        } else {
            r is Pass
        }
    }

    /// Checks that every rule set for `contract_id` allows `rule`.
    pub fn check_evolution_rule(&self, contract_id: &str, rule: &EvolutionRule) -> (r: PolicyEvalResult)
        ensures
            self.evolution_rule_outcome(contract_id@, *rule, r),

    {
        let n = self.evolution_rules.len();
        for i in 0..n
            invariant
                n == self.evolution_rules@.len(),
                forall|j: int| 0 <= j < i ==> !refuses(#[trigger] self.evolution_rules@[j], contract_id@, *rule),
        {
            let set = &self.evolution_rules[i];
            if str_eq(set.contract_id.as_str(), contract_id) && !rules_contain(&set.rules, rule) {
                let text = rule.debug_text();
                let mut context: Vec<(String, String)> = Vec::new();
                context.push((owned("contract_id"), owned(contract_id)));
                context.push((owned("rule"), rule.debug_text()));
                let mut remediations: Vec<String> = Vec::new();
                remediations.push(cat5("Add evolution rule '", text.as_str(), "' to contract '", contract_id, "'"));
                let v = GovernanceViolation {
                    policy_id: 0,
                    policy_name: owned("SchemaEvolutionRule"),
                    severity: PolicySeverity::Error,
                    message: cat5("Evolution rule '", text.as_str(), "' not allowed for contract '", contract_id, "'"),
                    context,
                    remediations,
                };
                proof {
                    assert(refuses(self.rule_sets()[i as int], contract_id@, *rule));
                    assert(strs_view(v.remediations@) =~= seq!["Add evolution rule '"@ + rule_text(*rule) + "' to contract '"@ + contract_id@ + "'"@]);
                    assert(pairs_view(v.context@) =~= seq![("contract_id"@, contract_id@), ("rule"@, rule_text(*rule))]);
                }
                return PolicyEvalResult::Violation(v);
            }
        }
        PolicyEvalResult::Pass
    }

    /// Marks `contract_id` deprecated and records it; fails when no such contract is
    /// registered.
    pub fn deprecate_contract(&mut self, contract_id: &str) -> (r: Result<(), SyncEngineError>)
        ensures
            match lookup(old(self).contracts(), contract_id@) {
                Some(c) => r is Ok
                    && final(self).contracts() == old(self).contracts().update(
                        key_index(old(self).contracts(), contract_id@),
                        (old(self).contracts()[key_index(old(self).contracts(), contract_id@)].0, deprecated(c)))
                    && final(self).deprecated_ids() == old(self).deprecated_ids().push(contract_id@),
                None => r matches Err(SyncEngineError::Internal(m))
                    && m@ == "Schema contract '"@ + contract_id@ + "' not found for deprecation"@
                    && final(self).contracts() == old(self).contracts()
                    && final(self).deprecated_ids() == old(self).deprecated_ids(),
            },
            final(self).policies() == old(self).policies(),
            final(self).rule_sets() == old(self).rule_sets(),
    {
        match self.contracts.position(contract_id) {
            Some(i) => {
                self.contracts.modify_at(i, |c: SchemaContract| -> (d: SchemaContract)
                    ensures
                        d == deprecated(c),
                    {
                        let mut d = c;
                        d.status = SchemaStatus::Deprecated;
                        d
                    });
                let ghost before = self.deprecated_schemas@;
                self.deprecated_schemas.push(owned(contract_id));
                proof {
                    assert(strs_view(self.deprecated_schemas@) =~= strs_view(before).push(contract_id@));
                }
                Ok(())
            },
            None => Err(SyncEngineError::Internal(cat3("Schema contract '", contract_id, "' not found for deprecation"))),
        }
    }

    /// The active contracts, in registration order.
    pub fn list_active_contracts(&self) -> (r: Vec<&SchemaContract>)
        ensures
            derefs(r@) == active_among(values_of(self.contracts())),
    {
        let all = self.contracts.values();
        let ghost vs = values_of(self.contracts());
        let mut r: Vec<&SchemaContract> = Vec::new();
        let n = all.len();
        for i in 0..n
            invariant
                n == all@.len(),
                derefs(all@) == vs,
                derefs(r@) == active_among(vs.take(i as int)),
        {
            proof {
                assert(vs.take(i + 1).drop_last() =~= vs.take(i as int));
                assert(vs[i as int] == *all@[i as int]);
            }
            let c = all[i];
            if c.status == SchemaStatus::Active {
                r.push(c);
            }
            proof {
                assert(derefs(r@) =~= active_among(vs.take(i + 1)));
            }
        }
        proof {
            assert(vs.take(n as int) =~= vs);
        }
        r
    }

    /// The contract registered under `contract_id`.
    pub fn get_contract(&self, contract_id: &str) -> (r: Option<&SchemaContract>)
        ensures
            match r {
                Some(c) => lookup(self.contracts(), contract_id@) == Some(*c),
                None => lookup(self.contracts(), contract_id@) is None,
            },
    {
        self.contracts.get(contract_id)
    }

    /// The fingerprint of the contract registered under `contract_id`.
    pub fn generate_schema_digest(&self, contract_id: &str) -> (r: Option<String>)
        ensures
            match lookup(self.contracts(), contract_id@) {
                Some(c) => r matches Some(d) && d@ == c.fingerprint@,
                None => r is None,
            },
    {
        match self.contracts.get(contract_id) {
            Some(c) => Some(c.fingerprint.clone()),
            None => None,
        }
    }
}

} // verus!

verus! {

/// Every contract listed as active is active.
pub proof fn lemma_listed_are_active(cs: Seq<SchemaContract>)
    ensures
        forall|i: int| 0 <= i < active_among(cs).len() ==> (#[trigger] active_among(cs)[i]).status == SchemaStatus::Active,
    decreases cs.len(),
{
    if cs.len() > 0 {
        lemma_listed_are_active(cs.drop_last());
        let a = active_among(cs.drop_last());
        assert forall|i: int| 0 <= i < active_among(cs).len() implies (#[trigger] active_among(cs)[i]).status == SchemaStatus::Active by {
            if i < a.len() {
                assert(active_among(cs)[i] == a[i]);
            }
        }
    }
}

/// Once a contract is deprecated it is no longer listed among the active contracts.
pub proof fn lemma_deprecated_not_listed(g: Seq<(String, SchemaContract)>, k: int)
    requires
        0 <= k < g.len(),
    ensures
        !active_among(values_of(g.update(k, (g[k].0, deprecated(g[k].1))))).contains(deprecated(g[k].1)),
{
    let cs = values_of(g.update(k, (g[k].0, deprecated(g[k].1))));
    lemma_listed_are_active(cs);
    if active_among(cs).contains(deprecated(g[k].1)) {
        let i = choose|i: int| 0 <= i < active_among(cs).len() && active_among(cs)[i] == deprecated(g[k].1);
        assert(active_among(cs)[i].status == SchemaStatus::Active);
    }
}

impl Default for SchemaGovernance {
    /// The same as `SchemaGovernance::new()`.
    fn default() -> (r: Self)
        ensures
            r.contracts().len() == 0,
            r.policies().len() == 0,
            r.rule_sets().len() == 0,
            r.deprecated_ids().len() == 0,
    {
        Self::new()
    }
}

} // verus!
