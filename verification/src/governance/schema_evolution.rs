//! Schema evolution: proposed changes of schema contracts, their execution and the
//! version negotiations between federated domains.
use vstd::prelude::*;
use crate::error::SyncEngineError;
use crate::store::{KeyedStore, lookup};
use crate::text::{cat3, cat4, cat5, owned, str_eq, id_text, uuid_text, strs_view};
use crate::version::{version_display, version_order, version_eq, release_version, version_text,
    compare_versions, versions_equal, release, clone_version};
use crate::env::{fresh_id, now_millis};

verus! {

/// A proposed change of a schema contract from one version to another.
#[derive(Debug)]
pub struct SchemaEvolution {
    pub evolution_id: u128,
    pub contract_id: String,
    pub from_version: semver::Version,
    pub to_version: semver::Version,
    pub evolution_type: EvolutionType,
    pub migration_strategy: MigrationStrategy,
    pub requires_federation_negotiation: bool,
    pub replay_safe: bool,
    pub approved: bool,
    pub approved_by: Option<String>,
    /// Milliseconds since the Unix epoch.
    pub created_at: i64,
}

/// The kind of a schema change.
#[derive(Debug, Clone, Copy, PartialEq, Eq, Structural)]
pub enum EvolutionType {
    Additive,
    Deprecative,
    Renaming,
    Restructuring,
    Split,
    Merge,
    SovereignPolicyChange,
}

/// How stored events are brought to the new schema.
#[derive(Debug, Clone, Copy, PartialEq, Eq, Structural)]
pub enum MigrationStrategy {
    LazyMigration,
    EagerMigration,
    DualWrite,
    FederationNegotiated,
    CoordinatedRollout,
}

/// A run of a schema evolution.
#[derive(Debug, Clone)]
pub struct EvolutionExecution {
    pub execution_id: u128,
    pub evolution_id: u128,
    pub status: EvolutionStatus,
    /// Milliseconds since the Unix epoch.
    pub started_at: i64,
    /// Milliseconds since the Unix epoch.
    pub completed_at: Option<i64>,
    pub domains_updated: Vec<String>,
    pub events_migrated: u64,
    pub errors: Vec<String>,
}

/// Where an evolution run stands.
#[derive(Debug, Clone, Copy, PartialEq, Eq, Structural)]
pub enum EvolutionStatus {
    Pending,
    InProgress,
    Completed,
    Failed,
    RolledBack,
}

/// A version negotiation between two domains.
#[derive(Debug)]
pub struct FederationNegotiation {
    pub contract_id: String,
    pub proposing_domain: String,
    pub responding_domain: String,
    pub proposed_version: semver::Version,
    pub current_version: semver::Version,
    pub accepted: bool,
    /// Milliseconds since the Unix epoch.
    pub negotiated_at: Option<i64>,
    pub conditions: Vec<String>,
}

/// How safe a proposed evolution is.
#[derive(Debug)]
pub struct EvolutionSafetyReport {
    pub evolution_id: u128,
    pub safe: bool,
    pub replay_safe: bool,
    pub backward_compatible: bool,
    /// The risk of corrupting state, in percent: 0 for a replay-safe change, else 85.
    pub corruption_risk_percent: u8,
    pub federation_impact: Vec<String>,
    pub rollback_possible: bool,
    pub issues: Vec<String>,
}

/// Active evolutions, the history of runs and the negotiations made.
pub struct SchemaEvolutionEngine {
    active_evolutions: Vec<SchemaEvolution>,
    evolution_history: Vec<EvolutionExecution>,
    negotiation_cache: KeyedStore<FederationNegotiation>,
}

/// The issues found with a proposed evolution.
pub open spec fn evolution_issues(e: SchemaEvolution) -> Seq<Seq<char>> {
    (if version_order(e.from_version, e.to_version) >= 0 {
        seq!["Version must increase: "@ + version_display(e.from_version) + " -> "@ + version_display(e.to_version)]
    } else {
        Seq::empty()
    }) + (if !e.replay_safe {
        seq!["Evolution is not replay-safe \u{2014} will produce divergent state on replay"@]
    } else {
        Seq::empty()
    })
}

/// The federation impact of a proposed evolution.
pub open spec fn evolution_impact(e: SchemaEvolution) -> Seq<Seq<char>> {
    if e.requires_federation_negotiation && !e.approved {
        seq!["Evolution requires federation negotiation before deployment"@]
    } else {
        Seq::empty()
    }
}

/// The index of the first active evolution with id `id`, or -1.
pub open spec fn first_evolution(es: Seq<SchemaEvolution>, id: u128) -> int
    decreases es.len(),
{
    if es.len() == 0 {
        -1
    } else {
        let k = first_evolution(es.drop_last(), id);
        if k >= 0 { k } else if es.last().evolution_id == id { es.len() - 1 } else { -1 }
    }
}

/// The key under which a negotiation is kept.
pub open spec fn negotiation_key(contract: Seq<char>, proposing: Seq<char>, responding: Seq<char>) -> Seq<char> {
    contract + ":"@ + proposing + "->"@ + responding
}

/// The fields of a negotiation, with strings by their characters.
pub open spec fn negotiation_view(n: FederationNegotiation)
    -> (Seq<char>, Seq<char>, Seq<char>, semver::Version, semver::Version, bool, Option<i64>, Seq<Seq<char>>) {
    (n.contract_id@, n.proposing_domain@, n.responding_domain@, n.proposed_version, n.current_version,
        n.accepted, n.negotiated_at, strs_view(n.conditions@))
}

proof fn lemma_first_evolution_extend(es: Seq<SchemaEvolution>, id: u128, m: int)
    requires
        1 <= m <= es.len(),
        first_evolution(es.take(m), id) >= 0,
    ensures
        first_evolution(es, id) == first_evolution(es.take(m), id),
    decreases es.len() - m,
{
    if m < es.len() {
        assert(es.take(m + 1).drop_last() =~= es.take(m));
        lemma_first_evolution_extend(es, id, m + 1);
    } else {
        assert(es.take(m) =~= es);
    }
}

} // verus!

verus! {

impl SchemaEvolutionEngine {
    /// The evolutions accepted so far, in order.
    pub closed spec fn active(&self) -> Seq<SchemaEvolution> {
        self.active_evolutions@
    }

    /// The completed runs, in order.
    pub closed spec fn history(&self) -> Seq<EvolutionExecution> {
        self.evolution_history@
    }

    /// The negotiations, keyed by contract and domains.
    pub closed spec fn negotiations(&self) -> Seq<(String, FederationNegotiation)> {
        self.negotiation_cache.entries()
    }

    /// An engine with no evolutions, runs or negotiations.
    pub fn new() -> (r: Self)
        ensures
            r.active().len() == 0,
            r.history().len() == 0,
            r.negotiations().len() == 0,
    {
        SchemaEvolutionEngine {
            active_evolutions: Vec::new(),
            evolution_history: Vec::new(),
            negotiation_cache: KeyedStore::new(),
        }
    }

    /// Checks a proposed evolution and accepts it when it is safe: its version increases
    /// and it is replay-safe.
    pub fn propose_evolution(&mut self, evolution: SchemaEvolution) -> (r: EvolutionSafetyReport)
        ensures
            r.evolution_id == evolution.evolution_id,
            strs_view(r.issues@) == evolution_issues(evolution),
            strs_view(r.federation_impact@) == evolution_impact(evolution),
            r.safe == (evolution_issues(evolution).len() == 0),
            r.replay_safe == evolution.replay_safe,
            r.backward_compatible == (evolution.evolution_type == EvolutionType::Additive),
            r.corruption_risk_percent == (if evolution.replay_safe { 0u8 } else { 85u8 }),
            r.rollback_possible == (version_order(evolution.from_version, release_version(0, 0, 0)) > 0),
            r.safe ==> final(self).active() == old(self).active().push(evolution),
            !r.safe ==> final(self).active() == old(self).active(),
            final(self).history() == old(self).history(),
            final(self).negotiations() == old(self).negotiations(),
    {
        let mut issues: Vec<String> = Vec::new();
        let mut federation_impact: Vec<String> = Vec::new();
        if compare_versions(&evolution.from_version, &evolution.to_version) >= 0 {
            let f = version_text(&evolution.from_version);
            let t = version_text(&evolution.to_version);
            issues.push(cat4("Version must increase: ", f.as_str(), " -> ", t.as_str()));
        }
        if evolution.requires_federation_negotiation && !evolution.approved {
            federation_impact.push(owned("Evolution requires federation negotiation before deployment"));
        }
        let ghost before = issues@;
        if !evolution.replay_safe {
            issues.push(owned("Evolution is not replay-safe \u{2014} will produce divergent state on replay"));
        }
        proof {
            assert(strs_view(issues@) =~= evolution_issues(evolution));
            assert(strs_view(federation_impact@) =~= evolution_impact(evolution));
        }
        let zero = release(0, 0, 0);
        let rollback_possible = compare_versions(&evolution.from_version, &zero) > 0;
        let safe = issues.len() == 0;
        let report = EvolutionSafetyReport {
            evolution_id: evolution.evolution_id,
            safe,
            replay_safe: evolution.replay_safe,
            backward_compatible: evolution.evolution_type == EvolutionType::Additive,
            corruption_risk_percent: if evolution.replay_safe { 0 } else { 85 },
            federation_impact,
            rollback_possible,
            issues,
        };
        if safe {
            self.active_evolutions.push(evolution);
        }
        report
    }

    /// Starts the first active evolution with id `evolution_id`; fails when there is none
    /// or it is not approved.
    pub fn execute_evolution(&mut self, evolution_id: u128) -> (r: Result<EvolutionExecution, SyncEngineError>)
        ensures
            ({
                let k = first_evolution(old(self).active(), evolution_id);
                if k < 0 {
                    r matches Err(SyncEngineError::Internal(m))
                        && m@ == "Evolution '"@ + uuid_text(evolution_id) + "' not found in active evolutions"@
                } else if !old(self).active()[k].approved {
                    r matches Err(SyncEngineError::Internal(m))
                        && m@ == "Evolution '"@ + uuid_text(evolution_id) + "' has not been approved"@
                } else {
                    r matches Ok(x) && x.evolution_id == evolution_id && x.status == EvolutionStatus::InProgress
                        && x.completed_at is None && x.domains_updated@.len() == 0 && x.events_migrated == 0
                        && x.errors@.len() == 0
                }
            }),
            final(self).active() == old(self).active(),
            final(self).history() == old(self).history(),
            final(self).negotiations() == old(self).negotiations(),
    {
        let found = self.find_evolution(evolution_id);
        match found {
            None => Err(SyncEngineError::Internal(cat3("Evolution '", id_text(evolution_id).as_str(), "' not found in active evolutions"))),
            Some(k) => {
                if !self.active_evolutions[k].approved {
                    Err(SyncEngineError::Internal(cat3("Evolution '", id_text(evolution_id).as_str(), "' has not been approved")))
                } else {
                    Ok(EvolutionExecution {
                        execution_id: fresh_id(),
                        evolution_id,
                        status: EvolutionStatus::InProgress,
                        started_at: now_millis(),
                        completed_at: None,
                        domains_updated: Vec::new(),
                        events_migrated: 0,
                        errors: Vec::new(),
                    })
                }
            },
        }
    }

    /// Records a completed run of `execution_id` that updated `domains_updated` and
    /// migrated `events_migrated` events.
    pub fn complete_evolution(&mut self, execution_id: u128, domains_updated: Vec<String>, events_migrated: u64)
        ensures
            final(self).history().len() == old(self).history().len() + 1,
            final(self).history().take(old(self).history().len() as int) == old(self).history(),
            ({
                let x = final(self).history().last();
                &&& x.execution_id == execution_id
                &&& x.evolution_id == 0
                &&& x.status == EvolutionStatus::Completed
                &&& x.completed_at is Some
                &&& x.domains_updated == domains_updated
                &&& x.events_migrated == events_migrated
                &&& x.errors@.len() == 0
            }),
            final(self).active() == old(self).active(),
            final(self).negotiations() == old(self).negotiations(),
    {
        let started_at = now_millis();
        let completed_at = now_millis();
        let execution = EvolutionExecution {
            execution_id,
            evolution_id: 0,
            status: EvolutionStatus::Completed,
            started_at,
            completed_at: Some(completed_at),
            domains_updated,
            events_migrated,
            errors: Vec::new(),
        };
        self.evolution_history.push(execution);
        proof {
            assert(self.evolution_history@.take(old(self).evolution_history@.len() as int) =~= old(self).evolution_history@);
        }
    }

    /// Negotiates a move of `contract_id` from `current` to `proposed` between two
    /// domains: accepted when `proposed` is not below `current`. The negotiation is kept
    /// under its contract and domains, replacing an earlier one.
    pub fn negotiate_federation(
        &mut self,
        contract_id: &str,
        proposing_domain: &str,
        responding_domain: &str,
        proposed: &semver::Version,
        current: &semver::Version,
    ) -> (r: FederationNegotiation)
        ensures
            r.contract_id@ == contract_id@,
            r.proposing_domain@ == proposing_domain@,
            r.responding_domain@ == responding_domain@,
            r.proposed_version == *proposed,
            r.current_version == *current,
            r.accepted == (version_order(*proposed, *current) >= 0),
            r.negotiated_at is Some,
            strs_view(r.conditions@) == if r.accepted {
                Seq::<Seq<char>>::empty()
            } else {
                seq!["Proposed version "@ + version_display(*proposed) + " is lower than current "@ + version_display(*current)]
            },
            lookup(final(self).negotiations(), negotiation_key(contract_id@, proposing_domain@, responding_domain@))
                matches Some(n) && negotiation_view(n) == negotiation_view(r),
            forall|k: Seq<char>| k != negotiation_key(contract_id@, proposing_domain@, responding_domain@)
                ==> #[trigger] lookup(final(self).negotiations(), k) == lookup(old(self).negotiations(), k),
            final(self).active() == old(self).active(),
            final(self).history() == old(self).history(),
    {
        let key = cat5(contract_id, ":", proposing_domain, "->", responding_domain);
        let accepted = compare_versions(proposed, current) >= 0;
        let negotiated_at = now_millis();
        let mut conditions: Vec<String> = Vec::new();
        if !accepted {
            let p = version_text(proposed);
            let c = version_text(current);
            conditions.push(cat4("Proposed version ", p.as_str(), " is lower than current ", c.as_str()));
        }
        let mut kept: Vec<String> = Vec::new();
        if !accepted {
            let p = version_text(proposed);
            let c = version_text(current);
            kept.push(cat4("Proposed version ", p.as_str(), " is lower than current ", c.as_str()));
        }
        proof {
            assert(strs_view(conditions@) =~= strs_view(kept@));
        }
        let stored_copy = FederationNegotiation {
            contract_id: owned(contract_id),
            proposing_domain: owned(proposing_domain),
            responding_domain: owned(responding_domain),
            proposed_version: clone_version(proposed),
            current_version: clone_version(current),
            accepted,
            negotiated_at: Some(negotiated_at),
            conditions: kept,
        };
        let ghost s = self.negotiation_cache.entries();
        let ghost kv = key;
        let ghost nv = stored_copy;
        self.negotiation_cache.insert(key, stored_copy);
        proof {
            crate::store::lemma_lookup_after_store(s, kv, nv, kv@);
            assert forall|k: Seq<char>| k != kv@ implies #[trigger] lookup(self.negotiation_cache.entries(), k) == lookup(s, k) by {
                crate::store::lemma_lookup_after_store(s, kv, nv, k);
            }
        }
        FederationNegotiation {
            contract_id: owned(contract_id),
            proposing_domain: owned(proposing_domain),
            responding_domain: owned(responding_domain),
            proposed_version: clone_version(proposed),
            current_version: clone_version(current),
            accepted,
            negotiated_at: Some(negotiated_at),
            conditions,
        }
    }

    /// The evolutions accepted so far.
    pub fn get_active_evolutions(&self) -> (r: &[SchemaEvolution])
        ensures
            r@ == self.active(),
    {
        self.active_evolutions.as_slice()
    }

    /// The completed runs.
    pub fn get_history(&self) -> (r: &[EvolutionExecution])
        ensures
            r@ == self.history(),
    {
        self.evolution_history.as_slice()
    }

    /// Whether an approved active evolution of `contract_id` leads to `at_version`.
    pub fn validate_temporal_schema(&self, contract_id: &str, at_version: &semver::Version) -> (r: bool)
        ensures
            r == exists|i: int| 0 <= i < self.active().len()
                && (#[trigger] self.active()[i]).contract_id@ == contract_id@
                && version_eq(self.active()[i].to_version, *at_version)
                && self.active()[i].approved,
    {
        let n = self.active_evolutions.len();
        for i in 0..n
            invariant
                n == self.active_evolutions@.len(),
                forall|j: int| 0 <= j < i ==> !((#[trigger] self.active_evolutions@[j]).contract_id@ == contract_id@
                    && version_eq(self.active_evolutions@[j].to_version, *at_version)
                    && self.active_evolutions@[j].approved),
        {
            let e = &self.active_evolutions[i];
            if str_eq(e.contract_id.as_str(), contract_id) && versions_equal(&e.to_version, at_version) && e.approved {
                proof {
                    assert(self.active()[i as int] == *e);
                }
                return true;
            }
        }
        proof {
            assert(self.active() == self.active_evolutions@);
        }
        false
    }

    /// The index of the first active evolution with id `evolution_id`.
    fn find_evolution(&self, evolution_id: u128) -> (r: Option<usize>)
        ensures
            match r {
                Some(k) => k == first_evolution(self.active(), evolution_id) && k < self.active().len(),
                None => first_evolution(self.active(), evolution_id) == -1,
            },
    {
        let ghost es = self.active_evolutions@;
        let n = self.active_evolutions.len();
        for i in 0..n
            invariant
                n == es.len(),
                es == self.active_evolutions@,
                first_evolution(es.take(i as int), evolution_id) == -1,
        {
            proof {
                assert(es.take(i + 1).drop_last() =~= es.take(i as int));
            }
            if self.active_evolutions[i].evolution_id == evolution_id {
                proof {
                    lemma_first_evolution_extend(es, evolution_id, i + 1);
                }
                return Some(i);
            }
        }
        proof {
            assert(es.take(n as int) =~= es);
        }
        None
    }
}

impl Default for SchemaEvolutionEngine {
    /// The same as `SchemaEvolutionEngine::new()`.
    fn default() -> (r: Self)
        ensures
            r.active().len() == 0,
            r.history().len() == 0,
            r.negotiations().len() == 0,
    {
        Self::new()
    }
}

} // verus!
