//! Reconciliation: counting, per record, what conflicts between the two sides settle
//! automatically and what needs a person.
use vstd::prelude::*;
use crate::error::SyncEngineError;
use crate::records::{SyncPhase, SyncRecord, VersionOrder, version_order};
use crate::protocol::SyncSession;
use crate::reconciliation::strategy::ConflictStrategy;
use crate::reconciliation::resolver::Resolver;
use crate::text::str_eq;

verus! {

/// The tallies of a reconciliation.
#[derive(Debug)]
pub struct ReconciliationResult {
    pub resolved_count: u32,
    pub escalated_count: u32,
    pub auto_resolved: u32,
    pub manual_required: u32,
    pub completed: bool,
}

/// The position of the last of the first `n` records with identifier `id`, if any.
pub open spec fn latest_at(recs: Seq<SyncRecord>, id: Seq<char>, n: int) -> Option<int>
    decreases n,
{
    if n <= 0 {
        None
    } else if recs[n - 1].record_id@ == id {
        Some(n - 1)
    } else {
        latest_at(recs, id, n - 1)
    }
}

/// The position of the last record with identifier `id`, if any: a later record with the
/// same identifier replaces an earlier one.
pub open spec fn latest(recs: Seq<SyncRecord>, id: Seq<char>) -> Option<int> {
    latest_at(recs, id, recs.len() as int)
}

/// The distinct identifiers of the first `n` records, in order of first occurrence.
pub open spec fn distinct_ids(recs: Seq<SyncRecord>, n: int) -> Seq<Seq<char>>
    decreases n,
{
    if n <= 0 {
        Seq::empty()
    } else {
        let prev = distinct_ids(recs, n - 1);
        if prev.contains(recs[n - 1].record_id@) { prev } else { prev.push(recs[n - 1].record_id@) }
    }
}

/// The tallies (resolved, escalated, automatic, manual) contributed by one identifier: an
/// identifier on one side only is resolved; one on both sides whose versions are
/// concurrent is settled automatically, or escalated when the strategy of the local
/// record's type is manual; one on both sides whose versions are ordered adds nothing.
pub open spec fn key_tally(id: Seq<char>, local: Seq<SyncRecord>, remote: Seq<SyncRecord>, strategy_of: spec_fn(Seq<char>) -> ConflictStrategy) -> (int, int, int, int) {
    match (latest(local, id), latest(remote, id)) {
        (Some(l), Some(r)) => if version_order(local[l].version_vector.clocks@, remote[r].version_vector.clocks@) == VersionOrder::Concurrent {
            if strategy_of(local[l].record_type@) == ConflictStrategy::Manual { (0, 1, 0, 1) } else { (1, 0, 1, 0) }
        } else {
            (0, 0, 0, 0)
        },
        _ => (1, 0, 0, 0),
    }
}

/// The tallies over the first `n` identifiers of `keys`.
pub open spec fn tally(keys: Seq<Seq<char>>, n: int, local: Seq<SyncRecord>, remote: Seq<SyncRecord>, strategy_of: spec_fn(Seq<char>) -> ConflictStrategy) -> (int, int, int, int)
    decreases n,
{
    if n <= 0 {
        (0, 0, 0, 0)
    } else {
        let t = tally(keys, n - 1, local, remote, strategy_of);
        let k = key_tally(keys[n - 1], local, remote, strategy_of);
        (t.0 + k.0, t.1 + k.1, t.2 + k.2, t.3 + k.3)
    }
}

/// The identifiers visited: those of the local records, then those of the remote records.
pub open spec fn visited_ids(local: Seq<SyncRecord>, remote: Seq<SyncRecord>) -> Seq<Seq<char>> {
    distinct_ids(local, local.len() as int) + distinct_ids(remote, remote.len() as int)
}

proof fn lemma_distinct_ids_len(recs: Seq<SyncRecord>, n: int)
    requires
        0 <= n <= recs.len(),
    ensures
        distinct_ids(recs, n).len() <= n,
    decreases n,
{
    if n > 0 {
        lemma_distinct_ids_len(recs, n - 1);
    }
}

proof fn lemma_tally_bounded(keys: Seq<Seq<char>>, n: int, local: Seq<SyncRecord>, remote: Seq<SyncRecord>, strategy_of: spec_fn(Seq<char>) -> ConflictStrategy)
    requires
        0 <= n,
    ensures
        0 <= tally(keys, n, local, remote, strategy_of).0 <= n,
        0 <= tally(keys, n, local, remote, strategy_of).1 <= n,
        0 <= tally(keys, n, local, remote, strategy_of).2 <= n,
        0 <= tally(keys, n, local, remote, strategy_of).3 <= n,
    decreases n,
{
    if n > 0 {
        lemma_tally_bounded(keys, n - 1, local, remote, strategy_of);
    }
}

proof fn lemma_latest_in_range(recs: Seq<SyncRecord>, id: Seq<char>, n: int)
    requires
        0 <= n <= recs.len(),
    ensures
        latest_at(recs, id, n) matches Some(i) ==> 0 <= i < n && recs[i].record_id@ == id,
    decreases n,
{
    if n > 0 {
        lemma_latest_in_range(recs, id, n - 1);
    }
}

fn latest_index(recs: &[SyncRecord], id: &str) -> (r: Option<usize>)
    ensures
        match r {
            Some(i) => latest(recs@, id@) == Some(i as int),
            None => latest(recs@, id@) is None,
        },
{
    let mut k = recs.len();
    while k > 0
        invariant
            k <= recs@.len(),
            latest(recs@, id@) == latest_at(recs@, id@, k as int),
        decreases k,
    {
        if str_eq(recs[k - 1].record_id.as_str(), id) {
            return Some(k - 1);
        }
        k = k - 1;
    }
    None
}

fn distinct_record_ids(recs: &[SyncRecord]) -> (r: Vec<String>)
    ensures
        crate::text::strs_view(r@) == distinct_ids(recs@, recs@.len() as int),
{
    let n = recs.len();
    let mut ids: Vec<String> = Vec::new();
    for i in 0..n
        invariant
            n == recs@.len(),
            crate::text::strs_view(ids@) == distinct_ids(recs@, i as int),
    {
        let ghost before = crate::text::strs_view(ids@);
        let present = crate::text::list_contains(&ids, recs[i].record_id.as_str());
        proof {
            if present {
                let j = choose|j: int| 0 <= j < ids@.len() && (#[trigger] ids@[j])@ == recs@[i as int].record_id@;
                assert(before[j] == recs@[i as int].record_id@);
            } else {
                assert forall|j: int| 0 <= j < before.len() implies before[j] != recs@[i as int].record_id@ by {
                    assert(ids@[j]@ != recs@[i as int].record_id@);
                }
            }
        }
        if !present {
            ids.push(recs[i].record_id.clone());
            assert(crate::text::strs_view(ids@) =~= before.push(recs@[i as int].record_id@));
        }
    }
    ids
}

/// Reconciles the records of `partition_key`, moving the session to reconciliation. Each
/// distinct identifier is visited once for each side it appears on (local identifiers
/// first), and its tallies added (see `key_tally`); the strategy of a record type is the
/// one the resolver's matrix gives. Reconciliation is complete when nothing needs a
/// person.
pub fn perform_reconciliation(
    session: &mut SyncSession,
    partition_key: &str,
    local_records: &[SyncRecord],
    remote_records: &[SyncRecord],
    resolver: &Resolver,
) -> (r: Result<ReconciliationResult, SyncEngineError>)
    requires
        local_records@.len() + remote_records@.len() <= u32::MAX,
    ensures
        r matches Ok(x) && {
            let t = tally(visited_ids(local_records@, remote_records@), visited_ids(local_records@, remote_records@).len() as int,
                local_records@, remote_records@, |ty: Seq<char>| resolver.matrix.strategy_for(ty));
            &&& x.resolved_count == t.0
            &&& x.escalated_count == t.1
            &&& x.auto_resolved == t.2
            &&& x.manual_required == t.3
            &&& x.completed == (t.3 == 0)
        },
        final(session).current_phase == SyncPhase::Reconciliation,
        final(session).session_id == old(session).session_id,
{
    session.advance_phase(SyncPhase::Reconciliation);
    let ghost strategy_of = |ty: Seq<char>| resolver.matrix.strategy_for(ty);
    let local_ids = distinct_record_ids(local_records);
    let remote_ids = distinct_record_ids(remote_records);
    let ghost keys = visited_ids(local_records@, remote_records@);
    proof {
        lemma_distinct_ids_len(local_records@, local_records@.len() as int);
        lemma_distinct_ids_len(remote_records@, remote_records@.len() as int);
    }
    let mut resolved: u32 = 0;
    let mut escalated: u32 = 0;
    let mut auto: u32 = 0;
    let mut manual: u32 = 0;
    let nl = local_ids.len();
    let nr = remote_ids.len();
    let total = nl + nr;
    for q in 0..total
        invariant
            total == nl + nr,
            nl == local_ids@.len(),
            nr == remote_ids@.len(),
            keys == crate::text::strs_view(local_ids@) + crate::text::strs_view(remote_ids@),
            keys.len() == total,
            total <= u32::MAX,
            strategy_of == (|ty: Seq<char>| resolver.matrix.strategy_for(ty)),
            (resolved as int, escalated as int, auto as int, manual as int) == tally(keys, q as int, local_records@, remote_records@, strategy_of),
    {
        proof {
            lemma_tally_bounded(keys, q as int, local_records@, remote_records@, strategy_of);
        }
        let id: &str = if q < nl { local_ids[q].as_str() } else { remote_ids[q - nl].as_str() };
        assert(id@ == keys[q as int]);
        let l = latest_index(local_records, id);
        let r = latest_index(remote_records, id);
        proof {
            lemma_latest_in_range(local_records@, id@, local_records@.len() as int);
            lemma_latest_in_range(remote_records@, id@, remote_records@.len() as int);
        }
        match (l, r) {
            (Some(li), Some(ri)) => {
                let order = local_records[li].version_vector.compare(&remote_records[ri].version_vector);
                if order == VersionOrder::Concurrent {
                    let strategy = match resolver.matrix.get_strategy(local_records[li].record_type.as_str()) {
                        Some(s) => *s,
                        None => ConflictStrategy::Lww,
                    };
                    if strategy == ConflictStrategy::Manual {
                        manual = manual + 1;
                        escalated = escalated + 1;
                    } else {
                        auto = auto + 1;
                        resolved = resolved + 1;
                    }
                }
            },
            _ => {
                resolved = resolved + 1;
            },
        }
    }
    Ok(ReconciliationResult {
        resolved_count: resolved,
        escalated_count: escalated,
        auto_resolved: auto,
        manual_required: manual,
        completed: manual == 0,
    })
}

} // verus!
