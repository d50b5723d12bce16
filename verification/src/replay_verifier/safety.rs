//! The replay safety guard: bounded replay attempts per partition, and the conditions
//! under which events may be replayed into a chain.
use vstd::prelude::*;
use crate::env::{fresh_id, now_millis};
use crate::error::SyncEngineError;
use crate::store::{KeyedStore, lookup};
use crate::text::{cat2, cat3, cat5, owned, id_text, uuid_text, u64_text, decimal};

verus! {

/// Bounds replays per partition.
pub struct ReplaySafetyGuard {
    max_replay_attempts: u32,
    replay_attempts: KeyedStore<u32>,
    safety_token: u128,
}

/// Permission for one replay.
#[derive(Debug)]
pub struct ReplayAuthorization {
    pub token: u128,
    pub partition_key: String,
    pub attempt_number: u32,
    /// Milliseconds since the Unix epoch.
    pub authorized_at: i64,
}

/// What the guard reads of an event chain: whether it is sealed and the events it holds.
#[derive(Debug, Clone)]
pub struct ChainView {
    pub sealed: bool,
    pub event_ids: Vec<u128>,
}

/// What the guard reads of an event to replay.
#[derive(Debug, Clone, Copy)]
pub struct ReplayEvent {
    pub event_id: u128,
    /// Milliseconds since the Unix epoch.
    pub created_at: i64,
}

/// The first position from `k` on whose event is later than the next event, if any.
pub open spec fn first_unordered_from(events: Seq<ReplayEvent>, k: int) -> Option<int>
    decreases events.len() - k,
{
    if k < 0 || k + 1 >= events.len() {
        None
    } else if events[k].created_at > events[k + 1].created_at {
        Some(k)
    } else {
        first_unordered_from(events, k + 1)
    }
}

/// The first position from `q` on whose event repeats an earlier one, if any.
pub open spec fn first_repeat_from(events: Seq<ReplayEvent>, q: int) -> Option<int>
    decreases events.len() - q,
{
    if q < 0 || q >= events.len() {
        None
    } else if exists|j: int| 0 <= j < q && #[trigger] events[j].event_id == events[q].event_id {
        Some(q)
    } else {
        first_repeat_from(events, q + 1)
    }
}

/// The first position from `q` on whose event the chain already holds, if any.
pub open spec fn first_chained_from(events: Seq<ReplayEvent>, chain_ids: Seq<u128>, q: int) -> Option<int>
    decreases events.len() - q,
{
    if q < 0 || q >= events.len() {
        None
    } else if chain_ids.contains(events[q].event_id) {
        Some(q)
    } else {
        first_chained_from(events, chain_ids, q + 1)
    }
}

/// Why a replay is unsafe, checked in this order: the chain is sealed; two consecutive
/// events are out of order (the first such pair); an event repeats an earlier one (the
/// first repetition); an event is already in the chain (the first such event).
pub open spec fn replay_refusal(chain: ChainView, events: Seq<ReplayEvent>) -> Option<Seq<char>> {
    if chain.sealed {
        Some("Cannot replay into a sealed chain"@)
    } else if let Some(k) = first_unordered_from(events, 0) {
        Some("Replay safety violation: events out of order ("@ + uuid_text(events[k + 1].event_id) + " before "@
            + uuid_text(events[k].event_id) + ")"@)
    } else if let Some(q) = first_repeat_from(events, 0) {
        Some("Replay safety violation: duplicate event "@ + uuid_text(events[q].event_id))
    } else if let Some(q) = first_chained_from(events, chain.event_ids@, 0) {
        Some("Replay safety violation: event "@ + uuid_text(events[q].event_id) + " already in chain"@)
    } else {
        None
    }
}

impl ReplaySafetyGuard {
    /// The replay attempts counted per partition.
    pub closed spec fn attempts(&self) -> Seq<(String, u32)> {
        self.replay_attempts.entries()
    }

    /// The number of replay attempts counted for `partition_key`.
    pub open spec fn attempts_for(&self, partition_key: Seq<char>) -> u32 {
        match lookup(self.attempts(), partition_key) {
            Some(n) => n,
            None => 0,
        }
    }

    /// The most replay attempts allowed per partition.
    pub closed spec fn limit(&self) -> u32 {
        self.max_replay_attempts
    }

    /// A guard allowing `max_replay_attempts` replays per partition, with none made.
    pub fn new(max_replay_attempts: u32) -> (r: Self)
        ensures
            r.limit() == max_replay_attempts,
            forall|p: Seq<char>| #[trigger] r.attempts_for(p) == 0,
    {
        ReplaySafetyGuard { max_replay_attempts, replay_attempts: KeyedStore::new(), safety_token: fresh_id() }
    }

    /// Counts a replay attempt on `partition_key` and authorises it when the count stays
    /// within the limit; the attempt is counted either way.
    pub fn authorize_replay(&mut self, partition_key: &str) -> (r: Result<ReplayAuthorization, SyncEngineError>)
        requires
            old(self).attempts_for(partition_key@) < u32::MAX,
        ensures
            final(self).attempts_for(partition_key@) == old(self).attempts_for(partition_key@) + 1,
            forall|p: Seq<char>| p != partition_key@ ==> #[trigger] final(self).attempts_for(p) == old(self).attempts_for(p),
            final(self).limit() == old(self).limit(),
            (r is Ok) == (final(self).attempts_for(partition_key@) <= old(self).limit()),
            r matches Ok(a) ==> a.partition_key@ == partition_key@ && a.attempt_number == final(self).attempts_for(partition_key@),
            r matches Err(e) ==> (e matches SyncEngineError::Recovery(m) && m@ == "Replay blocked: partition "@ + partition_key@
                + " exceeded max attempts ("@ + decimal(old(self).limit() as nat) + ")"@),
    {
        let count: u32 = match self.replay_attempts.get(partition_key) {
            Some(n) => *n,
            None => 0,
        };
        let attempts = count + 1;
        let ghost before = self.replay_attempts.entries();
        let key = owned(partition_key);
        let ghost kg = key;
        self.replay_attempts.insert(key, attempts);
        proof {
            crate::store::lemma_lookup_after_store(before, kg, attempts, partition_key@);
            assert forall|p: Seq<char>| p != partition_key@ implies #[trigger] self.attempts_for(p) == old(self).attempts_for(p) by {
                crate::store::lemma_lookup_after_store(before, kg, attempts, p);
            }
        }
        if attempts > self.max_replay_attempts {
            let limit = u64_text(self.max_replay_attempts as u64);
            return Err(SyncEngineError::Recovery(cat5("Replay blocked: partition ", partition_key,
                " exceeded max attempts (", limit.as_str(), ")")));
        }
        Ok(ReplayAuthorization {
            token: fresh_id(),
            partition_key: owned(partition_key),
            attempt_number: attempts,
            authorized_at: now_millis(),
        })
    }

    /// Checks that `events` may be replayed into `chain` (see `replay_refusal`).
    pub fn verify_replay_safety(&self, chain: &ChainView, events: &[ReplayEvent]) -> (r: Result<(), SyncEngineError>)
        ensures
            match replay_refusal(*chain, events@) {
                None => r is Ok,
                Some(m) => r matches Err(e) && e matches SyncEngineError::Recovery(em) && em@ == m,
            },
    {
        if chain.sealed {
            return Err(SyncEngineError::Recovery(owned("Cannot replay into a sealed chain")));
        }
        let n = events.len();
        let mut k: usize = 0;
        while n > 0 && k < n - 1
            invariant
                n == events@.len(),
                !chain.sealed,
                first_unordered_from(events@, 0) == first_unordered_from(events@, k as int),
            decreases n - k,
        {
            if events[k].created_at > events[k + 1].created_at {
                assert(first_unordered_from(events@, k as int) == Some(k as int));
                let later = id_text(events[k + 1].event_id);
                let earlier = id_text(events[k].event_id);
                return Err(SyncEngineError::Recovery(cat5("Replay safety violation: events out of order (",
                    later.as_str(), " before ", earlier.as_str(), ")")));
            }
            k = k + 1;
        }
        let mut q: usize = 0;
        while q < n
            invariant
                n == events@.len(),
                !chain.sealed,
                first_unordered_from(events@, 0) is None,
                first_repeat_from(events@, 0) == first_repeat_from(events@, q as int),
            decreases n - q,
        {
            let mut j: usize = 0;
            while j < q
                invariant
                    q < n,
                    n == events@.len(),
                    !chain.sealed,
                    first_unordered_from(events@, 0) is None,
                    first_repeat_from(events@, 0) == first_repeat_from(events@, q as int),
                    j <= q,
                    forall|a: int| 0 <= a < j ==> events@[a].event_id != events@[q as int].event_id,
                decreases q - j,
            {
                if events[j].event_id == events[q].event_id {
                    assert(events@[j as int].event_id == events@[q as int].event_id);
                    assert(first_repeat_from(events@, q as int) == Some(q as int));
                    let id = id_text(events[q].event_id);
                    return Err(SyncEngineError::Recovery(cat2("Replay safety violation: duplicate event ", id.as_str())));
                }
                j = j + 1;
            }
            q = q + 1;
        }
        let mut q: usize = 0;
        while q < n
            invariant
                n == events@.len(),
                !chain.sealed,
                first_unordered_from(events@, 0) is None,
                first_repeat_from(events@, 0) is None,
                first_chained_from(events@, chain.event_ids@, 0) == first_chained_from(events@, chain.event_ids@, q as int),
            decreases n - q,
        {
            let m = chain.event_ids.len();
            let mut j: usize = 0;
            while j < m
                invariant
                    q < n,
                    n == events@.len(),
                    !chain.sealed,
                    first_unordered_from(events@, 0) is None,
                    first_repeat_from(events@, 0) is None,
                    first_chained_from(events@, chain.event_ids@, 0) == first_chained_from(events@, chain.event_ids@, q as int),
                    m == chain.event_ids@.len(),
                    j <= m,
                    forall|a: int| 0 <= a < j ==> chain.event_ids@[a] != events@[q as int].event_id,
                decreases m - j,
            {
                if chain.event_ids[j] == events[q].event_id {
                    assert(chain.event_ids@[j as int] == events@[q as int].event_id);
                    assert(chain.event_ids@.contains(events@[q as int].event_id));
                    assert(first_chained_from(events@, chain.event_ids@, q as int) == Some(q as int));
                    let id = id_text(events[q].event_id);
                    return Err(SyncEngineError::Recovery(cat3("Replay safety violation: event ", id.as_str(), " already in chain")));
                }
                j = j + 1;
            }
            q = q + 1;
        }
        Ok(())
    }

    /// Forgets the replay attempts on `partition_key`.
    pub fn reset_attempts(&mut self, partition_key: &str)
        ensures
            final(self).attempts_for(partition_key@) == 0,
            forall|p: Seq<char>| p != partition_key@ ==> #[trigger] final(self).attempts_for(p) == old(self).attempts_for(p),
            final(self).limit() == old(self).limit(),
    {
        self.replay_attempts.remove(partition_key);
    }
}

} // verus!
