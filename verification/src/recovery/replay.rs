//! Replay of events from a checkpoint, and the check that a replay reproduced them.
use vstd::prelude::*;
use crate::recovery::checkpoint::CheckpointRecoverer;
use crate::crypto::bytes_eq;
use crate::error::SyncEngineError;
use crate::text::{cat3, u64_text, decimal};
use crate::store::{KeyedStore, has_key, lookup, stored, lemma_lookup_after_store};

verus! {

/// Replays events in batches, optionally checking the Merkle root after each.
pub struct ReplayEngine {
    pub batch_size: u32,
    pub verify_merkle: bool,
    pub checkpoint_recoverer: CheckpointRecoverer,
}

/// The outcome of a replay.
#[derive(Debug)]
pub struct ReplayResult {
    pub events_applied: u32,
    pub events_skipped: u32,
    pub total_batches: u32,
    pub final_merkle_root: Vec<u8>,
    pub success: bool,
}

/// The tree holds a leaf with hash `h`.
pub open spec fn leaf_matches(leaf: Option<Vec<u8>>, h: Seq<u8>) -> bool {
    match leaf {
        Some(l) => l@ == h,
        None => false,
    }
}

/// Every event's record is in the replayed tree with the hash computed for the event.
pub open spec fn replay_reproduced(record_hashes: Seq<Vec<u8>>, leaf_hashes: Seq<Option<Vec<u8>>>) -> bool {
    forall|i: int| 0 <= i < record_hashes.len() ==>
        leaf_matches(#[trigger] leaf_hashes[i], record_hashes[i]@)
}

/// The leaves of a tree held as entries under record ids: each id's leaf hash.
pub open spec fn leaf_view(es: Seq<(String, Vec<u8>)>) -> Map<Seq<char>, Seq<u8>> {
    Map::new(|k: Seq<char>| has_key(es, k), |k: Seq<char>| lookup(es, k)->0@)
}

/// The tree already holds the record `id` with leaf hash `h`.
pub open spec fn holds_leaf(leaves: Map<Seq<char>, Seq<u8>>, id: Seq<char>, h: Seq<u8>) -> bool {
    leaves.contains_key(id) && leaves[id] == h
}

/// The leaves after replaying the first `m` events (record ids `ids`, record hashes
/// `hashes`) onto `l0`: an event whose record the tree holds with the same hash is
/// skipped, any other stores its hash under its record id.
pub open spec fn leaves_after(ids: Seq<String>, hashes: Seq<Vec<u8>>, l0: Map<Seq<char>, Seq<u8>>, m: nat) -> Map<Seq<char>, Seq<u8>>
    decreases m,
{
    if m == 0 {
        l0
    } else {
        let prev = leaves_after(ids, hashes, l0, (m - 1) as nat);
        if holds_leaf(prev, ids[m - 1]@, hashes[m - 1]@) {
            prev
        } else {
            prev.insert(ids[m - 1]@, hashes[m - 1]@)
        }
    }
}

/// How many of the first `m` events are skipped when replayed onto `l0`.
pub open spec fn skipped_after(ids: Seq<String>, hashes: Seq<Vec<u8>>, l0: Map<Seq<char>, Seq<u8>>, m: nat) -> nat
    decreases m,
{
    if m == 0 {
        0
    } else {
        skipped_after(ids, hashes, l0, (m - 1) as nat)
            + if holds_leaf(leaves_after(ids, hashes, l0, (m - 1) as nat), ids[m - 1]@, hashes[m - 1]@) { 1nat } else { 0nat }
    }
}

/// Batch `k` ends with a root that differs from the checkpoint's stored root, while roots
/// are checked and the checkpoint has one; `roots[k + 1]` is the root after batch `k`.
pub open spec fn batch_mismatch(verify_merkle: bool, stored_root: Seq<u8>, roots: Seq<Vec<u8>>, k: int) -> bool {
    verify_merkle && stored_root.len() > 0 && stored_root != roots[k + 1]@
}

/// `e` is the corruption error that reports a root mismatch after batch `k`.
pub open spec fn replay_mismatch_error(e: SyncEngineError, k: nat) -> bool {
    e matches SyncEngineError::Corruption(m) && m@ == "Merkle root mismatch at batch "@ + decimal(k) + " during replay"@
}

/// Storing `v` under `k` sets the leaf of `k@` to `v@` and leaves the others.
proof fn lemma_leaf_view_store(es: Seq<(String, Vec<u8>)>, k: String, v: Vec<u8>)
    requires
        crate::store::keys_distinct(es),
    ensures
        leaf_view(stored(es, k, v)) == leaf_view(es).insert(k@, v@),
{
    let t = stored(es, k, v);
    assert forall|x: Seq<char>| #[trigger] leaf_view(t).contains_key(x) == leaf_view(es).insert(k@, v@).contains_key(x) by {
        lemma_lookup_after_store(es, k, v, x);
    }
    assert forall|x: Seq<char>| leaf_view(t).contains_key(x) implies #[trigger] leaf_view(t)[x] == leaf_view(es).insert(k@, v@)[x] by {
        lemma_lookup_after_store(es, k, v, x);
    }
    assert(leaf_view(t) =~= leaf_view(es).insert(k@, v@));
}

/// The batches of a replay are contiguous, non-empty, fewer than the events, and end at
/// the last event.
proof fn lemma_ranges_contiguous(n: nat, size: nat, k: int)
    requires
        size > 0,
        0 <= k < batch_ranges(n, size).len(),
    ensures
        batch_ranges(n, size).len() <= n,
        batch_ranges(n, size)[k].0 < batch_ranges(n, size)[k].1 <= n,
        k == 0 ==> batch_ranges(n, size)[k].0 == 0,
        k > 0 ==> batch_ranges(n, size)[k].0 == batch_ranges(n, size)[k - 1].1,
        k == batch_ranges(n, size).len() - 1 ==> batch_ranges(n, size)[k].1 == n,
{
    let len = if n % size == 0 { n / size } else { n / size + 1 };
    assert(k * size < n && len <= n && (k + 1 == len ==> (k + 1) * size >= n)) by (nonlinear_arith)
        requires
            size > 0,
            0 <= k < len,
            len == (if n % size == 0 { n / size } else { n / size + 1 }),
    {
        let q = n / size;
        let m = n % size;
        assert(n == q * size + m);
        assert(k * size <= (len - 1) * size);
        if m == 0 {
            assert((q - 1) * size == n - size);
        } else {
            assert(q * size < n);
        }
        assert(len <= n) by {
            if m == 0 {
                assert(q * size >= q);
            } else {
                assert(q * size >= q);
            }
        }
    }
    assert((k + 1) * size == k * size + size) by (nonlinear_arith);
    if k > 0 {
        assert((k - 1 + 1) * size == k * size) by (nonlinear_arith);
    }
    assert(0int * (size as int) == 0) by (nonlinear_arith);
}

impl ReplayEngine {
    /// Replays events from a checkpoint whose stored Merkle root is `stored_root`: event
    /// `i` is the record `ids[i]` with record hash `hashes[i]`, and `leaves` holds the
    /// leaf hash of each record in the tree. The events go in batches of `batch_size`;
    /// in each, an event whose record the tree holds with the same hash is skipped and any
    /// other stores its hash. `roots[0]` is the tree's root before the replay and
    /// `roots[k + 1]` its root after batch `k`. When roots are checked and the checkpoint
    /// has a stored root, the first batch after which the root differs from it stops the
    /// replay with a corruption error naming that batch.
    pub fn replay_events(
        &self,
        stored_root: &[u8],
        ids: &[String],
        hashes: &[Vec<u8>],
        leaves: &mut KeyedStore<Vec<u8>>,
        roots: &[Vec<u8>],
    ) -> (r: Result<ReplayResult, SyncEngineError>)
        requires
            self.batch_size > 0,
            ids@.len() == hashes@.len(),
            ids@.len() < u32::MAX,
            roots@.len() == batch_ranges(ids@.len() as nat, self.batch_size as nat).len() + 1,
        ensures
            ({
                let n = ids@.len() as nat;
                let ranges = batch_ranges(n, self.batch_size as nat);
                let l0 = leaf_view(old(leaves).entries());
                match r {
                    Ok(res) => {
                        &&& forall|k: int| 0 <= k < ranges.len() ==> !batch_mismatch(self.verify_merkle, stored_root@, roots@, k)
                        &&& res.events_skipped == skipped_after(ids@, hashes@, l0, n)
                        &&& res.events_applied == n - skipped_after(ids@, hashes@, l0, n)
                        &&& res.total_batches == ranges.len()
                        &&& res.final_merkle_root@ == roots@[ranges.len() as int]@
                        &&& res.success
                        &&& leaf_view(final(leaves).entries()) == leaves_after(ids@, hashes@, l0, n)
                    },
                    Err(e) => exists|k: int| {
                        &&& 0 <= k < ranges.len()
                        &&& #[trigger] batch_mismatch(self.verify_merkle, stored_root@, roots@, k)
                        &&& forall|j: int| 0 <= j < k ==> !batch_mismatch(self.verify_merkle, stored_root@, roots@, j)
                        &&& replay_mismatch_error(e, k as nat)
                        &&& leaf_view(final(leaves).entries()) == leaves_after(ids@, hashes@, l0, ranges[k].1)
                    },
                }
            }),
    {
        let n = ids.len();
        let ghost size = self.batch_size as nat;
        let ghost ranges = batch_ranges(n as nat, size);
        let ghost l0 = leaf_view(leaves.entries());
        let batches = replay_batches(n, self.batch_size);
        let nb = batches.len();
        let mut progress = ReplayProgress::new();
        let mut pos: usize = 0;
        proof {
            assert(nb == 0 ==> n == 0) by (nonlinear_arith)
                requires
                    size > 0,
                    nb == (if n as nat % size == 0 { n as nat / size } else { n as nat / size + 1 }),
            {
            }
        }
        for b in 0..nb
            invariant
                nb == batches@.len(),
                nb == ranges.len(),
                size == self.batch_size,
                size > 0,
                ranges == batch_ranges(n as nat, size),
                n == ids@.len(),
                n == hashes@.len(),
                n < u32::MAX,
                roots@.len() == nb + 1,
                forall|k: int| 0 <= k < batches@.len() ==> (#[trigger] batches@[k]).0 == ranges[k].0
                    && batches@[k].1 == ranges[k].1,
                l0 == leaf_view(old(leaves).entries()),
                pos == (if b == 0 { 0 } else { ranges[b - 1].1 }),
                pos <= n,
                b > 0 && b == nb ==> pos == n,
                b == 0 && nb == 0 ==> n == 0,
                progress.batch_seq == b,
                progress.events_skipped == skipped_after(ids@, hashes@, l0, pos as nat),
                progress.events_applied + progress.events_skipped == pos,
                leaf_view(leaves.entries()) == leaves_after(ids@, hashes@, l0, pos as nat),
                forall|k: int| 0 <= k < b ==> !batch_mismatch(self.verify_merkle, stored_root@, roots@, k),
        {
            proof {
                lemma_ranges_contiguous(n as nat, size, b as int);
                if b as int == nb - 1 {
                    assert(ranges[b as int].1 == n);
                }
            }
            let start = batches[b].0;
            let end = batches[b].1;
            for i in start..end
                invariant
                    start == pos,
                    end <= n,
                    n == ids@.len(),
                    n == hashes@.len(),
                    n < u32::MAX,
                    progress.batch_seq == b,
                    progress.events_skipped == skipped_after(ids@, hashes@, l0, i as nat),
                    progress.events_applied + progress.events_skipped == i,
                    leaf_view(leaves.entries()) == leaves_after(ids@, hashes@, l0, i as nat),
            {
                let present = match leaves.get(ids[i].as_str()) {
                    Some(l) => bytes_eq(l.as_slice(), hashes[i].as_slice()),
                    None => false,
                };
                let ghost before = leaves.entries();
                proof {
                    assert(present == holds_leaf(leaf_view(before), ids@[i as int]@, hashes@[i as int]@));
                }
                let apply = progress.record_event(present);
                if apply {
                    let key = ids[i].clone();
                    let value = hashes[i].clone();
                    leaves.insert(key, value);
                    proof {
                        lemma_leaf_view_store(before, key, value);
                        assert(leaf_view(leaves.entries()) =~= leaves_after(ids@, hashes@, l0, (i + 1) as nat));
                    }
                }
            }
            let ghost pb = progress;
            match progress.close_batch(self.verify_merkle, stored_root, roots[b + 1].as_slice()) {
                Ok(()) => {},
                Err(e) => {
                    proof {
                        assert(batch_mismatch(self.verify_merkle, stored_root@, roots@, b as int));
                        assert(ranges[b as int].1 == end);
                        assert(pb.batch_seq as nat == b as nat);
                        assert(leaf_view(leaves.entries()) == leaves_after(ids@, hashes@, l0, ranges[b as int].1));
                        let k = b as int;
                        assert(replay_mismatch_error(e, k as nat));
                        assert(forall|j: int| 0 <= j < k ==> !batch_mismatch(self.verify_merkle, stored_root@, roots@, j));
                    }
                    return Err(e);
                },
            }
            pos = end;
        }
        proof {
            if nb == 0 {
                assert(pos == n);
            }
        }
        let last = roots[nb].clone();
        proof {
            assert(last@ =~= roots@[nb as int]@);
            assert(pos == n);
        }
        Ok(progress.finish(last))
    }

    /// An engine replaying `batch_size` events at a time.
    pub fn new(batch_size: u32, verify_merkle: bool, checkpoint_recoverer: CheckpointRecoverer) -> (r: Self)
        ensures
            r.batch_size == batch_size,
            r.verify_merkle == verify_merkle,
            r.checkpoint_recoverer == checkpoint_recoverer,
    {
        ReplayEngine { batch_size, verify_merkle, checkpoint_recoverer }
    }

    /// Whether a replay reproduced the original events: for each event, in order, the
    /// replayed tree holds a leaf for its record (`leaf_hashes[i]`, absent when the tree
    /// has none) whose hash is the one computed for the event (`record_hashes[i]`).
    pub fn verify_replay_integrity(&self, record_hashes: &[Vec<u8>], leaf_hashes: &[Option<Vec<u8>>]) -> (r: bool)
        requires
            record_hashes@.len() == leaf_hashes@.len(),
        ensures
            r == replay_reproduced(record_hashes@, leaf_hashes@),
    {
        let n = record_hashes.len();
        for i in 0..n
            invariant
                n == record_hashes@.len(),
                n == leaf_hashes@.len(),
                forall|k: int| 0 <= k < i ==> leaf_matches(#[trigger] leaf_hashes@[k], record_hashes@[k]@),
        {
            match &leaf_hashes[i] {
                Some(h) => {
                    if !bytes_eq(h.as_slice(), record_hashes[i].as_slice()) {
                        return false;
                    }
                },
                None => {
                    return false;
                },
            }
        }
        true
    }
}

/// The progress of a replay through its events and batches.
#[derive(Debug, Clone, Copy, PartialEq, Eq, Structural)]
pub struct ReplayProgress {
    pub events_applied: u32,
    pub events_skipped: u32,
    pub batch_seq: u32,
}

/// The batches a replay takes `n` events in: consecutive ranges of `size` events, the
/// last one possibly shorter.
pub open spec fn batch_ranges(n: nat, size: nat) -> Seq<(nat, nat)>
    recommends
        size > 0,
{
    Seq::new(if n % size == 0 { n / size } else { n / size + 1 },
        |k: int| ((k * size) as nat, (if (k + 1) * size <= n { (k + 1) * size } else { n as int }) as nat))
}

impl ReplayProgress {
    /// No event replayed and no batch closed.
    pub fn new() -> (r: Self)
        ensures
            r == (ReplayProgress { events_applied: 0, events_skipped: 0, batch_seq: 0 }),
    {
        ReplayProgress { events_applied: 0, events_skipped: 0, batch_seq: 0 }
    }

    /// Accounts for one event: one whose record the tree already holds with the same hash
    /// is skipped, any other is applied. Returns whether to apply it.
    pub fn record_event(&mut self, already_present: bool) -> (apply: bool)
        requires
            old(self).events_applied < u32::MAX,
            old(self).events_skipped < u32::MAX,
        ensures
            apply == !already_present,
            *final(self) == (if already_present {
                ReplayProgress { events_skipped: (old(self).events_skipped + 1) as u32, ..*old(self) }
            } else {
                ReplayProgress { events_applied: (old(self).events_applied + 1) as u32, ..*old(self) }
            }),
    {
        if already_present {
            self.events_skipped = self.events_skipped + 1;
            false
        } else {
            self.events_applied = self.events_applied + 1;
            true
        }
    }

    /// Closes a batch. When roots are checked and the checkpoint has a stored root, a
    /// root computed after the batch that differs from it is corruption; otherwise the
    /// batch count goes up.
    pub fn close_batch(&mut self, verify_merkle: bool, stored_root: &[u8], computed_root: &[u8]) -> (r: Result<(), SyncEngineError>)
        requires
            old(self).batch_seq < u32::MAX,
        ensures
            (r is Err) <==> (verify_merkle && stored_root@.len() > 0 && stored_root@ != computed_root@),
            r is Ok ==> *final(self) == (ReplayProgress { batch_seq: (old(self).batch_seq + 1) as u32, ..*old(self) }),
            r is Err ==> *final(self) == *old(self),
            r matches Err(e) ==> e matches SyncEngineError::Corruption(m) && m@ == "Merkle root mismatch at batch "@
                + decimal(old(self).batch_seq as nat) + " during replay"@,
    {
        if verify_merkle && stored_root.len() > 0 && !bytes_eq(stored_root, computed_root) {
            let n = u64_text(self.batch_seq as u64);
            return Err(SyncEngineError::Corruption(cat3("Merkle root mismatch at batch ", n.as_str(), " during replay")));
        }
        self.batch_seq = self.batch_seq + 1;
        Ok(())
    }

    /// The result of a replay that went through every batch, ending at `final_root`.
    pub fn finish(&self, final_root: Vec<u8>) -> (r: ReplayResult)
        ensures
            r.events_applied == self.events_applied,
            r.events_skipped == self.events_skipped,
            r.total_batches == self.batch_seq,
            r.final_merkle_root == final_root,
            r.success,
    {
        ReplayResult {
            events_applied: self.events_applied,
            events_skipped: self.events_skipped,
            total_batches: self.batch_seq,
            final_merkle_root: final_root,
            success: true,
        }
    }
}

pub proof fn lemma_batch_count(len: nat, size: nat, n: nat)
    requires
        size > 0,
        len * size >= n,
        len > 0 ==> (len - 1) * size < n,
    ensures
        len == (if n % size == 0 { n / size } else { n / size + 1 }),
{
    assert(len == (if n % size == 0 { n / size } else { n / size + 1 })) by (nonlinear_arith)
        requires
            size > 0,
            len * size >= n,
            len > 0 ==> (len - 1) * size < n,
    {
        let q = n / size;
        let m = n % size;
        assert(n == q * size + m);
        if len > q + 1 {
            assert((len - 1) * size >= (q + 1) * size);
        }
        if len < q {
            assert(len * size <= (q - 1) * size);
        }
        if len == q && m != 0 {
            assert(len * size < n);
        }
        if len == q + 1 && m == 0 {
            assert((len - 1) * size == n);
        }
    }
}

pub proof fn lemma_batch_index(k: nat, size: nat, n: nat)
    requires
        size > 0,
        k * size < n,
    ensures
        k < (if n % size == 0 { n / size } else { n / size + 1 }),
{
    assert(k < (if n % size == 0 { n / size } else { n / size + 1 })) by (nonlinear_arith)
        requires
            size > 0,
            k * size < n,
    {
        let q = n / size;
        let m = n % size;
        assert(n == q * size + m);
        if k >= q + 1 {
            assert(k * size >= (q + 1) * size);
        }
        if k == q && m == 0 {
            assert(k * size == n);
        }
    }
}

/// The index ranges of the batches in which `n` events are replayed, `batch_size` at a time.
pub fn replay_batches(n: usize, batch_size: u32) -> (r: Vec<(usize, usize)>)
    requires
        batch_size > 0,
    ensures
        r@.len() == batch_ranges(n as nat, batch_size as nat).len(),
        forall|k: int| 0 <= k < r@.len() ==> (#[trigger] r@[k]).0 == batch_ranges(n as nat, batch_size as nat)[k].0
            && r@[k].1 == batch_ranges(n as nat, batch_size as nat)[k].1,
{
    let size = batch_size as usize;
    let mut r: Vec<(usize, usize)> = Vec::new();
    let mut start: usize = 0;
    assert(r@.len() * size == 0) by (nonlinear_arith)
        requires
            r@.len() == 0,
    {
    }
    while start < n
        invariant
            size == batch_size,
            size > 0,
            start <= n,
            start < n ==> start == r@.len() * size,
            r@.len() * size >= start,
            r@.len() > 0 ==> (r@.len() - 1) * size < n,
            forall|k: int| 0 <= k < r@.len() ==> (#[trigger] r@[k]).0 == batch_ranges(n as nat, size as nat)[k].0
                && r@[k].1 == batch_ranges(n as nat, size as nat)[k].1,
        decreases n - start,
    {
        let end = if n - start > size { start + size } else { n };
        proof {
            let k = r@.len() as nat;
            lemma_batch_index(k, size as nat, n as nat);
            assert(k * size + size == (k + 1) * size) by (nonlinear_arith);
        }
        r.push((start, end));
        start = end;
    }
    proof {
        lemma_batch_count(r@.len(), size as nat, n as nat);
    }
    r
}

} // verus!
