//! Split brains: detection of several peers diverging from a partition, and a healing
//! plan that takes the most divergent peer as authoritative.
use vstd::prelude::*;
use crate::error::SyncEngineError;
use crate::partition_recovery::{PartitionRecoveryContext, PartitionState, TreeView};
use crate::text::{cat2, owned, strs_view, lists, list_contains};
use crate::crypto::bytes_eq;

verus! {

/// Resolves split brains, within a number of attempts.
pub struct SplitBrainResolver {
    pub max_healing_attempts: u32,
}

/// The peers of a partition that diverge from the local tree.
#[derive(Debug)]
pub struct SplitBrainDiagnosis {
    pub partition_key: String,
    pub is_split_brain: bool,
    pub local_root: Vec<u8>,
    pub divergent_peers: Vec<DivergentPeer>,
    pub total_peers: usize,
}

/// A peer whose tree diverges from the local one.
#[derive(Debug, Clone)]
pub struct DivergentPeer {
    pub peer_index: usize,
    pub merkle_root: Vec<u8>,
    pub divergent_records: usize,
    pub divergence_depth: u32,
}

/// How a split brain is healed.
#[derive(Debug)]
pub struct HealingPlan {
    pub partition_key: String,
    pub authoritative_merkle_root: Vec<u8>,
    pub peers_to_reconcile: u32,
    pub strategy: HealingStrategy,
}

/// The ways of healing a split brain.
#[derive(Debug, Clone, Copy, PartialEq, Eq, Structural)]
pub enum HealingStrategy {
    AuthoritativeOverride,
    MergeAll,
    LatestTimestamp,
    ManualIntervention,
}

/// How many of the first `n` keys of `a` are not among the keys of `b`.
pub open spec fn missing_from(a: Seq<String>, b: Seq<String>, n: int) -> nat
    decreases n,
{
    if n <= 0 { 0 } else { missing_from(a, b, n - 1) + (if lists(b, a[n - 1]@) { 0nat } else { 1nat }) }
}

/// The size of the symmetric difference of two sets of keys, each listed once.
pub open spec fn divergence_depth(a: Seq<String>, b: Seq<String>) -> nat {
    missing_from(a, b, a.len() as int) + missing_from(b, a, b.len() as int)
}

/// The peers among the first `n` whose roots differ from the local root and whose trees
/// differ from it in at least one record, in order.
pub open spec fn divergent_among(local: TreeView, remotes: Seq<TreeView>, diffs: Seq<usize>, n: int) -> Seq<(usize, Seq<u8>, usize, u32)>
    decreases n,
{
    if n <= 0 {
        Seq::empty()
    } else {
        let i = n - 1;
        divergent_among(local, remotes, diffs, i) + (if remotes[i].root@ != local.root@ && diffs[i] > 0 {
            seq![(i as usize, remotes[i].root@, diffs[i], divergence_depth(local.leaf_keys@, remotes[i].leaf_keys@) as u32)]
        } else {
            Seq::empty()
        })
    }
}

/// The view of a divergent peer.
pub open spec fn peer_view(p: DivergentPeer) -> (usize, Seq<u8>, usize, u32) {
    (p.peer_index, p.merkle_root@, p.divergent_records, p.divergence_depth)
}

/// The views of divergent peers.
pub open spec fn peers_view(v: Seq<DivergentPeer>) -> Seq<(usize, Seq<u8>, usize, u32)> {
    v.map_values(|p: DivergentPeer| peer_view(p))
}

/// The position of the last of the first `n` peers with the most divergent records.
pub open spec fn most_divergent(peers: Seq<DivergentPeer>, n: int) -> int
    decreases n,
{
    if n <= 1 {
        0
    } else {
        let best = most_divergent(peers, n - 1);
        if peers[n - 1].divergent_records >= peers[best].divergent_records { n - 1 } else { best }
    }
}

/// The peer `k` has the most divergent records among the first `n`, and no later one of
/// them has as many: it is the last of the most divergent.
pub open spec fn last_most_divergent(peers: Seq<DivergentPeer>, n: int, k: int) -> bool {
    &&& 0 <= k < n
    &&& forall|j: int| 0 <= j < n ==> (#[trigger] peers[j]).divergent_records <= peers[k].divergent_records
    &&& forall|j: int| k < j < n ==> (#[trigger] peers[j]).divergent_records < peers[k].divergent_records
}

/// Among one or more peers, the one chosen has the most divergent records, and no later
/// peer has as many.
pub proof fn lemma_most_divergent_is_max(peers: Seq<DivergentPeer>, n: int)
    requires
        1 <= n <= peers.len(),
    ensures
        last_most_divergent(peers, n, most_divergent(peers, n)),
    decreases n,
{
    if n > 1 {
        lemma_most_divergent_is_max(peers, n - 1);
    }
}

fn missing_count(a: &Vec<String>, b: &Vec<String>) -> (r: u64)
    requires
        a@.len() <= u32::MAX,
    ensures
        r == missing_from(a@, b@, a@.len() as int),
        r <= a@.len(),
{
    let n = a.len();
    let mut count: u64 = 0;
    for i in 0..n
        invariant
            n == a@.len(),
            n <= u32::MAX,
            count == missing_from(a@, b@, i as int),
            count <= i,
    {
        if !list_contains(b, a[i].as_str()) {
            count = count + 1;
        }
    }
    count
}

/// The number of leaf keys in one tree but not the other (modulo 2^32).
pub fn compute_divergence_depth(local: &TreeView, remote: &TreeView) -> (r: u32)
    requires
        local.leaf_keys@.len() <= u32::MAX,
        remote.leaf_keys@.len() <= u32::MAX,
    ensures
        r == divergence_depth(local.leaf_keys@, remote.leaf_keys@) as u32,
{
    let a = missing_count(&local.leaf_keys, &remote.leaf_keys);
    let b = missing_count(&remote.leaf_keys, &local.leaf_keys);
    #[verifier::truncate]
    let r = (a + b) as u32;
    r
}

impl SplitBrainResolver {
    /// A resolver allowing `max_healing_attempts` attempts per partition.
    pub fn new(max_healing_attempts: u32) -> (r: Self)
        ensures
            r.max_healing_attempts == max_healing_attempts,
    {
        SplitBrainResolver { max_healing_attempts }
    }

    /// Diagnoses `partition_key` against its peers' trees, given for each peer the number
    /// of records in which the local tree differs from it (`diffs`): a peer diverges when
    /// its root differs and so does at least one record. More than one divergent peer is
    /// a split brain.
    pub fn detect_split_brain(&self, local_tree: &TreeView, remote_trees: &[TreeView], diffs: &[usize], partition_key: &str) -> (r: SplitBrainDiagnosis)
        requires
            diffs@.len() == remote_trees@.len(),
            local_tree.leaf_keys@.len() <= u32::MAX,
            forall|i: int| 0 <= i < remote_trees@.len() ==> (#[trigger] remote_trees@[i]).leaf_keys@.len() <= u32::MAX,
        ensures
            r.partition_key@ == partition_key@,
            r.local_root@ == local_tree.root@,
            peers_view(r.divergent_peers@) == divergent_among(*local_tree, remote_trees@, diffs@, remote_trees@.len() as int),
            r.is_split_brain == (r.divergent_peers@.len() > 1),
            r.total_peers == remote_trees@.len(),
    {
        let n = remote_trees.len();
        let mut peers: Vec<DivergentPeer> = Vec::new();
        for i in 0..n
            invariant
                n == remote_trees@.len(),
                n == diffs@.len(),
                local_tree.leaf_keys@.len() <= u32::MAX,
                forall|k: int| 0 <= k < remote_trees@.len() ==> (#[trigger] remote_trees@[k]).leaf_keys@.len() <= u32::MAX,
                peers_view(peers@) == divergent_among(*local_tree, remote_trees@, diffs@, i as int),
        {
            let remote = &remote_trees[i];
            let ghost before = peers_view(peers@);
            if !bytes_eq(local_tree.root.as_slice(), remote.root.as_slice()) && diffs[i] > 0 {
                let peer = DivergentPeer {
                    peer_index: i,
                    merkle_root: crate::crypto::bytes_of(&remote.root),
                    divergent_records: diffs[i],
                    divergence_depth: compute_divergence_depth(local_tree, remote),
                };
                let ghost pv = peer_view(peer);
                peers.push(peer);
                assert(peers_view(peers@) =~= before.push(pv));
            }
            assert(peers_view(peers@) =~= divergent_among(*local_tree, remote_trees@, diffs@, i + 1));
        }
        let is_split_brain = peers.len() > 1;
        SplitBrainDiagnosis {
            partition_key: owned(partition_key),
            is_split_brain,
            local_root: crate::crypto::bytes_of(&local_tree.root),
            divergent_peers: peers,
            total_peers: n,
        }
    }

    /// Plans the healing of a split brain: with attempts exhausted the partition is left
    /// as it is and an error reported; otherwise it is healing, one more attempt is
    /// counted, and the root of the last of the most divergent peers (or the local root
    /// when none diverges) overrides the others.
    pub fn resolve_split_brain(&self, context: &mut PartitionRecoveryContext, diagnosis: &SplitBrainDiagnosis) -> (r: Result<HealingPlan, SyncEngineError>)
        ensures
            (r is Err) == (old(context).recovery_attempts >= self.max_healing_attempts),
            r is Err ==> *final(context) == *old(context),
            r matches Err(e) ==> (e matches SyncEngineError::Recovery(m)
                && m@ == "Split-brain recovery exceeded max attempts for partition "@ + old(context).partition_key@),
            r matches Ok(p) ==> {
                &&& *final(context) == (PartitionRecoveryContext {
                    state: PartitionState::Healing,
                    recovery_attempts: (old(context).recovery_attempts + 1) as u32,
                    ..*old(context)
                })
                &&& p.partition_key@ == old(context).partition_key@
                &&& p.authoritative_merkle_root@ == (if diagnosis.divergent_peers@.len() == 0 {
                    diagnosis.local_root@
                } else {
                    diagnosis.divergent_peers@[most_divergent(diagnosis.divergent_peers@, diagnosis.divergent_peers@.len() as int)].merkle_root@
                })
                &&& diagnosis.divergent_peers@.len() > 0 ==> exists|k: int|
                    #[trigger] last_most_divergent(diagnosis.divergent_peers@, diagnosis.divergent_peers@.len() as int, k)
                    && p.authoritative_merkle_root@ == diagnosis.divergent_peers@[k].merkle_root@
                &&& p.peers_to_reconcile == diagnosis.divergent_peers@.len() as u32
                &&& p.strategy == HealingStrategy::AuthoritativeOverride
            },
    {
        if context.recovery_attempts >= self.max_healing_attempts {
            return Err(SyncEngineError::Recovery(cat2("Split-brain recovery exceeded max attempts for partition ", context.partition_key.as_str())));
        }
        context.state = PartitionState::Healing;
        context.recovery_attempts = context.recovery_attempts + 1;
        let peers = &diagnosis.divergent_peers;
        let n = peers.len();
        let root = if n == 0 {
            crate::crypto::bytes_of(&diagnosis.local_root)
        } else {
            let mut best: usize = 0;
            for i in 1..n
                invariant
                    n == peers@.len(),
                    best < i,
                    best == most_divergent(peers@, i as int),
            {
                if peers[i].divergent_records >= peers[best].divergent_records {
                    best = i;
                }
            }
            proof {
                lemma_most_divergent_is_max(peers@, n as int);
            }
            crate::crypto::bytes_of(&peers[best].merkle_root)
        };
        #[verifier::truncate]
        let count = n as u32;
        Ok(HealingPlan {
            partition_key: context.partition_key.clone(),
            authoritative_merkle_root: root,
            peers_to_reconcile: count,
            strategy: HealingStrategy::AuthoritativeOverride,
        })
    }
}

} // verus!
