//! Merkle exchange: whether two trees diverge, and which records.
use vstd::prelude::*;
use crate::error::SyncEngineError;
use crate::records::SyncPhase;
use crate::protocol::SyncSession;
use crate::crypto::bytes_eq;
use crate::text::owned;

verus! {

/// What the exchange reads of a Merkle tree: its leaf count and root.
#[derive(Debug, Clone)]
pub struct MerkleTreeSummary {
    pub leaf_count: usize,
    pub root: Vec<u8>,
}

/// The outcome of a Merkle exchange.
#[derive(Debug)]
pub struct MerkleExchangeResult {
    pub divergent_records: Vec<String>,
    pub local_root: Vec<u8>,
    pub remote_root: Vec<u8>,
    pub partitions_with_diffs: Vec<String>,
    pub complete: bool,
}

fn copy_root(v: &Vec<u8>) -> (r: Vec<u8>)
    ensures
        r@ == v@,
{
    let mut r: Vec<u8> = Vec::new();
    let n = v.len();
    for i in 0..n
        invariant
            n == v@.len(),
            r@ == v@.take(i as int),
    {
        r.push(v[i]);
        assert(r@ =~= v@.take(i + 1));
    }
    assert(v@.take(n as int) =~= v@);
    r
}

/// Compares the two trees of `partition_key`, moving the session to the Merkle exchange.
/// Two empty trees, or two trees with the same root, have nothing divergent; otherwise the
/// divergent records are those the trees' comparison found (`divergent`) and the partition
/// is reported as differing.
pub fn perform_merkle_exchange(
    session: &mut SyncSession,
    partition_key: &str,
    local_tree: &MerkleTreeSummary,
    remote_tree: &MerkleTreeSummary,
    divergent: Vec<String>,
) -> (r: Result<MerkleExchangeResult, SyncEngineError>)
    ensures
        r matches Ok(x) && {
            &&& x.local_root@ == local_tree.root@
            &&& x.remote_root@ == remote_tree.root@
            &&& x.complete
            &&& if (local_tree.leaf_count == 0 && remote_tree.leaf_count == 0) || local_tree.root@ == remote_tree.root@ {
                x.divergent_records@.len() == 0 && x.partitions_with_diffs@.len() == 0
            } else {
                x.divergent_records@ == divergent@
                    && x.partitions_with_diffs@.len() == 1 && x.partitions_with_diffs@[0]@ == partition_key@
            }
        },
        final(session).current_phase == SyncPhase::MerkleExchange,
        final(session).session_id == old(session).session_id,
{
    session.advance_phase(SyncPhase::MerkleExchange);
    let local_root = copy_root(&local_tree.root);
    let remote_root = copy_root(&remote_tree.root);
    if (local_tree.leaf_count == 0 && remote_tree.leaf_count == 0)
        || bytes_eq(local_tree.root.as_slice(), remote_tree.root.as_slice()) {
        return Ok(MerkleExchangeResult {
            divergent_records: Vec::new(),
            local_root,
            remote_root,
            partitions_with_diffs: Vec::new(),
            complete: true,
        });
    }
    let mut diffs: Vec<String> = Vec::new();
    diffs.push(owned(partition_key));
    Ok(MerkleExchangeResult {
        divergent_records: divergent,
        local_root,
        remote_root,
        partitions_with_diffs: diffs,
        complete: true,
    })
}

/// Whether to descend into a pair of subtrees: only when their hashes differ and the
/// depth limit is not reached.
pub fn should_recursive_descend(local_subtree: &[u8], remote_subtree: &[u8], depth: u32, max_depth: u32) -> (r: bool)
    ensures
        r == (local_subtree@ != remote_subtree@ && depth < max_depth),
{
    if bytes_eq(local_subtree, remote_subtree) {
        return false;
    }
    depth < max_depth
}

} // verus!
