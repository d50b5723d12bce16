//! The records the engine synchronises: sync records with their version vectors, the
//! phases of a sync session, and the order of versions.
use vstd::prelude::*;

verus! {

/// The phases of a sync session.
#[derive(Debug, Clone, Copy, PartialEq, Eq, Structural)]
pub enum SyncPhase {
    Discovery,
    MerkleExchange,
    DeltaTransfer,
    Reconciliation,
    Commitment,
    Completed,
}

/// How two versions are ordered.
#[derive(Debug, Clone, Copy, PartialEq, Eq, Structural)]
pub enum VersionOrder {
    Equal,
    Before,
    After,
    Concurrent,
}

/// A version vector: per node, how many of its updates a version has seen, and the
/// local time of the version.
#[derive(Debug, Clone)]
pub struct VersionVector {
    pub clocks: Vec<(u128, u64)>,
    /// Milliseconds since the Unix epoch.
    pub local_timestamp: i64,
}

/// A record as it is synchronised.
#[derive(Debug, Clone)]
pub struct SyncRecord {
    pub record_id: String,
    pub record_type: String,
    pub payload: Vec<u8>,
    pub version_vector: VersionVector,
    pub signature: Vec<u8>,
}

/// The counter of `node` in `clocks`: that of its first entry, or zero.
pub open spec fn counter_of(clocks: Seq<(u128, u64)>, node: u128) -> u64
    decreases clocks.len(),
{
    if clocks.len() == 0 {
        0
    } else if clocks[0].0 == node {
        clocks[0].1
    } else {
        counter_of(clocks.drop_first(), node)
    }
}

/// Every node's counter in `a` is at most its counter in `b`.
pub open spec fn clocks_le(a: Seq<(u128, u64)>, b: Seq<(u128, u64)>) -> bool {
    forall|n: u128| #[trigger] counter_of(a, n) <= counter_of(b, n)
}

/// The order of two versions by their vectors.
pub open spec fn version_order(a: Seq<(u128, u64)>, b: Seq<(u128, u64)>) -> VersionOrder {
    if clocks_le(a, b) && clocks_le(b, a) {
        VersionOrder::Equal
    } else if clocks_le(a, b) {
        VersionOrder::Before
    } else if clocks_le(b, a) {
        VersionOrder::After
    } else {
        VersionOrder::Concurrent
    }
}

fn counter_in(clocks: &Vec<(u128, u64)>, node: u128) -> (r: u64)
    ensures
        r == counter_of(clocks@, node),
{
    let n = clocks.len();
    let mut i: usize = 0;
    assert(clocks@.skip(0) =~= clocks@);
    while i < n
        invariant
            n == clocks@.len(),
            i <= n,
            counter_of(clocks@, node) == counter_of(clocks@.skip(i as int), node),
        decreases n - i,
    {
        assert(clocks@.skip(i as int).drop_first() =~= clocks@.skip(i + 1));
        if clocks[i].0 == node {
            return clocks[i].1;
        }
        i = i + 1;
    }
    assert(clocks@.skip(n as int).len() == 0);
    0
}

proof fn lemma_counter_absent(clocks: Seq<(u128, u64)>, node: u128)
    requires
        forall|i: int| 0 <= i < clocks.len() ==> (#[trigger] clocks[i]).0 != node,
    ensures
        counter_of(clocks, node) == 0,
    decreases clocks.len(),
{
    if clocks.len() > 0 {
        assert forall|i: int| 0 <= i < clocks.drop_first().len() implies (#[trigger] clocks.drop_first()[i]).0 != node by {
            assert(clocks.drop_first()[i] == clocks[i + 1]);
        }
        lemma_counter_absent(clocks.drop_first(), node);
    }
}

fn dominated(a: &Vec<(u128, u64)>, b: &Vec<(u128, u64)>) -> (r: bool)
    ensures
        r == clocks_le(a@, b@),
{
    let n = a.len();
    for i in 0..n
        invariant
            n == a@.len(),
            forall|k: int| 0 <= k < i ==> counter_of(a@, (#[trigger] a@[k]).0) <= counter_of(b@, a@[k].0),
    {
        let node = a[i].0;
        if counter_in(a, node) > counter_in(b, node) {
            return false;
        }
    }
    assert forall|m: u128| #[trigger] counter_of(a@, m) <= counter_of(b@, m) by {
        if exists|k: int| 0 <= k < a@.len() && (#[trigger] a@[k]).0 == m {
            let k = choose|k: int| 0 <= k < a@.len() && (#[trigger] a@[k]).0 == m;
            assert(counter_of(a@, a@[k].0) <= counter_of(b@, a@[k].0));
        } else {
            lemma_counter_absent(a@, m);
        }
    }
    true
}

/// Two version vectors with the same clocks and local time.
pub open spec fn same_version(a: VersionVector, b: VersionVector) -> bool {
    a.clocks@ == b.clocks@ && a.local_timestamp == b.local_timestamp
}

impl VersionVector {
    /// A copy of this version vector.
    pub fn copy(&self) -> (r: VersionVector)
        ensures
            same_version(r, *self),
    {
        let mut clocks: Vec<(u128, u64)> = Vec::new();
        let n = self.clocks.len();
        for i in 0..n
            invariant
                n == self.clocks@.len(),
                clocks@ == self.clocks@.take(i as int),
        {
            clocks.push(self.clocks[i]);
            assert(clocks@ =~= self.clocks@.take(i + 1));
        }
        assert(self.clocks@.take(n as int) =~= self.clocks@);
        VersionVector { clocks, local_timestamp: self.local_timestamp }
    }

    /// How this version is ordered against `other`.
    pub fn compare(&self, other: &VersionVector) -> (r: VersionOrder)
        ensures
            r == version_order(self.clocks@, other.clocks@),
    {
        let le = dominated(&self.clocks, &other.clocks);
        let ge = dominated(&other.clocks, &self.clocks);
        if le && ge {
            VersionOrder::Equal
        } else if le {
            VersionOrder::Before
        } else if ge {
            VersionOrder::After
        } else {
            VersionOrder::Concurrent
        }
    }
}

} // verus!

verus! {

/// The tier of a node in the sync topology.
#[derive(Debug, Clone, Copy, PartialEq, Eq, Structural)]
pub enum NodeType {
    Edge,
    RegionalRelay,
    NationalHub,
}

/// The authority of a tier: edges lowest, then regional relays, the national hub highest.
pub open spec fn tier_rank_of(t: NodeType) -> u32 {
    match t {
        NodeType::Edge => 0,
        NodeType::RegionalRelay => 1,
        NodeType::NationalHub => 2,
    }
}

impl NodeType {
    /// The authority of this tier; see `tier_rank_of`.
    pub fn tier_rank(&self) -> (r: u32)
        ensures
            r == tier_rank_of(*self),
    {
        match self {
            NodeType::Edge => 0,
            NodeType::RegionalRelay => 1,
            NodeType::NationalHub => 2,
        }
    }
}

/// Whether a node is reachable.
#[derive(Debug, Clone, Copy, PartialEq, Eq, Structural)]
pub enum NodeStatus {
    Online,
    Offline,
}

/// A node of the sync topology.
#[derive(Debug, Clone)]
pub struct NodeIdentity {
    pub node_id: u128,
    pub node_type: NodeType,
    pub ministry_id: u128,
    pub site_id: Option<u128>,
    pub status: NodeStatus,
}

} // verus!
