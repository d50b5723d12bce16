//! Recovery of partitions: their states, healing of divergence and resolution of split
//! brains.
use vstd::prelude::*;

pub mod healing;
pub mod split_brain;

verus! {

/// The state of a partition during recovery.
#[derive(Debug, Clone, Copy, PartialEq, Eq, Structural)]
pub enum PartitionState {
    Healthy,
    Diverged,
    SplitBrain,
    Healing,
    Recovered,
    Isolated,
    Corrupted,
}

/// The name of a partition state.
pub open spec fn partition_state_name(s: PartitionState) -> Seq<char> {
    match s {
        PartitionState::Healthy => "healthy"@,
        PartitionState::Diverged => "diverged"@,
        PartitionState::SplitBrain => "split_brain"@,
        PartitionState::Healing => "healing"@,
        PartitionState::Recovered => "recovered"@,
        PartitionState::Isolated => "isolated"@,
        PartitionState::Corrupted => "corrupted"@,
    }
}

impl PartitionState {
    /// The state's name.
    pub fn as_str(&self) -> (r: &'static str)
        ensures
            r@ == partition_state_name(*self),
    {
        match self {
            PartitionState::Healthy => "healthy",
            PartitionState::Diverged => "diverged",
            PartitionState::SplitBrain => "split_brain",
            PartitionState::Healing => "healing",
            PartitionState::Recovered => "recovered",
            PartitionState::Isolated => "isolated",
            PartitionState::Corrupted => "corrupted",
        }
    }
}

/// The recovery of one partition.
#[derive(Debug, Clone)]
pub struct PartitionRecoveryContext {
    pub partition_key: String,
    pub state: PartitionState,
    /// Milliseconds since the Unix epoch.
    pub diverged_since: Option<i64>,
    pub local_checkpoint: Vec<u8>,
    pub remote_checkpoint: Vec<u8>,
    pub divergence_depth: u64,
    pub node_count: u32,
    pub recovery_attempts: u32,
}

/// What partition recovery reads of a Merkle tree: its root and the keys of its leaves,
/// each once.
#[derive(Debug, Clone)]
pub struct TreeView {
    pub root: Vec<u8>,
    pub leaf_keys: Vec<String>,
}

} // verus!
