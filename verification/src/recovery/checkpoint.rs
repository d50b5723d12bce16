//! Checkpoints: when to take them, what to recover from them and whether they are intact.
use vstd::prelude::*;
use crate::error::SyncEngineError;
use crate::text::{last_path_segment, last_segment, strs_view};
use crate::crypto::bytes_eq;

verus! {

/// The record identifiers named by leaf paths: the last segment of each.
pub open spec fn record_ids(paths: Seq<Seq<char>>) -> Seq<Seq<char>> {
    paths.map_values(|p: Seq<char>| last_segment(p))
}

/// Decides on checkpoints and recovers from them.
pub struct CheckpointRecoverer {
    pub checkpoint_interval_events: u64,
    pub checkpoint_interval_secs: u64,
}

impl CheckpointRecoverer {
    /// A recoverer checkpointing every `checkpoint_interval_events` events or every
    /// `checkpoint_interval_secs` seconds.
    pub fn new(checkpoint_interval_events: u64, checkpoint_interval_secs: u64) -> (r: Self)
        ensures
            r.checkpoint_interval_events == checkpoint_interval_events,
            r.checkpoint_interval_secs == checkpoint_interval_secs,
    {
        CheckpointRecoverer { checkpoint_interval_events, checkpoint_interval_secs }
    }

    /// Whether a checkpoint is due: enough events, or enough whole seconds, since the
    /// last one.
    pub fn should_checkpoint(&self, events_since_last: u64, seconds_since_last: i64) -> (r: bool)
        ensures
            r == (events_since_last >= self.checkpoint_interval_events
                || seconds_since_last >= self.checkpoint_interval_secs as i64),
    {
        events_since_last >= self.checkpoint_interval_events
            || seconds_since_last >= self.checkpoint_interval_secs as i64
    }

    /// The records to recover from a checkpoint: from the initial checkpoint, every
    /// record of the current tree (the last segment of each leaf path, in leaf order);
    /// otherwise the records that diverged from the checkpoint's root.
    pub fn recover_from_checkpoint(
        &self,
        checkpoint_is_initial: bool,
        leaf_paths: &[String],
        divergent_since_checkpoint: Vec<String>,
    ) -> (r: Result<Vec<String>, SyncEngineError>)
        ensures
            r matches Ok(v) && (if checkpoint_is_initial {
                strs_view(v@) == record_ids(strs_view(leaf_paths@))
            } else {
                v@ == divergent_since_checkpoint@
            }),
    {
        if checkpoint_is_initial {
            let mut ids: Vec<String> = Vec::new();
            let n = leaf_paths.len();
            for i in 0..n
                invariant
                    n == leaf_paths@.len(),
                    strs_view(ids@) == record_ids(strs_view(leaf_paths@)).take(i as int),
            {
                let id = last_path_segment(leaf_paths[i].as_str());
                let ghost before = ids@;
                ids.push(id);
                assert(strs_view(ids@) =~= strs_view(before).push(last_segment(leaf_paths@[i as int]@)));
                assert(strs_view(ids@) =~= record_ids(strs_view(leaf_paths@)).take(i + 1));
            }
            assert(record_ids(strs_view(leaf_paths@)).take(n as int)
                =~= record_ids(strs_view(leaf_paths@)));
            return Ok(ids);
        }
        Ok(divergent_since_checkpoint)
    }

    /// Whether a stored checkpoint root matches the root computed from the tree: both
    /// empty, or both present and equal.
    pub fn verify_checkpoint_integrity(&self, stored_merkle_root: &[u8], computed_root: &[u8]) -> (r: Result<bool, SyncEngineError>)
        ensures
            r == Ok::<bool, SyncEngineError>(stored_merkle_root@ == computed_root@),
    {
        if stored_merkle_root.len() == 0 && computed_root.len() == 0 {
            assert(stored_merkle_root@ =~= computed_root@);
            return Ok(true);
        }
        if stored_merkle_root.len() == 0 || computed_root.len() == 0 {
            return Ok(false);
        }
        Ok(bytes_eq(stored_merkle_root, computed_root))
    }
}

} // verus!
