//! Healing of a diverged partition and isolation of a corrupted one.
use vstd::prelude::*;
use crate::error::SyncEngineError;
use crate::partition_recovery::{PartitionRecoveryContext, PartitionState};
use crate::text::cat2;

verus! {

/// Heals partitions, within a number of attempts.
pub struct PartitionHealer {
    pub max_heal_attempts: u32,
}

/// The outcome of one healing attempt.
#[derive(Debug)]
pub struct HealOutcome {
    pub partition_key: String,
    pub records_to_reconcile: u64,
    pub healed: bool,
}

impl PartitionHealer {
    /// A healer allowing `max_heal_attempts` attempts per partition.
    pub fn new(max_heal_attempts: u32) -> (r: Self)
        ensures
            r.max_heal_attempts == max_heal_attempts,
    {
        PartitionHealer { max_heal_attempts }
    }

    /// Attempts to heal the partition of `context`, given the records in which the local
    /// tree differs from the reference tree. With attempts exhausted the partition is left
    /// as it is and an error reported; with no difference it is recovered; otherwise it
    /// is healing, one more attempt is counted, and the differing records are to be
    /// reconciled.
    pub fn heal_partition(&self, context: &mut PartitionRecoveryContext, divergent_records: &[String]) -> (r: Result<HealOutcome, SyncEngineError>)
        ensures
            (r is Err) == (old(context).recovery_attempts >= self.max_heal_attempts),
            r is Err ==> *final(context) == *old(context),
            r matches Err(e) ==> (e matches SyncEngineError::Recovery(m)
                && m@ == "Healing exceeded max attempts for partition "@ + old(context).partition_key@),
            r matches Ok(h) ==> h.partition_key@ == old(context).partition_key@ && (if divergent_records@.len() == 0 {
                &&& h.healed
                &&& h.records_to_reconcile == 0
                &&& *final(context) == (PartitionRecoveryContext { state: PartitionState::Recovered, ..*old(context) })
            } else {
                &&& !h.healed
                &&& h.records_to_reconcile == divergent_records@.len()
                &&& *final(context) == (PartitionRecoveryContext {
                    state: PartitionState::Healing,
                    recovery_attempts: (old(context).recovery_attempts + 1) as u32,
                    ..*old(context)
                })
            }),
    {
        if context.recovery_attempts >= self.max_heal_attempts {
            return Err(SyncEngineError::Recovery(cat2("Healing exceeded max attempts for partition ", context.partition_key.as_str())));
        }
        if divergent_records.len() == 0 {
            context.state = PartitionState::Recovered;
            return Ok(HealOutcome { partition_key: context.partition_key.clone(), records_to_reconcile: 0, healed: true });
        }
        context.state = PartitionState::Healing;
        context.recovery_attempts = context.recovery_attempts + 1;
        Ok(HealOutcome {
            partition_key: context.partition_key.clone(),
            records_to_reconcile: divergent_records.len() as u64,
            healed: false,
        })
    }

    /// Isolates the partition of `context` because of corrupted records.
    pub fn isolate_corruption(&self, context: &mut PartitionRecoveryContext, corrupted_records: &[String]) -> (r: Result<(), SyncEngineError>)
        ensures
            r is Ok,
            *final(context) == (PartitionRecoveryContext { state: PartitionState::Isolated, ..*old(context) }),
    {
        context.state = PartitionState::Isolated;
        Ok(())
    }
}

} // verus!
