//! Delta transfer: the next batch of divergent records.
use vstd::prelude::*;
use crate::error::SyncEngineError;
use crate::records::{SyncPhase, SyncRecord};
use crate::protocol::SyncSession;
use crate::protocol::codec::SyncCodec;

verus! {

/// The most records sent in one batch.
pub const DELTA_BATCH_LIMIT: usize = 1000;

/// The outcome of one delta transfer.
#[derive(Debug)]
pub struct DeltaTransferResult {
    pub records_received: Vec<SyncRecord>,
    pub records_sent: u32,
    pub bytes_received: u64,
    pub bytes_sent: u64,
    pub has_more: bool,
    pub next_batch_seq: u32,
}

/// Sends the next batch of at most a thousand of the divergent records and counts it on
/// the session, which moves to delta transfer. Each record counts as one unit of
/// transfer; more remain when there were more than a thousand.
pub fn transfer_delta(
    session: &mut SyncSession,
    partition_key: &str,
    divergent_records: &[String],
    codec: &SyncCodec,
) -> (r: Result<DeltaTransferResult, SyncEngineError>)
    requires
        old(session).bytes_transferred + 1000 <= u64::MAX,
        old(session).records_synced + 1000 <= u32::MAX,
    ensures
        r matches Ok(d) && {
            let sent = if divergent_records@.len() < 1000 { divergent_records@.len() as int } else { 1000 };
            &&& d.records_received@.len() == 0
            &&& d.records_sent == sent
            &&& d.bytes_sent == sent
            &&& d.bytes_received == 0
            &&& d.has_more == (divergent_records@.len() > 1000)
            &&& d.next_batch_seq == (if d.has_more { 1u32 } else { 0u32 })
            &&& final(session).bytes_transferred == old(session).bytes_transferred + sent
            &&& final(session).records_synced == old(session).records_synced + sent
        },
        final(session).current_phase == SyncPhase::DeltaTransfer,
        final(session).session_id == old(session).session_id,
        final(session).partitions == old(session).partitions,
{
    session.advance_phase(SyncPhase::DeltaTransfer);
    let batch_size = if divergent_records.len() < DELTA_BATCH_LIMIT { divergent_records.len() } else { DELTA_BATCH_LIMIT };
    session.add_transfer(batch_size as u64, batch_size as u32);
    let has_more = batch_size < divergent_records.len();
    Ok(DeltaTransferResult {
        records_received: Vec::new(),
        records_sent: batch_size as u32,
        bytes_received: 0,
        bytes_sent: batch_size as u64,
        has_more,
        next_batch_seq: if has_more { 1 } else { 0 },
    })
}

} // verus!
