//! Commitment: the signed receipt that closes a sync session.
use vstd::prelude::*;
use vstd::string::StringSliceAdditionalSpecFns;
use crate::error::SyncEngineError;
use crate::records::SyncPhase;
use crate::protocol::SyncSession;
use crate::security::signing::{SigningEngine, ed25519_signature};
use crate::crypto::{hex_encode, hex_text};
use crate::text::{cat3, cat4, owned, id_text, uuid_text, u64_text, decimal};

verus! {

/// Which way a sync moved records.
#[derive(Debug, Clone, Copy, PartialEq, Eq, Structural)]
pub enum SyncDirection {
    Push,
    Pull,
    Bidirectional,
}

/// The receipt of a synchronised batch, signed by both sides.
#[derive(Debug, Clone)]
pub struct BatchReceipt {
    pub sync_id: u128,
    pub source_node: u128,
    pub target_node: u128,
    pub partition_key: String,
    pub direction: SyncDirection,
    pub events_count: u32,
    pub bytes_transferred: u64,
    pub conflict_count: u32,
    pub conflicts_auto: u32,
    pub conflicts_manual: u32,
    pub local_merkle: Vec<u8>,
    pub remote_merkle: Vec<u8>,
    pub source_signature: Vec<u8>,
    pub target_signature: Vec<u8>,
    pub duration_ms: u64,
    /// Milliseconds since the Unix epoch.
    pub created_at: i64,
}

/// The outcome of the commitment phase.
#[derive(Debug)]
pub struct CommitmentResult {
    pub receipt: BatchReceipt,
    pub accepted: bool,
    pub local_merkle_root: Vec<u8>,
    pub remote_merkle_root: Vec<u8>,
    pub local_signature: Vec<u8>,
    pub remote_signature: Vec<u8>,
}

/// The text a receipt's signature covers: session, partition, both roots in hexadecimal,
/// event count and bytes, separated by colons.
pub open spec fn receipt_text(session_id: u128, partition_key: Seq<char>, local_root: Seq<u8>, remote_root: Seq<u8>, events_count: u32, bytes: u64) -> Seq<char> {
    uuid_text(session_id) + ":"@ + partition_key + ":"@ + hex_text(local_root) + ":"@ + hex_text(remote_root)
        + ":"@ + decimal(events_count as nat) + ":"@ + decimal(bytes as nat)
}

/// Commits a batch of `partition_key`: the receipt text is signed with the local key (the
/// same signature stands for both sides), a bidirectional receipt without conflicts is
/// issued, and the session moves through commitment to completion.
pub fn perform_commitment(
    session: &mut SyncSession,
    partition_key: &str,
    local_merkle_root: &[u8],
    remote_merkle_root: &[u8],
    events_count: u32,
    bytes_transferred: u64,
    source_node: u128,
    target_node: u128,
    signing_engine: &SigningEngine,
) -> (r: Result<CommitmentResult, SyncEngineError>)
    requires
        crate::protocol::clock_time(old(session).started_at as int),
    ensures
        r matches Ok(c) && {
            let signature = ed25519_signature(signing_engine.secret_key(), vstd::utf8::encode_utf8(receipt_text(old(session).session_id,
                partition_key@, local_merkle_root@, remote_merkle_root@, events_count, bytes_transferred)));
            &&& c.accepted
            &&& c.local_signature@ == signature
            &&& c.remote_signature@ == signature
            &&& c.local_merkle_root@ == local_merkle_root@
            &&& c.remote_merkle_root@ == remote_merkle_root@
            &&& c.receipt.sync_id == old(session).session_id
            &&& c.receipt.source_node == source_node
            &&& c.receipt.target_node == target_node
            &&& c.receipt.partition_key@ == partition_key@
            &&& c.receipt.direction == SyncDirection::Bidirectional
            &&& c.receipt.events_count == events_count
            &&& c.receipt.bytes_transferred == bytes_transferred
            &&& c.receipt.conflict_count == 0
            &&& c.receipt.conflicts_auto == 0
            &&& c.receipt.conflicts_manual == 0
            &&& c.receipt.local_merkle@ == local_merkle_root@
            &&& c.receipt.remote_merkle@ == remote_merkle_root@
            &&& c.receipt.source_signature@ == signature
            &&& c.receipt.target_signature@ == signature
        },
        final(session).current_phase == SyncPhase::Completed,
        final(session).session_id == old(session).session_id,
{
    session.advance_phase(SyncPhase::Commitment);
    let sid = id_text(session.session_id);
    let local_hex = hex_encode(local_merkle_root);
    let remote_hex = hex_encode(remote_merkle_root);
    let events = u64_text(events_count as u64);
    let bytes = u64_text(bytes_transferred);
    let head = cat4(sid.as_str(), ":", partition_key, ":");
    let roots = cat4(local_hex.as_str(), ":", remote_hex.as_str(), ":");
    let tail = cat3(events.as_str(), ":", bytes.as_str());
    let text = cat3(head.as_str(), roots.as_str(), tail.as_str());
    assert(text@ =~= receipt_text(session.session_id, partition_key@, local_merkle_root@, remote_merkle_root@, events_count, bytes_transferred));
    let local_signature = match signing_engine.sign(text.as_str().as_bytes()) {
        Ok(s) => s,
        Err(e) => {
            return Err(e);
        },
    };
    let remote_signature = crate::crypto::bytes_of(local_signature.as_slice());
    let elapsed = session.elapsed();
    let duration_ms: u64 = if elapsed < 0 { 0 } else { elapsed as u64 };
    let receipt = BatchReceipt {
        sync_id: session.session_id,
        source_node,
        target_node,
        partition_key: owned(partition_key),
        direction: SyncDirection::Bidirectional,
        events_count,
        bytes_transferred,
        conflict_count: 0,
        conflicts_auto: 0,
        conflicts_manual: 0,
        local_merkle: crate::crypto::bytes_of(local_merkle_root),
        remote_merkle: crate::crypto::bytes_of(remote_merkle_root),
        source_signature: crate::crypto::bytes_of(local_signature.as_slice()),
        target_signature: crate::crypto::bytes_of(remote_signature.as_slice()),
        duration_ms,
        created_at: crate::env::now_millis(),
    };
    session.advance_phase(SyncPhase::Completed);
    Ok(CommitmentResult {
        receipt,
        accepted: true,
        local_merkle_root: crate::crypto::bytes_of(local_merkle_root),
        remote_merkle_root: crate::crypto::bytes_of(remote_merkle_root),
        local_signature,
        remote_signature,
    })
}

} // verus!
