//! Validation of replay batches and of a completed replay.
use vstd::prelude::*;
use crate::records::SyncRecord;
use crate::replay_verifier::{ReplayVerificationContext, ReplayVerificationResult};
use crate::crypto::{bytes_eq, hex_encode, hex_text};
use crate::text::{cat2, cat4, cat5, cat6, owned, strs_view, u64_text, decimal, str_eq};

verus! {

/// Validates replays, in batches of bounded size.
pub struct ReplayValidator {
    pub max_batch_size: u32,
}

/// The outcome of validating one batch.
#[derive(Debug)]
pub struct BatchValidation {
    pub valid: bool,
    pub issues: Vec<String>,
    pub record_count: u32,
}

/// What the validator reads of the reconstructed Merkle tree: its root and leaf count.
#[derive(Debug, Clone)]
pub struct ReconstructedTree {
    pub root: Vec<u8>,
    pub leaf_count: usize,
}

/// The issues of a batch among its first `n` records: for each record whose identifier
/// occurred earlier in the batch, a duplicate; for each signed record whose signature is
/// not the hash computed for it, a mismatch.
pub open spec fn batch_record_issues(batch_seq: u32, records: Seq<SyncRecord>, hashes: Seq<Vec<u8>>, n: int) -> Seq<Seq<char>>
    decreases n,
{
    if n <= 0 {
        Seq::empty()
    } else {
        let r = records[n - 1];
        batch_record_issues(batch_seq, records, hashes, n - 1)
            + (if exists|k: int| 0 <= k < n - 1 && (#[trigger] records[k]).record_id@ == r.record_id@ {
                seq!["Duplicate record_id in replay batch "@ + decimal(batch_seq as nat) + ": "@ + r.record_id@]
            } else {
                Seq::empty()
            })
            + (if r.signature@.len() > 0 && r.signature@ != hashes[n - 1]@ {
                seq!["Record hash mismatch for "@ + r.record_id@ + " in batch "@ + decimal(batch_seq as nat)]
            } else {
                Seq::empty()
            })
    }
}

/// The issues of a batch: too many records, then the issues of its records.
pub open spec fn batch_issues(batch_seq: u32, records: Seq<SyncRecord>, hashes: Seq<Vec<u8>>, expected_count: u64) -> Seq<Seq<char>> {
    (if records.len() > expected_count {
        seq!["Batch "@ + decimal(batch_seq as nat) + " exceeds expected count: "@ + decimal(records.len()) + " > "@
            + decimal(expected_count as nat)]
    } else {
        Seq::empty()
    }) + batch_record_issues(batch_seq, records, hashes, records.len() as int)
}

impl ReplayValidator {
    /// A validator of batches of at most `max_batch_size` records.
    pub fn new(max_batch_size: u32) -> (r: Self)
        ensures
            r.max_batch_size == max_batch_size,
    {
        ReplayValidator { max_batch_size }
    }

    /// Validates batch `batch_seq` of a replay, given the hash computed for each record
    /// (see `batch_issues`). The batch is valid when it has no issue.
    pub fn validate_replay_batch(&self, batch_seq: u32, records: &[SyncRecord], record_hashes: &[Vec<u8>], expected_count: u64)
        -> (r: Result<BatchValidation, crate::error::SyncEngineError>)
        requires
            records@.len() == record_hashes@.len(),
            records@.len() <= u64::MAX,
        ensures
            r matches Ok(b) && {
                &&& strs_view(b.issues@) == batch_issues(batch_seq, records@, record_hashes@, expected_count)
                &&& b.valid == (b.issues@.len() == 0)
                &&& b.record_count == records@.len() as u32
            },
    {
        let n = records.len();
        let seq_text = u64_text(batch_seq as u64);
        let mut issues: Vec<String> = Vec::new();
        if n as u64 > expected_count {
            let count_text = u64_text(n as u64);
            let expected_text = u64_text(expected_count);
            issues.push(cat6("Batch ", seq_text.as_str(), " exceeds expected count: ", count_text.as_str(), " > ", expected_text.as_str()));
        }
        let ghost head = strs_view(issues@);
        assert(head + batch_record_issues(batch_seq, records@, record_hashes@, 0) =~= head);
        for i in 0..n
            invariant
                n == records@.len(),
                n == record_hashes@.len(),
                seq_text@ == decimal(batch_seq as nat),
                strs_view(issues@) == head + batch_record_issues(batch_seq, records@, record_hashes@, i as int),
        {
            let record = &records[i];
            let ghost before = strs_view(issues@);
            let mut seen = false;
            let mut k: usize = 0;
            while k < i && !seen
                invariant
                    k <= i,
                    i < n,
                    n == records@.len(),
                    *record == records@[i as int],
                    !seen ==> forall|q: int| 0 <= q < k ==> (#[trigger] records@[q]).record_id@ != records@[i as int].record_id@,
                    seen ==> exists|q: int| 0 <= q < i && (#[trigger] records@[q]).record_id@ == records@[i as int].record_id@,
                decreases i - k + (if seen { 0int } else { 1int }),
            {
                if str_eq(records[k].record_id.as_str(), record.record_id.as_str()) {
                    assert(records@[k as int].record_id@ == records@[i as int].record_id@);
                    seen = true;
                } else {
                    k = k + 1;
                }
            }
            if seen {
                issues.push(cat4("Duplicate record_id in replay batch ", seq_text.as_str(), ": ", record.record_id.as_str()));
                assert(strs_view(issues@) =~= before.push("Duplicate record_id in replay batch "@ + decimal(batch_seq as nat) + ": "@ + records@[i as int].record_id@));
            }
            let ghost mid = strs_view(issues@);
            if record.signature.len() > 0 && !bytes_eq(record.signature.as_slice(), record_hashes[i].as_slice()) {
                issues.push(cat4("Record hash mismatch for ", record.record_id.as_str(), " in batch ", seq_text.as_str()));
                assert(strs_view(issues@) =~= mid.push("Record hash mismatch for "@ + records@[i as int].record_id@ + " in batch "@ + decimal(batch_seq as nat)));
            }
            assert(strs_view(issues@) =~= head + batch_record_issues(batch_seq, records@, record_hashes@, i + 1));
        }
        let valid = issues.len() == 0;
        #[verifier::truncate]
        let count = n as u32;
        Ok(BatchValidation { valid, issues, record_count: count })
    }

    /// Checks a completed replay against `context`: the reconstructed root must equal the
    /// target checkpoint and the original root, where those are given.
    pub fn validate_complete_replay(&self, context: &ReplayVerificationContext, tree: &ReconstructedTree) -> (r: ReplayVerificationResult)
        ensures
            r.checkpoint_match == (context.to_checkpoint@.len() == 0 || tree.root@ == context.to_checkpoint@),
            r.merkle_match == (context.original_merkle_root@.len() == 0 || tree.root@ == context.original_merkle_root@),
            r.valid == (r.checkpoint_match && r.merkle_match),
            r.events_verified == tree.leaf_count,
            r.events_failed == 0,
            r.signature_errors == 0,
            r.chain_errors == 0,
            strs_view(r.issues@) == (if r.checkpoint_match { Seq::empty() } else {
                seq!["Final merkle root \""@ + hex_text(tree.root@) + "\" does not match expected checkpoint \""@
                    + hex_text(context.to_checkpoint@) + "\""@]
            }) + (if r.merkle_match { Seq::empty() } else { seq!["Reconstructed merkle root differs from original"@] }),
    {
        let mut issues: Vec<String> = Vec::new();
        let checkpoint_match = context.to_checkpoint.len() == 0 || bytes_eq(tree.root.as_slice(), context.to_checkpoint.as_slice());
        if !checkpoint_match {
            let found = hex_encode(tree.root.as_slice());
            let expected = hex_encode(context.to_checkpoint.as_slice());
            issues.push(cat5("Final merkle root \"", found.as_str(), "\" does not match expected checkpoint \"", expected.as_str(), "\""));
        }
        let merkle_match = context.original_merkle_root.len() == 0 || bytes_eq(tree.root.as_slice(), context.original_merkle_root.as_slice());
        let ghost first = strs_view(issues@);
        if !merkle_match {
            issues.push(owned("Reconstructed merkle root differs from original"));
            assert(strs_view(issues@) =~= first.push("Reconstructed merkle root differs from original"@));
        }
        assert(strs_view(issues@) =~= (if checkpoint_match { Seq::empty() } else {
                seq!["Final merkle root \""@ + hex_text(tree.root@) + "\" does not match expected checkpoint \""@
                    + hex_text(context.to_checkpoint@) + "\""@]
            }) + (if merkle_match { Seq::empty() } else { seq!["Reconstructed merkle root differs from original"@] }));
        ReplayVerificationResult {
            valid: checkpoint_match && merkle_match,
            events_verified: tree.leaf_count as u64,
            events_failed: 0,
            merkle_match,
            signature_errors: 0,
            chain_errors: 0,
            checkpoint_match,
            issues,
        }
    }
}

} // verus!
