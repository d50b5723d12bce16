//! Corruption detection: Merkle root and leaf mismatches, duplicate records and record
//! hashes that fail their check.
use vstd::prelude::*;
use crate::crypto::{bytes_eq, sha256, sha256_digest, hex_encode, hex_text};
use crate::records::SyncRecord;
use crate::text::{cat2, cat4, owned, last_path_segment, last_segment, str_eq};

verus! {

/// Detects corruption in trees and record chains.
pub struct CorruptionDetector {
    /// Seconds between checks.
    pub check_interval_secs: i64,
}

/// What was found.
#[derive(Debug)]
pub struct CorruptionReport {
    pub is_corrupted: bool,
    pub issues: Vec<CorruptionIssue>,
    pub verified_records: u64,
}

/// One problem found.
#[derive(Debug)]
pub struct CorruptionIssue {
    pub severity: CorruptionSeverity,
    pub issue_type: String,
    pub description: String,
    pub affected_partition: String,
    pub affected_records: usize,
}

/// How grave a problem is.
#[derive(Debug, Clone, Copy, PartialEq, Eq, Structural)]
pub enum CorruptionSeverity {
    Low,
    Medium,
    High,
    Critical,
}

/// What the detector reads of a Merkle tree: its partition, leaf count and root, its
/// leaves (path and stored hash) in the tree's order, and for each leaf the hash the tree
/// gives for the record named by the leaf's path, if any.
#[derive(Debug)]
pub struct MerkleTreeView {
    pub partition_key: String,
    pub leaf_count: usize,
    pub root: Vec<u8>,
    pub leaves: Vec<(String, Vec<u8>)>,
    pub record_hashes: Vec<Option<Vec<u8>>>,
}

/// The view of an issue: severity, type, description, partition and count.
pub open spec fn issue_view(i: CorruptionIssue) -> (CorruptionSeverity, Seq<char>, Seq<char>, Seq<char>, usize) {
    (i.severity, i.issue_type@, i.description@, i.affected_partition@, i.affected_records)
}

/// The views of a list of issues.
pub open spec fn issues_view(v: Seq<CorruptionIssue>) -> Seq<(CorruptionSeverity, Seq<char>, Seq<char>, Seq<char>, usize)> {
    v.map_values(|i: CorruptionIssue| issue_view(i))
}

/// The leaf issues among the first `n` leaves: a critical issue for each leaf whose
/// record's hash differs from the hash stored in the leaf.
pub open spec fn leaf_issues(t: MerkleTreeView, n: int) -> Seq<(CorruptionSeverity, Seq<char>, Seq<char>, Seq<char>, usize)>
    decreases n,
{
    if n <= 0 {
        Seq::empty()
    } else {
        leaf_issues(t, n - 1) + (match t.record_hashes@[n - 1] {
            Some(h) => if h@ != t.leaves@[n - 1].1@ {
                seq![(CorruptionSeverity::Critical, "leaf_hash_mismatch"@,
                    "Leaf hash mismatch for record "@ + last_segment(t.leaves@[n - 1].0@), t.partition_key@, 1usize)]
            } else {
                Seq::empty()
            },
            None => Seq::empty(),
        })
    }
}

/// How many of the first `n` leaves name a record the tree has a hash for.
pub open spec fn leaves_verified(t: MerkleTreeView, n: int) -> nat
    decreases n,
{
    if n <= 0 { 0 } else { leaves_verified(t, n - 1) + (if t.record_hashes@[n - 1] is Some { 1nat } else { 0nat }) }
}

/// The issues found in a tree against an expected root: a high issue when the roots
/// differ, then the leaf issues.
pub open spec fn tree_issues(expected_root: Seq<u8>, t: MerkleTreeView) -> Seq<(CorruptionSeverity, Seq<char>, Seq<char>, Seq<char>, usize)> {
    (if t.root@ != expected_root {
        seq![(CorruptionSeverity::High, "merkle_root_mismatch"@,
            "Merkle root mismatch: expected "@ + hex_text(expected_root) + ", computed "@ + hex_text(t.root@),
            t.partition_key@, t.leaf_count)]
    } else {
        Seq::empty()
    }) + leaf_issues(t, t.leaves@.len() as int)
}

/// The record chain issues among the first `n` records: a medium issue for each record
/// whose identifier occurred earlier, and a high issue for each signed record whose
/// computed hash is not its own digest.
pub open spec fn chain_issues(records: Seq<SyncRecord>, hashes: Seq<Vec<u8>>, n: int) -> Seq<(CorruptionSeverity, Seq<char>, Seq<char>, Seq<char>, usize)>
    decreases n,
{
    if n <= 0 {
        Seq::empty()
    } else {
        let r = records[n - 1];
        chain_issues(records, hashes, n - 1)
            + (if exists|k: int| 0 <= k < n - 1 && (#[trigger] records[k]).record_id@ == r.record_id@ {
                seq![(CorruptionSeverity::Medium, "duplicate_record"@, "Duplicate record ID: "@ + r.record_id@, Seq::<char>::empty(), 1usize)]
            } else {
                Seq::empty()
            })
            + (if r.signature@.len() > 0 && sha256_digest(hashes[n - 1]@) != hashes[n - 1]@ {
                seq![(CorruptionSeverity::High, "signature_mismatch"@, "Record hash mismatch for "@ + r.record_id@, Seq::<char>::empty(), 1usize)]
            } else {
                Seq::empty()
            })
    }
}

impl CorruptionDetector {
    /// A detector checking every `check_interval_secs` seconds.
    pub fn new(check_interval_secs: u64) -> (r: Self)
        requires
            check_interval_secs <= 9_223_372_036_854_775,
        ensures
            r.check_interval_secs == check_interval_secs,
    {
        CorruptionDetector { check_interval_secs: check_interval_secs as i64 }
    }

    /// Checks `tree` against `expected_root`. Without an expected root nothing is checked.
    /// Otherwise a root mismatch is a high issue for the whole partition, each leaf whose
    /// record hash differs from the stored one is a critical issue, and every leaf whose
    /// record the tree knows counts as verified.
    pub fn detect_merkle_corruption(&self, expected_root: &[u8], tree: &MerkleTreeView) -> (r: Result<CorruptionReport, crate::error::SyncEngineError>)
        requires
            tree.record_hashes@.len() == tree.leaves@.len(),
        ensures
            r matches Ok(rep) && (if expected_root@.len() == 0 {
                !rep.is_corrupted && rep.issues@.len() == 0 && rep.verified_records == 0
            } else {
                &&& issues_view(rep.issues@) == tree_issues(expected_root@, *tree)
                &&& rep.verified_records == leaves_verified(*tree, tree.leaves@.len() as int)
                &&& rep.is_corrupted == (rep.issues@.len() > 0)
            }),
    {
        if expected_root.len() == 0 {
            return Ok(CorruptionReport { is_corrupted: false, issues: Vec::new(), verified_records: 0 });
        }
        let mut issues: Vec<CorruptionIssue> = Vec::new();
        if !bytes_eq(tree.root.as_slice(), expected_root) {
            let expected_hex = hex_encode(expected_root);
            let computed_hex = hex_encode(tree.root.as_slice());
            issues.push(CorruptionIssue {
                severity: CorruptionSeverity::High,
                issue_type: owned("merkle_root_mismatch"),
                description: cat4("Merkle root mismatch: expected ", expected_hex.as_str(), ", computed ", computed_hex.as_str()),
                affected_partition: tree.partition_key.clone(),
                affected_records: tree.leaf_count,
            });
        }
        let ghost head = issues_view(issues@);
        assert(head + leaf_issues(*tree, 0) =~= head);
        let n = tree.leaves.len();
        let mut verified: u64 = 0;
        for i in 0..n
            invariant
                n == tree.leaves@.len(),
                n == tree.record_hashes@.len(),
                issues_view(issues@) == head + leaf_issues(*tree, i as int),
                verified == leaves_verified(*tree, i as int),
                verified <= i,
        {
            let ghost before = issues_view(issues@);
            match &tree.record_hashes[i] {
                Some(h) => {
                    if !bytes_eq(h.as_slice(), tree.leaves[i].1.as_slice()) {
                        let record_id = last_path_segment(tree.leaves[i].0.as_str());
                        let issue = CorruptionIssue {
                            severity: CorruptionSeverity::Critical,
                            issue_type: owned("leaf_hash_mismatch"),
                            description: cat2("Leaf hash mismatch for record ", record_id.as_str()),
                            affected_partition: tree.partition_key.clone(),
                            affected_records: 1,
                        };
                        let ghost iv = issue_view(issue);
                        issues.push(issue);
                        assert(issues_view(issues@) =~= before.push(iv));
                    }
                    verified = verified + 1;
                },
                None => {},
            }
            assert(issues_view(issues@) =~= head + leaf_issues(*tree, i + 1));
        }
        let is_corrupted = issues.len() > 0;
        Ok(CorruptionReport { is_corrupted, issues, verified_records: verified })
    }

    /// Checks a chain of records, given the hash computed for each: a record whose
    /// identifier occurred earlier is a medium issue; a signed record whose hash is not its
    /// own digest is a high issue.
    pub fn verify_record_chain(&self, records: &[SyncRecord], record_hashes: &[Vec<u8>]) -> (r: Vec<CorruptionIssue>)
        requires
            records@.len() == record_hashes@.len(),
        ensures
            issues_view(r@) == chain_issues(records@, record_hashes@, records@.len() as int),
    {
        let n = records.len();
        let mut issues: Vec<CorruptionIssue> = Vec::new();
        for i in 0..n
            invariant
                n == records@.len(),
                n == record_hashes@.len(),
                issues_view(issues@) == chain_issues(records@, record_hashes@, i as int),
        {
            let record = &records[i];
            let ghost before = issues_view(issues@);
            let mut seen = false;
            let mut k: usize = 0;
            while k < i && !seen
                invariant
                    k <= i,
                    i < n,
                    n == records@.len(),
                    *record == records@[i as int],
                    !seen ==> forall|q: int| 0 <= q < k ==> (#[trigger] records@[q]).record_id@ != records@[i as int].record_id@,
                    seen ==> exists|q: int| 0 <= q < i && (#[trigger] records@[q]).record_id@ == records@[i as int].record_id@,
                decreases i - k + (if seen { 0int } else { 1int }),
            {
                if str_eq(records[k].record_id.as_str(), record.record_id.as_str()) {
                    assert(records@[k as int].record_id@ == records@[i as int].record_id@);
                    seen = true;
                } else {
                    k = k + 1;
                }
            }
            if seen {
                let issue = CorruptionIssue {
                    severity: CorruptionSeverity::Medium,
                    issue_type: owned("duplicate_record"),
                    description: cat2("Duplicate record ID: ", record.record_id.as_str()),
                    affected_partition: String::new(),
                    affected_records: 1,
                };
                let ghost iv = issue_view(issue);
                issues.push(issue);
                assert(issues_view(issues@) =~= before.push(iv));
            }
            let ghost mid = issues_view(issues@);
            if record.signature.len() > 0 {
                let check = sha256(record_hashes[i].as_slice());
                if !bytes_eq(check.as_slice(), record_hashes[i].as_slice()) {
                    let issue = CorruptionIssue {
                        severity: CorruptionSeverity::High,
                        issue_type: owned("signature_mismatch"),
                        description: cat2("Record hash mismatch for ", record.record_id.as_str()),
                        affected_partition: String::new(),
                        affected_records: 1,
                    };
                    let ghost iv = issue_view(issue);
                    issues.push(issue);
                    assert(issues_view(issues@) =~= mid.push(iv));
                }
            }
            assert(issues_view(issues@) =~= chain_issues(records@, record_hashes@, i + 1));
        }
        issues
    }
}

} // verus!
