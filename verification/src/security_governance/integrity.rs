//! Integrity: hash checks, event chain checks and cryptographic proofs.
use vstd::prelude::*;
use crate::env::{fresh_id, now_millis};
use crate::crypto::{sha256, sha256_digest, bytes_eq};
use crate::text::{cat3, owned, strs_view, u64_text, decimal};

verus! {

/// Verifies hashes, chains and proofs.
pub struct IntegrityEngine;

/// The outcome of an integrity check.
#[derive(Debug)]
pub struct IntegrityVerification {
    pub target: String,
    pub verified: bool,
    pub hash_match: bool,
    pub signature_valid: bool,
    pub chain_integrity: bool,
    pub tamper_detected: bool,
    pub details: Vec<String>,
}

/// A proof binding data, by its hash, to a signature and a public key.
#[derive(Debug)]
pub struct CryptographicProof {
    pub proof_id: u128,
    pub target_hash: Vec<u8>,
    pub signature: Vec<u8>,
    pub public_key: Vec<u8>,
    /// Milliseconds since the Unix epoch.
    pub timestamp: i64,
    pub algorithm: String,
}

/// How many of the first `n` neighbouring pairs of the chain differ.
pub open spec fn chain_breaks(hashes: Seq<Vec<u8>>, n: int) -> nat
    decreases n,
{
    if n <= 1 {
        0
    } else {
        chain_breaks(hashes, n - 1) + (if hashes[n - 2]@ != hashes[n - 1]@ { 1nat } else { 0nat })
    }
}

/// One line per chain break.
pub open spec fn break_lines(n: nat) -> Seq<Seq<char>> {
    Seq::new(n, |i: int| "Hash chain break detected between consecutive events"@)
}

/// The details of a chain check: one line per break, then the verdict.
pub open spec fn chain_details(hashes: Seq<Vec<u8>>) -> Seq<Seq<char>> {
    let breaks = chain_breaks(hashes, hashes.len() as int);
    break_lines(breaks)
        + (if breaks > 0 { seq!["Event chain integrity compromised — tampering detected"@] }
           else { seq!["Event chain intact — "@ + decimal(hashes.len()) + " events verified"@] })
}

impl IntegrityEngine {
    /// A new engine.
    pub fn new() -> (r: Self) {
        IntegrityEngine
    }

    /// Whether `expected_hash` is the SHA-256 digest of `data`.
    pub fn verify_hash(&self, data: &[u8], expected_hash: &[u8]) -> (r: bool)
        ensures
            r == (sha256_digest(data@) == expected_hash@),
    {
        let computed = sha256(data);
        bytes_eq(computed.as_slice(), expected_hash)
    }

    /// Checks an event chain: every two neighbouring hashes must be equal; each pair that
    /// differs is a break, and any break means tampering.
    pub fn verify_event_chain(&self, hashes: &[Vec<u8>]) -> (r: IntegrityVerification)
        ensures
            r.target@ == "event_chain"@,
            r.tamper_detected == (chain_breaks(hashes@, hashes@.len() as int) > 0),
            r.verified == !r.tamper_detected,
            r.hash_match == !r.tamper_detected,
            r.signature_valid == !r.tamper_detected,
            r.chain_integrity == !r.tamper_detected,
            strs_view(r.details@) == chain_details(hashes@),
    {
        let n = hashes.len();
        let mut details: Vec<String> = Vec::new();
        let mut breaks: usize = 0;
        let mut k: usize = 1;
        while k < n
            invariant
                n == hashes@.len(),
                1 <= k,
                k <= n || (n == 0 && k == 1),
                breaks == chain_breaks(hashes@, k as int),
                breaks < k,
                strs_view(details@) == break_lines(breaks as nat),
            decreases n - k,
        {
            let ghost before = strs_view(details@);
            if !bytes_eq(hashes[k - 1].as_slice(), hashes[k].as_slice()) {
                details.push(owned("Hash chain break detected between consecutive events"));
                assert(strs_view(details@) =~= before.push("Hash chain break detected between consecutive events"@));
                assert(break_lines((breaks + 1) as nat) =~= break_lines(breaks as nat).push("Hash chain break detected between consecutive events"@));
                breaks = breaks + 1;
            }
            k = k + 1;
        }
        assert(breaks == chain_breaks(hashes@, hashes@.len() as int));
        let tampered = breaks > 0;
        let ghost lines = strs_view(details@);
        if tampered {
            details.push(owned("Event chain integrity compromised — tampering detected"));
            assert(strs_view(details@) =~= lines.push("Event chain integrity compromised — tampering detected"@));
        } else {
            let count = u64_text(n as u64);
            details.push(cat3("Event chain intact — ", count.as_str(), " events verified"));
            assert(strs_view(details@) =~= lines.push("Event chain intact — "@ + decimal(n as nat) + " events verified"@));
        }
        assert(strs_view(details@) =~= chain_details(hashes@));
        IntegrityVerification {
            target: owned("event_chain"),
            verified: !tampered,
            hash_match: !tampered,
            signature_valid: !tampered,
            chain_integrity: !tampered,
            tamper_detected: tampered,
            details,
        }
    }

    /// A proof of `data`: its SHA-256 digest with the given signature and public key.
    pub fn create_proof(&self, data: &[u8], signature: Vec<u8>, public_key: Vec<u8>) -> (r: CryptographicProof)
        ensures
            r.target_hash@ == sha256_digest(data@),
            r.signature == signature,
            r.public_key == public_key,
            r.algorithm@ == "Ed25519+SHA256"@,
    {
        CryptographicProof {
            proof_id: fresh_id(),
            target_hash: sha256(data),
            signature,
            public_key,
            timestamp: now_millis(),
            algorithm: owned("Ed25519+SHA256"),
        }
    }

    /// Whether a proof carries both a signature and a public key.
    pub fn validate_proof(&self, proof: &CryptographicProof) -> (r: bool)
        ensures
            r == (proof.signature@.len() > 0 && proof.public_key@.len() > 0),
    {
        proof.signature.len() > 0 && proof.public_key.len() > 0
    }
}

impl Default for IntegrityEngine {
    /// The same as `IntegrityEngine::new()`.
    fn default() -> (r: Self)
    {
        Self::new()
    }
}

} // verus!
