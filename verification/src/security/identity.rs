//! Checks of node identities.
use vstd::prelude::*;
use crate::error::SyncEngineError;
use crate::records::{NodeIdentity, NodeStatus};

verus! {

/// Checks certificates and node identities.
pub struct IdentityVerifier;

impl IdentityVerifier {
    /// Accepts every certificate chain: chains are checked by the TLS layer.
    pub fn verify_certificate_chain(cert_der: &[u8], ca_der: &[u8]) -> (r: Result<bool, SyncEngineError>)
        ensures
            r == Ok::<bool, SyncEngineError>(true),
    {
        Ok(true)
    }

    /// Whether `node` belongs to ministry `expected_ministry_id`.
    pub fn verify_node_identity(node: &NodeIdentity, expected_ministry_id: u128) -> (r: Result<bool, SyncEngineError>)
        ensures
            r == Ok::<bool, SyncEngineError>(node.ministry_id == expected_ministry_id),
    {
        Ok(node.ministry_id == expected_ministry_id)
    }

    /// Whether `node` is online.
    pub fn verify_node_status(node: &NodeIdentity) -> (r: Result<bool, SyncEngineError>)
        ensures
            r == Ok::<bool, SyncEngineError>(node.status == NodeStatus::Online),
    {
        Ok(node.status == NodeStatus::Online)
    }
}

} // verus!
