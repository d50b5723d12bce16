//! Security of synchronisation: Ed25519 signing, node identity checks and the audit trail.

pub mod signing;
pub mod identity;
pub mod audit;
