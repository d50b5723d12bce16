//! Sync-engine core logic: governance registries, conflict resolution,
//! recovery state, runtime planning and integrity checks.

pub mod env;
pub mod text;
pub mod store;
pub mod governance;
pub mod runtime;
pub mod reconciliation;
pub mod crypto;
pub mod json;
pub mod error;
pub mod records;
pub mod recovery;
pub mod protocol;
pub mod security;
pub mod partition_recovery;
pub mod replay_verifier;
pub mod security_governance;
pub mod observability;
pub mod version;
