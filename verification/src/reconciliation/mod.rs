//! Conflict reconciliation: strategies per entity type, resolution of conflicting
//! payloads, and quarantine of conflicts awaiting a decision.

pub mod strategy;
pub mod quarantine;
pub mod resolver;

