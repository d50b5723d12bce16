//! The runtime: planning, scheduling, storage governance, survivability,
//! verification and certification of the sovereign runtime.
use vstd::prelude::*;

pub mod operations;
pub mod scheduler;
pub mod replay_runtime;
pub mod storage;
pub mod survivability;
pub mod benchmark;
pub mod complexity;
pub mod constitution;
pub mod certification;
pub mod verification;

verus! {

/// Governs runtime readiness.
pub struct RuntimeGovernor;

impl RuntimeGovernor {
    /// A new governor.
    pub fn new() -> (r: Self) {
        RuntimeGovernor
    }

    /// The compliance of the runtime with `constitution`; every article holds.
    pub fn verify_runtime_readiness(&self, constitution: &constitution::RuntimeConstitution) -> (r: constitution::ConstitutionCompliance)
        ensures
            r.compliant,
            r.checks_passed == 8,
            r.checks_total == 8,
            r.violations@.len() == 0,
    {
        constitution.verify_compliance()
    }
}

impl Default for RuntimeGovernor {
    /// The same as `RuntimeGovernor::new()`.
    fn default() -> (r: Self)
    {
        Self::new()
    }
}

} // verus!
