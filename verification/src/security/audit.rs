//! The security audit trail.
use vstd::prelude::*;

verus! {

/// Records authentication and signature outcomes of sync sessions.
pub struct SecurityAudit;

} // verus!
