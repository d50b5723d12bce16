//! What the service reports of its health and readiness.
use vstd::prelude::*;

verus! {

/// The service's health.
#[derive(Debug, Clone)]
pub struct HealthStatus {
    pub status: String,
    pub version: String,
    pub uptime: String,
}

/// Whether the service is ready, with the state of its database.
#[derive(Debug, Clone)]
pub struct ReadinessStatus {
    pub ready: bool,
    pub database: String,
}

/// Keeps the tracing pipeline alive; it is shut down when the guard is dropped.
pub struct ObservabilityGuard;

/// The readiness of the service, given whether its database answered.
pub fn readiness_of(db_ok: bool) -> (r: ReadinessStatus)
    ensures
        r.ready == db_ok,
        r.database@ == (if db_ok { "connected"@ } else { "disconnected"@ }),
{
    ReadinessStatus {
        ready: db_ok,
        database: if db_ok { crate::text::owned("connected") } else { crate::text::owned("disconnected") },
    }
}

} // verus!
