//! The typed requests and results exchanged with the request boundary.
//!
//! The transport layer turns inbound wire messages into these values and
//! serializes the results; the lease table itself only ever sees them as
//! plain data.

use vstd::prelude::*;
use crate::lease::Lease;

verus! {

/// Everything that can go wrong with a lease operation.
#[derive(Clone, Copy, Debug, PartialEq, Eq, Structural)]
pub enum LeaseError {
    /// Every port of the configured range is taken; the caller may retry
    /// later.  Never fatal to the daemon.
    ResourceExhausted,
    /// The operation named a port with no live lease; a caller error, not a
    /// system fault.
    NotFound,
    /// A store operation failed.
    PersistenceFailure,
}

/// Ask for a fresh port for the named service.
pub struct AllocateRequest {
    pub service_name: String,
    /// Overrides the configured default time-to-live when present.
    pub ttl_seconds: Option<u64>,
    /// Free-form labels stored with the lease; `None` means no labels.
    pub tags: Option<Vec<String>>,
}

/// A granted allocation: the assigned port and the full lease.
pub struct AllocateResponse {
    pub port: u16,
    pub lease: Lease,
}

/// Give a port back.
pub struct ReleaseRequest {
    pub port: u16,
}

/// Keep a lease alive.
pub struct HeartbeatRequest {
    pub port: u16,
}

/// Everything known about a service name: all its ports and one
/// representative lease, or an empty result when the name holds nothing.
pub struct LookupResponse {
    pub service_name: String,
    /// The representative lease's port, when any lease matches.
    pub port: Option<u16>,
    pub all_ports: Vec<u16>,
    pub lease: Option<Lease>,
}

} // verus!
