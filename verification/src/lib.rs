//! A concurrent HTTP load-generation engine.
//!
//! Given a list of candidate socket addresses, a pre-built wire-level
//! request, and a client count, the engine repeatedly issues that request
//! over raw TCP connections, tallying bytes received and request outcomes.
//!
//! The verified core is the per-worker connection/request/response state
//! machine ([`worker`]), the shared status accumulator ([`status`]), the
//! request-byte builder ([`protocol`]), and the run configuration with
//! its spawn plan ([`webbench`]). The surrounding process — the async
//! runtime, sockets, signal handling — performs the I/O actions that the
//! state machine requests and feeds the observed events back in.

use vstd::prelude::*;

pub mod protocol;
pub mod status;
pub mod webbench;
pub mod worker;

verus! {

/// Supported HTTP version.
#[derive(Copy, Clone, Debug, PartialEq, Eq, Structural)]
pub enum Version {
    /// HTTP 0.9
    H09,
    /// HTTP 1.0
    H10,
    /// HTTP 1.1
    H11,
}

/// Supported HTTP method.
#[derive(Copy, Clone, Debug, PartialEq, Eq, Structural)]
pub enum Method {
    OPTIONS,
    GET,
    HEAD,
    TRACE,
}

} // verus!
