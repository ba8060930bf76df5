//! Configuration and orchestration of a run.
//!
//! A run is described once, before it starts, by a [`Config`]: the
//! candidate socket addresses, the raw request buffer, the connection
//! mode, and the client count. The orchestrator validates the
//! configuration, then spawns exactly `clients` connection workers —
//! [`Config::spawn_plan`] says which — each sharing the configuration
//! read-only and reporting into one shared status accumulator. The
//! surrounding process owns the execution pool, the cancellation signal,
//! and the joins; its stop/wait duties have no verifiable content of
//! their own and stay outside the library.

use vstd::prelude::*;

use crate::worker::Worker;

verus! {

/// One socket address a worker may connect to, as plain values.
#[derive(Copy, Clone, Debug)]
pub enum SockAddr {
    /// An IPv4 address and port.
    V4 { octets: [u8; 4], port: u16 },
    /// An IPv6 address and port.
    V6 { segments: [u16; 8], port: u16 },
}

/// Why a configuration cannot start a run.
#[derive(Copy, Clone, Debug, PartialEq, Eq, Structural)]
pub enum ConfigError {
    /// The address list is empty.
    NoAddress,
    /// The request buffer is empty.
    EmptyRequest,
    /// The client count is zero.
    NoClients,
}

/// The fixed configuration of one run. Created once, validated, then
/// shared read-only with every worker; never mutated afterwards.
#[derive(Clone, Debug)]
pub struct Config {
    /// Candidate socket addresses; each connect attempt tries them in
    /// list order and uses the first that is reachable.
    pub addrs: Vec<SockAddr>,
    /// The fully-formed request, written verbatim each cycle.
    pub request: Vec<u8>,
    /// Whether workers reuse an open connection across request cycles.
    pub is_keepalive: bool,
    /// How many workers run concurrently.
    pub clients: u32,
}

impl Config {
    /// A configuration that can start a run: at least one address, a
    /// non-empty request, and at least one client.
    pub open spec fn valid(self) -> bool {
        self.addrs@.len() >= 1 && self.request@.len() >= 1 && self.clients >= 1
    }

    /// Checks the configuration and names the first problem found, in
    /// the order: no address, empty request, no clients.
    pub fn validate(&self) -> (r: Result<(), ConfigError>)
        ensures
            r is Ok <==> self.valid(),
            self.addrs@.len() == 0 ==> r == Result::<(), ConfigError>::Err(ConfigError::NoAddress),
            self.addrs@.len() >= 1 && self.request@.len() == 0 ==> r == Result::<
                (),
                ConfigError,
            >::Err(ConfigError::EmptyRequest),
            self.addrs@.len() >= 1 && self.request@.len() >= 1 && self.clients == 0 ==> r
                == Result::<(), ConfigError>::Err(ConfigError::NoClients),
    {
        if self.addrs.len() == 0 {
            Err(ConfigError::NoAddress)
        } else if self.request.len() == 0 {
            Err(ConfigError::EmptyRequest)
        } else if self.clients == 0 {
            Err(ConfigError::NoClients)
        } else {
            Ok(())
        }
    }

    /// The workers that starting a run spawns: exactly `clients` of
    /// them, every one bound to this configuration's connection mode and
    /// request length, every one starting disconnected.
    pub fn spawn_plan(&self) -> (ws: Vec<Worker>)
        requires
            self.valid(),
        ensures
            ws@.len() == self.clients,
            forall|i: int|
                0 <= i < ws@.len() ==> ws@[i] == Worker::spec_initial(
                    self.is_keepalive,
                    self.request@.len() as usize,
                ),
    {
        let mut ws: Vec<Worker> = Vec::new();
        let mut i: u32 = 0;
        while i < self.clients
            invariant
                i <= self.clients,
                self.request@.len() >= 1,
                ws@.len() == i,
                forall|k: int|
                    0 <= k < ws@.len() ==> ws@[k] == Worker::spec_initial(
                        self.is_keepalive,
                        self.request@.len() as usize,
                    ),
            decreases self.clients - i,
        {
            ws.push(Worker::new(self.is_keepalive, self.request.len()));
            i = i + 1;
        }
        ws
    }
}

/// The supervisory abort rule: more failures than one per two
/// successes. While no cycle has succeeded yet the rule does not fire —
/// a ratio with a zero denominator is read as "no abort yet".
pub fn too_many_failures(success: u32, failed: u32) -> (b: bool)
    ensures
        b == (success > 0 && 2 * (failed as int) > success as int),
{
    success > 0 && (failed as u64) * 2 > (success as u64)
}

} // verus!
