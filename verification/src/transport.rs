//! The pluggable HTTP transport: the one collaborator that performs
//! socket I/O. The engine states nothing about what a transport returns;
//! everything downstream is verified for every possible reply.

use vstd::prelude::*;
use crate::analyzer::TransportTiming;
use crate::builder::{BuiltRequest, TransportPolicy};
use crate::classify::TransportFailure;
use crate::types::Methods;

verus! {

/// What a transport hands back on a completed exchange: the received
/// status, the raw response header block, the body bytes, its timing
/// signals (rich or reduced), and the remote peer address when known.
pub struct TransportReply {
    pub status: u16,
    pub raw_headers: String,
    pub body: Vec<u8>,
    pub timing: TransportTiming,
    pub remote_addr: Option<String>,
}

/// One HTTP exchange, honoring the resolved policy. A network-level
/// failure is returned as a structured [`TransportFailure`], never
/// raised. Implementations live outside the engine; nothing is assumed
/// of what they return.
pub trait HttpTransport {
    fn perform(&mut self, built: &BuiltRequest, method: &Methods, policy: &TransportPolicy) -> (r:
        Result<TransportReply, TransportFailure>);
}

} // verus!
