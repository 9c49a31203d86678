//! The client-side peer endpoint resolver.
//!
//! After a client reaches the relay and says `Ready`, the relay answers
//! with a role assignment.  This module turns that assignment into a
//! concrete plan: either dial the peer at the address the relay gave, or
//! bind a listener on the local endpoint already used to reach the relay
//! — reusing that exact address and port is what lets a peer behind a
//! NAT be reached at the mapping the relay observed — acknowledge with
//! `ReadyToListen`, and accept one inbound connection.  The sockets that
//! carry the plan out live outside this crate.

use vstd::prelude::*;

use crate::types::ClientMessage;
use crate::types::Endpoint;
use crate::types::ServerMessage;

verus! {

/// How a client is to reach its peer, given its role assignment.
pub enum PeerPlan {
    /// Open a new outbound connection to `endpoint`.
    Dial { endpoint: Endpoint },
    /// Bind a listener on `bind_addr` — the local address of the relay
    /// connection, with address reuse enabled — send `acknowledgement`
    /// to the relay, then accept exactly one inbound connection.
    Listen { bind_addr: Endpoint, acknowledgement: ClientMessage },
}

/// The plan for an assignment: connect-role clients dial the given
/// address; listen-role clients bind their relay-local endpoint and
/// acknowledge with `ReadyToListen`.
pub open spec fn spec_resolve(assignment: ServerMessage, local_addr: Endpoint) -> PeerPlan {
    match assignment {
        ServerMessage::YouConnect { address } => PeerPlan::Dial { endpoint: address },
        ServerMessage::YouListen => PeerPlan::Listen {
            bind_addr: local_addr,
            acknowledgement: ClientMessage::ReadyToListen,
        },
    }
}

/// Resolve a role assignment into a peer plan.  `local_addr` is the
/// local endpoint of this client's relay connection; it is used only by
/// the listening role, which must bind exactly that address.
pub fn resolve_assignment(assignment: &ServerMessage, local_addr: Endpoint) -> (r: PeerPlan)
    ensures
        r == spec_resolve(*assignment, local_addr),
{
    match assignment {
        ServerMessage::YouConnect { address } => PeerPlan::Dial { endpoint: *address },
        ServerMessage::YouListen => PeerPlan::Listen {
            bind_addr: local_addr,
            acknowledgement: ClientMessage::ReadyToListen,
        },
    }
}

/// The hello a client sends the moment it reaches the relay.
pub fn initial_hello() -> (r: ClientMessage)
    ensures
        r == ClientMessage::Ready,
{
    ClientMessage::Ready
}

} // verus!
