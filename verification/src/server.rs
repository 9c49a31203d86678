//! The relay-side rendezvous coordinator.
//!
//! The relay holds at most one pending client — a connection whose hello
//! was `Ready` and that is waiting for a partner.  When a second client
//! arrives, the pair enters a pairing round: the stored client is told to
//! listen, and once it acknowledges, the newcomer is told to connect to
//! the address the relay itself observed for the stored client.
//!
//! The coordinator is a pure state machine over a connection handle type
//! `C`; the code that accepts sockets drives it and performs the sends
//! and reads it calls for.  Every transition is total: a protocol
//! violation ends at most the round it occurs in, never the coordinator.

use vstd::prelude::*;

use crate::types::ClientMessage;
use crate::types::Endpoint;
use crate::types::ServerMessage;

verus! {

/// What the relay does with a freshly accepted connection after reading
/// its hello.
pub enum HelloOutcome<C> {
    /// The hello was not `Ready`: a protocol violation.  The connection
    /// is handed back to be closed; the pending slot is untouched.
    Violation { conn: C },
    /// No one was waiting: the connection is now the pending client,
    /// held open until a partner arrives.
    Held,
    /// Someone was waiting: a pairing round between the stored client
    /// and the new arrival begins.
    Pair(PairingRound<C>),
}

/// A pairing round in progress: who listens, who connects, and what to
/// send first.
pub struct PairingRound<C> {
    /// The client that was waiting; it is assigned the listening role.
    pub listener_conn: C,
    /// The address the relay observed for the listening client when it
    /// connected.
    pub listener_addr: Endpoint,
    /// The client that just arrived; it is assigned the connecting role.
    pub connector_conn: C,
    /// The assignment to send to `listener_conn` before anything else.
    pub listener_assignment: ServerMessage,
}

/// How a pairing round ends.
pub enum PairingResult<C> {
    /// The listener acknowledged.  Send `connector_assignment` to
    /// `connector_conn`; then both connections belong to their clients.
    Complete { listener_conn: C, connector_conn: C, connector_assignment: ServerMessage },
    /// The listener answered wrongly or disconnected: the round is
    /// abandoned and both connections are handed back to be closed.
    Abandoned { listener_conn: C, connector_conn: C },
}

/// The relay's pairing state: at most one pending client at a time.
pub struct Coordinator<C> {
    /// The waiting connection and the address the relay observed for it,
    /// if a client said `Ready` and no partner has arrived yet.
    pub pending: Option<(C, Endpoint)>,
}

/// The transition taken when a connection's hello arrives: the new
/// pending slot and what to do with the connection.
pub open spec fn spec_on_hello<C>(
    pending: Option<(C, Endpoint)>,
    conn: C,
    addr: Endpoint,
    hello: ClientMessage,
) -> (Option<(C, Endpoint)>, HelloOutcome<C>) {
    if hello != ClientMessage::Ready {
        (pending, HelloOutcome::Violation { conn })
    } else {
        match pending {
            None => (Some((conn, addr)), HelloOutcome::Held),
            Some((first_conn, first_addr)) => (
                None,
                HelloOutcome::Pair(
                    PairingRound {
                        listener_conn: first_conn,
                        listener_addr: first_addr,
                        connector_conn: conn,
                        listener_assignment: ServerMessage::YouListen,
                    },
                ),
            ),
        }
    }
}

/// How a round ends for each possible reply from the listener; `None`
/// stands for a disconnection or read failure.
pub open spec fn spec_finish<C>(
    round: PairingRound<C>,
    reply: Option<ClientMessage>,
) -> PairingResult<C> {
    if reply == Some(ClientMessage::ReadyToListen) {
        PairingResult::Complete {
            listener_conn: round.listener_conn,
            connector_conn: round.connector_conn,
            connector_assignment: ServerMessage::YouConnect { address: round.listener_addr },
        }
    } else {
        PairingResult::Abandoned {
            listener_conn: round.listener_conn,
            connector_conn: round.connector_conn,
        }
    }
}

impl<C> Coordinator<C> {
    /// A coordinator with no one waiting.
    pub fn new() -> (r: Self)
        ensures
            r.pending is None,
    {
        Coordinator { pending: None }
    }

    /// Feed in a freshly accepted connection `conn`, the remote address
    /// `addr` the relay observed for it, and the hello it sent.
    pub fn on_hello(&mut self, conn: C, addr: Endpoint, hello: ClientMessage) -> (r: HelloOutcome<
        C,
    >)
        ensures
            (final(self).pending, r) == spec_on_hello(old(self).pending, conn, addr, hello),
    {
        match hello {
            ClientMessage::ReadyToListen => HelloOutcome::Violation { conn },
            ClientMessage::Ready => {
                let prev = self.pending.take();
                match prev {
                    None => {
                        self.pending = Some((conn, addr));
                        HelloOutcome::Held
                    },
                    Some((first_conn, first_addr)) => HelloOutcome::Pair(
                        PairingRound {
                            listener_conn: first_conn,
                            listener_addr: first_addr,
                            connector_conn: conn,
                            listener_assignment: ServerMessage::YouListen,
                        },
                    ),
                }
            },
        }
    }
}

impl<C> PairingRound<C> {
    /// After sending `listener_assignment` to the listener, feed its
    /// reply here; `None` means it disconnected or could not be read.
    pub fn finish(self, reply: Option<ClientMessage>) -> (r: PairingResult<C>)
        ensures
            r == spec_finish(self, reply),
    {
        let acknowledged = match &reply {
            Some(m) => *m == ClientMessage::ReadyToListen,
            None => false,
        };
        if acknowledged {
            PairingResult::Complete {
                listener_conn: self.listener_conn,
                connector_conn: self.connector_conn,
                connector_assignment: (ServerMessage::YouConnect { address: self.listener_addr }),
            }
        } else {
            PairingResult::Abandoned {
                listener_conn: self.listener_conn,
                connector_conn: self.connector_conn,
            }
        }
    }
}

/// Pairing order: three clients arriving in order, each saying `Ready`,
/// are served first come, first served.  The first is stored; the second
/// is paired with the first — the first listens, the second is sent to
/// the first's observed address; the third becomes the new pending
/// client.
pub proof fn lemma_pairing_order<C>(
    conn_a: C,
    addr_a: Endpoint,
    conn_b: C,
    addr_b: Endpoint,
    conn_c: C,
    addr_c: Endpoint,
)
    ensures
        ({
            let (s1, r1) = spec_on_hello(None, conn_a, addr_a, ClientMessage::Ready);
            let (s2, r2) = spec_on_hello(s1, conn_b, addr_b, ClientMessage::Ready);
            let (s3, r3) = spec_on_hello(s2, conn_c, addr_c, ClientMessage::Ready);
            &&& r1 is Held
            &&& s1 == Some((conn_a, addr_a))
            &&& r2 matches HelloOutcome::Pair(round) && round.listener_conn == conn_a
                && round.listener_addr == addr_a && round.connector_conn == conn_b
            &&& s2 is None
            &&& r3 is Held
            &&& s3 == Some((conn_c, addr_c))
        }),
{
}

/// Role complementarity: in every completed pairing round, the stored
/// client is told to listen and the arriving client is told to connect —
/// exactly one of each role, never two of the same.
pub proof fn lemma_role_complementarity<C>(
    pending_conn: C,
    pending_addr: Endpoint,
    conn: C,
    addr: Endpoint,
)
    ensures
        ({
            let (s, r) = spec_on_hello(
                Some((pending_conn, pending_addr)),
                conn,
                addr,
                ClientMessage::Ready,
            );
            &&& r matches HelloOutcome::Pair(round) && round.listener_assignment
                == ServerMessage::YouListen && (spec_finish(
                round,
                Some(ClientMessage::ReadyToListen),
            ) matches PairingResult::Complete {
                listener_conn,
                connector_conn,
                connector_assignment,
            } && listener_conn == pending_conn && connector_conn == conn
                && connector_assignment matches ServerMessage::YouConnect { address })
        }),
{
}

/// Address fidelity: the endpoint sent to the connecting client is the
/// address the relay itself observed for the listening client's relay
/// connection — whatever addresses either client might claim.
pub proof fn lemma_address_fidelity<C>(
    pending_conn: C,
    pending_addr: Endpoint,
    conn: C,
    addr: Endpoint,
)
    ensures
        ({
            let (s, r) = spec_on_hello(
                Some((pending_conn, pending_addr)),
                conn,
                addr,
                ClientMessage::Ready,
            );
            r matches HelloOutcome::Pair(round) && spec_finish(
                round,
                Some(ClientMessage::ReadyToListen),
            ) matches PairingResult::Complete { connector_assignment, .. } && connector_assignment
                == (ServerMessage::YouConnect { address: pending_addr })
        }),
{
}

/// Violation containment: however a pairing round's listener answers —
/// the wrong message, or not at all — the round ends by handing both
/// connections back, and the pending slot is already clear, so the relay
/// goes on accepting.  A hello that is not `Ready` likewise costs only
/// that connection and leaves the slot as it was.
pub proof fn lemma_violation_containment<C>(
    round: PairingRound<C>,
    reply: Option<ClientMessage>,
    pending: Option<(C, Endpoint)>,
    conn: C,
    addr: Endpoint,
)
    requires
        reply != Some(ClientMessage::ReadyToListen),
    ensures
        spec_finish(round, reply) == (PairingResult::Abandoned::<C> {
            listener_conn: round.listener_conn,
            connector_conn: round.connector_conn,
        }),
        spec_on_hello(pending, conn, addr, ClientMessage::ReadyToListen) == (
            pending,
            HelloOutcome::Violation::<C> { conn },
        ),
{
}

} // verus!
