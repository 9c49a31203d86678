//! The message taxonomy of the rendezvous protocol, and the network
//! endpoint values those messages carry.

use vstd::prelude::*;

verus! {

/// An IPv4 network endpoint: the address and port a socket can dial.
///
/// The four address octets are packed big-endian into `ip`, so
/// `127.0.0.1` is `0x7f00_0001`.
#[derive(Clone, Copy, PartialEq, Eq, Structural, Debug)]
pub struct Endpoint {
    pub ip: u32,
    pub port: u16,
}

/// What a client says to the relay.
///
/// A client sends exactly one `Ready` per relay connection, and at most
/// one `ReadyToListen`, only after it has been assigned the listening
/// role and has bound its listener.
#[derive(Clone, Copy, PartialEq, Eq, Structural, Debug)]
pub enum ClientMessage {
    Ready,
    ReadyToListen,
}

/// What the relay says to a paired client: its role in the handoff.
#[derive(Clone, Copy, PartialEq, Eq, Structural, Debug)]
pub enum ServerMessage {
    YouListen,
    YouConnect { address: Endpoint },
}

/// What paired clients exchange directly once the handoff is done:
/// an opaque byte payload.
#[derive(PartialEq, Eq, Debug)]
pub enum ConnectionMessage {
    DataLoad { data: Vec<u8> },
}

impl View for Endpoint {
    type V = Endpoint;

    open spec fn view(&self) -> Endpoint {
        *self
    }
}

impl View for ClientMessage {
    type V = ClientMessage;

    open spec fn view(&self) -> ClientMessage {
        *self
    }
}

impl View for ServerMessage {
    type V = ServerMessage;

    open spec fn view(&self) -> ServerMessage {
        *self
    }
}

impl View for ConnectionMessage {
    type V = Seq<u8>;

    /// The payload bytes are the whole content of a `ConnectionMessage`.
    open spec fn view(&self) -> Seq<u8> {
        match self {
            ConnectionMessage::DataLoad { data } => data@,
        }
    }
}

} // verus!
