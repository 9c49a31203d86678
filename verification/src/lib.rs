//! A rendezvous library for peer-to-peer connection establishment.
//!
//! Two clients, each behind its own network path, reach a known relay.
//! The relay pairs them, assigns one the listening role and the other the
//! connecting role, and hands them the information needed to open a direct
//! channel to each other.  This crate holds the verified core: the wire
//! codec for the protocol's messages, the length-prefixed framing, the
//! relay's pairing state machine, and the client-side resolution of a role
//! assignment into a concrete plan.  The sockets themselves live outside.

pub mod client;
pub mod message;
pub mod server;
pub mod types;
