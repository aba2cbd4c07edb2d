//! Signaling relay core: the line grammar, the peer registry and the
//! per-connection state machine that pairs clients and relays their payloads.
//!
//! - [`message`]: splits a text line into a command and its argument.
//! - [`registry`]: identities, their connections and their symmetric pairing.
//! - [`connection`]: one client session, stepped by frames and heartbeat ticks.

pub mod connection;
pub mod message;
pub mod registry;
