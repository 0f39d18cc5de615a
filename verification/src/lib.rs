//! A signaling relay core: a registry of identified connections and the
//! rules that decide, for every inbound message, who receives what.
//!
//! The transport is not part of this crate. A connection is known here only
//! by its [`connection::Connection`] handle, and every decision is returned
//! as a [`delivery::Delivery`] for the transport to carry out.

pub mod connection;
pub mod text;
pub mod node;
pub mod push;
pub mod network;
pub mod envelope;
pub mod handshake;
pub mod delivery;
pub mod server;
pub mod relay;
