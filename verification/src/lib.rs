//! A small connection-oriented protocol over an unreliable datagram
//! transport: a checksummed binary packet codec, a challenge-response
//! handshake, per-peer sessions with anti-replay sequence numbers, and
//! the state kept by a client connection.

pub mod checksum;
pub mod conn;
pub mod future;
pub mod guard;
pub mod handshake;
pub mod packet;
pub mod proto;
pub mod registry;
pub mod session;
pub mod state;
pub mod wire;
