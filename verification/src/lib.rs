//! Codec, packet registry and connection state machine of a length-prefixed,
//! phase-dependent game protocol, together with the server's player table.
//!
//! Everything here works on plain values: bytes come in through a [`net::proto::Reader`]
//! and go out into a `Vec<u8>`. Sockets and threads stay with the caller.

pub mod error;
pub mod net;
pub mod server;
pub mod types;
