//! Host-side protocol logic for sharing one VEX V5 Brain link between several
//! client processes through a daemon.
//!
//! - `varint`, `packets`, `frame`: the byte codec of the device protocol, with
//!   proofs that decoding undoes encoding.
//! - `buffer`, `transport`: inbound framing and the buffer of unclaimed
//!   packets, matched first come first served and trimmed of stale ones.
//! - `handshake`: request/reply with bounded retries.
//! - `sharing`: the commands that start a link and take or give up its lease.
//! - `lease`: how the daemon grants the lease, and serializes device commands.
//! - `session`, `upload`: the IPC messages and the per-session decisions of
//!   the daemon.
//!
//! All I/O stays with the caller: these modules decide, and say so in their
//! contracts.

pub mod buffer;
pub mod error;
pub mod frame;
pub mod handshake;
pub mod lease;
pub mod packets;
pub mod session;
pub mod sharing;
pub mod transport;
pub mod upload;
pub mod varint;
