//! Transport layer for a matching-engine gateway: wire-level encoding and
//! decoding of the fixed-layout binary protocol, reassembly of length-prefixed
//! frames out of a raw byte stream, per-connection order-id allocation, and
//! routing across a fixed pool of connections.

mod clock;
pub mod config;
pub mod connection;
pub mod endian;
pub mod pool;
pub mod protocol;
pub mod reassembler;
