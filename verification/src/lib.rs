//! A minimal topic-based publish/subscribe message relay.
//!
//! The library holds the verified core: the newline-delimited JSON frame
//! codec, the topic registry that maps topic names to subscriber handles,
//! and the per-connection decision logic (handshake and relay steps).
//! Socket handling, threads and locking live outside the library and drive
//! these functions with plain values: connections appear here only as
//! opaque `u64` identifiers.

pub mod codec;
pub mod laws;
pub mod protocol;
pub mod registry;
