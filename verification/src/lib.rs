//! Core of a latency-aware TCP forwarder: probe statistics and scoring,
//! best-target selection with a deterministic tie-break, the shared
//! best-target state, and the byte-exact proxy header codec.

pub mod config;
pub mod endpoint;
pub mod header;
pub mod score;
pub mod select;
pub mod state;
