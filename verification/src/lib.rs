//! The decision logic of a set of services around a note-based chain: private note transport,
//! account funding, network monitoring, proving, and node administration.

pub mod chain;
pub mod clock;
pub mod filtering;
pub mod funding;
pub mod monitor;
pub mod node;
pub mod prover;
pub mod status;
pub mod text;
pub mod transport;
