//! Proving: the remote prover's side and the side of its client.

pub mod remote_client;
pub mod server;
