//! Private note delivery.
//!
//! Senders hand in notes, storage assigns each one a cursor, and receivers fetch the notes with
//! their tags in cursor order.

pub mod db;
pub mod envelope;
pub mod server;
