//! The funding service: it answers a funding request with a note, and creates that note on chain
//! later, in a transaction of the funding account.

pub mod deposit;
pub mod inclusion;
pub mod request_funds;
pub mod selection;
pub mod status;
pub mod worker;
