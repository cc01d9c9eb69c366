//! Administration of a node.

pub mod collection_account;
pub mod deploy_fee_collector;
pub mod lifecycle;
