//! What the service publishes about its funding account.

use vstd::prelude::*;

use crate::chain::AccountId;

verus! {

/// The funding account and the chain state the worker last read.
#[derive(Debug, Clone, Copy, PartialEq, Eq, Structural)]
pub struct StatusSnapshot {
    /// The funding account.
    pub account_id: AccountId,
    /// The largest amount one request may ask for.
    pub max_amount: u64,
    /// The funding account's balance of the native asset.
    pub balance: u64,
    /// The block the balance was read at.
    pub reference_block: u32,
    /// The verification base fee at that block.
    pub verification_base_fee: u32,
}

impl StatusSnapshot {
    /// Publishes the balance and the fee which were read at `reference_block`.
    pub fn update(&mut self, balance: u64, reference_block: u32, verification_base_fee: u32)
        ensures
            *final(self) == (StatusSnapshot {
                balance,
                reference_block,
                verification_base_fee,
                ..*old(self)
            }),
    {
        self.balance = balance;
        self.reference_block = reference_block;
        self.verification_base_fee = verification_base_fee;
    }
}

} // verus!
