//! The owner's side of a transfer.

use crate::account::AccountId;
use crate::promise::{CallContext, PromiseOrValue};
use vstd::prelude::*;

verus! {

/// A contract that owns a wallet and wants to be told of the tokens that the
/// wallet receives.
pub trait ShardedFungibleTokenReceiver {
    /// What the contract schedules when it cannot answer at once.
    type Promise;

    /// Called by the wallet after it received `amount` tokens from
    /// `sender_id`. Returns how many of them the owner used; the wallet
    /// gives the rest back to the sender. `amount` may be zero, and
    /// `sender_id` is only what the caller claims: the owner has to check for
    /// itself that the caller is a wallet of the minter it expects.
    fn sft_on_receive(
        &mut self,
        ctx: &CallContext,
        sender_id: AccountId,
        amount: u128,
        msg: String,
    ) -> PromiseOrValue<Self::Promise>;
}

} // verus!
