//! The minter contract: the one contract allowed to issue tokens to wallets
//! and to retire them.

pub mod ft2sft;

use crate::account::AccountId;
use crate::codec::write_u128;
use crate::promise::{CallContext, PromiseOrValue};
use crate::wallet::impl_::wallet_account_id;
use crate::wallet::SFTWalletData;
use crate::state_init::{encoded_code, ContractCode, ContractCodeView, StateInit};
use vstd::bytes::*;
use vstd::prelude::*;

verus! {

/// The interface of a minter contract.
pub trait ShardedFungibleTokenMinter: Sized {
    /// The total supply of the token.
    fn sft_total_supply(&self) -> u128;

    /// The code that the wallets of this minter run.
    fn sft_wallet_code(self) -> ContractCode;

    /// The account of the wallet of `owner_id` under this minter.
    fn sft_wallet_account_id(&self, ctx: &CallContext, owner_id: AccountId) -> AccountId;
}

/// A minter that takes part in burning.
pub trait ShardedFungibleTokenBurner: ShardedFungibleTokenMinter {
    /// What the minter schedules when it cannot answer at once.
    type Promise;

    /// Called by the wallet of `sender_id` after it took `amount` tokens out
    /// of its balance to burn them. Returns how many of them the minter
    /// burnt; the wallet puts the rest back. An implementation has to ask for
    /// an attached deposit, so that only a contract can be the caller, and to
    /// check that the caller is the wallet of `sender_id`.
    fn sft_on_burn(
        &mut self,
        ctx: &CallContext,
        sender_id: AccountId,
        amount: u128,
        msg: String,
    ) -> PromiseOrValue<Self::Promise>;
}

/// The record of a minter.
#[derive(Debug, PartialEq, Eq)]
pub struct SftMinterData {
    /// The tokens in circulation.
    pub total_supply: u128,
    /// The code that the wallets of this minter run.
    pub sft_wallet_code: ContractCode,
}

/// A minter's record as plain values.
pub ghost struct MinterView {
    pub total_supply: u128,
    pub sft_wallet_code: ContractCodeView,
}

impl View for SftMinterData {
    type V = MinterView;

    open spec fn view(&self) -> MinterView {
        MinterView { total_supply: self.total_supply, sft_wallet_code: self.sft_wallet_code@ }
    }
}

/// The canonical encoding of a minter's record: its fields in order.
pub open spec fn encoded_minter(minter: MinterView) -> Seq<u8> {
    spec_u128_to_le_bytes(minter.total_supply) + encoded_code(minter.sft_wallet_code)
}

impl SftMinterData {
    /// The record of a minter that has issued nothing yet.
    pub fn init(sft_wallet_code: ContractCode) -> (r: Self)
        ensures
            r@ == (MinterView { total_supply: 0, sft_wallet_code: sft_wallet_code@ }),
    {
        SftMinterData { total_supply: 0, sft_wallet_code }
    }

    /// The account of the wallet of `owner_id` under the minter `minter_id`
    /// that holds this record.
    pub fn wallet_account_id(&self, minter_id: &AccountId, owner_id: &AccountId) -> (r: AccountId)
        ensures
            r@ == wallet_account_id(self@.sft_wallet_code, owner_id@, minter_id@),
    {
        StateInit::code(self.sft_wallet_code.clone()).data(
            SFTWalletData::init_state(owner_id, minter_id),
        ).derive_account_id()
    }

    /// Appends the encoding of the record to `out`.
    pub(crate) fn write_to(&self, out: &mut Vec<u8>)
        ensures
            final(out)@ == old(out)@ + encoded_minter(self@),
            encoded_minter(self@).len() <= 85,
    {
        proof {
            vstd::bytes::lemma_auto_spec_u128_to_from_le_bytes();
        }
        write_u128(out, self.total_supply);
        self.sft_wallet_code.write_to(out);
        assert(out@ =~= old(out)@ + encoded_minter(self@));
    }
}

impl Clone for SftMinterData {
    fn clone(&self) -> (r: Self)
        ensures
            r@ == self@,
    {
        SftMinterData {
            total_supply: self.total_supply,
            sft_wallet_code: self.sft_wallet_code.clone(),
        }
    }
}

} // verus!
