//! A minter that issues sharded tokens for fungible tokens that it receives,
//! and pays the fungible tokens out again when the sharded ones are burnt.

use super::{
    encoded_minter, MinterView, SftMinterData, ShardedFungibleTokenBurner,
    ShardedFungibleTokenMinter,
};
use crate::account::{lemma_valid_account_id_bytes, AccountId};
use crate::codec::{encoded_text, write_bytes};
use crate::promise::view_of;
use crate::wallet::{
    state_key, TransferNotification, TransferNotificationView,
};
use crate::state_init::ContractCode;
use crate::storage::ContractStorage;
use vstd::prelude::*;

verus! {

/// The interface of the adaptor: a minter that burns.
pub trait Ft2Sft: ShardedFungibleTokenMinter + ShardedFungibleTokenBurner {

}

/// The record of the adaptor.
#[derive(Debug, PartialEq, Eq)]
pub struct Ft2SftData {
    /// The minter's own record.
    pub data: SftMinterData,
    /// The contract of the fungible token that backs the sharded one.
    pub ft_contract_id: AccountId,
}

/// An adaptor's record as plain values.
pub ghost struct Ft2SftView {
    pub data: MinterView,
    pub ft_contract_id: Seq<char>,
}

impl View for Ft2SftData {
    type V = Ft2SftView;

    open spec fn view(&self) -> Ft2SftView {
        Ft2SftView { data: self.data@, ft_contract_id: self.ft_contract_id@ }
    }
}

/// The canonical encoding of an adaptor's record: its fields in order.
pub open spec fn encoded_ft2sft(record: Ft2SftView) -> Seq<u8> {
    encoded_minter(record.data) + encoded_text(record.ft_contract_id)
}

/// The record of a new adaptor for the token `ft_contract_id`, whose wallets
/// run `sft_wallet_code`.
pub open spec fn new_ft2sft(ft_contract_id: Seq<char>, sft_wallet_code: ContractCode) -> Ft2SftView {
    Ft2SftView {
        data: MinterView { total_supply: 0, sft_wallet_code: sft_wallet_code@ },
        ft_contract_id,
    }
}

impl Ft2SftData {
    /// The record of a new adaptor.
    pub fn init(ft_contract_id: AccountId, sft_wallet_code: ContractCode) -> (r: Self)
        ensures
            r@ == new_ft2sft(ft_contract_id@, sft_wallet_code),
    {
        Ft2SftData { data: SftMinterData::init(sft_wallet_code), ft_contract_id }
    }

    /// The canonical encoding of the record.
    pub fn serialize(&self) -> (bytes: Vec<u8>)
        ensures
            bytes@ == encoded_ft2sft(self@),
            bytes@.len() <= 153,
    {
        let mut out: Vec<u8> = Vec::new();
        self.data.write_to(&mut out);
        let ft_contract_id = self.ft_contract_id.as_str();
        proof {
            lemma_valid_account_id_bytes(ft_contract_id@);
        }
        let written = write_bytes(&mut out, ft_contract_id.as_bytes());
        assert(written);
        assert(out@ =~= encoded_ft2sft(self@));
        proof {
            vstd::bytes::lemma_auto_spec_u32_to_from_le_bytes();
        }
        out
    }

    /// The initial storage of a new adaptor: the state key bound to the
    /// encoded record.
    pub fn init_state(ft_contract_id: AccountId, sft_wallet_code: ContractCode) -> (r:
        ContractStorage)
        ensures
            r@ == seq![
                (state_key(), encoded_ft2sft(new_ft2sft(ft_contract_id@, sft_wallet_code))),
            ],
    {
        let record = Ft2SftData::init(ft_contract_id, sft_wallet_code).serialize();
        let key: Vec<u8> = Vec::new();
        assert(key@ =~= state_key());
        let ghost bound = (key@, record@);
        let r = ContractStorage::new().borsh(key, record);
        assert(r@ =~= seq![bound]);
        r
    }
}

/// What a holder of fungible tokens sends along with them to have sharded
/// tokens minted.
#[derive(Debug, PartialEq, Eq)]
pub struct MintMessage {
    /// Who receives the sharded tokens; the sender if absent.
    pub receiver_id: Option<AccountId>,
    /// A memo to pass on to the receiving wallet.
    pub memo: Option<String>,
    /// Has the receiving wallet notify its owner. The notification cannot
    /// carry a deposit, since a transfer of fungible tokens attaches none.
    pub notify: Option<TransferNotification>,
}

/// A mint message as plain values.
pub ghost struct MintMessageView {
    pub receiver_id: Option<Seq<char>>,
    pub memo: Option<Seq<char>>,
    pub notify: Option<TransferNotificationView>,
}

impl View for MintMessage {
    type V = MintMessageView;

    open spec fn view(&self) -> MintMessageView {
        MintMessageView {
            receiver_id: view_of(self.receiver_id),
            memo: view_of(self.memo),
            notify: view_of(self.notify),
        }
    }
}

impl Default for MintMessage {
    fn default() -> (r: Self)
        ensures
            r@ == (MintMessageView { receiver_id: None, memo: None, notify: None }),
    {
        MintMessage { receiver_id: None, memo: None, notify: None }
    }
}

/// What a holder of sharded tokens sends along with a burn to have fungible
/// tokens paid out.
#[derive(Debug, PartialEq, Eq)]
pub struct BurnMessage {
    /// Who receives the fungible tokens; the sender if absent.
    pub receiver_id: Option<AccountId>,
    /// A memo to pass on with the fungible tokens.
    pub memo: Option<String>,
    /// If present, the fungible tokens are sent with a call that carries this
    /// message.
    pub msg: Option<String>,
    /// If not zero, a storage deposit made for the receiver before the
    /// fungible tokens are sent, in yoctoNEAR.
    pub storage_deposit: u128,
    /// Where the rest of the attached deposit goes; the sender if absent.
    pub refund_to: Option<AccountId>,
}

/// A burn message as plain values.
pub ghost struct BurnMessageView {
    pub receiver_id: Option<Seq<char>>,
    pub memo: Option<Seq<char>>,
    pub msg: Option<Seq<char>>,
    pub storage_deposit: u128,
    pub refund_to: Option<Seq<char>>,
}

impl View for BurnMessage {
    type V = BurnMessageView;

    open spec fn view(&self) -> BurnMessageView {
        BurnMessageView {
            receiver_id: view_of(self.receiver_id),
            memo: view_of(self.memo),
            msg: view_of(self.msg),
            storage_deposit: self.storage_deposit,
            refund_to: view_of(self.refund_to),
        }
    }
}

impl Default for BurnMessage {
    fn default() -> (r: Self)
        ensures
            r@ == (BurnMessageView {
                receiver_id: None,
                memo: None,
                msg: None,
                storage_deposit: 0,
                refund_to: None,
            }),
    {
        BurnMessage { receiver_id: None, memo: None, msg: None, storage_deposit: 0, refund_to: None }
    }
}

} // verus!
