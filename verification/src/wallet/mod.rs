//! The wallet contract: its ledger record, the messages it exchanges, and the
//! interface it offers.

pub mod impl_;

pub use impl_::SFTWalletContract;

use crate::account::{lemma_valid_account_id_bytes, AccountId};
use crate::codec::{encoded_text, write_bytes, write_u128, write_u8};
use crate::contract_state::ContractState;
use crate::decode::{
    decode_wallet, decoded_wallet, decoded_wallet_view, lemma_decode_encoded_wallet, DecodeError,
};
use crate::promise::{view_of, CallContext, PromiseOrValue};
use crate::state_init::{LazyStateInit, LazyStateInitView};
use crate::storage::{ContractStorage, EntryView};
use vstd::bytes::*;
use vstd::prelude::*;

verus! {

/// Why a wallet rejects a call. A rejected call changes nothing.
#[derive(Debug, Clone, Copy, PartialEq, Eq, Structural)]
pub enum WalletError {
    /// The caller is not the owner of the wallet.
    NotOwner,
    /// The receiver of a transfer is the owner of the wallet.
    SelfTransfer,
    /// The caller is neither the minter nor a wallet of the same minter.
    WrongWallet,
    /// The balance is smaller than the amount to take from it.
    InsufficientBalance,
    /// The balance cannot hold the amount to add to it.
    BalanceOverflow,
    /// The attached deposit does not cover what the call has to pay for.
    InsufficientDeposit,
}

impl WalletError {
    /// The message that the wallet fails with.
    pub fn message(&self) -> (text: &'static str)
        ensures
            text@ == match *self {
                WalletError::NotOwner => "not owner"@,
                WalletError::SelfTransfer => "self-transfer"@,
                WalletError::WrongWallet => "wrong wallet"@,
                WalletError::InsufficientBalance => "insufficient balance"@,
                WalletError::BalanceOverflow => "balance overflow"@,
                WalletError::InsufficientDeposit => "insufficient attached deposit"@,
            },
    {
        match self {
            WalletError::NotOwner => "not owner",
            WalletError::SelfTransfer => "self-transfer",
            WalletError::WrongWallet => "wrong wallet",
            WalletError::InsufficientBalance => "insufficient balance",
            WalletError::BalanceOverflow => "balance overflow",
            WalletError::InsufficientDeposit => "insufficient attached deposit",
        }
    }
}

/// The ledger record of a wallet.
#[derive(Debug, PartialEq, Eq)]
pub struct SFTWalletData {
    /// Flags for extensions; the base protocol leaves them at zero.
    pub status: u8,
    /// The owner's balance of tokens.
    pub balance: u128,
    /// The owner of the wallet.
    pub owner_id: AccountId,
    /// The one contract trusted to mint and burn the wallet's tokens.
    pub minter_id: AccountId,
}

/// A ledger record as plain values.
pub ghost struct WalletView {
    pub status: u8,
    pub balance: u128,
    pub owner_id: Seq<char>,
    pub minter_id: Seq<char>,
}

impl View for SFTWalletData {
    type V = WalletView;

    open spec fn view(&self) -> WalletView {
        WalletView {
            status: self.status,
            balance: self.balance,
            owner_id: self.owner_id@,
            minter_id: self.minter_id@,
        }
    }
}

/// The record of a wallet that has just been created for `owner_id` under
/// `minter_id`: no flags, no tokens.
pub open spec fn new_wallet(owner_id: Seq<char>, minter_id: Seq<char>) -> WalletView {
    WalletView { status: 0, balance: 0, owner_id, minter_id }
}

/// The canonical encoding of a ledger record: its fields in order.
pub open spec fn encoded_wallet(wallet: WalletView) -> Seq<u8> {
    seq![wallet.status] + spec_u128_to_le_bytes(wallet.balance) + encoded_text(wallet.owner_id)
        + encoded_text(wallet.minter_id)
}

/// The key under which a contract keeps its record: the empty byte string.
pub open spec fn state_key() -> Seq<u8> {
    Seq::empty()
}

/// The initial storage of a wallet created for `owner_id` under `minter_id`:
/// the state key bound to the encoded record of the new wallet, so that the
/// wallet finds its record where it reads it.
pub open spec fn wallet_init_storage(owner_id: Seq<char>, minter_id: Seq<char>) -> Seq<EntryView> {
    seq![(state_key(), encoded_wallet(new_wallet(owner_id, minter_id)))]
}

impl SFTWalletData {
    /// Gas that a wallet sets aside for `sft_receive` on the receiving
    /// wallet.
    pub const SFT_RECEIVE_MIN_GAS: u64 = 5_000_000_000_000;

    /// Gas that a wallet sets aside for its own `sft_resolve`.
    pub const SFT_RESOLVE_GAS: u64 = 5_000_000_000_000;

    /// The record of a new wallet.
    pub fn init(owner_id: AccountId, minter_id: AccountId) -> (r: Self)
        ensures
            r@ == new_wallet(owner_id@, minter_id@),
    {
        SFTWalletData { status: 0, balance: 0, owner_id, minter_id }
    }

    /// The initial storage of a new wallet.
    pub fn init_state(owner_id: &AccountId, minter_id: &AccountId) -> (r: ContractStorage)
        ensures
            r@ == wallet_init_storage(owner_id@, minter_id@),
    {
        let record = SFTWalletData::init(owner_id.clone(), minter_id.clone()).serialize();
        let key: Vec<u8> = Vec::new();
        assert(key@ =~= state_key());
        let ghost bound = (key@, record@);
        let r = ContractStorage::new().borsh(key, record);
        assert(r@ =~= seq![bound]);
        r
    }

    /// Reads a record from its canonical encoding.
    pub fn deserialize(bytes: &[u8]) -> (r: Result<SFTWalletData, DecodeError>)
        ensures
            decoded_wallet_view(r) == decoded_wallet(bytes@),
    {
        decode_wallet(bytes)
    }

    /// The canonical encoding of the record, from which the record can be
    /// read back.
    pub fn serialize(&self) -> (bytes: Vec<u8>)
        ensures
            bytes@ == encoded_wallet(self@),
            bytes@.len() <= 153,
            decoded_wallet(bytes@) == Some(self@),
    {
        let mut out: Vec<u8> = Vec::new();
        write_u8(&mut out, self.status);
        write_u128(&mut out, self.balance);
        let owner_id = self.owner_id.as_str();
        let minter_id = self.minter_id.as_str();
        proof {
            lemma_valid_account_id_bytes(owner_id@);
            lemma_valid_account_id_bytes(minter_id@);
        }
        let owner_written = write_bytes(&mut out, owner_id.as_bytes());
        let minter_written = write_bytes(&mut out, minter_id.as_bytes());
        assert(owner_written && minter_written);
        assert(out@ =~= encoded_wallet(self@));
        proof {
            vstd::bytes::lemma_auto_spec_u32_to_from_le_bytes();
            vstd::bytes::lemma_auto_spec_u128_to_from_le_bytes();
            lemma_decode_encoded_wallet(self@);
        }
        out
    }
}

impl Clone for SFTWalletData {
    fn clone(&self) -> (r: Self)
        ensures
            r@ == self@,
    {
        SFTWalletData {
            status: self.status,
            balance: self.balance,
            owner_id: self.owner_id.clone(),
            minter_id: self.minter_id.clone(),
        }
    }
}

/// A descriptor to deploy an account from, with the deposit reserved for it.
#[derive(Debug, PartialEq, Eq)]
pub struct StateInitArgs {
    /// What to deploy.
    pub state_init: LazyStateInit,
    /// The deposit that pays for the deployment, in yoctoNEAR.
    pub state_init_amount: u128,
}

/// Deployment arguments as plain values.
pub ghost struct StateInitArgsView {
    pub state_init: LazyStateInitView,
    pub state_init_amount: u128,
}

impl View for StateInitArgs {
    type V = StateInitArgsView;

    open spec fn view(&self) -> StateInitArgsView {
        StateInitArgsView {
            state_init: self.state_init@,
            state_init_amount: self.state_init_amount,
        }
    }
}

impl Clone for StateInitArgs {
    fn clone(&self) -> (r: Self)
        ensures
            r@ == self@,
    {
        StateInitArgs {
            state_init: self.state_init.clone(),
            state_init_amount: self.state_init_amount,
        }
    }
}

/// What a sender attaches to a transfer to have the receiving wallet notify
/// its owner.
#[derive(Debug, PartialEq, Eq)]
pub struct TransferNotification {
    /// Deploys the owner's account first, if it does not exist.
    pub state_init: Option<StateInitArgs>,
    /// The message handed to the owner.
    pub msg: String,
    /// The deposit attached to the notification, in yoctoNEAR.
    pub forward_deposit: u128,
}

/// A transfer notification as plain values.
pub ghost struct TransferNotificationView {
    pub state_init: Option<StateInitArgsView>,
    pub msg: Seq<char>,
    pub forward_deposit: u128,
}

impl View for TransferNotification {
    type V = TransferNotificationView;

    open spec fn view(&self) -> TransferNotificationView {
        TransferNotificationView {
            state_init: view_of(self.state_init),
            msg: self.msg@,
            forward_deposit: self.forward_deposit,
        }
    }
}

impl TransferNotification {
    /// A notification that carries `msg`, deploys nothing and forwards no
    /// deposit.
    pub fn msg(msg: String) -> (r: Self)
        ensures
            r@ == (TransferNotificationView { state_init: None, msg: msg@, forward_deposit: 0 }),
    {
        TransferNotification { state_init: None, msg, forward_deposit: 0 }
    }

    /// The notification, set to deploy the owner's account from `state_init`
    /// with `amount` reserved for it.
    pub fn state_init(self, state_init: LazyStateInit, amount: u128) -> (r: Self)
        ensures
            r@ == (TransferNotificationView {
                state_init: Some(
                    StateInitArgsView { state_init: state_init@, state_init_amount: amount },
                ),
                ..self@
            }),
    {
        TransferNotification {
            state_init: Some(StateInitArgs { state_init, state_init_amount: amount }),
            msg: self.msg,
            forward_deposit: self.forward_deposit,
        }
    }

    /// The notification, set to forward `amount` to the owner.
    pub fn forward_deposit(self, amount: u128) -> (r: Self)
        ensures
            r@ == (TransferNotificationView { forward_deposit: amount, ..self@ }),
    {
        TransferNotification { state_init: self.state_init, msg: self.msg, forward_deposit: amount }
    }
}

impl Clone for TransferNotification {
    fn clone(&self) -> (r: Self)
        ensures
            r@ == self@,
    {
        TransferNotification {
            state_init: match &self.state_init {
                Some(args) => Some(args.clone()),
                None => None,
            },
            msg: self.msg.clone(),
            forward_deposit: self.forward_deposit,
        }
    }
}

/// A call that a wallet makes to another contract.
#[derive(Debug, Clone, PartialEq, Eq)]
pub enum RemoteCall {
    /// `sft_receive` on the wallet of the receiver.
    SftReceive {
        sender_id: AccountId,
        amount: u128,
        memo: Option<String>,
        notify: Option<TransferNotification>,
        refund_to: Option<AccountId>,
    },
    /// `sft_on_receive` on the owner of the wallet.
    SftOnReceive { sender_id: AccountId, amount: u128, msg: String },
    /// `sft_on_burn` on the minter.
    SftOnBurn { sender_id: AccountId, amount: u128, msg: String },
}

/// A remote call as plain values.
pub ghost enum RemoteCallView {
    SftReceive {
        sender_id: Seq<char>,
        amount: u128,
        memo: Option<Seq<char>>,
        notify: Option<TransferNotificationView>,
        refund_to: Option<Seq<char>>,
    },
    SftOnReceive { sender_id: Seq<char>, amount: u128, msg: Seq<char> },
    SftOnBurn { sender_id: Seq<char>, amount: u128, msg: Seq<char> },
}

impl View for RemoteCall {
    type V = RemoteCallView;

    open spec fn view(&self) -> RemoteCallView {
        match self {
            RemoteCall::SftReceive { sender_id, amount, memo, notify, refund_to } => {
                RemoteCallView::SftReceive {
                    sender_id: sender_id@,
                    amount: *amount,
                    memo: view_of(*memo),
                    notify: view_of(*notify),
                    refund_to: view_of(*refund_to),
                }
            },
            RemoteCall::SftOnReceive { sender_id, amount, msg } => RemoteCallView::SftOnReceive {
                sender_id: sender_id@,
                amount: *amount,
                msg: msg@,
            },
            RemoteCall::SftOnBurn { sender_id, amount, msg } => RemoteCallView::SftOnBurn {
                sender_id: sender_id@,
                amount: *amount,
                msg: msg@,
            },
        }
    }
}

/// The callback that a wallet schedules on itself after a remote call:
/// `sft_resolve(amount, sender)`.
#[derive(Debug, Clone, PartialEq, Eq)]
pub struct ResolveCall {
    /// The wallet's own account.
    pub account_id: AccountId,
    /// The amount that the remote call was about.
    pub amount: u128,
    /// Whether the wallet sent the amount (a transfer or a burn) or received
    /// it.
    pub sender: bool,
    /// Gas set aside for the callback.
    pub static_gas: u64,
    /// The callback's share of the gas that is left over.
    pub unused_gas_weight: u64,
}

/// A resolve callback as plain values.
pub ghost struct ResolveCallView {
    pub account_id: Seq<char>,
    pub amount: u128,
    pub sender: bool,
    pub static_gas: u64,
    pub unused_gas_weight: u64,
}

impl View for ResolveCall {
    type V = ResolveCallView;

    open spec fn view(&self) -> ResolveCallView {
        ResolveCallView {
            account_id: self.account_id@,
            amount: self.amount,
            sender: self.sender,
            static_gas: self.static_gas,
            unused_gas_weight: self.unused_gas_weight,
        }
    }
}

/// A plain payment of yoctoNEAR to an account.
#[derive(Debug, Clone, PartialEq, Eq)]
pub struct Refund {
    pub receiver_id: AccountId,
    pub amount: u128,
}

/// A payment as plain values.
pub ghost struct RefundView {
    pub receiver_id: Seq<char>,
    pub amount: u128,
}

impl View for Refund {
    type V = RefundView;

    open spec fn view(&self) -> RefundView {
        RefundView { receiver_id: self.receiver_id@, amount: self.amount }
    }
}

/// What a wallet asks the host to schedule: a remote call, the callback that
/// resolves it whatever its outcome, and a payment that depends on neither.
#[derive(Debug, Clone, PartialEq, Eq)]
pub struct Dispatch {
    /// The account that the remote call goes to.
    pub receiver_id: AccountId,
    /// Where the deposit goes if the call fails; the wallet itself if absent.
    pub refund_to: Option<AccountId>,
    /// Deploys the receiving account first, if it does not exist.
    pub state_init: Option<StateInitArgs>,
    /// The remote call.
    pub call: RemoteCall,
    /// The deposit attached to the remote call, in yoctoNEAR.
    pub attached_deposit: u128,
    /// Gas set aside for the remote call.
    pub static_gas: u64,
    /// The remote call's share of the gas that is left over.
    pub unused_gas_weight: u64,
    /// The callback that follows the remote call.
    pub resolve: ResolveCall,
    /// Deposit handed back at once, apart from the remote call.
    pub excess_refund: Option<Refund>,
}

/// A dispatch as plain values.
pub ghost struct DispatchView {
    pub receiver_id: Seq<char>,
    pub refund_to: Option<Seq<char>>,
    pub state_init: Option<StateInitArgsView>,
    pub call: RemoteCallView,
    pub attached_deposit: u128,
    pub static_gas: u64,
    pub unused_gas_weight: u64,
    pub resolve: ResolveCallView,
    pub excess_refund: Option<RefundView>,
}

impl View for Dispatch {
    type V = DispatchView;

    open spec fn view(&self) -> DispatchView {
        DispatchView {
            receiver_id: self.receiver_id@,
            refund_to: view_of(self.refund_to),
            state_init: view_of(self.state_init),
            call: self.call@,
            attached_deposit: self.attached_deposit,
            static_gas: self.static_gas,
            unused_gas_weight: self.unused_gas_weight,
            resolve: self.resolve@,
            excess_refund: view_of(self.excess_refund),
        }
    }
}

/// The interface of a wallet contract.
///
/// Each method takes, besides the arguments of the call, what the host
/// reports about the call. A method that rejects the call leaves the wallet
/// as it was.
pub trait ShardedFungibleTokenWallet: Sized {
    /// The code and the record of the wallet.
    fn sft_wallet_data(self, ctx: &CallContext) -> ContractState<SFTWalletData>;

    /// Transfers `amount` tokens to the wallet of `receiver_id`.
    fn sft_transfer(
        &mut self,
        ctx: &CallContext,
        receiver_id: AccountId,
        amount: u128,
        memo: Option<String>,
        notify: Option<TransferNotification>,
        refund_to: Option<AccountId>,
        no_init: Option<bool>,
    ) -> Result<PromiseOrValue<Dispatch>, WalletError>;

    /// Receives `amount` tokens from the minter or from another wallet of
    /// the same minter. The `memo` is for those who read the call's
    /// arguments: the wallet does nothing with it.
    fn sft_receive(
        &mut self,
        ctx: &CallContext,
        sender_id: AccountId,
        amount: u128,
        memo: Option<String>,
        notify: Option<TransferNotification>,
        refund_to: Option<AccountId>,
    ) -> Result<PromiseOrValue<Dispatch>, WalletError>;

    /// Burns `amount` tokens and tells the minter.
    fn sft_burn(&mut self, ctx: &CallContext, amount: u128, msg: String) -> Result<
        PromiseOrValue<Dispatch>,
        WalletError,
    >;
}

} // verus!
