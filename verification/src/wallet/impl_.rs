//! The wallet contract.
//!
//! An entry point takes the tokens it moves out of the balance, or puts them
//! in, before the remote call that it schedules has run. The callback
//! [`SFTWalletContract::sft_resolve`] then learns how many of the tokens the
//! other side used, and corrects the balance by the rest.
//!
//! This wallet is not governed by its minter: the owner alone sends and
//! burns tokens, and the status flags of the record are kept and never read.

use super::{
    wallet_init_storage, Dispatch, DispatchView, Refund, RefundView, RemoteCall, RemoteCallView,
    ResolveCall, ResolveCallView, SFTWalletData, ShardedFungibleTokenWallet, StateInitArgs,
    StateInitArgsView, TransferNotification, TransferNotificationView, WalletError, WalletView,
};
use crate::account::AccountId;
use crate::amount::{amount_from_json, amount_of_json};
use crate::contract_state::{ContractState, ExtraState, FieldView};
use crate::promise::{
    view_of, CallContext, CallContextView, PromiseOrValue, PromiseOrValueView, PromiseResult,
    PromiseResultView,
};
use crate::state_init::{
    derived_account_id, encoded_state_init, state_init_cost, ContractCodeView, LazyStateInitView,
    StateInit, StateInitView,
};
use vstd::prelude::*;

verus! {

/// The descriptor of the wallet that runs `code` for `owner_id` under
/// `minter_id`.
pub open spec fn wallet_state_init(
    code: ContractCodeView,
    owner_id: Seq<char>,
    minter_id: Seq<char>,
) -> StateInitView {
    StateInitView { code, data: wallet_init_storage(owner_id, minter_id) }
}

/// The account of the wallet that runs `code` for `owner_id` under
/// `minter_id`.
pub open spec fn wallet_account_id(
    code: ContractCodeView,
    owner_id: Seq<char>,
    minter_id: Seq<char>,
) -> Seq<char> {
    derived_account_id(encoded_state_init(wallet_state_init(code, owner_id, minter_id)))
}

/// Whether a transfer deploys the receiving wallet: it does unless the
/// sender asks it not to.
pub open spec fn init_wanted(no_init: Option<bool>) -> bool {
    no_init != Some(true)
}

/// The account that deposits are handed back to: the one that was named, or
/// else `fallback`.
pub open spec fn refund_target(refund_to: Option<Seq<char>>, fallback: Seq<char>) -> Seq<char> {
    match refund_to {
        Some(account) => account,
        None => fallback,
    }
}

/// The callback that resolves a remote call about `amount`.
pub open spec fn resolve_call(ctx: CallContextView, amount: u128, sender: bool) -> ResolveCallView {
    ResolveCallView {
        account_id: ctx.current_account_id,
        amount,
        sender,
        static_gas: SFTWalletData::SFT_RESOLVE_GAS,
        unused_gas_weight: 0,
    }
}

/// Why `sft_transfer` rejects a call, if it does. The checks are made in
/// this order: the caller is the owner; the receiver is not the owner; the
/// balance covers the amount; the deposit covers the deployment of the
/// receiving wallet, where one is wanted, and leaves one yoctoNEAR to attach
/// to `sft_receive`. A deployment whose price cannot be expressed is covered
/// by no deposit.
pub open spec fn transfer_rejection(
    wallet: WalletView,
    ctx: CallContextView,
    receiver_id: Seq<char>,
    amount: u128,
    no_init: Option<bool>,
) -> Option<WalletError> {
    let cost = state_init_cost(
        wallet_state_init(ctx.current_contract_code, receiver_id, wallet.minter_id),
        ctx.storage_config,
    );
    if ctx.predecessor_account_id != wallet.owner_id {
        Some(WalletError::NotOwner)
    } else if receiver_id == wallet.owner_id {
        Some(WalletError::SelfTransfer)
    } else if wallet.balance < amount {
        Some(WalletError::InsufficientBalance)
    } else if init_wanted(no_init) && (cost is None || ctx.attached_deposit < cost->0 + 1) {
        Some(WalletError::InsufficientDeposit)
    } else if ctx.attached_deposit < 1 {
        Some(WalletError::InsufficientDeposit)
    } else {
        None
    }
}

/// What `sft_transfer` schedules: `sft_receive` on the receiver's wallet,
/// deployed first if wanted, with what is left of the deposit attached.
pub open spec fn transfer_dispatch(
    wallet: WalletView,
    ctx: CallContextView,
    receiver_id: Seq<char>,
    amount: u128,
    memo: Option<Seq<char>>,
    notify: Option<TransferNotificationView>,
    refund_to: Option<Seq<char>>,
    no_init: Option<bool>,
) -> DispatchView {
    let init = wallet_state_init(ctx.current_contract_code, receiver_id, wallet.minter_id);
    let cost = state_init_cost(init, ctx.storage_config);
    let refund = refund_target(refund_to, ctx.predecessor_account_id);
    let reserved: u128 = if init_wanted(no_init) {
        cost->0
    } else {
        0
    };
    DispatchView {
        receiver_id: derived_account_id(encoded_state_init(init)),
        refund_to: Some(refund),
        state_init: if init_wanted(no_init) {
            Some(
                StateInitArgsView {
                    state_init: LazyStateInitView::Serialized(encoded_state_init(init)),
                    state_init_amount: reserved,
                },
            )
        } else {
            None
        },
        call: RemoteCallView::SftReceive {
            sender_id: wallet.owner_id,
            amount,
            memo,
            notify,
            refund_to: Some(refund),
        },
        attached_deposit: (ctx.attached_deposit - reserved) as u128,
        static_gas: SFTWalletData::SFT_RECEIVE_MIN_GAS,
        unused_gas_weight: 1,
        resolve: resolve_call(ctx, amount, true),
        excess_refund: None,
    }
}

/// The deposit that a notification asks for: what it reserves for deploying
/// the owner's account and what it forwards to the owner.
pub open spec fn notification_deposit(notify: TransferNotificationView) -> int {
    (match notify.state_init {
        Some(args) => args.state_init_amount as int,
        None => 0,
    }) + notify.forward_deposit
}

/// Why `sft_receive` rejects a call, if it does. The checks are made in this
/// order: a deposit is attached; the caller is the minter, or the wallet of
/// the sender under the same minter, which runs the same code; the balance
/// can hold the amount; the deposit covers what the notification asks for.
pub open spec fn receive_rejection(
    wallet: WalletView,
    ctx: CallContextView,
    sender_id: Seq<char>,
    amount: u128,
    notify: Option<TransferNotificationView>,
) -> Option<WalletError> {
    if ctx.attached_deposit < 1 {
        Some(WalletError::InsufficientDeposit)
    } else if ctx.predecessor_account_id != wallet.minter_id && ctx.predecessor_account_id
        != wallet_account_id(ctx.current_contract_code, sender_id, wallet.minter_id) {
        Some(WalletError::WrongWallet)
    } else if wallet.balance + amount > u128::MAX {
        Some(WalletError::BalanceOverflow)
    } else if notify is Some && ctx.attached_deposit < notification_deposit(notify->0) {
        Some(WalletError::InsufficientDeposit)
    } else {
        None
    }
}

/// What `sft_receive` schedules for a notification: `sft_on_receive` on the
/// owner, deployed first if asked, with the forwarded deposit attached, and
/// the payment of what is left of the deposit where that is more than one
/// yoctoNEAR.
pub open spec fn receive_dispatch(
    wallet: WalletView,
    ctx: CallContextView,
    sender_id: Seq<char>,
    amount: u128,
    notify: TransferNotificationView,
    refund_to: Option<Seq<char>>,
) -> DispatchView {
    let refund = refund_target(refund_to, sender_id);
    let left = ctx.attached_deposit - notification_deposit(notify);
    DispatchView {
        receiver_id: wallet.owner_id,
        refund_to: Some(refund),
        state_init: notify.state_init,
        call: RemoteCallView::SftOnReceive { sender_id, amount, msg: notify.msg },
        attached_deposit: notify.forward_deposit,
        static_gas: 0,
        unused_gas_weight: 1,
        resolve: resolve_call(ctx, amount, false),
        excess_refund: if left > 1 {
            Some(RefundView { receiver_id: refund, amount: left as u128 })
        } else {
            None
        },
    }
}

/// Why `sft_burn` rejects a call, if it does. The checks are made in this
/// order: a deposit is attached; the caller is the owner; the balance covers
/// the amount.
pub open spec fn burn_rejection(wallet: WalletView, ctx: CallContextView, amount: u128) -> Option<
    WalletError,
> {
    if ctx.attached_deposit < 1 {
        Some(WalletError::InsufficientDeposit)
    } else if ctx.predecessor_account_id != wallet.owner_id {
        Some(WalletError::NotOwner)
    } else if wallet.balance < amount {
        Some(WalletError::InsufficientBalance)
    } else {
        None
    }
}

/// What `sft_burn` schedules: `sft_on_burn` on the minter with the whole
/// deposit attached.
pub open spec fn burn_dispatch(
    wallet: WalletView,
    ctx: CallContextView,
    amount: u128,
    msg: Seq<char>,
) -> DispatchView {
    DispatchView {
        receiver_id: wallet.minter_id,
        refund_to: None,
        state_init: None,
        call: RemoteCallView::SftOnBurn { sender_id: wallet.owner_id, amount, msg },
        attached_deposit: ctx.attached_deposit,
        static_gas: 0,
        unused_gas_weight: 1,
        resolve: resolve_call(ctx, amount, true),
        excess_refund: None,
    }
}

/// The amount that the outcome of a remote call reports as used: the amount
/// that the returned JSON denotes, where the call succeeded and returned no
/// more than [`SFTWalletContract::MAX_RESULT_LENGTH`] bytes. Any other outcome reports nothing.
pub open spec fn reported_amount(result: PromiseResultView) -> Option<u128> {
    match result {
        PromiseResultView::Successful(data) => if data.len() <= SFTWalletContract::MAX_RESULT_LENGTH {
            amount_of_json(data)
        } else {
            None
        },
        _ => None,
    }
}

/// The part of `amount` that counts as used: what was reported, but no more
/// than `amount`, and nothing where nothing was reported.
pub open spec fn used_amount(reported: Option<u128>, amount: u128) -> u128 {
    match reported {
        Some(used) => if used <= amount {
            used
        } else {
            amount
        },
        None => 0,
    }
}

/// The part of `amount` that goes back to the side that sent it.
pub open spec fn refund_amount(reported: Option<u128>, amount: u128) -> u128 {
    (amount - used_amount(reported, amount)) as u128
}

/// What the receiving side gives back: the refund, but no more than it
/// holds.
pub open spec fn capped_refund(balance: u128, reported: Option<u128>, amount: u128) -> u128 {
    let refund = refund_amount(reported, amount);
    if refund <= balance {
        refund
    } else {
        balance
    }
}

/// The balance after a remote call about `amount` is resolved. On the
/// sending side the refund is added. On the receiving side the capped refund
/// is taken away.
pub open spec fn resolved_balance(
    balance: u128,
    reported: Option<u128>,
    amount: u128,
    sender: bool,
) -> int {
    if sender {
        balance + refund_amount(reported, amount)
    } else {
        balance - capped_refund(balance, reported, amount)
    }
}

/// The amount that resolving hands up the chain of calls: on the sending
/// side what counts as used, on the receiving side the amount less the
/// capped refund.
pub open spec fn resolved_used(
    balance: u128,
    reported: Option<u128>,
    amount: u128,
    sender: bool,
) -> u128 {
    if sender {
        used_amount(reported, amount)
    } else {
        (amount - capped_refund(balance, reported, amount)) as u128
    }
}

/// The wallet contract.
#[derive(Debug, PartialEq, Eq)]
pub struct SFTWalletContract(pub SFTWalletData);

impl View for SFTWalletContract {
    type V = WalletView;

    open spec fn view(&self) -> WalletView {
        self.0@
    }
}

impl SFTWalletContract {
    /// The longest result that a wallet reads from a remote call: the JSON
    /// string of the largest amount, 39 digits between quotes.
    pub const MAX_RESULT_LENGTH: u64 = 41;

    /// The descriptor of the wallet of `owner_id` under this wallet's minter,
    /// running this wallet's own code.
    pub fn sft_wallet_init_for(&self, ctx: &CallContext, owner_id: &AccountId) -> (r: StateInit)
        ensures
            r@ == wallet_state_init(ctx@.current_contract_code, owner_id@, self@.minter_id),
    {
        StateInit::code(ctx.current_contract_code.clone()).data(
            SFTWalletData::init_state(owner_id, &self.0.minter_id),
        )
    }

    /// The account of the wallet of `owner_id` under this wallet's minter.
    pub fn sft_wallet_account_id_for(&self, ctx: &CallContext, owner_id: &AccountId) -> (r:
        AccountId)
        ensures
            r@ == wallet_account_id(ctx@.current_contract_code, owner_id@, self@.minter_id),
    {
        self.sft_wallet_init_for(ctx, owner_id).derive_account_id()
    }

    /// Reads from the outcome of a remote call the amount that it reports as
    /// used.
    pub fn read_reported_amount(result: &PromiseResult) -> (r: Option<u128>)
        ensures
            r == reported_amount(result@),
    {
        match result {
            PromiseResult::Successful(data) => {
                if data.len() as u64 <= Self::MAX_RESULT_LENGTH {
                    amount_from_json(data.as_slice())
                } else {
                    None
                }
            },
            _ => None,
        }
    }

    /// Corrects the balance once a remote call about `amount` has reported
    /// how much of it was used, and returns the amount to hand up the chain
    /// of calls.
    ///
    /// On the sending side (`sender`) the rest of the amount is added back to
    /// the balance; the call is rejected, and the wallet left as it was, only
    /// if the balance cannot hold it. On the receiving side the rest is taken
    /// out of the balance as far as the balance goes, and what could not be
    /// taken counts as used.
    pub fn settle(&mut self, reported: Option<u128>, amount: u128, sender: bool) -> (r: Result<
        u128,
        WalletError,
    >)
        ensures
            r is Err <==> sender && old(self)@.balance + refund_amount(reported, amount)
                > u128::MAX,
            r matches Err(e) ==> e == WalletError::BalanceOverflow && *final(self) == *old(self),
            r matches Ok(used) ==> {
                &&& used == resolved_used(old(self)@.balance, reported, amount, sender)
                &&& final(self)@ == (WalletView {
                    balance: resolved_balance(old(self)@.balance, reported, amount, sender) as u128,
                    ..old(self)@
                })
                &&& 0 <= resolved_balance(old(self)@.balance, reported, amount, sender)
                    <= u128::MAX
                &&& used <= amount
            },
    {
        let used: u128 = match reported {
            Some(used) => if used <= amount {
                used
            } else {
                amount
            },
            None => 0,
        };
        let refund: u128 = amount - used;
        if sender {
            match self.0.balance.checked_add(refund) {
                Some(balance) => {
                    self.0.balance = balance;
                    Ok(used)
                },
                None => Err(WalletError::BalanceOverflow),
            }
        } else {
            let refund: u128 = if refund <= self.0.balance {
                refund
            } else {
                self.0.balance
            };
            self.0.balance = self.0.balance - refund;
            Ok(amount - refund)
        }
    }

    /// Resolves a remote call about `amount` from the outcome that the host
    /// reports of it, and returns the amount that was used.
    ///
    /// This is the callback that the entry points schedule on the wallet
    /// itself: no other account may call it. A call that failed, returned
    /// too much, or returned anything but an amount counts as having used
    /// nothing.
    pub fn sft_resolve(
        &mut self,
        ctx: &CallContext,
        result: &PromiseResult,
        amount: u128,
        sender: bool,
    ) -> (r: Result<u128, WalletError>)
        requires
            ctx@.predecessor_account_id == ctx@.current_account_id,
        ensures
            r is Err <==> sender && old(self)@.balance + refund_amount(
                reported_amount(result@),
                amount,
            ) > u128::MAX,
            r matches Err(e) ==> e == WalletError::BalanceOverflow && *final(self) == *old(self),
            r matches Ok(used) ==> {
                &&& used == resolved_used(
                    old(self)@.balance,
                    reported_amount(result@),
                    amount,
                    sender,
                )
                &&& final(self)@ == (WalletView {
                    balance: resolved_balance(
                        old(self)@.balance,
                        reported_amount(result@),
                        amount,
                        sender,
                    ) as u128,
                    ..old(self)@
                })
                &&& used <= amount
            },
    {
        let reported = Self::read_reported_amount(result);
        self.settle(reported, amount, sender)
    }
}

/// The account to hand deposits back to.
fn refund_target_of(refund_to: Option<AccountId>, fallback: &AccountId) -> (r: AccountId)
    ensures
        r@ == refund_target(view_of(refund_to), fallback@),
{
    match refund_to {
        Some(account) => account,
        None => fallback.clone(),
    }
}

impl ShardedFungibleTokenWallet for SFTWalletContract {
    /// The code and the record of the wallet, without extra fields.
    fn sft_wallet_data(self, ctx: &CallContext) -> (r: ContractState<SFTWalletData>)
        ensures
            r.code@ == ctx@.current_contract_code,
            r.state.value == self.0,
            r.state.extra@ == Seq::<FieldView>::empty(),
    {
        ContractState { code: ctx.current_contract_code.clone(), state: ExtraState::new(self.0) }
    }

    /// Takes `amount` out of the balance and schedules its delivery to the
    /// wallet of `receiver_id`. The callback adds back what the receiving
    /// side did not use.
    fn sft_transfer(
        &mut self,
        ctx: &CallContext,
        receiver_id: AccountId,
        amount: u128,
        memo: Option<String>,
        notify: Option<TransferNotification>,
        refund_to: Option<AccountId>,
        no_init: Option<bool>,
    ) -> (r: Result<PromiseOrValue<Dispatch>, WalletError>)
        ensures
            r matches Err(e) ==> Some(e) == transfer_rejection(
                old(self)@,
                ctx@,
                receiver_id@,
                amount,
                no_init,
            ) && *final(self) == *old(self),
            r matches Ok(scheduled) ==> {
                &&& transfer_rejection(old(self)@, ctx@, receiver_id@, amount, no_init) is None
                &&& final(self)@ == (WalletView {
                    balance: (old(self)@.balance - amount) as u128,
                    ..old(self)@
                })
                &&& scheduled@ == PromiseOrValueView::Promise(
                    transfer_dispatch(
                        old(self)@,
                        ctx@,
                        receiver_id@,
                        amount,
                        view_of(memo),
                        view_of(notify),
                        view_of(refund_to),
                        no_init,
                    ),
                )
            },
    {
        if !ctx.predecessor_account_id.same_as(&self.0.owner_id) {
            return Err(WalletError::NotOwner);
        }
        if receiver_id.same_as(&self.0.owner_id) {
            return Err(WalletError::SelfTransfer);
        }
        let balance: u128 = match self.0.balance.checked_sub(amount) {
            Some(balance) => balance,
            None => { return Err(WalletError::InsufficientBalance); },
        };
        let state_init = self.sft_wallet_init_for(ctx, &receiver_id);
        let deploy = match no_init {
            Some(no_init) => !no_init,
            None => true,
        };
        let mut deposit_left: u128 = ctx.attached_deposit;
        let state_init_args = if deploy {
            let reserved: u128 = match state_init.storage_cost(&ctx.storage_config) {
                Some(cost) => cost,
                None => { return Err(WalletError::InsufficientDeposit); },
            };
            deposit_left =
            match deposit_left.checked_sub(reserved) {
                Some(left) => left,
                None => { return Err(WalletError::InsufficientDeposit); },
            };
            Some(
                StateInitArgs {
                    state_init: state_init.lazy_serialized(),
                    state_init_amount: reserved,
                },
            )
        } else {
            None
        };
        if deposit_left < 1 {
            return Err(WalletError::InsufficientDeposit);
        }
        let refund_to = refund_target_of(refund_to, &ctx.predecessor_account_id);
        let dispatch = Dispatch {
            receiver_id: state_init.derive_account_id(),
            refund_to: Some(refund_to.clone()),
            state_init: state_init_args,
            call: RemoteCall::SftReceive {
                sender_id: self.0.owner_id.clone(),
                amount,
                memo,
                notify,
                refund_to: Some(refund_to),
            },
            attached_deposit: deposit_left,
            static_gas: SFTWalletData::SFT_RECEIVE_MIN_GAS,
            unused_gas_weight: 1,
            resolve: ResolveCall {
                account_id: ctx.current_account_id.clone(),
                amount,
                sender: true,
                static_gas: SFTWalletData::SFT_RESOLVE_GAS,
                unused_gas_weight: 0,
            },
            excess_refund: None,
        };
        self.0.balance = balance;
        Ok(PromiseOrValue::Promise(dispatch))
    }

    /// Adds `amount` to the balance. Without a notification the whole amount
    /// counts as used at once. With one, the owner is told, and the callback
    /// takes back out of the balance what the owner did not use.
    fn sft_receive(
        &mut self,
        ctx: &CallContext,
        sender_id: AccountId,
        amount: u128,
        memo: Option<String>,
        notify: Option<TransferNotification>,
        refund_to: Option<AccountId>,
    ) -> (r: Result<PromiseOrValue<Dispatch>, WalletError>)
        ensures
            r matches Err(e) ==> Some(e) == receive_rejection(
                old(self)@,
                ctx@,
                sender_id@,
                amount,
                view_of(notify),
            ) && *final(self) == *old(self),
            r matches Ok(scheduled) ==> {
                &&& receive_rejection(old(self)@, ctx@, sender_id@, amount, view_of(notify))
                    is None
                &&& final(self)@ == (WalletView {
                    balance: (old(self)@.balance + amount) as u128,
                    ..old(self)@
                })
                &&& scheduled@ == match view_of(notify) {
                    Some(notify) => PromiseOrValueView::Promise(
                        receive_dispatch(
                            old(self)@,
                            ctx@,
                            sender_id@,
                            amount,
                            notify,
                            view_of(refund_to),
                        ),
                    ),
                    None => PromiseOrValueView::Value(amount),
                }
            },
    {
        let mut deposit_left: u128 = ctx.attached_deposit;
        if deposit_left < 1 {
            return Err(WalletError::InsufficientDeposit);
        }
        let caller = &ctx.predecessor_account_id;
        if !caller.same_as(&self.0.minter_id) {
            let wallet_of_sender = self.sft_wallet_account_id_for(ctx, &sender_id);
            if !caller.same_as(&wallet_of_sender) {
                return Err(WalletError::WrongWallet);
            }
        }
        let balance: u128 = match self.0.balance.checked_add(amount) {
            Some(balance) => balance,
            None => { return Err(WalletError::BalanceOverflow); },
        };
        let notify = match notify {
            Some(notify) => notify,
            None => {
                self.0.balance = balance;
                return Ok(PromiseOrValue::Value(amount));
            },
        };
        if let Some(args) = &notify.state_init {
            deposit_left =
            match deposit_left.checked_sub(args.state_init_amount) {
                Some(left) => left,
                None => { return Err(WalletError::InsufficientDeposit); },
            };
        }
        deposit_left =
        match deposit_left.checked_sub(notify.forward_deposit) {
            Some(left) => left,
            None => { return Err(WalletError::InsufficientDeposit); },
        };
        let refund_to = refund_target_of(refund_to, &sender_id);
        let excess_refund = if deposit_left > 1 {
            Some(Refund { receiver_id: refund_to.clone(), amount: deposit_left })
        } else {
            None
        };
        let dispatch = Dispatch {
            receiver_id: self.0.owner_id.clone(),
            refund_to: Some(refund_to),
            state_init: notify.state_init,
            call: RemoteCall::SftOnReceive { sender_id, amount, msg: notify.msg },
            attached_deposit: notify.forward_deposit,
            static_gas: 0,
            unused_gas_weight: 1,
            resolve: ResolveCall {
                account_id: ctx.current_account_id.clone(),
                amount,
                sender: false,
                static_gas: SFTWalletData::SFT_RESOLVE_GAS,
                unused_gas_weight: 0,
            },
            excess_refund,
        };
        self.0.balance = balance;
        Ok(PromiseOrValue::Promise(dispatch))
    }

    /// Takes `amount` out of the balance and tells the minter. The callback
    /// adds back what the minter did not burn.
    fn sft_burn(&mut self, ctx: &CallContext, amount: u128, msg: String) -> (r: Result<
        PromiseOrValue<Dispatch>,
        WalletError,
    >)
        ensures
            r matches Err(e) ==> Some(e) == burn_rejection(old(self)@, ctx@, amount)
                && *final(self) == *old(self),
            r matches Ok(scheduled) ==> {
                &&& burn_rejection(old(self)@, ctx@, amount) is None
                &&& final(self)@ == (WalletView {
                    balance: (old(self)@.balance - amount) as u128,
                    ..old(self)@
                })
                &&& scheduled@ == PromiseOrValueView::Promise(
                    burn_dispatch(old(self)@, ctx@, amount, msg@),
                )
            },
    {
        if ctx.attached_deposit < 1 {
            return Err(WalletError::InsufficientDeposit);
        }
        if !ctx.predecessor_account_id.same_as(&self.0.owner_id) {
            return Err(WalletError::NotOwner);
        }
        let balance: u128 = match self.0.balance.checked_sub(amount) {
            Some(balance) => balance,
            None => { return Err(WalletError::InsufficientBalance); },
        };
        let dispatch = Dispatch {
            receiver_id: self.0.minter_id.clone(),
            refund_to: None,
            state_init: None,
            call: RemoteCall::SftOnBurn { sender_id: self.0.owner_id.clone(), amount, msg },
            attached_deposit: ctx.attached_deposit,
            static_gas: 0,
            unused_gas_weight: 1,
            resolve: ResolveCall {
                account_id: ctx.current_account_id.clone(),
                amount,
                sender: true,
                static_gas: SFTWalletData::SFT_RESOLVE_GAS,
                unused_gas_weight: 0,
            },
            excess_refund: None,
        };
        self.0.balance = balance;
        Ok(PromiseOrValue::Promise(dispatch))
    }
}

} // verus!
