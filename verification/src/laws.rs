//! What holds of account derivation and of the wallet protocol as a whole.
//!
//! The account of a descriptor depends on the descriptor alone, and two
//! descriptors share an account only if a digest fails to tell their
//! encodings apart.
//!
//! The entry points of a wallet change its balance by amounts that their
//! contracts state. This module puts wallets together: it follows the tokens
//! that have left one balance and not yet reached another, and shows that
//! none appears or disappears on the way, whatever the order in which calls
//! and callbacks run.

use crate::decode::lemma_encoding_injective;
use crate::promise::PromiseResultView;
use crate::state_init::{
    address_bytes, derived_account_id, encoded_state_init, is_descriptor,
    lemma_same_account_same_digest, StateInitView,
};
use crate::storage::{entries_map, lemma_ordered_entries_canonical};
use crate::wallet::impl_::{
    capped_refund, refund_amount, reported_amount, resolved_balance, resolved_used, used_amount,
};
use vstd::prelude::*;

verus! {

/// Descriptors with the same code and the same mapping from keys to values
/// are the same descriptor, and derive the same account identifier, in
/// whatever order their entries were bound.
pub proof fn lemma_same_descriptor_same_account(a: StateInitView, b: StateInitView)
    requires
        is_descriptor(a),
        is_descriptor(b),
        a.code == b.code,
        entries_map(a.data) == entries_map(b.data),
    ensures
        a == b,
        derived_account_id(encoded_state_init(a)) == derived_account_id(encoded_state_init(b)),
{
    lemma_ordered_entries_canonical(a.data, b.data);
}

/// Descriptors that differ have encodings that differ, so that they can
/// derive one account identifier only where the digests of two different
/// byte strings agree on the twenty bytes that name the account.
pub proof fn lemma_distinct_descriptors(a: StateInitView, b: StateInitView)
    requires
        is_descriptor(a),
        is_descriptor(b),
        a != b,
    ensures
        encoded_state_init(a) != encoded_state_init(b),
        derived_account_id(encoded_state_init(a)) == derived_account_id(encoded_state_init(b))
            ==> address_bytes(encoded_state_init(a)) == address_bytes(encoded_state_init(b)),
{
    if encoded_state_init(a) == encoded_state_init(b) {
        lemma_encoding_injective(a, b);
    }
    lemma_same_account_same_digest(encoded_state_init(a), encoded_state_init(b));
}

/// A call that failed, or returned more than a wallet reads, reports
/// nothing.
pub proof fn lemma_failed_call_reports_nothing()
    ensures
        reported_amount(PromiseResultView::Failed) is None,
        reported_amount(PromiseResultView::TooLong) is None,
{
}

/// Where the outcome of a remote call reports nothing, the whole amount goes
/// back. The sending side gets all of it added to its balance and reports
/// nothing as used. The receiving side gives up all of it as far as its
/// balance goes, and reports as used only what it could not give up.
pub proof fn lemma_nothing_reported_refunds_all(balance: u128, amount: u128)
    ensures
        refund_amount(None, amount) == amount,
        resolved_balance(balance, None, amount, true) == balance + amount,
        resolved_used(balance, None, amount, true) == 0,
        resolved_balance(balance, None, amount, false) == if amount <= balance {
            balance - amount
        } else {
            0
        },
        resolved_used(balance, None, amount, false) == if amount <= balance {
            0
        } else {
            amount - balance
        },
{
}

/// The receiving side never gives up more than it holds: its balance stays
/// at or above zero, and what it reports as used is the amount less what it
/// gave up.
pub proof fn lemma_receiver_refund_capped(balance: u128, reported: Option<u128>, amount: u128)
    ensures
        capped_refund(balance, reported, amount) <= balance,
        capped_refund(balance, reported, amount) <= refund_amount(reported, amount),
        balance < refund_amount(reported, amount) ==> capped_refund(balance, reported, amount)
            == balance,
        0 <= resolved_balance(balance, reported, amount, false) <= balance,
        resolved_balance(balance, reported, amount, false) == balance - capped_refund(
            balance,
            reported,
            amount,
        ),
        resolved_used(balance, reported, amount, false) + capped_refund(balance, reported, amount)
            == amount,
{
}

/// Resolving never counts more as used than was sent, and on the sending
/// side the used part and the refund make up the amount.
pub proof fn lemma_used_and_refund_make_amount(reported: Option<u128>, amount: u128)
    ensures
        used_amount(reported, amount) <= amount,
        used_amount(reported, amount) + refund_amount(reported, amount) == amount,
{
}

/// A transfer that runs its course moves tokens and makes none: what the
/// receiver's wallet gains is what the receiving side used, and the sender's
/// wallet loses as much.
///
/// The sender takes `amount` out of its balance, and the receiver puts it
/// into its own. If the receiver notifies its owner (`notified`), it resolves
/// the notification at the balance `receiver_resolves_at` with what the owner
/// `reported`; otherwise all tokens count as used. The sender then resolves
/// the transfer at the balance `sender_resolves_at` with the amount that the
/// receiver handed up. The balances at which the callbacks run are free:
/// other calls may have run in between.
pub proof fn lemma_transfer_moves_tokens(
    amount: u128,
    notified: bool,
    receiver_resolves_at: u128,
    reported: Option<u128>,
    sender_resolves_at: u128,
)
    ensures
        ({
            let used = if notified {
                resolved_used(receiver_resolves_at, reported, amount, false)
            } else {
                amount
            };
            let receiver_gain = amount + if notified {
                resolved_balance(receiver_resolves_at, reported, amount, false)
                    - receiver_resolves_at
            } else {
                0
            };
            let sender_gain = -amount + (resolved_balance(
                sender_resolves_at,
                Some(used),
                amount,
                true,
            ) - sender_resolves_at);
            receiver_gain == used && sender_gain == -used
        }),
{
}

/// A transfer whose `sft_receive` fails leaves the sender with what it had:
/// the receiver's wallet is untouched, and the sender's callback adds the
/// whole amount back.
pub proof fn lemma_failed_transfer_restores_sender(amount: u128, sender_resolves_at: u128)
    ensures
        -amount + (resolved_balance(
            sender_resolves_at,
            reported_amount(PromiseResultView::Failed),
            amount,
            true,
        ) - sender_resolves_at) == 0,
{
}

/// A burn takes out of the wallet what the minter reports as burnt, up to
/// the amount, and nothing more.
pub proof fn lemma_burn_takes_what_was_burnt(
    amount: u128,
    resolves_at: u128,
    reported: Option<u128>,
)
    ensures
        -amount + (resolved_balance(resolves_at, reported, amount, true) - resolves_at)
            == -used_amount(reported, amount),
{
}

/// A remote call about tokens, from the moment the tokens leave a balance
/// to the moment the caller has resolved the call.
pub ghost enum Call {
    /// The tokens have left the caller; the call has not run.
    Sent { amount: u128 },
    /// The receiving wallet holds the tokens and has asked its owner how many
    /// of them the owner uses.
    Held { amount: u128 },
    /// The other side has answered that it used `used` of the tokens.
    Answered { amount: u128, used: u128 },
    /// The caller has resolved the call.
    Resolved,
}

/// The tokens of a call that are in no balance: all of them until the call
/// has run, and afterwards those that the other side did not use, until the
/// caller has taken them back.
pub open spec fn in_transit(call: Call) -> int {
    match call {
        Call::Sent { amount } => amount as int,
        Call::Held { amount } => 0,
        Call::Answered { amount, used } => amount - used,
        Call::Resolved => 0,
    }
}

/// Wallets, the calls between them, and the minter's count of the tokens it
/// has issued and retired.
pub ghost struct Ledger {
    /// The balance of each wallet.
    pub balances: Seq<int>,
    /// Every call that was scheduled.
    pub calls: Seq<Call>,
    /// Tokens that the minter has issued.
    pub minted: int,
    /// Tokens that the minter has retired.
    pub burnt: int,
}

/// One thing that happens: an entry point of a wallet accepts a call, or the
/// minter or the host does its part.
pub ghost enum Step {
    /// `sft_transfer` or `sft_burn` on `wallet` takes `amount` out of the
    /// balance and schedules a call.
    Send { wallet: int, amount: u128 },
    /// The minter issues `amount` tokens and schedules their delivery.
    Issue { amount: u128 },
    /// `sft_receive` on `wallet` puts the tokens of `call` into the balance,
    /// and asks the owner if it has a notification to deliver.
    Receive { call: int, wallet: int, notify: bool },
    /// `sft_resolve` on the receiving `wallet` learns what the owner
    /// `reported`, and answers the call.
    ResolveReceived { call: int, wallet: int, reported: Option<u128> },
    /// The minter's `sft_on_burn` retires `used` of the tokens of `call`.
    Burn { call: int, used: u128 },
    /// The call fails, and its effects are undone: nothing was used.
    Fail { call: int },
    /// `sft_resolve` on the sending `wallet` learns what the call `reported`,
    /// and puts the rest of the tokens back into the balance.
    ResolveSent { call: int, wallet: int, reported: Option<u128> },
    /// The minter takes back the tokens of `call` that it issued and that
    /// were not used.
    Withdraw { call: int },
}

/// The sum of the balances.
pub open spec fn total_balance(balances: Seq<int>) -> int
    decreases balances.len(),
{
    if balances.len() == 0 {
        0
    } else {
        total_balance(balances.drop_last()) + balances.last()
    }
}

/// The tokens of all calls that are in no balance.
pub open spec fn total_in_transit(calls: Seq<Call>) -> int
    decreases calls.len(),
{
    if calls.len() == 0 {
        0
    } else {
        total_in_transit(calls.drop_last()) + in_transit(calls.last())
    }
}

/// The tokens in balances and in transit, counted with those that the
/// minter retired and without those that it issued. No step changes this
/// number.
pub open spec fn net_tokens(ledger: Ledger) -> int {
    total_balance(ledger.balances) + total_in_transit(ledger.calls) + ledger.burnt - ledger.minted
}

/// `wallet` is one of the wallets, and its balance is one that a wallet can
/// hold.
pub open spec fn is_wallet(ledger: Ledger, wallet: int) -> bool {
    0 <= wallet < ledger.balances.len() && 0 <= ledger.balances[wallet] <= u128::MAX
}

/// Whether `step` can happen in `ledger`: the entry point accepts the call,
/// the call is in the state that the step continues, and what is reported to
/// the sender is what the other side answered.
pub open spec fn enabled(ledger: Ledger, step: Step) -> bool {
    match step {
        Step::Send { wallet, amount } => is_wallet(ledger, wallet) && amount
            <= ledger.balances[wallet],
        Step::Issue { amount } => true,
        Step::Receive { call, wallet, notify } => {
            &&& is_wallet(ledger, wallet)
            &&& 0 <= call < ledger.calls.len()
            &&& ledger.calls[call] matches Call::Sent { amount }
            &&& ledger.balances[wallet] + amount <= u128::MAX
        },
        Step::ResolveReceived { call, wallet, reported } => {
            &&& is_wallet(ledger, wallet)
            &&& 0 <= call < ledger.calls.len()
            &&& ledger.calls[call] is Held
        },
        Step::Burn { call, used } => {
            &&& 0 <= call < ledger.calls.len()
            &&& ledger.calls[call] matches Call::Sent { amount }
            &&& used <= amount
        },
        Step::Fail { call } => 0 <= call < ledger.calls.len() && ledger.calls[call] is Sent,
        Step::ResolveSent { call, wallet, reported } => {
            &&& is_wallet(ledger, wallet)
            &&& 0 <= call < ledger.calls.len()
            &&& ledger.calls[call] matches Call::Answered { amount, used }
            &&& used_amount(reported, amount) == used
            &&& resolved_balance(ledger.balances[wallet] as u128, reported, amount, true)
                <= u128::MAX
        },
        Step::Withdraw { call } => 0 <= call < ledger.calls.len() && ledger.calls[call]
            is Answered,
    }
}

/// The ledger after `step`. A wallet's balance changes as the contract of
/// the entry point says.
pub open spec fn next(ledger: Ledger, step: Step) -> Ledger {
    match step {
        Step::Send { wallet, amount } => Ledger {
            balances: ledger.balances.update(wallet, ledger.balances[wallet] - amount),
            calls: ledger.calls.push(Call::Sent { amount }),
            ..ledger
        },
        Step::Issue { amount } => Ledger {
            calls: ledger.calls.push(Call::Sent { amount }),
            minted: ledger.minted + amount,
            ..ledger
        },
        Step::Receive { call, wallet, notify } => {
            let amount = ledger.calls[call]->Sent_amount;
            Ledger {
                balances: ledger.balances.update(wallet, ledger.balances[wallet] + amount),
                calls: ledger.calls.update(
                    call,
                    if notify {
                        Call::Held { amount }
                    } else {
                        Call::Answered { amount, used: amount }
                    },
                ),
                ..ledger
            }
        },
        Step::ResolveReceived { call, wallet, reported } => {
            let amount = ledger.calls[call]->Held_amount;
            let balance = ledger.balances[wallet] as u128;
            Ledger {
                balances: ledger.balances.update(
                    wallet,
                    resolved_balance(balance, reported, amount, false),
                ),
                calls: ledger.calls.update(
                    call,
                    Call::Answered { amount, used: resolved_used(balance, reported, amount, false) },
                ),
                ..ledger
            }
        },
        Step::Burn { call, used } => Ledger {
            calls: ledger.calls.update(
                call,
                Call::Answered { amount: ledger.calls[call]->Sent_amount, used },
            ),
            burnt: ledger.burnt + used,
            ..ledger
        },
        Step::Fail { call } => Ledger {
            calls: ledger.calls.update(
                call,
                Call::Answered { amount: ledger.calls[call]->Sent_amount, used: 0 },
            ),
            ..ledger
        },
        Step::ResolveSent { call, wallet, reported } => {
            let amount = ledger.calls[call]->Answered_amount;
            Ledger {
                balances: ledger.balances.update(
                    wallet,
                    resolved_balance(ledger.balances[wallet] as u128, reported, amount, true),
                ),
                calls: ledger.calls.update(call, Call::Resolved),
                ..ledger
            }
        },
        Step::Withdraw { call } => Ledger {
            calls: ledger.calls.update(call, Call::Resolved),
            minted: ledger.minted - in_transit(ledger.calls[call]),
            ..ledger
        },
    }
}

/// Whether the steps can happen one after another, starting in `ledger`.
pub open spec fn can_run(ledger: Ledger, steps: Seq<Step>) -> bool
    decreases steps.len(),
{
    steps.len() == 0 || (enabled(ledger, steps[0]) && can_run(
        next(ledger, steps[0]),
        steps.drop_first(),
    ))
}

/// The ledger after the steps have happened one after another.
pub open spec fn run(ledger: Ledger, steps: Seq<Step>) -> Ledger
    decreases steps.len(),
{
    if steps.len() == 0 {
        ledger
    } else {
        run(next(ledger, steps[0]), steps.drop_first())
    }
}

proof fn lemma_total_balance_update(balances: Seq<int>, at: int, balance: int)
    requires
        0 <= at < balances.len(),
    ensures
        total_balance(balances.update(at, balance)) == total_balance(balances) - balances[at]
            + balance,
    decreases balances.len(),
{
    let updated = balances.update(at, balance);
    if at == balances.len() - 1 {
        assert(updated.drop_last() =~= balances.drop_last());
    } else {
        assert(updated.drop_last() =~= balances.drop_last().update(at, balance));
        lemma_total_balance_update(balances.drop_last(), at, balance);
    }
}

proof fn lemma_total_in_transit_update(calls: Seq<Call>, at: int, call: Call)
    requires
        0 <= at < calls.len(),
    ensures
        total_in_transit(calls.update(at, call)) == total_in_transit(calls) - in_transit(calls[at])
            + in_transit(call),
    decreases calls.len(),
{
    let updated = calls.update(at, call);
    if at == calls.len() - 1 {
        assert(updated.drop_last() =~= calls.drop_last());
    } else {
        assert(updated.drop_last() =~= calls.drop_last().update(at, call));
        lemma_total_in_transit_update(calls.drop_last(), at, call);
    }
}

/// No step makes or loses a token: a step moves tokens between a balance and
/// the tokens in transit, or between the tokens in transit and the minter's
/// books.
pub proof fn lemma_step_conserves(ledger: Ledger, step: Step)
    requires
        enabled(ledger, step),
    ensures
        net_tokens(next(ledger, step)) == net_tokens(ledger),
{
    let after = next(ledger, step);
    match step {
        Step::Send { wallet, amount } => {
            lemma_total_balance_update(
                ledger.balances,
                wallet,
                ledger.balances[wallet] - amount,
            );
            assert(after.calls.drop_last() =~= ledger.calls);
        },
        Step::Issue { amount } => {
            assert(after.calls.drop_last() =~= ledger.calls);
        },
        Step::Receive { call, wallet, notify } => {
            lemma_total_balance_update(ledger.balances, wallet, after.balances[wallet]);
            lemma_total_in_transit_update(ledger.calls, call, after.calls[call]);
        },
        Step::ResolveReceived { call, wallet, reported } => {
            lemma_total_balance_update(ledger.balances, wallet, after.balances[wallet]);
            lemma_total_in_transit_update(ledger.calls, call, after.calls[call]);
        },
        Step::Burn { call, used } => {
            lemma_total_in_transit_update(ledger.calls, call, after.calls[call]);
        },
        Step::Fail { call } => {
            lemma_total_in_transit_update(ledger.calls, call, after.calls[call]);
        },
        Step::ResolveSent { call, wallet, reported } => {
            lemma_total_balance_update(ledger.balances, wallet, after.balances[wallet]);
            lemma_total_in_transit_update(ledger.calls, call, after.calls[call]);
        },
        Step::Withdraw { call } => {
            lemma_total_in_transit_update(ledger.calls, call, after.calls[call]);
        },
    }
}

/// Conservation. Whatever steps happen, in whatever order, the balances
/// together with the tokens in transit change by what the minter issued and
/// retired, and by nothing else. So once every call is resolved and no token
/// is in transit, as none was at the start, the sum of the balances is the
/// sum at the start, less the tokens burnt, plus the tokens minted.
pub proof fn lemma_conservation(ledger: Ledger, steps: Seq<Step>)
    requires
        can_run(ledger, steps),
    ensures
        net_tokens(run(ledger, steps)) == net_tokens(ledger),
        total_in_transit(ledger.calls) == 0 && total_in_transit(run(ledger, steps).calls) == 0
            ==> total_balance(run(ledger, steps).balances) == total_balance(ledger.balances) - (run(
            ledger,
            steps,
        ).burnt - ledger.burnt) + (run(ledger, steps).minted - ledger.minted),
    decreases steps.len(),
{
    if steps.len() > 0 {
        lemma_step_conserves(ledger, steps[0]);
        lemma_conservation(next(ledger, steps[0]), steps.drop_first());
    }
}

} // verus!
