//! What passes between a contract and its host: the facts of the current
//! call, the remote calls that a contract asks the host to schedule, and the
//! outcome that the host reports of a call once it has run.

use crate::account::AccountId;
use crate::state_init::{ContractCode, ContractCodeView, StorageConfig};
use vstd::prelude::*;

verus! {

/// The view of an optional value.
pub open spec fn view_of<T: View>(value: Option<T>) -> Option<T::V> {
    match value {
        Some(value) => Some(value@),
        None => None,
    }
}

/// What the host tells a contract about the call that it is running.
#[derive(Debug, Clone, PartialEq, Eq)]
pub struct CallContext {
    /// The account that made the call.
    pub predecessor_account_id: AccountId,
    /// The account of the contract that is running.
    pub current_account_id: AccountId,
    /// The deposit attached to the call, in yoctoNEAR.
    pub attached_deposit: u128,
    /// The code that the running contract is deployed with.
    pub current_contract_code: ContractCode,
    /// What the host charges for storage.
    pub storage_config: StorageConfig,
}

/// A call context as plain values.
pub ghost struct CallContextView {
    pub predecessor_account_id: Seq<char>,
    pub current_account_id: Seq<char>,
    pub attached_deposit: u128,
    pub current_contract_code: ContractCodeView,
    pub storage_config: StorageConfig,
}

impl View for CallContext {
    type V = CallContextView;

    open spec fn view(&self) -> CallContextView {
        CallContextView {
            predecessor_account_id: self.predecessor_account_id@,
            current_account_id: self.current_account_id@,
            attached_deposit: self.attached_deposit,
            current_contract_code: self.current_contract_code@,
            storage_config: self.storage_config,
        }
    }
}

impl CallContext {
    /// Whether the contract is calling itself, as it does when the host runs
    /// a callback that the contract scheduled.
    pub fn is_private_call(&self) -> (r: bool)
        ensures
            r == (self@.predecessor_account_id == self@.current_account_id),
    {
        self.predecessor_account_id.same_as(&self.current_account_id)
    }
}

/// What the host reports of a scheduled call once it has run.
#[derive(Debug, Clone, PartialEq, Eq)]
pub enum PromiseResult {
    /// The call failed.
    Failed,
    /// The call returned more bytes than the contract asked to read.
    TooLong,
    /// The call returned these bytes.
    Successful(Vec<u8>),
}

/// The outcome of a call as plain values.
pub ghost enum PromiseResultView {
    Failed,
    TooLong,
    Successful(Seq<u8>),
}

impl View for PromiseResult {
    type V = PromiseResultView;

    open spec fn view(&self) -> PromiseResultView {
        match self {
            PromiseResult::Failed => PromiseResultView::Failed,
            PromiseResult::TooLong => PromiseResultView::TooLong,
            PromiseResult::Successful(data) => PromiseResultView::Successful(data@),
        }
    }
}

/// What an entry point hands back: a value that is known now, or the
/// description of remote calls whose outcome will decide it.
#[derive(Debug, Clone, PartialEq, Eq)]
pub enum PromiseOrValue<P> {
    /// Remote calls to schedule.
    Promise(P),
    /// An amount of tokens.
    Value(u128),
}

/// A promise-or-value as plain values.
pub ghost enum PromiseOrValueView<P> {
    Promise(P),
    Value(u128),
}

impl<P: View> View for PromiseOrValue<P> {
    type V = PromiseOrValueView<P::V>;

    open spec fn view(&self) -> PromiseOrValueView<P::V> {
        match self {
            PromiseOrValue::Promise(promise) => PromiseOrValueView::Promise(promise@),
            PromiseOrValue::Value(value) => PromiseOrValueView::Value(*value),
        }
    }
}

} // verus!
