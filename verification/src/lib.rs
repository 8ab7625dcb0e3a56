//! Sharded fungible tokens: a per-owner wallet ledger that moves value between
//! accounts through remote calls that may fail, and the deterministic account
//! identifiers that let a wallet be addressed before it is deployed.
//!
//! Every entry point is a function from the ledger record, the facts the host
//! reports about the current call, and the call's arguments, to the updated
//! record and a description of the remote calls to schedule. The host performs
//! the calls and later feeds their outcome back into
//! [`SFTWalletContract::sft_resolve`](wallet::SFTWalletContract::sft_resolve).

pub mod account;
pub mod amount;
pub mod codec;
pub mod contract_state;
pub mod decode;
pub mod digest;
pub mod laws;
pub mod minter;
pub mod promise;
pub mod receiver;
pub mod state_init;
pub mod storage;
pub mod wallet;
