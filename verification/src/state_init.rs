//! State-init descriptors: the code and initial storage of a contract that
//! may not exist yet, and the account identifier derived from them.

use crate::account::{
    is_account_id_alphanumeric, is_account_id_separator, is_valid_account_id,
    lemma_valid_account_id_bytes, AccountId,
};
use crate::codec::{encoded_text, write_array32, write_bytes, write_u8};
use crate::decode::{
    decode_state_init, decoded_state_init, decoded_view, lemma_decode_encoded, DecodeError,
};
use crate::digest::{
    hex_digit, hex_encode, hex_lower, keccak256, keccak256_array, lemma_hex_lower_injective,
};
use crate::storage::{
    encoded_storage, entries_usage, is_encodable, is_ordered, ContractStorage, EntryView,
};
use vstd::prelude::*;
use vstd::string::StringExecFns;

verus! {

/// What the host charges for storage.
#[derive(Clone, Copy, Debug, PartialEq, Eq, Structural)]
pub struct StorageConfig {
    /// Price of one byte of storage, in yoctoNEAR.
    pub byte_cost: u128,
    /// Bytes charged for the existence of an account.
    pub num_bytes_account: u64,
    /// Bytes charged for each storage record on top of its key and value.
    pub num_extra_bytes_record: u64,
}

/// Code to deploy for a contract that does not exist yet.
#[derive(Debug, PartialEq, Eq)]
pub enum ContractCode {
    /// Global contract code, referenced by its hash.
    GlobalCodeHash([u8; 32]),
    /// Global contract code, referenced by the account that published it.
    GlobalAccountId(AccountId),
}

/// A code reference as plain values.
pub ghost enum ContractCodeView {
    GlobalCodeHash(Seq<u8>),
    GlobalAccountId(Seq<char>),
}

impl View for ContractCode {
    type V = ContractCodeView;

    open spec fn view(&self) -> ContractCodeView {
        match self {
            ContractCode::GlobalCodeHash(hash) => ContractCodeView::GlobalCodeHash(hash@),
            ContractCode::GlobalAccountId(id) => ContractCodeView::GlobalAccountId(id@),
        }
    }
}

/// A code reference that an executable value can stand for: its hash has 32
/// bytes, or its account identifier is valid.
pub open spec fn is_code(code: ContractCodeView) -> bool {
    match code {
        ContractCodeView::GlobalCodeHash(hash) => hash.len() == 32,
        ContractCodeView::GlobalAccountId(id) => is_valid_account_id(id),
    }
}

/// Encoding of a code reference: the variant's index, then the hash as it
/// is or the account identifier as text.
pub open spec fn encoded_code(code: ContractCodeView) -> Seq<u8> {
    match code {
        ContractCodeView::GlobalCodeHash(hash) => seq![0u8] + hash,
        ContractCodeView::GlobalAccountId(id) => seq![1u8] + encoded_text(id),
    }
}

/// Bytes of storage charged for a code reference: the length of the hash or
/// of the account identifier.
pub open spec fn code_usage(code: ContractCodeView) -> int {
    match code {
        ContractCodeView::GlobalCodeHash(hash) => hash.len() as int,
        ContractCodeView::GlobalAccountId(id) => id.len() as int,
    }
}

impl ContractCode {
    /// Bytes of storage charged for the code reference.
    pub fn storage_usage(&self) -> (usage: u64)
        ensures
            usage == code_usage(self@),
            usage <= 64,
    {
        match self {
            ContractCode::GlobalCodeHash(hash) => hash.len() as u64,
            ContractCode::GlobalAccountId(id) => id.len() as u64,
        }
    }

    /// Appends the encoding of the code reference to `out`.
    pub(crate) fn write_to(&self, out: &mut Vec<u8>)
        ensures
            final(out)@ == old(out)@ + encoded_code(self@),
            encoded_code(self@).len() <= 69,
            is_code(self@),
    {
        proof {
            vstd::bytes::lemma_auto_spec_u32_to_from_le_bytes();
        }
        match self {
            ContractCode::GlobalCodeHash(hash) => {
                write_u8(out, 0);
                write_array32(out, hash);
                assert(out@ =~= old(out)@ + encoded_code(self@));
            },
            ContractCode::GlobalAccountId(id) => {
                write_u8(out, 1);
                let text = id.as_str();
                proof {
                    lemma_valid_account_id_bytes(text@);
                }
                let written = write_bytes(out, text.as_bytes());
                assert(written);
                assert(out@ =~= old(out)@ + encoded_code(self@));
            },
        }
    }
}

impl From<[u8; 32]> for ContractCode {
    /// The global code with the given hash.
    fn from(hash: [u8; 32]) -> (r: Self) {
        ContractCode::GlobalCodeHash(hash)
    }
}

impl vstd::std_specs::convert::FromSpecImpl<[u8; 32]> for ContractCode {
    open spec fn obeys_from_spec() -> bool {
        true
    }

    open spec fn from_spec(hash: [u8; 32]) -> Self {
        ContractCode::GlobalCodeHash(hash)
    }
}

impl From<AccountId> for ContractCode {
    /// The global code published by the given account.
    fn from(account_id: AccountId) -> (r: Self) {
        ContractCode::GlobalAccountId(account_id)
    }
}

impl vstd::std_specs::convert::FromSpecImpl<AccountId> for ContractCode {
    open spec fn obeys_from_spec() -> bool {
        true
    }

    open spec fn from_spec(account_id: AccountId) -> Self {
        ContractCode::GlobalAccountId(account_id)
    }
}

impl Clone for ContractCode {
    fn clone(&self) -> (r: Self)
        ensures
            r@ == self@,
    {
        match self {
            ContractCode::GlobalCodeHash(hash) => ContractCode::GlobalCodeHash(*hash),
            ContractCode::GlobalAccountId(id) => ContractCode::GlobalAccountId(id.clone()),
        }
    }
}

/// Initialization state of a contract with a deterministic account
/// identifier.
#[derive(Debug, PartialEq, Eq)]
pub struct StateInit {
    /// Code to deploy.
    pub code: ContractCode,
    /// Key-value pairs to populate the storage with on first initialization.
    pub data: ContractStorage,
}

/// A descriptor as plain values.
pub ghost struct StateInitView {
    pub code: ContractCodeView,
    pub data: Seq<EntryView>,
}

impl View for StateInit {
    type V = StateInitView;

    open spec fn view(&self) -> StateInitView {
        StateInitView { code: self.code@, data: self.data@ }
    }
}

/// A descriptor that an executable value can stand for: its code reference
/// is one, and its storage holds encodable entries in the order of their
/// keys.
pub open spec fn is_descriptor(init: StateInitView) -> bool {
    is_code(init.code) && is_ordered(init.data) && is_encodable(init.data)
}

/// The canonical encoding of a descriptor: its code, then its storage.
pub open spec fn encoded_state_init(init: StateInitView) -> Seq<u8> {
    encoded_code(init.code) + encoded_storage(init.data)
}

/// Bytes of storage a new account is charged for when it is created from
/// the descriptor: its code reference, its storage records, and the account
/// itself.
pub open spec fn state_init_usage(init: StateInitView, config: StorageConfig) -> int {
    code_usage(init.code) + entries_usage(init.data, config.num_extra_bytes_record as int)
        + config.num_bytes_account
}

/// The price of the storage that the descriptor occupies, where the usage
/// fits in 64 bits and the price in 128.
pub open spec fn state_init_cost(init: StateInitView, config: StorageConfig) -> Option<u128> {
    let usage = state_init_usage(init, config);
    if usage <= u64::MAX && config.byte_cost * usage <= u128::MAX {
        Some((config.byte_cost * usage) as u128)
    } else {
        None
    }
}

/// The bytes `state_init`, which separate the digests that name accounts from
/// digests made for other purposes.
pub open spec fn derivation_tag() -> Seq<u8> {
    seq![0x73u8, 0x74u8, 0x61u8, 0x74u8, 0x65u8, 0x5fu8, 0x69u8, 0x6eu8, 0x69u8, 0x74u8]
}

/// The two characters that every derived account identifier starts with.
pub open spec fn derived_prefix() -> Seq<char> {
    seq!['0', 's']
}

/// The digest that names the account of a serialized descriptor: the digest
/// of the tag followed by the digest of the descriptor.
pub open spec fn address_digest(serialized: Seq<u8>) -> Seq<u8> {
    keccak256(derivation_tag() + keccak256(serialized))
}

/// The twenty bytes of the digest that go into the account identifier: its
/// bytes 12 to 31.
pub open spec fn address_bytes(serialized: Seq<u8>) -> Seq<u8> {
    Seq::new(20, |i: int| address_digest(serialized)[12 + i])
}

/// The account identifier derived from a serialized descriptor: the prefix,
/// then in lowercase hexadecimal the last twenty bytes of the digest of the
/// tag followed by the digest of the descriptor.
pub open spec fn derived_account_id(serialized: Seq<u8>) -> Seq<char> {
    derived_prefix() + hex_lower(address_bytes(serialized))
}

/// Hexadecimal digits are lowercase letters and digits.
pub proof fn lemma_hex_digit_alphanumeric(nibble: int)
    requires
        0 <= nibble < 16,
    ensures
        is_account_id_alphanumeric(hex_digit(nibble)),
        !is_account_id_separator(hex_digit(nibble)),
{
}

/// The prefix followed by the hexadecimal text of twenty bytes is a valid
/// account identifier.
pub proof fn lemma_derived_account_id_valid(bytes: Seq<u8>)
    requires
        bytes.len() == 20,
    ensures
        is_valid_account_id(derived_prefix() + hex_lower(bytes)),
        (derived_prefix() + hex_lower(bytes)).len() == 42,
{
    let text = derived_prefix() + hex_lower(bytes);
    assert forall|i: int| 0 <= i < text.len() implies is_account_id_alphanumeric(#[trigger] text[i])
        && !is_account_id_separator(text[i]) by {
        if i >= 2 {
            let b = bytes[(i - 2) / 2] as int;
            lemma_hex_digit_alphanumeric(b / 16);
            lemma_hex_digit_alphanumeric(b % 16);
        }
    }
    assert(!is_account_id_separator(text[0]));
    assert(!is_account_id_separator(text[text.len() - 1]));
}

/// Derivation is a function of the serialized descriptor, and the account
/// identifier keeps all of the twenty bytes that it is made from: two
/// serialized descriptors derive the same identifier exactly when their
/// digests agree on those bytes.
pub proof fn lemma_same_account_same_digest(a: Seq<u8>, b: Seq<u8>)
    ensures
        a == b ==> derived_account_id(a) == derived_account_id(b),
        derived_account_id(a) == derived_account_id(b) <==> address_bytes(a) == address_bytes(b),
{
    if derived_account_id(a) == derived_account_id(b) {
        let x = hex_lower(address_bytes(a));
        let y = hex_lower(address_bytes(b));
        assert(x =~= derived_account_id(a).subrange(2, 42));
        assert(y =~= derived_account_id(b).subrange(2, 42));
        lemma_hex_lower_injective(address_bytes(a), address_bytes(b));
    }
}

/// Derives the account identifier of a serialized descriptor.
pub fn derive_account_id_from_bytes(serialized: &[u8]) -> (id: AccountId)
    ensures
        id@ == derived_account_id(serialized@),
{
    let inner = keccak256_array(serialized);
    let mut preimage: Vec<u8> = vec![
        0x73u8,
        0x74u8,
        0x61u8,
        0x74u8,
        0x65u8,
        0x5fu8,
        0x69u8,
        0x6eu8,
        0x69u8,
        0x74u8,
    ];
    assert(preimage@ =~= derivation_tag());
    let mut inner_bytes = vstd::slice::slice_to_vec(vstd::array::array_as_slice(&inner));
    preimage.append(&mut inner_bytes);
    let outer = keccak256_array(preimage.as_slice());
    let tail = vstd::slice::slice_subrange(vstd::array::array_as_slice(&outer), 12, 32);
    assert(tail@ =~= address_bytes(serialized@));
    let hex = hex_encode(tail);
    let text = String::from_str("0s").concat(hex.as_str());
    proof {
        reveal_strlit("0s");
        assert("0s"@ =~= derived_prefix());
        lemma_derived_account_id_valid(tail@);
    }
    match AccountId::parse(text.as_str()) {
        Some(id) => id,
        None => vstd::pervasive::unreached(),
    }
}

impl StateInit {
    /// The descriptor, to be serialized when its bytes are first needed.
    pub fn lazy(self) -> (r: LazyStateInit)
        ensures
            r@ == LazyStateInitView::StateInit(self@),
    {
        LazyStateInit(LazyStateInitInner::StateInit(self))
    }

    /// The descriptor in serialized form.
    pub fn lazy_serialized(&self) -> (r: LazyStateInit)
        ensures
            r@ == LazyStateInitView::Serialized(encoded_state_init(self@)),
    {
        LazyStateInit(LazyStateInitInner::Serialized(self.serialize()))
    }

    /// A descriptor with the given code and no data.
    pub fn code(code: ContractCode) -> (r: Self)
        ensures
            r@ == (StateInitView { code: code@, data: Seq::empty() }),
    {
        StateInit { code, data: ContractStorage::new() }
    }

    /// The descriptor with its data replaced.
    pub fn data(self, data: ContractStorage) -> (r: Self)
        ensures
            r@ == (StateInitView { code: self@.code, data: data@ }),
    {
        StateInit { code: self.code, data }
    }

    /// The canonical encoding of the descriptor, from which the descriptor
    /// can be read back.
    pub fn serialize(&self) -> (bytes: Vec<u8>)
        ensures
            bytes@ == encoded_state_init(self@),
            is_descriptor(self@),
            decoded_state_init(bytes@) == Some(self@),
    {
        let mut out: Vec<u8> = Vec::new();
        self.code.write_to(&mut out);
        self.data.write_to(&mut out);
        assert(out@ =~= encoded_state_init(self@));
        proof {
            lemma_decode_encoded(self@);
        }
        out
    }

    /// Reads a descriptor from its canonical encoding. Entries that are not
    /// in the order of their keys are put in order, and of several entries
    /// with one key the last counts.
    pub fn deserialize(bytes: &[u8]) -> (r: Result<StateInit, DecodeError>)
        ensures
            decoded_view(r) == decoded_state_init(bytes@),
    {
        decode_state_init(bytes)
    }

    /// Derives the account identifier of the contract that the descriptor
    /// initializes.
    pub fn derive_account_id(&self) -> (id: AccountId)
        ensures
            id@ == derived_account_id(encoded_state_init(self@)),
    {
        let bytes = self.serialize();
        derive_account_id_from_bytes(bytes.as_slice())
    }

    /// Bytes of storage charged for creating an account from the descriptor,
    /// or `None` if they do not fit in 64 bits.
    pub fn storage_usage(&self, config: &StorageConfig) -> (r: Option<u64>)
        ensures
            r is Some <==> state_init_usage(self@, *config) <= u64::MAX,
            r matches Some(usage) ==> usage == state_init_usage(self@, *config),
    {
        proof {
            crate::storage::lemma_entries_usage_nonnegative(
                self.data@,
                config.num_extra_bytes_record as int,
            );
        }
        let data_usage = match self.data.storage_usage(config.num_extra_bytes_record) {
            Some(usage) => usage,
            None => { return None; },
        };
        let with_code = match self.code.storage_usage().checked_add(data_usage) {
            Some(usage) => usage,
            None => { return None; },
        };
        with_code.checked_add(config.num_bytes_account)
    }

    /// The amount, in yoctoNEAR, that covers the storage of an account
    /// created from the descriptor at the host's current prices, or `None`
    /// if the usage does not fit in 64 bits or the amount in 128.
    pub fn storage_cost(&self, config: &StorageConfig) -> (r: Option<u128>)
        ensures
            r == state_init_cost(self@, *config),
    {
        match self.storage_usage(config) {
            Some(usage) => {
                let r = config.byte_cost.checked_mul(usage as u128);
                r
            },
            None => None,
        }
    }
}

impl Clone for StateInit {
    fn clone(&self) -> (r: Self)
        ensures
            r@ == self@,
    {
        StateInit { code: self.code.clone(), data: self.data.clone() }
    }
}

/// A descriptor that is held either structured or already serialized.
#[derive(Debug, PartialEq, Eq)]
pub struct LazyStateInit(LazyStateInitInner);

#[derive(Debug, PartialEq, Eq)]
enum LazyStateInitInner {
    StateInit(StateInit),
    Serialized(Vec<u8>),
}

/// A lazy descriptor as plain values.
pub ghost enum LazyStateInitView {
    StateInit(StateInitView),
    Serialized(Seq<u8>),
}

impl LazyStateInitView {
    /// The serialized descriptor: the canonical encoding of a structured
    /// one, and the bytes as they are of a serialized one.
    pub open spec fn bytes(self) -> Seq<u8> {
        match self {
            LazyStateInitView::StateInit(init) => encoded_state_init(init),
            LazyStateInitView::Serialized(bytes) => bytes,
        }
    }
}

impl View for LazyStateInit {
    type V = LazyStateInitView;

    closed spec fn view(&self) -> LazyStateInitView {
        match self.0 {
            LazyStateInitInner::StateInit(init) => LazyStateInitView::StateInit(init@),
            LazyStateInitInner::Serialized(bytes) => LazyStateInitView::Serialized(bytes@),
        }
    }
}

impl LazyStateInit {
    /// A descriptor held as the bytes `bytes`, which are taken as they are.
    pub fn from_serialized(bytes: Vec<u8>) -> (r: Self)
        ensures
            r@ == LazyStateInitView::Serialized(bytes@),
    {
        LazyStateInit(LazyStateInitInner::Serialized(bytes))
    }

    /// The descriptor, if it is held in structured form.
    pub fn as_state_init(&self) -> (r: Option<&StateInit>)
        ensures
            match self@ {
                LazyStateInitView::StateInit(init) => r matches Some(held) && held@ == init,
                LazyStateInitView::Serialized(_) => r is None,
            },
    {
        match &self.0 {
            LazyStateInitInner::StateInit(init) => Some(init),
            LazyStateInitInner::Serialized(_) => None,
        }
    }

    /// The serialized descriptor.
    pub fn serialize(&self) -> (bytes: Vec<u8>)
        ensures
            bytes@ == self@.bytes(),
    {
        match &self.0 {
            LazyStateInitInner::StateInit(init) => init.serialize(),
            LazyStateInitInner::Serialized(bytes) => vstd::slice::slice_to_vec(bytes.as_slice()),
        }
    }

    /// The descriptor in structured form: as it is, or read from the bytes
    /// that are held.
    pub fn deserialize(self) -> (r: Result<StateInit, DecodeError>)
        ensures
            decoded_view(r) == match self@ {
                LazyStateInitView::StateInit(init) => Some(init),
                LazyStateInitView::Serialized(bytes) => decoded_state_init(bytes),
            },
    {
        match self.0 {
            LazyStateInitInner::StateInit(init) => Ok(init),
            LazyStateInitInner::Serialized(bytes) => decode_state_init(bytes.as_slice()),
        }
    }

    /// Derives the account identifier of the contract that the descriptor
    /// initializes. A structured descriptor and its serialized form derive
    /// the same identifier.
    pub fn derive_account_id(&self) -> (id: AccountId)
        ensures
            id@ == derived_account_id(self@.bytes()),
    {
        match &self.0 {
            LazyStateInitInner::StateInit(init) => init.derive_account_id(),
            LazyStateInitInner::Serialized(bytes) => derive_account_id_from_bytes(bytes.as_slice()),
        }
    }
}

impl From<StateInit> for LazyStateInit {
    /// The descriptor, to be serialized when its bytes are first needed.
    fn from(state_init: StateInit) -> (r: Self)
        ensures
            r@ == LazyStateInitView::StateInit(state_init@),
    {
        LazyStateInit(LazyStateInitInner::StateInit(state_init))
    }
}

impl vstd::std_specs::convert::FromSpecImpl<StateInit> for LazyStateInit {
    open spec fn obeys_from_spec() -> bool {
        true
    }

    closed spec fn from_spec(state_init: StateInit) -> Self {
        LazyStateInit(LazyStateInitInner::StateInit(state_init))
    }
}

impl Clone for LazyStateInit {
    fn clone(&self) -> (r: Self)
        ensures
            r@ == self@,
    {
        match &self.0 {
            LazyStateInitInner::StateInit(init) => LazyStateInit(
                LazyStateInitInner::StateInit(init.clone()),
            ),
            LazyStateInitInner::Serialized(bytes) => LazyStateInit(
                LazyStateInitInner::Serialized(vstd::slice::slice_to_vec(bytes.as_slice())),
            ),
        }
    }
}

} // verus!
