//! Reading state-init descriptors and ledger records back from their binary
//! encoding.
//!
//! The encoding of every descriptor is read back as that descriptor, so no
//! two descriptors share an encoding. Bytes that list the entries of the
//! storage in another order than that of their keys, or bind a key twice,
//! are read too: a later entry replaces an earlier one with the same key.

use crate::account::{
    ascii_text, is_valid_account_id, is_valid_account_id_bytes, lemma_valid_account_id_bytes,
    AccountId,
};
use crate::codec::encoded_bytes;
use crate::wallet::{encoded_wallet, SFTWalletData, WalletView};
use crate::state_init::{
    encoded_code, encoded_state_init, is_code, is_descriptor, ContractCode, ContractCodeView,
    StateInit, StateInitView,
};
use crate::storage::{
    encoded_entries, is_encodable, is_ordered, lemma_insertion_point, with_entry, ContractStorage,
    EntryView,
};
use vstd::bytes::*;
use vstd::prelude::*;

verus! {

/// Why bytes were not read.
#[derive(Debug, Clone, Copy, PartialEq, Eq, Structural)]
pub enum DecodeError {
    /// The bytes are not the encoding of a value of the kind asked for.
    InvalidData,
}

/// Reads a 32-bit integer off the front of `bytes`, and gives what follows
/// it.
pub open spec fn read_u32(bytes: Seq<u8>) -> Option<(u32, Seq<u8>)> {
    if bytes.len() >= 4 {
        Some((spec_u32_from_le_bytes(bytes.take(4)), bytes.skip(4)))
    } else {
        None
    }
}

/// Reads a byte string off the front of `bytes`: its length, then as many
/// bytes.
pub open spec fn read_bytes(bytes: Seq<u8>) -> Option<(Seq<u8>, Seq<u8>)> {
    match read_u32(bytes) {
        Some((len, rest)) => if len <= rest.len() {
            Some((rest.take(len as int), rest.skip(len as int)))
        } else {
            None
        },
        None => None,
    }
}

/// Reads a code reference off the front of `bytes`: the index of the
/// variant, then a hash of 32 bytes or a valid account identifier.
pub open spec fn read_code(bytes: Seq<u8>) -> Option<(ContractCodeView, Seq<u8>)> {
    if bytes.len() == 0 {
        None
    } else if bytes[0] == 0 {
        if bytes.len() >= 33 {
            Some((ContractCodeView::GlobalCodeHash(bytes.subrange(1, 33)), bytes.skip(33)))
        } else {
            None
        }
    } else if bytes[0] == 1 {
        match read_bytes(bytes.skip(1)) {
            Some((id, rest)) => if is_valid_account_id_bytes(id) {
                Some((ContractCodeView::GlobalAccountId(ascii_text(id)), rest))
            } else {
                None
            },
            None => None,
        }
    } else {
        None
    }
}

/// Reads `count` entries off the front of `bytes`, each a key followed by a
/// value, and binds them one after another in `storage`.
pub open spec fn read_entries(bytes: Seq<u8>, count: nat, storage: Seq<EntryView>) -> Option<
    (Seq<EntryView>, Seq<u8>),
>
    decreases count,
{
    if count == 0 {
        Some((storage, bytes))
    } else {
        match read_bytes(bytes) {
            Some((key, rest)) => match read_bytes(rest) {
                Some((value, rest)) => read_entries(
                    rest,
                    (count - 1) as nat,
                    with_entry(storage, key, value),
                ),
                None => None,
            },
            None => None,
        }
    }
}

/// The descriptor that `bytes` encode: a code reference, the number of
/// entries, and the entries, with no byte left over.
pub open spec fn decoded_state_init(bytes: Seq<u8>) -> Option<StateInitView> {
    match read_code(bytes) {
        Some((code, rest)) => match read_u32(rest) {
            Some((count, rest)) => match read_entries(rest, count as nat, Seq::empty()) {
                Some((data, rest)) => if rest.len() == 0 {
                    Some(StateInitView { code, data })
                } else {
                    None
                },
                None => None,
            },
            None => None,
        },
        None => None,
    }
}

/// An encoded integer is read back.
pub proof fn lemma_read_u32(value: u32, rest: Seq<u8>)
    ensures
        read_u32(spec_u32_to_le_bytes(value) + rest) == Some((value, rest)),
{
    lemma_auto_spec_u32_to_from_le_bytes();
    let bytes = spec_u32_to_le_bytes(value) + rest;
    assert(bytes.take(4) =~= spec_u32_to_le_bytes(value));
    assert(bytes.skip(4) =~= rest);
}

/// An encoded byte string is read back.
pub proof fn lemma_read_bytes(data: Seq<u8>, rest: Seq<u8>)
    requires
        data.len() <= u32::MAX,
    ensures
        read_bytes(encoded_bytes(data) + rest) == Some((data, rest)),
{
    let bytes = encoded_bytes(data) + rest;
    assert(bytes =~= spec_u32_to_le_bytes(data.len() as u32) + (data + rest));
    lemma_read_u32(data.len() as u32, data + rest);
    assert((data + rest).take(data.len() as int) =~= data);
    assert((data + rest).skip(data.len() as int) =~= rest);
}

/// An encoded code reference is read back.
pub proof fn lemma_read_code(code: ContractCodeView, rest: Seq<u8>)
    requires
        is_code(code),
    ensures
        read_code(encoded_code(code) + rest) == Some((code, rest)),
{
    let bytes = encoded_code(code) + rest;
    match code {
        ContractCodeView::GlobalCodeHash(hash) => {
            assert(bytes[0] == 0);
            assert(bytes.subrange(1, 33) =~= hash);
            assert(bytes.skip(33) =~= rest);
        },
        ContractCodeView::GlobalAccountId(id) => {
            lemma_valid_account_id_bytes(id);
            let text = vstd::utf8::encode_utf8(id);
            assert(bytes[0] == 1);
            assert(bytes.skip(1) =~= encoded_bytes(text) + rest);
            lemma_read_bytes(text, rest);
        },
    }
}

/// The encoding of entries starts with the encoding of the first.
pub proof fn lemma_encoded_entries_first(entries: Seq<EntryView>)
    requires
        entries.len() > 0,
    ensures
        encoded_entries(entries) == encoded_bytes(entries[0].0) + encoded_bytes(entries[0].1)
            + encoded_entries(entries.drop_first()),
    decreases entries.len(),
{
    let first = encoded_bytes(entries[0].0) + encoded_bytes(entries[0].1);
    if entries.len() == 1 {
        assert(entries.drop_last() =~= Seq::<EntryView>::empty());
        assert(entries.drop_first() =~= Seq::<EntryView>::empty());
        assert(encoded_entries(entries) =~= first + encoded_entries(entries.drop_first()));
    } else {
        let init = entries.drop_last();
        lemma_encoded_entries_first(init);
        assert(init.drop_first() =~= entries.drop_first().drop_last());
        assert(entries.drop_first().last() == entries.last());
        assert(init[0] == entries[0]);
        assert(encoded_entries(entries) =~= first + encoded_entries(entries.drop_first()));
    }
}

/// Encoded entries that continue `storage` in the order of keys are read
/// back after it.
pub proof fn lemma_read_entries(storage: Seq<EntryView>, entries: Seq<EntryView>, rest: Seq<u8>)
    requires
        is_ordered(storage + entries),
        is_encodable(entries),
    ensures
        read_entries(encoded_entries(entries) + rest, entries.len(), storage) == Some(
            (storage + entries, rest),
        ),
    decreases entries.len(),
{
    if entries.len() == 0 {
        assert(encoded_entries(entries) + rest =~= rest);
        assert(storage + entries =~= storage);
    } else {
        let (key, value) = entries[0];
        let tail = entries.drop_first();
        let both = storage + entries;
        lemma_encoded_entries_first(entries);
        assert(encoded_entries(entries) + rest =~= encoded_bytes(key) + (encoded_bytes(value) + (
            encoded_entries(tail) + rest)));
        lemma_read_bytes(key, encoded_bytes(value) + (encoded_entries(tail) + rest));
        lemma_read_bytes(value, encoded_entries(tail) + rest);
        assert(is_ordered(storage)) by {
            assert forall|i: int, j: int| 0 <= i < j < storage.len() implies crate::storage::bytes_before(
                #[trigger] storage[i].0,
                #[trigger] storage[j].0,
            ) by {
                assert(both[i] == storage[i] && both[j] == storage[j]);
            }
        }
        assert forall|i: int| 0 <= i < storage.len() implies crate::storage::bytes_before(
            #[trigger] storage[i].0,
            key,
        ) by {
            assert(both[i] == storage[i] && both[storage.len() as int] == entries[0]);
        }
        lemma_insertion_point(storage, key, storage.len() as int);
        assert(with_entry(storage, key, value) =~= storage.push((key, value)));
        assert(storage.push((key, value)) + tail =~= both);
        assert(is_encodable(tail)) by {
            assert forall|i: int| 0 <= i < tail.len() implies (#[trigger] tail[i]).0.len()
                <= u32::MAX && tail[i].1.len() <= u32::MAX by {
                assert(tail[i] == entries[i + 1]);
            }
        }
        lemma_read_entries(storage.push((key, value)), tail, rest);
    }
}

/// The encoding of a descriptor is read back as the descriptor.
pub proof fn lemma_decode_encoded(init: StateInitView)
    requires
        is_descriptor(init),
    ensures
        decoded_state_init(encoded_state_init(init)) == Some(init),
{
    let count = init.data.len() as u32;
    let entries = encoded_entries(init.data);
    assert(encoded_state_init(init) =~= encoded_code(init.code) + (spec_u32_to_le_bytes(count) + (
        entries + Seq::<u8>::empty())));
    lemma_read_code(init.code, spec_u32_to_le_bytes(count) + (entries + Seq::<u8>::empty()));
    lemma_read_u32(count, entries + Seq::<u8>::empty());
    assert(Seq::<EntryView>::empty() + init.data =~= init.data);
    lemma_read_entries(Seq::empty(), init.data, Seq::empty());
}

/// No two descriptors share an encoding.
pub proof fn lemma_encoding_injective(a: StateInitView, b: StateInitView)
    requires
        is_descriptor(a),
        is_descriptor(b),
        encoded_state_init(a) == encoded_state_init(b),
    ensures
        a == b,
{
    lemma_decode_encoded(a);
    lemma_decode_encoded(b);
}

/// The view of the descriptor that was read, if one was.
pub open spec fn decoded_view(r: Result<StateInit, DecodeError>) -> Option<StateInitView> {
    match r {
        Ok(init) => Some(init@),
        Err(_) => None,
    }
}

/// Reads a 32-bit integer at `at`, and gives the index behind it.
fn take_u32(bytes: &[u8], at: usize) -> (r: Option<(u32, usize)>)
    requires
        at <= bytes@.len(),
    ensures
        r is Some <==> read_u32(bytes@.skip(at as int)) is Some,
        r matches Some((value, next)) ==> at <= next <= bytes@.len() && read_u32(
            bytes@.skip(at as int),
        ) == Some((value, bytes@.skip(next as int))),
{
    if bytes.len() - at < 4 {
        return None;
    }
    let value = u32_from_le_bytes(vstd::slice::slice_subrange(bytes, at, at + 4));
    proof {
        assert(bytes@.skip(at as int).take(4) =~= bytes@.subrange(at as int, at + 4));
        assert(bytes@.skip(at as int).skip(4) =~= bytes@.skip(at + 4));
    }
    Some((value, at + 4))
}

/// Reads a byte string at `at`, and gives the index behind it.
fn take_bytes(bytes: &[u8], at: usize) -> (r: Option<(Vec<u8>, usize)>)
    requires
        at <= bytes@.len(),
    ensures
        r is Some <==> read_bytes(bytes@.skip(at as int)) is Some,
        r matches Some((data, next)) ==> at <= next <= bytes@.len() && data@.len() <= u32::MAX
            && read_bytes(bytes@.skip(at as int)) == Some((data@, bytes@.skip(next as int))),
{
    let (len, start) = match take_u32(bytes, at) {
        Some(read) => read,
        None => { return None; },
    };
    if bytes.len() - start < len as usize {
        return None;
    }
    let end: usize = start + len as usize;
    let data = vstd::slice::slice_to_vec(vstd::slice::slice_subrange(bytes, start, end));
    proof {
        assert(bytes@.skip(start as int).take(len as int) =~= bytes@.subrange(
            start as int,
            end as int,
        ));
        assert(bytes@.skip(start as int).skip(len as int) =~= bytes@.skip(end as int));
    }
    Some((data, end))
}

/// Reads a code reference at the front of `bytes`, and gives the index
/// behind it.
fn take_code(bytes: &[u8]) -> (r: Option<(ContractCode, usize)>)
    ensures
        r is Some <==> read_code(bytes@) is Some,
        r matches Some((code, next)) ==> next <= bytes@.len() && read_code(bytes@) == Some(
            (code@, bytes@.skip(next as int)),
        ),
{
    if bytes.len() == 0 {
        return None;
    }
    if bytes[0] == 0 {
        if bytes.len() < 33 {
            return None;
        }
        let mut hash = [0u8; 32];
        let mut i: usize = 0;
        while i < 32
            invariant
                i <= 32,
                bytes@.len() >= 33,
                forall|j: int| 0 <= j < i ==> hash@[j] == bytes@[1 + j],
            decreases 32 - i,
        {
            hash[i] = bytes[1 + i];
            i = i + 1;
        }
        assert(hash@ =~= bytes@.subrange(1, 33));
        Some((ContractCode::GlobalCodeHash(hash), 33))
    } else if bytes[0] == 1 {
        assert(bytes@.skip(1).skip(0) =~= bytes@.skip(1));
        let (id, next) = match take_bytes(bytes, 1) {
            Some(read) => read,
            None => { return None; },
        };
        match AccountId::from_utf8(id.as_slice()) {
            Some(id) => Some((ContractCode::GlobalAccountId(id), next)),
            None => None,
        }
    } else {
        None
    }
}

/// Reads a descriptor from its binary encoding.
pub fn decode_state_init(bytes: &[u8]) -> (r: Result<StateInit, DecodeError>)
    ensures
        decoded_view(r) == decoded_state_init(bytes@),
{
    let (code, at) = match take_code(bytes) {
        Some(read) => read,
        None => { return Err(DecodeError::InvalidData); },
    };
    let (count, start) = match take_u32(bytes, at) {
        Some(read) => read,
        None => { return Err(DecodeError::InvalidData); },
    };
    let mut storage = ContractStorage::new();
    let mut at: usize = start;
    let mut read: u32 = 0;
    while read < count
        invariant
            read <= count,
            start <= at <= bytes@.len(),
            storage@.len() <= read,
            decoded_state_init(bytes@) == match read_entries(
                bytes@.skip(start as int),
                count as nat,
                Seq::empty(),
            ) {
                Some((data, rest)) => if rest.len() == 0 {
                    Some(StateInitView { code: code@, data })
                } else {
                    None
                },
                None => None,
            },
            read_entries(bytes@.skip(start as int), count as nat, Seq::empty()) == read_entries(
                bytes@.skip(at as int),
                (count - read) as nat,
                storage@,
            ),
        decreases count - read,
    {
        let (key, behind_key) = match take_bytes(bytes, at) {
            Some(read) => read,
            None => { return Err(DecodeError::InvalidData); },
        };
        let (value, behind_value) = match take_bytes(bytes, behind_key) {
            Some(read) => read,
            None => { return Err(DecodeError::InvalidData); },
        };
        storage = storage.borsh(key, value);
        at = behind_value;
        read = read + 1;
    }
    if at != bytes.len() {
        return Err(DecodeError::InvalidData);
    }
    Ok(StateInit { code, data: storage })
}

/// The ledger record that `bytes` encode: the flags, the balance, and the
/// two account identifiers, with no byte left over.
pub open spec fn decoded_wallet(bytes: Seq<u8>) -> Option<WalletView> {
    if bytes.len() >= 17 {
        match read_bytes(bytes.skip(17)) {
            Some((owner_id, rest)) => match read_bytes(rest) {
                Some((minter_id, rest)) => if rest.len() == 0 && is_valid_account_id_bytes(
                    owner_id,
                ) && is_valid_account_id_bytes(minter_id) {
                    Some(
                        WalletView {
                            status: bytes[0],
                            balance: spec_u128_from_le_bytes(bytes.subrange(1, 17)),
                            owner_id: ascii_text(owner_id),
                            minter_id: ascii_text(minter_id),
                        },
                    )
                } else {
                    None
                },
                None => None,
            },
            None => None,
        }
    } else {
        None
    }
}

/// The encoding of a ledger record is read back as the record.
pub proof fn lemma_decode_encoded_wallet(wallet: WalletView)
    requires
        is_valid_account_id(wallet.owner_id),
        is_valid_account_id(wallet.minter_id),
    ensures
        decoded_wallet(encoded_wallet(wallet)) == Some(wallet),
{
    lemma_auto_spec_u128_to_from_le_bytes();
    lemma_valid_account_id_bytes(wallet.owner_id);
    lemma_valid_account_id_bytes(wallet.minter_id);
    let balance = spec_u128_to_le_bytes(wallet.balance);
    let owner = vstd::utf8::encode_utf8(wallet.owner_id);
    let minter = vstd::utf8::encode_utf8(wallet.minter_id);
    let bytes = encoded_wallet(wallet);
    assert(bytes =~= seq![wallet.status] + balance + (encoded_bytes(owner) + (encoded_bytes(minter)
        + Seq::<u8>::empty())));
    assert(bytes.subrange(1, 17) =~= balance);
    assert(bytes.skip(17) =~= encoded_bytes(owner) + (encoded_bytes(minter) + Seq::<u8>::empty()));
    lemma_read_bytes(owner, encoded_bytes(minter) + Seq::<u8>::empty());
    lemma_read_bytes(minter, Seq::empty());
}

/// The view of the record that was read, if one was.
pub open spec fn decoded_wallet_view(r: Result<SFTWalletData, DecodeError>) -> Option<WalletView> {
    match r {
        Ok(wallet) => Some(wallet@),
        Err(_) => None,
    }
}

/// Reads a ledger record from its binary encoding.
pub fn decode_wallet(bytes: &[u8]) -> (r: Result<SFTWalletData, DecodeError>)
    ensures
        decoded_wallet_view(r) == decoded_wallet(bytes@),
{
    if bytes.len() < 17 {
        return Err(DecodeError::InvalidData);
    }
    let status = bytes[0];
    let balance = u128_from_le_bytes(vstd::slice::slice_subrange(bytes, 1, 17));
    let (owner_id, behind_owner) = match take_bytes(bytes, 17) {
        Some(read) => read,
        None => { return Err(DecodeError::InvalidData); },
    };
    let (minter_id, behind_minter) = match take_bytes(bytes, behind_owner) {
        Some(read) => read,
        None => { return Err(DecodeError::InvalidData); },
    };
    if behind_minter != bytes.len() {
        return Err(DecodeError::InvalidData);
    }
    let owner_id = match AccountId::from_utf8(owner_id.as_slice()) {
        Some(id) => id,
        None => { return Err(DecodeError::InvalidData); },
    };
    let minter_id = match AccountId::from_utf8(minter_id.as_slice()) {
        Some(id) => id,
        None => { return Err(DecodeError::InvalidData); },
    };
    Ok(SFTWalletData { status, balance, owner_id, minter_id })
}

} // verus!
