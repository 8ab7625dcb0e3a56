use sharded_fungible_token::account::AccountId;
use sharded_fungible_token::decode::{decode_state_init, decode_wallet, DecodeError};
use sharded_fungible_token::state_init::{
    derive_account_id_from_bytes, ContractCode, LazyStateInit, StateInit,
};
use sharded_fungible_token::wallet::SFTWalletData;
use sharded_fungible_token::storage::ContractStorage;
use std::collections::BTreeMap;

fn id(text: &str) -> AccountId {
    AccountId::parse(text).unwrap()
}

fn storage_of(map: &BTreeMap<Vec<u8>, Vec<u8>>) -> ContractStorage {
    let mut storage = ContractStorage::new();
    for (key, value) in map {
        storage = storage.borsh(key.clone(), value.clone());
    }
    storage
}

// What borsh reads from the same bytes, for a descriptor whose code is a hash.
fn read_by_borsh(bytes: &[u8]) -> Option<StateInit> {
    let (tag, hash, data) =
        borsh::from_slice::<(u8, [u8; 32], BTreeMap<Vec<u8>, Vec<u8>>)>(bytes).ok()?;
    if tag != 0 {
        return None;
    }
    Some(StateInit::code(ContractCode::GlobalCodeHash(hash)).data(storage_of(&data)))
}

fn sample() -> StateInit {
    StateInit::code(ContractCode::GlobalCodeHash([0xcd; 32])).data(
        ContractStorage::new()
            .borsh(vec![], vec![1, 2, 3])
            .borsh(vec![0], vec![])
            .borsh(vec![0, 0], vec![4])
            .borsh(vec![9], vec![5; 300]),
    )
}

#[test]
fn encoding_is_read_back() {
    let descriptors = [
        sample(),
        StateInit::code(ContractCode::GlobalCodeHash([0; 32])),
        StateInit::code(ContractCode::GlobalAccountId(id("code.near"))),
        StateInit::code(ContractCode::GlobalAccountId(id("aa"))).data(sample().data),
        StateInit::code(ContractCode::GlobalAccountId(id(&"a".repeat(64)))),
    ];
    for init in descriptors {
        let bytes = init.serialize();
        assert_eq!(decode_state_init(&bytes), Ok(init.clone()));
        assert_eq!(StateInit::deserialize(&bytes), Ok(init.clone()));
        assert_eq!(init.lazy_serialized().deserialize(), Ok(init.clone()));
        assert_eq!(init.clone().lazy().deserialize(), Ok(init));
    }
}

#[test]
fn encoding_agrees_with_borsh() {
    let init = sample();
    let bytes = init.serialize();
    let mut map: BTreeMap<Vec<u8>, Vec<u8>> = BTreeMap::new();
    map.insert(vec![], vec![1, 2, 3]);
    map.insert(vec![0], vec![]);
    map.insert(vec![0, 0], vec![4]);
    map.insert(vec![9], vec![5; 300]);
    assert_eq!(bytes, borsh::to_vec(&(0u8, [0xcdu8; 32], map)).unwrap());
    assert_eq!(read_by_borsh(&bytes), Some(init));
    let by_account = StateInit::code(ContractCode::GlobalAccountId(id("code.near")));
    assert_eq!(
        by_account.serialize(),
        borsh::to_vec(&(1u8, "code.near", BTreeMap::<Vec<u8>, Vec<u8>>::new())).unwrap()
    );
}

#[test]
fn entries_out_of_order_are_put_in_order() {
    let mut bytes = vec![0u8];
    bytes.extend_from_slice(&[0xcd; 32]);
    bytes.extend_from_slice(&[3, 0, 0, 0]);
    bytes.extend_from_slice(&[1, 0, 0, 0, 9, 1, 0, 0, 0, 1]);
    bytes.extend_from_slice(&[1, 0, 0, 0, 3, 1, 0, 0, 0, 2]);
    bytes.extend_from_slice(&[0, 0, 0, 0, 1, 0, 0, 0, 3]);
    let expected = StateInit::code(ContractCode::GlobalCodeHash([0xcd; 32])).data(
        ContractStorage::new().borsh(vec![], vec![3]).borsh(vec![3], vec![2]).borsh(vec![9], vec![1]),
    );
    assert_eq!(decode_state_init(&bytes), Ok(expected.clone()));
    assert_eq!(read_by_borsh(&bytes), Some(expected.clone()));
    assert_ne!(expected.serialize(), bytes);
}

#[test]
fn of_entries_with_one_key_the_last_counts() {
    let mut bytes = vec![0u8];
    bytes.extend_from_slice(&[0xcd; 32]);
    bytes.extend_from_slice(&[3, 0, 0, 0]);
    bytes.extend_from_slice(&[1, 0, 0, 0, 7, 1, 0, 0, 0, 1]);
    bytes.extend_from_slice(&[1, 0, 0, 0, 8, 1, 0, 0, 0, 2]);
    bytes.extend_from_slice(&[1, 0, 0, 0, 7, 1, 0, 0, 0, 3]);
    let expected = StateInit::code(ContractCode::GlobalCodeHash([0xcd; 32]))
        .data(ContractStorage::new().borsh(vec![7], vec![3]).borsh(vec![8], vec![2]));
    assert_eq!(decode_state_init(&bytes), Ok(expected.clone()));
    assert_eq!(read_by_borsh(&bytes), Some(expected));
}

#[test]
fn bytes_that_encode_no_descriptor() {
    let good = sample().serialize();
    assert_eq!(decode_state_init(&[]), Err(DecodeError::InvalidData));
    // Every proper prefix is cut short.
    for end in 0..good.len() {
        assert_eq!(decode_state_init(&good[..end]), Err(DecodeError::InvalidData), "prefix {}", end);
        assert_eq!(read_by_borsh(&good[..end]), None);
    }
    // A byte is left over.
    let mut long = good.clone();
    long.push(0);
    assert_eq!(decode_state_init(&long), Err(DecodeError::InvalidData));
    assert_eq!(read_by_borsh(&long), None);
    // No such variant.
    let mut tagged = good.clone();
    tagged[0] = 2;
    assert_eq!(decode_state_init(&tagged), Err(DecodeError::InvalidData));
    // More entries announced than there are.
    let mut counted = good.clone();
    counted[33] = 5;
    assert_eq!(decode_state_init(&counted), Err(DecodeError::InvalidData));
    assert_eq!(read_by_borsh(&counted), None);
    // A length that runs past the end.
    let mut lengthy = good;
    lengthy[37] = 0xff;
    assert_eq!(decode_state_init(&lengthy), Err(DecodeError::InvalidData));
    assert_eq!(read_by_borsh(&lengthy), None);
}

#[test]
fn account_ids_are_validated_when_read() {
    let encode = |id: &[u8]| {
        let mut bytes = vec![1u8];
        bytes.extend_from_slice(&(id.len() as u32).to_le_bytes());
        bytes.extend_from_slice(id);
        bytes.extend_from_slice(&[0, 0, 0, 0]);
        bytes
    };
    assert_eq!(
        decode_state_init(&encode(b"code.near")),
        Ok(StateInit::code(ContractCode::GlobalAccountId(id("code.near"))))
    );
    for bad in [&b"Code.near"[..], b"a", b"", b"code..near", b".near", b"near-", b"caf\xc3\xa9.near", b"\xff\xfe"] {
        assert_eq!(decode_state_init(&encode(bad)), Err(DecodeError::InvalidData), "{:?}", bad);
    }
    assert_eq!(AccountId::from_utf8(b"code.near"), Some(id("code.near")));
    assert_eq!(AccountId::from_utf8(b"caf\xc3\xa9.near"), None);
    assert_eq!(AccountId::from_utf8(b"\xff\xfe"), None);
    assert_eq!(AccountId::from_utf8(b"a"), None);
}

#[test]
fn ledger_record_is_read_back() {
    let mut record = SFTWalletData::init(
        id("alice.near"),
        id("minter.near"),
    );
    record.status = 2;
    record.balance = u128::MAX - 5;
    let bytes = record.serialize();
    assert_eq!(
        SFTWalletData::deserialize(&bytes),
        Ok(record.clone())
    );
    assert_eq!(
        borsh::from_slice::<(u8, u128, String, String)>(&bytes).unwrap(),
        (2, u128::MAX - 5, "alice.near".to_string(), "minter.near".to_string())
    );
    for end in 0..bytes.len() {
        assert_eq!(
            decode_wallet(&bytes[..end]),
            Err(DecodeError::InvalidData)
        );
    }
    let mut long = bytes.clone();
    long.push(0);
    assert_eq!(decode_wallet(&long), Err(DecodeError::InvalidData));
    let mut bad_owner = bytes;
    bad_owner[21] = b'A';
    assert_eq!(
        decode_wallet(&bad_owner),
        Err(DecodeError::InvalidData)
    );
}

#[test]
fn serialized_descriptors_are_taken_as_they_are() {
    let garbage = LazyStateInit::from_serialized(vec![9, 9, 9]);
    assert_eq!(garbage.serialize(), vec![9, 9, 9]);
    assert_eq!(garbage.as_state_init(), None);
    assert_eq!(garbage.clone().deserialize(), Err(DecodeError::InvalidData));
    assert_eq!(
        garbage.derive_account_id(),
        derive_account_id_from_bytes(&[9, 9, 9])
    );
    let init = sample();
    assert_eq!(init.clone().lazy().as_state_init(), Some(&init));
    assert_eq!(
        LazyStateInit::from_serialized(init.serialize()),
        init.lazy_serialized()
    );
}

#[test]
fn storage_entries_by_index() {
    let storage = sample().data;
    assert_eq!(storage.entry(0), (&vec![], &vec![1, 2, 3]));
    assert_eq!(storage.entry(1), (&vec![0], &vec![]));
    assert_eq!(storage.entry(2), (&vec![0, 0], &vec![4]));
    assert_eq!(storage.entry(3), (&vec![9], &vec![5; 300]));
}
