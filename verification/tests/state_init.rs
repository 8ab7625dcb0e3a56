use sharded_fungible_token::account::AccountId;
use sharded_fungible_token::wallet::SFTWalletData;
use sharded_fungible_token::state_init::{
    derive_account_id_from_bytes, ContractCode, LazyStateInit, StateInit, StorageConfig,
};
use sharded_fungible_token::storage::{key_order, ContractStorage, KeyOrder};
use sha3::Digest;

fn id(text: &str) -> AccountId {
    AccountId::parse(text).unwrap()
}

// The derivation, written out independently of the library.
fn expected_account(serialized: &[u8]) -> String {
    let inner = sha3::Keccak256::digest(serialized);
    let mut preimage = b"state_init".to_vec();
    preimage.extend_from_slice(&inner);
    let outer = sha3::Keccak256::digest(&preimage);
    let mut text = String::from("0s");
    for byte in &outer[12..32] {
        text.push_str(&format!("{:02x}", byte));
    }
    text
}

fn sample_storage() -> ContractStorage {
    ContractStorage::new()
        .borsh(vec![2, 0], vec![9])
        .borsh(vec![1], vec![])
        .borsh(vec![2], vec![7, 7, 7])
}

#[test]
fn keccak_of_known_input() {
    // Keccak-256 of the empty string, a published test vector.
    let digest = sha3::Keccak256::digest(b"");
    let hex: String = digest.iter().map(|b| format!("{:02x}", b)).collect();
    assert_eq!(hex, "c5d2460186f7233c927e7db2dcc703c0e500b653ca82273b7bfad8045d85a470");
    // The account of the empty descriptor is made from that digest.
    let mut preimage = b"state_init".to_vec();
    preimage.extend_from_slice(&digest);
    let outer = sha3::Keccak256::digest(&preimage);
    let tail: String = outer[12..32].iter().map(|b| format!("{:02x}", b)).collect();
    assert_eq!(derive_account_id_from_bytes(b"").as_str(), format!("0s{}", tail));
}

#[test]
fn derived_account_has_the_documented_shape() {
    let account = derive_account_id_from_bytes(b"anything");
    let text = account.as_str();
    assert_eq!(text.len(), 42);
    assert!(text.starts_with("0s"));
    assert!(text[2..].bytes().all(|b| matches!(b, b'0'..=b'9' | b'a'..=b'f')));
    assert_eq!(text, expected_account(b"anything"));
    assert_eq!(account.len(), 42);
}

#[test]
fn state_init_encoding_with_code_hash() {
    let init = StateInit::code(ContractCode::GlobalCodeHash([0xab; 32])).data(sample_storage());
    let mut expected = vec![0u8];
    expected.extend_from_slice(&[0xab; 32]);
    expected.extend_from_slice(&[3, 0, 0, 0]);
    // Entries in the order of their keys: [1], [2], [2, 0].
    expected.extend_from_slice(&[1, 0, 0, 0, 1, 0, 0, 0, 0]);
    expected.extend_from_slice(&[1, 0, 0, 0, 2, 3, 0, 0, 0, 7, 7, 7]);
    expected.extend_from_slice(&[2, 0, 0, 0, 2, 0, 1, 0, 0, 0, 9]);
    assert_eq!(init.serialize(), expected);
}

#[test]
fn state_init_encoding_with_code_account() {
    let init = StateInit::code(ContractCode::GlobalAccountId(id("code.near")));
    let mut expected = vec![1u8, 9, 0, 0, 0];
    expected.extend_from_slice(b"code.near");
    expected.extend_from_slice(&[0, 0, 0, 0]);
    assert_eq!(init.serialize(), expected);
}

#[test]
fn long_values_are_encoded_with_their_length() {
    let value = vec![5u8; 0x0102_03];
    let init = StateInit::code(ContractCode::GlobalCodeHash([0; 32]))
        .data(ContractStorage::new().borsh(Vec::new(), value.clone()));
    let bytes = init.serialize();
    assert_eq!(bytes.len(), 1 + 32 + 4 + 4 + 4 + value.len());
    assert_eq!(&bytes[33..45], &[1, 0, 0, 0, 0, 0, 0, 0, 3, 2, 1, 0]);
    assert_eq!(&bytes[45..], &value[..]);
}

#[test]
fn derivation_is_idempotent() {
    let init = StateInit::code(ContractCode::GlobalCodeHash([1; 32])).data(sample_storage());
    let first = init.derive_account_id();
    let second = init.derive_account_id();
    assert_eq!(first, second);
    assert_eq!(first.as_str(), expected_account(&init.serialize()));
    assert_eq!(init.clone().derive_account_id(), first);
}

#[test]
fn lazy_forms_derive_the_same_account() {
    let init = StateInit::code(ContractCode::GlobalAccountId(id("code.near"))).data(sample_storage());
    let account = init.derive_account_id();
    let serialized = init.lazy_serialized();
    let structured = init.clone().lazy();
    assert_eq!(serialized.serialize(), init.serialize());
    assert_eq!(structured.serialize(), init.serialize());
    assert_eq!(serialized.derive_account_id(), account);
    assert_eq!(structured.derive_account_id(), account);
    assert_eq!(LazyStateInit::from(init.clone()), structured);
    assert_eq!(ContractCode::from([4u8; 32]), ContractCode::GlobalCodeHash([4; 32]));
    assert_eq!(ContractCode::from(id("code.near")), ContractCode::GlobalAccountId(id("code.near")));
    assert_ne!(serialized, structured);
}

#[test]
fn descriptors_that_differ_derive_different_accounts() {
    let mut descriptors: Vec<StateInit> = Vec::new();
    for seed in 0u8..40 {
        let code = if seed % 2 == 0 {
            ContractCode::GlobalCodeHash([seed; 32])
        } else {
            ContractCode::GlobalAccountId(id(&format!("code{}.near", seed)))
        };
        for entries in 0u8..4 {
            let mut data = ContractStorage::new();
            for n in 0..entries {
                data = data.borsh(vec![n, seed], vec![seed.wrapping_mul(n); n as usize]);
            }
            descriptors.push(StateInit::code(code.clone()).data(data));
        }
    }
    // Differing in the value of one entry only, and in the key only.
    let base = StateInit::code(ContractCode::GlobalCodeHash([0; 32]));
    descriptors.push(base.clone().data(ContractStorage::new().borsh(vec![1], vec![1])));
    descriptors.push(base.clone().data(ContractStorage::new().borsh(vec![1], vec![2])));
    descriptors.push(base.clone().data(ContractStorage::new().borsh(vec![2], vec![1])));
    // The same bytes, split between key and value in another way.
    descriptors.push(base.clone().data(ContractStorage::new().borsh(vec![1, 1], vec![])));
    descriptors.push(base.data(ContractStorage::new().borsh(vec![], vec![1, 1])));
    let accounts: Vec<AccountId> = descriptors.iter().map(|d| d.derive_account_id()).collect();
    for i in 0..descriptors.len() {
        assert_eq!(descriptors[i].derive_account_id(), accounts[i]);
        for j in 0..i {
            assert_ne!(descriptors[i], descriptors[j]);
            assert_ne!(accounts[i], accounts[j], "descriptors {} and {}", i, j);
        }
    }
}

#[test]
fn wallets_of_different_owners_and_minters_have_different_accounts() {
    let code = ContractCode::GlobalCodeHash([7; 32]);
    let account = |owner: &str, minter: &str| {
        StateInit::code(code.clone())
            .data(SFTWalletData::init_state(&id(owner), &id(minter)))
            .derive_account_id()
    };
    let a = account("alice.near", "minter.near");
    assert_eq!(a, account("alice.near", "minter.near"));
    assert_ne!(a, account("bob.near", "minter.near"));
    assert_ne!(a, account("alice.near", "other.near"));
    assert_ne!(a, account("minter.near", "alice.near"));
}

#[test]
fn storage_keeps_its_entries_in_key_order() {
    let storage = sample_storage();
    assert_eq!(storage.len(), 3);
    assert!(!storage.is_empty());
    assert_eq!(storage.get(&[1]), Some(&vec![]));
    assert_eq!(storage.get(&[2]), Some(&vec![7, 7, 7]));
    assert_eq!(storage.get(&[2, 0]), Some(&vec![9]));
    assert_eq!(storage.get(&[0]), None);
    assert_eq!(storage.get(&[]), None);
    let other_order = ContractStorage::new()
        .borsh(vec![2], vec![7, 7, 7])
        .borsh(vec![2, 0], vec![9])
        .borsh(vec![1], vec![]);
    assert_eq!(storage, other_order);
}

#[test]
fn storage_replaces_the_value_of_a_key() {
    let storage = sample_storage().borsh(vec![2], vec![8]);
    assert_eq!(storage.len(), 3);
    assert_eq!(storage.get(&[2]), Some(&vec![8]));
    assert_eq!(storage.get(&[2, 0]), Some(&vec![9]));
    assert_eq!(ContractStorage::new().len(), 0);
    assert!(ContractStorage::new().is_empty());
    assert_eq!(ContractStorage::new(), ContractStorage::default());
    assert!(ContractStorage::default().is_empty());
}

#[test]
fn keys_are_ordered_as_byte_strings() {
    assert_eq!(key_order(&[], &[]), KeyOrder::Same);
    assert_eq!(key_order(&[], &[0]), KeyOrder::Before);
    assert_eq!(key_order(&[0], &[]), KeyOrder::After);
    assert_eq!(key_order(&[1, 2], &[1, 2]), KeyOrder::Same);
    assert_eq!(key_order(&[1, 2], &[1, 3]), KeyOrder::Before);
    assert_eq!(key_order(&[1, 2, 0], &[1, 2]), KeyOrder::After);
    assert_eq!(key_order(&[255], &[1, 0]), KeyOrder::After);
    assert_eq!(key_order(&[1, 255], &[2]), KeyOrder::Before);
}

#[test]
fn storage_usage_counts_keys_values_and_overhead() {
    assert_eq!(ContractStorage::new().storage_usage(40), Some(0));
    // Keys of 2, 1 and 1 bytes, values of 1, 0 and 3 bytes.
    assert_eq!(sample_storage().storage_usage(40), Some(8 + 3 * 40));
    assert_eq!(sample_storage().storage_usage(0), Some(8));
    let most = (u64::MAX - 8) / 3;
    assert_eq!(sample_storage().storage_usage(most), Some(u64::MAX - 1));
    assert_eq!(sample_storage().storage_usage(most + 1), None);
    assert_eq!(sample_storage().storage_usage(u64::MAX), None);
}

#[test]
fn storage_cost_of_a_descriptor() {
    let config = StorageConfig { byte_cost: 1000, num_bytes_account: 100, num_extra_bytes_record: 40 };
    let by_hash = StateInit::code(ContractCode::GlobalCodeHash([0; 32])).data(sample_storage());
    assert_eq!(ContractCode::GlobalCodeHash([0; 32]).storage_usage(), 32);
    assert_eq!(by_hash.storage_usage(&config), Some(32 + 128 + 100));
    assert_eq!(by_hash.storage_cost(&config), Some(260_000));
    let by_account = StateInit::code(ContractCode::GlobalAccountId(id("code.near")));
    assert_eq!(ContractCode::GlobalAccountId(id("code.near")).storage_usage(), 9);
    assert_eq!(by_account.storage_usage(&config), Some(109));
    assert_eq!(by_account.storage_cost(&config), Some(109_000));
}

#[test]
fn storage_cost_that_cannot_be_expressed() {
    let init = StateInit::code(ContractCode::GlobalCodeHash([0; 32]));
    let usage_overflows =
        StorageConfig { byte_cost: 0, num_bytes_account: u64::MAX - 31, num_extra_bytes_record: 0 };
    assert_eq!(init.storage_usage(&usage_overflows), None);
    assert_eq!(init.storage_cost(&usage_overflows), None);
    let usage_fits =
        StorageConfig { byte_cost: 0, num_bytes_account: u64::MAX - 32, num_extra_bytes_record: 0 };
    assert_eq!(init.storage_usage(&usage_fits), Some(u64::MAX));
    assert_eq!(init.storage_cost(&usage_fits), Some(0));
    let cost_overflows =
        StorageConfig { byte_cost: u128::MAX / 131, num_bytes_account: 100, num_extra_bytes_record: 0 };
    assert_eq!(init.storage_usage(&cost_overflows), Some(132));
    assert_eq!(init.storage_cost(&cost_overflows), None);
    let cost_fits =
        StorageConfig { byte_cost: u128::MAX / 132, num_bytes_account: 100, num_extra_bytes_record: 0 };
    assert_eq!(init.storage_cost(&cost_fits), Some((u128::MAX / 132) * 132));
}

#[test]
fn descriptor_builders() {
    let code = ContractCode::GlobalCodeHash([3; 32]);
    let init = StateInit::code(code.clone());
    assert_eq!(init.code, code);
    assert!(init.data.is_empty());
    let init = init.data(sample_storage());
    assert_eq!(init.code, code);
    assert_eq!(init.data, sample_storage());
}
