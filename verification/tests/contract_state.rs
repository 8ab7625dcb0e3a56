use sharded_fungible_token::account::AccountId;
use sharded_fungible_token::contract_state::{ContractState, ExtraFields, ExtraState};
use sharded_fungible_token::minter::ft2sft::{
    BurnMessage, Ft2SftData, MintMessage,
};
use sharded_fungible_token::minter::SftMinterData;
use sharded_fungible_token::wallet::SFTWalletData;
use sharded_fungible_token::state_init::{ContractCode, StateInit};

fn id(text: &str) -> AccountId {
    AccountId::parse(text).unwrap()
}

#[test]
fn extra_state_starts_without_extra_fields() {
    let state = ExtraState::new(5u8);
    assert_eq!(state.value, 5);
    assert!(state.extra.is_empty());
    assert_eq!(ExtraState::from(5u8), state);
}

#[test]
fn extra_state_collects_fields() {
    let state = ExtraState::new("record")
        .extra("merkle_root".to_string(), serde_json::Value::from("abc"))
        .extra("claimed".to_string(), serde_json::Value::from(false))
        .extra("claimed".to_string(), serde_json::Value::from(true));
    assert_eq!(state.value, "record");
    assert_eq!(state.extra.len(), 2);
    assert_eq!(state.extra.get("merkle_root"), Some(&serde_json::Value::from("abc")));
    assert_eq!(state.extra.get("claimed"), Some(&serde_json::Value::from(true)));
    assert_eq!(state.extra.get("other"), None);
    assert_eq!(state.extra.get(""), None);
}

#[test]
fn extra_fields_are_kept_in_the_order_of_their_names() {
    let names = ["b", "a", "ab", "", "B", "é", "z", "a", "aa", "~"];
    let mut fields = ExtraFields::new();
    let mut expected = std::collections::BTreeMap::new();
    for (n, name) in names.iter().enumerate() {
        fields = fields.insert(name.to_string(), serde_json::Value::from(n));
        expected.insert(name.to_string(), serde_json::Value::from(n));
        assert_eq!(fields.len(), expected.len());
        for (index, (key, value)) in expected.iter().enumerate() {
            assert_eq!(fields.entry(index), (key, value));
            assert_eq!(fields.get(key), Some(value));
        }
    }
    assert_eq!(fields.entry(0).0, "");
    assert_eq!(fields.entry(1).0, "B");
    assert_eq!(fields.entry(2), (&"a".to_string(), &serde_json::Value::from(7)));
    assert_eq!(fields.entry(7).0, "~");
    assert_eq!(fields.entry(8).0, "é");
    assert_eq!(fields.clone(), fields);
    assert!(ExtraFields::new().is_empty());
    assert_eq!(ExtraFields::default(), ExtraFields::new());
    // The order in which fields are set does not show.
    let one = ExtraFields::new()
        .insert("x".to_string(), serde_json::Value::from(1))
        .insert("y".to_string(), serde_json::Value::from(2));
    let other = ExtraFields::new()
        .insert("y".to_string(), serde_json::Value::from(2))
        .insert("x".to_string(), serde_json::Value::from(1));
    assert_eq!(one, other);
}

#[test]
fn contract_state_holds_code_and_state() {
    let code = ContractCode::GlobalAccountId(id("wallet.near"));
    let record = SFTWalletData::init(id("alice.near"), id("minter.near"));
    let state = ContractState { code: code.clone(), state: ExtraState::new(record.clone()) };
    assert_eq!(state.code, code);
    assert_eq!(state.state.value, record);
    assert_eq!(state.clone(), state);
}

#[test]
fn minter_record() {
    let code = ContractCode::GlobalCodeHash([9; 32]);
    let minter = SftMinterData::init(code.clone());
    assert_eq!(minter.total_supply, 0);
    assert_eq!(minter.sft_wallet_code, code);
    let expected = StateInit::code(code)
        .data(SFTWalletData::init_state(&id("alice.near"), &id("minter.near")))
        .derive_account_id();
    assert_eq!(minter.wallet_account_id(&id("minter.near"), &id("alice.near")), expected);
    assert_ne!(minter.wallet_account_id(&id("alice.near"), &id("minter.near")), expected);
}

#[test]
fn adaptor_record_and_initial_storage() {
    let code = ContractCode::GlobalAccountId(id("wallet.near"));
    let record = Ft2SftData::init(id("usdt.near"), code.clone());
    assert_eq!(record.data, SftMinterData::init(code.clone()));
    assert_eq!(record.ft_contract_id, id("usdt.near"));
    let mut expected = vec![0u8; 16];
    expected.extend_from_slice(&[1, 11, 0, 0, 0]);
    expected.extend_from_slice(b"wallet.near");
    expected.extend_from_slice(&[9, 0, 0, 0]);
    expected.extend_from_slice(b"usdt.near");
    assert_eq!(record.serialize(), expected);
    let storage = Ft2SftData::init_state(id("usdt.near"), code);
    assert_eq!(storage.len(), 1);
    assert_eq!(storage.get(&[]), Some(&expected));
    assert_eq!(storage.get(&[0, 0, 0, 0]), None);
}

#[test]
fn messages_default_to_nothing() {
    let mint = MintMessage::default();
    assert_eq!(mint.receiver_id, None);
    assert_eq!(mint.memo, None);
    assert_eq!(mint.notify, None);
    let burn = BurnMessage::default();
    assert_eq!(burn.receiver_id, None);
    assert_eq!(burn.memo, None);
    assert_eq!(burn.msg, None);
    assert_eq!(burn.storage_deposit, 0);
    assert_eq!(burn.refund_to, None);
}
