use sharded_fungible_token::account::{AccountId, MAX_ACCOUNT_ID_LEN, MIN_ACCOUNT_ID_LEN};

#[test]
fn valid_account_ids() {
    let valid = [
        "aa",
        "a-a",
        "a-aa",
        "100",
        "0o",
        "com",
        "near",
        "bowen",
        "b-o_w_e-n",
        "b.owen",
        "bro.wen",
        "a.ha",
        "a.b-a.ra",
        "system",
        "over.9000",
        "google.com",
        "illia.cheapaccounts.near",
        "0o0ooo00oo00o",
        "alex-skidanov",
        "10-4.8-2",
        "b-o_w_e-n",
        "no_lols",
        "0123456789012345678901234567890123456789012345678901234567890123",
        "0s0000000000000000000000000000000000000000",
    ];
    for text in valid {
        let id = AccountId::parse(text);
        assert!(id.is_some(), "{} is valid", text);
        let id = id.unwrap();
        assert_eq!(id.as_str(), text);
        assert_eq!(id.len(), text.len());
        assert_eq!(near_account_id::AccountId::validate(text).is_ok(), true);
    }
}

#[test]
fn invalid_account_ids() {
    let invalid = [
        "",
        "a",
        "A",
        "Abc",
        "-near",
        "near-",
        "-near-",
        "near.",
        ".near",
        "near@",
        "@near",
        "неар",
        "@@@@@",
        "0__0",
        "0_-_0",
        "0_-_0",
        "..",
        "a..near",
        "nEar",
        "_bowen",
        "hello world",
        "abcdefghijklmnopqrstuvwxyz.abcdefghijklmnopqrstuvwxyz.abcdefghijklmnopqrstuvwxyz",
        "01234567890123456789012345678901234567890123456789012345678901234",
        "some-complex-address@gmail.com",
        "sub.buy_d1gitz@atata@b0-rg.c_0_m",
    ];
    for text in invalid {
        assert!(AccountId::parse(text).is_none(), "{} is invalid", text);
        assert!(near_account_id::AccountId::validate(text).is_err());
    }
}

#[test]
fn account_id_lengths() {
    assert_eq!(MIN_ACCOUNT_ID_LEN, 2);
    assert_eq!(MAX_ACCOUNT_ID_LEN, 64);
    assert!(AccountId::parse(&"a".repeat(1)).is_none());
    assert!(AccountId::parse(&"a".repeat(2)).is_some());
    assert!(AccountId::parse(&"a".repeat(64)).is_some());
    assert!(AccountId::parse(&"a".repeat(65)).is_none());
}

#[test]
fn account_ids_compare_by_their_text() {
    let a = AccountId::parse("alice.near").unwrap();
    let b = AccountId::parse("alice.near").unwrap();
    let c = AccountId::parse("alice.nea").unwrap();
    assert!(a.same_as(&b));
    assert!(!a.same_as(&c));
    assert!(a.same_as(&a.clone()));
    assert_eq!(a, b);
    assert_ne!(a, c);
}
