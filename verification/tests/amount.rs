use sharded_fungible_token::amount::{amount_from_json, amount_from_text, parse_u128};

#[test]
fn decimal_text_is_read_as_std_reads_it() {
    let samples = [
        "",
        "0",
        "7",
        "40",
        "+40",
        "-40",
        "+",
        "-",
        "++1",
        "+-1",
        "0040",
        "4 0",
        " 40",
        "40 ",
        "4_0",
        "0x10",
        "1e3",
        "٤٠",
        "340282366920938463463374607431768211455",
        "340282366920938463463374607431768211456",
        "+340282366920938463463374607431768211455",
        "0000000000000000000000000000340282366920938463463374607431768211455",
        "3402823669209384634633746074317682114550",
        "999999999999999999999999999999999999999",
        "99999999999999999999999999999999999999999999999999x",
    ];
    for text in samples {
        assert_eq!(amount_from_text(text), text.parse::<u128>().ok(), "{:?}", text);
        assert_eq!(parse_u128(text.as_bytes()), text.parse::<u128>().ok(), "{:?}", text);
    }
}

#[test]
fn decimal_text_values() {
    assert_eq!(parse_u128(b"0"), Some(0));
    assert_eq!(parse_u128(b"+0"), Some(0));
    assert_eq!(parse_u128(b"40"), Some(40));
    assert_eq!(parse_u128(b"0040"), Some(40));
    assert_eq!(parse_u128(b"1234567890"), Some(1234567890));
    assert_eq!(parse_u128(b"340282366920938463463374607431768211455"), Some(u128::MAX));
    assert_eq!(parse_u128(b"340282366920938463463374607431768211456"), None);
    assert_eq!(parse_u128(b""), None);
    assert_eq!(parse_u128(b"+"), None);
    assert_eq!(parse_u128(b"-0"), None);
    assert_eq!(parse_u128(b"4\xff"), None);
    assert_eq!(parse_u128(b"/"), None);
    assert_eq!(parse_u128(b":"), None);
}

#[test]
fn amounts_travel_as_json_strings() {
    assert_eq!(amount_from_json(b"\"40\""), Some(40));
    assert_eq!(amount_from_json(b"  \"40\"\n"), Some(40));
    assert_eq!(amount_from_json(b"\"\\u0034\\u0030\""), Some(40));
    assert_eq!(amount_from_json(b"\"+40\""), Some(40));
    assert_eq!(amount_from_json(&serde_json::to_vec(&u128::MAX.to_string()).unwrap()), Some(u128::MAX));
    assert_eq!(amount_from_json(b"40"), None);
    assert_eq!(amount_from_json(b"\"40"), None);
    assert_eq!(amount_from_json(b"\"40\"\"40\""), None);
    assert_eq!(amount_from_json(b"\"4 0\""), None);
    assert_eq!(amount_from_json(b"\" 40\""), None);
    assert_eq!(amount_from_json(b"null"), None);
    assert_eq!(amount_from_json(b"[\"40\"]"), None);
    assert_eq!(amount_from_json(b""), None);
    assert_eq!(amount_from_json(b"\"\""), None);
    assert_eq!(amount_from_json(b"\"\xff\""), None);
}
