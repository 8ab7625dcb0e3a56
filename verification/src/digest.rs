//! Keccak-256 digests and lowercase hexadecimal text.

use vstd::prelude::*;

verus! {

/// The Keccak-256 digest of a byte string.
pub uninterp spec fn keccak256(data: Seq<u8>) -> Seq<u8>;

/// `sha3::Keccak256::digest`: the 32-byte Keccak-256 digest of `data`, which
/// depends on `data` alone.
#[verifier::external_body]
pub(crate) fn keccak256_array(data: &[u8]) -> (digest: [u8; 32])
    ensures
        digest@ == keccak256(data@),
{
    <sha3::Keccak256 as sha3::Digest>::digest(data).into()
}

/// The lowercase hexadecimal digit for a value below 16.
pub open spec fn hex_digit(nibble: int) -> char
    recommends
        0 <= nibble < 16,
{
    if nibble < 10 {
        ('0' as u8 + nibble) as char
    } else {
        ('a' as u8 + nibble - 10) as char
    }
}

/// Lowercase hexadecimal text of a byte string: two digits per byte, the
/// high four bits first.
pub open spec fn hex_lower(data: Seq<u8>) -> Seq<char> {
    Seq::new(
        2 * data.len(),
        |i: int|
            if i % 2 == 0 {
                hex_digit(data[i / 2] as int / 16)
            } else {
                hex_digit(data[i / 2] as int % 16)
            },
    )
}

/// `hex::encode`: two lowercase hexadecimal digits per byte, the digit for
/// the high four bits (`byte / 16`) before the digit for the low four
/// (`byte % 16`).
#[verifier::external_body]
pub(crate) fn hex_encode(data: &[u8]) -> (text: String)
    ensures
        text@ == hex_lower(data@),
{
    hex::encode(data)
}

/// A hexadecimal digit stands for one value below 16.
pub proof fn lemma_hex_digit_injective(a: int, b: int)
    requires
        0 <= a < 16,
        0 <= b < 16,
        hex_digit(a) == hex_digit(b),
    ensures
        a == b,
{
}

/// Hexadecimal text stands for one byte string.
pub proof fn lemma_hex_lower_injective(a: Seq<u8>, b: Seq<u8>)
    requires
        hex_lower(a) == hex_lower(b),
    ensures
        a == b,
{
    assert(hex_lower(a).len() == 2 * a.len());
    assert(hex_lower(b).len() == 2 * b.len());
    assert forall|i: int| 0 <= i < a.len() implies a[i] == b[i] by {
        let x = a[i] as int;
        let y = b[i] as int;
        assert(hex_lower(a)[2 * i] == hex_digit(x / 16));
        assert(hex_lower(b)[2 * i] == hex_digit(y / 16));
        assert(hex_lower(a)[2 * i + 1] == hex_digit(x % 16));
        assert(hex_lower(b)[2 * i + 1] == hex_digit(y % 16));
        lemma_hex_digit_injective(x / 16, y / 16);
        lemma_hex_digit_injective(x % 16, y % 16);
    }
    assert(a =~= b);
}

} // verus!
