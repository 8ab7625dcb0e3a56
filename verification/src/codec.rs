//! The canonical binary encoding of the primitive values that records and
//! state-init descriptors are built from.
//!
//! Integers are written little-endian at their full width; a byte string is
//! written as its length, a 32-bit integer, followed by its bytes.

use vstd::bytes::*;
use vstd::prelude::*;

verus! {

/// Encoding of a byte string: a little-endian 32-bit length, then the bytes.
pub open spec fn encoded_bytes(data: Seq<u8>) -> Seq<u8>
    recommends
        data.len() <= u32::MAX,
{
    spec_u32_to_le_bytes(data.len() as u32) + data
}

/// Encoding of text: the encoding of its UTF-8 bytes.
pub open spec fn encoded_text(text: Seq<char>) -> Seq<u8> {
    encoded_bytes(vstd::utf8::encode_utf8(text))
}

/// `borsh::to_vec::<u8>`: a byte is written as itself. Writing into a
/// vector cannot fail.
#[verifier::external_body]
fn borsh_u8(value: u8) -> (r: Option<Vec<u8>>)
    ensures
        r is Some,
        r matches Some(out) ==> out@ == seq![value],
{
    borsh::to_vec(&value).ok()
}

/// `borsh::to_vec::<u32>`: the four little-endian bytes of the value.
/// Writing into a vector cannot fail.
#[verifier::external_body]
fn borsh_u32(value: u32) -> (r: Option<Vec<u8>>)
    ensures
        r is Some,
        r matches Some(out) ==> out@ == spec_u32_to_le_bytes(value),
{
    borsh::to_vec(&value).ok()
}

/// `borsh::to_vec::<u128>`: the sixteen little-endian bytes of the value.
/// Writing into a vector cannot fail.
#[verifier::external_body]
fn borsh_u128(value: u128) -> (r: Option<Vec<u8>>)
    ensures
        r is Some,
        r matches Some(out) ==> out@ == spec_u128_to_le_bytes(value),
{
    borsh::to_vec(&value).ok()
}

/// `borsh::to_vec::<[u8; 32]>`: a fixed-size array is written as its bytes,
/// without a length. Writing into a vector cannot fail.
#[verifier::external_body]
fn borsh_array32(value: &[u8; 32]) -> (r: Option<Vec<u8>>)
    ensures
        r is Some,
        r matches Some(out) ==> out@ == value@,
{
    borsh::to_vec(value).ok()
}

/// `borsh::to_vec::<[u8]>`: the length as a little-endian `u32`, then the
/// bytes. It fails exactly when the length does not fit in a `u32`.
#[verifier::external_body]
fn borsh_slice(value: &[u8]) -> (r: Option<Vec<u8>>)
    ensures
        r is Some <==> value@.len() <= u32::MAX,
        r matches Some(out) ==> out@ == encoded_bytes(value@),
{
    borsh::to_vec(value).ok()
}

/// Appends the encoding of one byte.
pub(crate) fn write_u8(out: &mut Vec<u8>, value: u8)
    ensures
        final(out)@ == old(out)@ + seq![value],
{
    match borsh_u8(value) {
        Some(mut bytes) => out.append(&mut bytes),
        None => vstd::pervasive::unreached(),
    }
}

/// Appends the encoding of a 32-bit integer.
pub(crate) fn write_u32(out: &mut Vec<u8>, value: u32)
    ensures
        final(out)@ == old(out)@ + spec_u32_to_le_bytes(value),
{
    match borsh_u32(value) {
        Some(mut bytes) => out.append(&mut bytes),
        None => vstd::pervasive::unreached(),
    }
}

/// Appends the encoding of a 128-bit integer.
pub(crate) fn write_u128(out: &mut Vec<u8>, value: u128)
    ensures
        final(out)@ == old(out)@ + spec_u128_to_le_bytes(value),
{
    match borsh_u128(value) {
        Some(mut bytes) => out.append(&mut bytes),
        None => vstd::pervasive::unreached(),
    }
}

/// Appends the encoding of a 32-byte array.
pub(crate) fn write_array32(out: &mut Vec<u8>, value: &[u8; 32])
    ensures
        final(out)@ == old(out)@ + value@,
{
    match borsh_array32(value) {
        Some(mut bytes) => out.append(&mut bytes),
        None => vstd::pervasive::unreached(),
    }
}

/// Appends the encoding of a byte string. Returns `false`, leaving `out`
/// untouched, when the string is too long for its length to be encoded.
pub(crate) fn write_bytes(out: &mut Vec<u8>, value: &[u8]) -> (written: bool)
    ensures
        written == (value@.len() <= u32::MAX),
        written ==> final(out)@ == old(out)@ + encoded_bytes(value@),
        !written ==> final(out)@ == old(out)@,
{
    match borsh_slice(value) {
        Some(mut bytes) => {
            out.append(&mut bytes);
            true
        },
        None => false,
    }
}

} // verus!
