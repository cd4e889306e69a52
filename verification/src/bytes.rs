//! Big-endian integers and text, as they are laid out in a box.

use byteorder::{BigEndian, ByteOrder};
use vstd::prelude::*;
use vstd::utf8::{decode_utf8, valid_utf8};

verus! {

/// The unsigned integer that the first four bytes of `bytes` spell,
/// most significant byte first.
pub open spec fn be_u32(bytes: Seq<u8>) -> int
    recommends
        bytes.len() >= 4,
{
    bytes[0] as int * 0x100_0000 + bytes[1] as int * 0x1_0000 + bytes[2] as int * 0x100
        + bytes[3] as int
}

/// The unsigned integer that the first eight bytes of `bytes` spell,
/// most significant byte first.
pub open spec fn be_u64(bytes: Seq<u8>) -> int
    recommends
        bytes.len() >= 8,
{
    be_u32(bytes) * 0x1_0000_0000 + be_u32(bytes.skip(4))
}

/// A big-endian value of four bytes fits in 32 bits.
pub proof fn lemma_be_u32_range(bytes: Seq<u8>)
    ensures
        0 <= be_u32(bytes) <= u32::MAX,
{
}

/// A big-endian value of eight bytes fits in 64 bits.
pub proof fn lemma_be_u64_range(bytes: Seq<u8>)
    ensures
        0 <= be_u64(bytes) <= u64::MAX,
{
    lemma_be_u32_range(bytes);
    lemma_be_u32_range(bytes.skip(4));
}

/// `byteorder::BigEndian::read_u32` (through the `ByteOrder` trait): reads the
/// first four bytes of `buf` as one big-endian `u32`. It panics on a shorter
/// buffer, which `requires` rules out.
#[verifier::external_body]
pub(crate) fn read_be_u32(buf: &[u8]) -> (value: u32)
    requires
        buf@.len() >= 4,
    ensures
        value == be_u32(buf@),
{
    BigEndian::read_u32(buf)
}

/// `byteorder::BigEndian::read_u64` (through the `ByteOrder` trait): reads the
/// first eight bytes of `buf` as one big-endian `u64`. It panics on a shorter
/// buffer, which `requires` rules out.
#[verifier::external_body]
pub(crate) fn read_be_u64(buf: &[u8]) -> (value: u64)
    requires
        buf@.len() >= 8,
    ensures
        value == be_u64(buf@),
{
    BigEndian::read_u64(buf)
}

/// `std::str::from_utf8`, followed by a copy into an owned `String`: the text
/// that `bytes` encode, or `None` where they are not well-formed UTF-8.
#[verifier::external_body]
pub(crate) fn utf8_text(bytes: &[u8]) -> (text: Option<String>)
    ensures
        text is Some <==> valid_utf8(bytes@),
        text matches Some(s) ==> s@ == decode_utf8(bytes@),
{
    match std::str::from_utf8(bytes) {
        Ok(s) => Some(s.to_string()),
        Err(_) => None,
    }
}

} // verus!
