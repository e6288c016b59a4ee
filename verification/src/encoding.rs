//! Encoding of 16- and 32-bit words in the byte order of the running
//! hardware.

use vstd::prelude::*;
use vstd::bytes::{spec_u32_to_le_bytes, lemma_auto_spec_u32_to_from_le_bytes, spec_u16_to_le_bytes};
use vstd::endian::{endianness, Endian};

verus! {

/// The four bytes of `x` in the byte order of the running hardware.
pub open spec fn native_u32_bytes(x: u32) -> Seq<u8> {
    match endianness() {
        Endian::Little => spec_u32_to_le_bytes(x),
        Endian::Big => spec_u32_to_le_bytes(x).reverse(),
    }
}

/// The native encoding of a word has four bytes and determines the word.
pub proof fn lemma_native_u32_bytes(x: u32, y: u32)
    ensures
        native_u32_bytes(x).len() == 4,
        native_u32_bytes(x) == native_u32_bytes(y) ==> x == y,
{
    lemma_auto_spec_u32_to_from_le_bytes();
    if native_u32_bytes(x) == native_u32_bytes(y) {
        match endianness() {
            Endian::Little => {},
            Endian::Big => {
                assert(spec_u32_to_le_bytes(x) =~= native_u32_bytes(x).reverse());
                assert(spec_u32_to_le_bytes(y) =~= native_u32_bytes(y).reverse());
            },
        }
    }
}

/// `u32::to_ne_bytes`: the bytes of `x` in the byte order of the hardware.
#[verifier::external_body]
pub(crate) fn u32_to_native_bytes(x: u32) -> (b: [u8; 4])
    ensures
        b@ == native_u32_bytes(x),
{
    x.to_ne_bytes()
}

/// `u32::from_ne_bytes`: the word whose bytes, in the byte order of the
/// hardware, are `b`.
#[verifier::external_body]
pub(crate) fn u32_from_native_bytes(b: [u8; 4]) -> (x: u32)
    ensures
        native_u32_bytes(x) == b@,
{
    u32::from_ne_bytes(b)
}

/// The two bytes of `x` in the byte order of the running hardware.
pub open spec fn native_u16_bytes(x: u16) -> Seq<u8> {
    match endianness() {
        Endian::Little => spec_u16_to_le_bytes(x),
        Endian::Big => spec_u16_to_le_bytes(x).reverse(),
    }
}

/// `u16::from_ne_bytes`: the word whose bytes, in the byte order of the
/// hardware, are `b`.
#[verifier::external_body]
pub(crate) fn u16_from_native_bytes(b: [u8; 2]) -> (x: u16)
    ensures
        native_u16_bytes(x) == b@,
{
    u16::from_ne_bytes(b)
}

} // verus!
