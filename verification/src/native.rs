//! Native byte order.
//!
//! The command buffers and export buffers shared with the JVM hold numbers
//! in the byte order of the machine. `vstd::endian::endianness()` stands for
//! that order; the helpers here read and write numbers in it.

use vstd::prelude::*;
use vstd::endian::{endianness, Endian};

verus! {

/// Value of two bytes, least significant first.
pub open spec fn le2(b: Seq<u8>) -> int {
    b[0] + b[1] * 0x100
}

/// Value of four bytes, least significant first.
pub open spec fn le4(b: Seq<u8>) -> int {
    b[0] + b[1] * 0x100 + b[2] * 0x1_0000 + b[3] * 0x100_0000
}

/// Value of eight bytes, least significant first.
pub open spec fn le8(b: Seq<u8>) -> int {
    le4(b.subrange(0, 4)) + le4(b.subrange(4, 8)) * 0x1_0000_0000
}

/// Value of two bytes in native byte order.
pub open spec fn native2(b: Seq<u8>) -> int {
    match endianness() {
        Endian::Little => le2(b),
        Endian::Big => le2(b.reverse()),
    }
}

/// Value of four bytes in native byte order.
pub open spec fn native4(b: Seq<u8>) -> int {
    match endianness() {
        Endian::Little => le4(b),
        Endian::Big => le4(b.reverse()),
    }
}

/// Value of eight bytes in native byte order.
pub open spec fn native8(b: Seq<u8>) -> int {
    match endianness() {
        Endian::Little => le8(b),
        Endian::Big => le8(b.reverse()),
    }
}

/// Two's-complement reading of a 16-bit word.
pub open spec fn signed16(u: int) -> int {
    if u < 0x8000 { u } else { u - 0x1_0000 }
}

/// Two's-complement reading of a 32-bit word.
pub open spec fn signed32(u: int) -> int {
    if u < 0x8000_0000 { u } else { u - 0x1_0000_0000 }
}

/// Reads an `i16` stored in native byte order.
///
/// Calls `i16::from_ne_bytes`, which std documents as reading the integer
/// from its memory representation in native byte order; the contract says
/// that the result is the two's-complement value of the bytes in that order.
#[verifier::external_body]
pub(crate) fn i16_from_native(b: [u8; 2]) -> (r: i16)
    ensures
        r == signed16(native2(b@)),
{
    i16::from_ne_bytes(b)
}

/// Reads an `i32` stored in native byte order.
///
/// Calls `i32::from_ne_bytes`; the contract says that the result is the
/// two's-complement value of the bytes in native order.
#[verifier::external_body]
pub(crate) fn i32_from_native(b: [u8; 4]) -> (r: i32)
    ensures
        r == signed32(native4(b@)),
{
    i32::from_ne_bytes(b)
}

/// Reads a `u64` stored in native byte order.
///
/// Calls `u64::from_ne_bytes`; the contract says that the result is the
/// value of the bytes in native order.
#[verifier::external_body]
pub(crate) fn u64_from_native(b: [u8; 8]) -> (r: u64)
    ensures
        r == native8(b@),
{
    u64::from_ne_bytes(b)
}

/// Writes an `i32` in native byte order.
///
/// Calls `i32::to_ne_bytes`, which std documents as the memory
/// representation of the integer in native byte order; the contract says
/// that reading the bytes back in that order gives the value.
#[verifier::external_body]
pub(crate) fn i32_to_native(x: i32) -> (b: [u8; 4])
    ensures
        signed32(native4(b@)) == x,
{
    x.to_ne_bytes()
}

/// Writes a `u64` in native byte order.
///
/// Calls `u64::to_ne_bytes`; the contract says that reading the bytes back
/// in native order gives the value.
#[verifier::external_body]
pub(crate) fn u64_to_native(x: u64) -> (b: [u8; 8])
    ensures
        native8(b@) == x,
{
    x.to_ne_bytes()
}

} // verus!
