//! Little-endian integers and fixed-size arrays read out of byte slices.

use vstd::prelude::*;
use vstd::slice::slice_subrange;
use zerocopy::byteorder::little_endian::{U16, U32, U64};
use zerocopy::FromBytes;

verus! {

/// The 16-bit little-endian integer stored in `s` at `at`.
pub open spec fn le_u16(s: Seq<u8>, at: int) -> int {
    s[at] as int + 0x100 * (s[at + 1] as int)
}

/// The 32-bit little-endian integer stored in `s` at `at`.
pub open spec fn le_u32(s: Seq<u8>, at: int) -> int {
    le_u16(s, at) + 0x1_0000 * le_u16(s, at + 2)
}

/// The 64-bit little-endian integer stored in `s` at `at`.
pub open spec fn le_u64(s: Seq<u8>, at: int) -> int {
    le_u32(s, at) + 0x1_0000_0000 * le_u32(s, at + 4)
}

/// Little-endian integers stay within the range of their width.
pub proof fn lemma_le_bounds(s: Seq<u8>, at: int)
    ensures
        0 <= le_u16(s, at) <= u16::MAX,
        0 <= le_u32(s, at) <= u32::MAX,
        0 <= le_u64(s, at) <= u64::MAX,
{
}

/// Trusted: `zerocopy::FromBytes::read_from_prefix` on a little-endian `U16`,
/// followed by `U16::get`. The call fails exactly when fewer than two bytes
/// are given; otherwise the value is that of the first two bytes, least
/// significant first.
#[verifier::external_body]
fn prefix_u16(bytes: &[u8]) -> (r: Option<u16>)
    ensures
        r == if bytes@.len() >= 2 {
            Some(le_u16(bytes@, 0) as u16)
        } else {
            None
        },
{
    match U16::read_from_prefix(bytes) {
        Ok((v, _)) => Some(v.get()),
        Err(_) => None,
    }
}

/// Trusted: `zerocopy::FromBytes::read_from_prefix` on a little-endian `U32`,
/// followed by `U32::get`. The call fails exactly when fewer than four bytes
/// are given; otherwise the value is that of the first four bytes, least
/// significant first.
#[verifier::external_body]
fn prefix_u32(bytes: &[u8]) -> (r: Option<u32>)
    ensures
        r == if bytes@.len() >= 4 {
            Some(le_u32(bytes@, 0) as u32)
        } else {
            None
        },
{
    match U32::read_from_prefix(bytes) {
        Ok((v, _)) => Some(v.get()),
        Err(_) => None,
    }
}

/// Trusted: `zerocopy::FromBytes::read_from_prefix` on a little-endian `U64`,
/// followed by `U64::get`. The call fails exactly when fewer than eight bytes
/// are given; otherwise the value is that of the first eight bytes, least
/// significant first.
#[verifier::external_body]
fn prefix_u64(bytes: &[u8]) -> (r: Option<u64>)
    ensures
        r == if bytes@.len() >= 8 {
            Some(le_u64(bytes@, 0) as u64)
        } else {
            None
        },
{
    match U64::read_from_prefix(bytes) {
        Ok((v, _)) => Some(v.get()),
        Err(_) => None,
    }
}

/// Trusted: `zerocopy::FromBytes::read_from_prefix` on `[u8; 4]`. The call
/// fails exactly when fewer than four bytes are given; otherwise the array
/// holds the first four bytes in order.
#[verifier::external_body]
fn prefix_array4(bytes: &[u8]) -> (r: Option<[u8; 4]>)
    ensures
        bytes@.len() >= 4 <==> r.is_some(),
        r.is_some() ==> r.unwrap()@ == bytes@.subrange(0, 4),
{
    match <[u8; 4]>::read_from_prefix(bytes) {
        Ok((v, _)) => Some(v),
        Err(_) => None,
    }
}

/// Trusted: `zerocopy::FromBytes::read_from_prefix` on `[u8; 32]`. The call
/// fails exactly when fewer than 32 bytes are given; otherwise the array
/// holds the first 32 bytes in order.
#[verifier::external_body]
fn prefix_array32(bytes: &[u8]) -> (r: Option<[u8; 32]>)
    ensures
        bytes@.len() >= 32 <==> r.is_some(),
        r.is_some() ==> r.unwrap()@ == bytes@.subrange(0, 32),
{
    match <[u8; 32]>::read_from_prefix(bytes) {
        Ok((v, _)) => Some(v),
        Err(_) => None,
    }
}

/// Reads the 16-bit little-endian integer at `at`.
pub fn read_u16(bytes: &[u8], at: usize) -> (r: u16)
    requires
        at + 2 <= bytes@.len(),
    ensures
        r == le_u16(bytes@, at as int),
{
    let rest = slice_subrange(bytes, at, bytes.len());
    proof {
        lemma_le_bounds(rest@, 0);
    }
    match prefix_u16(rest) {
        Some(v) => v,
        None => 0,
    }
}

/// Reads the 32-bit little-endian integer at `at`.
pub fn read_u32(bytes: &[u8], at: usize) -> (r: u32)
    requires
        at + 4 <= bytes@.len(),
    ensures
        r == le_u32(bytes@, at as int),
{
    let rest = slice_subrange(bytes, at, bytes.len());
    proof {
        lemma_le_bounds(rest@, 0);
    }
    match prefix_u32(rest) {
        Some(v) => v,
        None => 0,
    }
}

/// Reads the 64-bit little-endian integer at `at`.
pub fn read_u64(bytes: &[u8], at: usize) -> (r: u64)
    requires
        at + 8 <= bytes@.len(),
    ensures
        r == le_u64(bytes@, at as int),
{
    let rest = slice_subrange(bytes, at, bytes.len());
    proof {
        lemma_le_bounds(rest@, 0);
    }
    match prefix_u64(rest) {
        Some(v) => v,
        None => 0,
    }
}

/// Copies the four bytes at `at`.
pub fn read_array4(bytes: &[u8], at: usize) -> (r: [u8; 4])
    requires
        at + 4 <= bytes@.len(),
    ensures
        r@ == bytes@.subrange(at as int, at + 4),
{
    let rest = slice_subrange(bytes, at, bytes.len());
    match prefix_array4(rest) {
        Some(v) => {
            assert(v@ =~= bytes@.subrange(at as int, at + 4));
            v
        },
        None => [0u8; 4],
    }
}

/// Copies the 32 bytes at `at`.
pub fn read_array32(bytes: &[u8], at: usize) -> (r: [u8; 32])
    requires
        at + 32 <= bytes@.len(),
    ensures
        r@ == bytes@.subrange(at as int, at + 32),
{
    let rest = slice_subrange(bytes, at, bytes.len());
    match prefix_array32(rest) {
        Some(v) => {
            assert(v@ =~= bytes@.subrange(at as int, at + 32));
            v
        },
        None => [0u8; 32],
    }
}

} // verus!
