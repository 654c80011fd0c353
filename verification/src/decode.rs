//! Byte-order decoding of fixed-width integers.

use vstd::prelude::*;
use crate::error::Error;

verus! {

/// `256` to the power `n`: the number of values that `n` bytes can hold.
pub open spec fn pow256(n: nat) -> nat
    decreases n,
{
    if n == 0 {
        1
    } else {
        256 * pow256((n - 1) as nat)
    }
}

/// The number that `s` spells most-significant byte first.
pub open spec fn be_value(s: Seq<u8>) -> nat
    decreases s.len(),
{
    if s.len() == 0 {
        0
    } else {
        be_value(s.drop_last()) * 256 + s.last() as nat
    }
}

/// The number that `s` spells least-significant byte first.
pub open spec fn le_value(s: Seq<u8>) -> nat
    decreases s.len(),
{
    if s.len() == 0 {
        0
    } else {
        s[0] as nat + 256 * le_value(s.drop_first())
    }
}

/// The two's-complement reading of an unsigned `width`-byte number.
pub open spec fn signed_value(v: nat, width: nat) -> int {
    if 2 * v >= pow256(width) {
        v - pow256(width)
    } else {
        v as int
    }
}

/// A number read as one unsigned byte, or the refusal handed on.
pub open spec fn as_u8(m: Result<nat, Error>) -> Result<u8, Error> {
    match m {
        Ok(v) => Ok(v as u8),
        Err(e) => Err(e),
    }
}

/// Any number spelled by `s` fits in `s.len()` bytes.
pub proof fn lemma_be_value_bound(s: Seq<u8>)
    ensures
        be_value(s) < pow256(s.len()),
    decreases s.len(),
{
    if s.len() > 0 {
        lemma_be_value_bound(s.drop_last());
    }
}

/// Any number spelled by `s` fits in `s.len()` bytes.
pub proof fn lemma_le_value_bound(s: Seq<u8>)
    ensures
        le_value(s) < pow256(s.len()),
    decreases s.len(),
{
    if s.len() > 0 {
        lemma_le_value_bound(s.drop_first());
    }
}

/// `pow256` grows with its argument.
pub proof fn lemma_pow256_monotonic(a: nat, b: nat)
    requires
        a <= b,
    ensures
        pow256(a) <= pow256(b),
        pow256(a) >= 1,
    decreases b,
{
    if a < b {
        lemma_pow256_monotonic(a, (b - 1) as nat);
    } else if a > 0 {
        lemma_pow256_monotonic((a - 1) as nat, (a - 1) as nat);
    }
}

/// The values of `pow256` at the widths of the machine integers.
pub proof fn lemma_pow256_values()
    ensures
        pow256(0) == 1,
        pow256(1) == 0x100,
        pow256(2) == 0x1_0000,
        pow256(4) == 0x1_0000_0000,
        pow256(8) == 0x1_0000_0000_0000_0000,
        pow256(15) == 0x1_0000_0000_0000_0000_0000_0000_0000_00,
        pow256(16) == 0x1_0000_0000_0000_0000_0000_0000_0000_0000,
{
    reveal_with_fuel(pow256, 17);
}

/// Decodes up to sixteen bytes, most-significant byte first.
pub fn decode_be(bytes: &[u8]) -> (v: u128)
    requires
        bytes@.len() <= 16,
    ensures
        v == be_value(bytes@),
{
    let n: usize = bytes.len();
    let mut acc: u128 = 0;
    let mut i: usize = 0;
    while i < n
        invariant
            n == bytes@.len(),
            n <= 16,
            i <= n,
            acc == be_value(bytes@.take(i as int)),
        decreases n - i,
    {
        proof {
            let t = bytes@.take(i as int);
            let t1 = bytes@.take(i + 1);
            assert(t1.drop_last() =~= t);
            assert(t1.last() == bytes@[i as int]);
            lemma_be_value_bound(t);
            lemma_pow256_monotonic(t.len(), 15);
            lemma_pow256_values();
        }
        acc = acc * 256 + bytes[i] as u128;
        i = i + 1;
    }
    proof {
        assert(bytes@.take(n as int) =~= bytes@);
    }
    acc
}

/// Decodes up to sixteen bytes, least-significant byte first.
pub fn decode_le(bytes: &[u8]) -> (v: u128)
    requires
        bytes@.len() <= 16,
    ensures
        v == le_value(bytes@),
{
    let n: usize = bytes.len();
    let mut acc: u128 = 0;
    let mut i: usize = n;
    while i > 0
        invariant
            n == bytes@.len(),
            n <= 16,
            i <= n,
            acc == le_value(bytes@.skip(i as int)),
        decreases i,
    {
        proof {
            let t = bytes@.skip(i as int);
            let t1 = bytes@.skip(i - 1);
            assert(t1.drop_first() =~= t);
            assert(t1[0] == bytes@[i - 1]);
            lemma_le_value_bound(t);
            lemma_pow256_monotonic(t.len(), 15);
            lemma_pow256_values();
        }
        i = i - 1;
        acc = acc * 256 + bytes[i] as u128;
    }
    proof {
        assert(bytes@.skip(0) =~= bytes@);
    }
    acc
}

/// A number read as a two's-complement `i8`, or the refusal handed on.
pub open spec fn as_i8(m: Result<nat, Error>) -> Result<i8, Error> {
    match m {
        Ok(v) => Ok(signed_value(v, 1) as i8),
        Err(e) => Err(e),
    }
}

/// The two's-complement reading of `v`.
pub fn to_i8(v: u8) -> (r: i8)
    ensures
        r == signed_value(v as nat, 1),
{
    proof {
        lemma_pow256_values();
    }
    if v < 0x80 {
        v as i8
    } else {
        (v - 0x80) as i8 + i8::MIN
    }
}

/// A number read as a `u16`, or the refusal handed on.
pub open spec fn as_u16(m: Result<nat, Error>) -> Result<u16, Error> {
    match m {
        Ok(v) => Ok(v as u16),
        Err(e) => Err(e),
    }
}

/// A number read as a two's-complement `i16`, or the refusal handed on.
pub open spec fn as_i16(m: Result<nat, Error>) -> Result<i16, Error> {
    match m {
        Ok(v) => Ok(signed_value(v, 2) as i16),
        Err(e) => Err(e),
    }
}

/// The two's-complement reading of `v`.
pub fn to_i16(v: u16) -> (r: i16)
    ensures
        r == signed_value(v as nat, 2),
{
    proof {
        lemma_pow256_values();
    }
    if v < 0x8000 {
        v as i16
    } else {
        (v - 0x8000) as i16 + i16::MIN
    }
}

/// A number read as a `u32`, or the refusal handed on.
pub open spec fn as_u32(m: Result<nat, Error>) -> Result<u32, Error> {
    match m {
        Ok(v) => Ok(v as u32),
        Err(e) => Err(e),
    }
}

/// A number read as a two's-complement `i32`, or the refusal handed on.
pub open spec fn as_i32(m: Result<nat, Error>) -> Result<i32, Error> {
    match m {
        Ok(v) => Ok(signed_value(v, 4) as i32),
        Err(e) => Err(e),
    }
}

/// The two's-complement reading of `v`.
pub fn to_i32(v: u32) -> (r: i32)
    ensures
        r == signed_value(v as nat, 4),
{
    proof {
        lemma_pow256_values();
    }
    if v < 0x80000000 {
        v as i32
    } else {
        (v - 0x80000000) as i32 + i32::MIN
    }
}

/// A number read as a `u64`, or the refusal handed on.
pub open spec fn as_u64(m: Result<nat, Error>) -> Result<u64, Error> {
    match m {
        Ok(v) => Ok(v as u64),
        Err(e) => Err(e),
    }
}

/// A number read as a two's-complement `i64`, or the refusal handed on.
pub open spec fn as_i64(m: Result<nat, Error>) -> Result<i64, Error> {
    match m {
        Ok(v) => Ok(signed_value(v, 8) as i64),
        Err(e) => Err(e),
    }
}

/// The two's-complement reading of `v`.
pub fn to_i64(v: u64) -> (r: i64)
    ensures
        r == signed_value(v as nat, 8),
{
    proof {
        lemma_pow256_values();
    }
    if v < 0x8000000000000000 {
        v as i64
    } else {
        (v - 0x8000000000000000) as i64 + i64::MIN
    }
}

/// A number read as a `u128`, or the refusal handed on.
pub open spec fn as_u128(m: Result<nat, Error>) -> Result<u128, Error> {
    match m {
        Ok(v) => Ok(v as u128),
        Err(e) => Err(e),
    }
}

/// A number read as a two's-complement `i128`, or the refusal handed on.
pub open spec fn as_i128(m: Result<nat, Error>) -> Result<i128, Error> {
    match m {
        Ok(v) => Ok(signed_value(v, 16) as i128),
        Err(e) => Err(e),
    }
}

/// The two's-complement reading of `v`.
pub fn to_i128(v: u128) -> (r: i128)
    ensures
        r == signed_value(v as nat, 16),
{
    proof {
        lemma_pow256_values();
    }
    if v < 0x80000000000000000000000000000000 {
        v as i128
    } else {
        (v - 0x80000000000000000000000000000000) as i128 + i128::MIN
    }
}

} // verus!
