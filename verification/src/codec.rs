//! Big-endian integer encodings and the byte-level reading and writing primitives
//! that every structure of the format is built from.

use vstd::arithmetic::power::pow;
use vstd::prelude::*;

verus! {

/// The ways in which reading or writing a structure can fail.
#[derive(Debug, Clone, Copy, PartialEq, Eq, Structural)]
pub enum IsoError {
    /// The input ended before the structure was complete.
    UnexpectedEof,
    /// The input (or the value to be written) breaks a rule of the format.
    InvalidData,
}

/// The result of a parser in the model: the value and the number of bytes it consumed.
pub type SpecParse<T> = Result<(T, int), IsoError>;

// ---------------------------------------------------------------------------
// Decoding: the value of the big-endian bytes that start at offset `i`.
// ---------------------------------------------------------------------------

pub open spec fn be_u16_at(s: Seq<u8>, i: int) -> u16 {
    (s[i] * 0x100 + s[i + 1]) as u16
}

pub open spec fn be_u24_at(s: Seq<u8>, i: int) -> u32 {
    (s[i] * 0x10000 + s[i + 1] * 0x100 + s[i + 2]) as u32
}

pub open spec fn be_u32_at(s: Seq<u8>, i: int) -> u32 {
    (s[i] * 0x1000000 + s[i + 1] * 0x10000 + s[i + 2] * 0x100 + s[i + 3]) as u32
}

#[verifier::opaque]
pub open spec fn be_u64_at(s: Seq<u8>, i: int) -> u64 {
    (be_u32_at(s, i) * 0x1_0000_0000 + be_u32_at(s, i + 4)) as u64
}

/// Two's complement reading of a 16-bit pattern.
pub open spec fn i16_of(u: u16) -> i16 {
    if u >= 0x8000 { (u - 0x10000) as i16 } else { u as i16 }
}

/// Two's complement reading of a 32-bit pattern.
pub open spec fn i32_of(u: u32) -> i32 {
    if u >= 0x8000_0000 { (u - 0x1_0000_0000) as i32 } else { u as i32 }
}

/// Two's complement reading of a 64-bit pattern.
pub open spec fn i64_of(u: u64) -> i64 {
    if u >= 0x8000_0000_0000_0000 { (u - 0x1_0000_0000_0000_0000) as i64 } else { u as i64 }
}

// ---------------------------------------------------------------------------
// Encoding: the big-endian bytes of a value.
// ---------------------------------------------------------------------------

pub open spec fn u16_bytes(v: u16) -> Seq<u8> {
    seq![(v / 0x100) as u8, (v % 0x100) as u8]
}

pub open spec fn u24_bytes(v: u32) -> Seq<u8> {
    seq![(v / 0x10000 % 0x100) as u8, (v / 0x100 % 0x100) as u8, (v % 0x100) as u8]
}

pub open spec fn u32_bytes(v: u32) -> Seq<u8> {
    seq![(v / 0x1000000) as u8, (v / 0x10000 % 0x100) as u8, (v / 0x100 % 0x100) as u8, (v % 0x100) as u8]
}

#[verifier::opaque]
pub open spec fn u64_bytes(v: u64) -> Seq<u8> {
    u32_bytes((v / 0x1_0000_0000) as u32) + u32_bytes((v % 0x1_0000_0000) as u32)
}

/// The 16-bit pattern of a signed value.
pub open spec fn u16_of(v: i16) -> u16 {
    if v < 0 { (v + 0x10000) as u16 } else { v as u16 }
}

pub open spec fn u32_of(v: i32) -> u32 {
    if v < 0 { (v + 0x1_0000_0000) as u32 } else { v as u32 }
}

pub open spec fn u64_of(v: i64) -> u64 {
    if v < 0 { (v + 0x1_0000_0000_0000_0000) as u64 } else { v as u64 }
}

// ---------------------------------------------------------------------------
// Round trips of the encodings.
// ---------------------------------------------------------------------------

pub proof fn lemma_u16_roundtrip(v: u16, rest: Seq<u8>)
    ensures
        (u16_bytes(v) + rest).len() == 2 + rest.len(),
        be_u16_at(u16_bytes(v) + rest, 0) == v,
        (u16_bytes(v) + rest).skip(2) == rest,
{
    assert((u16_bytes(v) + rest).skip(2) =~= rest);
}

pub proof fn lemma_u24_roundtrip(v: u32, rest: Seq<u8>)
    requires
        v < 0x100_0000,
    ensures
        (u24_bytes(v) + rest).len() == 3 + rest.len(),
        be_u24_at(u24_bytes(v) + rest, 0) == v,
        (u24_bytes(v) + rest).skip(3) == rest,
{
    assert((u24_bytes(v) + rest).skip(3) =~= rest);
}

pub proof fn lemma_u32_roundtrip(v: u32, rest: Seq<u8>)
    ensures
        (u32_bytes(v) + rest).len() == 4 + rest.len(),
        be_u32_at(u32_bytes(v) + rest, 0) == v,
        (u32_bytes(v) + rest).skip(4) == rest,
{
    assert((u32_bytes(v) + rest).skip(4) =~= rest);
}

pub proof fn lemma_u64_roundtrip(v: u64, rest: Seq<u8>)
    ensures
        (u64_bytes(v) + rest).len() == 8 + rest.len(),
        be_u64_at(u64_bytes(v) + rest, 0) == v,
        (u64_bytes(v) + rest).skip(8) == rest,
{
    reveal(u64_bytes);
    reveal(be_u64_at);
    let hi = (v / 0x1_0000_0000) as u32;
    let lo = (v % 0x1_0000_0000) as u32;
    let s = u64_bytes(v) + rest;
    assert(s =~= u32_bytes(hi) + (u32_bytes(lo) + rest));
    lemma_u32_roundtrip(hi, u32_bytes(lo) + rest);
    lemma_u32_roundtrip(lo, rest);
    assert((u32_bytes(lo) + rest) =~= s.skip(4));
    assert(be_u32_at(s, 4) == be_u32_at(s.skip(4), 0));
    assert(s.skip(8) =~= rest);
}

pub proof fn lemma_i16_roundtrip(v: i16)
    ensures
        i16_of(u16_of(v)) == v,
{
}

pub proof fn lemma_i32_roundtrip(v: i32)
    ensures
        i32_of(u32_of(v)) == v,
{
}

pub proof fn lemma_i64_roundtrip(v: i64)
    ensures
        i64_of(u64_of(v)) == v,
{
}

// ---------------------------------------------------------------------------
// Reading at a position of a byte slice.
// ---------------------------------------------------------------------------

pub fn read_u16_at(data: &[u8], pos: usize) -> (v: u16)
    requires
        pos + 2 <= data@.len(),
    ensures
        v == be_u16_at(data@, pos as int),
{
    (data[pos] as u16) * 0x100 + data[pos + 1] as u16
}

pub fn read_u24_at(data: &[u8], pos: usize) -> (v: u32)
    requires
        pos + 3 <= data@.len(),
    ensures
        v == be_u24_at(data@, pos as int),
        v < 0x100_0000,
{
    (data[pos] as u32) * 0x10000 + (data[pos + 1] as u32) * 0x100 + data[pos + 2] as u32
}

pub fn read_u32_at(data: &[u8], pos: usize) -> (v: u32)
    requires
        pos + 4 <= data@.len(),
    ensures
        v == be_u32_at(data@, pos as int),
{
    (data[pos] as u32) * 0x1000000 + (data[pos + 1] as u32) * 0x10000 + (data[pos + 2] as u32)
        * 0x100 + data[pos + 3] as u32
}

pub fn read_u64_at(data: &[u8], pos: usize) -> (v: u64)
    requires
        pos + 8 <= data@.len(),
    ensures
        v == be_u64_at(data@, pos as int),
{
    reveal(be_u64_at);
    assert(data@.len() == data.len());
    let hi = read_u32_at(data, pos) as u64;
    let lo = read_u32_at(data, pos + 4) as u64;
    hi * 0x1_0000_0000 + lo
}

pub fn to_i16(u: u16) -> (v: i16)
    ensures
        v == i16_of(u),
{
    if u >= 0x8000 {
        ((u - 0x8000) as i16) + i16::MIN
    } else {
        u as i16
    }
}

pub fn to_i32(u: u32) -> (v: i32)
    ensures
        v == i32_of(u),
{
    if u >= 0x8000_0000 {
        ((u - 0x8000_0000) as i32) + i32::MIN
    } else {
        u as i32
    }
}

pub fn to_i64(u: u64) -> (v: i64)
    ensures
        v == i64_of(u),
{
    if u >= 0x8000_0000_0000_0000 {
        ((u - 0x8000_0000_0000_0000) as i64) + i64::MIN
    } else {
        u as i64
    }
}

pub fn from_i16(v: i16) -> (u: u16)
    ensures
        u == u16_of(v),
{
    if v < 0 {
        ((v - i16::MIN) as u16) + 0x8000
    } else {
        v as u16
    }
}

pub fn from_i32(v: i32) -> (u: u32)
    ensures
        u == u32_of(v),
{
    if v < 0 {
        ((v - i32::MIN) as u32) + 0x8000_0000
    } else {
        v as u32
    }
}

pub fn from_i64(v: i64) -> (u: u64)
    ensures
        u == u64_of(v),
{
    if v < 0 {
        ((v - i64::MIN) as u64) + 0x8000_0000_0000_0000
    } else {
        v as u64
    }
}

// ---------------------------------------------------------------------------
// Writing at the end of an output buffer.
// ---------------------------------------------------------------------------

pub fn write_u8(out: &mut Vec<u8>, v: u8)
    ensures
        final(out)@ == old(out)@ + seq![v],
{
    out.push(v);
}

pub fn write_u16(out: &mut Vec<u8>, v: u16)
    ensures
        final(out)@ == old(out)@ + u16_bytes(v),
{
    out.push((v / 0x100) as u8);
    out.push((v % 0x100) as u8);
}

pub fn write_u24(out: &mut Vec<u8>, v: u32)
    ensures
        final(out)@ == old(out)@ + u24_bytes(v),
{
    out.push((v / 0x10000 % 0x100) as u8);
    out.push((v / 0x100 % 0x100) as u8);
    out.push((v % 0x100) as u8);
}

pub fn write_u32(out: &mut Vec<u8>, v: u32)
    ensures
        final(out)@ == old(out)@ + u32_bytes(v),
{
    out.push((v / 0x1000000) as u8);
    out.push((v / 0x10000 % 0x100) as u8);
    out.push((v / 0x100 % 0x100) as u8);
    out.push((v % 0x100) as u8);
}

pub fn write_u64(out: &mut Vec<u8>, v: u64)
    ensures
        final(out)@ == old(out)@ + u64_bytes(v),
{
    reveal(u64_bytes);
    write_u32(out, (v / 0x1_0000_0000) as u32);
    write_u32(out, (v % 0x1_0000_0000) as u32);
    assert(final(out)@ =~= old(out)@ + u64_bytes(v));
}

pub open spec fn fourcc_at(s: Seq<u8>, i: int) -> [u8; 4] {
    [s[i], s[i + 1], s[i + 2], s[i + 3]]
}

pub fn read_fourcc_at(data: &[u8], pos: usize) -> (v: [u8; 4])
    requires
        pos + 4 <= data@.len(),
    ensures
        v == fourcc_at(data@, pos as int),
        v@ == data@.subrange(pos as int, pos + 4),
{
    let r = [data[pos], data[pos + 1], data[pos + 2], data[pos + 3]];
    assert(r@ =~= data@.subrange(pos as int, pos + 4));
    r
}

/// Whether two four-character codes are equal.
pub fn fourcc_eq(a: [u8; 4], b: [u8; 4]) -> (r: bool)
    ensures
        r == (a == b),
{
    proof {
        broadcast use vstd::array::group_array_axioms;
        if a[0] == b[0] && a[1] == b[1] && a[2] == b[2] && a[3] == b[3] {
            assert(a =~= b);
        }
    }
    a[0] == b[0] && a[1] == b[1] && a[2] == b[2] && a[3] == b[3]
}


pub proof fn lemma_fourcc_roundtrip(a: [u8; 4], rest: Seq<u8>)
    ensures
        (a@ + rest).len() == 4 + rest.len(),
        fourcc_at(a@ + rest, 0) == a,
        (a@ + rest).skip(4) == rest,
{
    broadcast use vstd::array::group_array_axioms;
    assert(fourcc_at(a@ + rest, 0) =~= a);
    assert((a@ + rest).skip(4) =~= rest);
}

pub fn write_fourcc(out: &mut Vec<u8>, v: [u8; 4])
    ensures
        final(out)@ == old(out)@ + v@,
{
    out.push(v[0]);
    out.push(v[1]);
    out.push(v[2]);
    out.push(v[3]);
    assert(final(out)@ =~= old(out)@ + v@);
}

/// Appending keeps what was there as a prefix.
pub proof fn lemma_append_prefix(before: Seq<u8>, bytes: Seq<u8>)
    ensures
        (before + bytes).len() == before.len() + bytes.len(),
        (before + bytes).subrange(0, before.len() as int) == before,
{
    assert((before + bytes).subrange(0, before.len() as int) =~= before);
}

/// A prefix of a prefix is a prefix.
pub proof fn lemma_prefix_trans(a: Seq<u8>, b: Seq<u8>, c: Seq<u8>)
    requires
        a.len() <= b.len() <= c.len(),
        b.subrange(0, a.len() as int) == a,
        c.subrange(0, b.len() as int) == b,
    ensures
        c.subrange(0, a.len() as int) == a,
{
    assert forall|k: int| 0 <= k < a.len() implies c.subrange(0, a.len() as int)[k] == a[k] by {
        assert(c.subrange(0, b.len() as int)[k] == b[k]);
        assert(b.subrange(0, a.len() as int)[k] == a[k]);
    }
    assert(c.subrange(0, a.len() as int) =~= a);
}

#[verifier::opaque]
pub open spec fn be_u128_at(s: Seq<u8>, i: int) -> u128 {
    (be_u64_at(s, i) * 0x1_0000_0000_0000_0000 + be_u64_at(s, i + 8)) as u128
}

#[verifier::opaque]
pub open spec fn u128_bytes(v: u128) -> Seq<u8> {
    u64_bytes((v / 0x1_0000_0000_0000_0000) as u64) + u64_bytes(
        (v % 0x1_0000_0000_0000_0000) as u64,
    )
}

pub proof fn lemma_u128_roundtrip(v: u128, rest: Seq<u8>)
    ensures
        (u128_bytes(v) + rest).len() == 16 + rest.len(),
        be_u128_at(u128_bytes(v) + rest, 0) == v,
        (u128_bytes(v) + rest).skip(16) == rest,
{
    reveal(u128_bytes);
    reveal(be_u128_at);
    let hi = (v / 0x1_0000_0000_0000_0000) as u64;
    let lo = (v % 0x1_0000_0000_0000_0000) as u64;
    let s = u128_bytes(v) + rest;
    assert(s =~= u64_bytes(hi) + (u64_bytes(lo) + rest));
    lemma_u64_roundtrip(hi, u64_bytes(lo) + rest);
    lemma_u64_roundtrip(lo, rest);
    assert((u64_bytes(lo) + rest) =~= s.skip(8));
    reveal(be_u64_at);
    assert(be_u64_at(s, 8) == be_u64_at(s.skip(8), 0));
    assert(s.skip(16) =~= rest);
}

pub fn read_u128_at(data: &[u8], pos: usize) -> (v: u128)
    requires
        pos + 16 <= data@.len(),
    ensures
        v == be_u128_at(data@, pos as int),
{
    reveal(be_u128_at);
    assert(data@.len() == data.len());
    let hi = read_u64_at(data, pos) as u128;
    let lo = read_u64_at(data, pos + 8) as u128;
    hi * 0x1_0000_0000_0000_0000 + lo
}

pub fn write_u128(out: &mut Vec<u8>, v: u128)
    ensures
        final(out)@ == old(out)@ + u128_bytes(v),
{
    reveal(u128_bytes);
    write_u64(out, (v / 0x1_0000_0000_0000_0000) as u64);
    write_u64(out, (v % 0x1_0000_0000_0000_0000) as u64);
    assert(final(out)@ =~= old(out)@ + u128_bytes(v));
}

pub proof fn lemma_wide_bytes_len(a: u64, b: u128)
    ensures
        u64_bytes(a).len() == 8,
        u128_bytes(b).len() == 16,
{
    reveal(u64_bytes);
    reveal(u128_bytes);
}

/// The wide readings look only at the bytes they cover.
pub proof fn lemma_wide_shift(s: Seq<u8>, p: int, i: int)
    requires
        0 <= p <= s.len(),
        0 <= i,
    ensures
        p + i + 8 <= s.len() ==> be_u64_at(s.skip(p), i) == be_u64_at(s, p + i),
        p + i + 16 <= s.len() ==> be_u128_at(s.skip(p), i) == be_u128_at(s, p + i),
{
    reveal(be_u64_at);
    reveal(be_u128_at);
}

// ---------------------------------------------------------------------------
// Reading back an encoding found inside a longer sequence.
// ---------------------------------------------------------------------------

pub proof fn lemma_u16_at(s: Seq<u8>, i: int, v: u16)
    requires
        0 <= i,
        i + 2 <= s.len(),
        s.subrange(i, i + 2) == u16_bytes(v),
    ensures
        be_u16_at(s, i) == v,
{
    lemma_u16_roundtrip(v, Seq::empty());
    assert(s.subrange(i, i + 2)[0] == s[i]);
    assert(s.subrange(i, i + 2)[1] == s[i + 1]);
    assert((u16_bytes(v) + Seq::<u8>::empty()) =~= u16_bytes(v));
}

pub proof fn lemma_u24_at(s: Seq<u8>, i: int, v: u32)
    requires
        0 <= i,
        i + 3 <= s.len(),
        v < 0x100_0000,
        s.subrange(i, i + 3) == u24_bytes(v),
    ensures
        be_u24_at(s, i) == v,
{
    lemma_u24_roundtrip(v, Seq::empty());
    assert(s.subrange(i, i + 3)[0] == s[i]);
    assert(s.subrange(i, i + 3)[1] == s[i + 1]);
    assert(s.subrange(i, i + 3)[2] == s[i + 2]);
    assert((u24_bytes(v) + Seq::<u8>::empty()) =~= u24_bytes(v));
}

pub proof fn lemma_u32_at(s: Seq<u8>, i: int, v: u32)
    requires
        0 <= i,
        i + 4 <= s.len(),
        s.subrange(i, i + 4) == u32_bytes(v),
    ensures
        be_u32_at(s, i) == v,
{
    lemma_u32_roundtrip(v, Seq::empty());
    assert(s.subrange(i, i + 4)[0] == s[i]);
    assert(s.subrange(i, i + 4)[1] == s[i + 1]);
    assert(s.subrange(i, i + 4)[2] == s[i + 2]);
    assert(s.subrange(i, i + 4)[3] == s[i + 3]);
    assert((u32_bytes(v) + Seq::<u8>::empty()) =~= u32_bytes(v));
}

pub proof fn lemma_u64_at(s: Seq<u8>, i: int, v: u64)
    requires
        0 <= i,
        i + 8 <= s.len(),
        s.subrange(i, i + 8) == u64_bytes(v),
    ensures
        be_u64_at(s, i) == v,
{
    lemma_u64_roundtrip(v, Seq::empty());
    assert((u64_bytes(v) + Seq::<u8>::empty()) =~= u64_bytes(v));
    assert(s.skip(i).subrange(0, 8) =~= s.subrange(i, i + 8));
    reveal(be_u64_at);
    assert forall|k: int| 0 <= k < 8 implies s[i + k] == u64_bytes(v)[k] by {
        assert(s.subrange(i, i + 8)[k] == s[i + k]);
    }
}

pub proof fn lemma_fourcc_at(s: Seq<u8>, i: int, a: [u8; 4])
    requires
        0 <= i,
        i + 4 <= s.len(),
        s.subrange(i, i + 4) == a@,
    ensures
        fourcc_at(s, i) == a,
{
    broadcast use vstd::array::group_array_axioms;
    assert(s.subrange(i, i + 4)[0] == s[i]);
    assert(s.subrange(i, i + 4)[1] == s[i + 1]);
    assert(s.subrange(i, i + 4)[2] == s[i + 2]);
    assert(s.subrange(i, i + 4)[3] == s[i + 3]);
    assert(fourcc_at(s, i) =~= a);
}

/// `2^e` for exponents up to 32.
pub fn pow2_u64(e: u8) -> (r: u64)
    requires
        e <= 32,
    ensures
        r == vstd::arithmetic::power2::pow2(e as nat),
        0 < r <= 0x1_0000_0000,
{
    let mut r: u64 = 1;
    let mut i: u8 = 0;
    proof {
        vstd::arithmetic::power2::lemma2_to64();
    }
    while i < e
        invariant
            i <= e <= 32,
            r == vstd::arithmetic::power2::pow2(i as nat),
            r <= vstd::arithmetic::power2::pow2(32),
        decreases e - i,
    {
        proof {
            vstd::arithmetic::power2::lemma_pow2_unfold((i + 1) as nat);
            if i + 1 < 32 {
                vstd::arithmetic::power2::lemma_pow2_strictly_increases((i + 1) as nat, 32);
            }
            vstd::arithmetic::power2::lemma2_to64();
        }
        r = r * 2;
        i = i + 1;
    }
    proof {
        vstd::arithmetic::power2::lemma2_to64();
        vstd::arithmetic::power2::lemma_pow2_pos(e as nat);
    }
    r
}

// ---------------------------------------------------------------------------
// Unsigned numbers of a variable number of bytes.
// ---------------------------------------------------------------------------

/// The unsigned number whose big-endian bytes are `s`.
pub open spec fn be_uint(s: Seq<u8>) -> nat
    decreases s.len(),
{
    if s.len() == 0 {
        0
    } else {
        be_uint(s.drop_last()) * 256 + s.last() as nat
    }
}

/// The `n` low bytes of `v`, big-endian.
pub open spec fn uint_bytes_n(v: u64, n: nat) -> Seq<u8>
    decreases n,
{
    if n == 0 {
        Seq::empty()
    } else {
        uint_bytes_n(v / 256, (n - 1) as nat).push((v % 256) as u8)
    }
}

pub proof fn lemma_be_uint_bound(s: Seq<u8>)
    ensures
        be_uint(s) < pow(256, s.len()),
    decreases s.len(),
{
    reveal(pow);
    if s.len() > 0 {
        lemma_be_uint_bound(s.drop_last());
        let p = pow(256, (s.len() - 1) as nat);
        assert(pow(256, s.len()) == 256 * p);
        assert(be_uint(s.drop_last()) * 256 + s.last() < 256 * p) by (nonlinear_arith)
            requires
                be_uint(s.drop_last()) < p,
                s.last() < 256,
        ;
    }
}

/// The `n` low bytes of `v` read back give `v` modulo `256^n`.
pub proof fn lemma_uint_bytes_n(v: u64, n: nat)
    ensures
        uint_bytes_n(v, n).len() == n,
        be_uint(uint_bytes_n(v, n)) == (v as int) % pow(256, n),
    decreases n,
{
    reveal(pow);
    if n == 0 {
        assert(v % 1 == 0);
    } else {
        lemma_uint_bytes_n(v / 256, (n - 1) as nat);
        let b = uint_bytes_n(v, n);
        assert(b.drop_last() =~= uint_bytes_n(v / 256, (n - 1) as nat));
        let p = pow(256, (n - 1) as nat);
        vstd::arithmetic::power::lemma_pow_positive(256, (n - 1) as nat);
        vstd::arithmetic::div_mod::lemma_breakdown(v as int, 256, p);
        assert(pow(256, n) == 256 * p);
        let q = ((v / 256) as int) % p;
        assert(be_uint(b) == be_uint(b.drop_last()) * 256 + b.last() as nat);
        assert(b.last() == (v % 256) as u8);
        assert(q * 256 == 256 * q) by (nonlinear_arith);
    }
}

/// The big-endian number of at most 8 bytes.
pub fn pad_to_u64(bytes: &[u8]) -> (v: u64)
    requires
        bytes@.len() <= 8,
    ensures
        v == be_uint(bytes@),
{
    let mut acc: u64 = 0;
    let mut i: usize = 0;
    while i < bytes.len()
        invariant
            i <= bytes@.len() <= 8,
            acc == be_uint(bytes@.take(i as int)),
        decreases bytes@.len() - i,
    {
        proof {
            assert(bytes@.take(i + 1).drop_last() =~= bytes@.take(i as int));
            lemma_be_uint_bound(bytes@.take(i as int));
            vstd::arithmetic::power::lemma_pow_increases(256, i as nat, 7);
            assert(pow(256, 7) == 0x100_0000_0000_0000) by {
                reveal_with_fuel(pow, 8);
            }
        }
        acc = acc * 256 + bytes[i] as u64;
        i = i + 1;
    }
    proof {
        assert(bytes@.take(i as int) =~= bytes@);
    }
    acc
}

/// Writes the `n` low bytes of `v`, big-endian.
pub fn write_uint_n(out: &mut Vec<u8>, v: u64, n: u8)
    ensures
        final(out)@ == old(out)@ + uint_bytes_n(v, n as nat),
    decreases n,
{
    if n == 0 {
        assert(out@ =~= out@ + Seq::<u8>::empty());
    } else {
        let ghost before = out@;
        write_uint_n(out, v / 256, n - 1);
        out.push((v % 256) as u8);
        assert(out@ =~= before + uint_bytes_n(v, n as nat));
    }
}


/// The 6 bytes at offset `i`, as an array.
pub open spec fn bytes6_at(s: Seq<u8>, i: int) -> [u8; 6] {
    [s[i], s[i + 1], s[i + 2], s[i + 3], s[i + 4], s[i + 5]]
}

pub fn read_bytes6_at(data: &[u8], pos: usize) -> (v: [u8; 6])
    requires
        pos + 6 <= data@.len(),
    ensures
        v == bytes6_at(data@, pos as int),
{
    [data[pos], data[pos + 1], data[pos + 2], data[pos + 3], data[pos + 4], data[pos + 5]]
}

pub proof fn lemma_bytes6_at(s: Seq<u8>, i: int, a: [u8; 6])
    requires
        0 <= i,
        i + 6 <= s.len(),
        s.subrange(i, i + 6) == a@,
    ensures
        bytes6_at(s, i) == a,
{
    broadcast use vstd::array::group_array_axioms;
    assert(s.subrange(i, i + 6)[0] == s[i + 0]);
    assert(s.subrange(i, i + 6)[1] == s[i + 1]);
    assert(s.subrange(i, i + 6)[2] == s[i + 2]);
    assert(s.subrange(i, i + 6)[3] == s[i + 3]);
    assert(s.subrange(i, i + 6)[4] == s[i + 4]);
    assert(s.subrange(i, i + 6)[5] == s[i + 5]);
    assert(bytes6_at(s, i) =~= a);
}

/// The 32 bytes at offset `i`, as an array.
pub open spec fn bytes32_at(s: Seq<u8>, i: int) -> [u8; 32] {
    [s[i], s[i + 1], s[i + 2], s[i + 3], s[i + 4], s[i + 5], s[i + 6], s[i + 7], s[i + 8], s[i + 9], s[i + 10], s[i + 11], s[i + 12], s[i + 13], s[i + 14], s[i + 15], s[i + 16], s[i + 17], s[i + 18], s[i + 19], s[i + 20], s[i + 21], s[i + 22], s[i + 23], s[i + 24], s[i + 25], s[i + 26], s[i + 27], s[i + 28], s[i + 29], s[i + 30], s[i + 31]]
}

pub fn read_bytes32_at(data: &[u8], pos: usize) -> (v: [u8; 32])
    requires
        pos + 32 <= data@.len(),
    ensures
        v == bytes32_at(data@, pos as int),
{
    [data[pos], data[pos + 1], data[pos + 2], data[pos + 3], data[pos + 4], data[pos + 5], data[pos + 6], data[pos + 7], data[pos + 8], data[pos + 9], data[pos + 10], data[pos + 11], data[pos + 12], data[pos + 13], data[pos + 14], data[pos + 15], data[pos + 16], data[pos + 17], data[pos + 18], data[pos + 19], data[pos + 20], data[pos + 21], data[pos + 22], data[pos + 23], data[pos + 24], data[pos + 25], data[pos + 26], data[pos + 27], data[pos + 28], data[pos + 29], data[pos + 30], data[pos + 31]]
}

pub proof fn lemma_bytes32_at(s: Seq<u8>, i: int, a: [u8; 32])
    requires
        0 <= i,
        i + 32 <= s.len(),
        s.subrange(i, i + 32) == a@,
    ensures
        bytes32_at(s, i) == a,
{
    broadcast use vstd::array::group_array_axioms;
    assert(s.subrange(i, i + 32)[0] == s[i + 0]);
    assert(s.subrange(i, i + 32)[1] == s[i + 1]);
    assert(s.subrange(i, i + 32)[2] == s[i + 2]);
    assert(s.subrange(i, i + 32)[3] == s[i + 3]);
    assert(s.subrange(i, i + 32)[4] == s[i + 4]);
    assert(s.subrange(i, i + 32)[5] == s[i + 5]);
    assert(s.subrange(i, i + 32)[6] == s[i + 6]);
    assert(s.subrange(i, i + 32)[7] == s[i + 7]);
    assert(s.subrange(i, i + 32)[8] == s[i + 8]);
    assert(s.subrange(i, i + 32)[9] == s[i + 9]);
    assert(s.subrange(i, i + 32)[10] == s[i + 10]);
    assert(s.subrange(i, i + 32)[11] == s[i + 11]);
    assert(s.subrange(i, i + 32)[12] == s[i + 12]);
    assert(s.subrange(i, i + 32)[13] == s[i + 13]);
    assert(s.subrange(i, i + 32)[14] == s[i + 14]);
    assert(s.subrange(i, i + 32)[15] == s[i + 15]);
    assert(s.subrange(i, i + 32)[16] == s[i + 16]);
    assert(s.subrange(i, i + 32)[17] == s[i + 17]);
    assert(s.subrange(i, i + 32)[18] == s[i + 18]);
    assert(s.subrange(i, i + 32)[19] == s[i + 19]);
    assert(s.subrange(i, i + 32)[20] == s[i + 20]);
    assert(s.subrange(i, i + 32)[21] == s[i + 21]);
    assert(s.subrange(i, i + 32)[22] == s[i + 22]);
    assert(s.subrange(i, i + 32)[23] == s[i + 23]);
    assert(s.subrange(i, i + 32)[24] == s[i + 24]);
    assert(s.subrange(i, i + 32)[25] == s[i + 25]);
    assert(s.subrange(i, i + 32)[26] == s[i + 26]);
    assert(s.subrange(i, i + 32)[27] == s[i + 27]);
    assert(s.subrange(i, i + 32)[28] == s[i + 28]);
    assert(s.subrange(i, i + 32)[29] == s[i + 29]);
    assert(s.subrange(i, i + 32)[30] == s[i + 30]);
    assert(s.subrange(i, i + 32)[31] == s[i + 31]);
    assert(bytes32_at(s, i) =~= a);
}

/// Appends the bytes of `bytes`.
pub fn write_bytes(out: &mut Vec<u8>, bytes: &[u8])
    ensures
        final(out)@ == old(out)@ + bytes@,
{
    let ghost before = out@;
    let mut i: usize = 0;
    while i < bytes.len()
        invariant
            i <= bytes@.len(),
            out@ == before + bytes@.take(i as int),
        decreases bytes@.len() - i,
    {
        out.push(bytes[i]);
        assert(out@ =~= before + bytes@.take(i + 1));
        i = i + 1;
    }
    assert(bytes@.take(i as int) =~= bytes@);
}

/// Dividing `k * w + r` by `w`, for a remainder `r` below `w`, gives back `k` and `r`.
pub proof fn lemma_div_mod_step(k: int, w: int, r: int)
    requires
        0 <= k,
        0 <= r < w,
    ensures
        (k * w + r) / w == k,
        (k * w + r) % w == r,
        0 <= k * w,
{
    vstd::arithmetic::div_mod::lemma_fundamental_div_mod_converse(k * w + r, w, k, r);
    vstd::arithmetic::mul::lemma_mul_nonnegative(k, w);
}


// ---------------------------------------------------------------------------
// Big-endian numbers in the mathematical sense.
// ---------------------------------------------------------------------------

/// The number that the `n` bytes from offset `i` spell, most significant byte first.
pub open spec fn be_int(s: Seq<u8>, i: int, n: nat) -> int
    decreases n,
{
    if n == 0 {
        0
    } else {
        be_int(s, i, (n - 1) as nat) * 256 + s[i + n - 1]
    }
}

/// Reading a 16-bit field gives the number that its two bytes spell.
pub proof fn lemma_be_int_u16(s: Seq<u8>, i: int)
    requires
        0 <= i,
        i + 2 <= s.len(),
    ensures
        be_u16_at(s, i) as int == be_int(s, i, 2),
{
    reveal_with_fuel(be_int, 3);
}

/// Reading a 24-bit field gives the number that its three bytes spell.
pub proof fn lemma_be_int_u24(s: Seq<u8>, i: int)
    requires
        0 <= i,
        i + 3 <= s.len(),
    ensures
        be_u24_at(s, i) as int == be_int(s, i, 3),
{
    reveal_with_fuel(be_int, 4);
}

/// Reading a 32-bit field gives the number that its four bytes spell.
pub proof fn lemma_be_int_u32(s: Seq<u8>, i: int)
    requires
        0 <= i,
        i + 4 <= s.len(),
    ensures
        be_u32_at(s, i) as int == be_int(s, i, 4),
{
    reveal_with_fuel(be_int, 5);
}

/// The number spelled by bytes found inside a longer sequence does not depend on
/// what surrounds them.
pub proof fn lemma_be_int_subrange(s: Seq<u8>, t: Seq<u8>, i: int, j: int, n: nat)
    requires
        0 <= i,
        0 <= j,
        i + n <= s.len(),
        j + n <= t.len(),
        s.subrange(i, i + n) == t.subrange(j, j + n),
    ensures
        be_int(s, i, n) == be_int(t, j, n),
    decreases n,
{
    if n > 0 {
        assert(s.subrange(i, i + n)[n - 1] == s[i + n - 1]);
        assert(t.subrange(j, j + n)[n - 1] == t[j + n - 1]);
        assert(s.subrange(i, i + n - 1) =~= s.subrange(i, i + n).subrange(0, n - 1));
        assert(t.subrange(j, j + n - 1) =~= t.subrange(j, j + n).subrange(0, n - 1));
        lemma_be_int_subrange(s, t, i, j, (n - 1) as nat);
    }
}

/// The bytes written for a 32-bit value spell it.
pub proof fn lemma_be_int_u32_bytes(s: Seq<u8>, i: int, v: u32)
    requires
        0 <= i,
        i + 4 <= s.len(),
        s.subrange(i, i + 4) == u32_bytes(v),
    ensures
        be_int(s, i, 4) == v,
{
    lemma_u32_at(s, i, v);
    lemma_be_int_u32(s, i);
}

/// The bytes written for a 16-bit value spell it.
pub proof fn lemma_be_int_u16_bytes(s: Seq<u8>, i: int, v: u16)
    requires
        0 <= i,
        i + 2 <= s.len(),
        s.subrange(i, i + 2) == u16_bytes(v),
    ensures
        be_int(s, i, 2) == v,
{
    lemma_u16_at(s, i, v);
    lemma_be_int_u16(s, i);
}

/// The bytes written for a 24-bit value spell it.
pub proof fn lemma_be_int_u24_bytes(s: Seq<u8>, i: int, v: u32)
    requires
        0 <= i,
        i + 3 <= s.len(),
        v < 0x100_0000,
        s.subrange(i, i + 3) == u24_bytes(v),
    ensures
        be_int(s, i, 3) == v,
{
    lemma_u24_at(s, i, v);
    lemma_be_int_u24(s, i);
}


/// Reading a 64-bit field gives the number that its eight bytes spell.
pub proof fn lemma_be_int_u64(s: Seq<u8>, i: int)
    requires
        0 <= i,
        i + 8 <= s.len(),
    ensures
        be_u64_at(s, i) as int == be_int(s, i, 8),
{
    reveal(be_u64_at);
    reveal_with_fuel(be_int, 9);
    lemma_be_int_u32(s, i);
    lemma_be_int_u32(s, i + 4);
}


/// The number that four bytes spell when read as a two's complement 32-bit value.
pub open spec fn be_signed32(s: Seq<u8>, i: int) -> int {
    let u = be_int(s, i, 4);
    if u >= 0x8000_0000 { u - 0x1_0000_0000 } else { u }
}

/// The number that eight bytes spell when read as a two's complement 64-bit value.
pub open spec fn be_signed64(s: Seq<u8>, i: int) -> int {
    let u = be_int(s, i, 8);
    if u >= 0x8000_0000_0000_0000 { u - 0x1_0000_0000_0000_0000 } else { u }
}

/// Reading a signed 32-bit field gives the two's complement number of its bytes.
pub proof fn lemma_be_signed32(s: Seq<u8>, i: int)
    requires
        0 <= i,
        i + 4 <= s.len(),
    ensures
        i32_of(be_u32_at(s, i)) as int == be_signed32(s, i),
{
    lemma_be_int_u32(s, i);
}

/// Reading a signed 64-bit field gives the two's complement number of its bytes.
pub proof fn lemma_be_signed64(s: Seq<u8>, i: int)
    requires
        0 <= i,
        i + 8 <= s.len(),
    ensures
        i64_of(be_u64_at(s, i)) as int == be_signed64(s, i),
{
    lemma_be_int_u64(s, i);
}


/// The number that two bytes spell when read as a two's complement 16-bit value.
pub open spec fn be_signed16(s: Seq<u8>, i: int) -> int {
    let u = be_int(s, i, 2);
    if u >= 0x8000 { u - 0x1_0000 } else { u }
}

/// Reading a signed 16-bit field gives the two's complement number of its bytes.
pub proof fn lemma_be_signed16(s: Seq<u8>, i: int)
    requires
        0 <= i,
        i + 2 <= s.len(),
    ensures
        i16_of(be_u16_at(s, i)) as int == be_signed16(s, i),
{
    lemma_be_int_u16(s, i);
}

} // verus!
