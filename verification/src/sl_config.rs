//! Reading and writing the sync layer configuration descriptor
//! (ISO/IEC 14496-1 - 7.3.2.3): its custom fields, and the two start time stamps
//! packed in `time_stamp_length` bits each.

use vstd::prelude::*;

use crate::codec::{
    be_u16_at, be_u32_at, lemma_append_prefix, lemma_u16_at, lemma_u32_at, read_u16_at, read_u32_at, u16_bytes,
    u32_bytes, write_bytes, write_u16, write_u32, IsoError, SpecParse,
};
use crate::decoder_config::descriptor_window;
use crate::object_description::{
    sl_custom_size, sl_payload_size, vlq_len, vlq_len_exec, BaseDescriptor, DescriptorTag, SLConfigDescriptor,
    SLConfigDescriptorCustom, SLConfigDescriptorDuration, SLConfigDescriptorPredefined, SLConfigDescriptorTimeStamps,
    SL_CONFIG_DESCR_TAG,
};
use crate::wire::{IsoSized, Wire};

verus! {

// ---------------------------------------------------------------------------
// Numbers of any width, most significant byte first.
// ---------------------------------------------------------------------------

/// `2^k`.
pub open spec fn p2(k: nat) -> nat
    decreases k,
{
    if k == 0 {
        1
    } else {
        2 * p2((k - 1) as nat)
    }
}

pub proof fn lemma_p2_add(a: nat, b: nat)
    ensures
        p2(a + b) == p2(a) * p2(b),
    decreases b,
{
    if b > 0 {
        let b1 = (b - 1) as nat;
        lemma_p2_add(a, b1);
        assert(a + b == (a + b1) + 1);
        assert(p2(a + b) == 2 * p2(a + b1));
        let x = p2(a);
        let y = p2(b1);
        assert(p2(a + b1) == x * y);
        assert(p2(b) == 2 * y);
        assert(x * (2 * y) == 2 * (x * y)) by (nonlinear_arith);
        assert(p2(a + b) == x * p2(b));
    } else {
        assert(a + b == a);
        assert(p2(b) == 1);
        assert(p2(a) * 1 == p2(a));
    }
}

pub proof fn lemma_p2_strict(a: nat, b: nat)
    requires
        a < b,
    ensures
        1 <= p2(a) < p2(b),
    decreases b,
{
    lemma_p2_pos(a);
    if b - 1 > a {
        lemma_p2_strict(a, (b - 1) as nat);
    }
    lemma_p2_pos((b - 1) as nat);
}

pub proof fn lemma_p2_pos(k: nat)
    ensures
        p2(k) >= 1,
    decreases k,
{
    if k > 0 {
        lemma_p2_pos((k - 1) as nat);
    }
}

pub proof fn lemma_p2_values()
    ensures
        p2(8) == 256,
        p2(64) == 0x1_0000_0000_0000_0000,
        p2(128) == 0x1_0000_0000_0000_0000_0000_0000_0000_0000,
{
    reveal_with_fuel(p2, 65);
    lemma_p2_add(64, 64);
}

/// The value of bytes read most significant first.
pub open spec fn be_value(s: Seq<u8>) -> nat
    decreases s.len(),
{
    if s.len() == 0 {
        0
    } else {
        be_value(s.drop_last()) * 256 + s.last() as nat
    }
}

/// The `k` low bytes of `x`, most significant first.
pub open spec fn be_bytes(x: nat, k: nat) -> Seq<u8>
    decreases k,
{
    if k == 0 {
        Seq::empty()
    } else {
        be_bytes(x / 256, (k - 1) as nat).push((x % 256) as u8)
    }
}

/// The `k` low bytes of `x` read back as `x` modulo `2^(8k)`.
pub proof fn lemma_be_bytes(x: nat, k: nat)
    ensures
        be_bytes(x, k).len() == k,
        be_value(be_bytes(x, k)) == x % p2(8 * k),
    decreases k,
{
    if k == 0 {
        assert(x % 1 == 0) by (nonlinear_arith);
    } else {
        lemma_be_bytes(x / 256, (k - 1) as nat);
        let s = be_bytes(x, k);
        assert(s.drop_last() =~= be_bytes(x / 256, (k - 1) as nat));
        let p = p2((8 * (k - 1)) as nat);
        lemma_p2_pos((8 * (k - 1)) as nat);
        lemma_p2_values();
        lemma_p2_add((8 * (k - 1)) as nat, 8);
        assert(8 * (k - 1) + 8 == 8 * k);
        vstd::arithmetic::div_mod::lemma_mod_breakdown(x as int, 256, p as int);
        assert(p2(8 * k) == p * 256);
        assert(256 * p == p * 256) by (nonlinear_arith);
    }
}

// ---------------------------------------------------------------------------
// The start time stamps.
// ---------------------------------------------------------------------------

/// The number of bytes that two time stamps of `n` bits fill.
pub open spec fn ts_width(n: u8) -> nat {
    ((2 * n + 7) / 8) as nat
}

/// The bits left unused in the last byte of two time stamps of `n` bits.
pub open spec fn ts_pad(n: u8) -> nat {
    (8 * ts_width(n) - 2 * n) as nat
}

/// The number that the bytes of two time stamps of `n` bits hold: the low `n` bits of
/// each stamp, the decoding time first, then the unused bits as zeros.
pub open spec fn ts_value(t: SLConfigDescriptorTimeStamps, n: u8) -> nat {
    ((t.start_decoding_time_stamp as nat % p2(n as nat)) * p2(n as nat) + t.start_composition_time_stamp as nat % p2(
        n as nat,
    )) * p2(ts_pad(n))
}

/// The bytes written for two time stamps of `n` bits.
pub open spec fn ts_bytes(t: SLConfigDescriptorTimeStamps, n: u8) -> Seq<u8> {
    be_bytes(ts_value(t, n), ts_width(n))
}

/// Reading two time stamps of `n` bits from the bytes that they fill.
pub open spec fn ts_parse(s: Seq<u8>, n: u8) -> Result<(SLConfigDescriptorTimeStamps, int), IsoError> {
    let k = ts_width(n);
    if s.len() < k {
        Err(IsoError::UnexpectedEof)
    } else {
        let x = be_value(s.take(k as int));
        Ok(
            (
                SLConfigDescriptorTimeStamps {
                    start_decoding_time_stamp: (x / (p2(ts_pad(n)) * p2(n as nat))) as u64,
                    start_composition_time_stamp: ((x / p2(ts_pad(n))) % p2(n as nat)) as u64,
                },
                k as int,
            ),
        )
    }
}

/// Time stamps that fit `n` bits.
pub open spec fn ts_fit(t: SLConfigDescriptorTimeStamps, n: u8) -> bool {
    t.start_decoding_time_stamp < p2(n as nat) && t.start_composition_time_stamp < p2(n as nat)
}

/// The widths of two time stamps add up to whole bytes with their unused bits.
pub proof fn lemma_ts_widths(n: u8)
    requires
        n <= 64,
    ensures
        ts_width(n) <= 16,
        ts_pad(n) < 8,
        8 * ts_width(n) == ts_pad(n) + 2 * n,
        p2(8 * ts_width(n)) == p2(ts_pad(n)) * p2(n as nat) * p2(n as nat),
        p2(ts_pad(n)) * p2(n as nat) < p2(128),
        p2(n as nat) <= p2(64),
{
    let k = ts_width(n);
    let q = ts_pad(n);
    lemma_p2_add(q, n as nat);
    lemma_p2_add(q + n as nat, n as nat);
    assert(8 * k == q + 2 * n);
    lemma_p2_strict(q + n as nat, 128);
    if n < 64 {
        lemma_p2_strict(n as nat, 64);
    }
}

/// Written time stamps that fit their bits read back as themselves.
pub proof fn lemma_ts_roundtrip(t: SLConfigDescriptorTimeStamps, n: u8, rest: Seq<u8>)
    requires
        n <= 64,
        ts_fit(t, n),
    ensures
        ts_bytes(t, n).len() == ts_width(n),
        ts_parse(ts_bytes(t, n) + rest, n) == Ok::<(SLConfigDescriptorTimeStamps, int), IsoError>(
            (t, ts_width(n) as int),
        ),
{
    let k = ts_width(n);
    let q = p2(ts_pad(n));
    let p = p2(n as nat);
    let d = t.start_decoding_time_stamp as nat;
    let c = t.start_composition_time_stamp as nat;
    lemma_ts_widths(n);
    lemma_p2_pos(ts_pad(n));
    lemma_p2_pos(n as nat);
    vstd::arithmetic::div_mod::lemma_small_mod(d, p);
    vstd::arithmetic::div_mod::lemma_small_mod(c, p);
    let v = ts_value(t, n);
    assert(v == (d * p + c) * q);
    assert(v < p2(8 * k)) by (nonlinear_arith)
        requires
            v == (d * p + c) * q,
            d < p,
            c < p,
            q >= 1,
            p2(8 * k) == q * p * p,
    ;
    lemma_be_bytes(v, k);
    vstd::arithmetic::div_mod::lemma_small_mod(v, p2(8 * k));
    let s = ts_bytes(t, n) + rest;
    assert(s.take(k as int) =~= ts_bytes(t, n));
    vstd::arithmetic::div_mod::lemma_div_by_multiple((d * p + c) as int, q as int);
    assert(v / q == d * p + c);
    vstd::arithmetic::div_mod::lemma_fundamental_div_mod_converse((d * p + c) as int, p as int, d as int, c as int);
    vstd::arithmetic::div_mod::lemma_div_denominator(v as int, q as int, p as int);
    lemma_p2_values();
}

/// `2^k` for `k` up to 64, as a 128-bit number.
pub fn pow2_u128(k: u8) -> (r: u128)
    requires
        k <= 64,
    ensures
        r == p2(k as nat),
{
    let mut r: u128 = 1;
    let mut i: u8 = 0;
    while i < k
        invariant
            i <= k <= 64,
            r == p2(i as nat),
        decreases k - i,
    {
        proof {
            lemma_p2_strict((i + 1) as nat, 128);
            lemma_p2_values();
            assert(p2((i + 1) as nat) == 2 * p2(i as nat));
        }
        r = r * 2;
        i = i + 1;
    }
    r
}

/// Reads two time stamps of `n` bits at `pos`.
#[verifier::rlimit(40)]
pub fn read_time_stamps(data: &[u8], pos: usize, n: u8) -> (r: Result<(SLConfigDescriptorTimeStamps, usize), IsoError>)
    requires
        pos <= data@.len(),
        n <= 64,
    ensures
        match (ts_parse(data@.skip(pos as int), n), r) {
            (Ok((v, m)), Ok((x, p))) => x == v && p == pos + m,
            (Err(e), Err(f)) => e == f,
            _ => false,
        },
{
    let k: usize = (2 * (n as usize) + 7) / 8;
    if data.len() - pos < k {
        return Err(IsoError::UnexpectedEof);
    }
    let ghost s = data@.skip(pos as int);
    proof {
        lemma_ts_widths(n);
        lemma_p2_values();
    }
    let mut x: u128 = 0;
    let mut i: usize = 0;
    assert(s.take(0) =~= Seq::<u8>::empty());
    while i < k
        invariant
            k == ts_width(n),
            k <= 16,
            i <= k,
            pos + k <= data@.len(),
            data@.len() == data.len(),
            s == data@.skip(pos as int),
            x == be_value(s.take(i as int)),
            x < p2(8 * (i as nat)),
            p2(128) == 0x1_0000_0000_0000_0000_0000_0000_0000_0000,
        decreases k - i,
    {
        proof {
            assert(s.take(i + 1).drop_last() =~= s.take(i as int));
            assert(s.take(i + 1).last() == data@[pos + i]);
            lemma_p2_add(8 * (i as nat), 8);
            lemma_p2_values();
            if i + 1 < 16 {
                lemma_p2_strict(8 * (i as nat) + 8, 128);
            }
            assert(x * 256 + 255 < p2(8 * (i as nat)) * 256) by (nonlinear_arith)
                requires
                    x < p2(8 * (i as nat)),
            ;
            assert(p2(8 * (i as nat) + 8) == p2(8 * (i as nat)) * 256);
            assert(p2(8 * (i as nat) + 8) <= p2(128));
            assert(x * 256 + 255 <= u128::MAX);
        }
        let b = data[pos + i];
        x = x * 256 + b as u128;
        i = i + 1;
    }
    let q = pow2_u128(((8 * k) - 2 * (n as usize)) as u8);
    let p = pow2_u128(n);
    proof {
        lemma_p2_pos(ts_pad(n));
        lemma_p2_pos(n as nat);
        assert(q == p2(ts_pad(n)));
        assert(x < p2(8 * (k as nat)));
        assert(q * p >= 1) by (nonlinear_arith)
            requires
                q >= 1,
                p >= 1,
        ;
        assert(x < q * p * p);
        vstd::arithmetic::div_mod::lemma_multiply_divide_lt(x as int, (q * p) as int, p as int);
        assert(q * p * p == (q * p) * p);
    }
    let d = x / (q * p);
    let c = (x / q) % p;
    Ok((SLConfigDescriptorTimeStamps { start_decoding_time_stamp: d as u64, start_composition_time_stamp: c as u64 }, pos + k))
}

/// Writes `x` as `k` bytes, most significant first.
pub fn write_be(out: &mut Vec<u8>, x: u128, k: usize)
    ensures
        final(out)@ == old(out)@ + be_bytes(x as nat, k as nat),
    decreases k,
{
    if k > 0 {
        write_be(out, x / 256, k - 1);
        out.push((x % 256) as u8);
    }
}

/// Writes two time stamps in `n` bits each.
#[verifier::rlimit(40)]
pub fn write_time_stamps(out: &mut Vec<u8>, t: &SLConfigDescriptorTimeStamps, n: u8)
    requires
        n <= 64,
    ensures
        final(out)@ == old(out)@ + ts_bytes(*t, n),
{
    let k: usize = (2 * (n as usize) + 7) / 8;
    proof {
        lemma_ts_widths(n);
        lemma_p2_values();
        lemma_p2_pos(ts_pad(n));
        lemma_p2_pos(n as nat);
    }
    let q = pow2_u128(((8 * k) - 2 * (n as usize)) as u8);
    let p = pow2_u128(n);
    let d = (t.start_decoding_time_stamp as u128) % p;
    let c = (t.start_composition_time_stamp as u128) % p;
    proof {
        lemma_p2_add(64, 64);
        assert(p * p <= p2(128)) by (nonlinear_arith)
            requires
                p <= p2(64),
                p2(128) == p2(64) * p2(64),
        ;
        assert(d * p + c < p * p) by (nonlinear_arith)
            requires
                d < p,
                c < p,
        ;
        assert((d * p + c) * q < q * p * p) by (nonlinear_arith)
            requires
                d * p + c < p * p,
                q >= 1,
        ;
        if 8 * k < 128 {
            lemma_p2_strict(8 * (k as nat), 128);
        }
        assert(q * p * p <= p2(128));
    }
    let v = (d * p + c) * q;
    write_be(out, v, k);
}

// ---------------------------------------------------------------------------
// The custom configuration.
// ---------------------------------------------------------------------------

/// The byte of the eight flags, the first one in the top bit.
pub open spec fn sl_flags_byte(c: SLConfigDescriptorCustom) -> u8 {
    (if c.use_access_unit_start_flag { 0x80u8 } else { 0u8 }) | (if c.use_access_unit_end_flag { 0x40u8 } else {
        0u8
    }) | (if c.use_random_access_point_flag { 0x20u8 } else { 0u8 }) | (if c.has_random_access_units_only_flag {
        0x10u8
    } else {
        0u8
    }) | (if c.use_padding_flag { 0x08u8 } else { 0u8 }) | (if c.use_time_stamps_flag { 0x04u8 } else { 0u8 }) | (
    if c.use_idle_flag { 0x02u8 } else { 0u8 }) | (if c.duration_flag { 0x01u8 } else { 0u8 })
}

/// The 16 bits of the degradation priority length (4 bits), the access unit sequence
/// number length (5), the packet sequence number length (5) and the reserved bits (2).
pub open spec fn sl_lengths_word(c: SLConfigDescriptorCustom) -> u16 {
    (((c.degradation_priority_length as u16) << 12u16) | ((c.au_seq_num_length as u16) << 7u16) | ((
    c.packet_seq_num_length as u16) << 2u16) | (c.reserved as u16)) as u16
}

/// The bytes of a custom configuration: the flags, the two resolutions, the four
/// length bytes, the word of the other lengths, then the durations where the flag is
/// set and the time stamps where their flag is set.
pub open spec fn sl_custom_bytes(c: SLConfigDescriptorCustom) -> Seq<u8> {
    seq![sl_flags_byte(c)] + u32_bytes(c.time_stamp_resolution) + u32_bytes(c.ocr_resolution) + seq![
        c.time_stamp_length,
        c.ocr_length,
        c.au_length,
        c.instant_bitrate_length,
    ] + u16_bytes(sl_lengths_word(c)) + (if c.duration_flag {
        SLConfigDescriptorDuration::spec_serialize(c.duration.unwrap())
    } else {
        Seq::empty()
    }) + (if c.use_time_stamps_flag {
        ts_bytes(c.time_stamps.unwrap(), c.time_stamp_length)
    } else {
        Seq::empty()
    })
}

/// Reading a custom configuration: the lengths are checked as they are read (time
/// stamps and clock references at most 64 bits, access unit lengths at most 32, the
/// two sequence numbers at most 16); the durations and the time stamps follow where
/// their flags are set.
pub open spec fn sl_custom_parse(s: Seq<u8>) -> SpecParse<SLConfigDescriptorCustom> {
    if s.len() < 10 {
        Err(IsoError::UnexpectedEof)
    } else if s[9] > 64 {
        Err(IsoError::InvalidData)
    } else if s.len() < 11 {
        Err(IsoError::UnexpectedEof)
    } else if s[10] > 64 {
        Err(IsoError::InvalidData)
    } else if s.len() < 12 {
        Err(IsoError::UnexpectedEof)
    } else if s[11] > 32 {
        Err(IsoError::InvalidData)
    } else if s.len() < 15 {
        Err(IsoError::UnexpectedEof)
    } else {
        let f = s[0];
        let w = be_u16_at(s, 13);
        let aus = ((w & 0x0F80u16) >> 7u16) as u8;
        let psn = ((w & 0x007Cu16) >> 2u16) as u8;
        if aus > 16 || psn > 16 {
            Err(IsoError::InvalidData)
        } else {
            let dur = if f & 0x01 != 0 {
                match SLConfigDescriptorDuration::spec_parse(s.skip(15)) {
                    Ok((d, n)) => Ok((Some(d), n)),
                    Err(e) => Err(e),
                }
            } else {
                Ok((None, 0int))
            };
            match dur {
                Err(e) => Err(e),
                Ok((duration, dn)) => {
                    let ts = if f & 0x04 != 0 {
                        match ts_parse(s.skip(15 + dn), s[9]) {
                            Ok((t, n)) => Ok((Some(t), n)),
                            Err(e) => Err(e),
                        }
                    } else {
                        Ok((None, 0int))
                    };
                    match ts {
                        Err(e) => Err(e),
                        Ok((time_stamps, tn)) => Ok(
                            (
                                SLConfigDescriptorCustom {
                                    use_access_unit_start_flag: f & 0x80 != 0,
                                    use_access_unit_end_flag: f & 0x40 != 0,
                                    use_random_access_point_flag: f & 0x20 != 0,
                                    has_random_access_units_only_flag: f & 0x10 != 0,
                                    use_padding_flag: f & 0x08 != 0,
                                    use_time_stamps_flag: f & 0x04 != 0,
                                    use_idle_flag: f & 0x02 != 0,
                                    duration_flag: f & 0x01 != 0,
                                    time_stamp_resolution: be_u32_at(s, 1),
                                    ocr_resolution: be_u32_at(s, 5),
                                    time_stamp_length: s[9],
                                    ocr_length: s[10],
                                    au_length: s[11],
                                    instant_bitrate_length: s[12],
                                    degradation_priority_length: ((w & 0xF000u16) >> 12u16) as u8,
                                    au_seq_num_length: aus,
                                    packet_seq_num_length: psn,
                                    reserved: (w & 3u16) as u8,
                                    duration,
                                    time_stamps,
                                },
                                15 + dn + tn,
                            ),
                        ),
                    }
                },
            }
        }
    }
}

/// A custom configuration can be written when the durations and the time stamps are
/// present exactly where their flags are set, and the time stamps fit 64 bits.
pub open spec fn sl_custom_writable(c: SLConfigDescriptorCustom) -> bool {
    &&& (c.duration is Some) == c.duration_flag
    &&& (c.time_stamps is Some) == c.use_time_stamps_flag
    &&& c.use_time_stamps_flag ==> c.time_stamp_length <= 64
}

/// A custom configuration that reads back as itself: every length is within its
/// limit and its bits, and the time stamps fit their length.
pub open spec fn sl_custom_canonical(c: SLConfigDescriptorCustom) -> bool {
    &&& c.time_stamp_length <= 64
    &&& c.ocr_length <= 64
    &&& c.au_length <= 32
    &&& c.degradation_priority_length < 16
    &&& c.au_seq_num_length <= 16
    &&& c.packet_seq_num_length <= 16
    &&& c.reserved < 4
    &&& (c.time_stamps matches Some(t) ==> ts_fit(t, c.time_stamp_length))
}

/// The flags byte reads back as its flags.
pub proof fn lemma_sl_flags(c: SLConfigDescriptorCustom)
    ensures
        (sl_flags_byte(c) & 0x80 != 0) == c.use_access_unit_start_flag,
        (sl_flags_byte(c) & 0x40 != 0) == c.use_access_unit_end_flag,
        (sl_flags_byte(c) & 0x20 != 0) == c.use_random_access_point_flag,
        (sl_flags_byte(c) & 0x10 != 0) == c.has_random_access_units_only_flag,
        (sl_flags_byte(c) & 0x08 != 0) == c.use_padding_flag,
        (sl_flags_byte(c) & 0x04 != 0) == c.use_time_stamps_flag,
        (sl_flags_byte(c) & 0x02 != 0) == c.use_idle_flag,
        (sl_flags_byte(c) & 0x01 != 0) == c.duration_flag,
{
    let a = c.use_access_unit_start_flag;
    let b = c.use_access_unit_end_flag;
    let r = c.use_random_access_point_flag;
    let o = c.has_random_access_units_only_flag;
    let p = c.use_padding_flag;
    let t = c.use_time_stamps_flag;
    let i = c.use_idle_flag;
    let d = c.duration_flag;
    let x = sl_flags_byte(c);
    assert((x & 0x80 != 0) == a && (x & 0x40 != 0) == b && (x & 0x20 != 0) == r && (x & 0x10 != 0) == o && (x
        & 0x08 != 0) == p && (x & 0x04 != 0) == t && (x & 0x02 != 0) == i && (x & 0x01 != 0) == d) by (bit_vector)
        requires
            x == (if a { 0x80u8 } else { 0u8 }) | (if b { 0x40u8 } else { 0u8 }) | (if r { 0x20u8 } else { 0u8 }) | (
            if o { 0x10u8 } else { 0u8 }) | (if p { 0x08u8 } else { 0u8 }) | (if t { 0x04u8 } else { 0u8 }) | (if i {
                0x02u8
            } else {
                0u8
            }) | (if d { 0x01u8 } else { 0u8 }),
    ;
}

/// The word of lengths reads back as its lengths, where they fit their bits.
pub proof fn lemma_sl_word(c: SLConfigDescriptorCustom)
    requires
        c.degradation_priority_length < 16,
        c.au_seq_num_length < 32,
        c.packet_seq_num_length < 32,
        c.reserved < 4,
    ensures
        (((sl_lengths_word(c) & 0xF000u16) >> 12u16) as u8) == c.degradation_priority_length,
        (((sl_lengths_word(c) & 0x0F80u16) >> 7u16) as u8) == c.au_seq_num_length,
        (((sl_lengths_word(c) & 0x007Cu16) >> 2u16) as u8) == c.packet_seq_num_length,
        ((sl_lengths_word(c) & 3u16) as u8) == c.reserved,
{
    let a = c.degradation_priority_length as u16;
    let b = c.au_seq_num_length as u16;
    let p = c.packet_seq_num_length as u16;
    let r = c.reserved as u16;
    let w = sl_lengths_word(c);
    assert((w & 0xF000u16) >> 12u16 == a && (w & 0x0F80u16) >> 7u16 == b && (w & 0x007Cu16) >> 2u16 == p && w
        & 3u16 == r) by (bit_vector)
        requires
            a < 16,
            b < 32,
            p < 32,
            r < 4,
            w == ((a << 12u16) | (b << 7u16) | (p << 2u16) | r) as u16,
    ;
}

/// A written custom configuration that fits its limits reads back as itself,
/// whatever follows it.
#[verifier::spinoff_prover]
#[verifier::rlimit(80)]
pub proof fn lemma_sl_custom_roundtrip(c: SLConfigDescriptorCustom, rest: Seq<u8>)
    requires
        sl_custom_writable(c),
        sl_custom_canonical(c),
    ensures
        sl_custom_bytes(c).len() == sl_custom_size(c),
        sl_custom_parse(sl_custom_bytes(c) + rest) == Ok::<(SLConfigDescriptorCustom, int), IsoError>(
            (c, sl_custom_bytes(c).len() as int),
        ),
{
    let w = sl_lengths_word(c);
    let db = if c.duration_flag {
        SLConfigDescriptorDuration::spec_serialize(c.duration.unwrap())
    } else {
        Seq::empty()
    };
    let tb = if c.use_time_stamps_flag {
        ts_bytes(c.time_stamps.unwrap(), c.time_stamp_length)
    } else {
        Seq::empty()
    };
    let s = sl_custom_bytes(c) + rest;
    lemma_sl_flags(c);
    lemma_sl_word(c);
    assert(s.subrange(1, 5) =~= u32_bytes(c.time_stamp_resolution));
    lemma_u32_at(s, 1, c.time_stamp_resolution);
    assert(s.subrange(5, 9) =~= u32_bytes(c.ocr_resolution));
    lemma_u32_at(s, 5, c.ocr_resolution);
    assert(s.subrange(13, 15) =~= u16_bytes(w));
    lemma_u16_at(s, 13, w);
    assert(s[9] == c.time_stamp_length);
    assert(s[10] == c.ocr_length);
    assert(s[11] == c.au_length);
    assert(s[12] == c.instant_bitrate_length);
    assert(s.skip(15) =~= db + (tb + rest));
    if c.duration_flag {
        SLConfigDescriptorDuration::lemma_roundtrip(c.duration.unwrap(), tb + rest);
        SLConfigDescriptorDuration::lemma_size(c.duration.unwrap());
    }
    assert(s.skip(15 + db.len() as int) =~= tb + rest);
    if c.use_time_stamps_flag {
        lemma_ts_roundtrip(c.time_stamps.unwrap(), c.time_stamp_length, rest);
    }
    assert(sl_custom_bytes(c).len() == 15 + db.len() + tb.len());
}

/// Reads a custom configuration at `pos`.
#[verifier::rlimit(60)]
pub fn read_sl_custom(data: &[u8], pos: usize) -> (r: Result<(SLConfigDescriptorCustom, usize), IsoError>)
    requires
        pos <= data@.len(),
    ensures
        crate::wire::parse_matches(r, sl_custom_parse(data@.skip(pos as int)), pos),
{
    let ghost s = data@.skip(pos as int);
    let avail = data.len() - pos;
    if avail < 10 {
        return Err(IsoError::UnexpectedEof);
    }
    if data[pos + 9] > 64 {
        return Err(IsoError::InvalidData);
    }
    if avail < 11 {
        return Err(IsoError::UnexpectedEof);
    }
    if data[pos + 10] > 64 {
        return Err(IsoError::InvalidData);
    }
    if avail < 12 {
        return Err(IsoError::UnexpectedEof);
    }
    if data[pos + 11] > 32 {
        return Err(IsoError::InvalidData);
    }
    if avail < 15 {
        return Err(IsoError::UnexpectedEof);
    }
    let f = data[pos];
    let w = read_u16_at(data, pos + 13);
    proof {
        assert(be_u16_at(s, 13) == be_u16_at(data@, pos + 13));
        assert(be_u32_at(s, 1) == be_u32_at(data@, pos + 1));
        assert(be_u32_at(s, 5) == be_u32_at(data@, pos + 5));
    }
    let aus = ((w & 0x0F80u16) >> 7u16) as u8;
    let psn = ((w & 0x007Cu16) >> 2u16) as u8;
    if aus > 16 || psn > 16 {
        return Err(IsoError::InvalidData);
    }
    let mut p = pos + 15;
    let duration = if f & 0x01 != 0 {
        proof {
            assert(s.skip(15) =~= data@.skip(p as int));
        }
        let (d, e) = SLConfigDescriptorDuration::parse(data, p)?;
        p = e;
        Some(d)
    } else {
        None
    };
    let time_stamps = if f & 0x04 != 0 {
        proof {
            assert(s.skip(p - pos) =~= data@.skip(p as int));
        }
        let (t, e) = read_time_stamps(data, p, data[pos + 9])?;
        p = e;
        Some(t)
    } else {
        None
    };
    Ok((
        SLConfigDescriptorCustom {
            use_access_unit_start_flag: f & 0x80 != 0,
            use_access_unit_end_flag: f & 0x40 != 0,
            use_random_access_point_flag: f & 0x20 != 0,
            has_random_access_units_only_flag: f & 0x10 != 0,
            use_padding_flag: f & 0x08 != 0,
            use_time_stamps_flag: f & 0x04 != 0,
            use_idle_flag: f & 0x02 != 0,
            duration_flag: f & 0x01 != 0,
            time_stamp_resolution: read_u32_at(data, pos + 1),
            ocr_resolution: read_u32_at(data, pos + 5),
            time_stamp_length: data[pos + 9],
            ocr_length: data[pos + 10],
            au_length: data[pos + 11],
            instant_bitrate_length: data[pos + 12],
            degradation_priority_length: ((w & 0xF000u16) >> 12u16) as u8,
            au_seq_num_length: aus,
            packet_seq_num_length: psn,
            reserved: (w & 3u16) as u8,
            duration,
            time_stamps,
        },
        p,
    ))
}

/// Writes a custom configuration that can be written.
pub fn write_sl_custom(out: &mut Vec<u8>, c: &SLConfigDescriptorCustom)
    requires
        sl_custom_writable(*c),
    ensures
        final(out)@ == old(out)@ + sl_custom_bytes(*c),
{
    let ghost before = out@;
    let flags: u8 = (if c.use_access_unit_start_flag { 0x80u8 } else { 0u8 }) | (if c.use_access_unit_end_flag {
        0x40u8
    } else {
        0u8
    }) | (if c.use_random_access_point_flag { 0x20u8 } else { 0u8 }) | (if c.has_random_access_units_only_flag {
        0x10u8
    } else {
        0u8
    }) | (if c.use_padding_flag { 0x08u8 } else { 0u8 }) | (if c.use_time_stamps_flag { 0x04u8 } else { 0u8 }) | (
    if c.use_idle_flag { 0x02u8 } else { 0u8 }) | (if c.duration_flag { 0x01u8 } else { 0u8 });
    out.push(flags);
    write_u32(out, c.time_stamp_resolution);
    write_u32(out, c.ocr_resolution);
    out.push(c.time_stamp_length);
    out.push(c.ocr_length);
    out.push(c.au_length);
    out.push(c.instant_bitrate_length);
    let word: u16 = (((c.degradation_priority_length as u16) << 12u16) | ((c.au_seq_num_length as u16) << 7u16) | ((
    c.packet_seq_num_length as u16) << 2u16) | (c.reserved as u16)) as u16;
    write_u16(out, word);
    let ghost mid = out@;
    if c.duration_flag {
        match &c.duration {
            Some(d) => {
                let _ = d.serialize(out);
            },
            None => {},
        }
    }
    let ghost mid2 = out@;
    if c.use_time_stamps_flag {
        match &c.time_stamps {
            Some(t) => write_time_stamps(out, t, c.time_stamp_length),
            None => {},
        }
    }
    proof {
        assert(out@ =~= before + sl_custom_bytes(*c));
    }
}

// ---------------------------------------------------------------------------
// The descriptor.
// ---------------------------------------------------------------------------

/// The payload of a sync layer configuration descriptor: the predefined byte, then the
/// custom configuration where it is custom.
pub open spec fn sl_payload_bytes(d: SLConfigDescriptor) -> Seq<u8> {
    seq![d.predefined.0] + if d.predefined.0 == 0 {
        sl_custom_bytes(d.custom.unwrap())
    } else {
        Seq::empty()
    }
}

/// Reading a sync layer configuration descriptor: the base descriptor, then within the
/// window that it gives the predefined byte and, where it is 0, the custom
/// configuration; the descriptor consumes its whole window.
pub open spec fn sl_parse(s: Seq<u8>) -> SpecParse<SLConfigDescriptor> {
    match BaseDescriptor::spec_parse(s) {
        Err(e) => Err(e),
        Ok((b, h)) => {
            let w = descriptor_window(s.skip(h), b.size_of_instance);
            if w.len() < 1 {
                Err(IsoError::UnexpectedEof)
            } else if w[0] == 0 {
                match sl_custom_parse(w.skip(1)) {
                    Ok((c, _)) => Ok(
                        (SLConfigDescriptor { predefined: SLConfigDescriptorPredefined(0), custom: Some(c) }, h + w.len()),
                    ),
                    Err(e) => Err(e),
                }
            } else {
                Ok((SLConfigDescriptor { predefined: SLConfigDescriptorPredefined(w[0]), custom: None }, h + w.len()))
            }
        },
    }
}

impl View for SLConfigDescriptorCustom {
    type V = SLConfigDescriptorCustom;

    open spec fn view(&self) -> SLConfigDescriptorCustom {
        *self
    }
}

impl View for SLConfigDescriptor {
    type V = SLConfigDescriptor;

    open spec fn view(&self) -> SLConfigDescriptor {
        *self
    }
}

impl IsoSized for SLConfigDescriptor {
    /// The base descriptor, whose size field holds the payload size in 32 bits, then
    /// the payload.
    open spec fn spec_size(&self) -> nat {
        1 + vlq_len((sl_payload_size(*self) as u32) as nat) + sl_payload_size(*self)
    }

    fn size(&self) -> (n: usize) {
        let b = self.base_descriptor();
        let payload = 1 + match &self.custom {
            Some(c) => c.size(),
            None => 0,
        };
        1 + vlq_len_exec(b.size_of_instance) + payload
    }
}

impl Wire for SLConfigDescriptor {
    open spec fn spec_parse(s: Seq<u8>) -> SpecParse<SLConfigDescriptor> {
        sl_parse(s)
    }

    /// The custom configuration is present exactly where the descriptor is custom, and
    /// can be written.
    open spec fn spec_writable(v: SLConfigDescriptor) -> bool {
        &&& (v.custom is Some) == (v.predefined.0 == 0)
        &&& (v.custom matches Some(c) ==> sl_custom_writable(c))
    }

    open spec fn spec_serialize(v: SLConfigDescriptor) -> Seq<u8> {
        BaseDescriptor::spec_serialize(
            BaseDescriptor {
                tag: DescriptorTag(SL_CONFIG_DESCR_TAG),
                size_of_instance: sl_payload_bytes(v).len() as u32,
            },
        ) + sl_payload_bytes(v)
    }

    /// The custom configuration fits its limits.
    open spec fn spec_canonical(v: SLConfigDescriptor) -> bool {
        v.custom matches Some(c) ==> sl_custom_canonical(c)
    }

    proof fn lemma_parse_len(s: Seq<u8>) {
        BaseDescriptor::lemma_parse_len(s);
    }

    proof fn lemma_size(x: SLConfigDescriptor) {
        if let Some(c) = x.custom {
            lemma_sl_custom_len(c);
        }
        let b = BaseDescriptor {
            tag: DescriptorTag(SL_CONFIG_DESCR_TAG),
            size_of_instance: sl_payload_bytes(x).len() as u32,
        };
        BaseDescriptor::lemma_size(b);
    }

    #[verifier::spinoff_prover]
    #[verifier::rlimit(60)]
    proof fn lemma_roundtrip(v: SLConfigDescriptor, rest: Seq<u8>) {
        let p = sl_payload_bytes(v);
        if let Some(c) = v.custom {
            lemma_sl_custom_roundtrip(c, Seq::empty());
            assert(sl_custom_bytes(c) + Seq::<u8>::empty() =~= sl_custom_bytes(c));
        }
        let b = BaseDescriptor { tag: DescriptorTag(SL_CONFIG_DESCR_TAG), size_of_instance: p.len() as u32 };
        let bs = BaseDescriptor::spec_serialize(b);
        BaseDescriptor::lemma_roundtrip(b, p + rest);
        BaseDescriptor::lemma_size(b);
        let s = Self::spec_serialize(v) + rest;
        assert(s =~= bs + (p + rest));
        assert(s.skip(bs.len() as int) =~= p + rest);
        let w = descriptor_window(s.skip(bs.len() as int), b.size_of_instance);
        assert(w =~= p);
        assert(w.skip(1) =~= p.skip(1));
        if v.predefined.0 == 0 {
            assert(p.skip(1) =~= sl_custom_bytes(v.custom.unwrap()));
        }
    }

    #[verifier::rlimit(40)]
    fn parse(data: &[u8], pos: usize) -> (r: Result<(SLConfigDescriptor, usize), IsoError>) {
        let ghost s = data@.skip(pos as int);
        let (b, h) = BaseDescriptor::parse(data, pos)?;
        proof {
            BaseDescriptor::lemma_parse_len(s);
            assert(s.skip(h - pos) =~= data@.skip(h as int));
        }
        let end = if ((data.len() - h) as u64) >= (b.size_of_instance as u64) {
            h + b.size_of_instance as usize
        } else {
            data.len()
        };
        let w = vstd::slice::slice_subrange(data, h, end);
        proof {
            assert(w@ =~= descriptor_window(data@.skip(h as int), b.size_of_instance));
        }
        if w.len() < 1 {
            return Err(IsoError::UnexpectedEof);
        }
        if w[0] == 0 {
            proof {
                assert(w@.skip(1) =~= w@.skip(1));
            }
            let (c, _) = read_sl_custom(w, 1)?;
            Ok((SLConfigDescriptor { predefined: SLConfigDescriptorPredefined(0), custom: Some(c) }, end))
        } else {
            Ok((SLConfigDescriptor { predefined: SLConfigDescriptorPredefined(w[0]), custom: None }, end))
        }
    }

    fn serialize(&self, out: &mut Vec<u8>) -> (r: Result<(), IsoError>) {
        let ghost before = out@;
        let custom_ok = match &self.custom {
            Some(c) => self.predefined.0 == 0 && (c.duration.is_some() == c.duration_flag) && (c.time_stamps.is_some()
                == c.use_time_stamps_flag) && (!c.use_time_stamps_flag || c.time_stamp_length <= 64),
            None => self.predefined.0 != 0,
        };
        if !custom_ok {
            proof {
                lemma_append_prefix(before, Seq::empty());
                assert(before + Seq::<u8>::empty() =~= before);
            }
            return Err(IsoError::InvalidData);
        }
        let mut payload: Vec<u8> = Vec::new();
        payload.push(self.predefined.0);
        if self.predefined.0 == 0 {
            match &self.custom {
                Some(c) => write_sl_custom(&mut payload, c),
                None => {},
            }
        }
        proof {
            assert(payload@ =~= sl_payload_bytes(*self));
        }
        let b = BaseDescriptor { tag: DescriptorTag(SL_CONFIG_DESCR_TAG), size_of_instance: payload.len() as u32 };
        let _ = b.serialize(out);
        write_bytes(out, payload.as_slice());
        proof {
            assert(out@ =~= before + Self::spec_serialize(*self));
            lemma_append_prefix(before, Self::spec_serialize(*self));
        }
        Ok(())
    }
}

/// A custom configuration that can be written is as long as the size that it reports.
pub proof fn lemma_sl_custom_len(c: SLConfigDescriptorCustom)
    requires
        sl_custom_writable(c),
    ensures
        sl_custom_bytes(c).len() == sl_custom_size(c),
{
    if c.duration_flag {
        SLConfigDescriptorDuration::lemma_size(c.duration.unwrap());
    }
    if c.use_time_stamps_flag {
        lemma_be_bytes(ts_value(c.time_stamps.unwrap(), c.time_stamp_length), ts_width(c.time_stamp_length));
    }
}


/// A custom sync layer configuration (ISO/IEC 14496-1 - 7.3.2.3): byte 0 holds the
/// flags from the top bit down (access unit start, access unit end, random access
/// point, random access units only, padding, time stamps, idle, duration); the time
/// stamp resolution is spelled by bytes 1..5 and the OCR resolution by 5..9; bytes 9,
/// 10, 11 and 12 are the time stamp, OCR, access unit and instant bitrate lengths;
/// the word of bytes 13..15 holds the degradation priority length in its top four
/// bits, then five bits of sequence number length, five of packet sequence number
/// length and two reserved bits; with the duration flag the time scale, access unit
/// duration and composition unit duration follow, spelled by bytes 15..19, 19..21 and
/// 21..23.
pub proof fn lemma_sl_custom_layout(s: Seq<u8>)
    ensures
        s.len() >= 15 ==> (sl_custom_parse(s) matches Ok((c, _)) ==> ({
            let f = s[0];
            let w = crate::codec::be_int(s, 13, 2);
            &&& c.use_access_unit_start_flag == (f / 0x80 % 2 == 1)
            &&& c.use_access_unit_end_flag == (f / 0x40 % 2 == 1)
            &&& c.use_random_access_point_flag == (f / 0x20 % 2 == 1)
            &&& c.has_random_access_units_only_flag == (f / 0x10 % 2 == 1)
            &&& c.use_padding_flag == (f / 8 % 2 == 1)
            &&& c.use_time_stamps_flag == (f / 4 % 2 == 1)
            &&& c.use_idle_flag == (f / 2 % 2 == 1)
            &&& c.duration_flag == (f % 2 == 1)
            &&& c.time_stamp_resolution == crate::codec::be_int(s, 1, 4)
            &&& c.ocr_resolution == crate::codec::be_int(s, 5, 4)
            &&& c.time_stamp_length == s[9]
            &&& c.ocr_length == s[10]
            &&& c.au_length == s[11]
            &&& c.instant_bitrate_length == s[12]
            &&& c.degradation_priority_length == w / 0x1000
            &&& c.au_seq_num_length == w / 0x80 % 32
            &&& c.packet_seq_num_length == w / 4 % 32
            &&& c.reserved == w % 4
            &&& c.duration_flag ==> (c.duration matches Some(d) && d.time_scale == crate::codec::be_int(s, 15, 4)
                && d.access_unit_duration == crate::codec::be_int(s, 19, 2) && d.composition_unit_duration
                == crate::codec::be_int(s, 21, 2))
            &&& !c.duration_flag ==> c.duration is None
        })),
{
    if s.len() >= 15 {
        let f = s[0];
        let w = be_u16_at(s, 13);
        crate::codec::lemma_be_int_u32(s, 1);
        crate::codec::lemma_be_int_u32(s, 5);
        crate::codec::lemma_be_int_u16(s, 13);
        assert(((f & 0x80) != 0) == (f / 0x80 % 2 == 1) && ((f & 0x40) != 0) == (f / 0x40 % 2 == 1) && ((f & 0x20)
            != 0) == (f / 0x20 % 2 == 1) && ((f & 0x10) != 0) == (f / 0x10 % 2 == 1) && ((f & 8) != 0) == (f / 8 % 2
            == 1) && ((f & 4) != 0) == (f / 4 % 2 == 1) && ((f & 2) != 0) == (f / 2 % 2 == 1) && ((f & 1) != 0) == (f
            % 2 == 1) && ((w & 0xF000u16) >> 12u16) == w / 0x1000 && ((w & 0x0F80u16) >> 7u16) == w / 0x80 % 32 && ((w
            & 0x007Cu16) >> 2u16) == w / 4 % 32 && (w & 3u16) == w % 4) by (bit_vector);
        let t = s.skip(15);
        crate::object_description::lemma_sl_duration_layout(t);
        if t.len() >= 8 {
            assert(crate::codec::be_int(t, 0, 4) == crate::codec::be_int(s, 15, 4)) by {
                assert(t.subrange(0, 4) =~= s.subrange(15, 19));
                crate::codec::lemma_be_int_subrange(t, s, 0, 15, 4);
            }
            assert(crate::codec::be_int(t, 4, 2) == crate::codec::be_int(s, 19, 2)) by {
                assert(t.subrange(4, 6) =~= s.subrange(19, 21));
                crate::codec::lemma_be_int_subrange(t, s, 4, 19, 2);
            }
            assert(crate::codec::be_int(t, 6, 2) == crate::codec::be_int(s, 21, 2)) by {
                assert(t.subrange(6, 8) =~= s.subrange(21, 23));
                crate::codec::lemma_be_int_subrange(t, s, 6, 21, 2);
            }
        }
    }
}

} // verus!
