//! Sample grouping boxes (ISO/IEC 14496-12 - 8.9).

use vstd::arithmetic::power2::pow2;
use vstd::prelude::*;

use crate::codec::lemma_div_mod_step;

use crate::codec::{
    be_u16_at, be_u24_at, be_u32_at, fourcc_at, lemma_fourcc_at, lemma_u24_at, read_fourcc_at, read_u24_at, write_fourcc, write_u24, lemma_append_prefix, lemma_u16_at, lemma_u32_at, pow2_u64,
    read_u16_at, read_u32_at,
    u16_bytes, u24_bytes, u32_bytes, write_u16, write_u32, write_u8, IsoError, SpecParse,
};
use crate::frame::{add_header_size, add_header_size_exec, BoxBody};
use crate::header::{spec_uuid_fourcc, FullBoxHeader};
use crate::wire::{
    lemma_count_roundtrip, lemma_size_seq, lemma_size_seq_mono, parse_count, parse_counted, ser_seq,
    serialize_all, size_all, size_seq, views, write_matches, IsoSized, Wire,
};

verus! {

// ---------------------------------------------------------------------------
// Field widths of the compact sample to group box.
// ---------------------------------------------------------------------------

/// The number of bits that a size code stands for: 4, 8, 16 or 32.
pub open spec fn code_bits(code: u8) -> nat {
    if code == 0 {
        4
    } else if code == 1 {
        8
    } else if code == 2 {
        16
    } else {
        32
    }
}

/// The number of whole bytes of a field with size code 1, 2 or 3.
pub open spec fn code_bytes(code: u8) -> nat {
    if code == 1 {
        1
    } else if code == 2 {
        2
    } else {
        4
    }
}

/// The number of bits that a size code stands for.
pub fn f(index: u8) -> (r: u8)
    requires
        index < 4,
    ensures
        r == code_bits(index),
{
    match index {
        0 => 4,
        1 => 8,
        2 => 16,
        _ => 32,
    }
}

/// An unsigned field of 1, 2 or 4 bytes (size code 1, 2 or 3) at offset `i`.
pub open spec fn uint_at(s: Seq<u8>, i: int, code: u8) -> u32 {
    if code == 1 {
        s[i] as u32
    } else if code == 2 {
        be_u16_at(s, i) as u32
    } else {
        be_u32_at(s, i)
    }
}

/// The bytes of the low 8, 16 or 32 bits of `v` (size code 1, 2 or 3).
pub open spec fn uint_bytes(v: u32, code: u8) -> Seq<u8> {
    if code == 1 {
        seq![(v % 0x100) as u8]
    } else if code == 2 {
        u16_bytes((v % 0x10000) as u16)
    } else {
        u32_bytes(v)
    }
}

pub fn read_uint_at(data: &[u8], pos: usize, code: u8) -> (v: u32)
    requires
        1 <= code <= 3,
        pos + code_bytes(code) <= data@.len(),
    ensures
        v == uint_at(data@, pos as int, code),
{
    if code == 1 {
        data[pos] as u32
    } else if code == 2 {
        read_u16_at(data, pos) as u32
    } else {
        read_u32_at(data, pos)
    }
}

pub fn write_uint(out: &mut Vec<u8>, v: u32, code: u8)
    requires
        1 <= code <= 3,
    ensures
        final(out)@ == old(out)@ + uint_bytes(v, code),
{
    if code == 1 {
        write_u8(out, (v % 0x100) as u8);
    } else if code == 2 {
        write_u16(out, (v % 0x10000) as u16);
    } else {
        write_u32(out, v);
    }
}

// ---------------------------------------------------------------------------
// Flags.
// ---------------------------------------------------------------------------

/// Flags for [`CompactSampleToGroupBox`].
#[derive(Debug, PartialEq, Eq, Clone, Copy, Structural)]
pub struct CompactSampleToGroupBoxFlags {
    /// When set, the most significant bit of every index tells whether the group
    /// description is local to the fragment.
    pub index_msb_indicates_fragment_local_description: bool,
    /// When set, the grouping type parameter is present.
    pub grouping_type_parameter_present: bool,
    /// Size code of the pattern lengths (0: 4 bits, 1: 8, 2: 16, 3: 32).
    pub pattern_size_code: u8,
    /// Size code of the sample counts.
    pub count_size_code: u8,
    /// Size code of the sample group description indices.
    pub index_size_code: u8,
}

impl View for CompactSampleToGroupBoxFlags {
    type V = CompactSampleToGroupBoxFlags;

    open spec fn view(&self) -> CompactSampleToGroupBoxFlags {
        *self
    }
}

impl CompactSampleToGroupBoxFlags {
    /// The flags held in the low byte of the 24 flag bits.
    pub open spec fn spec_from_bits(v: u32) -> CompactSampleToGroupBoxFlags {
        CompactSampleToGroupBoxFlags {
            index_msb_indicates_fragment_local_description: v / 0x80 % 2 != 0,
            grouping_type_parameter_present: v / 0x40 % 2 != 0,
            pattern_size_code: (v / 0x10 % 4) as u8,
            count_size_code: (v / 4 % 4) as u8,
            index_size_code: (v % 4) as u8,
        }
    }

    /// The 24 flag bits of these flags.
    pub open spec fn spec_bits(self) -> u32 {
        ((if self.index_msb_indicates_fragment_local_description { 0x80int } else { 0 }) + (
        if self.grouping_type_parameter_present { 0x40int } else { 0 }) + self.pattern_size_code
            * 0x10 + self.count_size_code * 4 + self.index_size_code) as u32
    }

    /// Every size code fits in its two bits.
    pub open spec fn codes_valid(self) -> bool {
        self.pattern_size_code < 4 && self.count_size_code < 4 && self.index_size_code < 4
    }

    pub fn from_bits(v: u32) -> (r: CompactSampleToGroupBoxFlags)
        ensures
            r == Self::spec_from_bits(v),
            r.codes_valid(),
    {
        CompactSampleToGroupBoxFlags {
            index_msb_indicates_fragment_local_description: v / 0x80 % 2 != 0,
            grouping_type_parameter_present: v / 0x40 % 2 != 0,
            pattern_size_code: (v / 0x10 % 4) as u8,
            count_size_code: (v / 4 % 4) as u8,
            index_size_code: (v % 4) as u8,
        }
    }

    pub fn to_bits(&self) -> (r: u32)
        requires
            self.codes_valid(),
        ensures
            r == self.spec_bits(),
            r < 0x100,
    {
        let mut v: u32 = 0;
        if self.index_msb_indicates_fragment_local_description {
            v = v + 0x80;
        }
        if self.grouping_type_parameter_present {
            v = v + 0x40;
        }
        v + (self.pattern_size_code as u32) * 0x10 + (self.count_size_code as u32) * 4
            + self.index_size_code as u32
    }

    pub proof fn lemma_bits_roundtrip(self)
        requires
            self.codes_valid(),
        ensures
            Self::spec_from_bits(self.spec_bits()) == self,
            self.spec_bits() < 0x100,
    {
        let m: int = if self.index_msb_indicates_fragment_local_description { 1 } else { 0 };
        let g: int = if self.grouping_type_parameter_present { 1 } else { 0 };
        let p = self.pattern_size_code as int;
        let c = self.count_size_code as int;
        let i = self.index_size_code as int;
        let v = self.spec_bits() as int;
        assert(v == m * 128 + g * 64 + p * 16 + c * 4 + i);
        vstd::arithmetic::div_mod::lemma_fundamental_div_mod_converse(v, 4, m * 32 + g * 16 + p * 4 + c, i);
        vstd::arithmetic::div_mod::lemma_fundamental_div_mod_converse(v / 4, 4, m * 8 + g * 4 + p, c);
        vstd::arithmetic::div_mod::lemma_fundamental_div_mod_converse(v, 16, m * 8 + g * 4 + p, c * 4 + i);
        vstd::arithmetic::div_mod::lemma_fundamental_div_mod_converse(v / 16, 4, m * 2 + g, p);
        vstd::arithmetic::div_mod::lemma_fundamental_div_mod_converse(v, 64, m * 2 + g, p * 16 + c * 4 + i);
        vstd::arithmetic::div_mod::lemma_fundamental_div_mod_converse(v / 64, 2, m, g);
        vstd::arithmetic::div_mod::lemma_fundamental_div_mod_converse(v, 128, m, g * 64 + p * 16 + c * 4 + i);
        vstd::arithmetic::div_mod::lemma_fundamental_div_mod_converse(v / 128, 2, 0, m);
    }
}

// ---------------------------------------------------------------------------
// Patterns.
// ---------------------------------------------------------------------------

/// A pattern in [`CompactSampleToGroupBox`].
#[derive(Debug, PartialEq, Eq, Clone, Copy, Structural)]
pub struct CompactSampleToGroupBoxPattern {
    /// The number of indices that the pattern holds.
    pub pattern_length: u32,
    /// The number of samples that use the pattern.
    pub sample_count: u32,
}

impl View for CompactSampleToGroupBoxPattern {
    type V = CompactSampleToGroupBoxPattern;

    open spec fn view(&self) -> CompactSampleToGroupBoxPattern {
        *self
    }
}

/// Whether the pattern size code and the count size code are either both 0 or both
/// not 0, as the format asks.
pub open spec fn pattern_codes_match(flags: CompactSampleToGroupBoxFlags) -> bool {
    (flags.pattern_size_code == 0) == (flags.count_size_code == 0)
}

/// The number of bytes of one pattern: one byte holds both 4-bit fields, otherwise
/// each field has its own bytes.
pub open spec fn pattern_width(flags: CompactSampleToGroupBoxFlags) -> nat {
    if flags.pattern_size_code == 0 {
        1
    } else {
        code_bytes(flags.pattern_size_code) + code_bytes(flags.count_size_code)
    }
}

/// The pattern encoded at offset `i`.
pub open spec fn pattern_at(
    s: Seq<u8>,
    i: int,
    flags: CompactSampleToGroupBoxFlags,
) -> CompactSampleToGroupBoxPattern {
    if flags.pattern_size_code == 0 {
        CompactSampleToGroupBoxPattern {
            pattern_length: (s[i] / 0x10) as u32,
            sample_count: (s[i] % 0x10) as u32,
        }
    } else {
        CompactSampleToGroupBoxPattern {
            pattern_length: uint_at(s, i, flags.pattern_size_code),
            sample_count: uint_at(s, i + code_bytes(flags.pattern_size_code), flags.count_size_code),
        }
    }
}

/// The bytes of one pattern (the low bits of each field).
pub open spec fn pattern_bytes(
    p: CompactSampleToGroupBoxPattern,
    flags: CompactSampleToGroupBoxFlags,
) -> Seq<u8> {
    if flags.pattern_size_code == 0 {
        seq![(p.pattern_length % 0x10 * 0x10 + p.sample_count % 0x10) as u8]
    } else {
        uint_bytes(p.pattern_length, flags.pattern_size_code) + uint_bytes(
            p.sample_count,
            flags.count_size_code,
        )
    }
}

/// Reading one pattern.
pub open spec fn spec_parse_pattern(
    s: Seq<u8>,
    flags: CompactSampleToGroupBoxFlags,
) -> SpecParse<CompactSampleToGroupBoxPattern> {
    if !pattern_codes_match(flags) {
        Err(IsoError::InvalidData)
    } else if s.len() < pattern_width(flags) {
        Err(IsoError::UnexpectedEof)
    } else {
        Ok((pattern_at(s, 0, flags), pattern_width(flags) as int))
    }
}

/// A pattern whose fields fit the widths that the flags give them.
pub open spec fn pattern_fits(
    p: CompactSampleToGroupBoxPattern,
    flags: CompactSampleToGroupBoxFlags,
) -> bool {
    p.pattern_length < pow2(code_bits(flags.pattern_size_code)) && p.sample_count < pow2(
        code_bits(flags.count_size_code),
    )
}

impl CompactSampleToGroupBoxPattern {
    /// Reads one pattern with the widths that the flags give.
    pub fn parse_with(
        data: &[u8],
        pos: usize,
        flags: CompactSampleToGroupBoxFlags,
    ) -> (r: Result<(CompactSampleToGroupBoxPattern, usize), IsoError>)
        requires
            pos <= data@.len(),
            flags.pattern_size_code < 4,
            flags.count_size_code < 4,
        ensures
            crate::wire::parse_matches(r, spec_parse_pattern(data@.skip(pos as int), flags), pos),
    {
        if (flags.pattern_size_code == 0) != (flags.count_size_code == 0) {
            return Err(IsoError::InvalidData);
        }
        let avail = data.len() - pos;
        if flags.pattern_size_code == 0 {
            if avail < 1 {
                return Err(IsoError::UnexpectedEof);
            }
            let byte = data[pos];
            Ok((
                CompactSampleToGroupBoxPattern {
                    pattern_length: (byte / 0x10) as u32,
                    sample_count: (byte % 0x10) as u32,
                },
                pos + 1,
            ))
        } else {
            let wp: usize = if flags.pattern_size_code == 1 {
                1
            } else if flags.pattern_size_code == 2 {
                2
            } else {
                4
            };
            let wc: usize = if flags.count_size_code == 1 {
                1
            } else if flags.count_size_code == 2 {
                2
            } else {
                4
            };
            if avail < wp + wc {
                return Err(IsoError::UnexpectedEof);
            }
            let pattern_length = read_uint_at(data, pos, flags.pattern_size_code);
            let sample_count = read_uint_at(data, pos + wp, flags.count_size_code);
            proof {
                let s = data@.skip(pos as int);
                assert(uint_at(s, 0, flags.pattern_size_code) == pattern_length);
                assert(uint_at(s, wp as int, flags.count_size_code) == sample_count);
            }
            Ok((CompactSampleToGroupBoxPattern { pattern_length, sample_count }, pos + wp + wc))
        }
    }

    /// Writes one pattern with the widths that the flags give.
    pub fn serialize_with(&self, out: &mut Vec<u8>, flags: CompactSampleToGroupBoxFlags)
        requires
            flags.pattern_size_code < 4,
            flags.count_size_code < 4,
            pattern_codes_match(flags),
        ensures
            final(out)@ == old(out)@ + pattern_bytes(*self, flags),
    {
        if flags.pattern_size_code == 0 {
            write_u8(out, ((self.pattern_length % 0x10) * 0x10 + self.sample_count % 0x10) as u8);
        } else {
            write_uint(out, self.pattern_length, flags.pattern_size_code);
            write_uint(out, self.sample_count, flags.count_size_code);
            assert(final(out)@ =~= old(out)@ + pattern_bytes(*self, flags));
        }
    }
}

// ---------------------------------------------------------------------------
// Sample group description indices.
// ---------------------------------------------------------------------------

/// The `sample_group_description_index[j][k]` of a [`CompactSampleToGroupBox`].
#[derive(Debug, PartialEq, Eq, Clone, Copy, Structural)]
pub struct CompactSampleToGroupBoxSampleGroupDescriptionIndex {
    /// The index of the sample group entry, or 0 for no group.
    pub value: u32,
    /// Present when the flags say that the most significant bit tells whether the
    /// description is local to the fragment.
    pub fragment_local: Option<bool>,
}

impl View for CompactSampleToGroupBoxSampleGroupDescriptionIndex {
    type V = CompactSampleToGroupBoxSampleGroupDescriptionIndex;

    open spec fn view(&self) -> CompactSampleToGroupBoxSampleGroupDescriptionIndex {
        *self
    }
}

/// The number written for an index in a field of `size` bits: with a fragment-local
/// flag, the flag in the top bit and the value in the bits below; otherwise the
/// value in all `size` bits.
pub open spec fn index_to_value(
    idx: CompactSampleToGroupBoxSampleGroupDescriptionIndex,
    size: nat,
) -> u32 {
    match idx.fragment_local {
        Some(fl) => ((if fl { pow2((size - 1) as nat) } else { 0 }) + (idx.value as nat) % pow2(
            (size - 1) as nat,
        )) as u32,
        None => ((idx.value as nat) % pow2(size)) as u32,
    }
}

/// The index read from a field of `size` bits holding `raw`.
pub open spec fn index_from_raw(
    raw: u32,
    size: nat,
    msb: bool,
) -> CompactSampleToGroupBoxSampleGroupDescriptionIndex {
    if msb {
        CompactSampleToGroupBoxSampleGroupDescriptionIndex {
            value: ((raw as nat) % pow2((size - 1) as nat)) as u32,
            fragment_local: Some(raw >= pow2((size - 1) as nat)),
        }
    } else {
        CompactSampleToGroupBoxSampleGroupDescriptionIndex { value: raw, fragment_local: None }
    }
}

impl CompactSampleToGroupBoxSampleGroupDescriptionIndex {
    /// Converts this value to a number with given size in bits.
    pub fn to_value(&self, size: u8) -> (r: u32)
        requires
            1 <= size <= 32,
        ensures
            r == index_to_value(*self, size as nat),
    {
        let half = pow2_u64(size - 1);
        proof {
            vstd::arithmetic::power2::lemma_pow2_unfold(size as nat);
        }
        match self.fragment_local {
            Some(fl) => {
                let top: u64 = if fl { half } else { 0 };
                (top + (self.value as u64) % half) as u32
            },
            None => ((self.value as u64) % (half * 2)) as u32,
        }
    }

    /// The index held in a field of `size` bits, with or without a fragment-local flag
    /// in its top bit.
    pub fn from_raw(raw: u32, size: u8, msb: bool) -> (r: CompactSampleToGroupBoxSampleGroupDescriptionIndex)
        requires
            1 <= size <= 32,
        ensures
            r == index_from_raw(raw, size as nat, msb),
    {
        if msb {
            let half = pow2_u64(size - 1);
            CompactSampleToGroupBoxSampleGroupDescriptionIndex {
                value: ((raw as u64) % half) as u32,
                fragment_local: Some((raw as u64) >= half),
            }
        } else {
            CompactSampleToGroupBoxSampleGroupDescriptionIndex { value: raw, fragment_local: None }
        }
    }
}

/// An index whose value fits the bits that it is written with, and that carries a
/// fragment-local flag exactly when the flags ask for one.
pub open spec fn index_fits(
    idx: CompactSampleToGroupBoxSampleGroupDescriptionIndex,
    size: nat,
    msb: bool,
) -> bool {
    &&& idx.fragment_local is Some == msb
    &&& (msb ==> idx.value < pow2((size - 1) as nat))
    &&& (!msb ==> idx.value < pow2(size))
}

pub proof fn lemma_index_roundtrip(
    idx: CompactSampleToGroupBoxSampleGroupDescriptionIndex,
    size: nat,
    msb: bool,
)
    requires
        1 <= size <= 32,
        index_fits(idx, size, msb),
    ensures
        index_from_raw(index_to_value(idx, size), size, msb) == idx,
        index_to_value(idx, size) < pow2(size),
{
    vstd::arithmetic::power2::lemma_pow2_unfold(size);
    vstd::arithmetic::power2::lemma_pow2_pos((size - 1) as nat);
    vstd::arithmetic::power2::lemma2_to64();
    if size < 32 {
        vstd::arithmetic::power2::lemma_pow2_strictly_increases(size, 32);
    }
    if msb {
        let h = pow2((size - 1) as nat);
        let v = idx.value as int;
        let t: int = if idx.fragment_local == Some(true) { h as int } else { 0 };
        assert(v % (h as int) == v) by {
            vstd::arithmetic::div_mod::lemma_small_mod(v as nat, h as nat);
        }
        if t == h {
            vstd::arithmetic::div_mod::lemma_fundamental_div_mod_converse(t + v, h as int, 1, v);
        } else {
            vstd::arithmetic::div_mod::lemma_small_mod(v as nat, h as nat);
        }
    } else {
        vstd::arithmetic::div_mod::lemma_small_mod(idx.value as nat, pow2(size));
    }
}

// ---------------------------------------------------------------------------
// The pattern and index regions of a compact sample to group box.
// ---------------------------------------------------------------------------

/// The patterns stored one after the other from offset `i`.
pub open spec fn patterns_at(
    s: Seq<u8>,
    i: int,
    flags: CompactSampleToGroupBoxFlags,
    count: nat,
) -> Seq<CompactSampleToGroupBoxPattern> {
    Seq::new(count, |k: int| pattern_at(s, i + k * pattern_width(flags), flags))
}

/// The bytes of the patterns, one after the other.
pub open spec fn patterns_bytes(
    pats: Seq<CompactSampleToGroupBoxPattern>,
    flags: CompactSampleToGroupBoxFlags,
) -> Seq<u8> {
    Seq::new(
        pats.len() * pattern_width(flags),
        |i: int| pattern_bytes(pats[i / pattern_width(flags) as int], flags)[i % pattern_width(flags) as int],
    )
}

/// The sum of the pattern lengths.
pub open spec fn pattern_total(pats: Seq<CompactSampleToGroupBoxPattern>) -> nat
    decreases pats.len(),
{
    if pats.len() == 0 {
        0
    } else {
        pattern_total(pats.drop_last()) + pats.last().pattern_length as nat
    }
}

/// The raw number of the `k`-th index of the index region that starts at `i`:
/// 4-bit indices are packed two to a byte, high nibble first.
pub open spec fn raw_index_at(s: Seq<u8>, i: int, code: u8, k: int) -> u32 {
    if code == 0 {
        (if k % 2 == 0 { s[i + k / 2] / 0x10 } else { s[i + k / 2] % 0x10 }) as u32
    } else {
        uint_at(s, i + k * code_bytes(code), code)
    }
}

/// The number of bytes of `n` indices.
pub open spec fn index_region_len(code: u8, n: nat) -> nat {
    if code == 0 {
        (n + 1) / 2
    } else {
        n * code_bytes(code)
    }
}

/// The `n` indices of the index region that starts at `i`.
pub open spec fn flat_indices(
    s: Seq<u8>,
    i: int,
    flags: CompactSampleToGroupBoxFlags,
    n: nat,
) -> Seq<CompactSampleToGroupBoxSampleGroupDescriptionIndex> {
    Seq::new(
        n,
        |k: int|
            index_from_raw(
                raw_index_at(s, i, flags.index_size_code, k),
                code_bits(flags.index_size_code),
                flags.index_msb_indicates_fragment_local_description,
            ),
    )
}

/// The flat list of indices cut into one list per pattern, of the pattern's length.
pub open spec fn group_indices<A>(flat: Seq<A>, pats: Seq<CompactSampleToGroupBoxPattern>) -> Seq<
    Seq<A>,
> {
    Seq::new(
        pats.len(),
        |j: int| flat.subrange(pattern_total(pats.take(j)) as int, pattern_total(pats.take(j + 1)) as int),
    )
}

/// The lists of indices, one after the other.
pub open spec fn flatten<A>(lists: Seq<Seq<A>>) -> Seq<A>
    decreases lists.len(),
{
    if lists.len() == 0 {
        Seq::empty()
    } else {
        flatten(lists.drop_last()) + lists.last()
    }
}

/// The bytes of the index region for the numbers `vals`.
pub open spec fn index_stream(vals: Seq<u32>, code: u8) -> Seq<u8> {
    if code == 0 {
        Seq::new(
            (vals.len() + 1) / 2,
            |b: int|
                (vals[2 * b] % 0x10 * 0x10 + (if 2 * b + 1 < vals.len() {
                    vals[2 * b + 1] % 0x10
                } else {
                    0
                })) as u8,
        )
    } else {
        Seq::new(
            vals.len() * code_bytes(code),
            |i: int| uint_bytes(vals[i / code_bytes(code) as int], code)[i % code_bytes(code) as int],
        )
    }
}

/// The numbers written for the indices.
pub open spec fn index_values(
    flat: Seq<CompactSampleToGroupBoxSampleGroupDescriptionIndex>,
    code: u8,
) -> Seq<u32> {
    flat.map_values(|x: CompactSampleToGroupBoxSampleGroupDescriptionIndex| index_to_value(x, code_bits(code)))
}

// ---------------------------------------------------------------------------
// Reading back the regions.
// ---------------------------------------------------------------------------


pub proof fn lemma_uint_at(s: Seq<u8>, i: int, v: u32, code: u8)
    requires
        1 <= code <= 3,
        0 <= i,
        i + code_bytes(code) <= s.len(),
        s.subrange(i, i + code_bytes(code)) == uint_bytes(v, code),
        v < pow2(code_bits(code)),
    ensures
        uint_at(s, i, code) == v,
        uint_bytes(v, code).len() == code_bytes(code),
{
    vstd::arithmetic::power2::lemma2_to64();
    if code == 1 {
        assert(s.subrange(i, i + 1)[0] == s[i]);
    } else if code == 2 {
        lemma_u16_at(s, i, (v % 0x10000) as u16);
    } else {
        lemma_u32_at(s, i, v);
    }
}

pub proof fn lemma_pattern_decode(
    s: Seq<u8>,
    i: int,
    p: CompactSampleToGroupBoxPattern,
    flags: CompactSampleToGroupBoxFlags,
)
    requires
        flags.codes_valid(),
        pattern_codes_match(flags),
        pattern_fits(p, flags),
        0 <= i,
        i + pattern_width(flags) <= s.len(),
        s.subrange(i, i + pattern_width(flags)) == pattern_bytes(p, flags),
    ensures
        pattern_at(s, i, flags) == p,
{
    vstd::arithmetic::power2::lemma2_to64();
    if flags.pattern_size_code == 0 {
        assert(s.subrange(i, i + 1)[0] == s[i]);
        let b = s[i] as int;
        assert(b == p.pattern_length * 16 + p.sample_count);
    } else {
        let wp = code_bytes(flags.pattern_size_code) as int;
        let wc = code_bytes(flags.count_size_code) as int;
        lemma_uint_at_len(p.pattern_length, flags.pattern_size_code);
        lemma_uint_at_len(p.sample_count, flags.count_size_code);
        assert(s.subrange(i, i + wp) =~= uint_bytes(p.pattern_length, flags.pattern_size_code)) by {
            assert forall|k: int| 0 <= k < wp implies s.subrange(i, i + wp)[k] == uint_bytes(
                p.pattern_length,
                flags.pattern_size_code,
            )[k] by {
                assert(s.subrange(i, i + wp + wc)[k] == s[i + k]);
            }
        }
        assert(s.subrange(i + wp, i + wp + wc) =~= uint_bytes(p.sample_count, flags.count_size_code)) by {
            assert forall|k: int| 0 <= k < wc implies s.subrange(i + wp, i + wp + wc)[k] == uint_bytes(
                p.sample_count,
                flags.count_size_code,
            )[k] by {
                assert(s.subrange(i, i + wp + wc)[wp + k] == s[i + wp + k]);
            }
        }
        lemma_uint_at(s, i, p.pattern_length, flags.pattern_size_code);
        lemma_uint_at(s, i + wp, p.sample_count, flags.count_size_code);
    }
}

pub proof fn lemma_uint_at_len(v: u32, code: u8)
    requires
        1 <= code <= 3,
    ensures
        uint_bytes(v, code).len() == code_bytes(code),
{
}

pub proof fn lemma_pattern_bytes_len(p: CompactSampleToGroupBoxPattern, flags: CompactSampleToGroupBoxFlags)
    requires
        flags.codes_valid(),
        pattern_codes_match(flags),
    ensures
        pattern_bytes(p, flags).len() == pattern_width(flags),
        pattern_width(flags) >= 1,
{
    if flags.pattern_size_code != 0 {
        lemma_uint_at_len(p.pattern_length, flags.pattern_size_code);
        lemma_uint_at_len(p.sample_count, flags.count_size_code);
    }
}

/// The patterns read back from their bytes.
pub proof fn lemma_patterns_region(
    s: Seq<u8>,
    i: int,
    pats: Seq<CompactSampleToGroupBoxPattern>,
    flags: CompactSampleToGroupBoxFlags,
)
    requires
        flags.codes_valid(),
        pats.len() > 0 ==> pattern_codes_match(flags),
        forall|k: int| 0 <= k < pats.len() ==> #[trigger] pattern_fits(pats[k], flags),
        0 <= i,
        i + pats.len() * pattern_width(flags) <= s.len(),
        s.subrange(i, i + pats.len() * pattern_width(flags)) == patterns_bytes(pats, flags),
    ensures
        patterns_at(s, i, flags, pats.len()) == pats,
{
    let w = pattern_width(flags) as int;
    assert forall|k: int| 0 <= k < pats.len() implies #[trigger] pattern_at(s, i + k * w, flags) == pats[k] by {
        lemma_pattern_bytes_len(pats[k], flags);
        vstd::arithmetic::mul::lemma_mul_is_distributive_add_other_way(w, k, 1);
        vstd::arithmetic::mul::lemma_mul_inequality(k + 1, pats.len() as int, w);
        assert(s.subrange(i + k * w, i + k * w + w) =~= pattern_bytes(pats[k], flags)) by {
            assert forall|r: int| 0 <= r < w implies s.subrange(i + k * w, i + k * w + w)[r]
                == pattern_bytes(pats[k], flags)[r] by {
                lemma_div_mod_step(k, w, r);
                assert(s.subrange(i, i + pats.len() * w)[k * w + r] == s[i + k * w + r]);
            }
        }
        lemma_pattern_decode(s, i + k * w, pats[k], flags);
    }
    assert(patterns_at(s, i, flags, pats.len()) =~= pats);
}

/// The numbers of the index region read back from its bytes.
pub proof fn lemma_index_stream_read(s: Seq<u8>, i: int, vals: Seq<u32>, code: u8, k: int)
    requires
        code < 4,
        forall|j: int| 0 <= j < vals.len() ==> #[trigger] vals[j] < pow2(code_bits(code)),
        0 <= i,
        0 <= k < vals.len(),
        i + index_region_len(code, vals.len()) <= s.len(),
        s.subrange(i, i + index_region_len(code, vals.len())) == index_stream(vals, code),
    ensures
        raw_index_at(s, i, code, k) == vals[k],
        index_stream(vals, code).len() == index_region_len(code, vals.len()),
{
    vstd::arithmetic::power2::lemma2_to64();
    let n = vals.len() as int;
    if code == 0 {
        let b = k / 2;
        assert(s.subrange(i, i + index_region_len(code, vals.len()))[b] == s[i + b]);
        assert(vals[k] < 16);
        if k % 2 == 0 {
            assert(2 * b == k);
            if 2 * b + 1 < n {
                assert(vals[2 * b + 1] < 16);
            }
        } else {
            assert(2 * b + 1 == k);
            assert(vals[2 * b] < 16);
        }
    } else {
        let cb = code_bytes(code) as int;
        vstd::arithmetic::mul::lemma_mul_is_distributive_add_other_way(cb, k, 1);
        vstd::arithmetic::mul::lemma_mul_inequality(k + 1, n, cb);
        lemma_uint_at_len(vals[k], code);
        assert(s.subrange(i + k * cb, i + k * cb + cb) =~= uint_bytes(vals[k], code)) by {
            assert forall|r: int| 0 <= r < cb implies s.subrange(i + k * cb, i + k * cb + cb)[r]
                == uint_bytes(vals[k], code)[r] by {
                lemma_div_mod_step(k, cb, r);
                assert(s.subrange(i, i + n * cb)[k * cb + r] == s[i + k * cb + r]);
            }
        }
        lemma_uint_at(s, i + k * cb, vals[k], code);
    }
}

pub proof fn lemma_flatten_push<A>(lists: Seq<Seq<A>>, x: Seq<A>)
    ensures
        flatten(lists.push(x)) == flatten(lists) + x,
{
    assert(lists.push(x).drop_last() =~= lists);
}

/// The lengths of the lists of a prefix add up to the pattern lengths of the same prefix.
pub proof fn lemma_flatten_take<A>(lists: Seq<Seq<A>>, pats: Seq<CompactSampleToGroupBoxPattern>, j: int)
    requires
        lists.len() == pats.len(),
        forall|m: int| 0 <= m < lists.len() ==> #[trigger] lists[m].len() == pats[m].pattern_length,
        0 <= j <= lists.len(),
    ensures
        flatten(lists.take(j)).len() == pattern_total(pats.take(j)),
        flatten(lists.take(j)) == flatten(lists).subrange(0, flatten(lists.take(j)).len() as int),
        flatten(lists.take(j)).len() <= flatten(lists).len(),
    decreases lists.len() - j,
{
    if j < lists.len() {
        lemma_flatten_take(lists, pats, j + 1);
        assert(lists.take(j + 1) =~= lists.take(j).push(lists[j]));
        assert(pats.take(j + 1).drop_last() =~= pats.take(j));
        lemma_flatten_push(lists.take(j), lists[j]);
        let a = flatten(lists.take(j));
        let b = flatten(lists.take(j + 1));
        assert(a =~= b.subrange(0, a.len() as int));
        assert(a =~= flatten(lists).subrange(0, a.len() as int));
    } else {
        assert(lists.take(j) =~= lists);
        assert(pats.take(j) =~= pats);
        lemma_flatten_pattern_total(lists, pats);
        assert(flatten(lists).subrange(0, flatten(lists).len() as int) =~= flatten(lists));
    }
}

pub proof fn lemma_flatten_pattern_total<A>(lists: Seq<Seq<A>>, pats: Seq<CompactSampleToGroupBoxPattern>)
    requires
        lists.len() == pats.len(),
        forall|m: int| 0 <= m < lists.len() ==> #[trigger] lists[m].len() == pats[m].pattern_length,
    ensures
        flatten(lists).len() == pattern_total(pats),
    decreases lists.len(),
{
    if lists.len() > 0 {
        let l2 = lists.drop_last();
        let p2 = pats.drop_last();
        assert forall|m: int| 0 <= m < l2.len() implies #[trigger] l2[m].len() == p2[m].pattern_length by {
            assert(l2[m] == lists[m]);
        }
        lemma_flatten_pattern_total(l2, p2);
    }
}

/// Cutting the flattened lists by the pattern lengths gives the lists back.
pub proof fn lemma_group_flatten<A>(lists: Seq<Seq<A>>, pats: Seq<CompactSampleToGroupBoxPattern>)
    requires
        lists.len() == pats.len(),
        forall|m: int| 0 <= m < lists.len() ==> #[trigger] lists[m].len() == pats[m].pattern_length,
    ensures
        group_indices(flatten(lists), pats) == lists,
        flatten(lists).len() == pattern_total(pats),
{
    lemma_flatten_pattern_total(lists, pats);
    assert forall|j: int| 0 <= j < lists.len() implies #[trigger] group_indices(flatten(lists), pats)[j]
        == lists[j] by {
        lemma_flatten_take(lists, pats, j);
        lemma_flatten_take(lists, pats, j + 1);
        assert(lists.take(j + 1) =~= lists.take(j).push(lists[j]));
        lemma_flatten_push(lists.take(j), lists[j]);
        let a = flatten(lists.take(j)).len() as int;
        let b = flatten(lists.take(j + 1)).len() as int;
        assert(flatten(lists).subrange(a, b) =~= lists[j]) by {
            assert forall|r: int| 0 <= r < b - a implies flatten(lists).subrange(a, b)[r] == lists[j][r] by {
                assert(flatten(lists).subrange(0, b)[a + r] == flatten(lists.take(j + 1))[a + r]);
            }
        }
    }
    assert(group_indices(flatten(lists), pats) =~= lists);
}

// ---------------------------------------------------------------------------
// The compact sample to group box.
// ---------------------------------------------------------------------------

/// Compact sample to group box
///
/// ISO/IEC 14496-12 - 8.9.5
#[derive(Debug, PartialEq, Eq)]
pub struct CompactSampleToGroupBox {
    /// The version of the box.
    pub version: u8,
    /// The flags of the box.
    pub flags: CompactSampleToGroupBoxFlags,
    /// The type of the sample grouping.
    pub grouping_type: [u8; 4],
    /// The sub-type of the grouping.
    pub grouping_type_parameter: Option<u32>,
    /// The number of patterns.
    pub pattern_count: u32,
    /// `pattern_length` and `sample_count` of each pattern.
    pub patterns: Vec<CompactSampleToGroupBoxPattern>,
    /// `sample_group_description_index[j][k]`: one list per pattern.
    pub sample_group_description_index: Vec<Vec<CompactSampleToGroupBoxSampleGroupDescriptionIndex>>,
}

/// The model of a [`CompactSampleToGroupBox`].
pub struct CompactSampleToGroupBoxModel {
    pub version: u8,
    pub flags: CompactSampleToGroupBoxFlags,
    pub grouping_type: [u8; 4],
    pub grouping_type_parameter: Option<u32>,
    pub pattern_count: u32,
    pub patterns: Seq<CompactSampleToGroupBoxPattern>,
    pub sample_group_description_index: Seq<Seq<CompactSampleToGroupBoxSampleGroupDescriptionIndex>>,
}

impl View for CompactSampleToGroupBox {
    type V = CompactSampleToGroupBoxModel;

    open spec fn view(&self) -> CompactSampleToGroupBoxModel {
        CompactSampleToGroupBoxModel {
            version: self.version,
            flags: self.flags,
            grouping_type: self.grouping_type,
            grouping_type_parameter: self.grouping_type_parameter,
            pattern_count: self.pattern_count,
            patterns: self.patterns@,
            sample_group_description_index: index_lists(self.sample_group_description_index@),
        }
    }
}

/// Offset of the pattern count in the payload.
pub open spec fn csgp_count_offset(flags: CompactSampleToGroupBoxFlags) -> int {
    if flags.grouping_type_parameter_present { 12 } else { 8 }
}

/// Reading the payload of a compact sample to group box.
pub open spec fn csgp_parse_body(s: Seq<u8>) -> Result<CompactSampleToGroupBoxModel, IsoError> {
    if s.len() < 8 {
        Err(IsoError::UnexpectedEof)
    } else {
        let flags = CompactSampleToGroupBoxFlags::spec_from_bits(be_u24_at(s, 1));
        let p0 = csgp_count_offset(flags);
        if s.len() < p0 + 4 {
            Err(IsoError::UnexpectedEof)
        } else {
            let count = be_u32_at(s, p0);
            let p1 = p0 + 4;
            let w = pattern_width(flags);
            if count > 0 && !pattern_codes_match(flags) {
                Err(IsoError::InvalidData)
            } else if s.len() < p1 + count * w {
                Err(IsoError::UnexpectedEof)
            } else {
                let pats = patterns_at(s, p1, flags, count as nat);
                let p2 = p1 + count * w;
                let n = pattern_total(pats);
                if s.len() < p2 + index_region_len(flags.index_size_code, n) {
                    Err(IsoError::UnexpectedEof)
                } else {
                    Ok(
                        CompactSampleToGroupBoxModel {
                            version: s[0],
                            flags,
                            grouping_type: fourcc_at(s, 4),
                            grouping_type_parameter: if flags.grouping_type_parameter_present {
                                Some(be_u32_at(s, 8))
                            } else {
                                None
                            },
                            pattern_count: count,
                            patterns: pats,
                            sample_group_description_index: group_indices(
                                flat_indices(s, p2, flags, n),
                                pats,
                            ),
                        },
                    )
                }
            }
        }
    }
}

/// The bytes of the payload of a compact sample to group box.
pub open spec fn csgp_serialize_body(v: CompactSampleToGroupBoxModel) -> Seq<u8> {
    seq![v.version] + u24_bytes(v.flags.spec_bits()) + v.grouping_type@ + (match v.grouping_type_parameter {
        Some(p) => u32_bytes(p),
        None => Seq::empty(),
    }) + u32_bytes(v.pattern_count) + patterns_bytes(v.patterns, v.flags) + index_stream(
        index_values(flatten(v.sample_group_description_index), v.flags.index_size_code),
        v.flags.index_size_code,
    )
}

/// The models of a list of lists of indices.
pub open spec fn index_lists(v: Seq<Vec<CompactSampleToGroupBoxSampleGroupDescriptionIndex>>) -> Seq<
    Seq<CompactSampleToGroupBoxSampleGroupDescriptionIndex>,
> {
    v.map_values(|x: Vec<CompactSampleToGroupBoxSampleGroupDescriptionIndex>| x@)
}

pub proof fn lemma_pattern_total_take(pats: Seq<CompactSampleToGroupBoxPattern>, j: int)
    requires
        0 <= j < pats.len(),
    ensures
        pattern_total(pats.take(j + 1)) == pattern_total(pats.take(j)) + pats[j].pattern_length,
        pattern_total(pats.take(j + 1)) <= pattern_total(pats),
    decreases pats.len() - j,
{
    assert(pats.take(j + 1).drop_last() =~= pats.take(j));
    if j + 1 < pats.len() {
        lemma_pattern_total_take(pats, j + 1);
    } else {
        assert(pats.take(j + 1) =~= pats);
    }
}

/// Reads `count` patterns one after the other.
pub fn parse_patterns(
    data: &[u8],
    pos: usize,
    flags: CompactSampleToGroupBoxFlags,
    count: u32,
) -> (r: Result<(Vec<CompactSampleToGroupBoxPattern>, usize), IsoError>)
    requires
        pos <= data@.len(),
        flags.codes_valid(),
    ensures
        match r {
            Ok((v, p)) => {
                &&& !(count > 0 && !pattern_codes_match(flags))
                &&& data@.len() >= pos + count * pattern_width(flags)
                &&& v@ == patterns_at(data@, pos as int, flags, count as nat)
                &&& p == pos + count * pattern_width(flags)
            },
            Err(e) => if count > 0 && !pattern_codes_match(flags) {
                e == IsoError::InvalidData
            } else {
                data@.len() < pos + count * pattern_width(flags) && e == IsoError::UnexpectedEof
            },
        },
{
    let ghost w = pattern_width(flags) as int;
    let mut patterns: Vec<CompactSampleToGroupBoxPattern> = Vec::new();
    let mut p = pos;
    let mut k: u32 = 0;
    proof {
        if count > 0 && pattern_codes_match(flags) {
            lemma_pattern_bytes_len(CompactSampleToGroupBoxPattern { pattern_length: 0, sample_count: 0 }, flags);
        }
    }
    assert(patterns@ =~= patterns_at(data@, pos as int, flags, 0));
    while k < count
        invariant
            pos <= p <= data@.len(),
            flags.codes_valid(),
            w == pattern_width(flags),
            k <= count,
            k > 0 ==> pattern_codes_match(flags),
            count > 0 && pattern_codes_match(flags) ==> w >= 1,
            p == pos + k * w,
            patterns@ == patterns_at(data@, pos as int, flags, k as nat),
        decreases count - k,
    {
        match CompactSampleToGroupBoxPattern::parse_with(data, p, flags) {
            Ok((pat, np)) => {
                proof {
                    vstd::arithmetic::mul::lemma_mul_is_distributive_add_other_way(w, k as int, 1);
                    assert(pat == pattern_at(data@, p as int, flags)) by {
                        assert forall|m: int| 0 <= m < w implies data@.skip(p as int)[m] == data@[p + m] by {}
                        if flags.pattern_size_code != 0 {
                            assert(uint_at(data@.skip(p as int), 0, flags.pattern_size_code) == uint_at(
                                data@,
                                p as int,
                                flags.pattern_size_code,
                            ));
                            assert(uint_at(
                                data@.skip(p as int),
                                code_bytes(flags.pattern_size_code) as int,
                                flags.count_size_code,
                            ) == uint_at(
                                data@,
                                p + code_bytes(flags.pattern_size_code),
                                flags.count_size_code,
                            ));
                        }
                    }
                    assert(patterns@.push(pat) =~= patterns_at(data@, pos as int, flags, (k + 1) as nat));
                }
                patterns.push(pat);
                p = np;
                k = k + 1;
            },
            Err(e) => {
                proof {
                    if !(count > 0 && !pattern_codes_match(flags)) {
                        vstd::arithmetic::mul::lemma_mul_is_distributive_add_other_way(w, k as int, 1);
                        vstd::arithmetic::mul::lemma_mul_inequality(k + 1, count as int, w);
                    }
                }
                return Err(e);
            },
        }
    }
    Ok((patterns, p))
}

/// Reads the index lists, one list of each pattern's length; 4-bit indices are taken
/// two to a byte across the lists.
#[verifier::rlimit(40)]
pub fn parse_indices(
    data: &[u8],
    pos: usize,
    flags: CompactSampleToGroupBoxFlags,
    pats: &Vec<CompactSampleToGroupBoxPattern>,
) -> (r: Result<(Vec<Vec<CompactSampleToGroupBoxSampleGroupDescriptionIndex>>, usize), IsoError>)
    requires
        pos <= data@.len(),
        flags.codes_valid(),
    ensures
        match r {
            Ok((g, p)) => {
                &&& data@.len() >= pos + index_region_len(flags.index_size_code, pattern_total(pats@))
                &&& index_lists(g@) == group_indices(
                    flat_indices(data@, pos as int, flags, pattern_total(pats@)),
                    pats@,
                )
                &&& p == pos + index_region_len(flags.index_size_code, pattern_total(pats@))
            },
            Err(e) => e == IsoError::UnexpectedEof && data@.len() < pos + index_region_len(
                flags.index_size_code,
                pattern_total(pats@),
            ),
        },
{
    let code = flags.index_size_code;
    let bits = f(code);
    let msb = flags.index_msb_indicates_fragment_local_description;
    let cb: usize = if code == 1 {
        1
    } else if code == 2 {
        2
    } else {
        4
    };
    let ghost n = pattern_total(pats@);
    let ghost flat = flat_indices(data@, pos as int, flags, n);
    let ghost mut t: nat = 0;
    let mut groups: Vec<Vec<CompactSampleToGroupBoxSampleGroupDescriptionIndex>> = Vec::new();
    let mut next_value: Option<u8> = None;
    let mut p = pos;
    let mut j: usize = 0;
    while j < pats.len()
        invariant
            pos <= p <= data@.len(),
            code == flags.index_size_code,
            code < 4,
            bits == code_bits(code),
            msb == flags.index_msb_indicates_fragment_local_description,
            code > 0 ==> cb == code_bytes(code),
            n == pattern_total(pats@),
            flat == flat_indices(data@, pos as int, flags, n),
            j <= pats@.len(),
            t == pattern_total(pats@.take(j as int)),
            t <= n,
            p == pos + index_region_len(code, t),
            code == 0 && t % 2 == 1 ==> next_value == Some((data@[pos + t / 2] % 0x10) as u8),
            !(code == 0 && t % 2 == 1) ==> next_value is None,
            groups@.len() == j,
            forall|m: int| 0 <= m < j ==> #[trigger] groups@[m]@ == group_indices(flat, pats@)[m],
        decreases pats@.len() - j,
    {
        proof {
            lemma_pattern_total_take(pats@, j as int);
        }
        let plen = pats[j].pattern_length;
        let mut current: Vec<CompactSampleToGroupBoxSampleGroupDescriptionIndex> = Vec::new();
        let ghost t0 = t;
        let mut k: u32 = 0;
        while k < plen
            invariant
                pos <= p <= data@.len(),
                code == flags.index_size_code,
                code < 4,
                bits == code_bits(code),
                msb == flags.index_msb_indicates_fragment_local_description,
                code > 0 ==> cb == code_bytes(code),
                n == pattern_total(pats@),
                flat == flat_indices(data@, pos as int, flags, n),
                t0 + plen <= n,
                k <= plen,
                t == t0 + k,
                p == pos + index_region_len(code, t),
                code == 0 && t % 2 == 1 ==> next_value == Some((data@[pos + t / 2] % 0x10) as u8),
                !(code == 0 && t % 2 == 1) ==> next_value is None,
                current@ == flat.subrange(t0 as int, t as int),
            decreases plen - k,
        {
            let raw: u32;
            if code == 0 {
                match next_value {
                    None => {
                        if p >= data.len() {
                            proof {
                                assert(t % 2 == 0);
                            }
                            return Err(IsoError::UnexpectedEof);
                        }
                        let byte = data[p];
                        raw = (byte / 0x10) as u32;
                        next_value = Some(byte % 0x10);
                        p = p + 1;
                        proof {
                            assert(t % 2 == 0);
                            assert(pos + t / 2 == p - 1);
                        }
                    },
                    Some(v) => {
                        raw = v as u32;
                        next_value = None;
                    },
                }
            } else {
                if data.len() - p < cb {
                    proof {
                        vstd::arithmetic::mul::lemma_mul_is_distributive_add_other_way(cb as int, t as int, 1);
                        vstd::arithmetic::mul::lemma_mul_inequality((t + 1) as int, n as int, cb as int);
                    }
                    return Err(IsoError::UnexpectedEof);
                }
                raw = read_uint_at(data, p, code);
                p = p + cb;
                proof {
                    vstd::arithmetic::mul::lemma_mul_is_distributive_add_other_way(cb as int, t as int, 1);
                }
            }
            let idx = CompactSampleToGroupBoxSampleGroupDescriptionIndex::from_raw(raw, bits, msb);
            proof {
                assert(raw == raw_index_at(data@, pos as int, code, t as int));
                assert(idx == flat[t as int]);
                assert(current@.push(idx) =~= flat.subrange(t0 as int, (t + 1) as int));
                t = t + 1;
            }
            current.push(idx);
            k = k + 1;
        }
        proof {
            assert(current@ == group_indices(flat, pats@)[j as int]);
        }
        groups.push(current);
        j = j + 1;
    }
    proof {
        assert(pats@.take(j as int) =~= pats@);
        assert(index_lists(groups@) =~= group_indices(flat, pats@));
    }
    Ok((groups, p))
}

pub proof fn lemma_flatten_prefix<A>(lists: Seq<Seq<A>>, j: int)
    requires
        0 <= j <= lists.len(),
    ensures
        flatten(lists.take(j)) == flatten(lists).subrange(0, flatten(lists.take(j)).len() as int),
        flatten(lists.take(j)).len() <= flatten(lists).len(),
        j < lists.len() ==> flatten(lists.take(j + 1)) == flatten(lists.take(j)) + lists[j],
    decreases lists.len() - j,
{
    if j < lists.len() {
        assert(lists.take(j + 1) =~= lists.take(j).push(lists[j]));
        lemma_flatten_push(lists.take(j), lists[j]);
        lemma_flatten_prefix(lists, j + 1);
        let a = flatten(lists.take(j));
        let b = flatten(lists.take(j + 1));
        assert(a =~= b.subrange(0, a.len() as int));
        assert(a =~= flatten(lists).subrange(0, a.len() as int));
    } else {
        assert(lists.take(j) =~= lists);
        assert(flatten(lists).subrange(0, flatten(lists).len() as int) =~= flatten(lists));
    }
}

pub proof fn lemma_index_stream_step(vals: Seq<u32>, code: u8, t: int)
    requires
        1 <= code <= 3,
        0 <= t < vals.len(),
    ensures
        index_stream(vals.take(t + 1), code) == index_stream(vals.take(t), code) + uint_bytes(vals[t], code),
{
    let cb = code_bytes(code) as int;
    lemma_uint_at_len(vals[t], code);
    let a = index_stream(vals.take(t + 1), code);
    let b = index_stream(vals.take(t), code) + uint_bytes(vals[t], code);
    vstd::arithmetic::mul::lemma_mul_is_distributive_add_other_way(cb, t, 1);
    assert forall|i: int| 0 <= i < a.len() implies a[i] == b[i] by {
        let q = i / cb;
        let r = i % cb;
        vstd::arithmetic::div_mod::lemma_fundamental_div_mod(i, cb);
        if i < t * cb {
            vstd::arithmetic::mul::lemma_mul_strict_inequality_converse(q, t, cb);
        } else {
            lemma_div_mod_step(t, cb, i - t * cb);
        }
    }
    assert(a =~= b);
}

pub proof fn lemma_nibble_stream_pair(vals: Seq<u32>, m: int)
    requires
        0 <= m,
        2 * m + 2 <= vals.len(),
    ensures
        index_stream(vals.take(2 * m + 2), 0) == index_stream(vals.take(2 * m), 0) + seq![
            (vals[2 * m] % 0x10 * 0x10 + vals[2 * m + 1] % 0x10) as u8,
        ],
{
    let a = index_stream(vals.take(2 * m + 2), 0);
    let b = index_stream(vals.take(2 * m), 0) + seq![(vals[2 * m] % 0x10 * 0x10 + vals[2 * m + 1] % 0x10) as u8];
    assert(a =~= b);
}

pub proof fn lemma_nibble_stream_last(vals: Seq<u32>, m: int)
    requires
        0 <= m,
        2 * m + 1 == vals.len(),
    ensures
        index_stream(vals, 0) == index_stream(vals.take(2 * m), 0) + seq![(vals[2 * m] % 0x10 * 0x10) as u8],
{
    let a = index_stream(vals, 0);
    let b = index_stream(vals.take(2 * m), 0) + seq![(vals[2 * m] % 0x10 * 0x10) as u8];
    assert(a =~= b);
}

/// Writes the numbers of the indices: 4-bit numbers two to a byte, high nibble first,
/// the last byte padded with a zero nibble; wider numbers as big-endian fields.
#[verifier::rlimit(40)]
pub fn write_indices(
    groups: &Vec<Vec<CompactSampleToGroupBoxSampleGroupDescriptionIndex>>,
    code: u8,
    out: &mut Vec<u8>,
)
    requires
        code < 4,
    ensures
        final(out)@ == old(out)@ + index_stream(
            index_values(flatten(index_lists(groups@)), code),
            code,
        ),
{
    let bits = f(code);
    let ghost lists = index_lists(groups@);
    let ghost vals = index_values(flatten(lists), code);
    let ghost base = out@;
    let ghost mut t: int = 0;
    let mut pending: Option<u32> = None;
    let mut j: usize = 0;
    proof {
        assert(vals.take(0) =~= Seq::<u32>::empty());
        assert(index_stream(vals.take(0), code) =~= Seq::<u8>::empty());
        assert(lists.take(0) =~= Seq::<Seq<CompactSampleToGroupBoxSampleGroupDescriptionIndex>>::empty());
        assert(out@ =~= base + index_stream(vals.take(0), code));
    }
    while j < groups.len()
        invariant
            code < 4,
            bits == code_bits(code),
            lists == index_lists(groups@),
            vals == index_values(flatten(lists), code),
            base == old(out)@,
            j <= groups@.len(),
            t == flatten(lists.take(j as int)).len(),
            t <= vals.len(),
            code > 0 ==> out@ == base + index_stream(vals.take(t), code),
            code == 0 ==> out@ == base + index_stream(vals.take(t - t % 2), 0),
            code == 0 && t % 2 == 1 ==> pending == Some(vals[t - 1]),
            !(code == 0 && t % 2 == 1) ==> pending is None,
        decreases groups@.len() - j,
    {
        proof {
            lemma_flatten_prefix(lists, j as int);
            lemma_flatten_prefix(lists, (j + 1) as int);
        }
        let group = &groups[j];
        let mut k: usize = 0;
        let ghost t0 = t;
        while k < group.len()
            invariant
                code < 4,
                bits == code_bits(code),
                lists == index_lists(groups@),
                vals == index_values(flatten(lists), code),
                base == old(out)@,
                j < groups@.len(),
                group@ == lists[j as int],
                t0 == flatten(lists.take(j as int)).len(),
                flatten(lists.take(j as int)) == flatten(lists).subrange(0, t0),
                flatten(lists.take(j + 1)) == flatten(lists.take(j as int)) + lists[j as int],
                flatten(lists.take(j + 1)).len() <= flatten(lists).len(),
                flatten(lists.take(j + 1)) == flatten(lists).subrange(0, flatten(lists.take(j + 1)).len() as int),
                flatten(lists.take(j as int)).len() <= flatten(lists).len(),
                k <= group@.len(),
                t == t0 + k,
                code > 0 ==> out@ == base + index_stream(vals.take(t), code),
                code == 0 ==> out@ == base + index_stream(vals.take(t - t % 2), 0),
                code == 0 && t % 2 == 1 ==> pending == Some(vals[t - 1]),
                !(code == 0 && t % 2 == 1) ==> pending is None,
            decreases group@.len() - k,
        {
            let v = group[k].to_value(bits);
            proof {
                assert(flatten(lists.take(j + 1))[t] == group@[k as int]);
                assert(t < flatten(lists.take(j + 1)).len());
                assert(flatten(lists)[t] == group@[k as int]);
                assert(vals.len() == flatten(lists).len());
                assert(v == vals[t]);
            }
            if code == 0 {
                match pending {
                    None => {
                        pending = Some(v);
                    },
                    Some(hi) => {
                        let byte = ((hi % 0x10) * 0x10 + v % 0x10) as u8;
                        proof {
                            lemma_nibble_stream_pair(vals, (t - 1) / 2);
                        }
                        out.push(byte);
                        pending = None;
                    },
                }
            } else {
                proof {
                    lemma_index_stream_step(vals, code, t);
                }
                write_uint(out, v, code);
            }
            proof {
                t = t + 1;
            }
            k = k + 1;
        }
        j = j + 1;
    }
    proof {
        lemma_flatten_prefix(lists, j as int);
        assert(lists.take(j as int) =~= lists);
        assert(vals.take(t) =~= vals);
    }
    if let Some(hi) = pending {
        proof {
            lemma_nibble_stream_last(vals, (t - 1) / 2);
        }
        out.push(((hi % 0x10) * 0x10) as u8);
    }
}


pub proof fn lemma_patterns_bytes_step(
    pats: Seq<CompactSampleToGroupBoxPattern>,
    flags: CompactSampleToGroupBoxFlags,
    i: int,
)
    requires
        flags.codes_valid(),
        pattern_codes_match(flags),
        0 <= i < pats.len(),
    ensures
        patterns_bytes(pats.take(i + 1), flags) == patterns_bytes(pats.take(i), flags) + pattern_bytes(
            pats[i],
            flags,
        ),
{
    let w = pattern_width(flags) as int;
    lemma_pattern_bytes_len(pats[i], flags);
    let a = patterns_bytes(pats.take(i + 1), flags);
    let b = patterns_bytes(pats.take(i), flags) + pattern_bytes(pats[i], flags);
    vstd::arithmetic::mul::lemma_mul_is_distributive_add_other_way(w, i, 1);
    assert forall|k: int| 0 <= k < a.len() implies a[k] == b[k] by {
        let q = k / w;
        vstd::arithmetic::div_mod::lemma_fundamental_div_mod(k, w);
        if k < i * w {
            vstd::arithmetic::mul::lemma_mul_strict_inequality_converse(q, i, w);
        } else {
            lemma_div_mod_step(i, w, k - i * w);
        }
    }
    assert(a =~= b);
}

/// A box that can be written: every size code fits in its two bits, and where there
/// are patterns, their two size codes are both 0 or both not 0.
pub open spec fn csgp_writable(v: CompactSampleToGroupBoxModel) -> bool {
    v.flags.codes_valid() && (v.patterns.len() > 0 ==> pattern_codes_match(v.flags))
}

/// A box whose fields agree with each other and fit the widths that the flags give
/// them, so that reading back what was written gives it again.
pub open spec fn csgp_canonical(v: CompactSampleToGroupBoxModel) -> bool {
    let lists = v.sample_group_description_index;
    let flat = flatten(lists);
    &&& v.grouping_type_parameter is Some == v.flags.grouping_type_parameter_present
    &&& v.pattern_count == v.patterns.len()
    &&& forall|k: int| 0 <= k < v.patterns.len() ==> #[trigger] pattern_fits(v.patterns[k], v.flags)
    &&& lists.len() == v.patterns.len()
    &&& forall|m: int| 0 <= m < lists.len() ==> #[trigger] lists[m].len() == v.patterns[m].pattern_length
    &&& forall|t: int|
        0 <= t < flat.len() ==> #[trigger] index_fits(
            flat[t],
            code_bits(v.flags.index_size_code),
            v.flags.index_msb_indicates_fragment_local_description,
        )
}

/// The payload size that a compact sample to group box reports: the fixed fields,
/// then the bits of the patterns and of the indices rounded up to whole bytes.
pub open spec fn csgp_payload_size(v: CompactSampleToGroupBoxModel) -> nat {
    12 + (if v.grouping_type_parameter is Some { 4nat } else { 0nat }) + (((code_bits(
        v.flags.pattern_size_code,
    ) + code_bits(v.flags.count_size_code)) * v.patterns.len() + code_bits(v.flags.index_size_code)
        * flatten(v.sample_group_description_index).len() + 7) / 8) as nat
}

impl IsoSized for CompactSampleToGroupBox {
    open spec fn spec_size(&self) -> nat {
        add_header_size(csgp_payload_size(self@))
    }

    fn size(&self) -> (n: usize) {
        let ghost lists = index_lists(self.sample_group_description_index@);
        let mut count: u128 = 0;
        let mut j: usize = 0;
        proof {
            lemma_flatten_prefix(lists, 0);
            assert(lists.take(0) =~= Seq::<Seq<CompactSampleToGroupBoxSampleGroupDescriptionIndex>>::empty());
        }
        while j < self.sample_group_description_index.len()
            invariant
                lists == index_lists(self.sample_group_description_index@),
                j <= lists.len(),
                count == flatten(lists.take(j as int)).len(),
                count <= flatten(lists).len(),
                self.spec_size() <= usize::MAX,
            decreases lists.len() - j,
        {
            proof {
                lemma_flatten_prefix(lists, j as int);
                lemma_flatten_prefix(lists, (j + 1) as int);
                assert(flatten(lists).len() <= 2 * (usize::MAX as int) + 1);
            }
            count = count + self.sample_group_description_index[j].len() as u128;
            j = j + 1;
        }
        proof {
            assert(lists.take(j as int) =~= lists);
        }
        let bp = f(if self.flags.pattern_size_code < 4 { self.flags.pattern_size_code } else { 3 }) as u128;
        let bc = f(if self.flags.count_size_code < 4 { self.flags.count_size_code } else { 3 }) as u128;
        let bi = f(if self.flags.index_size_code < 4 { self.flags.index_size_code } else { 3 }) as u128;
        let bits = (bp + bc) * (self.patterns.len() as u128) + bi * count;
        let g: u128 = if self.grouping_type_parameter.is_some() { 4 } else { 0 };
        let payload = 12 + g + (bits + 7) / 8;
        add_header_size_exec(payload as usize)
    }
}

/// Reading a written compact sample to group box gives it back.
#[verifier::spinoff_prover]
#[verifier::rlimit(100)]
pub proof fn lemma_csgp_roundtrip(v: CompactSampleToGroupBoxModel)
    requires
        csgp_writable(v),
        csgp_canonical(v),
    ensures
        csgp_parse_body(csgp_serialize_body(v)) == Ok::<CompactSampleToGroupBoxModel, IsoError>(v),
{
    let flags = v.flags;
    let code = flags.index_size_code;
    let bits = code_bits(code);
    let msb = flags.index_msb_indicates_fragment_local_description;
    flags.lemma_bits_roundtrip();
    let gtp_bytes: Seq<u8> = match v.grouping_type_parameter {
        Some(p) => u32_bytes(p),
        None => Seq::empty(),
    };
    let head = seq![v.version] + u24_bytes(flags.spec_bits()) + v.grouping_type@ + gtp_bytes + u32_bytes(
        v.pattern_count,
    );
    let pb = patterns_bytes(v.patterns, flags);
    let lists = v.sample_group_description_index;
    let flat = flatten(lists);
    let vals = index_values(flat, code);
    let is = index_stream(vals, code);
    let s = csgp_serialize_body(v);
    assert(s =~= head + pb + is);
    let p0 = csgp_count_offset(flags);
    let p1 = p0 + 4;
    assert(head.len() == p1);
    let w = pattern_width(flags) as int;
    let np = v.patterns.len() as int;
    assert(pb.len() == np * w);
    vstd::arithmetic::mul::lemma_mul_nonnegative(np, w);
    let p2 = p1 + np * w;
    lemma_group_flatten(lists, v.patterns);
    let n = flat.len();
    assert(is.len() == index_region_len(code, n));
    assert(s[0] == v.version);
    assert(s.subrange(1, 4) =~= u24_bytes(flags.spec_bits()));
    lemma_u24_at(s, 1, flags.spec_bits());
    assert(s.subrange(4, 8) =~= v.grouping_type@);
    lemma_fourcc_at(s, 4, v.grouping_type);
    if let Some(p) = v.grouping_type_parameter {
        assert(s.subrange(8, 12) =~= u32_bytes(p));
        lemma_u32_at(s, 8, p);
    }
    assert(s.subrange(p0, p0 + 4) =~= u32_bytes(v.pattern_count));
    lemma_u32_at(s, p0, v.pattern_count);
    assert(s.subrange(p1, p1 + np * w) =~= pb);
    lemma_patterns_region(s, p1, v.patterns, flags);
    assert(s.subrange(p2, p2 + index_region_len(code, n)) =~= is);
    assert forall|j: int| 0 <= j < vals.len() implies #[trigger] vals[j] < pow2(code_bits(code)) by {
        lemma_index_roundtrip(flat[j], bits, msb);
    }
    assert forall|k: int| 0 <= k < n implies #[trigger] flat_indices(s, p2, flags, n)[k] == flat[k] by {
        lemma_index_stream_read(s, p2, vals, code, k);
        lemma_index_roundtrip(flat[k], bits, msb);
    }
    assert(flat_indices(s, p2, flags, n) =~= flat);
}

impl BoxBody for CompactSampleToGroupBox {
    open spec fn spec_box_type() -> [u8; 4] {
        [0x63u8, 0x73u8, 0x67u8, 0x70u8]
    }

    fn box_type() -> (r: [u8; 4]) {
        [0x63u8, 0x73u8, 0x67u8, 0x70u8]
    }

    open spec fn spec_parse_body(payload: Seq<u8>) -> Result<CompactSampleToGroupBoxModel, IsoError> {
        csgp_parse_body(payload)
    }

    open spec fn spec_writable(v: CompactSampleToGroupBoxModel) -> bool {
        csgp_writable(v)
    }

    open spec fn spec_serialize_body(v: CompactSampleToGroupBoxModel) -> Seq<u8> {
        csgp_serialize_body(v)
    }

    open spec fn spec_canonical(v: CompactSampleToGroupBoxModel) -> bool {
        csgp_canonical(v)
    }

    proof fn lemma_box_type() {
        assert(Self::spec_box_type()[0] != spec_uuid_fourcc()[0]);
    }

    #[verifier::spinoff_prover]
    proof fn lemma_body_size(x: Self) {
        let v = x@;
        let flags = v.flags;
        let code = flags.index_size_code;
        let n = flatten(v.sample_group_description_index).len() as int;
        let np = v.patterns.len() as int;
        let w = pattern_width(flags) as int;
        let bpc = code_bits(flags.pattern_size_code) + code_bits(flags.count_size_code);
        let x_bits = code_bits(code) * n;
        if np > 0 {
            assert(bpc == 8 * w);
        }
        assert(bpc * np == 8 * (w * np)) by (nonlinear_arith)
            requires np > 0 ==> bpc == 8 * w, np >= 0;
        assert((8 * (w * np) + x_bits + 7) / 8 == w * np + (x_bits + 7) / 8) by (nonlinear_arith)
            requires w * np >= 0, x_bits >= 0;
        vstd::arithmetic::mul::lemma_mul_nonnegative(w, np);
        if code == 0 {
            assert((4 * n + 7) / 8 == (n + 1) / 2);
        } else {
            let cb = code_bytes(code) as int;
            assert(code_bits(code) == 8 * cb);
            assert((8 * cb * n + 7) / 8 == cb * n) by (nonlinear_arith)
                requires cb >= 1, n >= 0;
        }
        assert(patterns_bytes(v.patterns, flags).len() == np * w);
        assert(index_values(flatten(v.sample_group_description_index), code).len() == n);
    }

    proof fn lemma_body_roundtrip(v: CompactSampleToGroupBoxModel) {
        lemma_csgp_roundtrip(v);
    }

    fn parse_body(data: &[u8]) -> (r: Result<Self, IsoError>) {
        if data.len() < 8 {
            return Err(IsoError::UnexpectedEof);
        }
        let version = data[0];
        let flags = CompactSampleToGroupBoxFlags::from_bits(read_u24_at(data, 1));
        let grouping_type = read_fourcc_at(data, 4);
        let mut p: usize = 8;
        let grouping_type_parameter = if flags.grouping_type_parameter_present {
            if data.len() < 16 {
                return Err(IsoError::UnexpectedEof);
            }
            p = 12;
            Some(read_u32_at(data, 8))
        } else {
            None
        };
        if data.len() - p < 4 {
            return Err(IsoError::UnexpectedEof);
        }
        let pattern_count = read_u32_at(data, p);
        let (patterns, p2) = parse_patterns(data, p + 4, flags, pattern_count)?;
        let (sample_group_description_index, _end) = parse_indices(data, p2, flags, &patterns)?;
        Ok(CompactSampleToGroupBox {
            version,
            flags,
            grouping_type,
            grouping_type_parameter,
            pattern_count,
            patterns,
            sample_group_description_index,
        })
    }

    fn serialize_body(&self, out: &mut Vec<u8>) -> (r: Result<(), IsoError>) {
        let flags = self.flags;
        proof {
            assert(out@.subrange(0, out@.len() as int) =~= out@);
        }
        if !(flags.pattern_size_code < 4 && flags.count_size_code < 4 && flags.index_size_code < 4) {
            return Err(IsoError::InvalidData);
        }
        if self.patterns.len() > 0 && (flags.pattern_size_code == 0) != (flags.count_size_code == 0) {
            return Err(IsoError::InvalidData);
        }
        let ghost before = out@;
        write_u8(out, self.version);
        write_u24(out, flags.to_bits());
        write_fourcc(out, self.grouping_type);
        match self.grouping_type_parameter {
            Some(p) => write_u32(out, p),
            None => {},
        }
        write_u32(out, self.pattern_count);
        let ghost head = out@;
        let mut i: usize = 0;
        proof {
            assert(self.patterns@.take(0) =~= Seq::<CompactSampleToGroupBoxPattern>::empty());
            assert(patterns_bytes(self.patterns@.take(0), flags) =~= Seq::<u8>::empty());
            assert(out@ =~= head + patterns_bytes(self.patterns@.take(0), flags));
        }
        while i < self.patterns.len()
            invariant
                flags == self.flags,
                flags.codes_valid(),
                self.patterns@.len() > 0 ==> pattern_codes_match(flags),
                i <= self.patterns@.len(),
                out@ == head + patterns_bytes(self.patterns@.take(i as int), flags),
            decreases self.patterns@.len() - i,
        {
            proof {
                lemma_patterns_bytes_step(self.patterns@, flags, i as int);
            }
            self.patterns[i].serialize_with(out, flags);
            proof {
                assert(out@ =~= head + patterns_bytes(self.patterns@.take(i + 1), flags));
            }
            i = i + 1;
        }
        proof {
            assert(self.patterns@.take(i as int) =~= self.patterns@);
        }
        write_indices(&self.sample_group_description_index, flags.index_size_code, out);
        proof {
            let gtp_bytes: Seq<u8> = match self.grouping_type_parameter {
                Some(p) => u32_bytes(p),
                None => Seq::empty(),
            };
            assert(head =~= before + seq![self.version] + u24_bytes(flags.spec_bits()) + self.grouping_type@
                + gtp_bytes + u32_bytes(self.pattern_count));
            assert(out@ =~= before + csgp_serialize_body(self@));
            lemma_append_prefix(before, csgp_serialize_body(self@));
        }
        Ok(())
    }
}


/// An entry of the sample to group box: a run of samples in one group.
#[derive(Debug, Clone, Copy, PartialEq, Eq, Structural)]
pub struct SampleToGroupBoxEntry {
    /// The number of consecutive samples in the group.
    pub sample_count: u32,
    /// The index of the description of the group, from 1, or 0 for no group of this type.
    pub group_description_index: u32,
}

impl View for SampleToGroupBoxEntry {
    type V = SampleToGroupBoxEntry;

    open spec fn view(&self) -> SampleToGroupBoxEntry {
        *self
    }
}

impl IsoSized for SampleToGroupBoxEntry {
    open spec fn spec_size(&self) -> nat {
        8
    }

    fn size(&self) -> (n: usize) {
        8
    }
}

impl Wire for SampleToGroupBoxEntry {
    open spec fn spec_parse(s: Seq<u8>) -> SpecParse<SampleToGroupBoxEntry> {
        if s.len() < 8 {
            Err(IsoError::UnexpectedEof)
        } else {
            Ok((SampleToGroupBoxEntry {
                sample_count: be_u32_at(s, 0),
                group_description_index: be_u32_at(s, 4),
            }, 8))
        }
    }

    open spec fn spec_writable(v: SampleToGroupBoxEntry) -> bool {
        true
    }

    open spec fn spec_serialize(v: SampleToGroupBoxEntry) -> Seq<u8> {
        u32_bytes(v.sample_count) + u32_bytes(v.group_description_index)
    }

    open spec fn spec_canonical(v: SampleToGroupBoxEntry) -> bool {
        true
    }

    proof fn lemma_parse_len(s: Seq<u8>) {
    }

    proof fn lemma_size(x: SampleToGroupBoxEntry) {
    }

    proof fn lemma_roundtrip(v: SampleToGroupBoxEntry, rest: Seq<u8>) {
        let s = Self::spec_serialize(v) + rest;
        assert(s.subrange(0, 4) =~= u32_bytes(v.sample_count));
        lemma_u32_at(s, 0, v.sample_count);
        assert(s.subrange(4, 8) =~= u32_bytes(v.group_description_index));
        lemma_u32_at(s, 4, v.group_description_index);
    }

    fn parse(data: &[u8], pos: usize) -> (r: Result<(SampleToGroupBoxEntry, usize), IsoError>) {
        if data.len() - pos < 8 {
            return Err(IsoError::UnexpectedEof);
        }
        let d = &data[pos..data.len()];
        proof {
            assert(d@ =~= data@.skip(pos as int));
        }
        let sample_count = read_u32_at(d, 0);
        let group_description_index = read_u32_at(d, 4);
        Ok((SampleToGroupBoxEntry { sample_count, group_description_index }, pos + 8))
    }

    fn serialize(&self, out: &mut Vec<u8>) -> (r: Result<(), IsoError>) {
        let ghost before = out@;
        write_u32(out, self.sample_count);
        write_u32(out, self.group_description_index);
        proof {
            assert(out@ =~= before + Self::spec_serialize(self@));
            lemma_append_prefix(before, Self::spec_serialize(self@));
        }
        Ok(())
    }
}

/// Sample to group box
///
/// ISO/IEC 14496-12 - 8.9.2
#[derive(Debug, PartialEq, Eq)]
pub struct SampleToGroupBox {
    /// The version and flags of the box; version 1 has a grouping type parameter.
    pub full_header: FullBoxHeader,
    /// The criterion by which the samples are grouped.
    pub grouping_type: [u8; 4],
    /// The sub-type of the grouping, present in version 1.
    pub grouping_type_parameter: Option<u32>,
    /// The number of entries.
    pub entry_count: u32,
    /// The entries.
    pub entries: Vec<SampleToGroupBoxEntry>,
}

/// The model of a [`SampleToGroupBox`].
pub struct SampleToGroupBoxModel {
    pub full_header: FullBoxHeader,
    pub grouping_type: [u8; 4],
    pub grouping_type_parameter: Option<u32>,
    pub entry_count: u32,
    pub entries: Seq<SampleToGroupBoxEntry>,
}

impl View for SampleToGroupBox {
    type V = SampleToGroupBoxModel;

    open spec fn view(&self) -> SampleToGroupBoxModel {
        SampleToGroupBoxModel {
            full_header: self.full_header,
            grouping_type: self.grouping_type,
            grouping_type_parameter: self.grouping_type_parameter,
            entry_count: self.entry_count,
            entries: views(self.entries@),
        }
    }
}

/// The number of bytes of the grouping type parameter in a box of `version`.
pub open spec fn sbgp_param_len(version: u8) -> nat {
    if version == 1 { 4 } else { 0 }
}

impl IsoSized for SampleToGroupBox {
    open spec fn spec_size(&self) -> nat {
        add_header_size(12 + sbgp_param_len(self.full_header.version) + size_seq::<SampleToGroupBoxEntry>(self.entries@))
    }

    fn size(&self) -> (n: usize) {
        proof {
            lemma_size_seq_mono::<SampleToGroupBoxEntry>(self.entries@, 0);
        }
        let p: usize = if self.full_header.version == 1 { 4 } else { 0 };
        add_header_size_exec(12 + p + size_all(&self.entries))
    }
}

impl BoxBody for SampleToGroupBox {
    open spec fn spec_box_type() -> [u8; 4] {
        [0x73u8, 0x62u8, 0x67u8, 0x70u8]
    }

    fn box_type() -> (r: [u8; 4]) {
        [0x73u8, 0x62u8, 0x67u8, 0x70u8]
    }

    /// The full header, the grouping type, in version 1 its parameter, the count and
    /// that many entries.
    open spec fn spec_parse_body(s: Seq<u8>) -> Result<SampleToGroupBoxModel, IsoError> {
        if s.len() < 8 || s.len() < 12 + sbgp_param_len(s[0]) {
            Err(IsoError::UnexpectedEof)
        } else {
            let p = sbgp_param_len(s[0]) as int;
            match parse_count::<SampleToGroupBoxEntry>(s.skip(12 + p), be_u32_at(s, 8 + p) as nat) {
                Ok((entries, _)) => Ok(
                    SampleToGroupBoxModel {
                        full_header: FullBoxHeader { version: s[0], flags: be_u24_at(s, 1) },
                        grouping_type: fourcc_at(s, 4),
                        grouping_type_parameter: if s[0] == 1 { Some(be_u32_at(s, 8)) } else { None },
                        entry_count: be_u32_at(s, 8 + p),
                        entries,
                    },
                ),
                Err(e) => Err(e),
            }
        }
    }

    /// In version 1 the parameter is present.
    open spec fn spec_writable(v: SampleToGroupBoxModel) -> bool {
        v.full_header.version == 1 ==> v.grouping_type_parameter is Some
    }

    open spec fn spec_serialize_body(v: SampleToGroupBoxModel) -> Seq<u8> {
        seq![v.full_header.version] + u24_bytes(v.full_header.flags) + v.grouping_type@ + (if v.full_header.version
            == 1 {
            u32_bytes(v.grouping_type_parameter.unwrap())
        } else {
            Seq::empty()
        }) + u32_bytes(v.entry_count) + ser_seq::<SampleToGroupBoxEntry>(v.entries)
    }

    /// The parameter is present exactly in version 1, and the count is the number of
    /// entries.
    open spec fn spec_canonical(v: SampleToGroupBoxModel) -> bool {
        &&& v.full_header.flags < 0x100_0000
        &&& (v.grouping_type_parameter is Some) == (v.full_header.version == 1)
        &&& v.entries.len() == v.entry_count
    }

    proof fn lemma_box_type() {
        assert(Self::spec_box_type()[0] != spec_uuid_fourcc()[0]);
    }

    proof fn lemma_body_size(x: SampleToGroupBox) {
        broadcast use vstd::array::group_array_axioms;
        lemma_size_seq::<SampleToGroupBoxEntry>(x.entries@);
    }

    proof fn lemma_body_roundtrip(v: SampleToGroupBoxModel) {
        broadcast use vstd::array::group_array_axioms;
        let p = sbgp_param_len(v.full_header.version) as int;
        let param = if v.full_header.version == 1 {
            u32_bytes(v.grouping_type_parameter.unwrap())
        } else {
            Seq::empty()
        };
        let e = ser_seq::<SampleToGroupBoxEntry>(v.entries);
        let s = Self::spec_serialize_body(v);
        assert(param.len() == p);
        assert(s.subrange(1, 4) =~= u24_bytes(v.full_header.flags));
        lemma_u24_at(s, 1, v.full_header.flags);
        assert(s.subrange(4, 8) =~= v.grouping_type@);
        lemma_fourcc_at(s, 4, v.grouping_type);
        if v.full_header.version == 1 {
            assert(s.subrange(8, 12) =~= param);
            lemma_u32_at(s, 8, v.grouping_type_parameter.unwrap());
        }
        assert(s.subrange(8 + p, 12 + p) =~= u32_bytes(v.entry_count));
        lemma_u32_at(s, 8 + p, v.entry_count);
        assert(s.skip(12 + p) =~= e + Seq::<u8>::empty());
        lemma_count_roundtrip::<SampleToGroupBoxEntry>(v.entries, Seq::<u8>::empty());
    }

    fn parse_body(d: &[u8]) -> (r: Result<SampleToGroupBox, IsoError>) {
        if d.len() < 8 {
            return Err(IsoError::UnexpectedEof);
        }
        let p: usize = if d[0] == 1 { 4 } else { 0 };
        if d.len() < 12 + p {
            return Err(IsoError::UnexpectedEof);
        }
        let full_header = FullBoxHeader { version: d[0], flags: read_u24_at(d, 1) };
        let grouping_type = read_fourcc_at(d, 4);
        let grouping_type_parameter = if d[0] == 1 { Some(read_u32_at(d, 8)) } else { None };
        let entry_count = read_u32_at(d, 8 + p);
        let (entries, _end) = parse_counted::<SampleToGroupBoxEntry>(d, 12 + p, entry_count as usize)?;
        Ok(SampleToGroupBox { full_header, grouping_type, grouping_type_parameter, entry_count, entries })
    }

    fn serialize_body(&self, out: &mut Vec<u8>) -> (r: Result<(), IsoError>) {
        let ghost before = out@;
        proof {
            assert(out@.subrange(0, out@.len() as int) =~= out@);
        }
        let param = if self.full_header.version == 1 {
            match self.grouping_type_parameter {
                Some(p) => Some(p),
                None => {
                    return Err(IsoError::InvalidData);
                },
            }
        } else {
            None
        };
        write_u8(out, self.full_header.version);
        write_u24(out, self.full_header.flags);
        write_fourcc(out, self.grouping_type);
        if let Some(p) = param {
            write_u32(out, p);
        }
        write_u32(out, self.entry_count);
        let _ = serialize_all(&self.entries, out);
        proof {
            assert(out@ =~= before + Self::spec_serialize_body(self@));
            lemma_append_prefix(before, Self::spec_serialize_body(self@));
        }
        Ok(())
    }
}


/// An entry of the sample to group box is eight bytes: the sample count spelled by the first four, big-endian, then the group description index by the next four.
pub proof fn lemma_sample_to_group_entry_layout(s: Seq<u8>)
    ensures
        s.len() < 8 ==> SampleToGroupBoxEntry::spec_parse(s) == Err::<(SampleToGroupBoxEntry, int), IsoError>(IsoError::UnexpectedEof),
        s.len() >= 8 ==> (SampleToGroupBoxEntry::spec_parse(s) matches Ok((e, n)) && n == 8 && e.sample_count == crate::codec::be_int(s, 0, 4) && e.group_description_index == crate::codec::be_int(s, 4, 4)),
{
    if s.len() >= 8 {
        crate::codec::lemma_be_int_u32(s, 0);
        crate::codec::lemma_be_int_u32(s, 4);
    }
}

/// Writing a sample to group entry gives eight bytes: the sample count, then the group description index.
pub proof fn lemma_sample_to_group_entry_bytes(e: SampleToGroupBoxEntry)
    ensures
        SampleToGroupBoxEntry::spec_serialize(e).len() == 8,
        crate::codec::be_int(SampleToGroupBoxEntry::spec_serialize(e), 0, 4) == e.sample_count,
        crate::codec::be_int(SampleToGroupBoxEntry::spec_serialize(e), 4, 4) == e.group_description_index,
{
    let w = SampleToGroupBoxEntry::spec_serialize(e);
    assert(w.subrange(0, 4) =~= u32_bytes(e.sample_count));
    crate::codec::lemma_be_int_u32_bytes(w, 0, e.sample_count);
    assert(w.subrange(4, 8) =~= u32_bytes(e.group_description_index));
    crate::codec::lemma_be_int_u32_bytes(w, 4, e.group_description_index);
}

} // verus!
