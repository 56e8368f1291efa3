//! Movie fragment boxes (ISO/IEC 14496-12 - 8.8).

use vstd::prelude::*;

use crate::codec::lemma_div_mod_step;

use crate::codec::{
    be_u24_at, be_u32_at, be_u64_at, fourcc_at, from_i32, i32_of, lemma_append_prefix, lemma_fourcc_at,
    lemma_i32_roundtrip, lemma_prefix_trans, lemma_u24_at, lemma_u32_at, lemma_u32_roundtrip, lemma_u64_at,
    lemma_wide_bytes_len, read_fourcc_at, be_uint, uint_bytes_n, lemma_uint_bytes_n, pad_to_u64, write_uint_n, read_u24_at, read_u32_at, read_u64_at, to_i32, u24_bytes,
    u32_bytes, u32_of, u64_bytes, write_fourcc, write_u24, write_u32, write_u64, write_u8, IsoError,
    SpecParse,
};
use crate::frame::{add_header_size, add_header_size_exec, BoxBody};
use crate::header::{spec_uuid_fourcc, FullBoxHeader};
use crate::versioned::{
    canonical_seq_v, lemma_count_roundtrip_v, lemma_size_seq_v, parse_count_v, parse_counted_v, ser_seq_v,
    serialize_all_v, size_seq_v, VersionedWire,
};
use vstd::arithmetic::power::pow;
use crate::wire::{
    canonical_seq, lemma_count_roundtrip, lemma_rest_roundtrip, lemma_ser_seq_fixed, lemma_size_seq,
    lemma_size_seq_mono, parse_count, parse_counted, parse_remaining, parse_rest, ser_seq, serialize_all,
    size_all, size_seq, views, writable_seq, write_matches, IsoSized, Wire,
};

verus! {



// ---------------------------------------------------------------------------
// Sample flags.
// ---------------------------------------------------------------------------

/// The flags of a sample, packed into 32 bits.
///
/// ISO/IEC 14496-12 - 8.8.3.1
#[derive(Debug, Clone, Copy, PartialEq, Eq, Structural)]
pub struct SampleFlags {
    /// Reserved (4 bits).
    pub reserved: u8,
    /// Whether the sample is a leading sample (2 bits).
    pub is_leading: u8,
    /// Whether the sample depends on others (2 bits).
    pub sample_depends_on: u8,
    /// Whether other samples depend on this one (2 bits).
    pub sample_is_depended_on: u8,
    /// Whether the sample has redundant coding (2 bits).
    pub sample_has_redundancy: u8,
    /// The padding value of the sample (3 bits).
    pub sample_padding_value: u8,
    /// Whether the sample is not a sync sample.
    pub sample_is_non_sync_sample: bool,
    /// The degradation priority of the sample.
    pub sample_degradation_priority: u16,
}

impl View for SampleFlags {
    type V = SampleFlags;

    open spec fn view(&self) -> SampleFlags {
        *self
    }
}

/// The sample flags held in a 32-bit word, from the top bit down.
pub open spec fn sample_flags_from_bits(v: u32) -> SampleFlags {
    SampleFlags {
        reserved: ((v >> 28u32) & 0xf) as u8,
        is_leading: ((v >> 26u32) & 3) as u8,
        sample_depends_on: ((v >> 24u32) & 3) as u8,
        sample_is_depended_on: ((v >> 22u32) & 3) as u8,
        sample_has_redundancy: ((v >> 20u32) & 3) as u8,
        sample_padding_value: ((v >> 17u32) & 7) as u8,
        sample_is_non_sync_sample: (v >> 16u32) & 1 == 1,
        sample_degradation_priority: (v & 0xffff) as u16,
    }
}

/// The 32-bit word of sample flags: the low bits of each field, from the top bit down.
pub open spec fn sample_flags_bits(f: SampleFlags) -> u32 {
    (((f.reserved & 0xf) as u32) << 28u32) | (((f.is_leading & 3) as u32) << 26u32) | (((
    f.sample_depends_on & 3) as u32) << 24u32) | (((f.sample_is_depended_on & 3) as u32) << 22u32) | (((
    f.sample_has_redundancy & 3) as u32) << 20u32) | (((f.sample_padding_value & 7) as u32) << 17u32) | ((
    if f.sample_is_non_sync_sample { 1u32 } else { 0u32 }) << 16u32) | (f.sample_degradation_priority as u32)
}

/// Every field of the sample flags fits in its bits.
pub open spec fn sample_flags_fit(f: SampleFlags) -> bool {
    f.reserved < 16 && f.is_leading < 4 && f.sample_depends_on < 4 && f.sample_is_depended_on < 4
        && f.sample_has_redundancy < 4 && f.sample_padding_value < 8
}

pub proof fn lemma_sample_flags_roundtrip(f: SampleFlags)
    requires
        sample_flags_fit(f),
    ensures
        sample_flags_from_bits(sample_flags_bits(f)) == f,
{
    let a = f.reserved;
    let b = f.is_leading;
    let c = f.sample_depends_on;
    let d = f.sample_is_depended_on;
    let e = f.sample_has_redundancy;
    let g = f.sample_padding_value;
    let h = f.sample_is_non_sync_sample;
    let p = f.sample_degradation_priority;
    let v = sample_flags_bits(f);
    assert(((v >> 28u32) & 0xf) as u8 == a && ((v >> 26u32) & 3) as u8 == b && ((v >> 24u32) & 3) as u8 == c
        && ((v >> 22u32) & 3) as u8 == d && ((v >> 20u32) & 3) as u8 == e && ((v >> 17u32) & 7) as u8 == g
        && ((v >> 16u32) & 1 == 1) == h && (v & 0xffff) as u16 == p) by (bit_vector)
        requires
            v == (((a & 0xf) as u32) << 28u32) | (((b & 3) as u32) << 26u32) | (((c & 3) as u32) << 24u32) | (((d
                & 3) as u32) << 22u32) | (((e & 3) as u32) << 20u32) | (((g & 7) as u32) << 17u32) | ((if h {
                1u32
            } else {
                0u32
            }) << 16u32) | (p as u32),
            a < 16,
            b < 4,
            c < 4,
            d < 4,
            e < 4,
            g < 8,
    ;
}

/// The layout of the sample flags word (ISO/IEC 14496-12 - 8.8.3.1), from the top bit
/// down: 4 reserved bits (31..28), `is_leading` (27..26), `sample_depends_on` (25..24),
/// `sample_is_depended_on` (23..22), `sample_has_redundancy` (21..20), the padding
/// value (19..17), the non-sync bit (16) and the degradation priority (15..0).
pub proof fn lemma_sample_flags_layout(v: u32)
    ensures
        sample_flags_from_bits(v).reserved == v / 0x1000_0000,
        sample_flags_from_bits(v).is_leading == v / 0x400_0000 % 4,
        sample_flags_from_bits(v).sample_depends_on == v / 0x100_0000 % 4,
        sample_flags_from_bits(v).sample_is_depended_on == v / 0x40_0000 % 4,
        sample_flags_from_bits(v).sample_has_redundancy == v / 0x10_0000 % 4,
        sample_flags_from_bits(v).sample_padding_value == v / 0x2_0000 % 8,
        sample_flags_from_bits(v).sample_is_non_sync_sample == (v / 0x1_0000 % 2 == 1),
        sample_flags_from_bits(v).sample_degradation_priority == v % 0x1_0000,
{
    assert(((v >> 28u32) & 0xf) == v / 0x1000_0000 && ((v >> 26u32) & 3) == v / 0x400_0000 % 4 && ((v >> 24u32)
        & 3) == v / 0x100_0000 % 4 && ((v >> 22u32) & 3) == v / 0x40_0000 % 4 && ((v >> 20u32) & 3) == v
        / 0x10_0000 % 4 && ((v >> 17u32) & 7) == v / 0x2_0000 % 8 && ((v >> 16u32) & 1) == v / 0x1_0000 % 2 && (v
        & 0xffff) == v % 0x1_0000) by (bit_vector);
}

/// The word of sample flags whose fields fit their bits is the sum of each field
/// shifted to its place: the reserved bits at 2^28, `is_leading` at 2^26,
/// `sample_depends_on` at 2^24, `sample_is_depended_on` at 2^22,
/// `sample_has_redundancy` at 2^20, the padding value at 2^17, the non-sync bit at
/// 2^16 and the degradation priority in the low 16 bits.
pub proof fn lemma_sample_flags_word(f: SampleFlags)
    requires
        sample_flags_fit(f),
    ensures
        sample_flags_bits(f) == f.reserved * 0x1000_0000 + f.is_leading * 0x400_0000 + f.sample_depends_on
            * 0x100_0000 + f.sample_is_depended_on * 0x40_0000 + f.sample_has_redundancy * 0x10_0000
            + f.sample_padding_value * 0x2_0000 + (if f.sample_is_non_sync_sample { 0x1_0000int } else { 0int })
            + f.sample_degradation_priority,
{
    let a = f.reserved;
    let b = f.is_leading;
    let c = f.sample_depends_on;
    let d = f.sample_is_depended_on;
    let e = f.sample_has_redundancy;
    let g = f.sample_padding_value;
    let h: u32 = if f.sample_is_non_sync_sample { 1 } else { 0 };
    let p = f.sample_degradation_priority;
    let v = sample_flags_bits(f);
    assert(v == (((a & 0xf) as u32) << 28u32) | (((b & 3) as u32) << 26u32) | (((c & 3) as u32) << 24u32) | (((d
        & 3) as u32) << 22u32) | (((e & 3) as u32) << 20u32) | (((g & 7) as u32) << 17u32) | (h << 16u32) | (p
        as u32));
    assert(v as int == a * 0x1000_0000 + b * 0x400_0000 + c * 0x100_0000 + d * 0x40_0000 + e * 0x10_0000 + g
        * 0x2_0000 + h * 0x1_0000 + p) by (bit_vector)
        requires
            v == (((a & 0xf) as u32) << 28u32) | (((b & 3) as u32) << 26u32) | (((c & 3) as u32) << 24u32) | (((d
                & 3) as u32) << 22u32) | (((e & 3) as u32) << 20u32) | (((g & 7) as u32) << 17u32) | (h << 16u32)
                | (p as u32),
            a < 16,
            b < 4,
            c < 4,
            d < 4,
            e < 4,
            g < 8,
            h < 2,
    ;
}

impl SampleFlags {
    /// The sample flags held in a 32-bit word.
    pub fn from_bits(v: u32) -> (r: SampleFlags)
        ensures
            r == sample_flags_from_bits(v),
    {
        SampleFlags {
            reserved: ((v >> 28u32) & 0xf) as u8,
            is_leading: ((v >> 26u32) & 3) as u8,
            sample_depends_on: ((v >> 24u32) & 3) as u8,
            sample_is_depended_on: ((v >> 22u32) & 3) as u8,
            sample_has_redundancy: ((v >> 20u32) & 3) as u8,
            sample_padding_value: ((v >> 17u32) & 7) as u8,
            sample_is_non_sync_sample: (v >> 16u32) & 1 == 1,
            sample_degradation_priority: (v & 0xffff) as u16,
        }
    }

    /// The 32-bit word of these flags.
    pub fn to_bits(&self) -> (r: u32)
        ensures
            r == sample_flags_bits(*self),
    {
        (((self.reserved & 0xf) as u32) << 28u32) | (((self.is_leading & 3) as u32) << 26u32) | (((
        self.sample_depends_on & 3) as u32) << 24u32) | (((self.sample_is_depended_on & 3) as u32) << 22u32)
            | (((self.sample_has_redundancy & 3) as u32) << 20u32) | (((self.sample_padding_value & 7) as u32)
            << 17u32) | ((if self.sample_is_non_sync_sample { 1u32 } else { 0u32 }) << 16u32) | (
        self.sample_degradation_priority as u32)
    }
}

impl IsoSized for SampleFlags {
    open spec fn spec_size(&self) -> nat {
        4
    }

    fn size(&self) -> (n: usize) {
        4
    }
}

impl Wire for SampleFlags {
    open spec fn spec_parse(s: Seq<u8>) -> SpecParse<SampleFlags> {
        if s.len() < 4 { Err(IsoError::UnexpectedEof) } else { Ok((sample_flags_from_bits(be_u32_at(s, 0)), 4)) }
    }

    open spec fn spec_writable(v: SampleFlags) -> bool {
        true
    }

    open spec fn spec_serialize(v: SampleFlags) -> Seq<u8> {
        u32_bytes(sample_flags_bits(v))
    }

    open spec fn spec_canonical(v: SampleFlags) -> bool {
        sample_flags_fit(v)
    }

    proof fn lemma_parse_len(s: Seq<u8>) {
    }

    proof fn lemma_size(x: SampleFlags) {
    }

    proof fn lemma_roundtrip(v: SampleFlags, rest: Seq<u8>) {
        lemma_u32_roundtrip(sample_flags_bits(v), rest);
        lemma_sample_flags_roundtrip(v);
    }

    fn parse(data: &[u8], pos: usize) -> (r: Result<(SampleFlags, usize), IsoError>) {
        if data.len() - pos < 4 {
            return Err(IsoError::UnexpectedEof);
        }
        Ok((SampleFlags::from_bits(read_u32_at(data, pos)), pos + 4))
    }

    fn serialize(&self, out: &mut Vec<u8>) -> (r: Result<(), IsoError>) {
        let v = self.to_bits();
        proof {
            lemma_append_prefix(old(out)@, u32_bytes(v));
        }
        write_u32(out, v);
        Ok(())
    }
}

// ---------------------------------------------------------------------------
// Track run.
// ---------------------------------------------------------------------------

/// Track run flag: the data offset is present.
pub const TR_DATA_OFFSET_PRESENT: u32 = 0x000001;
/// Track run flag: the flags of the first sample are present.
pub const TR_FIRST_SAMPLE_FLAGS_PRESENT: u32 = 0x000004;
/// Track run flag: each sample has its duration.
pub const TR_SAMPLE_DURATION_PRESENT: u32 = 0x000100;
/// Track run flag: each sample has its size.
pub const TR_SAMPLE_SIZE_PRESENT: u32 = 0x000200;
/// Track run flag: each sample has its flags.
pub const TR_SAMPLE_FLAGS_PRESENT: u32 = 0x000400;
/// Track run flag: each sample has its composition time offset.
pub const TR_SAMPLE_COMPOSITION_TIME_OFFSETS_PRESENT: u32 = 0x000800;
/// The track run flags that are defined; reading keeps only these.
pub const TR_KNOWN_FLAGS: u32 = 0x000F05;

/// Whether `flags` has the flag `bit`.
pub open spec fn has_flag(flags: u32, bit: u32) -> bool {
    flags & bit != 0
}

/// A sample of a track run box.
#[derive(Debug, Clone, Copy, PartialEq, Eq, Structural)]
pub struct TrackRunBoxSample {
    /// The duration of the sample.
    pub sample_duration: Option<u32>,
    /// The size of the sample in bytes.
    pub sample_size: Option<u32>,
    /// The flags of the sample.
    pub sample_flags: Option<SampleFlags>,
    /// The composition time offset of the sample.
    pub sample_composition_time_offset: Option<i64>,
}

/// The number of bytes of a sample of a run with `flags`: 4 for each field the flags
/// announce.
pub open spec fn trun_sample_width(flags: u32) -> nat {
    (if has_flag(flags, TR_SAMPLE_DURATION_PRESENT) { 4nat } else { 0 }) + (if has_flag(
        flags,
        TR_SAMPLE_SIZE_PRESENT,
    ) { 4nat } else { 0 }) + (if has_flag(flags, TR_SAMPLE_FLAGS_PRESENT) { 4nat } else { 0 }) + (
    if has_flag(flags, TR_SAMPLE_COMPOSITION_TIME_OFFSETS_PRESENT) { 4nat } else { 0 })
}

/// The sample at offset `i` of a run of `version` with `flags`: the announced fields
/// in order; the composition time offset is unsigned in version 0 and signed otherwise.
pub open spec fn trun_sample_at(s: Seq<u8>, i: int, version: u8, flags: u32) -> TrackRunBoxSample {
    let o1 = i;
    let o2 = o1 + if has_flag(flags, TR_SAMPLE_DURATION_PRESENT) { 4int } else { 0 };
    let o3 = o2 + if has_flag(flags, TR_SAMPLE_SIZE_PRESENT) { 4int } else { 0 };
    let o4 = o3 + if has_flag(flags, TR_SAMPLE_FLAGS_PRESENT) { 4int } else { 0 };
    TrackRunBoxSample {
        sample_duration: if has_flag(flags, TR_SAMPLE_DURATION_PRESENT) { Some(be_u32_at(s, o1)) } else { None },
        sample_size: if has_flag(flags, TR_SAMPLE_SIZE_PRESENT) { Some(be_u32_at(s, o2)) } else { None },
        sample_flags: if has_flag(flags, TR_SAMPLE_FLAGS_PRESENT) {
            Some(sample_flags_from_bits(be_u32_at(s, o3)))
        } else {
            None
        },
        sample_composition_time_offset: if has_flag(flags, TR_SAMPLE_COMPOSITION_TIME_OFFSETS_PRESENT) {
            Some(if version == 0 { be_u32_at(s, o4) as i64 } else { i32_of(be_u32_at(s, o4)) as i64 })
        } else {
            None
        },
    }
}

/// The composition time offset as written: its low 32 bits.
pub open spec fn cto_word(o: i64, version: u8) -> u32 {
    if version == 0 { o as u32 } else { u32_of(o as i32) }
}

/// The bytes of a sample of a run of `version` with `flags`.
pub open spec fn trun_sample_bytes(v: TrackRunBoxSample, version: u8, flags: u32) -> Seq<u8> {
    (if has_flag(flags, TR_SAMPLE_DURATION_PRESENT) { u32_bytes(v.sample_duration.unwrap()) } else {
        Seq::empty()
    }) + (if has_flag(flags, TR_SAMPLE_SIZE_PRESENT) { u32_bytes(v.sample_size.unwrap()) } else {
        Seq::empty()
    }) + (if has_flag(flags, TR_SAMPLE_FLAGS_PRESENT) {
        u32_bytes(sample_flags_bits(v.sample_flags.unwrap()))
    } else {
        Seq::empty()
    }) + (if has_flag(flags, TR_SAMPLE_COMPOSITION_TIME_OFFSETS_PRESENT) {
        u32_bytes(cto_word(v.sample_composition_time_offset.unwrap(), version))
    } else {
        Seq::empty()
    })
}

/// A sample can be written in a run with `flags`: every announced field is present.
pub open spec fn trun_sample_writable(v: TrackRunBoxSample, flags: u32) -> bool {
    &&& has_flag(flags, TR_SAMPLE_DURATION_PRESENT) ==> v.sample_duration is Some
    &&& has_flag(flags, TR_SAMPLE_SIZE_PRESENT) ==> v.sample_size is Some
    &&& has_flag(flags, TR_SAMPLE_FLAGS_PRESENT) ==> v.sample_flags is Some
    &&& has_flag(flags, TR_SAMPLE_COMPOSITION_TIME_OFFSETS_PRESENT) ==> v.sample_composition_time_offset is Some
}

/// A sample that reads back as itself: its fields are exactly those announced, and
/// they fit their widths.
pub open spec fn trun_sample_fits(v: TrackRunBoxSample, version: u8, flags: u32) -> bool {
    &&& has_flag(flags, TR_SAMPLE_DURATION_PRESENT) == v.sample_duration is Some
    &&& has_flag(flags, TR_SAMPLE_SIZE_PRESENT) == v.sample_size is Some
    &&& has_flag(flags, TR_SAMPLE_FLAGS_PRESENT) == v.sample_flags is Some
    &&& has_flag(flags, TR_SAMPLE_COMPOSITION_TIME_OFFSETS_PRESENT) == v.sample_composition_time_offset is Some
    &&& (v.sample_flags matches Some(f) ==> sample_flags_fit(f))
    &&& (v.sample_composition_time_offset matches Some(o) ==> if version == 0 {
        0 <= o <= u32::MAX
    } else {
        i32::MIN <= o <= i32::MAX
    })
}

pub proof fn lemma_trun_sample_len(v: TrackRunBoxSample, version: u8, flags: u32)
    ensures
        trun_sample_bytes(v, version, flags).len() == trun_sample_width(flags),
{
}

pub proof fn lemma_trun_sample_decode(s: Seq<u8>, i: int, v: TrackRunBoxSample, version: u8, flags: u32)
    requires
        trun_sample_fits(v, version, flags),
        0 <= i,
        i + trun_sample_width(flags) <= s.len(),
        s.subrange(i, i + trun_sample_width(flags)) == trun_sample_bytes(v, version, flags),
    ensures
        trun_sample_at(s, i, version, flags) == v,
{
    let t = s.subrange(i, i + trun_sample_width(flags));
    let a: Seq<u8> = if has_flag(flags, TR_SAMPLE_DURATION_PRESENT) { u32_bytes(v.sample_duration.unwrap()) } else {
        Seq::empty()
    };
    let b: Seq<u8> = if has_flag(flags, TR_SAMPLE_SIZE_PRESENT) { u32_bytes(v.sample_size.unwrap()) } else {
        Seq::empty()
    };
    let c: Seq<u8> = if has_flag(flags, TR_SAMPLE_FLAGS_PRESENT) {
        u32_bytes(sample_flags_bits(v.sample_flags.unwrap()))
    } else {
        Seq::empty()
    };
    let d: Seq<u8> = if has_flag(flags, TR_SAMPLE_COMPOSITION_TIME_OFFSETS_PRESENT) {
        u32_bytes(cto_word(v.sample_composition_time_offset.unwrap(), version))
    } else {
        Seq::empty()
    };
    assert(t =~= a + b + c + d);
    let o2 = i + a.len();
    let o3 = o2 + b.len();
    let o4 = o3 + c.len();
    if let Some(x) = v.sample_duration {
        assert(s.subrange(i, i + 4) =~= u32_bytes(x)) by {
            assert forall|k: int| 0 <= k < 4 implies s.subrange(i, i + 4)[k] == u32_bytes(x)[k] by {
                assert(t[k] == s[i + k]);
            }
        }
        lemma_u32_at(s, i, x);
    }
    if let Some(x) = v.sample_size {
        assert(s.subrange(o2, o2 + 4) =~= u32_bytes(x)) by {
            assert forall|k: int| 0 <= k < 4 implies s.subrange(o2, o2 + 4)[k] == u32_bytes(x)[k] by {
                assert(t[a.len() + k] == s[o2 + k]);
            }
        }
        lemma_u32_at(s, o2, x);
    }
    if let Some(x) = v.sample_flags {
        let w = sample_flags_bits(x);
        assert(s.subrange(o3, o3 + 4) =~= u32_bytes(w)) by {
            assert forall|k: int| 0 <= k < 4 implies s.subrange(o3, o3 + 4)[k] == u32_bytes(w)[k] by {
                assert(t[a.len() + b.len() + k] == s[o3 + k]);
            }
        }
        lemma_u32_at(s, o3, w);
        lemma_sample_flags_roundtrip(x);
    }
    if let Some(x) = v.sample_composition_time_offset {
        let w = cto_word(x, version);
        assert(s.subrange(o4, o4 + 4) =~= u32_bytes(w)) by {
            assert forall|k: int| 0 <= k < 4 implies s.subrange(o4, o4 + 4)[k] == u32_bytes(w)[k] by {
                assert(t[a.len() + b.len() + c.len() + k] == s[o4 + k]);
            }
        }
        lemma_u32_at(s, o4, w);
        if version == 0 {
            assert((x as u32) as i64 == x);
        } else {
            lemma_i32_roundtrip(x as i32);
            assert((x as i32) as i64 == x);
        }
    }
}

impl TrackRunBoxSample {
    /// Reads a sample of a run of `version` with `flags` at `pos`.
    #[verifier::spinoff_prover]
    #[verifier::rlimit(60)]
    pub fn parse_with(data: &[u8], pos: usize, version: u8, flags: u32) -> (r: Result<
        (TrackRunBoxSample, usize),
        IsoError,
    >)
        requires
            pos <= data@.len(),
        ensures
            match r {
                Ok((v, p)) => pos + trun_sample_width(flags) <= data@.len() && v == trun_sample_at(
                    data@,
                    pos as int,
                    version,
                    flags,
                ) && p == pos + trun_sample_width(flags),
                Err(e) => e == IsoError::UnexpectedEof && data@.len() < pos + trun_sample_width(flags),
            },
    {
        let w = TrackRunBoxSample::width(flags);
        if data.len() - pos < w {
            return Err(IsoError::UnexpectedEof);
        }
        let mut p = pos;
        let sample_duration = if flags & TR_SAMPLE_DURATION_PRESENT != 0 {
            p = p + 4;
            Some(read_u32_at(data, p - 4))
        } else {
            None
        };
        let sample_size = if flags & TR_SAMPLE_SIZE_PRESENT != 0 {
            p = p + 4;
            Some(read_u32_at(data, p - 4))
        } else {
            None
        };
        let sample_flags = if flags & TR_SAMPLE_FLAGS_PRESENT != 0 {
            p = p + 4;
            Some(SampleFlags::from_bits(read_u32_at(data, p - 4)))
        } else {
            None
        };
        let sample_composition_time_offset = if flags & TR_SAMPLE_COMPOSITION_TIME_OFFSETS_PRESENT != 0 {
            p = p + 4;
            let raw = read_u32_at(data, p - 4);
            Some(if version == 0 { raw as i64 } else { to_i32(raw) as i64 })
        } else {
            None
        };
        Ok((TrackRunBoxSample { sample_duration, sample_size, sample_flags, sample_composition_time_offset }, p))
    }

    /// The number of bytes of a sample of a run with `flags`.
    pub fn width(flags: u32) -> (n: usize)
        ensures
            n == trun_sample_width(flags),
    {
        let mut n: usize = 0;
        if flags & TR_SAMPLE_DURATION_PRESENT != 0 {
            n = n + 4;
        }
        if flags & TR_SAMPLE_SIZE_PRESENT != 0 {
            n = n + 4;
        }
        if flags & TR_SAMPLE_FLAGS_PRESENT != 0 {
            n = n + 4;
        }
        if flags & TR_SAMPLE_COMPOSITION_TIME_OFFSETS_PRESENT != 0 {
            n = n + 4;
        }
        n
    }

    /// The size of the sample in a run with `flags`: 4 bytes for each field the flags
    /// announce.
    pub fn size(&self, flags: u32) -> (n: usize)
        ensures
            n == trun_sample_width(flags),
    {
        TrackRunBoxSample::width(flags)
    }

    /// Whether the sample has every field that `flags` announce.
    pub fn writable(&self, flags: u32) -> (r: bool)
        ensures
            r == trun_sample_writable(*self, flags),
    {
        !((flags & TR_SAMPLE_DURATION_PRESENT != 0 && self.sample_duration.is_none()) || (flags
            & TR_SAMPLE_SIZE_PRESENT != 0 && self.sample_size.is_none()) || (flags & TR_SAMPLE_FLAGS_PRESENT != 0
            && self.sample_flags.is_none()) || (flags & TR_SAMPLE_COMPOSITION_TIME_OFFSETS_PRESENT != 0
            && self.sample_composition_time_offset.is_none()))
    }

    /// Writes the sample for a run of `version` with `flags`; refused where an
    /// announced field is missing.
    pub fn serialize(&self, out: &mut Vec<u8>, version: u8, flags: u32) -> (r: Result<(), IsoError>)
        ensures
            write_matches(
                r,
                trun_sample_writable(*self, flags),
                trun_sample_bytes(*self, version, flags),
                old(out)@,
                final(out)@,
            ),
    {
        proof {
            assert(out@.subrange(0, out@.len() as int) =~= out@);
        }
        if !self.writable(flags) {
            return Err(IsoError::InvalidData);
        }
        let ghost before = out@;
        if flags & TR_SAMPLE_DURATION_PRESENT != 0 {
            write_u32(out, self.sample_duration.unwrap());
        }
        if flags & TR_SAMPLE_SIZE_PRESENT != 0 {
            write_u32(out, self.sample_size.unwrap());
        }
        if flags & TR_SAMPLE_FLAGS_PRESENT != 0 {
            write_u32(out, self.sample_flags.unwrap().to_bits());
        }
        if flags & TR_SAMPLE_COMPOSITION_TIME_OFFSETS_PRESENT != 0 {
            let o = self.sample_composition_time_offset.unwrap();
            if version == 0 {
                write_u32(out, o as u32);
            } else {
                write_u32(out, from_i32(o as i32));
            }
        }
        proof {
            assert(out@ =~= before + trun_sample_bytes(*self, version, flags));
            lemma_append_prefix(before, trun_sample_bytes(*self, version, flags));
        }
        Ok(())
    }
}

/// The samples stored one after the other from offset `i`.
pub open spec fn trun_samples_at(s: Seq<u8>, i: int, version: u8, flags: u32, count: nat) -> Seq<
    TrackRunBoxSample,
> {
    Seq::new(count, |k: int| trun_sample_at(s, i + k * trun_sample_width(flags), version, flags))
}

/// The bytes of the samples, one after the other.
pub open spec fn trun_samples_bytes(items: Seq<TrackRunBoxSample>, version: u8, flags: u32) -> Seq<u8> {
    Seq::new(
        items.len() * trun_sample_width(flags),
        |i: int|
            trun_sample_bytes(items[i / trun_sample_width(flags) as int], version, flags)[i
                % trun_sample_width(flags) as int],
    )
}

pub proof fn lemma_trun_samples_step(items: Seq<TrackRunBoxSample>, version: u8, flags: u32, i: int)
    requires
        0 <= i < items.len(),
    ensures
        trun_samples_bytes(items.take(i + 1), version, flags) == trun_samples_bytes(items.take(i), version, flags)
            + trun_sample_bytes(items[i], version, flags),
{
    let w = trun_sample_width(flags) as int;
    lemma_trun_sample_len(items[i], version, flags);
    let a = trun_samples_bytes(items.take(i + 1), version, flags);
    let b = trun_samples_bytes(items.take(i), version, flags) + trun_sample_bytes(items[i], version, flags);
    if w == 0 {
        assert(a =~= b);
    } else {
        vstd::arithmetic::mul::lemma_mul_is_distributive_add_other_way(w, i, 1);
        assert forall|k: int| 0 <= k < a.len() implies a[k] == b[k] by {
            let q = k / w;
            vstd::arithmetic::div_mod::lemma_fundamental_div_mod(k, w);
            if k < i * w {
                vstd::arithmetic::mul::lemma_mul_strict_inequality_converse(q, i, w);
            } else {
                lemma_div_mod_step(i, w, k - i * w);
            }
        }
        assert(a =~= b);
    }
}

pub proof fn lemma_trun_samples_region(s: Seq<u8>, i: int, items: Seq<TrackRunBoxSample>, version: u8, flags: u32)
    requires
        forall|k: int| 0 <= k < items.len() ==> #[trigger] trun_sample_fits(items[k], version, flags),
        0 <= i,
        i + items.len() * trun_sample_width(flags) <= s.len(),
        s.subrange(i, i + items.len() * trun_sample_width(flags)) == trun_samples_bytes(items, version, flags),
    ensures
        trun_samples_at(s, i, version, flags, items.len()) == items,
{
    let w = trun_sample_width(flags) as int;
    assert forall|k: int| 0 <= k < items.len() implies #[trigger] trun_sample_at(s, i + k * w, version, flags)
        == items[k] by {
        lemma_trun_sample_len(items[k], version, flags);
        vstd::arithmetic::mul::lemma_mul_is_distributive_add_other_way(w, k, 1);
        vstd::arithmetic::mul::lemma_mul_inequality(k + 1, items.len() as int, w);
        vstd::arithmetic::mul::lemma_mul_nonnegative(k, w);
        assert(s.subrange(i + k * w, i + k * w + w) =~= trun_sample_bytes(items[k], version, flags)) by {
            assert forall|r: int| 0 <= r < w implies s.subrange(i + k * w, i + k * w + w)[r] == trun_sample_bytes(
                items[k],
                version,
                flags,
            )[r] by {
                lemma_div_mod_step(k, w, r);
                assert(s.subrange(i, i + items.len() * w)[k * w + r] == s[i + k * w + r]);
            }
        }
        lemma_trun_sample_decode(s, i + k * w, items[k], version, flags);
    }
    assert(trun_samples_at(s, i, version, flags, items.len()) =~= items);
}



/// Track run box
///
/// ISO/IEC 14496-12 - 8.8.8
#[derive(Debug, PartialEq, Eq)]
pub struct TrackRunBox {
    /// The version of the box: 1 where composition time offsets are signed.
    pub version: u8,
    /// The flags of the box (see the `TR_` constants).
    pub flags: u32,
    /// The number of samples.
    pub sample_count: u32,
    /// The offset of the run's data from the base data offset.
    pub data_offset: Option<i32>,
    /// The flags of the first sample, in place of those of the track defaults.
    pub first_sample_flags: Option<SampleFlags>,
    /// The samples.
    pub samples: Vec<TrackRunBoxSample>,
}

/// The model of a [`TrackRunBox`].
pub struct TrackRunBoxModel {
    pub version: u8,
    pub flags: u32,
    pub sample_count: u32,
    pub data_offset: Option<i32>,
    pub first_sample_flags: Option<SampleFlags>,
    pub samples: Seq<TrackRunBoxSample>,
}

impl View for TrackRunBox {
    type V = TrackRunBoxModel;

    open spec fn view(&self) -> TrackRunBoxModel {
        TrackRunBoxModel {
            version: self.version,
            flags: self.flags,
            sample_count: self.sample_count,
            data_offset: self.data_offset,
            first_sample_flags: self.first_sample_flags,
            samples: self.samples@,
        }
    }
}

/// Offset of the first sample flags in the payload.
pub open spec fn trun_p1(flags: u32) -> int {
    8 + if has_flag(flags, TR_DATA_OFFSET_PRESENT) { 4int } else { 0 }
}

/// Offset of the samples in the payload.
pub open spec fn trun_p2(flags: u32) -> int {
    trun_p1(flags) + if has_flag(flags, TR_FIRST_SAMPLE_FLAGS_PRESENT) { 4int } else { 0 }
}

/// Reading the payload of a track run box; flags that are not defined are dropped.
pub open spec fn trun_parse(s: Seq<u8>) -> Result<TrackRunBoxModel, IsoError> {
    if s.len() < 8 {
        Err(IsoError::UnexpectedEof)
    } else {
        let version = s[0];
        let flags = be_u24_at(s, 1) & TR_KNOWN_FLAGS;
        let count = be_u32_at(s, 4);
        let p1 = trun_p1(flags);
        let p2 = trun_p2(flags);
        if s.len() < p2 + count * trun_sample_width(flags) {
            Err(IsoError::UnexpectedEof)
        } else {
            Ok(
                TrackRunBoxModel {
                    version,
                    flags,
                    sample_count: count,
                    data_offset: if has_flag(flags, TR_DATA_OFFSET_PRESENT) {
                        Some(i32_of(be_u32_at(s, 8)))
                    } else {
                        None
                    },
                    first_sample_flags: if has_flag(flags, TR_FIRST_SAMPLE_FLAGS_PRESENT) {
                        Some(sample_flags_from_bits(be_u32_at(s, p1)))
                    } else {
                        None
                    },
                    samples: trun_samples_at(s, p2, version, flags, count as nat),
                },
            )
        }
    }
}

/// The bytes of the payload of a track run box.
pub open spec fn trun_bytes(v: TrackRunBoxModel) -> Seq<u8> {
    seq![v.version] + u24_bytes(v.flags) + u32_bytes(v.sample_count) + (if has_flag(
        v.flags,
        TR_DATA_OFFSET_PRESENT,
    ) {
        u32_bytes(u32_of(v.data_offset.unwrap()))
    } else {
        Seq::empty()
    }) + (if has_flag(v.flags, TR_FIRST_SAMPLE_FLAGS_PRESENT) {
        u32_bytes(sample_flags_bits(v.first_sample_flags.unwrap()))
    } else {
        Seq::empty()
    }) + trun_samples_bytes(v.samples, v.version, v.flags)
}

/// A track run box can be written when every field its flags announce is present,
/// for the box and for each sample.
pub open spec fn trun_writable(v: TrackRunBoxModel) -> bool {
    &&& has_flag(v.flags, TR_DATA_OFFSET_PRESENT) ==> v.data_offset is Some
    &&& has_flag(v.flags, TR_FIRST_SAMPLE_FLAGS_PRESENT) ==> v.first_sample_flags is Some
    &&& forall|i: int| 0 <= i < v.samples.len() ==> #[trigger] trun_sample_writable(v.samples[i], v.flags)
}

/// A track run box that reads back as itself.
pub open spec fn trun_canonical(v: TrackRunBoxModel) -> bool {
    &&& v.flags < 0x100_0000
    &&& v.flags & TR_KNOWN_FLAGS == v.flags
    &&& v.sample_count == v.samples.len()
    &&& has_flag(v.flags, TR_DATA_OFFSET_PRESENT) == v.data_offset is Some
    &&& has_flag(v.flags, TR_FIRST_SAMPLE_FLAGS_PRESENT) == v.first_sample_flags is Some
    &&& (v.first_sample_flags matches Some(f) ==> sample_flags_fit(f))
    &&& forall|i: int| 0 <= i < v.samples.len() ==> #[trigger] trun_sample_fits(v.samples[i], v.version, v.flags)
}

impl IsoSized for TrackRunBox {
    /// The fixed fields, the announced optional fields, and the samples.
    open spec fn spec_size(&self) -> nat {
        add_header_size(
            (8 + (if has_flag(self.flags, TR_DATA_OFFSET_PRESENT) { 4int } else { 0 }) + (if has_flag(
                self.flags,
                TR_FIRST_SAMPLE_FLAGS_PRESENT,
            ) { 4int } else { 0 }) + self.samples@.len() * trun_sample_width(self.flags)) as nat,
        )
    }

    fn size(&self) -> (n: usize) {
        let mut size: usize = 8;
        if self.flags & TR_DATA_OFFSET_PRESENT != 0 {
            size = size + 4;
        }
        if self.flags & TR_FIRST_SAMPLE_FLAGS_PRESENT != 0 {
            size = size + 4;
        }
        let w = TrackRunBoxSample::width(self.flags);
        proof {
            vstd::arithmetic::mul::lemma_mul_nonnegative(self.samples@.len() as int, w as int);
        }
        add_header_size_exec(size + self.samples.len() * w)
    }
}

/// Whether the sample has a negative composition time offset.
pub open spec fn negative_offset(v: TrackRunBoxSample) -> bool {
    match v.sample_composition_time_offset {
        Some(o) => o < 0,
        None => false,
    }
}

/// Whether some sample has a negative composition time offset.
pub open spec fn has_negative_offset(samples: Seq<TrackRunBoxSample>) -> bool {
    exists|i: int| 0 <= i < samples.len() && #[trigger] negative_offset(samples[i])
}

/// The flags word with the data offset and each field whose switch is on.
pub open spec fn trun_flag_word(first: bool, d: bool, sz: bool, f: bool, c: bool) -> u32 {
    0x1u32 | (if first { 0x4u32 } else { 0u32 }) | (if d { 0x100u32 } else { 0u32 }) | (if sz {
        0x200u32
    } else {
        0u32
    }) | (if f { 0x400u32 } else { 0u32 }) | (if c { 0x800u32 } else { 0u32 })
}

/// Each switch of the flags word is the bit that it sets, and no other bit is set.
pub proof fn lemma_trun_flag_word(first: bool, d: bool, sz: bool, f: bool, c: bool)
    ensures
        trun_flag_word(first, d, sz, f, c) & 0x1u32 != 0,
        (trun_flag_word(first, d, sz, f, c) & 0x4u32 != 0) == first,
        (trun_flag_word(first, d, sz, f, c) & 0x100u32 != 0) == d,
        (trun_flag_word(first, d, sz, f, c) & 0x200u32 != 0) == sz,
        (trun_flag_word(first, d, sz, f, c) & 0x400u32 != 0) == f,
        (trun_flag_word(first, d, sz, f, c) & 0x800u32 != 0) == c,
        trun_flag_word(first, d, sz, f, c) & 0xF05u32 == trun_flag_word(first, d, sz, f, c),
        trun_flag_word(first, d, sz, f, c) < 0x100_0000u32,
{
    let w = trun_flag_word(first, d, sz, f, c);
    assert(w & 0x1u32 != 0 && (w & 0x4u32 != 0) == first && (w & 0x100u32 != 0) == d && (w & 0x200u32
        != 0) == sz && (w & 0x400u32 != 0) == f && (w & 0x800u32 != 0) == c && w & 0xF05u32 == w && w
        < 0x100_0000u32) by (bit_vector)
        requires
            w == 0x1u32 | (if first { 0x4u32 } else { 0u32 }) | (if d { 0x100u32 } else { 0u32 }) | (if sz {
                0x200u32
            } else {
                0u32
            }) | (if f { 0x400u32 } else { 0u32 }) | (if c { 0x800u32 } else { 0u32 }),
    ;
}

/// The flags that [`TrackRunBox::new`] sets: the data offset, the first sample
/// flags where they are given, and the per-sample fields that the first sample has.
pub open spec fn trun_new_flags(samples: Seq<TrackRunBoxSample>, first: bool) -> u32 {
    if samples.len() == 0 {
        trun_flag_word(first, false, false, false, false)
    } else {
        let s0 = samples[0];
        trun_flag_word(
            first,
            s0.sample_duration is Some,
            s0.sample_size is Some,
            s0.sample_flags is Some,
            s0.sample_composition_time_offset is Some,
        )
    }
}

/// The version that [`TrackRunBox::new`] picks: 1 where some composition time offset
/// is negative.
pub open spec fn trun_new_version(samples: Seq<TrackRunBoxSample>) -> u8 {
    if has_negative_offset(samples) { 1u8 } else { 0u8 }
}

/// The model of the run that [`TrackRunBox::new`] builds.
pub open spec fn trun_new_model(samples: Seq<TrackRunBoxSample>, first_sample_flags: Option<SampleFlags>) -> TrackRunBoxModel {
    TrackRunBoxModel {
        version: trun_new_version(samples),
        flags: trun_new_flags(samples, first_sample_flags is Some),
        sample_count: samples.len() as u32,
        data_offset: Some(0i32),
        first_sample_flags,
        samples,
    }
}

/// A sample that has the same fields as `first`, with flags that fit their widths and
/// a composition time offset that fits 32 signed bits.
pub open spec fn trun_uniform_sample(v: TrackRunBoxSample, first: TrackRunBoxSample) -> bool {
    &&& (v.sample_duration is Some) == (first.sample_duration is Some)
    &&& (v.sample_size is Some) == (first.sample_size is Some)
    &&& (v.sample_flags is Some) == (first.sample_flags is Some)
    &&& (v.sample_composition_time_offset is Some) == (first.sample_composition_time_offset is Some)
    &&& (v.sample_flags matches Some(f) ==> sample_flags_fit(f))
    &&& (v.sample_composition_time_offset matches Some(o) ==> i32::MIN <= o <= i32::MAX)
}

/// The run that [`TrackRunBox::new`] builds from samples that all have the fields of
/// the first one, with flags and offsets that fit, can be written and reads back as
/// itself.
pub proof fn lemma_trun_new_roundtrip(samples: Seq<TrackRunBoxSample>, first_sample_flags: Option<SampleFlags>)
    requires
        samples.len() <= u32::MAX,
        forall|i: int| 0 <= i < samples.len() ==> #[trigger] trun_uniform_sample(samples[i], samples[0]),
        first_sample_flags matches Some(f) ==> sample_flags_fit(f),
    ensures
        trun_writable(trun_new_model(samples, first_sample_flags)),
        trun_canonical(trun_new_model(samples, first_sample_flags)),
        trun_parse(trun_bytes(trun_new_model(samples, first_sample_flags))) == Ok::<TrackRunBoxModel, IsoError>(
            trun_new_model(samples, first_sample_flags),
        ),
{
    let v = trun_new_model(samples, first_sample_flags);
    let first = first_sample_flags is Some;
    if samples.len() == 0 {
        lemma_trun_flag_word(first, false, false, false, false);
    } else {
        let s0 = samples[0];
        lemma_trun_flag_word(
            first,
            s0.sample_duration is Some,
            s0.sample_size is Some,
            s0.sample_flags is Some,
            s0.sample_composition_time_offset is Some,
        );
    }
    assert forall|i: int| 0 <= i < samples.len() implies #[trigger] trun_sample_fits(samples[i], v.version, v.flags) by {
        assert(trun_uniform_sample(samples[i], samples[0]));
        if let Some(o) = samples[i].sample_composition_time_offset {
            if v.version == 0 {
                if o < 0 {
                    assert(negative_offset(samples[i]));
                    assert(has_negative_offset(samples));
                }
            }
        }
    }
    assert forall|i: int| 0 <= i < samples.len() implies #[trigger] trun_sample_writable(samples[i], v.flags) by {
        assert(trun_sample_fits(samples[i], v.version, v.flags));
    }
    TrackRunBox::lemma_body_roundtrip(v);
}

impl TrackRunBox {
    /// A run of `samples` with a data offset of 0: the per-sample fields are those that
    /// the first sample has, the first sample flags are announced where they are
    /// given, and the version is 1 where some composition time offset is negative.
    pub fn new(samples: Vec<TrackRunBoxSample>, first_sample_flags: Option<SampleFlags>) -> (r: TrackRunBox)
        ensures
            r@ == trun_new_model(samples@, first_sample_flags),
    {
        let fi = first_sample_flags.is_some();
        let (d, sz, f, c) = if samples.len() > 0 {
            let first = &samples[0];
            (
                first.sample_duration.is_some(),
                first.sample_size.is_some(),
                first.sample_flags.is_some(),
                first.sample_composition_time_offset.is_some(),
            )
        } else {
            (false, false, false, false)
        };
        let flags: u32 = 0x1u32 | (if fi { 0x4u32 } else { 0u32 }) | (if d { 0x100u32 } else { 0u32 }) | (if sz {
            0x200u32
        } else {
            0u32
        }) | (if f { 0x400u32 } else { 0u32 }) | (if c { 0x800u32 } else { 0u32 });
        let mut negative = false;
        let mut i: usize = 0;
        while i < samples.len()
            invariant
                i <= samples@.len(),
                negative <==> exists|j: int| 0 <= j < i && #[trigger] negative_offset(samples@[j]),
            decreases samples@.len() - i,
        {
            match samples[i].sample_composition_time_offset {
                Some(o) => {
                    if o < 0 {
                        negative = true;
                    }
                },
                None => {},
            }
            proof {
                assert(negative_offset(samples@[i as int]) ==> negative);
                if negative_offset(samples@[i as int]) {
                    assert(0 <= i < i + 1 && negative_offset(samples@[i as int]));
                }
                assert(forall|j: int| 0 <= j < i + 1 && #[trigger] negative_offset(samples@[j]) ==> (j < i || j == i));
            }
            i = i + 1;
        }
        let version: u8 = if negative { 1 } else { 0 };
        let sample_count = samples.len() as u32;
        TrackRunBox { version, flags, sample_count, data_offset: Some(0), first_sample_flags, samples }
    }
}

impl BoxBody for TrackRunBox {
    open spec fn spec_box_type() -> [u8; 4] {
        [0x74u8, 0x72u8, 0x75u8, 0x6eu8]
    }

    fn box_type() -> (r: [u8; 4]) {
        [0x74u8, 0x72u8, 0x75u8, 0x6eu8]
    }

    open spec fn spec_parse_body(s: Seq<u8>) -> Result<TrackRunBoxModel, IsoError> {
        trun_parse(s)
    }

    open spec fn spec_writable(v: TrackRunBoxModel) -> bool {
        trun_writable(v)
    }

    open spec fn spec_serialize_body(v: TrackRunBoxModel) -> Seq<u8> {
        trun_bytes(v)
    }

    open spec fn spec_canonical(v: TrackRunBoxModel) -> bool {
        trun_canonical(v)
    }

    proof fn lemma_box_type() {
        assert(Self::spec_box_type()[0] != spec_uuid_fourcc()[0]);
    }

    proof fn lemma_body_size(x: TrackRunBox) {
    }

    #[verifier::rlimit(40)]
    proof fn lemma_body_roundtrip(v: TrackRunBoxModel) {
        let s = trun_bytes(v);
        let flags = v.flags;
        let w = trun_sample_width(flags) as int;
        let n = v.samples.len() as int;
        let p1 = trun_p1(flags);
        let p2 = trun_p2(flags);
        let body = trun_samples_bytes(v.samples, v.version, flags);
        vstd::arithmetic::mul::lemma_mul_nonnegative(n, w);
        assert(body.len() == n * w);
        assert(s.len() == p2 + n * w);
        assert(s[0] == v.version);
        assert(s.subrange(1, 4) =~= u24_bytes(flags));
        lemma_u24_at(s, 1, flags);
        assert(s.subrange(4, 8) =~= u32_bytes(v.sample_count));
        lemma_u32_at(s, 4, v.sample_count);
        if let Some(d) = v.data_offset {
            assert(s.subrange(8, 12) =~= u32_bytes(u32_of(d)));
            lemma_u32_at(s, 8, u32_of(d));
            lemma_i32_roundtrip(d);
        }
        if let Some(f) = v.first_sample_flags {
            assert(s.subrange(p1, p1 + 4) =~= u32_bytes(sample_flags_bits(f)));
            lemma_u32_at(s, p1, sample_flags_bits(f));
            lemma_sample_flags_roundtrip(f);
        }
        assert(s.subrange(p2, p2 + n * w) =~= body);
        lemma_trun_samples_region(s, p2, v.samples, v.version, flags);
    }

    fn parse_body(d: &[u8]) -> (r: Result<TrackRunBox, IsoError>) {
        if d.len() < 8 {
            return Err(IsoError::UnexpectedEof);
        }
        let version = d[0];
        let flags = read_u24_at(d, 1) & TR_KNOWN_FLAGS;
        let sample_count = read_u32_at(d, 4);
        let mut p: usize = 8;
        let data_offset = if flags & TR_DATA_OFFSET_PRESENT != 0 {
            if d.len() < 12 {
                proof {
                    vstd::arithmetic::mul::lemma_mul_nonnegative(sample_count as int, trun_sample_width(flags) as int);
                }
                return Err(IsoError::UnexpectedEof);
            }
            p = 12;
            Some(to_i32(read_u32_at(d, 8)))
        } else {
            None
        };
        let first_sample_flags = if flags & TR_FIRST_SAMPLE_FLAGS_PRESENT != 0 {
            if d.len() - p < 4 {
                proof {
                    vstd::arithmetic::mul::lemma_mul_nonnegative(sample_count as int, trun_sample_width(flags) as int);
                }
                return Err(IsoError::UnexpectedEof);
            }
            p = p + 4;
            Some(SampleFlags::from_bits(read_u32_at(d, p - 4)))
        } else {
            None
        };
        let ghost p2 = p as int;
        let ghost w = trun_sample_width(flags) as int;
        let mut samples: Vec<TrackRunBoxSample> = Vec::new();
        let mut k: u32 = 0;
        assert(samples@ =~= trun_samples_at(d@, p2, version, flags, 0));
        while k < sample_count
            invariant
                d@.len() >= 8,
                version == d@[0],
                flags == be_u24_at(d@, 1) & TR_KNOWN_FLAGS,
                sample_count == be_u32_at(d@, 4),
                p2 == trun_p2(flags),
                w == trun_sample_width(flags),
                p2 <= p <= d@.len(),
                k <= sample_count,
                p == p2 + k * w,
                samples@ == trun_samples_at(d@, p2, version, flags, k as nat),
            decreases sample_count - k,
        {
            match TrackRunBoxSample::parse_with(d, p, version, flags) {
                Ok((item, np)) => {
                    proof {
                        vstd::arithmetic::mul::lemma_mul_is_distributive_add_other_way(w, k as int, 1);
                        assert(samples@.push(item) =~= trun_samples_at(d@, p2, version, flags, (k + 1) as nat));
                    }
                    samples.push(item);
                    p = np;
                    k = k + 1;
                },
                Err(e) => {
                    proof {
                        vstd::arithmetic::mul::lemma_mul_is_distributive_add_other_way(w, k as int, 1);
                        vstd::arithmetic::mul::lemma_mul_inequality(k + 1, sample_count as int, w);
                    }
                    return Err(e);
                },
            }
        }
        Ok(TrackRunBox { version, flags, sample_count, data_offset, first_sample_flags, samples })
    }

    fn serialize_body(&self, out: &mut Vec<u8>) -> (r: Result<(), IsoError>) {
        proof {
            assert(out@.subrange(0, out@.len() as int) =~= out@);
        }
        if self.flags & TR_DATA_OFFSET_PRESENT != 0 && self.data_offset.is_none() {
            return Err(IsoError::InvalidData);
        }
        if self.flags & TR_FIRST_SAMPLE_FLAGS_PRESENT != 0 && self.first_sample_flags.is_none() {
            return Err(IsoError::InvalidData);
        }
        let mut i: usize = 0;
        while i < self.samples.len()
            invariant
                out@ == old(out)@,
                i <= self.samples@.len(),
                forall|j: int| 0 <= j < i ==> #[trigger] trun_sample_writable(self.samples@[j], self.flags),
            decreases self.samples@.len() - i,
        {
            if !self.samples[i].writable(self.flags) {
                proof {
                    assert(out@.subrange(0, out@.len() as int) =~= out@);
                }
                return Err(IsoError::InvalidData);
            }
            i = i + 1;
        }
        let ghost before = out@;
        write_u8(out, self.version);
        write_u24(out, self.flags);
        write_u32(out, self.sample_count);
        if self.flags & TR_DATA_OFFSET_PRESENT != 0 {
            write_u32(out, from_i32(self.data_offset.unwrap()));
        }
        if self.flags & TR_FIRST_SAMPLE_FLAGS_PRESENT != 0 {
            write_u32(out, self.first_sample_flags.unwrap().to_bits());
        }
        let ghost head = out@;
        let mut j: usize = 0;
        proof {
            assert(self.samples@.take(0).len() == 0);
            assert(trun_samples_bytes(self.samples@.take(0), self.version, self.flags) =~= Seq::<u8>::empty());
            assert(out@ =~= head + trun_samples_bytes(self.samples@.take(0), self.version, self.flags));
        }
        while j < self.samples.len()
            invariant
                j <= self.samples@.len(),
                forall|m: int| 0 <= m < self.samples@.len() ==> #[trigger] trun_sample_writable(self.samples@[m], self.flags),
                out@ == head + trun_samples_bytes(self.samples@.take(j as int), self.version, self.flags),
            decreases self.samples@.len() - j,
        {
            proof {
                lemma_trun_samples_step(self.samples@, self.version, self.flags, j as int);
            }
            let _ = self.samples[j].serialize(out, self.version, self.flags);
            proof {
                assert(out@ =~= head + trun_samples_bytes(self.samples@.take(j + 1), self.version, self.flags));
            }
            j = j + 1;
        }
        proof {
            assert(self.samples@.take(j as int) =~= self.samples@);
            assert(out@ =~= before + trun_bytes(self@));
            lemma_append_prefix(before, trun_bytes(self@));
        }
        Ok(())
    }
}


// ---------------------------------------------------------------------------
// Track fragment header.
// ---------------------------------------------------------------------------

/// Track fragment flag: the base data offset is present.
pub const TF_BASE_DATA_OFFSET_PRESENT: u32 = 0x000001;
/// Track fragment flag: the sample description index is present.
pub const TF_SAMPLE_DESCRIPTION_INDEX_PRESENT: u32 = 0x000002;
/// Track fragment flag: the default sample duration is present.
pub const TF_DEFAULT_SAMPLE_DURATION_PRESENT: u32 = 0x000008;
/// Track fragment flag: the default sample size is present.
pub const TF_DEFAULT_SAMPLE_SIZE_PRESENT: u32 = 0x000010;
/// Track fragment flag: the default sample flags are present.
pub const TF_DEFAULT_SAMPLE_FLAGS_PRESENT: u32 = 0x000020;
/// Track fragment flag: the fragment has no samples for its duration.
pub const TF_DURATION_IS_EMPTY: u32 = 0x010000;
/// Track fragment flag: the base data offset is the start of the movie fragment box.
pub const TF_DEFAULT_BASE_IS_MOOF: u32 = 0x020000;
/// The track fragment flags that are defined; reading keeps only these.
pub const TF_KNOWN_FLAGS: u32 = 0x03003B;

/// Track fragment header box
///
/// ISO/IEC 14496-12 - 8.8.7
#[derive(Debug, Clone, Copy, PartialEq, Eq, Structural)]
pub struct TrackFragmentHeaderBox {
    /// The version of the box.
    pub version: u8,
    /// The flags of the box (see the `TF_` constants).
    pub flags: u32,
    /// The track of the fragment.
    pub track_id: u32,
    /// The base offset for data offsets.
    pub base_data_offset: Option<u64>,
    /// The sample description of the fragment's samples.
    pub sample_description_index: Option<u32>,
    /// The default duration of the fragment's samples.
    pub default_sample_duration: Option<u32>,
    /// The default size of the fragment's samples.
    pub default_sample_size: Option<u32>,
    /// The default flags of the fragment's samples.
    pub default_sample_flags: Option<SampleFlags>,
}

impl View for TrackFragmentHeaderBox {
    type V = TrackFragmentHeaderBox;

    open spec fn view(&self) -> TrackFragmentHeaderBox {
        *self
    }
}

pub open spec fn opt_width(present: bool, w: int) -> int {
    if present { w } else { 0 }
}

/// Offsets of the optional fields of a track fragment header: the base data offset,
/// then the four 32-bit fields, then the end.
pub open spec fn tfhd_offsets(flags: u32) -> (int, int, int, int, int) {
    let o2 = 8 + opt_width(has_flag(flags, TF_BASE_DATA_OFFSET_PRESENT), 8);
    let o3 = o2 + opt_width(has_flag(flags, TF_SAMPLE_DESCRIPTION_INDEX_PRESENT), 4);
    let o4 = o3 + opt_width(has_flag(flags, TF_DEFAULT_SAMPLE_DURATION_PRESENT), 4);
    let o5 = o4 + opt_width(has_flag(flags, TF_DEFAULT_SAMPLE_SIZE_PRESENT), 4);
    let end = o5 + opt_width(has_flag(flags, TF_DEFAULT_SAMPLE_FLAGS_PRESENT), 4);
    (o2, o3, o4, o5, end)
}

/// Reading the payload of a track fragment header box; flags that are not defined
/// are dropped.
pub open spec fn tfhd_parse(s: Seq<u8>) -> Result<TrackFragmentHeaderBox, IsoError> {
    if s.len() < 8 {
        Err(IsoError::UnexpectedEof)
    } else {
        let flags = be_u24_at(s, 1) & TF_KNOWN_FLAGS;
        let (o2, o3, o4, o5, end) = tfhd_offsets(flags);
        if s.len() < end {
            Err(IsoError::UnexpectedEof)
        } else {
            Ok(
                TrackFragmentHeaderBox {
                    version: s[0],
                    flags,
                    track_id: be_u32_at(s, 4),
                    base_data_offset: if has_flag(flags, TF_BASE_DATA_OFFSET_PRESENT) {
                        Some(be_u64_at(s, 8))
                    } else {
                        None
                    },
                    sample_description_index: if has_flag(flags, TF_SAMPLE_DESCRIPTION_INDEX_PRESENT) {
                        Some(be_u32_at(s, o2))
                    } else {
                        None
                    },
                    default_sample_duration: if has_flag(flags, TF_DEFAULT_SAMPLE_DURATION_PRESENT) {
                        Some(be_u32_at(s, o3))
                    } else {
                        None
                    },
                    default_sample_size: if has_flag(flags, TF_DEFAULT_SAMPLE_SIZE_PRESENT) {
                        Some(be_u32_at(s, o4))
                    } else {
                        None
                    },
                    default_sample_flags: if has_flag(flags, TF_DEFAULT_SAMPLE_FLAGS_PRESENT) {
                        Some(sample_flags_from_bits(be_u32_at(s, o5)))
                    } else {
                        None
                    },
                },
            )
        }
    }
}

pub open spec fn opt_u32_field(present: bool, v: Option<u32>) -> Seq<u8> {
    if present { u32_bytes(v.unwrap()) } else { Seq::empty() }
}

/// The bytes of the payload of a track fragment header box: the fields its flags
/// announce, in order.
pub open spec fn tfhd_bytes(v: TrackFragmentHeaderBox) -> Seq<u8> {
    seq![v.version] + u24_bytes(v.flags) + u32_bytes(v.track_id) + (if has_flag(
        v.flags,
        TF_BASE_DATA_OFFSET_PRESENT,
    ) {
        u64_bytes(v.base_data_offset.unwrap())
    } else {
        Seq::empty()
    }) + opt_u32_field(has_flag(v.flags, TF_SAMPLE_DESCRIPTION_INDEX_PRESENT), v.sample_description_index)
        + opt_u32_field(has_flag(v.flags, TF_DEFAULT_SAMPLE_DURATION_PRESENT), v.default_sample_duration)
        + opt_u32_field(has_flag(v.flags, TF_DEFAULT_SAMPLE_SIZE_PRESENT), v.default_sample_size) + (
    if has_flag(v.flags, TF_DEFAULT_SAMPLE_FLAGS_PRESENT) {
        u32_bytes(sample_flags_bits(v.default_sample_flags.unwrap()))
    } else {
        Seq::empty()
    })
}

/// The flags that [`TrackFragmentHeaderBox::new`] sets: the base is the movie
/// fragment, and each present field is announced.
pub open spec fn tfhd_new_flags(
    base_data_offset: bool,
    sample_description_index: bool,
    default_sample_duration: bool,
    default_sample_size: bool,
    default_sample_flags: bool,
) -> u32 {
    (TF_DEFAULT_BASE_IS_MOOF + (if base_data_offset { TF_BASE_DATA_OFFSET_PRESENT } else { 0 }) + (
    if sample_description_index { TF_SAMPLE_DESCRIPTION_INDEX_PRESENT } else { 0 }) + (
    if default_sample_duration { TF_DEFAULT_SAMPLE_DURATION_PRESENT } else { 0 }) + (if default_sample_size {
        TF_DEFAULT_SAMPLE_SIZE_PRESENT
    } else {
        0
    }) + (if default_sample_flags { TF_DEFAULT_SAMPLE_FLAGS_PRESENT } else { 0 })) as u32
}

impl TrackFragmentHeaderBox {
    /// A version 0 header whose base is the movie fragment and whose flags announce
    /// exactly the fields given.
    pub fn new(
        track_id: u32,
        base_data_offset: Option<u64>,
        sample_description_index: Option<u32>,
        default_sample_duration: Option<u32>,
        default_sample_size: Option<u32>,
        default_sample_flags: Option<SampleFlags>,
    ) -> (r: TrackFragmentHeaderBox)
        ensures
            r == (TrackFragmentHeaderBox {
                version: 0,
                flags: tfhd_new_flags(
                    base_data_offset is Some,
                    sample_description_index is Some,
                    default_sample_duration is Some,
                    default_sample_size is Some,
                    default_sample_flags is Some,
                ),
                track_id,
                base_data_offset,
                sample_description_index,
                default_sample_duration,
                default_sample_size,
                default_sample_flags,
            }),
    {
        let mut flags: u32 = TF_DEFAULT_BASE_IS_MOOF;
        if base_data_offset.is_some() {
            flags = flags + TF_BASE_DATA_OFFSET_PRESENT;
        }
        if sample_description_index.is_some() {
            flags = flags + TF_SAMPLE_DESCRIPTION_INDEX_PRESENT;
        }
        if default_sample_duration.is_some() {
            flags = flags + TF_DEFAULT_SAMPLE_DURATION_PRESENT;
        }
        if default_sample_size.is_some() {
            flags = flags + TF_DEFAULT_SAMPLE_SIZE_PRESENT;
        }
        if default_sample_flags.is_some() {
            flags = flags + TF_DEFAULT_SAMPLE_FLAGS_PRESENT;
        }
        TrackFragmentHeaderBox {
            version: 0,
            flags,
            track_id,
            base_data_offset,
            sample_description_index,
            default_sample_duration,
            default_sample_size,
            default_sample_flags,
        }
    }
}

fn read_opt_u32(d: &[u8], p: usize, present: bool) -> (r: (Option<u32>, usize))
    requires
        p <= d@.len(),
        present ==> p + 4 <= d@.len(),
    ensures
        r.0 == (if present { Some(be_u32_at(d@, p as int)) } else { None::<u32> }),
        r.1 == p + opt_width(present, 4),
{
    assert(d@.len() == d.len());
    if present {
        (Some(read_u32_at(d, p)), p + 4)
    } else {
        (None, p)
    }
}

impl IsoSized for TrackFragmentHeaderBox {
    /// The fixed fields and each present optional field.
    open spec fn spec_size(&self) -> nat {
        add_header_size(
            (8 + opt_width(self.base_data_offset is Some, 8) + opt_width(self.sample_description_index is Some, 4)
                + opt_width(self.default_sample_duration is Some, 4) + opt_width(self.default_sample_size is Some, 4)
                + opt_width(self.default_sample_flags is Some, 4)) as nat,
        )
    }

    fn size(&self) -> (n: usize) {
        let mut size: usize = 8;
        if self.base_data_offset.is_some() {
            size = size + 8;
        }
        if self.sample_description_index.is_some() {
            size = size + 4;
        }
        if self.default_sample_duration.is_some() {
            size = size + 4;
        }
        if self.default_sample_size.is_some() {
            size = size + 4;
        }
        if self.default_sample_flags.is_some() {
            size = size + 4;
        }
        add_header_size_exec(size)
    }
}

impl BoxBody for TrackFragmentHeaderBox {
    open spec fn spec_box_type() -> [u8; 4] {
        [0x74u8, 0x66u8, 0x68u8, 0x64u8]
    }

    fn box_type() -> (r: [u8; 4]) {
        [0x74u8, 0x66u8, 0x68u8, 0x64u8]
    }

    open spec fn spec_parse_body(s: Seq<u8>) -> Result<TrackFragmentHeaderBox, IsoError> {
        tfhd_parse(s)
    }

    /// Every field that the flags announce is present.
    open spec fn spec_writable(v: TrackFragmentHeaderBox) -> bool {
        &&& has_flag(v.flags, TF_BASE_DATA_OFFSET_PRESENT) ==> v.base_data_offset is Some
        &&& has_flag(v.flags, TF_SAMPLE_DESCRIPTION_INDEX_PRESENT) ==> v.sample_description_index is Some
        &&& has_flag(v.flags, TF_DEFAULT_SAMPLE_DURATION_PRESENT) ==> v.default_sample_duration is Some
        &&& has_flag(v.flags, TF_DEFAULT_SAMPLE_SIZE_PRESENT) ==> v.default_sample_size is Some
        &&& has_flag(v.flags, TF_DEFAULT_SAMPLE_FLAGS_PRESENT) ==> v.default_sample_flags is Some
    }

    open spec fn spec_serialize_body(v: TrackFragmentHeaderBox) -> Seq<u8> {
        tfhd_bytes(v)
    }

    /// The flags are defined ones, announce exactly the present fields, and the sample
    /// flags fit their bits.
    open spec fn spec_canonical(v: TrackFragmentHeaderBox) -> bool {
        &&& v.flags < 0x100_0000
        &&& v.flags & TF_KNOWN_FLAGS == v.flags
        &&& has_flag(v.flags, TF_BASE_DATA_OFFSET_PRESENT) == v.base_data_offset is Some
        &&& has_flag(v.flags, TF_SAMPLE_DESCRIPTION_INDEX_PRESENT) == v.sample_description_index is Some
        &&& has_flag(v.flags, TF_DEFAULT_SAMPLE_DURATION_PRESENT) == v.default_sample_duration is Some
        &&& has_flag(v.flags, TF_DEFAULT_SAMPLE_SIZE_PRESENT) == v.default_sample_size is Some
        &&& has_flag(v.flags, TF_DEFAULT_SAMPLE_FLAGS_PRESENT) == v.default_sample_flags is Some
        &&& (v.default_sample_flags matches Some(f) ==> sample_flags_fit(f))
    }

    proof fn lemma_box_type() {
        assert(Self::spec_box_type()[0] != spec_uuid_fourcc()[0]);
    }

    proof fn lemma_body_size(x: TrackFragmentHeaderBox) {
        if let Some(b) = x.base_data_offset {
            lemma_wide_bytes_len(b, 0);
        }
    }

    #[verifier::rlimit(60)]
    proof fn lemma_body_roundtrip(v: TrackFragmentHeaderBox) {
        let s = tfhd_bytes(v);
        let flags = v.flags;
        let (o2, o3, o4, o5, end) = tfhd_offsets(flags);
        if let Some(b) = v.base_data_offset {
            lemma_wide_bytes_len(b, 0);
        }
        assert(s.len() == end);
        assert(s[0] == v.version);
        assert(s.subrange(1, 4) =~= u24_bytes(flags));
        lemma_u24_at(s, 1, flags);
        assert(s.subrange(4, 8) =~= u32_bytes(v.track_id));
        lemma_u32_at(s, 4, v.track_id);
        if let Some(b) = v.base_data_offset {
            assert(s.subrange(8, 16) =~= u64_bytes(b));
            lemma_u64_at(s, 8, b);
        }
        if let Some(x) = v.sample_description_index {
            assert(s.subrange(o2, o2 + 4) =~= u32_bytes(x));
            lemma_u32_at(s, o2, x);
        }
        if let Some(x) = v.default_sample_duration {
            assert(s.subrange(o3, o3 + 4) =~= u32_bytes(x));
            lemma_u32_at(s, o3, x);
        }
        if let Some(x) = v.default_sample_size {
            assert(s.subrange(o4, o4 + 4) =~= u32_bytes(x));
            lemma_u32_at(s, o4, x);
        }
        if let Some(f) = v.default_sample_flags {
            assert(s.subrange(o5, o5 + 4) =~= u32_bytes(sample_flags_bits(f)));
            lemma_u32_at(s, o5, sample_flags_bits(f));
            lemma_sample_flags_roundtrip(f);
        }
    }

    fn parse_body(d: &[u8]) -> (r: Result<TrackFragmentHeaderBox, IsoError>) {
        if d.len() < 8 {
            return Err(IsoError::UnexpectedEof);
        }
        let version = d[0];
        let flags = read_u24_at(d, 1) & TF_KNOWN_FLAGS;
        let track_id = read_u32_at(d, 4);
        let w = TrackFragmentHeaderBox::payload_width(flags);
        if d.len() < w {
            return Err(IsoError::UnexpectedEof);
        }
        let (base_data_offset, p) = if flags & TF_BASE_DATA_OFFSET_PRESENT != 0 {
            (Some(read_u64_at(d, 8)), 16usize)
        } else {
            (None, 8usize)
        };
        let (sample_description_index, p) = read_opt_u32(d, p, flags & TF_SAMPLE_DESCRIPTION_INDEX_PRESENT != 0);
        let (default_sample_duration, p) = read_opt_u32(d, p, flags & TF_DEFAULT_SAMPLE_DURATION_PRESENT != 0);
        let (default_sample_size, p) = read_opt_u32(d, p, flags & TF_DEFAULT_SAMPLE_SIZE_PRESENT != 0);
        let (raw_flags, _p) = read_opt_u32(d, p, flags & TF_DEFAULT_SAMPLE_FLAGS_PRESENT != 0);
        let default_sample_flags = match raw_flags {
            Some(b) => Some(SampleFlags::from_bits(b)),
            None => None,
        };
        Ok(TrackFragmentHeaderBox {
            version,
            flags,
            track_id,
            base_data_offset,
            sample_description_index,
            default_sample_duration,
            default_sample_size,
            default_sample_flags,
        })
    }

    #[verifier::spinoff_prover]
    #[verifier::rlimit(40)]
    fn serialize_body(&self, out: &mut Vec<u8>) -> (r: Result<(), IsoError>) {
        proof {
            assert(out@.subrange(0, out@.len() as int) =~= out@);
        }
        let flags = self.flags;
        if (flags & TF_BASE_DATA_OFFSET_PRESENT != 0 && self.base_data_offset.is_none()) || (flags
            & TF_SAMPLE_DESCRIPTION_INDEX_PRESENT != 0 && self.sample_description_index.is_none()) || (flags
            & TF_DEFAULT_SAMPLE_DURATION_PRESENT != 0 && self.default_sample_duration.is_none()) || (flags
            & TF_DEFAULT_SAMPLE_SIZE_PRESENT != 0 && self.default_sample_size.is_none()) || (flags
            & TF_DEFAULT_SAMPLE_FLAGS_PRESENT != 0 && self.default_sample_flags.is_none()) {
            return Err(IsoError::InvalidData);
        }
        let ghost before = out@;
        write_u8(out, self.version);
        write_u24(out, flags);
        write_u32(out, self.track_id);
        if flags & TF_BASE_DATA_OFFSET_PRESENT != 0 {
            write_u64(out, self.base_data_offset.unwrap());
        }
        if flags & TF_SAMPLE_DESCRIPTION_INDEX_PRESENT != 0 {
            write_u32(out, self.sample_description_index.unwrap());
        }
        if flags & TF_DEFAULT_SAMPLE_DURATION_PRESENT != 0 {
            write_u32(out, self.default_sample_duration.unwrap());
        }
        if flags & TF_DEFAULT_SAMPLE_SIZE_PRESENT != 0 {
            write_u32(out, self.default_sample_size.unwrap());
        }
        if flags & TF_DEFAULT_SAMPLE_FLAGS_PRESENT != 0 {
            write_u32(out, self.default_sample_flags.unwrap().to_bits());
        }
        proof {
            assert(out@ =~= before + tfhd_bytes(*self));
            lemma_append_prefix(before, tfhd_bytes(*self));
        }
        Ok(())
    }
}

impl TrackFragmentHeaderBox {
    /// The length of the payload of a track fragment header with `flags`.
    fn payload_width(flags: u32) -> (n: usize)
        ensures
            n == tfhd_offsets(flags).4,
    {
        let mut n: usize = 8;
        if flags & TF_BASE_DATA_OFFSET_PRESENT != 0 {
            n = n + 8;
        }
        if flags & TF_SAMPLE_DESCRIPTION_INDEX_PRESENT != 0 {
            n = n + 4;
        }
        if flags & TF_DEFAULT_SAMPLE_DURATION_PRESENT != 0 {
            n = n + 4;
        }
        if flags & TF_DEFAULT_SAMPLE_SIZE_PRESENT != 0 {
            n = n + 4;
        }
        if flags & TF_DEFAULT_SAMPLE_FLAGS_PRESENT != 0 {
            n = n + 4;
        }
        n
    }
}

/// Movie fragment header box
///
/// ISO/IEC 14496-12 - 8.8.5
#[derive(Debug, Clone, Copy, PartialEq, Eq, Structural)]
pub struct MovieFragmentHeaderBox {
    /// The version and flags of the box.
    pub full_header: FullBoxHeader,
    /// The number of the fragment, increasing in the order of the fragments.
    pub sequence_number: u32,
}

impl View for MovieFragmentHeaderBox {
    type V = MovieFragmentHeaderBox;

    open spec fn view(&self) -> MovieFragmentHeaderBox {
        *self
    }
}

impl IsoSized for MovieFragmentHeaderBox {
    open spec fn spec_size(&self) -> nat {
        add_header_size(8)
    }

    fn size(&self) -> (n: usize) {
        add_header_size_exec(8)
    }
}

impl BoxBody for MovieFragmentHeaderBox {
    open spec fn spec_box_type() -> [u8; 4] {
        [0x6du8, 0x66u8, 0x68u8, 0x64u8]
    }

    fn box_type() -> (r: [u8; 4]) {
        [0x6du8, 0x66u8, 0x68u8, 0x64u8]
    }

    open spec fn spec_parse_body(s: Seq<u8>) -> Result<MovieFragmentHeaderBox, IsoError> {
        if s.len() < 8 {
            Err(IsoError::UnexpectedEof)
        } else {
            Ok(MovieFragmentHeaderBox {
                full_header: FullBoxHeader { version: s[0], flags: be_u24_at(s, 1) },
                sequence_number: be_u32_at(s, 4),
            })
        }
    }

    open spec fn spec_writable(v: MovieFragmentHeaderBox) -> bool {
        true
    }

    open spec fn spec_serialize_body(v: MovieFragmentHeaderBox) -> Seq<u8> {
        seq![v.full_header.version] + u24_bytes(v.full_header.flags) + u32_bytes(v.sequence_number)
    }

    open spec fn spec_canonical(v: MovieFragmentHeaderBox) -> bool {
        v.full_header.flags < 0x100_0000
    }

    proof fn lemma_box_type() {
        assert(Self::spec_box_type()[0] != spec_uuid_fourcc()[0] || Self::spec_box_type()[1] != spec_uuid_fourcc()[1]);
    }

    proof fn lemma_body_size(x: MovieFragmentHeaderBox) {
    }

    proof fn lemma_body_roundtrip(v: MovieFragmentHeaderBox) {
        let s = Self::spec_serialize_body(v);
        assert(s[0] == v.full_header.version);
        assert(s.subrange(1, 4) =~= u24_bytes(v.full_header.flags));
        lemma_u24_at(s, 1, v.full_header.flags);
        assert(s.subrange(4, 8) =~= u32_bytes(v.sequence_number));
        lemma_u32_at(s, 4, v.sequence_number);
    }

    fn parse_body(d: &[u8]) -> (r: Result<MovieFragmentHeaderBox, IsoError>) {
        if d.len() < 8 {
            return Err(IsoError::UnexpectedEof);
        }
        let full_header = FullBoxHeader { version: d[0], flags: read_u24_at(d, 1) };
        let sequence_number = read_u32_at(d, 4);
        Ok(MovieFragmentHeaderBox { full_header, sequence_number })
    }

    fn serialize_body(&self, out: &mut Vec<u8>) -> (r: Result<(), IsoError>) {
        let ghost before = out@;
        write_u8(out, self.full_header.version);
        write_u24(out, self.full_header.flags);
        write_u32(out, self.sequence_number);
        proof {
            assert(out@ =~= before + Self::spec_serialize_body(self@));
            lemma_append_prefix(before, Self::spec_serialize_body(self@));
        }
        Ok(())
    }
}

/// Movie fragment random access offset box
///
/// ISO/IEC 14496-12 - 8.8.11
#[derive(Debug, Clone, Copy, PartialEq, Eq, Structural)]
pub struct MovieFragmentRandomAccessOffsetBox {
    /// The version and flags of the box.
    pub full_header: FullBoxHeader,
    /// The size of the enclosing movie fragment random access box.
    pub parent_size: u32,
}

impl View for MovieFragmentRandomAccessOffsetBox {
    type V = MovieFragmentRandomAccessOffsetBox;

    open spec fn view(&self) -> MovieFragmentRandomAccessOffsetBox {
        *self
    }
}

impl IsoSized for MovieFragmentRandomAccessOffsetBox {
    open spec fn spec_size(&self) -> nat {
        add_header_size(8)
    }

    fn size(&self) -> (n: usize) {
        add_header_size_exec(8)
    }
}

impl BoxBody for MovieFragmentRandomAccessOffsetBox {
    open spec fn spec_box_type() -> [u8; 4] {
        [0x6du8, 0x66u8, 0x72u8, 0x6fu8]
    }

    fn box_type() -> (r: [u8; 4]) {
        [0x6du8, 0x66u8, 0x72u8, 0x6fu8]
    }

    open spec fn spec_parse_body(s: Seq<u8>) -> Result<MovieFragmentRandomAccessOffsetBox, IsoError> {
        if s.len() < 8 {
            Err(IsoError::UnexpectedEof)
        } else {
            Ok(MovieFragmentRandomAccessOffsetBox {
                full_header: FullBoxHeader { version: s[0], flags: be_u24_at(s, 1) },
                parent_size: be_u32_at(s, 4),
            })
        }
    }

    open spec fn spec_writable(v: MovieFragmentRandomAccessOffsetBox) -> bool {
        true
    }

    open spec fn spec_serialize_body(v: MovieFragmentRandomAccessOffsetBox) -> Seq<u8> {
        seq![v.full_header.version] + u24_bytes(v.full_header.flags) + u32_bytes(v.parent_size)
    }

    open spec fn spec_canonical(v: MovieFragmentRandomAccessOffsetBox) -> bool {
        v.full_header.flags < 0x100_0000
    }

    proof fn lemma_box_type() {
        assert(Self::spec_box_type()[0] != spec_uuid_fourcc()[0] || Self::spec_box_type()[1] != spec_uuid_fourcc()[1]);
    }

    proof fn lemma_body_size(x: MovieFragmentRandomAccessOffsetBox) {
    }

    proof fn lemma_body_roundtrip(v: MovieFragmentRandomAccessOffsetBox) {
        let s = Self::spec_serialize_body(v);
        assert(s[0] == v.full_header.version);
        assert(s.subrange(1, 4) =~= u24_bytes(v.full_header.flags));
        lemma_u24_at(s, 1, v.full_header.flags);
        assert(s.subrange(4, 8) =~= u32_bytes(v.parent_size));
        lemma_u32_at(s, 4, v.parent_size);
    }

    fn parse_body(d: &[u8]) -> (r: Result<MovieFragmentRandomAccessOffsetBox, IsoError>) {
        if d.len() < 8 {
            return Err(IsoError::UnexpectedEof);
        }
        let full_header = FullBoxHeader { version: d[0], flags: read_u24_at(d, 1) };
        let parent_size = read_u32_at(d, 4);
        Ok(MovieFragmentRandomAccessOffsetBox { full_header, parent_size })
    }

    fn serialize_body(&self, out: &mut Vec<u8>) -> (r: Result<(), IsoError>) {
        let ghost before = out@;
        write_u8(out, self.full_header.version);
        write_u24(out, self.full_header.flags);
        write_u32(out, self.parent_size);
        proof {
            assert(out@ =~= before + Self::spec_serialize_body(self@));
            lemma_append_prefix(before, Self::spec_serialize_body(self@));
        }
        Ok(())
    }
}

/// Track extends box
///
/// ISO/IEC 14496-12 - 8.8.3
#[derive(Debug, Clone, Copy, PartialEq, Eq, Structural)]
pub struct TrackExtendsBox {
    /// The version and flags of the box.
    pub full_header: FullBoxHeader,
    /// The track that the defaults are for.
    pub track_id: u32,
    /// The default sample description of the fragments of the track.
    pub default_sample_description_index: u32,
    /// The default duration of the samples.
    pub default_sample_duration: u32,
    /// The default size of the samples.
    pub default_sample_size: u32,
    /// The default flags of the samples.
    pub default_sample_flags: SampleFlags,
}

impl View for TrackExtendsBox {
    type V = TrackExtendsBox;

    open spec fn view(&self) -> TrackExtendsBox {
        *self
    }
}

impl IsoSized for TrackExtendsBox {
    open spec fn spec_size(&self) -> nat {
        add_header_size(24)
    }

    fn size(&self) -> (n: usize) {
        add_header_size_exec(24)
    }
}

impl BoxBody for TrackExtendsBox {
    open spec fn spec_box_type() -> [u8; 4] {
        [0x74u8, 0x72u8, 0x65u8, 0x78u8]
    }

    fn box_type() -> (r: [u8; 4]) {
        [0x74u8, 0x72u8, 0x65u8, 0x78u8]
    }

    open spec fn spec_parse_body(s: Seq<u8>) -> Result<TrackExtendsBox, IsoError> {
        if s.len() < 24 {
            Err(IsoError::UnexpectedEof)
        } else {
            Ok(TrackExtendsBox {
                full_header: FullBoxHeader { version: s[0], flags: be_u24_at(s, 1) },
                track_id: be_u32_at(s, 4),
                default_sample_description_index: be_u32_at(s, 8),
                default_sample_duration: be_u32_at(s, 12),
                default_sample_size: be_u32_at(s, 16),
                default_sample_flags: sample_flags_from_bits(be_u32_at(s, 20)),
            })
        }
    }

    open spec fn spec_writable(v: TrackExtendsBox) -> bool {
        true
    }

    open spec fn spec_serialize_body(v: TrackExtendsBox) -> Seq<u8> {
        seq![v.full_header.version] + u24_bytes(v.full_header.flags) + u32_bytes(v.track_id) + u32_bytes(v.default_sample_description_index) + u32_bytes(v.default_sample_duration) + u32_bytes(v.default_sample_size) + u32_bytes(sample_flags_bits(v.default_sample_flags))
    }

    open spec fn spec_canonical(v: TrackExtendsBox) -> bool {
        v.full_header.flags < 0x100_0000 && sample_flags_fit(v.default_sample_flags)
    }

    proof fn lemma_box_type() {
        assert(Self::spec_box_type()[0] != spec_uuid_fourcc()[0] || Self::spec_box_type()[1] != spec_uuid_fourcc()[1]);
    }

    proof fn lemma_body_size(x: TrackExtendsBox) {
    }

    proof fn lemma_body_roundtrip(v: TrackExtendsBox) {
        let s = Self::spec_serialize_body(v);
        assert(s[0] == v.full_header.version);
        assert(s.subrange(1, 4) =~= u24_bytes(v.full_header.flags));
        lemma_u24_at(s, 1, v.full_header.flags);
        assert(s.subrange(4, 8) =~= u32_bytes(v.track_id));
        lemma_u32_at(s, 4, v.track_id);
        assert(s.subrange(8, 12) =~= u32_bytes(v.default_sample_description_index));
        lemma_u32_at(s, 8, v.default_sample_description_index);
        assert(s.subrange(12, 16) =~= u32_bytes(v.default_sample_duration));
        lemma_u32_at(s, 12, v.default_sample_duration);
        assert(s.subrange(16, 20) =~= u32_bytes(v.default_sample_size));
        lemma_u32_at(s, 16, v.default_sample_size);
        assert(s.subrange(20, 24) =~= u32_bytes(sample_flags_bits(v.default_sample_flags)));
        lemma_u32_at(s, 20, sample_flags_bits(v.default_sample_flags));
        lemma_sample_flags_roundtrip(v.default_sample_flags);
    }

    fn parse_body(d: &[u8]) -> (r: Result<TrackExtendsBox, IsoError>) {
        if d.len() < 24 {
            return Err(IsoError::UnexpectedEof);
        }
        let full_header = FullBoxHeader { version: d[0], flags: read_u24_at(d, 1) };
        let track_id = read_u32_at(d, 4);
        let default_sample_description_index = read_u32_at(d, 8);
        let default_sample_duration = read_u32_at(d, 12);
        let default_sample_size = read_u32_at(d, 16);
        let default_sample_flags = SampleFlags::from_bits(read_u32_at(d, 20));
        Ok(TrackExtendsBox { full_header, track_id, default_sample_description_index, default_sample_duration, default_sample_size, default_sample_flags })
    }

    fn serialize_body(&self, out: &mut Vec<u8>) -> (r: Result<(), IsoError>) {
        let ghost before = out@;
        write_u8(out, self.full_header.version);
        write_u24(out, self.full_header.flags);
        write_u32(out, self.track_id);
        write_u32(out, self.default_sample_description_index);
        write_u32(out, self.default_sample_duration);
        write_u32(out, self.default_sample_size);
        write_u32(out, self.default_sample_flags.to_bits());
        proof {
            assert(out@ =~= before + Self::spec_serialize_body(self@));
            lemma_append_prefix(before, Self::spec_serialize_body(self@));
        }
        Ok(())
    }
}

// ---------------------------------------------------------------------------
// Level assignment.
// ---------------------------------------------------------------------------

/// How samples are assigned to a level of a level assignment box.
#[derive(Debug, Clone, Copy, PartialEq, Eq)]
pub enum LevelAssignmentBoxLevelAssignmentType {
    /// By the sample groups of a grouping type.
    Type0 {
        /// The grouping type whose description entries map samples to levels.
        grouping_type: [u8; 4],
    },
    /// By the sample groups of a grouping type with a parameter.
    Type1 {
        /// The grouping type whose description entries map samples to levels.
        grouping_type: [u8; 4],
        /// The parameter of the grouping.
        grouping_type_parameter: u32,
    },
    /// By track.
    Type2,
    /// By track, processed differently by the subsegment index.
    Type3,
    /// By sub-track.
    Type4 {
        /// The sub-track mapped to the level.
        sub_track_id: u32,
    },
    /// Any other assignment type.
    Other(u8),
}

impl View for LevelAssignmentBoxLevelAssignmentType {
    type V = LevelAssignmentBoxLevelAssignmentType;

    open spec fn view(&self) -> LevelAssignmentBoxLevelAssignmentType {
        *self
    }
}

/// The number of an assignment type.
pub open spec fn assignment_type_number(t: LevelAssignmentBoxLevelAssignmentType) -> u8 {
    match t {
        LevelAssignmentBoxLevelAssignmentType::Type0 { .. } => 0,
        LevelAssignmentBoxLevelAssignmentType::Type1 { .. } => 1,
        LevelAssignmentBoxLevelAssignmentType::Type2 => 2,
        LevelAssignmentBoxLevelAssignmentType::Type3 => 3,
        LevelAssignmentBoxLevelAssignmentType::Type4 { .. } => 4,
        LevelAssignmentBoxLevelAssignmentType::Other(v) => v,
    }
}

impl LevelAssignmentBoxLevelAssignmentType {
    /// The number of the assignment type.
    pub fn assignment_type(&self) -> (r: u8)
        ensures
            r == assignment_type_number(*self),
    {
        match self {
            LevelAssignmentBoxLevelAssignmentType::Type0 { .. } => 0,
            LevelAssignmentBoxLevelAssignmentType::Type1 { .. } => 1,
            LevelAssignmentBoxLevelAssignmentType::Type2 => 2,
            LevelAssignmentBoxLevelAssignmentType::Type3 => 3,
            LevelAssignmentBoxLevelAssignmentType::Type4 { .. } => 4,
            LevelAssignmentBoxLevelAssignmentType::Other(v) => *v,
        }
    }
}

/// The fields that follow the assignment type byte.
pub open spec fn assignment_payload(t: LevelAssignmentBoxLevelAssignmentType) -> Seq<u8> {
    match t {
        LevelAssignmentBoxLevelAssignmentType::Type0 { grouping_type } => grouping_type@,
        LevelAssignmentBoxLevelAssignmentType::Type1 { grouping_type, grouping_type_parameter } => grouping_type@
            + u32_bytes(grouping_type_parameter),
        LevelAssignmentBoxLevelAssignmentType::Type4 { sub_track_id } => u32_bytes(sub_track_id),
        _ => Seq::empty(),
    }
}

/// The number of bytes of the fields of an assignment.
pub open spec fn assignment_fields_size(t: LevelAssignmentBoxLevelAssignmentType) -> nat {
    match t {
        LevelAssignmentBoxLevelAssignmentType::Type0 { .. } => 4,
        LevelAssignmentBoxLevelAssignmentType::Type1 { .. } => 8,
        LevelAssignmentBoxLevelAssignmentType::Type4 { .. } => 4,
        _ => 0,
    }
}

/// The number of bytes that follow the assignment type byte for type number `n`.
pub open spec fn assignment_payload_len(n: u8) -> nat {
    if n == 0 {
        4
    } else if n == 1 {
        8
    } else if n == 4 {
        4
    } else {
        0
    }
}

/// The assignment of type number `n` whose fields start at offset `i`.
pub open spec fn assignment_at(s: Seq<u8>, i: int, n: u8) -> LevelAssignmentBoxLevelAssignmentType {
    if n == 0 {
        LevelAssignmentBoxLevelAssignmentType::Type0 { grouping_type: fourcc_at(s, i) }
    } else if n == 1 {
        LevelAssignmentBoxLevelAssignmentType::Type1 {
            grouping_type: fourcc_at(s, i),
            grouping_type_parameter: be_u32_at(s, i + 4),
        }
    } else if n == 2 {
        LevelAssignmentBoxLevelAssignmentType::Type2
    } else if n == 3 {
        LevelAssignmentBoxLevelAssignmentType::Type3
    } else if n == 4 {
        LevelAssignmentBoxLevelAssignmentType::Type4 { sub_track_id: be_u32_at(s, i) }
    } else {
        LevelAssignmentBoxLevelAssignmentType::Other(n)
    }
}

/// The byte with the padding flag in its high bit and the assignment type in the
/// seven low bits.
pub open spec fn level_byte(padding: u8, n: u8) -> u8 {
    (padding << 7u8) | (n & 0x7f)
}

pub proof fn lemma_level_byte(padding: u8, n: u8)
    by (bit_vector)
    requires
        padding < 2,
        n < 128,
    ensures
        level_byte(padding, n) & 0x7f == n,
        (level_byte(padding, n) >> 7u8) == padding,
{
}

/// A level of a level assignment box.
#[derive(Debug, Clone, Copy, PartialEq, Eq)]
pub struct LevelAssignmentBoxLevel {
    /// The track assigned to the level.
    pub track_id: u32,
    /// Whether a fraction can be formed from whole levels, padding the last media data.
    pub padding_flag: bool,
    /// How samples are assigned to the level.
    pub assignment_type: LevelAssignmentBoxLevelAssignmentType,
}

impl View for LevelAssignmentBoxLevel {
    type V = LevelAssignmentBoxLevel;

    open spec fn view(&self) -> LevelAssignmentBoxLevel {
        *self
    }
}

impl IsoSized for LevelAssignmentBoxLevel {
    open spec fn spec_size(&self) -> nat {
        5 + assignment_fields_size(self.assignment_type)
    }

    fn size(&self) -> (n: usize) {
        let mut size: usize = 4 + 1;
        match self.assignment_type {
            LevelAssignmentBoxLevelAssignmentType::Type0 { .. } => size = size + 4,
            LevelAssignmentBoxLevelAssignmentType::Type1 { .. } => size = size + 8,
            LevelAssignmentBoxLevelAssignmentType::Type4 { .. } => size = size + 4,
            _ => {},
        }
        size
    }
}

impl Wire for LevelAssignmentBoxLevel {
    /// The track, the byte with the flag and the type, then the fields of the type.
    open spec fn spec_parse(s: Seq<u8>) -> SpecParse<LevelAssignmentBoxLevel> {
        if s.len() < 5 {
            Err(IsoError::UnexpectedEof)
        } else {
            let n = s[4] & 0x7f;
            if s.len() < 5 + assignment_payload_len(n) {
                Err(IsoError::UnexpectedEof)
            } else {
                Ok(
                    (
                        LevelAssignmentBoxLevel {
                            track_id: be_u32_at(s, 0),
                            padding_flag: (s[4] >> 7u8) == 1,
                            assignment_type: assignment_at(s, 5, n),
                        },
                        5 + assignment_payload_len(n) as int,
                    ),
                )
            }
        }
    }

    open spec fn spec_writable(v: LevelAssignmentBoxLevel) -> bool {
        true
    }

    open spec fn spec_serialize(v: LevelAssignmentBoxLevel) -> Seq<u8> {
        u32_bytes(v.track_id) + seq![
            level_byte(if v.padding_flag { 1u8 } else { 0u8 }, assignment_type_number(v.assignment_type)),
        ] + assignment_payload(v.assignment_type)
    }

    /// Another assignment type is not one of the known numbers and fits in seven bits.
    open spec fn spec_canonical(v: LevelAssignmentBoxLevel) -> bool {
        v.assignment_type matches LevelAssignmentBoxLevelAssignmentType::Other(n) ==> 5 <= n < 128
    }

    proof fn lemma_parse_len(s: Seq<u8>) {
    }

    proof fn lemma_size(x: LevelAssignmentBoxLevel) {
        broadcast use vstd::array::group_array_axioms;
    }

    proof fn lemma_roundtrip(v: LevelAssignmentBoxLevel, rest: Seq<u8>) {
        let n = assignment_type_number(v.assignment_type);
        let p: u8 = if v.padding_flag { 1u8 } else { 0u8 };
        let payload = assignment_payload(v.assignment_type);
        let s = Self::spec_serialize(v) + rest;
        lemma_level_byte(p, n);
        assert(s.subrange(0, 4) =~= u32_bytes(v.track_id));
        lemma_u32_at(s, 0, v.track_id);
        assert(s[4] == level_byte(p, n));
        assert(s.subrange(5, 5 + payload.len() as int) =~= payload);
        match v.assignment_type {
            LevelAssignmentBoxLevelAssignmentType::Type0 { grouping_type } => {
                lemma_fourcc_at(s, 5, grouping_type);
            },
            LevelAssignmentBoxLevelAssignmentType::Type1 { grouping_type, grouping_type_parameter } => {
                assert(s.subrange(5, 9) =~= grouping_type@);
                lemma_fourcc_at(s, 5, grouping_type);
                assert(s.subrange(9, 13) =~= u32_bytes(grouping_type_parameter));
                lemma_u32_at(s, 9, grouping_type_parameter);
            },
            LevelAssignmentBoxLevelAssignmentType::Type4 { sub_track_id } => {
                lemma_u32_at(s, 5, sub_track_id);
            },
            _ => {},
        }
    }

    fn parse(data: &[u8], pos: usize) -> (r: Result<(LevelAssignmentBoxLevel, usize), IsoError>) {
        if data.len() - pos < 5 {
            return Err(IsoError::UnexpectedEof);
        }
        let d = vstd::slice::slice_subrange(data, pos, data.len());
        proof {
            assert(d@ =~= data@.skip(pos as int));
        }
        let track_id = read_u32_at(d, 0);
        let byte = d[4];
        let n = byte & 0x7f;
        let need: usize = if n == 0 {
            4
        } else if n == 1 {
            8
        } else if n == 4 {
            4
        } else {
            0
        };
        if d.len() < 5 + need {
            return Err(IsoError::UnexpectedEof);
        }
        let assignment_type = if n == 0 {
            LevelAssignmentBoxLevelAssignmentType::Type0 { grouping_type: read_fourcc_at(d, 5) }
        } else if n == 1 {
            LevelAssignmentBoxLevelAssignmentType::Type1 {
                grouping_type: read_fourcc_at(d, 5),
                grouping_type_parameter: read_u32_at(d, 9),
            }
        } else if n == 2 {
            LevelAssignmentBoxLevelAssignmentType::Type2
        } else if n == 3 {
            LevelAssignmentBoxLevelAssignmentType::Type3
        } else if n == 4 {
            LevelAssignmentBoxLevelAssignmentType::Type4 { sub_track_id: read_u32_at(d, 5) }
        } else {
            LevelAssignmentBoxLevelAssignmentType::Other(n)
        };
        Ok((LevelAssignmentBoxLevel { track_id, padding_flag: (byte >> 7u8) == 1, assignment_type }, pos + 5 + need))
    }

    fn serialize(&self, out: &mut Vec<u8>) -> (r: Result<(), IsoError>) {
        let ghost before = out@;
        write_u32(out, self.track_id);
        let p: u8 = if self.padding_flag { 1 } else { 0 };
        write_u8(out, (p << 7u8) | (self.assignment_type.assignment_type() & 0x7f));
        match self.assignment_type {
            LevelAssignmentBoxLevelAssignmentType::Type0 { grouping_type } => {
                write_fourcc(out, grouping_type);
            },
            LevelAssignmentBoxLevelAssignmentType::Type1 { grouping_type, grouping_type_parameter } => {
                write_fourcc(out, grouping_type);
                write_u32(out, grouping_type_parameter);
            },
            LevelAssignmentBoxLevelAssignmentType::Type4 { sub_track_id } => {
                write_u32(out, sub_track_id);
            },
            _ => {},
        }
        proof {
            assert(out@ =~= before + Self::spec_serialize(self@));
            lemma_append_prefix(before, Self::spec_serialize(self@));
        }
        Ok(())
    }
}

// ---------------------------------------------------------------------------
// Alternative startup sequence properties.
// ---------------------------------------------------------------------------

/// The fields of an alternative startup sequence properties box, by version.
#[derive(Debug, PartialEq, Eq)]
pub enum AlternativeStartupSequencePropertiesBoxVersion {
    /// Version 0.
    Version0 {
        /// No sample offset of the alternative startup sequence groups is smaller than this.
        min_initial_alt_startup_offset: i32,
    },
    /// Version 1.
    Version1 {
        /// The number of entries.
        num_entries: u32,
        /// The entries.
        entries: Vec<AlternativeStartupSequencePropertiesBoxVersion1Entry>,
    },
    /// Any other version, which has no fields.
    Other(u8),
}

/// The model of an [`AlternativeStartupSequencePropertiesBoxVersion`].
pub enum AsspVersionModel {
    Version0 { min_initial_alt_startup_offset: i32 },
    Version1 { num_entries: u32, entries: Seq<AlternativeStartupSequencePropertiesBoxVersion1Entry> },
    Other(u8),
}

impl View for AlternativeStartupSequencePropertiesBoxVersion {
    type V = AsspVersionModel;

    open spec fn view(&self) -> AsspVersionModel {
        match self {
            AlternativeStartupSequencePropertiesBoxVersion::Version0 { min_initial_alt_startup_offset } =>
                AsspVersionModel::Version0 { min_initial_alt_startup_offset: *min_initial_alt_startup_offset },
            AlternativeStartupSequencePropertiesBoxVersion::Version1 { num_entries, entries } =>
                AsspVersionModel::Version1 { num_entries: *num_entries, entries: views(entries@) },
            AlternativeStartupSequencePropertiesBoxVersion::Other(v) => AsspVersionModel::Other(*v),
        }
    }
}

/// The bytes of the fields of an alternative startup sequence properties box.
pub open spec fn assp_fields_bytes(v: AsspVersionModel) -> Seq<u8> {
    match v {
        AsspVersionModel::Version0 { min_initial_alt_startup_offset } => u32_bytes(u32_of(min_initial_alt_startup_offset)),
        AsspVersionModel::Version1 { num_entries, entries } => u32_bytes(num_entries) + ser_seq::<
            AlternativeStartupSequencePropertiesBoxVersion1Entry,
        >(entries),
        AsspVersionModel::Other(_) => Seq::empty(),
    }
}

impl IsoSized for AlternativeStartupSequencePropertiesBoxVersion {
    open spec fn spec_size(&self) -> nat {
        match self {
            AlternativeStartupSequencePropertiesBoxVersion::Version0 { .. } => 4,
            AlternativeStartupSequencePropertiesBoxVersion::Version1 { entries, .. } => 4 + 8 * entries@.len(),
            AlternativeStartupSequencePropertiesBoxVersion::Other(_) => 0,
        }
    }

    fn size(&self) -> (n: usize) {
        match self {
            AlternativeStartupSequencePropertiesBoxVersion::Version0 { .. } => 4,
            AlternativeStartupSequencePropertiesBoxVersion::Version1 { entries, .. } => 4 + 8 * entries.len(),
            AlternativeStartupSequencePropertiesBoxVersion::Other(_) => 0,
        }
    }
}

/// Alternative startup sequence properties box
///
/// ISO/IEC 14496-12 - 8.8.16
#[derive(Debug, PartialEq, Eq)]
pub struct AlternativeStartupSequencePropertiesBox {
    /// The version and flags of the box.
    pub full_header: FullBoxHeader,
    /// The fields of the version.
    pub version: AlternativeStartupSequencePropertiesBoxVersion,
}

/// The model of an [`AlternativeStartupSequencePropertiesBox`].
pub struct AlternativeStartupSequencePropertiesBoxModel {
    pub full_header: FullBoxHeader,
    pub version: AsspVersionModel,
}

impl View for AlternativeStartupSequencePropertiesBox {
    type V = AlternativeStartupSequencePropertiesBoxModel;

    open spec fn view(&self) -> AlternativeStartupSequencePropertiesBoxModel {
        AlternativeStartupSequencePropertiesBoxModel { full_header: self.full_header, version: self.version@ }
    }
}

impl IsoSized for AlternativeStartupSequencePropertiesBox {
    open spec fn spec_size(&self) -> nat {
        add_header_size(4 + self.version.spec_size())
    }

    fn size(&self) -> (n: usize) {
        add_header_size_exec(4 + self.version.size())
    }
}

impl BoxBody for AlternativeStartupSequencePropertiesBox {
    open spec fn spec_box_type() -> [u8; 4] {
        [0x61u8, 0x73u8, 0x73u8, 0x70u8]
    }

    fn box_type() -> (r: [u8; 4]) {
        [0x61u8, 0x73u8, 0x73u8, 0x70u8]
    }

    /// Version 0 holds an offset; version 1 a count and that many entries; any other
    /// version nothing.
    open spec fn spec_parse_body(s: Seq<u8>) -> Result<AlternativeStartupSequencePropertiesBoxModel, IsoError> {
        if s.len() < 4 {
            Err(IsoError::UnexpectedEof)
        } else {
            let full_header = FullBoxHeader { version: s[0], flags: be_u24_at(s, 1) };
            if s[0] == 0 {
                if s.len() < 8 {
                    Err(IsoError::UnexpectedEof)
                } else {
                    Ok(
                        AlternativeStartupSequencePropertiesBoxModel {
                            full_header,
                            version: AsspVersionModel::Version0 { min_initial_alt_startup_offset: i32_of(be_u32_at(s, 4)) },
                        },
                    )
                }
            } else if s[0] == 1 {
                if s.len() < 8 {
                    Err(IsoError::UnexpectedEof)
                } else {
                    match parse_count::<AlternativeStartupSequencePropertiesBoxVersion1Entry>(
                        s.skip(8),
                        be_u32_at(s, 4) as nat,
                    ) {
                        Ok((entries, _)) => Ok(
                            AlternativeStartupSequencePropertiesBoxModel {
                                full_header,
                                version: AsspVersionModel::Version1 { num_entries: be_u32_at(s, 4), entries },
                            },
                        ),
                        Err(e) => Err(e),
                    }
                }
            } else {
                Ok(AlternativeStartupSequencePropertiesBoxModel { full_header, version: AsspVersionModel::Other(s[0]) })
            }
        }
    }

    open spec fn spec_writable(v: AlternativeStartupSequencePropertiesBoxModel) -> bool {
        true
    }

    open spec fn spec_serialize_body(v: AlternativeStartupSequencePropertiesBoxModel) -> Seq<u8> {
        seq![v.full_header.version] + u24_bytes(v.full_header.flags) + assp_fields_bytes(v.version)
    }

    /// The fields are those of the version in the header, and the count is the number
    /// of entries.
    open spec fn spec_canonical(v: AlternativeStartupSequencePropertiesBoxModel) -> bool {
        &&& v.full_header.flags < 0x100_0000
        &&& match v.version {
            AsspVersionModel::Version0 { .. } => v.full_header.version == 0,
            AsspVersionModel::Version1 { num_entries, entries } => v.full_header.version == 1 && entries.len()
                == num_entries,
            AsspVersionModel::Other(n) => v.full_header.version == n && n >= 2,
        }
    }

    proof fn lemma_box_type() {
        assert(Self::spec_box_type()[0] != spec_uuid_fourcc()[0]);
    }

    proof fn lemma_body_size(x: AlternativeStartupSequencePropertiesBox) {
        if let AlternativeStartupSequencePropertiesBoxVersion::Version1 { entries, .. } = x.version {
            lemma_ser_seq_fixed::<AlternativeStartupSequencePropertiesBoxVersion1Entry>(views(entries@), 8);
        }
    }

    proof fn lemma_body_roundtrip(v: AlternativeStartupSequencePropertiesBoxModel) {
        let s = Self::spec_serialize_body(v);
        assert(s.subrange(1, 4) =~= u24_bytes(v.full_header.flags));
        lemma_u24_at(s, 1, v.full_header.flags);
        match v.version {
            AsspVersionModel::Version0 { min_initial_alt_startup_offset } => {
                assert(s.subrange(4, 8) =~= u32_bytes(u32_of(min_initial_alt_startup_offset)));
                lemma_u32_at(s, 4, u32_of(min_initial_alt_startup_offset));
                lemma_i32_roundtrip(min_initial_alt_startup_offset);
            },
            AsspVersionModel::Version1 { num_entries, entries } => {
                assert(s.subrange(4, 8) =~= u32_bytes(num_entries));
                lemma_u32_at(s, 4, num_entries);
                let e = ser_seq::<AlternativeStartupSequencePropertiesBoxVersion1Entry>(entries);
                assert(s.skip(8) =~= e + Seq::<u8>::empty());
                lemma_count_roundtrip::<AlternativeStartupSequencePropertiesBoxVersion1Entry>(
                    entries,
                    Seq::<u8>::empty(),
                );
            },
            AsspVersionModel::Other(_) => {},
        }
    }

    fn parse_body(d: &[u8]) -> (r: Result<AlternativeStartupSequencePropertiesBox, IsoError>) {
        if d.len() < 4 {
            return Err(IsoError::UnexpectedEof);
        }
        let full_header = FullBoxHeader { version: d[0], flags: read_u24_at(d, 1) };
        let version = if d[0] == 0 {
            if d.len() < 8 {
                return Err(IsoError::UnexpectedEof);
            }
            AlternativeStartupSequencePropertiesBoxVersion::Version0 {
                min_initial_alt_startup_offset: to_i32(read_u32_at(d, 4)),
            }
        } else if d[0] == 1 {
            if d.len() < 8 {
                return Err(IsoError::UnexpectedEof);
            }
            let num_entries = read_u32_at(d, 4);
            let (entries, _end) = parse_counted::<AlternativeStartupSequencePropertiesBoxVersion1Entry>(
                d,
                8,
                num_entries as usize,
            )?;
            AlternativeStartupSequencePropertiesBoxVersion::Version1 { num_entries, entries }
        } else {
            AlternativeStartupSequencePropertiesBoxVersion::Other(d[0])
        };
        Ok(AlternativeStartupSequencePropertiesBox { full_header, version })
    }

    fn serialize_body(&self, out: &mut Vec<u8>) -> (r: Result<(), IsoError>) {
        let ghost before = out@;
        write_u8(out, self.full_header.version);
        write_u24(out, self.full_header.flags);
        match &self.version {
            AlternativeStartupSequencePropertiesBoxVersion::Version0 { min_initial_alt_startup_offset } => {
                write_u32(out, from_i32(*min_initial_alt_startup_offset));
            },
            AlternativeStartupSequencePropertiesBoxVersion::Version1 { num_entries, entries } => {
                write_u32(out, *num_entries);
                let _ = serialize_all(entries, out);
            },
            AlternativeStartupSequencePropertiesBoxVersion::Other(_) => {},
        }
        proof {
            assert(out@ =~= before + Self::spec_serialize_body(self@));
            lemma_append_prefix(before, Self::spec_serialize_body(self@));
        }
        Ok(())
    }
}

// ---------------------------------------------------------------------------
// Track fragment random access.
// ---------------------------------------------------------------------------

/// The layout of the entries of a track fragment random access box, in one byte:
/// bit 6 is set for 64-bit times and offsets (version 1), bits 4-5, 2-3 and 0-1 hold
/// the lengths, less one, of the fragment, run and sample numbers.
pub open spec fn tfra_layout(version: u8, traf: u8, trun: u8, sample: u8) -> u8 {
    ((if version == 1 { 64int } else { 0int }) + traf * 16 + trun * 4 + sample) as u8
}

/// Whether times and offsets take 64 bits in `layout`.
pub open spec fn tfra_wide(layout: u8) -> bool {
    layout >= 64
}

/// The widths of the fragment, run and sample numbers in `layout`.
pub open spec fn tfra_traf_len(layout: u8) -> nat {
    ((layout % 64) / 16 + 1) as nat
}

pub open spec fn tfra_trun_len(layout: u8) -> nat {
    ((layout % 16) / 4 + 1) as nat
}

pub open spec fn tfra_sample_len(layout: u8) -> nat {
    (layout % 4 + 1) as nat
}

/// The number of bytes of the time and the offset in `layout`.
pub open spec fn tfra_time_len(layout: u8) -> nat {
    if tfra_wide(layout) { 8 } else { 4 }
}

/// The number of bytes of an entry in `layout`.
pub open spec fn tfra_entry_len(layout: u8) -> nat {
    2 * tfra_time_len(layout) + tfra_traf_len(layout) + tfra_trun_len(layout) + tfra_sample_len(layout)
}

/// An entry of the track fragment random access box.
#[derive(Debug, Clone, Copy, PartialEq, Eq, Structural)]
pub struct TrackFragmentRandomAccessBoxEntry {
    /// The presentation time of the sync sample.
    pub time: u64,
    /// The offset of the movie fragment box from the start of the file.
    pub moof_offset: u64,
    /// The number of the track fragment, from 1.
    pub traf_number: u32,
    /// The number of the track run, from 1.
    pub trun_number: u32,
    /// The number of the sample in the run, from 1.
    pub sample_delta: u32,
}

impl View for TrackFragmentRandomAccessBoxEntry {
    type V = TrackFragmentRandomAccessBoxEntry;

    open spec fn view(&self) -> TrackFragmentRandomAccessBoxEntry {
        *self
    }
}

impl VersionedWire for TrackFragmentRandomAccessBoxEntry {
    open spec fn spec_parse_v(s: Seq<u8>, layout: u8) -> SpecParse<TrackFragmentRandomAccessBoxEntry> {
        let t = tfra_time_len(layout) as int;
        let a = 2 * t;
        let b = a + tfra_traf_len(layout);
        let c = b + tfra_trun_len(layout);
        let e = c + tfra_sample_len(layout);
        if s.len() < e {
            Err(IsoError::UnexpectedEof)
        } else {
            Ok(
                (
                    TrackFragmentRandomAccessBoxEntry {
                        time: if tfra_wide(layout) { be_u64_at(s, 0) } else { be_u32_at(s, 0) as u64 },
                        moof_offset: if tfra_wide(layout) { be_u64_at(s, 8) } else { be_u32_at(s, 4) as u64 },
                        traf_number: be_uint(s.subrange(a, b)) as u32,
                        trun_number: be_uint(s.subrange(b, c)) as u32,
                        sample_delta: be_uint(s.subrange(c, e)) as u32,
                    },
                    e,
                ),
            )
        }
    }

    open spec fn spec_writable_v(v: TrackFragmentRandomAccessBoxEntry, layout: u8) -> bool {
        true
    }

    /// The time and the offset (cut to 32 bits unless wide), then the three numbers
    /// in their widths.
    open spec fn spec_serialize_v(v: TrackFragmentRandomAccessBoxEntry, layout: u8) -> Seq<u8> {
        (if tfra_wide(layout) {
            u64_bytes(v.time) + u64_bytes(v.moof_offset)
        } else {
            u32_bytes(v.time as u32) + u32_bytes(v.moof_offset as u32)
        }) + uint_bytes_n(v.traf_number as u64, tfra_traf_len(layout)) + uint_bytes_n(
            v.trun_number as u64,
            tfra_trun_len(layout),
        ) + uint_bytes_n(v.sample_delta as u64, tfra_sample_len(layout))
    }

    /// Every value fits its width.
    open spec fn spec_canonical_v(v: TrackFragmentRandomAccessBoxEntry, layout: u8) -> bool {
        &&& !tfra_wide(layout) ==> v.time <= u32::MAX && v.moof_offset <= u32::MAX
        &&& v.traf_number < pow(256, tfra_traf_len(layout))
        &&& v.trun_number < pow(256, tfra_trun_len(layout))
        &&& v.sample_delta < pow(256, tfra_sample_len(layout))
    }

    open spec fn spec_size_v(v: TrackFragmentRandomAccessBoxEntry, layout: u8) -> nat {
        tfra_entry_len(layout)
    }

    proof fn lemma_parse_len_v(s: Seq<u8>, layout: u8) {
    }

    proof fn lemma_size_v(v: TrackFragmentRandomAccessBoxEntry, layout: u8) {
        lemma_wide_bytes_len(v.time, 0);
        lemma_wide_bytes_len(v.moof_offset, 0);
        lemma_uint_bytes_n(v.traf_number as u64, tfra_traf_len(layout));
        lemma_uint_bytes_n(v.trun_number as u64, tfra_trun_len(layout));
        lemma_uint_bytes_n(v.sample_delta as u64, tfra_sample_len(layout));
    }

    proof fn lemma_roundtrip_v(v: TrackFragmentRandomAccessBoxEntry, layout: u8, rest: Seq<u8>) {
        let t = tfra_time_len(layout) as int;
        let n1 = tfra_traf_len(layout);
        let n2 = tfra_trun_len(layout);
        let n3 = tfra_sample_len(layout);
        let a = 2 * t;
        let b = a + n1;
        let c = b + n2;
        let e = c + n3;
        let head = if tfra_wide(layout) {
            u64_bytes(v.time) + u64_bytes(v.moof_offset)
        } else {
            u32_bytes(v.time as u32) + u32_bytes(v.moof_offset as u32)
        };
        let x1 = uint_bytes_n(v.traf_number as u64, n1);
        let x2 = uint_bytes_n(v.trun_number as u64, n2);
        let x3 = uint_bytes_n(v.sample_delta as u64, n3);
        Self::lemma_size_v(v, layout);
        lemma_uint_bytes_n(v.traf_number as u64, n1);
        lemma_uint_bytes_n(v.trun_number as u64, n2);
        lemma_uint_bytes_n(v.sample_delta as u64, n3);
        let s = Self::spec_serialize_v(v, layout) + rest;
        assert(s =~= head + x1 + x2 + x3 + rest);
        lemma_tfra_times(v, layout, x1 + x2 + x3 + rest);
        assert(s =~= head + (x1 + x2 + x3 + rest));
        assert(s.subrange(a, b) =~= x1);
        assert(s.subrange(b, c) =~= x2);
        assert(s.subrange(c, e) =~= x3);
        vstd::arithmetic::div_mod::lemma_small_mod(v.traf_number as nat, pow(256, n1) as nat);
        vstd::arithmetic::div_mod::lemma_small_mod(v.trun_number as nat, pow(256, n2) as nat);
        vstd::arithmetic::div_mod::lemma_small_mod(v.sample_delta as nat, pow(256, n3) as nat);
    }

    fn parse_v(data: &[u8], pos: usize, layout: u8) -> (r: Result<(TrackFragmentRandomAccessBoxEntry, usize), IsoError>) {
        let t: usize = if layout >= 64 { 8 } else { 4 };
        let n1: usize = ((layout % 64) / 16 + 1) as usize;
        let n2: usize = ((layout % 16) / 4 + 1) as usize;
        let n3: usize = (layout % 4 + 1) as usize;
        let e = 2 * t + n1 + n2 + n3;
        if data.len() - pos < e {
            return Err(IsoError::UnexpectedEof);
        }
        let d = vstd::slice::slice_subrange(data, pos, data.len());
        proof {
            assert(d@ =~= data@.skip(pos as int));
            reveal(be_u64_at);
        }
        let time = if t == 8 { read_u64_at(d, 0) } else { read_u32_at(d, 0) as u64 };
        let moof_offset = if t == 8 { read_u64_at(d, 8) } else { read_u32_at(d, 4) as u64 };
        let a = 2 * t;
        let traf_number = pad_to_u64(vstd::slice::slice_subrange(d, a, a + n1)) as u32;
        let trun_number = pad_to_u64(vstd::slice::slice_subrange(d, a + n1, a + n1 + n2)) as u32;
        let sample_delta = pad_to_u64(vstd::slice::slice_subrange(d, a + n1 + n2, e)) as u32;
        Ok((TrackFragmentRandomAccessBoxEntry { time, moof_offset, traf_number, trun_number, sample_delta }, pos + e))
    }

    fn serialize_v(&self, out: &mut Vec<u8>, layout: u8) -> (r: Result<(), IsoError>) {
        let ghost before = out@;
        if layout >= 64 {
            write_u64(out, self.time);
            write_u64(out, self.moof_offset);
        } else {
            write_u32(out, self.time as u32);
            write_u32(out, self.moof_offset as u32);
        }
        write_uint_n(out, self.traf_number as u64, (layout % 64) / 16 + 1);
        write_uint_n(out, self.trun_number as u64, (layout % 16) / 4 + 1);
        write_uint_n(out, self.sample_delta as u64, layout % 4 + 1);
        proof {
            assert(out@ =~= before + Self::spec_serialize_v(self@, layout));
            lemma_append_prefix(before, Self::spec_serialize_v(self@, layout));
        }
        Ok(())
    }

    fn size_v(&self, layout: u8) -> (n: usize) {
        let t: usize = if layout >= 64 { 8 } else { 4 };
        2 * t + ((layout % 64) / 16 + 1) as usize + ((layout % 16) / 4 + 1) as usize + (layout % 4 + 1) as usize
    }
}

/// The time and the offset of an entry read back from its bytes.
pub proof fn lemma_tfra_times(v: TrackFragmentRandomAccessBoxEntry, layout: u8, rest: Seq<u8>)
    requires
        !tfra_wide(layout) ==> v.time <= u32::MAX && v.moof_offset <= u32::MAX,
    ensures
        ({
            let head = if tfra_wide(layout) {
                u64_bytes(v.time) + u64_bytes(v.moof_offset)
            } else {
                u32_bytes(v.time as u32) + u32_bytes(v.moof_offset as u32)
            };
            let s = head + rest;
            &&& head.len() == 2 * tfra_time_len(layout)
            &&& (if tfra_wide(layout) { be_u64_at(s, 0) } else { be_u32_at(s, 0) as u64 }) == v.time
            &&& (if tfra_wide(layout) { be_u64_at(s, 8) } else { be_u32_at(s, 4) as u64 }) == v.moof_offset
        }),
{
    lemma_wide_bytes_len(v.time, 0);
    lemma_wide_bytes_len(v.moof_offset, 0);
    if tfra_wide(layout) {
        let s = u64_bytes(v.time) + u64_bytes(v.moof_offset) + rest;
        assert(s.subrange(0, 8) =~= u64_bytes(v.time));
        lemma_u64_at(s, 0, v.time);
        assert(s.subrange(8, 16) =~= u64_bytes(v.moof_offset));
        lemma_u64_at(s, 8, v.moof_offset);
    } else {
        let s = u32_bytes(v.time as u32) + u32_bytes(v.moof_offset as u32) + rest;
        assert(s.subrange(0, 4) =~= u32_bytes(v.time as u32));
        lemma_u32_at(s, 0, v.time as u32);
        assert(s.subrange(4, 8) =~= u32_bytes(v.moof_offset as u32));
        lemma_u32_at(s, 4, v.moof_offset as u32);
    }
}

/// The layout byte of a box decodes to its version and lengths.
pub proof fn lemma_tfra_layout(version: u8, traf: u8, trun: u8, sample: u8)
    requires
        traf < 4,
        trun < 4,
        sample < 4,
    ensures
        tfra_wide(tfra_layout(version, traf, trun, sample)) == (version == 1),
        tfra_traf_len(tfra_layout(version, traf, trun, sample)) == traf + 1,
        tfra_trun_len(tfra_layout(version, traf, trun, sample)) == trun + 1,
        tfra_sample_len(tfra_layout(version, traf, trun, sample)) == sample + 1,
{
    let w: int = if version == 1 { 64 } else { 0 };
    let x = w + traf * 16 + trun * 4 + sample;
    assert(0 <= x < 128);
    assert(tfra_layout(version, traf, trun, sample) == x);
    assert(x % 64 == traf * 16 + trun * 4 + sample);
    assert((x % 64) / 16 == traf);
    assert(x % 16 == trun * 4 + sample);
    assert((x % 16) / 4 == trun);
    assert(x % 4 == sample);
}

/// The number of bytes of an entry of a box of `version` with the given length fields,
/// each the width of its number less one.
pub open spec fn tfra_entry_size(version: u8, traf: u8, trun: u8, sample: u8) -> nat {
    ((if version == 1 { 16int } else { 8int }) + traf + 1 + trun + 1 + sample + 1) as nat
}

impl TrackFragmentRandomAccessBoxEntry {
    /// The size of the entry in `parent`.
    pub fn size(&self, parent: &TrackFragmentRandomAccessBox) -> (n: usize)
        ensures
            n == tfra_entry_size(
                parent.full_header.version,
                parent.length_size_of_traf_num,
                parent.length_size_of_trun_num,
                parent.length_size_of_sample_num,
            ),
    {
        let mut size: usize = 0;
        if parent.full_header.version == 1 {
            size = size + 8 + 8;
        } else {
            size = size + 4 + 4;
        }
        size = size + parent.length_size_of_traf_num as usize + 1;
        size = size + parent.length_size_of_trun_num as usize + 1;
        size = size + parent.length_size_of_sample_num as usize + 1;
        size
    }
}

/// The 32-bit word with the three length fields in its six low bits.
pub open spec fn tfra_lengths_word(traf: u8, trun: u8, sample: u8) -> u32 {
    (((traf & 3) as u32) << 4u32) | (((trun & 3) as u32) << 2u32) | ((sample & 3) as u32)
}

pub proof fn lemma_tfra_lengths_word(traf: u8, trun: u8, sample: u8)
    by (bit_vector)
    requires
        traf < 4,
        trun < 4,
        sample < 4,
    ensures
        ((tfra_lengths_word(traf, trun, sample) >> 4u32) & 3) as u8 == traf,
        ((tfra_lengths_word(traf, trun, sample) >> 2u32) & 3) as u8 == trun,
        (tfra_lengths_word(traf, trun, sample) & 3) as u8 == sample,
{
}

/// The sizes of `n` entries of a fixed width add up to `n` times that width.
pub proof fn lemma_tfra_entries_size(items: Seq<TrackFragmentRandomAccessBoxEntry>, layout: u8)
    ensures
        size_seq_v::<TrackFragmentRandomAccessBoxEntry>(items, layout) == items.len() * tfra_entry_len(layout),
    decreases items.len(),
{
    if items.len() > 0 {
        lemma_tfra_entries_size(items.drop_last(), layout);
        vstd::arithmetic::mul::lemma_mul_is_distributive_add_other_way(
            tfra_entry_len(layout) as int,
            items.len() - 1,
            1,
        );
    }
}

/// Track fragment random access box
///
/// ISO/IEC 14496-12 - 8.8.10
#[derive(Debug, PartialEq, Eq)]
pub struct TrackFragmentRandomAccessBox {
    /// The version and flags of the box; version 1 has 64-bit times and offsets.
    pub full_header: FullBoxHeader,
    /// The track that the entries are for.
    pub track_id: u32,
    /// The length in bytes of the fragment numbers, less one, in two bits.
    pub length_size_of_traf_num: u8,
    /// The length in bytes of the run numbers, less one, in two bits.
    pub length_size_of_trun_num: u8,
    /// The length in bytes of the sample numbers, less one, in two bits.
    pub length_size_of_sample_num: u8,
    /// The number of entries; zero means that every sample is a sync sample.
    pub number_of_entry: u32,
    /// The entries.
    pub entries: Vec<TrackFragmentRandomAccessBoxEntry>,
}

/// The model of a [`TrackFragmentRandomAccessBox`].
pub struct TrackFragmentRandomAccessBoxModel {
    pub full_header: FullBoxHeader,
    pub track_id: u32,
    pub length_size_of_traf_num: u8,
    pub length_size_of_trun_num: u8,
    pub length_size_of_sample_num: u8,
    pub number_of_entry: u32,
    pub entries: Seq<TrackFragmentRandomAccessBoxEntry>,
}

impl View for TrackFragmentRandomAccessBox {
    type V = TrackFragmentRandomAccessBoxModel;

    open spec fn view(&self) -> TrackFragmentRandomAccessBoxModel {
        TrackFragmentRandomAccessBoxModel {
            full_header: self.full_header,
            track_id: self.track_id,
            length_size_of_traf_num: self.length_size_of_traf_num,
            length_size_of_trun_num: self.length_size_of_trun_num,
            length_size_of_sample_num: self.length_size_of_sample_num,
            number_of_entry: self.number_of_entry,
            entries: views(self.entries@),
        }
    }
}

/// The layout of the entries of a box.
pub open spec fn tfra_box_layout(v: TrackFragmentRandomAccessBoxModel) -> u8 {
    tfra_layout(v.full_header.version, v.length_size_of_traf_num, v.length_size_of_trun_num, v.length_size_of_sample_num)
}

impl IsoSized for TrackFragmentRandomAccessBox {
    open spec fn spec_size(&self) -> nat {
        add_header_size(
            16 + self.entries@.len() * tfra_entry_size(
                self.full_header.version,
                self.length_size_of_traf_num,
                self.length_size_of_trun_num,
                self.length_size_of_sample_num,
            ),
        )
    }

    fn size(&self) -> (n: usize) {
        let w = if self.entries.len() > 0 { self.entries[0].size(self) } else { 0 };
        proof {
            if self.entries@.len() > 0 {
                vstd::arithmetic::mul::lemma_mul_inequality(1, self.entries@.len() as int, w as int);
            }
        }
        add_header_size_exec(16 + self.entries.len() * w)
    }
}

impl BoxBody for TrackFragmentRandomAccessBox {
    open spec fn spec_box_type() -> [u8; 4] {
        [0x74u8, 0x66u8, 0x72u8, 0x61u8]
    }

    fn box_type() -> (r: [u8; 4]) {
        [0x74u8, 0x66u8, 0x72u8, 0x61u8]
    }

    /// The full header, the track, the word with the lengths, the count, then that many
    /// entries in the layout that the version and the lengths give.
    open spec fn spec_parse_body(s: Seq<u8>) -> Result<TrackFragmentRandomAccessBoxModel, IsoError> {
        if s.len() < 16 {
            Err(IsoError::UnexpectedEof)
        } else {
            let bits = be_u32_at(s, 8);
            let l1 = ((bits >> 4u32) & 3) as u8;
            let l2 = ((bits >> 2u32) & 3) as u8;
            let l3 = (bits & 3) as u8;
            let count = be_u32_at(s, 12);
            match parse_count_v::<TrackFragmentRandomAccessBoxEntry>(
                s.skip(16),
                count as nat,
                tfra_layout(s[0], l1, l2, l3),
            ) {
                Ok((entries, _)) => Ok(
                    TrackFragmentRandomAccessBoxModel {
                        full_header: FullBoxHeader { version: s[0], flags: be_u24_at(s, 1) },
                        track_id: be_u32_at(s, 4),
                        length_size_of_traf_num: l1,
                        length_size_of_trun_num: l2,
                        length_size_of_sample_num: l3,
                        number_of_entry: count,
                        entries,
                    },
                ),
                Err(e) => Err(e),
            }
        }
    }

    /// The lengths fit their two bits.
    open spec fn spec_writable(v: TrackFragmentRandomAccessBoxModel) -> bool {
        v.length_size_of_traf_num < 4 && v.length_size_of_trun_num < 4 && v.length_size_of_sample_num < 4
    }

    open spec fn spec_serialize_body(v: TrackFragmentRandomAccessBoxModel) -> Seq<u8> {
        seq![v.full_header.version] + u24_bytes(v.full_header.flags) + u32_bytes(v.track_id) + u32_bytes(
            tfra_lengths_word(v.length_size_of_traf_num, v.length_size_of_trun_num, v.length_size_of_sample_num),
        ) + u32_bytes(v.number_of_entry) + ser_seq_v::<TrackFragmentRandomAccessBoxEntry>(
            v.entries,
            tfra_box_layout(v),
        )
    }

    /// The count is the number of entries, and every entry fits the layout.
    open spec fn spec_canonical(v: TrackFragmentRandomAccessBoxModel) -> bool {
        &&& v.full_header.flags < 0x100_0000
        &&& v.entries.len() == v.number_of_entry
        &&& canonical_seq_v::<TrackFragmentRandomAccessBoxEntry>(v.entries, tfra_box_layout(v))
    }

    proof fn lemma_box_type() {
        assert(Self::spec_box_type()[0] != spec_uuid_fourcc()[0]);
    }

    proof fn lemma_body_size(x: TrackFragmentRandomAccessBox) {
        let v = x@;
        let layout = tfra_box_layout(v);
        lemma_size_seq_v::<TrackFragmentRandomAccessBoxEntry>(v.entries, layout);
        lemma_tfra_entries_size(v.entries, layout);
        lemma_tfra_layout(x.full_header.version, x.length_size_of_traf_num, x.length_size_of_trun_num, x.length_size_of_sample_num);
        assert(tfra_entry_len(layout) == tfra_entry_size(
            x.full_header.version,
            x.length_size_of_traf_num,
            x.length_size_of_trun_num,
            x.length_size_of_sample_num,
        ));
    }

    proof fn lemma_body_roundtrip(v: TrackFragmentRandomAccessBoxModel) {
        let s = Self::spec_serialize_body(v);
        let w = tfra_lengths_word(v.length_size_of_traf_num, v.length_size_of_trun_num, v.length_size_of_sample_num);
        assert(s.subrange(1, 4) =~= u24_bytes(v.full_header.flags));
        lemma_u24_at(s, 1, v.full_header.flags);
        assert(s.subrange(4, 8) =~= u32_bytes(v.track_id));
        lemma_u32_at(s, 4, v.track_id);
        assert(s.subrange(8, 12) =~= u32_bytes(w));
        lemma_u32_at(s, 8, w);
        assert(s.subrange(12, 16) =~= u32_bytes(v.number_of_entry));
        lemma_u32_at(s, 12, v.number_of_entry);
        lemma_tfra_lengths_word(v.length_size_of_traf_num, v.length_size_of_trun_num, v.length_size_of_sample_num);
        let e = ser_seq_v::<TrackFragmentRandomAccessBoxEntry>(v.entries, tfra_box_layout(v));
        assert(s.skip(16) =~= e + Seq::<u8>::empty());
        lemma_count_roundtrip_v::<TrackFragmentRandomAccessBoxEntry>(v.entries, tfra_box_layout(v), Seq::<u8>::empty());
    }

    fn parse_body(d: &[u8]) -> (r: Result<TrackFragmentRandomAccessBox, IsoError>) {
        if d.len() < 16 {
            return Err(IsoError::UnexpectedEof);
        }
        let full_header = FullBoxHeader { version: d[0], flags: read_u24_at(d, 1) };
        let track_id = read_u32_at(d, 4);
        let bits = read_u32_at(d, 8);
        let l1 = ((bits >> 4u32) & 3) as u8;
        let l2 = ((bits >> 2u32) & 3) as u8;
        let l3 = (bits & 3) as u8;
        let number_of_entry = read_u32_at(d, 12);
        proof {
            assert(l1 < 4 && l2 < 4 && l3 < 4) by (bit_vector)
                requires
                    l1 == ((bits >> 4u32) & 3) as u8,
                    l2 == ((bits >> 2u32) & 3) as u8,
                    l3 == (bits & 3) as u8,
            ;
        }
        let layout: u8 = (if d[0] == 1 { 64u8 } else { 0u8 }) + l1 * 16 + l2 * 4 + l3;
        let (entries, _end) = parse_counted_v::<TrackFragmentRandomAccessBoxEntry>(
            d,
            16,
            number_of_entry as usize,
            layout,
        )?;
        Ok(TrackFragmentRandomAccessBox {
            full_header,
            track_id,
            length_size_of_traf_num: l1,
            length_size_of_trun_num: l2,
            length_size_of_sample_num: l3,
            number_of_entry,
            entries,
        })
    }

    fn serialize_body(&self, out: &mut Vec<u8>) -> (r: Result<(), IsoError>) {
        let l1 = self.length_size_of_traf_num;
        let l2 = self.length_size_of_trun_num;
        let l3 = self.length_size_of_sample_num;
        if l1 >= 4 || l2 >= 4 || l3 >= 4 {
            proof {
                assert(out@.subrange(0, out@.len() as int) =~= out@);
            }
            return Err(IsoError::InvalidData);
        }
        let ghost before = out@;
        write_u8(out, self.full_header.version);
        write_u24(out, self.full_header.flags);
        write_u32(out, self.track_id);
        write_u32(out, (((l1 & 3) as u32) << 4u32) | (((l2 & 3) as u32) << 2u32) | ((l3 & 3) as u32));
        write_u32(out, self.number_of_entry);
        let layout: u8 = (if self.full_header.version == 1 { 64u8 } else { 0u8 }) + l1 * 16 + l2 * 4 + l3;
        let _ = serialize_all_v(&self.entries, out, layout);
        proof {
            assert(out@ =~= before + Self::spec_serialize_body(self@));
            lemma_append_prefix(before, Self::spec_serialize_body(self@));
        }
        Ok(())
    }
}

/// Level assignment box
///
/// ISO/IEC 14496-12 - 8.8.13
#[derive(Debug, PartialEq, Eq)]
pub struct LevelAssignmentBox {
    /// The version and flags of the box.
    pub full_header: FullBoxHeader,
    /// The number of levels that each fraction is grouped into.
    pub level_count: u8,
    /// The levels, to the end of the box.
    pub levels: Vec<LevelAssignmentBoxLevel>,
}

/// The model of a [`LevelAssignmentBox`].
pub struct LevelAssignmentBoxModel {
    pub full_header: FullBoxHeader,
    pub level_count: u8,
    pub levels: Seq<<LevelAssignmentBoxLevel as View>::V>,
}

impl View for LevelAssignmentBox {
    type V = LevelAssignmentBoxModel;

    open spec fn view(&self) -> LevelAssignmentBoxModel {
        LevelAssignmentBoxModel {
            full_header: self.full_header,
            level_count: self.level_count,
            levels: views(self.levels@),
        }
    }
}

impl IsoSized for LevelAssignmentBox {
    open spec fn spec_size(&self) -> nat {
        add_header_size(5 + size_seq::<LevelAssignmentBoxLevel>(self.levels@))
    }

    fn size(&self) -> (n: usize) {
        proof {
            lemma_size_seq_mono::<LevelAssignmentBoxLevel>(self.levels@, 0);
        }
        add_header_size_exec(5 + size_all(&self.levels))
    }
}

impl BoxBody for LevelAssignmentBox {
    open spec fn spec_box_type() -> [u8; 4] {
        [0x6cu8, 0x65u8, 0x76u8, 0x61u8]
    }

    fn box_type() -> (r: [u8; 4]) {
        [0x6cu8, 0x65u8, 0x76u8, 0x61u8]
    }

    /// The fixed fields, then entries until the payload ends.
    open spec fn spec_parse_body(s: Seq<u8>) -> Result<LevelAssignmentBoxModel, IsoError> {
        if s.len() < 5 {
            Err(IsoError::UnexpectedEof)
        } else {
            match parse_rest::<LevelAssignmentBoxLevel>(s.skip(5)) {
                Ok((items, _)) => Ok(
                    LevelAssignmentBoxModel {
                        full_header: FullBoxHeader { version: s[0], flags: be_u24_at(s, 1) },
                        level_count: s[4],
                        levels: items,
                    },
                ),
                Err(e) => Err(e),
            }
        }
    }

    open spec fn spec_writable(v: LevelAssignmentBoxModel) -> bool {
        writable_seq::<LevelAssignmentBoxLevel>(v.levels)
    }

    open spec fn spec_serialize_body(v: LevelAssignmentBoxModel) -> Seq<u8> {
        seq![v.full_header.version] + u24_bytes(v.full_header.flags) + seq![v.level_count] + ser_seq::<LevelAssignmentBoxLevel>(v.levels)
    }

    open spec fn spec_canonical(v: LevelAssignmentBoxModel) -> bool {
        v.full_header.flags < 0x100_0000 && canonical_seq::<LevelAssignmentBoxLevel>(v.levels)
    }

    proof fn lemma_box_type() {
        assert(Self::spec_box_type()[0] != spec_uuid_fourcc()[0]);
    }

    proof fn lemma_body_size(x: LevelAssignmentBox) {
        lemma_size_seq::<LevelAssignmentBoxLevel>(x.levels@);
    }

    proof fn lemma_body_roundtrip(v: LevelAssignmentBoxModel) {
        let s = Self::spec_serialize_body(v);
        assert(s[0] == v.full_header.version);
        assert(s.subrange(1, 4) =~= u24_bytes(v.full_header.flags));
        lemma_u24_at(s, 1, v.full_header.flags);
        assert(s[4] == v.level_count);
        assert(s.skip(5) =~= ser_seq::<LevelAssignmentBoxLevel>(v.levels));
        lemma_rest_roundtrip::<LevelAssignmentBoxLevel>(v.levels);
    }

    fn parse_body(d: &[u8]) -> (r: Result<LevelAssignmentBox, IsoError>) {
        if d.len() < 5 {
            return Err(IsoError::UnexpectedEof);
        }
        let full_header = FullBoxHeader { version: d[0], flags: read_u24_at(d, 1) };
        let level_count = d[4];
        let (levels, _end) = parse_remaining::<LevelAssignmentBoxLevel>(d, 5)?;
        Ok(LevelAssignmentBox { full_header, level_count, levels })
    }

    fn serialize_body(&self, out: &mut Vec<u8>) -> (r: Result<(), IsoError>) {
        let ghost before = out@;
        write_u8(out, self.full_header.version);
        write_u24(out, self.full_header.flags);
        write_u8(out, self.level_count);
        let ghost mid = out@;
        proof {
            assert(mid =~= before + (seq![self.full_header.version] + u24_bytes(self.full_header.flags) + seq![self.level_count]));
            lemma_append_prefix(before, seq![self.full_header.version] + u24_bytes(self.full_header.flags) + seq![self.level_count]);
        }
        let r = serialize_all(&self.levels, out);
        if r.is_err() {
            proof {
                lemma_prefix_trans(before, mid, out@);
            }
            return Err(IsoError::InvalidData);
        }
        proof {
            assert(out@ =~= before + Self::spec_serialize_body(self@));
            lemma_append_prefix(before, Self::spec_serialize_body(self@));
        }
        Ok(())
    }
}

/// An entry of an alternative startup sequence properties box of version 1.
#[derive(Debug, Clone, Copy, PartialEq, Eq, Structural)]
pub struct AlternativeStartupSequencePropertiesBoxVersion1Entry {
    /// The alternative sample grouping that the entry applies to.
    pub grouping_type_parameter: u32,
    /// No sample offset of the groups of that grouping is smaller than this.
    pub min_initial_alt_startup_offset: i32,
}

impl View for AlternativeStartupSequencePropertiesBoxVersion1Entry {
    type V = AlternativeStartupSequencePropertiesBoxVersion1Entry;

    open spec fn view(&self) -> AlternativeStartupSequencePropertiesBoxVersion1Entry {
        *self
    }
}

impl IsoSized for AlternativeStartupSequencePropertiesBoxVersion1Entry {
    open spec fn spec_size(&self) -> nat {
        8
    }

    fn size(&self) -> (n: usize) {
        8
    }
}

impl Wire for AlternativeStartupSequencePropertiesBoxVersion1Entry {
    open spec fn spec_parse(s: Seq<u8>) -> SpecParse<AlternativeStartupSequencePropertiesBoxVersion1Entry> {
        if s.len() < 8 {
            Err(IsoError::UnexpectedEof)
        } else {
            Ok((AlternativeStartupSequencePropertiesBoxVersion1Entry {
                grouping_type_parameter: be_u32_at(s, 0),
                min_initial_alt_startup_offset: i32_of(be_u32_at(s, 4)),
            }, 8))
        }
    }

    open spec fn spec_writable(v: AlternativeStartupSequencePropertiesBoxVersion1Entry) -> bool {
        true
    }

    open spec fn spec_serialize(v: AlternativeStartupSequencePropertiesBoxVersion1Entry) -> Seq<u8> {
        u32_bytes(v.grouping_type_parameter) + u32_bytes(u32_of(v.min_initial_alt_startup_offset))
    }

    open spec fn spec_canonical(v: AlternativeStartupSequencePropertiesBoxVersion1Entry) -> bool {
        true
    }

    proof fn lemma_parse_len(s: Seq<u8>) {
    }

    proof fn lemma_size(x: AlternativeStartupSequencePropertiesBoxVersion1Entry) {
    }

    proof fn lemma_roundtrip(v: AlternativeStartupSequencePropertiesBoxVersion1Entry, rest: Seq<u8>) {
        let s = Self::spec_serialize(v) + rest;
        assert(s.subrange(0, 4) =~= u32_bytes(v.grouping_type_parameter));
        lemma_u32_at(s, 0, v.grouping_type_parameter);
        assert(s.subrange(4, 8) =~= u32_bytes(u32_of(v.min_initial_alt_startup_offset)));
        lemma_u32_at(s, 4, u32_of(v.min_initial_alt_startup_offset));
        lemma_i32_roundtrip(v.min_initial_alt_startup_offset);
    }

    fn parse(data: &[u8], pos: usize) -> (r: Result<(AlternativeStartupSequencePropertiesBoxVersion1Entry, usize), IsoError>) {
        if data.len() - pos < 8 {
            return Err(IsoError::UnexpectedEof);
        }
        let d = &data[pos..data.len()];
        proof {
            assert(d@ =~= data@.skip(pos as int));
        }
        let grouping_type_parameter = read_u32_at(d, 0);
        let min_initial_alt_startup_offset = to_i32(read_u32_at(d, 4));
        Ok((AlternativeStartupSequencePropertiesBoxVersion1Entry { grouping_type_parameter, min_initial_alt_startup_offset }, pos + 8))
    }

    fn serialize(&self, out: &mut Vec<u8>) -> (r: Result<(), IsoError>) {
        let ghost before = out@;
        write_u32(out, self.grouping_type_parameter);
        write_u32(out, from_i32(self.min_initial_alt_startup_offset));
        proof {
            assert(out@ =~= before + Self::spec_serialize(self@));
            lemma_append_prefix(before, Self::spec_serialize(self@));
        }
        Ok(())
    }
}


/// The track extends box body (ISO/IEC 14496-12 - 8.8.3): the version byte, three flag bytes, then the track id spelled by bytes 4..8, the default sample description index by 8..12, the default sample duration by 12..16, the default sample size by 16..20 and the word of the default sample flags by 20..24.
pub proof fn lemma_track_extends_layout(s: Seq<u8>)
    ensures
        s.len() < 24 ==> TrackExtendsBox::spec_parse_body(s) == Err::<TrackExtendsBox, IsoError>(IsoError::UnexpectedEof),
        s.len() >= 24 ==> (TrackExtendsBox::spec_parse_body(s) matches Ok(h) && h.track_id == crate::codec::be_int(s, 4, 4) && h.default_sample_description_index == crate::codec::be_int(s, 8, 4) && h.default_sample_duration == crate::codec::be_int(s, 12, 4) && h.default_sample_size == crate::codec::be_int(s, 16, 4) && h.full_header.version == s[0] && h.full_header.flags == crate::codec::be_int(s, 1, 3) && h.default_sample_flags == sample_flags_from_bits(crate::codec::be_int(s, 20, 4) as u32)),
{
    if s.len() >= 24 {
        crate::codec::lemma_be_int_u32(s, 4);
        crate::codec::lemma_be_int_u32(s, 8);
        crate::codec::lemma_be_int_u32(s, 12);
        crate::codec::lemma_be_int_u32(s, 16);
        crate::codec::lemma_be_int_u24(s, 1);
        crate::codec::lemma_be_int_u32(s, 20);
    }
}

/// The movie fragment header body (ISO/IEC 14496-12 - 8.8.5): the version byte, three flag bytes, then the sequence number spelled by bytes 4..8.
pub proof fn lemma_movie_fragment_header_layout(s: Seq<u8>)
    ensures
        s.len() < 8 ==> MovieFragmentHeaderBox::spec_parse_body(s) == Err::<MovieFragmentHeaderBox, IsoError>(IsoError::UnexpectedEof),
        s.len() >= 8 ==> (MovieFragmentHeaderBox::spec_parse_body(s) matches Ok(h) && h.sequence_number == crate::codec::be_int(s, 4, 4) && h.full_header.version == s[0] && h.full_header.flags == crate::codec::be_int(s, 1, 3)),
{
    if s.len() >= 8 {
        crate::codec::lemma_be_int_u32(s, 4);
        crate::codec::lemma_be_int_u24(s, 1);
    }
}


/// The track fragment header body (ISO/IEC 14496-12 - 8.8.7): the version byte, three
/// flag bytes, the track id spelled by bytes 4..8, then the optional fields in this
/// order, each present when its flag bit is set: the base data offset (bit 0x1, eight
/// bytes), the sample description index (0x2), the default sample duration (0x8),
/// the default sample size (0x10) and the word of the default sample flags (0x20),
/// four bytes each. Too few bytes for what the flags announce are an unexpected end.
pub proof fn lemma_track_fragment_header_layout(s: Seq<u8>)
    ensures
        s.len() < 8 ==> TrackFragmentHeaderBox::spec_parse_body(s) == Err::<TrackFragmentHeaderBox, IsoError>(
            IsoError::UnexpectedEof,
        ),
        s.len() >= 8 ==> ({
            let f = crate::codec::be_int(s, 1, 3);
            let b = f % 2 == 1;
            let i = f / 2 % 2 == 1;
            let d = f / 8 % 2 == 1;
            let z = f / 16 % 2 == 1;
            let g = f / 32 % 2 == 1;
            let o2 = 8 + if b { 8int } else { 0int };
            let o3 = o2 + if i { 4int } else { 0int };
            let o4 = o3 + if d { 4int } else { 0int };
            let o5 = o4 + if z { 4int } else { 0int };
            let end = o5 + if g { 4int } else { 0int };
            &&& s.len() < end ==> TrackFragmentHeaderBox::spec_parse_body(s) == Err::<TrackFragmentHeaderBox, IsoError>(
                IsoError::UnexpectedEof,
            )
            &&& s.len() >= end ==> (TrackFragmentHeaderBox::spec_parse_body(s) matches Ok(h) && h.version == s[0]
                && h.track_id == crate::codec::be_int(s, 4, 4) && (h.base_data_offset is Some) == b && (b
                ==> h.base_data_offset.unwrap() == crate::codec::be_int(s, 8, 8)) && (h.sample_description_index is Some)
                == i && (i ==> h.sample_description_index.unwrap() == crate::codec::be_int(s, o2, 4)) && (
                h.default_sample_duration is Some) == d && (d ==> h.default_sample_duration.unwrap()
                == crate::codec::be_int(s, o3, 4)) && (h.default_sample_size is Some) == z && (z
                ==> h.default_sample_size.unwrap() == crate::codec::be_int(s, o4, 4)) && (h.default_sample_flags is Some)
                == g && (g ==> h.default_sample_flags.unwrap() == sample_flags_from_bits(
                crate::codec::be_int(s, o5, 4) as u32)))
        }),
{
    if s.len() >= 8 {
        let x = be_u24_at(s, 1);
        crate::codec::lemma_be_int_u24(s, 1);
        crate::codec::lemma_be_int_u32(s, 4);
        assert(((x & 0x03003B) & 1 != 0) == (x % 2 == 1) && ((x & 0x03003B) & 2 != 0) == (x / 2 % 2 == 1) && ((x
            & 0x03003B) & 8 != 0) == (x / 8 % 2 == 1) && ((x & 0x03003B) & 0x10 != 0) == (x / 16 % 2 == 1) && ((x
            & 0x03003B) & 0x20 != 0) == (x / 32 % 2 == 1)) by (bit_vector);
        let flags = x & TF_KNOWN_FLAGS;
        let (o2, o3, o4, o5, end) = tfhd_offsets(flags);
        if s.len() >= end {
            if has_flag(flags, TF_BASE_DATA_OFFSET_PRESENT) {
                crate::codec::lemma_be_int_u64(s, 8);
            }
            if has_flag(flags, TF_SAMPLE_DESCRIPTION_INDEX_PRESENT) {
                crate::codec::lemma_be_int_u32(s, o2);
            }
            if has_flag(flags, TF_DEFAULT_SAMPLE_DURATION_PRESENT) {
                crate::codec::lemma_be_int_u32(s, o3);
            }
            if has_flag(flags, TF_DEFAULT_SAMPLE_SIZE_PRESENT) {
                crate::codec::lemma_be_int_u32(s, o4);
            }
            if has_flag(flags, TF_DEFAULT_SAMPLE_FLAGS_PRESENT) {
                crate::codec::lemma_be_int_u32(s, o5);
            }
        }
    }
}


/// The sample at byte `q` of a run: the fields that the flags announce, four bytes
/// each, in the order duration, size, flags word, composition time offset (unsigned
/// in version 0, two's complement otherwise).
pub open spec fn trun_sample_laid_out(
    x: TrackRunBoxSample,
    s: Seq<u8>,
    q: int,
    version: u8,
    dur: bool,
    sz: bool,
    sf: bool,
    ct: bool,
) -> bool {
    let q2 = q + if dur { 4int } else { 0int };
    let q3 = q2 + if sz { 4int } else { 0int };
    let q4 = q3 + if sf { 4int } else { 0int };
    &&& (x.sample_duration is Some) == dur
    &&& dur ==> x.sample_duration.unwrap() == crate::codec::be_int(s, q, 4)
    &&& (x.sample_size is Some) == sz
    &&& sz ==> x.sample_size.unwrap() == crate::codec::be_int(s, q2, 4)
    &&& (x.sample_flags is Some) == sf
    &&& sf ==> x.sample_flags.unwrap() == sample_flags_from_bits(crate::codec::be_int(s, q3, 4) as u32)
    &&& (x.sample_composition_time_offset is Some) == ct
    &&& ct ==> x.sample_composition_time_offset.unwrap() == (if version == 0 {
        crate::codec::be_int(s, q4, 4)
    } else {
        crate::codec::be_signed32(s, q4)
    })
}

/// The track run body (ISO/IEC 14496-12 - 8.8.8): the version byte, three flag bytes,
/// the sample count spelled by bytes 4..8; then the data offset (flag bit 0x1, a
/// two's complement word) and the word of the first sample's flags (0x4); then the
/// samples one after the other, each holding the duration (0x100), size (0x200),
/// flags word (0x400) and composition time offset (0x800) that the flags announce,
/// four bytes each. Too few bytes for the announced samples are an unexpected end.
pub proof fn lemma_track_run_layout(s: Seq<u8>)
    ensures
        s.len() < 8 ==> TrackRunBox::spec_parse_body(s) == Err::<TrackRunBoxModel, IsoError>(
            IsoError::UnexpectedEof,
        ),
        s.len() >= 8 ==> ({
            let f = crate::codec::be_int(s, 1, 3);
            let n = crate::codec::be_int(s, 4, 4);
            let o = f % 2 == 1;
            let fs = f / 4 % 2 == 1;
            let dur = f / 0x100 % 2 == 1;
            let sz = f / 0x200 % 2 == 1;
            let sf = f / 0x400 % 2 == 1;
            let ct = f / 0x800 % 2 == 1;
            let p1 = 8 + if o { 4int } else { 0int };
            let p2 = p1 + if fs { 4int } else { 0int };
            let w = (if dur { 4int } else { 0int }) + (if sz { 4int } else { 0int }) + (if sf { 4int } else { 0int })
                + (if ct { 4int } else { 0int });
            &&& s.len() < p2 + n * w ==> TrackRunBox::spec_parse_body(s) == Err::<TrackRunBoxModel, IsoError>(
                IsoError::UnexpectedEof,
            )
            &&& s.len() >= p2 + n * w ==> (TrackRunBox::spec_parse_body(s) matches Ok(h) && h.version == s[0]
                && h.sample_count == n && h.samples.len() == n && (h.data_offset is Some) == o && (o
                ==> h.data_offset.unwrap() == crate::codec::be_signed32(s, 8)) && (h.first_sample_flags is Some) == fs && (fs
                ==> h.first_sample_flags.unwrap() == sample_flags_from_bits(crate::codec::be_int(s, p1, 4) as u32))
                && forall|k: int|
                0 <= k < n ==> trun_sample_laid_out(#[trigger] h.samples[k], s, p2 + k * w, s[0], dur, sz, sf, ct))
        }),
{
    if s.len() >= 8 {
        let x = be_u24_at(s, 1);
        crate::codec::lemma_be_int_u24(s, 1);
        crate::codec::lemma_be_int_u32(s, 4);
        assert(((x & 0xF05) & 1 != 0) == (x % 2 == 1) && ((x & 0xF05) & 4 != 0) == (x / 4 % 2 == 1) && ((x
            & 0xF05) & 0x100 != 0) == (x / 0x100 % 2 == 1) && ((x & 0xF05) & 0x200 != 0) == (x / 0x200 % 2 == 1)
            && ((x & 0xF05) & 0x400 != 0) == (x / 0x400 % 2 == 1) && ((x & 0xF05) & 0x800 != 0) == (x / 0x800 % 2
            == 1)) by (bit_vector);
        let flags = x & TR_KNOWN_FLAGS;
        let version = s[0];
        let count = be_u32_at(s, 4);
        let p1 = trun_p1(flags);
        let p2 = trun_p2(flags);
        let w = trun_sample_width(flags) as int;
        if s.len() >= p2 + count * w {
            if has_flag(flags, TR_DATA_OFFSET_PRESENT) {
                crate::codec::lemma_be_int_u32(s, 8);
            }
            if has_flag(flags, TR_FIRST_SAMPLE_FLAGS_PRESENT) {
                crate::codec::lemma_be_int_u32(s, p1);
            }
            let samples = trun_samples_at(s, p2, version, flags, count as nat);
            assert forall|k: int| 0 <= k < count implies trun_sample_laid_out(
                #[trigger] samples[k],
                s,
                p2 + k * w,
                version,
                has_flag(flags, TR_SAMPLE_DURATION_PRESENT),
                has_flag(flags, TR_SAMPLE_SIZE_PRESENT),
                has_flag(flags, TR_SAMPLE_FLAGS_PRESENT),
                has_flag(flags, TR_SAMPLE_COMPOSITION_TIME_OFFSETS_PRESENT),
            ) by {
                vstd::arithmetic::mul::lemma_mul_inequality(k + 1, count as int, w);
                vstd::arithmetic::mul::lemma_mul_is_distributive_add_other_way(w, k, 1);
                vstd::arithmetic::mul::lemma_mul_nonnegative(k, w);
                let q = p2 + k * w;
                let q2 = q + if has_flag(flags, TR_SAMPLE_DURATION_PRESENT) { 4int } else { 0int };
                let q3 = q2 + if has_flag(flags, TR_SAMPLE_SIZE_PRESENT) { 4int } else { 0int };
                let q4 = q3 + if has_flag(flags, TR_SAMPLE_FLAGS_PRESENT) { 4int } else { 0int };
                if has_flag(flags, TR_SAMPLE_DURATION_PRESENT) {
                    crate::codec::lemma_be_int_u32(s, q);
                }
                if has_flag(flags, TR_SAMPLE_SIZE_PRESENT) {
                    crate::codec::lemma_be_int_u32(s, q2);
                }
                if has_flag(flags, TR_SAMPLE_FLAGS_PRESENT) {
                    crate::codec::lemma_be_int_u32(s, q3);
                }
                if has_flag(flags, TR_SAMPLE_COMPOSITION_TIME_OFFSETS_PRESENT) {
                    crate::codec::lemma_be_int_u32(s, q4);
                }
            }
        }
    }
}


/// The movie fragment random access offset body (ISO/IEC 14496-12 - 8.8.11): after the version byte and three flag bytes, the size of the enclosing box spelled by bytes 4..8.
pub proof fn lemma_movie_fragment_random_access_offset_layout(s: Seq<u8>)
    ensures
        s.len() < 8 ==> MovieFragmentRandomAccessOffsetBox::spec_parse_body(s) == Err::<MovieFragmentRandomAccessOffsetBox, IsoError>(IsoError::UnexpectedEof),
        s.len() >= 8 ==> (MovieFragmentRandomAccessOffsetBox::spec_parse_body(s) matches Ok(h) && h.full_header.version == s[0] && h.full_header.flags == crate::codec::be_int(s, 1, 3) && h.parent_size == crate::codec::be_int(s, 4, 4)),
{
    if s.len() >= 8 {
        crate::codec::lemma_be_int_u24(s, 1);
        crate::codec::lemma_be_int_u32(s, 4);
    }
}


/// The track fragment random access body (ISO/IEC 14496-12 - 8.8.10): after the
/// version byte and three flag bytes, the track id spelled by bytes 4..8 and the
/// number of entries by bytes 12..16.
pub proof fn lemma_track_fragment_random_access_layout(s: Seq<u8>)
    ensures
        s.len() < 16 ==> TrackFragmentRandomAccessBox::spec_parse_body(s) is Err,
        s.len() >= 16 ==> (TrackFragmentRandomAccessBox::spec_parse_body(s) matches Ok(h) ==> (h.track_id
            == crate::codec::be_int(s, 4, 4) && h.number_of_entry == crate::codec::be_int(s, 12, 4))),
{
    if s.len() >= 16 {
        crate::codec::lemma_be_int_u32(s, 4);
        crate::codec::lemma_be_int_u32(s, 12);
    }
}

} // verus!
