//! Segment structures (ISO/IEC 14496-12 - 8.16).

use vstd::prelude::*;

use crate::codec::{
    be_u16_at, be_u24_at, be_u32_at, be_u64_at, lemma_append_prefix, lemma_prefix_trans, lemma_u16_at, lemma_u24_at, lemma_u32_at,
    lemma_u64_at, lemma_wide_bytes_len, read_u16_at, read_u24_at, read_u32_at, read_u64_at, u16_bytes,
    u24_bytes, u32_bytes, u64_bytes, write_u16, write_u24, write_u32, write_u64, write_u8, IsoError, SpecParse,
};
use crate::frame::{add_header_size, add_header_size_exec, BoxBody};
use crate::header::{spec_uuid_fourcc, FullBoxHeader};
use crate::wire::{
    canonical_seq, lemma_count_roundtrip, lemma_parse_count_len, lemma_rest_roundtrip, lemma_ser_seq_fixed,
    lemma_size_seq, lemma_size_seq_mono, parse_count, parse_counted, parse_remaining, parse_rest, ser_seq,
    serialize_all, size_all, size_seq, views, writable_seq, IsoSized, Wire,
};

verus! {


/// A reference of the segment index box: a subsegment, or another index.
#[derive(Debug, Clone, Copy, PartialEq, Eq, Structural)]
pub struct SegmentIndexBoxReference {
    /// Whether the reference is to another segment index box rather than to media.
    pub reference_type: bool,
    /// The size of the referenced material, in 31 bits.
    pub referenced_size: u32,
    /// The duration of the referenced subsegment.
    pub subsegment_duration: u32,
    /// Whether the subsegment starts with a stream access point.
    pub starts_with_sap: bool,
    /// The type of that access point, in three bits.
    pub sap_type: u8,
    /// The time of that access point from the start of the subsegment, in 28 bits.
    pub sap_delta_time: u32,
}

impl View for SegmentIndexBoxReference {
    type V = SegmentIndexBoxReference;

    open spec fn view(&self) -> SegmentIndexBoxReference {
        *self
    }
}

/// The word with a flag in its high bit and a 31-bit size below it.
pub open spec fn reference_word(flag: u32, size: u32) -> u32 {
    (flag << 31u32) | (size & 0x7fff_ffff)
}

/// The word with a flag in its high bit, a 3-bit type and a 28-bit time below it.
pub open spec fn sap_word(flag: u32, sap_type: u8, delta: u32) -> u32 {
    (flag << 31u32) | (((sap_type & 7) as u32) << 28u32) | (delta & 0x0fff_ffff)
}

/// The value of a flag bit.
pub open spec fn flag_bit(b: bool) -> u32 {
    if b { 1 } else { 0 }
}

pub proof fn lemma_reference_words(f1: u32, size: u32, f2: u32, sap_type: u8, delta: u32)
    by (bit_vector)
    requires
        f1 < 2,
        size < 0x8000_0000,
        f2 < 2,
        sap_type < 8,
        delta < 0x1000_0000,
    ensures
        reference_word(f1, size) >> 31u32 == f1,
        reference_word(f1, size) & 0x7fff_ffff == size,
        sap_word(f2, sap_type, delta) >> 31u32 == f2,
        ((sap_word(f2, sap_type, delta) >> 28u32) & 7) as u8 == sap_type,
        sap_word(f2, sap_type, delta) & 0x0fff_ffff == delta,
{
}

impl IsoSized for SegmentIndexBoxReference {
    open spec fn spec_size(&self) -> nat {
        12
    }

    fn size(&self) -> (n: usize) {
        12
    }
}

impl Wire for SegmentIndexBoxReference {
    open spec fn spec_parse(s: Seq<u8>) -> SpecParse<SegmentIndexBoxReference> {
        if s.len() < 12 {
            Err(IsoError::UnexpectedEof)
        } else {
            let w1 = be_u32_at(s, 0);
            let w3 = be_u32_at(s, 8);
            Ok(
                (
                    SegmentIndexBoxReference {
                        reference_type: (w1 >> 31u32) != 0,
                        referenced_size: w1 & 0x7fff_ffff,
                        subsegment_duration: be_u32_at(s, 4),
                        starts_with_sap: (w3 >> 31u32) != 0,
                        sap_type: ((w3 >> 28u32) & 7) as u8,
                        sap_delta_time: w3 & 0x0fff_ffff,
                    },
                    12,
                ),
            )
        }
    }

    open spec fn spec_writable(v: SegmentIndexBoxReference) -> bool {
        true
    }

    open spec fn spec_serialize(v: SegmentIndexBoxReference) -> Seq<u8> {
        u32_bytes(reference_word(flag_bit(v.reference_type), v.referenced_size)) + u32_bytes(v.subsegment_duration)
            + u32_bytes(sap_word(flag_bit(v.starts_with_sap), v.sap_type, v.sap_delta_time))
    }

    /// The size, the type and the time fit their bits.
    open spec fn spec_canonical(v: SegmentIndexBoxReference) -> bool {
        v.referenced_size < 0x8000_0000 && v.sap_type < 8 && v.sap_delta_time < 0x1000_0000
    }

    proof fn lemma_parse_len(s: Seq<u8>) {
    }

    proof fn lemma_size(x: SegmentIndexBoxReference) {
    }

    proof fn lemma_roundtrip(v: SegmentIndexBoxReference, rest: Seq<u8>) {
        let w1 = reference_word(flag_bit(v.reference_type), v.referenced_size);
        let w3 = sap_word(flag_bit(v.starts_with_sap), v.sap_type, v.sap_delta_time);
        let s = Self::spec_serialize(v) + rest;
        assert(s.subrange(0, 4) =~= u32_bytes(w1));
        lemma_u32_at(s, 0, w1);
        assert(s.subrange(4, 8) =~= u32_bytes(v.subsegment_duration));
        lemma_u32_at(s, 4, v.subsegment_duration);
        assert(s.subrange(8, 12) =~= u32_bytes(w3));
        lemma_u32_at(s, 8, w3);
        lemma_reference_words(
            flag_bit(v.reference_type),
            v.referenced_size,
            flag_bit(v.starts_with_sap),
            v.sap_type,
            v.sap_delta_time,
        );
    }

    fn parse(data: &[u8], pos: usize) -> (r: Result<(SegmentIndexBoxReference, usize), IsoError>) {
        if data.len() - pos < 12 {
            return Err(IsoError::UnexpectedEof);
        }
        let d = vstd::slice::slice_subrange(data, pos, data.len());
        proof {
            assert(d@ =~= data@.skip(pos as int));
        }
        let w1 = read_u32_at(d, 0);
        let subsegment_duration = read_u32_at(d, 4);
        let w3 = read_u32_at(d, 8);
        Ok((
            SegmentIndexBoxReference {
                reference_type: (w1 >> 31u32) != 0,
                referenced_size: w1 & 0x7fff_ffff,
                subsegment_duration,
                starts_with_sap: (w3 >> 31u32) != 0,
                sap_type: ((w3 >> 28u32) & 7) as u8,
                sap_delta_time: w3 & 0x0fff_ffff,
            },
            pos + 12,
        ))
    }

    fn serialize(&self, out: &mut Vec<u8>) -> (r: Result<(), IsoError>) {
        let ghost before = out@;
        let f1: u32 = if self.reference_type { 1 } else { 0 };
        let f2: u32 = if self.starts_with_sap { 1 } else { 0 };
        write_u32(out, (f1 << 31u32) | (self.referenced_size & 0x7fff_ffff));
        write_u32(out, self.subsegment_duration);
        write_u32(out, (f2 << 31u32) | (((self.sap_type & 7) as u32) << 28u32) | (self.sap_delta_time & 0x0fff_ffff));
        proof {
            assert(out@ =~= before + Self::spec_serialize(self@));
            lemma_append_prefix(before, Self::spec_serialize(self@));
        }
        Ok(())
    }
}

/// A range of a subsegment: its level and its size.
#[derive(Debug, Clone, Copy, PartialEq, Eq, Structural)]
pub struct SubsegmentIndexBoxSubsegmentRange {
    /// The level that the range belongs to.
    pub level: u8,
    /// The size of the range, in 24 bits.
    pub range_size: u32,
}

impl View for SubsegmentIndexBoxSubsegmentRange {
    type V = SubsegmentIndexBoxSubsegmentRange;

    open spec fn view(&self) -> SubsegmentIndexBoxSubsegmentRange {
        *self
    }
}

impl IsoSized for SubsegmentIndexBoxSubsegmentRange {
    open spec fn spec_size(&self) -> nat {
        4
    }

    fn size(&self) -> (n: usize) {
        4
    }
}

impl Wire for SubsegmentIndexBoxSubsegmentRange {
    open spec fn spec_parse(s: Seq<u8>) -> SpecParse<SubsegmentIndexBoxSubsegmentRange> {
        if s.len() < 4 {
            Err(IsoError::UnexpectedEof)
        } else {
            Ok((SubsegmentIndexBoxSubsegmentRange {
                level: s[0],
                range_size: be_u24_at(s, 1),
            }, 4))
        }
    }

    open spec fn spec_writable(v: SubsegmentIndexBoxSubsegmentRange) -> bool {
        true
    }

    open spec fn spec_serialize(v: SubsegmentIndexBoxSubsegmentRange) -> Seq<u8> {
        seq![v.level] + u24_bytes(v.range_size)
    }

    open spec fn spec_canonical(v: SubsegmentIndexBoxSubsegmentRange) -> bool {
        v.range_size < 0x100_0000
    }

    proof fn lemma_parse_len(s: Seq<u8>) {
    }

    proof fn lemma_size(x: SubsegmentIndexBoxSubsegmentRange) {
    }

    proof fn lemma_roundtrip(v: SubsegmentIndexBoxSubsegmentRange, rest: Seq<u8>) {
        let s = Self::spec_serialize(v) + rest;
        assert(s[0] == v.level);
        assert(s.subrange(1, 4) =~= u24_bytes(v.range_size));
        lemma_u24_at(s, 1, v.range_size);
    }

    fn parse(data: &[u8], pos: usize) -> (r: Result<(SubsegmentIndexBoxSubsegmentRange, usize), IsoError>) {
        if data.len() - pos < 4 {
            return Err(IsoError::UnexpectedEof);
        }
        let d = &data[pos..data.len()];
        proof {
            assert(d@ =~= data@.skip(pos as int));
        }
        let level = d[0];
        let range_size = read_u24_at(d, 1);
        Ok((SubsegmentIndexBoxSubsegmentRange { level, range_size }, pos + 4))
    }

    fn serialize(&self, out: &mut Vec<u8>) -> (r: Result<(), IsoError>) {
        let ghost before = out@;
        write_u8(out, self.level);
        write_u24(out, self.range_size);
        proof {
            assert(out@ =~= before + Self::spec_serialize(self@));
            lemma_append_prefix(before, Self::spec_serialize(self@));
        }
        Ok(())
    }
}

/// A subsegment of the subsegment index box: its count and its ranges.
#[derive(Debug)]
pub struct SubsegmentIndexBoxSubsegment {
    /// The number of ranges.
    pub range_count: u32,
    /// The levels and sizes of the ranges of the subsegment.
    pub ranges: Vec<SubsegmentIndexBoxSubsegmentRange>,
}

/// The model of a [`SubsegmentIndexBoxSubsegment`].
pub struct SubsegmentIndexBoxSubsegmentModel {
    pub range_count: u32,
    pub ranges: Seq<SubsegmentIndexBoxSubsegmentRange>,
}

impl View for SubsegmentIndexBoxSubsegment {
    type V = SubsegmentIndexBoxSubsegmentModel;

    open spec fn view(&self) -> SubsegmentIndexBoxSubsegmentModel {
        SubsegmentIndexBoxSubsegmentModel { range_count: self.range_count, ranges: views(self.ranges@) }
    }
}

impl IsoSized for SubsegmentIndexBoxSubsegment {
    open spec fn spec_size(&self) -> nat {
        4 + 4 * self.ranges@.len()
    }

    fn size(&self) -> (n: usize) {
        4 + 4 * self.ranges.len()
    }
}

impl Wire for SubsegmentIndexBoxSubsegment {
    /// The count, then that many ranges.
    open spec fn spec_parse(s: Seq<u8>) -> SpecParse<SubsegmentIndexBoxSubsegmentModel> {
        if s.len() < 4 {
            Err(IsoError::UnexpectedEof)
        } else {
            match parse_count::<SubsegmentIndexBoxSubsegmentRange>(s.skip(4), be_u32_at(s, 0) as nat) {
                Ok((r, k)) => Ok((SubsegmentIndexBoxSubsegmentModel { range_count: be_u32_at(s, 0), ranges: r }, 4 + k)),
                Err(e) => Err(e),
            }
        }
    }

    open spec fn spec_writable(v: SubsegmentIndexBoxSubsegmentModel) -> bool {
        true
    }

    open spec fn spec_serialize(v: SubsegmentIndexBoxSubsegmentModel) -> Seq<u8> {
        u32_bytes(v.range_count) + ser_seq::<SubsegmentIndexBoxSubsegmentRange>(v.ranges)
    }

    /// The count is the number of ranges, whose sizes fit 24 bits.
    open spec fn spec_canonical(v: SubsegmentIndexBoxSubsegmentModel) -> bool {
        v.ranges.len() == v.range_count && canonical_seq::<SubsegmentIndexBoxSubsegmentRange>(v.ranges)
    }

    proof fn lemma_parse_len(s: Seq<u8>) {
        if s.len() >= 4 {
            lemma_parse_count_len::<SubsegmentIndexBoxSubsegmentRange>(s.skip(4), be_u32_at(s, 0) as nat);
        }
    }

    proof fn lemma_size(x: SubsegmentIndexBoxSubsegment) {
        lemma_ser_seq_fixed::<SubsegmentIndexBoxSubsegmentRange>(x@.ranges, 4);
    }

    proof fn lemma_roundtrip(v: SubsegmentIndexBoxSubsegmentModel, rest: Seq<u8>) {
        let r = ser_seq::<SubsegmentIndexBoxSubsegmentRange>(v.ranges);
        let s = Self::spec_serialize(v) + rest;
        assert(s.subrange(0, 4) =~= u32_bytes(v.range_count));
        lemma_u32_at(s, 0, v.range_count);
        assert(s.skip(4) =~= r + rest);
        lemma_count_roundtrip::<SubsegmentIndexBoxSubsegmentRange>(v.ranges, rest);
    }

    fn parse(data: &[u8], pos: usize) -> (r: Result<(SubsegmentIndexBoxSubsegment, usize), IsoError>) {
        let ghost s = data@.skip(pos as int);
        if data.len() - pos < 4 {
            return Err(IsoError::UnexpectedEof);
        }
        let range_count = read_u32_at(data, pos);
        proof {
            assert(be_u32_at(s, 0) == be_u32_at(data@, pos as int));
            assert(s.skip(4) =~= data@.skip(pos + 4));
        }
        let (ranges, p) = parse_counted::<SubsegmentIndexBoxSubsegmentRange>(data, pos + 4, range_count as usize)?;
        Ok((SubsegmentIndexBoxSubsegment { range_count, ranges }, p))
    }

    fn serialize(&self, out: &mut Vec<u8>) -> (r: Result<(), IsoError>) {
        let ghost before = out@;
        write_u32(out, self.range_count);
        let _ = serialize_all(&self.ranges, out);
        proof {
            assert(out@ =~= before + Self::spec_serialize(self@));
            lemma_append_prefix(before, Self::spec_serialize(self@));
        }
        Ok(())
    }
}

/// The width of the earliest presentation time and the first offset in a segment
/// index box of `version`: 32 bits in version 0, 64 bits otherwise.
pub open spec fn sidx_time_width(version: u8) -> int {
    if version == 0 { 4 } else { 8 }
}

/// A 32- or 64-bit field of a box of `version`, at offset `i`.
pub open spec fn sidx_time_at(s: Seq<u8>, i: int, version: u8) -> u64 {
    if version == 0 { be_u32_at(s, i) as u64 } else { be_u64_at(s, i) }
}

/// The bytes of a 32- or 64-bit field of a box of `version`; in version 0 the value is
/// cut to its low 32 bits.
pub open spec fn sidx_time_bytes(v: u64, version: u8) -> Seq<u8> {
    if version == 0 { u32_bytes(v as u32) } else { u64_bytes(v) }
}

pub proof fn lemma_sidx_time_at(s: Seq<u8>, i: int, v: u64, version: u8)
    requires
        version == 0 ==> v <= u32::MAX,
        0 <= i,
        i + sidx_time_width(version) <= s.len(),
        s.subrange(i, i + sidx_time_width(version)) == sidx_time_bytes(v, version),
    ensures
        sidx_time_at(s, i, version) == v,
        sidx_time_bytes(v, version).len() == sidx_time_width(version),
{
    lemma_wide_bytes_len(v, 0);
    if version == 0 {
        lemma_u32_at(s, i, v as u32);
    } else {
        lemma_u64_at(s, i, v);
    }
}

pub fn read_sidx_time_at(data: &[u8], pos: usize, version: u8) -> (v: u64)
    requires
        pos + sidx_time_width(version) <= data@.len(),
    ensures
        v == sidx_time_at(data@, pos as int, version),
{
    if version == 0 { read_u32_at(data, pos) as u64 } else { read_u64_at(data, pos) }
}

pub fn write_sidx_time(out: &mut Vec<u8>, v: u64, version: u8)
    ensures
        final(out)@ == old(out)@ + sidx_time_bytes(v, version),
{
    if version == 0 {
        write_u32(out, v as u32);
    } else {
        write_u64(out, v);
    }
}

/// Segment index box
///
/// ISO/IEC 14496-12 - 8.16.3
#[derive(Debug)]
pub struct SegmentIndexBox {
    /// The full box header; version 0 has 32-bit times and offsets, the others 64-bit ones.
    pub header: FullBoxHeader,
    /// The stream that the index is about.
    pub reference_id: u32,
    /// The number of time units in a second.
    pub timescale: u32,
    /// The earliest presentation time of any access unit of the first subsegment.
    pub earliest_presentation_time: u64,
    /// The distance from the end of this box to the first byte of the indexed material.
    pub first_offset: u64,
    /// Reserved, zero.
    pub reserved: u16,
    /// The number of references.
    pub reference_count: u16,
    /// The references.
    pub references: Vec<SegmentIndexBoxReference>,
}

/// The model of a [`SegmentIndexBox`].
pub struct SegmentIndexBoxModel {
    pub header: FullBoxHeader,
    pub reference_id: u32,
    pub timescale: u32,
    pub earliest_presentation_time: u64,
    pub first_offset: u64,
    pub reserved: u16,
    pub reference_count: u16,
    pub references: Seq<SegmentIndexBoxReference>,
}

impl View for SegmentIndexBox {
    type V = SegmentIndexBoxModel;

    open spec fn view(&self) -> SegmentIndexBoxModel {
        SegmentIndexBoxModel {
            header: self.header,
            reference_id: self.reference_id,
            timescale: self.timescale,
            earliest_presentation_time: self.earliest_presentation_time,
            first_offset: self.first_offset,
            reserved: self.reserved,
            reference_count: self.reference_count,
            references: views(self.references@),
        }
    }
}

impl IsoSized for SegmentIndexBox {
    open spec fn spec_size(&self) -> nat {
        add_header_size((16 + 2 * sidx_time_width(self.header.version) + 12 * self.references@.len()) as nat)
    }

    fn size(&self) -> (n: usize) {
        let w: usize = if self.header.version == 0 { 4 } else { 8 };
        add_header_size_exec(16 + 2 * w + 12 * self.references.len())
    }
}

impl BoxBody for SegmentIndexBox {
    open spec fn spec_box_type() -> [u8; 4] {
        [0x73u8, 0x69u8, 0x64u8, 0x78u8]
    }

    fn box_type() -> (r: [u8; 4]) {
        [0x73u8, 0x69u8, 0x64u8, 0x78u8]
    }

    /// The full header, the stream, the timescale, the time and the offset in the
    /// width of the version, the reserved field, the count, then that many references.
    open spec fn spec_parse_body(s: Seq<u8>) -> Result<SegmentIndexBoxModel, IsoError> {
        if s.len() < 4 || s.len() < 16 + 2 * sidx_time_width(s[0]) {
            Err(IsoError::UnexpectedEof)
        } else {
            let version = s[0];
            let w = sidx_time_width(version);
            let count = be_u16_at(s, 14 + 2 * w);
            match parse_count::<SegmentIndexBoxReference>(s.skip(16 + 2 * w), count as nat) {
                Ok((refs, _)) => Ok(
                    SegmentIndexBoxModel {
                        header: FullBoxHeader { version, flags: be_u24_at(s, 1) },
                        reference_id: be_u32_at(s, 4),
                        timescale: be_u32_at(s, 8),
                        earliest_presentation_time: sidx_time_at(s, 12, version),
                        first_offset: sidx_time_at(s, 12 + w, version),
                        reserved: be_u16_at(s, 12 + 2 * w),
                        reference_count: count,
                        references: refs,
                    },
                ),
                Err(e) => Err(e),
            }
        }
    }

    open spec fn spec_writable(v: SegmentIndexBoxModel) -> bool {
        true
    }

    open spec fn spec_serialize_body(v: SegmentIndexBoxModel) -> Seq<u8> {
        seq![v.header.version] + u24_bytes(v.header.flags) + u32_bytes(v.reference_id) + u32_bytes(v.timescale)
            + sidx_time_bytes(v.earliest_presentation_time, v.header.version) + sidx_time_bytes(
            v.first_offset,
            v.header.version,
        ) + u16_bytes(v.reserved) + u16_bytes(v.reference_count) + ser_seq::<SegmentIndexBoxReference>(
            v.references,
        )
    }

    /// The time and offset fit the width of the version, the count is the number of
    /// references, and every reference fits its bit fields.
    open spec fn spec_canonical(v: SegmentIndexBoxModel) -> bool {
        &&& v.header.flags < 0x100_0000
        &&& v.header.version == 0 ==> v.earliest_presentation_time <= u32::MAX && v.first_offset <= u32::MAX
        &&& v.references.len() == v.reference_count
        &&& canonical_seq::<SegmentIndexBoxReference>(v.references)
    }

    proof fn lemma_box_type() {
        assert(Self::spec_box_type()[0] != spec_uuid_fourcc()[0]);
    }

    proof fn lemma_body_size(x: SegmentIndexBox) {
        lemma_wide_bytes_len(x.earliest_presentation_time, 0);
        lemma_wide_bytes_len(x.first_offset, 0);
        lemma_ser_seq_fixed::<SegmentIndexBoxReference>(x@.references, 12);
    }

    proof fn lemma_body_roundtrip(v: SegmentIndexBoxModel) {
        let version = v.header.version;
        let w = sidx_time_width(version);
        let s = Self::spec_serialize_body(v);
        lemma_wide_bytes_len(v.earliest_presentation_time, 0);
        lemma_wide_bytes_len(v.first_offset, 0);
        assert(s.subrange(1, 4) =~= u24_bytes(v.header.flags));
        lemma_u24_at(s, 1, v.header.flags);
        assert(s.subrange(4, 8) =~= u32_bytes(v.reference_id));
        lemma_u32_at(s, 4, v.reference_id);
        assert(s.subrange(8, 12) =~= u32_bytes(v.timescale));
        lemma_u32_at(s, 8, v.timescale);
        assert(s.subrange(12, 12 + w) =~= sidx_time_bytes(v.earliest_presentation_time, version));
        lemma_sidx_time_at(s, 12, v.earliest_presentation_time, version);
        assert(s.subrange(12 + w, 12 + 2 * w) =~= sidx_time_bytes(v.first_offset, version));
        lemma_sidx_time_at(s, 12 + w, v.first_offset, version);
        assert(s.subrange(12 + 2 * w, 14 + 2 * w) =~= u16_bytes(v.reserved));
        lemma_u16_at(s, 12 + 2 * w, v.reserved);
        assert(s.subrange(14 + 2 * w, 16 + 2 * w) =~= u16_bytes(v.reference_count));
        lemma_u16_at(s, 14 + 2 * w, v.reference_count);
        assert(s.skip(16 + 2 * w) =~= ser_seq::<SegmentIndexBoxReference>(v.references) + Seq::<u8>::empty());
        lemma_count_roundtrip::<SegmentIndexBoxReference>(v.references, Seq::<u8>::empty());
    }

    fn parse_body(d: &[u8]) -> (r: Result<SegmentIndexBox, IsoError>) {
        if d.len() < 4 {
            return Err(IsoError::UnexpectedEof);
        }
        let version = d[0];
        let w: usize = if version == 0 { 4 } else { 8 };
        if d.len() < 16 + 2 * w {
            return Err(IsoError::UnexpectedEof);
        }
        let header = FullBoxHeader { version, flags: read_u24_at(d, 1) };
        let reference_id = read_u32_at(d, 4);
        let timescale = read_u32_at(d, 8);
        let earliest_presentation_time = read_sidx_time_at(d, 12, version);
        let first_offset = read_sidx_time_at(d, 12 + w, version);
        let reserved = read_u16_at(d, 12 + 2 * w);
        let reference_count = read_u16_at(d, 14 + 2 * w);
        let (references, _end) = parse_counted::<SegmentIndexBoxReference>(d, 16 + 2 * w, reference_count as usize)?;
        Ok(
            SegmentIndexBox {
                header,
                reference_id,
                timescale,
                earliest_presentation_time,
                first_offset,
                reserved,
                reference_count,
                references,
            },
        )
    }

    fn serialize_body(&self, out: &mut Vec<u8>) -> (r: Result<(), IsoError>) {
        let ghost before = out@;
        let version = self.header.version;
        write_u8(out, version);
        write_u24(out, self.header.flags);
        write_u32(out, self.reference_id);
        write_u32(out, self.timescale);
        write_sidx_time(out, self.earliest_presentation_time, version);
        write_sidx_time(out, self.first_offset, version);
        write_u16(out, self.reserved);
        write_u16(out, self.reference_count);
        let _ = serialize_all(&self.references, out);
        proof {
            assert(out@ =~= before + Self::spec_serialize_body(self@));
            lemma_append_prefix(before, Self::spec_serialize_body(self@));
        }
        Ok(())
    }
}

/// Producer reference time box
///
/// ISO/IEC 14496-12 - 8.16.5
#[derive(Debug, Clone, Copy, PartialEq, Eq, Structural)]
pub struct ProducerReferenceTimeBox {
    /// The full box header; version 0 reads a 32-bit media time.
    pub header: FullBoxHeader,
    /// The track whose time the box gives.
    pub reference_track_id: u32,
    /// The wall-clock time, in the NTP format.
    pub ntp_timestamp: u64,
    /// The media time of the track at that moment.
    pub media_time: u64,
}

impl View for ProducerReferenceTimeBox {
    type V = ProducerReferenceTimeBox;

    open spec fn view(&self) -> ProducerReferenceTimeBox {
        *self
    }
}

impl IsoSized for ProducerReferenceTimeBox {
    /// The fields as written: the media time always takes 64 bits.
    open spec fn spec_size(&self) -> nat {
        add_header_size(24)
    }

    fn size(&self) -> (n: usize) {
        add_header_size_exec(24)
    }
}

impl BoxBody for ProducerReferenceTimeBox {
    open spec fn spec_box_type() -> [u8; 4] {
        [0x70u8, 0x72u8, 0x66u8, 0x74u8]
    }

    fn box_type() -> (r: [u8; 4]) {
        [0x70u8, 0x72u8, 0x66u8, 0x74u8]
    }

    /// The full header, the track, the 64-bit NTP time, then the media time: 32 bits
    /// in version 0, 64 bits otherwise.
    open spec fn spec_parse_body(s: Seq<u8>) -> Result<ProducerReferenceTimeBox, IsoError> {
        if s.len() < 4 || s.len() < 16 + sidx_time_width(s[0]) {
            Err(IsoError::UnexpectedEof)
        } else {
            Ok(
                ProducerReferenceTimeBox {
                    header: FullBoxHeader { version: s[0], flags: be_u24_at(s, 1) },
                    reference_track_id: be_u32_at(s, 4),
                    ntp_timestamp: be_u64_at(s, 8),
                    media_time: sidx_time_at(s, 16, s[0]),
                },
            )
        }
    }

    open spec fn spec_writable(v: ProducerReferenceTimeBox) -> bool {
        true
    }

    /// Every field as it is: the media time is written in 64 bits whatever the version.
    open spec fn spec_serialize_body(v: ProducerReferenceTimeBox) -> Seq<u8> {
        seq![v.header.version] + u24_bytes(v.header.flags) + u32_bytes(v.reference_track_id) + u64_bytes(
            v.ntp_timestamp,
        ) + u64_bytes(v.media_time)
    }

    /// The media time is written in 64 bits, which only a version other than 0 reads back.
    open spec fn spec_canonical(v: ProducerReferenceTimeBox) -> bool {
        v.header.flags < 0x100_0000 && v.header.version != 0
    }

    proof fn lemma_box_type() {
        assert(Self::spec_box_type()[0] != spec_uuid_fourcc()[0]);
    }

    proof fn lemma_body_size(x: ProducerReferenceTimeBox) {
        lemma_wide_bytes_len(x.ntp_timestamp, 0);
        lemma_wide_bytes_len(x.media_time, 0);
    }

    proof fn lemma_body_roundtrip(v: ProducerReferenceTimeBox) {
        let s = Self::spec_serialize_body(v);
        lemma_wide_bytes_len(v.ntp_timestamp, 0);
        lemma_wide_bytes_len(v.media_time, 0);
        assert(s.subrange(1, 4) =~= u24_bytes(v.header.flags));
        lemma_u24_at(s, 1, v.header.flags);
        assert(s.subrange(4, 8) =~= u32_bytes(v.reference_track_id));
        lemma_u32_at(s, 4, v.reference_track_id);
        assert(s.subrange(8, 16) =~= u64_bytes(v.ntp_timestamp));
        lemma_u64_at(s, 8, v.ntp_timestamp);
        assert(s.subrange(16, 24) =~= u64_bytes(v.media_time));
        lemma_u64_at(s, 16, v.media_time);
    }

    fn parse_body(d: &[u8]) -> (r: Result<ProducerReferenceTimeBox, IsoError>) {
        if d.len() < 4 {
            return Err(IsoError::UnexpectedEof);
        }
        let version = d[0];
        let w: usize = if version == 0 { 4 } else { 8 };
        if d.len() < 16 + w {
            return Err(IsoError::UnexpectedEof);
        }
        proof {
            reveal(be_u64_at);
        }
        Ok(
            ProducerReferenceTimeBox {
                header: FullBoxHeader { version, flags: read_u24_at(d, 1) },
                reference_track_id: read_u32_at(d, 4),
                ntp_timestamp: read_u64_at(d, 8),
                media_time: read_sidx_time_at(d, 16, version),
            },
        )
    }

    fn serialize_body(&self, out: &mut Vec<u8>) -> (r: Result<(), IsoError>) {
        let ghost before = out@;
        write_u8(out, self.header.version);
        write_u24(out, self.header.flags);
        write_u32(out, self.reference_track_id);
        write_u64(out, self.ntp_timestamp);
        write_u64(out, self.media_time);
        proof {
            assert(out@ =~= before + Self::spec_serialize_body(self@));
            lemma_append_prefix(before, Self::spec_serialize_body(self@));
        }
        Ok(())
    }
}

/// Subsegment index box
///
/// ISO/IEC 14496-12 - 8.16.4
#[derive(Debug)]
pub struct SubsegmentIndexBox {
    /// The version and flags of the box.
    pub header: FullBoxHeader,
    /// The number of subsegments.
    pub subsegment_count: u32,
    /// The subsegments, to the end of the box.
    pub subsegments: Vec<SubsegmentIndexBoxSubsegment>,
}

/// The model of a [`SubsegmentIndexBox`].
pub struct SubsegmentIndexBoxModel {
    pub header: FullBoxHeader,
    pub subsegment_count: u32,
    pub subsegments: Seq<<SubsegmentIndexBoxSubsegment as View>::V>,
}

impl View for SubsegmentIndexBox {
    type V = SubsegmentIndexBoxModel;

    open spec fn view(&self) -> SubsegmentIndexBoxModel {
        SubsegmentIndexBoxModel {
            header: self.header,
            subsegment_count: self.subsegment_count,
            subsegments: views(self.subsegments@),
        }
    }
}

impl IsoSized for SubsegmentIndexBox {
    open spec fn spec_size(&self) -> nat {
        add_header_size(8 + size_seq::<SubsegmentIndexBoxSubsegment>(self.subsegments@))
    }

    fn size(&self) -> (n: usize) {
        proof {
            lemma_size_seq_mono::<SubsegmentIndexBoxSubsegment>(self.subsegments@, 0);
        }
        add_header_size_exec(8 + size_all(&self.subsegments))
    }
}

impl BoxBody for SubsegmentIndexBox {
    open spec fn spec_box_type() -> [u8; 4] {
        [0x73u8, 0x73u8, 0x69u8, 0x78u8]
    }

    fn box_type() -> (r: [u8; 4]) {
        [0x73u8, 0x73u8, 0x69u8, 0x78u8]
    }

    /// The fixed fields, then entries until the payload ends.
    open spec fn spec_parse_body(s: Seq<u8>) -> Result<SubsegmentIndexBoxModel, IsoError> {
        if s.len() < 8 {
            Err(IsoError::UnexpectedEof)
        } else {
            match parse_rest::<SubsegmentIndexBoxSubsegment>(s.skip(8)) {
                Ok((items, _)) => Ok(
                    SubsegmentIndexBoxModel {
                        header: FullBoxHeader { version: s[0], flags: be_u24_at(s, 1) },
                        subsegment_count: be_u32_at(s, 4),
                        subsegments: items,
                    },
                ),
                Err(e) => Err(e),
            }
        }
    }

    open spec fn spec_writable(v: SubsegmentIndexBoxModel) -> bool {
        writable_seq::<SubsegmentIndexBoxSubsegment>(v.subsegments)
    }

    open spec fn spec_serialize_body(v: SubsegmentIndexBoxModel) -> Seq<u8> {
        seq![v.header.version] + u24_bytes(v.header.flags) + u32_bytes(v.subsegment_count) + ser_seq::<SubsegmentIndexBoxSubsegment>(v.subsegments)
    }

    open spec fn spec_canonical(v: SubsegmentIndexBoxModel) -> bool {
        v.header.flags < 0x100_0000 && canonical_seq::<SubsegmentIndexBoxSubsegment>(v.subsegments)
    }

    proof fn lemma_box_type() {
        assert(Self::spec_box_type()[0] != spec_uuid_fourcc()[0]);
    }

    proof fn lemma_body_size(x: SubsegmentIndexBox) {
        lemma_size_seq::<SubsegmentIndexBoxSubsegment>(x.subsegments@);
    }

    proof fn lemma_body_roundtrip(v: SubsegmentIndexBoxModel) {
        let s = Self::spec_serialize_body(v);
        assert(s[0] == v.header.version);
        assert(s.subrange(1, 4) =~= u24_bytes(v.header.flags));
        lemma_u24_at(s, 1, v.header.flags);
        assert(s.subrange(4, 8) =~= u32_bytes(v.subsegment_count));
        lemma_u32_at(s, 4, v.subsegment_count);
        assert(s.skip(8) =~= ser_seq::<SubsegmentIndexBoxSubsegment>(v.subsegments));
        lemma_rest_roundtrip::<SubsegmentIndexBoxSubsegment>(v.subsegments);
    }

    fn parse_body(d: &[u8]) -> (r: Result<SubsegmentIndexBox, IsoError>) {
        if d.len() < 8 {
            return Err(IsoError::UnexpectedEof);
        }
        let header = FullBoxHeader { version: d[0], flags: read_u24_at(d, 1) };
        let subsegment_count = read_u32_at(d, 4);
        let (subsegments, _end) = parse_remaining::<SubsegmentIndexBoxSubsegment>(d, 8)?;
        Ok(SubsegmentIndexBox { header, subsegment_count, subsegments })
    }

    fn serialize_body(&self, out: &mut Vec<u8>) -> (r: Result<(), IsoError>) {
        let ghost before = out@;
        write_u8(out, self.header.version);
        write_u24(out, self.header.flags);
        write_u32(out, self.subsegment_count);
        let ghost mid = out@;
        proof {
            assert(mid =~= before + (seq![self.header.version] + u24_bytes(self.header.flags) + u32_bytes(self.subsegment_count)));
            lemma_append_prefix(before, seq![self.header.version] + u24_bytes(self.header.flags) + u32_bytes(self.subsegment_count));
        }
        let r = serialize_all(&self.subsegments, out);
        if r.is_err() {
            proof {
                lemma_prefix_trans(before, mid, out@);
            }
            return Err(IsoError::InvalidData);
        }
        proof {
            assert(out@ =~= before + Self::spec_serialize_body(self@));
            lemma_append_prefix(before, Self::spec_serialize_body(self@));
        }
        Ok(())
    }
}


/// A reference of the segment index box (ISO/IEC 14496-12 - 8.16.3) is twelve bytes
/// holding three big-endian words: in the first, the top bit is the reference type and
/// the low 31 bits the referenced size; the second is the subsegment duration; in the
/// third, the top bit says whether the subsegment starts with a SAP, the next three
/// bits are the SAP type and the low 28 bits the SAP delta time.
pub proof fn lemma_segment_index_reference_layout(s: Seq<u8>)
    ensures
        s.len() < 12 ==> SegmentIndexBoxReference::spec_parse(s) == Err::<(SegmentIndexBoxReference, int), IsoError>(
            IsoError::UnexpectedEof,
        ),
        s.len() >= 12 ==> ({
            let w1 = crate::codec::be_int(s, 0, 4);
            let w3 = crate::codec::be_int(s, 8, 4);
            SegmentIndexBoxReference::spec_parse(s) matches Ok((r, n)) && n == 12 && r.reference_type == (w1
                >= 0x8000_0000) && r.referenced_size == w1 % 0x8000_0000 && r.subsegment_duration
                == crate::codec::be_int(s, 4, 4) && r.starts_with_sap == (w3 >= 0x8000_0000) && r.sap_type == w3
                / 0x1000_0000 % 8 && r.sap_delta_time == w3 % 0x1000_0000
        }),
{
    if s.len() >= 12 {
        let w1 = be_u32_at(s, 0);
        let w3 = be_u32_at(s, 8);
        crate::codec::lemma_be_int_u32(s, 0);
        crate::codec::lemma_be_int_u32(s, 4);
        crate::codec::lemma_be_int_u32(s, 8);
        assert(((w1 >> 31u32) != 0) == (w1 >= 0x8000_0000) && (w1 & 0x7fff_ffff) == w1 % 0x8000_0000 && ((w3
            >> 31u32) != 0) == (w3 >= 0x8000_0000) && ((w3 >> 28u32) & 7) == w3 / 0x1000_0000 % 8 && (w3
            & 0x0fff_ffff) == w3 % 0x1000_0000) by (bit_vector);
    }
}

/// The segment index box body (ISO/IEC 14496-12 - 8.16.3): after the version byte
/// and three flag bytes, the reference id spelled by bytes 4..8 and the timescale by
/// 8..12; then, four bytes each in version 0 and eight each otherwise, the earliest
/// presentation time and the first offset; then two reserved bytes and the reference
/// count spelled by the next two.
pub proof fn lemma_segment_index_layout(s: Seq<u8>)
    ensures
        s.len() >= 4 && s[0] == 0 && s.len() >= 24 ==> (SegmentIndexBox::spec_parse_body(s) matches Ok(h) ==> (
        h.reference_id == crate::codec::be_int(s, 4, 4) && h.timescale == crate::codec::be_int(s, 8, 4)
            && h.earliest_presentation_time == crate::codec::be_int(s, 12, 4) && h.first_offset
            == crate::codec::be_int(s, 16, 4) && h.reference_count == crate::codec::be_int(s, 22, 2))),
        s.len() >= 4 && s[0] != 0 && s.len() >= 32 ==> (SegmentIndexBox::spec_parse_body(s) matches Ok(h) ==> (
        h.reference_id == crate::codec::be_int(s, 4, 4) && h.timescale == crate::codec::be_int(s, 8, 4)
            && h.earliest_presentation_time == crate::codec::be_int(s, 12, 8) && h.first_offset
            == crate::codec::be_int(s, 20, 8) && h.reference_count == crate::codec::be_int(s, 30, 2))),
        s.len() < 24 ==> SegmentIndexBox::spec_parse_body(s) is Err,
{
    if s.len() >= 24 {
        crate::codec::lemma_be_int_u32(s, 4);
        crate::codec::lemma_be_int_u32(s, 8);
        if s[0] == 0 {
            crate::codec::lemma_be_int_u32(s, 12);
            crate::codec::lemma_be_int_u32(s, 16);
            crate::codec::lemma_be_int_u16(s, 22);
        } else if s.len() >= 32 {
            crate::codec::lemma_be_int_u64(s, 12);
            crate::codec::lemma_be_int_u64(s, 20);
            crate::codec::lemma_be_int_u16(s, 30);
        }
    }
}


/// The producer reference time body (ISO/IEC 14496-12 - 8.16.5): after the version
/// byte and three flag bytes, the reference track id spelled by bytes 4..8, the NTP
/// time stamp by 8..16, then the media time by four bytes (16..20) in version 0 and by
/// eight (16..24) otherwise.
pub proof fn lemma_producer_reference_time_layout(s: Seq<u8>)
    ensures
        s.len() < 20 ==> ProducerReferenceTimeBox::spec_parse_body(s) == Err::<ProducerReferenceTimeBox, IsoError>(
            IsoError::UnexpectedEof,
        ),
        s.len() >= 20 && s[0] == 0 ==> (ProducerReferenceTimeBox::spec_parse_body(s) matches Ok(h)
            && h.reference_track_id == crate::codec::be_int(s, 4, 4) && h.ntp_timestamp == crate::codec::be_int(s, 8, 8)
            && h.media_time == crate::codec::be_int(s, 16, 4)),
        s.len() >= 24 && s[0] != 0 ==> (ProducerReferenceTimeBox::spec_parse_body(s) matches Ok(h)
            && h.reference_track_id == crate::codec::be_int(s, 4, 4) && h.ntp_timestamp == crate::codec::be_int(s, 8, 8)
            && h.media_time == crate::codec::be_int(s, 16, 8)),
{
    if s.len() >= 20 {
        crate::codec::lemma_be_int_u32(s, 4);
        crate::codec::lemma_be_int_u64(s, 8);
        crate::codec::lemma_be_int_u32(s, 16);
        if s.len() >= 24 {
            crate::codec::lemma_be_int_u64(s, 16);
        }
    }
}

} // verus!
