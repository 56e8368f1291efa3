//! Sample entries: the fields that every sample description begins with, and the
//! entries of the media types whose sample description adds nothing to them.

use vstd::prelude::*;

use crate::codec::{
    be_u16_at, be_u32_at, bytes32_at, bytes6_at, from_i16, i16_of, lemma_append_prefix, lemma_bytes32_at,
    lemma_bytes6_at, lemma_i16_roundtrip, lemma_u16_at, lemma_u32_at, read_bytes32_at, read_bytes6_at,
    read_u16_at, read_u32_at, to_i16, u16_bytes, u16_of, u32_bytes, write_bytes, write_u16, write_u32,
    IsoError, SpecParse,
};
use crate::frame::{add_header_size, add_header_size_exec, BoxBody};
use crate::header::spec_uuid_fourcc;
use crate::wire::{IsoSized, Wire};

verus! {


/// The fields that every sample entry begins with.
///
/// ISO/IEC 14496-12 - 8.5.2
#[derive(Debug, Clone, Copy, PartialEq, Eq)]
pub struct SampleEntry {
    /// Reserved, zero.
    pub reserved: [u8; 6],
    /// The index of the data entry that holds the samples that use this description,
    /// from 1.
    pub data_reference_index: u16,
}

impl View for SampleEntry {
    type V = SampleEntry;

    open spec fn view(&self) -> SampleEntry {
        *self
    }
}

impl IsoSized for SampleEntry {
    open spec fn spec_size(&self) -> nat {
        8
    }

    fn size(&self) -> (n: usize) {
        8
    }
}

impl Wire for SampleEntry {
    open spec fn spec_parse(s: Seq<u8>) -> SpecParse<SampleEntry> {
        if s.len() < 8 {
            Err(IsoError::UnexpectedEof)
        } else {
            Ok((SampleEntry {
                reserved: bytes6_at(s, 0),
                data_reference_index: be_u16_at(s, 6),
            }, 8))
        }
    }

    open spec fn spec_writable(v: SampleEntry) -> bool {
        true
    }

    open spec fn spec_serialize(v: SampleEntry) -> Seq<u8> {
        v.reserved@ + u16_bytes(v.data_reference_index)
    }

    open spec fn spec_canonical(v: SampleEntry) -> bool {
        true
    }

    proof fn lemma_parse_len(s: Seq<u8>) {
    }

    proof fn lemma_size(x: SampleEntry) {
    }

    proof fn lemma_roundtrip(v: SampleEntry, rest: Seq<u8>) {
        let s = Self::spec_serialize(v) + rest;
        assert(s.subrange(0, 6) =~= v.reserved@);
        lemma_bytes6_at(s, 0, v.reserved);
        assert(s.subrange(6, 8) =~= u16_bytes(v.data_reference_index));
        lemma_u16_at(s, 6, v.data_reference_index);
    }

    fn parse(data: &[u8], pos: usize) -> (r: Result<(SampleEntry, usize), IsoError>) {
        if data.len() - pos < 8 {
            return Err(IsoError::UnexpectedEof);
        }
        let d = &data[pos..data.len()];
        proof {
            assert(d@ =~= data@.skip(pos as int));
        }
        let reserved = read_bytes6_at(d, 0);
        let data_reference_index = read_u16_at(d, 6);
        Ok((SampleEntry { reserved, data_reference_index }, pos + 8))
    }

    fn serialize(&self, out: &mut Vec<u8>) -> (r: Result<(), IsoError>) {
        let ghost before = out@;
        write_bytes(out, self.reserved.as_slice());
        write_u16(out, self.data_reference_index);
        proof {
            assert(out@ =~= before + Self::spec_serialize(self@));
            lemma_append_prefix(before, Self::spec_serialize(self@));
        }
        Ok(())
    }
}

/// The sample entry at offset `i`.
pub open spec fn sample_entry_at(s: Seq<u8>, i: int) -> SampleEntry {
    SampleEntry { reserved: bytes6_at(s, i), data_reference_index: be_u16_at(s, i + 6) }
}

/// The bytes of a sample entry.
pub open spec fn sample_entry_bytes(v: SampleEntry) -> Seq<u8> {
    v.reserved@ + u16_bytes(v.data_reference_index)
}

pub fn read_sample_entry_at(data: &[u8], pos: usize) -> (v: SampleEntry)
    requires
        pos + 8 <= data@.len(),
    ensures
        v == sample_entry_at(data@, pos as int),
{
    assert(data@.len() == data.len());
    SampleEntry { reserved: read_bytes6_at(data, pos), data_reference_index: read_u16_at(data, pos + 6) }
}

pub fn write_sample_entry(out: &mut Vec<u8>, v: SampleEntry)
    ensures
        final(out)@ == old(out)@ + sample_entry_bytes(v),
{
    let ghost before = out@;
    write_bytes(out, v.reserved.as_slice());
    write_u16(out, v.data_reference_index);
    assert(out@ =~= before + sample_entry_bytes(v));
}

pub proof fn lemma_sample_entry_at(s: Seq<u8>, i: int, v: SampleEntry)
    requires
        0 <= i,
        i + 8 <= s.len(),
        s.subrange(i, i + 8) == sample_entry_bytes(v),
    ensures
        sample_entry_at(s, i) == v,
{
    broadcast use vstd::array::group_array_axioms;
    assert(s.subrange(i, i + 6) =~= v.reserved@) by {
        assert forall|k: int| 0 <= k < 6 implies s.subrange(i, i + 6)[k] == v.reserved@[k] by {
            assert(s.subrange(i, i + 8)[k] == s[i + k]);
        }
    }
    lemma_bytes6_at(s, i, v.reserved);
    assert(s.subrange(i + 6, i + 8) =~= u16_bytes(v.data_reference_index)) by {
        assert forall|k: int| 0 <= k < 2 implies s.subrange(i + 6, i + 8)[k] == u16_bytes(
            v.data_reference_index,
        )[k] by {
            assert(s.subrange(i, i + 8)[6 + k] == s[i + 6 + k]);
        }
    }
    lemma_u16_at(s, i + 6, v.data_reference_index);
}

impl Default for SampleEntry {
    /// Reserved bytes of zero and the first data entry.
    fn default() -> (r: SampleEntry)
        ensures
            r == (SampleEntry { reserved: [0u8, 0u8, 0u8, 0u8, 0u8, 0u8], data_reference_index: 1 }),
    {
        SampleEntry { reserved: [0u8, 0u8, 0u8, 0u8, 0u8, 0u8], data_reference_index: 1 }
    }
}

/// Bit rate box
///
/// ISO/IEC 14496-12 - 8.5.2
#[derive(Debug, Clone, Copy, PartialEq, Eq, Structural)]
pub struct BitRateBox {
    /// The size of the decoding buffer of the elementary stream, in bytes.
    pub buffer_size_db: u32,
    /// The greatest rate, in bits per second, over any window of one second.
    pub max_bitrate: u32,
    /// The average rate of the stream, in bits per second.
    pub avg_bitrate: u32,
}

impl View for BitRateBox {
    type V = BitRateBox;

    open spec fn view(&self) -> BitRateBox {
        *self
    }
}

impl IsoSized for BitRateBox {
    open spec fn spec_size(&self) -> nat {
        add_header_size(12)
    }

    fn size(&self) -> (n: usize) {
        add_header_size_exec(12)
    }
}

impl BoxBody for BitRateBox {
    open spec fn spec_box_type() -> [u8; 4] {
        [0x62u8, 0x74u8, 0x72u8, 0x74u8]
    }

    fn box_type() -> (r: [u8; 4]) {
        [0x62u8, 0x74u8, 0x72u8, 0x74u8]
    }

    open spec fn spec_parse_body(s: Seq<u8>) -> Result<BitRateBox, IsoError> {
        if s.len() < 12 {
            Err(IsoError::UnexpectedEof)
        } else {
            Ok(BitRateBox {
                buffer_size_db: be_u32_at(s, 0),
                max_bitrate: be_u32_at(s, 4),
                avg_bitrate: be_u32_at(s, 8),
            })
        }
    }

    open spec fn spec_writable(v: BitRateBox) -> bool {
        true
    }

    open spec fn spec_serialize_body(v: BitRateBox) -> Seq<u8> {
        u32_bytes(v.buffer_size_db) + u32_bytes(v.max_bitrate) + u32_bytes(v.avg_bitrate)
    }

    open spec fn spec_canonical(v: BitRateBox) -> bool {
        true
    }

    proof fn lemma_box_type() {
        assert(Self::spec_box_type()[0] != spec_uuid_fourcc()[0] || Self::spec_box_type()[1] != spec_uuid_fourcc()[1]);
    }

    proof fn lemma_body_size(x: BitRateBox) {
    }

    proof fn lemma_body_roundtrip(v: BitRateBox) {
        let s = Self::spec_serialize_body(v);
        assert(s.subrange(0, 4) =~= u32_bytes(v.buffer_size_db));
        lemma_u32_at(s, 0, v.buffer_size_db);
        assert(s.subrange(4, 8) =~= u32_bytes(v.max_bitrate));
        lemma_u32_at(s, 4, v.max_bitrate);
        assert(s.subrange(8, 12) =~= u32_bytes(v.avg_bitrate));
        lemma_u32_at(s, 8, v.avg_bitrate);
    }

    fn parse_body(d: &[u8]) -> (r: Result<BitRateBox, IsoError>) {
        if d.len() < 12 {
            return Err(IsoError::UnexpectedEof);
        }
        let buffer_size_db = read_u32_at(d, 0);
        let max_bitrate = read_u32_at(d, 4);
        let avg_bitrate = read_u32_at(d, 8);
        Ok(BitRateBox { buffer_size_db, max_bitrate, avg_bitrate })
    }

    fn serialize_body(&self, out: &mut Vec<u8>) -> (r: Result<(), IsoError>) {
        let ghost before = out@;
        write_u32(out, self.buffer_size_db);
        write_u32(out, self.max_bitrate);
        write_u32(out, self.avg_bitrate);
        proof {
            assert(out@ =~= before + Self::spec_serialize_body(self@));
            lemma_append_prefix(before, Self::spec_serialize_body(self@));
        }
        Ok(())
    }
}

/// Font sample entry
///
/// ISO/IEC 14496-12 - 12.7.3
#[derive(Debug, Clone, Copy, PartialEq, Eq)]
pub struct FontSampleEntry {
    /// The sample entry that this entry extends.
    pub sample_entry: SampleEntry,
}

impl View for FontSampleEntry {
    type V = FontSampleEntry;

    open spec fn view(&self) -> FontSampleEntry {
        *self
    }
}

impl IsoSized for FontSampleEntry {
    open spec fn spec_size(&self) -> nat {
        8
    }

    fn size(&self) -> (n: usize) {
        8
    }
}

impl Wire for FontSampleEntry {
    open spec fn spec_parse(s: Seq<u8>) -> SpecParse<FontSampleEntry> {
        if s.len() < 8 {
            Err(IsoError::UnexpectedEof)
        } else {
            Ok((FontSampleEntry {
                sample_entry: sample_entry_at(s, 0),
            }, 8))
        }
    }

    open spec fn spec_writable(v: FontSampleEntry) -> bool {
        true
    }

    open spec fn spec_serialize(v: FontSampleEntry) -> Seq<u8> {
        sample_entry_bytes(v.sample_entry)
    }

    open spec fn spec_canonical(v: FontSampleEntry) -> bool {
        true
    }

    proof fn lemma_parse_len(s: Seq<u8>) {
    }

    proof fn lemma_size(x: FontSampleEntry) {
    }

    proof fn lemma_roundtrip(v: FontSampleEntry, rest: Seq<u8>) {
        let s = Self::spec_serialize(v) + rest;
        assert(s.subrange(0, 8) =~= sample_entry_bytes(v.sample_entry));
        lemma_sample_entry_at(s, 0, v.sample_entry);
    }

    fn parse(data: &[u8], pos: usize) -> (r: Result<(FontSampleEntry, usize), IsoError>) {
        if data.len() - pos < 8 {
            return Err(IsoError::UnexpectedEof);
        }
        let d = &data[pos..data.len()];
        proof {
            assert(d@ =~= data@.skip(pos as int));
        }
        let sample_entry = read_sample_entry_at(d, 0);
        Ok((FontSampleEntry { sample_entry }, pos + 8))
    }

    fn serialize(&self, out: &mut Vec<u8>) -> (r: Result<(), IsoError>) {
        let ghost before = out@;
        write_sample_entry(out, self.sample_entry);
        proof {
            assert(out@ =~= before + Self::spec_serialize(self@));
            lemma_append_prefix(before, Self::spec_serialize(self@));
        }
        Ok(())
    }
}

/// Hint sample entry
///
/// ISO/IEC 14496-12 - 12.4.3
#[derive(Debug, Clone, Copy, PartialEq, Eq)]
pub struct HintSampleEntry {
    /// The sample entry that this entry extends.
    pub sample_entry: SampleEntry,
}

impl View for HintSampleEntry {
    type V = HintSampleEntry;

    open spec fn view(&self) -> HintSampleEntry {
        *self
    }
}

impl IsoSized for HintSampleEntry {
    open spec fn spec_size(&self) -> nat {
        8
    }

    fn size(&self) -> (n: usize) {
        8
    }
}

impl Wire for HintSampleEntry {
    open spec fn spec_parse(s: Seq<u8>) -> SpecParse<HintSampleEntry> {
        if s.len() < 8 {
            Err(IsoError::UnexpectedEof)
        } else {
            Ok((HintSampleEntry {
                sample_entry: sample_entry_at(s, 0),
            }, 8))
        }
    }

    open spec fn spec_writable(v: HintSampleEntry) -> bool {
        true
    }

    open spec fn spec_serialize(v: HintSampleEntry) -> Seq<u8> {
        sample_entry_bytes(v.sample_entry)
    }

    open spec fn spec_canonical(v: HintSampleEntry) -> bool {
        true
    }

    proof fn lemma_parse_len(s: Seq<u8>) {
    }

    proof fn lemma_size(x: HintSampleEntry) {
    }

    proof fn lemma_roundtrip(v: HintSampleEntry, rest: Seq<u8>) {
        let s = Self::spec_serialize(v) + rest;
        assert(s.subrange(0, 8) =~= sample_entry_bytes(v.sample_entry));
        lemma_sample_entry_at(s, 0, v.sample_entry);
    }

    fn parse(data: &[u8], pos: usize) -> (r: Result<(HintSampleEntry, usize), IsoError>) {
        if data.len() - pos < 8 {
            return Err(IsoError::UnexpectedEof);
        }
        let d = &data[pos..data.len()];
        proof {
            assert(d@ =~= data@.skip(pos as int));
        }
        let sample_entry = read_sample_entry_at(d, 0);
        Ok((HintSampleEntry { sample_entry }, pos + 8))
    }

    fn serialize(&self, out: &mut Vec<u8>) -> (r: Result<(), IsoError>) {
        let ghost before = out@;
        write_sample_entry(out, self.sample_entry);
        proof {
            assert(out@ =~= before + Self::spec_serialize(self@));
            lemma_append_prefix(before, Self::spec_serialize(self@));
        }
        Ok(())
    }
}

/// Metadata sample entry
///
/// ISO/IEC 14496-12 - 12.3.3
#[derive(Debug, Clone, Copy, PartialEq, Eq)]
pub struct MetaDataSampleEntry {
    /// The sample entry that this entry extends.
    pub sample_entry: SampleEntry,
}

impl View for MetaDataSampleEntry {
    type V = MetaDataSampleEntry;

    open spec fn view(&self) -> MetaDataSampleEntry {
        *self
    }
}

impl IsoSized for MetaDataSampleEntry {
    open spec fn spec_size(&self) -> nat {
        8
    }

    fn size(&self) -> (n: usize) {
        8
    }
}

impl Wire for MetaDataSampleEntry {
    open spec fn spec_parse(s: Seq<u8>) -> SpecParse<MetaDataSampleEntry> {
        if s.len() < 8 {
            Err(IsoError::UnexpectedEof)
        } else {
            Ok((MetaDataSampleEntry {
                sample_entry: sample_entry_at(s, 0),
            }, 8))
        }
    }

    open spec fn spec_writable(v: MetaDataSampleEntry) -> bool {
        true
    }

    open spec fn spec_serialize(v: MetaDataSampleEntry) -> Seq<u8> {
        sample_entry_bytes(v.sample_entry)
    }

    open spec fn spec_canonical(v: MetaDataSampleEntry) -> bool {
        true
    }

    proof fn lemma_parse_len(s: Seq<u8>) {
    }

    proof fn lemma_size(x: MetaDataSampleEntry) {
    }

    proof fn lemma_roundtrip(v: MetaDataSampleEntry, rest: Seq<u8>) {
        let s = Self::spec_serialize(v) + rest;
        assert(s.subrange(0, 8) =~= sample_entry_bytes(v.sample_entry));
        lemma_sample_entry_at(s, 0, v.sample_entry);
    }

    fn parse(data: &[u8], pos: usize) -> (r: Result<(MetaDataSampleEntry, usize), IsoError>) {
        if data.len() - pos < 8 {
            return Err(IsoError::UnexpectedEof);
        }
        let d = &data[pos..data.len()];
        proof {
            assert(d@ =~= data@.skip(pos as int));
        }
        let sample_entry = read_sample_entry_at(d, 0);
        Ok((MetaDataSampleEntry { sample_entry }, pos + 8))
    }

    fn serialize(&self, out: &mut Vec<u8>) -> (r: Result<(), IsoError>) {
        let ghost before = out@;
        write_sample_entry(out, self.sample_entry);
        proof {
            assert(out@ =~= before + Self::spec_serialize(self@));
            lemma_append_prefix(before, Self::spec_serialize(self@));
        }
        Ok(())
    }
}

/// Subtitle sample entry
///
/// ISO/IEC 14496-12 - 12.6.3
#[derive(Debug, Clone, Copy, PartialEq, Eq)]
pub struct SubtitleSampleEntry {
    /// The sample entry that this entry extends.
    pub sample_entry: SampleEntry,
}

impl View for SubtitleSampleEntry {
    type V = SubtitleSampleEntry;

    open spec fn view(&self) -> SubtitleSampleEntry {
        *self
    }
}

impl IsoSized for SubtitleSampleEntry {
    open spec fn spec_size(&self) -> nat {
        8
    }

    fn size(&self) -> (n: usize) {
        8
    }
}

impl Wire for SubtitleSampleEntry {
    open spec fn spec_parse(s: Seq<u8>) -> SpecParse<SubtitleSampleEntry> {
        if s.len() < 8 {
            Err(IsoError::UnexpectedEof)
        } else {
            Ok((SubtitleSampleEntry {
                sample_entry: sample_entry_at(s, 0),
            }, 8))
        }
    }

    open spec fn spec_writable(v: SubtitleSampleEntry) -> bool {
        true
    }

    open spec fn spec_serialize(v: SubtitleSampleEntry) -> Seq<u8> {
        sample_entry_bytes(v.sample_entry)
    }

    open spec fn spec_canonical(v: SubtitleSampleEntry) -> bool {
        true
    }

    proof fn lemma_parse_len(s: Seq<u8>) {
    }

    proof fn lemma_size(x: SubtitleSampleEntry) {
    }

    proof fn lemma_roundtrip(v: SubtitleSampleEntry, rest: Seq<u8>) {
        let s = Self::spec_serialize(v) + rest;
        assert(s.subrange(0, 8) =~= sample_entry_bytes(v.sample_entry));
        lemma_sample_entry_at(s, 0, v.sample_entry);
    }

    fn parse(data: &[u8], pos: usize) -> (r: Result<(SubtitleSampleEntry, usize), IsoError>) {
        if data.len() - pos < 8 {
            return Err(IsoError::UnexpectedEof);
        }
        let d = &data[pos..data.len()];
        proof {
            assert(d@ =~= data@.skip(pos as int));
        }
        let sample_entry = read_sample_entry_at(d, 0);
        Ok((SubtitleSampleEntry { sample_entry }, pos + 8))
    }

    fn serialize(&self, out: &mut Vec<u8>) -> (r: Result<(), IsoError>) {
        let ghost before = out@;
        write_sample_entry(out, self.sample_entry);
        proof {
            assert(out@ =~= before + Self::spec_serialize(self@));
            lemma_append_prefix(before, Self::spec_serialize(self@));
        }
        Ok(())
    }
}

/// Plain text sample entry
///
/// ISO/IEC 14496-12 - 12.5.3
#[derive(Debug, Clone, Copy, PartialEq, Eq)]
pub struct PlainTextSampleEntry {
    /// The sample entry that this entry extends.
    pub sample_entry: SampleEntry,
}

impl View for PlainTextSampleEntry {
    type V = PlainTextSampleEntry;

    open spec fn view(&self) -> PlainTextSampleEntry {
        *self
    }
}

impl IsoSized for PlainTextSampleEntry {
    open spec fn spec_size(&self) -> nat {
        8
    }

    fn size(&self) -> (n: usize) {
        8
    }
}

impl Wire for PlainTextSampleEntry {
    open spec fn spec_parse(s: Seq<u8>) -> SpecParse<PlainTextSampleEntry> {
        if s.len() < 8 {
            Err(IsoError::UnexpectedEof)
        } else {
            Ok((PlainTextSampleEntry {
                sample_entry: sample_entry_at(s, 0),
            }, 8))
        }
    }

    open spec fn spec_writable(v: PlainTextSampleEntry) -> bool {
        true
    }

    open spec fn spec_serialize(v: PlainTextSampleEntry) -> Seq<u8> {
        sample_entry_bytes(v.sample_entry)
    }

    open spec fn spec_canonical(v: PlainTextSampleEntry) -> bool {
        true
    }

    proof fn lemma_parse_len(s: Seq<u8>) {
    }

    proof fn lemma_size(x: PlainTextSampleEntry) {
    }

    proof fn lemma_roundtrip(v: PlainTextSampleEntry, rest: Seq<u8>) {
        let s = Self::spec_serialize(v) + rest;
        assert(s.subrange(0, 8) =~= sample_entry_bytes(v.sample_entry));
        lemma_sample_entry_at(s, 0, v.sample_entry);
    }

    fn parse(data: &[u8], pos: usize) -> (r: Result<(PlainTextSampleEntry, usize), IsoError>) {
        if data.len() - pos < 8 {
            return Err(IsoError::UnexpectedEof);
        }
        let d = &data[pos..data.len()];
        proof {
            assert(d@ =~= data@.skip(pos as int));
        }
        let sample_entry = read_sample_entry_at(d, 0);
        Ok((PlainTextSampleEntry { sample_entry }, pos + 8))
    }

    fn serialize(&self, out: &mut Vec<u8>) -> (r: Result<(), IsoError>) {
        let ghost before = out@;
        write_sample_entry(out, self.sample_entry);
        proof {
            assert(out@ =~= before + Self::spec_serialize(self@));
            lemma_append_prefix(before, Self::spec_serialize(self@));
        }
        Ok(())
    }
}

/// Volumetric visual sample entry
///
/// ISO/IEC 14496-12 - 12.11.3
#[derive(Debug, Clone, Copy, PartialEq, Eq)]
pub struct VolumetricVisualSampleEntry {
    /// The sample entry that this entry extends.
    pub sample_entry: SampleEntry,
    /// The name of the compressor, for information.
    pub compressorname: [u8; 32],
}

impl View for VolumetricVisualSampleEntry {
    type V = VolumetricVisualSampleEntry;

    open spec fn view(&self) -> VolumetricVisualSampleEntry {
        *self
    }
}

impl IsoSized for VolumetricVisualSampleEntry {
    open spec fn spec_size(&self) -> nat {
        40
    }

    fn size(&self) -> (n: usize) {
        40
    }
}

impl Wire for VolumetricVisualSampleEntry {
    open spec fn spec_parse(s: Seq<u8>) -> SpecParse<VolumetricVisualSampleEntry> {
        if s.len() < 40 {
            Err(IsoError::UnexpectedEof)
        } else {
            Ok((VolumetricVisualSampleEntry {
                sample_entry: sample_entry_at(s, 0),
                compressorname: bytes32_at(s, 8),
            }, 40))
        }
    }

    open spec fn spec_writable(v: VolumetricVisualSampleEntry) -> bool {
        true
    }

    open spec fn spec_serialize(v: VolumetricVisualSampleEntry) -> Seq<u8> {
        sample_entry_bytes(v.sample_entry) + v.compressorname@
    }

    open spec fn spec_canonical(v: VolumetricVisualSampleEntry) -> bool {
        true
    }

    proof fn lemma_parse_len(s: Seq<u8>) {
    }

    proof fn lemma_size(x: VolumetricVisualSampleEntry) {
    }

    proof fn lemma_roundtrip(v: VolumetricVisualSampleEntry, rest: Seq<u8>) {
        let s = Self::spec_serialize(v) + rest;
        assert(s.subrange(0, 8) =~= sample_entry_bytes(v.sample_entry));
        lemma_sample_entry_at(s, 0, v.sample_entry);
        assert(s.subrange(8, 40) =~= v.compressorname@);
        lemma_bytes32_at(s, 8, v.compressorname);
    }

    fn parse(data: &[u8], pos: usize) -> (r: Result<(VolumetricVisualSampleEntry, usize), IsoError>) {
        if data.len() - pos < 40 {
            return Err(IsoError::UnexpectedEof);
        }
        let d = &data[pos..data.len()];
        proof {
            assert(d@ =~= data@.skip(pos as int));
        }
        let sample_entry = read_sample_entry_at(d, 0);
        let compressorname = read_bytes32_at(d, 8);
        Ok((VolumetricVisualSampleEntry { sample_entry, compressorname }, pos + 40))
    }

    fn serialize(&self, out: &mut Vec<u8>) -> (r: Result<(), IsoError>) {
        let ghost before = out@;
        write_sample_entry(out, self.sample_entry);
        write_bytes(out, self.compressorname.as_slice());
        proof {
            assert(out@ =~= before + Self::spec_serialize(self@));
            lemma_append_prefix(before, Self::spec_serialize(self@));
        }
        Ok(())
    }
}

/// 3 32-bit values at offset `i`.
#[verifier::opaque]
pub open spec fn u32x3_at(s: Seq<u8>, i: int) -> [u32; 3] {
    [be_u32_at(s, i + 0), be_u32_at(s, i + 4), be_u32_at(s, i + 8)]
}

/// The bytes of 3 32-bit values.
#[verifier::opaque]
pub open spec fn u32x3_bytes(v: [u32; 3]) -> Seq<u8> {
    u32_bytes(v[0]) + u32_bytes(v[1]) + u32_bytes(v[2])
}

pub proof fn lemma_u32x3_bytes_len(v: [u32; 3])
    ensures
        u32x3_bytes(v).len() == 12,
{
    reveal(u32x3_bytes);
}

pub fn read_u32x3_at(data: &[u8], pos: usize) -> (v: [u32; 3])
    requires
        pos + 12 <= data@.len(),
    ensures
        v == u32x3_at(data@, pos as int),
{
    reveal(u32x3_at);
    assert(data@.len() == data.len());
    [read_u32_at(data, pos + 0), read_u32_at(data, pos + 4), read_u32_at(data, pos + 8)]
}

pub fn write_u32x3(out: &mut Vec<u8>, v: [u32; 3])
    ensures
        final(out)@ == old(out)@ + u32x3_bytes(v),
{
    reveal(u32x3_bytes);
    let ghost before = out@;
    write_u32(out, v[0]);
    write_u32(out, v[1]);
    write_u32(out, v[2]);
    assert(out@ =~= before + u32x3_bytes(v));
}

pub proof fn lemma_u32x3_at(s: Seq<u8>, i: int, v: [u32; 3])
    requires
        0 <= i,
        i + 12 <= s.len(),
        s.subrange(i, i + 12) == u32x3_bytes(v),
    ensures
        u32x3_at(s, i) == v,
{
    reveal(u32x3_at);
    reveal(u32x3_bytes);
    broadcast use vstd::array::group_array_axioms;
    assert(s.subrange(i + 0, i + 4) =~= s.subrange(i, i + 12).subrange(0, 4));
    assert(s.subrange(i + 4, i + 8) =~= s.subrange(i, i + 12).subrange(4, 8));
    assert(s.subrange(i + 8, i + 12) =~= s.subrange(i, i + 12).subrange(8, 12));
    assert(u32x3_bytes(v).subrange(0, 4) =~= u32_bytes(v[0]));
    assert(u32x3_bytes(v).subrange(4, 8) =~= u32_bytes(v[1]));
    assert(u32x3_bytes(v).subrange(8, 12) =~= u32_bytes(v[2]));
    lemma_u32_at(s, i + 0, v[0]);
    lemma_u32_at(s, i + 4, v[1]);
    lemma_u32_at(s, i + 8, v[2]);
    assert(u32x3_at(s, i) =~= v);
}

/// Visual sample entry
///
/// ISO/IEC 14496-12 - 12.1.3
#[derive(Debug, Clone, Copy, PartialEq, Eq)]
pub struct VisualSampleEntry {
    /// The sample entry that this entry extends.
    pub sample_entry: SampleEntry,
    /// Zero.
    pub pre_defined: u16,
    /// Reserved, zero.
    pub reserved1: u16,
    /// Zero.
    pub pre_defined2: [u32; 3],
    /// The greatest width of the pictures of the stream, in pixels.
    pub width: u16,
    /// The greatest height of the pictures of the stream, in pixels.
    pub height: u16,
    /// The horizontal resolution, in pixels per inch, as a 16.16 fixed-point number: 72 dpi.
    pub horiz_resolution: u32,
    /// The vertical resolution, in pixels per inch, as a 16.16 fixed-point number: 72 dpi.
    pub vert_resolution: u32,
    /// Reserved, zero.
    pub reserved2: u32,
    /// The number of frames in each sample; 1 by default.
    pub frame_count: u16,
    /// The name of the compressor: a length byte, that many bytes of UTF-8, then padding.
    pub compressor_name: [u8; 32],
    /// 0x0018 for colour pictures without alpha.
    pub depth: u16,
    /// -1.
    pub pre_defined4: i16,
}

impl View for VisualSampleEntry {
    type V = VisualSampleEntry;

    open spec fn view(&self) -> VisualSampleEntry {
        *self
    }
}

impl IsoSized for VisualSampleEntry {
    open spec fn spec_size(&self) -> nat {
        78
    }

    fn size(&self) -> (n: usize) {
        78
    }
}

impl Wire for VisualSampleEntry {
    open spec fn spec_parse(s: Seq<u8>) -> SpecParse<VisualSampleEntry> {
        if s.len() < 78 {
            Err(IsoError::UnexpectedEof)
        } else {
            Ok((VisualSampleEntry {
                sample_entry: sample_entry_at(s, 0),
                pre_defined: be_u16_at(s, 8),
                reserved1: be_u16_at(s, 10),
                pre_defined2: u32x3_at(s, 12),
                width: be_u16_at(s, 24),
                height: be_u16_at(s, 26),
                horiz_resolution: be_u32_at(s, 28),
                vert_resolution: be_u32_at(s, 32),
                reserved2: be_u32_at(s, 36),
                frame_count: be_u16_at(s, 40),
                compressor_name: bytes32_at(s, 42),
                depth: be_u16_at(s, 74),
                pre_defined4: i16_of(be_u16_at(s, 76)),
            }, 78))
        }
    }

    open spec fn spec_writable(v: VisualSampleEntry) -> bool {
        true
    }

    open spec fn spec_serialize(v: VisualSampleEntry) -> Seq<u8> {
        sample_entry_bytes(v.sample_entry) + u16_bytes(v.pre_defined) + u16_bytes(v.reserved1) + u32x3_bytes(v.pre_defined2) + u16_bytes(v.width) + u16_bytes(v.height) + u32_bytes(v.horiz_resolution) + u32_bytes(v.vert_resolution) + u32_bytes(v.reserved2) + u16_bytes(v.frame_count) + v.compressor_name@ + u16_bytes(v.depth) + u16_bytes(u16_of(v.pre_defined4))
    }

    open spec fn spec_canonical(v: VisualSampleEntry) -> bool {
        true
    }

    proof fn lemma_parse_len(s: Seq<u8>) {
    }

    proof fn lemma_size(x: VisualSampleEntry) {
        lemma_u32x3_bytes_len(x.pre_defined2);
    }

    proof fn lemma_roundtrip(v: VisualSampleEntry, rest: Seq<u8>) {
        lemma_visual_sample_entry_roundtrip(v, rest);
    }

    fn parse(data: &[u8], pos: usize) -> (r: Result<(VisualSampleEntry, usize), IsoError>) {
        if data.len() - pos < 78 {
            return Err(IsoError::UnexpectedEof);
        }
        let d = &data[pos..data.len()];
        proof {
            assert(d@ =~= data@.skip(pos as int));
        }
        let sample_entry = read_sample_entry_at(d, 0);
        let pre_defined = read_u16_at(d, 8);
        let reserved1 = read_u16_at(d, 10);
        let pre_defined2 = read_u32x3_at(d, 12);
        let width = read_u16_at(d, 24);
        let height = read_u16_at(d, 26);
        let horiz_resolution = read_u32_at(d, 28);
        let vert_resolution = read_u32_at(d, 32);
        let reserved2 = read_u32_at(d, 36);
        let frame_count = read_u16_at(d, 40);
        let compressor_name = read_bytes32_at(d, 42);
        let depth = read_u16_at(d, 74);
        let pre_defined4 = to_i16(read_u16_at(d, 76));
        Ok((VisualSampleEntry { sample_entry, pre_defined, reserved1, pre_defined2, width, height, horiz_resolution, vert_resolution, reserved2, frame_count, compressor_name, depth, pre_defined4 }, pos + 78))
    }

    fn serialize(&self, out: &mut Vec<u8>) -> (r: Result<(), IsoError>) {
        let ghost before = out@;
        proof {
            lemma_u32x3_bytes_len(self.pre_defined2);
        }
        write_sample_entry(out, self.sample_entry);
        write_u16(out, self.pre_defined);
        write_u16(out, self.reserved1);
        write_u32x3(out, self.pre_defined2);
        write_u16(out, self.width);
        write_u16(out, self.height);
        write_u32(out, self.horiz_resolution);
        write_u32(out, self.vert_resolution);
        write_u32(out, self.reserved2);
        write_u16(out, self.frame_count);
        write_bytes(out, self.compressor_name.as_slice());
        write_u16(out, self.depth);
        write_u16(out, from_i16(self.pre_defined4));
        proof {
            assert(out@ =~= before + Self::spec_serialize(self@));
            lemma_append_prefix(before, Self::spec_serialize(self@));
        }
        Ok(())
    }
}

#[verifier::spinoff_prover]
#[verifier::rlimit(60)]
proof fn lemma_visual_sample_entry_roundtrip(v: VisualSampleEntry, rest: Seq<u8>)
    requires
        VisualSampleEntry::spec_canonical(v),
    ensures
        VisualSampleEntry::spec_parse(VisualSampleEntry::spec_serialize(v) + rest) == Ok::<(VisualSampleEntry, int), IsoError>((v, VisualSampleEntry::spec_serialize(v).len() as int)),
{
    lemma_u32x3_bytes_len(v.pre_defined2);
    let s = VisualSampleEntry::spec_serialize(v) + rest;
    assert(s.subrange(0, 8) =~= sample_entry_bytes(v.sample_entry));
    lemma_sample_entry_at(s, 0, v.sample_entry);
    assert(s.subrange(8, 10) =~= u16_bytes(v.pre_defined));
    lemma_u16_at(s, 8, v.pre_defined);
    assert(s.subrange(10, 12) =~= u16_bytes(v.reserved1));
    lemma_u16_at(s, 10, v.reserved1);
    assert(s.subrange(12, 24) =~= u32x3_bytes(v.pre_defined2));
    lemma_u32x3_at(s, 12, v.pre_defined2);
    assert(s.subrange(24, 26) =~= u16_bytes(v.width));
    lemma_u16_at(s, 24, v.width);
    assert(s.subrange(26, 28) =~= u16_bytes(v.height));
    lemma_u16_at(s, 26, v.height);
    assert(s.subrange(28, 32) =~= u32_bytes(v.horiz_resolution));
    lemma_u32_at(s, 28, v.horiz_resolution);
    assert(s.subrange(32, 36) =~= u32_bytes(v.vert_resolution));
    lemma_u32_at(s, 32, v.vert_resolution);
    assert(s.subrange(36, 40) =~= u32_bytes(v.reserved2));
    lemma_u32_at(s, 36, v.reserved2);
    assert(s.subrange(40, 42) =~= u16_bytes(v.frame_count));
    lemma_u16_at(s, 40, v.frame_count);
    assert(s.subrange(42, 74) =~= v.compressor_name@);
    lemma_bytes32_at(s, 42, v.compressor_name);
    assert(s.subrange(74, 76) =~= u16_bytes(v.depth));
    lemma_u16_at(s, 74, v.depth);
    assert(s.subrange(76, 78) =~= u16_bytes(u16_of(v.pre_defined4)));
    lemma_u16_at(s, 76, u16_of(v.pre_defined4));
    lemma_i16_roundtrip(v.pre_defined4);
}

impl VisualSampleEntry {
    /// Creates a visual sample entry with the given fields; the resolutions are 72 dpi,
    /// one frame per sample, colour without alpha, and the rest zero or -1.
    pub fn new(sample_entry: SampleEntry, width: u16, height: u16, compressor_name: [u8; 32]) -> (r: Self)
        ensures
            r == (VisualSampleEntry {
                sample_entry,
                pre_defined: 0u16,
                reserved1: 0,
                pre_defined2: [0u32, 0u32, 0u32],
                width,
                height,
                horiz_resolution: 0x0048_0000,
                vert_resolution: 0x0048_0000,
                reserved2: 0,
                frame_count: 1,
                compressor_name,
                depth: 0x0018,
                pre_defined4: -1i16,
            }),
    {
        VisualSampleEntry {
            sample_entry,
            pre_defined: 0,
            reserved1: 0,
            pre_defined2: [0u32, 0u32, 0u32],
            width,
            height,
            horiz_resolution: 0x0048_0000,
            vert_resolution: 0x0048_0000,
            reserved2: 0,
            frame_count: 1,
            compressor_name,
            depth: 0x0018,
            pre_defined4: -1,
        }
    }
}


/// The bit rate box body is twelve bytes: the decoding buffer size spelled by the first four, big-endian, then the maximum bitrate by the next four, then the average bitrate by the last four.
pub proof fn lemma_bit_rate_layout(s: Seq<u8>)
    ensures
        s.len() < 12 ==> BitRateBox::spec_parse_body(s) == Err::<BitRateBox, IsoError>(IsoError::UnexpectedEof),
        s.len() >= 12 ==> (BitRateBox::spec_parse_body(s) matches Ok(e) && e.buffer_size_db == crate::codec::be_int(s, 0, 4) && e.max_bitrate == crate::codec::be_int(s, 4, 4) && e.avg_bitrate == crate::codec::be_int(s, 8, 4)),
{
    if s.len() >= 12 {
        crate::codec::lemma_be_int_u32(s, 0);
        crate::codec::lemma_be_int_u32(s, 4);
        crate::codec::lemma_be_int_u32(s, 8);
    }
}

/// Writing a bit rate box body gives twelve bytes: the buffer size, the maximum bitrate, then the average bitrate.
pub proof fn lemma_bit_rate_bytes(e: BitRateBox)
    ensures
        BitRateBox::spec_serialize_body(e).len() == 12,
        crate::codec::be_int(BitRateBox::spec_serialize_body(e), 0, 4) == e.buffer_size_db,
        crate::codec::be_int(BitRateBox::spec_serialize_body(e), 4, 4) == e.max_bitrate,
        crate::codec::be_int(BitRateBox::spec_serialize_body(e), 8, 4) == e.avg_bitrate,
{
    let w = BitRateBox::spec_serialize_body(e);
    assert(w.subrange(0, 4) =~= u32_bytes(e.buffer_size_db));
    crate::codec::lemma_be_int_u32_bytes(w, 0, e.buffer_size_db);
    assert(w.subrange(4, 8) =~= u32_bytes(e.max_bitrate));
    crate::codec::lemma_be_int_u32_bytes(w, 4, e.max_bitrate);
    assert(w.subrange(8, 12) =~= u32_bytes(e.avg_bitrate));
    crate::codec::lemma_be_int_u32_bytes(w, 8, e.avg_bitrate);
}


/// The common part of a sample entry (ISO/IEC 14496-12 - 8.5.2.2) is eight bytes: six reserved bytes, then the data reference index spelled by bytes 6..8, big-endian.
pub proof fn lemma_sample_entry_layout(s: Seq<u8>)
    ensures
        s.len() < 8 ==> SampleEntry::spec_parse(s) == Err::<(SampleEntry, int), IsoError>(IsoError::UnexpectedEof),
        s.len() >= 8 ==> (SampleEntry::spec_parse(s) matches Ok((h, n)) && n == 8 && h.data_reference_index == crate::codec::be_int(s, 6, 2)),
{
    if s.len() >= 8 {
        crate::codec::lemma_be_int_u16(s, 6);
    }
}

/// The fields of a visual sample entry (ISO/IEC 14496-12 - 12.1.3.2) after the common eight bytes: the width spelled by bytes 24..26 and the height by 26..28, the horizontal and vertical resolutions by 28..32 and 32..36, the frame count by 40..42 and the depth by 74..76; the entry takes 78 bytes.
pub proof fn lemma_visual_sample_entry_layout(s: Seq<u8>)
    ensures
        s.len() < 78 ==> VisualSampleEntry::spec_parse(s) == Err::<(VisualSampleEntry, int), IsoError>(IsoError::UnexpectedEof),
        s.len() >= 78 ==> (VisualSampleEntry::spec_parse(s) matches Ok((h, n)) && n == 78 && h.width == crate::codec::be_int(s, 24, 2) && h.height == crate::codec::be_int(s, 26, 2) && h.horiz_resolution == crate::codec::be_int(s, 28, 4) && h.vert_resolution == crate::codec::be_int(s, 32, 4) && h.frame_count == crate::codec::be_int(s, 40, 2) && h.depth == crate::codec::be_int(s, 74, 2) && h.sample_entry.data_reference_index == crate::codec::be_int(s, 6, 2)),
{
    if s.len() >= 78 {
        crate::codec::lemma_be_int_u16(s, 24);
        crate::codec::lemma_be_int_u16(s, 26);
        crate::codec::lemma_be_int_u32(s, 28);
        crate::codec::lemma_be_int_u32(s, 32);
        crate::codec::lemma_be_int_u16(s, 40);
        crate::codec::lemma_be_int_u16(s, 74);
        crate::codec::lemma_be_int_u16(s, 6);
    }
}

} // verus!
