//! Track data layout structures (ISO/IEC 14496-12 - 8.7).

use vstd::prelude::*;

use crate::codec::{
    be_u24_at, be_u32_at, lemma_append_prefix, lemma_u24_at, lemma_u32_at, read_u24_at, read_u32_at,
    u24_bytes, u32_bytes, write_u24, write_bytes, write_u32, write_u8, IsoError, SpecParse,
};
use crate::common_types::Utf8String;
use crate::frame::{add_header_size, add_header_size_exec, BoxBody};
use crate::header::{spec_uuid_fourcc, FullBoxHeader};
use crate::wire::{
    canonical_seq, lemma_rest_roundtrip, lemma_size_seq, lemma_size_seq_mono, parse_remaining, parse_rest,
    ser_seq, serialize_all, size_all, size_seq, views, writable_seq, IsoSized, Wire,
};

verus! {



/// The padding of two samples, held in one byte.
#[derive(Debug, Clone, Copy, PartialEq, Eq, Structural)]
pub struct PaddingBitsBoxEntry {
    /// The padding bits at the end of the first sample (3 bits).
    pub pad1: u8,
    /// The padding bits at the end of the second sample (3 bits).
    pub pad2: u8,
}

impl View for PaddingBitsBoxEntry {
    type V = PaddingBitsBoxEntry;

    open spec fn view(&self) -> PaddingBitsBoxEntry {
        *self
    }
}

/// The entry held in a byte: `0xxx 0xxx`.
pub open spec fn padb_from_byte(value: u8) -> PaddingBitsBoxEntry {
    PaddingBitsBoxEntry { pad1: (value >> 4u8) & 7, pad2: value & 7 }
}

/// The byte of an entry: the first field shifted to the high half, or-ed with the second.
pub open spec fn padb_to_byte(v: PaddingBitsBoxEntry) -> u8 {
    (v.pad1 << 4u8) | v.pad2
}

impl From<u8> for PaddingBitsBoxEntry {
    fn from(value: u8) -> (r: PaddingBitsBoxEntry) {
        PaddingBitsBoxEntry { pad1: (value >> 4u8) & 7, pad2: value & 7 }
    }
}

impl vstd::std_specs::convert::FromSpecImpl<u8> for PaddingBitsBoxEntry {
    open spec fn obeys_from_spec() -> bool {
        true
    }

    open spec fn from_spec(v: u8) -> PaddingBitsBoxEntry {
        padb_from_byte(v)
    }
}

impl From<PaddingBitsBoxEntry> for u8 {
    fn from(value: PaddingBitsBoxEntry) -> (r: u8) {
        (value.pad1 << 4u8) | value.pad2
    }
}

impl vstd::std_specs::convert::FromSpecImpl<PaddingBitsBoxEntry> for u8 {
    open spec fn obeys_from_spec() -> bool {
        true
    }

    open spec fn from_spec(v: PaddingBitsBoxEntry) -> u8 {
        padb_to_byte(v)
    }
}

/// An entry whose fields fit in 3 bits reads back from its byte.
pub proof fn lemma_padb_roundtrip(v: PaddingBitsBoxEntry)
    requires
        v.pad1 < 8,
        v.pad2 < 8,
    ensures
        padb_from_byte(padb_to_byte(v)) == v,
{
    let a = v.pad1;
    let b = v.pad2;
    let x = padb_to_byte(v);
    assert(((x >> 4u8) & 7) == a && (x & 7) == b) by (bit_vector)
        requires
            x == (a << 4u8) | b,
            a < 8,
            b < 8,
    ;
}

impl IsoSized for PaddingBitsBoxEntry {
    open spec fn spec_size(&self) -> nat {
        1
    }

    fn size(&self) -> (n: usize) {
        1
    }
}

impl Wire for PaddingBitsBoxEntry {
    open spec fn spec_parse(s: Seq<u8>) -> SpecParse<PaddingBitsBoxEntry> {
        if s.len() < 1 { Err(IsoError::UnexpectedEof) } else { Ok((padb_from_byte(s[0]), 1)) }
    }

    open spec fn spec_writable(v: PaddingBitsBoxEntry) -> bool {
        true
    }

    open spec fn spec_serialize(v: PaddingBitsBoxEntry) -> Seq<u8> {
        seq![padb_to_byte(v)]
    }

    open spec fn spec_canonical(v: PaddingBitsBoxEntry) -> bool {
        v.pad1 < 8 && v.pad2 < 8
    }

    proof fn lemma_parse_len(s: Seq<u8>) {
    }

    proof fn lemma_size(x: PaddingBitsBoxEntry) {
    }

    proof fn lemma_roundtrip(v: PaddingBitsBoxEntry, rest: Seq<u8>) {
        lemma_padb_roundtrip(v);
        assert((Self::spec_serialize(v) + rest)[0] == padb_to_byte(v));
    }

    fn parse(data: &[u8], pos: usize) -> (r: Result<(PaddingBitsBoxEntry, usize), IsoError>) {
        if pos >= data.len() {
            return Err(IsoError::UnexpectedEof);
        }
        Ok((PaddingBitsBoxEntry::from(data[pos]), pos + 1))
    }

    fn serialize(&self, out: &mut Vec<u8>) -> (r: Result<(), IsoError>) {
        let byte = u8::from(*self);
        proof {
            lemma_append_prefix(old(out)@, seq![byte]);
        }
        write_u8(out, byte);
        Ok(())
    }
}

/// An entry of the sample to chunk box.
#[derive(Debug, Clone, Copy, PartialEq, Eq, Structural)]
pub struct SampleToChunkBoxEntry {
    /// The index of the first chunk of the run of chunks.
    pub first_chunk: u32,
    /// The number of samples in each of these chunks.
    pub samples_per_chunk: u32,
    /// The index of the sample entry that describes the samples.
    pub sample_description_index: u32,
}

impl View for SampleToChunkBoxEntry {
    type V = SampleToChunkBoxEntry;

    open spec fn view(&self) -> SampleToChunkBoxEntry {
        *self
    }
}

impl IsoSized for SampleToChunkBoxEntry {
    open spec fn spec_size(&self) -> nat {
        12
    }

    fn size(&self) -> (n: usize) {
        12
    }
}

impl Wire for SampleToChunkBoxEntry {
    open spec fn spec_parse(s: Seq<u8>) -> SpecParse<SampleToChunkBoxEntry> {
        if s.len() < 12 {
            Err(IsoError::UnexpectedEof)
        } else {
            Ok((SampleToChunkBoxEntry {
                first_chunk: be_u32_at(s, 0),
                samples_per_chunk: be_u32_at(s, 4),
                sample_description_index: be_u32_at(s, 8),
            }, 12))
        }
    }

    open spec fn spec_writable(v: SampleToChunkBoxEntry) -> bool {
        true
    }

    open spec fn spec_serialize(v: SampleToChunkBoxEntry) -> Seq<u8> {
        u32_bytes(v.first_chunk) + u32_bytes(v.samples_per_chunk) + u32_bytes(v.sample_description_index)
    }

    open spec fn spec_canonical(v: SampleToChunkBoxEntry) -> bool {
        true
    }

    proof fn lemma_parse_len(s: Seq<u8>) {
    }

    proof fn lemma_size(x: SampleToChunkBoxEntry) {
    }

    proof fn lemma_roundtrip(v: SampleToChunkBoxEntry, rest: Seq<u8>) {
        let s = Self::spec_serialize(v) + rest;
        assert(s.subrange(0, 4) =~= u32_bytes(v.first_chunk));
        lemma_u32_at(s, 0, v.first_chunk);
        assert(s.subrange(4, 8) =~= u32_bytes(v.samples_per_chunk));
        lemma_u32_at(s, 4, v.samples_per_chunk);
        assert(s.subrange(8, 12) =~= u32_bytes(v.sample_description_index));
        lemma_u32_at(s, 8, v.sample_description_index);
    }

    fn parse(data: &[u8], pos: usize) -> (r: Result<(SampleToChunkBoxEntry, usize), IsoError>) {
        if data.len() - pos < 12 {
            return Err(IsoError::UnexpectedEof);
        }
        let d = &data[pos..data.len()];
        proof {
            assert(d@ =~= data@.skip(pos as int));
        }
        let first_chunk = read_u32_at(d, 0);
        let samples_per_chunk = read_u32_at(d, 4);
        let sample_description_index = read_u32_at(d, 8);
        Ok((SampleToChunkBoxEntry { first_chunk, samples_per_chunk, sample_description_index }, pos + 12))
    }

    fn serialize(&self, out: &mut Vec<u8>) -> (r: Result<(), IsoError>) {
        let ghost before = out@;
        write_u32(out, self.first_chunk);
        write_u32(out, self.samples_per_chunk);
        write_u32(out, self.sample_description_index);
        proof {
            assert(out@ =~= before + Self::spec_serialize(self@));
            lemma_append_prefix(before, Self::spec_serialize(self@));
        }
        Ok(())
    }
}

/// Sample to chunk box
///
/// ISO/IEC 14496-12 - 8.7.4
#[derive(Debug, PartialEq, Eq)]
pub struct SampleToChunkBox {
    /// The version and flags of the box.
    pub full_header: FullBoxHeader,
    /// The number of entries.
    pub entry_count: u32,
    /// The entries, to the end of the box.
    pub entries: Vec<SampleToChunkBoxEntry>,
}

/// The model of a [`SampleToChunkBox`].
pub struct SampleToChunkBoxModel {
    pub full_header: FullBoxHeader,
    pub entry_count: u32,
    pub entries: Seq<<SampleToChunkBoxEntry as View>::V>,
}

impl View for SampleToChunkBox {
    type V = SampleToChunkBoxModel;

    open spec fn view(&self) -> SampleToChunkBoxModel {
        SampleToChunkBoxModel {
            full_header: self.full_header,
            entry_count: self.entry_count,
            entries: views(self.entries@),
        }
    }
}

impl IsoSized for SampleToChunkBox {
    open spec fn spec_size(&self) -> nat {
        add_header_size(8 + size_seq::<SampleToChunkBoxEntry>(self.entries@))
    }

    fn size(&self) -> (n: usize) {
        proof {
            lemma_size_seq_mono::<SampleToChunkBoxEntry>(self.entries@, 0);
        }
        add_header_size_exec(8 + size_all(&self.entries))
    }
}

impl BoxBody for SampleToChunkBox {
    open spec fn spec_box_type() -> [u8; 4] {
        [0x73u8, 0x74u8, 0x73u8, 0x63u8]
    }

    fn box_type() -> (r: [u8; 4]) {
        [0x73u8, 0x74u8, 0x73u8, 0x63u8]
    }

    /// The header fields, then entries until the payload ends.
    open spec fn spec_parse_body(s: Seq<u8>) -> Result<SampleToChunkBoxModel, IsoError> {
        if s.len() < 8 {
            Err(IsoError::UnexpectedEof)
        } else {
            match parse_rest::<SampleToChunkBoxEntry>(s.skip(8)) {
                Ok((items, _)) => Ok(
                    SampleToChunkBoxModel {
                        full_header: FullBoxHeader { version: s[0], flags: be_u24_at(s, 1) },
                        entry_count: be_u32_at(s, 4),
                        entries: items,
                    },
                ),
                Err(e) => Err(e),
            }
        }
    }

    open spec fn spec_writable(v: SampleToChunkBoxModel) -> bool {
        true
    }

    open spec fn spec_serialize_body(v: SampleToChunkBoxModel) -> Seq<u8> {
        seq![v.full_header.version] + u24_bytes(v.full_header.flags) + u32_bytes(v.entry_count) + ser_seq::<SampleToChunkBoxEntry>(v.entries)
    }

    open spec fn spec_canonical(v: SampleToChunkBoxModel) -> bool {
        v.full_header.flags < 0x100_0000 && canonical_seq::<SampleToChunkBoxEntry>(v.entries)
    }

    proof fn lemma_box_type() {
        assert(Self::spec_box_type()[0] != spec_uuid_fourcc()[0] || Self::spec_box_type()[1] != spec_uuid_fourcc()[1]);
    }

    proof fn lemma_body_size(x: SampleToChunkBox) {
        assert(writable_seq::<SampleToChunkBoxEntry>(views(x.entries@)));
        lemma_size_seq::<SampleToChunkBoxEntry>(x.entries@);
    }

    proof fn lemma_body_roundtrip(v: SampleToChunkBoxModel) {
        let s = Self::spec_serialize_body(v);
        assert(s.subrange(1, 4) =~= u24_bytes(v.full_header.flags));
        lemma_u24_at(s, 1, v.full_header.flags);
        assert(s.subrange(4, 8) =~= u32_bytes(v.entry_count));
        lemma_u32_at(s, 4, v.entry_count);
        assert(s.skip(8) =~= ser_seq::<SampleToChunkBoxEntry>(v.entries));
        assert(writable_seq::<SampleToChunkBoxEntry>(v.entries));
        lemma_rest_roundtrip::<SampleToChunkBoxEntry>(v.entries);
    }

    fn parse_body(d: &[u8]) -> (r: Result<SampleToChunkBox, IsoError>) {
        if d.len() < 8 {
            return Err(IsoError::UnexpectedEof);
        }
        let full_header = FullBoxHeader { version: d[0], flags: read_u24_at(d, 1) };
        let entry_count = read_u32_at(d, 4);
        let (entries, _end) = parse_remaining::<SampleToChunkBoxEntry>(d, 8)?;
        Ok(SampleToChunkBox { full_header, entry_count, entries })
    }

    fn serialize_body(&self, out: &mut Vec<u8>) -> (r: Result<(), IsoError>) {
        let ghost before = out@;
        write_u8(out, self.full_header.version);
        write_u24(out, self.full_header.flags);
        write_u32(out, self.entry_count);
        let _ = serialize_all(&self.entries, out);
        proof {
            assert(out@ =~= before + Self::spec_serialize_body(self@));
            lemma_append_prefix(before, Self::spec_serialize_body(self@));
        }
        Ok(())
    }
}

/// Chunk offset box
///
/// ISO/IEC 14496-12 - 8.7.5
#[derive(Debug, PartialEq, Eq)]
pub struct ChunkOffsetBox {
    /// The version and flags of the box.
    pub full_header: FullBoxHeader,
    /// The number of entries.
    pub entry_count: u32,
    /// The offsets of the chunks in the file, to the end of the box.
    pub chunk_offset: Vec<u32>,
}

/// The model of a [`ChunkOffsetBox`].
pub struct ChunkOffsetBoxModel {
    pub full_header: FullBoxHeader,
    pub entry_count: u32,
    pub chunk_offset: Seq<<u32 as View>::V>,
}

impl View for ChunkOffsetBox {
    type V = ChunkOffsetBoxModel;

    open spec fn view(&self) -> ChunkOffsetBoxModel {
        ChunkOffsetBoxModel {
            full_header: self.full_header,
            entry_count: self.entry_count,
            chunk_offset: views(self.chunk_offset@),
        }
    }
}

impl IsoSized for ChunkOffsetBox {
    open spec fn spec_size(&self) -> nat {
        add_header_size(8 + size_seq::<u32>(self.chunk_offset@))
    }

    fn size(&self) -> (n: usize) {
        proof {
            lemma_size_seq_mono::<u32>(self.chunk_offset@, 0);
        }
        add_header_size_exec(8 + size_all(&self.chunk_offset))
    }
}

impl BoxBody for ChunkOffsetBox {
    open spec fn spec_box_type() -> [u8; 4] {
        [0x73u8, 0x74u8, 0x63u8, 0x6fu8]
    }

    fn box_type() -> (r: [u8; 4]) {
        [0x73u8, 0x74u8, 0x63u8, 0x6fu8]
    }

    /// The header fields, then entries until the payload ends.
    open spec fn spec_parse_body(s: Seq<u8>) -> Result<ChunkOffsetBoxModel, IsoError> {
        if s.len() < 8 {
            Err(IsoError::UnexpectedEof)
        } else {
            match parse_rest::<u32>(s.skip(8)) {
                Ok((items, _)) => Ok(
                    ChunkOffsetBoxModel {
                        full_header: FullBoxHeader { version: s[0], flags: be_u24_at(s, 1) },
                        entry_count: be_u32_at(s, 4),
                        chunk_offset: items,
                    },
                ),
                Err(e) => Err(e),
            }
        }
    }

    open spec fn spec_writable(v: ChunkOffsetBoxModel) -> bool {
        true
    }

    open spec fn spec_serialize_body(v: ChunkOffsetBoxModel) -> Seq<u8> {
        seq![v.full_header.version] + u24_bytes(v.full_header.flags) + u32_bytes(v.entry_count) + ser_seq::<u32>(v.chunk_offset)
    }

    open spec fn spec_canonical(v: ChunkOffsetBoxModel) -> bool {
        v.full_header.flags < 0x100_0000 && canonical_seq::<u32>(v.chunk_offset)
    }

    proof fn lemma_box_type() {
        assert(Self::spec_box_type()[0] != spec_uuid_fourcc()[0] || Self::spec_box_type()[1] != spec_uuid_fourcc()[1]);
    }

    proof fn lemma_body_size(x: ChunkOffsetBox) {
        assert(writable_seq::<u32>(views(x.chunk_offset@)));
        lemma_size_seq::<u32>(x.chunk_offset@);
    }

    proof fn lemma_body_roundtrip(v: ChunkOffsetBoxModel) {
        let s = Self::spec_serialize_body(v);
        assert(s.subrange(1, 4) =~= u24_bytes(v.full_header.flags));
        lemma_u24_at(s, 1, v.full_header.flags);
        assert(s.subrange(4, 8) =~= u32_bytes(v.entry_count));
        lemma_u32_at(s, 4, v.entry_count);
        assert(s.skip(8) =~= ser_seq::<u32>(v.chunk_offset));
        assert(writable_seq::<u32>(v.chunk_offset));
        lemma_rest_roundtrip::<u32>(v.chunk_offset);
    }

    fn parse_body(d: &[u8]) -> (r: Result<ChunkOffsetBox, IsoError>) {
        if d.len() < 8 {
            return Err(IsoError::UnexpectedEof);
        }
        let full_header = FullBoxHeader { version: d[0], flags: read_u24_at(d, 1) };
        let entry_count = read_u32_at(d, 4);
        let (chunk_offset, _end) = parse_remaining::<u32>(d, 8)?;
        Ok(ChunkOffsetBox { full_header, entry_count, chunk_offset })
    }

    fn serialize_body(&self, out: &mut Vec<u8>) -> (r: Result<(), IsoError>) {
        let ghost before = out@;
        write_u8(out, self.full_header.version);
        write_u24(out, self.full_header.flags);
        write_u32(out, self.entry_count);
        let _ = serialize_all(&self.chunk_offset, out);
        proof {
            assert(out@ =~= before + Self::spec_serialize_body(self@));
            lemma_append_prefix(before, Self::spec_serialize_body(self@));
        }
        Ok(())
    }
}

/// Chunk large offset box
///
/// ISO/IEC 14496-12 - 8.7.5
#[derive(Debug, PartialEq, Eq)]
pub struct ChunkLargeOffsetBox {
    /// The version and flags of the box.
    pub full_header: FullBoxHeader,
    /// The number of entries.
    pub entry_count: u32,
    /// The 64-bit offsets of the chunks in the file, to the end of the box.
    pub chunk_offset: Vec<u64>,
}

/// The model of a [`ChunkLargeOffsetBox`].
pub struct ChunkLargeOffsetBoxModel {
    pub full_header: FullBoxHeader,
    pub entry_count: u32,
    pub chunk_offset: Seq<<u64 as View>::V>,
}

impl View for ChunkLargeOffsetBox {
    type V = ChunkLargeOffsetBoxModel;

    open spec fn view(&self) -> ChunkLargeOffsetBoxModel {
        ChunkLargeOffsetBoxModel {
            full_header: self.full_header,
            entry_count: self.entry_count,
            chunk_offset: views(self.chunk_offset@),
        }
    }
}

impl IsoSized for ChunkLargeOffsetBox {
    open spec fn spec_size(&self) -> nat {
        add_header_size(8 + size_seq::<u64>(self.chunk_offset@))
    }

    fn size(&self) -> (n: usize) {
        proof {
            lemma_size_seq_mono::<u64>(self.chunk_offset@, 0);
        }
        add_header_size_exec(8 + size_all(&self.chunk_offset))
    }
}

impl BoxBody for ChunkLargeOffsetBox {
    open spec fn spec_box_type() -> [u8; 4] {
        [0x63u8, 0x6fu8, 0x36u8, 0x34u8]
    }

    fn box_type() -> (r: [u8; 4]) {
        [0x63u8, 0x6fu8, 0x36u8, 0x34u8]
    }

    /// The header fields, then entries until the payload ends.
    open spec fn spec_parse_body(s: Seq<u8>) -> Result<ChunkLargeOffsetBoxModel, IsoError> {
        if s.len() < 8 {
            Err(IsoError::UnexpectedEof)
        } else {
            match parse_rest::<u64>(s.skip(8)) {
                Ok((items, _)) => Ok(
                    ChunkLargeOffsetBoxModel {
                        full_header: FullBoxHeader { version: s[0], flags: be_u24_at(s, 1) },
                        entry_count: be_u32_at(s, 4),
                        chunk_offset: items,
                    },
                ),
                Err(e) => Err(e),
            }
        }
    }

    open spec fn spec_writable(v: ChunkLargeOffsetBoxModel) -> bool {
        true
    }

    open spec fn spec_serialize_body(v: ChunkLargeOffsetBoxModel) -> Seq<u8> {
        seq![v.full_header.version] + u24_bytes(v.full_header.flags) + u32_bytes(v.entry_count) + ser_seq::<u64>(v.chunk_offset)
    }

    open spec fn spec_canonical(v: ChunkLargeOffsetBoxModel) -> bool {
        v.full_header.flags < 0x100_0000 && canonical_seq::<u64>(v.chunk_offset)
    }

    proof fn lemma_box_type() {
        assert(Self::spec_box_type()[0] != spec_uuid_fourcc()[0] || Self::spec_box_type()[1] != spec_uuid_fourcc()[1]);
    }

    proof fn lemma_body_size(x: ChunkLargeOffsetBox) {
        assert(writable_seq::<u64>(views(x.chunk_offset@)));
        lemma_size_seq::<u64>(x.chunk_offset@);
    }

    proof fn lemma_body_roundtrip(v: ChunkLargeOffsetBoxModel) {
        let s = Self::spec_serialize_body(v);
        assert(s.subrange(1, 4) =~= u24_bytes(v.full_header.flags));
        lemma_u24_at(s, 1, v.full_header.flags);
        assert(s.subrange(4, 8) =~= u32_bytes(v.entry_count));
        lemma_u32_at(s, 4, v.entry_count);
        assert(s.skip(8) =~= ser_seq::<u64>(v.chunk_offset));
        assert(writable_seq::<u64>(v.chunk_offset));
        lemma_rest_roundtrip::<u64>(v.chunk_offset);
    }

    fn parse_body(d: &[u8]) -> (r: Result<ChunkLargeOffsetBox, IsoError>) {
        if d.len() < 8 {
            return Err(IsoError::UnexpectedEof);
        }
        let full_header = FullBoxHeader { version: d[0], flags: read_u24_at(d, 1) };
        let entry_count = read_u32_at(d, 4);
        let (chunk_offset, _end) = parse_remaining::<u64>(d, 8)?;
        Ok(ChunkLargeOffsetBox { full_header, entry_count, chunk_offset })
    }

    fn serialize_body(&self, out: &mut Vec<u8>) -> (r: Result<(), IsoError>) {
        let ghost before = out@;
        write_u8(out, self.full_header.version);
        write_u24(out, self.full_header.flags);
        write_u32(out, self.entry_count);
        let _ = serialize_all(&self.chunk_offset, out);
        proof {
            assert(out@ =~= before + Self::spec_serialize_body(self@));
            lemma_append_prefix(before, Self::spec_serialize_body(self@));
        }
        Ok(())
    }
}

/// Padding bits box
///
/// ISO/IEC 14496-12 - 8.7.6
#[derive(Debug, PartialEq, Eq)]
pub struct PaddingBitsBox {
    /// The version and flags of the box.
    pub full_header: FullBoxHeader,
    /// The number of samples.
    pub sample_count: u32,
    /// The padding of the samples, two to an entry, to the end of the box.
    pub entry: Vec<PaddingBitsBoxEntry>,
}

/// The model of a [`PaddingBitsBox`].
pub struct PaddingBitsBoxModel {
    pub full_header: FullBoxHeader,
    pub sample_count: u32,
    pub entry: Seq<<PaddingBitsBoxEntry as View>::V>,
}

impl View for PaddingBitsBox {
    type V = PaddingBitsBoxModel;

    open spec fn view(&self) -> PaddingBitsBoxModel {
        PaddingBitsBoxModel {
            full_header: self.full_header,
            sample_count: self.sample_count,
            entry: views(self.entry@),
        }
    }
}

impl IsoSized for PaddingBitsBox {
    open spec fn spec_size(&self) -> nat {
        add_header_size(8 + size_seq::<PaddingBitsBoxEntry>(self.entry@))
    }

    fn size(&self) -> (n: usize) {
        proof {
            lemma_size_seq_mono::<PaddingBitsBoxEntry>(self.entry@, 0);
        }
        add_header_size_exec(8 + size_all(&self.entry))
    }
}

impl BoxBody for PaddingBitsBox {
    open spec fn spec_box_type() -> [u8; 4] {
        [0x70u8, 0x61u8, 0x64u8, 0x62u8]
    }

    fn box_type() -> (r: [u8; 4]) {
        [0x70u8, 0x61u8, 0x64u8, 0x62u8]
    }

    /// The header fields, then entries until the payload ends.
    open spec fn spec_parse_body(s: Seq<u8>) -> Result<PaddingBitsBoxModel, IsoError> {
        if s.len() < 8 {
            Err(IsoError::UnexpectedEof)
        } else {
            match parse_rest::<PaddingBitsBoxEntry>(s.skip(8)) {
                Ok((items, _)) => Ok(
                    PaddingBitsBoxModel {
                        full_header: FullBoxHeader { version: s[0], flags: be_u24_at(s, 1) },
                        sample_count: be_u32_at(s, 4),
                        entry: items,
                    },
                ),
                Err(e) => Err(e),
            }
        }
    }

    open spec fn spec_writable(v: PaddingBitsBoxModel) -> bool {
        true
    }

    open spec fn spec_serialize_body(v: PaddingBitsBoxModel) -> Seq<u8> {
        seq![v.full_header.version] + u24_bytes(v.full_header.flags) + u32_bytes(v.sample_count) + ser_seq::<PaddingBitsBoxEntry>(v.entry)
    }

    open spec fn spec_canonical(v: PaddingBitsBoxModel) -> bool {
        v.full_header.flags < 0x100_0000 && canonical_seq::<PaddingBitsBoxEntry>(v.entry)
    }

    proof fn lemma_box_type() {
        assert(Self::spec_box_type()[0] != spec_uuid_fourcc()[0] || Self::spec_box_type()[1] != spec_uuid_fourcc()[1]);
    }

    proof fn lemma_body_size(x: PaddingBitsBox) {
        assert(writable_seq::<PaddingBitsBoxEntry>(views(x.entry@)));
        lemma_size_seq::<PaddingBitsBoxEntry>(x.entry@);
    }

    proof fn lemma_body_roundtrip(v: PaddingBitsBoxModel) {
        let s = Self::spec_serialize_body(v);
        assert(s.subrange(1, 4) =~= u24_bytes(v.full_header.flags));
        lemma_u24_at(s, 1, v.full_header.flags);
        assert(s.subrange(4, 8) =~= u32_bytes(v.sample_count));
        lemma_u32_at(s, 4, v.sample_count);
        assert(s.skip(8) =~= ser_seq::<PaddingBitsBoxEntry>(v.entry));
        assert(writable_seq::<PaddingBitsBoxEntry>(v.entry));
        lemma_rest_roundtrip::<PaddingBitsBoxEntry>(v.entry);
    }

    fn parse_body(d: &[u8]) -> (r: Result<PaddingBitsBox, IsoError>) {
        if d.len() < 8 {
            return Err(IsoError::UnexpectedEof);
        }
        let full_header = FullBoxHeader { version: d[0], flags: read_u24_at(d, 1) };
        let sample_count = read_u32_at(d, 4);
        let (entry, _end) = parse_remaining::<PaddingBitsBoxEntry>(d, 8)?;
        Ok(PaddingBitsBox { full_header, sample_count, entry })
    }

    fn serialize_body(&self, out: &mut Vec<u8>) -> (r: Result<(), IsoError>) {
        let ghost before = out@;
        write_u8(out, self.full_header.version);
        write_u24(out, self.full_header.flags);
        write_u32(out, self.sample_count);
        let _ = serialize_all(&self.entry, out);
        proof {
            assert(out@ =~= before + Self::spec_serialize_body(self@));
            lemma_append_prefix(before, Self::spec_serialize_body(self@));
        }
        Ok(())
    }
}

/// Data entry that refers to an identified media data box
///
/// ISO/IEC 14496-12 - 8.7.2
#[derive(Debug, Clone, Copy, PartialEq, Eq, Structural)]
pub struct DataEntryImdaBox {
    /// The version and flags of the box.
    pub full_header: FullBoxHeader,
    /// The identifier of the identified media data box.
    pub imda_ref_identifier: u32,
}

impl View for DataEntryImdaBox {
    type V = DataEntryImdaBox;

    open spec fn view(&self) -> DataEntryImdaBox {
        *self
    }
}

impl IsoSized for DataEntryImdaBox {
    open spec fn spec_size(&self) -> nat {
        add_header_size(8)
    }

    fn size(&self) -> (n: usize) {
        add_header_size_exec(8)
    }
}

impl BoxBody for DataEntryImdaBox {
    open spec fn spec_box_type() -> [u8; 4] {
        [0x69u8, 0x6du8, 0x64u8, 0x74u8]
    }

    fn box_type() -> (r: [u8; 4]) {
        [0x69u8, 0x6du8, 0x64u8, 0x74u8]
    }

    open spec fn spec_parse_body(s: Seq<u8>) -> Result<DataEntryImdaBox, IsoError> {
        if s.len() < 8 {
            Err(IsoError::UnexpectedEof)
        } else {
            Ok(DataEntryImdaBox {
                full_header: FullBoxHeader { version: s[0], flags: be_u24_at(s, 1) },
                imda_ref_identifier: be_u32_at(s, 4),
            })
        }
    }

    open spec fn spec_writable(v: DataEntryImdaBox) -> bool {
        true
    }

    open spec fn spec_serialize_body(v: DataEntryImdaBox) -> Seq<u8> {
        seq![v.full_header.version] + u24_bytes(v.full_header.flags) + u32_bytes(v.imda_ref_identifier)
    }

    open spec fn spec_canonical(v: DataEntryImdaBox) -> bool {
        v.full_header.flags < 0x100_0000
    }

    proof fn lemma_box_type() {
        assert(Self::spec_box_type()[0] != spec_uuid_fourcc()[0] || Self::spec_box_type()[1] != spec_uuid_fourcc()[1]);
    }

    proof fn lemma_body_size(x: DataEntryImdaBox) {
    }

    proof fn lemma_body_roundtrip(v: DataEntryImdaBox) {
        let s = Self::spec_serialize_body(v);
        assert(s[0] == v.full_header.version);
        assert(s.subrange(1, 4) =~= u24_bytes(v.full_header.flags));
        lemma_u24_at(s, 1, v.full_header.flags);
        assert(s.subrange(4, 8) =~= u32_bytes(v.imda_ref_identifier));
        lemma_u32_at(s, 4, v.imda_ref_identifier);
    }

    fn parse_body(d: &[u8]) -> (r: Result<DataEntryImdaBox, IsoError>) {
        if d.len() < 8 {
            return Err(IsoError::UnexpectedEof);
        }
        let full_header = FullBoxHeader { version: d[0], flags: read_u24_at(d, 1) };
        let imda_ref_identifier = read_u32_at(d, 4);
        Ok(DataEntryImdaBox { full_header, imda_ref_identifier })
    }

    fn serialize_body(&self, out: &mut Vec<u8>) -> (r: Result<(), IsoError>) {
        let ghost before = out@;
        write_u8(out, self.full_header.version);
        write_u24(out, self.full_header.flags);
        write_u32(out, self.imda_ref_identifier);
        proof {
            assert(out@ =~= before + Self::spec_serialize_body(self@));
            lemma_append_prefix(before, Self::spec_serialize_body(self@));
        }
        Ok(())
    }
}

/// Data entry that refers to identified media data boxes by sequence number
///
/// ISO/IEC 14496-12 - 8.7.2
#[derive(Debug, Clone, Copy, PartialEq, Eq, Structural)]
pub struct DataEntrySeqNumImdaBox {
    /// The version and flags of the box.
    pub full_header: FullBoxHeader,
}

impl View for DataEntrySeqNumImdaBox {
    type V = DataEntrySeqNumImdaBox;

    open spec fn view(&self) -> DataEntrySeqNumImdaBox {
        *self
    }
}

impl IsoSized for DataEntrySeqNumImdaBox {
    open spec fn spec_size(&self) -> nat {
        add_header_size(4)
    }

    fn size(&self) -> (n: usize) {
        add_header_size_exec(4)
    }
}

impl BoxBody for DataEntrySeqNumImdaBox {
    open spec fn spec_box_type() -> [u8; 4] {
        [0x73u8, 0x6eu8, 0x69u8, 0x6du8]
    }

    fn box_type() -> (r: [u8; 4]) {
        [0x73u8, 0x6eu8, 0x69u8, 0x6du8]
    }

    open spec fn spec_parse_body(s: Seq<u8>) -> Result<DataEntrySeqNumImdaBox, IsoError> {
        if s.len() < 4 {
            Err(IsoError::UnexpectedEof)
        } else {
            Ok(DataEntrySeqNumImdaBox {
                full_header: FullBoxHeader { version: s[0], flags: be_u24_at(s, 1) },
            })
        }
    }

    open spec fn spec_writable(v: DataEntrySeqNumImdaBox) -> bool {
        true
    }

    open spec fn spec_serialize_body(v: DataEntrySeqNumImdaBox) -> Seq<u8> {
        seq![v.full_header.version] + u24_bytes(v.full_header.flags)
    }

    open spec fn spec_canonical(v: DataEntrySeqNumImdaBox) -> bool {
        v.full_header.flags < 0x100_0000
    }

    proof fn lemma_box_type() {
        assert(Self::spec_box_type()[0] != spec_uuid_fourcc()[0] || Self::spec_box_type()[1] != spec_uuid_fourcc()[1]);
    }

    proof fn lemma_body_size(x: DataEntrySeqNumImdaBox) {
    }

    proof fn lemma_body_roundtrip(v: DataEntrySeqNumImdaBox) {
        let s = Self::spec_serialize_body(v);
        assert(s[0] == v.full_header.version);
        assert(s.subrange(1, 4) =~= u24_bytes(v.full_header.flags));
        lemma_u24_at(s, 1, v.full_header.flags);
    }

    fn parse_body(d: &[u8]) -> (r: Result<DataEntrySeqNumImdaBox, IsoError>) {
        if d.len() < 4 {
            return Err(IsoError::UnexpectedEof);
        }
        let full_header = FullBoxHeader { version: d[0], flags: read_u24_at(d, 1) };
        Ok(DataEntrySeqNumImdaBox { full_header })
    }

    fn serialize_body(&self, out: &mut Vec<u8>) -> (r: Result<(), IsoError>) {
        let ghost before = out@;
        write_u8(out, self.full_header.version);
        write_u24(out, self.full_header.flags);
        proof {
            assert(out@ =~= before + Self::spec_serialize_body(self@));
            lemma_append_prefix(before, Self::spec_serialize_body(self@));
        }
        Ok(())
    }
}


/// Reading an optional string that runs to its zero byte: none where the input ends
/// before one.
pub open spec fn opt_string_parse(s: Seq<u8>) -> Result<Option<Seq<char>>, IsoError> {
    match Utf8String::spec_parse(s) {
        Ok((u, _)) => Ok(Some(u)),
        Err(IsoError::UnexpectedEof) => Ok(None),
        Err(e) => Err(e),
    }
}

/// The bytes of an optional string.
pub open spec fn opt_string_bytes(v: Option<Seq<char>>) -> Seq<u8> {
    match v {
        Some(u) => Utf8String::spec_serialize(u),
        None => Seq::empty(),
    }
}

/// An optional string that reads back as itself: it holds no zero byte.
pub open spec fn opt_string_canonical(v: Option<Seq<char>>) -> bool {
    v matches Some(u) ==> Utf8String::spec_canonical(u)
}

/// The view of an optional string.
pub open spec fn opt_string_view(v: Option<Utf8String>) -> Option<Seq<char>> {
    match v {
        Some(u) => Some(u@),
        None => None,
    }
}

/// The size of an optional string.
pub open spec fn opt_string_size(v: Option<Utf8String>) -> nat {
    match v {
        Some(u) => u.spec_size(),
        None => 0,
    }
}

pub proof fn lemma_opt_string_roundtrip(v: Option<Seq<char>>)
    requires
        opt_string_canonical(v),
    ensures
        opt_string_parse(opt_string_bytes(v)) == Ok::<Option<Seq<char>>, IsoError>(v),
{
    match v {
        Some(u) => {
            assert(Utf8String::spec_serialize(u) + Seq::<u8>::empty() =~= Utf8String::spec_serialize(u));
            Utf8String::lemma_roundtrip(u, Seq::<u8>::empty());
        },
        None => {
            Utf8String::lemma_parse_len(Seq::<u8>::empty());
        },
    }
}

pub proof fn lemma_opt_string_size(v: Option<Utf8String>)
    ensures
        opt_string_bytes(opt_string_view(v)).len() == opt_string_size(v),
{
    if let Some(u) = v {
        Utf8String::lemma_size(u);
    }
}

/// Reads an optional string at `pos` that runs to its zero byte.
pub fn parse_opt_string(data: &[u8], pos: usize) -> (r: Result<Option<Utf8String>, IsoError>)
    requires
        pos <= data@.len(),
    ensures
        match (opt_string_parse(data@.skip(pos as int)), r) {
            (Ok(v), Ok(x)) => opt_string_view(x) == v,
            (Err(e), Err(f)) => e == f,
            _ => false,
        },
{
    match Utf8String::parse(data, pos) {
        Ok((u, _p)) => Ok(Some(u)),
        Err(IsoError::UnexpectedEof) => Ok(None),
        Err(e) => Err(e),
    }
}

/// Writes an optional string.
pub fn write_opt_string(out: &mut Vec<u8>, v: &Option<Utf8String>)
    ensures
        final(out)@ == old(out)@ + opt_string_bytes(opt_string_view(*v)),
{
    let ghost before = out@;
    match v {
        Some(u) => {
            let _ = u.serialize(out);
        },
        None => {},
    }
    assert(out@ =~= before + opt_string_bytes(opt_string_view(*v)));
}

/// Data entry URL box
///
/// ISO/IEC 14496-12 - 8.7.2
#[derive(Debug)]
pub struct DataEntryUrlBox {
    /// The full box header; flag 1 says that the media is in the same file.
    pub full_header: FullBoxHeader,
    /// The location of the media, absent where it is in the same file.
    pub location: Option<Utf8String>,
}

/// The model of a [`DataEntryUrlBox`].
pub struct DataEntryUrlBoxModel {
    pub full_header: FullBoxHeader,
    pub location: Option<Seq<char>>,
}

impl View for DataEntryUrlBox {
    type V = DataEntryUrlBoxModel;

    open spec fn view(&self) -> DataEntryUrlBoxModel {
        DataEntryUrlBoxModel { full_header: self.full_header, location: opt_string_view(self.location) }
    }
}

impl IsoSized for DataEntryUrlBox {
    open spec fn spec_size(&self) -> nat {
        add_header_size(4 + opt_string_size(self.location))
    }

    fn size(&self) -> (n: usize) {
        let l = match &self.location {
            Some(u) => u.size(),
            None => 0,
        };
        add_header_size_exec(4 + l)
    }
}

impl BoxBody for DataEntryUrlBox {
    open spec fn spec_box_type() -> [u8; 4] {
        [0x75u8, 0x72u8, 0x6cu8, 0x20u8]
    }

    fn box_type() -> (r: [u8; 4]) {
        [0x75u8, 0x72u8, 0x6cu8, 0x20u8]
    }

    /// The full header, then the location where a terminated string follows.
    open spec fn spec_parse_body(s: Seq<u8>) -> Result<DataEntryUrlBoxModel, IsoError> {
        if s.len() < 4 {
            Err(IsoError::UnexpectedEof)
        } else {
            match opt_string_parse(s.skip(4)) {
                Ok(l) => Ok(DataEntryUrlBoxModel { full_header: FullBoxHeader { version: s[0], flags: be_u24_at(s, 1) }, location: l }),
                Err(e) => Err(e),
            }
        }
    }

    open spec fn spec_writable(v: DataEntryUrlBoxModel) -> bool {
        true
    }

    open spec fn spec_serialize_body(v: DataEntryUrlBoxModel) -> Seq<u8> {
        seq![v.full_header.version] + u24_bytes(v.full_header.flags) + opt_string_bytes(v.location)
    }

    open spec fn spec_canonical(v: DataEntryUrlBoxModel) -> bool {
        v.full_header.flags < 0x100_0000 && opt_string_canonical(v.location)
    }

    proof fn lemma_box_type() {
        assert(Self::spec_box_type()[1] != spec_uuid_fourcc()[1]);
    }

    proof fn lemma_body_size(x: DataEntryUrlBox) {
        lemma_opt_string_size(x.location);
    }

    proof fn lemma_body_roundtrip(v: DataEntryUrlBoxModel) {
        let s = Self::spec_serialize_body(v);
        assert(s.subrange(1, 4) =~= u24_bytes(v.full_header.flags));
        lemma_u24_at(s, 1, v.full_header.flags);
        assert(s.skip(4) =~= opt_string_bytes(v.location));
        lemma_opt_string_roundtrip(v.location);
    }

    fn parse_body(d: &[u8]) -> (r: Result<DataEntryUrlBox, IsoError>) {
        if d.len() < 4 {
            return Err(IsoError::UnexpectedEof);
        }
        let location = parse_opt_string(d, 4)?;
        Ok(DataEntryUrlBox { full_header: FullBoxHeader { version: d[0], flags: read_u24_at(d, 1) }, location })
    }

    fn serialize_body(&self, out: &mut Vec<u8>) -> (r: Result<(), IsoError>) {
        let ghost before = out@;
        write_u8(out, self.full_header.version);
        write_u24(out, self.full_header.flags);
        write_opt_string(out, &self.location);
        proof {
            assert(out@ =~= before + Self::spec_serialize_body(self@));
            lemma_append_prefix(before, Self::spec_serialize_body(self@));
        }
        Ok(())
    }
}

/// Data entry URN box
///
/// ISO/IEC 14496-12 - 8.7.2
#[derive(Debug)]
pub struct DataEntryUrnBox {
    /// The full box header.
    pub full_header: FullBoxHeader,
    /// The name of the media.
    pub name: Utf8String,
    /// The location of the media, where given.
    pub location: Option<Utf8String>,
}

/// The model of a [`DataEntryUrnBox`].
pub struct DataEntryUrnBoxModel {
    pub full_header: FullBoxHeader,
    pub name: Seq<char>,
    pub location: Option<Seq<char>>,
}

impl View for DataEntryUrnBox {
    type V = DataEntryUrnBoxModel;

    open spec fn view(&self) -> DataEntryUrnBoxModel {
        DataEntryUrnBoxModel {
            full_header: self.full_header,
            name: self.name@,
            location: opt_string_view(self.location),
        }
    }
}

impl IsoSized for DataEntryUrnBox {
    open spec fn spec_size(&self) -> nat {
        add_header_size(4 + self.name.spec_size() + opt_string_size(self.location))
    }

    fn size(&self) -> (n: usize) {
        let l = match &self.location {
            Some(u) => u.size(),
            None => 0,
        };
        add_header_size_exec(4 + self.name.size() + l)
    }
}

impl BoxBody for DataEntryUrnBox {
    open spec fn spec_box_type() -> [u8; 4] {
        [0x75u8, 0x72u8, 0x6eu8, 0x20u8]
    }

    fn box_type() -> (r: [u8; 4]) {
        [0x75u8, 0x72u8, 0x6eu8, 0x20u8]
    }

    /// The full header, the name, then the location where a terminated string follows.
    open spec fn spec_parse_body(s: Seq<u8>) -> Result<DataEntryUrnBoxModel, IsoError> {
        if s.len() < 4 {
            Err(IsoError::UnexpectedEof)
        } else {
            match Utf8String::spec_parse(s.skip(4)) {
                Ok((name, n)) => match opt_string_parse(s.skip(4 + n)) {
                    Ok(l) => Ok(
                        DataEntryUrnBoxModel {
                            full_header: FullBoxHeader { version: s[0], flags: be_u24_at(s, 1) },
                            name,
                            location: l,
                        },
                    ),
                    Err(e) => Err(e),
                },
                Err(e) => Err(e),
            }
        }
    }

    open spec fn spec_writable(v: DataEntryUrnBoxModel) -> bool {
        true
    }

    open spec fn spec_serialize_body(v: DataEntryUrnBoxModel) -> Seq<u8> {
        seq![v.full_header.version] + u24_bytes(v.full_header.flags) + Utf8String::spec_serialize(v.name)
            + opt_string_bytes(v.location)
    }

    open spec fn spec_canonical(v: DataEntryUrnBoxModel) -> bool {
        v.full_header.flags < 0x100_0000 && Utf8String::spec_canonical(v.name) && opt_string_canonical(v.location)
    }

    proof fn lemma_box_type() {
        assert(Self::spec_box_type()[1] != spec_uuid_fourcc()[1]);
    }

    proof fn lemma_body_size(x: DataEntryUrnBox) {
        Utf8String::lemma_size(x.name);
        lemma_opt_string_size(x.location);
    }

    proof fn lemma_body_roundtrip(v: DataEntryUrnBoxModel) {
        let s = Self::spec_serialize_body(v);
        let name = Utf8String::spec_serialize(v.name);
        assert(s.subrange(1, 4) =~= u24_bytes(v.full_header.flags));
        lemma_u24_at(s, 1, v.full_header.flags);
        assert(s.skip(4) =~= name + opt_string_bytes(v.location));
        Utf8String::lemma_roundtrip(v.name, opt_string_bytes(v.location));
        assert(s.skip(4 + name.len() as int) =~= opt_string_bytes(v.location));
        lemma_opt_string_roundtrip(v.location);
    }

    fn parse_body(d: &[u8]) -> (r: Result<DataEntryUrnBox, IsoError>) {
        if d.len() < 4 {
            return Err(IsoError::UnexpectedEof);
        }
        let (name, p) = Utf8String::parse(d, 4)?;
        proof {
            Utf8String::lemma_parse_len(d@.skip(4));
            assert(d@.skip(4).skip(p - 4) =~= d@.skip(p as int));
        }
        let location = parse_opt_string(d, p)?;
        Ok(DataEntryUrnBox { full_header: FullBoxHeader { version: d[0], flags: read_u24_at(d, 1) }, name, location })
    }

    fn serialize_body(&self, out: &mut Vec<u8>) -> (r: Result<(), IsoError>) {
        let ghost before = out@;
        write_u8(out, self.full_header.version);
        write_u24(out, self.full_header.flags);
        let _ = self.name.serialize(out);
        write_opt_string(out, &self.location);
        proof {
            assert(out@ =~= before + Self::spec_serialize_body(self@));
            lemma_append_prefix(before, Self::spec_serialize_body(self@));
        }
        Ok(())
    }
}

/// Sample size box
///
/// `stsz`
///
/// ISO/IEC 14496-12 - 8.7.3.2
#[derive(Debug, PartialEq, Eq)]
pub struct SampleSizeBox {
    /// The version and flags of the box.
    pub full_header: FullBoxHeader,
    /// The size of every sample where they all have it, or 0.
    pub sample_size: u32,
    /// The number of samples in the track.
    pub sample_count: u32,
    /// The sizes of the samples, one by one, to the end of the box.
    pub entry_size: Vec<u32>,
}

/// The model of a [`SampleSizeBox`].
pub struct SampleSizeBoxModel {
    pub full_header: FullBoxHeader,
    pub sample_size: u32,
    pub sample_count: u32,
    pub entry_size: Seq<u32>,
}

impl View for SampleSizeBox {
    type V = SampleSizeBoxModel;

    open spec fn view(&self) -> SampleSizeBoxModel {
        SampleSizeBoxModel {
            full_header: self.full_header,
            sample_size: self.sample_size,
            sample_count: self.sample_count,
            entry_size: views(self.entry_size@),
        }
    }
}

impl IsoSized for SampleSizeBox {
    open spec fn spec_size(&self) -> nat {
        add_header_size(12 + size_seq::<u32>(self.entry_size@))
    }

    fn size(&self) -> (n: usize) {
        proof {
            lemma_size_seq_mono::<u32>(self.entry_size@, 0);
        }
        add_header_size_exec(12 + size_all(&self.entry_size))
    }
}

impl BoxBody for SampleSizeBox {
    open spec fn spec_box_type() -> [u8; 4] {
        [0x73u8, 0x74u8, 0x73u8, 0x7au8]
    }

    fn box_type() -> (r: [u8; 4]) {
        [0x73u8, 0x74u8, 0x73u8, 0x7au8]
    }

    /// The version and flags, the common size and the count, then sizes until the
    /// payload ends.
    open spec fn spec_parse_body(s: Seq<u8>) -> Result<SampleSizeBoxModel, IsoError> {
        if s.len() < 12 {
            Err(IsoError::UnexpectedEof)
        } else {
            match parse_rest::<u32>(s.skip(12)) {
                Ok((items, _)) => Ok(
                    SampleSizeBoxModel {
                        full_header: FullBoxHeader { version: s[0], flags: be_u24_at(s, 1) },
                        sample_size: be_u32_at(s, 4),
                        sample_count: be_u32_at(s, 8),
                        entry_size: items,
                    },
                ),
                Err(e) => Err(e),
            }
        }
    }

    open spec fn spec_writable(v: SampleSizeBoxModel) -> bool {
        true
    }

    open spec fn spec_serialize_body(v: SampleSizeBoxModel) -> Seq<u8> {
        seq![v.full_header.version] + u24_bytes(v.full_header.flags) + u32_bytes(v.sample_size) + u32_bytes(
            v.sample_count,
        ) + ser_seq::<u32>(v.entry_size)
    }

    open spec fn spec_canonical(v: SampleSizeBoxModel) -> bool {
        v.full_header.flags < 0x100_0000 && canonical_seq::<u32>(v.entry_size)
    }

    proof fn lemma_box_type() {
        assert(Self::spec_box_type()[0] != spec_uuid_fourcc()[0]);
    }

    proof fn lemma_body_size(x: SampleSizeBox) {
        assert(writable_seq::<u32>(views(x.entry_size@)));
        lemma_size_seq::<u32>(x.entry_size@);
    }

    proof fn lemma_body_roundtrip(v: SampleSizeBoxModel) {
        let s = Self::spec_serialize_body(v);
        assert(s.subrange(1, 4) =~= u24_bytes(v.full_header.flags));
        lemma_u24_at(s, 1, v.full_header.flags);
        assert(s.subrange(4, 8) =~= u32_bytes(v.sample_size));
        lemma_u32_at(s, 4, v.sample_size);
        assert(s.subrange(8, 12) =~= u32_bytes(v.sample_count));
        lemma_u32_at(s, 8, v.sample_count);
        assert(s.skip(12) =~= ser_seq::<u32>(v.entry_size));
        assert(writable_seq::<u32>(v.entry_size));
        lemma_rest_roundtrip::<u32>(v.entry_size);
    }

    fn parse_body(d: &[u8]) -> (r: Result<SampleSizeBox, IsoError>) {
        if d.len() < 12 {
            return Err(IsoError::UnexpectedEof);
        }
        let full_header = FullBoxHeader { version: d[0], flags: read_u24_at(d, 1) };
        let sample_size = read_u32_at(d, 4);
        let sample_count = read_u32_at(d, 8);
        let (entry_size, _end) = parse_remaining::<u32>(d, 12)?;
        Ok(SampleSizeBox { full_header, sample_size, sample_count, entry_size })
    }

    fn serialize_body(&self, out: &mut Vec<u8>) -> (r: Result<(), IsoError>) {
        let ghost before = out@;
        write_u8(out, self.full_header.version);
        write_u24(out, self.full_header.flags);
        write_u32(out, self.sample_size);
        write_u32(out, self.sample_count);
        let _ = serialize_all(&self.entry_size, out);
        proof {
            assert(out@ =~= before + Self::spec_serialize_body(self@));
            lemma_append_prefix(before, Self::spec_serialize_body(self@));
        }
        Ok(())
    }
}

/// Compact sample size box
///
/// `stz2`
///
/// ISO/IEC 14496-12 - 8.7.3.3
#[derive(Debug, PartialEq, Eq)]
pub struct CompactSampleSizeBox {
    /// The version and flags of the box.
    pub full_header: FullBoxHeader,
    /// Reserved, 24 bits of zero.
    pub reserved: u32,
    /// The size in bits of an entry: 4, 8 or 16.
    pub field_size: u8,
    /// The number of entries.
    pub sample_count: u32,
    /// The packed entries, to the end of the box.
    pub entry_size: Vec<u8>,
}

/// The model of a [`CompactSampleSizeBox`].
pub struct CompactSampleSizeBoxModel {
    pub full_header: FullBoxHeader,
    pub reserved: u32,
    pub field_size: u8,
    pub sample_count: u32,
    pub entry_size: Seq<u8>,
}

impl View for CompactSampleSizeBox {
    type V = CompactSampleSizeBoxModel;

    open spec fn view(&self) -> CompactSampleSizeBoxModel {
        CompactSampleSizeBoxModel {
            full_header: self.full_header,
            reserved: self.reserved,
            field_size: self.field_size,
            sample_count: self.sample_count,
            entry_size: self.entry_size@,
        }
    }
}

impl IsoSized for CompactSampleSizeBox {
    open spec fn spec_size(&self) -> nat {
        add_header_size(12 + self.entry_size@.len())
    }

    fn size(&self) -> (n: usize) {
        add_header_size_exec(12 + self.entry_size.len())
    }
}

impl BoxBody for CompactSampleSizeBox {
    open spec fn spec_box_type() -> [u8; 4] {
        [0x73u8, 0x74u8, 0x7au8, 0x32u8]
    }

    fn box_type() -> (r: [u8; 4]) {
        [0x73u8, 0x74u8, 0x7au8, 0x32u8]
    }

    /// The version and flags, the reserved 24 bits, the field size and the count, then
    /// the packed entries to the end of the payload.
    open spec fn spec_parse_body(s: Seq<u8>) -> Result<CompactSampleSizeBoxModel, IsoError> {
        if s.len() < 12 {
            Err(IsoError::UnexpectedEof)
        } else {
            Ok(
                CompactSampleSizeBoxModel {
                    full_header: FullBoxHeader { version: s[0], flags: be_u24_at(s, 1) },
                    reserved: be_u24_at(s, 4),
                    field_size: s[7],
                    sample_count: be_u32_at(s, 8),
                    entry_size: s.skip(12),
                },
            )
        }
    }

    open spec fn spec_writable(v: CompactSampleSizeBoxModel) -> bool {
        true
    }

    open spec fn spec_serialize_body(v: CompactSampleSizeBoxModel) -> Seq<u8> {
        seq![v.full_header.version] + u24_bytes(v.full_header.flags) + u24_bytes(v.reserved) + seq![v.field_size]
            + u32_bytes(v.sample_count) + v.entry_size
    }

    /// The flags and the reserved field fit 24 bits.
    open spec fn spec_canonical(v: CompactSampleSizeBoxModel) -> bool {
        v.full_header.flags < 0x100_0000 && v.reserved < 0x100_0000
    }

    proof fn lemma_box_type() {
        assert(Self::spec_box_type()[0] != spec_uuid_fourcc()[0]);
    }

    proof fn lemma_body_size(x: CompactSampleSizeBox) {
    }

    proof fn lemma_body_roundtrip(v: CompactSampleSizeBoxModel) {
        let s = Self::spec_serialize_body(v);
        assert(s.subrange(1, 4) =~= u24_bytes(v.full_header.flags));
        lemma_u24_at(s, 1, v.full_header.flags);
        assert(s.subrange(4, 7) =~= u24_bytes(v.reserved));
        lemma_u24_at(s, 4, v.reserved);
        assert(s.subrange(8, 12) =~= u32_bytes(v.sample_count));
        lemma_u32_at(s, 8, v.sample_count);
        assert(s.skip(12) =~= v.entry_size);
    }

    fn parse_body(d: &[u8]) -> (r: Result<CompactSampleSizeBox, IsoError>) {
        if d.len() < 12 {
            return Err(IsoError::UnexpectedEof);
        }
        let full_header = FullBoxHeader { version: d[0], flags: read_u24_at(d, 1) };
        let reserved = read_u24_at(d, 4);
        let field_size = d[7];
        let sample_count = read_u32_at(d, 8);
        let entry_size = vstd::slice::slice_to_vec(vstd::slice::slice_subrange(d, 12, d.len()));
        proof {
            assert(entry_size@ =~= d@.skip(12));
        }
        Ok(CompactSampleSizeBox { full_header, reserved, field_size, sample_count, entry_size })
    }

    fn serialize_body(&self, out: &mut Vec<u8>) -> (r: Result<(), IsoError>) {
        let ghost before = out@;
        write_u8(out, self.full_header.version);
        write_u24(out, self.full_header.flags);
        write_u24(out, self.reserved);
        write_u8(out, self.field_size);
        write_u32(out, self.sample_count);
        write_bytes(out, self.entry_size.as_slice());
        proof {
            assert(out@ =~= before + Self::spec_serialize_body(self@));
            lemma_append_prefix(before, Self::spec_serialize_body(self@));
        }
        Ok(())
    }
}


/// An entry of the sample to chunk box is twelve bytes: the first chunk spelled by the first four, big-endian, then the samples per chunk by the next four, then the sample description index by the last four.
pub proof fn lemma_sample_to_chunk_entry_layout(s: Seq<u8>)
    ensures
        s.len() < 12 ==> SampleToChunkBoxEntry::spec_parse(s) == Err::<(SampleToChunkBoxEntry, int), IsoError>(IsoError::UnexpectedEof),
        s.len() >= 12 ==> (SampleToChunkBoxEntry::spec_parse(s) matches Ok((e, n)) && n == 12 && e.first_chunk == crate::codec::be_int(s, 0, 4) && e.samples_per_chunk == crate::codec::be_int(s, 4, 4) && e.sample_description_index == crate::codec::be_int(s, 8, 4)),
{
    if s.len() >= 12 {
        crate::codec::lemma_be_int_u32(s, 0);
        crate::codec::lemma_be_int_u32(s, 4);
        crate::codec::lemma_be_int_u32(s, 8);
    }
}

/// Writing a sample to chunk entry gives twelve bytes: the first chunk, the samples per chunk, then the sample description index.
pub proof fn lemma_sample_to_chunk_entry_bytes(e: SampleToChunkBoxEntry)
    ensures
        SampleToChunkBoxEntry::spec_serialize(e).len() == 12,
        crate::codec::be_int(SampleToChunkBoxEntry::spec_serialize(e), 0, 4) == e.first_chunk,
        crate::codec::be_int(SampleToChunkBoxEntry::spec_serialize(e), 4, 4) == e.samples_per_chunk,
        crate::codec::be_int(SampleToChunkBoxEntry::spec_serialize(e), 8, 4) == e.sample_description_index,
{
    let w = SampleToChunkBoxEntry::spec_serialize(e);
    assert(w.subrange(0, 4) =~= u32_bytes(e.first_chunk));
    crate::codec::lemma_be_int_u32_bytes(w, 0, e.first_chunk);
    assert(w.subrange(4, 8) =~= u32_bytes(e.samples_per_chunk));
    crate::codec::lemma_be_int_u32_bytes(w, 4, e.samples_per_chunk);
    assert(w.subrange(8, 12) =~= u32_bytes(e.sample_description_index));
    crate::codec::lemma_be_int_u32_bytes(w, 8, e.sample_description_index);
}


/// The sample size box body (ISO/IEC 14496-12 - 8.7.3.2): the version byte, three flag bytes, the default sample size spelled by bytes 4..8, then the sample count by bytes 8..12.
pub proof fn lemma_sample_size_layout(s: Seq<u8>)
    ensures
        s.len() < 12 ==> SampleSizeBox::spec_parse_body(s) == Err::<SampleSizeBoxModel, IsoError>(IsoError::UnexpectedEof),
        s.len() >= 12 ==> (SampleSizeBox::spec_parse_body(s) matches Ok(h) ==> h.full_header.version == s[0] && h.full_header.flags == crate::codec::be_int(s, 1, 3) && h.sample_size == crate::codec::be_int(s, 4, 4) && h.sample_count == crate::codec::be_int(s, 8, 4)),
{
    if s.len() >= 12 {
        crate::codec::lemma_be_int_u24(s, 1);
        crate::codec::lemma_be_int_u32(s, 4);
        crate::codec::lemma_be_int_u32(s, 8);
    }
}


/// The chunk offset box body (ISO/IEC 14496-12 - 8.7.5): the version byte, three flag bytes, the entry count spelled by bytes 4..8, then one offset for each whole four bytes to the end, in order.
pub proof fn lemma_chunk_offset_layout(s: Seq<u8>)
    ensures
        s.len() < 8 ==> ChunkOffsetBox::spec_parse_body(s) == Err::<ChunkOffsetBoxModel, IsoError>(IsoError::UnexpectedEof),
        s.len() >= 8 ==> (ChunkOffsetBox::spec_parse_body(s) matches Ok(h) && h.full_header.version == s[0]
            && h.full_header.flags == crate::codec::be_int(s, 1, 3) && h.entry_count == crate::codec::be_int(s, 4, 4)
            && h.chunk_offset.len() == (s.len() - 8) / 4 && forall|i: int|
            0 <= i < h.chunk_offset.len() ==> #[trigger] h.chunk_offset[i] == crate::codec::be_int(s, 8 + 4 * i, 4)),
{
    if s.len() >= 8 {
        let t = s.skip(8);
        crate::codec::lemma_be_int_u24(s, 1);
        crate::codec::lemma_be_int_u32(s, 4);
        crate::wire::lemma_u32_list_layout(t);
        if let Ok((xs, _)) = parse_rest::<u32>(t) {
            assert forall|i: int| 0 <= i < xs.len() implies #[trigger] xs[i] == crate::codec::be_int(s, 8 + 4 * i, 4) by {
                assert(t.subrange(4 * i, 4 * i + 4) =~= s.subrange(8 + 4 * i, 8 + 4 * i + 4));
                crate::codec::lemma_be_int_subrange(t, s, 4 * i, 8 + 4 * i, 4);
            }
        }
    }
}

/// The 64-bit chunk offset box body (ISO/IEC 14496-12 - 8.7.5): the version byte, three flag bytes, the entry count spelled by bytes 4..8, then one offset for each whole eight bytes to the end, in order.
pub proof fn lemma_chunk_large_offset_layout(s: Seq<u8>)
    ensures
        s.len() < 8 ==> ChunkLargeOffsetBox::spec_parse_body(s) == Err::<ChunkLargeOffsetBoxModel, IsoError>(IsoError::UnexpectedEof),
        s.len() >= 8 ==> (ChunkLargeOffsetBox::spec_parse_body(s) matches Ok(h) && h.full_header.version == s[0]
            && h.full_header.flags == crate::codec::be_int(s, 1, 3) && h.entry_count == crate::codec::be_int(s, 4, 4)
            && h.chunk_offset.len() == (s.len() - 8) / 8 && forall|i: int|
            0 <= i < h.chunk_offset.len() ==> #[trigger] h.chunk_offset[i] == crate::codec::be_int(s, 8 + 8 * i, 8)),
{
    if s.len() >= 8 {
        let t = s.skip(8);
        crate::codec::lemma_be_int_u24(s, 1);
        crate::codec::lemma_be_int_u32(s, 4);
        crate::wire::lemma_u64_list_layout(t);
        if let Ok((xs, _)) = parse_rest::<u64>(t) {
            assert forall|i: int| 0 <= i < xs.len() implies #[trigger] xs[i] == crate::codec::be_int(s, 8 + 8 * i, 8) by {
                assert(t.subrange(8 * i, 8 * i + 8) =~= s.subrange(8 + 8 * i, 8 + 8 * i + 8));
                crate::codec::lemma_be_int_subrange(t, s, 8 * i, 8 + 8 * i, 8);
            }
        }
    }
}


/// An entry of the padding bits box (ISO/IEC 14496-12 - 8.7.6) is one byte: a reserved
/// bit, the first padding value in the next three bits, a reserved bit, the second
/// padding value in the low three bits.
pub proof fn lemma_padding_bits_entry_layout(s: Seq<u8>)
    ensures
        s.len() < 1 ==> PaddingBitsBoxEntry::spec_parse(s) == Err::<(PaddingBitsBoxEntry, int), IsoError>(
            IsoError::UnexpectedEof,
        ),
        s.len() >= 1 ==> (PaddingBitsBoxEntry::spec_parse(s) matches Ok((e, n)) && n == 1 && e.pad1 == s[0] / 16 % 8
            && e.pad2 == s[0] % 8),
{
    if s.len() >= 1 {
        let b = s[0];
        assert(((b >> 4u8) & 7) == b / 16 % 8 && (b & 7) == b % 8) by (bit_vector);
    }
}

} // verus!
