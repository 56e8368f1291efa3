//! Track time structures (ISO/IEC 14496-12 - 8.6).

use vstd::prelude::*;

use crate::codec::{
    be_u24_at, be_u32_at, be_u64_at, from_i32, from_i64, i32_of, i64_of, lemma_append_prefix, lemma_i32_roundtrip,
    lemma_i64_roundtrip, lemma_u24_at, lemma_u32_at, lemma_u64_at, lemma_wide_bytes_len, read_u24_at,
    read_u32_at, read_u64_at, to_i32, to_i64, u24_bytes, u32_bytes, u32_of, u64_bytes, u64_of, write_u24,
    write_u32, write_u64, write_u8, IsoError, SpecParse,
};
use crate::frame::{add_header_size, add_header_size_exec, BoxBody};
use crate::header::{spec_uuid_fourcc, FullBoxHeader};
use crate::versioned::{
    canonical_seq_v, lemma_count_roundtrip_v, lemma_size_seq_v, lemma_size_seq_v_mono, parse_count_v,
    parse_counted_v, ser_seq_v, serialize_all_v, size_all_v, size_seq_v, VersionedWire,
};
use crate::wire::{
    canonical_seq, lemma_rest_roundtrip, lemma_size_seq, lemma_size_seq_mono, parse_remaining, parse_rest,
    ser_seq, serialize_all, size_all, size_seq, views, writable_seq, IsoSized, Wire,
};

verus! {


/// An entry of the decoding time to sample box.
#[derive(Debug, Clone, Copy, PartialEq, Eq, Structural)]
pub struct TimeToSampleBoxEntry {
    /// The number of consecutive samples with this duration.
    pub sample_count: u32,
    /// The duration of each of these samples.
    pub sample_delta: u32,
}

impl View for TimeToSampleBoxEntry {
    type V = TimeToSampleBoxEntry;

    open spec fn view(&self) -> TimeToSampleBoxEntry {
        *self
    }
}

impl IsoSized for TimeToSampleBoxEntry {
    open spec fn spec_size(&self) -> nat {
        8
    }

    fn size(&self) -> (n: usize) {
        8
    }
}

impl Wire for TimeToSampleBoxEntry {
    open spec fn spec_parse(s: Seq<u8>) -> SpecParse<TimeToSampleBoxEntry> {
        if s.len() < 8 {
            Err(IsoError::UnexpectedEof)
        } else {
            Ok((TimeToSampleBoxEntry {
                sample_count: be_u32_at(s, 0),
                sample_delta: be_u32_at(s, 4),
            }, 8))
        }
    }

    open spec fn spec_writable(v: TimeToSampleBoxEntry) -> bool {
        true
    }

    open spec fn spec_serialize(v: TimeToSampleBoxEntry) -> Seq<u8> {
        u32_bytes(v.sample_count) + u32_bytes(v.sample_delta)
    }

    open spec fn spec_canonical(v: TimeToSampleBoxEntry) -> bool {
        true
    }

    proof fn lemma_parse_len(s: Seq<u8>) {
    }

    proof fn lemma_size(x: TimeToSampleBoxEntry) {
    }

    proof fn lemma_roundtrip(v: TimeToSampleBoxEntry, rest: Seq<u8>) {
        let s = Self::spec_serialize(v) + rest;
        assert(s.subrange(0, 4) =~= u32_bytes(v.sample_count));
        lemma_u32_at(s, 0, v.sample_count);
        assert(s.subrange(4, 8) =~= u32_bytes(v.sample_delta));
        lemma_u32_at(s, 4, v.sample_delta);
    }

    fn parse(data: &[u8], pos: usize) -> (r: Result<(TimeToSampleBoxEntry, usize), IsoError>) {
        if data.len() - pos < 8 {
            return Err(IsoError::UnexpectedEof);
        }
        let d = &data[pos..data.len()];
        proof {
            assert(d@ =~= data@.skip(pos as int));
        }
        let sample_count = read_u32_at(d, 0);
        let sample_delta = read_u32_at(d, 4);
        Ok((TimeToSampleBoxEntry { sample_count, sample_delta }, pos + 8))
    }

    fn serialize(&self, out: &mut Vec<u8>) -> (r: Result<(), IsoError>) {
        let ghost before = out@;
        write_u32(out, self.sample_count);
        write_u32(out, self.sample_delta);
        proof {
            assert(out@ =~= before + Self::spec_serialize(self@));
            lemma_append_prefix(before, Self::spec_serialize(self@));
        }
        Ok(())
    }
}

/// An entry of the decoding time to sample box is eight bytes: the sample count
/// spelled by the first four, big-endian, then the sample delta spelled by the next
/// four. Fewer than eight bytes are an unexpected end.
pub proof fn lemma_time_to_sample_entry_layout(s: Seq<u8>)
    ensures
        s.len() < 8 ==> TimeToSampleBoxEntry::spec_parse(s) == Err::<(TimeToSampleBoxEntry, int), IsoError>(
            IsoError::UnexpectedEof,
        ),
        s.len() >= 8 ==> (TimeToSampleBoxEntry::spec_parse(s) matches Ok((e, n)) && n == 8 && e.sample_count
            == crate::codec::be_int(s, 0, 4) && e.sample_delta == crate::codec::be_int(s, 4, 4)),
{
    if s.len() >= 8 {
        crate::codec::lemma_be_int_u32(s, 0);
        crate::codec::lemma_be_int_u32(s, 4);
    }
}

/// Writing an entry gives eight bytes: the first four spell the sample count, the
/// next four the sample delta.
pub proof fn lemma_time_to_sample_entry_bytes(e: TimeToSampleBoxEntry)
    ensures
        TimeToSampleBoxEntry::spec_serialize(e).len() == 8,
        crate::codec::be_int(TimeToSampleBoxEntry::spec_serialize(e), 0, 4) == e.sample_count,
        crate::codec::be_int(TimeToSampleBoxEntry::spec_serialize(e), 4, 4) == e.sample_delta,
{
    let w = TimeToSampleBoxEntry::spec_serialize(e);
    assert(w.subrange(0, 4) =~= u32_bytes(e.sample_count));
    assert(w.subrange(4, 8) =~= u32_bytes(e.sample_delta));
    crate::codec::lemma_be_int_u32_bytes(w, 0, e.sample_count);
    crate::codec::lemma_be_int_u32_bytes(w, 4, e.sample_delta);
}

/// An entry of the shadow sync sample box.
#[derive(Debug, Clone, Copy, PartialEq, Eq, Structural)]
pub struct ShadowSyncSampleBoxEntry {
    /// The number of the sample that has a shadow.
    pub shadowed_sample_number: u32,
    /// The number of the sync sample that can stand in for it.
    pub sync_sample_number: u32,
}

impl View for ShadowSyncSampleBoxEntry {
    type V = ShadowSyncSampleBoxEntry;

    open spec fn view(&self) -> ShadowSyncSampleBoxEntry {
        *self
    }
}

impl IsoSized for ShadowSyncSampleBoxEntry {
    open spec fn spec_size(&self) -> nat {
        8
    }

    fn size(&self) -> (n: usize) {
        8
    }
}

impl Wire for ShadowSyncSampleBoxEntry {
    open spec fn spec_parse(s: Seq<u8>) -> SpecParse<ShadowSyncSampleBoxEntry> {
        if s.len() < 8 {
            Err(IsoError::UnexpectedEof)
        } else {
            Ok((ShadowSyncSampleBoxEntry {
                shadowed_sample_number: be_u32_at(s, 0),
                sync_sample_number: be_u32_at(s, 4),
            }, 8))
        }
    }

    open spec fn spec_writable(v: ShadowSyncSampleBoxEntry) -> bool {
        true
    }

    open spec fn spec_serialize(v: ShadowSyncSampleBoxEntry) -> Seq<u8> {
        u32_bytes(v.shadowed_sample_number) + u32_bytes(v.sync_sample_number)
    }

    open spec fn spec_canonical(v: ShadowSyncSampleBoxEntry) -> bool {
        true
    }

    proof fn lemma_parse_len(s: Seq<u8>) {
    }

    proof fn lemma_size(x: ShadowSyncSampleBoxEntry) {
    }

    proof fn lemma_roundtrip(v: ShadowSyncSampleBoxEntry, rest: Seq<u8>) {
        let s = Self::spec_serialize(v) + rest;
        assert(s.subrange(0, 4) =~= u32_bytes(v.shadowed_sample_number));
        lemma_u32_at(s, 0, v.shadowed_sample_number);
        assert(s.subrange(4, 8) =~= u32_bytes(v.sync_sample_number));
        lemma_u32_at(s, 4, v.sync_sample_number);
    }

    fn parse(data: &[u8], pos: usize) -> (r: Result<(ShadowSyncSampleBoxEntry, usize), IsoError>) {
        if data.len() - pos < 8 {
            return Err(IsoError::UnexpectedEof);
        }
        let d = &data[pos..data.len()];
        proof {
            assert(d@ =~= data@.skip(pos as int));
        }
        let shadowed_sample_number = read_u32_at(d, 0);
        let sync_sample_number = read_u32_at(d, 4);
        Ok((ShadowSyncSampleBoxEntry { shadowed_sample_number, sync_sample_number }, pos + 8))
    }

    fn serialize(&self, out: &mut Vec<u8>) -> (r: Result<(), IsoError>) {
        let ghost before = out@;
        write_u32(out, self.shadowed_sample_number);
        write_u32(out, self.sync_sample_number);
        proof {
            assert(out@ =~= before + Self::spec_serialize(self@));
            lemma_append_prefix(before, Self::spec_serialize(self@));
        }
        Ok(())
    }
}

/// Decoding time to sample box
///
/// ISO/IEC 14496-12 - 8.6.1.2
#[derive(Debug, PartialEq, Eq)]
pub struct TimeToSampleBox {
    /// The version and flags of the box.
    pub full_header: FullBoxHeader,
    /// The number of entries.
    pub entry_count: u32,
    /// The entries, to the end of the box.
    pub entries: Vec<TimeToSampleBoxEntry>,
}

/// The model of a [`TimeToSampleBox`].
pub struct TimeToSampleBoxModel {
    pub full_header: FullBoxHeader,
    pub entry_count: u32,
    pub entries: Seq<<TimeToSampleBoxEntry as View>::V>,
}

impl View for TimeToSampleBox {
    type V = TimeToSampleBoxModel;

    open spec fn view(&self) -> TimeToSampleBoxModel {
        TimeToSampleBoxModel {
            full_header: self.full_header,
            entry_count: self.entry_count,
            entries: views(self.entries@),
        }
    }
}

impl IsoSized for TimeToSampleBox {
    open spec fn spec_size(&self) -> nat {
        add_header_size(8 + size_seq::<TimeToSampleBoxEntry>(self.entries@))
    }

    fn size(&self) -> (n: usize) {
        proof {
            lemma_size_seq_mono::<TimeToSampleBoxEntry>(self.entries@, 0);
        }
        add_header_size_exec(8 + size_all(&self.entries))
    }
}

impl BoxBody for TimeToSampleBox {
    open spec fn spec_box_type() -> [u8; 4] {
        [0x73u8, 0x74u8, 0x74u8, 0x73u8]
    }

    fn box_type() -> (r: [u8; 4]) {
        [0x73u8, 0x74u8, 0x74u8, 0x73u8]
    }

    /// The header fields, then entries until the payload ends.
    open spec fn spec_parse_body(s: Seq<u8>) -> Result<TimeToSampleBoxModel, IsoError> {
        if s.len() < 8 {
            Err(IsoError::UnexpectedEof)
        } else {
            match parse_rest::<TimeToSampleBoxEntry>(s.skip(8)) {
                Ok((items, _)) => Ok(
                    TimeToSampleBoxModel {
                        full_header: FullBoxHeader { version: s[0], flags: be_u24_at(s, 1) },
                        entry_count: be_u32_at(s, 4),
                        entries: items,
                    },
                ),
                Err(e) => Err(e),
            }
        }
    }

    open spec fn spec_writable(v: TimeToSampleBoxModel) -> bool {
        true
    }

    open spec fn spec_serialize_body(v: TimeToSampleBoxModel) -> Seq<u8> {
        seq![v.full_header.version] + u24_bytes(v.full_header.flags) + u32_bytes(v.entry_count) + ser_seq::<TimeToSampleBoxEntry>(v.entries)
    }

    open spec fn spec_canonical(v: TimeToSampleBoxModel) -> bool {
        v.full_header.flags < 0x100_0000 && canonical_seq::<TimeToSampleBoxEntry>(v.entries)
    }

    proof fn lemma_box_type() {
        assert(Self::spec_box_type()[0] != spec_uuid_fourcc()[0] || Self::spec_box_type()[1] != spec_uuid_fourcc()[1]);
    }

    proof fn lemma_body_size(x: TimeToSampleBox) {
        assert(writable_seq::<TimeToSampleBoxEntry>(views(x.entries@)));
        lemma_size_seq::<TimeToSampleBoxEntry>(x.entries@);
    }

    proof fn lemma_body_roundtrip(v: TimeToSampleBoxModel) {
        let s = Self::spec_serialize_body(v);
        assert(s.subrange(1, 4) =~= u24_bytes(v.full_header.flags));
        lemma_u24_at(s, 1, v.full_header.flags);
        assert(s.subrange(4, 8) =~= u32_bytes(v.entry_count));
        lemma_u32_at(s, 4, v.entry_count);
        assert(s.skip(8) =~= ser_seq::<TimeToSampleBoxEntry>(v.entries));
        assert(writable_seq::<TimeToSampleBoxEntry>(v.entries));
        lemma_rest_roundtrip::<TimeToSampleBoxEntry>(v.entries);
    }

    fn parse_body(d: &[u8]) -> (r: Result<TimeToSampleBox, IsoError>) {
        if d.len() < 8 {
            return Err(IsoError::UnexpectedEof);
        }
        let full_header = FullBoxHeader { version: d[0], flags: read_u24_at(d, 1) };
        let entry_count = read_u32_at(d, 4);
        let (entries, _end) = parse_remaining::<TimeToSampleBoxEntry>(d, 8)?;
        Ok(TimeToSampleBox { full_header, entry_count, entries })
    }

    fn serialize_body(&self, out: &mut Vec<u8>) -> (r: Result<(), IsoError>) {
        let ghost before = out@;
        write_u8(out, self.full_header.version);
        write_u24(out, self.full_header.flags);
        write_u32(out, self.entry_count);
        let _ = serialize_all(&self.entries, out);
        proof {
            assert(out@ =~= before + Self::spec_serialize_body(self@));
            lemma_append_prefix(before, Self::spec_serialize_body(self@));
        }
        Ok(())
    }
}

/// Sync sample box
///
/// ISO/IEC 14496-12 - 8.6.2
#[derive(Debug, PartialEq, Eq)]
pub struct SyncSampleBox {
    /// The version and flags of the box.
    pub full_header: FullBoxHeader,
    /// The number of entries.
    pub entry_count: u32,
    /// The numbers of the sync samples, to the end of the box.
    pub sample_number: Vec<u32>,
}

/// The model of a [`SyncSampleBox`].
pub struct SyncSampleBoxModel {
    pub full_header: FullBoxHeader,
    pub entry_count: u32,
    pub sample_number: Seq<<u32 as View>::V>,
}

impl View for SyncSampleBox {
    type V = SyncSampleBoxModel;

    open spec fn view(&self) -> SyncSampleBoxModel {
        SyncSampleBoxModel {
            full_header: self.full_header,
            entry_count: self.entry_count,
            sample_number: views(self.sample_number@),
        }
    }
}

impl IsoSized for SyncSampleBox {
    open spec fn spec_size(&self) -> nat {
        add_header_size(8 + size_seq::<u32>(self.sample_number@))
    }

    fn size(&self) -> (n: usize) {
        proof {
            lemma_size_seq_mono::<u32>(self.sample_number@, 0);
        }
        add_header_size_exec(8 + size_all(&self.sample_number))
    }
}

impl BoxBody for SyncSampleBox {
    open spec fn spec_box_type() -> [u8; 4] {
        [0x73u8, 0x74u8, 0x73u8, 0x73u8]
    }

    fn box_type() -> (r: [u8; 4]) {
        [0x73u8, 0x74u8, 0x73u8, 0x73u8]
    }

    /// The header fields, then entries until the payload ends.
    open spec fn spec_parse_body(s: Seq<u8>) -> Result<SyncSampleBoxModel, IsoError> {
        if s.len() < 8 {
            Err(IsoError::UnexpectedEof)
        } else {
            match parse_rest::<u32>(s.skip(8)) {
                Ok((items, _)) => Ok(
                    SyncSampleBoxModel {
                        full_header: FullBoxHeader { version: s[0], flags: be_u24_at(s, 1) },
                        entry_count: be_u32_at(s, 4),
                        sample_number: items,
                    },
                ),
                Err(e) => Err(e),
            }
        }
    }

    open spec fn spec_writable(v: SyncSampleBoxModel) -> bool {
        true
    }

    open spec fn spec_serialize_body(v: SyncSampleBoxModel) -> Seq<u8> {
        seq![v.full_header.version] + u24_bytes(v.full_header.flags) + u32_bytes(v.entry_count) + ser_seq::<u32>(v.sample_number)
    }

    open spec fn spec_canonical(v: SyncSampleBoxModel) -> bool {
        v.full_header.flags < 0x100_0000 && canonical_seq::<u32>(v.sample_number)
    }

    proof fn lemma_box_type() {
        assert(Self::spec_box_type()[0] != spec_uuid_fourcc()[0] || Self::spec_box_type()[1] != spec_uuid_fourcc()[1]);
    }

    proof fn lemma_body_size(x: SyncSampleBox) {
        assert(writable_seq::<u32>(views(x.sample_number@)));
        lemma_size_seq::<u32>(x.sample_number@);
    }

    proof fn lemma_body_roundtrip(v: SyncSampleBoxModel) {
        let s = Self::spec_serialize_body(v);
        assert(s.subrange(1, 4) =~= u24_bytes(v.full_header.flags));
        lemma_u24_at(s, 1, v.full_header.flags);
        assert(s.subrange(4, 8) =~= u32_bytes(v.entry_count));
        lemma_u32_at(s, 4, v.entry_count);
        assert(s.skip(8) =~= ser_seq::<u32>(v.sample_number));
        assert(writable_seq::<u32>(v.sample_number));
        lemma_rest_roundtrip::<u32>(v.sample_number);
    }

    fn parse_body(d: &[u8]) -> (r: Result<SyncSampleBox, IsoError>) {
        if d.len() < 8 {
            return Err(IsoError::UnexpectedEof);
        }
        let full_header = FullBoxHeader { version: d[0], flags: read_u24_at(d, 1) };
        let entry_count = read_u32_at(d, 4);
        let (sample_number, _end) = parse_remaining::<u32>(d, 8)?;
        Ok(SyncSampleBox { full_header, entry_count, sample_number })
    }

    fn serialize_body(&self, out: &mut Vec<u8>) -> (r: Result<(), IsoError>) {
        let ghost before = out@;
        write_u8(out, self.full_header.version);
        write_u24(out, self.full_header.flags);
        write_u32(out, self.entry_count);
        let _ = serialize_all(&self.sample_number, out);
        proof {
            assert(out@ =~= before + Self::spec_serialize_body(self@));
            lemma_append_prefix(before, Self::spec_serialize_body(self@));
        }
        Ok(())
    }
}

/// Shadow sync sample box
///
/// ISO/IEC 14496-12 - 8.6.3
#[derive(Debug, PartialEq, Eq)]
pub struct ShadowSyncSampleBox {
    /// The version and flags of the box.
    pub full_header: FullBoxHeader,
    /// The number of entries.
    pub entry_count: u32,
    /// The entries, to the end of the box.
    pub entries: Vec<ShadowSyncSampleBoxEntry>,
}

/// The model of a [`ShadowSyncSampleBox`].
pub struct ShadowSyncSampleBoxModel {
    pub full_header: FullBoxHeader,
    pub entry_count: u32,
    pub entries: Seq<<ShadowSyncSampleBoxEntry as View>::V>,
}

impl View for ShadowSyncSampleBox {
    type V = ShadowSyncSampleBoxModel;

    open spec fn view(&self) -> ShadowSyncSampleBoxModel {
        ShadowSyncSampleBoxModel {
            full_header: self.full_header,
            entry_count: self.entry_count,
            entries: views(self.entries@),
        }
    }
}

impl IsoSized for ShadowSyncSampleBox {
    open spec fn spec_size(&self) -> nat {
        add_header_size(8 + size_seq::<ShadowSyncSampleBoxEntry>(self.entries@))
    }

    fn size(&self) -> (n: usize) {
        proof {
            lemma_size_seq_mono::<ShadowSyncSampleBoxEntry>(self.entries@, 0);
        }
        add_header_size_exec(8 + size_all(&self.entries))
    }
}

impl BoxBody for ShadowSyncSampleBox {
    open spec fn spec_box_type() -> [u8; 4] {
        [0x73u8, 0x74u8, 0x73u8, 0x68u8]
    }

    fn box_type() -> (r: [u8; 4]) {
        [0x73u8, 0x74u8, 0x73u8, 0x68u8]
    }

    /// The header fields, then entries until the payload ends.
    open spec fn spec_parse_body(s: Seq<u8>) -> Result<ShadowSyncSampleBoxModel, IsoError> {
        if s.len() < 8 {
            Err(IsoError::UnexpectedEof)
        } else {
            match parse_rest::<ShadowSyncSampleBoxEntry>(s.skip(8)) {
                Ok((items, _)) => Ok(
                    ShadowSyncSampleBoxModel {
                        full_header: FullBoxHeader { version: s[0], flags: be_u24_at(s, 1) },
                        entry_count: be_u32_at(s, 4),
                        entries: items,
                    },
                ),
                Err(e) => Err(e),
            }
        }
    }

    open spec fn spec_writable(v: ShadowSyncSampleBoxModel) -> bool {
        true
    }

    open spec fn spec_serialize_body(v: ShadowSyncSampleBoxModel) -> Seq<u8> {
        seq![v.full_header.version] + u24_bytes(v.full_header.flags) + u32_bytes(v.entry_count) + ser_seq::<ShadowSyncSampleBoxEntry>(v.entries)
    }

    open spec fn spec_canonical(v: ShadowSyncSampleBoxModel) -> bool {
        v.full_header.flags < 0x100_0000 && canonical_seq::<ShadowSyncSampleBoxEntry>(v.entries)
    }

    proof fn lemma_box_type() {
        assert(Self::spec_box_type()[0] != spec_uuid_fourcc()[0] || Self::spec_box_type()[1] != spec_uuid_fourcc()[1]);
    }

    proof fn lemma_body_size(x: ShadowSyncSampleBox) {
        assert(writable_seq::<ShadowSyncSampleBoxEntry>(views(x.entries@)));
        lemma_size_seq::<ShadowSyncSampleBoxEntry>(x.entries@);
    }

    proof fn lemma_body_roundtrip(v: ShadowSyncSampleBoxModel) {
        let s = Self::spec_serialize_body(v);
        assert(s.subrange(1, 4) =~= u24_bytes(v.full_header.flags));
        lemma_u24_at(s, 1, v.full_header.flags);
        assert(s.subrange(4, 8) =~= u32_bytes(v.entry_count));
        lemma_u32_at(s, 4, v.entry_count);
        assert(s.skip(8) =~= ser_seq::<ShadowSyncSampleBoxEntry>(v.entries));
        assert(writable_seq::<ShadowSyncSampleBoxEntry>(v.entries));
        lemma_rest_roundtrip::<ShadowSyncSampleBoxEntry>(v.entries);
    }

    fn parse_body(d: &[u8]) -> (r: Result<ShadowSyncSampleBox, IsoError>) {
        if d.len() < 8 {
            return Err(IsoError::UnexpectedEof);
        }
        let full_header = FullBoxHeader { version: d[0], flags: read_u24_at(d, 1) };
        let entry_count = read_u32_at(d, 4);
        let (entries, _end) = parse_remaining::<ShadowSyncSampleBoxEntry>(d, 8)?;
        Ok(ShadowSyncSampleBox { full_header, entry_count, entries })
    }

    fn serialize_body(&self, out: &mut Vec<u8>) -> (r: Result<(), IsoError>) {
        let ghost before = out@;
        write_u8(out, self.full_header.version);
        write_u24(out, self.full_header.flags);
        write_u32(out, self.entry_count);
        let _ = serialize_all(&self.entries, out);
        proof {
            assert(out@ =~= before + Self::spec_serialize_body(self@));
            lemma_append_prefix(before, Self::spec_serialize_body(self@));
        }
        Ok(())
    }
}


/// An entry of the composition offset box.
#[derive(Debug, Clone, Copy, PartialEq, Eq, Structural)]
pub struct CompositionOffsetBoxEntry {
    /// The number of consecutive samples with this offset.
    pub sample_count: u32,
    /// The offset between composition time and decoding time.
    pub sample_offset: i64,
}

/// Reading an entry of a composition offset box of `version`: the offset is an
/// unsigned 32-bit number in version 0 and a signed one in version 1; other
/// versions are refused.
pub open spec fn ctts_entry_parse(s: Seq<u8>, version: u8) -> SpecParse<CompositionOffsetBoxEntry> {
    if s.len() < 4 {
        Err(IsoError::UnexpectedEof)
    } else if s.len() < 8 {
        if version <= 1 { Err(IsoError::UnexpectedEof) } else { Err(IsoError::InvalidData) }
    } else if version == 0 {
        Ok((CompositionOffsetBoxEntry { sample_count: be_u32_at(s, 0), sample_offset: be_u32_at(s, 4) as i64 }, 8))
    } else if version == 1 {
        Ok((
            CompositionOffsetBoxEntry { sample_count: be_u32_at(s, 0), sample_offset: i32_of(be_u32_at(s, 4)) as i64 },
            8,
        ))
    } else {
        Err(IsoError::InvalidData)
    }
}

/// The 32-bit word written for an offset: the offset itself when it is not negative,
/// its two's complement otherwise, so that version 0 reads it back unsigned and
/// version 1 signed.
pub open spec fn ctts_offset_word(o: i64) -> u32 {
    if o < 0 { (o + 0x1_0000_0000) as u32 } else { o as u32 }
}

/// The bytes written for an entry: the count, then the offset in 32 bits.
pub open spec fn ctts_entry_bytes(v: CompositionOffsetBoxEntry) -> Seq<u8> {
    u32_bytes(v.sample_count) + u32_bytes(ctts_offset_word(v.sample_offset))
}

/// An entry whose offset fits the field of `version`: unsigned 32 bits in version 0,
/// signed 32 bits in version 1.
pub open spec fn ctts_entry_fits(v: CompositionOffsetBoxEntry, version: u8) -> bool {
    if version == 0 {
        0 <= v.sample_offset <= u32::MAX
    } else {
        i32::MIN <= v.sample_offset <= i32::MAX
    }
}

/// Reading back written entries of a box of version 0 or 1 whose offsets fit gives
/// them, whatever follows them.
pub proof fn lemma_ctts_roundtrip(items: Seq<CompositionOffsetBoxEntry>, version: u8, rest: Seq<u8>)
    requires
        version <= 1,
        forall|i: int| 0 <= i < items.len() ==> #[trigger] ctts_entry_fits(items[i], version),
    ensures
        ser_ctts(items).len() == 8 * items.len(),
        parse_count_ctts(ser_ctts(items) + rest, items.len(), version) == Ok::<
            (Seq<CompositionOffsetBoxEntry>, int),
            IsoError,
        >((items, 8 * items.len() as int)),
    decreases items.len(),
{
    if items.len() == 0 {
        assert(items =~= Seq::<CompositionOffsetBoxEntry>::empty());
    } else {
        let init = items.drop_last();
        let last = items.last();
        let eb = ctts_entry_bytes(last);
        assert forall|i: int| 0 <= i < init.len() implies #[trigger] ctts_entry_fits(init[i], version) by {
            assert(ctts_entry_fits(items[i], version));
        }
        assert(ctts_entry_fits(items[items.len() - 1], version));
        lemma_ctts_roundtrip(init, version, eb + rest);
        let s = ser_ctts(items) + rest;
        assert(s =~= ser_ctts(init) + (eb + rest));
        let t = s.skip(8 * init.len() as int);
        assert(t =~= eb + rest);
        let w = ctts_offset_word(last.sample_offset);
        assert(t.subrange(0, 4) =~= u32_bytes(last.sample_count));
        lemma_u32_at(t, 0, last.sample_count);
        assert(t.subrange(4, 8) =~= u32_bytes(w));
        lemma_u32_at(t, 4, w);
        assert(items =~= init.push(last));
    }
}

impl CompositionOffsetBoxEntry {
    /// Reads an entry of a box of `version` at `pos`.
    pub fn parse_with(data: &[u8], pos: usize, version: u8) -> (r: Result<(CompositionOffsetBoxEntry, usize), IsoError>)
        requires
            pos <= data@.len(),
        ensures
            match (ctts_entry_parse(data@.skip(pos as int), version), r) {
                (Ok((v, n)), Ok((x, p))) => x == v && p == pos + n,
                (Err(e), Err(f)) => e == f,
                _ => false,
            },
    {
        if data.len() - pos < 4 {
            return Err(IsoError::UnexpectedEof);
        }
        let sample_count = read_u32_at(data, pos);
        if data.len() - pos < 8 {
            return if version <= 1 { Err(IsoError::UnexpectedEof) } else { Err(IsoError::InvalidData) };
        }
        let raw = read_u32_at(data, pos + 4);
        if version == 0 {
            Ok((CompositionOffsetBoxEntry { sample_count, sample_offset: raw as i64 }, pos + 8))
        } else if version == 1 {
            Ok((CompositionOffsetBoxEntry { sample_count, sample_offset: to_i32(raw) as i64 }, pos + 8))
        } else {
            Err(IsoError::InvalidData)
        }
    }

    /// Writes the count and the offset in 32 bits.
    pub fn serialize(&self, out: &mut Vec<u8>)
        ensures
            final(out)@ == old(out)@ + ctts_entry_bytes(*self),
    {
        let ghost before = out@;
        write_u32(out, self.sample_count);
        let o = self.sample_offset;
        let w: u32 = if o < 0 { (o + 0x1_0000_0000) as u32 } else { o as u32 };
        write_u32(out, w);
        assert(out@ =~= before + ctts_entry_bytes(*self));
    }

    /// The size of the written entry.
    pub fn size(&self) -> (n: usize)
        ensures
            n == ctts_entry_bytes(*self).len(),
    {
        4 + 4
    }
}

/// An entry of the sample dependency type box: four 2-bit fields in one byte.
#[derive(Debug, Clone, Copy, PartialEq, Eq, Structural)]
pub struct SampleDependencyTypeBoxEntry {
    /// Whether the sample is a leading sample (0: unknown).
    pub is_leading: u8,
    /// Whether the sample depends on others (0: unknown).
    pub sample_depends_on: u8,
    /// Whether other samples depend on this one (0: unknown).
    pub sample_is_depended_on: u8,
    /// Whether the sample has redundant coding (0: unknown).
    pub sample_has_redundancy: u8,
}

impl View for SampleDependencyTypeBoxEntry {
    type V = SampleDependencyTypeBoxEntry;

    open spec fn view(&self) -> SampleDependencyTypeBoxEntry {
        *self
    }
}

/// The entry held in a byte: from the top, two bits each.
pub open spec fn sdtp_from_byte(value: u8) -> SampleDependencyTypeBoxEntry {
    SampleDependencyTypeBoxEntry {
        is_leading: (value >> 6u8) & 3,
        sample_depends_on: (value >> 4u8) & 3,
        sample_is_depended_on: (value >> 2u8) & 3,
        sample_has_redundancy: value & 3,
    }
}

/// The byte of an entry: the low two bits of each field, from the top.
pub open spec fn sdtp_to_byte(v: SampleDependencyTypeBoxEntry) -> u8 {
    ((v.is_leading & 3) << 6u8) | ((v.sample_depends_on & 3) << 4u8) | ((v.sample_is_depended_on & 3) << 2u8)
        | (v.sample_has_redundancy & 3)
}

impl From<u8> for SampleDependencyTypeBoxEntry {
    fn from(value: u8) -> (r: SampleDependencyTypeBoxEntry) {
        SampleDependencyTypeBoxEntry {
            is_leading: (value >> 6u8) & 3,
            sample_depends_on: (value >> 4u8) & 3,
            sample_is_depended_on: (value >> 2u8) & 3,
            sample_has_redundancy: value & 3,
        }
    }
}

impl vstd::std_specs::convert::FromSpecImpl<u8> for SampleDependencyTypeBoxEntry {
    open spec fn obeys_from_spec() -> bool {
        true
    }

    open spec fn from_spec(v: u8) -> SampleDependencyTypeBoxEntry {
        sdtp_from_byte(v)
    }
}

impl From<SampleDependencyTypeBoxEntry> for u8 {
    fn from(val: SampleDependencyTypeBoxEntry) -> (r: u8) {
        ((val.is_leading & 3) << 6u8) | ((val.sample_depends_on & 3) << 4u8) | ((val.sample_is_depended_on & 3)
            << 2u8) | (val.sample_has_redundancy & 3)
    }
}

impl vstd::std_specs::convert::FromSpecImpl<SampleDependencyTypeBoxEntry> for u8 {
    open spec fn obeys_from_spec() -> bool {
        true
    }

    open spec fn from_spec(v: SampleDependencyTypeBoxEntry) -> u8 {
        sdtp_to_byte(v)
    }
}

/// Turning an entry whose fields fit in two bits into its byte and back gives it again.
pub proof fn lemma_sdtp_roundtrip(v: SampleDependencyTypeBoxEntry)
    requires
        v.is_leading < 4,
        v.sample_depends_on < 4,
        v.sample_is_depended_on < 4,
        v.sample_has_redundancy < 4,
    ensures
        sdtp_from_byte(sdtp_to_byte(v)) == v,
{
    let a = v.is_leading;
    let b = v.sample_depends_on;
    let c = v.sample_is_depended_on;
    let d = v.sample_has_redundancy;
    let x = sdtp_to_byte(v);
    assert(((x >> 6u8) & 3) == a && ((x >> 4u8) & 3) == b && ((x >> 2u8) & 3) == c && (x & 3) == d)
        by (bit_vector)
        requires
            x == ((a & 3) << 6u8) | ((b & 3) << 4u8) | ((c & 3) << 2u8) | (d & 3),
            a < 4,
            b < 4,
            c < 4,
            d < 4,
    ;
}

impl IsoSized for SampleDependencyTypeBoxEntry {
    open spec fn spec_size(&self) -> nat {
        1
    }

    fn size(&self) -> (n: usize) {
        1
    }
}

impl Wire for SampleDependencyTypeBoxEntry {
    open spec fn spec_parse(s: Seq<u8>) -> SpecParse<SampleDependencyTypeBoxEntry> {
        if s.len() < 1 { Err(IsoError::UnexpectedEof) } else { Ok((sdtp_from_byte(s[0]), 1)) }
    }

    open spec fn spec_writable(v: SampleDependencyTypeBoxEntry) -> bool {
        true
    }

    open spec fn spec_serialize(v: SampleDependencyTypeBoxEntry) -> Seq<u8> {
        seq![sdtp_to_byte(v)]
    }

    open spec fn spec_canonical(v: SampleDependencyTypeBoxEntry) -> bool {
        v.is_leading < 4 && v.sample_depends_on < 4 && v.sample_is_depended_on < 4 && v.sample_has_redundancy < 4
    }

    proof fn lemma_parse_len(s: Seq<u8>) {
    }

    proof fn lemma_size(x: SampleDependencyTypeBoxEntry) {
    }

    proof fn lemma_roundtrip(v: SampleDependencyTypeBoxEntry, rest: Seq<u8>) {
        lemma_sdtp_roundtrip(v);
        assert((Self::spec_serialize(v) + rest)[0] == sdtp_to_byte(v));
    }

    fn parse(data: &[u8], pos: usize) -> (r: Result<(SampleDependencyTypeBoxEntry, usize), IsoError>) {
        if pos >= data.len() {
            return Err(IsoError::UnexpectedEof);
        }
        Ok((SampleDependencyTypeBoxEntry::from(data[pos]), pos + 1))
    }

    fn serialize(&self, out: &mut Vec<u8>) -> (r: Result<(), IsoError>) {
        let byte = u8::from(*self);
        proof {
            lemma_append_prefix(old(out)@, seq![byte]);
        }
        write_u8(out, byte);
        Ok(())
    }
}

/// Composition to decode box
///
/// ISO/IEC 14496-12 - 8.6.1.4
#[derive(Debug, Clone, Copy, PartialEq, Eq, Structural)]
pub struct CompositionToDecodeBox {
    /// The version and flags of the box; version 0 has 32-bit values and the others 64-bit ones.
    pub full_header: FullBoxHeader,
    /// Added to the composition timestamps, it makes every composition timestamp at least its decoding timestamp.
    pub composition_to_dt_shift: i64,
    /// The smallest composition offset in the composition offset box of the track.
    pub least_decode_to_display_delta: i64,
    /// The largest composition offset in the composition offset box of the track.
    pub greatest_decode_to_display_delta: i64,
    /// The smallest composition timestamp of any sample of the track.
    pub composition_start_time: i64,
    /// The composition timestamp plus the duration of the last sample; 0 if unknown.
    pub composition_end_time: i64,
}

impl View for CompositionToDecodeBox {
    type V = CompositionToDecodeBox;

    open spec fn view(&self) -> CompositionToDecodeBox {
        *self
    }
}

impl IsoSized for CompositionToDecodeBox {
    open spec fn spec_size(&self) -> nat {
        add_header_size(if self.full_header.version != 0 { 44 } else { 24 })
    }

    fn size(&self) -> (n: usize) {
        if self.full_header.version != 0 {
            add_header_size_exec(44)
        } else {
            add_header_size_exec(24)
        }
    }
}

impl BoxBody for CompositionToDecodeBox {
    open spec fn spec_box_type() -> [u8; 4] {
        [0x63u8, 0x73u8, 0x6cu8, 0x67u8]
    }

    fn box_type() -> (r: [u8; 4]) {
        [0x63u8, 0x73u8, 0x6cu8, 0x67u8]
    }

    /// The fields in the layout of the version; version 0 has 32-bit values and the others 64-bit ones.
    open spec fn spec_parse_body(s: Seq<u8>) -> Result<CompositionToDecodeBox, IsoError> {
        if s.len() < 1 {
            Err(IsoError::UnexpectedEof)
        } else if s[0] != 0 {
            if s.len() < 44 {
                Err(IsoError::UnexpectedEof)
            } else {
                Ok(CompositionToDecodeBox {
                    full_header: FullBoxHeader { version: s[0], flags: be_u24_at(s, 1) },
                    composition_to_dt_shift: i64_of(be_u64_at(s, 4)),
                    least_decode_to_display_delta: i64_of(be_u64_at(s, 12)),
                    greatest_decode_to_display_delta: i64_of(be_u64_at(s, 20)),
                    composition_start_time: i64_of(be_u64_at(s, 28)),
                    composition_end_time: i64_of(be_u64_at(s, 36)),
                })
            }
        } else {
            if s.len() < 24 {
                Err(IsoError::UnexpectedEof)
            } else {
                Ok(CompositionToDecodeBox {
                    full_header: FullBoxHeader { version: s[0], flags: be_u24_at(s, 1) },
                    composition_to_dt_shift: (i32_of(be_u32_at(s, 4)) as i64),
                    least_decode_to_display_delta: (i32_of(be_u32_at(s, 8)) as i64),
                    greatest_decode_to_display_delta: (i32_of(be_u32_at(s, 12)) as i64),
                    composition_start_time: (i32_of(be_u32_at(s, 16)) as i64),
                    composition_end_time: (i32_of(be_u32_at(s, 20)) as i64),
                })
            }
        }
    }

    open spec fn spec_writable(v: CompositionToDecodeBox) -> bool {
        true
    }

    open spec fn spec_serialize_body(v: CompositionToDecodeBox) -> Seq<u8> {
        if v.full_header.version != 0 {
            seq![v.full_header.version] + u24_bytes(v.full_header.flags) + u64_bytes(u64_of(v.composition_to_dt_shift)) + u64_bytes(u64_of(v.least_decode_to_display_delta)) + u64_bytes(u64_of(v.greatest_decode_to_display_delta)) + u64_bytes(u64_of(v.composition_start_time)) + u64_bytes(u64_of(v.composition_end_time))
        } else {
            seq![v.full_header.version] + u24_bytes(v.full_header.flags) + u32_bytes(u32_of(v.composition_to_dt_shift as i32)) + u32_bytes(u32_of(v.least_decode_to_display_delta as i32)) + u32_bytes(u32_of(v.greatest_decode_to_display_delta as i32)) + u32_bytes(u32_of(v.composition_start_time as i32)) + u32_bytes(u32_of(v.composition_end_time as i32))
        }
    }

    /// Every field fits its width in the layout of the version.
    open spec fn spec_canonical(v: CompositionToDecodeBox) -> bool {
        if v.full_header.version != 0 {
            v.full_header.flags < 0x100_0000
        } else {
            v.full_header.flags < 0x100_0000 && i32::MIN <= v.composition_to_dt_shift <= i32::MAX && i32::MIN <= v.least_decode_to_display_delta <= i32::MAX && i32::MIN <= v.greatest_decode_to_display_delta <= i32::MAX && i32::MIN <= v.composition_start_time <= i32::MAX && i32::MIN <= v.composition_end_time <= i32::MAX
        }
    }

    proof fn lemma_box_type() {
        assert(Self::spec_box_type()[0] != spec_uuid_fourcc()[0] || Self::spec_box_type()[1] != spec_uuid_fourcc()[1]);
    }

    proof fn lemma_body_size(x: CompositionToDecodeBox) {
        broadcast use vstd::array::group_array_axioms;
        lemma_wide_bytes_len(u64_of(x.composition_end_time), 0);
        lemma_wide_bytes_len(u64_of(x.composition_start_time), 0);
        lemma_wide_bytes_len(u64_of(x.composition_to_dt_shift), 0);
        lemma_wide_bytes_len(u64_of(x.greatest_decode_to_display_delta), 0);
        lemma_wide_bytes_len(u64_of(x.least_decode_to_display_delta), 0);
    }

    proof fn lemma_body_roundtrip(v: CompositionToDecodeBox) {
        if v.full_header.version != 0 {
            lemma_composition_to_decode_box_wide_roundtrip(v);
        } else {
            lemma_composition_to_decode_box_narrow_roundtrip(v);
        }
    }

    fn parse_body(d: &[u8]) -> (r: Result<CompositionToDecodeBox, IsoError>) {
        if d.len() < 1 {
            return Err(IsoError::UnexpectedEof);
        }
        proof {
            reveal(be_u64_at);
        }
        if d[0] != 0 {
            if d.len() < 44 {
                return Err(IsoError::UnexpectedEof);
            }
            let full_header = FullBoxHeader { version: d[0], flags: read_u24_at(d, 1) };
            let composition_to_dt_shift = to_i64(read_u64_at(d, 4));
            let least_decode_to_display_delta = to_i64(read_u64_at(d, 12));
            let greatest_decode_to_display_delta = to_i64(read_u64_at(d, 20));
            let composition_start_time = to_i64(read_u64_at(d, 28));
            let composition_end_time = to_i64(read_u64_at(d, 36));
            Ok(CompositionToDecodeBox { full_header, composition_to_dt_shift, least_decode_to_display_delta, greatest_decode_to_display_delta, composition_start_time, composition_end_time })
        } else {
            if d.len() < 24 {
                return Err(IsoError::UnexpectedEof);
            }
            let full_header = FullBoxHeader { version: d[0], flags: read_u24_at(d, 1) };
            let composition_to_dt_shift = (to_i32(read_u32_at(d, 4)) as i64);
            let least_decode_to_display_delta = (to_i32(read_u32_at(d, 8)) as i64);
            let greatest_decode_to_display_delta = (to_i32(read_u32_at(d, 12)) as i64);
            let composition_start_time = (to_i32(read_u32_at(d, 16)) as i64);
            let composition_end_time = (to_i32(read_u32_at(d, 20)) as i64);
            Ok(CompositionToDecodeBox { full_header, composition_to_dt_shift, least_decode_to_display_delta, greatest_decode_to_display_delta, composition_start_time, composition_end_time })
        }
    }

    fn serialize_body(&self, out: &mut Vec<u8>) -> (r: Result<(), IsoError>) {
        let ghost before = out@;
        proof {
            lemma_wide_bytes_len(u64_of(self.composition_end_time), 0);
            lemma_wide_bytes_len(u64_of(self.composition_start_time), 0);
            lemma_wide_bytes_len(u64_of(self.composition_to_dt_shift), 0);
            lemma_wide_bytes_len(u64_of(self.greatest_decode_to_display_delta), 0);
            lemma_wide_bytes_len(u64_of(self.least_decode_to_display_delta), 0);
        }
        if self.full_header.version != 0 {
            write_u8(out, self.full_header.version);
            write_u24(out, self.full_header.flags);
            write_u64(out, from_i64(self.composition_to_dt_shift));
            write_u64(out, from_i64(self.least_decode_to_display_delta));
            write_u64(out, from_i64(self.greatest_decode_to_display_delta));
            write_u64(out, from_i64(self.composition_start_time));
            write_u64(out, from_i64(self.composition_end_time));
        } else {
            write_u8(out, self.full_header.version);
            write_u24(out, self.full_header.flags);
            write_u32(out, from_i32(self.composition_to_dt_shift as i32));
            write_u32(out, from_i32(self.least_decode_to_display_delta as i32));
            write_u32(out, from_i32(self.greatest_decode_to_display_delta as i32));
            write_u32(out, from_i32(self.composition_start_time as i32));
            write_u32(out, from_i32(self.composition_end_time as i32));
        }
        proof {
            assert(out@ =~= before + Self::spec_serialize_body(self@));
            lemma_append_prefix(before, Self::spec_serialize_body(self@));
        }
        Ok(())
    }
}

#[verifier::spinoff_prover]
#[verifier::rlimit(100)]
proof fn lemma_composition_to_decode_box_wide_roundtrip(v: CompositionToDecodeBox)
    requires
        v.full_header.version != 0,
        CompositionToDecodeBox::spec_canonical(v),
    ensures
        CompositionToDecodeBox::spec_parse_body(CompositionToDecodeBox::spec_serialize_body(v)) == Ok::<CompositionToDecodeBox, IsoError>(v),
{
    broadcast use vstd::array::group_array_axioms;
    lemma_wide_bytes_len(u64_of(v.composition_end_time), 0);
    lemma_wide_bytes_len(u64_of(v.composition_start_time), 0);
    lemma_wide_bytes_len(u64_of(v.composition_to_dt_shift), 0);
    lemma_wide_bytes_len(u64_of(v.greatest_decode_to_display_delta), 0);
    lemma_wide_bytes_len(u64_of(v.least_decode_to_display_delta), 0);
    let s = CompositionToDecodeBox::spec_serialize_body(v);
    assert(s[0] == v.full_header.version);
    assert(s.subrange(1, 4) =~= u24_bytes(v.full_header.flags));
    lemma_u24_at(s, 1, v.full_header.flags);
    assert(s.subrange(4, 12) =~= u64_bytes(u64_of(v.composition_to_dt_shift)));
    lemma_u64_at(s, 4, u64_of(v.composition_to_dt_shift));
    lemma_i64_roundtrip(v.composition_to_dt_shift);
    assert(s.subrange(12, 20) =~= u64_bytes(u64_of(v.least_decode_to_display_delta)));
    lemma_u64_at(s, 12, u64_of(v.least_decode_to_display_delta));
    lemma_i64_roundtrip(v.least_decode_to_display_delta);
    assert(s.subrange(20, 28) =~= u64_bytes(u64_of(v.greatest_decode_to_display_delta)));
    lemma_u64_at(s, 20, u64_of(v.greatest_decode_to_display_delta));
    lemma_i64_roundtrip(v.greatest_decode_to_display_delta);
    assert(s.subrange(28, 36) =~= u64_bytes(u64_of(v.composition_start_time)));
    lemma_u64_at(s, 28, u64_of(v.composition_start_time));
    lemma_i64_roundtrip(v.composition_start_time);
    assert(s.subrange(36, 44) =~= u64_bytes(u64_of(v.composition_end_time)));
    lemma_u64_at(s, 36, u64_of(v.composition_end_time));
    lemma_i64_roundtrip(v.composition_end_time);
}

#[verifier::spinoff_prover]
#[verifier::rlimit(100)]
proof fn lemma_composition_to_decode_box_narrow_roundtrip(v: CompositionToDecodeBox)
    requires
        v.full_header.version == 0,
        CompositionToDecodeBox::spec_canonical(v),
    ensures
        CompositionToDecodeBox::spec_parse_body(CompositionToDecodeBox::spec_serialize_body(v)) == Ok::<CompositionToDecodeBox, IsoError>(v),
{
    broadcast use vstd::array::group_array_axioms;
    lemma_wide_bytes_len(u64_of(v.composition_end_time), 0);
    lemma_wide_bytes_len(u64_of(v.composition_start_time), 0);
    lemma_wide_bytes_len(u64_of(v.composition_to_dt_shift), 0);
    lemma_wide_bytes_len(u64_of(v.greatest_decode_to_display_delta), 0);
    lemma_wide_bytes_len(u64_of(v.least_decode_to_display_delta), 0);
    let s = CompositionToDecodeBox::spec_serialize_body(v);
    assert(s[0] == v.full_header.version);
    assert(s.subrange(1, 4) =~= u24_bytes(v.full_header.flags));
    lemma_u24_at(s, 1, v.full_header.flags);
    assert(s.subrange(4, 8) =~= u32_bytes(u32_of(v.composition_to_dt_shift as i32)));
    lemma_u32_at(s, 4, u32_of(v.composition_to_dt_shift as i32));
    lemma_i32_roundtrip(v.composition_to_dt_shift as i32);
    assert(s.subrange(8, 12) =~= u32_bytes(u32_of(v.least_decode_to_display_delta as i32)));
    lemma_u32_at(s, 8, u32_of(v.least_decode_to_display_delta as i32));
    lemma_i32_roundtrip(v.least_decode_to_display_delta as i32);
    assert(s.subrange(12, 16) =~= u32_bytes(u32_of(v.greatest_decode_to_display_delta as i32)));
    lemma_u32_at(s, 12, u32_of(v.greatest_decode_to_display_delta as i32));
    lemma_i32_roundtrip(v.greatest_decode_to_display_delta as i32);
    assert(s.subrange(16, 20) =~= u32_bytes(u32_of(v.composition_start_time as i32)));
    lemma_u32_at(s, 16, u32_of(v.composition_start_time as i32));
    lemma_i32_roundtrip(v.composition_start_time as i32);
    assert(s.subrange(20, 24) =~= u32_bytes(u32_of(v.composition_end_time as i32)));
    lemma_u32_at(s, 20, u32_of(v.composition_end_time as i32));
    lemma_i32_roundtrip(v.composition_end_time as i32);
}

/// Entry in the [`EditListBox`].
#[derive(Debug, Clone, Copy, PartialEq, Eq, Structural)]
pub struct EditListBoxEntry {
    /// The duration of this edit, in the time units of the movie header box.
    pub edit_duration: u64,
    /// The starting time within the media of this edit; -1 marks an empty edit.
    pub media_time: i64,
    /// The relative rate at which to play the media of this edit, as a 16.16 fixed-point number.
    pub media_rate: i32,
}

impl View for EditListBoxEntry {
    type V = EditListBoxEntry;

    open spec fn view(&self) -> EditListBoxEntry {
        *self
    }
}

impl VersionedWire for EditListBoxEntry {
    /// The fields, with 64-bit values in version 1 and 32-bit ones otherwise.
    open spec fn spec_parse_v(s: Seq<u8>, version: u8) -> SpecParse<EditListBoxEntry> {
        if version == 1 {
            if s.len() < 20 {
                Err(IsoError::UnexpectedEof)
            } else {
                Ok((EditListBoxEntry {
                edit_duration: be_u64_at(s, 0),
                media_time: i64_of(be_u64_at(s, 8)),
                media_rate: i32_of(be_u32_at(s, 16)),
                }, 20))
            }
        } else {
            if s.len() < 12 {
                Err(IsoError::UnexpectedEof)
            } else {
                Ok((EditListBoxEntry {
                edit_duration: (be_u32_at(s, 0) as u64),
                media_time: (i32_of(be_u32_at(s, 4)) as i64),
                media_rate: i32_of(be_u32_at(s, 8)),
                }, 12))
            }
        }
    }

    open spec fn spec_writable_v(v: EditListBoxEntry, version: u8) -> bool {
        true
    }

    open spec fn spec_serialize_v(v: EditListBoxEntry, version: u8) -> Seq<u8> {
        if version == 1 {
            u64_bytes(v.edit_duration) + u64_bytes(u64_of(v.media_time)) + u32_bytes(u32_of(v.media_rate))
        } else {
            u32_bytes(v.edit_duration as u32) + u32_bytes(u32_of(v.media_time as i32)) + u32_bytes(u32_of(v.media_rate))
        }
    }

    /// In versions other than 1 the wide fields fit 32 bits.
    open spec fn spec_canonical_v(v: EditListBoxEntry, version: u8) -> bool {
        if version == 1 {
            true
        } else {
            v.edit_duration <= u32::MAX && i32::MIN <= v.media_time <= i32::MAX
        }
    }

    open spec fn spec_size_v(v: EditListBoxEntry, version: u8) -> nat {
        if version == 1 { 20 } else { 12 }
    }

    proof fn lemma_parse_len_v(s: Seq<u8>, version: u8) {
    }

    proof fn lemma_size_v(x: EditListBoxEntry, version: u8) {
        lemma_wide_bytes_len(x.edit_duration, 0);
        lemma_wide_bytes_len(u64_of(x.media_time), 0);
    }

    proof fn lemma_roundtrip_v(v: EditListBoxEntry, version: u8, rest: Seq<u8>) {
        lemma_wide_bytes_len(v.edit_duration, 0);
        lemma_wide_bytes_len(u64_of(v.media_time), 0);
        let s = Self::spec_serialize_v(v, version) + rest;
        if version == 1 {
            assert(s.subrange(0, 8) =~= u64_bytes(v.edit_duration));
            lemma_u64_at(s, 0, v.edit_duration);
            assert(s.subrange(8, 16) =~= u64_bytes(u64_of(v.media_time)));
            lemma_u64_at(s, 8, u64_of(v.media_time));
            lemma_i64_roundtrip(v.media_time);
            assert(s.subrange(16, 20) =~= u32_bytes(u32_of(v.media_rate)));
            lemma_u32_at(s, 16, u32_of(v.media_rate));
            lemma_i32_roundtrip(v.media_rate);
        } else {
            assert(s.subrange(0, 4) =~= u32_bytes(v.edit_duration as u32));
            lemma_u32_at(s, 0, v.edit_duration as u32);
            assert(s.subrange(4, 8) =~= u32_bytes(u32_of(v.media_time as i32)));
            lemma_u32_at(s, 4, u32_of(v.media_time as i32));
            lemma_i32_roundtrip(v.media_time as i32);
            assert(s.subrange(8, 12) =~= u32_bytes(u32_of(v.media_rate)));
            lemma_u32_at(s, 8, u32_of(v.media_rate));
            lemma_i32_roundtrip(v.media_rate);
        }
    }

    fn parse_v(data: &[u8], pos: usize, version: u8) -> (r: Result<(EditListBoxEntry, usize), IsoError>) {
        let d = vstd::slice::slice_subrange(data, pos, data.len());
        proof {
            assert(d@ =~= data@.skip(pos as int));
            reveal(be_u64_at);
        }
        if version == 1 {
            if d.len() < 20 {
                return Err(IsoError::UnexpectedEof);
            }
            let edit_duration = read_u64_at(d, 0);
            let media_time = to_i64(read_u64_at(d, 8));
            let media_rate = to_i32(read_u32_at(d, 16));
            Ok((EditListBoxEntry { edit_duration, media_time, media_rate }, pos + 20))
        } else {
            if d.len() < 12 {
                return Err(IsoError::UnexpectedEof);
            }
            let edit_duration = (read_u32_at(d, 0) as u64);
            let media_time = (to_i32(read_u32_at(d, 4)) as i64);
            let media_rate = to_i32(read_u32_at(d, 8));
            Ok((EditListBoxEntry { edit_duration, media_time, media_rate }, pos + 12))
        }
    }

    fn serialize_v(&self, out: &mut Vec<u8>, version: u8) -> (r: Result<(), IsoError>) {
        let ghost before = out@;
        proof {
            lemma_wide_bytes_len(self.edit_duration, 0);
            lemma_wide_bytes_len(u64_of(self.media_time), 0);
        }
        if version == 1 {
            write_u64(out, self.edit_duration);
            write_u64(out, from_i64(self.media_time));
            write_u32(out, from_i32(self.media_rate));
        } else {
            write_u32(out, self.edit_duration as u32);
            write_u32(out, from_i32(self.media_time as i32));
            write_u32(out, from_i32(self.media_rate));
        }
        proof {
            assert(out@ =~= before + Self::spec_serialize_v(self@, version));
            lemma_append_prefix(before, Self::spec_serialize_v(self@, version));
        }
        Ok(())
    }

    fn size_v(&self, version: u8) -> (n: usize) {
        if version == 1 { 20 } else { 12 }
    }
}

/// Edit list box
///
/// ISO/IEC 14496-12 - 8.6.6
#[derive(Debug, PartialEq, Eq)]
pub struct EditListBox {
    /// The full box header; version 1 has 64-bit entries.
    pub full_header: FullBoxHeader,
    /// The number of entries.
    pub entry_count: u32,
    /// `edit_duration`, `media_time`, and `media_rate`.
    pub entries: Vec<EditListBoxEntry>,
}

/// The model of an [`EditListBox`].
pub struct EditListBoxModel {
    pub full_header: FullBoxHeader,
    pub entry_count: u32,
    pub entries: Seq<EditListBoxEntry>,
}

impl View for EditListBox {
    type V = EditListBoxModel;

    open spec fn view(&self) -> EditListBoxModel {
        EditListBoxModel { full_header: self.full_header, entry_count: self.entry_count, entries: views(self.entries@) }
    }
}

impl IsoSized for EditListBox {
    open spec fn spec_size(&self) -> nat {
        add_header_size(8 + size_seq_v::<EditListBoxEntry>(views(self.entries@), self.full_header.version))
    }

    fn size(&self) -> (n: usize) {
        proof {
            lemma_size_seq_v_mono::<EditListBoxEntry>(views(self.entries@), 0, self.full_header.version);
        }
        add_header_size_exec(8 + size_all_v(&self.entries, self.full_header.version))
    }
}

impl BoxBody for EditListBox {
    open spec fn spec_box_type() -> [u8; 4] {
        [0x65u8, 0x6cu8, 0x73u8, 0x74u8]
    }

    fn box_type() -> (r: [u8; 4]) {
        [0x65u8, 0x6cu8, 0x73u8, 0x74u8]
    }

    /// The full header, a 32-bit count, then that many entries in the layout of the version.
    open spec fn spec_parse_body(s: Seq<u8>) -> Result<EditListBoxModel, IsoError> {
        if s.len() < 8 {
            Err(IsoError::UnexpectedEof)
        } else {
            let version = s[0];
            let count = be_u32_at(s, 4);
            match parse_count_v::<EditListBoxEntry>(s.skip(8), count as nat, version) {
                Ok((items, _)) => Ok(
                    EditListBoxModel {
                        full_header: FullBoxHeader { version, flags: be_u24_at(s, 1) },
                        entry_count: count,
                        entries: items,
                    },
                ),
                Err(e) => Err(e),
            }
        }
    }

    open spec fn spec_writable(v: EditListBoxModel) -> bool {
        true
    }

    open spec fn spec_serialize_body(v: EditListBoxModel) -> Seq<u8> {
        seq![v.full_header.version] + u24_bytes(v.full_header.flags) + u32_bytes(v.entry_count) + ser_seq_v::<
            EditListBoxEntry,
        >(v.entries, v.full_header.version)
    }

    /// The count is the number of entries, and each entry fits the layout of the version.
    open spec fn spec_canonical(v: EditListBoxModel) -> bool {
        &&& v.full_header.flags < 0x100_0000
        &&& v.entries.len() == v.entry_count
        &&& canonical_seq_v::<EditListBoxEntry>(v.entries, v.full_header.version)
    }

    proof fn lemma_box_type() {
        assert(Self::spec_box_type()[0] != spec_uuid_fourcc()[0]);
    }

    proof fn lemma_body_size(x: EditListBox) {
        lemma_size_seq_v::<EditListBoxEntry>(x@.entries, x.full_header.version);
    }

    proof fn lemma_body_roundtrip(v: EditListBoxModel) {
        let version = v.full_header.version;
        let s = Self::spec_serialize_body(v);
        assert(s.subrange(1, 4) =~= u24_bytes(v.full_header.flags));
        lemma_u24_at(s, 1, v.full_header.flags);
        assert(s.subrange(4, 8) =~= u32_bytes(v.entry_count));
        lemma_u32_at(s, 4, v.entry_count);
        assert(s.skip(8) =~= ser_seq_v::<EditListBoxEntry>(v.entries, version) + Seq::<u8>::empty());
        lemma_count_roundtrip_v::<EditListBoxEntry>(v.entries, version, Seq::<u8>::empty());
    }

    fn parse_body(d: &[u8]) -> (r: Result<EditListBox, IsoError>) {
        if d.len() < 8 {
            return Err(IsoError::UnexpectedEof);
        }
        let version = d[0];
        let full_header = FullBoxHeader { version, flags: read_u24_at(d, 1) };
        let entry_count = read_u32_at(d, 4);
        let (entries, _end) = parse_counted_v::<EditListBoxEntry>(d, 8, entry_count as usize, version)?;
        Ok(EditListBox { full_header, entry_count, entries })
    }

    fn serialize_body(&self, out: &mut Vec<u8>) -> (r: Result<(), IsoError>) {
        let ghost before = out@;
        let version = self.full_header.version;
        write_u8(out, version);
        write_u24(out, self.full_header.flags);
        write_u32(out, self.entry_count);
        let _ = serialize_all_v(&self.entries, out, version);
        proof {
            assert(out@ =~= before + Self::spec_serialize_body(self@));
            lemma_append_prefix(before, Self::spec_serialize_body(self@));
        }
        Ok(())
    }
}

impl EditListBoxEntry {
    /// The size of the entry in a box of `version`: 20 bytes in version 1, 12 otherwise.
    pub fn size(&self, version: u8) -> (n: usize)
        ensures
            n == EditListBoxEntry::spec_size_v(*self, version),
    {
        self.size_v(version)
    }
}


/// Reading exactly `count` entries of a composition offset box of `version`.
pub open spec fn parse_count_ctts(s: Seq<u8>, count: nat, version: u8) -> SpecParse<Seq<CompositionOffsetBoxEntry>>
    decreases count,
{
    if count == 0 {
        Ok((Seq::empty(), 0))
    } else {
        match parse_count_ctts(s, (count - 1) as nat, version) {
            Ok((items, k)) => match ctts_entry_parse(s.skip(k), version) {
                Ok((v, n)) => Ok((items.push(v), k + n)),
                Err(e) => Err(e),
            },
            Err(e) => Err(e),
        }
    }
}

/// Once reading entries has failed, reading more fails the same way.
pub proof fn lemma_parse_count_ctts_err(s: Seq<u8>, i: nat, j: nat, version: u8)
    requires
        i <= j,
        parse_count_ctts(s, i, version) is Err,
    ensures
        parse_count_ctts(s, j, version) == parse_count_ctts(s, i, version),
    decreases j,
{
    if j > i {
        lemma_parse_count_ctts_err(s, i, (j - 1) as nat, version);
    }
}

/// The entries of a list take eight bytes each.
pub proof fn lemma_ser_ctts_len(items: Seq<CompositionOffsetBoxEntry>)
    ensures
        ser_ctts(items).len() == 8 * items.len(),
    decreases items.len(),
{
    if items.len() > 0 {
        lemma_ser_ctts_len(items.drop_last());
    }
}

/// The bytes of a list of entries.
pub open spec fn ser_ctts(items: Seq<CompositionOffsetBoxEntry>) -> Seq<u8>
    decreases items.len(),
{
    if items.len() == 0 {
        Seq::empty()
    } else {
        ser_ctts(items.drop_last()) + ctts_entry_bytes(items.last())
    }
}

/// Composition time to sample box
///
/// ISO/IEC 14496-12 - 8.6.1.3
#[derive(Debug)]
pub struct CompositionOffsetBox {
    /// The full box header; entries are read in versions 0 and 1 only.
    pub full_header: FullBoxHeader,
    /// The number of entries.
    pub entry_count: u32,
    /// `sample_count` and `sample_offset`.
    pub entries: Vec<CompositionOffsetBoxEntry>,
}

/// The model of a [`CompositionOffsetBox`].
pub struct CompositionOffsetBoxModel {
    pub full_header: FullBoxHeader,
    pub entry_count: u32,
    pub entries: Seq<CompositionOffsetBoxEntry>,
}

impl View for CompositionOffsetBox {
    type V = CompositionOffsetBoxModel;

    open spec fn view(&self) -> CompositionOffsetBoxModel {
        CompositionOffsetBoxModel { full_header: self.full_header, entry_count: self.entry_count, entries: self.entries@ }
    }
}

impl IsoSized for CompositionOffsetBox {
    /// The written fields: eight bytes for each entry.
    open spec fn spec_size(&self) -> nat {
        add_header_size(8 + 8 * self.entries@.len())
    }

    fn size(&self) -> (n: usize) {
        add_header_size_exec(8 + 8 * self.entries.len())
    }
}

impl BoxBody for CompositionOffsetBox {
    open spec fn spec_box_type() -> [u8; 4] {
        [0x63u8, 0x74u8, 0x74u8, 0x73u8]
    }

    fn box_type() -> (r: [u8; 4]) {
        [0x63u8, 0x74u8, 0x74u8, 0x73u8]
    }

    /// The full header, the count, then in versions 0 and 1 that many entries of eight
    /// bytes; other versions have no entries.
    open spec fn spec_parse_body(s: Seq<u8>) -> Result<CompositionOffsetBoxModel, IsoError> {
        if s.len() < 8 {
            Err(IsoError::UnexpectedEof)
        } else {
            let version = s[0];
            let entries = if version <= 1 {
                match parse_count_ctts(s.skip(8), be_u32_at(s, 4) as nat, version) {
                    Ok((es, _)) => Ok(es),
                    Err(e) => Err(e),
                }
            } else {
                Ok(Seq::empty())
            };
            match entries {
                Ok(es) => Ok(
                    CompositionOffsetBoxModel {
                        full_header: FullBoxHeader { version, flags: be_u24_at(s, 1) },
                        entry_count: be_u32_at(s, 4),
                        entries: es,
                    },
                ),
                Err(e) => Err(e),
            }
        }
    }

    open spec fn spec_writable(v: CompositionOffsetBoxModel) -> bool {
        true
    }

    /// The full header, the count, then the entries with 32-bit offsets.
    open spec fn spec_serialize_body(v: CompositionOffsetBoxModel) -> Seq<u8> {
        seq![v.full_header.version] + u24_bytes(v.full_header.flags) + u32_bytes(v.entry_count) + ser_ctts(v.entries)
    }

    /// The flags fit in 24 bits; in versions 0 and 1 the count is the number of
    /// entries and each offset fits the field of the version; other versions have no
    /// entries.
    open spec fn spec_canonical(v: CompositionOffsetBoxModel) -> bool {
        &&& v.full_header.flags < 0x100_0000
        &&& v.full_header.version <= 1 ==> v.entry_count == v.entries.len()
        &&& v.full_header.version > 1 ==> v.entries.len() == 0
        &&& forall|i: int| 0 <= i < v.entries.len() ==> #[trigger] ctts_entry_fits(v.entries[i], v.full_header.version)
    }

    proof fn lemma_box_type() {
        assert(Self::spec_box_type()[0] != spec_uuid_fourcc()[0]);
    }

    proof fn lemma_body_size(x: CompositionOffsetBox) {
        lemma_ser_ctts_len(x@.entries);
    }

    proof fn lemma_body_roundtrip(v: CompositionOffsetBoxModel) {
        let s = Self::spec_serialize_body(v);
        assert(s.subrange(1, 4) =~= u24_bytes(v.full_header.flags));
        lemma_u24_at(s, 1, v.full_header.flags);
        assert(s.subrange(4, 8) =~= u32_bytes(v.entry_count));
        lemma_u32_at(s, 4, v.entry_count);
        if v.full_header.version <= 1 {
            lemma_ctts_roundtrip(v.entries, v.full_header.version, Seq::empty());
            assert(s.skip(8) =~= ser_ctts(v.entries) + Seq::<u8>::empty());
        } else {
            assert(v.entries =~= Seq::<CompositionOffsetBoxEntry>::empty());
        }
    }

    fn parse_body(d: &[u8]) -> (r: Result<CompositionOffsetBox, IsoError>) {
        if d.len() < 8 {
            return Err(IsoError::UnexpectedEof);
        }
        let version = d[0];
        let full_header = FullBoxHeader { version, flags: read_u24_at(d, 1) };
        let entry_count = read_u32_at(d, 4);
        let mut entries: Vec<CompositionOffsetBoxEntry> = Vec::new();
        if version <= 1 {
            let ghost s = d@.skip(8);
            let mut p: usize = 8;
            let mut i: u32 = 0;
            while i < entry_count
                invariant
                    s == d@.skip(8),
                    d@.len() >= 8,
                    version == d@[0],
                    version <= 1,
                    entry_count == be_u32_at(d@, 4),
                    8 <= p <= d@.len(),
                    i <= entry_count,
                    parse_count_ctts(s, i as nat, version) == Ok::<(Seq<CompositionOffsetBoxEntry>, int), IsoError>(
                        (entries@, p - 8),
                    ),
                decreases entry_count - i,
            {
                proof {
                    assert(s.skip(p - 8) =~= d@.skip(p as int));
                }
                match CompositionOffsetBoxEntry::parse_with(d, p, version) {
                    Ok((e, np)) => {
                        entries.push(e);
                        p = np;
                        i = i + 1;
                    },
                    Err(err) => {
                        proof {
                            assert(parse_count_ctts(s, (i + 1) as nat, version) == Err::<(Seq<CompositionOffsetBoxEntry>, int), IsoError>(err));
                            lemma_parse_count_ctts_err(s, (i + 1) as nat, entry_count as nat, version);
                        }
                        return Err(err);
                    },
                }
            }
        }
        Ok(CompositionOffsetBox { full_header, entry_count, entries })
    }

    fn serialize_body(&self, out: &mut Vec<u8>) -> (r: Result<(), IsoError>) {
        let ghost before = out@;
        write_u8(out, self.full_header.version);
        write_u24(out, self.full_header.flags);
        write_u32(out, self.entry_count);
        let ghost head = out@;
        let mut i: usize = 0;
        assert(self.entries@.take(0) =~= Seq::<CompositionOffsetBoxEntry>::empty());
        while i < self.entries.len()
            invariant
                i <= self.entries@.len(),
                out@ == head + ser_ctts(self.entries@.take(i as int)),
            decreases self.entries@.len() - i,
        {
            proof {
                assert(self.entries@.take(i + 1).drop_last() =~= self.entries@.take(i as int));
            }
            self.entries[i].serialize(out);
            i = i + 1;
        }
        proof {
            assert(self.entries@.take(i as int) =~= self.entries@);
            assert(out@ =~= before + Self::spec_serialize_body(self@));
            lemma_append_prefix(before, Self::spec_serialize_body(self@));
        }
        Ok(())
    }
}


/// An entry of the shadow sync sample box is eight bytes: the shadowed sample number spelled by the first four, big-endian, then the sync sample number by the next four.
pub proof fn lemma_shadow_sync_entry_layout(s: Seq<u8>)
    ensures
        s.len() < 8 ==> ShadowSyncSampleBoxEntry::spec_parse(s) == Err::<(ShadowSyncSampleBoxEntry, int), IsoError>(IsoError::UnexpectedEof),
        s.len() >= 8 ==> (ShadowSyncSampleBoxEntry::spec_parse(s) matches Ok((e, n)) && n == 8 && e.shadowed_sample_number == crate::codec::be_int(s, 0, 4) && e.sync_sample_number == crate::codec::be_int(s, 4, 4)),
{
    if s.len() >= 8 {
        crate::codec::lemma_be_int_u32(s, 0);
        crate::codec::lemma_be_int_u32(s, 4);
    }
}

/// Writing a shadow sync entry gives eight bytes: the shadowed sample number, then the sync sample number.
pub proof fn lemma_shadow_sync_entry_bytes(e: ShadowSyncSampleBoxEntry)
    ensures
        ShadowSyncSampleBoxEntry::spec_serialize(e).len() == 8,
        crate::codec::be_int(ShadowSyncSampleBoxEntry::spec_serialize(e), 0, 4) == e.shadowed_sample_number,
        crate::codec::be_int(ShadowSyncSampleBoxEntry::spec_serialize(e), 4, 4) == e.sync_sample_number,
{
    let w = ShadowSyncSampleBoxEntry::spec_serialize(e);
    assert(w.subrange(0, 4) =~= u32_bytes(e.shadowed_sample_number));
    crate::codec::lemma_be_int_u32_bytes(w, 0, e.shadowed_sample_number);
    assert(w.subrange(4, 8) =~= u32_bytes(e.sync_sample_number));
    crate::codec::lemma_be_int_u32_bytes(w, 4, e.sync_sample_number);
}


/// An edit list entry (ISO/IEC 14496-12 - 8.6.6): in version 1 the segment duration
/// is spelled by bytes 0..8, the media time by bytes 8..16 (two's complement) and the
/// media rate by bytes 16..20 (two's complement), twenty bytes in all; in other
/// versions the duration by bytes 0..4, the media time by 4..8 and the media rate by
/// 8..12 (both two's complement), twelve bytes in all.
pub proof fn lemma_edit_list_entry_layout(s: Seq<u8>, version: u8)
    ensures
        version == 1 && s.len() < 20 ==> EditListBoxEntry::spec_parse_v(s, version) == Err::<
            (EditListBoxEntry, int),
            IsoError,
        >(IsoError::UnexpectedEof),
        version != 1 && s.len() < 12 ==> EditListBoxEntry::spec_parse_v(s, version) == Err::<
            (EditListBoxEntry, int),
            IsoError,
        >(IsoError::UnexpectedEof),
        version == 1 && s.len() >= 20 ==> (EditListBoxEntry::spec_parse_v(s, version) matches Ok((e, n)) && n == 20
            && e.edit_duration == crate::codec::be_int(s, 0, 8) && e.media_time == crate::codec::be_signed64(s, 8)
            && e.media_rate == crate::codec::be_signed32(s, 16)),
        version != 1 && s.len() >= 12 ==> (EditListBoxEntry::spec_parse_v(s, version) matches Ok((e, n)) && n == 12
            && e.edit_duration == crate::codec::be_int(s, 0, 4) && e.media_time == crate::codec::be_signed32(s, 4)
            && e.media_rate == crate::codec::be_signed32(s, 8)),
{
    if version == 1 && s.len() >= 20 {
        crate::codec::lemma_be_int_u64(s, 0);
        crate::codec::lemma_be_signed64(s, 8);
        crate::codec::lemma_be_signed32(s, 16);
    } else if version != 1 && s.len() >= 12 {
        crate::codec::lemma_be_int_u32(s, 0);
        crate::codec::lemma_be_signed32(s, 4);
        crate::codec::lemma_be_signed32(s, 8);
    }
}

/// A composition offset entry (ISO/IEC 14496-12 - 8.6.1.3) is eight bytes: the sample
/// count spelled by bytes 0..4, then the offset by bytes 4..8, unsigned in version 0
/// and two's complement in version 1.
pub proof fn lemma_composition_offset_entry_layout(s: Seq<u8>, version: u8)
    ensures
        s.len() < 4 ==> ctts_entry_parse(s, version) == Err::<(CompositionOffsetBoxEntry, int), IsoError>(
            IsoError::UnexpectedEof,
        ),
        version <= 1 && s.len() >= 8 ==> (ctts_entry_parse(s, version) matches Ok((e, n)) && n == 8 && e.sample_count
            == crate::codec::be_int(s, 0, 4) && e.sample_offset == (if version == 0 {
            crate::codec::be_int(s, 4, 4)
        } else {
            crate::codec::be_signed32(s, 4)
        })),
{
    if s.len() >= 8 {
        crate::codec::lemma_be_int_u32(s, 0);
        crate::codec::lemma_be_int_u32(s, 4);
        crate::codec::lemma_be_signed32(s, 4);
    }
}


/// The sync sample box body (ISO/IEC 14496-12 - 8.6.2): the version byte, three flag bytes, the entry count spelled by bytes 4..8, then one sample number for each whole four bytes to the end, in order.
pub proof fn lemma_sync_sample_layout(s: Seq<u8>)
    ensures
        s.len() < 8 ==> SyncSampleBox::spec_parse_body(s) == Err::<SyncSampleBoxModel, IsoError>(IsoError::UnexpectedEof),
        s.len() >= 8 ==> (SyncSampleBox::spec_parse_body(s) matches Ok(h) && h.full_header.version == s[0]
            && h.full_header.flags == crate::codec::be_int(s, 1, 3) && h.entry_count == crate::codec::be_int(s, 4, 4)
            && h.sample_number.len() == (s.len() - 8) / 4 && forall|i: int|
            0 <= i < h.sample_number.len() ==> #[trigger] h.sample_number[i] == crate::codec::be_int(s, 8 + 4 * i, 4)),
{
    if s.len() >= 8 {
        let t = s.skip(8);
        crate::codec::lemma_be_int_u24(s, 1);
        crate::codec::lemma_be_int_u32(s, 4);
        crate::wire::lemma_u32_list_layout(t);
        if let Ok((xs, _)) = parse_rest::<u32>(t) {
            assert forall|i: int| 0 <= i < xs.len() implies #[trigger] xs[i] == crate::codec::be_int(s, 8 + 4 * i, 4) by {
                assert(t.subrange(4 * i, 4 * i + 4) =~= s.subrange(8 + 4 * i, 8 + 4 * i + 4));
                crate::codec::lemma_be_int_subrange(t, s, 4 * i, 8 + 4 * i, 4);
            }
        }
    }
}


/// An entry of the sample dependency type box (ISO/IEC 14496-12 - 8.6.4) is one byte
/// holding four 2-bit fields from the top bit down: is leading, depends on, is
/// depended on, has redundancy.
pub proof fn lemma_sample_dependency_entry_layout(s: Seq<u8>)
    ensures
        s.len() < 1 ==> SampleDependencyTypeBoxEntry::spec_parse(s) == Err::<(SampleDependencyTypeBoxEntry, int), IsoError>(
            IsoError::UnexpectedEof,
        ),
        s.len() >= 1 ==> (SampleDependencyTypeBoxEntry::spec_parse(s) matches Ok((e, n)) && n == 1 && e.is_leading
            == s[0] / 64 && e.sample_depends_on == s[0] / 16 % 4 && e.sample_is_depended_on == s[0] / 4 % 4
            && e.sample_has_redundancy == s[0] % 4),
{
    if s.len() >= 1 {
        let b = s[0];
        assert(((b >> 6u8) & 3) == b / 64 && ((b >> 4u8) & 3) == b / 16 % 4 && ((b >> 2u8) & 3) == b / 4 % 4 && (b
            & 3) == b % 4) by (bit_vector);
    }
}


/// The composition to decode body (ISO/IEC 14496-12 - 8.6.1.4): after the version byte
/// and three flag bytes, five two's complement values in the order composition to
/// decode shift, least and greatest decode to display delta, composition start and
/// end time; eight bytes each (from byte 4) in versions other than 0, four bytes each
/// in version 0.
pub proof fn lemma_composition_to_decode_layout(s: Seq<u8>)
    ensures
        s.len() >= 44 && s[0] != 0 ==> (CompositionToDecodeBox::spec_parse_body(s) matches Ok(h)
            && h.composition_to_dt_shift == crate::codec::be_signed64(s, 4) && h.least_decode_to_display_delta
            == crate::codec::be_signed64(s, 12) && h.greatest_decode_to_display_delta == crate::codec::be_signed64(s, 20)
            && h.composition_start_time == crate::codec::be_signed64(s, 28) && h.composition_end_time
            == crate::codec::be_signed64(s, 36)),
        s.len() >= 24 && s[0] == 0 ==> (CompositionToDecodeBox::spec_parse_body(s) matches Ok(h)
            && h.composition_to_dt_shift == crate::codec::be_signed32(s, 4) && h.least_decode_to_display_delta
            == crate::codec::be_signed32(s, 8) && h.greatest_decode_to_display_delta == crate::codec::be_signed32(s, 12)
            && h.composition_start_time == crate::codec::be_signed32(s, 16) && h.composition_end_time
            == crate::codec::be_signed32(s, 20)),
        s.len() < 24 ==> CompositionToDecodeBox::spec_parse_body(s) is Err,
{
    if s.len() >= 44 && s[0] != 0 {
        crate::codec::lemma_be_signed64(s, 4);
        crate::codec::lemma_be_signed64(s, 12);
        crate::codec::lemma_be_signed64(s, 20);
        crate::codec::lemma_be_signed64(s, 28);
        crate::codec::lemma_be_signed64(s, 36);
    } else if s.len() >= 24 && s[0] == 0 {
        crate::codec::lemma_be_signed32(s, 4);
        crate::codec::lemma_be_signed32(s, 8);
        crate::codec::lemma_be_signed32(s, 12);
        crate::codec::lemma_be_signed32(s, 16);
        crate::codec::lemma_be_signed32(s, 20);
    }
}

} // verus!
