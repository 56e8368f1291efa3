//! File delivery structures (ISO/IEC 14496-12 - 8.13).

use vstd::prelude::*;

use crate::codec::{
    be_u16_at, be_u24_at, be_u32_at, lemma_append_prefix, lemma_u16_at, lemma_u24_at, lemma_u32_at,
    read_u16_at, read_u24_at, read_u32_at, u16_bytes, u24_bytes, u32_bytes, write_u16, write_u24,
    write_u32, write_u8, IsoError, SpecParse,
};
use crate::common_types::{
    base64_decoded, base64_encoded, base64_len, base64_string_parse, lemma_base64_roundtrip, Base64String,
    Utf8String,
};
use crate::frame::{add_header_size, add_header_size_exec, BoxBody};
use crate::header::{spec_uuid_fourcc, FullBoxHeader};
use crate::versioned::{
    canonical_seq_v, lemma_count_roundtrip_v, lemma_parse_count_v_len, lemma_size_seq_v,
    lemma_size_seq_v_mono, parse_count_v, parse_counted_v, ser_seq_v, serialize_all_v, size_all_v,
    size_seq_v, writable_seq_v, VersionedWire,
};
use crate::wire::{
    canonical_seq, lemma_count_roundtrip, lemma_parse_count_len, lemma_ser_seq_fixed, lemma_size_seq, lemma_size_seq_mono,
    parse_count, parse_counted, parse_matches, ser_seq, serialize_all, size_all, size_seq, views,
    writable_seq, IsoSized, Wire,
};

verus! {

/// The width of an item identifier or entry count in a box of `version`: 16 bits in
/// version 0, 32 bits otherwise.
pub open spec fn id_width(version: u8) -> nat {
    if version == 0 { 2 } else { 4 }
}

/// A 16- or 32-bit field of a box of `version`, at offset `i`.
pub open spec fn versioned_u32_at(s: Seq<u8>, i: int, version: u8) -> u32 {
    if version == 0 { be_u16_at(s, i) as u32 } else { be_u32_at(s, i) }
}

/// The bytes of a 16- or 32-bit field in a box of `version`; in version 0 the value is
/// cut to its low 16 bits.
pub open spec fn versioned_u32_bytes(v: u32, version: u8) -> Seq<u8> {
    if version == 0 { u16_bytes(v as u16) } else { u32_bytes(v) }
}

/// A value that its field in a box of `version` holds.
pub open spec fn versioned_u32_fits(v: u32, version: u8) -> bool {
    version == 0 ==> v < 0x10000
}

pub proof fn lemma_versioned_u32_at(s: Seq<u8>, i: int, v: u32, version: u8)
    requires
        versioned_u32_fits(v, version),
        0 <= i,
        i + id_width(version) <= s.len(),
        s.subrange(i, i + id_width(version)) == versioned_u32_bytes(v, version),
    ensures
        versioned_u32_at(s, i, version) == v,
        versioned_u32_bytes(v, version).len() == id_width(version),
{
    if version == 0 {
        lemma_u16_at(s, i, v as u16);
        assert((v as u16) as u32 == v) by (bit_vector)
            requires
                v < 0x10000,
        ;
    } else {
        lemma_u32_at(s, i, v);
    }
}

pub fn read_versioned_u32_at(data: &[u8], pos: usize, version: u8) -> (v: u32)
    requires
        pos + id_width(version) <= data@.len(),
    ensures
        v == versioned_u32_at(data@, pos as int, version),
{
    if version == 0 { read_u16_at(data, pos) as u32 } else { read_u32_at(data, pos) }
}

pub fn write_versioned_u32(out: &mut Vec<u8>, v: u32, version: u8)
    ensures
        final(out)@ == old(out)@ + versioned_u32_bytes(v, version),
{
    if version == 0 {
        write_u16(out, v as u16);
    } else {
        write_u32(out, v);
    }
}


/// An entry of the file partition box: a run of blocks of one size.
#[derive(Debug, Clone, Copy, PartialEq, Eq, Structural)]
pub struct FilePartitionBoxEntry {
    /// The number of consecutive source blocks of this size.
    pub block_count: u16,
    /// The size of each of these blocks, in bytes.
    pub block_size: u32,
}

impl View for FilePartitionBoxEntry {
    type V = FilePartitionBoxEntry;

    open spec fn view(&self) -> FilePartitionBoxEntry {
        *self
    }
}

impl IsoSized for FilePartitionBoxEntry {
    open spec fn spec_size(&self) -> nat {
        6
    }

    fn size(&self) -> (n: usize) {
        6
    }
}

impl Wire for FilePartitionBoxEntry {
    open spec fn spec_parse(s: Seq<u8>) -> SpecParse<FilePartitionBoxEntry> {
        if s.len() < 6 {
            Err(IsoError::UnexpectedEof)
        } else {
            Ok((FilePartitionBoxEntry {
                block_count: be_u16_at(s, 0),
                block_size: be_u32_at(s, 2),
            }, 6))
        }
    }

    open spec fn spec_writable(v: FilePartitionBoxEntry) -> bool {
        true
    }

    open spec fn spec_serialize(v: FilePartitionBoxEntry) -> Seq<u8> {
        u16_bytes(v.block_count) + u32_bytes(v.block_size)
    }

    open spec fn spec_canonical(v: FilePartitionBoxEntry) -> bool {
        true
    }

    proof fn lemma_parse_len(s: Seq<u8>) {
    }

    proof fn lemma_size(x: FilePartitionBoxEntry) {
    }

    proof fn lemma_roundtrip(v: FilePartitionBoxEntry, rest: Seq<u8>) {
        let s = Self::spec_serialize(v) + rest;
        assert(s.subrange(0, 2) =~= u16_bytes(v.block_count));
        lemma_u16_at(s, 0, v.block_count);
        assert(s.subrange(2, 6) =~= u32_bytes(v.block_size));
        lemma_u32_at(s, 2, v.block_size);
    }

    fn parse(data: &[u8], pos: usize) -> (r: Result<(FilePartitionBoxEntry, usize), IsoError>) {
        if data.len() - pos < 6 {
            return Err(IsoError::UnexpectedEof);
        }
        let d = &data[pos..data.len()];
        proof {
            assert(d@ =~= data@.skip(pos as int));
        }
        let block_count = read_u16_at(d, 0);
        let block_size = read_u32_at(d, 2);
        Ok((FilePartitionBoxEntry { block_count, block_size }, pos + 6))
    }

    fn serialize(&self, out: &mut Vec<u8>) -> (r: Result<(), IsoError>) {
        let ghost before = out@;
        write_u16(out, self.block_count);
        write_u32(out, self.block_size);
        proof {
            assert(out@ =~= before + Self::spec_serialize(self@));
            lemma_append_prefix(before, Self::spec_serialize(self@));
        }
        Ok(())
    }
}

/// An entry of the fEC reservoir box.
#[derive(Debug, Clone, Copy, PartialEq, Eq, Structural)]
pub struct FECReservoirBoxEntry {
    /// The item: 16 bits in version 0, 32 bits otherwise.
    pub item_id: u32,
    /// The number of symbols.
    pub symbol_count: u32,
}

impl View for FECReservoirBoxEntry {
    type V = FECReservoirBoxEntry;

    open spec fn view(&self) -> FECReservoirBoxEntry {
        *self
    }
}

impl VersionedWire for FECReservoirBoxEntry {
    open spec fn spec_parse_v(s: Seq<u8>, version: u8) -> SpecParse<FECReservoirBoxEntry> {
        let w = id_width(version) as int;
        if s.len() < w + 4 {
            Err(IsoError::UnexpectedEof)
        } else {
            Ok((FECReservoirBoxEntry { item_id: versioned_u32_at(s, 0, version), symbol_count: be_u32_at(s, w) }, w + 4))
        }
    }

    open spec fn spec_writable_v(v: FECReservoirBoxEntry, version: u8) -> bool {
        true
    }

    open spec fn spec_serialize_v(v: FECReservoirBoxEntry, version: u8) -> Seq<u8> {
        versioned_u32_bytes(v.item_id, version) + u32_bytes(v.symbol_count)
    }

    open spec fn spec_canonical_v(v: FECReservoirBoxEntry, version: u8) -> bool {
        versioned_u32_fits(v.item_id, version)
    }

    open spec fn spec_size_v(v: FECReservoirBoxEntry, version: u8) -> nat {
        id_width(version) + 4
    }

    proof fn lemma_parse_len_v(s: Seq<u8>, version: u8) {
    }

    proof fn lemma_size_v(v: FECReservoirBoxEntry, version: u8) {
    }

    proof fn lemma_roundtrip_v(v: FECReservoirBoxEntry, version: u8, rest: Seq<u8>) {
        let w = id_width(version) as int;
        let s = Self::spec_serialize_v(v, version) + rest;
        assert(s.subrange(0, w) =~= versioned_u32_bytes(v.item_id, version));
        lemma_versioned_u32_at(s, 0, v.item_id, version);
        assert(s.subrange(w, w + 4) =~= u32_bytes(v.symbol_count));
        lemma_u32_at(s, w, v.symbol_count);
    }

    fn parse_v(data: &[u8], pos: usize, version: u8) -> (r: Result<(FECReservoirBoxEntry, usize), IsoError>) {
        let w: usize = if version == 0 { 2 } else { 4 };
        if data.len() - pos < w + 4 {
            return Err(IsoError::UnexpectedEof);
        }
        let d = vstd::slice::slice_subrange(data, pos, data.len());
        proof {
            assert(d@ =~= data@.skip(pos as int));
        }
        let item_id = read_versioned_u32_at(d, 0, version);
        let symbol_count = read_u32_at(d, w);
        Ok((FECReservoirBoxEntry { item_id, symbol_count }, pos + w + 4))
    }

    fn serialize_v(&self, out: &mut Vec<u8>, version: u8) -> (r: Result<(), IsoError>) {
        let ghost before = out@;
        write_versioned_u32(out, self.item_id, version);
        write_u32(out, self.symbol_count);
        proof {
            assert(out@ =~= before + Self::spec_serialize_v(self@, version));
            lemma_append_prefix(before, Self::spec_serialize_v(self@, version));
        }
        Ok(())
    }

    fn size_v(&self, version: u8) -> (n: usize) {
        if version == 0 {
            2 + 4
        } else {
            4 + 4
        }
    }
}

impl FECReservoirBoxEntry {
    /// The size of the entry in a box of `version`.
    pub fn size(&self, version: u8) -> (n: usize)
        ensures
            n == FECReservoirBoxEntry::spec_size_v(*self, version),
    {
        self.size_v(version)
    }
}

/// FEC reservoir box
///
/// ISO/IEC 14496-12 - 8.13.4
#[derive(Debug, PartialEq, Eq)]
pub struct FECReservoirBox {
    /// The version and flags of the box; the version sets the width of the count and
    /// of the item identifiers.
    pub full_header: FullBoxHeader,
    /// The number of entries.
    pub entry_count: u32,
    /// The entries.
    pub entries: Vec<FECReservoirBoxEntry>,
}

/// The model of a [`FECReservoirBox`].
pub struct FECReservoirBoxModel {
    pub full_header: FullBoxHeader,
    pub entry_count: u32,
    pub entries: Seq<FECReservoirBoxEntry>,
}

impl View for FECReservoirBox {
    type V = FECReservoirBoxModel;

    open spec fn view(&self) -> FECReservoirBoxModel {
        FECReservoirBoxModel { full_header: self.full_header, entry_count: self.entry_count, entries: views(self.entries@) }
    }
}

impl IsoSized for FECReservoirBox {
    open spec fn spec_size(&self) -> nat {
        add_header_size(
            4 + id_width(self.full_header.version) + size_seq_v::<FECReservoirBoxEntry>(
                views(self.entries@),
                self.full_header.version,
            ),
        )
    }

    fn size(&self) -> (n: usize) {
        let version = self.full_header.version;
        let w: usize = if version == 0 { 2 } else { 4 };
        proof {
            lemma_size_seq_v_mono::<FECReservoirBoxEntry>(views(self.entries@), 0, version);
        }
        add_header_size_exec(4 + w + size_all_v(&self.entries, version))
    }
}

impl BoxBody for FECReservoirBox {
    open spec fn spec_box_type() -> [u8; 4] {
        [0x66u8, 0x65u8, 0x63u8, 0x72u8]
    }

    fn box_type() -> (r: [u8; 4]) {
        [0x66u8, 0x65u8, 0x63u8, 0x72u8]
    }

    /// The full header, the count, then that many entries.
    open spec fn spec_parse_body(s: Seq<u8>) -> Result<FECReservoirBoxModel, IsoError> {
        if s.len() < 4 || s.len() < 4 + id_width(s[0]) {
            Err(IsoError::UnexpectedEof)
        } else {
            let version = s[0];
            let count = versioned_u32_at(s, 4, version);
            match parse_count_v::<FECReservoirBoxEntry>(s.skip(4 + id_width(version) as int), count as nat, version) {
                Ok((items, _)) => Ok(
                    FECReservoirBoxModel {
                        full_header: FullBoxHeader { version, flags: be_u24_at(s, 1) },
                        entry_count: count,
                        entries: items,
                    },
                ),
                Err(e) => Err(e),
            }
        }
    }

    open spec fn spec_writable(v: FECReservoirBoxModel) -> bool {
        true
    }

    open spec fn spec_serialize_body(v: FECReservoirBoxModel) -> Seq<u8> {
        seq![v.full_header.version] + u24_bytes(v.full_header.flags) + versioned_u32_bytes(
            v.entry_count,
            v.full_header.version,
        ) + ser_seq_v::<FECReservoirBoxEntry>(v.entries, v.full_header.version)
    }

    /// The count fits its field and is the number of entries.
    open spec fn spec_canonical(v: FECReservoirBoxModel) -> bool {
        &&& v.full_header.flags < 0x100_0000
        &&& versioned_u32_fits(v.entry_count, v.full_header.version)
        &&& v.entries.len() == v.entry_count
        &&& canonical_seq_v::<FECReservoirBoxEntry>(v.entries, v.full_header.version)
    }

    proof fn lemma_box_type() {
        assert(Self::spec_box_type()[0] != spec_uuid_fourcc()[0]);
    }

    proof fn lemma_body_size(x: FECReservoirBox) {
        let version = x.full_header.version;
        lemma_size_seq_v::<FECReservoirBoxEntry>(x@.entries, version);
        if version == 0 {
            assert(versioned_u32_bytes(x.entry_count, version).len() == 2);
        }
    }

    proof fn lemma_body_roundtrip(v: FECReservoirBoxModel) {
        let version = v.full_header.version;
        let w = id_width(version) as int;
        let s = Self::spec_serialize_body(v);
        assert(s.subrange(1, 4) =~= u24_bytes(v.full_header.flags));
        lemma_u24_at(s, 1, v.full_header.flags);
        assert(s.subrange(4, 4 + w) =~= versioned_u32_bytes(v.entry_count, version));
        lemma_versioned_u32_at(s, 4, v.entry_count, version);
        assert(s.skip(4 + w) =~= ser_seq_v::<FECReservoirBoxEntry>(v.entries, version) + Seq::<u8>::empty());
        lemma_count_roundtrip_v::<FECReservoirBoxEntry>(v.entries, version, Seq::<u8>::empty());
    }

    fn parse_body(d: &[u8]) -> (r: Result<FECReservoirBox, IsoError>) {
        if d.len() < 4 {
            return Err(IsoError::UnexpectedEof);
        }
        let version = d[0];
        let w: usize = if version == 0 { 2 } else { 4 };
        if d.len() < 4 + w {
            return Err(IsoError::UnexpectedEof);
        }
        let full_header = FullBoxHeader { version, flags: read_u24_at(d, 1) };
        let entry_count = read_versioned_u32_at(d, 4, version);
        let (entries, _end) = parse_counted_v::<FECReservoirBoxEntry>(d, 4 + w, entry_count as usize, version)?;
        Ok(FECReservoirBox { full_header, entry_count, entries })
    }

    fn serialize_body(&self, out: &mut Vec<u8>) -> (r: Result<(), IsoError>) {
        let ghost before = out@;
        let version = self.full_header.version;
        write_u8(out, version);
        write_u24(out, self.full_header.flags);
        write_versioned_u32(out, self.entry_count, version);
        let _ = serialize_all_v(&self.entries, out, version);
        proof {
            assert(out@ =~= before + Self::spec_serialize_body(self@));
            lemma_append_prefix(before, Self::spec_serialize_body(self@));
        }
        Ok(())
    }
}

/// An entry of the file reservoir box.
#[derive(Debug, Clone, Copy, PartialEq, Eq, Structural)]
pub struct FileReservoirBoxEntry {
    /// The item: 16 bits in version 0, 32 bits otherwise.
    pub item_id: u32,
    /// The number of symbols.
    pub symbol_count: u32,
}

impl View for FileReservoirBoxEntry {
    type V = FileReservoirBoxEntry;

    open spec fn view(&self) -> FileReservoirBoxEntry {
        *self
    }
}

impl VersionedWire for FileReservoirBoxEntry {
    open spec fn spec_parse_v(s: Seq<u8>, version: u8) -> SpecParse<FileReservoirBoxEntry> {
        let w = id_width(version) as int;
        if s.len() < w + 4 {
            Err(IsoError::UnexpectedEof)
        } else {
            Ok((FileReservoirBoxEntry { item_id: versioned_u32_at(s, 0, version), symbol_count: be_u32_at(s, w) }, w + 4))
        }
    }

    open spec fn spec_writable_v(v: FileReservoirBoxEntry, version: u8) -> bool {
        true
    }

    open spec fn spec_serialize_v(v: FileReservoirBoxEntry, version: u8) -> Seq<u8> {
        versioned_u32_bytes(v.item_id, version) + u32_bytes(v.symbol_count)
    }

    open spec fn spec_canonical_v(v: FileReservoirBoxEntry, version: u8) -> bool {
        versioned_u32_fits(v.item_id, version)
    }

    open spec fn spec_size_v(v: FileReservoirBoxEntry, version: u8) -> nat {
        id_width(version) + 4
    }

    proof fn lemma_parse_len_v(s: Seq<u8>, version: u8) {
    }

    proof fn lemma_size_v(v: FileReservoirBoxEntry, version: u8) {
    }

    proof fn lemma_roundtrip_v(v: FileReservoirBoxEntry, version: u8, rest: Seq<u8>) {
        let w = id_width(version) as int;
        let s = Self::spec_serialize_v(v, version) + rest;
        assert(s.subrange(0, w) =~= versioned_u32_bytes(v.item_id, version));
        lemma_versioned_u32_at(s, 0, v.item_id, version);
        assert(s.subrange(w, w + 4) =~= u32_bytes(v.symbol_count));
        lemma_u32_at(s, w, v.symbol_count);
    }

    fn parse_v(data: &[u8], pos: usize, version: u8) -> (r: Result<(FileReservoirBoxEntry, usize), IsoError>) {
        let w: usize = if version == 0 { 2 } else { 4 };
        if data.len() - pos < w + 4 {
            return Err(IsoError::UnexpectedEof);
        }
        let d = vstd::slice::slice_subrange(data, pos, data.len());
        proof {
            assert(d@ =~= data@.skip(pos as int));
        }
        let item_id = read_versioned_u32_at(d, 0, version);
        let symbol_count = read_u32_at(d, w);
        Ok((FileReservoirBoxEntry { item_id, symbol_count }, pos + w + 4))
    }

    fn serialize_v(&self, out: &mut Vec<u8>, version: u8) -> (r: Result<(), IsoError>) {
        let ghost before = out@;
        write_versioned_u32(out, self.item_id, version);
        write_u32(out, self.symbol_count);
        proof {
            assert(out@ =~= before + Self::spec_serialize_v(self@, version));
            lemma_append_prefix(before, Self::spec_serialize_v(self@, version));
        }
        Ok(())
    }

    fn size_v(&self, version: u8) -> (n: usize) {
        if version == 0 {
            2 + 4
        } else {
            4 + 4
        }
    }
}

impl FileReservoirBoxEntry {
    /// The size of the entry in a box of `version`.
    pub fn size(&self, version: u8) -> (n: usize)
        ensures
            n == FileReservoirBoxEntry::spec_size_v(*self, version),
    {
        self.size_v(version)
    }
}

/// File reservoir box
///
/// ISO/IEC 14496-12 - 8.13.7
#[derive(Debug, PartialEq, Eq)]
pub struct FileReservoirBox {
    /// The version and flags of the box; the version sets the width of the count and
    /// of the item identifiers.
    pub full_header: FullBoxHeader,
    /// The number of entries.
    pub entry_count: u32,
    /// The entries.
    pub entries: Vec<FileReservoirBoxEntry>,
}

/// The model of a [`FileReservoirBox`].
pub struct FileReservoirBoxModel {
    pub full_header: FullBoxHeader,
    pub entry_count: u32,
    pub entries: Seq<FileReservoirBoxEntry>,
}

impl View for FileReservoirBox {
    type V = FileReservoirBoxModel;

    open spec fn view(&self) -> FileReservoirBoxModel {
        FileReservoirBoxModel { full_header: self.full_header, entry_count: self.entry_count, entries: views(self.entries@) }
    }
}

impl IsoSized for FileReservoirBox {
    open spec fn spec_size(&self) -> nat {
        add_header_size(
            4 + id_width(self.full_header.version) + size_seq_v::<FileReservoirBoxEntry>(
                views(self.entries@),
                self.full_header.version,
            ),
        )
    }

    fn size(&self) -> (n: usize) {
        let version = self.full_header.version;
        let w: usize = if version == 0 { 2 } else { 4 };
        proof {
            lemma_size_seq_v_mono::<FileReservoirBoxEntry>(views(self.entries@), 0, version);
        }
        add_header_size_exec(4 + w + size_all_v(&self.entries, version))
    }
}

impl BoxBody for FileReservoirBox {
    open spec fn spec_box_type() -> [u8; 4] {
        [0x66u8, 0x69u8, 0x72u8, 0x65u8]
    }

    fn box_type() -> (r: [u8; 4]) {
        [0x66u8, 0x69u8, 0x72u8, 0x65u8]
    }

    /// The full header, the count, then that many entries.
    open spec fn spec_parse_body(s: Seq<u8>) -> Result<FileReservoirBoxModel, IsoError> {
        if s.len() < 4 || s.len() < 4 + id_width(s[0]) {
            Err(IsoError::UnexpectedEof)
        } else {
            let version = s[0];
            let count = versioned_u32_at(s, 4, version);
            match parse_count_v::<FileReservoirBoxEntry>(s.skip(4 + id_width(version) as int), count as nat, version) {
                Ok((items, _)) => Ok(
                    FileReservoirBoxModel {
                        full_header: FullBoxHeader { version, flags: be_u24_at(s, 1) },
                        entry_count: count,
                        entries: items,
                    },
                ),
                Err(e) => Err(e),
            }
        }
    }

    open spec fn spec_writable(v: FileReservoirBoxModel) -> bool {
        true
    }

    open spec fn spec_serialize_body(v: FileReservoirBoxModel) -> Seq<u8> {
        seq![v.full_header.version] + u24_bytes(v.full_header.flags) + versioned_u32_bytes(
            v.entry_count,
            v.full_header.version,
        ) + ser_seq_v::<FileReservoirBoxEntry>(v.entries, v.full_header.version)
    }

    /// The count fits its field and is the number of entries.
    open spec fn spec_canonical(v: FileReservoirBoxModel) -> bool {
        &&& v.full_header.flags < 0x100_0000
        &&& versioned_u32_fits(v.entry_count, v.full_header.version)
        &&& v.entries.len() == v.entry_count
        &&& canonical_seq_v::<FileReservoirBoxEntry>(v.entries, v.full_header.version)
    }

    proof fn lemma_box_type() {
        assert(Self::spec_box_type()[0] != spec_uuid_fourcc()[0]);
    }

    proof fn lemma_body_size(x: FileReservoirBox) {
        let version = x.full_header.version;
        lemma_size_seq_v::<FileReservoirBoxEntry>(x@.entries, version);
        if version == 0 {
            assert(versioned_u32_bytes(x.entry_count, version).len() == 2);
        }
    }

    proof fn lemma_body_roundtrip(v: FileReservoirBoxModel) {
        let version = v.full_header.version;
        let w = id_width(version) as int;
        let s = Self::spec_serialize_body(v);
        assert(s.subrange(1, 4) =~= u24_bytes(v.full_header.flags));
        lemma_u24_at(s, 1, v.full_header.flags);
        assert(s.subrange(4, 4 + w) =~= versioned_u32_bytes(v.entry_count, version));
        lemma_versioned_u32_at(s, 4, v.entry_count, version);
        assert(s.skip(4 + w) =~= ser_seq_v::<FileReservoirBoxEntry>(v.entries, version) + Seq::<u8>::empty());
        lemma_count_roundtrip_v::<FileReservoirBoxEntry>(v.entries, version, Seq::<u8>::empty());
    }

    fn parse_body(d: &[u8]) -> (r: Result<FileReservoirBox, IsoError>) {
        if d.len() < 4 {
            return Err(IsoError::UnexpectedEof);
        }
        let version = d[0];
        let w: usize = if version == 0 { 2 } else { 4 };
        if d.len() < 4 + w {
            return Err(IsoError::UnexpectedEof);
        }
        let full_header = FullBoxHeader { version, flags: read_u24_at(d, 1) };
        let entry_count = read_versioned_u32_at(d, 4, version);
        let (entries, _end) = parse_counted_v::<FileReservoirBoxEntry>(d, 4 + w, entry_count as usize, version)?;
        Ok(FileReservoirBox { full_header, entry_count, entries })
    }

    fn serialize_body(&self, out: &mut Vec<u8>) -> (r: Result<(), IsoError>) {
        let ghost before = out@;
        let version = self.full_header.version;
        write_u8(out, version);
        write_u24(out, self.full_header.flags);
        write_versioned_u32(out, self.entry_count, version);
        let _ = serialize_all_v(&self.entries, out, version);
        proof {
            assert(out@ =~= before + Self::spec_serialize_body(self@));
            lemma_append_prefix(before, Self::spec_serialize_body(self@));
        }
        Ok(())
    }
}

/// An entry of the group identifier to name box.
#[derive(Debug)]
pub struct GroupIdToNameBoxEntry {
    /// The file delivery session group.
    pub group_id: u32,
    /// The name of the group.
    pub group_name: Utf8String,
}

/// The model of a [`GroupIdToNameBoxEntry`].
pub struct GroupIdToNameBoxEntryModel {
    pub group_id: u32,
    pub group_name: Seq<char>,
}

impl View for GroupIdToNameBoxEntry {
    type V = GroupIdToNameBoxEntryModel;

    open spec fn view(&self) -> GroupIdToNameBoxEntryModel {
        GroupIdToNameBoxEntryModel { group_id: self.group_id, group_name: self.group_name@ }
    }
}

impl IsoSized for GroupIdToNameBoxEntry {
    open spec fn spec_size(&self) -> nat {
        4 + self.group_name.spec_size()
    }

    fn size(&self) -> (n: usize) {
        4 + self.group_name.size()
    }
}

impl Wire for GroupIdToNameBoxEntry {
    /// The identifier, then the null-terminated name.
    open spec fn spec_parse(s: Seq<u8>) -> SpecParse<GroupIdToNameBoxEntryModel> {
        if s.len() < 4 {
            Err(IsoError::UnexpectedEof)
        } else {
            match Utf8String::spec_parse(s.skip(4)) {
                Ok((name, k)) => Ok(
                    (GroupIdToNameBoxEntryModel { group_id: be_u32_at(s, 0), group_name: name }, 4 + k),
                ),
                Err(e) => Err(e),
            }
        }
    }

    open spec fn spec_writable(v: GroupIdToNameBoxEntryModel) -> bool {
        true
    }

    open spec fn spec_serialize(v: GroupIdToNameBoxEntryModel) -> Seq<u8> {
        u32_bytes(v.group_id) + Utf8String::spec_serialize(v.group_name)
    }

    open spec fn spec_canonical(v: GroupIdToNameBoxEntryModel) -> bool {
        Utf8String::spec_canonical(v.group_name)
    }

    proof fn lemma_parse_len(s: Seq<u8>) {
        Utf8String::lemma_parse_len(s.skip(4));
    }

    proof fn lemma_size(x: GroupIdToNameBoxEntry) {
        Utf8String::lemma_size(x.group_name);
    }

    proof fn lemma_roundtrip(v: GroupIdToNameBoxEntryModel, rest: Seq<u8>) {
        let name = Utf8String::spec_serialize(v.group_name);
        let s = Self::spec_serialize(v) + rest;
        assert(s.subrange(0, 4) =~= u32_bytes(v.group_id));
        lemma_u32_at(s, 0, v.group_id);
        assert(s.skip(4) =~= name + rest);
        Utf8String::lemma_roundtrip(v.group_name, rest);
    }

    fn parse(data: &[u8], pos: usize) -> (r: Result<(GroupIdToNameBoxEntry, usize), IsoError>) {
        if data.len() - pos < 4 {
            return Err(IsoError::UnexpectedEof);
        }
        let group_id = read_u32_at(data, pos);
        proof {
            assert(data@.skip(pos as int).skip(4) =~= data@.skip(pos + 4));
            assert(be_u32_at(data@, pos as int) == be_u32_at(data@.skip(pos as int), 0));
        }
        let (group_name, p) = Utf8String::parse(data, pos + 4)?;
        Ok((GroupIdToNameBoxEntry { group_id, group_name }, p))
    }

    fn serialize(&self, out: &mut Vec<u8>) -> (r: Result<(), IsoError>) {
        let ghost before = out@;
        write_u32(out, self.group_id);
        let _ = self.group_name.serialize(out);
        proof {
            assert(out@ =~= before + Self::spec_serialize(self@));
            lemma_append_prefix(before, Self::spec_serialize(self@));
        }
        Ok(())
    }
}

/// A session group of the file delivery session group box.
#[derive(Debug, PartialEq, Eq)]
pub struct FDSessionGroupBoxSessionGroup {
    /// The number of groups, and the number of hint tracks that are read.
    pub entry_count: u8,
    /// The file groups of the session group.
    pub group_id: Vec<u32>,
    /// The number of channels in the session group.
    pub num_channels_in_session_group: u16,
    /// The hint tracks of the channels.
    pub hint_track_id: Vec<u32>,
}

/// The model of an [`FDSessionGroupBoxSessionGroup`].
pub struct FDSessionGroupBoxSessionGroupModel {
    pub entry_count: u8,
    pub group_id: Seq<u32>,
    pub num_channels_in_session_group: u16,
    pub hint_track_id: Seq<u32>,
}

impl View for FDSessionGroupBoxSessionGroup {
    type V = FDSessionGroupBoxSessionGroupModel;

    open spec fn view(&self) -> FDSessionGroupBoxSessionGroupModel {
        FDSessionGroupBoxSessionGroupModel {
            entry_count: self.entry_count,
            group_id: self.group_id@,
            num_channels_in_session_group: self.num_channels_in_session_group,
            hint_track_id: self.hint_track_id@,
        }
    }
}

impl IsoSized for FDSessionGroupBoxSessionGroup {
    open spec fn spec_size(&self) -> nat {
        1 + 4 * self.group_id@.len() + 2 + 4 * self.hint_track_id@.len()
    }

    fn size(&self) -> (n: usize) {
        1 + 4 * self.group_id.len() + 2 + 4 * self.hint_track_id.len()
    }
}

impl Wire for FDSessionGroupBoxSessionGroup {
    /// The count, that many group identifiers, the number of channels, then as many
    /// hint track identifiers as the count says.
    open spec fn spec_parse(s: Seq<u8>) -> SpecParse<FDSessionGroupBoxSessionGroupModel> {
        if s.len() < 1 {
            Err(IsoError::UnexpectedEof)
        } else {
            let c = s[0];
            match parse_count::<u32>(s.skip(1), c as nat) {
                Ok((g, k)) => if s.len() < 1 + k + 2 {
                    Err(IsoError::UnexpectedEof)
                } else {
                    match parse_count::<u32>(s.skip(1 + k + 2), c as nat) {
                        Ok((h, m)) => Ok(
                            (
                                FDSessionGroupBoxSessionGroupModel {
                                    entry_count: c,
                                    group_id: g,
                                    num_channels_in_session_group: be_u16_at(s, 1 + k),
                                    hint_track_id: h,
                                },
                                1 + k + 2 + m,
                            ),
                        ),
                        Err(e) => Err(e),
                    }
                },
                Err(e) => Err(e),
            }
        }
    }

    open spec fn spec_writable(v: FDSessionGroupBoxSessionGroupModel) -> bool {
        true
    }

    open spec fn spec_serialize(v: FDSessionGroupBoxSessionGroupModel) -> Seq<u8> {
        seq![v.entry_count] + ser_seq::<u32>(v.group_id) + u16_bytes(v.num_channels_in_session_group)
            + ser_seq::<u32>(v.hint_track_id)
    }

    /// Both lists are as long as the count.
    open spec fn spec_canonical(v: FDSessionGroupBoxSessionGroupModel) -> bool {
        v.group_id.len() == v.entry_count && v.hint_track_id.len() == v.entry_count
    }

    proof fn lemma_parse_len(s: Seq<u8>) {
        if s.len() >= 1 {
            lemma_parse_count_len::<u32>(s.skip(1), s[0] as nat);
            if let Ok((g, k)) = parse_count::<u32>(s.skip(1), s[0] as nat) {
                if s.len() >= 1 + k + 2 {
                    lemma_parse_count_len::<u32>(s.skip(1 + k + 2), s[0] as nat);
                }
            }
        }
    }

    proof fn lemma_size(x: FDSessionGroupBoxSessionGroup) {
        lemma_ser_seq_fixed::<u32>(x.group_id@, 4);
        lemma_ser_seq_fixed::<u32>(x.hint_track_id@, 4);
    }

    proof fn lemma_roundtrip(v: FDSessionGroupBoxSessionGroupModel, rest: Seq<u8>) {
        let g = ser_seq::<u32>(v.group_id);
        let h = ser_seq::<u32>(v.hint_track_id);
        let s = Self::spec_serialize(v) + rest;
        assert(s.skip(1) =~= g + (u16_bytes(v.num_channels_in_session_group) + h + rest));
        lemma_count_roundtrip::<u32>(v.group_id, u16_bytes(v.num_channels_in_session_group) + h + rest);
        let k = g.len() as int;
        assert(s.subrange(1 + k, 1 + k + 2) =~= u16_bytes(v.num_channels_in_session_group));
        lemma_u16_at(s, 1 + k, v.num_channels_in_session_group);
        assert(s.skip(1 + k + 2) =~= h + rest);
        lemma_count_roundtrip::<u32>(v.hint_track_id, rest);
    }

    fn parse(data: &[u8], pos: usize) -> (r: Result<(FDSessionGroupBoxSessionGroup, usize), IsoError>) {
        let ghost s = data@.skip(pos as int);
        if data.len() - pos < 1 {
            return Err(IsoError::UnexpectedEof);
        }
        let entry_count = data[pos];
        proof {
            assert(s.skip(1) =~= data@.skip(pos + 1));
        }
        let (group_id, p1) = parse_counted::<u32>(data, pos + 1, entry_count as usize)?;
        proof {
            lemma_parse_count_len::<u32>(s.skip(1), entry_count as nat);
            assert(group_id@ =~= views(group_id@));
        }
        if data.len() - p1 < 2 {
            return Err(IsoError::UnexpectedEof);
        }
        let num_channels_in_session_group = read_u16_at(data, p1);
        proof {
            assert(be_u16_at(data@, p1 as int) == be_u16_at(s, p1 - pos));
            assert(s.skip(p1 - pos + 2) =~= data@.skip(p1 + 2));
        }
        let (hint_track_id, p2) = parse_counted::<u32>(data, p1 + 2, entry_count as usize)?;
        proof {
            assert(hint_track_id@ =~= views(hint_track_id@));
        }
        Ok((
            FDSessionGroupBoxSessionGroup { entry_count, group_id, num_channels_in_session_group, hint_track_id },
            p2,
        ))
    }

    fn serialize(&self, out: &mut Vec<u8>) -> (r: Result<(), IsoError>) {
        let ghost before = out@;
        write_u8(out, self.entry_count);
        proof {
            assert(self.group_id@ =~= views(self.group_id@));
            assert(self.hint_track_id@ =~= views(self.hint_track_id@));
        }
        let _ = serialize_all(&self.group_id, out);
        write_u16(out, self.num_channels_in_session_group);
        let _ = serialize_all(&self.hint_track_id, out);
        proof {
            assert(out@ =~= before + Self::spec_serialize(self@));
            lemma_append_prefix(before, Self::spec_serialize(self@));
        }
        Ok(())
    }
}

/// Group identifier to name box
///
/// ISO/IEC 14496-12 - 8.13.6
#[derive(Debug)]
pub struct GroupIdToNameBox {
    /// The version and flags of the box.
    pub full_header: FullBoxHeader,
    /// The number of entries.
    pub entry_count: u16,
    /// The entries.
    pub entries: Vec<GroupIdToNameBoxEntry>,
}

/// The model of a [`GroupIdToNameBox`].
pub struct GroupIdToNameBoxModel {
    pub full_header: FullBoxHeader,
    pub entry_count: u16,
    pub entries: Seq<<GroupIdToNameBoxEntry as View>::V>,
}

impl View for GroupIdToNameBox {
    type V = GroupIdToNameBoxModel;

    open spec fn view(&self) -> GroupIdToNameBoxModel {
        GroupIdToNameBoxModel {
            full_header: self.full_header,
            entry_count: self.entry_count,
            entries: views(self.entries@),
        }
    }
}

impl IsoSized for GroupIdToNameBox {
    open spec fn spec_size(&self) -> nat {
        add_header_size(6 + size_seq::<GroupIdToNameBoxEntry>(self.entries@))
    }

    fn size(&self) -> (n: usize) {
        proof {
            lemma_size_seq_mono::<GroupIdToNameBoxEntry>(self.entries@, 0);
        }
        add_header_size_exec(6 + size_all(&self.entries))
    }
}

impl BoxBody for GroupIdToNameBox {
    open spec fn spec_box_type() -> [u8; 4] {
        [0x67u8, 0x69u8, 0x74u8, 0x6eu8]
    }

    fn box_type() -> (r: [u8; 4]) {
        [0x67u8, 0x69u8, 0x74u8, 0x6eu8]
    }

    /// The header fields, then as many entries as the count says.
    open spec fn spec_parse_body(s: Seq<u8>) -> Result<GroupIdToNameBoxModel, IsoError> {
        if s.len() < 6 {
            Err(IsoError::UnexpectedEof)
        } else {
            match parse_count::<GroupIdToNameBoxEntry>(s.skip(6), be_u16_at(s, 4) as nat) {
                Ok((items, _)) => Ok(
                    GroupIdToNameBoxModel {
                        full_header: FullBoxHeader { version: s[0], flags: be_u24_at(s, 1) },
                        entry_count: be_u16_at(s, 4),
                        entries: items,
                    },
                ),
                Err(e) => Err(e),
            }
        }
    }

    open spec fn spec_writable(v: GroupIdToNameBoxModel) -> bool {
        true
    }

    open spec fn spec_serialize_body(v: GroupIdToNameBoxModel) -> Seq<u8> {
        seq![v.full_header.version] + u24_bytes(v.full_header.flags) + u16_bytes(v.entry_count) + ser_seq::<GroupIdToNameBoxEntry>(v.entries)
    }

    /// The count is the number of entries.
    open spec fn spec_canonical(v: GroupIdToNameBoxModel) -> bool {
        v.full_header.flags < 0x100_0000 && v.entries.len() == v.entry_count && canonical_seq::<GroupIdToNameBoxEntry>(v.entries)
    }

    proof fn lemma_box_type() {
        assert(Self::spec_box_type()[0] != spec_uuid_fourcc()[0]);
    }

    proof fn lemma_body_size(x: GroupIdToNameBox) {
        assert(writable_seq::<GroupIdToNameBoxEntry>(views(x.entries@)));
        lemma_size_seq::<GroupIdToNameBoxEntry>(x.entries@);
    }

    proof fn lemma_body_roundtrip(v: GroupIdToNameBoxModel) {
        let s = Self::spec_serialize_body(v);
        assert(s.subrange(1, 4) =~= u24_bytes(v.full_header.flags));
        lemma_u24_at(s, 1, v.full_header.flags);
        assert(s.subrange(4, 6) =~= u16_bytes(v.entry_count));
        lemma_u16_at(s, 4, v.entry_count);
        assert(s.skip(6) =~= ser_seq::<GroupIdToNameBoxEntry>(v.entries) + Seq::<u8>::empty());
        assert(writable_seq::<GroupIdToNameBoxEntry>(v.entries));
        lemma_count_roundtrip::<GroupIdToNameBoxEntry>(v.entries, Seq::<u8>::empty());
    }

    fn parse_body(d: &[u8]) -> (r: Result<GroupIdToNameBox, IsoError>) {
        if d.len() < 6 {
            return Err(IsoError::UnexpectedEof);
        }
        let full_header = FullBoxHeader { version: d[0], flags: read_u24_at(d, 1) };
        let entry_count = read_u16_at(d, 4);
        let (entries, _end) = parse_counted::<GroupIdToNameBoxEntry>(d, 6, entry_count as usize)?;
        Ok(GroupIdToNameBox { full_header, entry_count, entries })
    }

    fn serialize_body(&self, out: &mut Vec<u8>) -> (r: Result<(), IsoError>) {
        let ghost before = out@;
        write_u8(out, self.full_header.version);
        write_u24(out, self.full_header.flags);
        write_u16(out, self.entry_count);
        let _ = serialize_all(&self.entries, out);
        proof {
            assert(out@ =~= before + Self::spec_serialize_body(self@));
            lemma_append_prefix(before, Self::spec_serialize_body(self@));
        }
        Ok(())
    }
}


/// The encoded data of a base64 string reads back as the data: the encoding holds no
/// zero byte, decodes to the data, and has the padded length.
pub open spec fn base64_faithful(d: Seq<u8>) -> bool {
    &&& forall|i: int| 0 <= i < base64_encoded(d).len() ==> base64_encoded(d)[i] != 0
    &&& base64_decoded(base64_encoded(d)) == Some(d)
    &&& base64_encoded(d).len() == base64_len(d.len())
}

/// File partition box
///
/// ISO/IEC 14496-12 - 8.13.3
#[derive(Debug)]
pub struct FilePartitionBox {
    /// The full box header; version 0 has 16-bit item identifiers and counts.
    pub header: FullBoxHeader,
    /// The item that the box partitions.
    pub item_id: u32,
    /// The size of the payload of the packets, in bytes.
    pub packet_payload_size: u16,
    /// Reserved, zero.
    pub reserved: u8,
    /// The FEC encoding scheme.
    pub fec_encoding_id: u8,
    /// The FEC instance.
    pub fec_instance_id: u16,
    /// The greatest number of source symbols in a source block.
    pub max_source_block_length: u16,
    /// The size of an encoding symbol, in bytes.
    pub encoding_symbol_length: u16,
    /// The greatest number of encoding symbols for a source block.
    pub max_number_of_encoding_symbols: u16,
    /// Information specific to the FEC scheme, written as base64 text.
    pub scheme_specific_info: Base64String,
    /// The number of entries.
    pub entry_count: u32,
    /// The runs of source blocks.
    pub entries: Vec<FilePartitionBoxEntry>,
}

/// The model of a [`FilePartitionBox`].
pub struct FilePartitionBoxModel {
    pub header: FullBoxHeader,
    pub item_id: u32,
    pub packet_payload_size: u16,
    pub reserved: u8,
    pub fec_encoding_id: u8,
    pub fec_instance_id: u16,
    pub max_source_block_length: u16,
    pub encoding_symbol_length: u16,
    pub max_number_of_encoding_symbols: u16,
    pub scheme_specific_info: Seq<u8>,
    pub entry_count: u32,
    pub entries: Seq<FilePartitionBoxEntry>,
}

impl View for FilePartitionBox {
    type V = FilePartitionBoxModel;

    open spec fn view(&self) -> FilePartitionBoxModel {
        FilePartitionBoxModel {
            header: self.header,
            item_id: self.item_id,
            packet_payload_size: self.packet_payload_size,
            reserved: self.reserved,
            fec_encoding_id: self.fec_encoding_id,
            fec_instance_id: self.fec_instance_id,
            max_source_block_length: self.max_source_block_length,
            encoding_symbol_length: self.encoding_symbol_length,
            max_number_of_encoding_symbols: self.max_number_of_encoding_symbols,
            scheme_specific_info: self.scheme_specific_info@,
            entry_count: self.entry_count,
            entries: views(self.entries@),
        }
    }
}

/// The fields of a file partition box between the item identifier and the scheme
/// information.
pub open spec fn fpar_fields_bytes(v: FilePartitionBoxModel) -> Seq<u8> {
    u16_bytes(v.packet_payload_size) + seq![v.reserved, v.fec_encoding_id] + u16_bytes(v.fec_instance_id)
        + u16_bytes(v.max_source_block_length) + u16_bytes(v.encoding_symbol_length) + u16_bytes(
        v.max_number_of_encoding_symbols,
    )
}

impl IsoSized for FilePartitionBox {
    open spec fn spec_size(&self) -> nat {
        add_header_size(
            16 + 2 * id_width(self.header.version) + base64_len(self.scheme_specific_info@.len()) + 1 + 6
                * self.entries@.len(),
        )
    }

    fn size(&self) -> (n: usize) {
        let w: u128 = if self.header.version == 0 { 2 } else { 4 };
        let b: u128 = 4 * ((self.scheme_specific_info.0.len() as u128 + 2) / 3) + 1;
        let total = 16 + 2 * w + b + 6 * (self.entries.len() as u128);
        add_header_size_exec(total as usize)
    }
}

impl BoxBody for FilePartitionBox {
    open spec fn spec_box_type() -> [u8; 4] {
        [0x66u8, 0x70u8, 0x61u8, 0x72u8]
    }

    fn box_type() -> (r: [u8; 4]) {
        [0x66u8, 0x70u8, 0x61u8, 0x72u8]
    }

    /// The full header, the item in the width of the version, the FEC fields, the
    /// base64 scheme information up to its zero byte, the count in the width of the
    /// version, then that many entries.
    open spec fn spec_parse_body(s: Seq<u8>) -> Result<FilePartitionBoxModel, IsoError> {
        if s.len() < 4 || s.len() < 16 + id_width(s[0]) {
            Err(IsoError::UnexpectedEof)
        } else {
            let version = s[0];
            let w = id_width(version) as int;
            match base64_string_parse(s.skip(16 + w)) {
                Ok((d, n)) => {
                    let p = 16 + w + n;
                    if s.len() < p + w {
                        Err(IsoError::UnexpectedEof)
                    } else {
                        let count = versioned_u32_at(s, p, version);
                        match parse_count::<FilePartitionBoxEntry>(s.skip(p + w), count as nat) {
                            Ok((es, _)) => Ok(
                                FilePartitionBoxModel {
                                    header: FullBoxHeader { version, flags: be_u24_at(s, 1) },
                                    item_id: versioned_u32_at(s, 4, version),
                                    packet_payload_size: be_u16_at(s, 4 + w),
                                    reserved: s[6 + w],
                                    fec_encoding_id: s[7 + w],
                                    fec_instance_id: be_u16_at(s, 8 + w),
                                    max_source_block_length: be_u16_at(s, 10 + w),
                                    encoding_symbol_length: be_u16_at(s, 12 + w),
                                    max_number_of_encoding_symbols: be_u16_at(s, 14 + w),
                                    scheme_specific_info: d,
                                    entry_count: count,
                                    entries: es,
                                },
                            ),
                            Err(e) => Err(e),
                        }
                    }
                },
                Err(e) => Err(e),
            }
        }
    }

    /// The base64 encoder can size its output.
    open spec fn spec_writable(v: FilePartitionBoxModel) -> bool {
        v.scheme_specific_info.len() * 2 <= usize::MAX
    }

    open spec fn spec_serialize_body(v: FilePartitionBoxModel) -> Seq<u8> {
        seq![v.header.version] + u24_bytes(v.header.flags) + versioned_u32_bytes(v.item_id, v.header.version)
            + fpar_fields_bytes(v) + base64_encoded(v.scheme_specific_info) + seq![0u8] + versioned_u32_bytes(
            v.entry_count,
            v.header.version,
        ) + ser_seq::<FilePartitionBoxEntry>(v.entries)
    }

    /// The identifier and count fit the width of the version, the count is the number
    /// of entries, and the scheme information reads back through its encoding.
    open spec fn spec_canonical(v: FilePartitionBoxModel) -> bool {
        &&& v.header.flags < 0x100_0000
        &&& versioned_u32_fits(v.item_id, v.header.version)
        &&& versioned_u32_fits(v.entry_count, v.header.version)
        &&& v.entries.len() == v.entry_count
        &&& base64_faithful(v.scheme_specific_info)
    }

    proof fn lemma_box_type() {
        assert(Self::spec_box_type()[0] != spec_uuid_fourcc()[0]);
    }

    proof fn lemma_body_size(x: FilePartitionBox) {
        let version = x.header.version;
        if version == 0 {
            assert(versioned_u32_bytes(x.item_id, 0).len() == 2);
            assert(versioned_u32_bytes(x.entry_count, 0).len() == 2);
        }
        lemma_ser_seq_fixed::<FilePartitionBoxEntry>(x@.entries, 6);
    }

    #[verifier::spinoff_prover]
    #[verifier::rlimit(60)]
    proof fn lemma_body_roundtrip(v: FilePartitionBoxModel) {
        let version = v.header.version;
        let w = id_width(version) as int;
        let s = Self::spec_serialize_body(v);
        let enc = base64_encoded(v.scheme_specific_info);
        let tail = versioned_u32_bytes(v.entry_count, version) + ser_seq::<FilePartitionBoxEntry>(v.entries);
        let head = seq![v.header.version] + u24_bytes(v.header.flags) + versioned_u32_bytes(v.item_id, version)
            + fpar_fields_bytes(v);
        assert(head.len() == 16 + w);
        assert(s =~= head + (enc + seq![0u8] + tail));
        if version == 0 {
            assert(versioned_u32_bytes(v.item_id, 0).len() == 2);
        }
        assert(s.subrange(1, 4) =~= u24_bytes(v.header.flags));
        lemma_u24_at(s, 1, v.header.flags);
        assert(s.subrange(4, 4 + w) =~= versioned_u32_bytes(v.item_id, version));
        lemma_versioned_u32_at(s, 4, v.item_id, version);
        assert(s.subrange(4 + w, 6 + w) =~= u16_bytes(v.packet_payload_size));
        lemma_u16_at(s, 4 + w, v.packet_payload_size);
        assert(s[6 + w] == v.reserved);
        assert(s[7 + w] == v.fec_encoding_id);
        assert(s.subrange(8 + w, 10 + w) =~= u16_bytes(v.fec_instance_id));
        lemma_u16_at(s, 8 + w, v.fec_instance_id);
        assert(s.subrange(10 + w, 12 + w) =~= u16_bytes(v.max_source_block_length));
        lemma_u16_at(s, 10 + w, v.max_source_block_length);
        assert(s.subrange(12 + w, 14 + w) =~= u16_bytes(v.encoding_symbol_length));
        lemma_u16_at(s, 12 + w, v.encoding_symbol_length);
        assert(s.subrange(14 + w, 16 + w) =~= u16_bytes(v.max_number_of_encoding_symbols));
        lemma_u16_at(s, 14 + w, v.max_number_of_encoding_symbols);
        assert(s.skip(16 + w) =~= enc + seq![0u8] + tail);
        lemma_base64_roundtrip(v.scheme_specific_info, tail);
        let p = 16 + w + enc.len() + 1;
        assert(s.subrange(p, p + w) =~= versioned_u32_bytes(v.entry_count, version));
        lemma_versioned_u32_at(s, p, v.entry_count, version);
        assert(s.skip(p + w) =~= ser_seq::<FilePartitionBoxEntry>(v.entries) + Seq::<u8>::empty());
        lemma_count_roundtrip::<FilePartitionBoxEntry>(v.entries, Seq::<u8>::empty());
    }

    fn parse_body(d: &[u8]) -> (r: Result<FilePartitionBox, IsoError>) {
        if d.len() < 4 {
            return Err(IsoError::UnexpectedEof);
        }
        let version = d[0];
        let w: usize = if version == 0 { 2 } else { 4 };
        if d.len() < 16 + w {
            return Err(IsoError::UnexpectedEof);
        }
        let header = FullBoxHeader { version, flags: read_u24_at(d, 1) };
        let item_id = read_versioned_u32_at(d, 4, version);
        let packet_payload_size = read_u16_at(d, 4 + w);
        let reserved = d[6 + w];
        let fec_encoding_id = d[7 + w];
        let fec_instance_id = read_u16_at(d, 8 + w);
        let max_source_block_length = read_u16_at(d, 10 + w);
        let encoding_symbol_length = read_u16_at(d, 12 + w);
        let max_number_of_encoding_symbols = read_u16_at(d, 14 + w);
        let (scheme_specific_info, p) = Base64String::parse(d, 16 + w)?;
        if d.len() - p < w {
            return Err(IsoError::UnexpectedEof);
        }
        let entry_count = read_versioned_u32_at(d, p, version);
        let (entries, _end) = parse_counted::<FilePartitionBoxEntry>(d, p + w, entry_count as usize)?;
        Ok(
            FilePartitionBox {
                header,
                item_id,
                packet_payload_size,
                reserved,
                fec_encoding_id,
                fec_instance_id,
                max_source_block_length,
                encoding_symbol_length,
                max_number_of_encoding_symbols,
                scheme_specific_info,
                entry_count,
                entries,
            },
        )
    }

    fn serialize_body(&self, out: &mut Vec<u8>) -> (r: Result<(), IsoError>) {
        proof {
            assert(out@.subrange(0, out@.len() as int) =~= out@);
        }
        if self.scheme_specific_info.0.len() > usize::MAX / 2 {
            return Err(IsoError::InvalidData);
        }
        let ghost before = out@;
        let version = self.header.version;
        write_u8(out, version);
        write_u24(out, self.header.flags);
        write_versioned_u32(out, self.item_id, version);
        write_u16(out, self.packet_payload_size);
        write_u8(out, self.reserved);
        write_u8(out, self.fec_encoding_id);
        write_u16(out, self.fec_instance_id);
        write_u16(out, self.max_source_block_length);
        write_u16(out, self.encoding_symbol_length);
        write_u16(out, self.max_number_of_encoding_symbols);
        self.scheme_specific_info.serialize(out);
        write_versioned_u32(out, self.entry_count, version);
        let _ = serialize_all(&self.entries, out);
        proof {
            assert(out@ =~= before + Self::spec_serialize_body(self@));
            lemma_append_prefix(before, Self::spec_serialize_body(self@));
        }
        Ok(())
    }
}

/// File delivery session group box
///
/// ISO/IEC 14496-12 - 8.13.5
#[derive(Debug)]
pub struct FDSessionGroupBox {
    /// The number of session groups.
    pub num_session_groups: u16,
    /// The session groups.
    pub session_groups: Vec<FDSessionGroupBoxSessionGroup>,
}

/// The model of a [`FDSessionGroupBox`].
pub struct FDSessionGroupBoxModel {
    pub num_session_groups: u16,
    pub session_groups: Seq<<FDSessionGroupBoxSessionGroup as View>::V>,
}

impl View for FDSessionGroupBox {
    type V = FDSessionGroupBoxModel;

    open spec fn view(&self) -> FDSessionGroupBoxModel {
        FDSessionGroupBoxModel {
            num_session_groups: self.num_session_groups,
            session_groups: views(self.session_groups@),
        }
    }
}

impl IsoSized for FDSessionGroupBox {
    open spec fn spec_size(&self) -> nat {
        add_header_size(2 + size_seq::<FDSessionGroupBoxSessionGroup>(self.session_groups@))
    }

    fn size(&self) -> (n: usize) {
        proof {
            lemma_size_seq_mono::<FDSessionGroupBoxSessionGroup>(self.session_groups@, 0);
        }
        add_header_size_exec(2 + size_all(&self.session_groups))
    }
}

impl BoxBody for FDSessionGroupBox {
    open spec fn spec_box_type() -> [u8; 4] {
        [0x73u8, 0x65u8, 0x67u8, 0x72u8]
    }

    fn box_type() -> (r: [u8; 4]) {
        [0x73u8, 0x65u8, 0x67u8, 0x72u8]
    }

    /// The header fields, then as many entries as the count says.
    open spec fn spec_parse_body(s: Seq<u8>) -> Result<FDSessionGroupBoxModel, IsoError> {
        if s.len() < 2 {
            Err(IsoError::UnexpectedEof)
        } else {
            match parse_count::<FDSessionGroupBoxSessionGroup>(s.skip(2), be_u16_at(s, 0) as nat) {
                Ok((items, _)) => Ok(
                    FDSessionGroupBoxModel {
                        num_session_groups: be_u16_at(s, 0),
                        session_groups: items,
                    },
                ),
                Err(e) => Err(e),
            }
        }
    }

    open spec fn spec_writable(v: FDSessionGroupBoxModel) -> bool {
        true
    }

    open spec fn spec_serialize_body(v: FDSessionGroupBoxModel) -> Seq<u8> {
        u16_bytes(v.num_session_groups) + ser_seq::<FDSessionGroupBoxSessionGroup>(v.session_groups)
    }

    /// The count is the number of entries.
    open spec fn spec_canonical(v: FDSessionGroupBoxModel) -> bool {
        v.session_groups.len() == v.num_session_groups && canonical_seq::<FDSessionGroupBoxSessionGroup>(v.session_groups)
    }

    proof fn lemma_box_type() {
        assert(Self::spec_box_type()[0] != spec_uuid_fourcc()[0]);
    }

    proof fn lemma_body_size(x: FDSessionGroupBox) {
        assert(writable_seq::<FDSessionGroupBoxSessionGroup>(views(x.session_groups@)));
        lemma_size_seq::<FDSessionGroupBoxSessionGroup>(x.session_groups@);
    }

    proof fn lemma_body_roundtrip(v: FDSessionGroupBoxModel) {
        let s = Self::spec_serialize_body(v);
        assert(s.subrange(0, 2) =~= u16_bytes(v.num_session_groups));
        lemma_u16_at(s, 0, v.num_session_groups);
        assert(s.skip(2) =~= ser_seq::<FDSessionGroupBoxSessionGroup>(v.session_groups) + Seq::<u8>::empty());
        assert(writable_seq::<FDSessionGroupBoxSessionGroup>(v.session_groups));
        lemma_count_roundtrip::<FDSessionGroupBoxSessionGroup>(v.session_groups, Seq::<u8>::empty());
    }

    fn parse_body(d: &[u8]) -> (r: Result<FDSessionGroupBox, IsoError>) {
        if d.len() < 2 {
            return Err(IsoError::UnexpectedEof);
        }
        let num_session_groups = read_u16_at(d, 0);
        let (session_groups, _end) = parse_counted::<FDSessionGroupBoxSessionGroup>(d, 2, num_session_groups as usize)?;
        Ok(FDSessionGroupBox { num_session_groups, session_groups })
    }

    fn serialize_body(&self, out: &mut Vec<u8>) -> (r: Result<(), IsoError>) {
        let ghost before = out@;
        write_u16(out, self.num_session_groups);
        let _ = serialize_all(&self.session_groups, out);
        proof {
            assert(out@ =~= before + Self::spec_serialize_body(self@));
            lemma_append_prefix(before, Self::spec_serialize_body(self@));
        }
        Ok(())
    }
}

} // verus!
