//! File structure and general boxes (ISO/IEC 14496-12 - 8.1).

use vstd::prelude::*;

use crate::codec::{
    be_u24_at, be_u32_at, lemma_append_prefix, lemma_prefix_trans, lemma_u24_at, lemma_u32_at, read_u24_at,
    read_u32_at, u24_bytes, u32_bytes, write_bytes, write_u24, write_u32, write_u8, IsoError, SpecParse,
};
use crate::frame::{add_header_size, add_header_size_exec, BoxBody};
use crate::header::{spec_uuid_fourcc, FullBoxHeader};
use crate::wire::{
    canonical_seq, lemma_rest_roundtrip, lemma_size_seq, lemma_size_seq_mono, parse_remaining, parse_rest,
    ser_seq, serialize_all, size_all, size_seq, views, writable_seq, IsoSized, Wire,
};

verus! {


/// Media data box
///
/// ISO/IEC 14496-12 - 8.1.1
#[derive(Debug, PartialEq, Eq)]
pub struct MediaDataBox {
    /// The media data: the whole payload.
    pub data: Vec<u8>,
}

impl MediaDataBox {
    /// A media data box holding `data`.
    pub fn new(data: Vec<u8>) -> (r: Self)
        ensures
            r.data@ == data@,
    {
        MediaDataBox { data }
    }
}


impl View for MediaDataBox {
    type V = Seq<u8>;

    open spec fn view(&self) -> Seq<u8> {
        self.data@
    }
}

impl IsoSized for MediaDataBox {
    open spec fn spec_size(&self) -> nat {
        add_header_size(0 + self.data@.len())
    }

    fn size(&self) -> (n: usize) {
        add_header_size_exec(0 + self.data.len())
    }
}

impl BoxBody for MediaDataBox {
    open spec fn spec_box_type() -> [u8; 4] {
        [0x6du8, 0x64u8, 0x61u8, 0x74u8]
    }

    fn box_type() -> (r: [u8; 4]) {
        [0x6du8, 0x64u8, 0x61u8, 0x74u8]
    }

    /// The whole payload.
    open spec fn spec_parse_body(s: Seq<u8>) -> Result<Seq<u8>, IsoError> {
        Ok(s)
    }

    open spec fn spec_writable(v: Seq<u8>) -> bool {
        true
    }

    open spec fn spec_serialize_body(v: Seq<u8>) -> Seq<u8> {
        v
    }

    open spec fn spec_canonical(v: Seq<u8>) -> bool {
        true
    }

    proof fn lemma_box_type() {
        assert(Self::spec_box_type()[0] != spec_uuid_fourcc()[0]);
    }

    proof fn lemma_body_size(x: MediaDataBox) {
    }

    proof fn lemma_body_roundtrip(v: Seq<u8>) {
        
    }

    fn parse_body(d: &[u8]) -> (r: Result<MediaDataBox, IsoError>) {
        let data = vstd::slice::slice_to_vec(d);
        Ok(MediaDataBox { data })
    }

    fn serialize_body(&self, out: &mut Vec<u8>) -> (r: Result<(), IsoError>) {
        let ghost before = out@;
        write_bytes(out, self.data.as_slice());
        proof {
            assert(out@ =~= before + Self::spec_serialize_body(self@));
            lemma_append_prefix(before, Self::spec_serialize_body(self@));
        }
        Ok(())
    }
}

/// Free space box
///
/// ISO/IEC 14496-12 - 8.1.2
#[derive(Debug, PartialEq, Eq)]
pub struct FreeSpaceBox {
    /// The data, to the end of the box.
    pub data: Vec<u8>,
}

impl View for FreeSpaceBox {
    type V = Seq<u8>;

    open spec fn view(&self) -> Seq<u8> {
        self.data@
    }
}

impl IsoSized for FreeSpaceBox {
    open spec fn spec_size(&self) -> nat {
        add_header_size(0 + self.data@.len())
    }

    fn size(&self) -> (n: usize) {
        add_header_size_exec(0 + self.data.len())
    }
}

impl BoxBody for FreeSpaceBox {
    open spec fn spec_box_type() -> [u8; 4] {
        [0x66u8, 0x72u8, 0x65u8, 0x65u8]
    }

    fn box_type() -> (r: [u8; 4]) {
        [0x66u8, 0x72u8, 0x65u8, 0x65u8]
    }

    /// The whole payload.
    open spec fn spec_parse_body(s: Seq<u8>) -> Result<Seq<u8>, IsoError> {
        Ok(s)
    }

    open spec fn spec_writable(v: Seq<u8>) -> bool {
        true
    }

    open spec fn spec_serialize_body(v: Seq<u8>) -> Seq<u8> {
        v
    }

    open spec fn spec_canonical(v: Seq<u8>) -> bool {
        true
    }

    proof fn lemma_box_type() {
        assert(Self::spec_box_type()[0] != spec_uuid_fourcc()[0]);
    }

    proof fn lemma_body_size(x: FreeSpaceBox) {
    }

    proof fn lemma_body_roundtrip(v: Seq<u8>) {
        
    }

    fn parse_body(d: &[u8]) -> (r: Result<FreeSpaceBox, IsoError>) {
        let data = vstd::slice::slice_to_vec(d);
        Ok(FreeSpaceBox { data })
    }

    fn serialize_body(&self, out: &mut Vec<u8>) -> (r: Result<(), IsoError>) {
        let ghost before = out@;
        write_bytes(out, self.data.as_slice());
        proof {
            assert(out@ =~= before + Self::spec_serialize_body(self@));
            lemma_append_prefix(before, Self::spec_serialize_body(self@));
        }
        Ok(())
    }
}

/// Free space box, of the type `skip`
///
/// ISO/IEC 14496-12 - 8.1.2
#[derive(Debug, PartialEq, Eq)]
pub struct SkipBox {
    /// The data, to the end of the box.
    pub data: Vec<u8>,
}

impl View for SkipBox {
    type V = Seq<u8>;

    open spec fn view(&self) -> Seq<u8> {
        self.data@
    }
}

impl IsoSized for SkipBox {
    open spec fn spec_size(&self) -> nat {
        add_header_size(0 + self.data@.len())
    }

    fn size(&self) -> (n: usize) {
        add_header_size_exec(0 + self.data.len())
    }
}

impl BoxBody for SkipBox {
    open spec fn spec_box_type() -> [u8; 4] {
        [0x73u8, 0x6bu8, 0x69u8, 0x70u8]
    }

    fn box_type() -> (r: [u8; 4]) {
        [0x73u8, 0x6bu8, 0x69u8, 0x70u8]
    }

    /// The whole payload.
    open spec fn spec_parse_body(s: Seq<u8>) -> Result<Seq<u8>, IsoError> {
        Ok(s)
    }

    open spec fn spec_writable(v: Seq<u8>) -> bool {
        true
    }

    open spec fn spec_serialize_body(v: Seq<u8>) -> Seq<u8> {
        v
    }

    open spec fn spec_canonical(v: Seq<u8>) -> bool {
        true
    }

    proof fn lemma_box_type() {
        assert(Self::spec_box_type()[0] != spec_uuid_fourcc()[0]);
    }

    proof fn lemma_body_size(x: SkipBox) {
    }

    proof fn lemma_body_roundtrip(v: Seq<u8>) {
        
    }

    fn parse_body(d: &[u8]) -> (r: Result<SkipBox, IsoError>) {
        let data = vstd::slice::slice_to_vec(d);
        Ok(SkipBox { data })
    }

    fn serialize_body(&self, out: &mut Vec<u8>) -> (r: Result<(), IsoError>) {
        let ghost before = out@;
        write_bytes(out, self.data.as_slice());
        proof {
            assert(out@ =~= before + Self::spec_serialize_body(self@));
            lemma_append_prefix(before, Self::spec_serialize_body(self@));
        }
        Ok(())
    }
}

/// Identified media data box
///
/// ISO/IEC 14496-12 - 8.1.4
#[derive(Debug, PartialEq, Eq)]
pub struct IdentifiedMediaDataBox {
    /// The identifier that data references use to find this box.
    pub imda_identifier: u32,
    /// The data, to the end of the box.
    pub data: Vec<u8>,
}

/// The model of an [`IdentifiedMediaDataBox`].
pub struct IdentifiedMediaDataBoxModel {
    pub imda_identifier: u32,
    pub data: Seq<u8>,
}

impl View for IdentifiedMediaDataBox {
    type V = IdentifiedMediaDataBoxModel;

    open spec fn view(&self) -> IdentifiedMediaDataBoxModel {
        IdentifiedMediaDataBoxModel { imda_identifier: self.imda_identifier, data: self.data@ }
    }
}

impl IsoSized for IdentifiedMediaDataBox {
    open spec fn spec_size(&self) -> nat {
        add_header_size(4 + self.data@.len())
    }

    fn size(&self) -> (n: usize) {
        add_header_size_exec(4 + self.data.len())
    }
}

impl BoxBody for IdentifiedMediaDataBox {
    open spec fn spec_box_type() -> [u8; 4] {
        [0x69u8, 0x6du8, 0x64u8, 0x61u8]
    }

    fn box_type() -> (r: [u8; 4]) {
        [0x69u8, 0x6du8, 0x64u8, 0x61u8]
    }

    /// The whole payload.
    open spec fn spec_parse_body(s: Seq<u8>) -> Result<IdentifiedMediaDataBoxModel, IsoError> {
        if s.len() < 4 {
            Err(IsoError::UnexpectedEof)
        } else {
            Ok(IdentifiedMediaDataBoxModel { imda_identifier: be_u32_at(s, 0), data: s.skip(4) })
        }
    }

    open spec fn spec_writable(v: IdentifiedMediaDataBoxModel) -> bool {
        true
    }

    open spec fn spec_serialize_body(v: IdentifiedMediaDataBoxModel) -> Seq<u8> {
        u32_bytes(v.imda_identifier) + v.data
    }

    open spec fn spec_canonical(v: IdentifiedMediaDataBoxModel) -> bool {
        true
    }

    proof fn lemma_box_type() {
        assert(Self::spec_box_type()[0] != spec_uuid_fourcc()[0]);
    }

    proof fn lemma_body_size(x: IdentifiedMediaDataBox) {
    }

    proof fn lemma_body_roundtrip(v: IdentifiedMediaDataBoxModel) {
        let s = Self::spec_serialize_body(v);
        assert(s.subrange(0, 4) =~= u32_bytes(v.imda_identifier));
        lemma_u32_at(s, 0, v.imda_identifier);
        assert(s.skip(4) =~= v.data);
    }

    fn parse_body(d: &[u8]) -> (r: Result<IdentifiedMediaDataBox, IsoError>) {
        if d.len() < 4 {
            return Err(IsoError::UnexpectedEof);
        }
        let imda_identifier = read_u32_at(d, 0);
        let data = vstd::slice::slice_to_vec(vstd::slice::slice_subrange(d, 4, d.len()));
        Ok(IdentifiedMediaDataBox { imda_identifier, data })
    }

    fn serialize_body(&self, out: &mut Vec<u8>) -> (r: Result<(), IsoError>) {
        let ghost before = out@;
        write_u32(out, self.imda_identifier);
        write_bytes(out, self.data.as_slice());
        proof {
            assert(out@ =~= before + Self::spec_serialize_body(self@));
            lemma_append_prefix(before, Self::spec_serialize_body(self@));
        }
        Ok(())
    }
}

/// A pair of a download rate and the delay that playback at that rate needs.
#[derive(Debug, Clone, Copy, PartialEq, Eq, Structural)]
pub struct ProgressiveDownloadInfoBoxProperties {
    /// The download rate, in bytes per second.
    pub rate: u32,
    /// The suggested delay before playback, in milliseconds.
    pub initial_delay: u32,
}

impl View for ProgressiveDownloadInfoBoxProperties {
    type V = ProgressiveDownloadInfoBoxProperties;

    open spec fn view(&self) -> ProgressiveDownloadInfoBoxProperties {
        *self
    }
}

impl IsoSized for ProgressiveDownloadInfoBoxProperties {
    open spec fn spec_size(&self) -> nat {
        8
    }

    fn size(&self) -> (n: usize) {
        8
    }
}

impl Wire for ProgressiveDownloadInfoBoxProperties {
    open spec fn spec_parse(s: Seq<u8>) -> SpecParse<ProgressiveDownloadInfoBoxProperties> {
        if s.len() < 8 {
            Err(IsoError::UnexpectedEof)
        } else {
            Ok((ProgressiveDownloadInfoBoxProperties {
                rate: be_u32_at(s, 0),
                initial_delay: be_u32_at(s, 4),
            }, 8))
        }
    }

    open spec fn spec_writable(v: ProgressiveDownloadInfoBoxProperties) -> bool {
        true
    }

    open spec fn spec_serialize(v: ProgressiveDownloadInfoBoxProperties) -> Seq<u8> {
        u32_bytes(v.rate) + u32_bytes(v.initial_delay)
    }

    open spec fn spec_canonical(v: ProgressiveDownloadInfoBoxProperties) -> bool {
        true
    }

    proof fn lemma_parse_len(s: Seq<u8>) {
    }

    proof fn lemma_size(x: ProgressiveDownloadInfoBoxProperties) {
    }

    proof fn lemma_roundtrip(v: ProgressiveDownloadInfoBoxProperties, rest: Seq<u8>) {
        let s = Self::spec_serialize(v) + rest;
        assert(s.subrange(0, 4) =~= u32_bytes(v.rate));
        lemma_u32_at(s, 0, v.rate);
        assert(s.subrange(4, 8) =~= u32_bytes(v.initial_delay));
        lemma_u32_at(s, 4, v.initial_delay);
    }

    fn parse(data: &[u8], pos: usize) -> (r: Result<(ProgressiveDownloadInfoBoxProperties, usize), IsoError>) {
        if data.len() - pos < 8 {
            return Err(IsoError::UnexpectedEof);
        }
        let d = &data[pos..data.len()];
        proof {
            assert(d@ =~= data@.skip(pos as int));
        }
        let rate = read_u32_at(d, 0);
        let initial_delay = read_u32_at(d, 4);
        Ok((ProgressiveDownloadInfoBoxProperties { rate, initial_delay }, pos + 8))
    }

    fn serialize(&self, out: &mut Vec<u8>) -> (r: Result<(), IsoError>) {
        let ghost before = out@;
        write_u32(out, self.rate);
        write_u32(out, self.initial_delay);
        proof {
            assert(out@ =~= before + Self::spec_serialize(self@));
            lemma_append_prefix(before, Self::spec_serialize(self@));
        }
        Ok(())
    }
}

/// Progressive download information box
///
/// ISO/IEC 14496-12 - 8.1.3
#[derive(Debug)]
pub struct ProgressiveDownloadInfoBox {
    /// The version and flags of the box.
    pub full_header: FullBoxHeader,
    /// The rate and delay pairs, to the end of the box.
    pub properties: Vec<ProgressiveDownloadInfoBoxProperties>,
}

/// The model of a [`ProgressiveDownloadInfoBox`].
pub struct ProgressiveDownloadInfoBoxModel {
    pub full_header: FullBoxHeader,
    pub properties: Seq<<ProgressiveDownloadInfoBoxProperties as View>::V>,
}

impl View for ProgressiveDownloadInfoBox {
    type V = ProgressiveDownloadInfoBoxModel;

    open spec fn view(&self) -> ProgressiveDownloadInfoBoxModel {
        ProgressiveDownloadInfoBoxModel {
            full_header: self.full_header,
            properties: views(self.properties@),
        }
    }
}

impl IsoSized for ProgressiveDownloadInfoBox {
    open spec fn spec_size(&self) -> nat {
        add_header_size(4 + size_seq::<ProgressiveDownloadInfoBoxProperties>(self.properties@))
    }

    fn size(&self) -> (n: usize) {
        proof {
            lemma_size_seq_mono::<ProgressiveDownloadInfoBoxProperties>(self.properties@, 0);
        }
        add_header_size_exec(4 + size_all(&self.properties))
    }
}

impl BoxBody for ProgressiveDownloadInfoBox {
    open spec fn spec_box_type() -> [u8; 4] {
        [0x70u8, 0x64u8, 0x69u8, 0x6eu8]
    }

    fn box_type() -> (r: [u8; 4]) {
        [0x70u8, 0x64u8, 0x69u8, 0x6eu8]
    }

    /// The fixed fields, then entries until the payload ends.
    open spec fn spec_parse_body(s: Seq<u8>) -> Result<ProgressiveDownloadInfoBoxModel, IsoError> {
        if s.len() < 4 {
            Err(IsoError::UnexpectedEof)
        } else {
            match parse_rest::<ProgressiveDownloadInfoBoxProperties>(s.skip(4)) {
                Ok((items, _)) => Ok(
                    ProgressiveDownloadInfoBoxModel {
                        full_header: FullBoxHeader { version: s[0], flags: be_u24_at(s, 1) },
                        properties: items,
                    },
                ),
                Err(e) => Err(e),
            }
        }
    }

    open spec fn spec_writable(v: ProgressiveDownloadInfoBoxModel) -> bool {
        writable_seq::<ProgressiveDownloadInfoBoxProperties>(v.properties)
    }

    open spec fn spec_serialize_body(v: ProgressiveDownloadInfoBoxModel) -> Seq<u8> {
        seq![v.full_header.version] + u24_bytes(v.full_header.flags) + ser_seq::<ProgressiveDownloadInfoBoxProperties>(v.properties)
    }

    open spec fn spec_canonical(v: ProgressiveDownloadInfoBoxModel) -> bool {
        v.full_header.flags < 0x100_0000 && canonical_seq::<ProgressiveDownloadInfoBoxProperties>(v.properties)
    }

    proof fn lemma_box_type() {
        assert(Self::spec_box_type()[0] != spec_uuid_fourcc()[0]);
    }

    proof fn lemma_body_size(x: ProgressiveDownloadInfoBox) {
        lemma_size_seq::<ProgressiveDownloadInfoBoxProperties>(x.properties@);
    }

    proof fn lemma_body_roundtrip(v: ProgressiveDownloadInfoBoxModel) {
        let s = Self::spec_serialize_body(v);
        assert(s[0] == v.full_header.version);
        assert(s.subrange(1, 4) =~= u24_bytes(v.full_header.flags));
        lemma_u24_at(s, 1, v.full_header.flags);
        assert(s.skip(4) =~= ser_seq::<ProgressiveDownloadInfoBoxProperties>(v.properties));
        lemma_rest_roundtrip::<ProgressiveDownloadInfoBoxProperties>(v.properties);
    }

    fn parse_body(d: &[u8]) -> (r: Result<ProgressiveDownloadInfoBox, IsoError>) {
        if d.len() < 4 {
            return Err(IsoError::UnexpectedEof);
        }
        let full_header = FullBoxHeader { version: d[0], flags: read_u24_at(d, 1) };
        let (properties, _end) = parse_remaining::<ProgressiveDownloadInfoBoxProperties>(d, 4)?;
        Ok(ProgressiveDownloadInfoBox { full_header, properties })
    }

    fn serialize_body(&self, out: &mut Vec<u8>) -> (r: Result<(), IsoError>) {
        let ghost before = out@;
        write_u8(out, self.full_header.version);
        write_u24(out, self.full_header.flags);
        let ghost mid = out@;
        proof {
            assert(mid =~= before + (seq![self.full_header.version] + u24_bytes(self.full_header.flags)));
            lemma_append_prefix(before, seq![self.full_header.version] + u24_bytes(self.full_header.flags));
        }
        let r = serialize_all(&self.properties, out);
        if r.is_err() {
            proof {
                lemma_prefix_trans(before, mid, out@);
            }
            return Err(IsoError::InvalidData);
        }
        proof {
            assert(out@ =~= before + Self::spec_serialize_body(self@));
            lemma_append_prefix(before, Self::spec_serialize_body(self@));
        }
        Ok(())
    }
}


/// An entry of the progressive download information box is eight bytes: the rate spelled by the first four, big-endian, then the initial delay by the next four.
pub proof fn lemma_progressive_download_entry_layout(s: Seq<u8>)
    ensures
        s.len() < 8 ==> ProgressiveDownloadInfoBoxProperties::spec_parse(s) == Err::<(ProgressiveDownloadInfoBoxProperties, int), IsoError>(IsoError::UnexpectedEof),
        s.len() >= 8 ==> (ProgressiveDownloadInfoBoxProperties::spec_parse(s) matches Ok((h, n)) && n == 8 && h.rate == crate::codec::be_int(s, 0, 4) && h.initial_delay == crate::codec::be_int(s, 4, 4)),
{
    if s.len() >= 8 {
        crate::codec::lemma_be_int_u32(s, 0);
        crate::codec::lemma_be_int_u32(s, 4);
    }
}

} // verus!
