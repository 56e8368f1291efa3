//! The handler reference box (ISO/IEC 14496-12 - 8.4.3), the media header boxes of
//! the media kinds and the extended language box.

use vstd::prelude::*;

use crate::codec::{
    be_u16_at, be_u24_at, be_u32_at, fourcc_at, lemma_append_prefix, lemma_fourcc_at, lemma_u16_at, lemma_u24_at,
    lemma_u32_at, read_fourcc_at, read_u16_at, read_u24_at, read_u32_at, u16_bytes, u24_bytes, u32_bytes,
    write_fourcc, write_u16, write_u24, write_u32, write_u8, IsoError,
};
use crate::common_types::Utf8String;
use crate::frame::{add_header_size, add_header_size_exec, BoxBody};
use crate::header::{spec_uuid_fourcc, FullBoxHeader};
use crate::wire::{IsoSized, Wire};

verus! {

/// The type of a handler: the kind of media of a track, or the format of a meta box
/// (`vide`, `soun`, `meta`, ...).
#[derive(Debug, Clone, Copy, PartialEq, Eq)]
pub struct HandlerType(pub [u8; 4]);

impl View for HandlerType {
    type V = HandlerType;

    open spec fn view(&self) -> HandlerType {
        *self
    }
}

impl IsoSized for HandlerType {
    open spec fn spec_size(&self) -> nat {
        4
    }

    fn size(&self) -> (n: usize) {
        4
    }
}

/// The bytes of the three reserved words.
pub open spec fn reserved3_bytes(r: [u32; 3]) -> Seq<u8> {
    u32_bytes(r[0]) + u32_bytes(r[1]) + u32_bytes(r[2])
}

/// Handler reference box
///
/// ISO/IEC 14496-12 - 8.4.3
#[derive(Debug)]
pub struct HandlerBox {
    /// The full box header.
    pub full_header: FullBoxHeader,
    /// Zero.
    pub pre_defined: u32,
    /// The kind of media of the track, or the format of the meta box.
    pub handler_type: HandlerType,
    /// Reserved, zero.
    pub reserved: [u32; 3],
    /// A human-readable name for the track type.
    pub name: Utf8String,
}

/// The model of a [`HandlerBox`].
pub struct HandlerBoxModel {
    pub full_header: FullBoxHeader,
    pub pre_defined: u32,
    pub handler_type: HandlerType,
    pub reserved: [u32; 3],
    pub name: Seq<char>,
}

impl View for HandlerBox {
    type V = HandlerBoxModel;

    open spec fn view(&self) -> HandlerBoxModel {
        HandlerBoxModel {
            full_header: self.full_header,
            pre_defined: self.pre_defined,
            handler_type: self.handler_type,
            reserved: self.reserved,
            name: self.name@,
        }
    }
}

impl HandlerBox {
    /// Creates a handler box of the given type and name, with the other fields zero.
    pub fn new(handler_type: HandlerType, name: Utf8String) -> (r: Self)
        ensures
            r@ == (HandlerBoxModel {
                full_header: FullBoxHeader { version: 0, flags: 0 },
                pre_defined: 0,
                handler_type,
                reserved: [0u32, 0u32, 0u32],
                name: name@,
            }),
    {
        HandlerBox {
            full_header: FullBoxHeader { version: 0, flags: 0 },
            pre_defined: 0,
            handler_type,
            reserved: [0u32, 0u32, 0u32],
            name,
        }
    }
}

impl IsoSized for HandlerBox {
    open spec fn spec_size(&self) -> nat {
        add_header_size(24 + self.name.spec_size())
    }

    fn size(&self) -> (n: usize) {
        add_header_size_exec(24 + self.name.size())
    }
}

impl BoxBody for HandlerBox {
    open spec fn spec_box_type() -> [u8; 4] {
        [0x68u8, 0x64u8, 0x6cu8, 0x72u8]
    }

    fn box_type() -> (r: [u8; 4]) {
        [0x68u8, 0x64u8, 0x6cu8, 0x72u8]
    }

    /// The full header, the pre-defined word, the handler type, three reserved words,
    /// then the name up to its zero byte.
    open spec fn spec_parse_body(s: Seq<u8>) -> Result<HandlerBoxModel, IsoError> {
        if s.len() < 24 {
            Err(IsoError::UnexpectedEof)
        } else {
            match Utf8String::spec_parse(s.skip(24)) {
                Ok((name, _)) => Ok(
                    HandlerBoxModel {
                        full_header: FullBoxHeader { version: s[0], flags: be_u24_at(s, 1) },
                        pre_defined: be_u32_at(s, 4),
                        handler_type: HandlerType(fourcc_at(s, 8)),
                        reserved: [be_u32_at(s, 12), be_u32_at(s, 16), be_u32_at(s, 20)],
                        name,
                    },
                ),
                Err(e) => Err(e),
            }
        }
    }

    open spec fn spec_writable(v: HandlerBoxModel) -> bool {
        true
    }

    open spec fn spec_serialize_body(v: HandlerBoxModel) -> Seq<u8> {
        seq![v.full_header.version] + u24_bytes(v.full_header.flags) + u32_bytes(v.pre_defined)
            + v.handler_type.0@ + reserved3_bytes(v.reserved) + Utf8String::spec_serialize(v.name)
    }

    /// The name holds no zero byte.
    open spec fn spec_canonical(v: HandlerBoxModel) -> bool {
        v.full_header.flags < 0x100_0000 && Utf8String::spec_canonical(v.name)
    }

    proof fn lemma_box_type() {
        assert(Self::spec_box_type()[0] != spec_uuid_fourcc()[0]);
    }

    proof fn lemma_body_size(x: HandlerBox) {
        Utf8String::lemma_size(x.name);
    }

    #[verifier::spinoff_prover]
    #[verifier::rlimit(40)]
    proof fn lemma_body_roundtrip(v: HandlerBoxModel) {
        broadcast use vstd::array::group_array_axioms;
        let s = Self::spec_serialize_body(v);
        assert(s.subrange(1, 4) =~= u24_bytes(v.full_header.flags));
        lemma_u24_at(s, 1, v.full_header.flags);
        assert(s.subrange(4, 8) =~= u32_bytes(v.pre_defined));
        lemma_u32_at(s, 4, v.pre_defined);
        assert(s.subrange(8, 12) =~= v.handler_type.0@);
        lemma_fourcc_at(s, 8, v.handler_type.0);
        assert(s.subrange(12, 16) =~= u32_bytes(v.reserved[0]));
        lemma_u32_at(s, 12, v.reserved[0]);
        assert(s.subrange(16, 20) =~= u32_bytes(v.reserved[1]));
        lemma_u32_at(s, 16, v.reserved[1]);
        assert(s.subrange(20, 24) =~= u32_bytes(v.reserved[2]));
        lemma_u32_at(s, 20, v.reserved[2]);
        assert(s.skip(24) =~= Utf8String::spec_serialize(v.name) + Seq::<u8>::empty());
        Utf8String::lemma_roundtrip(v.name, Seq::<u8>::empty());
        assert([v.reserved[0], v.reserved[1], v.reserved[2]] =~= v.reserved);
    }

    fn parse_body(d: &[u8]) -> (r: Result<HandlerBox, IsoError>) {
        if d.len() < 24 {
            return Err(IsoError::UnexpectedEof);
        }
        let (name, _p) = Utf8String::parse(d, 24)?;
        Ok(
            HandlerBox {
                full_header: FullBoxHeader { version: d[0], flags: read_u24_at(d, 1) },
                pre_defined: read_u32_at(d, 4),
                handler_type: HandlerType(read_fourcc_at(d, 8)),
                reserved: [read_u32_at(d, 12), read_u32_at(d, 16), read_u32_at(d, 20)],
                name,
            },
        )
    }

    fn serialize_body(&self, out: &mut Vec<u8>) -> (r: Result<(), IsoError>) {
        let ghost before = out@;
        write_u8(out, self.full_header.version);
        write_u24(out, self.full_header.flags);
        write_u32(out, self.pre_defined);
        write_fourcc(out, self.handler_type.0);
        write_u32(out, self.reserved[0]);
        write_u32(out, self.reserved[1]);
        write_u32(out, self.reserved[2]);
        let _ = self.name.serialize(out);
        proof {
            assert(out@ =~= before + Self::spec_serialize_body(self@));
            lemma_append_prefix(before, Self::spec_serialize_body(self@));
        }
        Ok(())
    }
}

/// Null media header box
///
/// `nmhd`
///
/// ISO/IEC 14496-12 - 8.4.5.2
#[derive(Debug, Clone, Copy, PartialEq, Eq, Structural)]
pub struct NullMediaHeaderBox {
    /// The full box header.
    pub full_header: FullBoxHeader,
}

impl View for NullMediaHeaderBox {
    type V = NullMediaHeaderBox;

    open spec fn view(&self) -> NullMediaHeaderBox {
        *self
    }
}

impl IsoSized for NullMediaHeaderBox {
    open spec fn spec_size(&self) -> nat {
        add_header_size(4)
    }

    fn size(&self) -> (n: usize) {
        add_header_size_exec(4)
    }
}

impl BoxBody for NullMediaHeaderBox {
    open spec fn spec_box_type() -> [u8; 4] {
        [0x6eu8, 0x6du8, 0x68u8, 0x64u8]
    }

    fn box_type() -> (r: [u8; 4]) {
        [0x6eu8, 0x6du8, 0x68u8, 0x64u8]
    }

    /// The full header; the rest of the payload is not read.
    open spec fn spec_parse_body(s: Seq<u8>) -> Result<NullMediaHeaderBox, IsoError> {
        if s.len() < 4 {
            Err(IsoError::UnexpectedEof)
        } else {
            Ok(NullMediaHeaderBox { full_header: FullBoxHeader { version: s[0], flags: be_u24_at(s, 1) } })
        }
    }

    open spec fn spec_writable(v: NullMediaHeaderBox) -> bool {
        true
    }

    open spec fn spec_serialize_body(v: NullMediaHeaderBox) -> Seq<u8> {
        seq![v.full_header.version] + u24_bytes(v.full_header.flags)
    }

    open spec fn spec_canonical(v: NullMediaHeaderBox) -> bool {
        v.full_header.flags < 0x100_0000
    }

    proof fn lemma_box_type() {
        assert(Self::spec_box_type()[0] != spec_uuid_fourcc()[0]);
    }

    proof fn lemma_body_size(x: NullMediaHeaderBox) {
    }

    proof fn lemma_body_roundtrip(v: NullMediaHeaderBox) {
        let s = Self::spec_serialize_body(v);
        assert(s.subrange(1, 4) =~= u24_bytes(v.full_header.flags));
        lemma_u24_at(s, 1, v.full_header.flags);
    }

    fn parse_body(d: &[u8]) -> (r: Result<NullMediaHeaderBox, IsoError>) {
        if d.len() < 4 {
            return Err(IsoError::UnexpectedEof);
        }
        Ok(NullMediaHeaderBox { full_header: FullBoxHeader { version: d[0], flags: read_u24_at(d, 1) } })
    }

    fn serialize_body(&self, out: &mut Vec<u8>) -> (r: Result<(), IsoError>) {
        let ghost before = out@;
        write_u8(out, self.full_header.version);
        write_u24(out, self.full_header.flags);
        proof {
            assert(out@ =~= before + Self::spec_serialize_body(self@));
            lemma_append_prefix(before, Self::spec_serialize_body(self@));
        }
        Ok(())
    }
}

/// Subtitle media header box
///
/// `sthd`
///
/// ISO/IEC 14496-12 - 12.6.2
#[derive(Debug, Clone, Copy, PartialEq, Eq, Structural)]
pub struct SubtitleMediaHeaderBox {
    /// The full box header.
    pub full_header: FullBoxHeader,
}

impl View for SubtitleMediaHeaderBox {
    type V = SubtitleMediaHeaderBox;

    open spec fn view(&self) -> SubtitleMediaHeaderBox {
        *self
    }
}

impl IsoSized for SubtitleMediaHeaderBox {
    open spec fn spec_size(&self) -> nat {
        add_header_size(4)
    }

    fn size(&self) -> (n: usize) {
        add_header_size_exec(4)
    }
}

impl BoxBody for SubtitleMediaHeaderBox {
    open spec fn spec_box_type() -> [u8; 4] {
        [0x73u8, 0x74u8, 0x68u8, 0x64u8]
    }

    fn box_type() -> (r: [u8; 4]) {
        [0x73u8, 0x74u8, 0x68u8, 0x64u8]
    }

    /// The full header; the rest of the payload is not read.
    open spec fn spec_parse_body(s: Seq<u8>) -> Result<SubtitleMediaHeaderBox, IsoError> {
        if s.len() < 4 {
            Err(IsoError::UnexpectedEof)
        } else {
            Ok(SubtitleMediaHeaderBox { full_header: FullBoxHeader { version: s[0], flags: be_u24_at(s, 1) } })
        }
    }

    open spec fn spec_writable(v: SubtitleMediaHeaderBox) -> bool {
        true
    }

    open spec fn spec_serialize_body(v: SubtitleMediaHeaderBox) -> Seq<u8> {
        seq![v.full_header.version] + u24_bytes(v.full_header.flags)
    }

    open spec fn spec_canonical(v: SubtitleMediaHeaderBox) -> bool {
        v.full_header.flags < 0x100_0000
    }

    proof fn lemma_box_type() {
        assert(Self::spec_box_type()[0] != spec_uuid_fourcc()[0]);
    }

    proof fn lemma_body_size(x: SubtitleMediaHeaderBox) {
    }

    proof fn lemma_body_roundtrip(v: SubtitleMediaHeaderBox) {
        let s = Self::spec_serialize_body(v);
        assert(s.subrange(1, 4) =~= u24_bytes(v.full_header.flags));
        lemma_u24_at(s, 1, v.full_header.flags);
    }

    fn parse_body(d: &[u8]) -> (r: Result<SubtitleMediaHeaderBox, IsoError>) {
        if d.len() < 4 {
            return Err(IsoError::UnexpectedEof);
        }
        Ok(SubtitleMediaHeaderBox { full_header: FullBoxHeader { version: d[0], flags: read_u24_at(d, 1) } })
    }

    fn serialize_body(&self, out: &mut Vec<u8>) -> (r: Result<(), IsoError>) {
        let ghost before = out@;
        write_u8(out, self.full_header.version);
        write_u24(out, self.full_header.flags);
        proof {
            assert(out@ =~= before + Self::spec_serialize_body(self@));
            lemma_append_prefix(before, Self::spec_serialize_body(self@));
        }
        Ok(())
    }
}

/// Volumetric visual media header box
///
/// `vvhd`
///
/// ISO/IEC 14496-12 - 12.11.2
#[derive(Debug, Clone, Copy, PartialEq, Eq, Structural)]
pub struct VolumetricVisualMediaHeaderBox {
    /// The full box header.
    pub full_header: FullBoxHeader,
}

impl View for VolumetricVisualMediaHeaderBox {
    type V = VolumetricVisualMediaHeaderBox;

    open spec fn view(&self) -> VolumetricVisualMediaHeaderBox {
        *self
    }
}

impl IsoSized for VolumetricVisualMediaHeaderBox {
    open spec fn spec_size(&self) -> nat {
        add_header_size(4)
    }

    fn size(&self) -> (n: usize) {
        add_header_size_exec(4)
    }
}

impl BoxBody for VolumetricVisualMediaHeaderBox {
    open spec fn spec_box_type() -> [u8; 4] {
        [0x76u8, 0x76u8, 0x68u8, 0x64u8]
    }

    fn box_type() -> (r: [u8; 4]) {
        [0x76u8, 0x76u8, 0x68u8, 0x64u8]
    }

    /// The full header; the rest of the payload is not read.
    open spec fn spec_parse_body(s: Seq<u8>) -> Result<VolumetricVisualMediaHeaderBox, IsoError> {
        if s.len() < 4 {
            Err(IsoError::UnexpectedEof)
        } else {
            Ok(VolumetricVisualMediaHeaderBox { full_header: FullBoxHeader { version: s[0], flags: be_u24_at(s, 1) } })
        }
    }

    open spec fn spec_writable(v: VolumetricVisualMediaHeaderBox) -> bool {
        true
    }

    open spec fn spec_serialize_body(v: VolumetricVisualMediaHeaderBox) -> Seq<u8> {
        seq![v.full_header.version] + u24_bytes(v.full_header.flags)
    }

    open spec fn spec_canonical(v: VolumetricVisualMediaHeaderBox) -> bool {
        v.full_header.flags < 0x100_0000
    }

    proof fn lemma_box_type() {
        assert(Self::spec_box_type()[0] != spec_uuid_fourcc()[0]);
    }

    proof fn lemma_body_size(x: VolumetricVisualMediaHeaderBox) {
    }

    proof fn lemma_body_roundtrip(v: VolumetricVisualMediaHeaderBox) {
        let s = Self::spec_serialize_body(v);
        assert(s.subrange(1, 4) =~= u24_bytes(v.full_header.flags));
        lemma_u24_at(s, 1, v.full_header.flags);
    }

    fn parse_body(d: &[u8]) -> (r: Result<VolumetricVisualMediaHeaderBox, IsoError>) {
        if d.len() < 4 {
            return Err(IsoError::UnexpectedEof);
        }
        Ok(VolumetricVisualMediaHeaderBox { full_header: FullBoxHeader { version: d[0], flags: read_u24_at(d, 1) } })
    }

    fn serialize_body(&self, out: &mut Vec<u8>) -> (r: Result<(), IsoError>) {
        let ghost before = out@;
        write_u8(out, self.full_header.version);
        write_u24(out, self.full_header.flags);
        proof {
            assert(out@ =~= before + Self::spec_serialize_body(self@));
            lemma_append_prefix(before, Self::spec_serialize_body(self@));
        }
        Ok(())
    }
}

/// Video media header box
///
/// `vmhd`
///
/// ISO/IEC 14496-12 - 12.1.2
#[derive(Debug, Clone, Copy, PartialEq, Eq)]
pub struct VideoMediaHeaderBox {
    /// The full box header.
    pub full_header: FullBoxHeader,
    /// The composition mode of the track; 0 copies over the existing image.
    pub graphicsmode: u16,
    /// Three colour values (red, green, blue) for the graphics modes.
    pub opcolor: [u16; 3],
}

impl View for VideoMediaHeaderBox {
    type V = VideoMediaHeaderBox;

    open spec fn view(&self) -> VideoMediaHeaderBox {
        *self
    }
}

impl IsoSized for VideoMediaHeaderBox {
    open spec fn spec_size(&self) -> nat {
        add_header_size(12)
    }

    fn size(&self) -> (n: usize) {
        add_header_size_exec(12)
    }
}

impl BoxBody for VideoMediaHeaderBox {
    open spec fn spec_box_type() -> [u8; 4] {
        [0x76u8, 0x6du8, 0x68u8, 0x64u8]
    }

    fn box_type() -> (r: [u8; 4]) {
        [0x76u8, 0x6du8, 0x68u8, 0x64u8]
    }

    /// The full header, the graphics mode, then the three colour values.
    open spec fn spec_parse_body(s: Seq<u8>) -> Result<VideoMediaHeaderBox, IsoError> {
        if s.len() < 12 {
            Err(IsoError::UnexpectedEof)
        } else {
            Ok(
                VideoMediaHeaderBox {
                    full_header: FullBoxHeader { version: s[0], flags: be_u24_at(s, 1) },
                    graphicsmode: be_u16_at(s, 4),
                    opcolor: [be_u16_at(s, 6), be_u16_at(s, 8), be_u16_at(s, 10)],
                },
            )
        }
    }

    open spec fn spec_writable(v: VideoMediaHeaderBox) -> bool {
        true
    }

    open spec fn spec_serialize_body(v: VideoMediaHeaderBox) -> Seq<u8> {
        seq![v.full_header.version] + u24_bytes(v.full_header.flags) + u16_bytes(v.graphicsmode) + u16_bytes(
            v.opcolor[0],
        ) + u16_bytes(v.opcolor[1]) + u16_bytes(v.opcolor[2])
    }

    open spec fn spec_canonical(v: VideoMediaHeaderBox) -> bool {
        v.full_header.flags < 0x100_0000
    }

    proof fn lemma_box_type() {
        assert(Self::spec_box_type()[0] != spec_uuid_fourcc()[0]);
    }

    proof fn lemma_body_size(x: VideoMediaHeaderBox) {
    }

    proof fn lemma_body_roundtrip(v: VideoMediaHeaderBox) {
        broadcast use vstd::array::group_array_axioms;
        let s = Self::spec_serialize_body(v);
        assert(s.subrange(1, 4) =~= u24_bytes(v.full_header.flags));
        lemma_u24_at(s, 1, v.full_header.flags);
        assert(s.subrange(4, 6) =~= u16_bytes(v.graphicsmode));
        lemma_u16_at(s, 4, v.graphicsmode);
        assert(s.subrange(6, 8) =~= u16_bytes(v.opcolor[0]));
        lemma_u16_at(s, 6, v.opcolor[0]);
        assert(s.subrange(8, 10) =~= u16_bytes(v.opcolor[1]));
        lemma_u16_at(s, 8, v.opcolor[1]);
        assert(s.subrange(10, 12) =~= u16_bytes(v.opcolor[2]));
        lemma_u16_at(s, 10, v.opcolor[2]);
        assert([v.opcolor[0], v.opcolor[1], v.opcolor[2]] =~= v.opcolor);
    }

    fn parse_body(d: &[u8]) -> (r: Result<VideoMediaHeaderBox, IsoError>) {
        if d.len() < 12 {
            return Err(IsoError::UnexpectedEof);
        }
        Ok(
            VideoMediaHeaderBox {
                full_header: FullBoxHeader { version: d[0], flags: read_u24_at(d, 1) },
                graphicsmode: read_u16_at(d, 4),
                opcolor: [read_u16_at(d, 6), read_u16_at(d, 8), read_u16_at(d, 10)],
            },
        )
    }

    fn serialize_body(&self, out: &mut Vec<u8>) -> (r: Result<(), IsoError>) {
        let ghost before = out@;
        write_u8(out, self.full_header.version);
        write_u24(out, self.full_header.flags);
        write_u16(out, self.graphicsmode);
        write_u16(out, self.opcolor[0]);
        write_u16(out, self.opcolor[1]);
        write_u16(out, self.opcolor[2]);
        proof {
            assert(out@ =~= before + Self::spec_serialize_body(self@));
            lemma_append_prefix(before, Self::spec_serialize_body(self@));
        }
        Ok(())
    }
}

/// Hint media header box
///
/// `hmhd`
///
/// ISO/IEC 14496-12 - 12.4.3
#[derive(Debug, Clone, Copy, PartialEq, Eq)]
pub struct HintMediaHeaderBox {
    /// The full box header.
    pub header: FullBoxHeader,
    /// The size of the largest protocol data unit of the hint stream.
    pub max_pdu_size: u16,
    /// The average size of a protocol data unit.
    pub avg_pdu_size: u16,
    /// The largest rate in bits per second over any one-second window.
    pub maxbitrate: u32,
    /// The average rate in bits per second.
    pub avgbitrate: u32,
    /// Reserved.
    pub reserved: u32,
}

impl View for HintMediaHeaderBox {
    type V = HintMediaHeaderBox;

    open spec fn view(&self) -> HintMediaHeaderBox {
        *self
    }
}

impl IsoSized for HintMediaHeaderBox {
    open spec fn spec_size(&self) -> nat {
        add_header_size(20)
    }

    fn size(&self) -> (n: usize) {
        add_header_size_exec(20)
    }
}

impl BoxBody for HintMediaHeaderBox {
    open spec fn spec_box_type() -> [u8; 4] {
        [0x68u8, 0x6du8, 0x68u8, 0x64u8]
    }

    fn box_type() -> (r: [u8; 4]) {
        [0x68u8, 0x6du8, 0x68u8, 0x64u8]
    }

    /// The full header, the two unit sizes, the two rates and the reserved word.
    open spec fn spec_parse_body(s: Seq<u8>) -> Result<HintMediaHeaderBox, IsoError> {
        if s.len() < 20 {
            Err(IsoError::UnexpectedEof)
        } else {
            Ok(
                HintMediaHeaderBox {
                    header: FullBoxHeader { version: s[0], flags: be_u24_at(s, 1) },
                    max_pdu_size: be_u16_at(s, 4),
                    avg_pdu_size: be_u16_at(s, 6),
                    maxbitrate: be_u32_at(s, 8),
                    avgbitrate: be_u32_at(s, 12),
                    reserved: be_u32_at(s, 16),
                },
            )
        }
    }

    open spec fn spec_writable(v: HintMediaHeaderBox) -> bool {
        true
    }

    open spec fn spec_serialize_body(v: HintMediaHeaderBox) -> Seq<u8> {
        seq![v.header.version] + u24_bytes(v.header.flags) + u16_bytes(v.max_pdu_size) + u16_bytes(v.avg_pdu_size)
            + u32_bytes(v.maxbitrate) + u32_bytes(v.avgbitrate) + u32_bytes(v.reserved)
    }

    open spec fn spec_canonical(v: HintMediaHeaderBox) -> bool {
        v.header.flags < 0x100_0000
    }

    proof fn lemma_box_type() {
        assert(Self::spec_box_type()[0] != spec_uuid_fourcc()[0]);
    }

    proof fn lemma_body_size(x: HintMediaHeaderBox) {
    }

    proof fn lemma_body_roundtrip(v: HintMediaHeaderBox) {
        let s = Self::spec_serialize_body(v);
        assert(s.subrange(1, 4) =~= u24_bytes(v.header.flags));
        lemma_u24_at(s, 1, v.header.flags);
        assert(s.subrange(4, 6) =~= u16_bytes(v.max_pdu_size));
        lemma_u16_at(s, 4, v.max_pdu_size);
        assert(s.subrange(6, 8) =~= u16_bytes(v.avg_pdu_size));
        lemma_u16_at(s, 6, v.avg_pdu_size);
        assert(s.subrange(8, 12) =~= u32_bytes(v.maxbitrate));
        lemma_u32_at(s, 8, v.maxbitrate);
        assert(s.subrange(12, 16) =~= u32_bytes(v.avgbitrate));
        lemma_u32_at(s, 12, v.avgbitrate);
        assert(s.subrange(16, 20) =~= u32_bytes(v.reserved));
        lemma_u32_at(s, 16, v.reserved);
    }

    fn parse_body(d: &[u8]) -> (r: Result<HintMediaHeaderBox, IsoError>) {
        if d.len() < 20 {
            return Err(IsoError::UnexpectedEof);
        }
        Ok(
            HintMediaHeaderBox {
                header: FullBoxHeader { version: d[0], flags: read_u24_at(d, 1) },
                max_pdu_size: read_u16_at(d, 4),
                avg_pdu_size: read_u16_at(d, 6),
                maxbitrate: read_u32_at(d, 8),
                avgbitrate: read_u32_at(d, 12),
                reserved: read_u32_at(d, 16),
            },
        )
    }

    fn serialize_body(&self, out: &mut Vec<u8>) -> (r: Result<(), IsoError>) {
        let ghost before = out@;
        write_u8(out, self.header.version);
        write_u24(out, self.header.flags);
        write_u16(out, self.max_pdu_size);
        write_u16(out, self.avg_pdu_size);
        write_u32(out, self.maxbitrate);
        write_u32(out, self.avgbitrate);
        write_u32(out, self.reserved);
        proof {
            assert(out@ =~= before + Self::spec_serialize_body(self@));
            lemma_append_prefix(before, Self::spec_serialize_body(self@));
        }
        Ok(())
    }
}

/// Extended language tag
///
/// `elng`
///
/// ISO/IEC 14496-12 - 8.4.6
#[derive(Debug)]
pub struct ExtendedLanguageBox {
    /// The full box header.
    pub full_header: FullBoxHeader,
    /// An IETF BCP 47 language tag, such as "en-US".
    pub extended_language: Utf8String,
}

/// The model of an [`ExtendedLanguageBox`].
pub struct ExtendedLanguageBoxModel {
    pub full_header: FullBoxHeader,
    pub extended_language: Seq<char>,
}

impl View for ExtendedLanguageBox {
    type V = ExtendedLanguageBoxModel;

    open spec fn view(&self) -> ExtendedLanguageBoxModel {
        ExtendedLanguageBoxModel { full_header: self.full_header, extended_language: self.extended_language@ }
    }
}

impl IsoSized for ExtendedLanguageBox {
    open spec fn spec_size(&self) -> nat {
        add_header_size(4 + self.extended_language.spec_size())
    }

    fn size(&self) -> (n: usize) {
        add_header_size_exec(4 + self.extended_language.size())
    }
}

impl BoxBody for ExtendedLanguageBox {
    open spec fn spec_box_type() -> [u8; 4] {
        [0x65u8, 0x6cu8, 0x6eu8, 0x67u8]
    }

    fn box_type() -> (r: [u8; 4]) {
        [0x65u8, 0x6cu8, 0x6eu8, 0x67u8]
    }

    /// The full header, then the language tag up to its zero byte.
    open spec fn spec_parse_body(s: Seq<u8>) -> Result<ExtendedLanguageBoxModel, IsoError> {
        if s.len() < 4 {
            Err(IsoError::UnexpectedEof)
        } else {
            match Utf8String::spec_parse(s.skip(4)) {
                Ok((tag, _)) => Ok(
                    ExtendedLanguageBoxModel {
                        full_header: FullBoxHeader { version: s[0], flags: be_u24_at(s, 1) },
                        extended_language: tag,
                    },
                ),
                Err(e) => Err(e),
            }
        }
    }

    open spec fn spec_writable(v: ExtendedLanguageBoxModel) -> bool {
        true
    }

    open spec fn spec_serialize_body(v: ExtendedLanguageBoxModel) -> Seq<u8> {
        seq![v.full_header.version] + u24_bytes(v.full_header.flags) + Utf8String::spec_serialize(
            v.extended_language,
        )
    }

    /// The tag holds no zero byte.
    open spec fn spec_canonical(v: ExtendedLanguageBoxModel) -> bool {
        v.full_header.flags < 0x100_0000 && Utf8String::spec_canonical(v.extended_language)
    }

    proof fn lemma_box_type() {
        assert(Self::spec_box_type()[1] != spec_uuid_fourcc()[1]);
    }

    proof fn lemma_body_size(x: ExtendedLanguageBox) {
        Utf8String::lemma_size(x.extended_language);
    }

    proof fn lemma_body_roundtrip(v: ExtendedLanguageBoxModel) {
        let s = Self::spec_serialize_body(v);
        assert(s.subrange(1, 4) =~= u24_bytes(v.full_header.flags));
        lemma_u24_at(s, 1, v.full_header.flags);
        assert(s.skip(4) =~= Utf8String::spec_serialize(v.extended_language) + Seq::<u8>::empty());
        Utf8String::lemma_roundtrip(v.extended_language, Seq::<u8>::empty());
    }

    fn parse_body(d: &[u8]) -> (r: Result<ExtendedLanguageBox, IsoError>) {
        if d.len() < 4 {
            return Err(IsoError::UnexpectedEof);
        }
        let (extended_language, _p) = Utf8String::parse(d, 4)?;
        Ok(
            ExtendedLanguageBox {
                full_header: FullBoxHeader { version: d[0], flags: read_u24_at(d, 1) },
                extended_language,
            },
        )
    }

    fn serialize_body(&self, out: &mut Vec<u8>) -> (r: Result<(), IsoError>) {
        let ghost before = out@;
        write_u8(out, self.full_header.version);
        write_u24(out, self.full_header.flags);
        let _ = self.extended_language.serialize(out);
        proof {
            assert(out@ =~= before + Self::spec_serialize_body(self@));
            lemma_append_prefix(before, Self::spec_serialize_body(self@));
        }
        Ok(())
    }
}


/// The handler box body (ISO/IEC 14496-12 - 8.4.3): the version byte, three flag bytes, the pre-defined word spelled by bytes 4..8, then the handler type in bytes 8..12, then three reserved words and the name.
pub proof fn lemma_handler_layout(s: Seq<u8>)
    ensures
        s.len() < 24 ==> HandlerBox::spec_parse_body(s) == Err::<HandlerBoxModel, IsoError>(IsoError::UnexpectedEof),
        s.len() >= 24 ==> (HandlerBox::spec_parse_body(s) matches Ok(h) ==> h.full_header.version == s[0] && h.full_header.flags == crate::codec::be_int(s, 1, 3) && h.pre_defined == crate::codec::be_int(s, 4, 4) && h.handler_type.0@ == s.subrange(8, 12)),
{
    if s.len() >= 24 {
        crate::codec::lemma_be_int_u24(s, 1);
        crate::codec::lemma_be_int_u32(s, 4);
        broadcast use vstd::array::group_array_axioms;
        assert(fourcc_at(s, 8)@ =~= s.subrange(8, 12));
    }
}


/// The hint media header body (ISO/IEC 14496-12 - 12.4.3): after the version byte and three flag bytes, the maximum PDU size spelled by bytes 4..6, the average PDU size by 6..8, the maximum bitrate by 8..12 and the average bitrate by 12..16.
pub proof fn lemma_hint_media_header_layout(s: Seq<u8>)
    ensures
        s.len() < 20 ==> HintMediaHeaderBox::spec_parse_body(s) == Err::<HintMediaHeaderBox, IsoError>(IsoError::UnexpectedEof),
        s.len() >= 20 ==> (HintMediaHeaderBox::spec_parse_body(s) matches Ok(h) && h.max_pdu_size == crate::codec::be_int(s, 4, 2) && h.avg_pdu_size == crate::codec::be_int(s, 6, 2) && h.maxbitrate == crate::codec::be_int(s, 8, 4) && h.avgbitrate == crate::codec::be_int(s, 12, 4) && h.header.version == s[0] && h.header.flags == crate::codec::be_int(s, 1, 3)),
{
    if s.len() >= 20 {
        crate::codec::lemma_be_int_u16(s, 4);
        crate::codec::lemma_be_int_u16(s, 6);
        crate::codec::lemma_be_int_u32(s, 8);
        crate::codec::lemma_be_int_u32(s, 12);
        crate::codec::lemma_be_int_u24(s, 1);
    }
}

/// The video media header body (ISO/IEC 14496-12 - 12.1.2): after the version byte and three flag bytes, the graphics mode spelled by bytes 4..6, then the red, green and blue of the colour by 6..8, 8..10 and 10..12.
pub proof fn lemma_video_media_header_layout(s: Seq<u8>)
    ensures
        s.len() < 12 ==> VideoMediaHeaderBox::spec_parse_body(s) == Err::<VideoMediaHeaderBox, IsoError>(IsoError::UnexpectedEof),
        s.len() >= 12 ==> (VideoMediaHeaderBox::spec_parse_body(s) matches Ok(h) && h.full_header.version == s[0] && h.full_header.flags == crate::codec::be_int(s, 1, 3) && h.graphicsmode == crate::codec::be_int(s, 4, 2) && h.opcolor[0] == crate::codec::be_int(s, 6, 2) && h.opcolor[1] == crate::codec::be_int(s, 8, 2) && h.opcolor[2] == crate::codec::be_int(s, 10, 2)),
{
    if s.len() >= 12 {
        crate::codec::lemma_be_int_u24(s, 1);
        crate::codec::lemma_be_int_u16(s, 4);
        crate::codec::lemma_be_int_u16(s, 6);
        crate::codec::lemma_be_int_u16(s, 8);
        crate::codec::lemma_be_int_u16(s, 10);
    }
}

} // verus!
