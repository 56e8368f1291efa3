//! The boxes of user data: copyright, track selection and track kind.

use vstd::prelude::*;

use crate::codec::{
    be_u24_at, be_u32_at, from_i32, i32_of, lemma_append_prefix, lemma_i32_roundtrip, lemma_u24_at,
    lemma_u32_at, read_u24_at, read_u32_at, to_i32, u24_bytes, u32_bytes, u32_of, write_u24, write_u32,
    write_u8, IsoError,
};
use crate::common_types::{Langauge, Utf8String};
use crate::frame::{add_header_size, add_header_size_exec, BoxBody};
use crate::header::{spec_uuid_fourcc, FullBoxHeader};
use crate::wire::{
    canonical_seq, lemma_rest_roundtrip, lemma_size_seq, lemma_size_seq_mono, parse_remaining, parse_rest,
    ser_seq, serialize_all, size_all, size_seq, views, writable_seq, IsoSized, Wire,
};

verus! {

/// Copyright box
///
/// `cprt`
///
/// ISO/IEC 14496-12 - 8.10.2
#[derive(Debug)]
pub struct CopyrightBox {
    /// The full box header.
    pub full_header: FullBoxHeader,
    /// The language of the notice.
    pub language: Langauge,
    /// The copyright notice.
    pub notice: Utf8String,
}

/// The model of a [`CopyrightBox`].
pub struct CopyrightBoxModel {
    pub full_header: FullBoxHeader,
    pub language: [u8; 3],
    pub notice: Seq<char>,
}

impl View for CopyrightBox {
    type V = CopyrightBoxModel;

    open spec fn view(&self) -> CopyrightBoxModel {
        CopyrightBoxModel { full_header: self.full_header, language: self.language@, notice: self.notice@ }
    }
}

impl IsoSized for CopyrightBox {
    open spec fn spec_size(&self) -> nat {
        add_header_size(6 + self.notice.spec_size())
    }

    fn size(&self) -> (n: usize) {
        add_header_size_exec(6 + self.notice.size())
    }
}

impl BoxBody for CopyrightBox {
    open spec fn spec_box_type() -> [u8; 4] {
        [0x63u8, 0x70u8, 0x72u8, 0x74u8]
    }

    fn box_type() -> (r: [u8; 4]) {
        [0x63u8, 0x70u8, 0x72u8, 0x74u8]
    }

    /// The full header, the packed language, then the notice up to its zero byte.
    open spec fn spec_parse_body(s: Seq<u8>) -> Result<CopyrightBoxModel, IsoError> {
        if s.len() < 4 {
            Err(IsoError::UnexpectedEof)
        } else {
            match Langauge::spec_parse(s.skip(4)) {
                Err(e) => Err(e),
                Ok((l, _)) => match Utf8String::spec_parse(s.skip(6)) {
                    Err(e) => Err(e),
                    Ok((t, _)) => Ok(
                        CopyrightBoxModel {
                            full_header: FullBoxHeader { version: s[0], flags: be_u24_at(s, 1) },
                            language: l,
                            notice: t,
                        },
                    ),
                },
            }
        }
    }

    open spec fn spec_writable(v: CopyrightBoxModel) -> bool {
        true
    }

    open spec fn spec_serialize_body(v: CopyrightBoxModel) -> Seq<u8> {
        seq![v.full_header.version] + u24_bytes(v.full_header.flags) + Langauge::spec_serialize(v.language)
            + Utf8String::spec_serialize(v.notice)
    }

    /// The letters fit five bits and the notice holds no zero byte.
    open spec fn spec_canonical(v: CopyrightBoxModel) -> bool {
        v.full_header.flags < 0x100_0000 && Langauge::spec_canonical(v.language) && Utf8String::spec_canonical(
            v.notice,
        )
    }

    proof fn lemma_box_type() {
        assert(Self::spec_box_type()[0] != spec_uuid_fourcc()[0]);
    }

    proof fn lemma_body_size(x: CopyrightBox) {
        Utf8String::lemma_size(x.notice);
    }

    proof fn lemma_body_roundtrip(v: CopyrightBoxModel) {
        let s = Self::spec_serialize_body(v);
        let t = Utf8String::spec_serialize(v.notice);
        assert(s.subrange(1, 4) =~= u24_bytes(v.full_header.flags));
        lemma_u24_at(s, 1, v.full_header.flags);
        assert(s.skip(4) =~= Langauge::spec_serialize(v.language) + t);
        Langauge::lemma_roundtrip(v.language, t);
        assert(s.skip(6) =~= t + Seq::<u8>::empty());
        Utf8String::lemma_roundtrip(v.notice, Seq::<u8>::empty());
    }

    fn parse_body(d: &[u8]) -> (r: Result<CopyrightBox, IsoError>) {
        if d.len() < 4 {
            return Err(IsoError::UnexpectedEof);
        }
        let (language, _p) = Langauge::parse(d, 4)?;
        let (notice, _q) = Utf8String::parse(d, 6)?;
        Ok(CopyrightBox { full_header: FullBoxHeader { version: d[0], flags: read_u24_at(d, 1) }, language, notice })
    }

    fn serialize_body(&self, out: &mut Vec<u8>) -> (r: Result<(), IsoError>) {
        let ghost before = out@;
        write_u8(out, self.full_header.version);
        write_u24(out, self.full_header.flags);
        let _ = self.language.serialize(out);
        let _ = self.notice.serialize(out);
        proof {
            assert(out@ =~= before + Self::spec_serialize_body(self@));
            lemma_append_prefix(before, Self::spec_serialize_body(self@));
        }
        Ok(())
    }
}

/// Track selection box
///
/// `tsel`
///
/// ISO/IEC 14496-12 - 8.10.3
#[derive(Debug, PartialEq, Eq)]
pub struct TrackSelectionBox {
    /// The full box header.
    pub full_header: FullBoxHeader,
    /// The switch group of the track, or 0.
    pub switch_group: i32,
    /// The attributes of the track, four-character codes to the end of the box.
    pub attribute_list: Vec<[u8; 4]>,
}

/// The model of a [`TrackSelectionBox`].
pub struct TrackSelectionBoxModel {
    pub full_header: FullBoxHeader,
    pub switch_group: i32,
    pub attribute_list: Seq<Seq<u8>>,
}

impl View for TrackSelectionBox {
    type V = TrackSelectionBoxModel;

    open spec fn view(&self) -> TrackSelectionBoxModel {
        TrackSelectionBoxModel {
            full_header: self.full_header,
            switch_group: self.switch_group,
            attribute_list: views(self.attribute_list@),
        }
    }
}

impl IsoSized for TrackSelectionBox {
    open spec fn spec_size(&self) -> nat {
        add_header_size(8 + size_seq::<[u8; 4]>(self.attribute_list@))
    }

    fn size(&self) -> (n: usize) {
        proof {
            lemma_size_seq_mono::<[u8; 4]>(self.attribute_list@, 0);
        }
        add_header_size_exec(8 + size_all(&self.attribute_list))
    }
}

impl BoxBody for TrackSelectionBox {
    open spec fn spec_box_type() -> [u8; 4] {
        [0x74u8, 0x73u8, 0x65u8, 0x6cu8]
    }

    fn box_type() -> (r: [u8; 4]) {
        [0x74u8, 0x73u8, 0x65u8, 0x6cu8]
    }

    /// The full header, the signed switch group, then attributes until the payload ends.
    open spec fn spec_parse_body(s: Seq<u8>) -> Result<TrackSelectionBoxModel, IsoError> {
        if s.len() < 8 {
            Err(IsoError::UnexpectedEof)
        } else {
            match parse_rest::<[u8; 4]>(s.skip(8)) {
                Ok((items, _)) => Ok(
                    TrackSelectionBoxModel {
                        full_header: FullBoxHeader { version: s[0], flags: be_u24_at(s, 1) },
                        switch_group: i32_of(be_u32_at(s, 4)),
                        attribute_list: items,
                    },
                ),
                Err(e) => Err(e),
            }
        }
    }

    open spec fn spec_writable(v: TrackSelectionBoxModel) -> bool {
        true
    }

    open spec fn spec_serialize_body(v: TrackSelectionBoxModel) -> Seq<u8> {
        seq![v.full_header.version] + u24_bytes(v.full_header.flags) + u32_bytes(u32_of(v.switch_group)) + ser_seq::<
            [u8; 4],
        >(v.attribute_list)
    }

    /// Every attribute has four bytes.
    open spec fn spec_canonical(v: TrackSelectionBoxModel) -> bool {
        v.full_header.flags < 0x100_0000 && canonical_seq::<[u8; 4]>(v.attribute_list)
    }

    proof fn lemma_box_type() {
        assert(Self::spec_box_type()[0] != spec_uuid_fourcc()[0]);
    }

    proof fn lemma_body_size(x: TrackSelectionBox) {
        assert(writable_seq::<[u8; 4]>(views(x.attribute_list@)));
        lemma_size_seq::<[u8; 4]>(x.attribute_list@);
    }

    proof fn lemma_body_roundtrip(v: TrackSelectionBoxModel) {
        let s = Self::spec_serialize_body(v);
        assert(s.subrange(1, 4) =~= u24_bytes(v.full_header.flags));
        lemma_u24_at(s, 1, v.full_header.flags);
        assert(s.subrange(4, 8) =~= u32_bytes(u32_of(v.switch_group)));
        lemma_u32_at(s, 4, u32_of(v.switch_group));
        lemma_i32_roundtrip(v.switch_group);
        assert(s.skip(8) =~= ser_seq::<[u8; 4]>(v.attribute_list));
        assert(writable_seq::<[u8; 4]>(v.attribute_list));
        lemma_rest_roundtrip::<[u8; 4]>(v.attribute_list);
    }

    fn parse_body(d: &[u8]) -> (r: Result<TrackSelectionBox, IsoError>) {
        if d.len() < 8 {
            return Err(IsoError::UnexpectedEof);
        }
        let full_header = FullBoxHeader { version: d[0], flags: read_u24_at(d, 1) };
        let switch_group = to_i32(read_u32_at(d, 4));
        let (attribute_list, _end) = parse_remaining::<[u8; 4]>(d, 8)?;
        Ok(TrackSelectionBox { full_header, switch_group, attribute_list })
    }

    fn serialize_body(&self, out: &mut Vec<u8>) -> (r: Result<(), IsoError>) {
        let ghost before = out@;
        write_u8(out, self.full_header.version);
        write_u24(out, self.full_header.flags);
        write_u32(out, from_i32(self.switch_group));
        let _ = serialize_all(&self.attribute_list, out);
        proof {
            assert(out@ =~= before + Self::spec_serialize_body(self@));
            lemma_append_prefix(before, Self::spec_serialize_body(self@));
        }
        Ok(())
    }
}

/// Track kind box
///
/// `kind`
///
/// ISO/IEC 14496-12 - 8.10.4
#[derive(Debug)]
pub struct KindBox {
    /// The full box header.
    pub full_header: FullBoxHeader,
    /// The identifier of the kind, or of the scheme of the value that follows.
    pub scheme_uri: Utf8String,
    /// A name from the declared scheme.
    pub value: Utf8String,
}

/// The model of a [`KindBox`].
pub struct KindBoxModel {
    pub full_header: FullBoxHeader,
    pub scheme_uri: Seq<char>,
    pub value: Seq<char>,
}

impl View for KindBox {
    type V = KindBoxModel;

    open spec fn view(&self) -> KindBoxModel {
        KindBoxModel { full_header: self.full_header, scheme_uri: self.scheme_uri@, value: self.value@ }
    }
}

impl IsoSized for KindBox {
    open spec fn spec_size(&self) -> nat {
        add_header_size(4 + self.scheme_uri.spec_size() + self.value.spec_size())
    }

    fn size(&self) -> (n: usize) {
        add_header_size_exec(4 + self.scheme_uri.size() + self.value.size())
    }
}

impl BoxBody for KindBox {
    open spec fn spec_box_type() -> [u8; 4] {
        [0x6bu8, 0x69u8, 0x6eu8, 0x64u8]
    }

    fn box_type() -> (r: [u8; 4]) {
        [0x6bu8, 0x69u8, 0x6eu8, 0x64u8]
    }

    /// The full header, then two strings, each up to its zero byte.
    open spec fn spec_parse_body(s: Seq<u8>) -> Result<KindBoxModel, IsoError> {
        if s.len() < 4 {
            Err(IsoError::UnexpectedEof)
        } else {
            match Utf8String::spec_parse(s.skip(4)) {
                Err(e) => Err(e),
                Ok((a, n)) => match Utf8String::spec_parse(s.skip(4 + n)) {
                    Err(e) => Err(e),
                    Ok((b, _)) => Ok(
                        KindBoxModel {
                            full_header: FullBoxHeader { version: s[0], flags: be_u24_at(s, 1) },
                            scheme_uri: a,
                            value: b,
                        },
                    ),
                },
            }
        }
    }

    open spec fn spec_writable(v: KindBoxModel) -> bool {
        true
    }

    open spec fn spec_serialize_body(v: KindBoxModel) -> Seq<u8> {
        seq![v.full_header.version] + u24_bytes(v.full_header.flags) + Utf8String::spec_serialize(v.scheme_uri)
            + Utf8String::spec_serialize(v.value)
    }

    /// Neither string holds a zero byte.
    open spec fn spec_canonical(v: KindBoxModel) -> bool {
        v.full_header.flags < 0x100_0000 && Utf8String::spec_canonical(v.scheme_uri) && Utf8String::spec_canonical(
            v.value,
        )
    }

    proof fn lemma_box_type() {
        assert(Self::spec_box_type()[0] != spec_uuid_fourcc()[0]);
    }

    proof fn lemma_body_size(x: KindBox) {
        Utf8String::lemma_size(x.scheme_uri);
        Utf8String::lemma_size(x.value);
    }

    proof fn lemma_body_roundtrip(v: KindBoxModel) {
        let s = Self::spec_serialize_body(v);
        let a = Utf8String::spec_serialize(v.scheme_uri);
        let b = Utf8String::spec_serialize(v.value);
        assert(s.subrange(1, 4) =~= u24_bytes(v.full_header.flags));
        lemma_u24_at(s, 1, v.full_header.flags);
        assert(s.skip(4) =~= a + b);
        Utf8String::lemma_roundtrip(v.scheme_uri, b);
        assert(s.skip(4 + a.len() as int) =~= b + Seq::<u8>::empty());
        Utf8String::lemma_roundtrip(v.value, Seq::<u8>::empty());
    }

    fn parse_body(d: &[u8]) -> (r: Result<KindBox, IsoError>) {
        if d.len() < 4 {
            return Err(IsoError::UnexpectedEof);
        }
        let (scheme_uri, p) = Utf8String::parse(d, 4)?;
        proof {
            Utf8String::lemma_parse_len(d@.skip(4));
            assert(d@.skip(4).skip(p - 4) =~= d@.skip(p as int));
        }
        let (value, _q) = Utf8String::parse(d, p)?;
        Ok(KindBox { full_header: FullBoxHeader { version: d[0], flags: read_u24_at(d, 1) }, scheme_uri, value })
    }

    fn serialize_body(&self, out: &mut Vec<u8>) -> (r: Result<(), IsoError>) {
        let ghost before = out@;
        write_u8(out, self.full_header.version);
        write_u24(out, self.full_header.flags);
        let _ = self.scheme_uri.serialize(out);
        let _ = self.value.serialize(out);
        proof {
            assert(out@ =~= before + Self::spec_serialize_body(self@));
            lemma_append_prefix(before, Self::spec_serialize_body(self@));
        }
        Ok(())
    }
}

} // verus!
