//! File organization boxes (ISO/IEC 14496-12 - 4).

use vstd::prelude::*;

use crate::codec::{
    be_u32_at, fourcc_at, lemma_append_prefix, lemma_fourcc_at, lemma_fourcc_roundtrip, lemma_u32_at,
    read_fourcc_at, read_u32_at, u32_bytes, write_fourcc, write_u32, IsoError, SpecParse,
};
use crate::codec::fourcc_eq;
use crate::frame::{
    add_header_size, add_header_size_exec, box_bytes, frame_header, lemma_box_bytes_roundtrip, payload_window,
    serialize_box, BoxBody, UnknownBox, UnknownBoxModel,
};
use crate::header::{spec_uuid_fourcc, BoxHeader, BoxType};
use crate::wire::{
    lemma_rest_roundtrip, lemma_ser_seq_cons, lemma_ser_seq_fixed, lemma_size_seq, lemma_size_seq_mono,
    lemma_views_push, parse_remaining, parse_rest, ser_seq, serialize_all, size_all, size_seq, views, IsoSized,
    Wire,
};

verus! {

/// A four-character brand of the file format (`isom`, `iso6`, `mp41`, ...).
#[derive(Debug, Clone, Copy, PartialEq, Eq)]
pub struct Brand(pub [u8; 4]);

impl View for Brand {
    type V = Brand;

    open spec fn view(&self) -> Brand {
        *self
    }
}

impl IsoSized for Brand {
    open spec fn spec_size(&self) -> nat {
        4
    }

    fn size(&self) -> (n: usize) {
        4
    }
}

impl Wire for Brand {
    open spec fn spec_parse(s: Seq<u8>) -> SpecParse<Brand> {
        if s.len() < 4 { Err(IsoError::UnexpectedEof) } else { Ok((Brand(fourcc_at(s, 0)), 4)) }
    }

    open spec fn spec_writable(v: Brand) -> bool {
        true
    }

    open spec fn spec_serialize(v: Brand) -> Seq<u8> {
        v.0@
    }

    open spec fn spec_canonical(v: Brand) -> bool {
        true
    }

    proof fn lemma_parse_len(s: Seq<u8>) {
    }

    proof fn lemma_size(x: Brand) {
    }

    proof fn lemma_roundtrip(v: Brand, rest: Seq<u8>) {
        lemma_fourcc_roundtrip(v.0, rest);
    }

    fn parse(data: &[u8], pos: usize) -> (r: Result<(Brand, usize), IsoError>) {
        if data.len() - pos < 4 {
            return Err(IsoError::UnexpectedEof);
        }
        let b = read_fourcc_at(data, pos);
        proof {
            assert(fourcc_at(data@, pos as int) =~= fourcc_at(data@.skip(pos as int), 0));
        }
        Ok((Brand(b), pos + 4))
    }

    fn serialize(&self, out: &mut Vec<u8>) -> (r: Result<(), IsoError>) {
        proof {
            lemma_append_prefix(old(out)@, self.0@);
        }
        write_fourcc(out, self.0);
        Ok(())
    }
}


/// File type box
///
/// ISO/IEC 14496-12 - 4.3
#[derive(Debug, PartialEq, Eq)]
pub struct FileTypeBox {
    /// The "best use" brand, which gives the greatest compatibility.
    pub major_brand: Brand,
    /// The minor version of the major brand.
    pub minor_version: u32,
    /// The compatible brands, to the end of the box.
    pub compatible_brands: Vec<Brand>,
}

/// The model of a [`FileTypeBox`].
pub struct FileTypeBoxModel {
    pub major_brand: Brand,
    pub minor_version: u32,
    pub compatible_brands: Seq<Brand>,
}

impl View for FileTypeBox {
    type V = FileTypeBoxModel;

    open spec fn view(&self) -> FileTypeBoxModel {
        FileTypeBoxModel {
            major_brand: self.major_brand,
            minor_version: self.minor_version,
            compatible_brands: views(self.compatible_brands@),
        }
    }
}

impl IsoSized for FileTypeBox {
    open spec fn spec_size(&self) -> nat {
        add_header_size(8 + 4 * self.compatible_brands@.len())
    }

    fn size(&self) -> (n: usize) {
        add_header_size_exec(8 + 4 * self.compatible_brands.len())
    }
}

impl BoxBody for FileTypeBox {
    open spec fn spec_box_type() -> [u8; 4] {
        [0x66u8, 0x74u8, 0x79u8, 0x70u8]
    }

    fn box_type() -> (r: [u8; 4]) {
        [0x66u8, 0x74u8, 0x79u8, 0x70u8]
    }

    open spec fn spec_parse_body(s: Seq<u8>) -> Result<FileTypeBoxModel, IsoError> {
        if s.len() < 8 {
            Err(IsoError::UnexpectedEof)
        } else {
            match parse_rest::<Brand>(s.skip(8)) {
                Ok((brands, _)) => Ok(
                    FileTypeBoxModel {
                        major_brand: Brand(fourcc_at(s, 0)),
                        minor_version: be_u32_at(s, 4),
                        compatible_brands: brands,
                    },
                ),
                Err(e) => Err(e),
            }
        }
    }

    open spec fn spec_writable(v: FileTypeBoxModel) -> bool {
        true
    }

    open spec fn spec_serialize_body(v: FileTypeBoxModel) -> Seq<u8> {
        seq![] + v.major_brand.0@ + u32_bytes(v.minor_version) + ser_seq::<Brand>(v.compatible_brands)
    }

    open spec fn spec_canonical(v: FileTypeBoxModel) -> bool {
        true
    }

    proof fn lemma_box_type() {
        assert(Self::spec_box_type()[0] != spec_uuid_fourcc()[0] || Self::spec_box_type()[1] != spec_uuid_fourcc()[1]);
    }

    proof fn lemma_body_size(x: FileTypeBox) {
        lemma_ser_seq_fixed::<Brand>(views(x.compatible_brands@), 4);
    }

    proof fn lemma_body_roundtrip(v: FileTypeBoxModel) {
        let s = Self::spec_serialize_body(v);
        assert(s.subrange(0, 4) =~= v.major_brand.0@);
        lemma_fourcc_at(s, 0, v.major_brand.0);
        assert(s.subrange(4, 8) =~= u32_bytes(v.minor_version));
        lemma_u32_at(s, 4, v.minor_version);
        assert(s.skip(8) =~= ser_seq::<Brand>(v.compatible_brands));
        lemma_rest_roundtrip::<Brand>(v.compatible_brands);
    }

    fn parse_body(d: &[u8]) -> (r: Result<FileTypeBox, IsoError>) {
        if d.len() < 8 {
            return Err(IsoError::UnexpectedEof);
        }
        let major_brand = Brand(read_fourcc_at(d, 0));
        let minor_version = read_u32_at(d, 4);
        let (compatible_brands, _end) = parse_remaining::<Brand>(d, 8)?;
        Ok(FileTypeBox { major_brand, minor_version, compatible_brands })
    }

    fn serialize_body(&self, out: &mut Vec<u8>) -> (r: Result<(), IsoError>) {
        let ghost before = out@;
        write_fourcc(out, self.major_brand.0);
        write_u32(out, self.minor_version);
        let _ = serialize_all(&self.compatible_brands, out);
        proof {
            assert(out@ =~= before + Self::spec_serialize_body(self@));
            lemma_append_prefix(before, Self::spec_serialize_body(self@));
        }
        Ok(())
    }
}

/// A list of brands read to the end: one brand for each whole four bytes, in order,
/// each brand the four bytes at its place; a shorter tail is left unread.
pub proof fn lemma_brand_list_layout(s: Seq<u8>)
    ensures
        parse_rest::<Brand>(s) matches Ok((bs, _)) && bs.len() == s.len() / 4 && forall|i: int|
            0 <= i < bs.len() ==> (#[trigger] bs[i]).0@ == s.subrange(4 * i, 4 * i + 4),
    decreases s.len(),
{
    broadcast use vstd::array::group_array_axioms;
    if s.len() >= 4 {
        let t = s.skip(4);
        lemma_brand_list_layout(t);
        let b = Brand(fourcc_at(s, 0));
        assert(b.0@ =~= s.subrange(0, 4));
        if let Ok((ts, m)) = parse_rest::<Brand>(t) {
            let bs = seq![b] + ts;
            assert(parse_rest::<Brand>(s) == Ok::<(Seq<Brand>, int), IsoError>((bs, 4 + m)));
            assert forall|i: int| 0 <= i < bs.len() implies (#[trigger] bs[i]).0@ == s.subrange(4 * i, 4 * i + 4) by {
                if i > 0 {
                    assert(bs[i] == ts[i - 1]);
                    assert(t.subrange(4 * (i - 1), 4 * (i - 1) + 4) =~= s.subrange(4 * i, 4 * i + 4));
                }
            }
        }
    } else {
        assert(Brand::spec_parse(s) == Err::<(Brand, int), IsoError>(IsoError::UnexpectedEof));
    }
}

/// The file type box body (ISO/IEC 14496-12 - 4.3): the major brand is the first
/// four bytes, the minor version is spelled by the next four, big-endian, and the
/// compatible brands follow, one for each whole four bytes to the end, in order.
/// Fewer than eight bytes are an unexpected end.
pub proof fn lemma_file_type_layout(s: Seq<u8>)
    ensures
        s.len() < 8 ==> FileTypeBox::spec_parse_body(s) == Err::<FileTypeBoxModel, IsoError>(
            IsoError::UnexpectedEof,
        ),
        s.len() >= 8 ==> (FileTypeBox::spec_parse_body(s) matches Ok(v) && v.major_brand.0@ == s.subrange(0, 4)
            && v.minor_version == crate::codec::be_int(s, 4, 4) && v.compatible_brands.len() == (s.len() - 8) / 4
            && forall|i: int| 0 <= i < v.compatible_brands.len() ==> (#[trigger] v.compatible_brands[i]).0@
                == s.subrange(8 + 4 * i, 12 + 4 * i)),
{
    broadcast use vstd::array::group_array_axioms;
    if s.len() >= 8 {
        let t = s.skip(8);
        lemma_brand_list_layout(t);
        crate::codec::lemma_be_int_u32(s, 4);
        assert(fourcc_at(s, 0)@ =~= s.subrange(0, 4));
        if let Ok((bs, _)) = parse_rest::<Brand>(t) {
            assert forall|i: int| 0 <= i < bs.len() implies (#[trigger] bs[i]).0@ == s.subrange(
                8 + 4 * i,
                12 + 4 * i,
            ) by {
                assert(t.subrange(4 * i, 4 * i + 4) =~= s.subrange(8 + 4 * i, 12 + 4 * i));
            }
        }
    }
}

/// The file type box body written: the major brand, then four bytes spelling the
/// minor version, then each compatible brand in order.
pub proof fn lemma_file_type_bytes(v: FileTypeBoxModel)
    ensures
        FileTypeBox::spec_serialize_body(v).len() == 8 + 4 * v.compatible_brands.len(),
        FileTypeBox::spec_serialize_body(v).subrange(0, 4) == v.major_brand.0@,
        crate::codec::be_int(FileTypeBox::spec_serialize_body(v), 4, 4) == v.minor_version,
        forall|i: int| 0 <= i < v.compatible_brands.len() ==> FileTypeBox::spec_serialize_body(v).subrange(
            8 + 4 * i,
            12 + 4 * i,
        ) == (#[trigger] v.compatible_brands[i]).0@,
{
    let w = FileTypeBox::spec_serialize_body(v);
    lemma_ser_seq_fixed::<Brand>(v.compatible_brands, 4);
    assert(w.subrange(0, 4) =~= v.major_brand.0@);
    assert(w.subrange(4, 8) =~= u32_bytes(v.minor_version));
    crate::codec::lemma_be_int_u32_bytes(w, 4, v.minor_version);
    FileTypeBox::lemma_body_roundtrip(v);
    lemma_file_type_layout(w);
}

/// Type combination box
///
/// ISO/IEC 14496-12 - 4.4
#[derive(Debug, PartialEq, Eq)]
pub struct TypeCombinationBox {
    /// The compatible brands, to the end of the box.
    pub compatible_brands: Vec<Brand>,
}

/// The model of a [`TypeCombinationBox`].
pub struct TypeCombinationBoxModel {
    pub compatible_brands: Seq<Brand>,
}

impl View for TypeCombinationBox {
    type V = TypeCombinationBoxModel;

    open spec fn view(&self) -> TypeCombinationBoxModel {
        TypeCombinationBoxModel {
            compatible_brands: views(self.compatible_brands@),
        }
    }
}

impl IsoSized for TypeCombinationBox {
    open spec fn spec_size(&self) -> nat {
        add_header_size(0 + 4 * self.compatible_brands@.len())
    }

    fn size(&self) -> (n: usize) {
        add_header_size_exec(0 + 4 * self.compatible_brands.len())
    }
}

impl BoxBody for TypeCombinationBox {
    open spec fn spec_box_type() -> [u8; 4] {
        [0x74u8, 0x79u8, 0x63u8, 0x6fu8]
    }

    fn box_type() -> (r: [u8; 4]) {
        [0x74u8, 0x79u8, 0x63u8, 0x6fu8]
    }

    open spec fn spec_parse_body(s: Seq<u8>) -> Result<TypeCombinationBoxModel, IsoError> {
        {
            match parse_rest::<Brand>(s.skip(0)) {
                Ok((brands, _)) => Ok(
                    TypeCombinationBoxModel {
                        compatible_brands: brands,
                    },
                ),
                Err(e) => Err(e),
            }
        }
    }

    open spec fn spec_writable(v: TypeCombinationBoxModel) -> bool {
        true
    }

    open spec fn spec_serialize_body(v: TypeCombinationBoxModel) -> Seq<u8> {
        ser_seq::<Brand>(v.compatible_brands)
    }

    open spec fn spec_canonical(v: TypeCombinationBoxModel) -> bool {
        true
    }

    proof fn lemma_box_type() {
        assert(Self::spec_box_type()[0] != spec_uuid_fourcc()[0] || Self::spec_box_type()[1] != spec_uuid_fourcc()[1]);
    }

    proof fn lemma_body_size(x: TypeCombinationBox) {
        lemma_ser_seq_fixed::<Brand>(views(x.compatible_brands@), 4);
    }

    proof fn lemma_body_roundtrip(v: TypeCombinationBoxModel) {
        let s = Self::spec_serialize_body(v);
        assert(s.skip(0) =~= ser_seq::<Brand>(v.compatible_brands));
        lemma_rest_roundtrip::<Brand>(v.compatible_brands);
    }

    fn parse_body(d: &[u8]) -> (r: Result<TypeCombinationBox, IsoError>) {
        let (compatible_brands, _end) = parse_remaining::<Brand>(d, 0)?;
        Ok(TypeCombinationBox { compatible_brands })
    }

    fn serialize_body(&self, out: &mut Vec<u8>) -> (r: Result<(), IsoError>) {
        let ghost before = out@;
        let _ = serialize_all(&self.compatible_brands, out);
        proof {
            assert(out@ =~= before + Self::spec_serialize_body(self@));
            lemma_append_prefix(before, Self::spec_serialize_body(self@));
        }
        Ok(())
    }
}

/// Track type box
///
/// ISO/IEC 14496-12 - 8.3.5
#[derive(Debug, PartialEq, Eq)]
pub struct TrackTypeBox {
    /// The "best use" brand, which gives the greatest compatibility.
    pub major_brand: Brand,
    /// The minor version of the major brand.
    pub minor_version: u32,
    /// The compatible brands, to the end of the box.
    pub compatible_brands: Vec<Brand>,
}

/// The model of a [`TrackTypeBox`].
pub struct TrackTypeBoxModel {
    pub major_brand: Brand,
    pub minor_version: u32,
    pub compatible_brands: Seq<Brand>,
}

impl View for TrackTypeBox {
    type V = TrackTypeBoxModel;

    open spec fn view(&self) -> TrackTypeBoxModel {
        TrackTypeBoxModel {
            major_brand: self.major_brand,
            minor_version: self.minor_version,
            compatible_brands: views(self.compatible_brands@),
        }
    }
}

impl IsoSized for TrackTypeBox {
    open spec fn spec_size(&self) -> nat {
        add_header_size(8 + 4 * self.compatible_brands@.len())
    }

    fn size(&self) -> (n: usize) {
        add_header_size_exec(8 + 4 * self.compatible_brands.len())
    }
}

impl BoxBody for TrackTypeBox {
    open spec fn spec_box_type() -> [u8; 4] {
        [0x74u8, 0x74u8, 0x79u8, 0x70u8]
    }

    fn box_type() -> (r: [u8; 4]) {
        [0x74u8, 0x74u8, 0x79u8, 0x70u8]
    }

    open spec fn spec_parse_body(s: Seq<u8>) -> Result<TrackTypeBoxModel, IsoError> {
        if s.len() < 8 {
            Err(IsoError::UnexpectedEof)
        } else {
            match parse_rest::<Brand>(s.skip(8)) {
                Ok((brands, _)) => Ok(
                    TrackTypeBoxModel {
                        major_brand: Brand(fourcc_at(s, 0)),
                        minor_version: be_u32_at(s, 4),
                        compatible_brands: brands,
                    },
                ),
                Err(e) => Err(e),
            }
        }
    }

    open spec fn spec_writable(v: TrackTypeBoxModel) -> bool {
        true
    }

    open spec fn spec_serialize_body(v: TrackTypeBoxModel) -> Seq<u8> {
        seq![] + v.major_brand.0@ + u32_bytes(v.minor_version) + ser_seq::<Brand>(v.compatible_brands)
    }

    open spec fn spec_canonical(v: TrackTypeBoxModel) -> bool {
        true
    }

    proof fn lemma_box_type() {
        assert(Self::spec_box_type()[0] != spec_uuid_fourcc()[0] || Self::spec_box_type()[1] != spec_uuid_fourcc()[1]);
    }

    proof fn lemma_body_size(x: TrackTypeBox) {
        lemma_ser_seq_fixed::<Brand>(views(x.compatible_brands@), 4);
    }

    proof fn lemma_body_roundtrip(v: TrackTypeBoxModel) {
        let s = Self::spec_serialize_body(v);
        assert(s.subrange(0, 4) =~= v.major_brand.0@);
        lemma_fourcc_at(s, 0, v.major_brand.0);
        assert(s.subrange(4, 8) =~= u32_bytes(v.minor_version));
        lemma_u32_at(s, 4, v.minor_version);
        assert(s.skip(8) =~= ser_seq::<Brand>(v.compatible_brands));
        lemma_rest_roundtrip::<Brand>(v.compatible_brands);
    }

    fn parse_body(d: &[u8]) -> (r: Result<TrackTypeBox, IsoError>) {
        if d.len() < 8 {
            return Err(IsoError::UnexpectedEof);
        }
        let major_brand = Brand(read_fourcc_at(d, 0));
        let minor_version = read_u32_at(d, 4);
        let (compatible_brands, _end) = parse_remaining::<Brand>(d, 8)?;
        Ok(TrackTypeBox { major_brand, minor_version, compatible_brands })
    }

    fn serialize_body(&self, out: &mut Vec<u8>) -> (r: Result<(), IsoError>) {
        let ghost before = out@;
        write_fourcc(out, self.major_brand.0);
        write_u32(out, self.minor_version);
        let _ = serialize_all(&self.compatible_brands, out);
        proof {
            assert(out@ =~= before + Self::spec_serialize_body(self@));
            lemma_append_prefix(before, Self::spec_serialize_body(self@));
        }
        Ok(())
    }
}

/// Brand item property
///
/// ISO/IEC 14496-12 - 8.11.15
#[derive(Debug, PartialEq, Eq)]
pub struct BrandProperty {
    /// The "best use" brand, which gives the greatest compatibility.
    pub major_brand: Brand,
    /// The minor version of the major brand.
    pub minor_version: u32,
    /// The compatible brands, to the end of the box.
    pub compatible_brands: Vec<Brand>,
}

/// The model of a [`BrandProperty`].
pub struct BrandPropertyModel {
    pub major_brand: Brand,
    pub minor_version: u32,
    pub compatible_brands: Seq<Brand>,
}

impl View for BrandProperty {
    type V = BrandPropertyModel;

    open spec fn view(&self) -> BrandPropertyModel {
        BrandPropertyModel {
            major_brand: self.major_brand,
            minor_version: self.minor_version,
            compatible_brands: views(self.compatible_brands@),
        }
    }
}

impl IsoSized for BrandProperty {
    open spec fn spec_size(&self) -> nat {
        add_header_size(8 + 4 * self.compatible_brands@.len())
    }

    fn size(&self) -> (n: usize) {
        add_header_size_exec(8 + 4 * self.compatible_brands.len())
    }
}

impl BoxBody for BrandProperty {
    open spec fn spec_box_type() -> [u8; 4] {
        [0x62u8, 0x72u8, 0x6eu8, 0x64u8]
    }

    fn box_type() -> (r: [u8; 4]) {
        [0x62u8, 0x72u8, 0x6eu8, 0x64u8]
    }

    open spec fn spec_parse_body(s: Seq<u8>) -> Result<BrandPropertyModel, IsoError> {
        if s.len() < 8 {
            Err(IsoError::UnexpectedEof)
        } else {
            match parse_rest::<Brand>(s.skip(8)) {
                Ok((brands, _)) => Ok(
                    BrandPropertyModel {
                        major_brand: Brand(fourcc_at(s, 0)),
                        minor_version: be_u32_at(s, 4),
                        compatible_brands: brands,
                    },
                ),
                Err(e) => Err(e),
            }
        }
    }

    open spec fn spec_writable(v: BrandPropertyModel) -> bool {
        true
    }

    open spec fn spec_serialize_body(v: BrandPropertyModel) -> Seq<u8> {
        seq![] + v.major_brand.0@ + u32_bytes(v.minor_version) + ser_seq::<Brand>(v.compatible_brands)
    }

    open spec fn spec_canonical(v: BrandPropertyModel) -> bool {
        true
    }

    proof fn lemma_box_type() {
        assert(Self::spec_box_type()[0] != spec_uuid_fourcc()[0] || Self::spec_box_type()[1] != spec_uuid_fourcc()[1]);
    }

    proof fn lemma_body_size(x: BrandProperty) {
        lemma_ser_seq_fixed::<Brand>(views(x.compatible_brands@), 4);
    }

    proof fn lemma_body_roundtrip(v: BrandPropertyModel) {
        let s = Self::spec_serialize_body(v);
        assert(s.subrange(0, 4) =~= v.major_brand.0@);
        lemma_fourcc_at(s, 0, v.major_brand.0);
        assert(s.subrange(4, 8) =~= u32_bytes(v.minor_version));
        lemma_u32_at(s, 4, v.minor_version);
        assert(s.skip(8) =~= ser_seq::<Brand>(v.compatible_brands));
        lemma_rest_roundtrip::<Brand>(v.compatible_brands);
    }

    fn parse_body(d: &[u8]) -> (r: Result<BrandProperty, IsoError>) {
        if d.len() < 8 {
            return Err(IsoError::UnexpectedEof);
        }
        let major_brand = Brand(read_fourcc_at(d, 0));
        let minor_version = read_u32_at(d, 4);
        let (compatible_brands, _end) = parse_remaining::<Brand>(d, 8)?;
        Ok(BrandProperty { major_brand, minor_version, compatible_brands })
    }

    fn serialize_body(&self, out: &mut Vec<u8>) -> (r: Result<(), IsoError>) {
        let ghost before = out@;
        write_fourcc(out, self.major_brand.0);
        write_u32(out, self.minor_version);
        let _ = serialize_all(&self.compatible_brands, out);
        proof {
            assert(out@ =~= before + Self::spec_serialize_body(self@));
            lemma_append_prefix(before, Self::spec_serialize_body(self@));
        }
        Ok(())
    }
}

/// Segment type box
///
/// ISO/IEC 14496-12 - 8.16.2
#[derive(Debug, PartialEq, Eq)]
pub struct SegmentTypeBox {
    /// The "best use" brand, which gives the greatest compatibility.
    pub major_brand: Brand,
    /// The minor version of the major brand.
    pub minor_version: u32,
    /// The compatible brands, to the end of the box.
    pub compatible_brands: Vec<Brand>,
}

/// The model of a [`SegmentTypeBox`].
pub struct SegmentTypeBoxModel {
    pub major_brand: Brand,
    pub minor_version: u32,
    pub compatible_brands: Seq<Brand>,
}

impl View for SegmentTypeBox {
    type V = SegmentTypeBoxModel;

    open spec fn view(&self) -> SegmentTypeBoxModel {
        SegmentTypeBoxModel {
            major_brand: self.major_brand,
            minor_version: self.minor_version,
            compatible_brands: views(self.compatible_brands@),
        }
    }
}

impl IsoSized for SegmentTypeBox {
    open spec fn spec_size(&self) -> nat {
        add_header_size(8 + 4 * self.compatible_brands@.len())
    }

    fn size(&self) -> (n: usize) {
        add_header_size_exec(8 + 4 * self.compatible_brands.len())
    }
}

impl BoxBody for SegmentTypeBox {
    open spec fn spec_box_type() -> [u8; 4] {
        [0x73u8, 0x74u8, 0x79u8, 0x70u8]
    }

    fn box_type() -> (r: [u8; 4]) {
        [0x73u8, 0x74u8, 0x79u8, 0x70u8]
    }

    open spec fn spec_parse_body(s: Seq<u8>) -> Result<SegmentTypeBoxModel, IsoError> {
        if s.len() < 8 {
            Err(IsoError::UnexpectedEof)
        } else {
            match parse_rest::<Brand>(s.skip(8)) {
                Ok((brands, _)) => Ok(
                    SegmentTypeBoxModel {
                        major_brand: Brand(fourcc_at(s, 0)),
                        minor_version: be_u32_at(s, 4),
                        compatible_brands: brands,
                    },
                ),
                Err(e) => Err(e),
            }
        }
    }

    open spec fn spec_writable(v: SegmentTypeBoxModel) -> bool {
        true
    }

    open spec fn spec_serialize_body(v: SegmentTypeBoxModel) -> Seq<u8> {
        seq![] + v.major_brand.0@ + u32_bytes(v.minor_version) + ser_seq::<Brand>(v.compatible_brands)
    }

    open spec fn spec_canonical(v: SegmentTypeBoxModel) -> bool {
        true
    }

    proof fn lemma_box_type() {
        assert(Self::spec_box_type()[0] != spec_uuid_fourcc()[0] || Self::spec_box_type()[1] != spec_uuid_fourcc()[1]);
    }

    proof fn lemma_body_size(x: SegmentTypeBox) {
        lemma_ser_seq_fixed::<Brand>(views(x.compatible_brands@), 4);
    }

    proof fn lemma_body_roundtrip(v: SegmentTypeBoxModel) {
        let s = Self::spec_serialize_body(v);
        assert(s.subrange(0, 4) =~= v.major_brand.0@);
        lemma_fourcc_at(s, 0, v.major_brand.0);
        assert(s.subrange(4, 8) =~= u32_bytes(v.minor_version));
        lemma_u32_at(s, 4, v.minor_version);
        assert(s.skip(8) =~= ser_seq::<Brand>(v.compatible_brands));
        lemma_rest_roundtrip::<Brand>(v.compatible_brands);
    }

    fn parse_body(d: &[u8]) -> (r: Result<SegmentTypeBox, IsoError>) {
        if d.len() < 8 {
            return Err(IsoError::UnexpectedEof);
        }
        let major_brand = Brand(read_fourcc_at(d, 0));
        let minor_version = read_u32_at(d, 4);
        let (compatible_brands, _end) = parse_remaining::<Brand>(d, 8)?;
        Ok(SegmentTypeBox { major_brand, minor_version, compatible_brands })
    }

    fn serialize_body(&self, out: &mut Vec<u8>) -> (r: Result<(), IsoError>) {
        let ghost before = out@;
        write_fourcc(out, self.major_brand.0);
        write_u32(out, self.minor_version);
        let _ = serialize_all(&self.compatible_brands, out);
        proof {
            assert(out@ =~= before + Self::spec_serialize_body(self@));
            lemma_append_prefix(before, Self::spec_serialize_body(self@));
        }
        Ok(())
    }
}


// ---------------------------------------------------------------------------
// Extended type box: boxes nested in a payload.
// ---------------------------------------------------------------------------

/// The four-character code of the type combination box.
pub open spec fn tyco_type() -> [u8; 4] {
    [0x74u8, 0x79u8, 0x63u8, 0x6fu8]
}

/// Reading the boxes nested in an extended type box payload, until the payload ends:
/// type combination boxes go to the first list, any other box to the second. A header
/// cut short by the end ends the list, and so does a type combination box whose payload
/// is cut short.
#[verifier::opaque]
pub open spec fn etyp_children(s: Seq<u8>) -> Result<(Seq<TypeCombinationBoxModel>, Seq<UnknownBoxModel>), IsoError>
    decreases s.len(),
{
    match BoxHeader::spec_parse(s) {
        Err(e) => if e == IsoError::UnexpectedEof { Ok((Seq::empty(), Seq::empty())) } else { Err(e) },
        Ok((h, hl)) => {
            let w = payload_window(s, h, hl);
            if 0 < hl && hl + w.len() <= s.len() {
                let next = s.skip(hl + w.len());
                if h.box_type == BoxType::FourCc(tyco_type()) {
                    match TypeCombinationBox::spec_parse_body(w) {
                        Err(e) => if e == IsoError::UnexpectedEof {
                            Ok((Seq::empty(), Seq::empty()))
                        } else {
                            Err(e)
                        },
                        Ok(t) => match etyp_children(next) {
                            Ok((ts, us)) => Ok((seq![t] + ts, us)),
                            Err(e) => Err(e),
                        },
                    }
                } else {
                    match etyp_children(next) {
                        Ok((ts, us)) => Ok((ts, seq![UnknownBoxModel { header: h, data: w }] + us)),
                        Err(e) => Err(e),
                    }
                }
            } else {
                Err(IsoError::InvalidData)
            }
        },
    }
}

/// The bytes of the type combination boxes, one after the other.
pub open spec fn tycos_bytes(ts: Seq<TypeCombinationBoxModel>) -> Seq<u8>
    decreases ts.len(),
{
    if ts.len() == 0 {
        Seq::empty()
    } else {
        box_bytes::<TypeCombinationBox>(ts[0]) + tycos_bytes(ts.drop_first())
    }
}

/// Extended type box
///
/// ISO/IEC 14496-12 - 4.4
#[derive(Debug)]
pub struct ExtendedTypeBox {
    /// The type combination boxes.
    pub compatible_combinations: Vec<TypeCombinationBox>,
    /// Any other boxes found inside.
    pub unknown_boxes: Vec<UnknownBox>,
}

/// The model of an [`ExtendedTypeBox`].
pub struct ExtendedTypeBoxModel {
    pub compatible_combinations: Seq<TypeCombinationBoxModel>,
    pub unknown_boxes: Seq<UnknownBoxModel>,
}

impl View for ExtendedTypeBox {
    type V = ExtendedTypeBoxModel;

    open spec fn view(&self) -> ExtendedTypeBoxModel {
        ExtendedTypeBoxModel {
            compatible_combinations: views(self.compatible_combinations@),
            unknown_boxes: views(self.unknown_boxes@),
        }
    }
}

/// A nested box that reads back as itself in an extended type box: canonical, not of
/// the type combination type, of a size that a `usize` holds.
pub open spec fn etyp_unknown_fits(u: UnknownBoxModel) -> bool {
    UnknownBox::spec_canonical(u) && u.header.box_type != BoxType::FourCc(tyco_type())
        && u.header.header_len() + u.data.len() <= usize::MAX
}

/// One type combination box in front of `rest` is read, then `rest`.
pub proof fn lemma_etyp_step_tyco(t: TypeCombinationBoxModel, rest: Seq<u8>)
    requires
        add_header_size(TypeCombinationBox::spec_serialize_body(t).len()) <= usize::MAX,
    ensures
        etyp_children(box_bytes::<TypeCombinationBox>(t) + rest) == match etyp_children(rest) {
            Ok((ts, us)) => Ok::<(Seq<TypeCombinationBoxModel>, Seq<UnknownBoxModel>), IsoError>(
                (seq![t] + ts, us),
            ),
            Err(e) => Err(e),
        },
{
    reveal(etyp_children);
    let s = box_bytes::<TypeCombinationBox>(t) + rest;
    let body = TypeCombinationBox::spec_serialize_body(t);
    let h = frame_header(tyco_type(), add_header_size(body.len()));
    BoxHeader::lemma_roundtrip(h, body + rest);
    BoxHeader::lemma_size(h);
    let hs = BoxHeader::spec_serialize(h);
    assert(s =~= hs + (body + rest));
    assert(s.subrange(hs.len() as int, hs.len() + body.len() as int) =~= body);
    assert(payload_window(s, h, hs.len() as int) =~= body);
    assert(s.skip((hs.len() + body.len()) as int) =~= rest);
    TypeCombinationBox::lemma_body_roundtrip(t);
}

/// One other box in front of `rest` is read, then `rest`.
pub proof fn lemma_etyp_step_unknown(u: UnknownBoxModel, rest: Seq<u8>)
    requires
        etyp_unknown_fits(u),
    ensures
        etyp_children(UnknownBox::spec_serialize(u) + rest) == match etyp_children(rest) {
            Ok((ts, us)) => Ok::<(Seq<TypeCombinationBoxModel>, Seq<UnknownBoxModel>), IsoError>(
                (ts, seq![u] + us),
            ),
            Err(e) => Err(e),
        },
{
    reveal(etyp_children);
    let s = UnknownBox::spec_serialize(u) + rest;
    let hs = BoxHeader::spec_serialize(u.header);
    BoxHeader::lemma_roundtrip(u.header, u.data + rest);
    BoxHeader::lemma_size(u.header);
    assert(s =~= hs + (u.data + rest));
    assert(s.subrange(hs.len() as int, hs.len() + u.data.len() as int) =~= u.data);
    assert(payload_window(s, u.header, hs.len() as int) =~= u.data);
    assert(s.skip((hs.len() + u.data.len()) as int) =~= rest);
    assert(UnknownBoxModel { header: u.header, data: u.data } == u);
}

pub proof fn lemma_etyp_children_roundtrip(ts: Seq<TypeCombinationBoxModel>, us: Seq<UnknownBoxModel>)
    requires
        forall|i: int| 0 <= i < ts.len() ==> add_header_size(
            TypeCombinationBox::spec_serialize_body(#[trigger] ts[i]).len(),
        ) <= usize::MAX,
        forall|i: int| 0 <= i < us.len() ==> #[trigger] etyp_unknown_fits(us[i]),
    ensures
        etyp_children(tycos_bytes(ts) + ser_seq::<UnknownBox>(us)) == Ok::<
            (Seq<TypeCombinationBoxModel>, Seq<UnknownBoxModel>),
            IsoError,
        >((ts, us)),
    decreases ts.len() + us.len(),
{
    let s = tycos_bytes(ts) + ser_seq::<UnknownBox>(us);
    if ts.len() > 0 {
        let t = ts[0];
        let tail = ts.drop_first();
        assert forall|i: int| 0 <= i < tail.len() implies add_header_size(
            TypeCombinationBox::spec_serialize_body(#[trigger] tail[i]).len(),
        ) <= usize::MAX by {
            assert(tail[i] == ts[i + 1]);
        }
        lemma_etyp_children_roundtrip(tail, us);
        let rest = tycos_bytes(tail) + ser_seq::<UnknownBox>(us);
        assert(s =~= box_bytes::<TypeCombinationBox>(t) + rest);
        lemma_etyp_step_tyco(t, rest);
        assert(seq![t] + tail =~= ts);
    } else if us.len() > 0 {
        let u = us[0];
        let tail = us.drop_first();
        assert(us =~= seq![u] + tail);
        lemma_ser_seq_cons::<UnknownBox>(u, tail);
        assert forall|i: int| 0 <= i < tail.len() implies #[trigger] etyp_unknown_fits(tail[i]) by {
            assert(tail[i] == us[i + 1]);
        }
        lemma_etyp_children_roundtrip(ts, tail);
        let rest = ser_seq::<UnknownBox>(tail);
        assert(tycos_bytes(ts) =~= Seq::<u8>::empty());
        assert(s =~= UnknownBox::spec_serialize(u) + rest);
        lemma_etyp_step_unknown(u, rest);
    } else {
        assert(tycos_bytes(ts) =~= Seq::<u8>::empty());
        assert(s =~= Seq::<u8>::empty());
        BoxHeader::lemma_parse_len(s);
        reveal(etyp_children);
        assert(ts =~= Seq::<TypeCombinationBoxModel>::empty());
        assert(us =~= Seq::<UnknownBoxModel>::empty());
    }
}

/// The size that a type combination box reports is the length of its bytes.
pub proof fn lemma_tyco_size(x: TypeCombinationBox)
    ensures
        x.spec_size() == add_header_size(TypeCombinationBox::spec_serialize_body(x@).len()),
{
    TypeCombinationBox::lemma_body_size(x);
}

/// Reads the boxes nested from `pos` to the end of `d`.
#[verifier::loop_isolation(false)]
#[verifier::spinoff_prover]
#[verifier::rlimit(40)]
fn parse_etyp_children(d: &[u8], pos: usize) -> (r: Result<(Vec<TypeCombinationBox>, Vec<UnknownBox>), IsoError>)
    requires
        pos <= d@.len(),
    ensures
        match (etyp_children(d@.skip(pos as int)), r) {
            (Ok((ts, us)), Ok((a, b))) => views(a@) == ts && views(b@) == us,
            (Err(e), Err(f)) => e == f,
            _ => false,
        },
{
    let mut tycos: Vec<TypeCombinationBox> = Vec::new();
    let mut unknowns: Vec<UnknownBox> = Vec::new();
    let mut p = pos;
    loop
        invariant
            pos <= p <= d@.len(),
            match etyp_children(d@.skip(p as int)) {
                Ok((ts, us)) => etyp_children(d@.skip(pos as int)) == Ok::<
                    (Seq<TypeCombinationBoxModel>, Seq<UnknownBoxModel>),
                    IsoError,
                >((views(tycos@) + ts, views(unknowns@) + us)),
                Err(e) => etyp_children(d@.skip(pos as int)) == Err::<
                    (Seq<TypeCombinationBoxModel>, Seq<UnknownBoxModel>),
                    IsoError,
                >(e),
            },
        decreases d@.len() - p,
    {
        let ghost s = d@.skip(p as int);
        proof {
            reveal(etyp_children);
        }
        let (h, hp) = match BoxHeader::parse(d, p) {
            Ok(x) => x,
            Err(e) => {
                proof {
                    assert(views(tycos@) + Seq::<TypeCombinationBoxModel>::empty() =~= views(tycos@));
                    assert(views(unknowns@) + Seq::<UnknownBoxModel>::empty() =~= views(unknowns@));
                }
                if e == IsoError::UnexpectedEof {
                    return Ok((tycos, unknowns));
                } else {
                    return Err(e);
                }
            },
        };
        proof {
            BoxHeader::lemma_parse_len(s);
        }
        let end = match h.payload_size() {
            Some(ps) => if ps <= d.len() - hp {
                hp + ps
            } else {
                d.len()
            },
            None => d.len(),
        };
        let payload = vstd::slice::slice_subrange(d, hp, end);
        proof {
            assert(payload@ =~= payload_window(s, h, hp - p));
            assert(s.skip(end - p) =~= d@.skip(end as int));
        }
        let is_tyco = match h.box_type {
            BoxType::FourCc(t) => fourcc_eq(t, [0x74u8, 0x79u8, 0x63u8, 0x6fu8]),
            BoxType::Uuid(_) => false,
        };
        proof {
            assert(is_tyco == (h.box_type == BoxType::FourCc(tyco_type())));
        }
        if is_tyco {
            match TypeCombinationBox::parse_body(payload) {
                Ok(t) => {
                    proof {
                        lemma_views_push(tycos@, t);
                        if let Ok((ts, us)) = etyp_children(d@.skip(end as int)) {
                            assert(views(tycos@) + (seq![t@] + ts) =~= views(tycos@).push(t@) + ts);
                        }
                    }
                    tycos.push(t);
                },
                Err(e) => {
                    proof {
                        assert(views(tycos@) + Seq::<TypeCombinationBoxModel>::empty() =~= views(tycos@));
                        assert(views(unknowns@) + Seq::<UnknownBoxModel>::empty() =~= views(unknowns@));
                    }
                    if e == IsoError::UnexpectedEof {
                        return Ok((tycos, unknowns));
                    } else {
                        return Err(e);
                    }
                },
            }
        } else {
            let u = UnknownBox { header: h, data: vstd::slice::slice_to_vec(payload) };
            proof {
                lemma_views_push(unknowns@, u);
                if let Ok((ts, us)) = etyp_children(d@.skip(end as int)) {
                    assert(views(unknowns@) + (seq![u@] + us) =~= views(unknowns@).push(u@) + us);
                }
            }
            unknowns.push(u);
        }
        p = end;
    }
}

impl IsoSized for ExtendedTypeBox {
    open spec fn spec_size(&self) -> nat {
        add_header_size(
            size_seq::<TypeCombinationBox>(self.compatible_combinations@) + size_seq::<UnknownBox>(
                self.unknown_boxes@,
            ),
        )
    }

    fn size(&self) -> (n: usize) {
        proof {
            lemma_size_seq_mono::<TypeCombinationBox>(self.compatible_combinations@, 0);
        }
        add_header_size_exec(size_all(&self.compatible_combinations) + size_all(&self.unknown_boxes))
    }
}

impl BoxBody for ExtendedTypeBox {
    open spec fn spec_box_type() -> [u8; 4] {
        [0x65u8, 0x74u8, 0x79u8, 0x70u8]
    }

    fn box_type() -> (r: [u8; 4]) {
        [0x65u8, 0x74u8, 0x79u8, 0x70u8]
    }

    open spec fn spec_parse_body(s: Seq<u8>) -> Result<ExtendedTypeBoxModel, IsoError> {
        match etyp_children(s) {
            Ok((ts, us)) => Ok(ExtendedTypeBoxModel { compatible_combinations: ts, unknown_boxes: us }),
            Err(e) => Err(e),
        }
    }

    /// Every nested type combination box has a size that a `usize` holds.
    open spec fn spec_writable(v: ExtendedTypeBoxModel) -> bool {
        forall|i: int| 0 <= i < v.compatible_combinations.len() ==> add_header_size(
            TypeCombinationBox::spec_serialize_body(#[trigger] v.compatible_combinations[i]).len(),
        ) <= usize::MAX
    }

    /// The type combination boxes first, then the other boxes.
    open spec fn spec_serialize_body(v: ExtendedTypeBoxModel) -> Seq<u8> {
        tycos_bytes(v.compatible_combinations) + ser_seq::<UnknownBox>(v.unknown_boxes)
    }

    open spec fn spec_canonical(v: ExtendedTypeBoxModel) -> bool {
        forall|i: int| 0 <= i < v.unknown_boxes.len() ==> #[trigger] etyp_unknown_fits(v.unknown_boxes[i])
    }

    proof fn lemma_box_type() {
        assert(Self::spec_box_type()[0] != spec_uuid_fourcc()[0]);
    }

    proof fn lemma_body_size(x: ExtendedTypeBox) {
        assert forall|i: int| 0 <= i < x.compatible_combinations@.len() implies add_header_size(
            TypeCombinationBox::spec_serialize_body(#[trigger] x.compatible_combinations@[i]@).len(),
        ) <= usize::MAX by {
            assert(views(x.compatible_combinations@)[i] == x.compatible_combinations@[i]@);
            assert(add_header_size(
                TypeCombinationBox::spec_serialize_body(x@.compatible_combinations[i]).len(),
            ) <= usize::MAX);
        }
        lemma_tycos_size(x.compatible_combinations@);
        lemma_size_seq::<UnknownBox>(x.unknown_boxes@);
    }

    proof fn lemma_body_roundtrip(v: ExtendedTypeBoxModel) {
        lemma_etyp_children_roundtrip(v.compatible_combinations, v.unknown_boxes);
    }

    fn parse_body(d: &[u8]) -> (r: Result<ExtendedTypeBox, IsoError>) {
        proof {
            assert(d@.skip(0) =~= d@);
        }
        let (compatible_combinations, unknown_boxes) = parse_etyp_children(d, 0)?;
        Ok(ExtendedTypeBox { compatible_combinations, unknown_boxes })
    }

    fn serialize_body(&self, out: &mut Vec<u8>) -> (r: Result<(), IsoError>) {
        proof {
            assert(out@.subrange(0, out@.len() as int) =~= out@);
        }
        let ghost ts = views(self.compatible_combinations@);
        let mut i: usize = 0;
        while i < self.compatible_combinations.len()
            invariant
                out@ == old(out)@,
                ts == views(self.compatible_combinations@),
                i <= ts.len(),
                forall|j: int| 0 <= j < i ==> add_header_size(
                    TypeCombinationBox::spec_serialize_body(#[trigger] ts[j]).len(),
                ) <= usize::MAX,
            decreases ts.len() - i,
        {
            let n = self.compatible_combinations[i].compatible_brands.len();
            proof {
                lemma_ser_seq_fixed::<Brand>(ts[i as int].compatible_brands, 4);
                assert(ts[i as int].compatible_brands.len() == n);
            }
            if n > (usize::MAX - 8) / 4 || (4 * n + 8 > u32::MAX as usize && 4 * n + 8 > usize::MAX - 8) {
                proof {
                    assert(out@.subrange(0, out@.len() as int) =~= out@);
                    assert(!(add_header_size(TypeCombinationBox::spec_serialize_body(ts[i as int]).len())
                        <= usize::MAX));
                }
                return Err(IsoError::InvalidData);
            }
            i = i + 1;
        }
        let ghost before = out@;
        let mut j: usize = 0;
        proof {
            assert(ts.skip(0) =~= ts);
            assert(out@ + tycos_bytes(ts.skip(0)) == before + tycos_bytes(ts));
        }
        while j < self.compatible_combinations.len()
            invariant
                ts == views(self.compatible_combinations@),
                j <= ts.len(),
                forall|m: int| 0 <= m < ts.len() ==> add_header_size(
                    TypeCombinationBox::spec_serialize_body(#[trigger] ts[m]).len(),
                ) <= usize::MAX,
                out@ + tycos_bytes(ts.skip(j as int)) == before + tycos_bytes(ts),
            decreases ts.len() - j,
        {
            let ghost t = self.compatible_combinations@[j as int];
            proof {
                assert(ts.skip(j as int).drop_first() =~= ts.skip(j + 1));
                assert(ts.skip(j as int)[0] == ts[j as int]);
                lemma_tyco_size(t);
            }
            let _ = serialize_box(&self.compatible_combinations[j], out);
            proof {
                assert(out@ + tycos_bytes(ts.skip(j + 1)) =~= before + tycos_bytes(ts));
            }
            j = j + 1;
        }
        proof {
            assert(ts.skip(j as int) =~= Seq::<TypeCombinationBoxModel>::empty());
        }
        let _ = serialize_all(&self.unknown_boxes, out);
        proof {
            assert(out@ =~= before + Self::spec_serialize_body(self@));
            lemma_append_prefix(before, Self::spec_serialize_body(self@));
        }
        Ok(())
    }
}

/// The sizes of type combination boxes add up to the length of their bytes.
pub proof fn lemma_tycos_size(v: Seq<TypeCombinationBox>)
    requires
        forall|i: int| 0 <= i < v.len() ==> add_header_size(
            TypeCombinationBox::spec_serialize_body(#[trigger] v[i]@).len(),
        ) <= usize::MAX,
    ensures
        size_seq::<TypeCombinationBox>(v) == tycos_bytes(views(v)).len(),
    decreases v.len(),
{
    if v.len() > 0 {
        let init = v.drop_last();
        assert forall|i: int| 0 <= i < init.len() implies add_header_size(
            TypeCombinationBox::spec_serialize_body(#[trigger] init[i]@).len(),
        ) <= usize::MAX by {
            assert(init[i] == v[i]);
        }
        lemma_tycos_size(init);
        lemma_tycos_split(views(v));
        let x = v.last();
        TypeCombinationBox::lemma_body_size(x);
        assert(views(v).drop_last() =~= views(init));
        assert(views(v).last() == x@);
        let p = TypeCombinationBox::spec_serialize_body(x@).len();
        assert(add_header_size(p) <= usize::MAX) by {
            assert(v[v.len() - 1] == x);
        }
        let h = frame_header(tyco_type(), add_header_size(p));
        BoxHeader::lemma_size(h);
        assert(h.header_len() + p == add_header_size(p));
    }
}

/// The bytes of a list of type combination boxes seen from its end.
pub proof fn lemma_tycos_split(ts: Seq<TypeCombinationBoxModel>)
    ensures
        ts.len() > 0 ==> tycos_bytes(ts) == tycos_bytes(ts.drop_last()) + box_bytes::<TypeCombinationBox>(ts.last()),
    decreases ts.len(),
{
    if ts.len() > 1 {
        let tail = ts.drop_first();
        lemma_tycos_split(tail);
        assert(tail.drop_last() =~= ts.drop_last().drop_first());
        assert(ts.drop_last()[0] == ts[0]);
        assert(tail.last() == ts.last());
    } else if ts.len() == 1 {
        assert(ts.drop_first() =~= Seq::<TypeCombinationBoxModel>::empty());
        assert(ts.drop_last() =~= Seq::<TypeCombinationBoxModel>::empty());
    }
}


/// The track type box body: the major brand is the first
/// four bytes, the minor version is spelled by the next four, big-endian, and the
/// compatible brands follow, one for each whole four bytes to the end, in order.
/// Fewer than eight bytes are an unexpected end.
pub proof fn lemma_track_type_layout(s: Seq<u8>)
    ensures
        s.len() < 8 ==> TrackTypeBox::spec_parse_body(s) == Err::<TrackTypeBoxModel, IsoError>(
            IsoError::UnexpectedEof,
        ),
        s.len() >= 8 ==> (TrackTypeBox::spec_parse_body(s) matches Ok(v) && v.major_brand.0@ == s.subrange(0, 4)
            && v.minor_version == crate::codec::be_int(s, 4, 4) && v.compatible_brands.len() == (s.len() - 8) / 4
            && forall|i: int| 0 <= i < v.compatible_brands.len() ==> (#[trigger] v.compatible_brands[i]).0@
                == s.subrange(8 + 4 * i, 12 + 4 * i)),
{
    broadcast use vstd::array::group_array_axioms;
    if s.len() >= 8 {
        let t = s.skip(8);
        lemma_brand_list_layout(t);
        crate::codec::lemma_be_int_u32(s, 4);
        assert(fourcc_at(s, 0)@ =~= s.subrange(0, 4));
        if let Ok((bs, _)) = parse_rest::<Brand>(t) {
            assert forall|i: int| 0 <= i < bs.len() implies (#[trigger] bs[i]).0@ == s.subrange(
                8 + 4 * i,
                12 + 4 * i,
            ) by {
                assert(t.subrange(4 * i, 4 * i + 4) =~= s.subrange(8 + 4 * i, 12 + 4 * i));
            }
        }
    }
}


/// The segment type box body: the major brand is the first
/// four bytes, the minor version is spelled by the next four, big-endian, and the
/// compatible brands follow, one for each whole four bytes to the end, in order.
/// Fewer than eight bytes are an unexpected end.
pub proof fn lemma_segment_type_layout(s: Seq<u8>)
    ensures
        s.len() < 8 ==> SegmentTypeBox::spec_parse_body(s) == Err::<SegmentTypeBoxModel, IsoError>(
            IsoError::UnexpectedEof,
        ),
        s.len() >= 8 ==> (SegmentTypeBox::spec_parse_body(s) matches Ok(v) && v.major_brand.0@ == s.subrange(0, 4)
            && v.minor_version == crate::codec::be_int(s, 4, 4) && v.compatible_brands.len() == (s.len() - 8) / 4
            && forall|i: int| 0 <= i < v.compatible_brands.len() ==> (#[trigger] v.compatible_brands[i]).0@
                == s.subrange(8 + 4 * i, 12 + 4 * i)),
{
    broadcast use vstd::array::group_array_axioms;
    if s.len() >= 8 {
        let t = s.skip(8);
        lemma_brand_list_layout(t);
        crate::codec::lemma_be_int_u32(s, 4);
        assert(fourcc_at(s, 0)@ =~= s.subrange(0, 4));
        if let Ok((bs, _)) = parse_rest::<Brand>(t) {
            assert forall|i: int| 0 <= i < bs.len() implies (#[trigger] bs[i]).0@ == s.subrange(
                8 + 4 * i,
                12 + 4 * i,
            ) by {
                assert(t.subrange(4 * i, 4 * i + 4) =~= s.subrange(8 + 4 * i, 12 + 4 * i));
            }
        }
    }
}


} // verus!
