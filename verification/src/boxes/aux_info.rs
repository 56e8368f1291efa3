//! Sample auxiliary information: the sizes and offsets boxes (ISO/IEC 14496-12 - 8.7.8, 8.7.9).

use vstd::prelude::*;

use crate::codec::{
    be_u24_at, be_u32_at, lemma_append_prefix, lemma_u24_at, lemma_u32_at, read_u24_at, read_u32_at,
    u24_bytes, u32_bytes, write_bytes, write_u24, write_u32, write_u8, IsoError,
};
use crate::frame::{add_header_size, add_header_size_exec, BoxBody};
use crate::header::{spec_uuid_fourcc, FullBoxHeader};
use crate::wire::{
    lemma_count_roundtrip, lemma_ser_seq_fixed, parse_count, parse_counted, ser_seq, serialize_all, views,
    IsoSized, Wire,
};

verus! {

/// Whether the flags of a box announce the type of the auxiliary information (bit 0).
pub open spec fn aux_type_present(flags: u32) -> bool {
    flags % 2 == 1
}

/// The bytes of the type and its parameter, where the flags announce them.
pub open spec fn aux_type_bytes(flags: u32, aux_info_type: Option<u32>, aux_info_type_parameter: Option<u32>) -> Seq<u8> {
    if aux_type_present(flags) {
        u32_bytes(aux_info_type.unwrap()) + u32_bytes(aux_info_type_parameter.unwrap())
    } else {
        Seq::empty()
    }
}

/// The size of an optional 32-bit field.
pub open spec fn opt_u32_size(v: Option<u32>) -> nat {
    if v is Some { 4 } else { 0 }
}

/// Sample auxiliary information sizes box
///
/// ISO/IEC 14496-12 - 8.7.8
#[derive(Debug)]
pub struct SampleAuxiliaryInformationSizesBox {
    /// The full box header; bit 0 of the flags announces the type of the information.
    pub full_header: FullBoxHeader,
    /// The type of the sample auxiliary information.
    pub aux_info_type: Option<u32>,
    /// The stream of auxiliary information of that type.
    pub aux_info_type_parameter: Option<u32>,
    /// The size of the information of every sample where it is the same, or zero.
    pub default_sample_info_size: u8,
    /// The number of samples whose size is given.
    pub sample_count: u32,
    /// The size of the information of each sample, where the default is zero.
    pub sample_info_size: Option<Vec<u8>>,
}

/// The model of a [`SampleAuxiliaryInformationSizesBox`].
pub struct SampleAuxiliaryInformationSizesBoxModel {
    pub full_header: FullBoxHeader,
    pub aux_info_type: Option<u32>,
    pub aux_info_type_parameter: Option<u32>,
    pub default_sample_info_size: u8,
    pub sample_count: u32,
    pub sample_info_size: Option<Seq<u8>>,
}

impl View for SampleAuxiliaryInformationSizesBox {
    type V = SampleAuxiliaryInformationSizesBoxModel;

    open spec fn view(&self) -> SampleAuxiliaryInformationSizesBoxModel {
        SampleAuxiliaryInformationSizesBoxModel {
            full_header: self.full_header,
            aux_info_type: self.aux_info_type,
            aux_info_type_parameter: self.aux_info_type_parameter,
            default_sample_info_size: self.default_sample_info_size,
            sample_count: self.sample_count,
            sample_info_size: match self.sample_info_size {
                Some(v) => Some(v@),
                None => None,
            },
        }
    }
}

impl IsoSized for SampleAuxiliaryInformationSizesBox {
    /// The sum of the sizes of the fields that are present.
    open spec fn spec_size(&self) -> nat {
        add_header_size(
            9 + opt_u32_size(self.aux_info_type) + opt_u32_size(self.aux_info_type_parameter) + match self.sample_info_size {
                Some(v) => v@.len(),
                None => 0,
            },
        )
    }

    fn size(&self) -> (n: usize) {
        let a: usize = if self.aux_info_type.is_some() { 4 } else { 0 };
        let b: usize = if self.aux_info_type_parameter.is_some() { 4 } else { 0 };
        let c: usize = match &self.sample_info_size {
            Some(v) => v.len(),
            None => 0,
        };
        add_header_size_exec(9 + a + b + c)
    }
}

impl BoxBody for SampleAuxiliaryInformationSizesBox {
    open spec fn spec_box_type() -> [u8; 4] {
        [0x73u8, 0x61u8, 0x69u8, 0x7au8]
    }

    fn box_type() -> (r: [u8; 4]) {
        [0x73u8, 0x61u8, 0x69u8, 0x7au8]
    }

    /// The full header, the type and its parameter where the flags announce them, the
    /// default size, the count, then one size byte for each sample where the default
    /// is zero.
    open spec fn spec_parse_body(s: Seq<u8>) -> Result<SampleAuxiliaryInformationSizesBoxModel, IsoError> {
        if s.len() < 4 {
            Err(IsoError::UnexpectedEof)
        } else {
            let flags = be_u24_at(s, 1);
            let a: int = if aux_type_present(flags) { 8 } else { 0 };
            if s.len() < 9 + a {
                Err(IsoError::UnexpectedEof)
            } else {
                let dss = s[4 + a];
                let count = be_u32_at(s, 5 + a);
                if dss == 0 && s.len() < 9 + a + count {
                    Err(IsoError::UnexpectedEof)
                } else {
                    Ok(
                        SampleAuxiliaryInformationSizesBoxModel {
                            full_header: FullBoxHeader { version: s[0], flags },
                            aux_info_type: if aux_type_present(flags) { Some(be_u32_at(s, 4)) } else { None },
                            aux_info_type_parameter: if aux_type_present(flags) { Some(be_u32_at(s, 8)) } else { None },
                            default_sample_info_size: dss,
                            sample_count: count,
                            sample_info_size: if dss == 0 {
                                Some(s.subrange(9 + a, 9 + a + count))
                            } else {
                                None
                            },
                        },
                    )
                }
            }
        }
    }

    /// The type and its parameter where the flags announce them, and the sizes where
    /// the default is zero.
    open spec fn spec_writable(v: SampleAuxiliaryInformationSizesBoxModel) -> bool {
        &&& aux_type_present(v.full_header.flags) ==> v.aux_info_type is Some && v.aux_info_type_parameter is Some
        &&& v.default_sample_info_size == 0 ==> v.sample_info_size is Some
    }

    open spec fn spec_serialize_body(v: SampleAuxiliaryInformationSizesBoxModel) -> Seq<u8> {
        seq![v.full_header.version] + u24_bytes(v.full_header.flags) + aux_type_bytes(
            v.full_header.flags,
            v.aux_info_type,
            v.aux_info_type_parameter,
        ) + seq![v.default_sample_info_size] + u32_bytes(v.sample_count) + (if v.default_sample_info_size == 0 {
            v.sample_info_size.unwrap()
        } else {
            Seq::empty()
        })
    }

    /// Only the fields that are written are present, and there is one size for each sample.
    open spec fn spec_canonical(v: SampleAuxiliaryInformationSizesBoxModel) -> bool {
        &&& v.full_header.flags < 0x100_0000
        &&& !aux_type_present(v.full_header.flags) ==> v.aux_info_type is None && v.aux_info_type_parameter is None
        &&& v.default_sample_info_size != 0 ==> v.sample_info_size is None
        &&& v.default_sample_info_size == 0 ==> v.sample_info_size.unwrap().len() == v.sample_count
    }

    proof fn lemma_box_type() {
        assert(Self::spec_box_type()[0] != spec_uuid_fourcc()[0] || Self::spec_box_type()[3] != spec_uuid_fourcc()[3]);
    }

    proof fn lemma_body_size(x: SampleAuxiliaryInformationSizesBox) {
    }

    proof fn lemma_body_roundtrip(v: SampleAuxiliaryInformationSizesBoxModel) {
        let s = Self::spec_serialize_body(v);
        let flags = v.full_header.flags;
        let a: int = if aux_type_present(flags) { 8 } else { 0 };
        assert(s.subrange(1, 4) =~= u24_bytes(flags));
        lemma_u24_at(s, 1, flags);
        if aux_type_present(flags) {
            assert(s.subrange(4, 8) =~= u32_bytes(v.aux_info_type.unwrap()));
            lemma_u32_at(s, 4, v.aux_info_type.unwrap());
            assert(s.subrange(8, 12) =~= u32_bytes(v.aux_info_type_parameter.unwrap()));
            lemma_u32_at(s, 8, v.aux_info_type_parameter.unwrap());
        }
        assert(s[4 + a] == v.default_sample_info_size);
        assert(s.subrange(5 + a, 9 + a) =~= u32_bytes(v.sample_count));
        lemma_u32_at(s, 5 + a, v.sample_count);
        if v.default_sample_info_size == 0 {
            assert(s.subrange(9 + a, 9 + a + v.sample_count) =~= v.sample_info_size.unwrap());
        }
    }

    fn parse_body(d: &[u8]) -> (r: Result<SampleAuxiliaryInformationSizesBox, IsoError>) {
        if d.len() < 4 {
            return Err(IsoError::UnexpectedEof);
        }
        let flags = read_u24_at(d, 1);
        let has = flags % 2 == 1;
        let a: usize = if has { 8 } else { 0 };
        if d.len() < 9 + a {
            return Err(IsoError::UnexpectedEof);
        }
        let aux_info_type = if has { Some(read_u32_at(d, 4)) } else { None };
        let aux_info_type_parameter = if has { Some(read_u32_at(d, 8)) } else { None };
        let default_sample_info_size = d[4 + a];
        let sample_count = read_u32_at(d, 5 + a);
        let sample_info_size = if default_sample_info_size == 0 {
            if d.len() - (9 + a) < sample_count as usize {
                return Err(IsoError::UnexpectedEof);
            }
            let sub = vstd::slice::slice_subrange(d, 9 + a, 9 + a + sample_count as usize);
            Some(vstd::slice::slice_to_vec(sub))
        } else {
            None
        };
        Ok(
            SampleAuxiliaryInformationSizesBox {
                full_header: FullBoxHeader { version: d[0], flags },
                aux_info_type,
                aux_info_type_parameter,
                default_sample_info_size,
                sample_count,
                sample_info_size,
            },
        )
    }

    fn serialize_body(&self, out: &mut Vec<u8>) -> (r: Result<(), IsoError>) {
        let flags = self.full_header.flags;
        proof {
            assert(out@.subrange(0, out@.len() as int) =~= out@);
        }
        if flags % 2 == 1 && (self.aux_info_type.is_none() || self.aux_info_type_parameter.is_none()) {
            return Err(IsoError::InvalidData);
        }
        if self.default_sample_info_size == 0 && self.sample_info_size.is_none() {
            return Err(IsoError::InvalidData);
        }
        let ghost before = out@;
        write_u8(out, self.full_header.version);
        write_u24(out, flags);
        if flags % 2 == 1 {
            match (self.aux_info_type, self.aux_info_type_parameter) {
                (Some(t), Some(p)) => {
                    write_u32(out, t);
                    write_u32(out, p);
                },
                _ => {},
            }
        }
        write_u8(out, self.default_sample_info_size);
        write_u32(out, self.sample_count);
        if self.default_sample_info_size == 0 {
            match &self.sample_info_size {
                Some(v) => write_bytes(out, v.as_slice()),
                None => {},
            }
        }
        proof {
            assert(out@ =~= before + Self::spec_serialize_body(self@));
            lemma_append_prefix(before, Self::spec_serialize_body(self@));
        }
        Ok(())
    }
}

// ---------------------------------------------------------------------------
// Offsets.
// ---------------------------------------------------------------------------

/// Offsets read as 32-bit numbers.
pub open spec fn widen_offsets(v: Seq<u32>) -> Seq<u64> {
    v.map_values(|x: u32| x as u64)
}

/// Offsets cut to 32 bits.
pub open spec fn narrow_offsets(v: Seq<u64>) -> Seq<u32> {
    v.map_values(|x: u64| x as u32)
}

/// The bytes of the offsets: 32 bits each in version 0, 64 bits otherwise.
pub open spec fn saio_offsets_bytes(v: Seq<u64>, version: u8) -> Seq<u8> {
    if version == 0 {
        ser_seq::<u32>(narrow_offsets(v))
    } else {
        ser_seq::<u64>(v)
    }
}

/// Sample auxiliary information offsets box
///
/// ISO/IEC 14496-12 - 8.7.9
#[derive(Debug)]
pub struct SampleAuxiliaryInformationOffsetsBox {
    /// The full box header; offsets take 32 bits in version 0 and 64 bits otherwise, and
    /// bit 0 of the flags announces the type of the information.
    pub full_header: FullBoxHeader,
    /// The type of the sample auxiliary information.
    pub aux_info_type: Option<u32>,
    /// The stream of auxiliary information of that type.
    pub aux_info_type_parameter: Option<u32>,
    /// The number of offsets.
    pub entry_count: u32,
    /// The position of the information of each chunk or track fragment run.
    pub offset: Vec<u64>,
}

/// The model of a [`SampleAuxiliaryInformationOffsetsBox`].
pub struct SampleAuxiliaryInformationOffsetsBoxModel {
    pub full_header: FullBoxHeader,
    pub aux_info_type: Option<u32>,
    pub aux_info_type_parameter: Option<u32>,
    pub entry_count: u32,
    pub offset: Seq<u64>,
}

impl View for SampleAuxiliaryInformationOffsetsBox {
    type V = SampleAuxiliaryInformationOffsetsBoxModel;

    open spec fn view(&self) -> SampleAuxiliaryInformationOffsetsBoxModel {
        SampleAuxiliaryInformationOffsetsBoxModel {
            full_header: self.full_header,
            aux_info_type: self.aux_info_type,
            aux_info_type_parameter: self.aux_info_type_parameter,
            entry_count: self.entry_count,
            offset: self.offset@,
        }
    }
}

impl IsoSized for SampleAuxiliaryInformationOffsetsBox {
    open spec fn spec_size(&self) -> nat {
        add_header_size(
            8 + (if aux_type_present(self.full_header.flags) { 8nat } else { 0nat }) + (if self.full_header.version == 0 {
                4nat
            } else {
                8nat
            }) * self.offset@.len(),
        )
    }

    fn size(&self) -> (n: usize) {
        let a: usize = if self.full_header.flags % 2 == 1 { 8 } else { 0 };
        let w: usize = if self.full_header.version == 0 { 4 } else { 8 };
        add_header_size_exec(8 + a + w * self.offset.len())
    }
}

impl BoxBody for SampleAuxiliaryInformationOffsetsBox {
    open spec fn spec_box_type() -> [u8; 4] {
        [0x73u8, 0x61u8, 0x69u8, 0x6fu8]
    }

    fn box_type() -> (r: [u8; 4]) {
        [0x73u8, 0x61u8, 0x69u8, 0x6fu8]
    }

    /// The full header, the type and its parameter where the flags announce them, the
    /// count, then that many offsets of the width of the version.
    open spec fn spec_parse_body(s: Seq<u8>) -> Result<SampleAuxiliaryInformationOffsetsBoxModel, IsoError> {
        if s.len() < 4 {
            Err(IsoError::UnexpectedEof)
        } else {
            let version = s[0];
            let flags = be_u24_at(s, 1);
            let a: int = if aux_type_present(flags) { 8 } else { 0 };
            if s.len() < 8 + a {
                Err(IsoError::UnexpectedEof)
            } else {
                let count = be_u32_at(s, 4 + a);
                let offsets = if version == 0 {
                    match parse_count::<u32>(s.skip(8 + a), count as nat) {
                        Ok((v, _)) => Ok(widen_offsets(v)),
                        Err(e) => Err(e),
                    }
                } else {
                    match parse_count::<u64>(s.skip(8 + a), count as nat) {
                        Ok((v, _)) => Ok(v),
                        Err(e) => Err(e),
                    }
                };
                match offsets {
                    Ok(offset) => Ok(
                        SampleAuxiliaryInformationOffsetsBoxModel {
                            full_header: FullBoxHeader { version, flags },
                            aux_info_type: if aux_type_present(flags) { Some(be_u32_at(s, 4)) } else { None },
                            aux_info_type_parameter: if aux_type_present(flags) { Some(be_u32_at(s, 8)) } else { None },
                            entry_count: count,
                            offset,
                        },
                    ),
                    Err(e) => Err(e),
                }
            }
        }
    }

    /// The type and its parameter where the flags announce them.
    open spec fn spec_writable(v: SampleAuxiliaryInformationOffsetsBoxModel) -> bool {
        aux_type_present(v.full_header.flags) ==> v.aux_info_type is Some && v.aux_info_type_parameter is Some
    }

    open spec fn spec_serialize_body(v: SampleAuxiliaryInformationOffsetsBoxModel) -> Seq<u8> {
        seq![v.full_header.version] + u24_bytes(v.full_header.flags) + aux_type_bytes(
            v.full_header.flags,
            v.aux_info_type,
            v.aux_info_type_parameter,
        ) + u32_bytes(v.entry_count) + saio_offsets_bytes(v.offset, v.full_header.version)
    }

    /// Only the fields that are written are present, the count is the number of offsets,
    /// and in version 0 every offset fits 32 bits.
    open spec fn spec_canonical(v: SampleAuxiliaryInformationOffsetsBoxModel) -> bool {
        &&& v.full_header.flags < 0x100_0000
        &&& !aux_type_present(v.full_header.flags) ==> v.aux_info_type is None && v.aux_info_type_parameter is None
        &&& v.offset.len() == v.entry_count
        &&& v.full_header.version == 0 ==> forall|i: int| 0 <= i < v.offset.len() ==> #[trigger] v.offset[i] <= u32::MAX
    }

    proof fn lemma_box_type() {
        assert(Self::spec_box_type()[0] != spec_uuid_fourcc()[0] || Self::spec_box_type()[3] != spec_uuid_fourcc()[3]);
    }

    proof fn lemma_body_size(x: SampleAuxiliaryInformationOffsetsBox) {
        if x.full_header.version == 0 {
            lemma_ser_seq_fixed::<u32>(narrow_offsets(x.offset@), 4);
        } else {
            assert forall|i: int| 0 <= i < x.offset@.len() implies (#[trigger] u64::spec_serialize(x.offset@[i])).len() == 8 by {
                u64::lemma_size(x.offset@[i]);
            }
            lemma_ser_seq_fixed::<u64>(x.offset@, 8);
        }
    }

    proof fn lemma_body_roundtrip(v: SampleAuxiliaryInformationOffsetsBoxModel) {
        let s = Self::spec_serialize_body(v);
        let flags = v.full_header.flags;
        let a: int = if aux_type_present(flags) { 8 } else { 0 };
        let offs = saio_offsets_bytes(v.offset, v.full_header.version);
        assert(s.subrange(1, 4) =~= u24_bytes(flags));
        lemma_u24_at(s, 1, flags);
        if aux_type_present(flags) {
            assert(s.subrange(4, 8) =~= u32_bytes(v.aux_info_type.unwrap()));
            lemma_u32_at(s, 4, v.aux_info_type.unwrap());
            assert(s.subrange(8, 12) =~= u32_bytes(v.aux_info_type_parameter.unwrap()));
            lemma_u32_at(s, 8, v.aux_info_type_parameter.unwrap());
        }
        assert(s.subrange(4 + a, 8 + a) =~= u32_bytes(v.entry_count));
        lemma_u32_at(s, 4 + a, v.entry_count);
        assert(s.skip(8 + a) =~= offs + Seq::<u8>::empty());
        if v.full_header.version == 0 {
            lemma_count_roundtrip::<u32>(narrow_offsets(v.offset), Seq::<u8>::empty());
            assert(widen_offsets(narrow_offsets(v.offset)) =~= v.offset);
        } else {
            lemma_count_roundtrip::<u64>(v.offset, Seq::<u8>::empty());
        }
    }

    fn parse_body(d: &[u8]) -> (r: Result<SampleAuxiliaryInformationOffsetsBox, IsoError>) {
        if d.len() < 4 {
            return Err(IsoError::UnexpectedEof);
        }
        let version = d[0];
        let flags = read_u24_at(d, 1);
        let has = flags % 2 == 1;
        let a: usize = if has { 8 } else { 0 };
        if d.len() < 8 + a {
            return Err(IsoError::UnexpectedEof);
        }
        let aux_info_type = if has { Some(read_u32_at(d, 4)) } else { None };
        let aux_info_type_parameter = if has { Some(read_u32_at(d, 8)) } else { None };
        let entry_count = read_u32_at(d, 4 + a);
        let offset = if version == 0 {
            let (narrow, _end) = parse_counted::<u32>(d, 8 + a, entry_count as usize)?;
            let mut wide: Vec<u64> = Vec::new();
            let mut i: usize = 0;
            while i < narrow.len()
                invariant
                    i <= narrow@.len(),
                    wide@ == widen_offsets(narrow@.take(i as int)),
                decreases narrow@.len() - i,
            {
                wide.push(narrow[i] as u64);
                proof {
                    assert(widen_offsets(narrow@.take(i + 1)) =~= widen_offsets(narrow@.take(i as int)).push(narrow@[i as int] as u64));
                }
                i = i + 1;
            }
            proof {
                assert(narrow@.take(i as int) =~= narrow@);
                assert(views(narrow@) =~= narrow@);
            }
            wide
        } else {
            let (wide, _end) = parse_counted::<u64>(d, 8 + a, entry_count as usize)?;
            proof {
                assert(views(wide@) =~= wide@);
            }
            wide
        };
        Ok(
            SampleAuxiliaryInformationOffsetsBox {
                full_header: FullBoxHeader { version, flags },
                aux_info_type,
                aux_info_type_parameter,
                entry_count,
                offset,
            },
        )
    }

    fn serialize_body(&self, out: &mut Vec<u8>) -> (r: Result<(), IsoError>) {
        let flags = self.full_header.flags;
        proof {
            assert(out@.subrange(0, out@.len() as int) =~= out@);
        }
        if flags % 2 == 1 && (self.aux_info_type.is_none() || self.aux_info_type_parameter.is_none()) {
            return Err(IsoError::InvalidData);
        }
        let ghost before = out@;
        write_u8(out, self.full_header.version);
        write_u24(out, flags);
        if flags % 2 == 1 {
            match (self.aux_info_type, self.aux_info_type_parameter) {
                (Some(t), Some(p)) => {
                    write_u32(out, t);
                    write_u32(out, p);
                },
                _ => {},
            }
        }
        write_u32(out, self.entry_count);
        if self.full_header.version == 0 {
            let mut narrow: Vec<u32> = Vec::new();
            let mut i: usize = 0;
            while i < self.offset.len()
                invariant
                    i <= self.offset@.len(),
                    narrow@ == narrow_offsets(self.offset@.take(i as int)),
                decreases self.offset@.len() - i,
            {
                narrow.push(self.offset[i] as u32);
                proof {
                    assert(narrow_offsets(self.offset@.take(i + 1)) =~= narrow_offsets(self.offset@.take(i as int)).push(self.offset@[i as int] as u32));
                }
                i = i + 1;
            }
            proof {
                assert(self.offset@.take(i as int) =~= self.offset@);
                assert(views(narrow@) =~= narrow@);
            }
            let _ = serialize_all(&narrow, out);
        } else {
            proof {
                assert(views(self.offset@) =~= self.offset@);
            }
            let _ = serialize_all(&self.offset, out);
        }
        proof {
            assert(out@ =~= before + Self::spec_serialize_body(self@));
            lemma_append_prefix(before, Self::spec_serialize_body(self@));
        }
        Ok(())
    }
}

} // verus!
