//! The sub-sample information box (ISO/IEC 14496-12 - 8.7.7).

use vstd::prelude::*;

use crate::codec::{
    be_u16_at, be_u24_at, be_u32_at, lemma_append_prefix, lemma_u16_at, lemma_u24_at, lemma_u32_at, read_u16_at,
    read_u24_at, read_u32_at, u16_bytes, u24_bytes, u32_bytes, write_u16, write_u24, write_u32, write_u8,
    IsoError, SpecParse,
};
use crate::frame::{add_header_size, add_header_size_exec, BoxBody};
use crate::header::{spec_uuid_fourcc, FullBoxHeader};
use crate::versioned::{
    canonical_seq_v, lemma_count_roundtrip_v, lemma_parse_count_v_len, lemma_rest_roundtrip_v, lemma_size_seq_v,
    lemma_size_seq_v_mono, parse_count_v, parse_counted_v, parse_remaining_v, parse_rest_v, ser_seq_v,
    serialize_all_v, size_all_v, size_seq_v, VersionedWire,
};
use crate::wire::{views, IsoSized};

verus! {

/// The width of the size of a sub-sample in a box of `version`: 32 bits in version 1,
/// 16 bits otherwise.
pub open spec fn subsample_size_width(version: u8) -> int {
    if version == 1 { 4 } else { 2 }
}

/// Sub-sample information in a [`SubSampleInformationBoxEntry`].
#[derive(Debug, Clone, Copy, PartialEq, Eq, Structural)]
pub struct SubSampleInformationBoxEntrySubSample {
    /// The size of the sub-sample, in bytes.
    pub subsample_size: u32,
    /// The degradation priority of the sub-sample.
    pub subsample_priority: u8,
    /// 0 where the sub-sample is needed to decode the sample, 1 where it is not.
    pub discardable: u8,
    /// Parameters defined by the codec, or 0.
    pub codec_specific_parameters: u32,
}

impl View for SubSampleInformationBoxEntrySubSample {
    type V = SubSampleInformationBoxEntrySubSample;

    open spec fn view(&self) -> SubSampleInformationBoxEntrySubSample {
        *self
    }
}

impl VersionedWire for SubSampleInformationBoxEntrySubSample {
    /// The size in the width of the version, the priority, the discardable flag and
    /// the codec parameters.
    open spec fn spec_parse_v(s: Seq<u8>, version: u8) -> SpecParse<SubSampleInformationBoxEntrySubSample> {
        let w = subsample_size_width(version);
        if s.len() < w + 6 {
            Err(IsoError::UnexpectedEof)
        } else {
            Ok(
                (
                    SubSampleInformationBoxEntrySubSample {
                        subsample_size: if version == 1 { be_u32_at(s, 0) } else { be_u16_at(s, 0) as u32 },
                        subsample_priority: s[w],
                        discardable: s[w + 1],
                        codec_specific_parameters: be_u32_at(s, w + 2),
                    },
                    w + 6,
                ),
            )
        }
    }

    open spec fn spec_writable_v(v: SubSampleInformationBoxEntrySubSample, version: u8) -> bool {
        true
    }

    open spec fn spec_serialize_v(v: SubSampleInformationBoxEntrySubSample, version: u8) -> Seq<u8> {
        (if version == 1 { u32_bytes(v.subsample_size) } else { u16_bytes(v.subsample_size as u16) }) + seq![
            v.subsample_priority,
            v.discardable,
        ] + u32_bytes(v.codec_specific_parameters)
    }

    /// Outside version 1 the size fits 16 bits.
    open spec fn spec_canonical_v(v: SubSampleInformationBoxEntrySubSample, version: u8) -> bool {
        version != 1 ==> v.subsample_size < 0x10000
    }

    open spec fn spec_size_v(v: SubSampleInformationBoxEntrySubSample, version: u8) -> nat {
        if version == 1 { 10 } else { 8 }
    }

    proof fn lemma_parse_len_v(s: Seq<u8>, version: u8) {
    }

    proof fn lemma_size_v(v: SubSampleInformationBoxEntrySubSample, version: u8) {
    }

    proof fn lemma_roundtrip_v(v: SubSampleInformationBoxEntrySubSample, version: u8, rest: Seq<u8>) {
        let w = subsample_size_width(version);
        let s = Self::spec_serialize_v(v, version) + rest;
        if version == 1 {
            assert(s.subrange(0, 4) =~= u32_bytes(v.subsample_size));
            lemma_u32_at(s, 0, v.subsample_size);
        } else {
            assert(s.subrange(0, 2) =~= u16_bytes(v.subsample_size as u16));
            lemma_u16_at(s, 0, v.subsample_size as u16);
            let x = v.subsample_size;
            assert((x as u16) as u32 == x) by (bit_vector)
                requires
                    x < 0x10000,
            ;
        }
        assert(s[w] == v.subsample_priority);
        assert(s[w + 1] == v.discardable);
        assert(s.subrange(w + 2, w + 6) =~= u32_bytes(v.codec_specific_parameters));
        lemma_u32_at(s, w + 2, v.codec_specific_parameters);
    }

    fn parse_v(data: &[u8], pos: usize, version: u8) -> (r: Result<(SubSampleInformationBoxEntrySubSample, usize), IsoError>) {
        let w: usize = if version == 1 { 4 } else { 2 };
        if data.len() - pos < w + 6 {
            return Err(IsoError::UnexpectedEof);
        }
        let d = vstd::slice::slice_subrange(data, pos, data.len());
        proof {
            assert(d@ =~= data@.skip(pos as int));
        }
        let subsample_size = if version == 1 { read_u32_at(d, 0) } else { read_u16_at(d, 0) as u32 };
        let subsample_priority = d[w];
        let discardable = d[w + 1];
        let codec_specific_parameters = read_u32_at(d, w + 2);
        Ok(
            (
                SubSampleInformationBoxEntrySubSample {
                    subsample_size,
                    subsample_priority,
                    discardable,
                    codec_specific_parameters,
                },
                pos + w + 6,
            ),
        )
    }

    fn serialize_v(&self, out: &mut Vec<u8>, version: u8) -> (r: Result<(), IsoError>) {
        let ghost before = out@;
        if version == 1 {
            write_u32(out, self.subsample_size);
        } else {
            write_u16(out, self.subsample_size as u16);
        }
        write_u8(out, self.subsample_priority);
        write_u8(out, self.discardable);
        write_u32(out, self.codec_specific_parameters);
        proof {
            assert(out@ =~= before + Self::spec_serialize_v(self@, version));
            lemma_append_prefix(before, Self::spec_serialize_v(self@, version));
        }
        Ok(())
    }

    fn size_v(&self, version: u8) -> (n: usize) {
        if version == 1 { 10 } else { 8 }
    }
}

impl SubSampleInformationBoxEntrySubSample {
    /// The size of the sub-sample information in a box of `version`.
    pub fn size(&self, version: u8) -> (n: usize)
        ensures
            n == SubSampleInformationBoxEntrySubSample::spec_size_v(*self, version),
    {
        self.size_v(version)
    }
}

/// Entry in [`SubSampleInformationBox`].
#[derive(Debug)]
pub struct SubSampleInformationBoxEntry {
    /// The distance, in decoding order, from the sample of the previous entry.
    pub sample_delta: u32,
    /// The number of sub-samples of the sample.
    pub subsample_count: u16,
    /// The sub-samples.
    pub subsample_info: Vec<SubSampleInformationBoxEntrySubSample>,
}

/// The model of a [`SubSampleInformationBoxEntry`].
pub struct SubSampleInformationBoxEntryModel {
    pub sample_delta: u32,
    pub subsample_count: u16,
    pub subsample_info: Seq<SubSampleInformationBoxEntrySubSample>,
}

impl View for SubSampleInformationBoxEntry {
    type V = SubSampleInformationBoxEntryModel;

    open spec fn view(&self) -> SubSampleInformationBoxEntryModel {
        SubSampleInformationBoxEntryModel {
            sample_delta: self.sample_delta,
            subsample_count: self.subsample_count,
            subsample_info: views(self.subsample_info@),
        }
    }
}

impl VersionedWire for SubSampleInformationBoxEntry {
    /// The sample delta, the count, then that many sub-samples.
    open spec fn spec_parse_v(s: Seq<u8>, version: u8) -> SpecParse<SubSampleInformationBoxEntryModel> {
        if s.len() < 6 {
            Err(IsoError::UnexpectedEof)
        } else {
            match parse_count_v::<SubSampleInformationBoxEntrySubSample>(s.skip(6), be_u16_at(s, 4) as nat, version) {
                Ok((subs, k)) => Ok(
                    (
                        SubSampleInformationBoxEntryModel {
                            sample_delta: be_u32_at(s, 0),
                            subsample_count: be_u16_at(s, 4),
                            subsample_info: subs,
                        },
                        6 + k,
                    ),
                ),
                Err(e) => Err(e),
            }
        }
    }

    open spec fn spec_writable_v(v: SubSampleInformationBoxEntryModel, version: u8) -> bool {
        true
    }

    open spec fn spec_serialize_v(v: SubSampleInformationBoxEntryModel, version: u8) -> Seq<u8> {
        u32_bytes(v.sample_delta) + u16_bytes(v.subsample_count) + ser_seq_v::<SubSampleInformationBoxEntrySubSample>(
            v.subsample_info,
            version,
        )
    }

    /// The count is the number of sub-samples, which fit the layout of the version.
    open spec fn spec_canonical_v(v: SubSampleInformationBoxEntryModel, version: u8) -> bool {
        v.subsample_info.len() == v.subsample_count && canonical_seq_v::<SubSampleInformationBoxEntrySubSample>(
            v.subsample_info,
            version,
        )
    }

    open spec fn spec_size_v(v: SubSampleInformationBoxEntryModel, version: u8) -> nat {
        6 + size_seq_v::<SubSampleInformationBoxEntrySubSample>(v.subsample_info, version)
    }

    proof fn lemma_parse_len_v(s: Seq<u8>, version: u8) {
        if s.len() >= 6 {
            lemma_parse_count_v_len::<SubSampleInformationBoxEntrySubSample>(s.skip(6), be_u16_at(s, 4) as nat, version);
        }
    }

    proof fn lemma_size_v(v: SubSampleInformationBoxEntryModel, version: u8) {
        lemma_size_seq_v::<SubSampleInformationBoxEntrySubSample>(v.subsample_info, version);
    }

    proof fn lemma_roundtrip_v(v: SubSampleInformationBoxEntryModel, version: u8, rest: Seq<u8>) {
        let subs = ser_seq_v::<SubSampleInformationBoxEntrySubSample>(v.subsample_info, version);
        let s = Self::spec_serialize_v(v, version) + rest;
        assert(s.subrange(0, 4) =~= u32_bytes(v.sample_delta));
        lemma_u32_at(s, 0, v.sample_delta);
        assert(s.subrange(4, 6) =~= u16_bytes(v.subsample_count));
        lemma_u16_at(s, 4, v.subsample_count);
        assert(s.skip(6) =~= subs + rest);
        lemma_count_roundtrip_v::<SubSampleInformationBoxEntrySubSample>(v.subsample_info, version, rest);
    }

    fn parse_v(data: &[u8], pos: usize, version: u8) -> (r: Result<(SubSampleInformationBoxEntry, usize), IsoError>) {
        let ghost s = data@.skip(pos as int);
        if data.len() - pos < 6 {
            return Err(IsoError::UnexpectedEof);
        }
        let sample_delta = read_u32_at(data, pos);
        let subsample_count = read_u16_at(data, pos + 4);
        proof {
            assert(be_u32_at(s, 0) == be_u32_at(data@, pos as int));
            assert(be_u16_at(s, 4) == be_u16_at(data@, pos + 4));
            assert(s.skip(6) =~= data@.skip(pos + 6));
        }
        let (subsample_info, p) = parse_counted_v::<SubSampleInformationBoxEntrySubSample>(
            data,
            pos + 6,
            subsample_count as usize,
            version,
        )?;
        Ok((SubSampleInformationBoxEntry { sample_delta, subsample_count, subsample_info }, p))
    }

    fn serialize_v(&self, out: &mut Vec<u8>, version: u8) -> (r: Result<(), IsoError>) {
        let ghost before = out@;
        write_u32(out, self.sample_delta);
        write_u16(out, self.subsample_count);
        let _ = serialize_all_v(&self.subsample_info, out, version);
        proof {
            assert(out@ =~= before + Self::spec_serialize_v(self@, version));
            lemma_append_prefix(before, Self::spec_serialize_v(self@, version));
        }
        Ok(())
    }

    fn size_v(&self, version: u8) -> (n: usize) {
        proof {
            lemma_size_seq_v_mono::<SubSampleInformationBoxEntrySubSample>(views(self.subsample_info@), 0, version);
        }
        6 + size_all_v(&self.subsample_info, version)
    }
}

impl SubSampleInformationBoxEntry {
    /// The size of the entry in a box of `version`.
    pub fn size(&self, version: u8) -> (n: usize)
        requires
            SubSampleInformationBoxEntry::spec_size_v(self@, version) <= usize::MAX,
        ensures
            n == SubSampleInformationBoxEntry::spec_size_v(self@, version),
    {
        self.size_v(version)
    }
}

/// Sub-sample information box
///
/// ISO/IEC 14496-12 - 8.7.7
#[derive(Debug)]
pub struct SubSampleInformationBox {
    /// The full box header; version 1 has 32-bit sub-sample sizes.
    pub full_header: FullBoxHeader,
    /// The number of entries.
    pub entry_count: u32,
    /// The entries, to the end of the box.
    pub entries: Vec<SubSampleInformationBoxEntry>,
}

/// The model of a [`SubSampleInformationBox`].
pub struct SubSampleInformationBoxModel {
    pub full_header: FullBoxHeader,
    pub entry_count: u32,
    pub entries: Seq<SubSampleInformationBoxEntryModel>,
}

impl View for SubSampleInformationBox {
    type V = SubSampleInformationBoxModel;

    open spec fn view(&self) -> SubSampleInformationBoxModel {
        SubSampleInformationBoxModel {
            full_header: self.full_header,
            entry_count: self.entry_count,
            entries: views(self.entries@),
        }
    }
}

impl IsoSized for SubSampleInformationBox {
    open spec fn spec_size(&self) -> nat {
        add_header_size(8 + size_seq_v::<SubSampleInformationBoxEntry>(views(self.entries@), self.full_header.version))
    }

    fn size(&self) -> (n: usize) {
        proof {
            lemma_size_seq_v_mono::<SubSampleInformationBoxEntry>(views(self.entries@), 0, self.full_header.version);
        }
        add_header_size_exec(8 + size_all_v(&self.entries, self.full_header.version))
    }
}

impl BoxBody for SubSampleInformationBox {
    open spec fn spec_box_type() -> [u8; 4] {
        [0x73u8, 0x75u8, 0x62u8, 0x73u8]
    }

    fn box_type() -> (r: [u8; 4]) {
        [0x73u8, 0x75u8, 0x62u8, 0x73u8]
    }

    /// The full header, the count, then entries until the box ends.
    open spec fn spec_parse_body(s: Seq<u8>) -> Result<SubSampleInformationBoxModel, IsoError> {
        if s.len() < 8 {
            Err(IsoError::UnexpectedEof)
        } else {
            match parse_rest_v::<SubSampleInformationBoxEntry>(s.skip(8), s[0]) {
                Ok((entries, _)) => Ok(
                    SubSampleInformationBoxModel {
                        full_header: FullBoxHeader { version: s[0], flags: be_u24_at(s, 1) },
                        entry_count: be_u32_at(s, 4),
                        entries,
                    },
                ),
                Err(e) => Err(e),
            }
        }
    }

    open spec fn spec_writable(v: SubSampleInformationBoxModel) -> bool {
        true
    }

    open spec fn spec_serialize_body(v: SubSampleInformationBoxModel) -> Seq<u8> {
        seq![v.full_header.version] + u24_bytes(v.full_header.flags) + u32_bytes(v.entry_count) + ser_seq_v::<
            SubSampleInformationBoxEntry,
        >(v.entries, v.full_header.version)
    }

    /// Every entry fits the layout of the version.
    open spec fn spec_canonical(v: SubSampleInformationBoxModel) -> bool {
        v.full_header.flags < 0x100_0000 && canonical_seq_v::<SubSampleInformationBoxEntry>(
            v.entries,
            v.full_header.version,
        )
    }

    proof fn lemma_box_type() {
        assert(Self::spec_box_type()[0] != spec_uuid_fourcc()[0]);
    }

    proof fn lemma_body_size(x: SubSampleInformationBox) {
        lemma_size_seq_v::<SubSampleInformationBoxEntry>(x@.entries, x.full_header.version);
    }

    proof fn lemma_body_roundtrip(v: SubSampleInformationBoxModel) {
        let s = Self::spec_serialize_body(v);
        assert(s.subrange(1, 4) =~= u24_bytes(v.full_header.flags));
        lemma_u24_at(s, 1, v.full_header.flags);
        assert(s.subrange(4, 8) =~= u32_bytes(v.entry_count));
        lemma_u32_at(s, 4, v.entry_count);
        assert(s.skip(8) =~= ser_seq_v::<SubSampleInformationBoxEntry>(v.entries, v.full_header.version));
        lemma_rest_roundtrip_v::<SubSampleInformationBoxEntry>(v.entries, v.full_header.version);
    }

    fn parse_body(d: &[u8]) -> (r: Result<SubSampleInformationBox, IsoError>) {
        if d.len() < 8 {
            return Err(IsoError::UnexpectedEof);
        }
        let version = d[0];
        let flags = read_u24_at(d, 1);
        let entry_count = read_u32_at(d, 4);
        let (entries, _end) = parse_remaining_v::<SubSampleInformationBoxEntry>(d, 8, version)?;
        Ok(SubSampleInformationBox { full_header: FullBoxHeader { version, flags }, entry_count, entries })
    }

    fn serialize_body(&self, out: &mut Vec<u8>) -> (r: Result<(), IsoError>) {
        let ghost before = out@;
        write_u8(out, self.full_header.version);
        write_u24(out, self.full_header.flags);
        write_u32(out, self.entry_count);
        let _ = serialize_all_v(&self.entries, out, self.full_header.version);
        proof {
            assert(out@ =~= before + Self::spec_serialize_body(self@));
            lemma_append_prefix(before, Self::spec_serialize_body(self@));
        }
        Ok(())
    }
}


/// A subsample of the sub-sample information box (ISO/IEC 14496-12 - 8.7.7): the
/// subsample size spelled by the first four bytes in version 1 and by the first two
/// otherwise; then the priority byte, the discardable byte, and the codec specific
/// parameters spelled by the next four bytes.
pub proof fn lemma_subsample_layout(s: Seq<u8>, version: u8)
    ensures
        version == 1 && s.len() >= 10 ==> (SubSampleInformationBoxEntrySubSample::spec_parse_v(s, version) matches Ok((e, n))
            && n == 10 && e.subsample_size == crate::codec::be_int(s, 0, 4) && e.subsample_priority == s[4]
            && e.discardable == s[5] && e.codec_specific_parameters == crate::codec::be_int(s, 6, 4)),
        version != 1 && s.len() >= 8 ==> (SubSampleInformationBoxEntrySubSample::spec_parse_v(s, version) matches Ok((e, n))
            && n == 8 && e.subsample_size == crate::codec::be_int(s, 0, 2) && e.subsample_priority == s[2]
            && e.discardable == s[3] && e.codec_specific_parameters == crate::codec::be_int(s, 4, 4)),
{
    if version == 1 && s.len() >= 10 {
        crate::codec::lemma_be_int_u32(s, 0);
        crate::codec::lemma_be_int_u32(s, 6);
    } else if version != 1 && s.len() >= 8 {
        crate::codec::lemma_be_int_u16(s, 0);
        crate::codec::lemma_be_int_u32(s, 4);
    }
}

} // verus!
