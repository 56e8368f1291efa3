//! The sample table box, which holds the timing and data indexing of the samples of
//! a track.

use vstd::prelude::*;

use crate::children::{
    child_fault, child_value, collect_children, collect_into, collect_unknown, first_fault, is_child, is_child_exec,
    last_child, lemma_child_other, lemma_child_read, lemma_collect_add, lemma_collect_none, lemma_collect_step,
    lemma_first_fault, lemma_unknown_add, lemma_unknown_all_known, lemma_unknown_none_known, lemma_unknown_step,
    lemma_unknown_seq, read_children, replace_into, scan_result, spec_children,
};
use crate::codec::{
    be_u16_at, be_u24_at, be_u32_at, lemma_append_prefix, lemma_prefix_trans, lemma_u16_at, lemma_u24_at,
    lemma_u32_at, read_u16_at, read_u24_at, read_u32_at, u16_bytes, u24_bytes, u32_bytes, write_bytes, write_u16,
    write_u24, write_u32, write_u8, IsoError,
};
use crate::frame::{add_header_size, add_header_size_exec, BoxBody, UnknownBox, UnknownBoxModel};
use crate::header::{spec_uuid_fourcc, FullBoxHeader};
use crate::nested::{
    lemma_nested_collect_other, lemma_nested_collect_own, lemma_nested_cons, lemma_nested_opt_other,
    lemma_nested_opt_own, lemma_nested_opt_seq, lemma_nested_opt_size, lemma_nested_seq, lemma_nested_size,
    lemma_nested_sizes, lemma_unknown_seq_rest, nested_all_ok, nested_all_writable, nested_box_bytes, nested_bytes,
    nested_model,
    nested_models, nested_ok, nested_opt_bytes, nested_opt_models, nested_opt_ok, nested_opt_size,
    nested_opt_writable, nested_sizes, nested_writable, opt_seq, opt_view, size_nested_opt, size_nested_vec,
    write_nested, write_nested_opt, write_nested_vec,
};
use crate::wire::{
    lemma_size_seq, lemma_size_seq_mono, ser_seq, serialize_all, size_all, size_seq, views, writable_seq,
    write_matches, IsoSized, Wire,
};
use crate::boxes::aux_info::{SampleAuxiliaryInformationOffsetsBox, SampleAuxiliaryInformationSizesBox};
use crate::boxes::sample_group::{CompactSampleToGroupBox, SampleToGroupBox};
use crate::boxes::sample_group_description::SampleGroupDescriptionBox;
use crate::boxes::sample_table::{DegradationPriorityBox, SampleDescriptionBox};
use crate::boxes::sub_samples::SubSampleInformationBox;
use crate::boxes::track_data_layout::{
    ChunkLargeOffsetBox, ChunkOffsetBox, CompactSampleSizeBox, PaddingBitsBox, SampleSizeBox, SampleToChunkBox,
};
use crate::boxes::track_time::{
    CompositionOffsetBox, CompositionToDecodeBox, ShadowSyncSampleBox, SyncSampleBox, TimeToSampleBox,
};
use crate::boxes::track_time::{sdtp_from_byte, sdtp_to_byte, SampleDependencyTypeBoxEntry};

verus! {

/// Sample dependency type box
///
/// `sdtp`
///
/// ISO/IEC 14496-12 - 8.6.4
#[derive(Debug)]
pub struct SampleDependencyTypeBox {
    /// The full box header.
    pub full_header: FullBoxHeader,
    /// One entry for each sample, one byte each, to the end of the box.
    pub entries: Vec<SampleDependencyTypeBoxEntry>,
}

/// The model of a [`SampleDependencyTypeBox`].
pub struct SampleDependencyTypeBoxModel {
    pub full_header: FullBoxHeader,
    pub entries: Seq<SampleDependencyTypeBoxEntry>,
}

impl View for SampleDependencyTypeBox {
    type V = SampleDependencyTypeBoxModel;

    open spec fn view(&self) -> SampleDependencyTypeBoxModel {
        SampleDependencyTypeBoxModel { full_header: self.full_header, entries: self.entries@ }
    }
}

/// The bytes of the entries.
pub open spec fn sdtp_bytes(es: Seq<SampleDependencyTypeBoxEntry>) -> Seq<u8> {
    es.map_values(|e: SampleDependencyTypeBoxEntry| sdtp_to_byte(e))
}

impl IsoSized for SampleDependencyTypeBox {
    open spec fn spec_size(&self) -> nat {
        add_header_size(4 + self.entries@.len())
    }

    fn size(&self) -> (n: usize) {
        add_header_size_exec(4 + self.entries.len())
    }
}

impl BoxBody for SampleDependencyTypeBox {
    open spec fn spec_box_type() -> [u8; 4] {
        [0x73u8, 0x64u8, 0x74u8, 0x70u8]
    }

    fn box_type() -> (r: [u8; 4]) {
        [0x73u8, 0x64u8, 0x74u8, 0x70u8]
    }

    /// The full header, then one entry from each byte to the end of the payload.
    open spec fn spec_parse_body(s: Seq<u8>) -> Result<SampleDependencyTypeBoxModel, IsoError> {
        if s.len() < 4 {
            Err(IsoError::UnexpectedEof)
        } else {
            Ok(
                SampleDependencyTypeBoxModel {
                    full_header: FullBoxHeader { version: s[0], flags: be_u24_at(s, 1) },
                    entries: s.skip(4).map_values(|b: u8| sdtp_from_byte(b)),
                },
            )
        }
    }

    open spec fn spec_writable(v: SampleDependencyTypeBoxModel) -> bool {
        true
    }

    open spec fn spec_serialize_body(v: SampleDependencyTypeBoxModel) -> Seq<u8> {
        seq![v.full_header.version] + u24_bytes(v.full_header.flags) + sdtp_bytes(v.entries)
    }

    /// The flags fit 24 bits and every field of every entry two bits.
    open spec fn spec_canonical(v: SampleDependencyTypeBoxModel) -> bool {
        &&& v.full_header.flags < 0x100_0000
        &&& forall|i: int|
            0 <= i < v.entries.len() ==> {
                &&& (#[trigger] v.entries[i]).is_leading < 4
                &&& v.entries[i].sample_depends_on < 4
                &&& v.entries[i].sample_is_depended_on < 4
                &&& v.entries[i].sample_has_redundancy < 4
            }
    }

    proof fn lemma_box_type() {
        assert(Self::spec_box_type()[0] != spec_uuid_fourcc()[0]);
    }

    proof fn lemma_body_size(x: SampleDependencyTypeBox) {
    }

    proof fn lemma_body_roundtrip(v: SampleDependencyTypeBoxModel) {
        let s = Self::spec_serialize_body(v);
        assert(s.subrange(1, 4) =~= u24_bytes(v.full_header.flags));
        lemma_u24_at(s, 1, v.full_header.flags);
        assert(s.skip(4) =~= sdtp_bytes(v.entries));
        assert forall|i: int| 0 <= i < v.entries.len() implies sdtp_from_byte(sdtp_bytes(v.entries)[i]) == v.entries[i] by {
            crate::boxes::track_time::lemma_sdtp_roundtrip(v.entries[i]);
        }
        assert(s.skip(4).map_values(|b: u8| sdtp_from_byte(b)) =~= v.entries);
    }

    fn parse_body(d: &[u8]) -> (r: Result<SampleDependencyTypeBox, IsoError>) {
        if d.len() < 4 {
            return Err(IsoError::UnexpectedEof);
        }
        let mut entries: Vec<SampleDependencyTypeBoxEntry> = Vec::new();
        let mut i: usize = 4;
        while i < d.len()
            invariant
                4 <= i <= d@.len(),
                entries@ == d@.subrange(4, i as int).map_values(|b: u8| sdtp_from_byte(b)),
            decreases d@.len() - i,
        {
            let e = SampleDependencyTypeBoxEntry::from(d[i]);
            proof {
                assert(d@.subrange(4, i + 1).map_values(|b: u8| sdtp_from_byte(b)) =~= d@.subrange(4, i as int).map_values(
                    |b: u8| sdtp_from_byte(b),
                ).push(e));
            }
            entries.push(e);
            i = i + 1;
        }
        proof {
            assert(d@.subrange(4, i as int) =~= d@.skip(4));
        }
        Ok(SampleDependencyTypeBox { full_header: FullBoxHeader { version: d[0], flags: read_u24_at(d, 1) }, entries })
    }

    fn serialize_body(&self, out: &mut Vec<u8>) -> (r: Result<(), IsoError>) {
        let ghost before = out@;
        write_u8(out, self.full_header.version);
        write_u24(out, self.full_header.flags);
        let ghost mid = out@;
        let mut i: usize = 0;
        while i < self.entries.len()
            invariant
                i <= self.entries@.len(),
                out@ == mid + sdtp_bytes(self.entries@.take(i as int)),
            decreases self.entries@.len() - i,
        {
            let b: u8 = u8::from(self.entries[i]);
            proof {
                assert(sdtp_bytes(self.entries@.take(i + 1)) =~= sdtp_bytes(self.entries@.take(i as int)).push(b));
            }
            out.push(b);
            i = i + 1;
        }
        proof {
            assert(self.entries@.take(i as int) =~= self.entries@);
            assert(out@ =~= before + Self::spec_serialize_body(self@));
            lemma_append_prefix(before, Self::spec_serialize_body(self@));
        }
        Ok(())
    }
}

/// Sample table box
///
/// `stbl`
///
/// ISO/IEC 14496-12 - 8.5.1
#[derive(Debug)]
pub struct SampleTableBox {
    /// The contained [`SampleDescriptionBox`]. (mandatory)
    pub stsd: SampleDescriptionBox,
    /// The contained [`TimeToSampleBox`]. (mandatory)
    pub stts: TimeToSampleBox,
    /// The contained [`CompositionOffsetBox`]. (optional)
    pub ctts: Option<CompositionOffsetBox>,
    /// The contained [`CompositionToDecodeBox`]. (optional)
    pub cslg: Option<CompositionToDecodeBox>,
    /// The contained [`SampleToChunkBox`]. (mandatory)
    pub stsc: SampleToChunkBox,
    /// The contained [`SampleSizeBox`]. (optional)
    pub stsz: Option<SampleSizeBox>,
    /// The contained [`CompactSampleSizeBox`]. (optional)
    pub stz2: Option<CompactSampleSizeBox>,
    /// The contained [`ChunkOffsetBox`]. (optional)
    pub stco: Option<ChunkOffsetBox>,
    /// The contained [`ChunkLargeOffsetBox`]. (optional)
    pub co64: Option<ChunkLargeOffsetBox>,
    /// The contained [`SyncSampleBox`]. (optional)
    pub stss: Option<SyncSampleBox>,
    /// The contained [`ShadowSyncSampleBox`]. (optional)
    pub stsh: Option<ShadowSyncSampleBox>,
    /// The contained [`PaddingBitsBox`]. (optional)
    pub padb: Option<PaddingBitsBox>,
    /// The contained [`DegradationPriorityBox`]. (optional)
    pub stdp: Option<DegradationPriorityBox>,
    /// The contained [`SampleDependencyTypeBox`]. (optional)
    pub sdtp: Option<SampleDependencyTypeBox>,
    /// The contained [`SampleToGroupBox`] boxes. (any quantity)
    pub sbgp: Vec<SampleToGroupBox>,
    /// The contained [`SampleGroupDescriptionBox`] boxes. (any quantity)
    pub sgpd: Vec<SampleGroupDescriptionBox>,
    /// The contained [`SubSampleInformationBox`] boxes. (any quantity)
    pub subs: Vec<SubSampleInformationBox>,
    /// The contained [`SampleAuxiliaryInformationSizesBox`] boxes. (any quantity)
    pub saiz: Vec<SampleAuxiliaryInformationSizesBox>,
    /// The contained [`SampleAuxiliaryInformationOffsetsBox`] boxes. (any quantity)
    pub saio: Vec<SampleAuxiliaryInformationOffsetsBox>,
    /// The contained [`CompactSampleToGroupBox`] boxes. (any quantity)
    pub csgp: Vec<CompactSampleToGroupBox>,
}

/// The model of a [`SampleTableBox`].
pub struct SampleTableBoxModel {
    pub stsd: <SampleDescriptionBox as View>::V,
    pub stts: <TimeToSampleBox as View>::V,
    pub ctts: Option<<CompositionOffsetBox as View>::V>,
    pub cslg: Option<<CompositionToDecodeBox as View>::V>,
    pub stsc: <SampleToChunkBox as View>::V,
    pub stsz: Option<<SampleSizeBox as View>::V>,
    pub stz2: Option<<CompactSampleSizeBox as View>::V>,
    pub stco: Option<<ChunkOffsetBox as View>::V>,
    pub co64: Option<<ChunkLargeOffsetBox as View>::V>,
    pub stss: Option<<SyncSampleBox as View>::V>,
    pub stsh: Option<<ShadowSyncSampleBox as View>::V>,
    pub padb: Option<<PaddingBitsBox as View>::V>,
    pub stdp: Option<<DegradationPriorityBox as View>::V>,
    pub sdtp: Option<<SampleDependencyTypeBox as View>::V>,
    pub sbgp: Seq<<SampleToGroupBox as View>::V>,
    pub sgpd: Seq<<SampleGroupDescriptionBox as View>::V>,
    pub subs: Seq<<SubSampleInformationBox as View>::V>,
    pub saiz: Seq<<SampleAuxiliaryInformationSizesBox as View>::V>,
    pub saio: Seq<<SampleAuxiliaryInformationOffsetsBox as View>::V>,
    pub csgp: Seq<<CompactSampleToGroupBox as View>::V>,
}

impl View for SampleTableBox {
    type V = SampleTableBoxModel;

    open spec fn view(&self) -> SampleTableBoxModel {
        SampleTableBoxModel {
            stsd: self.stsd@,
            stts: self.stts@,
            ctts: opt_view(self.ctts),
            cslg: opt_view(self.cslg),
            stsc: self.stsc@,
            stsz: opt_view(self.stsz),
            stz2: opt_view(self.stz2),
            stco: opt_view(self.stco),
            co64: opt_view(self.co64),
            stss: opt_view(self.stss),
            stsh: opt_view(self.stsh),
            padb: opt_view(self.padb),
            stdp: opt_view(self.stdp),
            sdtp: opt_view(self.sdtp),
            sbgp: views(self.sbgp@),
            sgpd: views(self.sgpd@),
            subs: views(self.subs@),
            saiz: views(self.saiz@),
            saio: views(self.saio@),
            csgp: views(self.csgp@),
        }
    }
}

/// Whether a box found in a stbl has one of the types that it reads.
pub open spec fn stbl_known(c: UnknownBoxModel) -> bool {
    is_child::<SampleDescriptionBox>(c) || is_child::<TimeToSampleBox>(c) || is_child::<CompositionOffsetBox>(c) || is_child::<CompositionToDecodeBox>(c) || is_child::<SampleToChunkBox>(c) || is_child::<SampleSizeBox>(c) || is_child::<CompactSampleSizeBox>(c) || is_child::<ChunkOffsetBox>(c) || is_child::<ChunkLargeOffsetBox>(c) || is_child::<SyncSampleBox>(c) || is_child::<ShadowSyncSampleBox>(c) || is_child::<PaddingBitsBox>(c) || is_child::<DegradationPriorityBox>(c) || is_child::<SampleDependencyTypeBox>(c) || is_child::<SampleToGroupBox>(c) || is_child::<SampleGroupDescriptionBox>(c) || is_child::<SubSampleInformationBox>(c) || is_child::<SampleAuxiliaryInformationSizesBox>(c) || is_child::<SampleAuxiliaryInformationOffsetsBox>(c) || is_child::<CompactSampleToGroupBox>(c)
}

/// The failure of reading a box of a known type found in a stbl.
pub open spec fn stbl_fault(c: UnknownBoxModel) -> Option<IsoError> {
    if is_child::<SampleDescriptionBox>(c) {
        child_fault::<SampleDescriptionBox>(c)
    }     else if is_child::<TimeToSampleBox>(c) {
        child_fault::<TimeToSampleBox>(c)
    }     else if is_child::<CompositionOffsetBox>(c) {
        child_fault::<CompositionOffsetBox>(c)
    }     else if is_child::<CompositionToDecodeBox>(c) {
        child_fault::<CompositionToDecodeBox>(c)
    }     else if is_child::<SampleToChunkBox>(c) {
        child_fault::<SampleToChunkBox>(c)
    }     else if is_child::<SampleSizeBox>(c) {
        child_fault::<SampleSizeBox>(c)
    }     else if is_child::<CompactSampleSizeBox>(c) {
        child_fault::<CompactSampleSizeBox>(c)
    }     else if is_child::<ChunkOffsetBox>(c) {
        child_fault::<ChunkOffsetBox>(c)
    }     else if is_child::<ChunkLargeOffsetBox>(c) {
        child_fault::<ChunkLargeOffsetBox>(c)
    }     else if is_child::<SyncSampleBox>(c) {
        child_fault::<SyncSampleBox>(c)
    }     else if is_child::<ShadowSyncSampleBox>(c) {
        child_fault::<ShadowSyncSampleBox>(c)
    }     else if is_child::<PaddingBitsBox>(c) {
        child_fault::<PaddingBitsBox>(c)
    }     else if is_child::<DegradationPriorityBox>(c) {
        child_fault::<DegradationPriorityBox>(c)
    }     else if is_child::<SampleDependencyTypeBox>(c) {
        child_fault::<SampleDependencyTypeBox>(c)
    }     else if is_child::<SampleToGroupBox>(c) {
        child_fault::<SampleToGroupBox>(c)
    }     else if is_child::<SampleGroupDescriptionBox>(c) {
        child_fault::<SampleGroupDescriptionBox>(c)
    }     else if is_child::<SubSampleInformationBox>(c) {
        child_fault::<SubSampleInformationBox>(c)
    }     else if is_child::<SampleAuxiliaryInformationSizesBox>(c) {
        child_fault::<SampleAuxiliaryInformationSizesBox>(c)
    }     else if is_child::<SampleAuxiliaryInformationOffsetsBox>(c) {
        child_fault::<SampleAuxiliaryInformationOffsetsBox>(c)
    }     else if is_child::<CompactSampleToGroupBox>(c) {
        child_fault::<CompactSampleToGroupBox>(c)
    } else {
        None
    }
}

/// What a stbl reads from its payload: the boxes before the first that fails, each box of a known type in its field (the
/// last one for a single field, which must be there where it is required) and every
/// other box kept as it is.
pub open spec fn stbl_parse(s: Seq<u8>) -> Result<SampleTableBoxModel, IsoError> {
    let cs = spec_children(s);
    match scan_result(cs, |c: UnknownBoxModel| stbl_fault(c)) {
        Err(e) => Err(e),
        Ok(k) => {
            let p = cs.take(k as int);
            match last_child::<SampleDescriptionBox>(p) {
                None => Err(IsoError::InvalidData),
                Some(stsd) =>                 match last_child::<TimeToSampleBox>(p) {
                    None => Err(IsoError::InvalidData),
                    Some(stts) =>                     match last_child::<SampleToChunkBox>(p) {
                        None => Err(IsoError::InvalidData),
                        Some(stsc) => Ok(
                            SampleTableBoxModel {
                                stsd: stsd,
                                stts: stts,
                                ctts: last_child::<CompositionOffsetBox>(p),
                                cslg: last_child::<CompositionToDecodeBox>(p),
                                stsc: stsc,
                                stsz: last_child::<SampleSizeBox>(p),
                                stz2: last_child::<CompactSampleSizeBox>(p),
                                stco: last_child::<ChunkOffsetBox>(p),
                                co64: last_child::<ChunkLargeOffsetBox>(p),
                                stss: last_child::<SyncSampleBox>(p),
                                stsh: last_child::<ShadowSyncSampleBox>(p),
                                padb: last_child::<PaddingBitsBox>(p),
                                stdp: last_child::<DegradationPriorityBox>(p),
                                sdtp: last_child::<SampleDependencyTypeBox>(p),
                                sbgp: collect_children::<SampleToGroupBox>(p),
                                sgpd: collect_children::<SampleGroupDescriptionBox>(p),
                                subs: collect_children::<SubSampleInformationBox>(p),
                                saiz: collect_children::<SampleAuxiliaryInformationSizesBox>(p),
                                saio: collect_children::<SampleAuxiliaryInformationOffsetsBox>(p),
                                csgp: collect_children::<CompactSampleToGroupBox>(p),
                            },
                        ),
                    },
                },
            }
        },
    }
}

/// The bytes of the boxes that a stbl holds, in the order of its fields.
pub open spec fn stbl_children_bytes(v: SampleTableBoxModel) -> Seq<u8> {
    nested_box_bytes::<SampleDescriptionBox>(v.stsd)
        + nested_box_bytes::<TimeToSampleBox>(v.stts)
        + nested_opt_bytes::<CompositionOffsetBox>(v.ctts)
        + nested_opt_bytes::<CompositionToDecodeBox>(v.cslg)
        + nested_box_bytes::<SampleToChunkBox>(v.stsc)
        + nested_opt_bytes::<SampleSizeBox>(v.stsz)
        + nested_opt_bytes::<CompactSampleSizeBox>(v.stz2)
        + nested_opt_bytes::<ChunkOffsetBox>(v.stco)
        + nested_opt_bytes::<ChunkLargeOffsetBox>(v.co64)
        + nested_opt_bytes::<SyncSampleBox>(v.stss)
        + nested_opt_bytes::<ShadowSyncSampleBox>(v.stsh)
        + nested_opt_bytes::<PaddingBitsBox>(v.padb)
        + nested_opt_bytes::<DegradationPriorityBox>(v.stdp)
        + nested_opt_bytes::<SampleDependencyTypeBox>(v.sdtp)
        + nested_bytes::<SampleToGroupBox>(v.sbgp)
        + nested_bytes::<SampleGroupDescriptionBox>(v.sgpd)
        + nested_bytes::<SubSampleInformationBox>(v.subs)
        + nested_bytes::<SampleAuxiliaryInformationSizesBox>(v.saiz)
        + nested_bytes::<SampleAuxiliaryInformationOffsetsBox>(v.saio)
        + nested_bytes::<CompactSampleToGroupBox>(v.csgp)
}

/// The boxes, as found in a container, that a stbl writes.
pub open spec fn stbl_models(v: SampleTableBoxModel) -> Seq<UnknownBoxModel> {
    seq![nested_model::<SampleDescriptionBox>(v.stsd)]
        + seq![nested_model::<TimeToSampleBox>(v.stts)]
        + nested_opt_models::<CompositionOffsetBox>(v.ctts)
        + nested_opt_models::<CompositionToDecodeBox>(v.cslg)
        + seq![nested_model::<SampleToChunkBox>(v.stsc)]
        + nested_opt_models::<SampleSizeBox>(v.stsz)
        + nested_opt_models::<CompactSampleSizeBox>(v.stz2)
        + nested_opt_models::<ChunkOffsetBox>(v.stco)
        + nested_opt_models::<ChunkLargeOffsetBox>(v.co64)
        + nested_opt_models::<SyncSampleBox>(v.stss)
        + nested_opt_models::<ShadowSyncSampleBox>(v.stsh)
        + nested_opt_models::<PaddingBitsBox>(v.padb)
        + nested_opt_models::<DegradationPriorityBox>(v.stdp)
        + nested_opt_models::<SampleDependencyTypeBox>(v.sdtp)
        + nested_models::<SampleToGroupBox>(v.sbgp)
        + nested_models::<SampleGroupDescriptionBox>(v.sgpd)
        + nested_models::<SubSampleInformationBox>(v.subs)
        + nested_models::<SampleAuxiliaryInformationSizesBox>(v.saiz)
        + nested_models::<SampleAuxiliaryInformationOffsetsBox>(v.saio)
        + nested_models::<CompactSampleToGroupBox>(v.csgp)
}

/// The payload that a stbl writes.
pub open spec fn stbl_bytes(v: SampleTableBoxModel) -> Seq<u8> {
    stbl_children_bytes(v)
}

/// Every box of a known type can be written.
pub open spec fn stbl_writable(v: SampleTableBoxModel) -> bool {
    &&& nested_writable::<SampleDescriptionBox>(v.stsd)
    &&& nested_writable::<TimeToSampleBox>(v.stts)
    &&& nested_opt_writable::<CompositionOffsetBox>(v.ctts)
    &&& nested_opt_writable::<CompositionToDecodeBox>(v.cslg)
    &&& nested_writable::<SampleToChunkBox>(v.stsc)
    &&& nested_opt_writable::<SampleSizeBox>(v.stsz)
    &&& nested_opt_writable::<CompactSampleSizeBox>(v.stz2)
    &&& nested_opt_writable::<ChunkOffsetBox>(v.stco)
    &&& nested_opt_writable::<ChunkLargeOffsetBox>(v.co64)
    &&& nested_opt_writable::<SyncSampleBox>(v.stss)
    &&& nested_opt_writable::<ShadowSyncSampleBox>(v.stsh)
    &&& nested_opt_writable::<PaddingBitsBox>(v.padb)
    &&& nested_opt_writable::<DegradationPriorityBox>(v.stdp)
    &&& nested_opt_writable::<SampleDependencyTypeBox>(v.sdtp)
    &&& nested_all_writable::<SampleToGroupBox>(v.sbgp)
    &&& nested_all_writable::<SampleGroupDescriptionBox>(v.sgpd)
    &&& nested_all_writable::<SubSampleInformationBox>(v.subs)
    &&& nested_all_writable::<SampleAuxiliaryInformationSizesBox>(v.saiz)
    &&& nested_all_writable::<SampleAuxiliaryInformationOffsetsBox>(v.saio)
    &&& nested_all_writable::<CompactSampleToGroupBox>(v.csgp)
}

/// Every box of a known type reads back as itself, and every other box is of
/// another type and announces exactly its payload.
pub open spec fn stbl_canonical(v: SampleTableBoxModel) -> bool {
    &&& nested_ok::<SampleDescriptionBox>(v.stsd)
    &&& nested_ok::<TimeToSampleBox>(v.stts)
    &&& nested_opt_ok::<CompositionOffsetBox>(v.ctts)
    &&& nested_opt_ok::<CompositionToDecodeBox>(v.cslg)
    &&& nested_ok::<SampleToChunkBox>(v.stsc)
    &&& nested_opt_ok::<SampleSizeBox>(v.stsz)
    &&& nested_opt_ok::<CompactSampleSizeBox>(v.stz2)
    &&& nested_opt_ok::<ChunkOffsetBox>(v.stco)
    &&& nested_opt_ok::<ChunkLargeOffsetBox>(v.co64)
    &&& nested_opt_ok::<SyncSampleBox>(v.stss)
    &&& nested_opt_ok::<ShadowSyncSampleBox>(v.stsh)
    &&& nested_opt_ok::<PaddingBitsBox>(v.padb)
    &&& nested_opt_ok::<DegradationPriorityBox>(v.stdp)
    &&& nested_opt_ok::<SampleDependencyTypeBox>(v.sdtp)
    &&& nested_all_ok::<SampleToGroupBox>(v.sbgp)
    &&& nested_all_ok::<SampleGroupDescriptionBox>(v.sgpd)
    &&& nested_all_ok::<SubSampleInformationBox>(v.subs)
    &&& nested_all_ok::<SampleAuxiliaryInformationSizesBox>(v.saiz)
    &&& nested_all_ok::<SampleAuxiliaryInformationOffsetsBox>(v.saio)
    &&& nested_all_ok::<CompactSampleToGroupBox>(v.csgp)
}

impl IsoSized for SampleTableBox {
    open spec fn spec_size(&self) -> nat {
        add_header_size(self.stsd.spec_size() + self.stts.spec_size() + nested_opt_size::<CompositionOffsetBox>(self.ctts) + nested_opt_size::<CompositionToDecodeBox>(self.cslg) + self.stsc.spec_size() + nested_opt_size::<SampleSizeBox>(self.stsz) + nested_opt_size::<CompactSampleSizeBox>(self.stz2) + nested_opt_size::<ChunkOffsetBox>(self.stco) + nested_opt_size::<ChunkLargeOffsetBox>(self.co64) + nested_opt_size::<SyncSampleBox>(self.stss) + nested_opt_size::<ShadowSyncSampleBox>(self.stsh) + nested_opt_size::<PaddingBitsBox>(self.padb) + nested_opt_size::<DegradationPriorityBox>(self.stdp) + nested_opt_size::<SampleDependencyTypeBox>(self.sdtp) + nested_sizes::<SampleToGroupBox>(self.sbgp@) + nested_sizes::<SampleGroupDescriptionBox>(self.sgpd@) + nested_sizes::<SubSampleInformationBox>(self.subs@) + nested_sizes::<SampleAuxiliaryInformationSizesBox>(self.saiz@) + nested_sizes::<SampleAuxiliaryInformationOffsetsBox>(self.saio@) + nested_sizes::<CompactSampleToGroupBox>(self.csgp@))
    }

    fn size(&self) -> (n: usize) {
        let mut n: usize = 0;
        n = n + self.stsd.size();
        n = n + self.stts.size();
        n = n + size_nested_opt(&self.ctts);
        n = n + size_nested_opt(&self.cslg);
        n = n + self.stsc.size();
        n = n + size_nested_opt(&self.stsz);
        n = n + size_nested_opt(&self.stz2);
        n = n + size_nested_opt(&self.stco);
        n = n + size_nested_opt(&self.co64);
        n = n + size_nested_opt(&self.stss);
        n = n + size_nested_opt(&self.stsh);
        n = n + size_nested_opt(&self.padb);
        n = n + size_nested_opt(&self.stdp);
        n = n + size_nested_opt(&self.sdtp);
        n = n + size_nested_vec(&self.sbgp);
        n = n + size_nested_vec(&self.sgpd);
        n = n + size_nested_vec(&self.subs);
        n = n + size_nested_vec(&self.saiz);
        n = n + size_nested_vec(&self.saio);
        n = n + size_nested_vec(&self.csgp);
        add_header_size_exec(n)
    }
}

/// The fields of a stbl read so far.
pub struct SampleTableBoxScan {
    pub stsd: Option<SampleDescriptionBox>,
    pub stts: Option<TimeToSampleBox>,
    pub ctts: Option<CompositionOffsetBox>,
    pub cslg: Option<CompositionToDecodeBox>,
    pub stsc: Option<SampleToChunkBox>,
    pub stsz: Option<SampleSizeBox>,
    pub stz2: Option<CompactSampleSizeBox>,
    pub stco: Option<ChunkOffsetBox>,
    pub co64: Option<ChunkLargeOffsetBox>,
    pub stss: Option<SyncSampleBox>,
    pub stsh: Option<ShadowSyncSampleBox>,
    pub padb: Option<PaddingBitsBox>,
    pub stdp: Option<DegradationPriorityBox>,
    pub sdtp: Option<SampleDependencyTypeBox>,
    pub sbgp: Vec<SampleToGroupBox>,
    pub sgpd: Vec<SampleGroupDescriptionBox>,
    pub subs: Vec<SubSampleInformationBox>,
    pub saiz: Vec<SampleAuxiliaryInformationSizesBox>,
    pub saio: Vec<SampleAuxiliaryInformationOffsetsBox>,
    pub csgp: Vec<CompactSampleToGroupBox>,
}

/// The model of a [`SampleTableBoxScan`].
pub struct SampleTableBoxScanModel {
    pub stsd: Option<<SampleDescriptionBox as View>::V>,
    pub stts: Option<<TimeToSampleBox as View>::V>,
    pub ctts: Option<<CompositionOffsetBox as View>::V>,
    pub cslg: Option<<CompositionToDecodeBox as View>::V>,
    pub stsc: Option<<SampleToChunkBox as View>::V>,
    pub stsz: Option<<SampleSizeBox as View>::V>,
    pub stz2: Option<<CompactSampleSizeBox as View>::V>,
    pub stco: Option<<ChunkOffsetBox as View>::V>,
    pub co64: Option<<ChunkLargeOffsetBox as View>::V>,
    pub stss: Option<<SyncSampleBox as View>::V>,
    pub stsh: Option<<ShadowSyncSampleBox as View>::V>,
    pub padb: Option<<PaddingBitsBox as View>::V>,
    pub stdp: Option<<DegradationPriorityBox as View>::V>,
    pub sdtp: Option<<SampleDependencyTypeBox as View>::V>,
    pub sbgp: Seq<<SampleToGroupBox as View>::V>,
    pub sgpd: Seq<<SampleGroupDescriptionBox as View>::V>,
    pub subs: Seq<<SubSampleInformationBox as View>::V>,
    pub saiz: Seq<<SampleAuxiliaryInformationSizesBox as View>::V>,
    pub saio: Seq<<SampleAuxiliaryInformationOffsetsBox as View>::V>,
    pub csgp: Seq<<CompactSampleToGroupBox as View>::V>,
}

impl View for SampleTableBoxScan {
    type V = SampleTableBoxScanModel;

    open spec fn view(&self) -> SampleTableBoxScanModel {
        SampleTableBoxScanModel {
            stsd: opt_view(self.stsd),
            stts: opt_view(self.stts),
            ctts: opt_view(self.ctts),
            cslg: opt_view(self.cslg),
            stsc: opt_view(self.stsc),
            stsz: opt_view(self.stsz),
            stz2: opt_view(self.stz2),
            stco: opt_view(self.stco),
            co64: opt_view(self.co64),
            stss: opt_view(self.stss),
            stsh: opt_view(self.stsh),
            padb: opt_view(self.padb),
            stdp: opt_view(self.stdp),
            sdtp: opt_view(self.sdtp),
            sbgp: views(self.sbgp@),
            sgpd: views(self.sgpd@),
            subs: views(self.subs@),
            saiz: views(self.saiz@),
            saio: views(self.saio@),
            csgp: views(self.csgp@),
        }
    }
}

/// What a stbl holds after reading the boxes of `p`.
pub open spec fn stbl_prefix(p: Seq<UnknownBoxModel>) -> SampleTableBoxScanModel {
    SampleTableBoxScanModel {
        stsd: last_child::<SampleDescriptionBox>(p),
        stts: last_child::<TimeToSampleBox>(p),
        ctts: last_child::<CompositionOffsetBox>(p),
        cslg: last_child::<CompositionToDecodeBox>(p),
        stsc: last_child::<SampleToChunkBox>(p),
        stsz: last_child::<SampleSizeBox>(p),
        stz2: last_child::<CompactSampleSizeBox>(p),
        stco: last_child::<ChunkOffsetBox>(p),
        co64: last_child::<ChunkLargeOffsetBox>(p),
        stss: last_child::<SyncSampleBox>(p),
        stsh: last_child::<ShadowSyncSampleBox>(p),
        padb: last_child::<PaddingBitsBox>(p),
        stdp: last_child::<DegradationPriorityBox>(p),
        sdtp: last_child::<SampleDependencyTypeBox>(p),
        sbgp: collect_children::<SampleToGroupBox>(p),
        sgpd: collect_children::<SampleGroupDescriptionBox>(p),
        subs: collect_children::<SubSampleInformationBox>(p),
        saiz: collect_children::<SampleAuxiliaryInformationSizesBox>(p),
        saio: collect_children::<SampleAuxiliaryInformationOffsetsBox>(p),
        csgp: collect_children::<CompactSampleToGroupBox>(p),
    }
}

/// What a stbl holds after reading one more box that does not fail.
pub open spec fn stbl_extend(m: SampleTableBoxScanModel, c: UnknownBoxModel) -> SampleTableBoxScanModel {
    SampleTableBoxScanModel {
        stsd: match child_value::<SampleDescriptionBox>(c) {
            Some(v) => Some(v),
            None => m.stsd,
        },
        stts: match child_value::<TimeToSampleBox>(c) {
            Some(v) => Some(v),
            None => m.stts,
        },
        ctts: match child_value::<CompositionOffsetBox>(c) {
            Some(v) => Some(v),
            None => m.ctts,
        },
        cslg: match child_value::<CompositionToDecodeBox>(c) {
            Some(v) => Some(v),
            None => m.cslg,
        },
        stsc: match child_value::<SampleToChunkBox>(c) {
            Some(v) => Some(v),
            None => m.stsc,
        },
        stsz: match child_value::<SampleSizeBox>(c) {
            Some(v) => Some(v),
            None => m.stsz,
        },
        stz2: match child_value::<CompactSampleSizeBox>(c) {
            Some(v) => Some(v),
            None => m.stz2,
        },
        stco: match child_value::<ChunkOffsetBox>(c) {
            Some(v) => Some(v),
            None => m.stco,
        },
        co64: match child_value::<ChunkLargeOffsetBox>(c) {
            Some(v) => Some(v),
            None => m.co64,
        },
        stss: match child_value::<SyncSampleBox>(c) {
            Some(v) => Some(v),
            None => m.stss,
        },
        stsh: match child_value::<ShadowSyncSampleBox>(c) {
            Some(v) => Some(v),
            None => m.stsh,
        },
        padb: match child_value::<PaddingBitsBox>(c) {
            Some(v) => Some(v),
            None => m.padb,
        },
        stdp: match child_value::<DegradationPriorityBox>(c) {
            Some(v) => Some(v),
            None => m.stdp,
        },
        sdtp: match child_value::<SampleDependencyTypeBox>(c) {
            Some(v) => Some(v),
            None => m.sdtp,
        },
        sbgp: m.sbgp + opt_seq(child_value::<SampleToGroupBox>(c)),
        sgpd: m.sgpd + opt_seq(child_value::<SampleGroupDescriptionBox>(c)),
        subs: m.subs + opt_seq(child_value::<SubSampleInformationBox>(c)),
        saiz: m.saiz + opt_seq(child_value::<SampleAuxiliaryInformationSizesBox>(c)),
        saio: m.saio + opt_seq(child_value::<SampleAuxiliaryInformationOffsetsBox>(c)),
        csgp: m.csgp + opt_seq(child_value::<CompactSampleToGroupBox>(c)),
    }
}

/// The types that a stbl reads differ from one another.
pub open spec fn stbl_types_differ() -> bool {
    &&& SampleDescriptionBox::spec_box_type() != TimeToSampleBox::spec_box_type()
    &&& SampleDescriptionBox::spec_box_type() != CompositionOffsetBox::spec_box_type()
    &&& SampleDescriptionBox::spec_box_type() != CompositionToDecodeBox::spec_box_type()
    &&& SampleDescriptionBox::spec_box_type() != SampleToChunkBox::spec_box_type()
    &&& SampleDescriptionBox::spec_box_type() != SampleSizeBox::spec_box_type()
    &&& SampleDescriptionBox::spec_box_type() != CompactSampleSizeBox::spec_box_type()
    &&& SampleDescriptionBox::spec_box_type() != ChunkOffsetBox::spec_box_type()
    &&& SampleDescriptionBox::spec_box_type() != ChunkLargeOffsetBox::spec_box_type()
    &&& SampleDescriptionBox::spec_box_type() != SyncSampleBox::spec_box_type()
    &&& SampleDescriptionBox::spec_box_type() != ShadowSyncSampleBox::spec_box_type()
    &&& SampleDescriptionBox::spec_box_type() != PaddingBitsBox::spec_box_type()
    &&& SampleDescriptionBox::spec_box_type() != DegradationPriorityBox::spec_box_type()
    &&& SampleDescriptionBox::spec_box_type() != SampleDependencyTypeBox::spec_box_type()
    &&& SampleDescriptionBox::spec_box_type() != SampleToGroupBox::spec_box_type()
    &&& SampleDescriptionBox::spec_box_type() != SampleGroupDescriptionBox::spec_box_type()
    &&& SampleDescriptionBox::spec_box_type() != SubSampleInformationBox::spec_box_type()
    &&& SampleDescriptionBox::spec_box_type() != SampleAuxiliaryInformationSizesBox::spec_box_type()
    &&& SampleDescriptionBox::spec_box_type() != SampleAuxiliaryInformationOffsetsBox::spec_box_type()
    &&& SampleDescriptionBox::spec_box_type() != CompactSampleToGroupBox::spec_box_type()
    &&& TimeToSampleBox::spec_box_type() != CompositionOffsetBox::spec_box_type()
    &&& TimeToSampleBox::spec_box_type() != CompositionToDecodeBox::spec_box_type()
    &&& TimeToSampleBox::spec_box_type() != SampleToChunkBox::spec_box_type()
    &&& TimeToSampleBox::spec_box_type() != SampleSizeBox::spec_box_type()
    &&& TimeToSampleBox::spec_box_type() != CompactSampleSizeBox::spec_box_type()
    &&& TimeToSampleBox::spec_box_type() != ChunkOffsetBox::spec_box_type()
    &&& TimeToSampleBox::spec_box_type() != ChunkLargeOffsetBox::spec_box_type()
    &&& TimeToSampleBox::spec_box_type() != SyncSampleBox::spec_box_type()
    &&& TimeToSampleBox::spec_box_type() != ShadowSyncSampleBox::spec_box_type()
    &&& TimeToSampleBox::spec_box_type() != PaddingBitsBox::spec_box_type()
    &&& TimeToSampleBox::spec_box_type() != DegradationPriorityBox::spec_box_type()
    &&& TimeToSampleBox::spec_box_type() != SampleDependencyTypeBox::spec_box_type()
    &&& TimeToSampleBox::spec_box_type() != SampleToGroupBox::spec_box_type()
    &&& TimeToSampleBox::spec_box_type() != SampleGroupDescriptionBox::spec_box_type()
    &&& TimeToSampleBox::spec_box_type() != SubSampleInformationBox::spec_box_type()
    &&& TimeToSampleBox::spec_box_type() != SampleAuxiliaryInformationSizesBox::spec_box_type()
    &&& TimeToSampleBox::spec_box_type() != SampleAuxiliaryInformationOffsetsBox::spec_box_type()
    &&& TimeToSampleBox::spec_box_type() != CompactSampleToGroupBox::spec_box_type()
    &&& CompositionOffsetBox::spec_box_type() != CompositionToDecodeBox::spec_box_type()
    &&& CompositionOffsetBox::spec_box_type() != SampleToChunkBox::spec_box_type()
    &&& CompositionOffsetBox::spec_box_type() != SampleSizeBox::spec_box_type()
    &&& CompositionOffsetBox::spec_box_type() != CompactSampleSizeBox::spec_box_type()
    &&& CompositionOffsetBox::spec_box_type() != ChunkOffsetBox::spec_box_type()
    &&& CompositionOffsetBox::spec_box_type() != ChunkLargeOffsetBox::spec_box_type()
    &&& CompositionOffsetBox::spec_box_type() != SyncSampleBox::spec_box_type()
    &&& CompositionOffsetBox::spec_box_type() != ShadowSyncSampleBox::spec_box_type()
    &&& CompositionOffsetBox::spec_box_type() != PaddingBitsBox::spec_box_type()
    &&& CompositionOffsetBox::spec_box_type() != DegradationPriorityBox::spec_box_type()
    &&& CompositionOffsetBox::spec_box_type() != SampleDependencyTypeBox::spec_box_type()
    &&& CompositionOffsetBox::spec_box_type() != SampleToGroupBox::spec_box_type()
    &&& CompositionOffsetBox::spec_box_type() != SampleGroupDescriptionBox::spec_box_type()
    &&& CompositionOffsetBox::spec_box_type() != SubSampleInformationBox::spec_box_type()
    &&& CompositionOffsetBox::spec_box_type() != SampleAuxiliaryInformationSizesBox::spec_box_type()
    &&& CompositionOffsetBox::spec_box_type() != SampleAuxiliaryInformationOffsetsBox::spec_box_type()
    &&& CompositionOffsetBox::spec_box_type() != CompactSampleToGroupBox::spec_box_type()
    &&& CompositionToDecodeBox::spec_box_type() != SampleToChunkBox::spec_box_type()
    &&& CompositionToDecodeBox::spec_box_type() != SampleSizeBox::spec_box_type()
    &&& CompositionToDecodeBox::spec_box_type() != CompactSampleSizeBox::spec_box_type()
    &&& CompositionToDecodeBox::spec_box_type() != ChunkOffsetBox::spec_box_type()
    &&& CompositionToDecodeBox::spec_box_type() != ChunkLargeOffsetBox::spec_box_type()
    &&& CompositionToDecodeBox::spec_box_type() != SyncSampleBox::spec_box_type()
    &&& CompositionToDecodeBox::spec_box_type() != ShadowSyncSampleBox::spec_box_type()
    &&& CompositionToDecodeBox::spec_box_type() != PaddingBitsBox::spec_box_type()
    &&& CompositionToDecodeBox::spec_box_type() != DegradationPriorityBox::spec_box_type()
    &&& CompositionToDecodeBox::spec_box_type() != SampleDependencyTypeBox::spec_box_type()
    &&& CompositionToDecodeBox::spec_box_type() != SampleToGroupBox::spec_box_type()
    &&& CompositionToDecodeBox::spec_box_type() != SampleGroupDescriptionBox::spec_box_type()
    &&& CompositionToDecodeBox::spec_box_type() != SubSampleInformationBox::spec_box_type()
    &&& CompositionToDecodeBox::spec_box_type() != SampleAuxiliaryInformationSizesBox::spec_box_type()
    &&& CompositionToDecodeBox::spec_box_type() != SampleAuxiliaryInformationOffsetsBox::spec_box_type()
    &&& CompositionToDecodeBox::spec_box_type() != CompactSampleToGroupBox::spec_box_type()
    &&& SampleToChunkBox::spec_box_type() != SampleSizeBox::spec_box_type()
    &&& SampleToChunkBox::spec_box_type() != CompactSampleSizeBox::spec_box_type()
    &&& SampleToChunkBox::spec_box_type() != ChunkOffsetBox::spec_box_type()
    &&& SampleToChunkBox::spec_box_type() != ChunkLargeOffsetBox::spec_box_type()
    &&& SampleToChunkBox::spec_box_type() != SyncSampleBox::spec_box_type()
    &&& SampleToChunkBox::spec_box_type() != ShadowSyncSampleBox::spec_box_type()
    &&& SampleToChunkBox::spec_box_type() != PaddingBitsBox::spec_box_type()
    &&& SampleToChunkBox::spec_box_type() != DegradationPriorityBox::spec_box_type()
    &&& SampleToChunkBox::spec_box_type() != SampleDependencyTypeBox::spec_box_type()
    &&& SampleToChunkBox::spec_box_type() != SampleToGroupBox::spec_box_type()
    &&& SampleToChunkBox::spec_box_type() != SampleGroupDescriptionBox::spec_box_type()
    &&& SampleToChunkBox::spec_box_type() != SubSampleInformationBox::spec_box_type()
    &&& SampleToChunkBox::spec_box_type() != SampleAuxiliaryInformationSizesBox::spec_box_type()
    &&& SampleToChunkBox::spec_box_type() != SampleAuxiliaryInformationOffsetsBox::spec_box_type()
    &&& SampleToChunkBox::spec_box_type() != CompactSampleToGroupBox::spec_box_type()
    &&& SampleSizeBox::spec_box_type() != CompactSampleSizeBox::spec_box_type()
    &&& SampleSizeBox::spec_box_type() != ChunkOffsetBox::spec_box_type()
    &&& SampleSizeBox::spec_box_type() != ChunkLargeOffsetBox::spec_box_type()
    &&& SampleSizeBox::spec_box_type() != SyncSampleBox::spec_box_type()
    &&& SampleSizeBox::spec_box_type() != ShadowSyncSampleBox::spec_box_type()
    &&& SampleSizeBox::spec_box_type() != PaddingBitsBox::spec_box_type()
    &&& SampleSizeBox::spec_box_type() != DegradationPriorityBox::spec_box_type()
    &&& SampleSizeBox::spec_box_type() != SampleDependencyTypeBox::spec_box_type()
    &&& SampleSizeBox::spec_box_type() != SampleToGroupBox::spec_box_type()
    &&& SampleSizeBox::spec_box_type() != SampleGroupDescriptionBox::spec_box_type()
    &&& SampleSizeBox::spec_box_type() != SubSampleInformationBox::spec_box_type()
    &&& SampleSizeBox::spec_box_type() != SampleAuxiliaryInformationSizesBox::spec_box_type()
    &&& SampleSizeBox::spec_box_type() != SampleAuxiliaryInformationOffsetsBox::spec_box_type()
    &&& SampleSizeBox::spec_box_type() != CompactSampleToGroupBox::spec_box_type()
    &&& CompactSampleSizeBox::spec_box_type() != ChunkOffsetBox::spec_box_type()
    &&& CompactSampleSizeBox::spec_box_type() != ChunkLargeOffsetBox::spec_box_type()
    &&& CompactSampleSizeBox::spec_box_type() != SyncSampleBox::spec_box_type()
    &&& CompactSampleSizeBox::spec_box_type() != ShadowSyncSampleBox::spec_box_type()
    &&& CompactSampleSizeBox::spec_box_type() != PaddingBitsBox::spec_box_type()
    &&& CompactSampleSizeBox::spec_box_type() != DegradationPriorityBox::spec_box_type()
    &&& CompactSampleSizeBox::spec_box_type() != SampleDependencyTypeBox::spec_box_type()
    &&& CompactSampleSizeBox::spec_box_type() != SampleToGroupBox::spec_box_type()
    &&& CompactSampleSizeBox::spec_box_type() != SampleGroupDescriptionBox::spec_box_type()
    &&& CompactSampleSizeBox::spec_box_type() != SubSampleInformationBox::spec_box_type()
    &&& CompactSampleSizeBox::spec_box_type() != SampleAuxiliaryInformationSizesBox::spec_box_type()
    &&& CompactSampleSizeBox::spec_box_type() != SampleAuxiliaryInformationOffsetsBox::spec_box_type()
    &&& CompactSampleSizeBox::spec_box_type() != CompactSampleToGroupBox::spec_box_type()
    &&& ChunkOffsetBox::spec_box_type() != ChunkLargeOffsetBox::spec_box_type()
    &&& ChunkOffsetBox::spec_box_type() != SyncSampleBox::spec_box_type()
    &&& ChunkOffsetBox::spec_box_type() != ShadowSyncSampleBox::spec_box_type()
    &&& ChunkOffsetBox::spec_box_type() != PaddingBitsBox::spec_box_type()
    &&& ChunkOffsetBox::spec_box_type() != DegradationPriorityBox::spec_box_type()
    &&& ChunkOffsetBox::spec_box_type() != SampleDependencyTypeBox::spec_box_type()
    &&& ChunkOffsetBox::spec_box_type() != SampleToGroupBox::spec_box_type()
    &&& ChunkOffsetBox::spec_box_type() != SampleGroupDescriptionBox::spec_box_type()
    &&& ChunkOffsetBox::spec_box_type() != SubSampleInformationBox::spec_box_type()
    &&& ChunkOffsetBox::spec_box_type() != SampleAuxiliaryInformationSizesBox::spec_box_type()
    &&& ChunkOffsetBox::spec_box_type() != SampleAuxiliaryInformationOffsetsBox::spec_box_type()
    &&& ChunkOffsetBox::spec_box_type() != CompactSampleToGroupBox::spec_box_type()
    &&& ChunkLargeOffsetBox::spec_box_type() != SyncSampleBox::spec_box_type()
    &&& ChunkLargeOffsetBox::spec_box_type() != ShadowSyncSampleBox::spec_box_type()
    &&& ChunkLargeOffsetBox::spec_box_type() != PaddingBitsBox::spec_box_type()
    &&& ChunkLargeOffsetBox::spec_box_type() != DegradationPriorityBox::spec_box_type()
    &&& ChunkLargeOffsetBox::spec_box_type() != SampleDependencyTypeBox::spec_box_type()
    &&& ChunkLargeOffsetBox::spec_box_type() != SampleToGroupBox::spec_box_type()
    &&& ChunkLargeOffsetBox::spec_box_type() != SampleGroupDescriptionBox::spec_box_type()
    &&& ChunkLargeOffsetBox::spec_box_type() != SubSampleInformationBox::spec_box_type()
    &&& ChunkLargeOffsetBox::spec_box_type() != SampleAuxiliaryInformationSizesBox::spec_box_type()
    &&& ChunkLargeOffsetBox::spec_box_type() != SampleAuxiliaryInformationOffsetsBox::spec_box_type()
    &&& ChunkLargeOffsetBox::spec_box_type() != CompactSampleToGroupBox::spec_box_type()
    &&& SyncSampleBox::spec_box_type() != ShadowSyncSampleBox::spec_box_type()
    &&& SyncSampleBox::spec_box_type() != PaddingBitsBox::spec_box_type()
    &&& SyncSampleBox::spec_box_type() != DegradationPriorityBox::spec_box_type()
    &&& SyncSampleBox::spec_box_type() != SampleDependencyTypeBox::spec_box_type()
    &&& SyncSampleBox::spec_box_type() != SampleToGroupBox::spec_box_type()
    &&& SyncSampleBox::spec_box_type() != SampleGroupDescriptionBox::spec_box_type()
    &&& SyncSampleBox::spec_box_type() != SubSampleInformationBox::spec_box_type()
    &&& SyncSampleBox::spec_box_type() != SampleAuxiliaryInformationSizesBox::spec_box_type()
    &&& SyncSampleBox::spec_box_type() != SampleAuxiliaryInformationOffsetsBox::spec_box_type()
    &&& SyncSampleBox::spec_box_type() != CompactSampleToGroupBox::spec_box_type()
    &&& ShadowSyncSampleBox::spec_box_type() != PaddingBitsBox::spec_box_type()
    &&& ShadowSyncSampleBox::spec_box_type() != DegradationPriorityBox::spec_box_type()
    &&& ShadowSyncSampleBox::spec_box_type() != SampleDependencyTypeBox::spec_box_type()
    &&& ShadowSyncSampleBox::spec_box_type() != SampleToGroupBox::spec_box_type()
    &&& ShadowSyncSampleBox::spec_box_type() != SampleGroupDescriptionBox::spec_box_type()
    &&& ShadowSyncSampleBox::spec_box_type() != SubSampleInformationBox::spec_box_type()
    &&& ShadowSyncSampleBox::spec_box_type() != SampleAuxiliaryInformationSizesBox::spec_box_type()
    &&& ShadowSyncSampleBox::spec_box_type() != SampleAuxiliaryInformationOffsetsBox::spec_box_type()
    &&& ShadowSyncSampleBox::spec_box_type() != CompactSampleToGroupBox::spec_box_type()
    &&& PaddingBitsBox::spec_box_type() != DegradationPriorityBox::spec_box_type()
    &&& PaddingBitsBox::spec_box_type() != SampleDependencyTypeBox::spec_box_type()
    &&& PaddingBitsBox::spec_box_type() != SampleToGroupBox::spec_box_type()
    &&& PaddingBitsBox::spec_box_type() != SampleGroupDescriptionBox::spec_box_type()
    &&& PaddingBitsBox::spec_box_type() != SubSampleInformationBox::spec_box_type()
    &&& PaddingBitsBox::spec_box_type() != SampleAuxiliaryInformationSizesBox::spec_box_type()
    &&& PaddingBitsBox::spec_box_type() != SampleAuxiliaryInformationOffsetsBox::spec_box_type()
    &&& PaddingBitsBox::spec_box_type() != CompactSampleToGroupBox::spec_box_type()
    &&& DegradationPriorityBox::spec_box_type() != SampleDependencyTypeBox::spec_box_type()
    &&& DegradationPriorityBox::spec_box_type() != SampleToGroupBox::spec_box_type()
    &&& DegradationPriorityBox::spec_box_type() != SampleGroupDescriptionBox::spec_box_type()
    &&& DegradationPriorityBox::spec_box_type() != SubSampleInformationBox::spec_box_type()
    &&& DegradationPriorityBox::spec_box_type() != SampleAuxiliaryInformationSizesBox::spec_box_type()
    &&& DegradationPriorityBox::spec_box_type() != SampleAuxiliaryInformationOffsetsBox::spec_box_type()
    &&& DegradationPriorityBox::spec_box_type() != CompactSampleToGroupBox::spec_box_type()
    &&& SampleDependencyTypeBox::spec_box_type() != SampleToGroupBox::spec_box_type()
    &&& SampleDependencyTypeBox::spec_box_type() != SampleGroupDescriptionBox::spec_box_type()
    &&& SampleDependencyTypeBox::spec_box_type() != SubSampleInformationBox::spec_box_type()
    &&& SampleDependencyTypeBox::spec_box_type() != SampleAuxiliaryInformationSizesBox::spec_box_type()
    &&& SampleDependencyTypeBox::spec_box_type() != SampleAuxiliaryInformationOffsetsBox::spec_box_type()
    &&& SampleDependencyTypeBox::spec_box_type() != CompactSampleToGroupBox::spec_box_type()
    &&& SampleToGroupBox::spec_box_type() != SampleGroupDescriptionBox::spec_box_type()
    &&& SampleToGroupBox::spec_box_type() != SubSampleInformationBox::spec_box_type()
    &&& SampleToGroupBox::spec_box_type() != SampleAuxiliaryInformationSizesBox::spec_box_type()
    &&& SampleToGroupBox::spec_box_type() != SampleAuxiliaryInformationOffsetsBox::spec_box_type()
    &&& SampleToGroupBox::spec_box_type() != CompactSampleToGroupBox::spec_box_type()
    &&& SampleGroupDescriptionBox::spec_box_type() != SubSampleInformationBox::spec_box_type()
    &&& SampleGroupDescriptionBox::spec_box_type() != SampleAuxiliaryInformationSizesBox::spec_box_type()
    &&& SampleGroupDescriptionBox::spec_box_type() != SampleAuxiliaryInformationOffsetsBox::spec_box_type()
    &&& SampleGroupDescriptionBox::spec_box_type() != CompactSampleToGroupBox::spec_box_type()
    &&& SubSampleInformationBox::spec_box_type() != SampleAuxiliaryInformationSizesBox::spec_box_type()
    &&& SubSampleInformationBox::spec_box_type() != SampleAuxiliaryInformationOffsetsBox::spec_box_type()
    &&& SubSampleInformationBox::spec_box_type() != CompactSampleToGroupBox::spec_box_type()
    &&& SampleAuxiliaryInformationSizesBox::spec_box_type() != SampleAuxiliaryInformationOffsetsBox::spec_box_type()
    &&& SampleAuxiliaryInformationSizesBox::spec_box_type() != CompactSampleToGroupBox::spec_box_type()
    &&& SampleAuxiliaryInformationOffsetsBox::spec_box_type() != CompactSampleToGroupBox::spec_box_type()
}

proof fn lemma_stbl_types()
    ensures
        stbl_types_differ(),
{
    assert(SampleDescriptionBox::spec_box_type()[2] != TimeToSampleBox::spec_box_type()[2]);
    assert(SampleDescriptionBox::spec_box_type()[0] != CompositionOffsetBox::spec_box_type()[0]);
    assert(SampleDescriptionBox::spec_box_type()[0] != CompositionToDecodeBox::spec_box_type()[0]);
    assert(SampleDescriptionBox::spec_box_type()[3] != SampleToChunkBox::spec_box_type()[3]);
    assert(SampleDescriptionBox::spec_box_type()[3] != SampleSizeBox::spec_box_type()[3]);
    assert(SampleDescriptionBox::spec_box_type()[2] != CompactSampleSizeBox::spec_box_type()[2]);
    assert(SampleDescriptionBox::spec_box_type()[2] != ChunkOffsetBox::spec_box_type()[2]);
    assert(SampleDescriptionBox::spec_box_type()[0] != ChunkLargeOffsetBox::spec_box_type()[0]);
    assert(SampleDescriptionBox::spec_box_type()[3] != SyncSampleBox::spec_box_type()[3]);
    assert(SampleDescriptionBox::spec_box_type()[3] != ShadowSyncSampleBox::spec_box_type()[3]);
    assert(SampleDescriptionBox::spec_box_type()[0] != PaddingBitsBox::spec_box_type()[0]);
    assert(SampleDescriptionBox::spec_box_type()[2] != DegradationPriorityBox::spec_box_type()[2]);
    assert(SampleDescriptionBox::spec_box_type()[1] != SampleDependencyTypeBox::spec_box_type()[1]);
    assert(SampleDescriptionBox::spec_box_type()[1] != SampleToGroupBox::spec_box_type()[1]);
    assert(SampleDescriptionBox::spec_box_type()[1] != SampleGroupDescriptionBox::spec_box_type()[1]);
    assert(SampleDescriptionBox::spec_box_type()[1] != SubSampleInformationBox::spec_box_type()[1]);
    assert(SampleDescriptionBox::spec_box_type()[1] != SampleAuxiliaryInformationSizesBox::spec_box_type()[1]);
    assert(SampleDescriptionBox::spec_box_type()[1] != SampleAuxiliaryInformationOffsetsBox::spec_box_type()[1]);
    assert(SampleDescriptionBox::spec_box_type()[0] != CompactSampleToGroupBox::spec_box_type()[0]);
    assert(TimeToSampleBox::spec_box_type()[0] != CompositionOffsetBox::spec_box_type()[0]);
    assert(TimeToSampleBox::spec_box_type()[0] != CompositionToDecodeBox::spec_box_type()[0]);
    assert(TimeToSampleBox::spec_box_type()[2] != SampleToChunkBox::spec_box_type()[2]);
    assert(TimeToSampleBox::spec_box_type()[2] != SampleSizeBox::spec_box_type()[2]);
    assert(TimeToSampleBox::spec_box_type()[2] != CompactSampleSizeBox::spec_box_type()[2]);
    assert(TimeToSampleBox::spec_box_type()[2] != ChunkOffsetBox::spec_box_type()[2]);
    assert(TimeToSampleBox::spec_box_type()[0] != ChunkLargeOffsetBox::spec_box_type()[0]);
    assert(TimeToSampleBox::spec_box_type()[2] != SyncSampleBox::spec_box_type()[2]);
    assert(TimeToSampleBox::spec_box_type()[2] != ShadowSyncSampleBox::spec_box_type()[2]);
    assert(TimeToSampleBox::spec_box_type()[0] != PaddingBitsBox::spec_box_type()[0]);
    assert(TimeToSampleBox::spec_box_type()[2] != DegradationPriorityBox::spec_box_type()[2]);
    assert(TimeToSampleBox::spec_box_type()[1] != SampleDependencyTypeBox::spec_box_type()[1]);
    assert(TimeToSampleBox::spec_box_type()[1] != SampleToGroupBox::spec_box_type()[1]);
    assert(TimeToSampleBox::spec_box_type()[1] != SampleGroupDescriptionBox::spec_box_type()[1]);
    assert(TimeToSampleBox::spec_box_type()[1] != SubSampleInformationBox::spec_box_type()[1]);
    assert(TimeToSampleBox::spec_box_type()[1] != SampleAuxiliaryInformationSizesBox::spec_box_type()[1]);
    assert(TimeToSampleBox::spec_box_type()[1] != SampleAuxiliaryInformationOffsetsBox::spec_box_type()[1]);
    assert(TimeToSampleBox::spec_box_type()[0] != CompactSampleToGroupBox::spec_box_type()[0]);
    assert(CompositionOffsetBox::spec_box_type()[1] != CompositionToDecodeBox::spec_box_type()[1]);
    assert(CompositionOffsetBox::spec_box_type()[0] != SampleToChunkBox::spec_box_type()[0]);
    assert(CompositionOffsetBox::spec_box_type()[0] != SampleSizeBox::spec_box_type()[0]);
    assert(CompositionOffsetBox::spec_box_type()[0] != CompactSampleSizeBox::spec_box_type()[0]);
    assert(CompositionOffsetBox::spec_box_type()[0] != ChunkOffsetBox::spec_box_type()[0]);
    assert(CompositionOffsetBox::spec_box_type()[1] != ChunkLargeOffsetBox::spec_box_type()[1]);
    assert(CompositionOffsetBox::spec_box_type()[0] != SyncSampleBox::spec_box_type()[0]);
    assert(CompositionOffsetBox::spec_box_type()[0] != ShadowSyncSampleBox::spec_box_type()[0]);
    assert(CompositionOffsetBox::spec_box_type()[0] != PaddingBitsBox::spec_box_type()[0]);
    assert(CompositionOffsetBox::spec_box_type()[0] != DegradationPriorityBox::spec_box_type()[0]);
    assert(CompositionOffsetBox::spec_box_type()[0] != SampleDependencyTypeBox::spec_box_type()[0]);
    assert(CompositionOffsetBox::spec_box_type()[0] != SampleToGroupBox::spec_box_type()[0]);
    assert(CompositionOffsetBox::spec_box_type()[0] != SampleGroupDescriptionBox::spec_box_type()[0]);
    assert(CompositionOffsetBox::spec_box_type()[0] != SubSampleInformationBox::spec_box_type()[0]);
    assert(CompositionOffsetBox::spec_box_type()[0] != SampleAuxiliaryInformationSizesBox::spec_box_type()[0]);
    assert(CompositionOffsetBox::spec_box_type()[0] != SampleAuxiliaryInformationOffsetsBox::spec_box_type()[0]);
    assert(CompositionOffsetBox::spec_box_type()[1] != CompactSampleToGroupBox::spec_box_type()[1]);
    assert(CompositionToDecodeBox::spec_box_type()[0] != SampleToChunkBox::spec_box_type()[0]);
    assert(CompositionToDecodeBox::spec_box_type()[0] != SampleSizeBox::spec_box_type()[0]);
    assert(CompositionToDecodeBox::spec_box_type()[0] != CompactSampleSizeBox::spec_box_type()[0]);
    assert(CompositionToDecodeBox::spec_box_type()[0] != ChunkOffsetBox::spec_box_type()[0]);
    assert(CompositionToDecodeBox::spec_box_type()[1] != ChunkLargeOffsetBox::spec_box_type()[1]);
    assert(CompositionToDecodeBox::spec_box_type()[0] != SyncSampleBox::spec_box_type()[0]);
    assert(CompositionToDecodeBox::spec_box_type()[0] != ShadowSyncSampleBox::spec_box_type()[0]);
    assert(CompositionToDecodeBox::spec_box_type()[0] != PaddingBitsBox::spec_box_type()[0]);
    assert(CompositionToDecodeBox::spec_box_type()[0] != DegradationPriorityBox::spec_box_type()[0]);
    assert(CompositionToDecodeBox::spec_box_type()[0] != SampleDependencyTypeBox::spec_box_type()[0]);
    assert(CompositionToDecodeBox::spec_box_type()[0] != SampleToGroupBox::spec_box_type()[0]);
    assert(CompositionToDecodeBox::spec_box_type()[0] != SampleGroupDescriptionBox::spec_box_type()[0]);
    assert(CompositionToDecodeBox::spec_box_type()[0] != SubSampleInformationBox::spec_box_type()[0]);
    assert(CompositionToDecodeBox::spec_box_type()[0] != SampleAuxiliaryInformationSizesBox::spec_box_type()[0]);
    assert(CompositionToDecodeBox::spec_box_type()[0] != SampleAuxiliaryInformationOffsetsBox::spec_box_type()[0]);
    assert(CompositionToDecodeBox::spec_box_type()[2] != CompactSampleToGroupBox::spec_box_type()[2]);
    assert(SampleToChunkBox::spec_box_type()[3] != SampleSizeBox::spec_box_type()[3]);
    assert(SampleToChunkBox::spec_box_type()[2] != CompactSampleSizeBox::spec_box_type()[2]);
    assert(SampleToChunkBox::spec_box_type()[2] != ChunkOffsetBox::spec_box_type()[2]);
    assert(SampleToChunkBox::spec_box_type()[0] != ChunkLargeOffsetBox::spec_box_type()[0]);
    assert(SampleToChunkBox::spec_box_type()[3] != SyncSampleBox::spec_box_type()[3]);
    assert(SampleToChunkBox::spec_box_type()[3] != ShadowSyncSampleBox::spec_box_type()[3]);
    assert(SampleToChunkBox::spec_box_type()[0] != PaddingBitsBox::spec_box_type()[0]);
    assert(SampleToChunkBox::spec_box_type()[2] != DegradationPriorityBox::spec_box_type()[2]);
    assert(SampleToChunkBox::spec_box_type()[1] != SampleDependencyTypeBox::spec_box_type()[1]);
    assert(SampleToChunkBox::spec_box_type()[1] != SampleToGroupBox::spec_box_type()[1]);
    assert(SampleToChunkBox::spec_box_type()[1] != SampleGroupDescriptionBox::spec_box_type()[1]);
    assert(SampleToChunkBox::spec_box_type()[1] != SubSampleInformationBox::spec_box_type()[1]);
    assert(SampleToChunkBox::spec_box_type()[1] != SampleAuxiliaryInformationSizesBox::spec_box_type()[1]);
    assert(SampleToChunkBox::spec_box_type()[1] != SampleAuxiliaryInformationOffsetsBox::spec_box_type()[1]);
    assert(SampleToChunkBox::spec_box_type()[0] != CompactSampleToGroupBox::spec_box_type()[0]);
    assert(SampleSizeBox::spec_box_type()[2] != CompactSampleSizeBox::spec_box_type()[2]);
    assert(SampleSizeBox::spec_box_type()[2] != ChunkOffsetBox::spec_box_type()[2]);
    assert(SampleSizeBox::spec_box_type()[0] != ChunkLargeOffsetBox::spec_box_type()[0]);
    assert(SampleSizeBox::spec_box_type()[3] != SyncSampleBox::spec_box_type()[3]);
    assert(SampleSizeBox::spec_box_type()[3] != ShadowSyncSampleBox::spec_box_type()[3]);
    assert(SampleSizeBox::spec_box_type()[0] != PaddingBitsBox::spec_box_type()[0]);
    assert(SampleSizeBox::spec_box_type()[2] != DegradationPriorityBox::spec_box_type()[2]);
    assert(SampleSizeBox::spec_box_type()[1] != SampleDependencyTypeBox::spec_box_type()[1]);
    assert(SampleSizeBox::spec_box_type()[1] != SampleToGroupBox::spec_box_type()[1]);
    assert(SampleSizeBox::spec_box_type()[1] != SampleGroupDescriptionBox::spec_box_type()[1]);
    assert(SampleSizeBox::spec_box_type()[1] != SubSampleInformationBox::spec_box_type()[1]);
    assert(SampleSizeBox::spec_box_type()[1] != SampleAuxiliaryInformationSizesBox::spec_box_type()[1]);
    assert(SampleSizeBox::spec_box_type()[1] != SampleAuxiliaryInformationOffsetsBox::spec_box_type()[1]);
    assert(SampleSizeBox::spec_box_type()[0] != CompactSampleToGroupBox::spec_box_type()[0]);
    assert(CompactSampleSizeBox::spec_box_type()[2] != ChunkOffsetBox::spec_box_type()[2]);
    assert(CompactSampleSizeBox::spec_box_type()[0] != ChunkLargeOffsetBox::spec_box_type()[0]);
    assert(CompactSampleSizeBox::spec_box_type()[2] != SyncSampleBox::spec_box_type()[2]);
    assert(CompactSampleSizeBox::spec_box_type()[2] != ShadowSyncSampleBox::spec_box_type()[2]);
    assert(CompactSampleSizeBox::spec_box_type()[0] != PaddingBitsBox::spec_box_type()[0]);
    assert(CompactSampleSizeBox::spec_box_type()[2] != DegradationPriorityBox::spec_box_type()[2]);
    assert(CompactSampleSizeBox::spec_box_type()[1] != SampleDependencyTypeBox::spec_box_type()[1]);
    assert(CompactSampleSizeBox::spec_box_type()[1] != SampleToGroupBox::spec_box_type()[1]);
    assert(CompactSampleSizeBox::spec_box_type()[1] != SampleGroupDescriptionBox::spec_box_type()[1]);
    assert(CompactSampleSizeBox::spec_box_type()[1] != SubSampleInformationBox::spec_box_type()[1]);
    assert(CompactSampleSizeBox::spec_box_type()[1] != SampleAuxiliaryInformationSizesBox::spec_box_type()[1]);
    assert(CompactSampleSizeBox::spec_box_type()[1] != SampleAuxiliaryInformationOffsetsBox::spec_box_type()[1]);
    assert(CompactSampleSizeBox::spec_box_type()[0] != CompactSampleToGroupBox::spec_box_type()[0]);
    assert(ChunkOffsetBox::spec_box_type()[0] != ChunkLargeOffsetBox::spec_box_type()[0]);
    assert(ChunkOffsetBox::spec_box_type()[2] != SyncSampleBox::spec_box_type()[2]);
    assert(ChunkOffsetBox::spec_box_type()[2] != ShadowSyncSampleBox::spec_box_type()[2]);
    assert(ChunkOffsetBox::spec_box_type()[0] != PaddingBitsBox::spec_box_type()[0]);
    assert(ChunkOffsetBox::spec_box_type()[2] != DegradationPriorityBox::spec_box_type()[2]);
    assert(ChunkOffsetBox::spec_box_type()[1] != SampleDependencyTypeBox::spec_box_type()[1]);
    assert(ChunkOffsetBox::spec_box_type()[1] != SampleToGroupBox::spec_box_type()[1]);
    assert(ChunkOffsetBox::spec_box_type()[1] != SampleGroupDescriptionBox::spec_box_type()[1]);
    assert(ChunkOffsetBox::spec_box_type()[1] != SubSampleInformationBox::spec_box_type()[1]);
    assert(ChunkOffsetBox::spec_box_type()[1] != SampleAuxiliaryInformationSizesBox::spec_box_type()[1]);
    assert(ChunkOffsetBox::spec_box_type()[1] != SampleAuxiliaryInformationOffsetsBox::spec_box_type()[1]);
    assert(ChunkOffsetBox::spec_box_type()[0] != CompactSampleToGroupBox::spec_box_type()[0]);
    assert(ChunkLargeOffsetBox::spec_box_type()[0] != SyncSampleBox::spec_box_type()[0]);
    assert(ChunkLargeOffsetBox::spec_box_type()[0] != ShadowSyncSampleBox::spec_box_type()[0]);
    assert(ChunkLargeOffsetBox::spec_box_type()[0] != PaddingBitsBox::spec_box_type()[0]);
    assert(ChunkLargeOffsetBox::spec_box_type()[0] != DegradationPriorityBox::spec_box_type()[0]);
    assert(ChunkLargeOffsetBox::spec_box_type()[0] != SampleDependencyTypeBox::spec_box_type()[0]);
    assert(ChunkLargeOffsetBox::spec_box_type()[0] != SampleToGroupBox::spec_box_type()[0]);
    assert(ChunkLargeOffsetBox::spec_box_type()[0] != SampleGroupDescriptionBox::spec_box_type()[0]);
    assert(ChunkLargeOffsetBox::spec_box_type()[0] != SubSampleInformationBox::spec_box_type()[0]);
    assert(ChunkLargeOffsetBox::spec_box_type()[0] != SampleAuxiliaryInformationSizesBox::spec_box_type()[0]);
    assert(ChunkLargeOffsetBox::spec_box_type()[0] != SampleAuxiliaryInformationOffsetsBox::spec_box_type()[0]);
    assert(ChunkLargeOffsetBox::spec_box_type()[1] != CompactSampleToGroupBox::spec_box_type()[1]);
    assert(SyncSampleBox::spec_box_type()[3] != ShadowSyncSampleBox::spec_box_type()[3]);
    assert(SyncSampleBox::spec_box_type()[0] != PaddingBitsBox::spec_box_type()[0]);
    assert(SyncSampleBox::spec_box_type()[2] != DegradationPriorityBox::spec_box_type()[2]);
    assert(SyncSampleBox::spec_box_type()[1] != SampleDependencyTypeBox::spec_box_type()[1]);
    assert(SyncSampleBox::spec_box_type()[1] != SampleToGroupBox::spec_box_type()[1]);
    assert(SyncSampleBox::spec_box_type()[1] != SampleGroupDescriptionBox::spec_box_type()[1]);
    assert(SyncSampleBox::spec_box_type()[1] != SubSampleInformationBox::spec_box_type()[1]);
    assert(SyncSampleBox::spec_box_type()[1] != SampleAuxiliaryInformationSizesBox::spec_box_type()[1]);
    assert(SyncSampleBox::spec_box_type()[1] != SampleAuxiliaryInformationOffsetsBox::spec_box_type()[1]);
    assert(SyncSampleBox::spec_box_type()[0] != CompactSampleToGroupBox::spec_box_type()[0]);
    assert(ShadowSyncSampleBox::spec_box_type()[0] != PaddingBitsBox::spec_box_type()[0]);
    assert(ShadowSyncSampleBox::spec_box_type()[2] != DegradationPriorityBox::spec_box_type()[2]);
    assert(ShadowSyncSampleBox::spec_box_type()[1] != SampleDependencyTypeBox::spec_box_type()[1]);
    assert(ShadowSyncSampleBox::spec_box_type()[1] != SampleToGroupBox::spec_box_type()[1]);
    assert(ShadowSyncSampleBox::spec_box_type()[1] != SampleGroupDescriptionBox::spec_box_type()[1]);
    assert(ShadowSyncSampleBox::spec_box_type()[1] != SubSampleInformationBox::spec_box_type()[1]);
    assert(ShadowSyncSampleBox::spec_box_type()[1] != SampleAuxiliaryInformationSizesBox::spec_box_type()[1]);
    assert(ShadowSyncSampleBox::spec_box_type()[1] != SampleAuxiliaryInformationOffsetsBox::spec_box_type()[1]);
    assert(ShadowSyncSampleBox::spec_box_type()[0] != CompactSampleToGroupBox::spec_box_type()[0]);
    assert(PaddingBitsBox::spec_box_type()[0] != DegradationPriorityBox::spec_box_type()[0]);
    assert(PaddingBitsBox::spec_box_type()[0] != SampleDependencyTypeBox::spec_box_type()[0]);
    assert(PaddingBitsBox::spec_box_type()[0] != SampleToGroupBox::spec_box_type()[0]);
    assert(PaddingBitsBox::spec_box_type()[0] != SampleGroupDescriptionBox::spec_box_type()[0]);
    assert(PaddingBitsBox::spec_box_type()[0] != SubSampleInformationBox::spec_box_type()[0]);
    assert(PaddingBitsBox::spec_box_type()[0] != SampleAuxiliaryInformationSizesBox::spec_box_type()[0]);
    assert(PaddingBitsBox::spec_box_type()[0] != SampleAuxiliaryInformationOffsetsBox::spec_box_type()[0]);
    assert(PaddingBitsBox::spec_box_type()[0] != CompactSampleToGroupBox::spec_box_type()[0]);
    assert(DegradationPriorityBox::spec_box_type()[1] != SampleDependencyTypeBox::spec_box_type()[1]);
    assert(DegradationPriorityBox::spec_box_type()[1] != SampleToGroupBox::spec_box_type()[1]);
    assert(DegradationPriorityBox::spec_box_type()[1] != SampleGroupDescriptionBox::spec_box_type()[1]);
    assert(DegradationPriorityBox::spec_box_type()[1] != SubSampleInformationBox::spec_box_type()[1]);
    assert(DegradationPriorityBox::spec_box_type()[1] != SampleAuxiliaryInformationSizesBox::spec_box_type()[1]);
    assert(DegradationPriorityBox::spec_box_type()[1] != SampleAuxiliaryInformationOffsetsBox::spec_box_type()[1]);
    assert(DegradationPriorityBox::spec_box_type()[0] != CompactSampleToGroupBox::spec_box_type()[0]);
    assert(SampleDependencyTypeBox::spec_box_type()[1] != SampleToGroupBox::spec_box_type()[1]);
    assert(SampleDependencyTypeBox::spec_box_type()[1] != SampleGroupDescriptionBox::spec_box_type()[1]);
    assert(SampleDependencyTypeBox::spec_box_type()[1] != SubSampleInformationBox::spec_box_type()[1]);
    assert(SampleDependencyTypeBox::spec_box_type()[1] != SampleAuxiliaryInformationSizesBox::spec_box_type()[1]);
    assert(SampleDependencyTypeBox::spec_box_type()[1] != SampleAuxiliaryInformationOffsetsBox::spec_box_type()[1]);
    assert(SampleDependencyTypeBox::spec_box_type()[0] != CompactSampleToGroupBox::spec_box_type()[0]);
    assert(SampleToGroupBox::spec_box_type()[1] != SampleGroupDescriptionBox::spec_box_type()[1]);
    assert(SampleToGroupBox::spec_box_type()[1] != SubSampleInformationBox::spec_box_type()[1]);
    assert(SampleToGroupBox::spec_box_type()[1] != SampleAuxiliaryInformationSizesBox::spec_box_type()[1]);
    assert(SampleToGroupBox::spec_box_type()[1] != SampleAuxiliaryInformationOffsetsBox::spec_box_type()[1]);
    assert(SampleToGroupBox::spec_box_type()[0] != CompactSampleToGroupBox::spec_box_type()[0]);
    assert(SampleGroupDescriptionBox::spec_box_type()[1] != SubSampleInformationBox::spec_box_type()[1]);
    assert(SampleGroupDescriptionBox::spec_box_type()[1] != SampleAuxiliaryInformationSizesBox::spec_box_type()[1]);
    assert(SampleGroupDescriptionBox::spec_box_type()[1] != SampleAuxiliaryInformationOffsetsBox::spec_box_type()[1]);
    assert(SampleGroupDescriptionBox::spec_box_type()[0] != CompactSampleToGroupBox::spec_box_type()[0]);
    assert(SubSampleInformationBox::spec_box_type()[1] != SampleAuxiliaryInformationSizesBox::spec_box_type()[1]);
    assert(SubSampleInformationBox::spec_box_type()[1] != SampleAuxiliaryInformationOffsetsBox::spec_box_type()[1]);
    assert(SubSampleInformationBox::spec_box_type()[0] != CompactSampleToGroupBox::spec_box_type()[0]);
    assert(SampleAuxiliaryInformationSizesBox::spec_box_type()[3] != SampleAuxiliaryInformationOffsetsBox::spec_box_type()[3]);
    assert(SampleAuxiliaryInformationSizesBox::spec_box_type()[0] != CompactSampleToGroupBox::spec_box_type()[0]);
    assert(SampleAuxiliaryInformationOffsetsBox::spec_box_type()[0] != CompactSampleToGroupBox::spec_box_type()[0]);
}

/// Reads one box found in a stbl into its field.
#[verifier::spinoff_prover]
#[verifier::rlimit(100)]
fn stbl_step(c: &UnknownBox, acc: &mut SampleTableBoxScan) -> (r: Result<(), IsoError>)
    requires
        stbl_types_differ(),
    ensures
        match r {
            Ok(()) => stbl_fault(c@) is None && final(acc)@ == stbl_extend(old(acc)@, c@),
            Err(e) => stbl_fault(c@) == Some(e) && final(acc)@ == old(acc)@,
        },
{
    if is_child_exec::<SampleDescriptionBox>(c) {
        proof {
            lemma_child_other::<TimeToSampleBox>(c@);
            lemma_child_other::<CompositionOffsetBox>(c@);
            lemma_child_other::<CompositionToDecodeBox>(c@);
            lemma_child_other::<SampleToChunkBox>(c@);
            lemma_child_other::<SampleSizeBox>(c@);
            lemma_child_other::<CompactSampleSizeBox>(c@);
            lemma_child_other::<ChunkOffsetBox>(c@);
            lemma_child_other::<ChunkLargeOffsetBox>(c@);
            lemma_child_other::<SyncSampleBox>(c@);
            lemma_child_other::<ShadowSyncSampleBox>(c@);
            lemma_child_other::<PaddingBitsBox>(c@);
            lemma_child_other::<DegradationPriorityBox>(c@);
            lemma_child_other::<SampleDependencyTypeBox>(c@);
            lemma_child_other::<SampleToGroupBox>(c@);
            lemma_child_other::<SampleGroupDescriptionBox>(c@);
            lemma_child_other::<SubSampleInformationBox>(c@);
            lemma_child_other::<SampleAuxiliaryInformationSizesBox>(c@);
            lemma_child_other::<SampleAuxiliaryInformationOffsetsBox>(c@);
            lemma_child_other::<CompactSampleToGroupBox>(c@);
            lemma_child_read::<SampleDescriptionBox>(c@);
        }
        let r = replace_into(c, &mut acc.stsd);
        proof {
            if r is Err {
                assert(acc@ =~= old(acc)@);
            }
            if r is Ok {
                assert(opt_seq(child_value::<SampleToGroupBox>(c@)) =~= Seq::<<SampleToGroupBox as View>::V>::empty());
                assert(opt_seq(child_value::<SampleGroupDescriptionBox>(c@)) =~= Seq::<<SampleGroupDescriptionBox as View>::V>::empty());
                assert(opt_seq(child_value::<SubSampleInformationBox>(c@)) =~= Seq::<<SubSampleInformationBox as View>::V>::empty());
                assert(opt_seq(child_value::<SampleAuxiliaryInformationSizesBox>(c@)) =~= Seq::<<SampleAuxiliaryInformationSizesBox as View>::V>::empty());
                assert(opt_seq(child_value::<SampleAuxiliaryInformationOffsetsBox>(c@)) =~= Seq::<<SampleAuxiliaryInformationOffsetsBox as View>::V>::empty());
                assert(opt_seq(child_value::<CompactSampleToGroupBox>(c@)) =~= Seq::<<CompactSampleToGroupBox as View>::V>::empty());
                assert(acc@ =~= stbl_extend(old(acc)@, c@));
            }
        }
        r
    } else if is_child_exec::<TimeToSampleBox>(c) {
        proof {
            lemma_child_other::<SampleDescriptionBox>(c@);
            lemma_child_other::<CompositionOffsetBox>(c@);
            lemma_child_other::<CompositionToDecodeBox>(c@);
            lemma_child_other::<SampleToChunkBox>(c@);
            lemma_child_other::<SampleSizeBox>(c@);
            lemma_child_other::<CompactSampleSizeBox>(c@);
            lemma_child_other::<ChunkOffsetBox>(c@);
            lemma_child_other::<ChunkLargeOffsetBox>(c@);
            lemma_child_other::<SyncSampleBox>(c@);
            lemma_child_other::<ShadowSyncSampleBox>(c@);
            lemma_child_other::<PaddingBitsBox>(c@);
            lemma_child_other::<DegradationPriorityBox>(c@);
            lemma_child_other::<SampleDependencyTypeBox>(c@);
            lemma_child_other::<SampleToGroupBox>(c@);
            lemma_child_other::<SampleGroupDescriptionBox>(c@);
            lemma_child_other::<SubSampleInformationBox>(c@);
            lemma_child_other::<SampleAuxiliaryInformationSizesBox>(c@);
            lemma_child_other::<SampleAuxiliaryInformationOffsetsBox>(c@);
            lemma_child_other::<CompactSampleToGroupBox>(c@);
            lemma_child_read::<TimeToSampleBox>(c@);
        }
        let r = replace_into(c, &mut acc.stts);
        proof {
            if r is Err {
                assert(acc@ =~= old(acc)@);
            }
            if r is Ok {
                assert(opt_seq(child_value::<SampleToGroupBox>(c@)) =~= Seq::<<SampleToGroupBox as View>::V>::empty());
                assert(opt_seq(child_value::<SampleGroupDescriptionBox>(c@)) =~= Seq::<<SampleGroupDescriptionBox as View>::V>::empty());
                assert(opt_seq(child_value::<SubSampleInformationBox>(c@)) =~= Seq::<<SubSampleInformationBox as View>::V>::empty());
                assert(opt_seq(child_value::<SampleAuxiliaryInformationSizesBox>(c@)) =~= Seq::<<SampleAuxiliaryInformationSizesBox as View>::V>::empty());
                assert(opt_seq(child_value::<SampleAuxiliaryInformationOffsetsBox>(c@)) =~= Seq::<<SampleAuxiliaryInformationOffsetsBox as View>::V>::empty());
                assert(opt_seq(child_value::<CompactSampleToGroupBox>(c@)) =~= Seq::<<CompactSampleToGroupBox as View>::V>::empty());
                assert(acc@ =~= stbl_extend(old(acc)@, c@));
            }
        }
        r
    } else if is_child_exec::<CompositionOffsetBox>(c) {
        proof {
            lemma_child_other::<SampleDescriptionBox>(c@);
            lemma_child_other::<TimeToSampleBox>(c@);
            lemma_child_other::<CompositionToDecodeBox>(c@);
            lemma_child_other::<SampleToChunkBox>(c@);
            lemma_child_other::<SampleSizeBox>(c@);
            lemma_child_other::<CompactSampleSizeBox>(c@);
            lemma_child_other::<ChunkOffsetBox>(c@);
            lemma_child_other::<ChunkLargeOffsetBox>(c@);
            lemma_child_other::<SyncSampleBox>(c@);
            lemma_child_other::<ShadowSyncSampleBox>(c@);
            lemma_child_other::<PaddingBitsBox>(c@);
            lemma_child_other::<DegradationPriorityBox>(c@);
            lemma_child_other::<SampleDependencyTypeBox>(c@);
            lemma_child_other::<SampleToGroupBox>(c@);
            lemma_child_other::<SampleGroupDescriptionBox>(c@);
            lemma_child_other::<SubSampleInformationBox>(c@);
            lemma_child_other::<SampleAuxiliaryInformationSizesBox>(c@);
            lemma_child_other::<SampleAuxiliaryInformationOffsetsBox>(c@);
            lemma_child_other::<CompactSampleToGroupBox>(c@);
            lemma_child_read::<CompositionOffsetBox>(c@);
        }
        let r = replace_into(c, &mut acc.ctts);
        proof {
            if r is Err {
                assert(acc@ =~= old(acc)@);
            }
            if r is Ok {
                assert(opt_seq(child_value::<SampleToGroupBox>(c@)) =~= Seq::<<SampleToGroupBox as View>::V>::empty());
                assert(opt_seq(child_value::<SampleGroupDescriptionBox>(c@)) =~= Seq::<<SampleGroupDescriptionBox as View>::V>::empty());
                assert(opt_seq(child_value::<SubSampleInformationBox>(c@)) =~= Seq::<<SubSampleInformationBox as View>::V>::empty());
                assert(opt_seq(child_value::<SampleAuxiliaryInformationSizesBox>(c@)) =~= Seq::<<SampleAuxiliaryInformationSizesBox as View>::V>::empty());
                assert(opt_seq(child_value::<SampleAuxiliaryInformationOffsetsBox>(c@)) =~= Seq::<<SampleAuxiliaryInformationOffsetsBox as View>::V>::empty());
                assert(opt_seq(child_value::<CompactSampleToGroupBox>(c@)) =~= Seq::<<CompactSampleToGroupBox as View>::V>::empty());
                assert(acc@ =~= stbl_extend(old(acc)@, c@));
            }
        }
        r
    } else if is_child_exec::<CompositionToDecodeBox>(c) {
        proof {
            lemma_child_other::<SampleDescriptionBox>(c@);
            lemma_child_other::<TimeToSampleBox>(c@);
            lemma_child_other::<CompositionOffsetBox>(c@);
            lemma_child_other::<SampleToChunkBox>(c@);
            lemma_child_other::<SampleSizeBox>(c@);
            lemma_child_other::<CompactSampleSizeBox>(c@);
            lemma_child_other::<ChunkOffsetBox>(c@);
            lemma_child_other::<ChunkLargeOffsetBox>(c@);
            lemma_child_other::<SyncSampleBox>(c@);
            lemma_child_other::<ShadowSyncSampleBox>(c@);
            lemma_child_other::<PaddingBitsBox>(c@);
            lemma_child_other::<DegradationPriorityBox>(c@);
            lemma_child_other::<SampleDependencyTypeBox>(c@);
            lemma_child_other::<SampleToGroupBox>(c@);
            lemma_child_other::<SampleGroupDescriptionBox>(c@);
            lemma_child_other::<SubSampleInformationBox>(c@);
            lemma_child_other::<SampleAuxiliaryInformationSizesBox>(c@);
            lemma_child_other::<SampleAuxiliaryInformationOffsetsBox>(c@);
            lemma_child_other::<CompactSampleToGroupBox>(c@);
            lemma_child_read::<CompositionToDecodeBox>(c@);
        }
        let r = replace_into(c, &mut acc.cslg);
        proof {
            if r is Err {
                assert(acc@ =~= old(acc)@);
            }
            if r is Ok {
                assert(opt_seq(child_value::<SampleToGroupBox>(c@)) =~= Seq::<<SampleToGroupBox as View>::V>::empty());
                assert(opt_seq(child_value::<SampleGroupDescriptionBox>(c@)) =~= Seq::<<SampleGroupDescriptionBox as View>::V>::empty());
                assert(opt_seq(child_value::<SubSampleInformationBox>(c@)) =~= Seq::<<SubSampleInformationBox as View>::V>::empty());
                assert(opt_seq(child_value::<SampleAuxiliaryInformationSizesBox>(c@)) =~= Seq::<<SampleAuxiliaryInformationSizesBox as View>::V>::empty());
                assert(opt_seq(child_value::<SampleAuxiliaryInformationOffsetsBox>(c@)) =~= Seq::<<SampleAuxiliaryInformationOffsetsBox as View>::V>::empty());
                assert(opt_seq(child_value::<CompactSampleToGroupBox>(c@)) =~= Seq::<<CompactSampleToGroupBox as View>::V>::empty());
                assert(acc@ =~= stbl_extend(old(acc)@, c@));
            }
        }
        r
    } else if is_child_exec::<SampleToChunkBox>(c) {
        proof {
            lemma_child_other::<SampleDescriptionBox>(c@);
            lemma_child_other::<TimeToSampleBox>(c@);
            lemma_child_other::<CompositionOffsetBox>(c@);
            lemma_child_other::<CompositionToDecodeBox>(c@);
            lemma_child_other::<SampleSizeBox>(c@);
            lemma_child_other::<CompactSampleSizeBox>(c@);
            lemma_child_other::<ChunkOffsetBox>(c@);
            lemma_child_other::<ChunkLargeOffsetBox>(c@);
            lemma_child_other::<SyncSampleBox>(c@);
            lemma_child_other::<ShadowSyncSampleBox>(c@);
            lemma_child_other::<PaddingBitsBox>(c@);
            lemma_child_other::<DegradationPriorityBox>(c@);
            lemma_child_other::<SampleDependencyTypeBox>(c@);
            lemma_child_other::<SampleToGroupBox>(c@);
            lemma_child_other::<SampleGroupDescriptionBox>(c@);
            lemma_child_other::<SubSampleInformationBox>(c@);
            lemma_child_other::<SampleAuxiliaryInformationSizesBox>(c@);
            lemma_child_other::<SampleAuxiliaryInformationOffsetsBox>(c@);
            lemma_child_other::<CompactSampleToGroupBox>(c@);
            lemma_child_read::<SampleToChunkBox>(c@);
        }
        let r = replace_into(c, &mut acc.stsc);
        proof {
            if r is Err {
                assert(acc@ =~= old(acc)@);
            }
            if r is Ok {
                assert(opt_seq(child_value::<SampleToGroupBox>(c@)) =~= Seq::<<SampleToGroupBox as View>::V>::empty());
                assert(opt_seq(child_value::<SampleGroupDescriptionBox>(c@)) =~= Seq::<<SampleGroupDescriptionBox as View>::V>::empty());
                assert(opt_seq(child_value::<SubSampleInformationBox>(c@)) =~= Seq::<<SubSampleInformationBox as View>::V>::empty());
                assert(opt_seq(child_value::<SampleAuxiliaryInformationSizesBox>(c@)) =~= Seq::<<SampleAuxiliaryInformationSizesBox as View>::V>::empty());
                assert(opt_seq(child_value::<SampleAuxiliaryInformationOffsetsBox>(c@)) =~= Seq::<<SampleAuxiliaryInformationOffsetsBox as View>::V>::empty());
                assert(opt_seq(child_value::<CompactSampleToGroupBox>(c@)) =~= Seq::<<CompactSampleToGroupBox as View>::V>::empty());
                assert(acc@ =~= stbl_extend(old(acc)@, c@));
            }
        }
        r
    } else if is_child_exec::<SampleSizeBox>(c) {
        proof {
            lemma_child_other::<SampleDescriptionBox>(c@);
            lemma_child_other::<TimeToSampleBox>(c@);
            lemma_child_other::<CompositionOffsetBox>(c@);
            lemma_child_other::<CompositionToDecodeBox>(c@);
            lemma_child_other::<SampleToChunkBox>(c@);
            lemma_child_other::<CompactSampleSizeBox>(c@);
            lemma_child_other::<ChunkOffsetBox>(c@);
            lemma_child_other::<ChunkLargeOffsetBox>(c@);
            lemma_child_other::<SyncSampleBox>(c@);
            lemma_child_other::<ShadowSyncSampleBox>(c@);
            lemma_child_other::<PaddingBitsBox>(c@);
            lemma_child_other::<DegradationPriorityBox>(c@);
            lemma_child_other::<SampleDependencyTypeBox>(c@);
            lemma_child_other::<SampleToGroupBox>(c@);
            lemma_child_other::<SampleGroupDescriptionBox>(c@);
            lemma_child_other::<SubSampleInformationBox>(c@);
            lemma_child_other::<SampleAuxiliaryInformationSizesBox>(c@);
            lemma_child_other::<SampleAuxiliaryInformationOffsetsBox>(c@);
            lemma_child_other::<CompactSampleToGroupBox>(c@);
            lemma_child_read::<SampleSizeBox>(c@);
        }
        let r = replace_into(c, &mut acc.stsz);
        proof {
            if r is Err {
                assert(acc@ =~= old(acc)@);
            }
            if r is Ok {
                assert(opt_seq(child_value::<SampleToGroupBox>(c@)) =~= Seq::<<SampleToGroupBox as View>::V>::empty());
                assert(opt_seq(child_value::<SampleGroupDescriptionBox>(c@)) =~= Seq::<<SampleGroupDescriptionBox as View>::V>::empty());
                assert(opt_seq(child_value::<SubSampleInformationBox>(c@)) =~= Seq::<<SubSampleInformationBox as View>::V>::empty());
                assert(opt_seq(child_value::<SampleAuxiliaryInformationSizesBox>(c@)) =~= Seq::<<SampleAuxiliaryInformationSizesBox as View>::V>::empty());
                assert(opt_seq(child_value::<SampleAuxiliaryInformationOffsetsBox>(c@)) =~= Seq::<<SampleAuxiliaryInformationOffsetsBox as View>::V>::empty());
                assert(opt_seq(child_value::<CompactSampleToGroupBox>(c@)) =~= Seq::<<CompactSampleToGroupBox as View>::V>::empty());
                assert(acc@ =~= stbl_extend(old(acc)@, c@));
            }
        }
        r
    } else if is_child_exec::<CompactSampleSizeBox>(c) {
        proof {
            lemma_child_other::<SampleDescriptionBox>(c@);
            lemma_child_other::<TimeToSampleBox>(c@);
            lemma_child_other::<CompositionOffsetBox>(c@);
            lemma_child_other::<CompositionToDecodeBox>(c@);
            lemma_child_other::<SampleToChunkBox>(c@);
            lemma_child_other::<SampleSizeBox>(c@);
            lemma_child_other::<ChunkOffsetBox>(c@);
            lemma_child_other::<ChunkLargeOffsetBox>(c@);
            lemma_child_other::<SyncSampleBox>(c@);
            lemma_child_other::<ShadowSyncSampleBox>(c@);
            lemma_child_other::<PaddingBitsBox>(c@);
            lemma_child_other::<DegradationPriorityBox>(c@);
            lemma_child_other::<SampleDependencyTypeBox>(c@);
            lemma_child_other::<SampleToGroupBox>(c@);
            lemma_child_other::<SampleGroupDescriptionBox>(c@);
            lemma_child_other::<SubSampleInformationBox>(c@);
            lemma_child_other::<SampleAuxiliaryInformationSizesBox>(c@);
            lemma_child_other::<SampleAuxiliaryInformationOffsetsBox>(c@);
            lemma_child_other::<CompactSampleToGroupBox>(c@);
            lemma_child_read::<CompactSampleSizeBox>(c@);
        }
        let r = replace_into(c, &mut acc.stz2);
        proof {
            if r is Err {
                assert(acc@ =~= old(acc)@);
            }
            if r is Ok {
                assert(opt_seq(child_value::<SampleToGroupBox>(c@)) =~= Seq::<<SampleToGroupBox as View>::V>::empty());
                assert(opt_seq(child_value::<SampleGroupDescriptionBox>(c@)) =~= Seq::<<SampleGroupDescriptionBox as View>::V>::empty());
                assert(opt_seq(child_value::<SubSampleInformationBox>(c@)) =~= Seq::<<SubSampleInformationBox as View>::V>::empty());
                assert(opt_seq(child_value::<SampleAuxiliaryInformationSizesBox>(c@)) =~= Seq::<<SampleAuxiliaryInformationSizesBox as View>::V>::empty());
                assert(opt_seq(child_value::<SampleAuxiliaryInformationOffsetsBox>(c@)) =~= Seq::<<SampleAuxiliaryInformationOffsetsBox as View>::V>::empty());
                assert(opt_seq(child_value::<CompactSampleToGroupBox>(c@)) =~= Seq::<<CompactSampleToGroupBox as View>::V>::empty());
                assert(acc@ =~= stbl_extend(old(acc)@, c@));
            }
        }
        r
    } else if is_child_exec::<ChunkOffsetBox>(c) {
        proof {
            lemma_child_other::<SampleDescriptionBox>(c@);
            lemma_child_other::<TimeToSampleBox>(c@);
            lemma_child_other::<CompositionOffsetBox>(c@);
            lemma_child_other::<CompositionToDecodeBox>(c@);
            lemma_child_other::<SampleToChunkBox>(c@);
            lemma_child_other::<SampleSizeBox>(c@);
            lemma_child_other::<CompactSampleSizeBox>(c@);
            lemma_child_other::<ChunkLargeOffsetBox>(c@);
            lemma_child_other::<SyncSampleBox>(c@);
            lemma_child_other::<ShadowSyncSampleBox>(c@);
            lemma_child_other::<PaddingBitsBox>(c@);
            lemma_child_other::<DegradationPriorityBox>(c@);
            lemma_child_other::<SampleDependencyTypeBox>(c@);
            lemma_child_other::<SampleToGroupBox>(c@);
            lemma_child_other::<SampleGroupDescriptionBox>(c@);
            lemma_child_other::<SubSampleInformationBox>(c@);
            lemma_child_other::<SampleAuxiliaryInformationSizesBox>(c@);
            lemma_child_other::<SampleAuxiliaryInformationOffsetsBox>(c@);
            lemma_child_other::<CompactSampleToGroupBox>(c@);
            lemma_child_read::<ChunkOffsetBox>(c@);
        }
        let r = replace_into(c, &mut acc.stco);
        proof {
            if r is Err {
                assert(acc@ =~= old(acc)@);
            }
            if r is Ok {
                assert(opt_seq(child_value::<SampleToGroupBox>(c@)) =~= Seq::<<SampleToGroupBox as View>::V>::empty());
                assert(opt_seq(child_value::<SampleGroupDescriptionBox>(c@)) =~= Seq::<<SampleGroupDescriptionBox as View>::V>::empty());
                assert(opt_seq(child_value::<SubSampleInformationBox>(c@)) =~= Seq::<<SubSampleInformationBox as View>::V>::empty());
                assert(opt_seq(child_value::<SampleAuxiliaryInformationSizesBox>(c@)) =~= Seq::<<SampleAuxiliaryInformationSizesBox as View>::V>::empty());
                assert(opt_seq(child_value::<SampleAuxiliaryInformationOffsetsBox>(c@)) =~= Seq::<<SampleAuxiliaryInformationOffsetsBox as View>::V>::empty());
                assert(opt_seq(child_value::<CompactSampleToGroupBox>(c@)) =~= Seq::<<CompactSampleToGroupBox as View>::V>::empty());
                assert(acc@ =~= stbl_extend(old(acc)@, c@));
            }
        }
        r
    } else if is_child_exec::<ChunkLargeOffsetBox>(c) {
        proof {
            lemma_child_other::<SampleDescriptionBox>(c@);
            lemma_child_other::<TimeToSampleBox>(c@);
            lemma_child_other::<CompositionOffsetBox>(c@);
            lemma_child_other::<CompositionToDecodeBox>(c@);
            lemma_child_other::<SampleToChunkBox>(c@);
            lemma_child_other::<SampleSizeBox>(c@);
            lemma_child_other::<CompactSampleSizeBox>(c@);
            lemma_child_other::<ChunkOffsetBox>(c@);
            lemma_child_other::<SyncSampleBox>(c@);
            lemma_child_other::<ShadowSyncSampleBox>(c@);
            lemma_child_other::<PaddingBitsBox>(c@);
            lemma_child_other::<DegradationPriorityBox>(c@);
            lemma_child_other::<SampleDependencyTypeBox>(c@);
            lemma_child_other::<SampleToGroupBox>(c@);
            lemma_child_other::<SampleGroupDescriptionBox>(c@);
            lemma_child_other::<SubSampleInformationBox>(c@);
            lemma_child_other::<SampleAuxiliaryInformationSizesBox>(c@);
            lemma_child_other::<SampleAuxiliaryInformationOffsetsBox>(c@);
            lemma_child_other::<CompactSampleToGroupBox>(c@);
            lemma_child_read::<ChunkLargeOffsetBox>(c@);
        }
        let r = replace_into(c, &mut acc.co64);
        proof {
            if r is Err {
                assert(acc@ =~= old(acc)@);
            }
            if r is Ok {
                assert(opt_seq(child_value::<SampleToGroupBox>(c@)) =~= Seq::<<SampleToGroupBox as View>::V>::empty());
                assert(opt_seq(child_value::<SampleGroupDescriptionBox>(c@)) =~= Seq::<<SampleGroupDescriptionBox as View>::V>::empty());
                assert(opt_seq(child_value::<SubSampleInformationBox>(c@)) =~= Seq::<<SubSampleInformationBox as View>::V>::empty());
                assert(opt_seq(child_value::<SampleAuxiliaryInformationSizesBox>(c@)) =~= Seq::<<SampleAuxiliaryInformationSizesBox as View>::V>::empty());
                assert(opt_seq(child_value::<SampleAuxiliaryInformationOffsetsBox>(c@)) =~= Seq::<<SampleAuxiliaryInformationOffsetsBox as View>::V>::empty());
                assert(opt_seq(child_value::<CompactSampleToGroupBox>(c@)) =~= Seq::<<CompactSampleToGroupBox as View>::V>::empty());
                assert(acc@ =~= stbl_extend(old(acc)@, c@));
            }
        }
        r
    } else if is_child_exec::<SyncSampleBox>(c) {
        proof {
            lemma_child_other::<SampleDescriptionBox>(c@);
            lemma_child_other::<TimeToSampleBox>(c@);
            lemma_child_other::<CompositionOffsetBox>(c@);
            lemma_child_other::<CompositionToDecodeBox>(c@);
            lemma_child_other::<SampleToChunkBox>(c@);
            lemma_child_other::<SampleSizeBox>(c@);
            lemma_child_other::<CompactSampleSizeBox>(c@);
            lemma_child_other::<ChunkOffsetBox>(c@);
            lemma_child_other::<ChunkLargeOffsetBox>(c@);
            lemma_child_other::<ShadowSyncSampleBox>(c@);
            lemma_child_other::<PaddingBitsBox>(c@);
            lemma_child_other::<DegradationPriorityBox>(c@);
            lemma_child_other::<SampleDependencyTypeBox>(c@);
            lemma_child_other::<SampleToGroupBox>(c@);
            lemma_child_other::<SampleGroupDescriptionBox>(c@);
            lemma_child_other::<SubSampleInformationBox>(c@);
            lemma_child_other::<SampleAuxiliaryInformationSizesBox>(c@);
            lemma_child_other::<SampleAuxiliaryInformationOffsetsBox>(c@);
            lemma_child_other::<CompactSampleToGroupBox>(c@);
            lemma_child_read::<SyncSampleBox>(c@);
        }
        let r = replace_into(c, &mut acc.stss);
        proof {
            if r is Err {
                assert(acc@ =~= old(acc)@);
            }
            if r is Ok {
                assert(opt_seq(child_value::<SampleToGroupBox>(c@)) =~= Seq::<<SampleToGroupBox as View>::V>::empty());
                assert(opt_seq(child_value::<SampleGroupDescriptionBox>(c@)) =~= Seq::<<SampleGroupDescriptionBox as View>::V>::empty());
                assert(opt_seq(child_value::<SubSampleInformationBox>(c@)) =~= Seq::<<SubSampleInformationBox as View>::V>::empty());
                assert(opt_seq(child_value::<SampleAuxiliaryInformationSizesBox>(c@)) =~= Seq::<<SampleAuxiliaryInformationSizesBox as View>::V>::empty());
                assert(opt_seq(child_value::<SampleAuxiliaryInformationOffsetsBox>(c@)) =~= Seq::<<SampleAuxiliaryInformationOffsetsBox as View>::V>::empty());
                assert(opt_seq(child_value::<CompactSampleToGroupBox>(c@)) =~= Seq::<<CompactSampleToGroupBox as View>::V>::empty());
                assert(acc@ =~= stbl_extend(old(acc)@, c@));
            }
        }
        r
    } else if is_child_exec::<ShadowSyncSampleBox>(c) {
        proof {
            lemma_child_other::<SampleDescriptionBox>(c@);
            lemma_child_other::<TimeToSampleBox>(c@);
            lemma_child_other::<CompositionOffsetBox>(c@);
            lemma_child_other::<CompositionToDecodeBox>(c@);
            lemma_child_other::<SampleToChunkBox>(c@);
            lemma_child_other::<SampleSizeBox>(c@);
            lemma_child_other::<CompactSampleSizeBox>(c@);
            lemma_child_other::<ChunkOffsetBox>(c@);
            lemma_child_other::<ChunkLargeOffsetBox>(c@);
            lemma_child_other::<SyncSampleBox>(c@);
            lemma_child_other::<PaddingBitsBox>(c@);
            lemma_child_other::<DegradationPriorityBox>(c@);
            lemma_child_other::<SampleDependencyTypeBox>(c@);
            lemma_child_other::<SampleToGroupBox>(c@);
            lemma_child_other::<SampleGroupDescriptionBox>(c@);
            lemma_child_other::<SubSampleInformationBox>(c@);
            lemma_child_other::<SampleAuxiliaryInformationSizesBox>(c@);
            lemma_child_other::<SampleAuxiliaryInformationOffsetsBox>(c@);
            lemma_child_other::<CompactSampleToGroupBox>(c@);
            lemma_child_read::<ShadowSyncSampleBox>(c@);
        }
        let r = replace_into(c, &mut acc.stsh);
        proof {
            if r is Err {
                assert(acc@ =~= old(acc)@);
            }
            if r is Ok {
                assert(opt_seq(child_value::<SampleToGroupBox>(c@)) =~= Seq::<<SampleToGroupBox as View>::V>::empty());
                assert(opt_seq(child_value::<SampleGroupDescriptionBox>(c@)) =~= Seq::<<SampleGroupDescriptionBox as View>::V>::empty());
                assert(opt_seq(child_value::<SubSampleInformationBox>(c@)) =~= Seq::<<SubSampleInformationBox as View>::V>::empty());
                assert(opt_seq(child_value::<SampleAuxiliaryInformationSizesBox>(c@)) =~= Seq::<<SampleAuxiliaryInformationSizesBox as View>::V>::empty());
                assert(opt_seq(child_value::<SampleAuxiliaryInformationOffsetsBox>(c@)) =~= Seq::<<SampleAuxiliaryInformationOffsetsBox as View>::V>::empty());
                assert(opt_seq(child_value::<CompactSampleToGroupBox>(c@)) =~= Seq::<<CompactSampleToGroupBox as View>::V>::empty());
                assert(acc@ =~= stbl_extend(old(acc)@, c@));
            }
        }
        r
    } else if is_child_exec::<PaddingBitsBox>(c) {
        proof {
            lemma_child_other::<SampleDescriptionBox>(c@);
            lemma_child_other::<TimeToSampleBox>(c@);
            lemma_child_other::<CompositionOffsetBox>(c@);
            lemma_child_other::<CompositionToDecodeBox>(c@);
            lemma_child_other::<SampleToChunkBox>(c@);
            lemma_child_other::<SampleSizeBox>(c@);
            lemma_child_other::<CompactSampleSizeBox>(c@);
            lemma_child_other::<ChunkOffsetBox>(c@);
            lemma_child_other::<ChunkLargeOffsetBox>(c@);
            lemma_child_other::<SyncSampleBox>(c@);
            lemma_child_other::<ShadowSyncSampleBox>(c@);
            lemma_child_other::<DegradationPriorityBox>(c@);
            lemma_child_other::<SampleDependencyTypeBox>(c@);
            lemma_child_other::<SampleToGroupBox>(c@);
            lemma_child_other::<SampleGroupDescriptionBox>(c@);
            lemma_child_other::<SubSampleInformationBox>(c@);
            lemma_child_other::<SampleAuxiliaryInformationSizesBox>(c@);
            lemma_child_other::<SampleAuxiliaryInformationOffsetsBox>(c@);
            lemma_child_other::<CompactSampleToGroupBox>(c@);
            lemma_child_read::<PaddingBitsBox>(c@);
        }
        let r = replace_into(c, &mut acc.padb);
        proof {
            if r is Err {
                assert(acc@ =~= old(acc)@);
            }
            if r is Ok {
                assert(opt_seq(child_value::<SampleToGroupBox>(c@)) =~= Seq::<<SampleToGroupBox as View>::V>::empty());
                assert(opt_seq(child_value::<SampleGroupDescriptionBox>(c@)) =~= Seq::<<SampleGroupDescriptionBox as View>::V>::empty());
                assert(opt_seq(child_value::<SubSampleInformationBox>(c@)) =~= Seq::<<SubSampleInformationBox as View>::V>::empty());
                assert(opt_seq(child_value::<SampleAuxiliaryInformationSizesBox>(c@)) =~= Seq::<<SampleAuxiliaryInformationSizesBox as View>::V>::empty());
                assert(opt_seq(child_value::<SampleAuxiliaryInformationOffsetsBox>(c@)) =~= Seq::<<SampleAuxiliaryInformationOffsetsBox as View>::V>::empty());
                assert(opt_seq(child_value::<CompactSampleToGroupBox>(c@)) =~= Seq::<<CompactSampleToGroupBox as View>::V>::empty());
                assert(acc@ =~= stbl_extend(old(acc)@, c@));
            }
        }
        r
    } else if is_child_exec::<DegradationPriorityBox>(c) {
        proof {
            lemma_child_other::<SampleDescriptionBox>(c@);
            lemma_child_other::<TimeToSampleBox>(c@);
            lemma_child_other::<CompositionOffsetBox>(c@);
            lemma_child_other::<CompositionToDecodeBox>(c@);
            lemma_child_other::<SampleToChunkBox>(c@);
            lemma_child_other::<SampleSizeBox>(c@);
            lemma_child_other::<CompactSampleSizeBox>(c@);
            lemma_child_other::<ChunkOffsetBox>(c@);
            lemma_child_other::<ChunkLargeOffsetBox>(c@);
            lemma_child_other::<SyncSampleBox>(c@);
            lemma_child_other::<ShadowSyncSampleBox>(c@);
            lemma_child_other::<PaddingBitsBox>(c@);
            lemma_child_other::<SampleDependencyTypeBox>(c@);
            lemma_child_other::<SampleToGroupBox>(c@);
            lemma_child_other::<SampleGroupDescriptionBox>(c@);
            lemma_child_other::<SubSampleInformationBox>(c@);
            lemma_child_other::<SampleAuxiliaryInformationSizesBox>(c@);
            lemma_child_other::<SampleAuxiliaryInformationOffsetsBox>(c@);
            lemma_child_other::<CompactSampleToGroupBox>(c@);
            lemma_child_read::<DegradationPriorityBox>(c@);
        }
        let r = replace_into(c, &mut acc.stdp);
        proof {
            if r is Err {
                assert(acc@ =~= old(acc)@);
            }
            if r is Ok {
                assert(opt_seq(child_value::<SampleToGroupBox>(c@)) =~= Seq::<<SampleToGroupBox as View>::V>::empty());
                assert(opt_seq(child_value::<SampleGroupDescriptionBox>(c@)) =~= Seq::<<SampleGroupDescriptionBox as View>::V>::empty());
                assert(opt_seq(child_value::<SubSampleInformationBox>(c@)) =~= Seq::<<SubSampleInformationBox as View>::V>::empty());
                assert(opt_seq(child_value::<SampleAuxiliaryInformationSizesBox>(c@)) =~= Seq::<<SampleAuxiliaryInformationSizesBox as View>::V>::empty());
                assert(opt_seq(child_value::<SampleAuxiliaryInformationOffsetsBox>(c@)) =~= Seq::<<SampleAuxiliaryInformationOffsetsBox as View>::V>::empty());
                assert(opt_seq(child_value::<CompactSampleToGroupBox>(c@)) =~= Seq::<<CompactSampleToGroupBox as View>::V>::empty());
                assert(acc@ =~= stbl_extend(old(acc)@, c@));
            }
        }
        r
    } else if is_child_exec::<SampleDependencyTypeBox>(c) {
        proof {
            lemma_child_other::<SampleDescriptionBox>(c@);
            lemma_child_other::<TimeToSampleBox>(c@);
            lemma_child_other::<CompositionOffsetBox>(c@);
            lemma_child_other::<CompositionToDecodeBox>(c@);
            lemma_child_other::<SampleToChunkBox>(c@);
            lemma_child_other::<SampleSizeBox>(c@);
            lemma_child_other::<CompactSampleSizeBox>(c@);
            lemma_child_other::<ChunkOffsetBox>(c@);
            lemma_child_other::<ChunkLargeOffsetBox>(c@);
            lemma_child_other::<SyncSampleBox>(c@);
            lemma_child_other::<ShadowSyncSampleBox>(c@);
            lemma_child_other::<PaddingBitsBox>(c@);
            lemma_child_other::<DegradationPriorityBox>(c@);
            lemma_child_other::<SampleToGroupBox>(c@);
            lemma_child_other::<SampleGroupDescriptionBox>(c@);
            lemma_child_other::<SubSampleInformationBox>(c@);
            lemma_child_other::<SampleAuxiliaryInformationSizesBox>(c@);
            lemma_child_other::<SampleAuxiliaryInformationOffsetsBox>(c@);
            lemma_child_other::<CompactSampleToGroupBox>(c@);
            lemma_child_read::<SampleDependencyTypeBox>(c@);
        }
        let r = replace_into(c, &mut acc.sdtp);
        proof {
            if r is Err {
                assert(acc@ =~= old(acc)@);
            }
            if r is Ok {
                assert(opt_seq(child_value::<SampleToGroupBox>(c@)) =~= Seq::<<SampleToGroupBox as View>::V>::empty());
                assert(opt_seq(child_value::<SampleGroupDescriptionBox>(c@)) =~= Seq::<<SampleGroupDescriptionBox as View>::V>::empty());
                assert(opt_seq(child_value::<SubSampleInformationBox>(c@)) =~= Seq::<<SubSampleInformationBox as View>::V>::empty());
                assert(opt_seq(child_value::<SampleAuxiliaryInformationSizesBox>(c@)) =~= Seq::<<SampleAuxiliaryInformationSizesBox as View>::V>::empty());
                assert(opt_seq(child_value::<SampleAuxiliaryInformationOffsetsBox>(c@)) =~= Seq::<<SampleAuxiliaryInformationOffsetsBox as View>::V>::empty());
                assert(opt_seq(child_value::<CompactSampleToGroupBox>(c@)) =~= Seq::<<CompactSampleToGroupBox as View>::V>::empty());
                assert(acc@ =~= stbl_extend(old(acc)@, c@));
            }
        }
        r
    } else if is_child_exec::<SampleToGroupBox>(c) {
        proof {
            lemma_child_other::<SampleDescriptionBox>(c@);
            lemma_child_other::<TimeToSampleBox>(c@);
            lemma_child_other::<CompositionOffsetBox>(c@);
            lemma_child_other::<CompositionToDecodeBox>(c@);
            lemma_child_other::<SampleToChunkBox>(c@);
            lemma_child_other::<SampleSizeBox>(c@);
            lemma_child_other::<CompactSampleSizeBox>(c@);
            lemma_child_other::<ChunkOffsetBox>(c@);
            lemma_child_other::<ChunkLargeOffsetBox>(c@);
            lemma_child_other::<SyncSampleBox>(c@);
            lemma_child_other::<ShadowSyncSampleBox>(c@);
            lemma_child_other::<PaddingBitsBox>(c@);
            lemma_child_other::<DegradationPriorityBox>(c@);
            lemma_child_other::<SampleDependencyTypeBox>(c@);
            lemma_child_other::<SampleGroupDescriptionBox>(c@);
            lemma_child_other::<SubSampleInformationBox>(c@);
            lemma_child_other::<SampleAuxiliaryInformationSizesBox>(c@);
            lemma_child_other::<SampleAuxiliaryInformationOffsetsBox>(c@);
            lemma_child_other::<CompactSampleToGroupBox>(c@);
            lemma_child_read::<SampleToGroupBox>(c@);
        }
        let ghost old_v = views(acc.sbgp@);
        let r = collect_into(c, &mut acc.sbgp);
        proof {
            if r is Err {
                assert(acc@ =~= old(acc)@);
            }
            if r is Ok {
                assert(views(acc.sbgp@) =~= old_v + opt_seq(child_value::<SampleToGroupBox>(c@)));
                assert(opt_seq(child_value::<SampleGroupDescriptionBox>(c@)) =~= Seq::<<SampleGroupDescriptionBox as View>::V>::empty());
                assert(opt_seq(child_value::<SubSampleInformationBox>(c@)) =~= Seq::<<SubSampleInformationBox as View>::V>::empty());
                assert(opt_seq(child_value::<SampleAuxiliaryInformationSizesBox>(c@)) =~= Seq::<<SampleAuxiliaryInformationSizesBox as View>::V>::empty());
                assert(opt_seq(child_value::<SampleAuxiliaryInformationOffsetsBox>(c@)) =~= Seq::<<SampleAuxiliaryInformationOffsetsBox as View>::V>::empty());
                assert(opt_seq(child_value::<CompactSampleToGroupBox>(c@)) =~= Seq::<<CompactSampleToGroupBox as View>::V>::empty());
                assert(acc@ =~= stbl_extend(old(acc)@, c@));
            }
        }
        r
    } else if is_child_exec::<SampleGroupDescriptionBox>(c) {
        proof {
            lemma_child_other::<SampleDescriptionBox>(c@);
            lemma_child_other::<TimeToSampleBox>(c@);
            lemma_child_other::<CompositionOffsetBox>(c@);
            lemma_child_other::<CompositionToDecodeBox>(c@);
            lemma_child_other::<SampleToChunkBox>(c@);
            lemma_child_other::<SampleSizeBox>(c@);
            lemma_child_other::<CompactSampleSizeBox>(c@);
            lemma_child_other::<ChunkOffsetBox>(c@);
            lemma_child_other::<ChunkLargeOffsetBox>(c@);
            lemma_child_other::<SyncSampleBox>(c@);
            lemma_child_other::<ShadowSyncSampleBox>(c@);
            lemma_child_other::<PaddingBitsBox>(c@);
            lemma_child_other::<DegradationPriorityBox>(c@);
            lemma_child_other::<SampleDependencyTypeBox>(c@);
            lemma_child_other::<SampleToGroupBox>(c@);
            lemma_child_other::<SubSampleInformationBox>(c@);
            lemma_child_other::<SampleAuxiliaryInformationSizesBox>(c@);
            lemma_child_other::<SampleAuxiliaryInformationOffsetsBox>(c@);
            lemma_child_other::<CompactSampleToGroupBox>(c@);
            lemma_child_read::<SampleGroupDescriptionBox>(c@);
        }
        let ghost old_v = views(acc.sgpd@);
        let r = collect_into(c, &mut acc.sgpd);
        proof {
            if r is Err {
                assert(acc@ =~= old(acc)@);
            }
            if r is Ok {
                assert(views(acc.sgpd@) =~= old_v + opt_seq(child_value::<SampleGroupDescriptionBox>(c@)));
                assert(opt_seq(child_value::<SampleToGroupBox>(c@)) =~= Seq::<<SampleToGroupBox as View>::V>::empty());
                assert(opt_seq(child_value::<SubSampleInformationBox>(c@)) =~= Seq::<<SubSampleInformationBox as View>::V>::empty());
                assert(opt_seq(child_value::<SampleAuxiliaryInformationSizesBox>(c@)) =~= Seq::<<SampleAuxiliaryInformationSizesBox as View>::V>::empty());
                assert(opt_seq(child_value::<SampleAuxiliaryInformationOffsetsBox>(c@)) =~= Seq::<<SampleAuxiliaryInformationOffsetsBox as View>::V>::empty());
                assert(opt_seq(child_value::<CompactSampleToGroupBox>(c@)) =~= Seq::<<CompactSampleToGroupBox as View>::V>::empty());
                assert(acc@ =~= stbl_extend(old(acc)@, c@));
            }
        }
        r
    } else if is_child_exec::<SubSampleInformationBox>(c) {
        proof {
            lemma_child_other::<SampleDescriptionBox>(c@);
            lemma_child_other::<TimeToSampleBox>(c@);
            lemma_child_other::<CompositionOffsetBox>(c@);
            lemma_child_other::<CompositionToDecodeBox>(c@);
            lemma_child_other::<SampleToChunkBox>(c@);
            lemma_child_other::<SampleSizeBox>(c@);
            lemma_child_other::<CompactSampleSizeBox>(c@);
            lemma_child_other::<ChunkOffsetBox>(c@);
            lemma_child_other::<ChunkLargeOffsetBox>(c@);
            lemma_child_other::<SyncSampleBox>(c@);
            lemma_child_other::<ShadowSyncSampleBox>(c@);
            lemma_child_other::<PaddingBitsBox>(c@);
            lemma_child_other::<DegradationPriorityBox>(c@);
            lemma_child_other::<SampleDependencyTypeBox>(c@);
            lemma_child_other::<SampleToGroupBox>(c@);
            lemma_child_other::<SampleGroupDescriptionBox>(c@);
            lemma_child_other::<SampleAuxiliaryInformationSizesBox>(c@);
            lemma_child_other::<SampleAuxiliaryInformationOffsetsBox>(c@);
            lemma_child_other::<CompactSampleToGroupBox>(c@);
            lemma_child_read::<SubSampleInformationBox>(c@);
        }
        let ghost old_v = views(acc.subs@);
        let r = collect_into(c, &mut acc.subs);
        proof {
            if r is Err {
                assert(acc@ =~= old(acc)@);
            }
            if r is Ok {
                assert(views(acc.subs@) =~= old_v + opt_seq(child_value::<SubSampleInformationBox>(c@)));
                assert(opt_seq(child_value::<SampleToGroupBox>(c@)) =~= Seq::<<SampleToGroupBox as View>::V>::empty());
                assert(opt_seq(child_value::<SampleGroupDescriptionBox>(c@)) =~= Seq::<<SampleGroupDescriptionBox as View>::V>::empty());
                assert(opt_seq(child_value::<SampleAuxiliaryInformationSizesBox>(c@)) =~= Seq::<<SampleAuxiliaryInformationSizesBox as View>::V>::empty());
                assert(opt_seq(child_value::<SampleAuxiliaryInformationOffsetsBox>(c@)) =~= Seq::<<SampleAuxiliaryInformationOffsetsBox as View>::V>::empty());
                assert(opt_seq(child_value::<CompactSampleToGroupBox>(c@)) =~= Seq::<<CompactSampleToGroupBox as View>::V>::empty());
                assert(acc@ =~= stbl_extend(old(acc)@, c@));
            }
        }
        r
    } else if is_child_exec::<SampleAuxiliaryInformationSizesBox>(c) {
        proof {
            lemma_child_other::<SampleDescriptionBox>(c@);
            lemma_child_other::<TimeToSampleBox>(c@);
            lemma_child_other::<CompositionOffsetBox>(c@);
            lemma_child_other::<CompositionToDecodeBox>(c@);
            lemma_child_other::<SampleToChunkBox>(c@);
            lemma_child_other::<SampleSizeBox>(c@);
            lemma_child_other::<CompactSampleSizeBox>(c@);
            lemma_child_other::<ChunkOffsetBox>(c@);
            lemma_child_other::<ChunkLargeOffsetBox>(c@);
            lemma_child_other::<SyncSampleBox>(c@);
            lemma_child_other::<ShadowSyncSampleBox>(c@);
            lemma_child_other::<PaddingBitsBox>(c@);
            lemma_child_other::<DegradationPriorityBox>(c@);
            lemma_child_other::<SampleDependencyTypeBox>(c@);
            lemma_child_other::<SampleToGroupBox>(c@);
            lemma_child_other::<SampleGroupDescriptionBox>(c@);
            lemma_child_other::<SubSampleInformationBox>(c@);
            lemma_child_other::<SampleAuxiliaryInformationOffsetsBox>(c@);
            lemma_child_other::<CompactSampleToGroupBox>(c@);
            lemma_child_read::<SampleAuxiliaryInformationSizesBox>(c@);
        }
        let ghost old_v = views(acc.saiz@);
        let r = collect_into(c, &mut acc.saiz);
        proof {
            if r is Err {
                assert(acc@ =~= old(acc)@);
            }
            if r is Ok {
                assert(views(acc.saiz@) =~= old_v + opt_seq(child_value::<SampleAuxiliaryInformationSizesBox>(c@)));
                assert(opt_seq(child_value::<SampleToGroupBox>(c@)) =~= Seq::<<SampleToGroupBox as View>::V>::empty());
                assert(opt_seq(child_value::<SampleGroupDescriptionBox>(c@)) =~= Seq::<<SampleGroupDescriptionBox as View>::V>::empty());
                assert(opt_seq(child_value::<SubSampleInformationBox>(c@)) =~= Seq::<<SubSampleInformationBox as View>::V>::empty());
                assert(opt_seq(child_value::<SampleAuxiliaryInformationOffsetsBox>(c@)) =~= Seq::<<SampleAuxiliaryInformationOffsetsBox as View>::V>::empty());
                assert(opt_seq(child_value::<CompactSampleToGroupBox>(c@)) =~= Seq::<<CompactSampleToGroupBox as View>::V>::empty());
                assert(acc@ =~= stbl_extend(old(acc)@, c@));
            }
        }
        r
    } else if is_child_exec::<SampleAuxiliaryInformationOffsetsBox>(c) {
        proof {
            lemma_child_other::<SampleDescriptionBox>(c@);
            lemma_child_other::<TimeToSampleBox>(c@);
            lemma_child_other::<CompositionOffsetBox>(c@);
            lemma_child_other::<CompositionToDecodeBox>(c@);
            lemma_child_other::<SampleToChunkBox>(c@);
            lemma_child_other::<SampleSizeBox>(c@);
            lemma_child_other::<CompactSampleSizeBox>(c@);
            lemma_child_other::<ChunkOffsetBox>(c@);
            lemma_child_other::<ChunkLargeOffsetBox>(c@);
            lemma_child_other::<SyncSampleBox>(c@);
            lemma_child_other::<ShadowSyncSampleBox>(c@);
            lemma_child_other::<PaddingBitsBox>(c@);
            lemma_child_other::<DegradationPriorityBox>(c@);
            lemma_child_other::<SampleDependencyTypeBox>(c@);
            lemma_child_other::<SampleToGroupBox>(c@);
            lemma_child_other::<SampleGroupDescriptionBox>(c@);
            lemma_child_other::<SubSampleInformationBox>(c@);
            lemma_child_other::<SampleAuxiliaryInformationSizesBox>(c@);
            lemma_child_other::<CompactSampleToGroupBox>(c@);
            lemma_child_read::<SampleAuxiliaryInformationOffsetsBox>(c@);
        }
        let ghost old_v = views(acc.saio@);
        let r = collect_into(c, &mut acc.saio);
        proof {
            if r is Err {
                assert(acc@ =~= old(acc)@);
            }
            if r is Ok {
                assert(views(acc.saio@) =~= old_v + opt_seq(child_value::<SampleAuxiliaryInformationOffsetsBox>(c@)));
                assert(opt_seq(child_value::<SampleToGroupBox>(c@)) =~= Seq::<<SampleToGroupBox as View>::V>::empty());
                assert(opt_seq(child_value::<SampleGroupDescriptionBox>(c@)) =~= Seq::<<SampleGroupDescriptionBox as View>::V>::empty());
                assert(opt_seq(child_value::<SubSampleInformationBox>(c@)) =~= Seq::<<SubSampleInformationBox as View>::V>::empty());
                assert(opt_seq(child_value::<SampleAuxiliaryInformationSizesBox>(c@)) =~= Seq::<<SampleAuxiliaryInformationSizesBox as View>::V>::empty());
                assert(opt_seq(child_value::<CompactSampleToGroupBox>(c@)) =~= Seq::<<CompactSampleToGroupBox as View>::V>::empty());
                assert(acc@ =~= stbl_extend(old(acc)@, c@));
            }
        }
        r
    } else if is_child_exec::<CompactSampleToGroupBox>(c) {
        proof {
            lemma_child_other::<SampleDescriptionBox>(c@);
            lemma_child_other::<TimeToSampleBox>(c@);
            lemma_child_other::<CompositionOffsetBox>(c@);
            lemma_child_other::<CompositionToDecodeBox>(c@);
            lemma_child_other::<SampleToChunkBox>(c@);
            lemma_child_other::<SampleSizeBox>(c@);
            lemma_child_other::<CompactSampleSizeBox>(c@);
            lemma_child_other::<ChunkOffsetBox>(c@);
            lemma_child_other::<ChunkLargeOffsetBox>(c@);
            lemma_child_other::<SyncSampleBox>(c@);
            lemma_child_other::<ShadowSyncSampleBox>(c@);
            lemma_child_other::<PaddingBitsBox>(c@);
            lemma_child_other::<DegradationPriorityBox>(c@);
            lemma_child_other::<SampleDependencyTypeBox>(c@);
            lemma_child_other::<SampleToGroupBox>(c@);
            lemma_child_other::<SampleGroupDescriptionBox>(c@);
            lemma_child_other::<SubSampleInformationBox>(c@);
            lemma_child_other::<SampleAuxiliaryInformationSizesBox>(c@);
            lemma_child_other::<SampleAuxiliaryInformationOffsetsBox>(c@);
            lemma_child_read::<CompactSampleToGroupBox>(c@);
        }
        let ghost old_v = views(acc.csgp@);
        let r = collect_into(c, &mut acc.csgp);
        proof {
            if r is Err {
                assert(acc@ =~= old(acc)@);
            }
            if r is Ok {
                assert(views(acc.csgp@) =~= old_v + opt_seq(child_value::<CompactSampleToGroupBox>(c@)));
                assert(opt_seq(child_value::<SampleToGroupBox>(c@)) =~= Seq::<<SampleToGroupBox as View>::V>::empty());
                assert(opt_seq(child_value::<SampleGroupDescriptionBox>(c@)) =~= Seq::<<SampleGroupDescriptionBox as View>::V>::empty());
                assert(opt_seq(child_value::<SubSampleInformationBox>(c@)) =~= Seq::<<SubSampleInformationBox as View>::V>::empty());
                assert(opt_seq(child_value::<SampleAuxiliaryInformationSizesBox>(c@)) =~= Seq::<<SampleAuxiliaryInformationSizesBox as View>::V>::empty());
                assert(opt_seq(child_value::<SampleAuxiliaryInformationOffsetsBox>(c@)) =~= Seq::<<SampleAuxiliaryInformationOffsetsBox as View>::V>::empty());
                assert(acc@ =~= stbl_extend(old(acc)@, c@));
            }
        }
        r
    } else {
        proof {
            lemma_child_other::<SampleDescriptionBox>(c@);
            lemma_child_other::<TimeToSampleBox>(c@);
            lemma_child_other::<CompositionOffsetBox>(c@);
            lemma_child_other::<CompositionToDecodeBox>(c@);
            lemma_child_other::<SampleToChunkBox>(c@);
            lemma_child_other::<SampleSizeBox>(c@);
            lemma_child_other::<CompactSampleSizeBox>(c@);
            lemma_child_other::<ChunkOffsetBox>(c@);
            lemma_child_other::<ChunkLargeOffsetBox>(c@);
            lemma_child_other::<SyncSampleBox>(c@);
            lemma_child_other::<ShadowSyncSampleBox>(c@);
            lemma_child_other::<PaddingBitsBox>(c@);
            lemma_child_other::<DegradationPriorityBox>(c@);
            lemma_child_other::<SampleDependencyTypeBox>(c@);
            lemma_child_other::<SampleToGroupBox>(c@);
            lemma_child_other::<SampleGroupDescriptionBox>(c@);
            lemma_child_other::<SubSampleInformationBox>(c@);
            lemma_child_other::<SampleAuxiliaryInformationSizesBox>(c@);
            lemma_child_other::<SampleAuxiliaryInformationOffsetsBox>(c@);
            lemma_child_other::<CompactSampleToGroupBox>(c@);
        }
        proof {
            assert(opt_seq(child_value::<SampleToGroupBox>(c@)) =~= Seq::<<SampleToGroupBox as View>::V>::empty());
            assert(opt_seq(child_value::<SampleGroupDescriptionBox>(c@)) =~= Seq::<<SampleGroupDescriptionBox as View>::V>::empty());
            assert(opt_seq(child_value::<SubSampleInformationBox>(c@)) =~= Seq::<<SubSampleInformationBox as View>::V>::empty());
            assert(opt_seq(child_value::<SampleAuxiliaryInformationSizesBox>(c@)) =~= Seq::<<SampleAuxiliaryInformationSizesBox as View>::V>::empty());
            assert(opt_seq(child_value::<SampleAuxiliaryInformationOffsetsBox>(c@)) =~= Seq::<<SampleAuxiliaryInformationOffsetsBox as View>::V>::empty());
            assert(opt_seq(child_value::<CompactSampleToGroupBox>(c@)) =~= Seq::<<CompactSampleToGroupBox as View>::V>::empty());
            assert(acc@ =~= stbl_extend(old(acc)@, c@));
        }
        Ok(())
    }
}

/// Reading one more box extends what was read by it.
proof fn lemma_stbl_prefix_step(css: Seq<UnknownBoxModel>, i: int)
    requires
        0 <= i < css.len(),
    ensures
        stbl_prefix(css.take(i + 1)) == stbl_extend(stbl_prefix(css.take(i)), css[i]),
{
    lemma_collect_step::<SampleDescriptionBox>(css, i);
    lemma_collect_step::<TimeToSampleBox>(css, i);
    lemma_collect_step::<CompositionOffsetBox>(css, i);
    lemma_collect_step::<CompositionToDecodeBox>(css, i);
    lemma_collect_step::<SampleToChunkBox>(css, i);
    lemma_collect_step::<SampleSizeBox>(css, i);
    lemma_collect_step::<CompactSampleSizeBox>(css, i);
    lemma_collect_step::<ChunkOffsetBox>(css, i);
    lemma_collect_step::<ChunkLargeOffsetBox>(css, i);
    lemma_collect_step::<SyncSampleBox>(css, i);
    lemma_collect_step::<ShadowSyncSampleBox>(css, i);
    lemma_collect_step::<PaddingBitsBox>(css, i);
    lemma_collect_step::<DegradationPriorityBox>(css, i);
    lemma_collect_step::<SampleDependencyTypeBox>(css, i);
    lemma_collect_step::<SampleToGroupBox>(css, i);
    lemma_collect_step::<SampleGroupDescriptionBox>(css, i);
    lemma_collect_step::<SubSampleInformationBox>(css, i);
    lemma_collect_step::<SampleAuxiliaryInformationSizesBox>(css, i);
    lemma_collect_step::<SampleAuxiliaryInformationOffsetsBox>(css, i);
    lemma_collect_step::<CompactSampleToGroupBox>(css, i);
    lemma_unknown_step(css, |c: UnknownBoxModel| stbl_known(c), i);
    let a = stbl_prefix(css.take(i + 1));
    let b = stbl_extend(stbl_prefix(css.take(i)), css[i]);
    assert(a.sbgp =~= b.sbgp);
    assert(a.sgpd =~= b.sgpd);
    assert(a.subs =~= b.subs);
    assert(a.saiz =~= b.saiz);
    assert(a.saio =~= b.saio);
    assert(a.csgp =~= b.csgp);
}

/// Reads the payload of a stbl.
#[verifier::spinoff_prover]
#[verifier::rlimit(60)]
fn parse_stbl(payload: &[u8]) -> (r: Result<SampleTableBox, IsoError>)
    ensures
        match (stbl_parse(payload@), r) {
            (Ok(v), Ok(x)) => x@ == v,
            (Err(e), Err(f)) => e == f,
            _ => false,
        },
{
    let cs = read_children(payload);
    let ghost css = spec_children(payload@);
    let ghost fault = |c: UnknownBoxModel| stbl_fault(c);
    let mut acc = SampleTableBoxScan {
        stsd: None,
        stts: None,
        ctts: None,
        cslg: None,
        stsc: None,
        stsz: None,
        stz2: None,
        stco: None,
        co64: None,
        stss: None,
        stsh: None,
        padb: None,
        stdp: None,
        sdtp: None,
        sbgp: Vec::new(),
        sgpd: Vec::new(),
        subs: Vec::new(),
        saiz: Vec::new(),
        saio: Vec::new(),
        csgp: Vec::new(),
    };
    let mut i: usize = 0;
    let mut stop = false;
    proof {
        lemma_stbl_types();
        let e = css.take(0);
        assert(e =~= Seq::<UnknownBoxModel>::empty());
        assert(collect_children::<SampleDescriptionBox>(e) =~= Seq::<<SampleDescriptionBox as View>::V>::empty());
        assert(collect_children::<TimeToSampleBox>(e) =~= Seq::<<TimeToSampleBox as View>::V>::empty());
        assert(collect_children::<CompositionOffsetBox>(e) =~= Seq::<<CompositionOffsetBox as View>::V>::empty());
        assert(collect_children::<CompositionToDecodeBox>(e) =~= Seq::<<CompositionToDecodeBox as View>::V>::empty());
        assert(collect_children::<SampleToChunkBox>(e) =~= Seq::<<SampleToChunkBox as View>::V>::empty());
        assert(collect_children::<SampleSizeBox>(e) =~= Seq::<<SampleSizeBox as View>::V>::empty());
        assert(collect_children::<CompactSampleSizeBox>(e) =~= Seq::<<CompactSampleSizeBox as View>::V>::empty());
        assert(collect_children::<ChunkOffsetBox>(e) =~= Seq::<<ChunkOffsetBox as View>::V>::empty());
        assert(collect_children::<ChunkLargeOffsetBox>(e) =~= Seq::<<ChunkLargeOffsetBox as View>::V>::empty());
        assert(collect_children::<SyncSampleBox>(e) =~= Seq::<<SyncSampleBox as View>::V>::empty());
        assert(collect_children::<ShadowSyncSampleBox>(e) =~= Seq::<<ShadowSyncSampleBox as View>::V>::empty());
        assert(collect_children::<PaddingBitsBox>(e) =~= Seq::<<PaddingBitsBox as View>::V>::empty());
        assert(collect_children::<DegradationPriorityBox>(e) =~= Seq::<<DegradationPriorityBox as View>::V>::empty());
        assert(collect_children::<SampleDependencyTypeBox>(e) =~= Seq::<<SampleDependencyTypeBox as View>::V>::empty());
        assert(collect_children::<SampleToGroupBox>(e) =~= Seq::<<SampleToGroupBox as View>::V>::empty());
        assert(views(acc.sbgp@) =~= Seq::<<SampleToGroupBox as View>::V>::empty());
        assert(collect_children::<SampleGroupDescriptionBox>(e) =~= Seq::<<SampleGroupDescriptionBox as View>::V>::empty());
        assert(views(acc.sgpd@) =~= Seq::<<SampleGroupDescriptionBox as View>::V>::empty());
        assert(collect_children::<SubSampleInformationBox>(e) =~= Seq::<<SubSampleInformationBox as View>::V>::empty());
        assert(views(acc.subs@) =~= Seq::<<SubSampleInformationBox as View>::V>::empty());
        assert(collect_children::<SampleAuxiliaryInformationSizesBox>(e) =~= Seq::<<SampleAuxiliaryInformationSizesBox as View>::V>::empty());
        assert(views(acc.saiz@) =~= Seq::<<SampleAuxiliaryInformationSizesBox as View>::V>::empty());
        assert(collect_children::<SampleAuxiliaryInformationOffsetsBox>(e) =~= Seq::<<SampleAuxiliaryInformationOffsetsBox as View>::V>::empty());
        assert(views(acc.saio@) =~= Seq::<<SampleAuxiliaryInformationOffsetsBox as View>::V>::empty());
        assert(collect_children::<CompactSampleToGroupBox>(e) =~= Seq::<<CompactSampleToGroupBox as View>::V>::empty());
        assert(views(acc.csgp@) =~= Seq::<<CompactSampleToGroupBox as View>::V>::empty());
        assert(acc@ =~= stbl_prefix(e));
    }
    while i < cs.len() && !stop
        invariant
            views(cs@) == css,
            css == spec_children(payload@),
            fault == (|c: UnknownBoxModel| stbl_fault(c)),
            stbl_types_differ(),
            i <= cs@.len(),
            forall|j: int| 0 <= j < i ==> (#[trigger] fault(css[j])) is None,
            stop ==> i < css.len() && fault(css[i as int]) == Some(IsoError::UnexpectedEof),
            acc@ == stbl_prefix(css.take(i as int)),
        decreases cs@.len() - i + (if stop { 0int } else { 1int }),
    {
        let c = &cs[i];
        proof {
            assert(c@ == css[i as int]);
            lemma_stbl_prefix_step(css, i as int);
        }
        match stbl_step(c, &mut acc) {
            Ok(()) => {
                i = i + 1;
            },
            Err(IsoError::UnexpectedEof) => {
                stop = true;
            },
            Err(e) => {
                proof {
                    lemma_first_fault(css, fault, i as int);
                }
                return Err(e);
            },
        }
    }
    proof {
        lemma_first_fault(css, fault, i as int);
        assert(first_fault(css, fault) == i);
    }
    let SampleTableBoxScan { stsd, stts, ctts, cslg, stsc, stsz, stz2, stco, co64, stss, stsh, padb, stdp, sdtp, sbgp, sgpd, subs, saiz, saio, csgp } = acc;
    let stsd = match stsd {
        Some(x) => x,
        None => {
            return Err(IsoError::InvalidData);
        },
    };
    let stts = match stts {
        Some(x) => x,
        None => {
            return Err(IsoError::InvalidData);
        },
    };
    let stsc = match stsc {
        Some(x) => x,
        None => {
            return Err(IsoError::InvalidData);
        },
    };
    Ok(SampleTableBox { stsd, stts, ctts, cslg, stsc, stsz, stz2, stco, co64, stss, stsh, padb, stdp, sdtp, sbgp, sgpd, subs, saiz, saio, csgp })
}

/// Writes the boxes of a stbl in the order of its fields.
#[verifier::spinoff_prover]
#[verifier::rlimit(60)]
fn write_stbl_children(x: &SampleTableBox, out: &mut Vec<u8>) -> (r: Result<(), IsoError>)
    requires
        x.spec_size() <= usize::MAX,
    ensures
        write_matches(r, stbl_writable(x@), stbl_children_bytes(x@), old(out)@, final(out)@),
{
    let ghost before = out@;
    let ghost v = x@;
    if write_nested(&x.stsd, out).is_err() {
        return Err(IsoError::InvalidData);
    }
    let ghost m1 = out@;
    proof {
        lemma_append_prefix(before, nested_box_bytes::<SampleDescriptionBox>(v.stsd));
    }
    if write_nested(&x.stts, out).is_err() {
        proof {
            lemma_prefix_trans(before, m1, out@);
        }
        return Err(IsoError::InvalidData);
    }
    let ghost m2 = out@;
    proof {
        lemma_append_prefix(m1, nested_box_bytes::<TimeToSampleBox>(v.stts));
        lemma_prefix_trans(before, m1, m2);
    }
    if write_nested_opt(&x.ctts, out).is_err() {
        proof {
            lemma_prefix_trans(before, m2, out@);
        }
        return Err(IsoError::InvalidData);
    }
    let ghost m3 = out@;
    proof {
        lemma_append_prefix(m2, nested_opt_bytes::<CompositionOffsetBox>(v.ctts));
        lemma_prefix_trans(before, m2, m3);
    }
    if write_nested_opt(&x.cslg, out).is_err() {
        proof {
            lemma_prefix_trans(before, m3, out@);
        }
        return Err(IsoError::InvalidData);
    }
    let ghost m4 = out@;
    proof {
        lemma_append_prefix(m3, nested_opt_bytes::<CompositionToDecodeBox>(v.cslg));
        lemma_prefix_trans(before, m3, m4);
    }
    if write_nested(&x.stsc, out).is_err() {
        proof {
            lemma_prefix_trans(before, m4, out@);
        }
        return Err(IsoError::InvalidData);
    }
    let ghost m5 = out@;
    proof {
        lemma_append_prefix(m4, nested_box_bytes::<SampleToChunkBox>(v.stsc));
        lemma_prefix_trans(before, m4, m5);
    }
    if write_nested_opt(&x.stsz, out).is_err() {
        proof {
            lemma_prefix_trans(before, m5, out@);
        }
        return Err(IsoError::InvalidData);
    }
    let ghost m6 = out@;
    proof {
        lemma_append_prefix(m5, nested_opt_bytes::<SampleSizeBox>(v.stsz));
        lemma_prefix_trans(before, m5, m6);
    }
    if write_nested_opt(&x.stz2, out).is_err() {
        proof {
            lemma_prefix_trans(before, m6, out@);
        }
        return Err(IsoError::InvalidData);
    }
    let ghost m7 = out@;
    proof {
        lemma_append_prefix(m6, nested_opt_bytes::<CompactSampleSizeBox>(v.stz2));
        lemma_prefix_trans(before, m6, m7);
    }
    if write_nested_opt(&x.stco, out).is_err() {
        proof {
            lemma_prefix_trans(before, m7, out@);
        }
        return Err(IsoError::InvalidData);
    }
    let ghost m8 = out@;
    proof {
        lemma_append_prefix(m7, nested_opt_bytes::<ChunkOffsetBox>(v.stco));
        lemma_prefix_trans(before, m7, m8);
    }
    if write_nested_opt(&x.co64, out).is_err() {
        proof {
            lemma_prefix_trans(before, m8, out@);
        }
        return Err(IsoError::InvalidData);
    }
    let ghost m9 = out@;
    proof {
        lemma_append_prefix(m8, nested_opt_bytes::<ChunkLargeOffsetBox>(v.co64));
        lemma_prefix_trans(before, m8, m9);
    }
    if write_nested_opt(&x.stss, out).is_err() {
        proof {
            lemma_prefix_trans(before, m9, out@);
        }
        return Err(IsoError::InvalidData);
    }
    let ghost m10 = out@;
    proof {
        lemma_append_prefix(m9, nested_opt_bytes::<SyncSampleBox>(v.stss));
        lemma_prefix_trans(before, m9, m10);
    }
    if write_nested_opt(&x.stsh, out).is_err() {
        proof {
            lemma_prefix_trans(before, m10, out@);
        }
        return Err(IsoError::InvalidData);
    }
    let ghost m11 = out@;
    proof {
        lemma_append_prefix(m10, nested_opt_bytes::<ShadowSyncSampleBox>(v.stsh));
        lemma_prefix_trans(before, m10, m11);
    }
    if write_nested_opt(&x.padb, out).is_err() {
        proof {
            lemma_prefix_trans(before, m11, out@);
        }
        return Err(IsoError::InvalidData);
    }
    let ghost m12 = out@;
    proof {
        lemma_append_prefix(m11, nested_opt_bytes::<PaddingBitsBox>(v.padb));
        lemma_prefix_trans(before, m11, m12);
    }
    if write_nested_opt(&x.stdp, out).is_err() {
        proof {
            lemma_prefix_trans(before, m12, out@);
        }
        return Err(IsoError::InvalidData);
    }
    let ghost m13 = out@;
    proof {
        lemma_append_prefix(m12, nested_opt_bytes::<DegradationPriorityBox>(v.stdp));
        lemma_prefix_trans(before, m12, m13);
    }
    if write_nested_opt(&x.sdtp, out).is_err() {
        proof {
            lemma_prefix_trans(before, m13, out@);
        }
        return Err(IsoError::InvalidData);
    }
    let ghost m14 = out@;
    proof {
        lemma_append_prefix(m13, nested_opt_bytes::<SampleDependencyTypeBox>(v.sdtp));
        lemma_prefix_trans(before, m13, m14);
    }
    if write_nested_vec(&x.sbgp, out).is_err() {
        proof {
            lemma_prefix_trans(before, m14, out@);
        }
        return Err(IsoError::InvalidData);
    }
    let ghost m15 = out@;
    proof {
        lemma_append_prefix(m14, nested_bytes::<SampleToGroupBox>(v.sbgp));
        lemma_prefix_trans(before, m14, m15);
    }
    if write_nested_vec(&x.sgpd, out).is_err() {
        proof {
            lemma_prefix_trans(before, m15, out@);
        }
        return Err(IsoError::InvalidData);
    }
    let ghost m16 = out@;
    proof {
        lemma_append_prefix(m15, nested_bytes::<SampleGroupDescriptionBox>(v.sgpd));
        lemma_prefix_trans(before, m15, m16);
    }
    if write_nested_vec(&x.subs, out).is_err() {
        proof {
            lemma_prefix_trans(before, m16, out@);
        }
        return Err(IsoError::InvalidData);
    }
    let ghost m17 = out@;
    proof {
        lemma_append_prefix(m16, nested_bytes::<SubSampleInformationBox>(v.subs));
        lemma_prefix_trans(before, m16, m17);
    }
    if write_nested_vec(&x.saiz, out).is_err() {
        proof {
            lemma_prefix_trans(before, m17, out@);
        }
        return Err(IsoError::InvalidData);
    }
    let ghost m18 = out@;
    proof {
        lemma_append_prefix(m17, nested_bytes::<SampleAuxiliaryInformationSizesBox>(v.saiz));
        lemma_prefix_trans(before, m17, m18);
    }
    if write_nested_vec(&x.saio, out).is_err() {
        proof {
            lemma_prefix_trans(before, m18, out@);
        }
        return Err(IsoError::InvalidData);
    }
    let ghost m19 = out@;
    proof {
        lemma_append_prefix(m18, nested_bytes::<SampleAuxiliaryInformationOffsetsBox>(v.saio));
        lemma_prefix_trans(before, m18, m19);
    }
    if write_nested_vec(&x.csgp, out).is_err() {
        proof {
            lemma_prefix_trans(before, m19, out@);
        }
        return Err(IsoError::InvalidData);
    }
    let ghost m20 = out@;
    proof {
        lemma_append_prefix(m19, nested_bytes::<CompactSampleToGroupBox>(v.csgp));
        lemma_prefix_trans(before, m19, m20);
    }
    proof {
        let l1 = nested_box_bytes::<SampleDescriptionBox>(v.stsd);
        assert(m1 == before + l1);
        let l2 = l1 + nested_box_bytes::<TimeToSampleBox>(v.stts);
        vstd::seq_lib::lemma_concat_associative(before, l1, nested_box_bytes::<TimeToSampleBox>(v.stts));
        assert(m2 == before + l2);
        let l3 = l2 + nested_opt_bytes::<CompositionOffsetBox>(v.ctts);
        vstd::seq_lib::lemma_concat_associative(before, l2, nested_opt_bytes::<CompositionOffsetBox>(v.ctts));
        assert(m3 == before + l3);
        let l4 = l3 + nested_opt_bytes::<CompositionToDecodeBox>(v.cslg);
        vstd::seq_lib::lemma_concat_associative(before, l3, nested_opt_bytes::<CompositionToDecodeBox>(v.cslg));
        assert(m4 == before + l4);
        let l5 = l4 + nested_box_bytes::<SampleToChunkBox>(v.stsc);
        vstd::seq_lib::lemma_concat_associative(before, l4, nested_box_bytes::<SampleToChunkBox>(v.stsc));
        assert(m5 == before + l5);
        let l6 = l5 + nested_opt_bytes::<SampleSizeBox>(v.stsz);
        vstd::seq_lib::lemma_concat_associative(before, l5, nested_opt_bytes::<SampleSizeBox>(v.stsz));
        assert(m6 == before + l6);
        let l7 = l6 + nested_opt_bytes::<CompactSampleSizeBox>(v.stz2);
        vstd::seq_lib::lemma_concat_associative(before, l6, nested_opt_bytes::<CompactSampleSizeBox>(v.stz2));
        assert(m7 == before + l7);
        let l8 = l7 + nested_opt_bytes::<ChunkOffsetBox>(v.stco);
        vstd::seq_lib::lemma_concat_associative(before, l7, nested_opt_bytes::<ChunkOffsetBox>(v.stco));
        assert(m8 == before + l8);
        let l9 = l8 + nested_opt_bytes::<ChunkLargeOffsetBox>(v.co64);
        vstd::seq_lib::lemma_concat_associative(before, l8, nested_opt_bytes::<ChunkLargeOffsetBox>(v.co64));
        assert(m9 == before + l9);
        let l10 = l9 + nested_opt_bytes::<SyncSampleBox>(v.stss);
        vstd::seq_lib::lemma_concat_associative(before, l9, nested_opt_bytes::<SyncSampleBox>(v.stss));
        assert(m10 == before + l10);
        let l11 = l10 + nested_opt_bytes::<ShadowSyncSampleBox>(v.stsh);
        vstd::seq_lib::lemma_concat_associative(before, l10, nested_opt_bytes::<ShadowSyncSampleBox>(v.stsh));
        assert(m11 == before + l11);
        let l12 = l11 + nested_opt_bytes::<PaddingBitsBox>(v.padb);
        vstd::seq_lib::lemma_concat_associative(before, l11, nested_opt_bytes::<PaddingBitsBox>(v.padb));
        assert(m12 == before + l12);
        let l13 = l12 + nested_opt_bytes::<DegradationPriorityBox>(v.stdp);
        vstd::seq_lib::lemma_concat_associative(before, l12, nested_opt_bytes::<DegradationPriorityBox>(v.stdp));
        assert(m13 == before + l13);
        let l14 = l13 + nested_opt_bytes::<SampleDependencyTypeBox>(v.sdtp);
        vstd::seq_lib::lemma_concat_associative(before, l13, nested_opt_bytes::<SampleDependencyTypeBox>(v.sdtp));
        assert(m14 == before + l14);
        let l15 = l14 + nested_bytes::<SampleToGroupBox>(v.sbgp);
        vstd::seq_lib::lemma_concat_associative(before, l14, nested_bytes::<SampleToGroupBox>(v.sbgp));
        assert(m15 == before + l15);
        let l16 = l15 + nested_bytes::<SampleGroupDescriptionBox>(v.sgpd);
        vstd::seq_lib::lemma_concat_associative(before, l15, nested_bytes::<SampleGroupDescriptionBox>(v.sgpd));
        assert(m16 == before + l16);
        let l17 = l16 + nested_bytes::<SubSampleInformationBox>(v.subs);
        vstd::seq_lib::lemma_concat_associative(before, l16, nested_bytes::<SubSampleInformationBox>(v.subs));
        assert(m17 == before + l17);
        let l18 = l17 + nested_bytes::<SampleAuxiliaryInformationSizesBox>(v.saiz);
        vstd::seq_lib::lemma_concat_associative(before, l17, nested_bytes::<SampleAuxiliaryInformationSizesBox>(v.saiz));
        assert(m18 == before + l18);
        let l19 = l18 + nested_bytes::<SampleAuxiliaryInformationOffsetsBox>(v.saio);
        vstd::seq_lib::lemma_concat_associative(before, l18, nested_bytes::<SampleAuxiliaryInformationOffsetsBox>(v.saio));
        assert(m19 == before + l19);
        let l20 = l19 + nested_bytes::<CompactSampleToGroupBox>(v.csgp);
        vstd::seq_lib::lemma_concat_associative(before, l19, nested_bytes::<CompactSampleToGroupBox>(v.csgp));
        assert(m20 == before + l20);
        assert(stbl_children_bytes(v) == l20);
        lemma_append_prefix(before, stbl_children_bytes(v));
    }
    Ok(())
}

/// The boxes that a stbl writes, read from their bytes one list after the other.
#[verifier::spinoff_prover]
#[verifier::rlimit(100)]
proof fn lemma_stbl_children_chain(v: SampleTableBoxModel)
    requires
        stbl_canonical(v),
    ensures
        spec_children(nested_box_bytes::<SampleDescriptionBox>(v.stsd) + (nested_box_bytes::<TimeToSampleBox>(v.stts) + (nested_opt_bytes::<CompositionOffsetBox>(v.ctts) + (nested_opt_bytes::<CompositionToDecodeBox>(v.cslg) + (nested_box_bytes::<SampleToChunkBox>(v.stsc) + (nested_opt_bytes::<SampleSizeBox>(v.stsz) + (nested_opt_bytes::<CompactSampleSizeBox>(v.stz2) + (nested_opt_bytes::<ChunkOffsetBox>(v.stco) + (nested_opt_bytes::<ChunkLargeOffsetBox>(v.co64) + (nested_opt_bytes::<SyncSampleBox>(v.stss) + (nested_opt_bytes::<ShadowSyncSampleBox>(v.stsh) + (nested_opt_bytes::<PaddingBitsBox>(v.padb) + (nested_opt_bytes::<DegradationPriorityBox>(v.stdp) + (nested_opt_bytes::<SampleDependencyTypeBox>(v.sdtp) + (nested_bytes::<SampleToGroupBox>(v.sbgp) + (nested_bytes::<SampleGroupDescriptionBox>(v.sgpd) + (nested_bytes::<SubSampleInformationBox>(v.subs) + (nested_bytes::<SampleAuxiliaryInformationSizesBox>(v.saiz) + (nested_bytes::<SampleAuxiliaryInformationOffsetsBox>(v.saio) + (nested_bytes::<CompactSampleToGroupBox>(v.csgp))))))))))))))))))))) == seq![nested_model::<SampleDescriptionBox>(v.stsd)] + (seq![nested_model::<TimeToSampleBox>(v.stts)] + (nested_opt_models::<CompositionOffsetBox>(v.ctts) + (nested_opt_models::<CompositionToDecodeBox>(v.cslg) + (seq![nested_model::<SampleToChunkBox>(v.stsc)] + (nested_opt_models::<SampleSizeBox>(v.stsz) + (nested_opt_models::<CompactSampleSizeBox>(v.stz2) + (nested_opt_models::<ChunkOffsetBox>(v.stco) + (nested_opt_models::<ChunkLargeOffsetBox>(v.co64) + (nested_opt_models::<SyncSampleBox>(v.stss) + (nested_opt_models::<ShadowSyncSampleBox>(v.stsh) + (nested_opt_models::<PaddingBitsBox>(v.padb) + (nested_opt_models::<DegradationPriorityBox>(v.stdp) + (nested_opt_models::<SampleDependencyTypeBox>(v.sdtp) + (nested_models::<SampleToGroupBox>(v.sbgp) + (nested_models::<SampleGroupDescriptionBox>(v.sgpd) + (nested_models::<SubSampleInformationBox>(v.subs) + (nested_models::<SampleAuxiliaryInformationSizesBox>(v.saiz) + (nested_models::<SampleAuxiliaryInformationOffsetsBox>(v.saio) + (nested_models::<CompactSampleToGroupBox>(v.csgp)))))))))))))))))))),
{
    let b0 = nested_box_bytes::<SampleDescriptionBox>(v.stsd);
    let s0 = seq![nested_model::<SampleDescriptionBox>(v.stsd)];
    let b1 = nested_box_bytes::<TimeToSampleBox>(v.stts);
    let s1 = seq![nested_model::<TimeToSampleBox>(v.stts)];
    let b2 = nested_opt_bytes::<CompositionOffsetBox>(v.ctts);
    let s2 = nested_opt_models::<CompositionOffsetBox>(v.ctts);
    let b3 = nested_opt_bytes::<CompositionToDecodeBox>(v.cslg);
    let s3 = nested_opt_models::<CompositionToDecodeBox>(v.cslg);
    let b4 = nested_box_bytes::<SampleToChunkBox>(v.stsc);
    let s4 = seq![nested_model::<SampleToChunkBox>(v.stsc)];
    let b5 = nested_opt_bytes::<SampleSizeBox>(v.stsz);
    let s5 = nested_opt_models::<SampleSizeBox>(v.stsz);
    let b6 = nested_opt_bytes::<CompactSampleSizeBox>(v.stz2);
    let s6 = nested_opt_models::<CompactSampleSizeBox>(v.stz2);
    let b7 = nested_opt_bytes::<ChunkOffsetBox>(v.stco);
    let s7 = nested_opt_models::<ChunkOffsetBox>(v.stco);
    let b8 = nested_opt_bytes::<ChunkLargeOffsetBox>(v.co64);
    let s8 = nested_opt_models::<ChunkLargeOffsetBox>(v.co64);
    let b9 = nested_opt_bytes::<SyncSampleBox>(v.stss);
    let s9 = nested_opt_models::<SyncSampleBox>(v.stss);
    let b10 = nested_opt_bytes::<ShadowSyncSampleBox>(v.stsh);
    let s10 = nested_opt_models::<ShadowSyncSampleBox>(v.stsh);
    let b11 = nested_opt_bytes::<PaddingBitsBox>(v.padb);
    let s11 = nested_opt_models::<PaddingBitsBox>(v.padb);
    let b12 = nested_opt_bytes::<DegradationPriorityBox>(v.stdp);
    let s12 = nested_opt_models::<DegradationPriorityBox>(v.stdp);
    let b13 = nested_opt_bytes::<SampleDependencyTypeBox>(v.sdtp);
    let s13 = nested_opt_models::<SampleDependencyTypeBox>(v.sdtp);
    let b14 = nested_bytes::<SampleToGroupBox>(v.sbgp);
    let s14 = nested_models::<SampleToGroupBox>(v.sbgp);
    let b15 = nested_bytes::<SampleGroupDescriptionBox>(v.sgpd);
    let s15 = nested_models::<SampleGroupDescriptionBox>(v.sgpd);
    let b16 = nested_bytes::<SubSampleInformationBox>(v.subs);
    let s16 = nested_models::<SubSampleInformationBox>(v.subs);
    let b17 = nested_bytes::<SampleAuxiliaryInformationSizesBox>(v.saiz);
    let s17 = nested_models::<SampleAuxiliaryInformationSizesBox>(v.saiz);
    let b18 = nested_bytes::<SampleAuxiliaryInformationOffsetsBox>(v.saio);
    let s18 = nested_models::<SampleAuxiliaryInformationOffsetsBox>(v.saio);
    let b19 = nested_bytes::<CompactSampleToGroupBox>(v.csgp);
    let s19 = nested_models::<CompactSampleToGroupBox>(v.csgp);
    crate::children::lemma_children_empty();
    let t19 = b19;
    let u19 = s19;
    assert(b19 + Seq::<u8>::empty() =~= b19);
    assert(s19 + Seq::<UnknownBoxModel>::empty() =~= s19);
    lemma_nested_seq::<CompactSampleToGroupBox>(v.csgp, Seq::<u8>::empty());
    assert(spec_children(t19) == u19);
    let t18 = b18 + t19;
    let u18 = s18 + u19;
    lemma_nested_seq::<SampleAuxiliaryInformationOffsetsBox>(v.saio, t19);
    assert(spec_children(t18) == u18);
    let t17 = b17 + t18;
    let u17 = s17 + u18;
    lemma_nested_seq::<SampleAuxiliaryInformationSizesBox>(v.saiz, t18);
    assert(spec_children(t17) == u17);
    let t16 = b16 + t17;
    let u16 = s16 + u17;
    lemma_nested_seq::<SubSampleInformationBox>(v.subs, t17);
    assert(spec_children(t16) == u16);
    let t15 = b15 + t16;
    let u15 = s15 + u16;
    lemma_nested_seq::<SampleGroupDescriptionBox>(v.sgpd, t16);
    assert(spec_children(t15) == u15);
    let t14 = b14 + t15;
    let u14 = s14 + u15;
    lemma_nested_seq::<SampleToGroupBox>(v.sbgp, t15);
    assert(spec_children(t14) == u14);
    let t13 = b13 + t14;
    let u13 = s13 + u14;
    lemma_nested_opt_seq::<SampleDependencyTypeBox>(v.sdtp, t14);
    assert(spec_children(t13) == u13);
    let t12 = b12 + t13;
    let u12 = s12 + u13;
    lemma_nested_opt_seq::<DegradationPriorityBox>(v.stdp, t13);
    assert(spec_children(t12) == u12);
    let t11 = b11 + t12;
    let u11 = s11 + u12;
    lemma_nested_opt_seq::<PaddingBitsBox>(v.padb, t12);
    assert(spec_children(t11) == u11);
    let t10 = b10 + t11;
    let u10 = s10 + u11;
    lemma_nested_opt_seq::<ShadowSyncSampleBox>(v.stsh, t11);
    assert(spec_children(t10) == u10);
    let t9 = b9 + t10;
    let u9 = s9 + u10;
    lemma_nested_opt_seq::<SyncSampleBox>(v.stss, t10);
    assert(spec_children(t9) == u9);
    let t8 = b8 + t9;
    let u8 = s8 + u9;
    lemma_nested_opt_seq::<ChunkLargeOffsetBox>(v.co64, t9);
    assert(spec_children(t8) == u8);
    let t7 = b7 + t8;
    let u7 = s7 + u8;
    lemma_nested_opt_seq::<ChunkOffsetBox>(v.stco, t8);
    assert(spec_children(t7) == u7);
    let t6 = b6 + t7;
    let u6 = s6 + u7;
    lemma_nested_opt_seq::<CompactSampleSizeBox>(v.stz2, t7);
    assert(spec_children(t6) == u6);
    let t5 = b5 + t6;
    let u5 = s5 + u6;
    lemma_nested_opt_seq::<SampleSizeBox>(v.stsz, t6);
    assert(spec_children(t5) == u5);
    let t4 = b4 + t5;
    let u4 = s4 + u5;
    lemma_nested_cons::<SampleToChunkBox>(v.stsc, t5);
    assert(spec_children(t4) == u4);
    let t3 = b3 + t4;
    let u3 = s3 + u4;
    lemma_nested_opt_seq::<CompositionToDecodeBox>(v.cslg, t4);
    assert(spec_children(t3) == u3);
    let t2 = b2 + t3;
    let u2 = s2 + u3;
    lemma_nested_opt_seq::<CompositionOffsetBox>(v.ctts, t3);
    assert(spec_children(t2) == u2);
    let t1 = b1 + t2;
    let u1 = s1 + u2;
    lemma_nested_cons::<TimeToSampleBox>(v.stts, t2);
    assert(spec_children(t1) == u1);
    let t0 = b0 + t1;
    let u0 = s0 + u1;
    lemma_nested_cons::<SampleDescriptionBox>(v.stsd, t1);
    assert(spec_children(t0) == u0);
}

/// The boxes that a stbl writes read back as their models.
#[verifier::spinoff_prover]
#[verifier::rlimit(100)]
proof fn lemma_stbl_children(v: SampleTableBoxModel)
    requires
        stbl_canonical(v),
    ensures
        spec_children(stbl_children_bytes(v)) == stbl_models(v),
{
    lemma_stbl_children_chain(v);
    let b0 = nested_box_bytes::<SampleDescriptionBox>(v.stsd);
    let s0 = seq![nested_model::<SampleDescriptionBox>(v.stsd)];
    let b1 = nested_box_bytes::<TimeToSampleBox>(v.stts);
    let s1 = seq![nested_model::<TimeToSampleBox>(v.stts)];
    let b2 = nested_opt_bytes::<CompositionOffsetBox>(v.ctts);
    let s2 = nested_opt_models::<CompositionOffsetBox>(v.ctts);
    let b3 = nested_opt_bytes::<CompositionToDecodeBox>(v.cslg);
    let s3 = nested_opt_models::<CompositionToDecodeBox>(v.cslg);
    let b4 = nested_box_bytes::<SampleToChunkBox>(v.stsc);
    let s4 = seq![nested_model::<SampleToChunkBox>(v.stsc)];
    let b5 = nested_opt_bytes::<SampleSizeBox>(v.stsz);
    let s5 = nested_opt_models::<SampleSizeBox>(v.stsz);
    let b6 = nested_opt_bytes::<CompactSampleSizeBox>(v.stz2);
    let s6 = nested_opt_models::<CompactSampleSizeBox>(v.stz2);
    let b7 = nested_opt_bytes::<ChunkOffsetBox>(v.stco);
    let s7 = nested_opt_models::<ChunkOffsetBox>(v.stco);
    let b8 = nested_opt_bytes::<ChunkLargeOffsetBox>(v.co64);
    let s8 = nested_opt_models::<ChunkLargeOffsetBox>(v.co64);
    let b9 = nested_opt_bytes::<SyncSampleBox>(v.stss);
    let s9 = nested_opt_models::<SyncSampleBox>(v.stss);
    let b10 = nested_opt_bytes::<ShadowSyncSampleBox>(v.stsh);
    let s10 = nested_opt_models::<ShadowSyncSampleBox>(v.stsh);
    let b11 = nested_opt_bytes::<PaddingBitsBox>(v.padb);
    let s11 = nested_opt_models::<PaddingBitsBox>(v.padb);
    let b12 = nested_opt_bytes::<DegradationPriorityBox>(v.stdp);
    let s12 = nested_opt_models::<DegradationPriorityBox>(v.stdp);
    let b13 = nested_opt_bytes::<SampleDependencyTypeBox>(v.sdtp);
    let s13 = nested_opt_models::<SampleDependencyTypeBox>(v.sdtp);
    let b14 = nested_bytes::<SampleToGroupBox>(v.sbgp);
    let s14 = nested_models::<SampleToGroupBox>(v.sbgp);
    let b15 = nested_bytes::<SampleGroupDescriptionBox>(v.sgpd);
    let s15 = nested_models::<SampleGroupDescriptionBox>(v.sgpd);
    let b16 = nested_bytes::<SubSampleInformationBox>(v.subs);
    let s16 = nested_models::<SubSampleInformationBox>(v.subs);
    let b17 = nested_bytes::<SampleAuxiliaryInformationSizesBox>(v.saiz);
    let s17 = nested_models::<SampleAuxiliaryInformationSizesBox>(v.saiz);
    let b18 = nested_bytes::<SampleAuxiliaryInformationOffsetsBox>(v.saio);
    let s18 = nested_models::<SampleAuxiliaryInformationOffsetsBox>(v.saio);
    let b19 = nested_bytes::<CompactSampleToGroupBox>(v.csgp);
    let s19 = nested_models::<CompactSampleToGroupBox>(v.csgp);
    let t19 = b19;
    let u19 = s19;
    let t18 = b18 + t19;
    let u18 = s18 + u19;
    let t17 = b17 + t18;
    let u17 = s17 + u18;
    let t16 = b16 + t17;
    let u16 = s16 + u17;
    let t15 = b15 + t16;
    let u15 = s15 + u16;
    let t14 = b14 + t15;
    let u14 = s14 + u15;
    let t13 = b13 + t14;
    let u13 = s13 + u14;
    let t12 = b12 + t13;
    let u12 = s12 + u13;
    let t11 = b11 + t12;
    let u11 = s11 + u12;
    let t10 = b10 + t11;
    let u10 = s10 + u11;
    let t9 = b9 + t10;
    let u9 = s9 + u10;
    let t8 = b8 + t9;
    let u8 = s8 + u9;
    let t7 = b7 + t8;
    let u7 = s7 + u8;
    let t6 = b6 + t7;
    let u6 = s6 + u7;
    let t5 = b5 + t6;
    let u5 = s5 + u6;
    let t4 = b4 + t5;
    let u4 = s4 + u5;
    let t3 = b3 + t4;
    let u3 = s3 + u4;
    let t2 = b2 + t3;
    let u2 = s2 + u3;
    let t1 = b1 + t2;
    let u1 = s1 + u2;
    let t0 = b0 + t1;
    let u0 = s0 + u1;
    let t20 = Seq::<u8>::empty();
    let u20 = Seq::<UnknownBoxModel>::empty();
    assert(b19 + t20 =~= t19);
    assert(s19 + u20 =~= u19);
    let l0 = Seq::<u8>::empty();
    let k0 = Seq::<UnknownBoxModel>::empty();
    assert(l0 + t0 =~= t0);
    assert(k0 + u0 =~= u0);
    let l1 = b0;
    let k1 = s0;
    assert(l1 + t1 == l0 + t0);
    assert(k1 + u1 == k0 + u0);
    let l2 = l1 + b1;
    let k2 = k1 + s1;
    vstd::seq_lib::lemma_concat_associative(l1, b1, t2);
    vstd::seq_lib::lemma_concat_associative(k1, s1, u2);
    assert(l2 + t2 == l1 + t1);
    assert(k2 + u2 == k1 + u1);
    let l3 = l2 + b2;
    let k3 = k2 + s2;
    vstd::seq_lib::lemma_concat_associative(l2, b2, t3);
    vstd::seq_lib::lemma_concat_associative(k2, s2, u3);
    assert(l3 + t3 == l2 + t2);
    assert(k3 + u3 == k2 + u2);
    let l4 = l3 + b3;
    let k4 = k3 + s3;
    vstd::seq_lib::lemma_concat_associative(l3, b3, t4);
    vstd::seq_lib::lemma_concat_associative(k3, s3, u4);
    assert(l4 + t4 == l3 + t3);
    assert(k4 + u4 == k3 + u3);
    let l5 = l4 + b4;
    let k5 = k4 + s4;
    vstd::seq_lib::lemma_concat_associative(l4, b4, t5);
    vstd::seq_lib::lemma_concat_associative(k4, s4, u5);
    assert(l5 + t5 == l4 + t4);
    assert(k5 + u5 == k4 + u4);
    let l6 = l5 + b5;
    let k6 = k5 + s5;
    vstd::seq_lib::lemma_concat_associative(l5, b5, t6);
    vstd::seq_lib::lemma_concat_associative(k5, s5, u6);
    assert(l6 + t6 == l5 + t5);
    assert(k6 + u6 == k5 + u5);
    let l7 = l6 + b6;
    let k7 = k6 + s6;
    vstd::seq_lib::lemma_concat_associative(l6, b6, t7);
    vstd::seq_lib::lemma_concat_associative(k6, s6, u7);
    assert(l7 + t7 == l6 + t6);
    assert(k7 + u7 == k6 + u6);
    let l8 = l7 + b7;
    let k8 = k7 + s7;
    vstd::seq_lib::lemma_concat_associative(l7, b7, t8);
    vstd::seq_lib::lemma_concat_associative(k7, s7, u8);
    assert(l8 + t8 == l7 + t7);
    assert(k8 + u8 == k7 + u7);
    let l9 = l8 + b8;
    let k9 = k8 + s8;
    vstd::seq_lib::lemma_concat_associative(l8, b8, t9);
    vstd::seq_lib::lemma_concat_associative(k8, s8, u9);
    assert(l9 + t9 == l8 + t8);
    assert(k9 + u9 == k8 + u8);
    let l10 = l9 + b9;
    let k10 = k9 + s9;
    vstd::seq_lib::lemma_concat_associative(l9, b9, t10);
    vstd::seq_lib::lemma_concat_associative(k9, s9, u10);
    assert(l10 + t10 == l9 + t9);
    assert(k10 + u10 == k9 + u9);
    let l11 = l10 + b10;
    let k11 = k10 + s10;
    vstd::seq_lib::lemma_concat_associative(l10, b10, t11);
    vstd::seq_lib::lemma_concat_associative(k10, s10, u11);
    assert(l11 + t11 == l10 + t10);
    assert(k11 + u11 == k10 + u10);
    let l12 = l11 + b11;
    let k12 = k11 + s11;
    vstd::seq_lib::lemma_concat_associative(l11, b11, t12);
    vstd::seq_lib::lemma_concat_associative(k11, s11, u12);
    assert(l12 + t12 == l11 + t11);
    assert(k12 + u12 == k11 + u11);
    let l13 = l12 + b12;
    let k13 = k12 + s12;
    vstd::seq_lib::lemma_concat_associative(l12, b12, t13);
    vstd::seq_lib::lemma_concat_associative(k12, s12, u13);
    assert(l13 + t13 == l12 + t12);
    assert(k13 + u13 == k12 + u12);
    let l14 = l13 + b13;
    let k14 = k13 + s13;
    vstd::seq_lib::lemma_concat_associative(l13, b13, t14);
    vstd::seq_lib::lemma_concat_associative(k13, s13, u14);
    assert(l14 + t14 == l13 + t13);
    assert(k14 + u14 == k13 + u13);
    let l15 = l14 + b14;
    let k15 = k14 + s14;
    vstd::seq_lib::lemma_concat_associative(l14, b14, t15);
    vstd::seq_lib::lemma_concat_associative(k14, s14, u15);
    assert(l15 + t15 == l14 + t14);
    assert(k15 + u15 == k14 + u14);
    let l16 = l15 + b15;
    let k16 = k15 + s15;
    vstd::seq_lib::lemma_concat_associative(l15, b15, t16);
    vstd::seq_lib::lemma_concat_associative(k15, s15, u16);
    assert(l16 + t16 == l15 + t15);
    assert(k16 + u16 == k15 + u15);
    let l17 = l16 + b16;
    let k17 = k16 + s16;
    vstd::seq_lib::lemma_concat_associative(l16, b16, t17);
    vstd::seq_lib::lemma_concat_associative(k16, s16, u17);
    assert(l17 + t17 == l16 + t16);
    assert(k17 + u17 == k16 + u16);
    let l18 = l17 + b17;
    let k18 = k17 + s17;
    vstd::seq_lib::lemma_concat_associative(l17, b17, t18);
    vstd::seq_lib::lemma_concat_associative(k17, s17, u18);
    assert(l18 + t18 == l17 + t17);
    assert(k18 + u18 == k17 + u17);
    let l19 = l18 + b18;
    let k19 = k18 + s18;
    vstd::seq_lib::lemma_concat_associative(l18, b18, t19);
    vstd::seq_lib::lemma_concat_associative(k18, s18, u19);
    assert(l19 + t19 == l18 + t18);
    assert(k19 + u19 == k18 + u18);
    let l20 = l19 + b19;
    let k20 = k19 + s19;
    vstd::seq_lib::lemma_concat_associative(l19, b19, t20);
    vstd::seq_lib::lemma_concat_associative(k19, s19, u20);
    assert(l20 + t20 == l19 + t19);
    assert(k20 + u20 == k19 + u19);
    assert(l20 + t20 =~= l20);
    assert(k20 + u20 =~= k20);
    assert(stbl_children_bytes(v) == l20);
    assert(stbl_models(v) == k20);
}

/// No box that a stbl writes fails to read.
#[verifier::spinoff_prover]
#[verifier::rlimit(60)]
proof fn lemma_stbl_no_fault(v: SampleTableBoxModel, j: int)
    requires
        stbl_canonical(v),
        stbl_types_differ(),
        0 <= j < stbl_models(v).len(),
    ensures
        stbl_fault(stbl_models(v)[j]) is None,
{
    let cs = stbl_models(v);
    let s0 = seq![nested_model::<SampleDescriptionBox>(v.stsd)];
    let s1 = seq![nested_model::<TimeToSampleBox>(v.stts)];
    let s2 = nested_opt_models::<CompositionOffsetBox>(v.ctts);
    let s3 = nested_opt_models::<CompositionToDecodeBox>(v.cslg);
    let s4 = seq![nested_model::<SampleToChunkBox>(v.stsc)];
    let s5 = nested_opt_models::<SampleSizeBox>(v.stsz);
    let s6 = nested_opt_models::<CompactSampleSizeBox>(v.stz2);
    let s7 = nested_opt_models::<ChunkOffsetBox>(v.stco);
    let s8 = nested_opt_models::<ChunkLargeOffsetBox>(v.co64);
    let s9 = nested_opt_models::<SyncSampleBox>(v.stss);
    let s10 = nested_opt_models::<ShadowSyncSampleBox>(v.stsh);
    let s11 = nested_opt_models::<PaddingBitsBox>(v.padb);
    let s12 = nested_opt_models::<DegradationPriorityBox>(v.stdp);
    let s13 = nested_opt_models::<SampleDependencyTypeBox>(v.sdtp);
    let s14 = nested_models::<SampleToGroupBox>(v.sbgp);
    let s15 = nested_models::<SampleGroupDescriptionBox>(v.sgpd);
    let s16 = nested_models::<SubSampleInformationBox>(v.subs);
    let s17 = nested_models::<SampleAuxiliaryInformationSizesBox>(v.saiz);
    let s18 = nested_models::<SampleAuxiliaryInformationOffsetsBox>(v.saio);
    let s19 = nested_models::<CompactSampleToGroupBox>(v.csgp);
    let n0: int = 0;
    let n1: int = n0 + s0.len();
    let n2: int = n1 + s1.len();
    let n3: int = n2 + s2.len();
    let n4: int = n3 + s3.len();
    let n5: int = n4 + s4.len();
    let n6: int = n5 + s5.len();
    let n7: int = n6 + s6.len();
    let n8: int = n7 + s7.len();
    let n9: int = n8 + s8.len();
    let n10: int = n9 + s9.len();
    let n11: int = n10 + s10.len();
    let n12: int = n11 + s11.len();
    let n13: int = n12 + s12.len();
    let n14: int = n13 + s13.len();
    let n15: int = n14 + s14.len();
    let n16: int = n15 + s15.len();
    let n17: int = n16 + s16.len();
    let n18: int = n17 + s17.len();
    let n19: int = n18 + s18.len();
    let n20: int = n19 + s19.len();
    if j < n1 {
        assert(cs[j] == s0[j - n0]);
        lemma_nested_cons::<SampleDescriptionBox>(v.stsd, Seq::empty());
    } else if j < n2 {
        assert(cs[j] == s1[j - n1]);
        lemma_nested_cons::<TimeToSampleBox>(v.stts, Seq::empty());
    } else if j < n3 {
        assert(cs[j] == s2[j - n2]);
        lemma_nested_cons::<CompositionOffsetBox>(v.ctts.unwrap(), Seq::empty());
    } else if j < n4 {
        assert(cs[j] == s3[j - n3]);
        lemma_nested_cons::<CompositionToDecodeBox>(v.cslg.unwrap(), Seq::empty());
    } else if j < n5 {
        assert(cs[j] == s4[j - n4]);
        lemma_nested_cons::<SampleToChunkBox>(v.stsc, Seq::empty());
    } else if j < n6 {
        assert(cs[j] == s5[j - n5]);
        lemma_nested_cons::<SampleSizeBox>(v.stsz.unwrap(), Seq::empty());
    } else if j < n7 {
        assert(cs[j] == s6[j - n6]);
        lemma_nested_cons::<CompactSampleSizeBox>(v.stz2.unwrap(), Seq::empty());
    } else if j < n8 {
        assert(cs[j] == s7[j - n7]);
        lemma_nested_cons::<ChunkOffsetBox>(v.stco.unwrap(), Seq::empty());
    } else if j < n9 {
        assert(cs[j] == s8[j - n8]);
        lemma_nested_cons::<ChunkLargeOffsetBox>(v.co64.unwrap(), Seq::empty());
    } else if j < n10 {
        assert(cs[j] == s9[j - n9]);
        lemma_nested_cons::<SyncSampleBox>(v.stss.unwrap(), Seq::empty());
    } else if j < n11 {
        assert(cs[j] == s10[j - n10]);
        lemma_nested_cons::<ShadowSyncSampleBox>(v.stsh.unwrap(), Seq::empty());
    } else if j < n12 {
        assert(cs[j] == s11[j - n11]);
        lemma_nested_cons::<PaddingBitsBox>(v.padb.unwrap(), Seq::empty());
    } else if j < n13 {
        assert(cs[j] == s12[j - n12]);
        lemma_nested_cons::<DegradationPriorityBox>(v.stdp.unwrap(), Seq::empty());
    } else if j < n14 {
        assert(cs[j] == s13[j - n13]);
        lemma_nested_cons::<SampleDependencyTypeBox>(v.sdtp.unwrap(), Seq::empty());
    } else if j < n15 {
        assert(cs[j] == s14[j - n14]);
        assert(nested_ok::<SampleToGroupBox>(v.sbgp[j - n14]));
        lemma_nested_cons::<SampleToGroupBox>(v.sbgp[j - n14], Seq::empty());
    } else if j < n16 {
        assert(cs[j] == s15[j - n15]);
        assert(nested_ok::<SampleGroupDescriptionBox>(v.sgpd[j - n15]));
        lemma_nested_cons::<SampleGroupDescriptionBox>(v.sgpd[j - n15], Seq::empty());
    } else if j < n17 {
        assert(cs[j] == s16[j - n16]);
        assert(nested_ok::<SubSampleInformationBox>(v.subs[j - n16]));
        lemma_nested_cons::<SubSampleInformationBox>(v.subs[j - n16], Seq::empty());
    } else if j < n18 {
        assert(cs[j] == s17[j - n17]);
        assert(nested_ok::<SampleAuxiliaryInformationSizesBox>(v.saiz[j - n17]));
        lemma_nested_cons::<SampleAuxiliaryInformationSizesBox>(v.saiz[j - n17], Seq::empty());
    } else if j < n19 {
        assert(cs[j] == s18[j - n18]);
        assert(nested_ok::<SampleAuxiliaryInformationOffsetsBox>(v.saio[j - n18]));
        lemma_nested_cons::<SampleAuxiliaryInformationOffsetsBox>(v.saio[j - n18], Seq::empty());
    } else if j < n20 {
        assert(cs[j] == s19[j - n19]);
        assert(nested_ok::<CompactSampleToGroupBox>(v.csgp[j - n19]));
        lemma_nested_cons::<CompactSampleToGroupBox>(v.csgp[j - n19], Seq::empty());
    }
}

/// Collecting over the lists of a stbl one after the other collects over each in
/// turn.
proof fn lemma_stbl_split<T: BoxBody>(m0: Seq<UnknownBoxModel>, m1: Seq<UnknownBoxModel>, m2: Seq<UnknownBoxModel>, m3: Seq<UnknownBoxModel>, m4: Seq<UnknownBoxModel>, m5: Seq<UnknownBoxModel>, m6: Seq<UnknownBoxModel>, m7: Seq<UnknownBoxModel>, m8: Seq<UnknownBoxModel>, m9: Seq<UnknownBoxModel>, m10: Seq<UnknownBoxModel>, m11: Seq<UnknownBoxModel>, m12: Seq<UnknownBoxModel>, m13: Seq<UnknownBoxModel>, m14: Seq<UnknownBoxModel>, m15: Seq<UnknownBoxModel>, m16: Seq<UnknownBoxModel>, m17: Seq<UnknownBoxModel>, m18: Seq<UnknownBoxModel>, m19: Seq<UnknownBoxModel>)
    ensures
        collect_children::<T>(m0 + m1 + m2 + m3 + m4 + m5 + m6 + m7 + m8 + m9 + m10 + m11 + m12 + m13 + m14 + m15 + m16 + m17 + m18 + m19) == collect_children::<T>(m0) + collect_children::<T>(m1) + collect_children::<T>(m2) + collect_children::<T>(m3) + collect_children::<T>(m4) + collect_children::<T>(m5) + collect_children::<T>(m6) + collect_children::<T>(m7) + collect_children::<T>(m8) + collect_children::<T>(m9) + collect_children::<T>(m10) + collect_children::<T>(m11) + collect_children::<T>(m12) + collect_children::<T>(m13) + collect_children::<T>(m14) + collect_children::<T>(m15) + collect_children::<T>(m16) + collect_children::<T>(m17) + collect_children::<T>(m18) + collect_children::<T>(m19),
{
    lemma_collect_add::<T>(m0 + m1 + m2 + m3 + m4 + m5 + m6 + m7 + m8 + m9 + m10 + m11 + m12 + m13 + m14 + m15 + m16 + m17 + m18, m19);
    lemma_collect_add::<T>(m0 + m1 + m2 + m3 + m4 + m5 + m6 + m7 + m8 + m9 + m10 + m11 + m12 + m13 + m14 + m15 + m16 + m17, m18);
    lemma_collect_add::<T>(m0 + m1 + m2 + m3 + m4 + m5 + m6 + m7 + m8 + m9 + m10 + m11 + m12 + m13 + m14 + m15 + m16, m17);
    lemma_collect_add::<T>(m0 + m1 + m2 + m3 + m4 + m5 + m6 + m7 + m8 + m9 + m10 + m11 + m12 + m13 + m14 + m15, m16);
    lemma_collect_add::<T>(m0 + m1 + m2 + m3 + m4 + m5 + m6 + m7 + m8 + m9 + m10 + m11 + m12 + m13 + m14, m15);
    lemma_collect_add::<T>(m0 + m1 + m2 + m3 + m4 + m5 + m6 + m7 + m8 + m9 + m10 + m11 + m12 + m13, m14);
    lemma_collect_add::<T>(m0 + m1 + m2 + m3 + m4 + m5 + m6 + m7 + m8 + m9 + m10 + m11 + m12, m13);
    lemma_collect_add::<T>(m0 + m1 + m2 + m3 + m4 + m5 + m6 + m7 + m8 + m9 + m10 + m11, m12);
    lemma_collect_add::<T>(m0 + m1 + m2 + m3 + m4 + m5 + m6 + m7 + m8 + m9 + m10, m11);
    lemma_collect_add::<T>(m0 + m1 + m2 + m3 + m4 + m5 + m6 + m7 + m8 + m9, m10);
    lemma_collect_add::<T>(m0 + m1 + m2 + m3 + m4 + m5 + m6 + m7 + m8, m9);
    lemma_collect_add::<T>(m0 + m1 + m2 + m3 + m4 + m5 + m6 + m7, m8);
    lemma_collect_add::<T>(m0 + m1 + m2 + m3 + m4 + m5 + m6, m7);
    lemma_collect_add::<T>(m0 + m1 + m2 + m3 + m4 + m5, m6);
    lemma_collect_add::<T>(m0 + m1 + m2 + m3 + m4, m5);
    lemma_collect_add::<T>(m0 + m1 + m2 + m3, m4);
    lemma_collect_add::<T>(m0 + m1 + m2, m3);
    lemma_collect_add::<T>(m0 + m1, m2);
    lemma_collect_add::<T>(m0, m1);
}

/// The boxes that a stbl writes collect back into its field `stsd`.
#[verifier::spinoff_prover]
#[verifier::rlimit(60)]
proof fn lemma_stbl_collect_stsd(v: SampleTableBoxModel)
    requires
        stbl_canonical(v),
        stbl_types_differ(),
    ensures
        collect_children::<SampleDescriptionBox>(stbl_models(v)) == seq![v.stsd],
{
    lemma_stbl_split::<SampleDescriptionBox>(seq![nested_model::<SampleDescriptionBox>(v.stsd)], seq![nested_model::<TimeToSampleBox>(v.stts)], nested_opt_models::<CompositionOffsetBox>(v.ctts), nested_opt_models::<CompositionToDecodeBox>(v.cslg), seq![nested_model::<SampleToChunkBox>(v.stsc)], nested_opt_models::<SampleSizeBox>(v.stsz), nested_opt_models::<CompactSampleSizeBox>(v.stz2), nested_opt_models::<ChunkOffsetBox>(v.stco), nested_opt_models::<ChunkLargeOffsetBox>(v.co64), nested_opt_models::<SyncSampleBox>(v.stss), nested_opt_models::<ShadowSyncSampleBox>(v.stsh), nested_opt_models::<PaddingBitsBox>(v.padb), nested_opt_models::<DegradationPriorityBox>(v.stdp), nested_opt_models::<SampleDependencyTypeBox>(v.sdtp), nested_models::<SampleToGroupBox>(v.sbgp), nested_models::<SampleGroupDescriptionBox>(v.sgpd), nested_models::<SubSampleInformationBox>(v.subs), nested_models::<SampleAuxiliaryInformationSizesBox>(v.saiz), nested_models::<SampleAuxiliaryInformationOffsetsBox>(v.saio), nested_models::<CompactSampleToGroupBox>(v.csgp));
    lemma_nested_opt_own::<SampleDescriptionBox>(Some(v.stsd));
    assert(nested_opt_models::<SampleDescriptionBox>(Some(v.stsd)) == seq![nested_model::<SampleDescriptionBox>(v.stsd)]);
    lemma_nested_opt_other::<SampleDescriptionBox, TimeToSampleBox>(Some(v.stts));
    assert(nested_opt_models::<TimeToSampleBox>(Some(v.stts)) == seq![nested_model::<TimeToSampleBox>(v.stts)]);
    lemma_nested_opt_other::<SampleDescriptionBox, CompositionOffsetBox>(v.ctts);
    lemma_nested_opt_other::<SampleDescriptionBox, CompositionToDecodeBox>(v.cslg);
    lemma_nested_opt_other::<SampleDescriptionBox, SampleToChunkBox>(Some(v.stsc));
    assert(nested_opt_models::<SampleToChunkBox>(Some(v.stsc)) == seq![nested_model::<SampleToChunkBox>(v.stsc)]);
    lemma_nested_opt_other::<SampleDescriptionBox, SampleSizeBox>(v.stsz);
    lemma_nested_opt_other::<SampleDescriptionBox, CompactSampleSizeBox>(v.stz2);
    lemma_nested_opt_other::<SampleDescriptionBox, ChunkOffsetBox>(v.stco);
    lemma_nested_opt_other::<SampleDescriptionBox, ChunkLargeOffsetBox>(v.co64);
    lemma_nested_opt_other::<SampleDescriptionBox, SyncSampleBox>(v.stss);
    lemma_nested_opt_other::<SampleDescriptionBox, ShadowSyncSampleBox>(v.stsh);
    lemma_nested_opt_other::<SampleDescriptionBox, PaddingBitsBox>(v.padb);
    lemma_nested_opt_other::<SampleDescriptionBox, DegradationPriorityBox>(v.stdp);
    lemma_nested_opt_other::<SampleDescriptionBox, SampleDependencyTypeBox>(v.sdtp);
    lemma_nested_collect_other::<SampleDescriptionBox, SampleToGroupBox>(v.sbgp);
    lemma_nested_collect_other::<SampleDescriptionBox, SampleGroupDescriptionBox>(v.sgpd);
    lemma_nested_collect_other::<SampleDescriptionBox, SubSampleInformationBox>(v.subs);
    lemma_nested_collect_other::<SampleDescriptionBox, SampleAuxiliaryInformationSizesBox>(v.saiz);
    lemma_nested_collect_other::<SampleDescriptionBox, SampleAuxiliaryInformationOffsetsBox>(v.saio);
    lemma_nested_collect_other::<SampleDescriptionBox, CompactSampleToGroupBox>(v.csgp);
    assert(collect_children::<SampleDescriptionBox>(stbl_models(v)) =~= seq![v.stsd]);
}

/// The boxes that a stbl writes collect back into its field `stts`.
#[verifier::spinoff_prover]
#[verifier::rlimit(60)]
proof fn lemma_stbl_collect_stts(v: SampleTableBoxModel)
    requires
        stbl_canonical(v),
        stbl_types_differ(),
    ensures
        collect_children::<TimeToSampleBox>(stbl_models(v)) == seq![v.stts],
{
    lemma_stbl_split::<TimeToSampleBox>(seq![nested_model::<SampleDescriptionBox>(v.stsd)], seq![nested_model::<TimeToSampleBox>(v.stts)], nested_opt_models::<CompositionOffsetBox>(v.ctts), nested_opt_models::<CompositionToDecodeBox>(v.cslg), seq![nested_model::<SampleToChunkBox>(v.stsc)], nested_opt_models::<SampleSizeBox>(v.stsz), nested_opt_models::<CompactSampleSizeBox>(v.stz2), nested_opt_models::<ChunkOffsetBox>(v.stco), nested_opt_models::<ChunkLargeOffsetBox>(v.co64), nested_opt_models::<SyncSampleBox>(v.stss), nested_opt_models::<ShadowSyncSampleBox>(v.stsh), nested_opt_models::<PaddingBitsBox>(v.padb), nested_opt_models::<DegradationPriorityBox>(v.stdp), nested_opt_models::<SampleDependencyTypeBox>(v.sdtp), nested_models::<SampleToGroupBox>(v.sbgp), nested_models::<SampleGroupDescriptionBox>(v.sgpd), nested_models::<SubSampleInformationBox>(v.subs), nested_models::<SampleAuxiliaryInformationSizesBox>(v.saiz), nested_models::<SampleAuxiliaryInformationOffsetsBox>(v.saio), nested_models::<CompactSampleToGroupBox>(v.csgp));
    lemma_nested_opt_other::<TimeToSampleBox, SampleDescriptionBox>(Some(v.stsd));
    assert(nested_opt_models::<SampleDescriptionBox>(Some(v.stsd)) == seq![nested_model::<SampleDescriptionBox>(v.stsd)]);
    lemma_nested_opt_own::<TimeToSampleBox>(Some(v.stts));
    assert(nested_opt_models::<TimeToSampleBox>(Some(v.stts)) == seq![nested_model::<TimeToSampleBox>(v.stts)]);
    lemma_nested_opt_other::<TimeToSampleBox, CompositionOffsetBox>(v.ctts);
    lemma_nested_opt_other::<TimeToSampleBox, CompositionToDecodeBox>(v.cslg);
    lemma_nested_opt_other::<TimeToSampleBox, SampleToChunkBox>(Some(v.stsc));
    assert(nested_opt_models::<SampleToChunkBox>(Some(v.stsc)) == seq![nested_model::<SampleToChunkBox>(v.stsc)]);
    lemma_nested_opt_other::<TimeToSampleBox, SampleSizeBox>(v.stsz);
    lemma_nested_opt_other::<TimeToSampleBox, CompactSampleSizeBox>(v.stz2);
    lemma_nested_opt_other::<TimeToSampleBox, ChunkOffsetBox>(v.stco);
    lemma_nested_opt_other::<TimeToSampleBox, ChunkLargeOffsetBox>(v.co64);
    lemma_nested_opt_other::<TimeToSampleBox, SyncSampleBox>(v.stss);
    lemma_nested_opt_other::<TimeToSampleBox, ShadowSyncSampleBox>(v.stsh);
    lemma_nested_opt_other::<TimeToSampleBox, PaddingBitsBox>(v.padb);
    lemma_nested_opt_other::<TimeToSampleBox, DegradationPriorityBox>(v.stdp);
    lemma_nested_opt_other::<TimeToSampleBox, SampleDependencyTypeBox>(v.sdtp);
    lemma_nested_collect_other::<TimeToSampleBox, SampleToGroupBox>(v.sbgp);
    lemma_nested_collect_other::<TimeToSampleBox, SampleGroupDescriptionBox>(v.sgpd);
    lemma_nested_collect_other::<TimeToSampleBox, SubSampleInformationBox>(v.subs);
    lemma_nested_collect_other::<TimeToSampleBox, SampleAuxiliaryInformationSizesBox>(v.saiz);
    lemma_nested_collect_other::<TimeToSampleBox, SampleAuxiliaryInformationOffsetsBox>(v.saio);
    lemma_nested_collect_other::<TimeToSampleBox, CompactSampleToGroupBox>(v.csgp);
    assert(collect_children::<TimeToSampleBox>(stbl_models(v)) =~= seq![v.stts]);
}

/// The boxes that a stbl writes collect back into its field `ctts`.
#[verifier::spinoff_prover]
#[verifier::rlimit(60)]
proof fn lemma_stbl_collect_ctts(v: SampleTableBoxModel)
    requires
        stbl_canonical(v),
        stbl_types_differ(),
    ensures
        collect_children::<CompositionOffsetBox>(stbl_models(v)) == opt_seq(v.ctts),
{
    lemma_stbl_split::<CompositionOffsetBox>(seq![nested_model::<SampleDescriptionBox>(v.stsd)], seq![nested_model::<TimeToSampleBox>(v.stts)], nested_opt_models::<CompositionOffsetBox>(v.ctts), nested_opt_models::<CompositionToDecodeBox>(v.cslg), seq![nested_model::<SampleToChunkBox>(v.stsc)], nested_opt_models::<SampleSizeBox>(v.stsz), nested_opt_models::<CompactSampleSizeBox>(v.stz2), nested_opt_models::<ChunkOffsetBox>(v.stco), nested_opt_models::<ChunkLargeOffsetBox>(v.co64), nested_opt_models::<SyncSampleBox>(v.stss), nested_opt_models::<ShadowSyncSampleBox>(v.stsh), nested_opt_models::<PaddingBitsBox>(v.padb), nested_opt_models::<DegradationPriorityBox>(v.stdp), nested_opt_models::<SampleDependencyTypeBox>(v.sdtp), nested_models::<SampleToGroupBox>(v.sbgp), nested_models::<SampleGroupDescriptionBox>(v.sgpd), nested_models::<SubSampleInformationBox>(v.subs), nested_models::<SampleAuxiliaryInformationSizesBox>(v.saiz), nested_models::<SampleAuxiliaryInformationOffsetsBox>(v.saio), nested_models::<CompactSampleToGroupBox>(v.csgp));
    lemma_nested_opt_other::<CompositionOffsetBox, SampleDescriptionBox>(Some(v.stsd));
    assert(nested_opt_models::<SampleDescriptionBox>(Some(v.stsd)) == seq![nested_model::<SampleDescriptionBox>(v.stsd)]);
    lemma_nested_opt_other::<CompositionOffsetBox, TimeToSampleBox>(Some(v.stts));
    assert(nested_opt_models::<TimeToSampleBox>(Some(v.stts)) == seq![nested_model::<TimeToSampleBox>(v.stts)]);
    lemma_nested_opt_own::<CompositionOffsetBox>(v.ctts);
    lemma_nested_opt_other::<CompositionOffsetBox, CompositionToDecodeBox>(v.cslg);
    lemma_nested_opt_other::<CompositionOffsetBox, SampleToChunkBox>(Some(v.stsc));
    assert(nested_opt_models::<SampleToChunkBox>(Some(v.stsc)) == seq![nested_model::<SampleToChunkBox>(v.stsc)]);
    lemma_nested_opt_other::<CompositionOffsetBox, SampleSizeBox>(v.stsz);
    lemma_nested_opt_other::<CompositionOffsetBox, CompactSampleSizeBox>(v.stz2);
    lemma_nested_opt_other::<CompositionOffsetBox, ChunkOffsetBox>(v.stco);
    lemma_nested_opt_other::<CompositionOffsetBox, ChunkLargeOffsetBox>(v.co64);
    lemma_nested_opt_other::<CompositionOffsetBox, SyncSampleBox>(v.stss);
    lemma_nested_opt_other::<CompositionOffsetBox, ShadowSyncSampleBox>(v.stsh);
    lemma_nested_opt_other::<CompositionOffsetBox, PaddingBitsBox>(v.padb);
    lemma_nested_opt_other::<CompositionOffsetBox, DegradationPriorityBox>(v.stdp);
    lemma_nested_opt_other::<CompositionOffsetBox, SampleDependencyTypeBox>(v.sdtp);
    lemma_nested_collect_other::<CompositionOffsetBox, SampleToGroupBox>(v.sbgp);
    lemma_nested_collect_other::<CompositionOffsetBox, SampleGroupDescriptionBox>(v.sgpd);
    lemma_nested_collect_other::<CompositionOffsetBox, SubSampleInformationBox>(v.subs);
    lemma_nested_collect_other::<CompositionOffsetBox, SampleAuxiliaryInformationSizesBox>(v.saiz);
    lemma_nested_collect_other::<CompositionOffsetBox, SampleAuxiliaryInformationOffsetsBox>(v.saio);
    lemma_nested_collect_other::<CompositionOffsetBox, CompactSampleToGroupBox>(v.csgp);
    assert(collect_children::<CompositionOffsetBox>(stbl_models(v)) =~= opt_seq(v.ctts));
}

/// The boxes that a stbl writes collect back into its field `cslg`.
#[verifier::spinoff_prover]
#[verifier::rlimit(60)]
proof fn lemma_stbl_collect_cslg(v: SampleTableBoxModel)
    requires
        stbl_canonical(v),
        stbl_types_differ(),
    ensures
        collect_children::<CompositionToDecodeBox>(stbl_models(v)) == opt_seq(v.cslg),
{
    lemma_stbl_split::<CompositionToDecodeBox>(seq![nested_model::<SampleDescriptionBox>(v.stsd)], seq![nested_model::<TimeToSampleBox>(v.stts)], nested_opt_models::<CompositionOffsetBox>(v.ctts), nested_opt_models::<CompositionToDecodeBox>(v.cslg), seq![nested_model::<SampleToChunkBox>(v.stsc)], nested_opt_models::<SampleSizeBox>(v.stsz), nested_opt_models::<CompactSampleSizeBox>(v.stz2), nested_opt_models::<ChunkOffsetBox>(v.stco), nested_opt_models::<ChunkLargeOffsetBox>(v.co64), nested_opt_models::<SyncSampleBox>(v.stss), nested_opt_models::<ShadowSyncSampleBox>(v.stsh), nested_opt_models::<PaddingBitsBox>(v.padb), nested_opt_models::<DegradationPriorityBox>(v.stdp), nested_opt_models::<SampleDependencyTypeBox>(v.sdtp), nested_models::<SampleToGroupBox>(v.sbgp), nested_models::<SampleGroupDescriptionBox>(v.sgpd), nested_models::<SubSampleInformationBox>(v.subs), nested_models::<SampleAuxiliaryInformationSizesBox>(v.saiz), nested_models::<SampleAuxiliaryInformationOffsetsBox>(v.saio), nested_models::<CompactSampleToGroupBox>(v.csgp));
    lemma_nested_opt_other::<CompositionToDecodeBox, SampleDescriptionBox>(Some(v.stsd));
    assert(nested_opt_models::<SampleDescriptionBox>(Some(v.stsd)) == seq![nested_model::<SampleDescriptionBox>(v.stsd)]);
    lemma_nested_opt_other::<CompositionToDecodeBox, TimeToSampleBox>(Some(v.stts));
    assert(nested_opt_models::<TimeToSampleBox>(Some(v.stts)) == seq![nested_model::<TimeToSampleBox>(v.stts)]);
    lemma_nested_opt_other::<CompositionToDecodeBox, CompositionOffsetBox>(v.ctts);
    lemma_nested_opt_own::<CompositionToDecodeBox>(v.cslg);
    lemma_nested_opt_other::<CompositionToDecodeBox, SampleToChunkBox>(Some(v.stsc));
    assert(nested_opt_models::<SampleToChunkBox>(Some(v.stsc)) == seq![nested_model::<SampleToChunkBox>(v.stsc)]);
    lemma_nested_opt_other::<CompositionToDecodeBox, SampleSizeBox>(v.stsz);
    lemma_nested_opt_other::<CompositionToDecodeBox, CompactSampleSizeBox>(v.stz2);
    lemma_nested_opt_other::<CompositionToDecodeBox, ChunkOffsetBox>(v.stco);
    lemma_nested_opt_other::<CompositionToDecodeBox, ChunkLargeOffsetBox>(v.co64);
    lemma_nested_opt_other::<CompositionToDecodeBox, SyncSampleBox>(v.stss);
    lemma_nested_opt_other::<CompositionToDecodeBox, ShadowSyncSampleBox>(v.stsh);
    lemma_nested_opt_other::<CompositionToDecodeBox, PaddingBitsBox>(v.padb);
    lemma_nested_opt_other::<CompositionToDecodeBox, DegradationPriorityBox>(v.stdp);
    lemma_nested_opt_other::<CompositionToDecodeBox, SampleDependencyTypeBox>(v.sdtp);
    lemma_nested_collect_other::<CompositionToDecodeBox, SampleToGroupBox>(v.sbgp);
    lemma_nested_collect_other::<CompositionToDecodeBox, SampleGroupDescriptionBox>(v.sgpd);
    lemma_nested_collect_other::<CompositionToDecodeBox, SubSampleInformationBox>(v.subs);
    lemma_nested_collect_other::<CompositionToDecodeBox, SampleAuxiliaryInformationSizesBox>(v.saiz);
    lemma_nested_collect_other::<CompositionToDecodeBox, SampleAuxiliaryInformationOffsetsBox>(v.saio);
    lemma_nested_collect_other::<CompositionToDecodeBox, CompactSampleToGroupBox>(v.csgp);
    assert(collect_children::<CompositionToDecodeBox>(stbl_models(v)) =~= opt_seq(v.cslg));
}

/// The boxes that a stbl writes collect back into its field `stsc`.
#[verifier::spinoff_prover]
#[verifier::rlimit(60)]
proof fn lemma_stbl_collect_stsc(v: SampleTableBoxModel)
    requires
        stbl_canonical(v),
        stbl_types_differ(),
    ensures
        collect_children::<SampleToChunkBox>(stbl_models(v)) == seq![v.stsc],
{
    lemma_stbl_split::<SampleToChunkBox>(seq![nested_model::<SampleDescriptionBox>(v.stsd)], seq![nested_model::<TimeToSampleBox>(v.stts)], nested_opt_models::<CompositionOffsetBox>(v.ctts), nested_opt_models::<CompositionToDecodeBox>(v.cslg), seq![nested_model::<SampleToChunkBox>(v.stsc)], nested_opt_models::<SampleSizeBox>(v.stsz), nested_opt_models::<CompactSampleSizeBox>(v.stz2), nested_opt_models::<ChunkOffsetBox>(v.stco), nested_opt_models::<ChunkLargeOffsetBox>(v.co64), nested_opt_models::<SyncSampleBox>(v.stss), nested_opt_models::<ShadowSyncSampleBox>(v.stsh), nested_opt_models::<PaddingBitsBox>(v.padb), nested_opt_models::<DegradationPriorityBox>(v.stdp), nested_opt_models::<SampleDependencyTypeBox>(v.sdtp), nested_models::<SampleToGroupBox>(v.sbgp), nested_models::<SampleGroupDescriptionBox>(v.sgpd), nested_models::<SubSampleInformationBox>(v.subs), nested_models::<SampleAuxiliaryInformationSizesBox>(v.saiz), nested_models::<SampleAuxiliaryInformationOffsetsBox>(v.saio), nested_models::<CompactSampleToGroupBox>(v.csgp));
    lemma_nested_opt_other::<SampleToChunkBox, SampleDescriptionBox>(Some(v.stsd));
    assert(nested_opt_models::<SampleDescriptionBox>(Some(v.stsd)) == seq![nested_model::<SampleDescriptionBox>(v.stsd)]);
    lemma_nested_opt_other::<SampleToChunkBox, TimeToSampleBox>(Some(v.stts));
    assert(nested_opt_models::<TimeToSampleBox>(Some(v.stts)) == seq![nested_model::<TimeToSampleBox>(v.stts)]);
    lemma_nested_opt_other::<SampleToChunkBox, CompositionOffsetBox>(v.ctts);
    lemma_nested_opt_other::<SampleToChunkBox, CompositionToDecodeBox>(v.cslg);
    lemma_nested_opt_own::<SampleToChunkBox>(Some(v.stsc));
    assert(nested_opt_models::<SampleToChunkBox>(Some(v.stsc)) == seq![nested_model::<SampleToChunkBox>(v.stsc)]);
    lemma_nested_opt_other::<SampleToChunkBox, SampleSizeBox>(v.stsz);
    lemma_nested_opt_other::<SampleToChunkBox, CompactSampleSizeBox>(v.stz2);
    lemma_nested_opt_other::<SampleToChunkBox, ChunkOffsetBox>(v.stco);
    lemma_nested_opt_other::<SampleToChunkBox, ChunkLargeOffsetBox>(v.co64);
    lemma_nested_opt_other::<SampleToChunkBox, SyncSampleBox>(v.stss);
    lemma_nested_opt_other::<SampleToChunkBox, ShadowSyncSampleBox>(v.stsh);
    lemma_nested_opt_other::<SampleToChunkBox, PaddingBitsBox>(v.padb);
    lemma_nested_opt_other::<SampleToChunkBox, DegradationPriorityBox>(v.stdp);
    lemma_nested_opt_other::<SampleToChunkBox, SampleDependencyTypeBox>(v.sdtp);
    lemma_nested_collect_other::<SampleToChunkBox, SampleToGroupBox>(v.sbgp);
    lemma_nested_collect_other::<SampleToChunkBox, SampleGroupDescriptionBox>(v.sgpd);
    lemma_nested_collect_other::<SampleToChunkBox, SubSampleInformationBox>(v.subs);
    lemma_nested_collect_other::<SampleToChunkBox, SampleAuxiliaryInformationSizesBox>(v.saiz);
    lemma_nested_collect_other::<SampleToChunkBox, SampleAuxiliaryInformationOffsetsBox>(v.saio);
    lemma_nested_collect_other::<SampleToChunkBox, CompactSampleToGroupBox>(v.csgp);
    assert(collect_children::<SampleToChunkBox>(stbl_models(v)) =~= seq![v.stsc]);
}

/// The boxes that a stbl writes collect back into its field `stsz`.
#[verifier::spinoff_prover]
#[verifier::rlimit(60)]
proof fn lemma_stbl_collect_stsz(v: SampleTableBoxModel)
    requires
        stbl_canonical(v),
        stbl_types_differ(),
    ensures
        collect_children::<SampleSizeBox>(stbl_models(v)) == opt_seq(v.stsz),
{
    lemma_stbl_split::<SampleSizeBox>(seq![nested_model::<SampleDescriptionBox>(v.stsd)], seq![nested_model::<TimeToSampleBox>(v.stts)], nested_opt_models::<CompositionOffsetBox>(v.ctts), nested_opt_models::<CompositionToDecodeBox>(v.cslg), seq![nested_model::<SampleToChunkBox>(v.stsc)], nested_opt_models::<SampleSizeBox>(v.stsz), nested_opt_models::<CompactSampleSizeBox>(v.stz2), nested_opt_models::<ChunkOffsetBox>(v.stco), nested_opt_models::<ChunkLargeOffsetBox>(v.co64), nested_opt_models::<SyncSampleBox>(v.stss), nested_opt_models::<ShadowSyncSampleBox>(v.stsh), nested_opt_models::<PaddingBitsBox>(v.padb), nested_opt_models::<DegradationPriorityBox>(v.stdp), nested_opt_models::<SampleDependencyTypeBox>(v.sdtp), nested_models::<SampleToGroupBox>(v.sbgp), nested_models::<SampleGroupDescriptionBox>(v.sgpd), nested_models::<SubSampleInformationBox>(v.subs), nested_models::<SampleAuxiliaryInformationSizesBox>(v.saiz), nested_models::<SampleAuxiliaryInformationOffsetsBox>(v.saio), nested_models::<CompactSampleToGroupBox>(v.csgp));
    lemma_nested_opt_other::<SampleSizeBox, SampleDescriptionBox>(Some(v.stsd));
    assert(nested_opt_models::<SampleDescriptionBox>(Some(v.stsd)) == seq![nested_model::<SampleDescriptionBox>(v.stsd)]);
    lemma_nested_opt_other::<SampleSizeBox, TimeToSampleBox>(Some(v.stts));
    assert(nested_opt_models::<TimeToSampleBox>(Some(v.stts)) == seq![nested_model::<TimeToSampleBox>(v.stts)]);
    lemma_nested_opt_other::<SampleSizeBox, CompositionOffsetBox>(v.ctts);
    lemma_nested_opt_other::<SampleSizeBox, CompositionToDecodeBox>(v.cslg);
    lemma_nested_opt_other::<SampleSizeBox, SampleToChunkBox>(Some(v.stsc));
    assert(nested_opt_models::<SampleToChunkBox>(Some(v.stsc)) == seq![nested_model::<SampleToChunkBox>(v.stsc)]);
    lemma_nested_opt_own::<SampleSizeBox>(v.stsz);
    lemma_nested_opt_other::<SampleSizeBox, CompactSampleSizeBox>(v.stz2);
    lemma_nested_opt_other::<SampleSizeBox, ChunkOffsetBox>(v.stco);
    lemma_nested_opt_other::<SampleSizeBox, ChunkLargeOffsetBox>(v.co64);
    lemma_nested_opt_other::<SampleSizeBox, SyncSampleBox>(v.stss);
    lemma_nested_opt_other::<SampleSizeBox, ShadowSyncSampleBox>(v.stsh);
    lemma_nested_opt_other::<SampleSizeBox, PaddingBitsBox>(v.padb);
    lemma_nested_opt_other::<SampleSizeBox, DegradationPriorityBox>(v.stdp);
    lemma_nested_opt_other::<SampleSizeBox, SampleDependencyTypeBox>(v.sdtp);
    lemma_nested_collect_other::<SampleSizeBox, SampleToGroupBox>(v.sbgp);
    lemma_nested_collect_other::<SampleSizeBox, SampleGroupDescriptionBox>(v.sgpd);
    lemma_nested_collect_other::<SampleSizeBox, SubSampleInformationBox>(v.subs);
    lemma_nested_collect_other::<SampleSizeBox, SampleAuxiliaryInformationSizesBox>(v.saiz);
    lemma_nested_collect_other::<SampleSizeBox, SampleAuxiliaryInformationOffsetsBox>(v.saio);
    lemma_nested_collect_other::<SampleSizeBox, CompactSampleToGroupBox>(v.csgp);
    assert(collect_children::<SampleSizeBox>(stbl_models(v)) =~= opt_seq(v.stsz));
}

/// The boxes that a stbl writes collect back into its field `stz2`.
#[verifier::spinoff_prover]
#[verifier::rlimit(60)]
proof fn lemma_stbl_collect_stz2(v: SampleTableBoxModel)
    requires
        stbl_canonical(v),
        stbl_types_differ(),
    ensures
        collect_children::<CompactSampleSizeBox>(stbl_models(v)) == opt_seq(v.stz2),
{
    lemma_stbl_split::<CompactSampleSizeBox>(seq![nested_model::<SampleDescriptionBox>(v.stsd)], seq![nested_model::<TimeToSampleBox>(v.stts)], nested_opt_models::<CompositionOffsetBox>(v.ctts), nested_opt_models::<CompositionToDecodeBox>(v.cslg), seq![nested_model::<SampleToChunkBox>(v.stsc)], nested_opt_models::<SampleSizeBox>(v.stsz), nested_opt_models::<CompactSampleSizeBox>(v.stz2), nested_opt_models::<ChunkOffsetBox>(v.stco), nested_opt_models::<ChunkLargeOffsetBox>(v.co64), nested_opt_models::<SyncSampleBox>(v.stss), nested_opt_models::<ShadowSyncSampleBox>(v.stsh), nested_opt_models::<PaddingBitsBox>(v.padb), nested_opt_models::<DegradationPriorityBox>(v.stdp), nested_opt_models::<SampleDependencyTypeBox>(v.sdtp), nested_models::<SampleToGroupBox>(v.sbgp), nested_models::<SampleGroupDescriptionBox>(v.sgpd), nested_models::<SubSampleInformationBox>(v.subs), nested_models::<SampleAuxiliaryInformationSizesBox>(v.saiz), nested_models::<SampleAuxiliaryInformationOffsetsBox>(v.saio), nested_models::<CompactSampleToGroupBox>(v.csgp));
    lemma_nested_opt_other::<CompactSampleSizeBox, SampleDescriptionBox>(Some(v.stsd));
    assert(nested_opt_models::<SampleDescriptionBox>(Some(v.stsd)) == seq![nested_model::<SampleDescriptionBox>(v.stsd)]);
    lemma_nested_opt_other::<CompactSampleSizeBox, TimeToSampleBox>(Some(v.stts));
    assert(nested_opt_models::<TimeToSampleBox>(Some(v.stts)) == seq![nested_model::<TimeToSampleBox>(v.stts)]);
    lemma_nested_opt_other::<CompactSampleSizeBox, CompositionOffsetBox>(v.ctts);
    lemma_nested_opt_other::<CompactSampleSizeBox, CompositionToDecodeBox>(v.cslg);
    lemma_nested_opt_other::<CompactSampleSizeBox, SampleToChunkBox>(Some(v.stsc));
    assert(nested_opt_models::<SampleToChunkBox>(Some(v.stsc)) == seq![nested_model::<SampleToChunkBox>(v.stsc)]);
    lemma_nested_opt_other::<CompactSampleSizeBox, SampleSizeBox>(v.stsz);
    lemma_nested_opt_own::<CompactSampleSizeBox>(v.stz2);
    lemma_nested_opt_other::<CompactSampleSizeBox, ChunkOffsetBox>(v.stco);
    lemma_nested_opt_other::<CompactSampleSizeBox, ChunkLargeOffsetBox>(v.co64);
    lemma_nested_opt_other::<CompactSampleSizeBox, SyncSampleBox>(v.stss);
    lemma_nested_opt_other::<CompactSampleSizeBox, ShadowSyncSampleBox>(v.stsh);
    lemma_nested_opt_other::<CompactSampleSizeBox, PaddingBitsBox>(v.padb);
    lemma_nested_opt_other::<CompactSampleSizeBox, DegradationPriorityBox>(v.stdp);
    lemma_nested_opt_other::<CompactSampleSizeBox, SampleDependencyTypeBox>(v.sdtp);
    lemma_nested_collect_other::<CompactSampleSizeBox, SampleToGroupBox>(v.sbgp);
    lemma_nested_collect_other::<CompactSampleSizeBox, SampleGroupDescriptionBox>(v.sgpd);
    lemma_nested_collect_other::<CompactSampleSizeBox, SubSampleInformationBox>(v.subs);
    lemma_nested_collect_other::<CompactSampleSizeBox, SampleAuxiliaryInformationSizesBox>(v.saiz);
    lemma_nested_collect_other::<CompactSampleSizeBox, SampleAuxiliaryInformationOffsetsBox>(v.saio);
    lemma_nested_collect_other::<CompactSampleSizeBox, CompactSampleToGroupBox>(v.csgp);
    assert(collect_children::<CompactSampleSizeBox>(stbl_models(v)) =~= opt_seq(v.stz2));
}

/// The boxes that a stbl writes collect back into its field `stco`.
#[verifier::spinoff_prover]
#[verifier::rlimit(60)]
proof fn lemma_stbl_collect_stco(v: SampleTableBoxModel)
    requires
        stbl_canonical(v),
        stbl_types_differ(),
    ensures
        collect_children::<ChunkOffsetBox>(stbl_models(v)) == opt_seq(v.stco),
{
    lemma_stbl_split::<ChunkOffsetBox>(seq![nested_model::<SampleDescriptionBox>(v.stsd)], seq![nested_model::<TimeToSampleBox>(v.stts)], nested_opt_models::<CompositionOffsetBox>(v.ctts), nested_opt_models::<CompositionToDecodeBox>(v.cslg), seq![nested_model::<SampleToChunkBox>(v.stsc)], nested_opt_models::<SampleSizeBox>(v.stsz), nested_opt_models::<CompactSampleSizeBox>(v.stz2), nested_opt_models::<ChunkOffsetBox>(v.stco), nested_opt_models::<ChunkLargeOffsetBox>(v.co64), nested_opt_models::<SyncSampleBox>(v.stss), nested_opt_models::<ShadowSyncSampleBox>(v.stsh), nested_opt_models::<PaddingBitsBox>(v.padb), nested_opt_models::<DegradationPriorityBox>(v.stdp), nested_opt_models::<SampleDependencyTypeBox>(v.sdtp), nested_models::<SampleToGroupBox>(v.sbgp), nested_models::<SampleGroupDescriptionBox>(v.sgpd), nested_models::<SubSampleInformationBox>(v.subs), nested_models::<SampleAuxiliaryInformationSizesBox>(v.saiz), nested_models::<SampleAuxiliaryInformationOffsetsBox>(v.saio), nested_models::<CompactSampleToGroupBox>(v.csgp));
    lemma_nested_opt_other::<ChunkOffsetBox, SampleDescriptionBox>(Some(v.stsd));
    assert(nested_opt_models::<SampleDescriptionBox>(Some(v.stsd)) == seq![nested_model::<SampleDescriptionBox>(v.stsd)]);
    lemma_nested_opt_other::<ChunkOffsetBox, TimeToSampleBox>(Some(v.stts));
    assert(nested_opt_models::<TimeToSampleBox>(Some(v.stts)) == seq![nested_model::<TimeToSampleBox>(v.stts)]);
    lemma_nested_opt_other::<ChunkOffsetBox, CompositionOffsetBox>(v.ctts);
    lemma_nested_opt_other::<ChunkOffsetBox, CompositionToDecodeBox>(v.cslg);
    lemma_nested_opt_other::<ChunkOffsetBox, SampleToChunkBox>(Some(v.stsc));
    assert(nested_opt_models::<SampleToChunkBox>(Some(v.stsc)) == seq![nested_model::<SampleToChunkBox>(v.stsc)]);
    lemma_nested_opt_other::<ChunkOffsetBox, SampleSizeBox>(v.stsz);
    lemma_nested_opt_other::<ChunkOffsetBox, CompactSampleSizeBox>(v.stz2);
    lemma_nested_opt_own::<ChunkOffsetBox>(v.stco);
    lemma_nested_opt_other::<ChunkOffsetBox, ChunkLargeOffsetBox>(v.co64);
    lemma_nested_opt_other::<ChunkOffsetBox, SyncSampleBox>(v.stss);
    lemma_nested_opt_other::<ChunkOffsetBox, ShadowSyncSampleBox>(v.stsh);
    lemma_nested_opt_other::<ChunkOffsetBox, PaddingBitsBox>(v.padb);
    lemma_nested_opt_other::<ChunkOffsetBox, DegradationPriorityBox>(v.stdp);
    lemma_nested_opt_other::<ChunkOffsetBox, SampleDependencyTypeBox>(v.sdtp);
    lemma_nested_collect_other::<ChunkOffsetBox, SampleToGroupBox>(v.sbgp);
    lemma_nested_collect_other::<ChunkOffsetBox, SampleGroupDescriptionBox>(v.sgpd);
    lemma_nested_collect_other::<ChunkOffsetBox, SubSampleInformationBox>(v.subs);
    lemma_nested_collect_other::<ChunkOffsetBox, SampleAuxiliaryInformationSizesBox>(v.saiz);
    lemma_nested_collect_other::<ChunkOffsetBox, SampleAuxiliaryInformationOffsetsBox>(v.saio);
    lemma_nested_collect_other::<ChunkOffsetBox, CompactSampleToGroupBox>(v.csgp);
    assert(collect_children::<ChunkOffsetBox>(stbl_models(v)) =~= opt_seq(v.stco));
}

/// The boxes that a stbl writes collect back into its field `co64`.
#[verifier::spinoff_prover]
#[verifier::rlimit(60)]
proof fn lemma_stbl_collect_co64(v: SampleTableBoxModel)
    requires
        stbl_canonical(v),
        stbl_types_differ(),
    ensures
        collect_children::<ChunkLargeOffsetBox>(stbl_models(v)) == opt_seq(v.co64),
{
    lemma_stbl_split::<ChunkLargeOffsetBox>(seq![nested_model::<SampleDescriptionBox>(v.stsd)], seq![nested_model::<TimeToSampleBox>(v.stts)], nested_opt_models::<CompositionOffsetBox>(v.ctts), nested_opt_models::<CompositionToDecodeBox>(v.cslg), seq![nested_model::<SampleToChunkBox>(v.stsc)], nested_opt_models::<SampleSizeBox>(v.stsz), nested_opt_models::<CompactSampleSizeBox>(v.stz2), nested_opt_models::<ChunkOffsetBox>(v.stco), nested_opt_models::<ChunkLargeOffsetBox>(v.co64), nested_opt_models::<SyncSampleBox>(v.stss), nested_opt_models::<ShadowSyncSampleBox>(v.stsh), nested_opt_models::<PaddingBitsBox>(v.padb), nested_opt_models::<DegradationPriorityBox>(v.stdp), nested_opt_models::<SampleDependencyTypeBox>(v.sdtp), nested_models::<SampleToGroupBox>(v.sbgp), nested_models::<SampleGroupDescriptionBox>(v.sgpd), nested_models::<SubSampleInformationBox>(v.subs), nested_models::<SampleAuxiliaryInformationSizesBox>(v.saiz), nested_models::<SampleAuxiliaryInformationOffsetsBox>(v.saio), nested_models::<CompactSampleToGroupBox>(v.csgp));
    lemma_nested_opt_other::<ChunkLargeOffsetBox, SampleDescriptionBox>(Some(v.stsd));
    assert(nested_opt_models::<SampleDescriptionBox>(Some(v.stsd)) == seq![nested_model::<SampleDescriptionBox>(v.stsd)]);
    lemma_nested_opt_other::<ChunkLargeOffsetBox, TimeToSampleBox>(Some(v.stts));
    assert(nested_opt_models::<TimeToSampleBox>(Some(v.stts)) == seq![nested_model::<TimeToSampleBox>(v.stts)]);
    lemma_nested_opt_other::<ChunkLargeOffsetBox, CompositionOffsetBox>(v.ctts);
    lemma_nested_opt_other::<ChunkLargeOffsetBox, CompositionToDecodeBox>(v.cslg);
    lemma_nested_opt_other::<ChunkLargeOffsetBox, SampleToChunkBox>(Some(v.stsc));
    assert(nested_opt_models::<SampleToChunkBox>(Some(v.stsc)) == seq![nested_model::<SampleToChunkBox>(v.stsc)]);
    lemma_nested_opt_other::<ChunkLargeOffsetBox, SampleSizeBox>(v.stsz);
    lemma_nested_opt_other::<ChunkLargeOffsetBox, CompactSampleSizeBox>(v.stz2);
    lemma_nested_opt_other::<ChunkLargeOffsetBox, ChunkOffsetBox>(v.stco);
    lemma_nested_opt_own::<ChunkLargeOffsetBox>(v.co64);
    lemma_nested_opt_other::<ChunkLargeOffsetBox, SyncSampleBox>(v.stss);
    lemma_nested_opt_other::<ChunkLargeOffsetBox, ShadowSyncSampleBox>(v.stsh);
    lemma_nested_opt_other::<ChunkLargeOffsetBox, PaddingBitsBox>(v.padb);
    lemma_nested_opt_other::<ChunkLargeOffsetBox, DegradationPriorityBox>(v.stdp);
    lemma_nested_opt_other::<ChunkLargeOffsetBox, SampleDependencyTypeBox>(v.sdtp);
    lemma_nested_collect_other::<ChunkLargeOffsetBox, SampleToGroupBox>(v.sbgp);
    lemma_nested_collect_other::<ChunkLargeOffsetBox, SampleGroupDescriptionBox>(v.sgpd);
    lemma_nested_collect_other::<ChunkLargeOffsetBox, SubSampleInformationBox>(v.subs);
    lemma_nested_collect_other::<ChunkLargeOffsetBox, SampleAuxiliaryInformationSizesBox>(v.saiz);
    lemma_nested_collect_other::<ChunkLargeOffsetBox, SampleAuxiliaryInformationOffsetsBox>(v.saio);
    lemma_nested_collect_other::<ChunkLargeOffsetBox, CompactSampleToGroupBox>(v.csgp);
    assert(collect_children::<ChunkLargeOffsetBox>(stbl_models(v)) =~= opt_seq(v.co64));
}

/// The boxes that a stbl writes collect back into its field `stss`.
#[verifier::spinoff_prover]
#[verifier::rlimit(60)]
proof fn lemma_stbl_collect_stss(v: SampleTableBoxModel)
    requires
        stbl_canonical(v),
        stbl_types_differ(),
    ensures
        collect_children::<SyncSampleBox>(stbl_models(v)) == opt_seq(v.stss),
{
    lemma_stbl_split::<SyncSampleBox>(seq![nested_model::<SampleDescriptionBox>(v.stsd)], seq![nested_model::<TimeToSampleBox>(v.stts)], nested_opt_models::<CompositionOffsetBox>(v.ctts), nested_opt_models::<CompositionToDecodeBox>(v.cslg), seq![nested_model::<SampleToChunkBox>(v.stsc)], nested_opt_models::<SampleSizeBox>(v.stsz), nested_opt_models::<CompactSampleSizeBox>(v.stz2), nested_opt_models::<ChunkOffsetBox>(v.stco), nested_opt_models::<ChunkLargeOffsetBox>(v.co64), nested_opt_models::<SyncSampleBox>(v.stss), nested_opt_models::<ShadowSyncSampleBox>(v.stsh), nested_opt_models::<PaddingBitsBox>(v.padb), nested_opt_models::<DegradationPriorityBox>(v.stdp), nested_opt_models::<SampleDependencyTypeBox>(v.sdtp), nested_models::<SampleToGroupBox>(v.sbgp), nested_models::<SampleGroupDescriptionBox>(v.sgpd), nested_models::<SubSampleInformationBox>(v.subs), nested_models::<SampleAuxiliaryInformationSizesBox>(v.saiz), nested_models::<SampleAuxiliaryInformationOffsetsBox>(v.saio), nested_models::<CompactSampleToGroupBox>(v.csgp));
    lemma_nested_opt_other::<SyncSampleBox, SampleDescriptionBox>(Some(v.stsd));
    assert(nested_opt_models::<SampleDescriptionBox>(Some(v.stsd)) == seq![nested_model::<SampleDescriptionBox>(v.stsd)]);
    lemma_nested_opt_other::<SyncSampleBox, TimeToSampleBox>(Some(v.stts));
    assert(nested_opt_models::<TimeToSampleBox>(Some(v.stts)) == seq![nested_model::<TimeToSampleBox>(v.stts)]);
    lemma_nested_opt_other::<SyncSampleBox, CompositionOffsetBox>(v.ctts);
    lemma_nested_opt_other::<SyncSampleBox, CompositionToDecodeBox>(v.cslg);
    lemma_nested_opt_other::<SyncSampleBox, SampleToChunkBox>(Some(v.stsc));
    assert(nested_opt_models::<SampleToChunkBox>(Some(v.stsc)) == seq![nested_model::<SampleToChunkBox>(v.stsc)]);
    lemma_nested_opt_other::<SyncSampleBox, SampleSizeBox>(v.stsz);
    lemma_nested_opt_other::<SyncSampleBox, CompactSampleSizeBox>(v.stz2);
    lemma_nested_opt_other::<SyncSampleBox, ChunkOffsetBox>(v.stco);
    lemma_nested_opt_other::<SyncSampleBox, ChunkLargeOffsetBox>(v.co64);
    lemma_nested_opt_own::<SyncSampleBox>(v.stss);
    lemma_nested_opt_other::<SyncSampleBox, ShadowSyncSampleBox>(v.stsh);
    lemma_nested_opt_other::<SyncSampleBox, PaddingBitsBox>(v.padb);
    lemma_nested_opt_other::<SyncSampleBox, DegradationPriorityBox>(v.stdp);
    lemma_nested_opt_other::<SyncSampleBox, SampleDependencyTypeBox>(v.sdtp);
    lemma_nested_collect_other::<SyncSampleBox, SampleToGroupBox>(v.sbgp);
    lemma_nested_collect_other::<SyncSampleBox, SampleGroupDescriptionBox>(v.sgpd);
    lemma_nested_collect_other::<SyncSampleBox, SubSampleInformationBox>(v.subs);
    lemma_nested_collect_other::<SyncSampleBox, SampleAuxiliaryInformationSizesBox>(v.saiz);
    lemma_nested_collect_other::<SyncSampleBox, SampleAuxiliaryInformationOffsetsBox>(v.saio);
    lemma_nested_collect_other::<SyncSampleBox, CompactSampleToGroupBox>(v.csgp);
    assert(collect_children::<SyncSampleBox>(stbl_models(v)) =~= opt_seq(v.stss));
}

/// The boxes that a stbl writes collect back into its field `stsh`.
#[verifier::spinoff_prover]
#[verifier::rlimit(60)]
proof fn lemma_stbl_collect_stsh(v: SampleTableBoxModel)
    requires
        stbl_canonical(v),
        stbl_types_differ(),
    ensures
        collect_children::<ShadowSyncSampleBox>(stbl_models(v)) == opt_seq(v.stsh),
{
    lemma_stbl_split::<ShadowSyncSampleBox>(seq![nested_model::<SampleDescriptionBox>(v.stsd)], seq![nested_model::<TimeToSampleBox>(v.stts)], nested_opt_models::<CompositionOffsetBox>(v.ctts), nested_opt_models::<CompositionToDecodeBox>(v.cslg), seq![nested_model::<SampleToChunkBox>(v.stsc)], nested_opt_models::<SampleSizeBox>(v.stsz), nested_opt_models::<CompactSampleSizeBox>(v.stz2), nested_opt_models::<ChunkOffsetBox>(v.stco), nested_opt_models::<ChunkLargeOffsetBox>(v.co64), nested_opt_models::<SyncSampleBox>(v.stss), nested_opt_models::<ShadowSyncSampleBox>(v.stsh), nested_opt_models::<PaddingBitsBox>(v.padb), nested_opt_models::<DegradationPriorityBox>(v.stdp), nested_opt_models::<SampleDependencyTypeBox>(v.sdtp), nested_models::<SampleToGroupBox>(v.sbgp), nested_models::<SampleGroupDescriptionBox>(v.sgpd), nested_models::<SubSampleInformationBox>(v.subs), nested_models::<SampleAuxiliaryInformationSizesBox>(v.saiz), nested_models::<SampleAuxiliaryInformationOffsetsBox>(v.saio), nested_models::<CompactSampleToGroupBox>(v.csgp));
    lemma_nested_opt_other::<ShadowSyncSampleBox, SampleDescriptionBox>(Some(v.stsd));
    assert(nested_opt_models::<SampleDescriptionBox>(Some(v.stsd)) == seq![nested_model::<SampleDescriptionBox>(v.stsd)]);
    lemma_nested_opt_other::<ShadowSyncSampleBox, TimeToSampleBox>(Some(v.stts));
    assert(nested_opt_models::<TimeToSampleBox>(Some(v.stts)) == seq![nested_model::<TimeToSampleBox>(v.stts)]);
    lemma_nested_opt_other::<ShadowSyncSampleBox, CompositionOffsetBox>(v.ctts);
    lemma_nested_opt_other::<ShadowSyncSampleBox, CompositionToDecodeBox>(v.cslg);
    lemma_nested_opt_other::<ShadowSyncSampleBox, SampleToChunkBox>(Some(v.stsc));
    assert(nested_opt_models::<SampleToChunkBox>(Some(v.stsc)) == seq![nested_model::<SampleToChunkBox>(v.stsc)]);
    lemma_nested_opt_other::<ShadowSyncSampleBox, SampleSizeBox>(v.stsz);
    lemma_nested_opt_other::<ShadowSyncSampleBox, CompactSampleSizeBox>(v.stz2);
    lemma_nested_opt_other::<ShadowSyncSampleBox, ChunkOffsetBox>(v.stco);
    lemma_nested_opt_other::<ShadowSyncSampleBox, ChunkLargeOffsetBox>(v.co64);
    lemma_nested_opt_other::<ShadowSyncSampleBox, SyncSampleBox>(v.stss);
    lemma_nested_opt_own::<ShadowSyncSampleBox>(v.stsh);
    lemma_nested_opt_other::<ShadowSyncSampleBox, PaddingBitsBox>(v.padb);
    lemma_nested_opt_other::<ShadowSyncSampleBox, DegradationPriorityBox>(v.stdp);
    lemma_nested_opt_other::<ShadowSyncSampleBox, SampleDependencyTypeBox>(v.sdtp);
    lemma_nested_collect_other::<ShadowSyncSampleBox, SampleToGroupBox>(v.sbgp);
    lemma_nested_collect_other::<ShadowSyncSampleBox, SampleGroupDescriptionBox>(v.sgpd);
    lemma_nested_collect_other::<ShadowSyncSampleBox, SubSampleInformationBox>(v.subs);
    lemma_nested_collect_other::<ShadowSyncSampleBox, SampleAuxiliaryInformationSizesBox>(v.saiz);
    lemma_nested_collect_other::<ShadowSyncSampleBox, SampleAuxiliaryInformationOffsetsBox>(v.saio);
    lemma_nested_collect_other::<ShadowSyncSampleBox, CompactSampleToGroupBox>(v.csgp);
    assert(collect_children::<ShadowSyncSampleBox>(stbl_models(v)) =~= opt_seq(v.stsh));
}

/// The boxes that a stbl writes collect back into its field `padb`.
#[verifier::spinoff_prover]
#[verifier::rlimit(60)]
proof fn lemma_stbl_collect_padb(v: SampleTableBoxModel)
    requires
        stbl_canonical(v),
        stbl_types_differ(),
    ensures
        collect_children::<PaddingBitsBox>(stbl_models(v)) == opt_seq(v.padb),
{
    lemma_stbl_split::<PaddingBitsBox>(seq![nested_model::<SampleDescriptionBox>(v.stsd)], seq![nested_model::<TimeToSampleBox>(v.stts)], nested_opt_models::<CompositionOffsetBox>(v.ctts), nested_opt_models::<CompositionToDecodeBox>(v.cslg), seq![nested_model::<SampleToChunkBox>(v.stsc)], nested_opt_models::<SampleSizeBox>(v.stsz), nested_opt_models::<CompactSampleSizeBox>(v.stz2), nested_opt_models::<ChunkOffsetBox>(v.stco), nested_opt_models::<ChunkLargeOffsetBox>(v.co64), nested_opt_models::<SyncSampleBox>(v.stss), nested_opt_models::<ShadowSyncSampleBox>(v.stsh), nested_opt_models::<PaddingBitsBox>(v.padb), nested_opt_models::<DegradationPriorityBox>(v.stdp), nested_opt_models::<SampleDependencyTypeBox>(v.sdtp), nested_models::<SampleToGroupBox>(v.sbgp), nested_models::<SampleGroupDescriptionBox>(v.sgpd), nested_models::<SubSampleInformationBox>(v.subs), nested_models::<SampleAuxiliaryInformationSizesBox>(v.saiz), nested_models::<SampleAuxiliaryInformationOffsetsBox>(v.saio), nested_models::<CompactSampleToGroupBox>(v.csgp));
    lemma_nested_opt_other::<PaddingBitsBox, SampleDescriptionBox>(Some(v.stsd));
    assert(nested_opt_models::<SampleDescriptionBox>(Some(v.stsd)) == seq![nested_model::<SampleDescriptionBox>(v.stsd)]);
    lemma_nested_opt_other::<PaddingBitsBox, TimeToSampleBox>(Some(v.stts));
    assert(nested_opt_models::<TimeToSampleBox>(Some(v.stts)) == seq![nested_model::<TimeToSampleBox>(v.stts)]);
    lemma_nested_opt_other::<PaddingBitsBox, CompositionOffsetBox>(v.ctts);
    lemma_nested_opt_other::<PaddingBitsBox, CompositionToDecodeBox>(v.cslg);
    lemma_nested_opt_other::<PaddingBitsBox, SampleToChunkBox>(Some(v.stsc));
    assert(nested_opt_models::<SampleToChunkBox>(Some(v.stsc)) == seq![nested_model::<SampleToChunkBox>(v.stsc)]);
    lemma_nested_opt_other::<PaddingBitsBox, SampleSizeBox>(v.stsz);
    lemma_nested_opt_other::<PaddingBitsBox, CompactSampleSizeBox>(v.stz2);
    lemma_nested_opt_other::<PaddingBitsBox, ChunkOffsetBox>(v.stco);
    lemma_nested_opt_other::<PaddingBitsBox, ChunkLargeOffsetBox>(v.co64);
    lemma_nested_opt_other::<PaddingBitsBox, SyncSampleBox>(v.stss);
    lemma_nested_opt_other::<PaddingBitsBox, ShadowSyncSampleBox>(v.stsh);
    lemma_nested_opt_own::<PaddingBitsBox>(v.padb);
    lemma_nested_opt_other::<PaddingBitsBox, DegradationPriorityBox>(v.stdp);
    lemma_nested_opt_other::<PaddingBitsBox, SampleDependencyTypeBox>(v.sdtp);
    lemma_nested_collect_other::<PaddingBitsBox, SampleToGroupBox>(v.sbgp);
    lemma_nested_collect_other::<PaddingBitsBox, SampleGroupDescriptionBox>(v.sgpd);
    lemma_nested_collect_other::<PaddingBitsBox, SubSampleInformationBox>(v.subs);
    lemma_nested_collect_other::<PaddingBitsBox, SampleAuxiliaryInformationSizesBox>(v.saiz);
    lemma_nested_collect_other::<PaddingBitsBox, SampleAuxiliaryInformationOffsetsBox>(v.saio);
    lemma_nested_collect_other::<PaddingBitsBox, CompactSampleToGroupBox>(v.csgp);
    assert(collect_children::<PaddingBitsBox>(stbl_models(v)) =~= opt_seq(v.padb));
}

/// The boxes that a stbl writes collect back into its field `stdp`.
#[verifier::spinoff_prover]
#[verifier::rlimit(60)]
proof fn lemma_stbl_collect_stdp(v: SampleTableBoxModel)
    requires
        stbl_canonical(v),
        stbl_types_differ(),
    ensures
        collect_children::<DegradationPriorityBox>(stbl_models(v)) == opt_seq(v.stdp),
{
    lemma_stbl_split::<DegradationPriorityBox>(seq![nested_model::<SampleDescriptionBox>(v.stsd)], seq![nested_model::<TimeToSampleBox>(v.stts)], nested_opt_models::<CompositionOffsetBox>(v.ctts), nested_opt_models::<CompositionToDecodeBox>(v.cslg), seq![nested_model::<SampleToChunkBox>(v.stsc)], nested_opt_models::<SampleSizeBox>(v.stsz), nested_opt_models::<CompactSampleSizeBox>(v.stz2), nested_opt_models::<ChunkOffsetBox>(v.stco), nested_opt_models::<ChunkLargeOffsetBox>(v.co64), nested_opt_models::<SyncSampleBox>(v.stss), nested_opt_models::<ShadowSyncSampleBox>(v.stsh), nested_opt_models::<PaddingBitsBox>(v.padb), nested_opt_models::<DegradationPriorityBox>(v.stdp), nested_opt_models::<SampleDependencyTypeBox>(v.sdtp), nested_models::<SampleToGroupBox>(v.sbgp), nested_models::<SampleGroupDescriptionBox>(v.sgpd), nested_models::<SubSampleInformationBox>(v.subs), nested_models::<SampleAuxiliaryInformationSizesBox>(v.saiz), nested_models::<SampleAuxiliaryInformationOffsetsBox>(v.saio), nested_models::<CompactSampleToGroupBox>(v.csgp));
    lemma_nested_opt_other::<DegradationPriorityBox, SampleDescriptionBox>(Some(v.stsd));
    assert(nested_opt_models::<SampleDescriptionBox>(Some(v.stsd)) == seq![nested_model::<SampleDescriptionBox>(v.stsd)]);
    lemma_nested_opt_other::<DegradationPriorityBox, TimeToSampleBox>(Some(v.stts));
    assert(nested_opt_models::<TimeToSampleBox>(Some(v.stts)) == seq![nested_model::<TimeToSampleBox>(v.stts)]);
    lemma_nested_opt_other::<DegradationPriorityBox, CompositionOffsetBox>(v.ctts);
    lemma_nested_opt_other::<DegradationPriorityBox, CompositionToDecodeBox>(v.cslg);
    lemma_nested_opt_other::<DegradationPriorityBox, SampleToChunkBox>(Some(v.stsc));
    assert(nested_opt_models::<SampleToChunkBox>(Some(v.stsc)) == seq![nested_model::<SampleToChunkBox>(v.stsc)]);
    lemma_nested_opt_other::<DegradationPriorityBox, SampleSizeBox>(v.stsz);
    lemma_nested_opt_other::<DegradationPriorityBox, CompactSampleSizeBox>(v.stz2);
    lemma_nested_opt_other::<DegradationPriorityBox, ChunkOffsetBox>(v.stco);
    lemma_nested_opt_other::<DegradationPriorityBox, ChunkLargeOffsetBox>(v.co64);
    lemma_nested_opt_other::<DegradationPriorityBox, SyncSampleBox>(v.stss);
    lemma_nested_opt_other::<DegradationPriorityBox, ShadowSyncSampleBox>(v.stsh);
    lemma_nested_opt_other::<DegradationPriorityBox, PaddingBitsBox>(v.padb);
    lemma_nested_opt_own::<DegradationPriorityBox>(v.stdp);
    lemma_nested_opt_other::<DegradationPriorityBox, SampleDependencyTypeBox>(v.sdtp);
    lemma_nested_collect_other::<DegradationPriorityBox, SampleToGroupBox>(v.sbgp);
    lemma_nested_collect_other::<DegradationPriorityBox, SampleGroupDescriptionBox>(v.sgpd);
    lemma_nested_collect_other::<DegradationPriorityBox, SubSampleInformationBox>(v.subs);
    lemma_nested_collect_other::<DegradationPriorityBox, SampleAuxiliaryInformationSizesBox>(v.saiz);
    lemma_nested_collect_other::<DegradationPriorityBox, SampleAuxiliaryInformationOffsetsBox>(v.saio);
    lemma_nested_collect_other::<DegradationPriorityBox, CompactSampleToGroupBox>(v.csgp);
    assert(collect_children::<DegradationPriorityBox>(stbl_models(v)) =~= opt_seq(v.stdp));
}

/// The boxes that a stbl writes collect back into its field `sdtp`.
#[verifier::spinoff_prover]
#[verifier::rlimit(60)]
proof fn lemma_stbl_collect_sdtp(v: SampleTableBoxModel)
    requires
        stbl_canonical(v),
        stbl_types_differ(),
    ensures
        collect_children::<SampleDependencyTypeBox>(stbl_models(v)) == opt_seq(v.sdtp),
{
    lemma_stbl_split::<SampleDependencyTypeBox>(seq![nested_model::<SampleDescriptionBox>(v.stsd)], seq![nested_model::<TimeToSampleBox>(v.stts)], nested_opt_models::<CompositionOffsetBox>(v.ctts), nested_opt_models::<CompositionToDecodeBox>(v.cslg), seq![nested_model::<SampleToChunkBox>(v.stsc)], nested_opt_models::<SampleSizeBox>(v.stsz), nested_opt_models::<CompactSampleSizeBox>(v.stz2), nested_opt_models::<ChunkOffsetBox>(v.stco), nested_opt_models::<ChunkLargeOffsetBox>(v.co64), nested_opt_models::<SyncSampleBox>(v.stss), nested_opt_models::<ShadowSyncSampleBox>(v.stsh), nested_opt_models::<PaddingBitsBox>(v.padb), nested_opt_models::<DegradationPriorityBox>(v.stdp), nested_opt_models::<SampleDependencyTypeBox>(v.sdtp), nested_models::<SampleToGroupBox>(v.sbgp), nested_models::<SampleGroupDescriptionBox>(v.sgpd), nested_models::<SubSampleInformationBox>(v.subs), nested_models::<SampleAuxiliaryInformationSizesBox>(v.saiz), nested_models::<SampleAuxiliaryInformationOffsetsBox>(v.saio), nested_models::<CompactSampleToGroupBox>(v.csgp));
    lemma_nested_opt_other::<SampleDependencyTypeBox, SampleDescriptionBox>(Some(v.stsd));
    assert(nested_opt_models::<SampleDescriptionBox>(Some(v.stsd)) == seq![nested_model::<SampleDescriptionBox>(v.stsd)]);
    lemma_nested_opt_other::<SampleDependencyTypeBox, TimeToSampleBox>(Some(v.stts));
    assert(nested_opt_models::<TimeToSampleBox>(Some(v.stts)) == seq![nested_model::<TimeToSampleBox>(v.stts)]);
    lemma_nested_opt_other::<SampleDependencyTypeBox, CompositionOffsetBox>(v.ctts);
    lemma_nested_opt_other::<SampleDependencyTypeBox, CompositionToDecodeBox>(v.cslg);
    lemma_nested_opt_other::<SampleDependencyTypeBox, SampleToChunkBox>(Some(v.stsc));
    assert(nested_opt_models::<SampleToChunkBox>(Some(v.stsc)) == seq![nested_model::<SampleToChunkBox>(v.stsc)]);
    lemma_nested_opt_other::<SampleDependencyTypeBox, SampleSizeBox>(v.stsz);
    lemma_nested_opt_other::<SampleDependencyTypeBox, CompactSampleSizeBox>(v.stz2);
    lemma_nested_opt_other::<SampleDependencyTypeBox, ChunkOffsetBox>(v.stco);
    lemma_nested_opt_other::<SampleDependencyTypeBox, ChunkLargeOffsetBox>(v.co64);
    lemma_nested_opt_other::<SampleDependencyTypeBox, SyncSampleBox>(v.stss);
    lemma_nested_opt_other::<SampleDependencyTypeBox, ShadowSyncSampleBox>(v.stsh);
    lemma_nested_opt_other::<SampleDependencyTypeBox, PaddingBitsBox>(v.padb);
    lemma_nested_opt_other::<SampleDependencyTypeBox, DegradationPriorityBox>(v.stdp);
    lemma_nested_opt_own::<SampleDependencyTypeBox>(v.sdtp);
    lemma_nested_collect_other::<SampleDependencyTypeBox, SampleToGroupBox>(v.sbgp);
    lemma_nested_collect_other::<SampleDependencyTypeBox, SampleGroupDescriptionBox>(v.sgpd);
    lemma_nested_collect_other::<SampleDependencyTypeBox, SubSampleInformationBox>(v.subs);
    lemma_nested_collect_other::<SampleDependencyTypeBox, SampleAuxiliaryInformationSizesBox>(v.saiz);
    lemma_nested_collect_other::<SampleDependencyTypeBox, SampleAuxiliaryInformationOffsetsBox>(v.saio);
    lemma_nested_collect_other::<SampleDependencyTypeBox, CompactSampleToGroupBox>(v.csgp);
    assert(collect_children::<SampleDependencyTypeBox>(stbl_models(v)) =~= opt_seq(v.sdtp));
}

/// The boxes that a stbl writes collect back into its field `sbgp`.
#[verifier::spinoff_prover]
#[verifier::rlimit(60)]
proof fn lemma_stbl_collect_sbgp(v: SampleTableBoxModel)
    requires
        stbl_canonical(v),
        stbl_types_differ(),
    ensures
        collect_children::<SampleToGroupBox>(stbl_models(v)) == v.sbgp,
{
    lemma_stbl_split::<SampleToGroupBox>(seq![nested_model::<SampleDescriptionBox>(v.stsd)], seq![nested_model::<TimeToSampleBox>(v.stts)], nested_opt_models::<CompositionOffsetBox>(v.ctts), nested_opt_models::<CompositionToDecodeBox>(v.cslg), seq![nested_model::<SampleToChunkBox>(v.stsc)], nested_opt_models::<SampleSizeBox>(v.stsz), nested_opt_models::<CompactSampleSizeBox>(v.stz2), nested_opt_models::<ChunkOffsetBox>(v.stco), nested_opt_models::<ChunkLargeOffsetBox>(v.co64), nested_opt_models::<SyncSampleBox>(v.stss), nested_opt_models::<ShadowSyncSampleBox>(v.stsh), nested_opt_models::<PaddingBitsBox>(v.padb), nested_opt_models::<DegradationPriorityBox>(v.stdp), nested_opt_models::<SampleDependencyTypeBox>(v.sdtp), nested_models::<SampleToGroupBox>(v.sbgp), nested_models::<SampleGroupDescriptionBox>(v.sgpd), nested_models::<SubSampleInformationBox>(v.subs), nested_models::<SampleAuxiliaryInformationSizesBox>(v.saiz), nested_models::<SampleAuxiliaryInformationOffsetsBox>(v.saio), nested_models::<CompactSampleToGroupBox>(v.csgp));
    lemma_nested_opt_other::<SampleToGroupBox, SampleDescriptionBox>(Some(v.stsd));
    assert(nested_opt_models::<SampleDescriptionBox>(Some(v.stsd)) == seq![nested_model::<SampleDescriptionBox>(v.stsd)]);
    lemma_nested_opt_other::<SampleToGroupBox, TimeToSampleBox>(Some(v.stts));
    assert(nested_opt_models::<TimeToSampleBox>(Some(v.stts)) == seq![nested_model::<TimeToSampleBox>(v.stts)]);
    lemma_nested_opt_other::<SampleToGroupBox, CompositionOffsetBox>(v.ctts);
    lemma_nested_opt_other::<SampleToGroupBox, CompositionToDecodeBox>(v.cslg);
    lemma_nested_opt_other::<SampleToGroupBox, SampleToChunkBox>(Some(v.stsc));
    assert(nested_opt_models::<SampleToChunkBox>(Some(v.stsc)) == seq![nested_model::<SampleToChunkBox>(v.stsc)]);
    lemma_nested_opt_other::<SampleToGroupBox, SampleSizeBox>(v.stsz);
    lemma_nested_opt_other::<SampleToGroupBox, CompactSampleSizeBox>(v.stz2);
    lemma_nested_opt_other::<SampleToGroupBox, ChunkOffsetBox>(v.stco);
    lemma_nested_opt_other::<SampleToGroupBox, ChunkLargeOffsetBox>(v.co64);
    lemma_nested_opt_other::<SampleToGroupBox, SyncSampleBox>(v.stss);
    lemma_nested_opt_other::<SampleToGroupBox, ShadowSyncSampleBox>(v.stsh);
    lemma_nested_opt_other::<SampleToGroupBox, PaddingBitsBox>(v.padb);
    lemma_nested_opt_other::<SampleToGroupBox, DegradationPriorityBox>(v.stdp);
    lemma_nested_opt_other::<SampleToGroupBox, SampleDependencyTypeBox>(v.sdtp);
    lemma_nested_collect_own::<SampleToGroupBox>(v.sbgp);
    lemma_nested_collect_other::<SampleToGroupBox, SampleGroupDescriptionBox>(v.sgpd);
    lemma_nested_collect_other::<SampleToGroupBox, SubSampleInformationBox>(v.subs);
    lemma_nested_collect_other::<SampleToGroupBox, SampleAuxiliaryInformationSizesBox>(v.saiz);
    lemma_nested_collect_other::<SampleToGroupBox, SampleAuxiliaryInformationOffsetsBox>(v.saio);
    lemma_nested_collect_other::<SampleToGroupBox, CompactSampleToGroupBox>(v.csgp);
    assert(collect_children::<SampleToGroupBox>(stbl_models(v)) =~= v.sbgp);
}

/// The boxes that a stbl writes collect back into its field `sgpd`.
#[verifier::spinoff_prover]
#[verifier::rlimit(60)]
proof fn lemma_stbl_collect_sgpd(v: SampleTableBoxModel)
    requires
        stbl_canonical(v),
        stbl_types_differ(),
    ensures
        collect_children::<SampleGroupDescriptionBox>(stbl_models(v)) == v.sgpd,
{
    lemma_stbl_split::<SampleGroupDescriptionBox>(seq![nested_model::<SampleDescriptionBox>(v.stsd)], seq![nested_model::<TimeToSampleBox>(v.stts)], nested_opt_models::<CompositionOffsetBox>(v.ctts), nested_opt_models::<CompositionToDecodeBox>(v.cslg), seq![nested_model::<SampleToChunkBox>(v.stsc)], nested_opt_models::<SampleSizeBox>(v.stsz), nested_opt_models::<CompactSampleSizeBox>(v.stz2), nested_opt_models::<ChunkOffsetBox>(v.stco), nested_opt_models::<ChunkLargeOffsetBox>(v.co64), nested_opt_models::<SyncSampleBox>(v.stss), nested_opt_models::<ShadowSyncSampleBox>(v.stsh), nested_opt_models::<PaddingBitsBox>(v.padb), nested_opt_models::<DegradationPriorityBox>(v.stdp), nested_opt_models::<SampleDependencyTypeBox>(v.sdtp), nested_models::<SampleToGroupBox>(v.sbgp), nested_models::<SampleGroupDescriptionBox>(v.sgpd), nested_models::<SubSampleInformationBox>(v.subs), nested_models::<SampleAuxiliaryInformationSizesBox>(v.saiz), nested_models::<SampleAuxiliaryInformationOffsetsBox>(v.saio), nested_models::<CompactSampleToGroupBox>(v.csgp));
    lemma_nested_opt_other::<SampleGroupDescriptionBox, SampleDescriptionBox>(Some(v.stsd));
    assert(nested_opt_models::<SampleDescriptionBox>(Some(v.stsd)) == seq![nested_model::<SampleDescriptionBox>(v.stsd)]);
    lemma_nested_opt_other::<SampleGroupDescriptionBox, TimeToSampleBox>(Some(v.stts));
    assert(nested_opt_models::<TimeToSampleBox>(Some(v.stts)) == seq![nested_model::<TimeToSampleBox>(v.stts)]);
    lemma_nested_opt_other::<SampleGroupDescriptionBox, CompositionOffsetBox>(v.ctts);
    lemma_nested_opt_other::<SampleGroupDescriptionBox, CompositionToDecodeBox>(v.cslg);
    lemma_nested_opt_other::<SampleGroupDescriptionBox, SampleToChunkBox>(Some(v.stsc));
    assert(nested_opt_models::<SampleToChunkBox>(Some(v.stsc)) == seq![nested_model::<SampleToChunkBox>(v.stsc)]);
    lemma_nested_opt_other::<SampleGroupDescriptionBox, SampleSizeBox>(v.stsz);
    lemma_nested_opt_other::<SampleGroupDescriptionBox, CompactSampleSizeBox>(v.stz2);
    lemma_nested_opt_other::<SampleGroupDescriptionBox, ChunkOffsetBox>(v.stco);
    lemma_nested_opt_other::<SampleGroupDescriptionBox, ChunkLargeOffsetBox>(v.co64);
    lemma_nested_opt_other::<SampleGroupDescriptionBox, SyncSampleBox>(v.stss);
    lemma_nested_opt_other::<SampleGroupDescriptionBox, ShadowSyncSampleBox>(v.stsh);
    lemma_nested_opt_other::<SampleGroupDescriptionBox, PaddingBitsBox>(v.padb);
    lemma_nested_opt_other::<SampleGroupDescriptionBox, DegradationPriorityBox>(v.stdp);
    lemma_nested_opt_other::<SampleGroupDescriptionBox, SampleDependencyTypeBox>(v.sdtp);
    lemma_nested_collect_other::<SampleGroupDescriptionBox, SampleToGroupBox>(v.sbgp);
    lemma_nested_collect_own::<SampleGroupDescriptionBox>(v.sgpd);
    lemma_nested_collect_other::<SampleGroupDescriptionBox, SubSampleInformationBox>(v.subs);
    lemma_nested_collect_other::<SampleGroupDescriptionBox, SampleAuxiliaryInformationSizesBox>(v.saiz);
    lemma_nested_collect_other::<SampleGroupDescriptionBox, SampleAuxiliaryInformationOffsetsBox>(v.saio);
    lemma_nested_collect_other::<SampleGroupDescriptionBox, CompactSampleToGroupBox>(v.csgp);
    assert(collect_children::<SampleGroupDescriptionBox>(stbl_models(v)) =~= v.sgpd);
}

/// The boxes that a stbl writes collect back into its field `subs`.
#[verifier::spinoff_prover]
#[verifier::rlimit(60)]
proof fn lemma_stbl_collect_subs(v: SampleTableBoxModel)
    requires
        stbl_canonical(v),
        stbl_types_differ(),
    ensures
        collect_children::<SubSampleInformationBox>(stbl_models(v)) == v.subs,
{
    lemma_stbl_split::<SubSampleInformationBox>(seq![nested_model::<SampleDescriptionBox>(v.stsd)], seq![nested_model::<TimeToSampleBox>(v.stts)], nested_opt_models::<CompositionOffsetBox>(v.ctts), nested_opt_models::<CompositionToDecodeBox>(v.cslg), seq![nested_model::<SampleToChunkBox>(v.stsc)], nested_opt_models::<SampleSizeBox>(v.stsz), nested_opt_models::<CompactSampleSizeBox>(v.stz2), nested_opt_models::<ChunkOffsetBox>(v.stco), nested_opt_models::<ChunkLargeOffsetBox>(v.co64), nested_opt_models::<SyncSampleBox>(v.stss), nested_opt_models::<ShadowSyncSampleBox>(v.stsh), nested_opt_models::<PaddingBitsBox>(v.padb), nested_opt_models::<DegradationPriorityBox>(v.stdp), nested_opt_models::<SampleDependencyTypeBox>(v.sdtp), nested_models::<SampleToGroupBox>(v.sbgp), nested_models::<SampleGroupDescriptionBox>(v.sgpd), nested_models::<SubSampleInformationBox>(v.subs), nested_models::<SampleAuxiliaryInformationSizesBox>(v.saiz), nested_models::<SampleAuxiliaryInformationOffsetsBox>(v.saio), nested_models::<CompactSampleToGroupBox>(v.csgp));
    lemma_nested_opt_other::<SubSampleInformationBox, SampleDescriptionBox>(Some(v.stsd));
    assert(nested_opt_models::<SampleDescriptionBox>(Some(v.stsd)) == seq![nested_model::<SampleDescriptionBox>(v.stsd)]);
    lemma_nested_opt_other::<SubSampleInformationBox, TimeToSampleBox>(Some(v.stts));
    assert(nested_opt_models::<TimeToSampleBox>(Some(v.stts)) == seq![nested_model::<TimeToSampleBox>(v.stts)]);
    lemma_nested_opt_other::<SubSampleInformationBox, CompositionOffsetBox>(v.ctts);
    lemma_nested_opt_other::<SubSampleInformationBox, CompositionToDecodeBox>(v.cslg);
    lemma_nested_opt_other::<SubSampleInformationBox, SampleToChunkBox>(Some(v.stsc));
    assert(nested_opt_models::<SampleToChunkBox>(Some(v.stsc)) == seq![nested_model::<SampleToChunkBox>(v.stsc)]);
    lemma_nested_opt_other::<SubSampleInformationBox, SampleSizeBox>(v.stsz);
    lemma_nested_opt_other::<SubSampleInformationBox, CompactSampleSizeBox>(v.stz2);
    lemma_nested_opt_other::<SubSampleInformationBox, ChunkOffsetBox>(v.stco);
    lemma_nested_opt_other::<SubSampleInformationBox, ChunkLargeOffsetBox>(v.co64);
    lemma_nested_opt_other::<SubSampleInformationBox, SyncSampleBox>(v.stss);
    lemma_nested_opt_other::<SubSampleInformationBox, ShadowSyncSampleBox>(v.stsh);
    lemma_nested_opt_other::<SubSampleInformationBox, PaddingBitsBox>(v.padb);
    lemma_nested_opt_other::<SubSampleInformationBox, DegradationPriorityBox>(v.stdp);
    lemma_nested_opt_other::<SubSampleInformationBox, SampleDependencyTypeBox>(v.sdtp);
    lemma_nested_collect_other::<SubSampleInformationBox, SampleToGroupBox>(v.sbgp);
    lemma_nested_collect_other::<SubSampleInformationBox, SampleGroupDescriptionBox>(v.sgpd);
    lemma_nested_collect_own::<SubSampleInformationBox>(v.subs);
    lemma_nested_collect_other::<SubSampleInformationBox, SampleAuxiliaryInformationSizesBox>(v.saiz);
    lemma_nested_collect_other::<SubSampleInformationBox, SampleAuxiliaryInformationOffsetsBox>(v.saio);
    lemma_nested_collect_other::<SubSampleInformationBox, CompactSampleToGroupBox>(v.csgp);
    assert(collect_children::<SubSampleInformationBox>(stbl_models(v)) =~= v.subs);
}

/// The boxes that a stbl writes collect back into its field `saiz`.
#[verifier::spinoff_prover]
#[verifier::rlimit(60)]
proof fn lemma_stbl_collect_saiz(v: SampleTableBoxModel)
    requires
        stbl_canonical(v),
        stbl_types_differ(),
    ensures
        collect_children::<SampleAuxiliaryInformationSizesBox>(stbl_models(v)) == v.saiz,
{
    lemma_stbl_split::<SampleAuxiliaryInformationSizesBox>(seq![nested_model::<SampleDescriptionBox>(v.stsd)], seq![nested_model::<TimeToSampleBox>(v.stts)], nested_opt_models::<CompositionOffsetBox>(v.ctts), nested_opt_models::<CompositionToDecodeBox>(v.cslg), seq![nested_model::<SampleToChunkBox>(v.stsc)], nested_opt_models::<SampleSizeBox>(v.stsz), nested_opt_models::<CompactSampleSizeBox>(v.stz2), nested_opt_models::<ChunkOffsetBox>(v.stco), nested_opt_models::<ChunkLargeOffsetBox>(v.co64), nested_opt_models::<SyncSampleBox>(v.stss), nested_opt_models::<ShadowSyncSampleBox>(v.stsh), nested_opt_models::<PaddingBitsBox>(v.padb), nested_opt_models::<DegradationPriorityBox>(v.stdp), nested_opt_models::<SampleDependencyTypeBox>(v.sdtp), nested_models::<SampleToGroupBox>(v.sbgp), nested_models::<SampleGroupDescriptionBox>(v.sgpd), nested_models::<SubSampleInformationBox>(v.subs), nested_models::<SampleAuxiliaryInformationSizesBox>(v.saiz), nested_models::<SampleAuxiliaryInformationOffsetsBox>(v.saio), nested_models::<CompactSampleToGroupBox>(v.csgp));
    lemma_nested_opt_other::<SampleAuxiliaryInformationSizesBox, SampleDescriptionBox>(Some(v.stsd));
    assert(nested_opt_models::<SampleDescriptionBox>(Some(v.stsd)) == seq![nested_model::<SampleDescriptionBox>(v.stsd)]);
    lemma_nested_opt_other::<SampleAuxiliaryInformationSizesBox, TimeToSampleBox>(Some(v.stts));
    assert(nested_opt_models::<TimeToSampleBox>(Some(v.stts)) == seq![nested_model::<TimeToSampleBox>(v.stts)]);
    lemma_nested_opt_other::<SampleAuxiliaryInformationSizesBox, CompositionOffsetBox>(v.ctts);
    lemma_nested_opt_other::<SampleAuxiliaryInformationSizesBox, CompositionToDecodeBox>(v.cslg);
    lemma_nested_opt_other::<SampleAuxiliaryInformationSizesBox, SampleToChunkBox>(Some(v.stsc));
    assert(nested_opt_models::<SampleToChunkBox>(Some(v.stsc)) == seq![nested_model::<SampleToChunkBox>(v.stsc)]);
    lemma_nested_opt_other::<SampleAuxiliaryInformationSizesBox, SampleSizeBox>(v.stsz);
    lemma_nested_opt_other::<SampleAuxiliaryInformationSizesBox, CompactSampleSizeBox>(v.stz2);
    lemma_nested_opt_other::<SampleAuxiliaryInformationSizesBox, ChunkOffsetBox>(v.stco);
    lemma_nested_opt_other::<SampleAuxiliaryInformationSizesBox, ChunkLargeOffsetBox>(v.co64);
    lemma_nested_opt_other::<SampleAuxiliaryInformationSizesBox, SyncSampleBox>(v.stss);
    lemma_nested_opt_other::<SampleAuxiliaryInformationSizesBox, ShadowSyncSampleBox>(v.stsh);
    lemma_nested_opt_other::<SampleAuxiliaryInformationSizesBox, PaddingBitsBox>(v.padb);
    lemma_nested_opt_other::<SampleAuxiliaryInformationSizesBox, DegradationPriorityBox>(v.stdp);
    lemma_nested_opt_other::<SampleAuxiliaryInformationSizesBox, SampleDependencyTypeBox>(v.sdtp);
    lemma_nested_collect_other::<SampleAuxiliaryInformationSizesBox, SampleToGroupBox>(v.sbgp);
    lemma_nested_collect_other::<SampleAuxiliaryInformationSizesBox, SampleGroupDescriptionBox>(v.sgpd);
    lemma_nested_collect_other::<SampleAuxiliaryInformationSizesBox, SubSampleInformationBox>(v.subs);
    lemma_nested_collect_own::<SampleAuxiliaryInformationSizesBox>(v.saiz);
    lemma_nested_collect_other::<SampleAuxiliaryInformationSizesBox, SampleAuxiliaryInformationOffsetsBox>(v.saio);
    lemma_nested_collect_other::<SampleAuxiliaryInformationSizesBox, CompactSampleToGroupBox>(v.csgp);
    assert(collect_children::<SampleAuxiliaryInformationSizesBox>(stbl_models(v)) =~= v.saiz);
}

/// The boxes that a stbl writes collect back into its field `saio`.
#[verifier::spinoff_prover]
#[verifier::rlimit(60)]
proof fn lemma_stbl_collect_saio(v: SampleTableBoxModel)
    requires
        stbl_canonical(v),
        stbl_types_differ(),
    ensures
        collect_children::<SampleAuxiliaryInformationOffsetsBox>(stbl_models(v)) == v.saio,
{
    lemma_stbl_split::<SampleAuxiliaryInformationOffsetsBox>(seq![nested_model::<SampleDescriptionBox>(v.stsd)], seq![nested_model::<TimeToSampleBox>(v.stts)], nested_opt_models::<CompositionOffsetBox>(v.ctts), nested_opt_models::<CompositionToDecodeBox>(v.cslg), seq![nested_model::<SampleToChunkBox>(v.stsc)], nested_opt_models::<SampleSizeBox>(v.stsz), nested_opt_models::<CompactSampleSizeBox>(v.stz2), nested_opt_models::<ChunkOffsetBox>(v.stco), nested_opt_models::<ChunkLargeOffsetBox>(v.co64), nested_opt_models::<SyncSampleBox>(v.stss), nested_opt_models::<ShadowSyncSampleBox>(v.stsh), nested_opt_models::<PaddingBitsBox>(v.padb), nested_opt_models::<DegradationPriorityBox>(v.stdp), nested_opt_models::<SampleDependencyTypeBox>(v.sdtp), nested_models::<SampleToGroupBox>(v.sbgp), nested_models::<SampleGroupDescriptionBox>(v.sgpd), nested_models::<SubSampleInformationBox>(v.subs), nested_models::<SampleAuxiliaryInformationSizesBox>(v.saiz), nested_models::<SampleAuxiliaryInformationOffsetsBox>(v.saio), nested_models::<CompactSampleToGroupBox>(v.csgp));
    lemma_nested_opt_other::<SampleAuxiliaryInformationOffsetsBox, SampleDescriptionBox>(Some(v.stsd));
    assert(nested_opt_models::<SampleDescriptionBox>(Some(v.stsd)) == seq![nested_model::<SampleDescriptionBox>(v.stsd)]);
    lemma_nested_opt_other::<SampleAuxiliaryInformationOffsetsBox, TimeToSampleBox>(Some(v.stts));
    assert(nested_opt_models::<TimeToSampleBox>(Some(v.stts)) == seq![nested_model::<TimeToSampleBox>(v.stts)]);
    lemma_nested_opt_other::<SampleAuxiliaryInformationOffsetsBox, CompositionOffsetBox>(v.ctts);
    lemma_nested_opt_other::<SampleAuxiliaryInformationOffsetsBox, CompositionToDecodeBox>(v.cslg);
    lemma_nested_opt_other::<SampleAuxiliaryInformationOffsetsBox, SampleToChunkBox>(Some(v.stsc));
    assert(nested_opt_models::<SampleToChunkBox>(Some(v.stsc)) == seq![nested_model::<SampleToChunkBox>(v.stsc)]);
    lemma_nested_opt_other::<SampleAuxiliaryInformationOffsetsBox, SampleSizeBox>(v.stsz);
    lemma_nested_opt_other::<SampleAuxiliaryInformationOffsetsBox, CompactSampleSizeBox>(v.stz2);
    lemma_nested_opt_other::<SampleAuxiliaryInformationOffsetsBox, ChunkOffsetBox>(v.stco);
    lemma_nested_opt_other::<SampleAuxiliaryInformationOffsetsBox, ChunkLargeOffsetBox>(v.co64);
    lemma_nested_opt_other::<SampleAuxiliaryInformationOffsetsBox, SyncSampleBox>(v.stss);
    lemma_nested_opt_other::<SampleAuxiliaryInformationOffsetsBox, ShadowSyncSampleBox>(v.stsh);
    lemma_nested_opt_other::<SampleAuxiliaryInformationOffsetsBox, PaddingBitsBox>(v.padb);
    lemma_nested_opt_other::<SampleAuxiliaryInformationOffsetsBox, DegradationPriorityBox>(v.stdp);
    lemma_nested_opt_other::<SampleAuxiliaryInformationOffsetsBox, SampleDependencyTypeBox>(v.sdtp);
    lemma_nested_collect_other::<SampleAuxiliaryInformationOffsetsBox, SampleToGroupBox>(v.sbgp);
    lemma_nested_collect_other::<SampleAuxiliaryInformationOffsetsBox, SampleGroupDescriptionBox>(v.sgpd);
    lemma_nested_collect_other::<SampleAuxiliaryInformationOffsetsBox, SubSampleInformationBox>(v.subs);
    lemma_nested_collect_other::<SampleAuxiliaryInformationOffsetsBox, SampleAuxiliaryInformationSizesBox>(v.saiz);
    lemma_nested_collect_own::<SampleAuxiliaryInformationOffsetsBox>(v.saio);
    lemma_nested_collect_other::<SampleAuxiliaryInformationOffsetsBox, CompactSampleToGroupBox>(v.csgp);
    assert(collect_children::<SampleAuxiliaryInformationOffsetsBox>(stbl_models(v)) =~= v.saio);
}

/// The boxes that a stbl writes collect back into its field `csgp`.
#[verifier::spinoff_prover]
#[verifier::rlimit(60)]
proof fn lemma_stbl_collect_csgp(v: SampleTableBoxModel)
    requires
        stbl_canonical(v),
        stbl_types_differ(),
    ensures
        collect_children::<CompactSampleToGroupBox>(stbl_models(v)) == v.csgp,
{
    lemma_stbl_split::<CompactSampleToGroupBox>(seq![nested_model::<SampleDescriptionBox>(v.stsd)], seq![nested_model::<TimeToSampleBox>(v.stts)], nested_opt_models::<CompositionOffsetBox>(v.ctts), nested_opt_models::<CompositionToDecodeBox>(v.cslg), seq![nested_model::<SampleToChunkBox>(v.stsc)], nested_opt_models::<SampleSizeBox>(v.stsz), nested_opt_models::<CompactSampleSizeBox>(v.stz2), nested_opt_models::<ChunkOffsetBox>(v.stco), nested_opt_models::<ChunkLargeOffsetBox>(v.co64), nested_opt_models::<SyncSampleBox>(v.stss), nested_opt_models::<ShadowSyncSampleBox>(v.stsh), nested_opt_models::<PaddingBitsBox>(v.padb), nested_opt_models::<DegradationPriorityBox>(v.stdp), nested_opt_models::<SampleDependencyTypeBox>(v.sdtp), nested_models::<SampleToGroupBox>(v.sbgp), nested_models::<SampleGroupDescriptionBox>(v.sgpd), nested_models::<SubSampleInformationBox>(v.subs), nested_models::<SampleAuxiliaryInformationSizesBox>(v.saiz), nested_models::<SampleAuxiliaryInformationOffsetsBox>(v.saio), nested_models::<CompactSampleToGroupBox>(v.csgp));
    lemma_nested_opt_other::<CompactSampleToGroupBox, SampleDescriptionBox>(Some(v.stsd));
    assert(nested_opt_models::<SampleDescriptionBox>(Some(v.stsd)) == seq![nested_model::<SampleDescriptionBox>(v.stsd)]);
    lemma_nested_opt_other::<CompactSampleToGroupBox, TimeToSampleBox>(Some(v.stts));
    assert(nested_opt_models::<TimeToSampleBox>(Some(v.stts)) == seq![nested_model::<TimeToSampleBox>(v.stts)]);
    lemma_nested_opt_other::<CompactSampleToGroupBox, CompositionOffsetBox>(v.ctts);
    lemma_nested_opt_other::<CompactSampleToGroupBox, CompositionToDecodeBox>(v.cslg);
    lemma_nested_opt_other::<CompactSampleToGroupBox, SampleToChunkBox>(Some(v.stsc));
    assert(nested_opt_models::<SampleToChunkBox>(Some(v.stsc)) == seq![nested_model::<SampleToChunkBox>(v.stsc)]);
    lemma_nested_opt_other::<CompactSampleToGroupBox, SampleSizeBox>(v.stsz);
    lemma_nested_opt_other::<CompactSampleToGroupBox, CompactSampleSizeBox>(v.stz2);
    lemma_nested_opt_other::<CompactSampleToGroupBox, ChunkOffsetBox>(v.stco);
    lemma_nested_opt_other::<CompactSampleToGroupBox, ChunkLargeOffsetBox>(v.co64);
    lemma_nested_opt_other::<CompactSampleToGroupBox, SyncSampleBox>(v.stss);
    lemma_nested_opt_other::<CompactSampleToGroupBox, ShadowSyncSampleBox>(v.stsh);
    lemma_nested_opt_other::<CompactSampleToGroupBox, PaddingBitsBox>(v.padb);
    lemma_nested_opt_other::<CompactSampleToGroupBox, DegradationPriorityBox>(v.stdp);
    lemma_nested_opt_other::<CompactSampleToGroupBox, SampleDependencyTypeBox>(v.sdtp);
    lemma_nested_collect_other::<CompactSampleToGroupBox, SampleToGroupBox>(v.sbgp);
    lemma_nested_collect_other::<CompactSampleToGroupBox, SampleGroupDescriptionBox>(v.sgpd);
    lemma_nested_collect_other::<CompactSampleToGroupBox, SubSampleInformationBox>(v.subs);
    lemma_nested_collect_other::<CompactSampleToGroupBox, SampleAuxiliaryInformationSizesBox>(v.saiz);
    lemma_nested_collect_other::<CompactSampleToGroupBox, SampleAuxiliaryInformationOffsetsBox>(v.saio);
    lemma_nested_collect_own::<CompactSampleToGroupBox>(v.csgp);
    assert(collect_children::<CompactSampleToGroupBox>(stbl_models(v)) =~= v.csgp);
}

/// Writing a stbl and reading its payload back gives it again.
#[verifier::spinoff_prover]
#[verifier::rlimit(100)]
proof fn lemma_stbl_roundtrip(v: SampleTableBoxModel)
    requires
        stbl_canonical(v),
    ensures
        stbl_parse(stbl_bytes(v)) == Ok::<SampleTableBoxModel, IsoError>(v),
{
    let s = stbl_bytes(v);
    lemma_stbl_children(v);
    lemma_stbl_types();
    let cs = stbl_models(v);
    let fault = |c: UnknownBoxModel| stbl_fault(c);
    assert forall|j: int| 0 <= j < cs.len() implies (#[trigger] fault(cs[j])) is None by {
        lemma_stbl_no_fault(v, j);
    }
    lemma_first_fault(cs, fault, cs.len() as int);
    assert(cs.take(cs.len() as int) =~= cs);
    lemma_stbl_collect_stsd(v);
    lemma_stbl_collect_stts(v);
    lemma_stbl_collect_ctts(v);
    lemma_stbl_collect_cslg(v);
    lemma_stbl_collect_stsc(v);
    lemma_stbl_collect_stsz(v);
    lemma_stbl_collect_stz2(v);
    lemma_stbl_collect_stco(v);
    lemma_stbl_collect_co64(v);
    lemma_stbl_collect_stss(v);
    lemma_stbl_collect_stsh(v);
    lemma_stbl_collect_padb(v);
    lemma_stbl_collect_stdp(v);
    lemma_stbl_collect_sdtp(v);
    lemma_stbl_collect_sbgp(v);
    lemma_stbl_collect_sgpd(v);
    lemma_stbl_collect_subs(v);
    lemma_stbl_collect_saiz(v);
    lemma_stbl_collect_saio(v);
    lemma_stbl_collect_csgp(v);
    assert(spec_children(s) == cs);
    assert(last_child::<SampleDescriptionBox>(cs) == Some(v.stsd));
    assert(last_child::<TimeToSampleBox>(cs) == Some(v.stts));
    assert(last_child::<CompositionOffsetBox>(cs) == v.ctts);
    assert(last_child::<CompositionToDecodeBox>(cs) == v.cslg);
    assert(last_child::<SampleToChunkBox>(cs) == Some(v.stsc));
    assert(last_child::<SampleSizeBox>(cs) == v.stsz);
    assert(last_child::<CompactSampleSizeBox>(cs) == v.stz2);
    assert(last_child::<ChunkOffsetBox>(cs) == v.stco);
    assert(last_child::<ChunkLargeOffsetBox>(cs) == v.co64);
    assert(last_child::<SyncSampleBox>(cs) == v.stss);
    assert(last_child::<ShadowSyncSampleBox>(cs) == v.stsh);
    assert(last_child::<PaddingBitsBox>(cs) == v.padb);
    assert(last_child::<DegradationPriorityBox>(cs) == v.stdp);
    assert(last_child::<SampleDependencyTypeBox>(cs) == v.sdtp);
}

/// For a value that reads back as itself, the size is that of its payload and header.
#[verifier::spinoff_prover]
#[verifier::rlimit(60)]
proof fn lemma_stbl_size(x: SampleTableBox)
    requires
        stbl_canonical(x@),
    ensures
        x.stsd.spec_size() + x.stts.spec_size() + nested_opt_size::<CompositionOffsetBox>(x.ctts) + nested_opt_size::<CompositionToDecodeBox>(x.cslg) + x.stsc.spec_size() + nested_opt_size::<SampleSizeBox>(x.stsz) + nested_opt_size::<CompactSampleSizeBox>(x.stz2) + nested_opt_size::<ChunkOffsetBox>(x.stco) + nested_opt_size::<ChunkLargeOffsetBox>(x.co64) + nested_opt_size::<SyncSampleBox>(x.stss) + nested_opt_size::<ShadowSyncSampleBox>(x.stsh) + nested_opt_size::<PaddingBitsBox>(x.padb) + nested_opt_size::<DegradationPriorityBox>(x.stdp) + nested_opt_size::<SampleDependencyTypeBox>(x.sdtp) + nested_sizes::<SampleToGroupBox>(x.sbgp@) + nested_sizes::<SampleGroupDescriptionBox>(x.sgpd@) + nested_sizes::<SubSampleInformationBox>(x.subs@) + nested_sizes::<SampleAuxiliaryInformationSizesBox>(x.saiz@) + nested_sizes::<SampleAuxiliaryInformationOffsetsBox>(x.saio@) + nested_sizes::<CompactSampleToGroupBox>(x.csgp@) == stbl_bytes(x@).len(),
{
    let v = x@;
    lemma_nested_size::<SampleDescriptionBox>(x.stsd);
    lemma_nested_size::<TimeToSampleBox>(x.stts);
    lemma_nested_opt_size::<CompositionOffsetBox>(x.ctts);
    lemma_nested_opt_size::<CompositionToDecodeBox>(x.cslg);
    lemma_nested_size::<SampleToChunkBox>(x.stsc);
    lemma_nested_opt_size::<SampleSizeBox>(x.stsz);
    lemma_nested_opt_size::<CompactSampleSizeBox>(x.stz2);
    lemma_nested_opt_size::<ChunkOffsetBox>(x.stco);
    lemma_nested_opt_size::<ChunkLargeOffsetBox>(x.co64);
    lemma_nested_opt_size::<SyncSampleBox>(x.stss);
    lemma_nested_opt_size::<ShadowSyncSampleBox>(x.stsh);
    lemma_nested_opt_size::<PaddingBitsBox>(x.padb);
    lemma_nested_opt_size::<DegradationPriorityBox>(x.stdp);
    lemma_nested_opt_size::<SampleDependencyTypeBox>(x.sdtp);
    lemma_nested_sizes::<SampleToGroupBox>(x.sbgp@);
    lemma_nested_sizes::<SampleGroupDescriptionBox>(x.sgpd@);
    lemma_nested_sizes::<SubSampleInformationBox>(x.subs@);
    lemma_nested_sizes::<SampleAuxiliaryInformationSizesBox>(x.saiz@);
    lemma_nested_sizes::<SampleAuxiliaryInformationOffsetsBox>(x.saio@);
    lemma_nested_sizes::<CompactSampleToGroupBox>(x.csgp@);
}

impl BoxBody for SampleTableBox {
    open spec fn spec_box_type() -> [u8; 4] {
        [0x73u8, 0x74u8, 0x62u8, 0x6cu8]
    }

    fn box_type() -> (r: [u8; 4]) {
        [0x73u8, 0x74u8, 0x62u8, 0x6cu8]
    }

    open spec fn spec_parse_body(s: Seq<u8>) -> Result<SampleTableBoxModel, IsoError> {
        stbl_parse(s)
    }

    open spec fn spec_writable(v: SampleTableBoxModel) -> bool {
        stbl_writable(v)
    }

    open spec fn spec_serialize_body(v: SampleTableBoxModel) -> Seq<u8> {
        stbl_bytes(v)
    }

    open spec fn spec_canonical(v: SampleTableBoxModel) -> bool {
        stbl_canonical(v)
    }

    proof fn lemma_box_type() {
        assert(Self::spec_box_type()[0] != spec_uuid_fourcc()[0]);
    }

    proof fn lemma_body_size(x: SampleTableBox) {
        lemma_stbl_size(x);
    }

    proof fn lemma_body_roundtrip(v: SampleTableBoxModel) {
        lemma_stbl_roundtrip(v);
    }

    fn parse_body(payload: &[u8]) -> (r: Result<SampleTableBox, IsoError>) {
        parse_stbl(payload)
    }

    #[verifier::spinoff_prover]
    #[verifier::rlimit(60)]
    fn serialize_body(&self, out: &mut Vec<u8>) -> (r: Result<(), IsoError>) {
        write_stbl_children(self, out)
    }
}

} // verus!
