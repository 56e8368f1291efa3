//! The whole file: the boxes at the top level of an ISO base media file.

use vstd::prelude::*;

use crate::children::{
    child_fault, child_value, collect_children, collect_into, collect_unknown, first_fault, is_child, is_child_exec,
    last_child, lemma_child_other, lemma_child_read, lemma_collect_add, lemma_collect_none, lemma_collect_step,
    lemma_first_fault, lemma_unknown_add, lemma_unknown_all_known, lemma_unknown_none_known, lemma_unknown_step,
    lemma_unknown_seq, read_children, replace_into, scan_result, spec_children,
};
use crate::codec::{
    be_u16_at, be_u24_at, be_u32_at, lemma_append_prefix, lemma_prefix_trans, lemma_u16_at, lemma_u24_at,
    lemma_u32_at, read_u16_at, read_u24_at, read_u32_at, u16_bytes, u24_bytes, u32_bytes, write_bytes, write_u16,
    write_u24, write_u32, write_u8, IsoError,
};
use crate::frame::{add_header_size, add_header_size_exec, BoxBody, UnknownBox, UnknownBoxModel};
use crate::header::{spec_uuid_fourcc, FullBoxHeader};
use crate::nested::{
    lemma_nested_collect_other, lemma_nested_collect_own, lemma_nested_cons, lemma_nested_opt_other,
    lemma_nested_opt_own, lemma_nested_opt_seq, lemma_nested_opt_size, lemma_nested_seq, lemma_nested_size,
    lemma_nested_sizes, lemma_unknown_seq_rest, nested_all_ok, nested_all_writable, nested_box_bytes, nested_bytes,
    nested_model,
    nested_models, nested_ok, nested_opt_bytes, nested_opt_models, nested_opt_ok, nested_opt_size,
    nested_opt_writable, nested_sizes, nested_writable, opt_seq, opt_view, size_nested_opt, size_nested_vec,
    write_nested, write_nested_opt, write_nested_vec,
};
use crate::wire::{
    lemma_size_seq, lemma_size_seq_mono, ser_seq, serialize_all, size_all, size_seq, views, writable_seq,
    write_matches, IsoSized, Wire,
};
use crate::boxes::file_organization::{ExtendedTypeBox, FileTypeBox, SegmentTypeBox};
use crate::boxes::fragment_random_access::MovieFragmentRandomAccessBox;
use crate::boxes::fragments::MovieFragmentBox;
use crate::boxes::general::{IdentifiedMediaDataBox, MediaDataBox, ProgressiveDownloadInfoBox};
use crate::boxes::meta::MetaBox;
use crate::boxes::movie::MovieBox;
use crate::boxes::original_file_type::OriginalFileTypeBox;
use crate::boxes::segments::{ProducerReferenceTimeBox, SegmentIndexBox, SubsegmentIndexBox};

verus! {

/// An ISOBMFF file: every box that a file may hold at its top level.
///
/// ISO/IEC 14496-12 - 4
#[derive(Debug)]
pub struct IsobmffFile {
    /// The contained [`FileTypeBox`]. (optional)
    pub ftyp: Option<FileTypeBox>,
    /// The contained [`ExtendedTypeBox`] boxes. (any quantity)
    pub etyp: Vec<ExtendedTypeBox>,
    /// The contained [`OriginalFileTypeBox`] boxes. (any quantity)
    pub otyp: Vec<OriginalFileTypeBox>,
    /// The contained [`ProgressiveDownloadInfoBox`]. (optional)
    pub pdin: Option<ProgressiveDownloadInfoBox>,
    /// The contained [`MovieBox`]. (optional)
    pub moov: Option<MovieBox>,
    /// The contained [`MovieFragmentBox`] boxes. (any quantity)
    pub moof: Vec<MovieFragmentBox>,
    /// The contained [`MediaDataBox`] boxes. (any quantity)
    pub mdat: Vec<MediaDataBox>,
    /// The contained [`IdentifiedMediaDataBox`] boxes. (any quantity)
    pub imda: Vec<IdentifiedMediaDataBox>,
    /// The contained [`MetaBox`]. (optional)
    pub meta: Option<MetaBox>,
    /// The contained [`SegmentTypeBox`] boxes. (any quantity)
    pub styp: Vec<SegmentTypeBox>,
    /// The contained [`SegmentIndexBox`] boxes. (any quantity)
    pub sidx: Vec<SegmentIndexBox>,
    /// The contained [`SubsegmentIndexBox`] boxes. (any quantity)
    pub ssix: Vec<SubsegmentIndexBox>,
    /// The contained [`ProducerReferenceTimeBox`] boxes. (any quantity)
    pub prft: Vec<ProducerReferenceTimeBox>,
    /// The boxes of other types, kept as they are.
    pub unknown_boxes: Vec<UnknownBox>,
    /// The contained [`MovieFragmentRandomAccessBox`]. (optional)
    pub mfra: Option<MovieFragmentRandomAccessBox>,
}

/// The model of a [`IsobmffFile`].
pub struct IsobmffFileModel {
    pub ftyp: Option<<FileTypeBox as View>::V>,
    pub etyp: Seq<<ExtendedTypeBox as View>::V>,
    pub otyp: Seq<<OriginalFileTypeBox as View>::V>,
    pub pdin: Option<<ProgressiveDownloadInfoBox as View>::V>,
    pub moov: Option<<MovieBox as View>::V>,
    pub moof: Seq<<MovieFragmentBox as View>::V>,
    pub mdat: Seq<<MediaDataBox as View>::V>,
    pub imda: Seq<<IdentifiedMediaDataBox as View>::V>,
    pub meta: Option<<MetaBox as View>::V>,
    pub styp: Seq<<SegmentTypeBox as View>::V>,
    pub sidx: Seq<<SegmentIndexBox as View>::V>,
    pub ssix: Seq<<SubsegmentIndexBox as View>::V>,
    pub prft: Seq<<ProducerReferenceTimeBox as View>::V>,
    pub unknown_boxes: Seq<UnknownBoxModel>,
    pub mfra: Option<<MovieFragmentRandomAccessBox as View>::V>,
}

impl View for IsobmffFile {
    type V = IsobmffFileModel;

    open spec fn view(&self) -> IsobmffFileModel {
        IsobmffFileModel {
            ftyp: opt_view(self.ftyp),
            etyp: views(self.etyp@),
            otyp: views(self.otyp@),
            pdin: opt_view(self.pdin),
            moov: opt_view(self.moov),
            moof: views(self.moof@),
            mdat: views(self.mdat@),
            imda: views(self.imda@),
            meta: opt_view(self.meta),
            styp: views(self.styp@),
            sidx: views(self.sidx@),
            ssix: views(self.ssix@),
            prft: views(self.prft@),
            unknown_boxes: views(self.unknown_boxes@),
            mfra: opt_view(self.mfra),
        }
    }
}

/// Whether a box found in a file has one of the types that it reads.
pub open spec fn file_known(c: UnknownBoxModel) -> bool {
    is_child::<FileTypeBox>(c) || is_child::<ExtendedTypeBox>(c) || is_child::<OriginalFileTypeBox>(c) || is_child::<ProgressiveDownloadInfoBox>(c) || is_child::<MovieBox>(c) || is_child::<MovieFragmentBox>(c) || is_child::<MediaDataBox>(c) || is_child::<IdentifiedMediaDataBox>(c) || is_child::<MetaBox>(c) || is_child::<SegmentTypeBox>(c) || is_child::<SegmentIndexBox>(c) || is_child::<SubsegmentIndexBox>(c) || is_child::<ProducerReferenceTimeBox>(c) || is_child::<MovieFragmentRandomAccessBox>(c)
}

/// The failure of reading a box of a known type found in a file.
pub open spec fn file_fault(c: UnknownBoxModel) -> Option<IsoError> {
    if is_child::<FileTypeBox>(c) {
        child_fault::<FileTypeBox>(c)
    }     else if is_child::<ExtendedTypeBox>(c) {
        child_fault::<ExtendedTypeBox>(c)
    }     else if is_child::<OriginalFileTypeBox>(c) {
        child_fault::<OriginalFileTypeBox>(c)
    }     else if is_child::<ProgressiveDownloadInfoBox>(c) {
        child_fault::<ProgressiveDownloadInfoBox>(c)
    }     else if is_child::<MovieBox>(c) {
        child_fault::<MovieBox>(c)
    }     else if is_child::<MovieFragmentBox>(c) {
        child_fault::<MovieFragmentBox>(c)
    }     else if is_child::<MediaDataBox>(c) {
        child_fault::<MediaDataBox>(c)
    }     else if is_child::<IdentifiedMediaDataBox>(c) {
        child_fault::<IdentifiedMediaDataBox>(c)
    }     else if is_child::<MetaBox>(c) {
        child_fault::<MetaBox>(c)
    }     else if is_child::<SegmentTypeBox>(c) {
        child_fault::<SegmentTypeBox>(c)
    }     else if is_child::<SegmentIndexBox>(c) {
        child_fault::<SegmentIndexBox>(c)
    }     else if is_child::<SubsegmentIndexBox>(c) {
        child_fault::<SubsegmentIndexBox>(c)
    }     else if is_child::<ProducerReferenceTimeBox>(c) {
        child_fault::<ProducerReferenceTimeBox>(c)
    }     else if is_child::<MovieFragmentRandomAccessBox>(c) {
        child_fault::<MovieFragmentRandomAccessBox>(c)
    } else {
        None
    }
}

/// What a file reads from its payload: the boxes before the first that fails, each box of a known type in its field (the
/// last one for a single field, which must be there where it is required) and every
/// other box kept as it is.
pub open spec fn file_parse(s: Seq<u8>) -> Result<IsobmffFileModel, IsoError> {
    let cs = spec_children(s);
    match scan_result(cs, |c: UnknownBoxModel| file_fault(c)) {
        Err(e) => Err(e),
        Ok(k) => {
            let p = cs.take(k as int);
            Ok(
                IsobmffFileModel {
                    ftyp: last_child::<FileTypeBox>(p),
                    etyp: collect_children::<ExtendedTypeBox>(p),
                    otyp: collect_children::<OriginalFileTypeBox>(p),
                    pdin: last_child::<ProgressiveDownloadInfoBox>(p),
                    moov: last_child::<MovieBox>(p),
                    moof: collect_children::<MovieFragmentBox>(p),
                    mdat: collect_children::<MediaDataBox>(p),
                    imda: collect_children::<IdentifiedMediaDataBox>(p),
                    meta: last_child::<MetaBox>(p),
                    styp: collect_children::<SegmentTypeBox>(p),
                    sidx: collect_children::<SegmentIndexBox>(p),
                    ssix: collect_children::<SubsegmentIndexBox>(p),
                    prft: collect_children::<ProducerReferenceTimeBox>(p),
                    unknown_boxes: collect_unknown(p, |c: UnknownBoxModel| file_known(c)),
                    mfra: last_child::<MovieFragmentRandomAccessBox>(p),
                },
            )
        },
    }
}

/// The bytes of the boxes that a file holds, in the order of its fields.
pub open spec fn file_children_bytes(v: IsobmffFileModel) -> Seq<u8> {
    nested_opt_bytes::<FileTypeBox>(v.ftyp)
        + nested_bytes::<ExtendedTypeBox>(v.etyp)
        + nested_bytes::<OriginalFileTypeBox>(v.otyp)
        + nested_opt_bytes::<ProgressiveDownloadInfoBox>(v.pdin)
        + nested_opt_bytes::<MovieBox>(v.moov)
        + nested_bytes::<MovieFragmentBox>(v.moof)
        + nested_bytes::<MediaDataBox>(v.mdat)
        + nested_bytes::<IdentifiedMediaDataBox>(v.imda)
        + nested_opt_bytes::<MetaBox>(v.meta)
        + nested_bytes::<SegmentTypeBox>(v.styp)
        + nested_bytes::<SegmentIndexBox>(v.sidx)
        + nested_bytes::<SubsegmentIndexBox>(v.ssix)
        + nested_bytes::<ProducerReferenceTimeBox>(v.prft)
        + ser_seq::<UnknownBox>(v.unknown_boxes)
        + nested_opt_bytes::<MovieFragmentRandomAccessBox>(v.mfra)
}

/// The boxes, as found in a container, that a file writes.
pub open spec fn file_models(v: IsobmffFileModel) -> Seq<UnknownBoxModel> {
    nested_opt_models::<FileTypeBox>(v.ftyp)
        + nested_models::<ExtendedTypeBox>(v.etyp)
        + nested_models::<OriginalFileTypeBox>(v.otyp)
        + nested_opt_models::<ProgressiveDownloadInfoBox>(v.pdin)
        + nested_opt_models::<MovieBox>(v.moov)
        + nested_models::<MovieFragmentBox>(v.moof)
        + nested_models::<MediaDataBox>(v.mdat)
        + nested_models::<IdentifiedMediaDataBox>(v.imda)
        + nested_opt_models::<MetaBox>(v.meta)
        + nested_models::<SegmentTypeBox>(v.styp)
        + nested_models::<SegmentIndexBox>(v.sidx)
        + nested_models::<SubsegmentIndexBox>(v.ssix)
        + nested_models::<ProducerReferenceTimeBox>(v.prft)
        + v.unknown_boxes
        + nested_opt_models::<MovieFragmentRandomAccessBox>(v.mfra)
}

/// The payload that a file writes.
pub open spec fn file_bytes(v: IsobmffFileModel) -> Seq<u8> {
    file_children_bytes(v)
}

/// Every box of a known type can be written.
pub open spec fn file_writable(v: IsobmffFileModel) -> bool {
    &&& nested_opt_writable::<FileTypeBox>(v.ftyp)
    &&& nested_all_writable::<ExtendedTypeBox>(v.etyp)
    &&& nested_all_writable::<OriginalFileTypeBox>(v.otyp)
    &&& nested_opt_writable::<ProgressiveDownloadInfoBox>(v.pdin)
    &&& nested_opt_writable::<MovieBox>(v.moov)
    &&& nested_all_writable::<MovieFragmentBox>(v.moof)
    &&& nested_all_writable::<MediaDataBox>(v.mdat)
    &&& nested_all_writable::<IdentifiedMediaDataBox>(v.imda)
    &&& nested_opt_writable::<MetaBox>(v.meta)
    &&& nested_all_writable::<SegmentTypeBox>(v.styp)
    &&& nested_all_writable::<SegmentIndexBox>(v.sidx)
    &&& nested_all_writable::<SubsegmentIndexBox>(v.ssix)
    &&& nested_all_writable::<ProducerReferenceTimeBox>(v.prft)
    &&& nested_opt_writable::<MovieFragmentRandomAccessBox>(v.mfra)
}

/// Every box of a known type reads back as itself, and every other box is of
/// another type and announces exactly its payload.
pub open spec fn file_canonical(v: IsobmffFileModel) -> bool {
    &&& nested_opt_ok::<FileTypeBox>(v.ftyp)
    &&& nested_all_ok::<ExtendedTypeBox>(v.etyp)
    &&& nested_all_ok::<OriginalFileTypeBox>(v.otyp)
    &&& nested_opt_ok::<ProgressiveDownloadInfoBox>(v.pdin)
    &&& nested_opt_ok::<MovieBox>(v.moov)
    &&& nested_all_ok::<MovieFragmentBox>(v.moof)
    &&& nested_all_ok::<MediaDataBox>(v.mdat)
    &&& nested_all_ok::<IdentifiedMediaDataBox>(v.imda)
    &&& nested_opt_ok::<MetaBox>(v.meta)
    &&& nested_all_ok::<SegmentTypeBox>(v.styp)
    &&& nested_all_ok::<SegmentIndexBox>(v.sidx)
    &&& nested_all_ok::<SubsegmentIndexBox>(v.ssix)
    &&& nested_all_ok::<ProducerReferenceTimeBox>(v.prft)
    &&& nested_opt_ok::<MovieFragmentRandomAccessBox>(v.mfra)
    &&& forall|i: int|
        0 <= i < v.unknown_boxes.len() ==> UnknownBox::spec_canonical(#[trigger] v.unknown_boxes[i]) && !file_known(
            v.unknown_boxes[i],
        )
}

impl IsoSized for IsobmffFile {
    open spec fn spec_size(&self) -> nat {
        nested_opt_size::<FileTypeBox>(self.ftyp) + nested_sizes::<ExtendedTypeBox>(self.etyp@) + nested_sizes::<OriginalFileTypeBox>(self.otyp@) + nested_opt_size::<ProgressiveDownloadInfoBox>(self.pdin) + nested_opt_size::<MovieBox>(self.moov) + nested_sizes::<MovieFragmentBox>(self.moof@) + nested_sizes::<MediaDataBox>(self.mdat@) + nested_sizes::<IdentifiedMediaDataBox>(self.imda@) + nested_opt_size::<MetaBox>(self.meta) + nested_sizes::<SegmentTypeBox>(self.styp@) + nested_sizes::<SegmentIndexBox>(self.sidx@) + nested_sizes::<SubsegmentIndexBox>(self.ssix@) + nested_sizes::<ProducerReferenceTimeBox>(self.prft@) + size_seq::<UnknownBox>(self.unknown_boxes@) + nested_opt_size::<MovieFragmentRandomAccessBox>(self.mfra)
    }

    fn size(&self) -> (n: usize) {
        proof {
            lemma_size_seq_mono::<UnknownBox>(self.unknown_boxes@, 0);
        }
        let mut n: usize = 0;
        n = n + size_nested_opt(&self.ftyp);
        n = n + size_nested_vec(&self.etyp);
        n = n + size_nested_vec(&self.otyp);
        n = n + size_nested_opt(&self.pdin);
        n = n + size_nested_opt(&self.moov);
        n = n + size_nested_vec(&self.moof);
        n = n + size_nested_vec(&self.mdat);
        n = n + size_nested_vec(&self.imda);
        n = n + size_nested_opt(&self.meta);
        n = n + size_nested_vec(&self.styp);
        n = n + size_nested_vec(&self.sidx);
        n = n + size_nested_vec(&self.ssix);
        n = n + size_nested_vec(&self.prft);
        n = n + size_all(&self.unknown_boxes);
        n = n + size_nested_opt(&self.mfra);
        n
    }
}

/// The fields of a file read so far.
pub struct IsobmffFileScan {
    pub ftyp: Option<FileTypeBox>,
    pub etyp: Vec<ExtendedTypeBox>,
    pub otyp: Vec<OriginalFileTypeBox>,
    pub pdin: Option<ProgressiveDownloadInfoBox>,
    pub moov: Option<MovieBox>,
    pub moof: Vec<MovieFragmentBox>,
    pub mdat: Vec<MediaDataBox>,
    pub imda: Vec<IdentifiedMediaDataBox>,
    pub meta: Option<MetaBox>,
    pub styp: Vec<SegmentTypeBox>,
    pub sidx: Vec<SegmentIndexBox>,
    pub ssix: Vec<SubsegmentIndexBox>,
    pub prft: Vec<ProducerReferenceTimeBox>,
    pub unknown_boxes: Vec<UnknownBox>,
    pub mfra: Option<MovieFragmentRandomAccessBox>,
}

/// The model of a [`IsobmffFileScan`].
pub struct IsobmffFileScanModel {
    pub ftyp: Option<<FileTypeBox as View>::V>,
    pub etyp: Seq<<ExtendedTypeBox as View>::V>,
    pub otyp: Seq<<OriginalFileTypeBox as View>::V>,
    pub pdin: Option<<ProgressiveDownloadInfoBox as View>::V>,
    pub moov: Option<<MovieBox as View>::V>,
    pub moof: Seq<<MovieFragmentBox as View>::V>,
    pub mdat: Seq<<MediaDataBox as View>::V>,
    pub imda: Seq<<IdentifiedMediaDataBox as View>::V>,
    pub meta: Option<<MetaBox as View>::V>,
    pub styp: Seq<<SegmentTypeBox as View>::V>,
    pub sidx: Seq<<SegmentIndexBox as View>::V>,
    pub ssix: Seq<<SubsegmentIndexBox as View>::V>,
    pub prft: Seq<<ProducerReferenceTimeBox as View>::V>,
    pub unknown_boxes: Seq<UnknownBoxModel>,
    pub mfra: Option<<MovieFragmentRandomAccessBox as View>::V>,
}

impl View for IsobmffFileScan {
    type V = IsobmffFileScanModel;

    open spec fn view(&self) -> IsobmffFileScanModel {
        IsobmffFileScanModel {
            ftyp: opt_view(self.ftyp),
            etyp: views(self.etyp@),
            otyp: views(self.otyp@),
            pdin: opt_view(self.pdin),
            moov: opt_view(self.moov),
            moof: views(self.moof@),
            mdat: views(self.mdat@),
            imda: views(self.imda@),
            meta: opt_view(self.meta),
            styp: views(self.styp@),
            sidx: views(self.sidx@),
            ssix: views(self.ssix@),
            prft: views(self.prft@),
            unknown_boxes: views(self.unknown_boxes@),
            mfra: opt_view(self.mfra),
        }
    }
}

/// What a file holds after reading the boxes of `p`.
pub open spec fn file_prefix(p: Seq<UnknownBoxModel>) -> IsobmffFileScanModel {
    IsobmffFileScanModel {
        ftyp: last_child::<FileTypeBox>(p),
        etyp: collect_children::<ExtendedTypeBox>(p),
        otyp: collect_children::<OriginalFileTypeBox>(p),
        pdin: last_child::<ProgressiveDownloadInfoBox>(p),
        moov: last_child::<MovieBox>(p),
        moof: collect_children::<MovieFragmentBox>(p),
        mdat: collect_children::<MediaDataBox>(p),
        imda: collect_children::<IdentifiedMediaDataBox>(p),
        meta: last_child::<MetaBox>(p),
        styp: collect_children::<SegmentTypeBox>(p),
        sidx: collect_children::<SegmentIndexBox>(p),
        ssix: collect_children::<SubsegmentIndexBox>(p),
        prft: collect_children::<ProducerReferenceTimeBox>(p),
        unknown_boxes: collect_unknown(p, |c: UnknownBoxModel| file_known(c)),
        mfra: last_child::<MovieFragmentRandomAccessBox>(p),
    }
}

/// What a file holds after reading one more box that does not fail.
pub open spec fn file_extend(m: IsobmffFileScanModel, c: UnknownBoxModel) -> IsobmffFileScanModel {
    IsobmffFileScanModel {
        ftyp: match child_value::<FileTypeBox>(c) {
            Some(v) => Some(v),
            None => m.ftyp,
        },
        etyp: m.etyp + opt_seq(child_value::<ExtendedTypeBox>(c)),
        otyp: m.otyp + opt_seq(child_value::<OriginalFileTypeBox>(c)),
        pdin: match child_value::<ProgressiveDownloadInfoBox>(c) {
            Some(v) => Some(v),
            None => m.pdin,
        },
        moov: match child_value::<MovieBox>(c) {
            Some(v) => Some(v),
            None => m.moov,
        },
        moof: m.moof + opt_seq(child_value::<MovieFragmentBox>(c)),
        mdat: m.mdat + opt_seq(child_value::<MediaDataBox>(c)),
        imda: m.imda + opt_seq(child_value::<IdentifiedMediaDataBox>(c)),
        meta: match child_value::<MetaBox>(c) {
            Some(v) => Some(v),
            None => m.meta,
        },
        styp: m.styp + opt_seq(child_value::<SegmentTypeBox>(c)),
        sidx: m.sidx + opt_seq(child_value::<SegmentIndexBox>(c)),
        ssix: m.ssix + opt_seq(child_value::<SubsegmentIndexBox>(c)),
        prft: m.prft + opt_seq(child_value::<ProducerReferenceTimeBox>(c)),
        unknown_boxes: if file_known(c) {
            m.unknown_boxes
        } else {
            m.unknown_boxes.push(c)
        },
        mfra: match child_value::<MovieFragmentRandomAccessBox>(c) {
            Some(v) => Some(v),
            None => m.mfra,
        },
    }
}

/// The types that a file reads differ from one another.
pub open spec fn file_types_differ() -> bool {
    &&& FileTypeBox::spec_box_type() != ExtendedTypeBox::spec_box_type()
    &&& FileTypeBox::spec_box_type() != OriginalFileTypeBox::spec_box_type()
    &&& FileTypeBox::spec_box_type() != ProgressiveDownloadInfoBox::spec_box_type()
    &&& FileTypeBox::spec_box_type() != MovieBox::spec_box_type()
    &&& FileTypeBox::spec_box_type() != MovieFragmentBox::spec_box_type()
    &&& FileTypeBox::spec_box_type() != MediaDataBox::spec_box_type()
    &&& FileTypeBox::spec_box_type() != IdentifiedMediaDataBox::spec_box_type()
    &&& FileTypeBox::spec_box_type() != MetaBox::spec_box_type()
    &&& FileTypeBox::spec_box_type() != SegmentTypeBox::spec_box_type()
    &&& FileTypeBox::spec_box_type() != SegmentIndexBox::spec_box_type()
    &&& FileTypeBox::spec_box_type() != SubsegmentIndexBox::spec_box_type()
    &&& FileTypeBox::spec_box_type() != ProducerReferenceTimeBox::spec_box_type()
    &&& FileTypeBox::spec_box_type() != MovieFragmentRandomAccessBox::spec_box_type()
    &&& ExtendedTypeBox::spec_box_type() != OriginalFileTypeBox::spec_box_type()
    &&& ExtendedTypeBox::spec_box_type() != ProgressiveDownloadInfoBox::spec_box_type()
    &&& ExtendedTypeBox::spec_box_type() != MovieBox::spec_box_type()
    &&& ExtendedTypeBox::spec_box_type() != MovieFragmentBox::spec_box_type()
    &&& ExtendedTypeBox::spec_box_type() != MediaDataBox::spec_box_type()
    &&& ExtendedTypeBox::spec_box_type() != IdentifiedMediaDataBox::spec_box_type()
    &&& ExtendedTypeBox::spec_box_type() != MetaBox::spec_box_type()
    &&& ExtendedTypeBox::spec_box_type() != SegmentTypeBox::spec_box_type()
    &&& ExtendedTypeBox::spec_box_type() != SegmentIndexBox::spec_box_type()
    &&& ExtendedTypeBox::spec_box_type() != SubsegmentIndexBox::spec_box_type()
    &&& ExtendedTypeBox::spec_box_type() != ProducerReferenceTimeBox::spec_box_type()
    &&& ExtendedTypeBox::spec_box_type() != MovieFragmentRandomAccessBox::spec_box_type()
    &&& OriginalFileTypeBox::spec_box_type() != ProgressiveDownloadInfoBox::spec_box_type()
    &&& OriginalFileTypeBox::spec_box_type() != MovieBox::spec_box_type()
    &&& OriginalFileTypeBox::spec_box_type() != MovieFragmentBox::spec_box_type()
    &&& OriginalFileTypeBox::spec_box_type() != MediaDataBox::spec_box_type()
    &&& OriginalFileTypeBox::spec_box_type() != IdentifiedMediaDataBox::spec_box_type()
    &&& OriginalFileTypeBox::spec_box_type() != MetaBox::spec_box_type()
    &&& OriginalFileTypeBox::spec_box_type() != SegmentTypeBox::spec_box_type()
    &&& OriginalFileTypeBox::spec_box_type() != SegmentIndexBox::spec_box_type()
    &&& OriginalFileTypeBox::spec_box_type() != SubsegmentIndexBox::spec_box_type()
    &&& OriginalFileTypeBox::spec_box_type() != ProducerReferenceTimeBox::spec_box_type()
    &&& OriginalFileTypeBox::spec_box_type() != MovieFragmentRandomAccessBox::spec_box_type()
    &&& ProgressiveDownloadInfoBox::spec_box_type() != MovieBox::spec_box_type()
    &&& ProgressiveDownloadInfoBox::spec_box_type() != MovieFragmentBox::spec_box_type()
    &&& ProgressiveDownloadInfoBox::spec_box_type() != MediaDataBox::spec_box_type()
    &&& ProgressiveDownloadInfoBox::spec_box_type() != IdentifiedMediaDataBox::spec_box_type()
    &&& ProgressiveDownloadInfoBox::spec_box_type() != MetaBox::spec_box_type()
    &&& ProgressiveDownloadInfoBox::spec_box_type() != SegmentTypeBox::spec_box_type()
    &&& ProgressiveDownloadInfoBox::spec_box_type() != SegmentIndexBox::spec_box_type()
    &&& ProgressiveDownloadInfoBox::spec_box_type() != SubsegmentIndexBox::spec_box_type()
    &&& ProgressiveDownloadInfoBox::spec_box_type() != ProducerReferenceTimeBox::spec_box_type()
    &&& ProgressiveDownloadInfoBox::spec_box_type() != MovieFragmentRandomAccessBox::spec_box_type()
    &&& MovieBox::spec_box_type() != MovieFragmentBox::spec_box_type()
    &&& MovieBox::spec_box_type() != MediaDataBox::spec_box_type()
    &&& MovieBox::spec_box_type() != IdentifiedMediaDataBox::spec_box_type()
    &&& MovieBox::spec_box_type() != MetaBox::spec_box_type()
    &&& MovieBox::spec_box_type() != SegmentTypeBox::spec_box_type()
    &&& MovieBox::spec_box_type() != SegmentIndexBox::spec_box_type()
    &&& MovieBox::spec_box_type() != SubsegmentIndexBox::spec_box_type()
    &&& MovieBox::spec_box_type() != ProducerReferenceTimeBox::spec_box_type()
    &&& MovieBox::spec_box_type() != MovieFragmentRandomAccessBox::spec_box_type()
    &&& MovieFragmentBox::spec_box_type() != MediaDataBox::spec_box_type()
    &&& MovieFragmentBox::spec_box_type() != IdentifiedMediaDataBox::spec_box_type()
    &&& MovieFragmentBox::spec_box_type() != MetaBox::spec_box_type()
    &&& MovieFragmentBox::spec_box_type() != SegmentTypeBox::spec_box_type()
    &&& MovieFragmentBox::spec_box_type() != SegmentIndexBox::spec_box_type()
    &&& MovieFragmentBox::spec_box_type() != SubsegmentIndexBox::spec_box_type()
    &&& MovieFragmentBox::spec_box_type() != ProducerReferenceTimeBox::spec_box_type()
    &&& MovieFragmentBox::spec_box_type() != MovieFragmentRandomAccessBox::spec_box_type()
    &&& MediaDataBox::spec_box_type() != IdentifiedMediaDataBox::spec_box_type()
    &&& MediaDataBox::spec_box_type() != MetaBox::spec_box_type()
    &&& MediaDataBox::spec_box_type() != SegmentTypeBox::spec_box_type()
    &&& MediaDataBox::spec_box_type() != SegmentIndexBox::spec_box_type()
    &&& MediaDataBox::spec_box_type() != SubsegmentIndexBox::spec_box_type()
    &&& MediaDataBox::spec_box_type() != ProducerReferenceTimeBox::spec_box_type()
    &&& MediaDataBox::spec_box_type() != MovieFragmentRandomAccessBox::spec_box_type()
    &&& IdentifiedMediaDataBox::spec_box_type() != MetaBox::spec_box_type()
    &&& IdentifiedMediaDataBox::spec_box_type() != SegmentTypeBox::spec_box_type()
    &&& IdentifiedMediaDataBox::spec_box_type() != SegmentIndexBox::spec_box_type()
    &&& IdentifiedMediaDataBox::spec_box_type() != SubsegmentIndexBox::spec_box_type()
    &&& IdentifiedMediaDataBox::spec_box_type() != ProducerReferenceTimeBox::spec_box_type()
    &&& IdentifiedMediaDataBox::spec_box_type() != MovieFragmentRandomAccessBox::spec_box_type()
    &&& MetaBox::spec_box_type() != SegmentTypeBox::spec_box_type()
    &&& MetaBox::spec_box_type() != SegmentIndexBox::spec_box_type()
    &&& MetaBox::spec_box_type() != SubsegmentIndexBox::spec_box_type()
    &&& MetaBox::spec_box_type() != ProducerReferenceTimeBox::spec_box_type()
    &&& MetaBox::spec_box_type() != MovieFragmentRandomAccessBox::spec_box_type()
    &&& SegmentTypeBox::spec_box_type() != SegmentIndexBox::spec_box_type()
    &&& SegmentTypeBox::spec_box_type() != SubsegmentIndexBox::spec_box_type()
    &&& SegmentTypeBox::spec_box_type() != ProducerReferenceTimeBox::spec_box_type()
    &&& SegmentTypeBox::spec_box_type() != MovieFragmentRandomAccessBox::spec_box_type()
    &&& SegmentIndexBox::spec_box_type() != SubsegmentIndexBox::spec_box_type()
    &&& SegmentIndexBox::spec_box_type() != ProducerReferenceTimeBox::spec_box_type()
    &&& SegmentIndexBox::spec_box_type() != MovieFragmentRandomAccessBox::spec_box_type()
    &&& SubsegmentIndexBox::spec_box_type() != ProducerReferenceTimeBox::spec_box_type()
    &&& SubsegmentIndexBox::spec_box_type() != MovieFragmentRandomAccessBox::spec_box_type()
    &&& ProducerReferenceTimeBox::spec_box_type() != MovieFragmentRandomAccessBox::spec_box_type()
}

proof fn lemma_file_types()
    ensures
        file_types_differ(),
{
    assert(FileTypeBox::spec_box_type()[0] != ExtendedTypeBox::spec_box_type()[0]);
    assert(FileTypeBox::spec_box_type()[0] != OriginalFileTypeBox::spec_box_type()[0]);
    assert(FileTypeBox::spec_box_type()[0] != ProgressiveDownloadInfoBox::spec_box_type()[0]);
    assert(FileTypeBox::spec_box_type()[0] != MovieBox::spec_box_type()[0]);
    assert(FileTypeBox::spec_box_type()[0] != MovieFragmentBox::spec_box_type()[0]);
    assert(FileTypeBox::spec_box_type()[0] != MediaDataBox::spec_box_type()[0]);
    assert(FileTypeBox::spec_box_type()[0] != IdentifiedMediaDataBox::spec_box_type()[0]);
    assert(FileTypeBox::spec_box_type()[0] != MetaBox::spec_box_type()[0]);
    assert(FileTypeBox::spec_box_type()[0] != SegmentTypeBox::spec_box_type()[0]);
    assert(FileTypeBox::spec_box_type()[0] != SegmentIndexBox::spec_box_type()[0]);
    assert(FileTypeBox::spec_box_type()[0] != SubsegmentIndexBox::spec_box_type()[0]);
    assert(FileTypeBox::spec_box_type()[0] != ProducerReferenceTimeBox::spec_box_type()[0]);
    assert(FileTypeBox::spec_box_type()[0] != MovieFragmentRandomAccessBox::spec_box_type()[0]);
    assert(ExtendedTypeBox::spec_box_type()[0] != OriginalFileTypeBox::spec_box_type()[0]);
    assert(ExtendedTypeBox::spec_box_type()[0] != ProgressiveDownloadInfoBox::spec_box_type()[0]);
    assert(ExtendedTypeBox::spec_box_type()[0] != MovieBox::spec_box_type()[0]);
    assert(ExtendedTypeBox::spec_box_type()[0] != MovieFragmentBox::spec_box_type()[0]);
    assert(ExtendedTypeBox::spec_box_type()[0] != MediaDataBox::spec_box_type()[0]);
    assert(ExtendedTypeBox::spec_box_type()[0] != IdentifiedMediaDataBox::spec_box_type()[0]);
    assert(ExtendedTypeBox::spec_box_type()[0] != MetaBox::spec_box_type()[0]);
    assert(ExtendedTypeBox::spec_box_type()[0] != SegmentTypeBox::spec_box_type()[0]);
    assert(ExtendedTypeBox::spec_box_type()[0] != SegmentIndexBox::spec_box_type()[0]);
    assert(ExtendedTypeBox::spec_box_type()[0] != SubsegmentIndexBox::spec_box_type()[0]);
    assert(ExtendedTypeBox::spec_box_type()[0] != ProducerReferenceTimeBox::spec_box_type()[0]);
    assert(ExtendedTypeBox::spec_box_type()[0] != MovieFragmentRandomAccessBox::spec_box_type()[0]);
    assert(OriginalFileTypeBox::spec_box_type()[0] != ProgressiveDownloadInfoBox::spec_box_type()[0]);
    assert(OriginalFileTypeBox::spec_box_type()[0] != MovieBox::spec_box_type()[0]);
    assert(OriginalFileTypeBox::spec_box_type()[0] != MovieFragmentBox::spec_box_type()[0]);
    assert(OriginalFileTypeBox::spec_box_type()[0] != MediaDataBox::spec_box_type()[0]);
    assert(OriginalFileTypeBox::spec_box_type()[0] != IdentifiedMediaDataBox::spec_box_type()[0]);
    assert(OriginalFileTypeBox::spec_box_type()[0] != MetaBox::spec_box_type()[0]);
    assert(OriginalFileTypeBox::spec_box_type()[0] != SegmentTypeBox::spec_box_type()[0]);
    assert(OriginalFileTypeBox::spec_box_type()[0] != SegmentIndexBox::spec_box_type()[0]);
    assert(OriginalFileTypeBox::spec_box_type()[0] != SubsegmentIndexBox::spec_box_type()[0]);
    assert(OriginalFileTypeBox::spec_box_type()[0] != ProducerReferenceTimeBox::spec_box_type()[0]);
    assert(OriginalFileTypeBox::spec_box_type()[0] != MovieFragmentRandomAccessBox::spec_box_type()[0]);
    assert(ProgressiveDownloadInfoBox::spec_box_type()[0] != MovieBox::spec_box_type()[0]);
    assert(ProgressiveDownloadInfoBox::spec_box_type()[0] != MovieFragmentBox::spec_box_type()[0]);
    assert(ProgressiveDownloadInfoBox::spec_box_type()[0] != MediaDataBox::spec_box_type()[0]);
    assert(ProgressiveDownloadInfoBox::spec_box_type()[0] != IdentifiedMediaDataBox::spec_box_type()[0]);
    assert(ProgressiveDownloadInfoBox::spec_box_type()[0] != MetaBox::spec_box_type()[0]);
    assert(ProgressiveDownloadInfoBox::spec_box_type()[0] != SegmentTypeBox::spec_box_type()[0]);
    assert(ProgressiveDownloadInfoBox::spec_box_type()[0] != SegmentIndexBox::spec_box_type()[0]);
    assert(ProgressiveDownloadInfoBox::spec_box_type()[0] != SubsegmentIndexBox::spec_box_type()[0]);
    assert(ProgressiveDownloadInfoBox::spec_box_type()[1] != ProducerReferenceTimeBox::spec_box_type()[1]);
    assert(ProgressiveDownloadInfoBox::spec_box_type()[0] != MovieFragmentRandomAccessBox::spec_box_type()[0]);
    assert(MovieBox::spec_box_type()[3] != MovieFragmentBox::spec_box_type()[3]);
    assert(MovieBox::spec_box_type()[1] != MediaDataBox::spec_box_type()[1]);
    assert(MovieBox::spec_box_type()[0] != IdentifiedMediaDataBox::spec_box_type()[0]);
    assert(MovieBox::spec_box_type()[1] != MetaBox::spec_box_type()[1]);
    assert(MovieBox::spec_box_type()[0] != SegmentTypeBox::spec_box_type()[0]);
    assert(MovieBox::spec_box_type()[0] != SegmentIndexBox::spec_box_type()[0]);
    assert(MovieBox::spec_box_type()[0] != SubsegmentIndexBox::spec_box_type()[0]);
    assert(MovieBox::spec_box_type()[0] != ProducerReferenceTimeBox::spec_box_type()[0]);
    assert(MovieBox::spec_box_type()[1] != MovieFragmentRandomAccessBox::spec_box_type()[1]);
    assert(MovieFragmentBox::spec_box_type()[1] != MediaDataBox::spec_box_type()[1]);
    assert(MovieFragmentBox::spec_box_type()[0] != IdentifiedMediaDataBox::spec_box_type()[0]);
    assert(MovieFragmentBox::spec_box_type()[1] != MetaBox::spec_box_type()[1]);
    assert(MovieFragmentBox::spec_box_type()[0] != SegmentTypeBox::spec_box_type()[0]);
    assert(MovieFragmentBox::spec_box_type()[0] != SegmentIndexBox::spec_box_type()[0]);
    assert(MovieFragmentBox::spec_box_type()[0] != SubsegmentIndexBox::spec_box_type()[0]);
    assert(MovieFragmentBox::spec_box_type()[0] != ProducerReferenceTimeBox::spec_box_type()[0]);
    assert(MovieFragmentBox::spec_box_type()[1] != MovieFragmentRandomAccessBox::spec_box_type()[1]);
    assert(MediaDataBox::spec_box_type()[0] != IdentifiedMediaDataBox::spec_box_type()[0]);
    assert(MediaDataBox::spec_box_type()[1] != MetaBox::spec_box_type()[1]);
    assert(MediaDataBox::spec_box_type()[0] != SegmentTypeBox::spec_box_type()[0]);
    assert(MediaDataBox::spec_box_type()[0] != SegmentIndexBox::spec_box_type()[0]);
    assert(MediaDataBox::spec_box_type()[0] != SubsegmentIndexBox::spec_box_type()[0]);
    assert(MediaDataBox::spec_box_type()[0] != ProducerReferenceTimeBox::spec_box_type()[0]);
    assert(MediaDataBox::spec_box_type()[1] != MovieFragmentRandomAccessBox::spec_box_type()[1]);
    assert(IdentifiedMediaDataBox::spec_box_type()[0] != MetaBox::spec_box_type()[0]);
    assert(IdentifiedMediaDataBox::spec_box_type()[0] != SegmentTypeBox::spec_box_type()[0]);
    assert(IdentifiedMediaDataBox::spec_box_type()[0] != SegmentIndexBox::spec_box_type()[0]);
    assert(IdentifiedMediaDataBox::spec_box_type()[0] != SubsegmentIndexBox::spec_box_type()[0]);
    assert(IdentifiedMediaDataBox::spec_box_type()[0] != ProducerReferenceTimeBox::spec_box_type()[0]);
    assert(IdentifiedMediaDataBox::spec_box_type()[0] != MovieFragmentRandomAccessBox::spec_box_type()[0]);
    assert(MetaBox::spec_box_type()[0] != SegmentTypeBox::spec_box_type()[0]);
    assert(MetaBox::spec_box_type()[0] != SegmentIndexBox::spec_box_type()[0]);
    assert(MetaBox::spec_box_type()[0] != SubsegmentIndexBox::spec_box_type()[0]);
    assert(MetaBox::spec_box_type()[0] != ProducerReferenceTimeBox::spec_box_type()[0]);
    assert(MetaBox::spec_box_type()[1] != MovieFragmentRandomAccessBox::spec_box_type()[1]);
    assert(SegmentTypeBox::spec_box_type()[1] != SegmentIndexBox::spec_box_type()[1]);
    assert(SegmentTypeBox::spec_box_type()[1] != SubsegmentIndexBox::spec_box_type()[1]);
    assert(SegmentTypeBox::spec_box_type()[0] != ProducerReferenceTimeBox::spec_box_type()[0]);
    assert(SegmentTypeBox::spec_box_type()[0] != MovieFragmentRandomAccessBox::spec_box_type()[0]);
    assert(SegmentIndexBox::spec_box_type()[1] != SubsegmentIndexBox::spec_box_type()[1]);
    assert(SegmentIndexBox::spec_box_type()[0] != ProducerReferenceTimeBox::spec_box_type()[0]);
    assert(SegmentIndexBox::spec_box_type()[0] != MovieFragmentRandomAccessBox::spec_box_type()[0]);
    assert(SubsegmentIndexBox::spec_box_type()[0] != ProducerReferenceTimeBox::spec_box_type()[0]);
    assert(SubsegmentIndexBox::spec_box_type()[0] != MovieFragmentRandomAccessBox::spec_box_type()[0]);
    assert(ProducerReferenceTimeBox::spec_box_type()[0] != MovieFragmentRandomAccessBox::spec_box_type()[0]);
}

/// Reads one box found in a file into its field.
#[verifier::spinoff_prover]
#[verifier::rlimit(100)]
fn file_step(c: &UnknownBox, acc: &mut IsobmffFileScan) -> (r: Result<(), IsoError>)
    requires
        file_types_differ(),
    ensures
        match r {
            Ok(()) => file_fault(c@) is None && final(acc)@ == file_extend(old(acc)@, c@),
            Err(e) => file_fault(c@) == Some(e) && final(acc)@ == old(acc)@,
        },
{
    if is_child_exec::<FileTypeBox>(c) {
        proof {
            lemma_child_other::<ExtendedTypeBox>(c@);
            lemma_child_other::<OriginalFileTypeBox>(c@);
            lemma_child_other::<ProgressiveDownloadInfoBox>(c@);
            lemma_child_other::<MovieBox>(c@);
            lemma_child_other::<MovieFragmentBox>(c@);
            lemma_child_other::<MediaDataBox>(c@);
            lemma_child_other::<IdentifiedMediaDataBox>(c@);
            lemma_child_other::<MetaBox>(c@);
            lemma_child_other::<SegmentTypeBox>(c@);
            lemma_child_other::<SegmentIndexBox>(c@);
            lemma_child_other::<SubsegmentIndexBox>(c@);
            lemma_child_other::<ProducerReferenceTimeBox>(c@);
            lemma_child_other::<MovieFragmentRandomAccessBox>(c@);
            lemma_child_read::<FileTypeBox>(c@);
        }
        let r = replace_into(c, &mut acc.ftyp);
        proof {
            if r is Err {
                assert(acc@ =~= old(acc)@);
            }
            if r is Ok {
                assert(opt_seq(child_value::<ExtendedTypeBox>(c@)) =~= Seq::<<ExtendedTypeBox as View>::V>::empty());
                assert(opt_seq(child_value::<OriginalFileTypeBox>(c@)) =~= Seq::<<OriginalFileTypeBox as View>::V>::empty());
                assert(opt_seq(child_value::<MovieFragmentBox>(c@)) =~= Seq::<<MovieFragmentBox as View>::V>::empty());
                assert(opt_seq(child_value::<MediaDataBox>(c@)) =~= Seq::<<MediaDataBox as View>::V>::empty());
                assert(opt_seq(child_value::<IdentifiedMediaDataBox>(c@)) =~= Seq::<<IdentifiedMediaDataBox as View>::V>::empty());
                assert(opt_seq(child_value::<SegmentTypeBox>(c@)) =~= Seq::<<SegmentTypeBox as View>::V>::empty());
                assert(opt_seq(child_value::<SegmentIndexBox>(c@)) =~= Seq::<<SegmentIndexBox as View>::V>::empty());
                assert(opt_seq(child_value::<SubsegmentIndexBox>(c@)) =~= Seq::<<SubsegmentIndexBox as View>::V>::empty());
                assert(opt_seq(child_value::<ProducerReferenceTimeBox>(c@)) =~= Seq::<<ProducerReferenceTimeBox as View>::V>::empty());
                assert(acc@ =~= file_extend(old(acc)@, c@));
            }
        }
        r
    } else if is_child_exec::<ExtendedTypeBox>(c) {
        proof {
            lemma_child_other::<FileTypeBox>(c@);
            lemma_child_other::<OriginalFileTypeBox>(c@);
            lemma_child_other::<ProgressiveDownloadInfoBox>(c@);
            lemma_child_other::<MovieBox>(c@);
            lemma_child_other::<MovieFragmentBox>(c@);
            lemma_child_other::<MediaDataBox>(c@);
            lemma_child_other::<IdentifiedMediaDataBox>(c@);
            lemma_child_other::<MetaBox>(c@);
            lemma_child_other::<SegmentTypeBox>(c@);
            lemma_child_other::<SegmentIndexBox>(c@);
            lemma_child_other::<SubsegmentIndexBox>(c@);
            lemma_child_other::<ProducerReferenceTimeBox>(c@);
            lemma_child_other::<MovieFragmentRandomAccessBox>(c@);
            lemma_child_read::<ExtendedTypeBox>(c@);
        }
        let ghost old_v = views(acc.etyp@);
        let r = collect_into(c, &mut acc.etyp);
        proof {
            if r is Err {
                assert(acc@ =~= old(acc)@);
            }
            if r is Ok {
                assert(views(acc.etyp@) =~= old_v + opt_seq(child_value::<ExtendedTypeBox>(c@)));
                assert(opt_seq(child_value::<OriginalFileTypeBox>(c@)) =~= Seq::<<OriginalFileTypeBox as View>::V>::empty());
                assert(opt_seq(child_value::<MovieFragmentBox>(c@)) =~= Seq::<<MovieFragmentBox as View>::V>::empty());
                assert(opt_seq(child_value::<MediaDataBox>(c@)) =~= Seq::<<MediaDataBox as View>::V>::empty());
                assert(opt_seq(child_value::<IdentifiedMediaDataBox>(c@)) =~= Seq::<<IdentifiedMediaDataBox as View>::V>::empty());
                assert(opt_seq(child_value::<SegmentTypeBox>(c@)) =~= Seq::<<SegmentTypeBox as View>::V>::empty());
                assert(opt_seq(child_value::<SegmentIndexBox>(c@)) =~= Seq::<<SegmentIndexBox as View>::V>::empty());
                assert(opt_seq(child_value::<SubsegmentIndexBox>(c@)) =~= Seq::<<SubsegmentIndexBox as View>::V>::empty());
                assert(opt_seq(child_value::<ProducerReferenceTimeBox>(c@)) =~= Seq::<<ProducerReferenceTimeBox as View>::V>::empty());
                assert(acc@ =~= file_extend(old(acc)@, c@));
            }
        }
        r
    } else if is_child_exec::<OriginalFileTypeBox>(c) {
        proof {
            lemma_child_other::<FileTypeBox>(c@);
            lemma_child_other::<ExtendedTypeBox>(c@);
            lemma_child_other::<ProgressiveDownloadInfoBox>(c@);
            lemma_child_other::<MovieBox>(c@);
            lemma_child_other::<MovieFragmentBox>(c@);
            lemma_child_other::<MediaDataBox>(c@);
            lemma_child_other::<IdentifiedMediaDataBox>(c@);
            lemma_child_other::<MetaBox>(c@);
            lemma_child_other::<SegmentTypeBox>(c@);
            lemma_child_other::<SegmentIndexBox>(c@);
            lemma_child_other::<SubsegmentIndexBox>(c@);
            lemma_child_other::<ProducerReferenceTimeBox>(c@);
            lemma_child_other::<MovieFragmentRandomAccessBox>(c@);
            lemma_child_read::<OriginalFileTypeBox>(c@);
        }
        let ghost old_v = views(acc.otyp@);
        let r = collect_into(c, &mut acc.otyp);
        proof {
            if r is Err {
                assert(acc@ =~= old(acc)@);
            }
            if r is Ok {
                assert(views(acc.otyp@) =~= old_v + opt_seq(child_value::<OriginalFileTypeBox>(c@)));
                assert(opt_seq(child_value::<ExtendedTypeBox>(c@)) =~= Seq::<<ExtendedTypeBox as View>::V>::empty());
                assert(opt_seq(child_value::<MovieFragmentBox>(c@)) =~= Seq::<<MovieFragmentBox as View>::V>::empty());
                assert(opt_seq(child_value::<MediaDataBox>(c@)) =~= Seq::<<MediaDataBox as View>::V>::empty());
                assert(opt_seq(child_value::<IdentifiedMediaDataBox>(c@)) =~= Seq::<<IdentifiedMediaDataBox as View>::V>::empty());
                assert(opt_seq(child_value::<SegmentTypeBox>(c@)) =~= Seq::<<SegmentTypeBox as View>::V>::empty());
                assert(opt_seq(child_value::<SegmentIndexBox>(c@)) =~= Seq::<<SegmentIndexBox as View>::V>::empty());
                assert(opt_seq(child_value::<SubsegmentIndexBox>(c@)) =~= Seq::<<SubsegmentIndexBox as View>::V>::empty());
                assert(opt_seq(child_value::<ProducerReferenceTimeBox>(c@)) =~= Seq::<<ProducerReferenceTimeBox as View>::V>::empty());
                assert(acc@ =~= file_extend(old(acc)@, c@));
            }
        }
        r
    } else if is_child_exec::<ProgressiveDownloadInfoBox>(c) {
        proof {
            lemma_child_other::<FileTypeBox>(c@);
            lemma_child_other::<ExtendedTypeBox>(c@);
            lemma_child_other::<OriginalFileTypeBox>(c@);
            lemma_child_other::<MovieBox>(c@);
            lemma_child_other::<MovieFragmentBox>(c@);
            lemma_child_other::<MediaDataBox>(c@);
            lemma_child_other::<IdentifiedMediaDataBox>(c@);
            lemma_child_other::<MetaBox>(c@);
            lemma_child_other::<SegmentTypeBox>(c@);
            lemma_child_other::<SegmentIndexBox>(c@);
            lemma_child_other::<SubsegmentIndexBox>(c@);
            lemma_child_other::<ProducerReferenceTimeBox>(c@);
            lemma_child_other::<MovieFragmentRandomAccessBox>(c@);
            lemma_child_read::<ProgressiveDownloadInfoBox>(c@);
        }
        let r = replace_into(c, &mut acc.pdin);
        proof {
            if r is Err {
                assert(acc@ =~= old(acc)@);
            }
            if r is Ok {
                assert(opt_seq(child_value::<ExtendedTypeBox>(c@)) =~= Seq::<<ExtendedTypeBox as View>::V>::empty());
                assert(opt_seq(child_value::<OriginalFileTypeBox>(c@)) =~= Seq::<<OriginalFileTypeBox as View>::V>::empty());
                assert(opt_seq(child_value::<MovieFragmentBox>(c@)) =~= Seq::<<MovieFragmentBox as View>::V>::empty());
                assert(opt_seq(child_value::<MediaDataBox>(c@)) =~= Seq::<<MediaDataBox as View>::V>::empty());
                assert(opt_seq(child_value::<IdentifiedMediaDataBox>(c@)) =~= Seq::<<IdentifiedMediaDataBox as View>::V>::empty());
                assert(opt_seq(child_value::<SegmentTypeBox>(c@)) =~= Seq::<<SegmentTypeBox as View>::V>::empty());
                assert(opt_seq(child_value::<SegmentIndexBox>(c@)) =~= Seq::<<SegmentIndexBox as View>::V>::empty());
                assert(opt_seq(child_value::<SubsegmentIndexBox>(c@)) =~= Seq::<<SubsegmentIndexBox as View>::V>::empty());
                assert(opt_seq(child_value::<ProducerReferenceTimeBox>(c@)) =~= Seq::<<ProducerReferenceTimeBox as View>::V>::empty());
                assert(acc@ =~= file_extend(old(acc)@, c@));
            }
        }
        r
    } else if is_child_exec::<MovieBox>(c) {
        proof {
            lemma_child_other::<FileTypeBox>(c@);
            lemma_child_other::<ExtendedTypeBox>(c@);
            lemma_child_other::<OriginalFileTypeBox>(c@);
            lemma_child_other::<ProgressiveDownloadInfoBox>(c@);
            lemma_child_other::<MovieFragmentBox>(c@);
            lemma_child_other::<MediaDataBox>(c@);
            lemma_child_other::<IdentifiedMediaDataBox>(c@);
            lemma_child_other::<MetaBox>(c@);
            lemma_child_other::<SegmentTypeBox>(c@);
            lemma_child_other::<SegmentIndexBox>(c@);
            lemma_child_other::<SubsegmentIndexBox>(c@);
            lemma_child_other::<ProducerReferenceTimeBox>(c@);
            lemma_child_other::<MovieFragmentRandomAccessBox>(c@);
            lemma_child_read::<MovieBox>(c@);
        }
        let r = replace_into(c, &mut acc.moov);
        proof {
            if r is Err {
                assert(acc@ =~= old(acc)@);
            }
            if r is Ok {
                assert(opt_seq(child_value::<ExtendedTypeBox>(c@)) =~= Seq::<<ExtendedTypeBox as View>::V>::empty());
                assert(opt_seq(child_value::<OriginalFileTypeBox>(c@)) =~= Seq::<<OriginalFileTypeBox as View>::V>::empty());
                assert(opt_seq(child_value::<MovieFragmentBox>(c@)) =~= Seq::<<MovieFragmentBox as View>::V>::empty());
                assert(opt_seq(child_value::<MediaDataBox>(c@)) =~= Seq::<<MediaDataBox as View>::V>::empty());
                assert(opt_seq(child_value::<IdentifiedMediaDataBox>(c@)) =~= Seq::<<IdentifiedMediaDataBox as View>::V>::empty());
                assert(opt_seq(child_value::<SegmentTypeBox>(c@)) =~= Seq::<<SegmentTypeBox as View>::V>::empty());
                assert(opt_seq(child_value::<SegmentIndexBox>(c@)) =~= Seq::<<SegmentIndexBox as View>::V>::empty());
                assert(opt_seq(child_value::<SubsegmentIndexBox>(c@)) =~= Seq::<<SubsegmentIndexBox as View>::V>::empty());
                assert(opt_seq(child_value::<ProducerReferenceTimeBox>(c@)) =~= Seq::<<ProducerReferenceTimeBox as View>::V>::empty());
                assert(acc@ =~= file_extend(old(acc)@, c@));
            }
        }
        r
    } else if is_child_exec::<MovieFragmentBox>(c) {
        proof {
            lemma_child_other::<FileTypeBox>(c@);
            lemma_child_other::<ExtendedTypeBox>(c@);
            lemma_child_other::<OriginalFileTypeBox>(c@);
            lemma_child_other::<ProgressiveDownloadInfoBox>(c@);
            lemma_child_other::<MovieBox>(c@);
            lemma_child_other::<MediaDataBox>(c@);
            lemma_child_other::<IdentifiedMediaDataBox>(c@);
            lemma_child_other::<MetaBox>(c@);
            lemma_child_other::<SegmentTypeBox>(c@);
            lemma_child_other::<SegmentIndexBox>(c@);
            lemma_child_other::<SubsegmentIndexBox>(c@);
            lemma_child_other::<ProducerReferenceTimeBox>(c@);
            lemma_child_other::<MovieFragmentRandomAccessBox>(c@);
            lemma_child_read::<MovieFragmentBox>(c@);
        }
        let ghost old_v = views(acc.moof@);
        let r = collect_into(c, &mut acc.moof);
        proof {
            if r is Err {
                assert(acc@ =~= old(acc)@);
            }
            if r is Ok {
                assert(views(acc.moof@) =~= old_v + opt_seq(child_value::<MovieFragmentBox>(c@)));
                assert(opt_seq(child_value::<ExtendedTypeBox>(c@)) =~= Seq::<<ExtendedTypeBox as View>::V>::empty());
                assert(opt_seq(child_value::<OriginalFileTypeBox>(c@)) =~= Seq::<<OriginalFileTypeBox as View>::V>::empty());
                assert(opt_seq(child_value::<MediaDataBox>(c@)) =~= Seq::<<MediaDataBox as View>::V>::empty());
                assert(opt_seq(child_value::<IdentifiedMediaDataBox>(c@)) =~= Seq::<<IdentifiedMediaDataBox as View>::V>::empty());
                assert(opt_seq(child_value::<SegmentTypeBox>(c@)) =~= Seq::<<SegmentTypeBox as View>::V>::empty());
                assert(opt_seq(child_value::<SegmentIndexBox>(c@)) =~= Seq::<<SegmentIndexBox as View>::V>::empty());
                assert(opt_seq(child_value::<SubsegmentIndexBox>(c@)) =~= Seq::<<SubsegmentIndexBox as View>::V>::empty());
                assert(opt_seq(child_value::<ProducerReferenceTimeBox>(c@)) =~= Seq::<<ProducerReferenceTimeBox as View>::V>::empty());
                assert(acc@ =~= file_extend(old(acc)@, c@));
            }
        }
        r
    } else if is_child_exec::<MediaDataBox>(c) {
        proof {
            lemma_child_other::<FileTypeBox>(c@);
            lemma_child_other::<ExtendedTypeBox>(c@);
            lemma_child_other::<OriginalFileTypeBox>(c@);
            lemma_child_other::<ProgressiveDownloadInfoBox>(c@);
            lemma_child_other::<MovieBox>(c@);
            lemma_child_other::<MovieFragmentBox>(c@);
            lemma_child_other::<IdentifiedMediaDataBox>(c@);
            lemma_child_other::<MetaBox>(c@);
            lemma_child_other::<SegmentTypeBox>(c@);
            lemma_child_other::<SegmentIndexBox>(c@);
            lemma_child_other::<SubsegmentIndexBox>(c@);
            lemma_child_other::<ProducerReferenceTimeBox>(c@);
            lemma_child_other::<MovieFragmentRandomAccessBox>(c@);
            lemma_child_read::<MediaDataBox>(c@);
        }
        let ghost old_v = views(acc.mdat@);
        let r = collect_into(c, &mut acc.mdat);
        proof {
            if r is Err {
                assert(acc@ =~= old(acc)@);
            }
            if r is Ok {
                assert(views(acc.mdat@) =~= old_v + opt_seq(child_value::<MediaDataBox>(c@)));
                assert(opt_seq(child_value::<ExtendedTypeBox>(c@)) =~= Seq::<<ExtendedTypeBox as View>::V>::empty());
                assert(opt_seq(child_value::<OriginalFileTypeBox>(c@)) =~= Seq::<<OriginalFileTypeBox as View>::V>::empty());
                assert(opt_seq(child_value::<MovieFragmentBox>(c@)) =~= Seq::<<MovieFragmentBox as View>::V>::empty());
                assert(opt_seq(child_value::<IdentifiedMediaDataBox>(c@)) =~= Seq::<<IdentifiedMediaDataBox as View>::V>::empty());
                assert(opt_seq(child_value::<SegmentTypeBox>(c@)) =~= Seq::<<SegmentTypeBox as View>::V>::empty());
                assert(opt_seq(child_value::<SegmentIndexBox>(c@)) =~= Seq::<<SegmentIndexBox as View>::V>::empty());
                assert(opt_seq(child_value::<SubsegmentIndexBox>(c@)) =~= Seq::<<SubsegmentIndexBox as View>::V>::empty());
                assert(opt_seq(child_value::<ProducerReferenceTimeBox>(c@)) =~= Seq::<<ProducerReferenceTimeBox as View>::V>::empty());
                assert(acc@ =~= file_extend(old(acc)@, c@));
            }
        }
        r
    } else if is_child_exec::<IdentifiedMediaDataBox>(c) {
        proof {
            lemma_child_other::<FileTypeBox>(c@);
            lemma_child_other::<ExtendedTypeBox>(c@);
            lemma_child_other::<OriginalFileTypeBox>(c@);
            lemma_child_other::<ProgressiveDownloadInfoBox>(c@);
            lemma_child_other::<MovieBox>(c@);
            lemma_child_other::<MovieFragmentBox>(c@);
            lemma_child_other::<MediaDataBox>(c@);
            lemma_child_other::<MetaBox>(c@);
            lemma_child_other::<SegmentTypeBox>(c@);
            lemma_child_other::<SegmentIndexBox>(c@);
            lemma_child_other::<SubsegmentIndexBox>(c@);
            lemma_child_other::<ProducerReferenceTimeBox>(c@);
            lemma_child_other::<MovieFragmentRandomAccessBox>(c@);
            lemma_child_read::<IdentifiedMediaDataBox>(c@);
        }
        let ghost old_v = views(acc.imda@);
        let r = collect_into(c, &mut acc.imda);
        proof {
            if r is Err {
                assert(acc@ =~= old(acc)@);
            }
            if r is Ok {
                assert(views(acc.imda@) =~= old_v + opt_seq(child_value::<IdentifiedMediaDataBox>(c@)));
                assert(opt_seq(child_value::<ExtendedTypeBox>(c@)) =~= Seq::<<ExtendedTypeBox as View>::V>::empty());
                assert(opt_seq(child_value::<OriginalFileTypeBox>(c@)) =~= Seq::<<OriginalFileTypeBox as View>::V>::empty());
                assert(opt_seq(child_value::<MovieFragmentBox>(c@)) =~= Seq::<<MovieFragmentBox as View>::V>::empty());
                assert(opt_seq(child_value::<MediaDataBox>(c@)) =~= Seq::<<MediaDataBox as View>::V>::empty());
                assert(opt_seq(child_value::<SegmentTypeBox>(c@)) =~= Seq::<<SegmentTypeBox as View>::V>::empty());
                assert(opt_seq(child_value::<SegmentIndexBox>(c@)) =~= Seq::<<SegmentIndexBox as View>::V>::empty());
                assert(opt_seq(child_value::<SubsegmentIndexBox>(c@)) =~= Seq::<<SubsegmentIndexBox as View>::V>::empty());
                assert(opt_seq(child_value::<ProducerReferenceTimeBox>(c@)) =~= Seq::<<ProducerReferenceTimeBox as View>::V>::empty());
                assert(acc@ =~= file_extend(old(acc)@, c@));
            }
        }
        r
    } else if is_child_exec::<MetaBox>(c) {
        proof {
            lemma_child_other::<FileTypeBox>(c@);
            lemma_child_other::<ExtendedTypeBox>(c@);
            lemma_child_other::<OriginalFileTypeBox>(c@);
            lemma_child_other::<ProgressiveDownloadInfoBox>(c@);
            lemma_child_other::<MovieBox>(c@);
            lemma_child_other::<MovieFragmentBox>(c@);
            lemma_child_other::<MediaDataBox>(c@);
            lemma_child_other::<IdentifiedMediaDataBox>(c@);
            lemma_child_other::<SegmentTypeBox>(c@);
            lemma_child_other::<SegmentIndexBox>(c@);
            lemma_child_other::<SubsegmentIndexBox>(c@);
            lemma_child_other::<ProducerReferenceTimeBox>(c@);
            lemma_child_other::<MovieFragmentRandomAccessBox>(c@);
            lemma_child_read::<MetaBox>(c@);
        }
        let r = replace_into(c, &mut acc.meta);
        proof {
            if r is Err {
                assert(acc@ =~= old(acc)@);
            }
            if r is Ok {
                assert(opt_seq(child_value::<ExtendedTypeBox>(c@)) =~= Seq::<<ExtendedTypeBox as View>::V>::empty());
                assert(opt_seq(child_value::<OriginalFileTypeBox>(c@)) =~= Seq::<<OriginalFileTypeBox as View>::V>::empty());
                assert(opt_seq(child_value::<MovieFragmentBox>(c@)) =~= Seq::<<MovieFragmentBox as View>::V>::empty());
                assert(opt_seq(child_value::<MediaDataBox>(c@)) =~= Seq::<<MediaDataBox as View>::V>::empty());
                assert(opt_seq(child_value::<IdentifiedMediaDataBox>(c@)) =~= Seq::<<IdentifiedMediaDataBox as View>::V>::empty());
                assert(opt_seq(child_value::<SegmentTypeBox>(c@)) =~= Seq::<<SegmentTypeBox as View>::V>::empty());
                assert(opt_seq(child_value::<SegmentIndexBox>(c@)) =~= Seq::<<SegmentIndexBox as View>::V>::empty());
                assert(opt_seq(child_value::<SubsegmentIndexBox>(c@)) =~= Seq::<<SubsegmentIndexBox as View>::V>::empty());
                assert(opt_seq(child_value::<ProducerReferenceTimeBox>(c@)) =~= Seq::<<ProducerReferenceTimeBox as View>::V>::empty());
                assert(acc@ =~= file_extend(old(acc)@, c@));
            }
        }
        r
    } else if is_child_exec::<SegmentTypeBox>(c) {
        proof {
            lemma_child_other::<FileTypeBox>(c@);
            lemma_child_other::<ExtendedTypeBox>(c@);
            lemma_child_other::<OriginalFileTypeBox>(c@);
            lemma_child_other::<ProgressiveDownloadInfoBox>(c@);
            lemma_child_other::<MovieBox>(c@);
            lemma_child_other::<MovieFragmentBox>(c@);
            lemma_child_other::<MediaDataBox>(c@);
            lemma_child_other::<IdentifiedMediaDataBox>(c@);
            lemma_child_other::<MetaBox>(c@);
            lemma_child_other::<SegmentIndexBox>(c@);
            lemma_child_other::<SubsegmentIndexBox>(c@);
            lemma_child_other::<ProducerReferenceTimeBox>(c@);
            lemma_child_other::<MovieFragmentRandomAccessBox>(c@);
            lemma_child_read::<SegmentTypeBox>(c@);
        }
        let ghost old_v = views(acc.styp@);
        let r = collect_into(c, &mut acc.styp);
        proof {
            if r is Err {
                assert(acc@ =~= old(acc)@);
            }
            if r is Ok {
                assert(views(acc.styp@) =~= old_v + opt_seq(child_value::<SegmentTypeBox>(c@)));
                assert(opt_seq(child_value::<ExtendedTypeBox>(c@)) =~= Seq::<<ExtendedTypeBox as View>::V>::empty());
                assert(opt_seq(child_value::<OriginalFileTypeBox>(c@)) =~= Seq::<<OriginalFileTypeBox as View>::V>::empty());
                assert(opt_seq(child_value::<MovieFragmentBox>(c@)) =~= Seq::<<MovieFragmentBox as View>::V>::empty());
                assert(opt_seq(child_value::<MediaDataBox>(c@)) =~= Seq::<<MediaDataBox as View>::V>::empty());
                assert(opt_seq(child_value::<IdentifiedMediaDataBox>(c@)) =~= Seq::<<IdentifiedMediaDataBox as View>::V>::empty());
                assert(opt_seq(child_value::<SegmentIndexBox>(c@)) =~= Seq::<<SegmentIndexBox as View>::V>::empty());
                assert(opt_seq(child_value::<SubsegmentIndexBox>(c@)) =~= Seq::<<SubsegmentIndexBox as View>::V>::empty());
                assert(opt_seq(child_value::<ProducerReferenceTimeBox>(c@)) =~= Seq::<<ProducerReferenceTimeBox as View>::V>::empty());
                assert(acc@ =~= file_extend(old(acc)@, c@));
            }
        }
        r
    } else if is_child_exec::<SegmentIndexBox>(c) {
        proof {
            lemma_child_other::<FileTypeBox>(c@);
            lemma_child_other::<ExtendedTypeBox>(c@);
            lemma_child_other::<OriginalFileTypeBox>(c@);
            lemma_child_other::<ProgressiveDownloadInfoBox>(c@);
            lemma_child_other::<MovieBox>(c@);
            lemma_child_other::<MovieFragmentBox>(c@);
            lemma_child_other::<MediaDataBox>(c@);
            lemma_child_other::<IdentifiedMediaDataBox>(c@);
            lemma_child_other::<MetaBox>(c@);
            lemma_child_other::<SegmentTypeBox>(c@);
            lemma_child_other::<SubsegmentIndexBox>(c@);
            lemma_child_other::<ProducerReferenceTimeBox>(c@);
            lemma_child_other::<MovieFragmentRandomAccessBox>(c@);
            lemma_child_read::<SegmentIndexBox>(c@);
        }
        let ghost old_v = views(acc.sidx@);
        let r = collect_into(c, &mut acc.sidx);
        proof {
            if r is Err {
                assert(acc@ =~= old(acc)@);
            }
            if r is Ok {
                assert(views(acc.sidx@) =~= old_v + opt_seq(child_value::<SegmentIndexBox>(c@)));
                assert(opt_seq(child_value::<ExtendedTypeBox>(c@)) =~= Seq::<<ExtendedTypeBox as View>::V>::empty());
                assert(opt_seq(child_value::<OriginalFileTypeBox>(c@)) =~= Seq::<<OriginalFileTypeBox as View>::V>::empty());
                assert(opt_seq(child_value::<MovieFragmentBox>(c@)) =~= Seq::<<MovieFragmentBox as View>::V>::empty());
                assert(opt_seq(child_value::<MediaDataBox>(c@)) =~= Seq::<<MediaDataBox as View>::V>::empty());
                assert(opt_seq(child_value::<IdentifiedMediaDataBox>(c@)) =~= Seq::<<IdentifiedMediaDataBox as View>::V>::empty());
                assert(opt_seq(child_value::<SegmentTypeBox>(c@)) =~= Seq::<<SegmentTypeBox as View>::V>::empty());
                assert(opt_seq(child_value::<SubsegmentIndexBox>(c@)) =~= Seq::<<SubsegmentIndexBox as View>::V>::empty());
                assert(opt_seq(child_value::<ProducerReferenceTimeBox>(c@)) =~= Seq::<<ProducerReferenceTimeBox as View>::V>::empty());
                assert(acc@ =~= file_extend(old(acc)@, c@));
            }
        }
        r
    } else if is_child_exec::<SubsegmentIndexBox>(c) {
        proof {
            lemma_child_other::<FileTypeBox>(c@);
            lemma_child_other::<ExtendedTypeBox>(c@);
            lemma_child_other::<OriginalFileTypeBox>(c@);
            lemma_child_other::<ProgressiveDownloadInfoBox>(c@);
            lemma_child_other::<MovieBox>(c@);
            lemma_child_other::<MovieFragmentBox>(c@);
            lemma_child_other::<MediaDataBox>(c@);
            lemma_child_other::<IdentifiedMediaDataBox>(c@);
            lemma_child_other::<MetaBox>(c@);
            lemma_child_other::<SegmentTypeBox>(c@);
            lemma_child_other::<SegmentIndexBox>(c@);
            lemma_child_other::<ProducerReferenceTimeBox>(c@);
            lemma_child_other::<MovieFragmentRandomAccessBox>(c@);
            lemma_child_read::<SubsegmentIndexBox>(c@);
        }
        let ghost old_v = views(acc.ssix@);
        let r = collect_into(c, &mut acc.ssix);
        proof {
            if r is Err {
                assert(acc@ =~= old(acc)@);
            }
            if r is Ok {
                assert(views(acc.ssix@) =~= old_v + opt_seq(child_value::<SubsegmentIndexBox>(c@)));
                assert(opt_seq(child_value::<ExtendedTypeBox>(c@)) =~= Seq::<<ExtendedTypeBox as View>::V>::empty());
                assert(opt_seq(child_value::<OriginalFileTypeBox>(c@)) =~= Seq::<<OriginalFileTypeBox as View>::V>::empty());
                assert(opt_seq(child_value::<MovieFragmentBox>(c@)) =~= Seq::<<MovieFragmentBox as View>::V>::empty());
                assert(opt_seq(child_value::<MediaDataBox>(c@)) =~= Seq::<<MediaDataBox as View>::V>::empty());
                assert(opt_seq(child_value::<IdentifiedMediaDataBox>(c@)) =~= Seq::<<IdentifiedMediaDataBox as View>::V>::empty());
                assert(opt_seq(child_value::<SegmentTypeBox>(c@)) =~= Seq::<<SegmentTypeBox as View>::V>::empty());
                assert(opt_seq(child_value::<SegmentIndexBox>(c@)) =~= Seq::<<SegmentIndexBox as View>::V>::empty());
                assert(opt_seq(child_value::<ProducerReferenceTimeBox>(c@)) =~= Seq::<<ProducerReferenceTimeBox as View>::V>::empty());
                assert(acc@ =~= file_extend(old(acc)@, c@));
            }
        }
        r
    } else if is_child_exec::<ProducerReferenceTimeBox>(c) {
        proof {
            lemma_child_other::<FileTypeBox>(c@);
            lemma_child_other::<ExtendedTypeBox>(c@);
            lemma_child_other::<OriginalFileTypeBox>(c@);
            lemma_child_other::<ProgressiveDownloadInfoBox>(c@);
            lemma_child_other::<MovieBox>(c@);
            lemma_child_other::<MovieFragmentBox>(c@);
            lemma_child_other::<MediaDataBox>(c@);
            lemma_child_other::<IdentifiedMediaDataBox>(c@);
            lemma_child_other::<MetaBox>(c@);
            lemma_child_other::<SegmentTypeBox>(c@);
            lemma_child_other::<SegmentIndexBox>(c@);
            lemma_child_other::<SubsegmentIndexBox>(c@);
            lemma_child_other::<MovieFragmentRandomAccessBox>(c@);
            lemma_child_read::<ProducerReferenceTimeBox>(c@);
        }
        let ghost old_v = views(acc.prft@);
        let r = collect_into(c, &mut acc.prft);
        proof {
            if r is Err {
                assert(acc@ =~= old(acc)@);
            }
            if r is Ok {
                assert(views(acc.prft@) =~= old_v + opt_seq(child_value::<ProducerReferenceTimeBox>(c@)));
                assert(opt_seq(child_value::<ExtendedTypeBox>(c@)) =~= Seq::<<ExtendedTypeBox as View>::V>::empty());
                assert(opt_seq(child_value::<OriginalFileTypeBox>(c@)) =~= Seq::<<OriginalFileTypeBox as View>::V>::empty());
                assert(opt_seq(child_value::<MovieFragmentBox>(c@)) =~= Seq::<<MovieFragmentBox as View>::V>::empty());
                assert(opt_seq(child_value::<MediaDataBox>(c@)) =~= Seq::<<MediaDataBox as View>::V>::empty());
                assert(opt_seq(child_value::<IdentifiedMediaDataBox>(c@)) =~= Seq::<<IdentifiedMediaDataBox as View>::V>::empty());
                assert(opt_seq(child_value::<SegmentTypeBox>(c@)) =~= Seq::<<SegmentTypeBox as View>::V>::empty());
                assert(opt_seq(child_value::<SegmentIndexBox>(c@)) =~= Seq::<<SegmentIndexBox as View>::V>::empty());
                assert(opt_seq(child_value::<SubsegmentIndexBox>(c@)) =~= Seq::<<SubsegmentIndexBox as View>::V>::empty());
                assert(acc@ =~= file_extend(old(acc)@, c@));
            }
        }
        r
    } else if is_child_exec::<MovieFragmentRandomAccessBox>(c) {
        proof {
            lemma_child_other::<FileTypeBox>(c@);
            lemma_child_other::<ExtendedTypeBox>(c@);
            lemma_child_other::<OriginalFileTypeBox>(c@);
            lemma_child_other::<ProgressiveDownloadInfoBox>(c@);
            lemma_child_other::<MovieBox>(c@);
            lemma_child_other::<MovieFragmentBox>(c@);
            lemma_child_other::<MediaDataBox>(c@);
            lemma_child_other::<IdentifiedMediaDataBox>(c@);
            lemma_child_other::<MetaBox>(c@);
            lemma_child_other::<SegmentTypeBox>(c@);
            lemma_child_other::<SegmentIndexBox>(c@);
            lemma_child_other::<SubsegmentIndexBox>(c@);
            lemma_child_other::<ProducerReferenceTimeBox>(c@);
            lemma_child_read::<MovieFragmentRandomAccessBox>(c@);
        }
        let r = replace_into(c, &mut acc.mfra);
        proof {
            if r is Err {
                assert(acc@ =~= old(acc)@);
            }
            if r is Ok {
                assert(opt_seq(child_value::<ExtendedTypeBox>(c@)) =~= Seq::<<ExtendedTypeBox as View>::V>::empty());
                assert(opt_seq(child_value::<OriginalFileTypeBox>(c@)) =~= Seq::<<OriginalFileTypeBox as View>::V>::empty());
                assert(opt_seq(child_value::<MovieFragmentBox>(c@)) =~= Seq::<<MovieFragmentBox as View>::V>::empty());
                assert(opt_seq(child_value::<MediaDataBox>(c@)) =~= Seq::<<MediaDataBox as View>::V>::empty());
                assert(opt_seq(child_value::<IdentifiedMediaDataBox>(c@)) =~= Seq::<<IdentifiedMediaDataBox as View>::V>::empty());
                assert(opt_seq(child_value::<SegmentTypeBox>(c@)) =~= Seq::<<SegmentTypeBox as View>::V>::empty());
                assert(opt_seq(child_value::<SegmentIndexBox>(c@)) =~= Seq::<<SegmentIndexBox as View>::V>::empty());
                assert(opt_seq(child_value::<SubsegmentIndexBox>(c@)) =~= Seq::<<SubsegmentIndexBox as View>::V>::empty());
                assert(opt_seq(child_value::<ProducerReferenceTimeBox>(c@)) =~= Seq::<<ProducerReferenceTimeBox as View>::V>::empty());
                assert(acc@ =~= file_extend(old(acc)@, c@));
            }
        }
        r
    } else {
        proof {
            lemma_child_other::<FileTypeBox>(c@);
            lemma_child_other::<ExtendedTypeBox>(c@);
            lemma_child_other::<OriginalFileTypeBox>(c@);
            lemma_child_other::<ProgressiveDownloadInfoBox>(c@);
            lemma_child_other::<MovieBox>(c@);
            lemma_child_other::<MovieFragmentBox>(c@);
            lemma_child_other::<MediaDataBox>(c@);
            lemma_child_other::<IdentifiedMediaDataBox>(c@);
            lemma_child_other::<MetaBox>(c@);
            lemma_child_other::<SegmentTypeBox>(c@);
            lemma_child_other::<SegmentIndexBox>(c@);
            lemma_child_other::<SubsegmentIndexBox>(c@);
            lemma_child_other::<ProducerReferenceTimeBox>(c@);
            lemma_child_other::<MovieFragmentRandomAccessBox>(c@);
        }
        let kept = UnknownBox { header: c.header, data: vstd::slice::slice_to_vec(c.data.as_slice()) };
        let ghost old_v = views(acc.unknown_boxes@);
        acc.unknown_boxes.push(kept);
        proof {
            assert(views(acc.unknown_boxes@) =~= old_v.push(c@));
            assert(opt_seq(child_value::<ExtendedTypeBox>(c@)) =~= Seq::<<ExtendedTypeBox as View>::V>::empty());
            assert(opt_seq(child_value::<OriginalFileTypeBox>(c@)) =~= Seq::<<OriginalFileTypeBox as View>::V>::empty());
            assert(opt_seq(child_value::<MovieFragmentBox>(c@)) =~= Seq::<<MovieFragmentBox as View>::V>::empty());
            assert(opt_seq(child_value::<MediaDataBox>(c@)) =~= Seq::<<MediaDataBox as View>::V>::empty());
            assert(opt_seq(child_value::<IdentifiedMediaDataBox>(c@)) =~= Seq::<<IdentifiedMediaDataBox as View>::V>::empty());
            assert(opt_seq(child_value::<SegmentTypeBox>(c@)) =~= Seq::<<SegmentTypeBox as View>::V>::empty());
            assert(opt_seq(child_value::<SegmentIndexBox>(c@)) =~= Seq::<<SegmentIndexBox as View>::V>::empty());
            assert(opt_seq(child_value::<SubsegmentIndexBox>(c@)) =~= Seq::<<SubsegmentIndexBox as View>::V>::empty());
            assert(opt_seq(child_value::<ProducerReferenceTimeBox>(c@)) =~= Seq::<<ProducerReferenceTimeBox as View>::V>::empty());
            assert(acc@ =~= file_extend(old(acc)@, c@));
        }
        Ok(())
    }
}

/// Reading one more box extends what was read by it.
proof fn lemma_file_prefix_step(css: Seq<UnknownBoxModel>, i: int)
    requires
        0 <= i < css.len(),
    ensures
        file_prefix(css.take(i + 1)) == file_extend(file_prefix(css.take(i)), css[i]),
{
    lemma_collect_step::<FileTypeBox>(css, i);
    lemma_collect_step::<ExtendedTypeBox>(css, i);
    lemma_collect_step::<OriginalFileTypeBox>(css, i);
    lemma_collect_step::<ProgressiveDownloadInfoBox>(css, i);
    lemma_collect_step::<MovieBox>(css, i);
    lemma_collect_step::<MovieFragmentBox>(css, i);
    lemma_collect_step::<MediaDataBox>(css, i);
    lemma_collect_step::<IdentifiedMediaDataBox>(css, i);
    lemma_collect_step::<MetaBox>(css, i);
    lemma_collect_step::<SegmentTypeBox>(css, i);
    lemma_collect_step::<SegmentIndexBox>(css, i);
    lemma_collect_step::<SubsegmentIndexBox>(css, i);
    lemma_collect_step::<ProducerReferenceTimeBox>(css, i);
    lemma_collect_step::<MovieFragmentRandomAccessBox>(css, i);
    lemma_unknown_step(css, |c: UnknownBoxModel| file_known(c), i);
    let a = file_prefix(css.take(i + 1));
    let b = file_extend(file_prefix(css.take(i)), css[i]);
    assert(a.etyp =~= b.etyp);
    assert(a.otyp =~= b.otyp);
    assert(a.moof =~= b.moof);
    assert(a.mdat =~= b.mdat);
    assert(a.imda =~= b.imda);
    assert(a.styp =~= b.styp);
    assert(a.sidx =~= b.sidx);
    assert(a.ssix =~= b.ssix);
    assert(a.prft =~= b.prft);
    assert(a.unknown_boxes =~= b.unknown_boxes);
}

/// Reads the payload of a file.
#[verifier::spinoff_prover]
#[verifier::rlimit(60)]
fn parse_file(payload: &[u8]) -> (r: Result<IsobmffFile, IsoError>)
    ensures
        match (file_parse(payload@), r) {
            (Ok(v), Ok(x)) => x@ == v,
            (Err(e), Err(f)) => e == f,
            _ => false,
        },
{
    let cs = read_children(payload);
    let ghost css = spec_children(payload@);
    let ghost fault = |c: UnknownBoxModel| file_fault(c);
    let mut acc = IsobmffFileScan {
        ftyp: None,
        etyp: Vec::new(),
        otyp: Vec::new(),
        pdin: None,
        moov: None,
        moof: Vec::new(),
        mdat: Vec::new(),
        imda: Vec::new(),
        meta: None,
        styp: Vec::new(),
        sidx: Vec::new(),
        ssix: Vec::new(),
        prft: Vec::new(),
        unknown_boxes: Vec::new(),
        mfra: None,
    };
    let mut i: usize = 0;
    let mut stop = false;
    proof {
        lemma_file_types();
        let e = css.take(0);
        assert(e =~= Seq::<UnknownBoxModel>::empty());
        assert(collect_children::<FileTypeBox>(e) =~= Seq::<<FileTypeBox as View>::V>::empty());
        assert(collect_children::<ExtendedTypeBox>(e) =~= Seq::<<ExtendedTypeBox as View>::V>::empty());
        assert(views(acc.etyp@) =~= Seq::<<ExtendedTypeBox as View>::V>::empty());
        assert(collect_children::<OriginalFileTypeBox>(e) =~= Seq::<<OriginalFileTypeBox as View>::V>::empty());
        assert(views(acc.otyp@) =~= Seq::<<OriginalFileTypeBox as View>::V>::empty());
        assert(collect_children::<ProgressiveDownloadInfoBox>(e) =~= Seq::<<ProgressiveDownloadInfoBox as View>::V>::empty());
        assert(collect_children::<MovieBox>(e) =~= Seq::<<MovieBox as View>::V>::empty());
        assert(collect_children::<MovieFragmentBox>(e) =~= Seq::<<MovieFragmentBox as View>::V>::empty());
        assert(views(acc.moof@) =~= Seq::<<MovieFragmentBox as View>::V>::empty());
        assert(collect_children::<MediaDataBox>(e) =~= Seq::<<MediaDataBox as View>::V>::empty());
        assert(views(acc.mdat@) =~= Seq::<<MediaDataBox as View>::V>::empty());
        assert(collect_children::<IdentifiedMediaDataBox>(e) =~= Seq::<<IdentifiedMediaDataBox as View>::V>::empty());
        assert(views(acc.imda@) =~= Seq::<<IdentifiedMediaDataBox as View>::V>::empty());
        assert(collect_children::<MetaBox>(e) =~= Seq::<<MetaBox as View>::V>::empty());
        assert(collect_children::<SegmentTypeBox>(e) =~= Seq::<<SegmentTypeBox as View>::V>::empty());
        assert(views(acc.styp@) =~= Seq::<<SegmentTypeBox as View>::V>::empty());
        assert(collect_children::<SegmentIndexBox>(e) =~= Seq::<<SegmentIndexBox as View>::V>::empty());
        assert(views(acc.sidx@) =~= Seq::<<SegmentIndexBox as View>::V>::empty());
        assert(collect_children::<SubsegmentIndexBox>(e) =~= Seq::<<SubsegmentIndexBox as View>::V>::empty());
        assert(views(acc.ssix@) =~= Seq::<<SubsegmentIndexBox as View>::V>::empty());
        assert(collect_children::<ProducerReferenceTimeBox>(e) =~= Seq::<<ProducerReferenceTimeBox as View>::V>::empty());
        assert(views(acc.prft@) =~= Seq::<<ProducerReferenceTimeBox as View>::V>::empty());
        assert(collect_unknown(e, |c: UnknownBoxModel| file_known(c)) =~= Seq::<UnknownBoxModel>::empty());
        assert(views(acc.unknown_boxes@) =~= Seq::<UnknownBoxModel>::empty());
        assert(collect_children::<MovieFragmentRandomAccessBox>(e) =~= Seq::<<MovieFragmentRandomAccessBox as View>::V>::empty());
        assert(acc@ =~= file_prefix(e));
    }
    while i < cs.len() && !stop
        invariant
            views(cs@) == css,
            css == spec_children(payload@),
            fault == (|c: UnknownBoxModel| file_fault(c)),
            file_types_differ(),
            i <= cs@.len(),
            forall|j: int| 0 <= j < i ==> (#[trigger] fault(css[j])) is None,
            stop ==> i < css.len() && fault(css[i as int]) == Some(IsoError::UnexpectedEof),
            acc@ == file_prefix(css.take(i as int)),
        decreases cs@.len() - i + (if stop { 0int } else { 1int }),
    {
        let c = &cs[i];
        proof {
            assert(c@ == css[i as int]);
            lemma_file_prefix_step(css, i as int);
        }
        match file_step(c, &mut acc) {
            Ok(()) => {
                i = i + 1;
            },
            Err(IsoError::UnexpectedEof) => {
                stop = true;
            },
            Err(e) => {
                proof {
                    lemma_first_fault(css, fault, i as int);
                }
                return Err(e);
            },
        }
    }
    proof {
        lemma_first_fault(css, fault, i as int);
        assert(first_fault(css, fault) == i);
    }
    let IsobmffFileScan { ftyp, etyp, otyp, pdin, moov, moof, mdat, imda, meta, styp, sidx, ssix, prft, unknown_boxes, mfra } = acc;
    Ok(IsobmffFile { ftyp, etyp, otyp, pdin, moov, moof, mdat, imda, meta, styp, sidx, ssix, prft, unknown_boxes, mfra })
}

/// Writes the boxes of a file in the order of its fields.
#[verifier::spinoff_prover]
#[verifier::rlimit(60)]
fn write_file_children(x: &IsobmffFile, out: &mut Vec<u8>) -> (r: Result<(), IsoError>)
    requires
        x.spec_size() <= usize::MAX,
    ensures
        write_matches(r, file_writable(x@), file_children_bytes(x@), old(out)@, final(out)@),
{
    let ghost before = out@;
    let ghost v = x@;
    if write_nested_opt(&x.ftyp, out).is_err() {
        return Err(IsoError::InvalidData);
    }
    let ghost m1 = out@;
    proof {
        lemma_append_prefix(before, nested_opt_bytes::<FileTypeBox>(v.ftyp));
    }
    if write_nested_vec(&x.etyp, out).is_err() {
        proof {
            lemma_prefix_trans(before, m1, out@);
        }
        return Err(IsoError::InvalidData);
    }
    let ghost m2 = out@;
    proof {
        lemma_append_prefix(m1, nested_bytes::<ExtendedTypeBox>(v.etyp));
        lemma_prefix_trans(before, m1, m2);
    }
    if write_nested_vec(&x.otyp, out).is_err() {
        proof {
            lemma_prefix_trans(before, m2, out@);
        }
        return Err(IsoError::InvalidData);
    }
    let ghost m3 = out@;
    proof {
        lemma_append_prefix(m2, nested_bytes::<OriginalFileTypeBox>(v.otyp));
        lemma_prefix_trans(before, m2, m3);
    }
    if write_nested_opt(&x.pdin, out).is_err() {
        proof {
            lemma_prefix_trans(before, m3, out@);
        }
        return Err(IsoError::InvalidData);
    }
    let ghost m4 = out@;
    proof {
        lemma_append_prefix(m3, nested_opt_bytes::<ProgressiveDownloadInfoBox>(v.pdin));
        lemma_prefix_trans(before, m3, m4);
    }
    if write_nested_opt(&x.moov, out).is_err() {
        proof {
            lemma_prefix_trans(before, m4, out@);
        }
        return Err(IsoError::InvalidData);
    }
    let ghost m5 = out@;
    proof {
        lemma_append_prefix(m4, nested_opt_bytes::<MovieBox>(v.moov));
        lemma_prefix_trans(before, m4, m5);
    }
    if write_nested_vec(&x.moof, out).is_err() {
        proof {
            lemma_prefix_trans(before, m5, out@);
        }
        return Err(IsoError::InvalidData);
    }
    let ghost m6 = out@;
    proof {
        lemma_append_prefix(m5, nested_bytes::<MovieFragmentBox>(v.moof));
        lemma_prefix_trans(before, m5, m6);
    }
    if write_nested_vec(&x.mdat, out).is_err() {
        proof {
            lemma_prefix_trans(before, m6, out@);
        }
        return Err(IsoError::InvalidData);
    }
    let ghost m7 = out@;
    proof {
        lemma_append_prefix(m6, nested_bytes::<MediaDataBox>(v.mdat));
        lemma_prefix_trans(before, m6, m7);
    }
    if write_nested_vec(&x.imda, out).is_err() {
        proof {
            lemma_prefix_trans(before, m7, out@);
        }
        return Err(IsoError::InvalidData);
    }
    let ghost m8 = out@;
    proof {
        lemma_append_prefix(m7, nested_bytes::<IdentifiedMediaDataBox>(v.imda));
        lemma_prefix_trans(before, m7, m8);
    }
    if write_nested_opt(&x.meta, out).is_err() {
        proof {
            lemma_prefix_trans(before, m8, out@);
        }
        return Err(IsoError::InvalidData);
    }
    let ghost m9 = out@;
    proof {
        lemma_append_prefix(m8, nested_opt_bytes::<MetaBox>(v.meta));
        lemma_prefix_trans(before, m8, m9);
    }
    if write_nested_vec(&x.styp, out).is_err() {
        proof {
            lemma_prefix_trans(before, m9, out@);
        }
        return Err(IsoError::InvalidData);
    }
    let ghost m10 = out@;
    proof {
        lemma_append_prefix(m9, nested_bytes::<SegmentTypeBox>(v.styp));
        lemma_prefix_trans(before, m9, m10);
    }
    if write_nested_vec(&x.sidx, out).is_err() {
        proof {
            lemma_prefix_trans(before, m10, out@);
        }
        return Err(IsoError::InvalidData);
    }
    let ghost m11 = out@;
    proof {
        lemma_append_prefix(m10, nested_bytes::<SegmentIndexBox>(v.sidx));
        lemma_prefix_trans(before, m10, m11);
    }
    if write_nested_vec(&x.ssix, out).is_err() {
        proof {
            lemma_prefix_trans(before, m11, out@);
        }
        return Err(IsoError::InvalidData);
    }
    let ghost m12 = out@;
    proof {
        lemma_append_prefix(m11, nested_bytes::<SubsegmentIndexBox>(v.ssix));
        lemma_prefix_trans(before, m11, m12);
    }
    if write_nested_vec(&x.prft, out).is_err() {
        proof {
            lemma_prefix_trans(before, m12, out@);
        }
        return Err(IsoError::InvalidData);
    }
    let ghost m13 = out@;
    proof {
        lemma_append_prefix(m12, nested_bytes::<ProducerReferenceTimeBox>(v.prft));
        lemma_prefix_trans(before, m12, m13);
    }
    let _ = serialize_all(&x.unknown_boxes, out);
    assert(out@ == m13 + ser_seq::<UnknownBox>(v.unknown_boxes)) by {
        assert(views(x.unknown_boxes@) == v.unknown_boxes);
    }
    let ghost m14 = out@;
    proof {
        lemma_append_prefix(m13, ser_seq::<UnknownBox>(v.unknown_boxes));
        lemma_prefix_trans(before, m13, m14);
    }
    if write_nested_opt(&x.mfra, out).is_err() {
        proof {
            lemma_prefix_trans(before, m14, out@);
        }
        return Err(IsoError::InvalidData);
    }
    let ghost m15 = out@;
    proof {
        lemma_append_prefix(m14, nested_opt_bytes::<MovieFragmentRandomAccessBox>(v.mfra));
        lemma_prefix_trans(before, m14, m15);
    }
    proof {
        let l1 = nested_opt_bytes::<FileTypeBox>(v.ftyp);
        assert(m1 == before + l1);
        let l2 = l1 + nested_bytes::<ExtendedTypeBox>(v.etyp);
        vstd::seq_lib::lemma_concat_associative(before, l1, nested_bytes::<ExtendedTypeBox>(v.etyp));
        assert(m2 == before + l2);
        let l3 = l2 + nested_bytes::<OriginalFileTypeBox>(v.otyp);
        vstd::seq_lib::lemma_concat_associative(before, l2, nested_bytes::<OriginalFileTypeBox>(v.otyp));
        assert(m3 == before + l3);
        let l4 = l3 + nested_opt_bytes::<ProgressiveDownloadInfoBox>(v.pdin);
        vstd::seq_lib::lemma_concat_associative(before, l3, nested_opt_bytes::<ProgressiveDownloadInfoBox>(v.pdin));
        assert(m4 == before + l4);
        let l5 = l4 + nested_opt_bytes::<MovieBox>(v.moov);
        vstd::seq_lib::lemma_concat_associative(before, l4, nested_opt_bytes::<MovieBox>(v.moov));
        assert(m5 == before + l5);
        let l6 = l5 + nested_bytes::<MovieFragmentBox>(v.moof);
        vstd::seq_lib::lemma_concat_associative(before, l5, nested_bytes::<MovieFragmentBox>(v.moof));
        assert(m6 == before + l6);
        let l7 = l6 + nested_bytes::<MediaDataBox>(v.mdat);
        vstd::seq_lib::lemma_concat_associative(before, l6, nested_bytes::<MediaDataBox>(v.mdat));
        assert(m7 == before + l7);
        let l8 = l7 + nested_bytes::<IdentifiedMediaDataBox>(v.imda);
        vstd::seq_lib::lemma_concat_associative(before, l7, nested_bytes::<IdentifiedMediaDataBox>(v.imda));
        assert(m8 == before + l8);
        let l9 = l8 + nested_opt_bytes::<MetaBox>(v.meta);
        vstd::seq_lib::lemma_concat_associative(before, l8, nested_opt_bytes::<MetaBox>(v.meta));
        assert(m9 == before + l9);
        let l10 = l9 + nested_bytes::<SegmentTypeBox>(v.styp);
        vstd::seq_lib::lemma_concat_associative(before, l9, nested_bytes::<SegmentTypeBox>(v.styp));
        assert(m10 == before + l10);
        let l11 = l10 + nested_bytes::<SegmentIndexBox>(v.sidx);
        vstd::seq_lib::lemma_concat_associative(before, l10, nested_bytes::<SegmentIndexBox>(v.sidx));
        assert(m11 == before + l11);
        let l12 = l11 + nested_bytes::<SubsegmentIndexBox>(v.ssix);
        vstd::seq_lib::lemma_concat_associative(before, l11, nested_bytes::<SubsegmentIndexBox>(v.ssix));
        assert(m12 == before + l12);
        let l13 = l12 + nested_bytes::<ProducerReferenceTimeBox>(v.prft);
        vstd::seq_lib::lemma_concat_associative(before, l12, nested_bytes::<ProducerReferenceTimeBox>(v.prft));
        assert(m13 == before + l13);
        let l14 = l13 + ser_seq::<UnknownBox>(v.unknown_boxes);
        vstd::seq_lib::lemma_concat_associative(before, l13, ser_seq::<UnknownBox>(v.unknown_boxes));
        assert(m14 == before + l14);
        let l15 = l14 + nested_opt_bytes::<MovieFragmentRandomAccessBox>(v.mfra);
        vstd::seq_lib::lemma_concat_associative(before, l14, nested_opt_bytes::<MovieFragmentRandomAccessBox>(v.mfra));
        assert(m15 == before + l15);
        assert(file_children_bytes(v) == l15);
        lemma_append_prefix(before, file_children_bytes(v));
    }
    Ok(())
}

/// The boxes that a file writes, read from their bytes one list after the other.
#[verifier::spinoff_prover]
#[verifier::rlimit(100)]
proof fn lemma_file_children_chain(v: IsobmffFileModel)
    requires
        file_canonical(v),
    ensures
        spec_children(nested_opt_bytes::<FileTypeBox>(v.ftyp) + (nested_bytes::<ExtendedTypeBox>(v.etyp) + (nested_bytes::<OriginalFileTypeBox>(v.otyp) + (nested_opt_bytes::<ProgressiveDownloadInfoBox>(v.pdin) + (nested_opt_bytes::<MovieBox>(v.moov) + (nested_bytes::<MovieFragmentBox>(v.moof) + (nested_bytes::<MediaDataBox>(v.mdat) + (nested_bytes::<IdentifiedMediaDataBox>(v.imda) + (nested_opt_bytes::<MetaBox>(v.meta) + (nested_bytes::<SegmentTypeBox>(v.styp) + (nested_bytes::<SegmentIndexBox>(v.sidx) + (nested_bytes::<SubsegmentIndexBox>(v.ssix) + (nested_bytes::<ProducerReferenceTimeBox>(v.prft) + (ser_seq::<UnknownBox>(v.unknown_boxes) + (nested_opt_bytes::<MovieFragmentRandomAccessBox>(v.mfra)))))))))))))))) == nested_opt_models::<FileTypeBox>(v.ftyp) + (nested_models::<ExtendedTypeBox>(v.etyp) + (nested_models::<OriginalFileTypeBox>(v.otyp) + (nested_opt_models::<ProgressiveDownloadInfoBox>(v.pdin) + (nested_opt_models::<MovieBox>(v.moov) + (nested_models::<MovieFragmentBox>(v.moof) + (nested_models::<MediaDataBox>(v.mdat) + (nested_models::<IdentifiedMediaDataBox>(v.imda) + (nested_opt_models::<MetaBox>(v.meta) + (nested_models::<SegmentTypeBox>(v.styp) + (nested_models::<SegmentIndexBox>(v.sidx) + (nested_models::<SubsegmentIndexBox>(v.ssix) + (nested_models::<ProducerReferenceTimeBox>(v.prft) + (v.unknown_boxes + (nested_opt_models::<MovieFragmentRandomAccessBox>(v.mfra))))))))))))))),
{
    let b0 = nested_opt_bytes::<FileTypeBox>(v.ftyp);
    let s0 = nested_opt_models::<FileTypeBox>(v.ftyp);
    let b1 = nested_bytes::<ExtendedTypeBox>(v.etyp);
    let s1 = nested_models::<ExtendedTypeBox>(v.etyp);
    let b2 = nested_bytes::<OriginalFileTypeBox>(v.otyp);
    let s2 = nested_models::<OriginalFileTypeBox>(v.otyp);
    let b3 = nested_opt_bytes::<ProgressiveDownloadInfoBox>(v.pdin);
    let s3 = nested_opt_models::<ProgressiveDownloadInfoBox>(v.pdin);
    let b4 = nested_opt_bytes::<MovieBox>(v.moov);
    let s4 = nested_opt_models::<MovieBox>(v.moov);
    let b5 = nested_bytes::<MovieFragmentBox>(v.moof);
    let s5 = nested_models::<MovieFragmentBox>(v.moof);
    let b6 = nested_bytes::<MediaDataBox>(v.mdat);
    let s6 = nested_models::<MediaDataBox>(v.mdat);
    let b7 = nested_bytes::<IdentifiedMediaDataBox>(v.imda);
    let s7 = nested_models::<IdentifiedMediaDataBox>(v.imda);
    let b8 = nested_opt_bytes::<MetaBox>(v.meta);
    let s8 = nested_opt_models::<MetaBox>(v.meta);
    let b9 = nested_bytes::<SegmentTypeBox>(v.styp);
    let s9 = nested_models::<SegmentTypeBox>(v.styp);
    let b10 = nested_bytes::<SegmentIndexBox>(v.sidx);
    let s10 = nested_models::<SegmentIndexBox>(v.sidx);
    let b11 = nested_bytes::<SubsegmentIndexBox>(v.ssix);
    let s11 = nested_models::<SubsegmentIndexBox>(v.ssix);
    let b12 = nested_bytes::<ProducerReferenceTimeBox>(v.prft);
    let s12 = nested_models::<ProducerReferenceTimeBox>(v.prft);
    let b13 = ser_seq::<UnknownBox>(v.unknown_boxes);
    let s13 = v.unknown_boxes;
    let b14 = nested_opt_bytes::<MovieFragmentRandomAccessBox>(v.mfra);
    let s14 = nested_opt_models::<MovieFragmentRandomAccessBox>(v.mfra);
    crate::children::lemma_children_empty();
    let t14 = b14;
    let u14 = s14;
    assert(b14 + Seq::<u8>::empty() =~= b14);
    assert(s14 + Seq::<UnknownBoxModel>::empty() =~= s14);
    lemma_nested_opt_seq::<MovieFragmentRandomAccessBox>(v.mfra, Seq::<u8>::empty());
    assert(spec_children(t14) == u14);
    let t13 = b13 + t14;
    let u13 = s13 + u14;
    lemma_unknown_seq_rest(v.unknown_boxes, t14);
    assert(spec_children(t13) == u13);
    let t12 = b12 + t13;
    let u12 = s12 + u13;
    lemma_nested_seq::<ProducerReferenceTimeBox>(v.prft, t13);
    assert(spec_children(t12) == u12);
    let t11 = b11 + t12;
    let u11 = s11 + u12;
    lemma_nested_seq::<SubsegmentIndexBox>(v.ssix, t12);
    assert(spec_children(t11) == u11);
    let t10 = b10 + t11;
    let u10 = s10 + u11;
    lemma_nested_seq::<SegmentIndexBox>(v.sidx, t11);
    assert(spec_children(t10) == u10);
    let t9 = b9 + t10;
    let u9 = s9 + u10;
    lemma_nested_seq::<SegmentTypeBox>(v.styp, t10);
    assert(spec_children(t9) == u9);
    let t8 = b8 + t9;
    let u8 = s8 + u9;
    lemma_nested_opt_seq::<MetaBox>(v.meta, t9);
    assert(spec_children(t8) == u8);
    let t7 = b7 + t8;
    let u7 = s7 + u8;
    lemma_nested_seq::<IdentifiedMediaDataBox>(v.imda, t8);
    assert(spec_children(t7) == u7);
    let t6 = b6 + t7;
    let u6 = s6 + u7;
    lemma_nested_seq::<MediaDataBox>(v.mdat, t7);
    assert(spec_children(t6) == u6);
    let t5 = b5 + t6;
    let u5 = s5 + u6;
    lemma_nested_seq::<MovieFragmentBox>(v.moof, t6);
    assert(spec_children(t5) == u5);
    let t4 = b4 + t5;
    let u4 = s4 + u5;
    lemma_nested_opt_seq::<MovieBox>(v.moov, t5);
    assert(spec_children(t4) == u4);
    let t3 = b3 + t4;
    let u3 = s3 + u4;
    lemma_nested_opt_seq::<ProgressiveDownloadInfoBox>(v.pdin, t4);
    assert(spec_children(t3) == u3);
    let t2 = b2 + t3;
    let u2 = s2 + u3;
    lemma_nested_seq::<OriginalFileTypeBox>(v.otyp, t3);
    assert(spec_children(t2) == u2);
    let t1 = b1 + t2;
    let u1 = s1 + u2;
    lemma_nested_seq::<ExtendedTypeBox>(v.etyp, t2);
    assert(spec_children(t1) == u1);
    let t0 = b0 + t1;
    let u0 = s0 + u1;
    lemma_nested_opt_seq::<FileTypeBox>(v.ftyp, t1);
    assert(spec_children(t0) == u0);
}

/// The boxes that a file writes read back as their models.
#[verifier::spinoff_prover]
#[verifier::rlimit(100)]
proof fn lemma_file_children(v: IsobmffFileModel)
    requires
        file_canonical(v),
    ensures
        spec_children(file_children_bytes(v)) == file_models(v),
{
    lemma_file_children_chain(v);
    let b0 = nested_opt_bytes::<FileTypeBox>(v.ftyp);
    let s0 = nested_opt_models::<FileTypeBox>(v.ftyp);
    let b1 = nested_bytes::<ExtendedTypeBox>(v.etyp);
    let s1 = nested_models::<ExtendedTypeBox>(v.etyp);
    let b2 = nested_bytes::<OriginalFileTypeBox>(v.otyp);
    let s2 = nested_models::<OriginalFileTypeBox>(v.otyp);
    let b3 = nested_opt_bytes::<ProgressiveDownloadInfoBox>(v.pdin);
    let s3 = nested_opt_models::<ProgressiveDownloadInfoBox>(v.pdin);
    let b4 = nested_opt_bytes::<MovieBox>(v.moov);
    let s4 = nested_opt_models::<MovieBox>(v.moov);
    let b5 = nested_bytes::<MovieFragmentBox>(v.moof);
    let s5 = nested_models::<MovieFragmentBox>(v.moof);
    let b6 = nested_bytes::<MediaDataBox>(v.mdat);
    let s6 = nested_models::<MediaDataBox>(v.mdat);
    let b7 = nested_bytes::<IdentifiedMediaDataBox>(v.imda);
    let s7 = nested_models::<IdentifiedMediaDataBox>(v.imda);
    let b8 = nested_opt_bytes::<MetaBox>(v.meta);
    let s8 = nested_opt_models::<MetaBox>(v.meta);
    let b9 = nested_bytes::<SegmentTypeBox>(v.styp);
    let s9 = nested_models::<SegmentTypeBox>(v.styp);
    let b10 = nested_bytes::<SegmentIndexBox>(v.sidx);
    let s10 = nested_models::<SegmentIndexBox>(v.sidx);
    let b11 = nested_bytes::<SubsegmentIndexBox>(v.ssix);
    let s11 = nested_models::<SubsegmentIndexBox>(v.ssix);
    let b12 = nested_bytes::<ProducerReferenceTimeBox>(v.prft);
    let s12 = nested_models::<ProducerReferenceTimeBox>(v.prft);
    let b13 = ser_seq::<UnknownBox>(v.unknown_boxes);
    let s13 = v.unknown_boxes;
    let b14 = nested_opt_bytes::<MovieFragmentRandomAccessBox>(v.mfra);
    let s14 = nested_opt_models::<MovieFragmentRandomAccessBox>(v.mfra);
    let t14 = b14;
    let u14 = s14;
    let t13 = b13 + t14;
    let u13 = s13 + u14;
    let t12 = b12 + t13;
    let u12 = s12 + u13;
    let t11 = b11 + t12;
    let u11 = s11 + u12;
    let t10 = b10 + t11;
    let u10 = s10 + u11;
    let t9 = b9 + t10;
    let u9 = s9 + u10;
    let t8 = b8 + t9;
    let u8 = s8 + u9;
    let t7 = b7 + t8;
    let u7 = s7 + u8;
    let t6 = b6 + t7;
    let u6 = s6 + u7;
    let t5 = b5 + t6;
    let u5 = s5 + u6;
    let t4 = b4 + t5;
    let u4 = s4 + u5;
    let t3 = b3 + t4;
    let u3 = s3 + u4;
    let t2 = b2 + t3;
    let u2 = s2 + u3;
    let t1 = b1 + t2;
    let u1 = s1 + u2;
    let t0 = b0 + t1;
    let u0 = s0 + u1;
    let t15 = Seq::<u8>::empty();
    let u15 = Seq::<UnknownBoxModel>::empty();
    assert(b14 + t15 =~= t14);
    assert(s14 + u15 =~= u14);
    let l0 = Seq::<u8>::empty();
    let k0 = Seq::<UnknownBoxModel>::empty();
    assert(l0 + t0 =~= t0);
    assert(k0 + u0 =~= u0);
    let l1 = b0;
    let k1 = s0;
    assert(l1 + t1 == l0 + t0);
    assert(k1 + u1 == k0 + u0);
    let l2 = l1 + b1;
    let k2 = k1 + s1;
    vstd::seq_lib::lemma_concat_associative(l1, b1, t2);
    vstd::seq_lib::lemma_concat_associative(k1, s1, u2);
    assert(l2 + t2 == l1 + t1);
    assert(k2 + u2 == k1 + u1);
    let l3 = l2 + b2;
    let k3 = k2 + s2;
    vstd::seq_lib::lemma_concat_associative(l2, b2, t3);
    vstd::seq_lib::lemma_concat_associative(k2, s2, u3);
    assert(l3 + t3 == l2 + t2);
    assert(k3 + u3 == k2 + u2);
    let l4 = l3 + b3;
    let k4 = k3 + s3;
    vstd::seq_lib::lemma_concat_associative(l3, b3, t4);
    vstd::seq_lib::lemma_concat_associative(k3, s3, u4);
    assert(l4 + t4 == l3 + t3);
    assert(k4 + u4 == k3 + u3);
    let l5 = l4 + b4;
    let k5 = k4 + s4;
    vstd::seq_lib::lemma_concat_associative(l4, b4, t5);
    vstd::seq_lib::lemma_concat_associative(k4, s4, u5);
    assert(l5 + t5 == l4 + t4);
    assert(k5 + u5 == k4 + u4);
    let l6 = l5 + b5;
    let k6 = k5 + s5;
    vstd::seq_lib::lemma_concat_associative(l5, b5, t6);
    vstd::seq_lib::lemma_concat_associative(k5, s5, u6);
    assert(l6 + t6 == l5 + t5);
    assert(k6 + u6 == k5 + u5);
    let l7 = l6 + b6;
    let k7 = k6 + s6;
    vstd::seq_lib::lemma_concat_associative(l6, b6, t7);
    vstd::seq_lib::lemma_concat_associative(k6, s6, u7);
    assert(l7 + t7 == l6 + t6);
    assert(k7 + u7 == k6 + u6);
    let l8 = l7 + b7;
    let k8 = k7 + s7;
    vstd::seq_lib::lemma_concat_associative(l7, b7, t8);
    vstd::seq_lib::lemma_concat_associative(k7, s7, u8);
    assert(l8 + t8 == l7 + t7);
    assert(k8 + u8 == k7 + u7);
    let l9 = l8 + b8;
    let k9 = k8 + s8;
    vstd::seq_lib::lemma_concat_associative(l8, b8, t9);
    vstd::seq_lib::lemma_concat_associative(k8, s8, u9);
    assert(l9 + t9 == l8 + t8);
    assert(k9 + u9 == k8 + u8);
    let l10 = l9 + b9;
    let k10 = k9 + s9;
    vstd::seq_lib::lemma_concat_associative(l9, b9, t10);
    vstd::seq_lib::lemma_concat_associative(k9, s9, u10);
    assert(l10 + t10 == l9 + t9);
    assert(k10 + u10 == k9 + u9);
    let l11 = l10 + b10;
    let k11 = k10 + s10;
    vstd::seq_lib::lemma_concat_associative(l10, b10, t11);
    vstd::seq_lib::lemma_concat_associative(k10, s10, u11);
    assert(l11 + t11 == l10 + t10);
    assert(k11 + u11 == k10 + u10);
    let l12 = l11 + b11;
    let k12 = k11 + s11;
    vstd::seq_lib::lemma_concat_associative(l11, b11, t12);
    vstd::seq_lib::lemma_concat_associative(k11, s11, u12);
    assert(l12 + t12 == l11 + t11);
    assert(k12 + u12 == k11 + u11);
    let l13 = l12 + b12;
    let k13 = k12 + s12;
    vstd::seq_lib::lemma_concat_associative(l12, b12, t13);
    vstd::seq_lib::lemma_concat_associative(k12, s12, u13);
    assert(l13 + t13 == l12 + t12);
    assert(k13 + u13 == k12 + u12);
    let l14 = l13 + b13;
    let k14 = k13 + s13;
    vstd::seq_lib::lemma_concat_associative(l13, b13, t14);
    vstd::seq_lib::lemma_concat_associative(k13, s13, u14);
    assert(l14 + t14 == l13 + t13);
    assert(k14 + u14 == k13 + u13);
    let l15 = l14 + b14;
    let k15 = k14 + s14;
    vstd::seq_lib::lemma_concat_associative(l14, b14, t15);
    vstd::seq_lib::lemma_concat_associative(k14, s14, u15);
    assert(l15 + t15 == l14 + t14);
    assert(k15 + u15 == k14 + u14);
    assert(l15 + t15 =~= l15);
    assert(k15 + u15 =~= k15);
    assert(file_children_bytes(v) == l15);
    assert(file_models(v) == k15);
}

/// No box that a file writes fails to read.
#[verifier::spinoff_prover]
#[verifier::rlimit(60)]
proof fn lemma_file_no_fault(v: IsobmffFileModel, j: int)
    requires
        file_canonical(v),
        file_types_differ(),
        0 <= j < file_models(v).len(),
    ensures
        file_fault(file_models(v)[j]) is None,
{
    let cs = file_models(v);
    let s0 = nested_opt_models::<FileTypeBox>(v.ftyp);
    let s1 = nested_models::<ExtendedTypeBox>(v.etyp);
    let s2 = nested_models::<OriginalFileTypeBox>(v.otyp);
    let s3 = nested_opt_models::<ProgressiveDownloadInfoBox>(v.pdin);
    let s4 = nested_opt_models::<MovieBox>(v.moov);
    let s5 = nested_models::<MovieFragmentBox>(v.moof);
    let s6 = nested_models::<MediaDataBox>(v.mdat);
    let s7 = nested_models::<IdentifiedMediaDataBox>(v.imda);
    let s8 = nested_opt_models::<MetaBox>(v.meta);
    let s9 = nested_models::<SegmentTypeBox>(v.styp);
    let s10 = nested_models::<SegmentIndexBox>(v.sidx);
    let s11 = nested_models::<SubsegmentIndexBox>(v.ssix);
    let s12 = nested_models::<ProducerReferenceTimeBox>(v.prft);
    let s13 = v.unknown_boxes;
    let s14 = nested_opt_models::<MovieFragmentRandomAccessBox>(v.mfra);
    let n0: int = 0;
    let n1: int = n0 + s0.len();
    let n2: int = n1 + s1.len();
    let n3: int = n2 + s2.len();
    let n4: int = n3 + s3.len();
    let n5: int = n4 + s4.len();
    let n6: int = n5 + s5.len();
    let n7: int = n6 + s6.len();
    let n8: int = n7 + s7.len();
    let n9: int = n8 + s8.len();
    let n10: int = n9 + s9.len();
    let n11: int = n10 + s10.len();
    let n12: int = n11 + s11.len();
    let n13: int = n12 + s12.len();
    let n14: int = n13 + s13.len();
    let n15: int = n14 + s14.len();
    if j < n1 {
        assert(cs[j] == s0[j - n0]);
        lemma_nested_cons::<FileTypeBox>(v.ftyp.unwrap(), Seq::empty());
    } else if j < n2 {
        assert(cs[j] == s1[j - n1]);
        assert(nested_ok::<ExtendedTypeBox>(v.etyp[j - n1]));
        lemma_nested_cons::<ExtendedTypeBox>(v.etyp[j - n1], Seq::empty());
    } else if j < n3 {
        assert(cs[j] == s2[j - n2]);
        assert(nested_ok::<OriginalFileTypeBox>(v.otyp[j - n2]));
        lemma_nested_cons::<OriginalFileTypeBox>(v.otyp[j - n2], Seq::empty());
    } else if j < n4 {
        assert(cs[j] == s3[j - n3]);
        lemma_nested_cons::<ProgressiveDownloadInfoBox>(v.pdin.unwrap(), Seq::empty());
    } else if j < n5 {
        assert(cs[j] == s4[j - n4]);
        lemma_nested_cons::<MovieBox>(v.moov.unwrap(), Seq::empty());
    } else if j < n6 {
        assert(cs[j] == s5[j - n5]);
        assert(nested_ok::<MovieFragmentBox>(v.moof[j - n5]));
        lemma_nested_cons::<MovieFragmentBox>(v.moof[j - n5], Seq::empty());
    } else if j < n7 {
        assert(cs[j] == s6[j - n6]);
        assert(nested_ok::<MediaDataBox>(v.mdat[j - n6]));
        lemma_nested_cons::<MediaDataBox>(v.mdat[j - n6], Seq::empty());
    } else if j < n8 {
        assert(cs[j] == s7[j - n7]);
        assert(nested_ok::<IdentifiedMediaDataBox>(v.imda[j - n7]));
        lemma_nested_cons::<IdentifiedMediaDataBox>(v.imda[j - n7], Seq::empty());
    } else if j < n9 {
        assert(cs[j] == s8[j - n8]);
        lemma_nested_cons::<MetaBox>(v.meta.unwrap(), Seq::empty());
    } else if j < n10 {
        assert(cs[j] == s9[j - n9]);
        assert(nested_ok::<SegmentTypeBox>(v.styp[j - n9]));
        lemma_nested_cons::<SegmentTypeBox>(v.styp[j - n9], Seq::empty());
    } else if j < n11 {
        assert(cs[j] == s10[j - n10]);
        assert(nested_ok::<SegmentIndexBox>(v.sidx[j - n10]));
        lemma_nested_cons::<SegmentIndexBox>(v.sidx[j - n10], Seq::empty());
    } else if j < n12 {
        assert(cs[j] == s11[j - n11]);
        assert(nested_ok::<SubsegmentIndexBox>(v.ssix[j - n11]));
        lemma_nested_cons::<SubsegmentIndexBox>(v.ssix[j - n11], Seq::empty());
    } else if j < n13 {
        assert(cs[j] == s12[j - n12]);
        assert(nested_ok::<ProducerReferenceTimeBox>(v.prft[j - n12]));
        lemma_nested_cons::<ProducerReferenceTimeBox>(v.prft[j - n12], Seq::empty());
    } else if j < n14 {
        assert(cs[j] == s13[j - n13]);
        assert(!file_known(v.unknown_boxes[j - n13]));
    } else if j < n15 {
        assert(cs[j] == s14[j - n14]);
        lemma_nested_cons::<MovieFragmentRandomAccessBox>(v.mfra.unwrap(), Seq::empty());
    }
}

/// Collecting over the lists of a file one after the other collects over each in
/// turn.
proof fn lemma_file_split<T: BoxBody>(m0: Seq<UnknownBoxModel>, m1: Seq<UnknownBoxModel>, m2: Seq<UnknownBoxModel>, m3: Seq<UnknownBoxModel>, m4: Seq<UnknownBoxModel>, m5: Seq<UnknownBoxModel>, m6: Seq<UnknownBoxModel>, m7: Seq<UnknownBoxModel>, m8: Seq<UnknownBoxModel>, m9: Seq<UnknownBoxModel>, m10: Seq<UnknownBoxModel>, m11: Seq<UnknownBoxModel>, m12: Seq<UnknownBoxModel>, m13: Seq<UnknownBoxModel>, m14: Seq<UnknownBoxModel>)
    ensures
        collect_children::<T>(m0 + m1 + m2 + m3 + m4 + m5 + m6 + m7 + m8 + m9 + m10 + m11 + m12 + m13 + m14) == collect_children::<T>(m0) + collect_children::<T>(m1) + collect_children::<T>(m2) + collect_children::<T>(m3) + collect_children::<T>(m4) + collect_children::<T>(m5) + collect_children::<T>(m6) + collect_children::<T>(m7) + collect_children::<T>(m8) + collect_children::<T>(m9) + collect_children::<T>(m10) + collect_children::<T>(m11) + collect_children::<T>(m12) + collect_children::<T>(m13) + collect_children::<T>(m14),
{
    lemma_collect_add::<T>(m0 + m1 + m2 + m3 + m4 + m5 + m6 + m7 + m8 + m9 + m10 + m11 + m12 + m13, m14);
    lemma_collect_add::<T>(m0 + m1 + m2 + m3 + m4 + m5 + m6 + m7 + m8 + m9 + m10 + m11 + m12, m13);
    lemma_collect_add::<T>(m0 + m1 + m2 + m3 + m4 + m5 + m6 + m7 + m8 + m9 + m10 + m11, m12);
    lemma_collect_add::<T>(m0 + m1 + m2 + m3 + m4 + m5 + m6 + m7 + m8 + m9 + m10, m11);
    lemma_collect_add::<T>(m0 + m1 + m2 + m3 + m4 + m5 + m6 + m7 + m8 + m9, m10);
    lemma_collect_add::<T>(m0 + m1 + m2 + m3 + m4 + m5 + m6 + m7 + m8, m9);
    lemma_collect_add::<T>(m0 + m1 + m2 + m3 + m4 + m5 + m6 + m7, m8);
    lemma_collect_add::<T>(m0 + m1 + m2 + m3 + m4 + m5 + m6, m7);
    lemma_collect_add::<T>(m0 + m1 + m2 + m3 + m4 + m5, m6);
    lemma_collect_add::<T>(m0 + m1 + m2 + m3 + m4, m5);
    lemma_collect_add::<T>(m0 + m1 + m2 + m3, m4);
    lemma_collect_add::<T>(m0 + m1 + m2, m3);
    lemma_collect_add::<T>(m0 + m1, m2);
    lemma_collect_add::<T>(m0, m1);
}

/// The boxes that a file writes collect back into its field `ftyp`.
#[verifier::spinoff_prover]
#[verifier::rlimit(60)]
proof fn lemma_file_collect_ftyp(v: IsobmffFileModel)
    requires
        file_canonical(v),
        file_types_differ(),
    ensures
        collect_children::<FileTypeBox>(file_models(v)) == opt_seq(v.ftyp),
{
    lemma_file_split::<FileTypeBox>(nested_opt_models::<FileTypeBox>(v.ftyp), nested_models::<ExtendedTypeBox>(v.etyp), nested_models::<OriginalFileTypeBox>(v.otyp), nested_opt_models::<ProgressiveDownloadInfoBox>(v.pdin), nested_opt_models::<MovieBox>(v.moov), nested_models::<MovieFragmentBox>(v.moof), nested_models::<MediaDataBox>(v.mdat), nested_models::<IdentifiedMediaDataBox>(v.imda), nested_opt_models::<MetaBox>(v.meta), nested_models::<SegmentTypeBox>(v.styp), nested_models::<SegmentIndexBox>(v.sidx), nested_models::<SubsegmentIndexBox>(v.ssix), nested_models::<ProducerReferenceTimeBox>(v.prft), v.unknown_boxes, nested_opt_models::<MovieFragmentRandomAccessBox>(v.mfra));
    lemma_nested_opt_own::<FileTypeBox>(v.ftyp);
    lemma_nested_collect_other::<FileTypeBox, ExtendedTypeBox>(v.etyp);
    lemma_nested_collect_other::<FileTypeBox, OriginalFileTypeBox>(v.otyp);
    lemma_nested_opt_other::<FileTypeBox, ProgressiveDownloadInfoBox>(v.pdin);
    lemma_nested_opt_other::<FileTypeBox, MovieBox>(v.moov);
    lemma_nested_collect_other::<FileTypeBox, MovieFragmentBox>(v.moof);
    lemma_nested_collect_other::<FileTypeBox, MediaDataBox>(v.mdat);
    lemma_nested_collect_other::<FileTypeBox, IdentifiedMediaDataBox>(v.imda);
    lemma_nested_opt_other::<FileTypeBox, MetaBox>(v.meta);
    lemma_nested_collect_other::<FileTypeBox, SegmentTypeBox>(v.styp);
    lemma_nested_collect_other::<FileTypeBox, SegmentIndexBox>(v.sidx);
    lemma_nested_collect_other::<FileTypeBox, SubsegmentIndexBox>(v.ssix);
    lemma_nested_collect_other::<FileTypeBox, ProducerReferenceTimeBox>(v.prft);
    assert forall|i: int| 0 <= i < v.unknown_boxes.len() implies !#[trigger] is_child::<FileTypeBox>(v.unknown_boxes[i]) by {
        assert(!file_known(v.unknown_boxes[i]));
    }
    lemma_collect_none::<FileTypeBox>(v.unknown_boxes);
    lemma_nested_opt_other::<FileTypeBox, MovieFragmentRandomAccessBox>(v.mfra);
    assert(collect_children::<FileTypeBox>(file_models(v)) =~= opt_seq(v.ftyp));
}

/// The boxes that a file writes collect back into its field `etyp`.
#[verifier::spinoff_prover]
#[verifier::rlimit(60)]
proof fn lemma_file_collect_etyp(v: IsobmffFileModel)
    requires
        file_canonical(v),
        file_types_differ(),
    ensures
        collect_children::<ExtendedTypeBox>(file_models(v)) == v.etyp,
{
    lemma_file_split::<ExtendedTypeBox>(nested_opt_models::<FileTypeBox>(v.ftyp), nested_models::<ExtendedTypeBox>(v.etyp), nested_models::<OriginalFileTypeBox>(v.otyp), nested_opt_models::<ProgressiveDownloadInfoBox>(v.pdin), nested_opt_models::<MovieBox>(v.moov), nested_models::<MovieFragmentBox>(v.moof), nested_models::<MediaDataBox>(v.mdat), nested_models::<IdentifiedMediaDataBox>(v.imda), nested_opt_models::<MetaBox>(v.meta), nested_models::<SegmentTypeBox>(v.styp), nested_models::<SegmentIndexBox>(v.sidx), nested_models::<SubsegmentIndexBox>(v.ssix), nested_models::<ProducerReferenceTimeBox>(v.prft), v.unknown_boxes, nested_opt_models::<MovieFragmentRandomAccessBox>(v.mfra));
    lemma_nested_opt_other::<ExtendedTypeBox, FileTypeBox>(v.ftyp);
    lemma_nested_collect_own::<ExtendedTypeBox>(v.etyp);
    lemma_nested_collect_other::<ExtendedTypeBox, OriginalFileTypeBox>(v.otyp);
    lemma_nested_opt_other::<ExtendedTypeBox, ProgressiveDownloadInfoBox>(v.pdin);
    lemma_nested_opt_other::<ExtendedTypeBox, MovieBox>(v.moov);
    lemma_nested_collect_other::<ExtendedTypeBox, MovieFragmentBox>(v.moof);
    lemma_nested_collect_other::<ExtendedTypeBox, MediaDataBox>(v.mdat);
    lemma_nested_collect_other::<ExtendedTypeBox, IdentifiedMediaDataBox>(v.imda);
    lemma_nested_opt_other::<ExtendedTypeBox, MetaBox>(v.meta);
    lemma_nested_collect_other::<ExtendedTypeBox, SegmentTypeBox>(v.styp);
    lemma_nested_collect_other::<ExtendedTypeBox, SegmentIndexBox>(v.sidx);
    lemma_nested_collect_other::<ExtendedTypeBox, SubsegmentIndexBox>(v.ssix);
    lemma_nested_collect_other::<ExtendedTypeBox, ProducerReferenceTimeBox>(v.prft);
    assert forall|i: int| 0 <= i < v.unknown_boxes.len() implies !#[trigger] is_child::<ExtendedTypeBox>(v.unknown_boxes[i]) by {
        assert(!file_known(v.unknown_boxes[i]));
    }
    lemma_collect_none::<ExtendedTypeBox>(v.unknown_boxes);
    lemma_nested_opt_other::<ExtendedTypeBox, MovieFragmentRandomAccessBox>(v.mfra);
    assert(collect_children::<ExtendedTypeBox>(file_models(v)) =~= v.etyp);
}

/// The boxes that a file writes collect back into its field `otyp`.
#[verifier::spinoff_prover]
#[verifier::rlimit(60)]
proof fn lemma_file_collect_otyp(v: IsobmffFileModel)
    requires
        file_canonical(v),
        file_types_differ(),
    ensures
        collect_children::<OriginalFileTypeBox>(file_models(v)) == v.otyp,
{
    lemma_file_split::<OriginalFileTypeBox>(nested_opt_models::<FileTypeBox>(v.ftyp), nested_models::<ExtendedTypeBox>(v.etyp), nested_models::<OriginalFileTypeBox>(v.otyp), nested_opt_models::<ProgressiveDownloadInfoBox>(v.pdin), nested_opt_models::<MovieBox>(v.moov), nested_models::<MovieFragmentBox>(v.moof), nested_models::<MediaDataBox>(v.mdat), nested_models::<IdentifiedMediaDataBox>(v.imda), nested_opt_models::<MetaBox>(v.meta), nested_models::<SegmentTypeBox>(v.styp), nested_models::<SegmentIndexBox>(v.sidx), nested_models::<SubsegmentIndexBox>(v.ssix), nested_models::<ProducerReferenceTimeBox>(v.prft), v.unknown_boxes, nested_opt_models::<MovieFragmentRandomAccessBox>(v.mfra));
    lemma_nested_opt_other::<OriginalFileTypeBox, FileTypeBox>(v.ftyp);
    lemma_nested_collect_other::<OriginalFileTypeBox, ExtendedTypeBox>(v.etyp);
    lemma_nested_collect_own::<OriginalFileTypeBox>(v.otyp);
    lemma_nested_opt_other::<OriginalFileTypeBox, ProgressiveDownloadInfoBox>(v.pdin);
    lemma_nested_opt_other::<OriginalFileTypeBox, MovieBox>(v.moov);
    lemma_nested_collect_other::<OriginalFileTypeBox, MovieFragmentBox>(v.moof);
    lemma_nested_collect_other::<OriginalFileTypeBox, MediaDataBox>(v.mdat);
    lemma_nested_collect_other::<OriginalFileTypeBox, IdentifiedMediaDataBox>(v.imda);
    lemma_nested_opt_other::<OriginalFileTypeBox, MetaBox>(v.meta);
    lemma_nested_collect_other::<OriginalFileTypeBox, SegmentTypeBox>(v.styp);
    lemma_nested_collect_other::<OriginalFileTypeBox, SegmentIndexBox>(v.sidx);
    lemma_nested_collect_other::<OriginalFileTypeBox, SubsegmentIndexBox>(v.ssix);
    lemma_nested_collect_other::<OriginalFileTypeBox, ProducerReferenceTimeBox>(v.prft);
    assert forall|i: int| 0 <= i < v.unknown_boxes.len() implies !#[trigger] is_child::<OriginalFileTypeBox>(v.unknown_boxes[i]) by {
        assert(!file_known(v.unknown_boxes[i]));
    }
    lemma_collect_none::<OriginalFileTypeBox>(v.unknown_boxes);
    lemma_nested_opt_other::<OriginalFileTypeBox, MovieFragmentRandomAccessBox>(v.mfra);
    assert(collect_children::<OriginalFileTypeBox>(file_models(v)) =~= v.otyp);
}

/// The boxes that a file writes collect back into its field `pdin`.
#[verifier::spinoff_prover]
#[verifier::rlimit(60)]
proof fn lemma_file_collect_pdin(v: IsobmffFileModel)
    requires
        file_canonical(v),
        file_types_differ(),
    ensures
        collect_children::<ProgressiveDownloadInfoBox>(file_models(v)) == opt_seq(v.pdin),
{
    lemma_file_split::<ProgressiveDownloadInfoBox>(nested_opt_models::<FileTypeBox>(v.ftyp), nested_models::<ExtendedTypeBox>(v.etyp), nested_models::<OriginalFileTypeBox>(v.otyp), nested_opt_models::<ProgressiveDownloadInfoBox>(v.pdin), nested_opt_models::<MovieBox>(v.moov), nested_models::<MovieFragmentBox>(v.moof), nested_models::<MediaDataBox>(v.mdat), nested_models::<IdentifiedMediaDataBox>(v.imda), nested_opt_models::<MetaBox>(v.meta), nested_models::<SegmentTypeBox>(v.styp), nested_models::<SegmentIndexBox>(v.sidx), nested_models::<SubsegmentIndexBox>(v.ssix), nested_models::<ProducerReferenceTimeBox>(v.prft), v.unknown_boxes, nested_opt_models::<MovieFragmentRandomAccessBox>(v.mfra));
    lemma_nested_opt_other::<ProgressiveDownloadInfoBox, FileTypeBox>(v.ftyp);
    lemma_nested_collect_other::<ProgressiveDownloadInfoBox, ExtendedTypeBox>(v.etyp);
    lemma_nested_collect_other::<ProgressiveDownloadInfoBox, OriginalFileTypeBox>(v.otyp);
    lemma_nested_opt_own::<ProgressiveDownloadInfoBox>(v.pdin);
    lemma_nested_opt_other::<ProgressiveDownloadInfoBox, MovieBox>(v.moov);
    lemma_nested_collect_other::<ProgressiveDownloadInfoBox, MovieFragmentBox>(v.moof);
    lemma_nested_collect_other::<ProgressiveDownloadInfoBox, MediaDataBox>(v.mdat);
    lemma_nested_collect_other::<ProgressiveDownloadInfoBox, IdentifiedMediaDataBox>(v.imda);
    lemma_nested_opt_other::<ProgressiveDownloadInfoBox, MetaBox>(v.meta);
    lemma_nested_collect_other::<ProgressiveDownloadInfoBox, SegmentTypeBox>(v.styp);
    lemma_nested_collect_other::<ProgressiveDownloadInfoBox, SegmentIndexBox>(v.sidx);
    lemma_nested_collect_other::<ProgressiveDownloadInfoBox, SubsegmentIndexBox>(v.ssix);
    lemma_nested_collect_other::<ProgressiveDownloadInfoBox, ProducerReferenceTimeBox>(v.prft);
    assert forall|i: int| 0 <= i < v.unknown_boxes.len() implies !#[trigger] is_child::<ProgressiveDownloadInfoBox>(v.unknown_boxes[i]) by {
        assert(!file_known(v.unknown_boxes[i]));
    }
    lemma_collect_none::<ProgressiveDownloadInfoBox>(v.unknown_boxes);
    lemma_nested_opt_other::<ProgressiveDownloadInfoBox, MovieFragmentRandomAccessBox>(v.mfra);
    assert(collect_children::<ProgressiveDownloadInfoBox>(file_models(v)) =~= opt_seq(v.pdin));
}

/// The boxes that a file writes collect back into its field `moov`.
#[verifier::spinoff_prover]
#[verifier::rlimit(60)]
proof fn lemma_file_collect_moov(v: IsobmffFileModel)
    requires
        file_canonical(v),
        file_types_differ(),
    ensures
        collect_children::<MovieBox>(file_models(v)) == opt_seq(v.moov),
{
    lemma_file_split::<MovieBox>(nested_opt_models::<FileTypeBox>(v.ftyp), nested_models::<ExtendedTypeBox>(v.etyp), nested_models::<OriginalFileTypeBox>(v.otyp), nested_opt_models::<ProgressiveDownloadInfoBox>(v.pdin), nested_opt_models::<MovieBox>(v.moov), nested_models::<MovieFragmentBox>(v.moof), nested_models::<MediaDataBox>(v.mdat), nested_models::<IdentifiedMediaDataBox>(v.imda), nested_opt_models::<MetaBox>(v.meta), nested_models::<SegmentTypeBox>(v.styp), nested_models::<SegmentIndexBox>(v.sidx), nested_models::<SubsegmentIndexBox>(v.ssix), nested_models::<ProducerReferenceTimeBox>(v.prft), v.unknown_boxes, nested_opt_models::<MovieFragmentRandomAccessBox>(v.mfra));
    lemma_nested_opt_other::<MovieBox, FileTypeBox>(v.ftyp);
    lemma_nested_collect_other::<MovieBox, ExtendedTypeBox>(v.etyp);
    lemma_nested_collect_other::<MovieBox, OriginalFileTypeBox>(v.otyp);
    lemma_nested_opt_other::<MovieBox, ProgressiveDownloadInfoBox>(v.pdin);
    lemma_nested_opt_own::<MovieBox>(v.moov);
    lemma_nested_collect_other::<MovieBox, MovieFragmentBox>(v.moof);
    lemma_nested_collect_other::<MovieBox, MediaDataBox>(v.mdat);
    lemma_nested_collect_other::<MovieBox, IdentifiedMediaDataBox>(v.imda);
    lemma_nested_opt_other::<MovieBox, MetaBox>(v.meta);
    lemma_nested_collect_other::<MovieBox, SegmentTypeBox>(v.styp);
    lemma_nested_collect_other::<MovieBox, SegmentIndexBox>(v.sidx);
    lemma_nested_collect_other::<MovieBox, SubsegmentIndexBox>(v.ssix);
    lemma_nested_collect_other::<MovieBox, ProducerReferenceTimeBox>(v.prft);
    assert forall|i: int| 0 <= i < v.unknown_boxes.len() implies !#[trigger] is_child::<MovieBox>(v.unknown_boxes[i]) by {
        assert(!file_known(v.unknown_boxes[i]));
    }
    lemma_collect_none::<MovieBox>(v.unknown_boxes);
    lemma_nested_opt_other::<MovieBox, MovieFragmentRandomAccessBox>(v.mfra);
    assert(collect_children::<MovieBox>(file_models(v)) =~= opt_seq(v.moov));
}

/// The boxes that a file writes collect back into its field `moof`.
#[verifier::spinoff_prover]
#[verifier::rlimit(60)]
proof fn lemma_file_collect_moof(v: IsobmffFileModel)
    requires
        file_canonical(v),
        file_types_differ(),
    ensures
        collect_children::<MovieFragmentBox>(file_models(v)) == v.moof,
{
    lemma_file_split::<MovieFragmentBox>(nested_opt_models::<FileTypeBox>(v.ftyp), nested_models::<ExtendedTypeBox>(v.etyp), nested_models::<OriginalFileTypeBox>(v.otyp), nested_opt_models::<ProgressiveDownloadInfoBox>(v.pdin), nested_opt_models::<MovieBox>(v.moov), nested_models::<MovieFragmentBox>(v.moof), nested_models::<MediaDataBox>(v.mdat), nested_models::<IdentifiedMediaDataBox>(v.imda), nested_opt_models::<MetaBox>(v.meta), nested_models::<SegmentTypeBox>(v.styp), nested_models::<SegmentIndexBox>(v.sidx), nested_models::<SubsegmentIndexBox>(v.ssix), nested_models::<ProducerReferenceTimeBox>(v.prft), v.unknown_boxes, nested_opt_models::<MovieFragmentRandomAccessBox>(v.mfra));
    lemma_nested_opt_other::<MovieFragmentBox, FileTypeBox>(v.ftyp);
    lemma_nested_collect_other::<MovieFragmentBox, ExtendedTypeBox>(v.etyp);
    lemma_nested_collect_other::<MovieFragmentBox, OriginalFileTypeBox>(v.otyp);
    lemma_nested_opt_other::<MovieFragmentBox, ProgressiveDownloadInfoBox>(v.pdin);
    lemma_nested_opt_other::<MovieFragmentBox, MovieBox>(v.moov);
    lemma_nested_collect_own::<MovieFragmentBox>(v.moof);
    lemma_nested_collect_other::<MovieFragmentBox, MediaDataBox>(v.mdat);
    lemma_nested_collect_other::<MovieFragmentBox, IdentifiedMediaDataBox>(v.imda);
    lemma_nested_opt_other::<MovieFragmentBox, MetaBox>(v.meta);
    lemma_nested_collect_other::<MovieFragmentBox, SegmentTypeBox>(v.styp);
    lemma_nested_collect_other::<MovieFragmentBox, SegmentIndexBox>(v.sidx);
    lemma_nested_collect_other::<MovieFragmentBox, SubsegmentIndexBox>(v.ssix);
    lemma_nested_collect_other::<MovieFragmentBox, ProducerReferenceTimeBox>(v.prft);
    assert forall|i: int| 0 <= i < v.unknown_boxes.len() implies !#[trigger] is_child::<MovieFragmentBox>(v.unknown_boxes[i]) by {
        assert(!file_known(v.unknown_boxes[i]));
    }
    lemma_collect_none::<MovieFragmentBox>(v.unknown_boxes);
    lemma_nested_opt_other::<MovieFragmentBox, MovieFragmentRandomAccessBox>(v.mfra);
    assert(collect_children::<MovieFragmentBox>(file_models(v)) =~= v.moof);
}

/// The boxes that a file writes collect back into its field `mdat`.
#[verifier::spinoff_prover]
#[verifier::rlimit(60)]
proof fn lemma_file_collect_mdat(v: IsobmffFileModel)
    requires
        file_canonical(v),
        file_types_differ(),
    ensures
        collect_children::<MediaDataBox>(file_models(v)) == v.mdat,
{
    lemma_file_split::<MediaDataBox>(nested_opt_models::<FileTypeBox>(v.ftyp), nested_models::<ExtendedTypeBox>(v.etyp), nested_models::<OriginalFileTypeBox>(v.otyp), nested_opt_models::<ProgressiveDownloadInfoBox>(v.pdin), nested_opt_models::<MovieBox>(v.moov), nested_models::<MovieFragmentBox>(v.moof), nested_models::<MediaDataBox>(v.mdat), nested_models::<IdentifiedMediaDataBox>(v.imda), nested_opt_models::<MetaBox>(v.meta), nested_models::<SegmentTypeBox>(v.styp), nested_models::<SegmentIndexBox>(v.sidx), nested_models::<SubsegmentIndexBox>(v.ssix), nested_models::<ProducerReferenceTimeBox>(v.prft), v.unknown_boxes, nested_opt_models::<MovieFragmentRandomAccessBox>(v.mfra));
    lemma_nested_opt_other::<MediaDataBox, FileTypeBox>(v.ftyp);
    lemma_nested_collect_other::<MediaDataBox, ExtendedTypeBox>(v.etyp);
    lemma_nested_collect_other::<MediaDataBox, OriginalFileTypeBox>(v.otyp);
    lemma_nested_opt_other::<MediaDataBox, ProgressiveDownloadInfoBox>(v.pdin);
    lemma_nested_opt_other::<MediaDataBox, MovieBox>(v.moov);
    lemma_nested_collect_other::<MediaDataBox, MovieFragmentBox>(v.moof);
    lemma_nested_collect_own::<MediaDataBox>(v.mdat);
    lemma_nested_collect_other::<MediaDataBox, IdentifiedMediaDataBox>(v.imda);
    lemma_nested_opt_other::<MediaDataBox, MetaBox>(v.meta);
    lemma_nested_collect_other::<MediaDataBox, SegmentTypeBox>(v.styp);
    lemma_nested_collect_other::<MediaDataBox, SegmentIndexBox>(v.sidx);
    lemma_nested_collect_other::<MediaDataBox, SubsegmentIndexBox>(v.ssix);
    lemma_nested_collect_other::<MediaDataBox, ProducerReferenceTimeBox>(v.prft);
    assert forall|i: int| 0 <= i < v.unknown_boxes.len() implies !#[trigger] is_child::<MediaDataBox>(v.unknown_boxes[i]) by {
        assert(!file_known(v.unknown_boxes[i]));
    }
    lemma_collect_none::<MediaDataBox>(v.unknown_boxes);
    lemma_nested_opt_other::<MediaDataBox, MovieFragmentRandomAccessBox>(v.mfra);
    assert(collect_children::<MediaDataBox>(file_models(v)) =~= v.mdat);
}

/// The boxes that a file writes collect back into its field `imda`.
#[verifier::spinoff_prover]
#[verifier::rlimit(60)]
proof fn lemma_file_collect_imda(v: IsobmffFileModel)
    requires
        file_canonical(v),
        file_types_differ(),
    ensures
        collect_children::<IdentifiedMediaDataBox>(file_models(v)) == v.imda,
{
    lemma_file_split::<IdentifiedMediaDataBox>(nested_opt_models::<FileTypeBox>(v.ftyp), nested_models::<ExtendedTypeBox>(v.etyp), nested_models::<OriginalFileTypeBox>(v.otyp), nested_opt_models::<ProgressiveDownloadInfoBox>(v.pdin), nested_opt_models::<MovieBox>(v.moov), nested_models::<MovieFragmentBox>(v.moof), nested_models::<MediaDataBox>(v.mdat), nested_models::<IdentifiedMediaDataBox>(v.imda), nested_opt_models::<MetaBox>(v.meta), nested_models::<SegmentTypeBox>(v.styp), nested_models::<SegmentIndexBox>(v.sidx), nested_models::<SubsegmentIndexBox>(v.ssix), nested_models::<ProducerReferenceTimeBox>(v.prft), v.unknown_boxes, nested_opt_models::<MovieFragmentRandomAccessBox>(v.mfra));
    lemma_nested_opt_other::<IdentifiedMediaDataBox, FileTypeBox>(v.ftyp);
    lemma_nested_collect_other::<IdentifiedMediaDataBox, ExtendedTypeBox>(v.etyp);
    lemma_nested_collect_other::<IdentifiedMediaDataBox, OriginalFileTypeBox>(v.otyp);
    lemma_nested_opt_other::<IdentifiedMediaDataBox, ProgressiveDownloadInfoBox>(v.pdin);
    lemma_nested_opt_other::<IdentifiedMediaDataBox, MovieBox>(v.moov);
    lemma_nested_collect_other::<IdentifiedMediaDataBox, MovieFragmentBox>(v.moof);
    lemma_nested_collect_other::<IdentifiedMediaDataBox, MediaDataBox>(v.mdat);
    lemma_nested_collect_own::<IdentifiedMediaDataBox>(v.imda);
    lemma_nested_opt_other::<IdentifiedMediaDataBox, MetaBox>(v.meta);
    lemma_nested_collect_other::<IdentifiedMediaDataBox, SegmentTypeBox>(v.styp);
    lemma_nested_collect_other::<IdentifiedMediaDataBox, SegmentIndexBox>(v.sidx);
    lemma_nested_collect_other::<IdentifiedMediaDataBox, SubsegmentIndexBox>(v.ssix);
    lemma_nested_collect_other::<IdentifiedMediaDataBox, ProducerReferenceTimeBox>(v.prft);
    assert forall|i: int| 0 <= i < v.unknown_boxes.len() implies !#[trigger] is_child::<IdentifiedMediaDataBox>(v.unknown_boxes[i]) by {
        assert(!file_known(v.unknown_boxes[i]));
    }
    lemma_collect_none::<IdentifiedMediaDataBox>(v.unknown_boxes);
    lemma_nested_opt_other::<IdentifiedMediaDataBox, MovieFragmentRandomAccessBox>(v.mfra);
    assert(collect_children::<IdentifiedMediaDataBox>(file_models(v)) =~= v.imda);
}

/// The boxes that a file writes collect back into its field `meta`.
#[verifier::spinoff_prover]
#[verifier::rlimit(60)]
proof fn lemma_file_collect_meta(v: IsobmffFileModel)
    requires
        file_canonical(v),
        file_types_differ(),
    ensures
        collect_children::<MetaBox>(file_models(v)) == opt_seq(v.meta),
{
    lemma_file_split::<MetaBox>(nested_opt_models::<FileTypeBox>(v.ftyp), nested_models::<ExtendedTypeBox>(v.etyp), nested_models::<OriginalFileTypeBox>(v.otyp), nested_opt_models::<ProgressiveDownloadInfoBox>(v.pdin), nested_opt_models::<MovieBox>(v.moov), nested_models::<MovieFragmentBox>(v.moof), nested_models::<MediaDataBox>(v.mdat), nested_models::<IdentifiedMediaDataBox>(v.imda), nested_opt_models::<MetaBox>(v.meta), nested_models::<SegmentTypeBox>(v.styp), nested_models::<SegmentIndexBox>(v.sidx), nested_models::<SubsegmentIndexBox>(v.ssix), nested_models::<ProducerReferenceTimeBox>(v.prft), v.unknown_boxes, nested_opt_models::<MovieFragmentRandomAccessBox>(v.mfra));
    lemma_nested_opt_other::<MetaBox, FileTypeBox>(v.ftyp);
    lemma_nested_collect_other::<MetaBox, ExtendedTypeBox>(v.etyp);
    lemma_nested_collect_other::<MetaBox, OriginalFileTypeBox>(v.otyp);
    lemma_nested_opt_other::<MetaBox, ProgressiveDownloadInfoBox>(v.pdin);
    lemma_nested_opt_other::<MetaBox, MovieBox>(v.moov);
    lemma_nested_collect_other::<MetaBox, MovieFragmentBox>(v.moof);
    lemma_nested_collect_other::<MetaBox, MediaDataBox>(v.mdat);
    lemma_nested_collect_other::<MetaBox, IdentifiedMediaDataBox>(v.imda);
    lemma_nested_opt_own::<MetaBox>(v.meta);
    lemma_nested_collect_other::<MetaBox, SegmentTypeBox>(v.styp);
    lemma_nested_collect_other::<MetaBox, SegmentIndexBox>(v.sidx);
    lemma_nested_collect_other::<MetaBox, SubsegmentIndexBox>(v.ssix);
    lemma_nested_collect_other::<MetaBox, ProducerReferenceTimeBox>(v.prft);
    assert forall|i: int| 0 <= i < v.unknown_boxes.len() implies !#[trigger] is_child::<MetaBox>(v.unknown_boxes[i]) by {
        assert(!file_known(v.unknown_boxes[i]));
    }
    lemma_collect_none::<MetaBox>(v.unknown_boxes);
    lemma_nested_opt_other::<MetaBox, MovieFragmentRandomAccessBox>(v.mfra);
    assert(collect_children::<MetaBox>(file_models(v)) =~= opt_seq(v.meta));
}

/// The boxes that a file writes collect back into its field `styp`.
#[verifier::spinoff_prover]
#[verifier::rlimit(60)]
proof fn lemma_file_collect_styp(v: IsobmffFileModel)
    requires
        file_canonical(v),
        file_types_differ(),
    ensures
        collect_children::<SegmentTypeBox>(file_models(v)) == v.styp,
{
    lemma_file_split::<SegmentTypeBox>(nested_opt_models::<FileTypeBox>(v.ftyp), nested_models::<ExtendedTypeBox>(v.etyp), nested_models::<OriginalFileTypeBox>(v.otyp), nested_opt_models::<ProgressiveDownloadInfoBox>(v.pdin), nested_opt_models::<MovieBox>(v.moov), nested_models::<MovieFragmentBox>(v.moof), nested_models::<MediaDataBox>(v.mdat), nested_models::<IdentifiedMediaDataBox>(v.imda), nested_opt_models::<MetaBox>(v.meta), nested_models::<SegmentTypeBox>(v.styp), nested_models::<SegmentIndexBox>(v.sidx), nested_models::<SubsegmentIndexBox>(v.ssix), nested_models::<ProducerReferenceTimeBox>(v.prft), v.unknown_boxes, nested_opt_models::<MovieFragmentRandomAccessBox>(v.mfra));
    lemma_nested_opt_other::<SegmentTypeBox, FileTypeBox>(v.ftyp);
    lemma_nested_collect_other::<SegmentTypeBox, ExtendedTypeBox>(v.etyp);
    lemma_nested_collect_other::<SegmentTypeBox, OriginalFileTypeBox>(v.otyp);
    lemma_nested_opt_other::<SegmentTypeBox, ProgressiveDownloadInfoBox>(v.pdin);
    lemma_nested_opt_other::<SegmentTypeBox, MovieBox>(v.moov);
    lemma_nested_collect_other::<SegmentTypeBox, MovieFragmentBox>(v.moof);
    lemma_nested_collect_other::<SegmentTypeBox, MediaDataBox>(v.mdat);
    lemma_nested_collect_other::<SegmentTypeBox, IdentifiedMediaDataBox>(v.imda);
    lemma_nested_opt_other::<SegmentTypeBox, MetaBox>(v.meta);
    lemma_nested_collect_own::<SegmentTypeBox>(v.styp);
    lemma_nested_collect_other::<SegmentTypeBox, SegmentIndexBox>(v.sidx);
    lemma_nested_collect_other::<SegmentTypeBox, SubsegmentIndexBox>(v.ssix);
    lemma_nested_collect_other::<SegmentTypeBox, ProducerReferenceTimeBox>(v.prft);
    assert forall|i: int| 0 <= i < v.unknown_boxes.len() implies !#[trigger] is_child::<SegmentTypeBox>(v.unknown_boxes[i]) by {
        assert(!file_known(v.unknown_boxes[i]));
    }
    lemma_collect_none::<SegmentTypeBox>(v.unknown_boxes);
    lemma_nested_opt_other::<SegmentTypeBox, MovieFragmentRandomAccessBox>(v.mfra);
    assert(collect_children::<SegmentTypeBox>(file_models(v)) =~= v.styp);
}

/// The boxes that a file writes collect back into its field `sidx`.
#[verifier::spinoff_prover]
#[verifier::rlimit(60)]
proof fn lemma_file_collect_sidx(v: IsobmffFileModel)
    requires
        file_canonical(v),
        file_types_differ(),
    ensures
        collect_children::<SegmentIndexBox>(file_models(v)) == v.sidx,
{
    lemma_file_split::<SegmentIndexBox>(nested_opt_models::<FileTypeBox>(v.ftyp), nested_models::<ExtendedTypeBox>(v.etyp), nested_models::<OriginalFileTypeBox>(v.otyp), nested_opt_models::<ProgressiveDownloadInfoBox>(v.pdin), nested_opt_models::<MovieBox>(v.moov), nested_models::<MovieFragmentBox>(v.moof), nested_models::<MediaDataBox>(v.mdat), nested_models::<IdentifiedMediaDataBox>(v.imda), nested_opt_models::<MetaBox>(v.meta), nested_models::<SegmentTypeBox>(v.styp), nested_models::<SegmentIndexBox>(v.sidx), nested_models::<SubsegmentIndexBox>(v.ssix), nested_models::<ProducerReferenceTimeBox>(v.prft), v.unknown_boxes, nested_opt_models::<MovieFragmentRandomAccessBox>(v.mfra));
    lemma_nested_opt_other::<SegmentIndexBox, FileTypeBox>(v.ftyp);
    lemma_nested_collect_other::<SegmentIndexBox, ExtendedTypeBox>(v.etyp);
    lemma_nested_collect_other::<SegmentIndexBox, OriginalFileTypeBox>(v.otyp);
    lemma_nested_opt_other::<SegmentIndexBox, ProgressiveDownloadInfoBox>(v.pdin);
    lemma_nested_opt_other::<SegmentIndexBox, MovieBox>(v.moov);
    lemma_nested_collect_other::<SegmentIndexBox, MovieFragmentBox>(v.moof);
    lemma_nested_collect_other::<SegmentIndexBox, MediaDataBox>(v.mdat);
    lemma_nested_collect_other::<SegmentIndexBox, IdentifiedMediaDataBox>(v.imda);
    lemma_nested_opt_other::<SegmentIndexBox, MetaBox>(v.meta);
    lemma_nested_collect_other::<SegmentIndexBox, SegmentTypeBox>(v.styp);
    lemma_nested_collect_own::<SegmentIndexBox>(v.sidx);
    lemma_nested_collect_other::<SegmentIndexBox, SubsegmentIndexBox>(v.ssix);
    lemma_nested_collect_other::<SegmentIndexBox, ProducerReferenceTimeBox>(v.prft);
    assert forall|i: int| 0 <= i < v.unknown_boxes.len() implies !#[trigger] is_child::<SegmentIndexBox>(v.unknown_boxes[i]) by {
        assert(!file_known(v.unknown_boxes[i]));
    }
    lemma_collect_none::<SegmentIndexBox>(v.unknown_boxes);
    lemma_nested_opt_other::<SegmentIndexBox, MovieFragmentRandomAccessBox>(v.mfra);
    assert(collect_children::<SegmentIndexBox>(file_models(v)) =~= v.sidx);
}

/// The boxes that a file writes collect back into its field `ssix`.
#[verifier::spinoff_prover]
#[verifier::rlimit(60)]
proof fn lemma_file_collect_ssix(v: IsobmffFileModel)
    requires
        file_canonical(v),
        file_types_differ(),
    ensures
        collect_children::<SubsegmentIndexBox>(file_models(v)) == v.ssix,
{
    lemma_file_split::<SubsegmentIndexBox>(nested_opt_models::<FileTypeBox>(v.ftyp), nested_models::<ExtendedTypeBox>(v.etyp), nested_models::<OriginalFileTypeBox>(v.otyp), nested_opt_models::<ProgressiveDownloadInfoBox>(v.pdin), nested_opt_models::<MovieBox>(v.moov), nested_models::<MovieFragmentBox>(v.moof), nested_models::<MediaDataBox>(v.mdat), nested_models::<IdentifiedMediaDataBox>(v.imda), nested_opt_models::<MetaBox>(v.meta), nested_models::<SegmentTypeBox>(v.styp), nested_models::<SegmentIndexBox>(v.sidx), nested_models::<SubsegmentIndexBox>(v.ssix), nested_models::<ProducerReferenceTimeBox>(v.prft), v.unknown_boxes, nested_opt_models::<MovieFragmentRandomAccessBox>(v.mfra));
    lemma_nested_opt_other::<SubsegmentIndexBox, FileTypeBox>(v.ftyp);
    lemma_nested_collect_other::<SubsegmentIndexBox, ExtendedTypeBox>(v.etyp);
    lemma_nested_collect_other::<SubsegmentIndexBox, OriginalFileTypeBox>(v.otyp);
    lemma_nested_opt_other::<SubsegmentIndexBox, ProgressiveDownloadInfoBox>(v.pdin);
    lemma_nested_opt_other::<SubsegmentIndexBox, MovieBox>(v.moov);
    lemma_nested_collect_other::<SubsegmentIndexBox, MovieFragmentBox>(v.moof);
    lemma_nested_collect_other::<SubsegmentIndexBox, MediaDataBox>(v.mdat);
    lemma_nested_collect_other::<SubsegmentIndexBox, IdentifiedMediaDataBox>(v.imda);
    lemma_nested_opt_other::<SubsegmentIndexBox, MetaBox>(v.meta);
    lemma_nested_collect_other::<SubsegmentIndexBox, SegmentTypeBox>(v.styp);
    lemma_nested_collect_other::<SubsegmentIndexBox, SegmentIndexBox>(v.sidx);
    lemma_nested_collect_own::<SubsegmentIndexBox>(v.ssix);
    lemma_nested_collect_other::<SubsegmentIndexBox, ProducerReferenceTimeBox>(v.prft);
    assert forall|i: int| 0 <= i < v.unknown_boxes.len() implies !#[trigger] is_child::<SubsegmentIndexBox>(v.unknown_boxes[i]) by {
        assert(!file_known(v.unknown_boxes[i]));
    }
    lemma_collect_none::<SubsegmentIndexBox>(v.unknown_boxes);
    lemma_nested_opt_other::<SubsegmentIndexBox, MovieFragmentRandomAccessBox>(v.mfra);
    assert(collect_children::<SubsegmentIndexBox>(file_models(v)) =~= v.ssix);
}

/// The boxes that a file writes collect back into its field `prft`.
#[verifier::spinoff_prover]
#[verifier::rlimit(60)]
proof fn lemma_file_collect_prft(v: IsobmffFileModel)
    requires
        file_canonical(v),
        file_types_differ(),
    ensures
        collect_children::<ProducerReferenceTimeBox>(file_models(v)) == v.prft,
{
    lemma_file_split::<ProducerReferenceTimeBox>(nested_opt_models::<FileTypeBox>(v.ftyp), nested_models::<ExtendedTypeBox>(v.etyp), nested_models::<OriginalFileTypeBox>(v.otyp), nested_opt_models::<ProgressiveDownloadInfoBox>(v.pdin), nested_opt_models::<MovieBox>(v.moov), nested_models::<MovieFragmentBox>(v.moof), nested_models::<MediaDataBox>(v.mdat), nested_models::<IdentifiedMediaDataBox>(v.imda), nested_opt_models::<MetaBox>(v.meta), nested_models::<SegmentTypeBox>(v.styp), nested_models::<SegmentIndexBox>(v.sidx), nested_models::<SubsegmentIndexBox>(v.ssix), nested_models::<ProducerReferenceTimeBox>(v.prft), v.unknown_boxes, nested_opt_models::<MovieFragmentRandomAccessBox>(v.mfra));
    lemma_nested_opt_other::<ProducerReferenceTimeBox, FileTypeBox>(v.ftyp);
    lemma_nested_collect_other::<ProducerReferenceTimeBox, ExtendedTypeBox>(v.etyp);
    lemma_nested_collect_other::<ProducerReferenceTimeBox, OriginalFileTypeBox>(v.otyp);
    lemma_nested_opt_other::<ProducerReferenceTimeBox, ProgressiveDownloadInfoBox>(v.pdin);
    lemma_nested_opt_other::<ProducerReferenceTimeBox, MovieBox>(v.moov);
    lemma_nested_collect_other::<ProducerReferenceTimeBox, MovieFragmentBox>(v.moof);
    lemma_nested_collect_other::<ProducerReferenceTimeBox, MediaDataBox>(v.mdat);
    lemma_nested_collect_other::<ProducerReferenceTimeBox, IdentifiedMediaDataBox>(v.imda);
    lemma_nested_opt_other::<ProducerReferenceTimeBox, MetaBox>(v.meta);
    lemma_nested_collect_other::<ProducerReferenceTimeBox, SegmentTypeBox>(v.styp);
    lemma_nested_collect_other::<ProducerReferenceTimeBox, SegmentIndexBox>(v.sidx);
    lemma_nested_collect_other::<ProducerReferenceTimeBox, SubsegmentIndexBox>(v.ssix);
    lemma_nested_collect_own::<ProducerReferenceTimeBox>(v.prft);
    assert forall|i: int| 0 <= i < v.unknown_boxes.len() implies !#[trigger] is_child::<ProducerReferenceTimeBox>(v.unknown_boxes[i]) by {
        assert(!file_known(v.unknown_boxes[i]));
    }
    lemma_collect_none::<ProducerReferenceTimeBox>(v.unknown_boxes);
    lemma_nested_opt_other::<ProducerReferenceTimeBox, MovieFragmentRandomAccessBox>(v.mfra);
    assert(collect_children::<ProducerReferenceTimeBox>(file_models(v)) =~= v.prft);
}

/// The boxes that a file writes collect back into its field `mfra`.
#[verifier::spinoff_prover]
#[verifier::rlimit(60)]
proof fn lemma_file_collect_mfra(v: IsobmffFileModel)
    requires
        file_canonical(v),
        file_types_differ(),
    ensures
        collect_children::<MovieFragmentRandomAccessBox>(file_models(v)) == opt_seq(v.mfra),
{
    lemma_file_split::<MovieFragmentRandomAccessBox>(nested_opt_models::<FileTypeBox>(v.ftyp), nested_models::<ExtendedTypeBox>(v.etyp), nested_models::<OriginalFileTypeBox>(v.otyp), nested_opt_models::<ProgressiveDownloadInfoBox>(v.pdin), nested_opt_models::<MovieBox>(v.moov), nested_models::<MovieFragmentBox>(v.moof), nested_models::<MediaDataBox>(v.mdat), nested_models::<IdentifiedMediaDataBox>(v.imda), nested_opt_models::<MetaBox>(v.meta), nested_models::<SegmentTypeBox>(v.styp), nested_models::<SegmentIndexBox>(v.sidx), nested_models::<SubsegmentIndexBox>(v.ssix), nested_models::<ProducerReferenceTimeBox>(v.prft), v.unknown_boxes, nested_opt_models::<MovieFragmentRandomAccessBox>(v.mfra));
    lemma_nested_opt_other::<MovieFragmentRandomAccessBox, FileTypeBox>(v.ftyp);
    lemma_nested_collect_other::<MovieFragmentRandomAccessBox, ExtendedTypeBox>(v.etyp);
    lemma_nested_collect_other::<MovieFragmentRandomAccessBox, OriginalFileTypeBox>(v.otyp);
    lemma_nested_opt_other::<MovieFragmentRandomAccessBox, ProgressiveDownloadInfoBox>(v.pdin);
    lemma_nested_opt_other::<MovieFragmentRandomAccessBox, MovieBox>(v.moov);
    lemma_nested_collect_other::<MovieFragmentRandomAccessBox, MovieFragmentBox>(v.moof);
    lemma_nested_collect_other::<MovieFragmentRandomAccessBox, MediaDataBox>(v.mdat);
    lemma_nested_collect_other::<MovieFragmentRandomAccessBox, IdentifiedMediaDataBox>(v.imda);
    lemma_nested_opt_other::<MovieFragmentRandomAccessBox, MetaBox>(v.meta);
    lemma_nested_collect_other::<MovieFragmentRandomAccessBox, SegmentTypeBox>(v.styp);
    lemma_nested_collect_other::<MovieFragmentRandomAccessBox, SegmentIndexBox>(v.sidx);
    lemma_nested_collect_other::<MovieFragmentRandomAccessBox, SubsegmentIndexBox>(v.ssix);
    lemma_nested_collect_other::<MovieFragmentRandomAccessBox, ProducerReferenceTimeBox>(v.prft);
    assert forall|i: int| 0 <= i < v.unknown_boxes.len() implies !#[trigger] is_child::<MovieFragmentRandomAccessBox>(v.unknown_boxes[i]) by {
        assert(!file_known(v.unknown_boxes[i]));
    }
    lemma_collect_none::<MovieFragmentRandomAccessBox>(v.unknown_boxes);
    lemma_nested_opt_own::<MovieFragmentRandomAccessBox>(v.mfra);
    assert(collect_children::<MovieFragmentRandomAccessBox>(file_models(v)) =~= opt_seq(v.mfra));
}

/// The boxes of other types that a file writes are collected back as they are.
#[verifier::spinoff_prover]
#[verifier::rlimit(60)]
proof fn lemma_file_unknown(v: IsobmffFileModel)
    requires
        file_canonical(v),
    ensures
        collect_unknown(file_models(v), |c: UnknownBoxModel| file_known(c)) == v.unknown_boxes,
{
    let known = |c: UnknownBoxModel| file_known(c);
    let s0 = nested_opt_models::<FileTypeBox>(v.ftyp);
    assert forall|i: int| 0 <= i < s0.len() implies #[trigger] known(s0[i]) by {}
    lemma_unknown_all_known(s0, known);
    let s1 = nested_models::<ExtendedTypeBox>(v.etyp);
    assert forall|i: int| 0 <= i < s1.len() implies #[trigger] known(s1[i]) by {}
    lemma_unknown_all_known(s1, known);
    let s2 = nested_models::<OriginalFileTypeBox>(v.otyp);
    assert forall|i: int| 0 <= i < s2.len() implies #[trigger] known(s2[i]) by {}
    lemma_unknown_all_known(s2, known);
    let s3 = nested_opt_models::<ProgressiveDownloadInfoBox>(v.pdin);
    assert forall|i: int| 0 <= i < s3.len() implies #[trigger] known(s3[i]) by {}
    lemma_unknown_all_known(s3, known);
    let s4 = nested_opt_models::<MovieBox>(v.moov);
    assert forall|i: int| 0 <= i < s4.len() implies #[trigger] known(s4[i]) by {}
    lemma_unknown_all_known(s4, known);
    let s5 = nested_models::<MovieFragmentBox>(v.moof);
    assert forall|i: int| 0 <= i < s5.len() implies #[trigger] known(s5[i]) by {}
    lemma_unknown_all_known(s5, known);
    let s6 = nested_models::<MediaDataBox>(v.mdat);
    assert forall|i: int| 0 <= i < s6.len() implies #[trigger] known(s6[i]) by {}
    lemma_unknown_all_known(s6, known);
    let s7 = nested_models::<IdentifiedMediaDataBox>(v.imda);
    assert forall|i: int| 0 <= i < s7.len() implies #[trigger] known(s7[i]) by {}
    lemma_unknown_all_known(s7, known);
    let s8 = nested_opt_models::<MetaBox>(v.meta);
    assert forall|i: int| 0 <= i < s8.len() implies #[trigger] known(s8[i]) by {}
    lemma_unknown_all_known(s8, known);
    let s9 = nested_models::<SegmentTypeBox>(v.styp);
    assert forall|i: int| 0 <= i < s9.len() implies #[trigger] known(s9[i]) by {}
    lemma_unknown_all_known(s9, known);
    let s10 = nested_models::<SegmentIndexBox>(v.sidx);
    assert forall|i: int| 0 <= i < s10.len() implies #[trigger] known(s10[i]) by {}
    lemma_unknown_all_known(s10, known);
    let s11 = nested_models::<SubsegmentIndexBox>(v.ssix);
    assert forall|i: int| 0 <= i < s11.len() implies #[trigger] known(s11[i]) by {}
    lemma_unknown_all_known(s11, known);
    let s12 = nested_models::<ProducerReferenceTimeBox>(v.prft);
    assert forall|i: int| 0 <= i < s12.len() implies #[trigger] known(s12[i]) by {}
    lemma_unknown_all_known(s12, known);
    let s13 = v.unknown_boxes;
    assert forall|i: int| 0 <= i < s13.len() implies !#[trigger] known(s13[i]) by {}
    lemma_unknown_none_known(s13, known);
    let s14 = nested_opt_models::<MovieFragmentRandomAccessBox>(v.mfra);
    assert forall|i: int| 0 <= i < s14.len() implies #[trigger] known(s14[i]) by {}
    lemma_unknown_all_known(s14, known);
    lemma_unknown_add(s0 + s1 + s2 + s3 + s4 + s5 + s6 + s7 + s8 + s9 + s10 + s11 + s12 + s13, s14, known);
    lemma_unknown_add(s0 + s1 + s2 + s3 + s4 + s5 + s6 + s7 + s8 + s9 + s10 + s11 + s12, s13, known);
    lemma_unknown_add(s0 + s1 + s2 + s3 + s4 + s5 + s6 + s7 + s8 + s9 + s10 + s11, s12, known);
    lemma_unknown_add(s0 + s1 + s2 + s3 + s4 + s5 + s6 + s7 + s8 + s9 + s10, s11, known);
    lemma_unknown_add(s0 + s1 + s2 + s3 + s4 + s5 + s6 + s7 + s8 + s9, s10, known);
    lemma_unknown_add(s0 + s1 + s2 + s3 + s4 + s5 + s6 + s7 + s8, s9, known);
    lemma_unknown_add(s0 + s1 + s2 + s3 + s4 + s5 + s6 + s7, s8, known);
    lemma_unknown_add(s0 + s1 + s2 + s3 + s4 + s5 + s6, s7, known);
    lemma_unknown_add(s0 + s1 + s2 + s3 + s4 + s5, s6, known);
    lemma_unknown_add(s0 + s1 + s2 + s3 + s4, s5, known);
    lemma_unknown_add(s0 + s1 + s2 + s3, s4, known);
    lemma_unknown_add(s0 + s1 + s2, s3, known);
    lemma_unknown_add(s0 + s1, s2, known);
    lemma_unknown_add(s0, s1, known);
    assert(collect_unknown(file_models(v), known) =~= v.unknown_boxes);
}

/// Writing a file and reading its payload back gives it again.
#[verifier::spinoff_prover]
#[verifier::rlimit(100)]
proof fn lemma_file_roundtrip(v: IsobmffFileModel)
    requires
        file_canonical(v),
    ensures
        file_parse(file_bytes(v)) == Ok::<IsobmffFileModel, IsoError>(v),
{
    let s = file_bytes(v);
    lemma_file_children(v);
    lemma_file_types();
    let cs = file_models(v);
    let fault = |c: UnknownBoxModel| file_fault(c);
    assert forall|j: int| 0 <= j < cs.len() implies (#[trigger] fault(cs[j])) is None by {
        lemma_file_no_fault(v, j);
    }
    lemma_first_fault(cs, fault, cs.len() as int);
    assert(cs.take(cs.len() as int) =~= cs);
    lemma_file_collect_ftyp(v);
    lemma_file_collect_etyp(v);
    lemma_file_collect_otyp(v);
    lemma_file_collect_pdin(v);
    lemma_file_collect_moov(v);
    lemma_file_collect_moof(v);
    lemma_file_collect_mdat(v);
    lemma_file_collect_imda(v);
    lemma_file_collect_meta(v);
    lemma_file_collect_styp(v);
    lemma_file_collect_sidx(v);
    lemma_file_collect_ssix(v);
    lemma_file_collect_prft(v);
    lemma_file_collect_mfra(v);
    lemma_file_unknown(v);
    assert(spec_children(s) == cs);
    assert(last_child::<FileTypeBox>(cs) == v.ftyp);
    assert(last_child::<ProgressiveDownloadInfoBox>(cs) == v.pdin);
    assert(last_child::<MovieBox>(cs) == v.moov);
    assert(last_child::<MetaBox>(cs) == v.meta);
    assert(last_child::<MovieFragmentRandomAccessBox>(cs) == v.mfra);
}

/// For a value that reads back as itself, the size is that of its payload.
#[verifier::spinoff_prover]
#[verifier::rlimit(60)]
proof fn lemma_file_size(x: IsobmffFile)
    requires
        file_canonical(x@),
    ensures
        nested_opt_size::<FileTypeBox>(x.ftyp) + nested_sizes::<ExtendedTypeBox>(x.etyp@) + nested_sizes::<OriginalFileTypeBox>(x.otyp@) + nested_opt_size::<ProgressiveDownloadInfoBox>(x.pdin) + nested_opt_size::<MovieBox>(x.moov) + nested_sizes::<MovieFragmentBox>(x.moof@) + nested_sizes::<MediaDataBox>(x.mdat@) + nested_sizes::<IdentifiedMediaDataBox>(x.imda@) + nested_opt_size::<MetaBox>(x.meta) + nested_sizes::<SegmentTypeBox>(x.styp@) + nested_sizes::<SegmentIndexBox>(x.sidx@) + nested_sizes::<SubsegmentIndexBox>(x.ssix@) + nested_sizes::<ProducerReferenceTimeBox>(x.prft@) + size_seq::<UnknownBox>(x.unknown_boxes@) + nested_opt_size::<MovieFragmentRandomAccessBox>(x.mfra) == file_bytes(x@).len(),
{
    let v = x@;
    lemma_nested_opt_size::<FileTypeBox>(x.ftyp);
    lemma_nested_sizes::<ExtendedTypeBox>(x.etyp@);
    lemma_nested_sizes::<OriginalFileTypeBox>(x.otyp@);
    lemma_nested_opt_size::<ProgressiveDownloadInfoBox>(x.pdin);
    lemma_nested_opt_size::<MovieBox>(x.moov);
    lemma_nested_sizes::<MovieFragmentBox>(x.moof@);
    lemma_nested_sizes::<MediaDataBox>(x.mdat@);
    lemma_nested_sizes::<IdentifiedMediaDataBox>(x.imda@);
    lemma_nested_opt_size::<MetaBox>(x.meta);
    lemma_nested_sizes::<SegmentTypeBox>(x.styp@);
    lemma_nested_sizes::<SegmentIndexBox>(x.sidx@);
    lemma_nested_sizes::<SubsegmentIndexBox>(x.ssix@);
    lemma_nested_sizes::<ProducerReferenceTimeBox>(x.prft@);
    assert(writable_seq::<UnknownBox>(views(x.unknown_boxes@)));
    lemma_size_seq::<UnknownBox>(x.unknown_boxes@);
    lemma_nested_opt_size::<MovieFragmentRandomAccessBox>(x.mfra);
}

impl IsobmffFile {
    /// What a file reads as: its boxes, each box of a known type in its field and
    /// every other box kept as it is.
    pub open spec fn spec_parse(s: Seq<u8>) -> Result<IsobmffFileModel, IsoError> {
        file_parse(s)
    }

    /// Every box of a known type can be written.
    pub open spec fn spec_writable(v: IsobmffFileModel) -> bool {
        file_writable(v)
    }

    /// The boxes of the file, in the order of its fields.
    pub open spec fn spec_serialize(v: IsobmffFileModel) -> Seq<u8> {
        file_bytes(v)
    }

    /// Files that read back as themselves.
    pub open spec fn spec_canonical(v: IsobmffFileModel) -> bool {
        file_canonical(v)
    }

    /// Reads a whole file.
    pub fn parse(data: &[u8]) -> (r: Result<IsobmffFile, IsoError>)
        ensures
            match (Self::spec_parse(data@), r) {
                (Ok(v), Ok(x)) => x@ == v,
                (Err(e), Err(f)) => e == f,
                _ => false,
            },
    {
        parse_file(data)
    }

    /// Writes the boxes of the file, in the order of its fields.
    pub fn serialize(&self, out: &mut Vec<u8>) -> (r: Result<(), IsoError>)
        requires
            self.spec_size() <= usize::MAX,
        ensures
            write_matches(r, Self::spec_writable(self@), Self::spec_serialize(self@), old(out)@, final(out)@),
    {
        write_file_children(self, out)
    }

    /// Writing a file and reading it back gives it again.
    pub proof fn lemma_roundtrip(v: IsobmffFileModel)
        requires
            Self::spec_writable(v),
            Self::spec_canonical(v),
        ensures
            Self::spec_parse(Self::spec_serialize(v)) == Ok::<IsobmffFileModel, IsoError>(v),
    {
        lemma_file_roundtrip(v);
    }

    /// The size of a file that reads back as itself is the length of what is written.
    pub proof fn lemma_size(x: IsobmffFile)
        requires
            Self::spec_canonical(x@),
        ensures
            x.spec_size() == Self::spec_serialize(x@).len(),
    {
        lemma_file_size(x);
    }
}

} // verus!
