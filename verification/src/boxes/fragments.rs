//! The movie fragment box and the track fragment boxes that it holds.

use vstd::prelude::*;

use crate::children::{
    child_fault, child_value, collect_children, collect_into, collect_unknown, first_fault, is_child, is_child_exec,
    last_child, lemma_child_other, lemma_child_read, lemma_collect_add, lemma_collect_none, lemma_collect_step,
    lemma_first_fault, lemma_unknown_add, lemma_unknown_all_known, lemma_unknown_none_known, lemma_unknown_step,
    lemma_unknown_seq, read_children, replace_into, scan_result, spec_children,
};
use crate::codec::{
    be_u16_at, be_u24_at, be_u32_at, lemma_append_prefix, lemma_prefix_trans, lemma_u16_at, lemma_u24_at,
    lemma_u32_at, read_u16_at, read_u24_at, read_u32_at, u16_bytes, u24_bytes, u32_bytes, write_bytes, write_u16,
    write_u24, write_u32, write_u8, IsoError,
};
use crate::frame::{add_header_size, add_header_size_exec, BoxBody, UnknownBox, UnknownBoxModel};
use crate::header::{spec_uuid_fourcc, FullBoxHeader};
use crate::nested::{
    lemma_nested_collect_other, lemma_nested_collect_own, lemma_nested_cons, lemma_nested_opt_other,
    lemma_nested_opt_own, lemma_nested_opt_seq, lemma_nested_opt_size, lemma_nested_seq, lemma_nested_size,
    lemma_nested_sizes, lemma_unknown_seq_rest, nested_all_ok, nested_all_writable, nested_box_bytes, nested_bytes,
    nested_model,
    nested_models, nested_ok, nested_opt_bytes, nested_opt_models, nested_opt_ok, nested_opt_size,
    nested_opt_writable, nested_sizes, nested_writable, opt_seq, opt_view, size_nested_opt, size_nested_vec,
    write_nested, write_nested_opt, write_nested_vec,
};
use crate::wire::{
    lemma_size_seq, lemma_size_seq_mono, ser_seq, serialize_all, size_all, size_seq, views, writable_seq,
    write_matches, IsoSized, Wire,
};
use crate::boxes::aux_info::{SampleAuxiliaryInformationOffsetsBox, SampleAuxiliaryInformationSizesBox};
use crate::boxes::media_headers::TrackFragmentBaseMediaDecodeTimeBox;
use crate::boxes::meta::MetaBox;
use crate::boxes::movie_fragments::{MovieFragmentHeaderBox, TrackFragmentHeaderBox, TrackRunBox};
use crate::boxes::sample_group::SampleToGroupBox;
use crate::boxes::sample_group_description::SampleGroupDescriptionBox;
use crate::boxes::sub_samples::SubSampleInformationBox;
use crate::boxes::user_data_box::UserDataBox;

verus! {

/// Track fragment box
///
/// `traf`
///
/// ISO/IEC 14496-12 - 8.8.6
#[derive(Debug)]
pub struct TrackFragmentBox {
    /// The contained [`TrackFragmentHeaderBox`]. (mandatory)
    pub tfhd: TrackFragmentHeaderBox,
    /// The contained [`TrackRunBox`] boxes. (any quantity)
    pub trun: Vec<TrackRunBox>,
    /// The contained [`SampleToGroupBox`] boxes. (any quantity)
    pub sbgp: Vec<SampleToGroupBox>,
    /// The contained [`SampleGroupDescriptionBox`] boxes. (any quantity)
    pub sgpd: Vec<SampleGroupDescriptionBox>,
    /// The contained [`SubSampleInformationBox`] boxes. (any quantity)
    pub subs: Vec<SubSampleInformationBox>,
    /// The contained [`SampleAuxiliaryInformationSizesBox`] boxes. (any quantity)
    pub saiz: Vec<SampleAuxiliaryInformationSizesBox>,
    /// The contained [`SampleAuxiliaryInformationOffsetsBox`] boxes. (any quantity)
    pub saio: Vec<SampleAuxiliaryInformationOffsetsBox>,
    /// The contained [`TrackFragmentBaseMediaDecodeTimeBox`]. (optional)
    pub tfdt: Option<TrackFragmentBaseMediaDecodeTimeBox>,
    /// The contained [`MetaBox`]. (optional)
    pub meta: Option<MetaBox>,
    /// The contained [`UserDataBox`]. (optional)
    pub udta: Option<UserDataBox>,
}

/// The model of a [`TrackFragmentBox`].
pub struct TrackFragmentBoxModel {
    pub tfhd: <TrackFragmentHeaderBox as View>::V,
    pub trun: Seq<<TrackRunBox as View>::V>,
    pub sbgp: Seq<<SampleToGroupBox as View>::V>,
    pub sgpd: Seq<<SampleGroupDescriptionBox as View>::V>,
    pub subs: Seq<<SubSampleInformationBox as View>::V>,
    pub saiz: Seq<<SampleAuxiliaryInformationSizesBox as View>::V>,
    pub saio: Seq<<SampleAuxiliaryInformationOffsetsBox as View>::V>,
    pub tfdt: Option<<TrackFragmentBaseMediaDecodeTimeBox as View>::V>,
    pub meta: Option<<MetaBox as View>::V>,
    pub udta: Option<<UserDataBox as View>::V>,
}

impl View for TrackFragmentBox {
    type V = TrackFragmentBoxModel;

    open spec fn view(&self) -> TrackFragmentBoxModel {
        TrackFragmentBoxModel {
            tfhd: self.tfhd@,
            trun: views(self.trun@),
            sbgp: views(self.sbgp@),
            sgpd: views(self.sgpd@),
            subs: views(self.subs@),
            saiz: views(self.saiz@),
            saio: views(self.saio@),
            tfdt: opt_view(self.tfdt),
            meta: opt_view(self.meta),
            udta: opt_view(self.udta),
        }
    }
}

/// Whether a box found in a traf has one of the types that it reads.
pub open spec fn traf_known(c: UnknownBoxModel) -> bool {
    is_child::<TrackFragmentHeaderBox>(c) || is_child::<TrackRunBox>(c) || is_child::<SampleToGroupBox>(c) || is_child::<SampleGroupDescriptionBox>(c) || is_child::<SubSampleInformationBox>(c) || is_child::<SampleAuxiliaryInformationSizesBox>(c) || is_child::<SampleAuxiliaryInformationOffsetsBox>(c) || is_child::<TrackFragmentBaseMediaDecodeTimeBox>(c) || is_child::<MetaBox>(c) || is_child::<UserDataBox>(c)
}

/// The failure of reading a box of a known type found in a traf.
pub open spec fn traf_fault(c: UnknownBoxModel) -> Option<IsoError> {
    if is_child::<TrackFragmentHeaderBox>(c) {
        child_fault::<TrackFragmentHeaderBox>(c)
    }     else if is_child::<TrackRunBox>(c) {
        child_fault::<TrackRunBox>(c)
    }     else if is_child::<SampleToGroupBox>(c) {
        child_fault::<SampleToGroupBox>(c)
    }     else if is_child::<SampleGroupDescriptionBox>(c) {
        child_fault::<SampleGroupDescriptionBox>(c)
    }     else if is_child::<SubSampleInformationBox>(c) {
        child_fault::<SubSampleInformationBox>(c)
    }     else if is_child::<SampleAuxiliaryInformationSizesBox>(c) {
        child_fault::<SampleAuxiliaryInformationSizesBox>(c)
    }     else if is_child::<SampleAuxiliaryInformationOffsetsBox>(c) {
        child_fault::<SampleAuxiliaryInformationOffsetsBox>(c)
    }     else if is_child::<TrackFragmentBaseMediaDecodeTimeBox>(c) {
        child_fault::<TrackFragmentBaseMediaDecodeTimeBox>(c)
    }     else if is_child::<MetaBox>(c) {
        child_fault::<MetaBox>(c)
    }     else if is_child::<UserDataBox>(c) {
        child_fault::<UserDataBox>(c)
    } else {
        None
    }
}

/// What a traf reads from its payload: the boxes before the first that fails, each box of a known type in its field (the
/// last one for a single field, which must be there where it is required) and every
/// other box kept as it is.
pub open spec fn traf_parse(s: Seq<u8>) -> Result<TrackFragmentBoxModel, IsoError> {
    let cs = spec_children(s);
    match scan_result(cs, |c: UnknownBoxModel| traf_fault(c)) {
        Err(e) => Err(e),
        Ok(k) => {
            let p = cs.take(k as int);
            match last_child::<TrackFragmentHeaderBox>(p) {
                None => Err(IsoError::InvalidData),
                Some(tfhd) => Ok(
                    TrackFragmentBoxModel {
                        tfhd: tfhd,
                        trun: collect_children::<TrackRunBox>(p),
                        sbgp: collect_children::<SampleToGroupBox>(p),
                        sgpd: collect_children::<SampleGroupDescriptionBox>(p),
                        subs: collect_children::<SubSampleInformationBox>(p),
                        saiz: collect_children::<SampleAuxiliaryInformationSizesBox>(p),
                        saio: collect_children::<SampleAuxiliaryInformationOffsetsBox>(p),
                        tfdt: last_child::<TrackFragmentBaseMediaDecodeTimeBox>(p),
                        meta: last_child::<MetaBox>(p),
                        udta: last_child::<UserDataBox>(p),
                    },
                ),
            }
        },
    }
}

/// The bytes of the boxes that a traf holds, in the order of its fields.
pub open spec fn traf_children_bytes(v: TrackFragmentBoxModel) -> Seq<u8> {
    nested_box_bytes::<TrackFragmentHeaderBox>(v.tfhd)
        + nested_bytes::<TrackRunBox>(v.trun)
        + nested_bytes::<SampleToGroupBox>(v.sbgp)
        + nested_bytes::<SampleGroupDescriptionBox>(v.sgpd)
        + nested_bytes::<SubSampleInformationBox>(v.subs)
        + nested_bytes::<SampleAuxiliaryInformationSizesBox>(v.saiz)
        + nested_bytes::<SampleAuxiliaryInformationOffsetsBox>(v.saio)
        + nested_opt_bytes::<TrackFragmentBaseMediaDecodeTimeBox>(v.tfdt)
        + nested_opt_bytes::<MetaBox>(v.meta)
        + nested_opt_bytes::<UserDataBox>(v.udta)
}

/// The boxes, as found in a container, that a traf writes.
pub open spec fn traf_models(v: TrackFragmentBoxModel) -> Seq<UnknownBoxModel> {
    seq![nested_model::<TrackFragmentHeaderBox>(v.tfhd)]
        + nested_models::<TrackRunBox>(v.trun)
        + nested_models::<SampleToGroupBox>(v.sbgp)
        + nested_models::<SampleGroupDescriptionBox>(v.sgpd)
        + nested_models::<SubSampleInformationBox>(v.subs)
        + nested_models::<SampleAuxiliaryInformationSizesBox>(v.saiz)
        + nested_models::<SampleAuxiliaryInformationOffsetsBox>(v.saio)
        + nested_opt_models::<TrackFragmentBaseMediaDecodeTimeBox>(v.tfdt)
        + nested_opt_models::<MetaBox>(v.meta)
        + nested_opt_models::<UserDataBox>(v.udta)
}

/// The payload that a traf writes.
pub open spec fn traf_bytes(v: TrackFragmentBoxModel) -> Seq<u8> {
    traf_children_bytes(v)
}

/// Every box of a known type can be written.
pub open spec fn traf_writable(v: TrackFragmentBoxModel) -> bool {
    &&& nested_writable::<TrackFragmentHeaderBox>(v.tfhd)
    &&& nested_all_writable::<TrackRunBox>(v.trun)
    &&& nested_all_writable::<SampleToGroupBox>(v.sbgp)
    &&& nested_all_writable::<SampleGroupDescriptionBox>(v.sgpd)
    &&& nested_all_writable::<SubSampleInformationBox>(v.subs)
    &&& nested_all_writable::<SampleAuxiliaryInformationSizesBox>(v.saiz)
    &&& nested_all_writable::<SampleAuxiliaryInformationOffsetsBox>(v.saio)
    &&& nested_opt_writable::<TrackFragmentBaseMediaDecodeTimeBox>(v.tfdt)
    &&& nested_opt_writable::<MetaBox>(v.meta)
    &&& nested_opt_writable::<UserDataBox>(v.udta)
}

/// Every box of a known type reads back as itself, and every other box is of
/// another type and announces exactly its payload.
pub open spec fn traf_canonical(v: TrackFragmentBoxModel) -> bool {
    &&& nested_ok::<TrackFragmentHeaderBox>(v.tfhd)
    &&& nested_all_ok::<TrackRunBox>(v.trun)
    &&& nested_all_ok::<SampleToGroupBox>(v.sbgp)
    &&& nested_all_ok::<SampleGroupDescriptionBox>(v.sgpd)
    &&& nested_all_ok::<SubSampleInformationBox>(v.subs)
    &&& nested_all_ok::<SampleAuxiliaryInformationSizesBox>(v.saiz)
    &&& nested_all_ok::<SampleAuxiliaryInformationOffsetsBox>(v.saio)
    &&& nested_opt_ok::<TrackFragmentBaseMediaDecodeTimeBox>(v.tfdt)
    &&& nested_opt_ok::<MetaBox>(v.meta)
    &&& nested_opt_ok::<UserDataBox>(v.udta)
}

impl IsoSized for TrackFragmentBox {
    open spec fn spec_size(&self) -> nat {
        add_header_size(self.tfhd.spec_size() + nested_sizes::<TrackRunBox>(self.trun@) + nested_sizes::<SampleToGroupBox>(self.sbgp@) + nested_sizes::<SampleGroupDescriptionBox>(self.sgpd@) + nested_sizes::<SubSampleInformationBox>(self.subs@) + nested_sizes::<SampleAuxiliaryInformationSizesBox>(self.saiz@) + nested_sizes::<SampleAuxiliaryInformationOffsetsBox>(self.saio@) + nested_opt_size::<TrackFragmentBaseMediaDecodeTimeBox>(self.tfdt) + nested_opt_size::<MetaBox>(self.meta) + nested_opt_size::<UserDataBox>(self.udta))
    }

    fn size(&self) -> (n: usize) {
        let mut n: usize = 0;
        n = n + self.tfhd.size();
        n = n + size_nested_vec(&self.trun);
        n = n + size_nested_vec(&self.sbgp);
        n = n + size_nested_vec(&self.sgpd);
        n = n + size_nested_vec(&self.subs);
        n = n + size_nested_vec(&self.saiz);
        n = n + size_nested_vec(&self.saio);
        n = n + size_nested_opt(&self.tfdt);
        n = n + size_nested_opt(&self.meta);
        n = n + size_nested_opt(&self.udta);
        add_header_size_exec(n)
    }
}

/// The fields of a traf read so far.
pub struct TrackFragmentBoxScan {
    pub tfhd: Option<TrackFragmentHeaderBox>,
    pub trun: Vec<TrackRunBox>,
    pub sbgp: Vec<SampleToGroupBox>,
    pub sgpd: Vec<SampleGroupDescriptionBox>,
    pub subs: Vec<SubSampleInformationBox>,
    pub saiz: Vec<SampleAuxiliaryInformationSizesBox>,
    pub saio: Vec<SampleAuxiliaryInformationOffsetsBox>,
    pub tfdt: Option<TrackFragmentBaseMediaDecodeTimeBox>,
    pub meta: Option<MetaBox>,
    pub udta: Option<UserDataBox>,
}

/// The model of a [`TrackFragmentBoxScan`].
pub struct TrackFragmentBoxScanModel {
    pub tfhd: Option<<TrackFragmentHeaderBox as View>::V>,
    pub trun: Seq<<TrackRunBox as View>::V>,
    pub sbgp: Seq<<SampleToGroupBox as View>::V>,
    pub sgpd: Seq<<SampleGroupDescriptionBox as View>::V>,
    pub subs: Seq<<SubSampleInformationBox as View>::V>,
    pub saiz: Seq<<SampleAuxiliaryInformationSizesBox as View>::V>,
    pub saio: Seq<<SampleAuxiliaryInformationOffsetsBox as View>::V>,
    pub tfdt: Option<<TrackFragmentBaseMediaDecodeTimeBox as View>::V>,
    pub meta: Option<<MetaBox as View>::V>,
    pub udta: Option<<UserDataBox as View>::V>,
}

impl View for TrackFragmentBoxScan {
    type V = TrackFragmentBoxScanModel;

    open spec fn view(&self) -> TrackFragmentBoxScanModel {
        TrackFragmentBoxScanModel {
            tfhd: opt_view(self.tfhd),
            trun: views(self.trun@),
            sbgp: views(self.sbgp@),
            sgpd: views(self.sgpd@),
            subs: views(self.subs@),
            saiz: views(self.saiz@),
            saio: views(self.saio@),
            tfdt: opt_view(self.tfdt),
            meta: opt_view(self.meta),
            udta: opt_view(self.udta),
        }
    }
}

/// What a traf holds after reading the boxes of `p`.
pub open spec fn traf_prefix(p: Seq<UnknownBoxModel>) -> TrackFragmentBoxScanModel {
    TrackFragmentBoxScanModel {
        tfhd: last_child::<TrackFragmentHeaderBox>(p),
        trun: collect_children::<TrackRunBox>(p),
        sbgp: collect_children::<SampleToGroupBox>(p),
        sgpd: collect_children::<SampleGroupDescriptionBox>(p),
        subs: collect_children::<SubSampleInformationBox>(p),
        saiz: collect_children::<SampleAuxiliaryInformationSizesBox>(p),
        saio: collect_children::<SampleAuxiliaryInformationOffsetsBox>(p),
        tfdt: last_child::<TrackFragmentBaseMediaDecodeTimeBox>(p),
        meta: last_child::<MetaBox>(p),
        udta: last_child::<UserDataBox>(p),
    }
}

/// What a traf holds after reading one more box that does not fail.
pub open spec fn traf_extend(m: TrackFragmentBoxScanModel, c: UnknownBoxModel) -> TrackFragmentBoxScanModel {
    TrackFragmentBoxScanModel {
        tfhd: match child_value::<TrackFragmentHeaderBox>(c) {
            Some(v) => Some(v),
            None => m.tfhd,
        },
        trun: m.trun + opt_seq(child_value::<TrackRunBox>(c)),
        sbgp: m.sbgp + opt_seq(child_value::<SampleToGroupBox>(c)),
        sgpd: m.sgpd + opt_seq(child_value::<SampleGroupDescriptionBox>(c)),
        subs: m.subs + opt_seq(child_value::<SubSampleInformationBox>(c)),
        saiz: m.saiz + opt_seq(child_value::<SampleAuxiliaryInformationSizesBox>(c)),
        saio: m.saio + opt_seq(child_value::<SampleAuxiliaryInformationOffsetsBox>(c)),
        tfdt: match child_value::<TrackFragmentBaseMediaDecodeTimeBox>(c) {
            Some(v) => Some(v),
            None => m.tfdt,
        },
        meta: match child_value::<MetaBox>(c) {
            Some(v) => Some(v),
            None => m.meta,
        },
        udta: match child_value::<UserDataBox>(c) {
            Some(v) => Some(v),
            None => m.udta,
        },
    }
}

/// The types that a traf reads differ from one another.
pub open spec fn traf_types_differ() -> bool {
    &&& TrackFragmentHeaderBox::spec_box_type() != TrackRunBox::spec_box_type()
    &&& TrackFragmentHeaderBox::spec_box_type() != SampleToGroupBox::spec_box_type()
    &&& TrackFragmentHeaderBox::spec_box_type() != SampleGroupDescriptionBox::spec_box_type()
    &&& TrackFragmentHeaderBox::spec_box_type() != SubSampleInformationBox::spec_box_type()
    &&& TrackFragmentHeaderBox::spec_box_type() != SampleAuxiliaryInformationSizesBox::spec_box_type()
    &&& TrackFragmentHeaderBox::spec_box_type() != SampleAuxiliaryInformationOffsetsBox::spec_box_type()
    &&& TrackFragmentHeaderBox::spec_box_type() != TrackFragmentBaseMediaDecodeTimeBox::spec_box_type()
    &&& TrackFragmentHeaderBox::spec_box_type() != MetaBox::spec_box_type()
    &&& TrackFragmentHeaderBox::spec_box_type() != UserDataBox::spec_box_type()
    &&& TrackRunBox::spec_box_type() != SampleToGroupBox::spec_box_type()
    &&& TrackRunBox::spec_box_type() != SampleGroupDescriptionBox::spec_box_type()
    &&& TrackRunBox::spec_box_type() != SubSampleInformationBox::spec_box_type()
    &&& TrackRunBox::spec_box_type() != SampleAuxiliaryInformationSizesBox::spec_box_type()
    &&& TrackRunBox::spec_box_type() != SampleAuxiliaryInformationOffsetsBox::spec_box_type()
    &&& TrackRunBox::spec_box_type() != TrackFragmentBaseMediaDecodeTimeBox::spec_box_type()
    &&& TrackRunBox::spec_box_type() != MetaBox::spec_box_type()
    &&& TrackRunBox::spec_box_type() != UserDataBox::spec_box_type()
    &&& SampleToGroupBox::spec_box_type() != SampleGroupDescriptionBox::spec_box_type()
    &&& SampleToGroupBox::spec_box_type() != SubSampleInformationBox::spec_box_type()
    &&& SampleToGroupBox::spec_box_type() != SampleAuxiliaryInformationSizesBox::spec_box_type()
    &&& SampleToGroupBox::spec_box_type() != SampleAuxiliaryInformationOffsetsBox::spec_box_type()
    &&& SampleToGroupBox::spec_box_type() != TrackFragmentBaseMediaDecodeTimeBox::spec_box_type()
    &&& SampleToGroupBox::spec_box_type() != MetaBox::spec_box_type()
    &&& SampleToGroupBox::spec_box_type() != UserDataBox::spec_box_type()
    &&& SampleGroupDescriptionBox::spec_box_type() != SubSampleInformationBox::spec_box_type()
    &&& SampleGroupDescriptionBox::spec_box_type() != SampleAuxiliaryInformationSizesBox::spec_box_type()
    &&& SampleGroupDescriptionBox::spec_box_type() != SampleAuxiliaryInformationOffsetsBox::spec_box_type()
    &&& SampleGroupDescriptionBox::spec_box_type() != TrackFragmentBaseMediaDecodeTimeBox::spec_box_type()
    &&& SampleGroupDescriptionBox::spec_box_type() != MetaBox::spec_box_type()
    &&& SampleGroupDescriptionBox::spec_box_type() != UserDataBox::spec_box_type()
    &&& SubSampleInformationBox::spec_box_type() != SampleAuxiliaryInformationSizesBox::spec_box_type()
    &&& SubSampleInformationBox::spec_box_type() != SampleAuxiliaryInformationOffsetsBox::spec_box_type()
    &&& SubSampleInformationBox::spec_box_type() != TrackFragmentBaseMediaDecodeTimeBox::spec_box_type()
    &&& SubSampleInformationBox::spec_box_type() != MetaBox::spec_box_type()
    &&& SubSampleInformationBox::spec_box_type() != UserDataBox::spec_box_type()
    &&& SampleAuxiliaryInformationSizesBox::spec_box_type() != SampleAuxiliaryInformationOffsetsBox::spec_box_type()
    &&& SampleAuxiliaryInformationSizesBox::spec_box_type() != TrackFragmentBaseMediaDecodeTimeBox::spec_box_type()
    &&& SampleAuxiliaryInformationSizesBox::spec_box_type() != MetaBox::spec_box_type()
    &&& SampleAuxiliaryInformationSizesBox::spec_box_type() != UserDataBox::spec_box_type()
    &&& SampleAuxiliaryInformationOffsetsBox::spec_box_type() != TrackFragmentBaseMediaDecodeTimeBox::spec_box_type()
    &&& SampleAuxiliaryInformationOffsetsBox::spec_box_type() != MetaBox::spec_box_type()
    &&& SampleAuxiliaryInformationOffsetsBox::spec_box_type() != UserDataBox::spec_box_type()
    &&& TrackFragmentBaseMediaDecodeTimeBox::spec_box_type() != MetaBox::spec_box_type()
    &&& TrackFragmentBaseMediaDecodeTimeBox::spec_box_type() != UserDataBox::spec_box_type()
    &&& MetaBox::spec_box_type() != UserDataBox::spec_box_type()
}

proof fn lemma_traf_types()
    ensures
        traf_types_differ(),
{
    assert(TrackFragmentHeaderBox::spec_box_type()[1] != TrackRunBox::spec_box_type()[1]);
    assert(TrackFragmentHeaderBox::spec_box_type()[0] != SampleToGroupBox::spec_box_type()[0]);
    assert(TrackFragmentHeaderBox::spec_box_type()[0] != SampleGroupDescriptionBox::spec_box_type()[0]);
    assert(TrackFragmentHeaderBox::spec_box_type()[0] != SubSampleInformationBox::spec_box_type()[0]);
    assert(TrackFragmentHeaderBox::spec_box_type()[0] != SampleAuxiliaryInformationSizesBox::spec_box_type()[0]);
    assert(TrackFragmentHeaderBox::spec_box_type()[0] != SampleAuxiliaryInformationOffsetsBox::spec_box_type()[0]);
    assert(TrackFragmentHeaderBox::spec_box_type()[2] != TrackFragmentBaseMediaDecodeTimeBox::spec_box_type()[2]);
    assert(TrackFragmentHeaderBox::spec_box_type()[0] != MetaBox::spec_box_type()[0]);
    assert(TrackFragmentHeaderBox::spec_box_type()[0] != UserDataBox::spec_box_type()[0]);
    assert(TrackRunBox::spec_box_type()[0] != SampleToGroupBox::spec_box_type()[0]);
    assert(TrackRunBox::spec_box_type()[0] != SampleGroupDescriptionBox::spec_box_type()[0]);
    assert(TrackRunBox::spec_box_type()[0] != SubSampleInformationBox::spec_box_type()[0]);
    assert(TrackRunBox::spec_box_type()[0] != SampleAuxiliaryInformationSizesBox::spec_box_type()[0]);
    assert(TrackRunBox::spec_box_type()[0] != SampleAuxiliaryInformationOffsetsBox::spec_box_type()[0]);
    assert(TrackRunBox::spec_box_type()[1] != TrackFragmentBaseMediaDecodeTimeBox::spec_box_type()[1]);
    assert(TrackRunBox::spec_box_type()[0] != MetaBox::spec_box_type()[0]);
    assert(TrackRunBox::spec_box_type()[0] != UserDataBox::spec_box_type()[0]);
    assert(SampleToGroupBox::spec_box_type()[1] != SampleGroupDescriptionBox::spec_box_type()[1]);
    assert(SampleToGroupBox::spec_box_type()[1] != SubSampleInformationBox::spec_box_type()[1]);
    assert(SampleToGroupBox::spec_box_type()[1] != SampleAuxiliaryInformationSizesBox::spec_box_type()[1]);
    assert(SampleToGroupBox::spec_box_type()[1] != SampleAuxiliaryInformationOffsetsBox::spec_box_type()[1]);
    assert(SampleToGroupBox::spec_box_type()[0] != TrackFragmentBaseMediaDecodeTimeBox::spec_box_type()[0]);
    assert(SampleToGroupBox::spec_box_type()[0] != MetaBox::spec_box_type()[0]);
    assert(SampleToGroupBox::spec_box_type()[0] != UserDataBox::spec_box_type()[0]);
    assert(SampleGroupDescriptionBox::spec_box_type()[1] != SubSampleInformationBox::spec_box_type()[1]);
    assert(SampleGroupDescriptionBox::spec_box_type()[1] != SampleAuxiliaryInformationSizesBox::spec_box_type()[1]);
    assert(SampleGroupDescriptionBox::spec_box_type()[1] != SampleAuxiliaryInformationOffsetsBox::spec_box_type()[1]);
    assert(SampleGroupDescriptionBox::spec_box_type()[0] != TrackFragmentBaseMediaDecodeTimeBox::spec_box_type()[0]);
    assert(SampleGroupDescriptionBox::spec_box_type()[0] != MetaBox::spec_box_type()[0]);
    assert(SampleGroupDescriptionBox::spec_box_type()[0] != UserDataBox::spec_box_type()[0]);
    assert(SubSampleInformationBox::spec_box_type()[1] != SampleAuxiliaryInformationSizesBox::spec_box_type()[1]);
    assert(SubSampleInformationBox::spec_box_type()[1] != SampleAuxiliaryInformationOffsetsBox::spec_box_type()[1]);
    assert(SubSampleInformationBox::spec_box_type()[0] != TrackFragmentBaseMediaDecodeTimeBox::spec_box_type()[0]);
    assert(SubSampleInformationBox::spec_box_type()[0] != MetaBox::spec_box_type()[0]);
    assert(SubSampleInformationBox::spec_box_type()[0] != UserDataBox::spec_box_type()[0]);
    assert(SampleAuxiliaryInformationSizesBox::spec_box_type()[3] != SampleAuxiliaryInformationOffsetsBox::spec_box_type()[3]);
    assert(SampleAuxiliaryInformationSizesBox::spec_box_type()[0] != TrackFragmentBaseMediaDecodeTimeBox::spec_box_type()[0]);
    assert(SampleAuxiliaryInformationSizesBox::spec_box_type()[0] != MetaBox::spec_box_type()[0]);
    assert(SampleAuxiliaryInformationSizesBox::spec_box_type()[0] != UserDataBox::spec_box_type()[0]);
    assert(SampleAuxiliaryInformationOffsetsBox::spec_box_type()[0] != TrackFragmentBaseMediaDecodeTimeBox::spec_box_type()[0]);
    assert(SampleAuxiliaryInformationOffsetsBox::spec_box_type()[0] != MetaBox::spec_box_type()[0]);
    assert(SampleAuxiliaryInformationOffsetsBox::spec_box_type()[0] != UserDataBox::spec_box_type()[0]);
    assert(TrackFragmentBaseMediaDecodeTimeBox::spec_box_type()[0] != MetaBox::spec_box_type()[0]);
    assert(TrackFragmentBaseMediaDecodeTimeBox::spec_box_type()[0] != UserDataBox::spec_box_type()[0]);
    assert(MetaBox::spec_box_type()[0] != UserDataBox::spec_box_type()[0]);
}

/// Reads one box found in a traf into its field.
#[verifier::spinoff_prover]
#[verifier::rlimit(100)]
fn traf_step(c: &UnknownBox, acc: &mut TrackFragmentBoxScan) -> (r: Result<(), IsoError>)
    requires
        traf_types_differ(),
    ensures
        match r {
            Ok(()) => traf_fault(c@) is None && final(acc)@ == traf_extend(old(acc)@, c@),
            Err(e) => traf_fault(c@) == Some(e) && final(acc)@ == old(acc)@,
        },
{
    if is_child_exec::<TrackFragmentHeaderBox>(c) {
        proof {
            lemma_child_other::<TrackRunBox>(c@);
            lemma_child_other::<SampleToGroupBox>(c@);
            lemma_child_other::<SampleGroupDescriptionBox>(c@);
            lemma_child_other::<SubSampleInformationBox>(c@);
            lemma_child_other::<SampleAuxiliaryInformationSizesBox>(c@);
            lemma_child_other::<SampleAuxiliaryInformationOffsetsBox>(c@);
            lemma_child_other::<TrackFragmentBaseMediaDecodeTimeBox>(c@);
            lemma_child_other::<MetaBox>(c@);
            lemma_child_other::<UserDataBox>(c@);
            lemma_child_read::<TrackFragmentHeaderBox>(c@);
        }
        let r = replace_into(c, &mut acc.tfhd);
        proof {
            if r is Err {
                assert(acc@ =~= old(acc)@);
            }
            if r is Ok {
                assert(opt_seq(child_value::<TrackRunBox>(c@)) =~= Seq::<<TrackRunBox as View>::V>::empty());
                assert(opt_seq(child_value::<SampleToGroupBox>(c@)) =~= Seq::<<SampleToGroupBox as View>::V>::empty());
                assert(opt_seq(child_value::<SampleGroupDescriptionBox>(c@)) =~= Seq::<<SampleGroupDescriptionBox as View>::V>::empty());
                assert(opt_seq(child_value::<SubSampleInformationBox>(c@)) =~= Seq::<<SubSampleInformationBox as View>::V>::empty());
                assert(opt_seq(child_value::<SampleAuxiliaryInformationSizesBox>(c@)) =~= Seq::<<SampleAuxiliaryInformationSizesBox as View>::V>::empty());
                assert(opt_seq(child_value::<SampleAuxiliaryInformationOffsetsBox>(c@)) =~= Seq::<<SampleAuxiliaryInformationOffsetsBox as View>::V>::empty());
                assert(acc@ =~= traf_extend(old(acc)@, c@));
            }
        }
        r
    } else if is_child_exec::<TrackRunBox>(c) {
        proof {
            lemma_child_other::<TrackFragmentHeaderBox>(c@);
            lemma_child_other::<SampleToGroupBox>(c@);
            lemma_child_other::<SampleGroupDescriptionBox>(c@);
            lemma_child_other::<SubSampleInformationBox>(c@);
            lemma_child_other::<SampleAuxiliaryInformationSizesBox>(c@);
            lemma_child_other::<SampleAuxiliaryInformationOffsetsBox>(c@);
            lemma_child_other::<TrackFragmentBaseMediaDecodeTimeBox>(c@);
            lemma_child_other::<MetaBox>(c@);
            lemma_child_other::<UserDataBox>(c@);
            lemma_child_read::<TrackRunBox>(c@);
        }
        let ghost old_v = views(acc.trun@);
        let r = collect_into(c, &mut acc.trun);
        proof {
            if r is Err {
                assert(acc@ =~= old(acc)@);
            }
            if r is Ok {
                assert(views(acc.trun@) =~= old_v + opt_seq(child_value::<TrackRunBox>(c@)));
                assert(opt_seq(child_value::<SampleToGroupBox>(c@)) =~= Seq::<<SampleToGroupBox as View>::V>::empty());
                assert(opt_seq(child_value::<SampleGroupDescriptionBox>(c@)) =~= Seq::<<SampleGroupDescriptionBox as View>::V>::empty());
                assert(opt_seq(child_value::<SubSampleInformationBox>(c@)) =~= Seq::<<SubSampleInformationBox as View>::V>::empty());
                assert(opt_seq(child_value::<SampleAuxiliaryInformationSizesBox>(c@)) =~= Seq::<<SampleAuxiliaryInformationSizesBox as View>::V>::empty());
                assert(opt_seq(child_value::<SampleAuxiliaryInformationOffsetsBox>(c@)) =~= Seq::<<SampleAuxiliaryInformationOffsetsBox as View>::V>::empty());
                assert(acc@ =~= traf_extend(old(acc)@, c@));
            }
        }
        r
    } else if is_child_exec::<SampleToGroupBox>(c) {
        proof {
            lemma_child_other::<TrackFragmentHeaderBox>(c@);
            lemma_child_other::<TrackRunBox>(c@);
            lemma_child_other::<SampleGroupDescriptionBox>(c@);
            lemma_child_other::<SubSampleInformationBox>(c@);
            lemma_child_other::<SampleAuxiliaryInformationSizesBox>(c@);
            lemma_child_other::<SampleAuxiliaryInformationOffsetsBox>(c@);
            lemma_child_other::<TrackFragmentBaseMediaDecodeTimeBox>(c@);
            lemma_child_other::<MetaBox>(c@);
            lemma_child_other::<UserDataBox>(c@);
            lemma_child_read::<SampleToGroupBox>(c@);
        }
        let ghost old_v = views(acc.sbgp@);
        let r = collect_into(c, &mut acc.sbgp);
        proof {
            if r is Err {
                assert(acc@ =~= old(acc)@);
            }
            if r is Ok {
                assert(views(acc.sbgp@) =~= old_v + opt_seq(child_value::<SampleToGroupBox>(c@)));
                assert(opt_seq(child_value::<TrackRunBox>(c@)) =~= Seq::<<TrackRunBox as View>::V>::empty());
                assert(opt_seq(child_value::<SampleGroupDescriptionBox>(c@)) =~= Seq::<<SampleGroupDescriptionBox as View>::V>::empty());
                assert(opt_seq(child_value::<SubSampleInformationBox>(c@)) =~= Seq::<<SubSampleInformationBox as View>::V>::empty());
                assert(opt_seq(child_value::<SampleAuxiliaryInformationSizesBox>(c@)) =~= Seq::<<SampleAuxiliaryInformationSizesBox as View>::V>::empty());
                assert(opt_seq(child_value::<SampleAuxiliaryInformationOffsetsBox>(c@)) =~= Seq::<<SampleAuxiliaryInformationOffsetsBox as View>::V>::empty());
                assert(acc@ =~= traf_extend(old(acc)@, c@));
            }
        }
        r
    } else if is_child_exec::<SampleGroupDescriptionBox>(c) {
        proof {
            lemma_child_other::<TrackFragmentHeaderBox>(c@);
            lemma_child_other::<TrackRunBox>(c@);
            lemma_child_other::<SampleToGroupBox>(c@);
            lemma_child_other::<SubSampleInformationBox>(c@);
            lemma_child_other::<SampleAuxiliaryInformationSizesBox>(c@);
            lemma_child_other::<SampleAuxiliaryInformationOffsetsBox>(c@);
            lemma_child_other::<TrackFragmentBaseMediaDecodeTimeBox>(c@);
            lemma_child_other::<MetaBox>(c@);
            lemma_child_other::<UserDataBox>(c@);
            lemma_child_read::<SampleGroupDescriptionBox>(c@);
        }
        let ghost old_v = views(acc.sgpd@);
        let r = collect_into(c, &mut acc.sgpd);
        proof {
            if r is Err {
                assert(acc@ =~= old(acc)@);
            }
            if r is Ok {
                assert(views(acc.sgpd@) =~= old_v + opt_seq(child_value::<SampleGroupDescriptionBox>(c@)));
                assert(opt_seq(child_value::<TrackRunBox>(c@)) =~= Seq::<<TrackRunBox as View>::V>::empty());
                assert(opt_seq(child_value::<SampleToGroupBox>(c@)) =~= Seq::<<SampleToGroupBox as View>::V>::empty());
                assert(opt_seq(child_value::<SubSampleInformationBox>(c@)) =~= Seq::<<SubSampleInformationBox as View>::V>::empty());
                assert(opt_seq(child_value::<SampleAuxiliaryInformationSizesBox>(c@)) =~= Seq::<<SampleAuxiliaryInformationSizesBox as View>::V>::empty());
                assert(opt_seq(child_value::<SampleAuxiliaryInformationOffsetsBox>(c@)) =~= Seq::<<SampleAuxiliaryInformationOffsetsBox as View>::V>::empty());
                assert(acc@ =~= traf_extend(old(acc)@, c@));
            }
        }
        r
    } else if is_child_exec::<SubSampleInformationBox>(c) {
        proof {
            lemma_child_other::<TrackFragmentHeaderBox>(c@);
            lemma_child_other::<TrackRunBox>(c@);
            lemma_child_other::<SampleToGroupBox>(c@);
            lemma_child_other::<SampleGroupDescriptionBox>(c@);
            lemma_child_other::<SampleAuxiliaryInformationSizesBox>(c@);
            lemma_child_other::<SampleAuxiliaryInformationOffsetsBox>(c@);
            lemma_child_other::<TrackFragmentBaseMediaDecodeTimeBox>(c@);
            lemma_child_other::<MetaBox>(c@);
            lemma_child_other::<UserDataBox>(c@);
            lemma_child_read::<SubSampleInformationBox>(c@);
        }
        let ghost old_v = views(acc.subs@);
        let r = collect_into(c, &mut acc.subs);
        proof {
            if r is Err {
                assert(acc@ =~= old(acc)@);
            }
            if r is Ok {
                assert(views(acc.subs@) =~= old_v + opt_seq(child_value::<SubSampleInformationBox>(c@)));
                assert(opt_seq(child_value::<TrackRunBox>(c@)) =~= Seq::<<TrackRunBox as View>::V>::empty());
                assert(opt_seq(child_value::<SampleToGroupBox>(c@)) =~= Seq::<<SampleToGroupBox as View>::V>::empty());
                assert(opt_seq(child_value::<SampleGroupDescriptionBox>(c@)) =~= Seq::<<SampleGroupDescriptionBox as View>::V>::empty());
                assert(opt_seq(child_value::<SampleAuxiliaryInformationSizesBox>(c@)) =~= Seq::<<SampleAuxiliaryInformationSizesBox as View>::V>::empty());
                assert(opt_seq(child_value::<SampleAuxiliaryInformationOffsetsBox>(c@)) =~= Seq::<<SampleAuxiliaryInformationOffsetsBox as View>::V>::empty());
                assert(acc@ =~= traf_extend(old(acc)@, c@));
            }
        }
        r
    } else if is_child_exec::<SampleAuxiliaryInformationSizesBox>(c) {
        proof {
            lemma_child_other::<TrackFragmentHeaderBox>(c@);
            lemma_child_other::<TrackRunBox>(c@);
            lemma_child_other::<SampleToGroupBox>(c@);
            lemma_child_other::<SampleGroupDescriptionBox>(c@);
            lemma_child_other::<SubSampleInformationBox>(c@);
            lemma_child_other::<SampleAuxiliaryInformationOffsetsBox>(c@);
            lemma_child_other::<TrackFragmentBaseMediaDecodeTimeBox>(c@);
            lemma_child_other::<MetaBox>(c@);
            lemma_child_other::<UserDataBox>(c@);
            lemma_child_read::<SampleAuxiliaryInformationSizesBox>(c@);
        }
        let ghost old_v = views(acc.saiz@);
        let r = collect_into(c, &mut acc.saiz);
        proof {
            if r is Err {
                assert(acc@ =~= old(acc)@);
            }
            if r is Ok {
                assert(views(acc.saiz@) =~= old_v + opt_seq(child_value::<SampleAuxiliaryInformationSizesBox>(c@)));
                assert(opt_seq(child_value::<TrackRunBox>(c@)) =~= Seq::<<TrackRunBox as View>::V>::empty());
                assert(opt_seq(child_value::<SampleToGroupBox>(c@)) =~= Seq::<<SampleToGroupBox as View>::V>::empty());
                assert(opt_seq(child_value::<SampleGroupDescriptionBox>(c@)) =~= Seq::<<SampleGroupDescriptionBox as View>::V>::empty());
                assert(opt_seq(child_value::<SubSampleInformationBox>(c@)) =~= Seq::<<SubSampleInformationBox as View>::V>::empty());
                assert(opt_seq(child_value::<SampleAuxiliaryInformationOffsetsBox>(c@)) =~= Seq::<<SampleAuxiliaryInformationOffsetsBox as View>::V>::empty());
                assert(acc@ =~= traf_extend(old(acc)@, c@));
            }
        }
        r
    } else if is_child_exec::<SampleAuxiliaryInformationOffsetsBox>(c) {
        proof {
            lemma_child_other::<TrackFragmentHeaderBox>(c@);
            lemma_child_other::<TrackRunBox>(c@);
            lemma_child_other::<SampleToGroupBox>(c@);
            lemma_child_other::<SampleGroupDescriptionBox>(c@);
            lemma_child_other::<SubSampleInformationBox>(c@);
            lemma_child_other::<SampleAuxiliaryInformationSizesBox>(c@);
            lemma_child_other::<TrackFragmentBaseMediaDecodeTimeBox>(c@);
            lemma_child_other::<MetaBox>(c@);
            lemma_child_other::<UserDataBox>(c@);
            lemma_child_read::<SampleAuxiliaryInformationOffsetsBox>(c@);
        }
        let ghost old_v = views(acc.saio@);
        let r = collect_into(c, &mut acc.saio);
        proof {
            if r is Err {
                assert(acc@ =~= old(acc)@);
            }
            if r is Ok {
                assert(views(acc.saio@) =~= old_v + opt_seq(child_value::<SampleAuxiliaryInformationOffsetsBox>(c@)));
                assert(opt_seq(child_value::<TrackRunBox>(c@)) =~= Seq::<<TrackRunBox as View>::V>::empty());
                assert(opt_seq(child_value::<SampleToGroupBox>(c@)) =~= Seq::<<SampleToGroupBox as View>::V>::empty());
                assert(opt_seq(child_value::<SampleGroupDescriptionBox>(c@)) =~= Seq::<<SampleGroupDescriptionBox as View>::V>::empty());
                assert(opt_seq(child_value::<SubSampleInformationBox>(c@)) =~= Seq::<<SubSampleInformationBox as View>::V>::empty());
                assert(opt_seq(child_value::<SampleAuxiliaryInformationSizesBox>(c@)) =~= Seq::<<SampleAuxiliaryInformationSizesBox as View>::V>::empty());
                assert(acc@ =~= traf_extend(old(acc)@, c@));
            }
        }
        r
    } else if is_child_exec::<TrackFragmentBaseMediaDecodeTimeBox>(c) {
        proof {
            lemma_child_other::<TrackFragmentHeaderBox>(c@);
            lemma_child_other::<TrackRunBox>(c@);
            lemma_child_other::<SampleToGroupBox>(c@);
            lemma_child_other::<SampleGroupDescriptionBox>(c@);
            lemma_child_other::<SubSampleInformationBox>(c@);
            lemma_child_other::<SampleAuxiliaryInformationSizesBox>(c@);
            lemma_child_other::<SampleAuxiliaryInformationOffsetsBox>(c@);
            lemma_child_other::<MetaBox>(c@);
            lemma_child_other::<UserDataBox>(c@);
            lemma_child_read::<TrackFragmentBaseMediaDecodeTimeBox>(c@);
        }
        let r = replace_into(c, &mut acc.tfdt);
        proof {
            if r is Err {
                assert(acc@ =~= old(acc)@);
            }
            if r is Ok {
                assert(opt_seq(child_value::<TrackRunBox>(c@)) =~= Seq::<<TrackRunBox as View>::V>::empty());
                assert(opt_seq(child_value::<SampleToGroupBox>(c@)) =~= Seq::<<SampleToGroupBox as View>::V>::empty());
                assert(opt_seq(child_value::<SampleGroupDescriptionBox>(c@)) =~= Seq::<<SampleGroupDescriptionBox as View>::V>::empty());
                assert(opt_seq(child_value::<SubSampleInformationBox>(c@)) =~= Seq::<<SubSampleInformationBox as View>::V>::empty());
                assert(opt_seq(child_value::<SampleAuxiliaryInformationSizesBox>(c@)) =~= Seq::<<SampleAuxiliaryInformationSizesBox as View>::V>::empty());
                assert(opt_seq(child_value::<SampleAuxiliaryInformationOffsetsBox>(c@)) =~= Seq::<<SampleAuxiliaryInformationOffsetsBox as View>::V>::empty());
                assert(acc@ =~= traf_extend(old(acc)@, c@));
            }
        }
        r
    } else if is_child_exec::<MetaBox>(c) {
        proof {
            lemma_child_other::<TrackFragmentHeaderBox>(c@);
            lemma_child_other::<TrackRunBox>(c@);
            lemma_child_other::<SampleToGroupBox>(c@);
            lemma_child_other::<SampleGroupDescriptionBox>(c@);
            lemma_child_other::<SubSampleInformationBox>(c@);
            lemma_child_other::<SampleAuxiliaryInformationSizesBox>(c@);
            lemma_child_other::<SampleAuxiliaryInformationOffsetsBox>(c@);
            lemma_child_other::<TrackFragmentBaseMediaDecodeTimeBox>(c@);
            lemma_child_other::<UserDataBox>(c@);
            lemma_child_read::<MetaBox>(c@);
        }
        let r = replace_into(c, &mut acc.meta);
        proof {
            if r is Err {
                assert(acc@ =~= old(acc)@);
            }
            if r is Ok {
                assert(opt_seq(child_value::<TrackRunBox>(c@)) =~= Seq::<<TrackRunBox as View>::V>::empty());
                assert(opt_seq(child_value::<SampleToGroupBox>(c@)) =~= Seq::<<SampleToGroupBox as View>::V>::empty());
                assert(opt_seq(child_value::<SampleGroupDescriptionBox>(c@)) =~= Seq::<<SampleGroupDescriptionBox as View>::V>::empty());
                assert(opt_seq(child_value::<SubSampleInformationBox>(c@)) =~= Seq::<<SubSampleInformationBox as View>::V>::empty());
                assert(opt_seq(child_value::<SampleAuxiliaryInformationSizesBox>(c@)) =~= Seq::<<SampleAuxiliaryInformationSizesBox as View>::V>::empty());
                assert(opt_seq(child_value::<SampleAuxiliaryInformationOffsetsBox>(c@)) =~= Seq::<<SampleAuxiliaryInformationOffsetsBox as View>::V>::empty());
                assert(acc@ =~= traf_extend(old(acc)@, c@));
            }
        }
        r
    } else if is_child_exec::<UserDataBox>(c) {
        proof {
            lemma_child_other::<TrackFragmentHeaderBox>(c@);
            lemma_child_other::<TrackRunBox>(c@);
            lemma_child_other::<SampleToGroupBox>(c@);
            lemma_child_other::<SampleGroupDescriptionBox>(c@);
            lemma_child_other::<SubSampleInformationBox>(c@);
            lemma_child_other::<SampleAuxiliaryInformationSizesBox>(c@);
            lemma_child_other::<SampleAuxiliaryInformationOffsetsBox>(c@);
            lemma_child_other::<TrackFragmentBaseMediaDecodeTimeBox>(c@);
            lemma_child_other::<MetaBox>(c@);
            lemma_child_read::<UserDataBox>(c@);
        }
        let r = replace_into(c, &mut acc.udta);
        proof {
            if r is Err {
                assert(acc@ =~= old(acc)@);
            }
            if r is Ok {
                assert(opt_seq(child_value::<TrackRunBox>(c@)) =~= Seq::<<TrackRunBox as View>::V>::empty());
                assert(opt_seq(child_value::<SampleToGroupBox>(c@)) =~= Seq::<<SampleToGroupBox as View>::V>::empty());
                assert(opt_seq(child_value::<SampleGroupDescriptionBox>(c@)) =~= Seq::<<SampleGroupDescriptionBox as View>::V>::empty());
                assert(opt_seq(child_value::<SubSampleInformationBox>(c@)) =~= Seq::<<SubSampleInformationBox as View>::V>::empty());
                assert(opt_seq(child_value::<SampleAuxiliaryInformationSizesBox>(c@)) =~= Seq::<<SampleAuxiliaryInformationSizesBox as View>::V>::empty());
                assert(opt_seq(child_value::<SampleAuxiliaryInformationOffsetsBox>(c@)) =~= Seq::<<SampleAuxiliaryInformationOffsetsBox as View>::V>::empty());
                assert(acc@ =~= traf_extend(old(acc)@, c@));
            }
        }
        r
    } else {
        proof {
            lemma_child_other::<TrackFragmentHeaderBox>(c@);
            lemma_child_other::<TrackRunBox>(c@);
            lemma_child_other::<SampleToGroupBox>(c@);
            lemma_child_other::<SampleGroupDescriptionBox>(c@);
            lemma_child_other::<SubSampleInformationBox>(c@);
            lemma_child_other::<SampleAuxiliaryInformationSizesBox>(c@);
            lemma_child_other::<SampleAuxiliaryInformationOffsetsBox>(c@);
            lemma_child_other::<TrackFragmentBaseMediaDecodeTimeBox>(c@);
            lemma_child_other::<MetaBox>(c@);
            lemma_child_other::<UserDataBox>(c@);
        }
        proof {
            assert(opt_seq(child_value::<TrackRunBox>(c@)) =~= Seq::<<TrackRunBox as View>::V>::empty());
            assert(opt_seq(child_value::<SampleToGroupBox>(c@)) =~= Seq::<<SampleToGroupBox as View>::V>::empty());
            assert(opt_seq(child_value::<SampleGroupDescriptionBox>(c@)) =~= Seq::<<SampleGroupDescriptionBox as View>::V>::empty());
            assert(opt_seq(child_value::<SubSampleInformationBox>(c@)) =~= Seq::<<SubSampleInformationBox as View>::V>::empty());
            assert(opt_seq(child_value::<SampleAuxiliaryInformationSizesBox>(c@)) =~= Seq::<<SampleAuxiliaryInformationSizesBox as View>::V>::empty());
            assert(opt_seq(child_value::<SampleAuxiliaryInformationOffsetsBox>(c@)) =~= Seq::<<SampleAuxiliaryInformationOffsetsBox as View>::V>::empty());
            assert(acc@ =~= traf_extend(old(acc)@, c@));
        }
        Ok(())
    }
}

/// Reading one more box extends what was read by it.
proof fn lemma_traf_prefix_step(css: Seq<UnknownBoxModel>, i: int)
    requires
        0 <= i < css.len(),
    ensures
        traf_prefix(css.take(i + 1)) == traf_extend(traf_prefix(css.take(i)), css[i]),
{
    lemma_collect_step::<TrackFragmentHeaderBox>(css, i);
    lemma_collect_step::<TrackRunBox>(css, i);
    lemma_collect_step::<SampleToGroupBox>(css, i);
    lemma_collect_step::<SampleGroupDescriptionBox>(css, i);
    lemma_collect_step::<SubSampleInformationBox>(css, i);
    lemma_collect_step::<SampleAuxiliaryInformationSizesBox>(css, i);
    lemma_collect_step::<SampleAuxiliaryInformationOffsetsBox>(css, i);
    lemma_collect_step::<TrackFragmentBaseMediaDecodeTimeBox>(css, i);
    lemma_collect_step::<MetaBox>(css, i);
    lemma_collect_step::<UserDataBox>(css, i);
    lemma_unknown_step(css, |c: UnknownBoxModel| traf_known(c), i);
    let a = traf_prefix(css.take(i + 1));
    let b = traf_extend(traf_prefix(css.take(i)), css[i]);
    assert(a.trun =~= b.trun);
    assert(a.sbgp =~= b.sbgp);
    assert(a.sgpd =~= b.sgpd);
    assert(a.subs =~= b.subs);
    assert(a.saiz =~= b.saiz);
    assert(a.saio =~= b.saio);
}

/// Reads the payload of a traf.
#[verifier::spinoff_prover]
#[verifier::rlimit(60)]
fn parse_traf(payload: &[u8]) -> (r: Result<TrackFragmentBox, IsoError>)
    ensures
        match (traf_parse(payload@), r) {
            (Ok(v), Ok(x)) => x@ == v,
            (Err(e), Err(f)) => e == f,
            _ => false,
        },
{
    let cs = read_children(payload);
    let ghost css = spec_children(payload@);
    let ghost fault = |c: UnknownBoxModel| traf_fault(c);
    let mut acc = TrackFragmentBoxScan {
        tfhd: None,
        trun: Vec::new(),
        sbgp: Vec::new(),
        sgpd: Vec::new(),
        subs: Vec::new(),
        saiz: Vec::new(),
        saio: Vec::new(),
        tfdt: None,
        meta: None,
        udta: None,
    };
    let mut i: usize = 0;
    let mut stop = false;
    proof {
        lemma_traf_types();
        let e = css.take(0);
        assert(e =~= Seq::<UnknownBoxModel>::empty());
        assert(collect_children::<TrackFragmentHeaderBox>(e) =~= Seq::<<TrackFragmentHeaderBox as View>::V>::empty());
        assert(collect_children::<TrackRunBox>(e) =~= Seq::<<TrackRunBox as View>::V>::empty());
        assert(views(acc.trun@) =~= Seq::<<TrackRunBox as View>::V>::empty());
        assert(collect_children::<SampleToGroupBox>(e) =~= Seq::<<SampleToGroupBox as View>::V>::empty());
        assert(views(acc.sbgp@) =~= Seq::<<SampleToGroupBox as View>::V>::empty());
        assert(collect_children::<SampleGroupDescriptionBox>(e) =~= Seq::<<SampleGroupDescriptionBox as View>::V>::empty());
        assert(views(acc.sgpd@) =~= Seq::<<SampleGroupDescriptionBox as View>::V>::empty());
        assert(collect_children::<SubSampleInformationBox>(e) =~= Seq::<<SubSampleInformationBox as View>::V>::empty());
        assert(views(acc.subs@) =~= Seq::<<SubSampleInformationBox as View>::V>::empty());
        assert(collect_children::<SampleAuxiliaryInformationSizesBox>(e) =~= Seq::<<SampleAuxiliaryInformationSizesBox as View>::V>::empty());
        assert(views(acc.saiz@) =~= Seq::<<SampleAuxiliaryInformationSizesBox as View>::V>::empty());
        assert(collect_children::<SampleAuxiliaryInformationOffsetsBox>(e) =~= Seq::<<SampleAuxiliaryInformationOffsetsBox as View>::V>::empty());
        assert(views(acc.saio@) =~= Seq::<<SampleAuxiliaryInformationOffsetsBox as View>::V>::empty());
        assert(collect_children::<TrackFragmentBaseMediaDecodeTimeBox>(e) =~= Seq::<<TrackFragmentBaseMediaDecodeTimeBox as View>::V>::empty());
        assert(collect_children::<MetaBox>(e) =~= Seq::<<MetaBox as View>::V>::empty());
        assert(collect_children::<UserDataBox>(e) =~= Seq::<<UserDataBox as View>::V>::empty());
        assert(acc@ =~= traf_prefix(e));
    }
    while i < cs.len() && !stop
        invariant
            views(cs@) == css,
            css == spec_children(payload@),
            fault == (|c: UnknownBoxModel| traf_fault(c)),
            traf_types_differ(),
            i <= cs@.len(),
            forall|j: int| 0 <= j < i ==> (#[trigger] fault(css[j])) is None,
            stop ==> i < css.len() && fault(css[i as int]) == Some(IsoError::UnexpectedEof),
            acc@ == traf_prefix(css.take(i as int)),
        decreases cs@.len() - i + (if stop { 0int } else { 1int }),
    {
        let c = &cs[i];
        proof {
            assert(c@ == css[i as int]);
            lemma_traf_prefix_step(css, i as int);
        }
        match traf_step(c, &mut acc) {
            Ok(()) => {
                i = i + 1;
            },
            Err(IsoError::UnexpectedEof) => {
                stop = true;
            },
            Err(e) => {
                proof {
                    lemma_first_fault(css, fault, i as int);
                }
                return Err(e);
            },
        }
    }
    proof {
        lemma_first_fault(css, fault, i as int);
        assert(first_fault(css, fault) == i);
    }
    let TrackFragmentBoxScan { tfhd, trun, sbgp, sgpd, subs, saiz, saio, tfdt, meta, udta } = acc;
    let tfhd = match tfhd {
        Some(x) => x,
        None => {
            return Err(IsoError::InvalidData);
        },
    };
    Ok(TrackFragmentBox { tfhd, trun, sbgp, sgpd, subs, saiz, saio, tfdt, meta, udta })
}

/// Writes the boxes of a traf in the order of its fields.
#[verifier::spinoff_prover]
#[verifier::rlimit(60)]
fn write_traf_children(x: &TrackFragmentBox, out: &mut Vec<u8>) -> (r: Result<(), IsoError>)
    requires
        x.spec_size() <= usize::MAX,
    ensures
        write_matches(r, traf_writable(x@), traf_children_bytes(x@), old(out)@, final(out)@),
{
    let ghost before = out@;
    let ghost v = x@;
    if write_nested(&x.tfhd, out).is_err() {
        return Err(IsoError::InvalidData);
    }
    let ghost m1 = out@;
    proof {
        lemma_append_prefix(before, nested_box_bytes::<TrackFragmentHeaderBox>(v.tfhd));
    }
    if write_nested_vec(&x.trun, out).is_err() {
        proof {
            lemma_prefix_trans(before, m1, out@);
        }
        return Err(IsoError::InvalidData);
    }
    let ghost m2 = out@;
    proof {
        lemma_append_prefix(m1, nested_bytes::<TrackRunBox>(v.trun));
        lemma_prefix_trans(before, m1, m2);
    }
    if write_nested_vec(&x.sbgp, out).is_err() {
        proof {
            lemma_prefix_trans(before, m2, out@);
        }
        return Err(IsoError::InvalidData);
    }
    let ghost m3 = out@;
    proof {
        lemma_append_prefix(m2, nested_bytes::<SampleToGroupBox>(v.sbgp));
        lemma_prefix_trans(before, m2, m3);
    }
    if write_nested_vec(&x.sgpd, out).is_err() {
        proof {
            lemma_prefix_trans(before, m3, out@);
        }
        return Err(IsoError::InvalidData);
    }
    let ghost m4 = out@;
    proof {
        lemma_append_prefix(m3, nested_bytes::<SampleGroupDescriptionBox>(v.sgpd));
        lemma_prefix_trans(before, m3, m4);
    }
    if write_nested_vec(&x.subs, out).is_err() {
        proof {
            lemma_prefix_trans(before, m4, out@);
        }
        return Err(IsoError::InvalidData);
    }
    let ghost m5 = out@;
    proof {
        lemma_append_prefix(m4, nested_bytes::<SubSampleInformationBox>(v.subs));
        lemma_prefix_trans(before, m4, m5);
    }
    if write_nested_vec(&x.saiz, out).is_err() {
        proof {
            lemma_prefix_trans(before, m5, out@);
        }
        return Err(IsoError::InvalidData);
    }
    let ghost m6 = out@;
    proof {
        lemma_append_prefix(m5, nested_bytes::<SampleAuxiliaryInformationSizesBox>(v.saiz));
        lemma_prefix_trans(before, m5, m6);
    }
    if write_nested_vec(&x.saio, out).is_err() {
        proof {
            lemma_prefix_trans(before, m6, out@);
        }
        return Err(IsoError::InvalidData);
    }
    let ghost m7 = out@;
    proof {
        lemma_append_prefix(m6, nested_bytes::<SampleAuxiliaryInformationOffsetsBox>(v.saio));
        lemma_prefix_trans(before, m6, m7);
    }
    if write_nested_opt(&x.tfdt, out).is_err() {
        proof {
            lemma_prefix_trans(before, m7, out@);
        }
        return Err(IsoError::InvalidData);
    }
    let ghost m8 = out@;
    proof {
        lemma_append_prefix(m7, nested_opt_bytes::<TrackFragmentBaseMediaDecodeTimeBox>(v.tfdt));
        lemma_prefix_trans(before, m7, m8);
    }
    if write_nested_opt(&x.meta, out).is_err() {
        proof {
            lemma_prefix_trans(before, m8, out@);
        }
        return Err(IsoError::InvalidData);
    }
    let ghost m9 = out@;
    proof {
        lemma_append_prefix(m8, nested_opt_bytes::<MetaBox>(v.meta));
        lemma_prefix_trans(before, m8, m9);
    }
    if write_nested_opt(&x.udta, out).is_err() {
        proof {
            lemma_prefix_trans(before, m9, out@);
        }
        return Err(IsoError::InvalidData);
    }
    let ghost m10 = out@;
    proof {
        lemma_append_prefix(m9, nested_opt_bytes::<UserDataBox>(v.udta));
        lemma_prefix_trans(before, m9, m10);
    }
    proof {
        let l1 = nested_box_bytes::<TrackFragmentHeaderBox>(v.tfhd);
        assert(m1 == before + l1);
        let l2 = l1 + nested_bytes::<TrackRunBox>(v.trun);
        vstd::seq_lib::lemma_concat_associative(before, l1, nested_bytes::<TrackRunBox>(v.trun));
        assert(m2 == before + l2);
        let l3 = l2 + nested_bytes::<SampleToGroupBox>(v.sbgp);
        vstd::seq_lib::lemma_concat_associative(before, l2, nested_bytes::<SampleToGroupBox>(v.sbgp));
        assert(m3 == before + l3);
        let l4 = l3 + nested_bytes::<SampleGroupDescriptionBox>(v.sgpd);
        vstd::seq_lib::lemma_concat_associative(before, l3, nested_bytes::<SampleGroupDescriptionBox>(v.sgpd));
        assert(m4 == before + l4);
        let l5 = l4 + nested_bytes::<SubSampleInformationBox>(v.subs);
        vstd::seq_lib::lemma_concat_associative(before, l4, nested_bytes::<SubSampleInformationBox>(v.subs));
        assert(m5 == before + l5);
        let l6 = l5 + nested_bytes::<SampleAuxiliaryInformationSizesBox>(v.saiz);
        vstd::seq_lib::lemma_concat_associative(before, l5, nested_bytes::<SampleAuxiliaryInformationSizesBox>(v.saiz));
        assert(m6 == before + l6);
        let l7 = l6 + nested_bytes::<SampleAuxiliaryInformationOffsetsBox>(v.saio);
        vstd::seq_lib::lemma_concat_associative(before, l6, nested_bytes::<SampleAuxiliaryInformationOffsetsBox>(v.saio));
        assert(m7 == before + l7);
        let l8 = l7 + nested_opt_bytes::<TrackFragmentBaseMediaDecodeTimeBox>(v.tfdt);
        vstd::seq_lib::lemma_concat_associative(before, l7, nested_opt_bytes::<TrackFragmentBaseMediaDecodeTimeBox>(v.tfdt));
        assert(m8 == before + l8);
        let l9 = l8 + nested_opt_bytes::<MetaBox>(v.meta);
        vstd::seq_lib::lemma_concat_associative(before, l8, nested_opt_bytes::<MetaBox>(v.meta));
        assert(m9 == before + l9);
        let l10 = l9 + nested_opt_bytes::<UserDataBox>(v.udta);
        vstd::seq_lib::lemma_concat_associative(before, l9, nested_opt_bytes::<UserDataBox>(v.udta));
        assert(m10 == before + l10);
        assert(traf_children_bytes(v) == l10);
        lemma_append_prefix(before, traf_children_bytes(v));
    }
    Ok(())
}

/// The boxes that a traf writes, read from their bytes one list after the other.
#[verifier::spinoff_prover]
#[verifier::rlimit(100)]
proof fn lemma_traf_children_chain(v: TrackFragmentBoxModel)
    requires
        traf_canonical(v),
    ensures
        spec_children(nested_box_bytes::<TrackFragmentHeaderBox>(v.tfhd) + (nested_bytes::<TrackRunBox>(v.trun) + (nested_bytes::<SampleToGroupBox>(v.sbgp) + (nested_bytes::<SampleGroupDescriptionBox>(v.sgpd) + (nested_bytes::<SubSampleInformationBox>(v.subs) + (nested_bytes::<SampleAuxiliaryInformationSizesBox>(v.saiz) + (nested_bytes::<SampleAuxiliaryInformationOffsetsBox>(v.saio) + (nested_opt_bytes::<TrackFragmentBaseMediaDecodeTimeBox>(v.tfdt) + (nested_opt_bytes::<MetaBox>(v.meta) + (nested_opt_bytes::<UserDataBox>(v.udta))))))))))) == seq![nested_model::<TrackFragmentHeaderBox>(v.tfhd)] + (nested_models::<TrackRunBox>(v.trun) + (nested_models::<SampleToGroupBox>(v.sbgp) + (nested_models::<SampleGroupDescriptionBox>(v.sgpd) + (nested_models::<SubSampleInformationBox>(v.subs) + (nested_models::<SampleAuxiliaryInformationSizesBox>(v.saiz) + (nested_models::<SampleAuxiliaryInformationOffsetsBox>(v.saio) + (nested_opt_models::<TrackFragmentBaseMediaDecodeTimeBox>(v.tfdt) + (nested_opt_models::<MetaBox>(v.meta) + (nested_opt_models::<UserDataBox>(v.udta)))))))))),
{
    let b0 = nested_box_bytes::<TrackFragmentHeaderBox>(v.tfhd);
    let s0 = seq![nested_model::<TrackFragmentHeaderBox>(v.tfhd)];
    let b1 = nested_bytes::<TrackRunBox>(v.trun);
    let s1 = nested_models::<TrackRunBox>(v.trun);
    let b2 = nested_bytes::<SampleToGroupBox>(v.sbgp);
    let s2 = nested_models::<SampleToGroupBox>(v.sbgp);
    let b3 = nested_bytes::<SampleGroupDescriptionBox>(v.sgpd);
    let s3 = nested_models::<SampleGroupDescriptionBox>(v.sgpd);
    let b4 = nested_bytes::<SubSampleInformationBox>(v.subs);
    let s4 = nested_models::<SubSampleInformationBox>(v.subs);
    let b5 = nested_bytes::<SampleAuxiliaryInformationSizesBox>(v.saiz);
    let s5 = nested_models::<SampleAuxiliaryInformationSizesBox>(v.saiz);
    let b6 = nested_bytes::<SampleAuxiliaryInformationOffsetsBox>(v.saio);
    let s6 = nested_models::<SampleAuxiliaryInformationOffsetsBox>(v.saio);
    let b7 = nested_opt_bytes::<TrackFragmentBaseMediaDecodeTimeBox>(v.tfdt);
    let s7 = nested_opt_models::<TrackFragmentBaseMediaDecodeTimeBox>(v.tfdt);
    let b8 = nested_opt_bytes::<MetaBox>(v.meta);
    let s8 = nested_opt_models::<MetaBox>(v.meta);
    let b9 = nested_opt_bytes::<UserDataBox>(v.udta);
    let s9 = nested_opt_models::<UserDataBox>(v.udta);
    crate::children::lemma_children_empty();
    let t9 = b9;
    let u9 = s9;
    assert(b9 + Seq::<u8>::empty() =~= b9);
    assert(s9 + Seq::<UnknownBoxModel>::empty() =~= s9);
    lemma_nested_opt_seq::<UserDataBox>(v.udta, Seq::<u8>::empty());
    assert(spec_children(t9) == u9);
    let t8 = b8 + t9;
    let u8 = s8 + u9;
    lemma_nested_opt_seq::<MetaBox>(v.meta, t9);
    assert(spec_children(t8) == u8);
    let t7 = b7 + t8;
    let u7 = s7 + u8;
    lemma_nested_opt_seq::<TrackFragmentBaseMediaDecodeTimeBox>(v.tfdt, t8);
    assert(spec_children(t7) == u7);
    let t6 = b6 + t7;
    let u6 = s6 + u7;
    lemma_nested_seq::<SampleAuxiliaryInformationOffsetsBox>(v.saio, t7);
    assert(spec_children(t6) == u6);
    let t5 = b5 + t6;
    let u5 = s5 + u6;
    lemma_nested_seq::<SampleAuxiliaryInformationSizesBox>(v.saiz, t6);
    assert(spec_children(t5) == u5);
    let t4 = b4 + t5;
    let u4 = s4 + u5;
    lemma_nested_seq::<SubSampleInformationBox>(v.subs, t5);
    assert(spec_children(t4) == u4);
    let t3 = b3 + t4;
    let u3 = s3 + u4;
    lemma_nested_seq::<SampleGroupDescriptionBox>(v.sgpd, t4);
    assert(spec_children(t3) == u3);
    let t2 = b2 + t3;
    let u2 = s2 + u3;
    lemma_nested_seq::<SampleToGroupBox>(v.sbgp, t3);
    assert(spec_children(t2) == u2);
    let t1 = b1 + t2;
    let u1 = s1 + u2;
    lemma_nested_seq::<TrackRunBox>(v.trun, t2);
    assert(spec_children(t1) == u1);
    let t0 = b0 + t1;
    let u0 = s0 + u1;
    lemma_nested_cons::<TrackFragmentHeaderBox>(v.tfhd, t1);
    assert(spec_children(t0) == u0);
}

/// The boxes that a traf writes read back as their models.
#[verifier::spinoff_prover]
#[verifier::rlimit(100)]
proof fn lemma_traf_children(v: TrackFragmentBoxModel)
    requires
        traf_canonical(v),
    ensures
        spec_children(traf_children_bytes(v)) == traf_models(v),
{
    lemma_traf_children_chain(v);
    let b0 = nested_box_bytes::<TrackFragmentHeaderBox>(v.tfhd);
    let s0 = seq![nested_model::<TrackFragmentHeaderBox>(v.tfhd)];
    let b1 = nested_bytes::<TrackRunBox>(v.trun);
    let s1 = nested_models::<TrackRunBox>(v.trun);
    let b2 = nested_bytes::<SampleToGroupBox>(v.sbgp);
    let s2 = nested_models::<SampleToGroupBox>(v.sbgp);
    let b3 = nested_bytes::<SampleGroupDescriptionBox>(v.sgpd);
    let s3 = nested_models::<SampleGroupDescriptionBox>(v.sgpd);
    let b4 = nested_bytes::<SubSampleInformationBox>(v.subs);
    let s4 = nested_models::<SubSampleInformationBox>(v.subs);
    let b5 = nested_bytes::<SampleAuxiliaryInformationSizesBox>(v.saiz);
    let s5 = nested_models::<SampleAuxiliaryInformationSizesBox>(v.saiz);
    let b6 = nested_bytes::<SampleAuxiliaryInformationOffsetsBox>(v.saio);
    let s6 = nested_models::<SampleAuxiliaryInformationOffsetsBox>(v.saio);
    let b7 = nested_opt_bytes::<TrackFragmentBaseMediaDecodeTimeBox>(v.tfdt);
    let s7 = nested_opt_models::<TrackFragmentBaseMediaDecodeTimeBox>(v.tfdt);
    let b8 = nested_opt_bytes::<MetaBox>(v.meta);
    let s8 = nested_opt_models::<MetaBox>(v.meta);
    let b9 = nested_opt_bytes::<UserDataBox>(v.udta);
    let s9 = nested_opt_models::<UserDataBox>(v.udta);
    let t9 = b9;
    let u9 = s9;
    let t8 = b8 + t9;
    let u8 = s8 + u9;
    let t7 = b7 + t8;
    let u7 = s7 + u8;
    let t6 = b6 + t7;
    let u6 = s6 + u7;
    let t5 = b5 + t6;
    let u5 = s5 + u6;
    let t4 = b4 + t5;
    let u4 = s4 + u5;
    let t3 = b3 + t4;
    let u3 = s3 + u4;
    let t2 = b2 + t3;
    let u2 = s2 + u3;
    let t1 = b1 + t2;
    let u1 = s1 + u2;
    let t0 = b0 + t1;
    let u0 = s0 + u1;
    let t10 = Seq::<u8>::empty();
    let u10 = Seq::<UnknownBoxModel>::empty();
    assert(b9 + t10 =~= t9);
    assert(s9 + u10 =~= u9);
    let l0 = Seq::<u8>::empty();
    let k0 = Seq::<UnknownBoxModel>::empty();
    assert(l0 + t0 =~= t0);
    assert(k0 + u0 =~= u0);
    let l1 = b0;
    let k1 = s0;
    assert(l1 + t1 == l0 + t0);
    assert(k1 + u1 == k0 + u0);
    let l2 = l1 + b1;
    let k2 = k1 + s1;
    vstd::seq_lib::lemma_concat_associative(l1, b1, t2);
    vstd::seq_lib::lemma_concat_associative(k1, s1, u2);
    assert(l2 + t2 == l1 + t1);
    assert(k2 + u2 == k1 + u1);
    let l3 = l2 + b2;
    let k3 = k2 + s2;
    vstd::seq_lib::lemma_concat_associative(l2, b2, t3);
    vstd::seq_lib::lemma_concat_associative(k2, s2, u3);
    assert(l3 + t3 == l2 + t2);
    assert(k3 + u3 == k2 + u2);
    let l4 = l3 + b3;
    let k4 = k3 + s3;
    vstd::seq_lib::lemma_concat_associative(l3, b3, t4);
    vstd::seq_lib::lemma_concat_associative(k3, s3, u4);
    assert(l4 + t4 == l3 + t3);
    assert(k4 + u4 == k3 + u3);
    let l5 = l4 + b4;
    let k5 = k4 + s4;
    vstd::seq_lib::lemma_concat_associative(l4, b4, t5);
    vstd::seq_lib::lemma_concat_associative(k4, s4, u5);
    assert(l5 + t5 == l4 + t4);
    assert(k5 + u5 == k4 + u4);
    let l6 = l5 + b5;
    let k6 = k5 + s5;
    vstd::seq_lib::lemma_concat_associative(l5, b5, t6);
    vstd::seq_lib::lemma_concat_associative(k5, s5, u6);
    assert(l6 + t6 == l5 + t5);
    assert(k6 + u6 == k5 + u5);
    let l7 = l6 + b6;
    let k7 = k6 + s6;
    vstd::seq_lib::lemma_concat_associative(l6, b6, t7);
    vstd::seq_lib::lemma_concat_associative(k6, s6, u7);
    assert(l7 + t7 == l6 + t6);
    assert(k7 + u7 == k6 + u6);
    let l8 = l7 + b7;
    let k8 = k7 + s7;
    vstd::seq_lib::lemma_concat_associative(l7, b7, t8);
    vstd::seq_lib::lemma_concat_associative(k7, s7, u8);
    assert(l8 + t8 == l7 + t7);
    assert(k8 + u8 == k7 + u7);
    let l9 = l8 + b8;
    let k9 = k8 + s8;
    vstd::seq_lib::lemma_concat_associative(l8, b8, t9);
    vstd::seq_lib::lemma_concat_associative(k8, s8, u9);
    assert(l9 + t9 == l8 + t8);
    assert(k9 + u9 == k8 + u8);
    let l10 = l9 + b9;
    let k10 = k9 + s9;
    vstd::seq_lib::lemma_concat_associative(l9, b9, t10);
    vstd::seq_lib::lemma_concat_associative(k9, s9, u10);
    assert(l10 + t10 == l9 + t9);
    assert(k10 + u10 == k9 + u9);
    assert(l10 + t10 =~= l10);
    assert(k10 + u10 =~= k10);
    assert(traf_children_bytes(v) == l10);
    assert(traf_models(v) == k10);
}

/// No box that a traf writes fails to read.
#[verifier::spinoff_prover]
#[verifier::rlimit(60)]
proof fn lemma_traf_no_fault(v: TrackFragmentBoxModel, j: int)
    requires
        traf_canonical(v),
        traf_types_differ(),
        0 <= j < traf_models(v).len(),
    ensures
        traf_fault(traf_models(v)[j]) is None,
{
    let cs = traf_models(v);
    let s0 = seq![nested_model::<TrackFragmentHeaderBox>(v.tfhd)];
    let s1 = nested_models::<TrackRunBox>(v.trun);
    let s2 = nested_models::<SampleToGroupBox>(v.sbgp);
    let s3 = nested_models::<SampleGroupDescriptionBox>(v.sgpd);
    let s4 = nested_models::<SubSampleInformationBox>(v.subs);
    let s5 = nested_models::<SampleAuxiliaryInformationSizesBox>(v.saiz);
    let s6 = nested_models::<SampleAuxiliaryInformationOffsetsBox>(v.saio);
    let s7 = nested_opt_models::<TrackFragmentBaseMediaDecodeTimeBox>(v.tfdt);
    let s8 = nested_opt_models::<MetaBox>(v.meta);
    let s9 = nested_opt_models::<UserDataBox>(v.udta);
    let n0: int = 0;
    let n1: int = n0 + s0.len();
    let n2: int = n1 + s1.len();
    let n3: int = n2 + s2.len();
    let n4: int = n3 + s3.len();
    let n5: int = n4 + s4.len();
    let n6: int = n5 + s5.len();
    let n7: int = n6 + s6.len();
    let n8: int = n7 + s7.len();
    let n9: int = n8 + s8.len();
    let n10: int = n9 + s9.len();
    if j < n1 {
        assert(cs[j] == s0[j - n0]);
        lemma_nested_cons::<TrackFragmentHeaderBox>(v.tfhd, Seq::empty());
    } else if j < n2 {
        assert(cs[j] == s1[j - n1]);
        assert(nested_ok::<TrackRunBox>(v.trun[j - n1]));
        lemma_nested_cons::<TrackRunBox>(v.trun[j - n1], Seq::empty());
    } else if j < n3 {
        assert(cs[j] == s2[j - n2]);
        assert(nested_ok::<SampleToGroupBox>(v.sbgp[j - n2]));
        lemma_nested_cons::<SampleToGroupBox>(v.sbgp[j - n2], Seq::empty());
    } else if j < n4 {
        assert(cs[j] == s3[j - n3]);
        assert(nested_ok::<SampleGroupDescriptionBox>(v.sgpd[j - n3]));
        lemma_nested_cons::<SampleGroupDescriptionBox>(v.sgpd[j - n3], Seq::empty());
    } else if j < n5 {
        assert(cs[j] == s4[j - n4]);
        assert(nested_ok::<SubSampleInformationBox>(v.subs[j - n4]));
        lemma_nested_cons::<SubSampleInformationBox>(v.subs[j - n4], Seq::empty());
    } else if j < n6 {
        assert(cs[j] == s5[j - n5]);
        assert(nested_ok::<SampleAuxiliaryInformationSizesBox>(v.saiz[j - n5]));
        lemma_nested_cons::<SampleAuxiliaryInformationSizesBox>(v.saiz[j - n5], Seq::empty());
    } else if j < n7 {
        assert(cs[j] == s6[j - n6]);
        assert(nested_ok::<SampleAuxiliaryInformationOffsetsBox>(v.saio[j - n6]));
        lemma_nested_cons::<SampleAuxiliaryInformationOffsetsBox>(v.saio[j - n6], Seq::empty());
    } else if j < n8 {
        assert(cs[j] == s7[j - n7]);
        lemma_nested_cons::<TrackFragmentBaseMediaDecodeTimeBox>(v.tfdt.unwrap(), Seq::empty());
    } else if j < n9 {
        assert(cs[j] == s8[j - n8]);
        lemma_nested_cons::<MetaBox>(v.meta.unwrap(), Seq::empty());
    } else if j < n10 {
        assert(cs[j] == s9[j - n9]);
        lemma_nested_cons::<UserDataBox>(v.udta.unwrap(), Seq::empty());
    }
}

/// Collecting over the lists of a traf one after the other collects over each in
/// turn.
proof fn lemma_traf_split<T: BoxBody>(m0: Seq<UnknownBoxModel>, m1: Seq<UnknownBoxModel>, m2: Seq<UnknownBoxModel>, m3: Seq<UnknownBoxModel>, m4: Seq<UnknownBoxModel>, m5: Seq<UnknownBoxModel>, m6: Seq<UnknownBoxModel>, m7: Seq<UnknownBoxModel>, m8: Seq<UnknownBoxModel>, m9: Seq<UnknownBoxModel>)
    ensures
        collect_children::<T>(m0 + m1 + m2 + m3 + m4 + m5 + m6 + m7 + m8 + m9) == collect_children::<T>(m0) + collect_children::<T>(m1) + collect_children::<T>(m2) + collect_children::<T>(m3) + collect_children::<T>(m4) + collect_children::<T>(m5) + collect_children::<T>(m6) + collect_children::<T>(m7) + collect_children::<T>(m8) + collect_children::<T>(m9),
{
    lemma_collect_add::<T>(m0 + m1 + m2 + m3 + m4 + m5 + m6 + m7 + m8, m9);
    lemma_collect_add::<T>(m0 + m1 + m2 + m3 + m4 + m5 + m6 + m7, m8);
    lemma_collect_add::<T>(m0 + m1 + m2 + m3 + m4 + m5 + m6, m7);
    lemma_collect_add::<T>(m0 + m1 + m2 + m3 + m4 + m5, m6);
    lemma_collect_add::<T>(m0 + m1 + m2 + m3 + m4, m5);
    lemma_collect_add::<T>(m0 + m1 + m2 + m3, m4);
    lemma_collect_add::<T>(m0 + m1 + m2, m3);
    lemma_collect_add::<T>(m0 + m1, m2);
    lemma_collect_add::<T>(m0, m1);
}

/// The boxes that a traf writes collect back into its field `tfhd`.
#[verifier::spinoff_prover]
#[verifier::rlimit(60)]
proof fn lemma_traf_collect_tfhd(v: TrackFragmentBoxModel)
    requires
        traf_canonical(v),
        traf_types_differ(),
    ensures
        collect_children::<TrackFragmentHeaderBox>(traf_models(v)) == seq![v.tfhd],
{
    lemma_traf_split::<TrackFragmentHeaderBox>(seq![nested_model::<TrackFragmentHeaderBox>(v.tfhd)], nested_models::<TrackRunBox>(v.trun), nested_models::<SampleToGroupBox>(v.sbgp), nested_models::<SampleGroupDescriptionBox>(v.sgpd), nested_models::<SubSampleInformationBox>(v.subs), nested_models::<SampleAuxiliaryInformationSizesBox>(v.saiz), nested_models::<SampleAuxiliaryInformationOffsetsBox>(v.saio), nested_opt_models::<TrackFragmentBaseMediaDecodeTimeBox>(v.tfdt), nested_opt_models::<MetaBox>(v.meta), nested_opt_models::<UserDataBox>(v.udta));
    lemma_nested_opt_own::<TrackFragmentHeaderBox>(Some(v.tfhd));
    assert(nested_opt_models::<TrackFragmentHeaderBox>(Some(v.tfhd)) == seq![nested_model::<TrackFragmentHeaderBox>(v.tfhd)]);
    lemma_nested_collect_other::<TrackFragmentHeaderBox, TrackRunBox>(v.trun);
    lemma_nested_collect_other::<TrackFragmentHeaderBox, SampleToGroupBox>(v.sbgp);
    lemma_nested_collect_other::<TrackFragmentHeaderBox, SampleGroupDescriptionBox>(v.sgpd);
    lemma_nested_collect_other::<TrackFragmentHeaderBox, SubSampleInformationBox>(v.subs);
    lemma_nested_collect_other::<TrackFragmentHeaderBox, SampleAuxiliaryInformationSizesBox>(v.saiz);
    lemma_nested_collect_other::<TrackFragmentHeaderBox, SampleAuxiliaryInformationOffsetsBox>(v.saio);
    lemma_nested_opt_other::<TrackFragmentHeaderBox, TrackFragmentBaseMediaDecodeTimeBox>(v.tfdt);
    lemma_nested_opt_other::<TrackFragmentHeaderBox, MetaBox>(v.meta);
    lemma_nested_opt_other::<TrackFragmentHeaderBox, UserDataBox>(v.udta);
    assert(collect_children::<TrackFragmentHeaderBox>(traf_models(v)) =~= seq![v.tfhd]);
}

/// The boxes that a traf writes collect back into its field `trun`.
#[verifier::spinoff_prover]
#[verifier::rlimit(60)]
proof fn lemma_traf_collect_trun(v: TrackFragmentBoxModel)
    requires
        traf_canonical(v),
        traf_types_differ(),
    ensures
        collect_children::<TrackRunBox>(traf_models(v)) == v.trun,
{
    lemma_traf_split::<TrackRunBox>(seq![nested_model::<TrackFragmentHeaderBox>(v.tfhd)], nested_models::<TrackRunBox>(v.trun), nested_models::<SampleToGroupBox>(v.sbgp), nested_models::<SampleGroupDescriptionBox>(v.sgpd), nested_models::<SubSampleInformationBox>(v.subs), nested_models::<SampleAuxiliaryInformationSizesBox>(v.saiz), nested_models::<SampleAuxiliaryInformationOffsetsBox>(v.saio), nested_opt_models::<TrackFragmentBaseMediaDecodeTimeBox>(v.tfdt), nested_opt_models::<MetaBox>(v.meta), nested_opt_models::<UserDataBox>(v.udta));
    lemma_nested_opt_other::<TrackRunBox, TrackFragmentHeaderBox>(Some(v.tfhd));
    assert(nested_opt_models::<TrackFragmentHeaderBox>(Some(v.tfhd)) == seq![nested_model::<TrackFragmentHeaderBox>(v.tfhd)]);
    lemma_nested_collect_own::<TrackRunBox>(v.trun);
    lemma_nested_collect_other::<TrackRunBox, SampleToGroupBox>(v.sbgp);
    lemma_nested_collect_other::<TrackRunBox, SampleGroupDescriptionBox>(v.sgpd);
    lemma_nested_collect_other::<TrackRunBox, SubSampleInformationBox>(v.subs);
    lemma_nested_collect_other::<TrackRunBox, SampleAuxiliaryInformationSizesBox>(v.saiz);
    lemma_nested_collect_other::<TrackRunBox, SampleAuxiliaryInformationOffsetsBox>(v.saio);
    lemma_nested_opt_other::<TrackRunBox, TrackFragmentBaseMediaDecodeTimeBox>(v.tfdt);
    lemma_nested_opt_other::<TrackRunBox, MetaBox>(v.meta);
    lemma_nested_opt_other::<TrackRunBox, UserDataBox>(v.udta);
    assert(collect_children::<TrackRunBox>(traf_models(v)) =~= v.trun);
}

/// The boxes that a traf writes collect back into its field `sbgp`.
#[verifier::spinoff_prover]
#[verifier::rlimit(60)]
proof fn lemma_traf_collect_sbgp(v: TrackFragmentBoxModel)
    requires
        traf_canonical(v),
        traf_types_differ(),
    ensures
        collect_children::<SampleToGroupBox>(traf_models(v)) == v.sbgp,
{
    lemma_traf_split::<SampleToGroupBox>(seq![nested_model::<TrackFragmentHeaderBox>(v.tfhd)], nested_models::<TrackRunBox>(v.trun), nested_models::<SampleToGroupBox>(v.sbgp), nested_models::<SampleGroupDescriptionBox>(v.sgpd), nested_models::<SubSampleInformationBox>(v.subs), nested_models::<SampleAuxiliaryInformationSizesBox>(v.saiz), nested_models::<SampleAuxiliaryInformationOffsetsBox>(v.saio), nested_opt_models::<TrackFragmentBaseMediaDecodeTimeBox>(v.tfdt), nested_opt_models::<MetaBox>(v.meta), nested_opt_models::<UserDataBox>(v.udta));
    lemma_nested_opt_other::<SampleToGroupBox, TrackFragmentHeaderBox>(Some(v.tfhd));
    assert(nested_opt_models::<TrackFragmentHeaderBox>(Some(v.tfhd)) == seq![nested_model::<TrackFragmentHeaderBox>(v.tfhd)]);
    lemma_nested_collect_other::<SampleToGroupBox, TrackRunBox>(v.trun);
    lemma_nested_collect_own::<SampleToGroupBox>(v.sbgp);
    lemma_nested_collect_other::<SampleToGroupBox, SampleGroupDescriptionBox>(v.sgpd);
    lemma_nested_collect_other::<SampleToGroupBox, SubSampleInformationBox>(v.subs);
    lemma_nested_collect_other::<SampleToGroupBox, SampleAuxiliaryInformationSizesBox>(v.saiz);
    lemma_nested_collect_other::<SampleToGroupBox, SampleAuxiliaryInformationOffsetsBox>(v.saio);
    lemma_nested_opt_other::<SampleToGroupBox, TrackFragmentBaseMediaDecodeTimeBox>(v.tfdt);
    lemma_nested_opt_other::<SampleToGroupBox, MetaBox>(v.meta);
    lemma_nested_opt_other::<SampleToGroupBox, UserDataBox>(v.udta);
    assert(collect_children::<SampleToGroupBox>(traf_models(v)) =~= v.sbgp);
}

/// The boxes that a traf writes collect back into its field `sgpd`.
#[verifier::spinoff_prover]
#[verifier::rlimit(60)]
proof fn lemma_traf_collect_sgpd(v: TrackFragmentBoxModel)
    requires
        traf_canonical(v),
        traf_types_differ(),
    ensures
        collect_children::<SampleGroupDescriptionBox>(traf_models(v)) == v.sgpd,
{
    lemma_traf_split::<SampleGroupDescriptionBox>(seq![nested_model::<TrackFragmentHeaderBox>(v.tfhd)], nested_models::<TrackRunBox>(v.trun), nested_models::<SampleToGroupBox>(v.sbgp), nested_models::<SampleGroupDescriptionBox>(v.sgpd), nested_models::<SubSampleInformationBox>(v.subs), nested_models::<SampleAuxiliaryInformationSizesBox>(v.saiz), nested_models::<SampleAuxiliaryInformationOffsetsBox>(v.saio), nested_opt_models::<TrackFragmentBaseMediaDecodeTimeBox>(v.tfdt), nested_opt_models::<MetaBox>(v.meta), nested_opt_models::<UserDataBox>(v.udta));
    lemma_nested_opt_other::<SampleGroupDescriptionBox, TrackFragmentHeaderBox>(Some(v.tfhd));
    assert(nested_opt_models::<TrackFragmentHeaderBox>(Some(v.tfhd)) == seq![nested_model::<TrackFragmentHeaderBox>(v.tfhd)]);
    lemma_nested_collect_other::<SampleGroupDescriptionBox, TrackRunBox>(v.trun);
    lemma_nested_collect_other::<SampleGroupDescriptionBox, SampleToGroupBox>(v.sbgp);
    lemma_nested_collect_own::<SampleGroupDescriptionBox>(v.sgpd);
    lemma_nested_collect_other::<SampleGroupDescriptionBox, SubSampleInformationBox>(v.subs);
    lemma_nested_collect_other::<SampleGroupDescriptionBox, SampleAuxiliaryInformationSizesBox>(v.saiz);
    lemma_nested_collect_other::<SampleGroupDescriptionBox, SampleAuxiliaryInformationOffsetsBox>(v.saio);
    lemma_nested_opt_other::<SampleGroupDescriptionBox, TrackFragmentBaseMediaDecodeTimeBox>(v.tfdt);
    lemma_nested_opt_other::<SampleGroupDescriptionBox, MetaBox>(v.meta);
    lemma_nested_opt_other::<SampleGroupDescriptionBox, UserDataBox>(v.udta);
    assert(collect_children::<SampleGroupDescriptionBox>(traf_models(v)) =~= v.sgpd);
}

/// The boxes that a traf writes collect back into its field `subs`.
#[verifier::spinoff_prover]
#[verifier::rlimit(60)]
proof fn lemma_traf_collect_subs(v: TrackFragmentBoxModel)
    requires
        traf_canonical(v),
        traf_types_differ(),
    ensures
        collect_children::<SubSampleInformationBox>(traf_models(v)) == v.subs,
{
    lemma_traf_split::<SubSampleInformationBox>(seq![nested_model::<TrackFragmentHeaderBox>(v.tfhd)], nested_models::<TrackRunBox>(v.trun), nested_models::<SampleToGroupBox>(v.sbgp), nested_models::<SampleGroupDescriptionBox>(v.sgpd), nested_models::<SubSampleInformationBox>(v.subs), nested_models::<SampleAuxiliaryInformationSizesBox>(v.saiz), nested_models::<SampleAuxiliaryInformationOffsetsBox>(v.saio), nested_opt_models::<TrackFragmentBaseMediaDecodeTimeBox>(v.tfdt), nested_opt_models::<MetaBox>(v.meta), nested_opt_models::<UserDataBox>(v.udta));
    lemma_nested_opt_other::<SubSampleInformationBox, TrackFragmentHeaderBox>(Some(v.tfhd));
    assert(nested_opt_models::<TrackFragmentHeaderBox>(Some(v.tfhd)) == seq![nested_model::<TrackFragmentHeaderBox>(v.tfhd)]);
    lemma_nested_collect_other::<SubSampleInformationBox, TrackRunBox>(v.trun);
    lemma_nested_collect_other::<SubSampleInformationBox, SampleToGroupBox>(v.sbgp);
    lemma_nested_collect_other::<SubSampleInformationBox, SampleGroupDescriptionBox>(v.sgpd);
    lemma_nested_collect_own::<SubSampleInformationBox>(v.subs);
    lemma_nested_collect_other::<SubSampleInformationBox, SampleAuxiliaryInformationSizesBox>(v.saiz);
    lemma_nested_collect_other::<SubSampleInformationBox, SampleAuxiliaryInformationOffsetsBox>(v.saio);
    lemma_nested_opt_other::<SubSampleInformationBox, TrackFragmentBaseMediaDecodeTimeBox>(v.tfdt);
    lemma_nested_opt_other::<SubSampleInformationBox, MetaBox>(v.meta);
    lemma_nested_opt_other::<SubSampleInformationBox, UserDataBox>(v.udta);
    assert(collect_children::<SubSampleInformationBox>(traf_models(v)) =~= v.subs);
}

/// The boxes that a traf writes collect back into its field `saiz`.
#[verifier::spinoff_prover]
#[verifier::rlimit(60)]
proof fn lemma_traf_collect_saiz(v: TrackFragmentBoxModel)
    requires
        traf_canonical(v),
        traf_types_differ(),
    ensures
        collect_children::<SampleAuxiliaryInformationSizesBox>(traf_models(v)) == v.saiz,
{
    lemma_traf_split::<SampleAuxiliaryInformationSizesBox>(seq![nested_model::<TrackFragmentHeaderBox>(v.tfhd)], nested_models::<TrackRunBox>(v.trun), nested_models::<SampleToGroupBox>(v.sbgp), nested_models::<SampleGroupDescriptionBox>(v.sgpd), nested_models::<SubSampleInformationBox>(v.subs), nested_models::<SampleAuxiliaryInformationSizesBox>(v.saiz), nested_models::<SampleAuxiliaryInformationOffsetsBox>(v.saio), nested_opt_models::<TrackFragmentBaseMediaDecodeTimeBox>(v.tfdt), nested_opt_models::<MetaBox>(v.meta), nested_opt_models::<UserDataBox>(v.udta));
    lemma_nested_opt_other::<SampleAuxiliaryInformationSizesBox, TrackFragmentHeaderBox>(Some(v.tfhd));
    assert(nested_opt_models::<TrackFragmentHeaderBox>(Some(v.tfhd)) == seq![nested_model::<TrackFragmentHeaderBox>(v.tfhd)]);
    lemma_nested_collect_other::<SampleAuxiliaryInformationSizesBox, TrackRunBox>(v.trun);
    lemma_nested_collect_other::<SampleAuxiliaryInformationSizesBox, SampleToGroupBox>(v.sbgp);
    lemma_nested_collect_other::<SampleAuxiliaryInformationSizesBox, SampleGroupDescriptionBox>(v.sgpd);
    lemma_nested_collect_other::<SampleAuxiliaryInformationSizesBox, SubSampleInformationBox>(v.subs);
    lemma_nested_collect_own::<SampleAuxiliaryInformationSizesBox>(v.saiz);
    lemma_nested_collect_other::<SampleAuxiliaryInformationSizesBox, SampleAuxiliaryInformationOffsetsBox>(v.saio);
    lemma_nested_opt_other::<SampleAuxiliaryInformationSizesBox, TrackFragmentBaseMediaDecodeTimeBox>(v.tfdt);
    lemma_nested_opt_other::<SampleAuxiliaryInformationSizesBox, MetaBox>(v.meta);
    lemma_nested_opt_other::<SampleAuxiliaryInformationSizesBox, UserDataBox>(v.udta);
    assert(collect_children::<SampleAuxiliaryInformationSizesBox>(traf_models(v)) =~= v.saiz);
}

/// The boxes that a traf writes collect back into its field `saio`.
#[verifier::spinoff_prover]
#[verifier::rlimit(60)]
proof fn lemma_traf_collect_saio(v: TrackFragmentBoxModel)
    requires
        traf_canonical(v),
        traf_types_differ(),
    ensures
        collect_children::<SampleAuxiliaryInformationOffsetsBox>(traf_models(v)) == v.saio,
{
    lemma_traf_split::<SampleAuxiliaryInformationOffsetsBox>(seq![nested_model::<TrackFragmentHeaderBox>(v.tfhd)], nested_models::<TrackRunBox>(v.trun), nested_models::<SampleToGroupBox>(v.sbgp), nested_models::<SampleGroupDescriptionBox>(v.sgpd), nested_models::<SubSampleInformationBox>(v.subs), nested_models::<SampleAuxiliaryInformationSizesBox>(v.saiz), nested_models::<SampleAuxiliaryInformationOffsetsBox>(v.saio), nested_opt_models::<TrackFragmentBaseMediaDecodeTimeBox>(v.tfdt), nested_opt_models::<MetaBox>(v.meta), nested_opt_models::<UserDataBox>(v.udta));
    lemma_nested_opt_other::<SampleAuxiliaryInformationOffsetsBox, TrackFragmentHeaderBox>(Some(v.tfhd));
    assert(nested_opt_models::<TrackFragmentHeaderBox>(Some(v.tfhd)) == seq![nested_model::<TrackFragmentHeaderBox>(v.tfhd)]);
    lemma_nested_collect_other::<SampleAuxiliaryInformationOffsetsBox, TrackRunBox>(v.trun);
    lemma_nested_collect_other::<SampleAuxiliaryInformationOffsetsBox, SampleToGroupBox>(v.sbgp);
    lemma_nested_collect_other::<SampleAuxiliaryInformationOffsetsBox, SampleGroupDescriptionBox>(v.sgpd);
    lemma_nested_collect_other::<SampleAuxiliaryInformationOffsetsBox, SubSampleInformationBox>(v.subs);
    lemma_nested_collect_other::<SampleAuxiliaryInformationOffsetsBox, SampleAuxiliaryInformationSizesBox>(v.saiz);
    lemma_nested_collect_own::<SampleAuxiliaryInformationOffsetsBox>(v.saio);
    lemma_nested_opt_other::<SampleAuxiliaryInformationOffsetsBox, TrackFragmentBaseMediaDecodeTimeBox>(v.tfdt);
    lemma_nested_opt_other::<SampleAuxiliaryInformationOffsetsBox, MetaBox>(v.meta);
    lemma_nested_opt_other::<SampleAuxiliaryInformationOffsetsBox, UserDataBox>(v.udta);
    assert(collect_children::<SampleAuxiliaryInformationOffsetsBox>(traf_models(v)) =~= v.saio);
}

/// The boxes that a traf writes collect back into its field `tfdt`.
#[verifier::spinoff_prover]
#[verifier::rlimit(60)]
proof fn lemma_traf_collect_tfdt(v: TrackFragmentBoxModel)
    requires
        traf_canonical(v),
        traf_types_differ(),
    ensures
        collect_children::<TrackFragmentBaseMediaDecodeTimeBox>(traf_models(v)) == opt_seq(v.tfdt),
{
    lemma_traf_split::<TrackFragmentBaseMediaDecodeTimeBox>(seq![nested_model::<TrackFragmentHeaderBox>(v.tfhd)], nested_models::<TrackRunBox>(v.trun), nested_models::<SampleToGroupBox>(v.sbgp), nested_models::<SampleGroupDescriptionBox>(v.sgpd), nested_models::<SubSampleInformationBox>(v.subs), nested_models::<SampleAuxiliaryInformationSizesBox>(v.saiz), nested_models::<SampleAuxiliaryInformationOffsetsBox>(v.saio), nested_opt_models::<TrackFragmentBaseMediaDecodeTimeBox>(v.tfdt), nested_opt_models::<MetaBox>(v.meta), nested_opt_models::<UserDataBox>(v.udta));
    lemma_nested_opt_other::<TrackFragmentBaseMediaDecodeTimeBox, TrackFragmentHeaderBox>(Some(v.tfhd));
    assert(nested_opt_models::<TrackFragmentHeaderBox>(Some(v.tfhd)) == seq![nested_model::<TrackFragmentHeaderBox>(v.tfhd)]);
    lemma_nested_collect_other::<TrackFragmentBaseMediaDecodeTimeBox, TrackRunBox>(v.trun);
    lemma_nested_collect_other::<TrackFragmentBaseMediaDecodeTimeBox, SampleToGroupBox>(v.sbgp);
    lemma_nested_collect_other::<TrackFragmentBaseMediaDecodeTimeBox, SampleGroupDescriptionBox>(v.sgpd);
    lemma_nested_collect_other::<TrackFragmentBaseMediaDecodeTimeBox, SubSampleInformationBox>(v.subs);
    lemma_nested_collect_other::<TrackFragmentBaseMediaDecodeTimeBox, SampleAuxiliaryInformationSizesBox>(v.saiz);
    lemma_nested_collect_other::<TrackFragmentBaseMediaDecodeTimeBox, SampleAuxiliaryInformationOffsetsBox>(v.saio);
    lemma_nested_opt_own::<TrackFragmentBaseMediaDecodeTimeBox>(v.tfdt);
    lemma_nested_opt_other::<TrackFragmentBaseMediaDecodeTimeBox, MetaBox>(v.meta);
    lemma_nested_opt_other::<TrackFragmentBaseMediaDecodeTimeBox, UserDataBox>(v.udta);
    assert(collect_children::<TrackFragmentBaseMediaDecodeTimeBox>(traf_models(v)) =~= opt_seq(v.tfdt));
}

/// The boxes that a traf writes collect back into its field `meta`.
#[verifier::spinoff_prover]
#[verifier::rlimit(60)]
proof fn lemma_traf_collect_meta(v: TrackFragmentBoxModel)
    requires
        traf_canonical(v),
        traf_types_differ(),
    ensures
        collect_children::<MetaBox>(traf_models(v)) == opt_seq(v.meta),
{
    lemma_traf_split::<MetaBox>(seq![nested_model::<TrackFragmentHeaderBox>(v.tfhd)], nested_models::<TrackRunBox>(v.trun), nested_models::<SampleToGroupBox>(v.sbgp), nested_models::<SampleGroupDescriptionBox>(v.sgpd), nested_models::<SubSampleInformationBox>(v.subs), nested_models::<SampleAuxiliaryInformationSizesBox>(v.saiz), nested_models::<SampleAuxiliaryInformationOffsetsBox>(v.saio), nested_opt_models::<TrackFragmentBaseMediaDecodeTimeBox>(v.tfdt), nested_opt_models::<MetaBox>(v.meta), nested_opt_models::<UserDataBox>(v.udta));
    lemma_nested_opt_other::<MetaBox, TrackFragmentHeaderBox>(Some(v.tfhd));
    assert(nested_opt_models::<TrackFragmentHeaderBox>(Some(v.tfhd)) == seq![nested_model::<TrackFragmentHeaderBox>(v.tfhd)]);
    lemma_nested_collect_other::<MetaBox, TrackRunBox>(v.trun);
    lemma_nested_collect_other::<MetaBox, SampleToGroupBox>(v.sbgp);
    lemma_nested_collect_other::<MetaBox, SampleGroupDescriptionBox>(v.sgpd);
    lemma_nested_collect_other::<MetaBox, SubSampleInformationBox>(v.subs);
    lemma_nested_collect_other::<MetaBox, SampleAuxiliaryInformationSizesBox>(v.saiz);
    lemma_nested_collect_other::<MetaBox, SampleAuxiliaryInformationOffsetsBox>(v.saio);
    lemma_nested_opt_other::<MetaBox, TrackFragmentBaseMediaDecodeTimeBox>(v.tfdt);
    lemma_nested_opt_own::<MetaBox>(v.meta);
    lemma_nested_opt_other::<MetaBox, UserDataBox>(v.udta);
    assert(collect_children::<MetaBox>(traf_models(v)) =~= opt_seq(v.meta));
}

/// The boxes that a traf writes collect back into its field `udta`.
#[verifier::spinoff_prover]
#[verifier::rlimit(60)]
proof fn lemma_traf_collect_udta(v: TrackFragmentBoxModel)
    requires
        traf_canonical(v),
        traf_types_differ(),
    ensures
        collect_children::<UserDataBox>(traf_models(v)) == opt_seq(v.udta),
{
    lemma_traf_split::<UserDataBox>(seq![nested_model::<TrackFragmentHeaderBox>(v.tfhd)], nested_models::<TrackRunBox>(v.trun), nested_models::<SampleToGroupBox>(v.sbgp), nested_models::<SampleGroupDescriptionBox>(v.sgpd), nested_models::<SubSampleInformationBox>(v.subs), nested_models::<SampleAuxiliaryInformationSizesBox>(v.saiz), nested_models::<SampleAuxiliaryInformationOffsetsBox>(v.saio), nested_opt_models::<TrackFragmentBaseMediaDecodeTimeBox>(v.tfdt), nested_opt_models::<MetaBox>(v.meta), nested_opt_models::<UserDataBox>(v.udta));
    lemma_nested_opt_other::<UserDataBox, TrackFragmentHeaderBox>(Some(v.tfhd));
    assert(nested_opt_models::<TrackFragmentHeaderBox>(Some(v.tfhd)) == seq![nested_model::<TrackFragmentHeaderBox>(v.tfhd)]);
    lemma_nested_collect_other::<UserDataBox, TrackRunBox>(v.trun);
    lemma_nested_collect_other::<UserDataBox, SampleToGroupBox>(v.sbgp);
    lemma_nested_collect_other::<UserDataBox, SampleGroupDescriptionBox>(v.sgpd);
    lemma_nested_collect_other::<UserDataBox, SubSampleInformationBox>(v.subs);
    lemma_nested_collect_other::<UserDataBox, SampleAuxiliaryInformationSizesBox>(v.saiz);
    lemma_nested_collect_other::<UserDataBox, SampleAuxiliaryInformationOffsetsBox>(v.saio);
    lemma_nested_opt_other::<UserDataBox, TrackFragmentBaseMediaDecodeTimeBox>(v.tfdt);
    lemma_nested_opt_other::<UserDataBox, MetaBox>(v.meta);
    lemma_nested_opt_own::<UserDataBox>(v.udta);
    assert(collect_children::<UserDataBox>(traf_models(v)) =~= opt_seq(v.udta));
}

/// Writing a traf and reading its payload back gives it again.
#[verifier::spinoff_prover]
#[verifier::rlimit(100)]
proof fn lemma_traf_roundtrip(v: TrackFragmentBoxModel)
    requires
        traf_canonical(v),
    ensures
        traf_parse(traf_bytes(v)) == Ok::<TrackFragmentBoxModel, IsoError>(v),
{
    let s = traf_bytes(v);
    lemma_traf_children(v);
    lemma_traf_types();
    let cs = traf_models(v);
    let fault = |c: UnknownBoxModel| traf_fault(c);
    assert forall|j: int| 0 <= j < cs.len() implies (#[trigger] fault(cs[j])) is None by {
        lemma_traf_no_fault(v, j);
    }
    lemma_first_fault(cs, fault, cs.len() as int);
    assert(cs.take(cs.len() as int) =~= cs);
    lemma_traf_collect_tfhd(v);
    lemma_traf_collect_trun(v);
    lemma_traf_collect_sbgp(v);
    lemma_traf_collect_sgpd(v);
    lemma_traf_collect_subs(v);
    lemma_traf_collect_saiz(v);
    lemma_traf_collect_saio(v);
    lemma_traf_collect_tfdt(v);
    lemma_traf_collect_meta(v);
    lemma_traf_collect_udta(v);
    assert(spec_children(s) == cs);
    assert(last_child::<TrackFragmentHeaderBox>(cs) == Some(v.tfhd));
    assert(last_child::<TrackFragmentBaseMediaDecodeTimeBox>(cs) == v.tfdt);
    assert(last_child::<MetaBox>(cs) == v.meta);
    assert(last_child::<UserDataBox>(cs) == v.udta);
}

/// For a value that reads back as itself, the size is that of its payload and header.
#[verifier::spinoff_prover]
#[verifier::rlimit(60)]
proof fn lemma_traf_size(x: TrackFragmentBox)
    requires
        traf_canonical(x@),
    ensures
        x.tfhd.spec_size() + nested_sizes::<TrackRunBox>(x.trun@) + nested_sizes::<SampleToGroupBox>(x.sbgp@) + nested_sizes::<SampleGroupDescriptionBox>(x.sgpd@) + nested_sizes::<SubSampleInformationBox>(x.subs@) + nested_sizes::<SampleAuxiliaryInformationSizesBox>(x.saiz@) + nested_sizes::<SampleAuxiliaryInformationOffsetsBox>(x.saio@) + nested_opt_size::<TrackFragmentBaseMediaDecodeTimeBox>(x.tfdt) + nested_opt_size::<MetaBox>(x.meta) + nested_opt_size::<UserDataBox>(x.udta) == traf_bytes(x@).len(),
{
    let v = x@;
    lemma_nested_size::<TrackFragmentHeaderBox>(x.tfhd);
    lemma_nested_sizes::<TrackRunBox>(x.trun@);
    lemma_nested_sizes::<SampleToGroupBox>(x.sbgp@);
    lemma_nested_sizes::<SampleGroupDescriptionBox>(x.sgpd@);
    lemma_nested_sizes::<SubSampleInformationBox>(x.subs@);
    lemma_nested_sizes::<SampleAuxiliaryInformationSizesBox>(x.saiz@);
    lemma_nested_sizes::<SampleAuxiliaryInformationOffsetsBox>(x.saio@);
    lemma_nested_opt_size::<TrackFragmentBaseMediaDecodeTimeBox>(x.tfdt);
    lemma_nested_opt_size::<MetaBox>(x.meta);
    lemma_nested_opt_size::<UserDataBox>(x.udta);
}

impl BoxBody for TrackFragmentBox {
    open spec fn spec_box_type() -> [u8; 4] {
        [0x74u8, 0x72u8, 0x61u8, 0x66u8]
    }

    fn box_type() -> (r: [u8; 4]) {
        [0x74u8, 0x72u8, 0x61u8, 0x66u8]
    }

    open spec fn spec_parse_body(s: Seq<u8>) -> Result<TrackFragmentBoxModel, IsoError> {
        traf_parse(s)
    }

    open spec fn spec_writable(v: TrackFragmentBoxModel) -> bool {
        traf_writable(v)
    }

    open spec fn spec_serialize_body(v: TrackFragmentBoxModel) -> Seq<u8> {
        traf_bytes(v)
    }

    open spec fn spec_canonical(v: TrackFragmentBoxModel) -> bool {
        traf_canonical(v)
    }

    proof fn lemma_box_type() {
        assert(Self::spec_box_type()[0] != spec_uuid_fourcc()[0]);
    }

    proof fn lemma_body_size(x: TrackFragmentBox) {
        lemma_traf_size(x);
    }

    proof fn lemma_body_roundtrip(v: TrackFragmentBoxModel) {
        lemma_traf_roundtrip(v);
    }

    fn parse_body(payload: &[u8]) -> (r: Result<TrackFragmentBox, IsoError>) {
        parse_traf(payload)
    }

    #[verifier::spinoff_prover]
    #[verifier::rlimit(60)]
    fn serialize_body(&self, out: &mut Vec<u8>) -> (r: Result<(), IsoError>) {
        write_traf_children(self, out)
    }
}

/// Movie fragment box
///
/// `moof`
///
/// ISO/IEC 14496-12 - 8.8.4
#[derive(Debug)]
pub struct MovieFragmentBox {
    /// The contained [`MovieFragmentHeaderBox`]. (mandatory)
    pub mfhd: MovieFragmentHeaderBox,
    /// The contained [`MetaBox`]. (optional)
    pub meta: Option<MetaBox>,
    /// The contained [`TrackFragmentBox`] boxes. (any quantity)
    pub traf: Vec<TrackFragmentBox>,
    /// The contained [`UserDataBox`]. (optional)
    pub udta: Option<UserDataBox>,
}

/// The model of a [`MovieFragmentBox`].
pub struct MovieFragmentBoxModel {
    pub mfhd: <MovieFragmentHeaderBox as View>::V,
    pub meta: Option<<MetaBox as View>::V>,
    pub traf: Seq<<TrackFragmentBox as View>::V>,
    pub udta: Option<<UserDataBox as View>::V>,
}

impl View for MovieFragmentBox {
    type V = MovieFragmentBoxModel;

    open spec fn view(&self) -> MovieFragmentBoxModel {
        MovieFragmentBoxModel {
            mfhd: self.mfhd@,
            meta: opt_view(self.meta),
            traf: views(self.traf@),
            udta: opt_view(self.udta),
        }
    }
}

/// Whether a box found in a moof has one of the types that it reads.
pub open spec fn moof_known(c: UnknownBoxModel) -> bool {
    is_child::<MovieFragmentHeaderBox>(c) || is_child::<MetaBox>(c) || is_child::<TrackFragmentBox>(c) || is_child::<UserDataBox>(c)
}

/// The failure of reading a box of a known type found in a moof.
pub open spec fn moof_fault(c: UnknownBoxModel) -> Option<IsoError> {
    if is_child::<MovieFragmentHeaderBox>(c) {
        child_fault::<MovieFragmentHeaderBox>(c)
    }     else if is_child::<MetaBox>(c) {
        child_fault::<MetaBox>(c)
    }     else if is_child::<TrackFragmentBox>(c) {
        child_fault::<TrackFragmentBox>(c)
    }     else if is_child::<UserDataBox>(c) {
        child_fault::<UserDataBox>(c)
    } else {
        None
    }
}

/// What a moof reads from its payload: the boxes before the first that fails, each box of a known type in its field (the
/// last one for a single field, which must be there where it is required) and every
/// other box kept as it is.
pub open spec fn moof_parse(s: Seq<u8>) -> Result<MovieFragmentBoxModel, IsoError> {
    let cs = spec_children(s);
    match scan_result(cs, |c: UnknownBoxModel| moof_fault(c)) {
        Err(e) => Err(e),
        Ok(k) => {
            let p = cs.take(k as int);
            match last_child::<MovieFragmentHeaderBox>(p) {
                None => Err(IsoError::InvalidData),
                Some(mfhd) => Ok(
                    MovieFragmentBoxModel {
                        mfhd: mfhd,
                        meta: last_child::<MetaBox>(p),
                        traf: collect_children::<TrackFragmentBox>(p),
                        udta: last_child::<UserDataBox>(p),
                    },
                ),
            }
        },
    }
}

/// The bytes of the boxes that a moof holds, in the order of its fields.
pub open spec fn moof_children_bytes(v: MovieFragmentBoxModel) -> Seq<u8> {
    nested_box_bytes::<MovieFragmentHeaderBox>(v.mfhd)
        + nested_opt_bytes::<MetaBox>(v.meta)
        + nested_bytes::<TrackFragmentBox>(v.traf)
        + nested_opt_bytes::<UserDataBox>(v.udta)
}

/// The boxes, as found in a container, that a moof writes.
pub open spec fn moof_models(v: MovieFragmentBoxModel) -> Seq<UnknownBoxModel> {
    seq![nested_model::<MovieFragmentHeaderBox>(v.mfhd)]
        + nested_opt_models::<MetaBox>(v.meta)
        + nested_models::<TrackFragmentBox>(v.traf)
        + nested_opt_models::<UserDataBox>(v.udta)
}

/// The payload that a moof writes.
pub open spec fn moof_bytes(v: MovieFragmentBoxModel) -> Seq<u8> {
    moof_children_bytes(v)
}

/// Every box of a known type can be written.
pub open spec fn moof_writable(v: MovieFragmentBoxModel) -> bool {
    &&& nested_writable::<MovieFragmentHeaderBox>(v.mfhd)
    &&& nested_opt_writable::<MetaBox>(v.meta)
    &&& nested_all_writable::<TrackFragmentBox>(v.traf)
    &&& nested_opt_writable::<UserDataBox>(v.udta)
}

/// Every box of a known type reads back as itself, and every other box is of
/// another type and announces exactly its payload.
pub open spec fn moof_canonical(v: MovieFragmentBoxModel) -> bool {
    &&& nested_ok::<MovieFragmentHeaderBox>(v.mfhd)
    &&& nested_opt_ok::<MetaBox>(v.meta)
    &&& nested_all_ok::<TrackFragmentBox>(v.traf)
    &&& nested_opt_ok::<UserDataBox>(v.udta)
}

impl IsoSized for MovieFragmentBox {
    open spec fn spec_size(&self) -> nat {
        add_header_size(self.mfhd.spec_size() + nested_opt_size::<MetaBox>(self.meta) + nested_sizes::<TrackFragmentBox>(self.traf@) + nested_opt_size::<UserDataBox>(self.udta))
    }

    fn size(&self) -> (n: usize) {
        let mut n: usize = 0;
        n = n + self.mfhd.size();
        n = n + size_nested_opt(&self.meta);
        n = n + size_nested_vec(&self.traf);
        n = n + size_nested_opt(&self.udta);
        add_header_size_exec(n)
    }
}

/// The fields of a moof read so far.
pub struct MovieFragmentBoxScan {
    pub mfhd: Option<MovieFragmentHeaderBox>,
    pub meta: Option<MetaBox>,
    pub traf: Vec<TrackFragmentBox>,
    pub udta: Option<UserDataBox>,
}

/// The model of a [`MovieFragmentBoxScan`].
pub struct MovieFragmentBoxScanModel {
    pub mfhd: Option<<MovieFragmentHeaderBox as View>::V>,
    pub meta: Option<<MetaBox as View>::V>,
    pub traf: Seq<<TrackFragmentBox as View>::V>,
    pub udta: Option<<UserDataBox as View>::V>,
}

impl View for MovieFragmentBoxScan {
    type V = MovieFragmentBoxScanModel;

    open spec fn view(&self) -> MovieFragmentBoxScanModel {
        MovieFragmentBoxScanModel {
            mfhd: opt_view(self.mfhd),
            meta: opt_view(self.meta),
            traf: views(self.traf@),
            udta: opt_view(self.udta),
        }
    }
}

/// What a moof holds after reading the boxes of `p`.
pub open spec fn moof_prefix(p: Seq<UnknownBoxModel>) -> MovieFragmentBoxScanModel {
    MovieFragmentBoxScanModel {
        mfhd: last_child::<MovieFragmentHeaderBox>(p),
        meta: last_child::<MetaBox>(p),
        traf: collect_children::<TrackFragmentBox>(p),
        udta: last_child::<UserDataBox>(p),
    }
}

/// What a moof holds after reading one more box that does not fail.
pub open spec fn moof_extend(m: MovieFragmentBoxScanModel, c: UnknownBoxModel) -> MovieFragmentBoxScanModel {
    MovieFragmentBoxScanModel {
        mfhd: match child_value::<MovieFragmentHeaderBox>(c) {
            Some(v) => Some(v),
            None => m.mfhd,
        },
        meta: match child_value::<MetaBox>(c) {
            Some(v) => Some(v),
            None => m.meta,
        },
        traf: m.traf + opt_seq(child_value::<TrackFragmentBox>(c)),
        udta: match child_value::<UserDataBox>(c) {
            Some(v) => Some(v),
            None => m.udta,
        },
    }
}

/// The types that a moof reads differ from one another.
pub open spec fn moof_types_differ() -> bool {
    &&& MovieFragmentHeaderBox::spec_box_type() != MetaBox::spec_box_type()
    &&& MovieFragmentHeaderBox::spec_box_type() != TrackFragmentBox::spec_box_type()
    &&& MovieFragmentHeaderBox::spec_box_type() != UserDataBox::spec_box_type()
    &&& MetaBox::spec_box_type() != TrackFragmentBox::spec_box_type()
    &&& MetaBox::spec_box_type() != UserDataBox::spec_box_type()
    &&& TrackFragmentBox::spec_box_type() != UserDataBox::spec_box_type()
}

proof fn lemma_moof_types()
    ensures
        moof_types_differ(),
{
    assert(MovieFragmentHeaderBox::spec_box_type()[1] != MetaBox::spec_box_type()[1]);
    assert(MovieFragmentHeaderBox::spec_box_type()[0] != TrackFragmentBox::spec_box_type()[0]);
    assert(MovieFragmentHeaderBox::spec_box_type()[0] != UserDataBox::spec_box_type()[0]);
    assert(MetaBox::spec_box_type()[0] != TrackFragmentBox::spec_box_type()[0]);
    assert(MetaBox::spec_box_type()[0] != UserDataBox::spec_box_type()[0]);
    assert(TrackFragmentBox::spec_box_type()[0] != UserDataBox::spec_box_type()[0]);
}

/// Reads one box found in a moof into its field.
#[verifier::spinoff_prover]
#[verifier::rlimit(60)]
fn moof_step(c: &UnknownBox, acc: &mut MovieFragmentBoxScan) -> (r: Result<(), IsoError>)
    requires
        moof_types_differ(),
    ensures
        match r {
            Ok(()) => moof_fault(c@) is None && final(acc)@ == moof_extend(old(acc)@, c@),
            Err(e) => moof_fault(c@) == Some(e) && final(acc)@ == old(acc)@,
        },
{
    if is_child_exec::<MovieFragmentHeaderBox>(c) {
        proof {
            lemma_child_other::<MetaBox>(c@);
            lemma_child_other::<TrackFragmentBox>(c@);
            lemma_child_other::<UserDataBox>(c@);
            lemma_child_read::<MovieFragmentHeaderBox>(c@);
        }
        let r = replace_into(c, &mut acc.mfhd);
        proof {
            if r is Err {
                assert(acc@ =~= old(acc)@);
            }
            if r is Ok {
                assert(opt_seq(child_value::<TrackFragmentBox>(c@)) =~= Seq::<<TrackFragmentBox as View>::V>::empty());
                assert(acc@ =~= moof_extend(old(acc)@, c@));
            }
        }
        r
    } else if is_child_exec::<MetaBox>(c) {
        proof {
            lemma_child_other::<MovieFragmentHeaderBox>(c@);
            lemma_child_other::<TrackFragmentBox>(c@);
            lemma_child_other::<UserDataBox>(c@);
            lemma_child_read::<MetaBox>(c@);
        }
        let r = replace_into(c, &mut acc.meta);
        proof {
            if r is Err {
                assert(acc@ =~= old(acc)@);
            }
            if r is Ok {
                assert(opt_seq(child_value::<TrackFragmentBox>(c@)) =~= Seq::<<TrackFragmentBox as View>::V>::empty());
                assert(acc@ =~= moof_extend(old(acc)@, c@));
            }
        }
        r
    } else if is_child_exec::<TrackFragmentBox>(c) {
        proof {
            lemma_child_other::<MovieFragmentHeaderBox>(c@);
            lemma_child_other::<MetaBox>(c@);
            lemma_child_other::<UserDataBox>(c@);
            lemma_child_read::<TrackFragmentBox>(c@);
        }
        let ghost old_v = views(acc.traf@);
        let r = collect_into(c, &mut acc.traf);
        proof {
            if r is Err {
                assert(acc@ =~= old(acc)@);
            }
            if r is Ok {
                assert(views(acc.traf@) =~= old_v + opt_seq(child_value::<TrackFragmentBox>(c@)));
                assert(acc@ =~= moof_extend(old(acc)@, c@));
            }
        }
        r
    } else if is_child_exec::<UserDataBox>(c) {
        proof {
            lemma_child_other::<MovieFragmentHeaderBox>(c@);
            lemma_child_other::<MetaBox>(c@);
            lemma_child_other::<TrackFragmentBox>(c@);
            lemma_child_read::<UserDataBox>(c@);
        }
        let r = replace_into(c, &mut acc.udta);
        proof {
            if r is Err {
                assert(acc@ =~= old(acc)@);
            }
            if r is Ok {
                assert(opt_seq(child_value::<TrackFragmentBox>(c@)) =~= Seq::<<TrackFragmentBox as View>::V>::empty());
                assert(acc@ =~= moof_extend(old(acc)@, c@));
            }
        }
        r
    } else {
        proof {
            lemma_child_other::<MovieFragmentHeaderBox>(c@);
            lemma_child_other::<MetaBox>(c@);
            lemma_child_other::<TrackFragmentBox>(c@);
            lemma_child_other::<UserDataBox>(c@);
        }
        proof {
            assert(opt_seq(child_value::<TrackFragmentBox>(c@)) =~= Seq::<<TrackFragmentBox as View>::V>::empty());
            assert(acc@ =~= moof_extend(old(acc)@, c@));
        }
        Ok(())
    }
}

/// Reading one more box extends what was read by it.
proof fn lemma_moof_prefix_step(css: Seq<UnknownBoxModel>, i: int)
    requires
        0 <= i < css.len(),
    ensures
        moof_prefix(css.take(i + 1)) == moof_extend(moof_prefix(css.take(i)), css[i]),
{
    lemma_collect_step::<MovieFragmentHeaderBox>(css, i);
    lemma_collect_step::<MetaBox>(css, i);
    lemma_collect_step::<TrackFragmentBox>(css, i);
    lemma_collect_step::<UserDataBox>(css, i);
    lemma_unknown_step(css, |c: UnknownBoxModel| moof_known(c), i);
    let a = moof_prefix(css.take(i + 1));
    let b = moof_extend(moof_prefix(css.take(i)), css[i]);
    assert(a.traf =~= b.traf);
}

/// Reads the payload of a moof.
#[verifier::spinoff_prover]
#[verifier::rlimit(60)]
fn parse_moof(payload: &[u8]) -> (r: Result<MovieFragmentBox, IsoError>)
    ensures
        match (moof_parse(payload@), r) {
            (Ok(v), Ok(x)) => x@ == v,
            (Err(e), Err(f)) => e == f,
            _ => false,
        },
{
    let cs = read_children(payload);
    let ghost css = spec_children(payload@);
    let ghost fault = |c: UnknownBoxModel| moof_fault(c);
    let mut acc = MovieFragmentBoxScan {
        mfhd: None,
        meta: None,
        traf: Vec::new(),
        udta: None,
    };
    let mut i: usize = 0;
    let mut stop = false;
    proof {
        lemma_moof_types();
        let e = css.take(0);
        assert(e =~= Seq::<UnknownBoxModel>::empty());
        assert(collect_children::<MovieFragmentHeaderBox>(e) =~= Seq::<<MovieFragmentHeaderBox as View>::V>::empty());
        assert(collect_children::<MetaBox>(e) =~= Seq::<<MetaBox as View>::V>::empty());
        assert(collect_children::<TrackFragmentBox>(e) =~= Seq::<<TrackFragmentBox as View>::V>::empty());
        assert(views(acc.traf@) =~= Seq::<<TrackFragmentBox as View>::V>::empty());
        assert(collect_children::<UserDataBox>(e) =~= Seq::<<UserDataBox as View>::V>::empty());
        assert(acc@ =~= moof_prefix(e));
    }
    while i < cs.len() && !stop
        invariant
            views(cs@) == css,
            css == spec_children(payload@),
            fault == (|c: UnknownBoxModel| moof_fault(c)),
            moof_types_differ(),
            i <= cs@.len(),
            forall|j: int| 0 <= j < i ==> (#[trigger] fault(css[j])) is None,
            stop ==> i < css.len() && fault(css[i as int]) == Some(IsoError::UnexpectedEof),
            acc@ == moof_prefix(css.take(i as int)),
        decreases cs@.len() - i + (if stop { 0int } else { 1int }),
    {
        let c = &cs[i];
        proof {
            assert(c@ == css[i as int]);
            lemma_moof_prefix_step(css, i as int);
        }
        match moof_step(c, &mut acc) {
            Ok(()) => {
                i = i + 1;
            },
            Err(IsoError::UnexpectedEof) => {
                stop = true;
            },
            Err(e) => {
                proof {
                    lemma_first_fault(css, fault, i as int);
                }
                return Err(e);
            },
        }
    }
    proof {
        lemma_first_fault(css, fault, i as int);
        assert(first_fault(css, fault) == i);
    }
    let MovieFragmentBoxScan { mfhd, meta, traf, udta } = acc;
    let mfhd = match mfhd {
        Some(x) => x,
        None => {
            return Err(IsoError::InvalidData);
        },
    };
    Ok(MovieFragmentBox { mfhd, meta, traf, udta })
}

/// Writes the boxes of a moof in the order of its fields.
#[verifier::spinoff_prover]
#[verifier::rlimit(60)]
fn write_moof_children(x: &MovieFragmentBox, out: &mut Vec<u8>) -> (r: Result<(), IsoError>)
    requires
        x.spec_size() <= usize::MAX,
    ensures
        write_matches(r, moof_writable(x@), moof_children_bytes(x@), old(out)@, final(out)@),
{
    let ghost before = out@;
    let ghost v = x@;
    if write_nested(&x.mfhd, out).is_err() {
        return Err(IsoError::InvalidData);
    }
    let ghost m1 = out@;
    proof {
        lemma_append_prefix(before, nested_box_bytes::<MovieFragmentHeaderBox>(v.mfhd));
    }
    if write_nested_opt(&x.meta, out).is_err() {
        proof {
            lemma_prefix_trans(before, m1, out@);
        }
        return Err(IsoError::InvalidData);
    }
    let ghost m2 = out@;
    proof {
        lemma_append_prefix(m1, nested_opt_bytes::<MetaBox>(v.meta));
        lemma_prefix_trans(before, m1, m2);
    }
    if write_nested_vec(&x.traf, out).is_err() {
        proof {
            lemma_prefix_trans(before, m2, out@);
        }
        return Err(IsoError::InvalidData);
    }
    let ghost m3 = out@;
    proof {
        lemma_append_prefix(m2, nested_bytes::<TrackFragmentBox>(v.traf));
        lemma_prefix_trans(before, m2, m3);
    }
    if write_nested_opt(&x.udta, out).is_err() {
        proof {
            lemma_prefix_trans(before, m3, out@);
        }
        return Err(IsoError::InvalidData);
    }
    let ghost m4 = out@;
    proof {
        lemma_append_prefix(m3, nested_opt_bytes::<UserDataBox>(v.udta));
        lemma_prefix_trans(before, m3, m4);
    }
    proof {
        let l1 = nested_box_bytes::<MovieFragmentHeaderBox>(v.mfhd);
        assert(m1 == before + l1);
        let l2 = l1 + nested_opt_bytes::<MetaBox>(v.meta);
        vstd::seq_lib::lemma_concat_associative(before, l1, nested_opt_bytes::<MetaBox>(v.meta));
        assert(m2 == before + l2);
        let l3 = l2 + nested_bytes::<TrackFragmentBox>(v.traf);
        vstd::seq_lib::lemma_concat_associative(before, l2, nested_bytes::<TrackFragmentBox>(v.traf));
        assert(m3 == before + l3);
        let l4 = l3 + nested_opt_bytes::<UserDataBox>(v.udta);
        vstd::seq_lib::lemma_concat_associative(before, l3, nested_opt_bytes::<UserDataBox>(v.udta));
        assert(m4 == before + l4);
        assert(moof_children_bytes(v) == l4);
        lemma_append_prefix(before, moof_children_bytes(v));
    }
    Ok(())
}

/// The boxes that a moof writes, read from their bytes one list after the other.
#[verifier::spinoff_prover]
#[verifier::rlimit(100)]
proof fn lemma_moof_children_chain(v: MovieFragmentBoxModel)
    requires
        moof_canonical(v),
    ensures
        spec_children(nested_box_bytes::<MovieFragmentHeaderBox>(v.mfhd) + (nested_opt_bytes::<MetaBox>(v.meta) + (nested_bytes::<TrackFragmentBox>(v.traf) + (nested_opt_bytes::<UserDataBox>(v.udta))))) == seq![nested_model::<MovieFragmentHeaderBox>(v.mfhd)] + (nested_opt_models::<MetaBox>(v.meta) + (nested_models::<TrackFragmentBox>(v.traf) + (nested_opt_models::<UserDataBox>(v.udta)))),
{
    let b0 = nested_box_bytes::<MovieFragmentHeaderBox>(v.mfhd);
    let s0 = seq![nested_model::<MovieFragmentHeaderBox>(v.mfhd)];
    let b1 = nested_opt_bytes::<MetaBox>(v.meta);
    let s1 = nested_opt_models::<MetaBox>(v.meta);
    let b2 = nested_bytes::<TrackFragmentBox>(v.traf);
    let s2 = nested_models::<TrackFragmentBox>(v.traf);
    let b3 = nested_opt_bytes::<UserDataBox>(v.udta);
    let s3 = nested_opt_models::<UserDataBox>(v.udta);
    crate::children::lemma_children_empty();
    let t3 = b3;
    let u3 = s3;
    assert(b3 + Seq::<u8>::empty() =~= b3);
    assert(s3 + Seq::<UnknownBoxModel>::empty() =~= s3);
    lemma_nested_opt_seq::<UserDataBox>(v.udta, Seq::<u8>::empty());
    assert(spec_children(t3) == u3);
    let t2 = b2 + t3;
    let u2 = s2 + u3;
    lemma_nested_seq::<TrackFragmentBox>(v.traf, t3);
    assert(spec_children(t2) == u2);
    let t1 = b1 + t2;
    let u1 = s1 + u2;
    lemma_nested_opt_seq::<MetaBox>(v.meta, t2);
    assert(spec_children(t1) == u1);
    let t0 = b0 + t1;
    let u0 = s0 + u1;
    lemma_nested_cons::<MovieFragmentHeaderBox>(v.mfhd, t1);
    assert(spec_children(t0) == u0);
}

/// The boxes that a moof writes read back as their models.
#[verifier::spinoff_prover]
#[verifier::rlimit(100)]
proof fn lemma_moof_children(v: MovieFragmentBoxModel)
    requires
        moof_canonical(v),
    ensures
        spec_children(moof_children_bytes(v)) == moof_models(v),
{
    lemma_moof_children_chain(v);
    let b0 = nested_box_bytes::<MovieFragmentHeaderBox>(v.mfhd);
    let s0 = seq![nested_model::<MovieFragmentHeaderBox>(v.mfhd)];
    let b1 = nested_opt_bytes::<MetaBox>(v.meta);
    let s1 = nested_opt_models::<MetaBox>(v.meta);
    let b2 = nested_bytes::<TrackFragmentBox>(v.traf);
    let s2 = nested_models::<TrackFragmentBox>(v.traf);
    let b3 = nested_opt_bytes::<UserDataBox>(v.udta);
    let s3 = nested_opt_models::<UserDataBox>(v.udta);
    let t3 = b3;
    let u3 = s3;
    let t2 = b2 + t3;
    let u2 = s2 + u3;
    let t1 = b1 + t2;
    let u1 = s1 + u2;
    let t0 = b0 + t1;
    let u0 = s0 + u1;
    let t4 = Seq::<u8>::empty();
    let u4 = Seq::<UnknownBoxModel>::empty();
    assert(b3 + t4 =~= t3);
    assert(s3 + u4 =~= u3);
    let l0 = Seq::<u8>::empty();
    let k0 = Seq::<UnknownBoxModel>::empty();
    assert(l0 + t0 =~= t0);
    assert(k0 + u0 =~= u0);
    let l1 = b0;
    let k1 = s0;
    assert(l1 + t1 == l0 + t0);
    assert(k1 + u1 == k0 + u0);
    let l2 = l1 + b1;
    let k2 = k1 + s1;
    vstd::seq_lib::lemma_concat_associative(l1, b1, t2);
    vstd::seq_lib::lemma_concat_associative(k1, s1, u2);
    assert(l2 + t2 == l1 + t1);
    assert(k2 + u2 == k1 + u1);
    let l3 = l2 + b2;
    let k3 = k2 + s2;
    vstd::seq_lib::lemma_concat_associative(l2, b2, t3);
    vstd::seq_lib::lemma_concat_associative(k2, s2, u3);
    assert(l3 + t3 == l2 + t2);
    assert(k3 + u3 == k2 + u2);
    let l4 = l3 + b3;
    let k4 = k3 + s3;
    vstd::seq_lib::lemma_concat_associative(l3, b3, t4);
    vstd::seq_lib::lemma_concat_associative(k3, s3, u4);
    assert(l4 + t4 == l3 + t3);
    assert(k4 + u4 == k3 + u3);
    assert(l4 + t4 =~= l4);
    assert(k4 + u4 =~= k4);
    assert(moof_children_bytes(v) == l4);
    assert(moof_models(v) == k4);
}

/// No box that a moof writes fails to read.
#[verifier::spinoff_prover]
#[verifier::rlimit(60)]
proof fn lemma_moof_no_fault(v: MovieFragmentBoxModel, j: int)
    requires
        moof_canonical(v),
        moof_types_differ(),
        0 <= j < moof_models(v).len(),
    ensures
        moof_fault(moof_models(v)[j]) is None,
{
    let cs = moof_models(v);
    let s0 = seq![nested_model::<MovieFragmentHeaderBox>(v.mfhd)];
    let s1 = nested_opt_models::<MetaBox>(v.meta);
    let s2 = nested_models::<TrackFragmentBox>(v.traf);
    let s3 = nested_opt_models::<UserDataBox>(v.udta);
    let n0: int = 0;
    let n1: int = n0 + s0.len();
    let n2: int = n1 + s1.len();
    let n3: int = n2 + s2.len();
    let n4: int = n3 + s3.len();
    if j < n1 {
        assert(cs[j] == s0[j - n0]);
        lemma_nested_cons::<MovieFragmentHeaderBox>(v.mfhd, Seq::empty());
    } else if j < n2 {
        assert(cs[j] == s1[j - n1]);
        lemma_nested_cons::<MetaBox>(v.meta.unwrap(), Seq::empty());
    } else if j < n3 {
        assert(cs[j] == s2[j - n2]);
        assert(nested_ok::<TrackFragmentBox>(v.traf[j - n2]));
        lemma_nested_cons::<TrackFragmentBox>(v.traf[j - n2], Seq::empty());
    } else if j < n4 {
        assert(cs[j] == s3[j - n3]);
        lemma_nested_cons::<UserDataBox>(v.udta.unwrap(), Seq::empty());
    }
}

/// Collecting over the lists of a moof one after the other collects over each in
/// turn.
proof fn lemma_moof_split<T: BoxBody>(m0: Seq<UnknownBoxModel>, m1: Seq<UnknownBoxModel>, m2: Seq<UnknownBoxModel>, m3: Seq<UnknownBoxModel>)
    ensures
        collect_children::<T>(m0 + m1 + m2 + m3) == collect_children::<T>(m0) + collect_children::<T>(m1) + collect_children::<T>(m2) + collect_children::<T>(m3),
{
    lemma_collect_add::<T>(m0 + m1 + m2, m3);
    lemma_collect_add::<T>(m0 + m1, m2);
    lemma_collect_add::<T>(m0, m1);
}

/// The boxes that a moof writes collect back into its field `mfhd`.
#[verifier::spinoff_prover]
#[verifier::rlimit(60)]
proof fn lemma_moof_collect_mfhd(v: MovieFragmentBoxModel)
    requires
        moof_canonical(v),
        moof_types_differ(),
    ensures
        collect_children::<MovieFragmentHeaderBox>(moof_models(v)) == seq![v.mfhd],
{
    lemma_moof_split::<MovieFragmentHeaderBox>(seq![nested_model::<MovieFragmentHeaderBox>(v.mfhd)], nested_opt_models::<MetaBox>(v.meta), nested_models::<TrackFragmentBox>(v.traf), nested_opt_models::<UserDataBox>(v.udta));
    lemma_nested_opt_own::<MovieFragmentHeaderBox>(Some(v.mfhd));
    assert(nested_opt_models::<MovieFragmentHeaderBox>(Some(v.mfhd)) == seq![nested_model::<MovieFragmentHeaderBox>(v.mfhd)]);
    lemma_nested_opt_other::<MovieFragmentHeaderBox, MetaBox>(v.meta);
    lemma_nested_collect_other::<MovieFragmentHeaderBox, TrackFragmentBox>(v.traf);
    lemma_nested_opt_other::<MovieFragmentHeaderBox, UserDataBox>(v.udta);
    assert(collect_children::<MovieFragmentHeaderBox>(moof_models(v)) =~= seq![v.mfhd]);
}

/// The boxes that a moof writes collect back into its field `meta`.
#[verifier::spinoff_prover]
#[verifier::rlimit(60)]
proof fn lemma_moof_collect_meta(v: MovieFragmentBoxModel)
    requires
        moof_canonical(v),
        moof_types_differ(),
    ensures
        collect_children::<MetaBox>(moof_models(v)) == opt_seq(v.meta),
{
    lemma_moof_split::<MetaBox>(seq![nested_model::<MovieFragmentHeaderBox>(v.mfhd)], nested_opt_models::<MetaBox>(v.meta), nested_models::<TrackFragmentBox>(v.traf), nested_opt_models::<UserDataBox>(v.udta));
    lemma_nested_opt_other::<MetaBox, MovieFragmentHeaderBox>(Some(v.mfhd));
    assert(nested_opt_models::<MovieFragmentHeaderBox>(Some(v.mfhd)) == seq![nested_model::<MovieFragmentHeaderBox>(v.mfhd)]);
    lemma_nested_opt_own::<MetaBox>(v.meta);
    lemma_nested_collect_other::<MetaBox, TrackFragmentBox>(v.traf);
    lemma_nested_opt_other::<MetaBox, UserDataBox>(v.udta);
    assert(collect_children::<MetaBox>(moof_models(v)) =~= opt_seq(v.meta));
}

/// The boxes that a moof writes collect back into its field `traf`.
#[verifier::spinoff_prover]
#[verifier::rlimit(60)]
proof fn lemma_moof_collect_traf(v: MovieFragmentBoxModel)
    requires
        moof_canonical(v),
        moof_types_differ(),
    ensures
        collect_children::<TrackFragmentBox>(moof_models(v)) == v.traf,
{
    lemma_moof_split::<TrackFragmentBox>(seq![nested_model::<MovieFragmentHeaderBox>(v.mfhd)], nested_opt_models::<MetaBox>(v.meta), nested_models::<TrackFragmentBox>(v.traf), nested_opt_models::<UserDataBox>(v.udta));
    lemma_nested_opt_other::<TrackFragmentBox, MovieFragmentHeaderBox>(Some(v.mfhd));
    assert(nested_opt_models::<MovieFragmentHeaderBox>(Some(v.mfhd)) == seq![nested_model::<MovieFragmentHeaderBox>(v.mfhd)]);
    lemma_nested_opt_other::<TrackFragmentBox, MetaBox>(v.meta);
    lemma_nested_collect_own::<TrackFragmentBox>(v.traf);
    lemma_nested_opt_other::<TrackFragmentBox, UserDataBox>(v.udta);
    assert(collect_children::<TrackFragmentBox>(moof_models(v)) =~= v.traf);
}

/// The boxes that a moof writes collect back into its field `udta`.
#[verifier::spinoff_prover]
#[verifier::rlimit(60)]
proof fn lemma_moof_collect_udta(v: MovieFragmentBoxModel)
    requires
        moof_canonical(v),
        moof_types_differ(),
    ensures
        collect_children::<UserDataBox>(moof_models(v)) == opt_seq(v.udta),
{
    lemma_moof_split::<UserDataBox>(seq![nested_model::<MovieFragmentHeaderBox>(v.mfhd)], nested_opt_models::<MetaBox>(v.meta), nested_models::<TrackFragmentBox>(v.traf), nested_opt_models::<UserDataBox>(v.udta));
    lemma_nested_opt_other::<UserDataBox, MovieFragmentHeaderBox>(Some(v.mfhd));
    assert(nested_opt_models::<MovieFragmentHeaderBox>(Some(v.mfhd)) == seq![nested_model::<MovieFragmentHeaderBox>(v.mfhd)]);
    lemma_nested_opt_other::<UserDataBox, MetaBox>(v.meta);
    lemma_nested_collect_other::<UserDataBox, TrackFragmentBox>(v.traf);
    lemma_nested_opt_own::<UserDataBox>(v.udta);
    assert(collect_children::<UserDataBox>(moof_models(v)) =~= opt_seq(v.udta));
}

/// Writing a moof and reading its payload back gives it again.
#[verifier::spinoff_prover]
#[verifier::rlimit(100)]
proof fn lemma_moof_roundtrip(v: MovieFragmentBoxModel)
    requires
        moof_canonical(v),
    ensures
        moof_parse(moof_bytes(v)) == Ok::<MovieFragmentBoxModel, IsoError>(v),
{
    let s = moof_bytes(v);
    lemma_moof_children(v);
    lemma_moof_types();
    let cs = moof_models(v);
    let fault = |c: UnknownBoxModel| moof_fault(c);
    assert forall|j: int| 0 <= j < cs.len() implies (#[trigger] fault(cs[j])) is None by {
        lemma_moof_no_fault(v, j);
    }
    lemma_first_fault(cs, fault, cs.len() as int);
    assert(cs.take(cs.len() as int) =~= cs);
    lemma_moof_collect_mfhd(v);
    lemma_moof_collect_meta(v);
    lemma_moof_collect_traf(v);
    lemma_moof_collect_udta(v);
    assert(spec_children(s) == cs);
    assert(last_child::<MovieFragmentHeaderBox>(cs) == Some(v.mfhd));
    assert(last_child::<MetaBox>(cs) == v.meta);
    assert(last_child::<UserDataBox>(cs) == v.udta);
}

/// For a value that reads back as itself, the size is that of its payload and header.
#[verifier::spinoff_prover]
#[verifier::rlimit(60)]
proof fn lemma_moof_size(x: MovieFragmentBox)
    requires
        moof_canonical(x@),
    ensures
        x.mfhd.spec_size() + nested_opt_size::<MetaBox>(x.meta) + nested_sizes::<TrackFragmentBox>(x.traf@) + nested_opt_size::<UserDataBox>(x.udta) == moof_bytes(x@).len(),
{
    let v = x@;
    lemma_nested_size::<MovieFragmentHeaderBox>(x.mfhd);
    lemma_nested_opt_size::<MetaBox>(x.meta);
    lemma_nested_sizes::<TrackFragmentBox>(x.traf@);
    lemma_nested_opt_size::<UserDataBox>(x.udta);
}

impl BoxBody for MovieFragmentBox {
    open spec fn spec_box_type() -> [u8; 4] {
        [0x6du8, 0x6fu8, 0x6fu8, 0x66u8]
    }

    fn box_type() -> (r: [u8; 4]) {
        [0x6du8, 0x6fu8, 0x6fu8, 0x66u8]
    }

    open spec fn spec_parse_body(s: Seq<u8>) -> Result<MovieFragmentBoxModel, IsoError> {
        moof_parse(s)
    }

    open spec fn spec_writable(v: MovieFragmentBoxModel) -> bool {
        moof_writable(v)
    }

    open spec fn spec_serialize_body(v: MovieFragmentBoxModel) -> Seq<u8> {
        moof_bytes(v)
    }

    open spec fn spec_canonical(v: MovieFragmentBoxModel) -> bool {
        moof_canonical(v)
    }

    proof fn lemma_box_type() {
        assert(Self::spec_box_type()[0] != spec_uuid_fourcc()[0]);
    }

    proof fn lemma_body_size(x: MovieFragmentBox) {
        lemma_moof_size(x);
    }

    proof fn lemma_body_roundtrip(v: MovieFragmentBoxModel) {
        lemma_moof_roundtrip(v);
    }

    fn parse_body(payload: &[u8]) -> (r: Result<MovieFragmentBox, IsoError>) {
        parse_moof(payload)
    }

    #[verifier::spinoff_prover]
    #[verifier::rlimit(60)]
    fn serialize_body(&self, out: &mut Vec<u8>) -> (r: Result<(), IsoError>) {
        write_moof_children(self, out)
    }
}

} // verus!
