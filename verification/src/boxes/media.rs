//! The media box and the media information box of a track.

use vstd::prelude::*;

use crate::children::{
    child_fault, child_value, collect_children, collect_into, collect_unknown, first_fault, is_child, is_child_exec,
    last_child, lemma_child_other, lemma_child_read, lemma_collect_add, lemma_collect_none, lemma_collect_step,
    lemma_first_fault, lemma_unknown_add, lemma_unknown_all_known, lemma_unknown_none_known, lemma_unknown_step,
    lemma_unknown_seq, read_children, replace_into, scan_result, spec_children,
};
use crate::codec::{
    be_u16_at, be_u24_at, be_u32_at, lemma_append_prefix, lemma_prefix_trans, lemma_u16_at, lemma_u24_at,
    lemma_u32_at, read_u16_at, read_u24_at, read_u32_at, u16_bytes, u24_bytes, u32_bytes, write_bytes, write_u16,
    write_u24, write_u32, write_u8, IsoError,
};
use crate::frame::{add_header_size, add_header_size_exec, BoxBody, UnknownBox, UnknownBoxModel};
use crate::header::{spec_uuid_fourcc, FullBoxHeader};
use crate::nested::{
    lemma_nested_collect_other, lemma_nested_collect_own, lemma_nested_cons, lemma_nested_opt_other,
    lemma_nested_opt_own, lemma_nested_opt_seq, lemma_nested_opt_size, lemma_nested_seq, lemma_nested_size,
    lemma_nested_sizes, lemma_unknown_seq_rest, nested_all_ok, nested_all_writable, nested_box_bytes, nested_bytes,
    nested_model,
    nested_models, nested_ok, nested_opt_bytes, nested_opt_models, nested_opt_ok, nested_opt_size,
    nested_opt_writable, nested_sizes, nested_writable, opt_seq, opt_view, size_nested_opt, size_nested_vec,
    write_nested, write_nested_opt, write_nested_vec,
};
use crate::wire::{
    lemma_size_seq, lemma_size_seq_mono, ser_seq, serialize_all, size_all, size_seq, views, writable_seq,
    write_matches, IsoSized, Wire,
};
use crate::boxes::audio_media::SoundMediaHeaderBox;
use crate::boxes::data_reference::DataInformationBox;
use crate::boxes::media_headers::MediaHeaderBox;
use crate::boxes::sample_table_box::SampleTableBox;
use crate::boxes::track_media::{
    ExtendedLanguageBox, HandlerBox, HintMediaHeaderBox, SubtitleMediaHeaderBox, VideoMediaHeaderBox, VolumetricVisualMediaHeaderBox,
};

verus! {

/// Media information box
///
/// `minf`
///
/// ISO/IEC 14496-12 - 8.4.4
#[derive(Debug)]
pub struct MediaInformationBox {
    /// The contained [`VideoMediaHeaderBox`]. (optional)
    pub vmhd: Option<VideoMediaHeaderBox>,
    /// The contained [`SoundMediaHeaderBox`]. (optional)
    pub smhd: Option<SoundMediaHeaderBox>,
    /// The contained [`HintMediaHeaderBox`]. (optional)
    pub hmhd: Option<HintMediaHeaderBox>,
    /// The contained [`SubtitleMediaHeaderBox`]. (optional)
    pub sthd: Option<SubtitleMediaHeaderBox>,
    /// The contained [`VolumetricVisualMediaHeaderBox`]. (optional)
    pub vvhd: Option<VolumetricVisualMediaHeaderBox>,
    /// The boxes of other types, kept as they are.
    pub unknown_boxes: Vec<UnknownBox>,
    /// The contained [`DataInformationBox`]. (mandatory)
    pub dinf: DataInformationBox,
    /// The contained [`SampleTableBox`]. (mandatory)
    pub stbl: SampleTableBox,
}

/// The model of a [`MediaInformationBox`].
pub struct MediaInformationBoxModel {
    pub vmhd: Option<<VideoMediaHeaderBox as View>::V>,
    pub smhd: Option<<SoundMediaHeaderBox as View>::V>,
    pub hmhd: Option<<HintMediaHeaderBox as View>::V>,
    pub sthd: Option<<SubtitleMediaHeaderBox as View>::V>,
    pub vvhd: Option<<VolumetricVisualMediaHeaderBox as View>::V>,
    pub unknown_boxes: Seq<UnknownBoxModel>,
    pub dinf: <DataInformationBox as View>::V,
    pub stbl: <SampleTableBox as View>::V,
}

impl View for MediaInformationBox {
    type V = MediaInformationBoxModel;

    open spec fn view(&self) -> MediaInformationBoxModel {
        MediaInformationBoxModel {
            vmhd: opt_view(self.vmhd),
            smhd: opt_view(self.smhd),
            hmhd: opt_view(self.hmhd),
            sthd: opt_view(self.sthd),
            vvhd: opt_view(self.vvhd),
            unknown_boxes: views(self.unknown_boxes@),
            dinf: self.dinf@,
            stbl: self.stbl@,
        }
    }
}

/// Whether a box found in a minf has one of the types that it reads.
pub open spec fn minf_known(c: UnknownBoxModel) -> bool {
    is_child::<VideoMediaHeaderBox>(c) || is_child::<SoundMediaHeaderBox>(c) || is_child::<HintMediaHeaderBox>(c) || is_child::<SubtitleMediaHeaderBox>(c) || is_child::<VolumetricVisualMediaHeaderBox>(c) || is_child::<DataInformationBox>(c) || is_child::<SampleTableBox>(c)
}

/// The failure of reading a box of a known type found in a minf.
pub open spec fn minf_fault(c: UnknownBoxModel) -> Option<IsoError> {
    if is_child::<VideoMediaHeaderBox>(c) {
        child_fault::<VideoMediaHeaderBox>(c)
    }     else if is_child::<SoundMediaHeaderBox>(c) {
        child_fault::<SoundMediaHeaderBox>(c)
    }     else if is_child::<HintMediaHeaderBox>(c) {
        child_fault::<HintMediaHeaderBox>(c)
    }     else if is_child::<SubtitleMediaHeaderBox>(c) {
        child_fault::<SubtitleMediaHeaderBox>(c)
    }     else if is_child::<VolumetricVisualMediaHeaderBox>(c) {
        child_fault::<VolumetricVisualMediaHeaderBox>(c)
    }     else if is_child::<DataInformationBox>(c) {
        child_fault::<DataInformationBox>(c)
    }     else if is_child::<SampleTableBox>(c) {
        child_fault::<SampleTableBox>(c)
    } else {
        None
    }
}

/// What a minf reads from its payload: the boxes before the first that fails, each box of a known type in its field (the
/// last one for a single field, which must be there where it is required) and every
/// other box kept as it is.
pub open spec fn minf_parse(s: Seq<u8>) -> Result<MediaInformationBoxModel, IsoError> {
    let cs = spec_children(s);
    match scan_result(cs, |c: UnknownBoxModel| minf_fault(c)) {
        Err(e) => Err(e),
        Ok(k) => {
            let p = cs.take(k as int);
            match last_child::<DataInformationBox>(p) {
                None => Err(IsoError::InvalidData),
                Some(dinf) =>                 match last_child::<SampleTableBox>(p) {
                    None => Err(IsoError::InvalidData),
                    Some(stbl) => Ok(
                        MediaInformationBoxModel {
                            vmhd: last_child::<VideoMediaHeaderBox>(p),
                            smhd: last_child::<SoundMediaHeaderBox>(p),
                            hmhd: last_child::<HintMediaHeaderBox>(p),
                            sthd: last_child::<SubtitleMediaHeaderBox>(p),
                            vvhd: last_child::<VolumetricVisualMediaHeaderBox>(p),
                            unknown_boxes: collect_unknown(p, |c: UnknownBoxModel| minf_known(c)),
                            dinf: dinf,
                            stbl: stbl,
                        },
                    ),
                },
            }
        },
    }
}

/// The bytes of the boxes that a minf holds, in the order of its fields.
pub open spec fn minf_children_bytes(v: MediaInformationBoxModel) -> Seq<u8> {
    nested_opt_bytes::<VideoMediaHeaderBox>(v.vmhd)
        + nested_opt_bytes::<SoundMediaHeaderBox>(v.smhd)
        + nested_opt_bytes::<HintMediaHeaderBox>(v.hmhd)
        + nested_opt_bytes::<SubtitleMediaHeaderBox>(v.sthd)
        + nested_opt_bytes::<VolumetricVisualMediaHeaderBox>(v.vvhd)
        + ser_seq::<UnknownBox>(v.unknown_boxes)
        + nested_box_bytes::<DataInformationBox>(v.dinf)
        + nested_box_bytes::<SampleTableBox>(v.stbl)
}

/// The boxes, as found in a container, that a minf writes.
pub open spec fn minf_models(v: MediaInformationBoxModel) -> Seq<UnknownBoxModel> {
    nested_opt_models::<VideoMediaHeaderBox>(v.vmhd)
        + nested_opt_models::<SoundMediaHeaderBox>(v.smhd)
        + nested_opt_models::<HintMediaHeaderBox>(v.hmhd)
        + nested_opt_models::<SubtitleMediaHeaderBox>(v.sthd)
        + nested_opt_models::<VolumetricVisualMediaHeaderBox>(v.vvhd)
        + v.unknown_boxes
        + seq![nested_model::<DataInformationBox>(v.dinf)]
        + seq![nested_model::<SampleTableBox>(v.stbl)]
}

/// The payload that a minf writes.
pub open spec fn minf_bytes(v: MediaInformationBoxModel) -> Seq<u8> {
    minf_children_bytes(v)
}

/// Every box of a known type can be written.
pub open spec fn minf_writable(v: MediaInformationBoxModel) -> bool {
    &&& nested_opt_writable::<VideoMediaHeaderBox>(v.vmhd)
    &&& nested_opt_writable::<SoundMediaHeaderBox>(v.smhd)
    &&& nested_opt_writable::<HintMediaHeaderBox>(v.hmhd)
    &&& nested_opt_writable::<SubtitleMediaHeaderBox>(v.sthd)
    &&& nested_opt_writable::<VolumetricVisualMediaHeaderBox>(v.vvhd)
    &&& nested_writable::<DataInformationBox>(v.dinf)
    &&& nested_writable::<SampleTableBox>(v.stbl)
}

/// Every box of a known type reads back as itself, and every other box is of
/// another type and announces exactly its payload.
pub open spec fn minf_canonical(v: MediaInformationBoxModel) -> bool {
    &&& nested_opt_ok::<VideoMediaHeaderBox>(v.vmhd)
    &&& nested_opt_ok::<SoundMediaHeaderBox>(v.smhd)
    &&& nested_opt_ok::<HintMediaHeaderBox>(v.hmhd)
    &&& nested_opt_ok::<SubtitleMediaHeaderBox>(v.sthd)
    &&& nested_opt_ok::<VolumetricVisualMediaHeaderBox>(v.vvhd)
    &&& nested_ok::<DataInformationBox>(v.dinf)
    &&& nested_ok::<SampleTableBox>(v.stbl)
    &&& forall|i: int|
        0 <= i < v.unknown_boxes.len() ==> UnknownBox::spec_canonical(#[trigger] v.unknown_boxes[i]) && !minf_known(
            v.unknown_boxes[i],
        )
}

impl IsoSized for MediaInformationBox {
    open spec fn spec_size(&self) -> nat {
        add_header_size(nested_opt_size::<VideoMediaHeaderBox>(self.vmhd) + nested_opt_size::<SoundMediaHeaderBox>(self.smhd) + nested_opt_size::<HintMediaHeaderBox>(self.hmhd) + nested_opt_size::<SubtitleMediaHeaderBox>(self.sthd) + nested_opt_size::<VolumetricVisualMediaHeaderBox>(self.vvhd) + size_seq::<UnknownBox>(self.unknown_boxes@) + self.dinf.spec_size() + self.stbl.spec_size())
    }

    fn size(&self) -> (n: usize) {
        proof {
            lemma_size_seq_mono::<UnknownBox>(self.unknown_boxes@, 0);
        }
        let mut n: usize = 0;
        n = n + size_nested_opt(&self.vmhd);
        n = n + size_nested_opt(&self.smhd);
        n = n + size_nested_opt(&self.hmhd);
        n = n + size_nested_opt(&self.sthd);
        n = n + size_nested_opt(&self.vvhd);
        n = n + size_all(&self.unknown_boxes);
        n = n + self.dinf.size();
        n = n + self.stbl.size();
        add_header_size_exec(n)
    }
}

/// The fields of a minf read so far.
pub struct MediaInformationBoxScan {
    pub vmhd: Option<VideoMediaHeaderBox>,
    pub smhd: Option<SoundMediaHeaderBox>,
    pub hmhd: Option<HintMediaHeaderBox>,
    pub sthd: Option<SubtitleMediaHeaderBox>,
    pub vvhd: Option<VolumetricVisualMediaHeaderBox>,
    pub unknown_boxes: Vec<UnknownBox>,
    pub dinf: Option<DataInformationBox>,
    pub stbl: Option<SampleTableBox>,
}

/// The model of a [`MediaInformationBoxScan`].
pub struct MediaInformationBoxScanModel {
    pub vmhd: Option<<VideoMediaHeaderBox as View>::V>,
    pub smhd: Option<<SoundMediaHeaderBox as View>::V>,
    pub hmhd: Option<<HintMediaHeaderBox as View>::V>,
    pub sthd: Option<<SubtitleMediaHeaderBox as View>::V>,
    pub vvhd: Option<<VolumetricVisualMediaHeaderBox as View>::V>,
    pub unknown_boxes: Seq<UnknownBoxModel>,
    pub dinf: Option<<DataInformationBox as View>::V>,
    pub stbl: Option<<SampleTableBox as View>::V>,
}

impl View for MediaInformationBoxScan {
    type V = MediaInformationBoxScanModel;

    open spec fn view(&self) -> MediaInformationBoxScanModel {
        MediaInformationBoxScanModel {
            vmhd: opt_view(self.vmhd),
            smhd: opt_view(self.smhd),
            hmhd: opt_view(self.hmhd),
            sthd: opt_view(self.sthd),
            vvhd: opt_view(self.vvhd),
            unknown_boxes: views(self.unknown_boxes@),
            dinf: opt_view(self.dinf),
            stbl: opt_view(self.stbl),
        }
    }
}

/// What a minf holds after reading the boxes of `p`.
pub open spec fn minf_prefix(p: Seq<UnknownBoxModel>) -> MediaInformationBoxScanModel {
    MediaInformationBoxScanModel {
        vmhd: last_child::<VideoMediaHeaderBox>(p),
        smhd: last_child::<SoundMediaHeaderBox>(p),
        hmhd: last_child::<HintMediaHeaderBox>(p),
        sthd: last_child::<SubtitleMediaHeaderBox>(p),
        vvhd: last_child::<VolumetricVisualMediaHeaderBox>(p),
        unknown_boxes: collect_unknown(p, |c: UnknownBoxModel| minf_known(c)),
        dinf: last_child::<DataInformationBox>(p),
        stbl: last_child::<SampleTableBox>(p),
    }
}

/// What a minf holds after reading one more box that does not fail.
pub open spec fn minf_extend(m: MediaInformationBoxScanModel, c: UnknownBoxModel) -> MediaInformationBoxScanModel {
    MediaInformationBoxScanModel {
        vmhd: match child_value::<VideoMediaHeaderBox>(c) {
            Some(v) => Some(v),
            None => m.vmhd,
        },
        smhd: match child_value::<SoundMediaHeaderBox>(c) {
            Some(v) => Some(v),
            None => m.smhd,
        },
        hmhd: match child_value::<HintMediaHeaderBox>(c) {
            Some(v) => Some(v),
            None => m.hmhd,
        },
        sthd: match child_value::<SubtitleMediaHeaderBox>(c) {
            Some(v) => Some(v),
            None => m.sthd,
        },
        vvhd: match child_value::<VolumetricVisualMediaHeaderBox>(c) {
            Some(v) => Some(v),
            None => m.vvhd,
        },
        unknown_boxes: if minf_known(c) {
            m.unknown_boxes
        } else {
            m.unknown_boxes.push(c)
        },
        dinf: match child_value::<DataInformationBox>(c) {
            Some(v) => Some(v),
            None => m.dinf,
        },
        stbl: match child_value::<SampleTableBox>(c) {
            Some(v) => Some(v),
            None => m.stbl,
        },
    }
}

/// The types that a minf reads differ from one another.
pub open spec fn minf_types_differ() -> bool {
    &&& VideoMediaHeaderBox::spec_box_type() != SoundMediaHeaderBox::spec_box_type()
    &&& VideoMediaHeaderBox::spec_box_type() != HintMediaHeaderBox::spec_box_type()
    &&& VideoMediaHeaderBox::spec_box_type() != SubtitleMediaHeaderBox::spec_box_type()
    &&& VideoMediaHeaderBox::spec_box_type() != VolumetricVisualMediaHeaderBox::spec_box_type()
    &&& VideoMediaHeaderBox::spec_box_type() != DataInformationBox::spec_box_type()
    &&& VideoMediaHeaderBox::spec_box_type() != SampleTableBox::spec_box_type()
    &&& SoundMediaHeaderBox::spec_box_type() != HintMediaHeaderBox::spec_box_type()
    &&& SoundMediaHeaderBox::spec_box_type() != SubtitleMediaHeaderBox::spec_box_type()
    &&& SoundMediaHeaderBox::spec_box_type() != VolumetricVisualMediaHeaderBox::spec_box_type()
    &&& SoundMediaHeaderBox::spec_box_type() != DataInformationBox::spec_box_type()
    &&& SoundMediaHeaderBox::spec_box_type() != SampleTableBox::spec_box_type()
    &&& HintMediaHeaderBox::spec_box_type() != SubtitleMediaHeaderBox::spec_box_type()
    &&& HintMediaHeaderBox::spec_box_type() != VolumetricVisualMediaHeaderBox::spec_box_type()
    &&& HintMediaHeaderBox::spec_box_type() != DataInformationBox::spec_box_type()
    &&& HintMediaHeaderBox::spec_box_type() != SampleTableBox::spec_box_type()
    &&& SubtitleMediaHeaderBox::spec_box_type() != VolumetricVisualMediaHeaderBox::spec_box_type()
    &&& SubtitleMediaHeaderBox::spec_box_type() != DataInformationBox::spec_box_type()
    &&& SubtitleMediaHeaderBox::spec_box_type() != SampleTableBox::spec_box_type()
    &&& VolumetricVisualMediaHeaderBox::spec_box_type() != DataInformationBox::spec_box_type()
    &&& VolumetricVisualMediaHeaderBox::spec_box_type() != SampleTableBox::spec_box_type()
    &&& DataInformationBox::spec_box_type() != SampleTableBox::spec_box_type()
}

proof fn lemma_minf_types()
    ensures
        minf_types_differ(),
{
    assert(VideoMediaHeaderBox::spec_box_type()[0] != SoundMediaHeaderBox::spec_box_type()[0]);
    assert(VideoMediaHeaderBox::spec_box_type()[0] != HintMediaHeaderBox::spec_box_type()[0]);
    assert(VideoMediaHeaderBox::spec_box_type()[0] != SubtitleMediaHeaderBox::spec_box_type()[0]);
    assert(VideoMediaHeaderBox::spec_box_type()[1] != VolumetricVisualMediaHeaderBox::spec_box_type()[1]);
    assert(VideoMediaHeaderBox::spec_box_type()[0] != DataInformationBox::spec_box_type()[0]);
    assert(VideoMediaHeaderBox::spec_box_type()[0] != SampleTableBox::spec_box_type()[0]);
    assert(SoundMediaHeaderBox::spec_box_type()[0] != HintMediaHeaderBox::spec_box_type()[0]);
    assert(SoundMediaHeaderBox::spec_box_type()[1] != SubtitleMediaHeaderBox::spec_box_type()[1]);
    assert(SoundMediaHeaderBox::spec_box_type()[0] != VolumetricVisualMediaHeaderBox::spec_box_type()[0]);
    assert(SoundMediaHeaderBox::spec_box_type()[0] != DataInformationBox::spec_box_type()[0]);
    assert(SoundMediaHeaderBox::spec_box_type()[1] != SampleTableBox::spec_box_type()[1]);
    assert(HintMediaHeaderBox::spec_box_type()[0] != SubtitleMediaHeaderBox::spec_box_type()[0]);
    assert(HintMediaHeaderBox::spec_box_type()[0] != VolumetricVisualMediaHeaderBox::spec_box_type()[0]);
    assert(HintMediaHeaderBox::spec_box_type()[0] != DataInformationBox::spec_box_type()[0]);
    assert(HintMediaHeaderBox::spec_box_type()[0] != SampleTableBox::spec_box_type()[0]);
    assert(SubtitleMediaHeaderBox::spec_box_type()[0] != VolumetricVisualMediaHeaderBox::spec_box_type()[0]);
    assert(SubtitleMediaHeaderBox::spec_box_type()[0] != DataInformationBox::spec_box_type()[0]);
    assert(SubtitleMediaHeaderBox::spec_box_type()[2] != SampleTableBox::spec_box_type()[2]);
    assert(VolumetricVisualMediaHeaderBox::spec_box_type()[0] != DataInformationBox::spec_box_type()[0]);
    assert(VolumetricVisualMediaHeaderBox::spec_box_type()[0] != SampleTableBox::spec_box_type()[0]);
    assert(DataInformationBox::spec_box_type()[0] != SampleTableBox::spec_box_type()[0]);
}

/// Reads one box found in a minf into its field.
#[verifier::spinoff_prover]
#[verifier::rlimit(60)]
fn minf_step(c: &UnknownBox, acc: &mut MediaInformationBoxScan) -> (r: Result<(), IsoError>)
    requires
        minf_types_differ(),
    ensures
        match r {
            Ok(()) => minf_fault(c@) is None && final(acc)@ == minf_extend(old(acc)@, c@),
            Err(e) => minf_fault(c@) == Some(e) && final(acc)@ == old(acc)@,
        },
{
    if is_child_exec::<VideoMediaHeaderBox>(c) {
        proof {
            lemma_child_other::<SoundMediaHeaderBox>(c@);
            lemma_child_other::<HintMediaHeaderBox>(c@);
            lemma_child_other::<SubtitleMediaHeaderBox>(c@);
            lemma_child_other::<VolumetricVisualMediaHeaderBox>(c@);
            lemma_child_other::<DataInformationBox>(c@);
            lemma_child_other::<SampleTableBox>(c@);
            lemma_child_read::<VideoMediaHeaderBox>(c@);
        }
        let r = replace_into(c, &mut acc.vmhd);
        proof {
            if r is Err {
                assert(acc@ =~= old(acc)@);
            }
            if r is Ok {
                assert(acc@ =~= minf_extend(old(acc)@, c@));
            }
        }
        r
    } else if is_child_exec::<SoundMediaHeaderBox>(c) {
        proof {
            lemma_child_other::<VideoMediaHeaderBox>(c@);
            lemma_child_other::<HintMediaHeaderBox>(c@);
            lemma_child_other::<SubtitleMediaHeaderBox>(c@);
            lemma_child_other::<VolumetricVisualMediaHeaderBox>(c@);
            lemma_child_other::<DataInformationBox>(c@);
            lemma_child_other::<SampleTableBox>(c@);
            lemma_child_read::<SoundMediaHeaderBox>(c@);
        }
        let r = replace_into(c, &mut acc.smhd);
        proof {
            if r is Err {
                assert(acc@ =~= old(acc)@);
            }
            if r is Ok {
                assert(acc@ =~= minf_extend(old(acc)@, c@));
            }
        }
        r
    } else if is_child_exec::<HintMediaHeaderBox>(c) {
        proof {
            lemma_child_other::<VideoMediaHeaderBox>(c@);
            lemma_child_other::<SoundMediaHeaderBox>(c@);
            lemma_child_other::<SubtitleMediaHeaderBox>(c@);
            lemma_child_other::<VolumetricVisualMediaHeaderBox>(c@);
            lemma_child_other::<DataInformationBox>(c@);
            lemma_child_other::<SampleTableBox>(c@);
            lemma_child_read::<HintMediaHeaderBox>(c@);
        }
        let r = replace_into(c, &mut acc.hmhd);
        proof {
            if r is Err {
                assert(acc@ =~= old(acc)@);
            }
            if r is Ok {
                assert(acc@ =~= minf_extend(old(acc)@, c@));
            }
        }
        r
    } else if is_child_exec::<SubtitleMediaHeaderBox>(c) {
        proof {
            lemma_child_other::<VideoMediaHeaderBox>(c@);
            lemma_child_other::<SoundMediaHeaderBox>(c@);
            lemma_child_other::<HintMediaHeaderBox>(c@);
            lemma_child_other::<VolumetricVisualMediaHeaderBox>(c@);
            lemma_child_other::<DataInformationBox>(c@);
            lemma_child_other::<SampleTableBox>(c@);
            lemma_child_read::<SubtitleMediaHeaderBox>(c@);
        }
        let r = replace_into(c, &mut acc.sthd);
        proof {
            if r is Err {
                assert(acc@ =~= old(acc)@);
            }
            if r is Ok {
                assert(acc@ =~= minf_extend(old(acc)@, c@));
            }
        }
        r
    } else if is_child_exec::<VolumetricVisualMediaHeaderBox>(c) {
        proof {
            lemma_child_other::<VideoMediaHeaderBox>(c@);
            lemma_child_other::<SoundMediaHeaderBox>(c@);
            lemma_child_other::<HintMediaHeaderBox>(c@);
            lemma_child_other::<SubtitleMediaHeaderBox>(c@);
            lemma_child_other::<DataInformationBox>(c@);
            lemma_child_other::<SampleTableBox>(c@);
            lemma_child_read::<VolumetricVisualMediaHeaderBox>(c@);
        }
        let r = replace_into(c, &mut acc.vvhd);
        proof {
            if r is Err {
                assert(acc@ =~= old(acc)@);
            }
            if r is Ok {
                assert(acc@ =~= minf_extend(old(acc)@, c@));
            }
        }
        r
    } else if is_child_exec::<DataInformationBox>(c) {
        proof {
            lemma_child_other::<VideoMediaHeaderBox>(c@);
            lemma_child_other::<SoundMediaHeaderBox>(c@);
            lemma_child_other::<HintMediaHeaderBox>(c@);
            lemma_child_other::<SubtitleMediaHeaderBox>(c@);
            lemma_child_other::<VolumetricVisualMediaHeaderBox>(c@);
            lemma_child_other::<SampleTableBox>(c@);
            lemma_child_read::<DataInformationBox>(c@);
        }
        let r = replace_into(c, &mut acc.dinf);
        proof {
            if r is Err {
                assert(acc@ =~= old(acc)@);
            }
            if r is Ok {
                assert(acc@ =~= minf_extend(old(acc)@, c@));
            }
        }
        r
    } else if is_child_exec::<SampleTableBox>(c) {
        proof {
            lemma_child_other::<VideoMediaHeaderBox>(c@);
            lemma_child_other::<SoundMediaHeaderBox>(c@);
            lemma_child_other::<HintMediaHeaderBox>(c@);
            lemma_child_other::<SubtitleMediaHeaderBox>(c@);
            lemma_child_other::<VolumetricVisualMediaHeaderBox>(c@);
            lemma_child_other::<DataInformationBox>(c@);
            lemma_child_read::<SampleTableBox>(c@);
        }
        let r = replace_into(c, &mut acc.stbl);
        proof {
            if r is Err {
                assert(acc@ =~= old(acc)@);
            }
            if r is Ok {
                assert(acc@ =~= minf_extend(old(acc)@, c@));
            }
        }
        r
    } else {
        proof {
            lemma_child_other::<VideoMediaHeaderBox>(c@);
            lemma_child_other::<SoundMediaHeaderBox>(c@);
            lemma_child_other::<HintMediaHeaderBox>(c@);
            lemma_child_other::<SubtitleMediaHeaderBox>(c@);
            lemma_child_other::<VolumetricVisualMediaHeaderBox>(c@);
            lemma_child_other::<DataInformationBox>(c@);
            lemma_child_other::<SampleTableBox>(c@);
        }
        let kept = UnknownBox { header: c.header, data: vstd::slice::slice_to_vec(c.data.as_slice()) };
        let ghost old_v = views(acc.unknown_boxes@);
        acc.unknown_boxes.push(kept);
        proof {
            assert(views(acc.unknown_boxes@) =~= old_v.push(c@));
            assert(acc@ =~= minf_extend(old(acc)@, c@));
        }
        Ok(())
    }
}

/// Reading one more box extends what was read by it.
proof fn lemma_minf_prefix_step(css: Seq<UnknownBoxModel>, i: int)
    requires
        0 <= i < css.len(),
    ensures
        minf_prefix(css.take(i + 1)) == minf_extend(minf_prefix(css.take(i)), css[i]),
{
    lemma_collect_step::<VideoMediaHeaderBox>(css, i);
    lemma_collect_step::<SoundMediaHeaderBox>(css, i);
    lemma_collect_step::<HintMediaHeaderBox>(css, i);
    lemma_collect_step::<SubtitleMediaHeaderBox>(css, i);
    lemma_collect_step::<VolumetricVisualMediaHeaderBox>(css, i);
    lemma_collect_step::<DataInformationBox>(css, i);
    lemma_collect_step::<SampleTableBox>(css, i);
    lemma_unknown_step(css, |c: UnknownBoxModel| minf_known(c), i);
    let a = minf_prefix(css.take(i + 1));
    let b = minf_extend(minf_prefix(css.take(i)), css[i]);
    assert(a.unknown_boxes =~= b.unknown_boxes);
}

/// Reads the payload of a minf.
#[verifier::spinoff_prover]
#[verifier::rlimit(60)]
fn parse_minf(payload: &[u8]) -> (r: Result<MediaInformationBox, IsoError>)
    ensures
        match (minf_parse(payload@), r) {
            (Ok(v), Ok(x)) => x@ == v,
            (Err(e), Err(f)) => e == f,
            _ => false,
        },
{
    let cs = read_children(payload);
    let ghost css = spec_children(payload@);
    let ghost fault = |c: UnknownBoxModel| minf_fault(c);
    let mut acc = MediaInformationBoxScan {
        vmhd: None,
        smhd: None,
        hmhd: None,
        sthd: None,
        vvhd: None,
        unknown_boxes: Vec::new(),
        dinf: None,
        stbl: None,
    };
    let mut i: usize = 0;
    let mut stop = false;
    proof {
        lemma_minf_types();
        let e = css.take(0);
        assert(e =~= Seq::<UnknownBoxModel>::empty());
        assert(collect_children::<VideoMediaHeaderBox>(e) =~= Seq::<<VideoMediaHeaderBox as View>::V>::empty());
        assert(collect_children::<SoundMediaHeaderBox>(e) =~= Seq::<<SoundMediaHeaderBox as View>::V>::empty());
        assert(collect_children::<HintMediaHeaderBox>(e) =~= Seq::<<HintMediaHeaderBox as View>::V>::empty());
        assert(collect_children::<SubtitleMediaHeaderBox>(e) =~= Seq::<<SubtitleMediaHeaderBox as View>::V>::empty());
        assert(collect_children::<VolumetricVisualMediaHeaderBox>(e) =~= Seq::<<VolumetricVisualMediaHeaderBox as View>::V>::empty());
        assert(collect_unknown(e, |c: UnknownBoxModel| minf_known(c)) =~= Seq::<UnknownBoxModel>::empty());
        assert(views(acc.unknown_boxes@) =~= Seq::<UnknownBoxModel>::empty());
        assert(collect_children::<DataInformationBox>(e) =~= Seq::<<DataInformationBox as View>::V>::empty());
        assert(collect_children::<SampleTableBox>(e) =~= Seq::<<SampleTableBox as View>::V>::empty());
        assert(acc@ =~= minf_prefix(e));
    }
    while i < cs.len() && !stop
        invariant
            views(cs@) == css,
            css == spec_children(payload@),
            fault == (|c: UnknownBoxModel| minf_fault(c)),
            minf_types_differ(),
            i <= cs@.len(),
            forall|j: int| 0 <= j < i ==> (#[trigger] fault(css[j])) is None,
            stop ==> i < css.len() && fault(css[i as int]) == Some(IsoError::UnexpectedEof),
            acc@ == minf_prefix(css.take(i as int)),
        decreases cs@.len() - i + (if stop { 0int } else { 1int }),
    {
        let c = &cs[i];
        proof {
            assert(c@ == css[i as int]);
            lemma_minf_prefix_step(css, i as int);
        }
        match minf_step(c, &mut acc) {
            Ok(()) => {
                i = i + 1;
            },
            Err(IsoError::UnexpectedEof) => {
                stop = true;
            },
            Err(e) => {
                proof {
                    lemma_first_fault(css, fault, i as int);
                }
                return Err(e);
            },
        }
    }
    proof {
        lemma_first_fault(css, fault, i as int);
        assert(first_fault(css, fault) == i);
    }
    let MediaInformationBoxScan { vmhd, smhd, hmhd, sthd, vvhd, unknown_boxes, dinf, stbl } = acc;
    let dinf = match dinf {
        Some(x) => x,
        None => {
            return Err(IsoError::InvalidData);
        },
    };
    let stbl = match stbl {
        Some(x) => x,
        None => {
            return Err(IsoError::InvalidData);
        },
    };
    Ok(MediaInformationBox { vmhd, smhd, hmhd, sthd, vvhd, unknown_boxes, dinf, stbl })
}

/// Writes the boxes of a minf in the order of its fields.
#[verifier::spinoff_prover]
#[verifier::rlimit(60)]
fn write_minf_children(x: &MediaInformationBox, out: &mut Vec<u8>) -> (r: Result<(), IsoError>)
    requires
        x.spec_size() <= usize::MAX,
    ensures
        write_matches(r, minf_writable(x@), minf_children_bytes(x@), old(out)@, final(out)@),
{
    let ghost before = out@;
    let ghost v = x@;
    if write_nested_opt(&x.vmhd, out).is_err() {
        return Err(IsoError::InvalidData);
    }
    let ghost m1 = out@;
    proof {
        lemma_append_prefix(before, nested_opt_bytes::<VideoMediaHeaderBox>(v.vmhd));
    }
    if write_nested_opt(&x.smhd, out).is_err() {
        proof {
            lemma_prefix_trans(before, m1, out@);
        }
        return Err(IsoError::InvalidData);
    }
    let ghost m2 = out@;
    proof {
        lemma_append_prefix(m1, nested_opt_bytes::<SoundMediaHeaderBox>(v.smhd));
        lemma_prefix_trans(before, m1, m2);
    }
    if write_nested_opt(&x.hmhd, out).is_err() {
        proof {
            lemma_prefix_trans(before, m2, out@);
        }
        return Err(IsoError::InvalidData);
    }
    let ghost m3 = out@;
    proof {
        lemma_append_prefix(m2, nested_opt_bytes::<HintMediaHeaderBox>(v.hmhd));
        lemma_prefix_trans(before, m2, m3);
    }
    if write_nested_opt(&x.sthd, out).is_err() {
        proof {
            lemma_prefix_trans(before, m3, out@);
        }
        return Err(IsoError::InvalidData);
    }
    let ghost m4 = out@;
    proof {
        lemma_append_prefix(m3, nested_opt_bytes::<SubtitleMediaHeaderBox>(v.sthd));
        lemma_prefix_trans(before, m3, m4);
    }
    if write_nested_opt(&x.vvhd, out).is_err() {
        proof {
            lemma_prefix_trans(before, m4, out@);
        }
        return Err(IsoError::InvalidData);
    }
    let ghost m5 = out@;
    proof {
        lemma_append_prefix(m4, nested_opt_bytes::<VolumetricVisualMediaHeaderBox>(v.vvhd));
        lemma_prefix_trans(before, m4, m5);
    }
    let _ = serialize_all(&x.unknown_boxes, out);
    assert(out@ == m5 + ser_seq::<UnknownBox>(v.unknown_boxes)) by {
        assert(views(x.unknown_boxes@) == v.unknown_boxes);
    }
    let ghost m6 = out@;
    proof {
        lemma_append_prefix(m5, ser_seq::<UnknownBox>(v.unknown_boxes));
        lemma_prefix_trans(before, m5, m6);
    }
    if write_nested(&x.dinf, out).is_err() {
        proof {
            lemma_prefix_trans(before, m6, out@);
        }
        return Err(IsoError::InvalidData);
    }
    let ghost m7 = out@;
    proof {
        lemma_append_prefix(m6, nested_box_bytes::<DataInformationBox>(v.dinf));
        lemma_prefix_trans(before, m6, m7);
    }
    if write_nested(&x.stbl, out).is_err() {
        proof {
            lemma_prefix_trans(before, m7, out@);
        }
        return Err(IsoError::InvalidData);
    }
    let ghost m8 = out@;
    proof {
        lemma_append_prefix(m7, nested_box_bytes::<SampleTableBox>(v.stbl));
        lemma_prefix_trans(before, m7, m8);
    }
    proof {
        let l1 = nested_opt_bytes::<VideoMediaHeaderBox>(v.vmhd);
        assert(m1 == before + l1);
        let l2 = l1 + nested_opt_bytes::<SoundMediaHeaderBox>(v.smhd);
        vstd::seq_lib::lemma_concat_associative(before, l1, nested_opt_bytes::<SoundMediaHeaderBox>(v.smhd));
        assert(m2 == before + l2);
        let l3 = l2 + nested_opt_bytes::<HintMediaHeaderBox>(v.hmhd);
        vstd::seq_lib::lemma_concat_associative(before, l2, nested_opt_bytes::<HintMediaHeaderBox>(v.hmhd));
        assert(m3 == before + l3);
        let l4 = l3 + nested_opt_bytes::<SubtitleMediaHeaderBox>(v.sthd);
        vstd::seq_lib::lemma_concat_associative(before, l3, nested_opt_bytes::<SubtitleMediaHeaderBox>(v.sthd));
        assert(m4 == before + l4);
        let l5 = l4 + nested_opt_bytes::<VolumetricVisualMediaHeaderBox>(v.vvhd);
        vstd::seq_lib::lemma_concat_associative(before, l4, nested_opt_bytes::<VolumetricVisualMediaHeaderBox>(v.vvhd));
        assert(m5 == before + l5);
        let l6 = l5 + ser_seq::<UnknownBox>(v.unknown_boxes);
        vstd::seq_lib::lemma_concat_associative(before, l5, ser_seq::<UnknownBox>(v.unknown_boxes));
        assert(m6 == before + l6);
        let l7 = l6 + nested_box_bytes::<DataInformationBox>(v.dinf);
        vstd::seq_lib::lemma_concat_associative(before, l6, nested_box_bytes::<DataInformationBox>(v.dinf));
        assert(m7 == before + l7);
        let l8 = l7 + nested_box_bytes::<SampleTableBox>(v.stbl);
        vstd::seq_lib::lemma_concat_associative(before, l7, nested_box_bytes::<SampleTableBox>(v.stbl));
        assert(m8 == before + l8);
        assert(minf_children_bytes(v) == l8);
        lemma_append_prefix(before, minf_children_bytes(v));
    }
    Ok(())
}

/// The boxes that a minf writes, read from their bytes one list after the other.
#[verifier::spinoff_prover]
#[verifier::rlimit(100)]
proof fn lemma_minf_children_chain(v: MediaInformationBoxModel)
    requires
        minf_canonical(v),
    ensures
        spec_children(nested_opt_bytes::<VideoMediaHeaderBox>(v.vmhd) + (nested_opt_bytes::<SoundMediaHeaderBox>(v.smhd) + (nested_opt_bytes::<HintMediaHeaderBox>(v.hmhd) + (nested_opt_bytes::<SubtitleMediaHeaderBox>(v.sthd) + (nested_opt_bytes::<VolumetricVisualMediaHeaderBox>(v.vvhd) + (ser_seq::<UnknownBox>(v.unknown_boxes) + (nested_box_bytes::<DataInformationBox>(v.dinf) + (nested_box_bytes::<SampleTableBox>(v.stbl))))))))) == nested_opt_models::<VideoMediaHeaderBox>(v.vmhd) + (nested_opt_models::<SoundMediaHeaderBox>(v.smhd) + (nested_opt_models::<HintMediaHeaderBox>(v.hmhd) + (nested_opt_models::<SubtitleMediaHeaderBox>(v.sthd) + (nested_opt_models::<VolumetricVisualMediaHeaderBox>(v.vvhd) + (v.unknown_boxes + (seq![nested_model::<DataInformationBox>(v.dinf)] + (seq![nested_model::<SampleTableBox>(v.stbl)]))))))),
{
    let b0 = nested_opt_bytes::<VideoMediaHeaderBox>(v.vmhd);
    let s0 = nested_opt_models::<VideoMediaHeaderBox>(v.vmhd);
    let b1 = nested_opt_bytes::<SoundMediaHeaderBox>(v.smhd);
    let s1 = nested_opt_models::<SoundMediaHeaderBox>(v.smhd);
    let b2 = nested_opt_bytes::<HintMediaHeaderBox>(v.hmhd);
    let s2 = nested_opt_models::<HintMediaHeaderBox>(v.hmhd);
    let b3 = nested_opt_bytes::<SubtitleMediaHeaderBox>(v.sthd);
    let s3 = nested_opt_models::<SubtitleMediaHeaderBox>(v.sthd);
    let b4 = nested_opt_bytes::<VolumetricVisualMediaHeaderBox>(v.vvhd);
    let s4 = nested_opt_models::<VolumetricVisualMediaHeaderBox>(v.vvhd);
    let b5 = ser_seq::<UnknownBox>(v.unknown_boxes);
    let s5 = v.unknown_boxes;
    let b6 = nested_box_bytes::<DataInformationBox>(v.dinf);
    let s6 = seq![nested_model::<DataInformationBox>(v.dinf)];
    let b7 = nested_box_bytes::<SampleTableBox>(v.stbl);
    let s7 = seq![nested_model::<SampleTableBox>(v.stbl)];
    crate::children::lemma_children_empty();
    let t7 = b7;
    let u7 = s7;
    assert(b7 + Seq::<u8>::empty() =~= b7);
    assert(s7 + Seq::<UnknownBoxModel>::empty() =~= s7);
    lemma_nested_cons::<SampleTableBox>(v.stbl, Seq::<u8>::empty());
    assert(spec_children(t7) == u7);
    let t6 = b6 + t7;
    let u6 = s6 + u7;
    lemma_nested_cons::<DataInformationBox>(v.dinf, t7);
    assert(spec_children(t6) == u6);
    let t5 = b5 + t6;
    let u5 = s5 + u6;
    lemma_unknown_seq_rest(v.unknown_boxes, t6);
    assert(spec_children(t5) == u5);
    let t4 = b4 + t5;
    let u4 = s4 + u5;
    lemma_nested_opt_seq::<VolumetricVisualMediaHeaderBox>(v.vvhd, t5);
    assert(spec_children(t4) == u4);
    let t3 = b3 + t4;
    let u3 = s3 + u4;
    lemma_nested_opt_seq::<SubtitleMediaHeaderBox>(v.sthd, t4);
    assert(spec_children(t3) == u3);
    let t2 = b2 + t3;
    let u2 = s2 + u3;
    lemma_nested_opt_seq::<HintMediaHeaderBox>(v.hmhd, t3);
    assert(spec_children(t2) == u2);
    let t1 = b1 + t2;
    let u1 = s1 + u2;
    lemma_nested_opt_seq::<SoundMediaHeaderBox>(v.smhd, t2);
    assert(spec_children(t1) == u1);
    let t0 = b0 + t1;
    let u0 = s0 + u1;
    lemma_nested_opt_seq::<VideoMediaHeaderBox>(v.vmhd, t1);
    assert(spec_children(t0) == u0);
}

/// The boxes that a minf writes read back as their models.
#[verifier::spinoff_prover]
#[verifier::rlimit(100)]
proof fn lemma_minf_children(v: MediaInformationBoxModel)
    requires
        minf_canonical(v),
    ensures
        spec_children(minf_children_bytes(v)) == minf_models(v),
{
    lemma_minf_children_chain(v);
    let b0 = nested_opt_bytes::<VideoMediaHeaderBox>(v.vmhd);
    let s0 = nested_opt_models::<VideoMediaHeaderBox>(v.vmhd);
    let b1 = nested_opt_bytes::<SoundMediaHeaderBox>(v.smhd);
    let s1 = nested_opt_models::<SoundMediaHeaderBox>(v.smhd);
    let b2 = nested_opt_bytes::<HintMediaHeaderBox>(v.hmhd);
    let s2 = nested_opt_models::<HintMediaHeaderBox>(v.hmhd);
    let b3 = nested_opt_bytes::<SubtitleMediaHeaderBox>(v.sthd);
    let s3 = nested_opt_models::<SubtitleMediaHeaderBox>(v.sthd);
    let b4 = nested_opt_bytes::<VolumetricVisualMediaHeaderBox>(v.vvhd);
    let s4 = nested_opt_models::<VolumetricVisualMediaHeaderBox>(v.vvhd);
    let b5 = ser_seq::<UnknownBox>(v.unknown_boxes);
    let s5 = v.unknown_boxes;
    let b6 = nested_box_bytes::<DataInformationBox>(v.dinf);
    let s6 = seq![nested_model::<DataInformationBox>(v.dinf)];
    let b7 = nested_box_bytes::<SampleTableBox>(v.stbl);
    let s7 = seq![nested_model::<SampleTableBox>(v.stbl)];
    let t7 = b7;
    let u7 = s7;
    let t6 = b6 + t7;
    let u6 = s6 + u7;
    let t5 = b5 + t6;
    let u5 = s5 + u6;
    let t4 = b4 + t5;
    let u4 = s4 + u5;
    let t3 = b3 + t4;
    let u3 = s3 + u4;
    let t2 = b2 + t3;
    let u2 = s2 + u3;
    let t1 = b1 + t2;
    let u1 = s1 + u2;
    let t0 = b0 + t1;
    let u0 = s0 + u1;
    let t8 = Seq::<u8>::empty();
    let u8 = Seq::<UnknownBoxModel>::empty();
    assert(b7 + t8 =~= t7);
    assert(s7 + u8 =~= u7);
    let l0 = Seq::<u8>::empty();
    let k0 = Seq::<UnknownBoxModel>::empty();
    assert(l0 + t0 =~= t0);
    assert(k0 + u0 =~= u0);
    let l1 = b0;
    let k1 = s0;
    assert(l1 + t1 == l0 + t0);
    assert(k1 + u1 == k0 + u0);
    let l2 = l1 + b1;
    let k2 = k1 + s1;
    vstd::seq_lib::lemma_concat_associative(l1, b1, t2);
    vstd::seq_lib::lemma_concat_associative(k1, s1, u2);
    assert(l2 + t2 == l1 + t1);
    assert(k2 + u2 == k1 + u1);
    let l3 = l2 + b2;
    let k3 = k2 + s2;
    vstd::seq_lib::lemma_concat_associative(l2, b2, t3);
    vstd::seq_lib::lemma_concat_associative(k2, s2, u3);
    assert(l3 + t3 == l2 + t2);
    assert(k3 + u3 == k2 + u2);
    let l4 = l3 + b3;
    let k4 = k3 + s3;
    vstd::seq_lib::lemma_concat_associative(l3, b3, t4);
    vstd::seq_lib::lemma_concat_associative(k3, s3, u4);
    assert(l4 + t4 == l3 + t3);
    assert(k4 + u4 == k3 + u3);
    let l5 = l4 + b4;
    let k5 = k4 + s4;
    vstd::seq_lib::lemma_concat_associative(l4, b4, t5);
    vstd::seq_lib::lemma_concat_associative(k4, s4, u5);
    assert(l5 + t5 == l4 + t4);
    assert(k5 + u5 == k4 + u4);
    let l6 = l5 + b5;
    let k6 = k5 + s5;
    vstd::seq_lib::lemma_concat_associative(l5, b5, t6);
    vstd::seq_lib::lemma_concat_associative(k5, s5, u6);
    assert(l6 + t6 == l5 + t5);
    assert(k6 + u6 == k5 + u5);
    let l7 = l6 + b6;
    let k7 = k6 + s6;
    vstd::seq_lib::lemma_concat_associative(l6, b6, t7);
    vstd::seq_lib::lemma_concat_associative(k6, s6, u7);
    assert(l7 + t7 == l6 + t6);
    assert(k7 + u7 == k6 + u6);
    let l8 = l7 + b7;
    let k8 = k7 + s7;
    vstd::seq_lib::lemma_concat_associative(l7, b7, t8);
    vstd::seq_lib::lemma_concat_associative(k7, s7, u8);
    assert(l8 + t8 == l7 + t7);
    assert(k8 + u8 == k7 + u7);
    assert(l8 + t8 =~= l8);
    assert(k8 + u8 =~= k8);
    assert(minf_children_bytes(v) == l8);
    assert(minf_models(v) == k8);
}

/// No box that a minf writes fails to read.
#[verifier::spinoff_prover]
#[verifier::rlimit(60)]
proof fn lemma_minf_no_fault(v: MediaInformationBoxModel, j: int)
    requires
        minf_canonical(v),
        minf_types_differ(),
        0 <= j < minf_models(v).len(),
    ensures
        minf_fault(minf_models(v)[j]) is None,
{
    let cs = minf_models(v);
    let s0 = nested_opt_models::<VideoMediaHeaderBox>(v.vmhd);
    let s1 = nested_opt_models::<SoundMediaHeaderBox>(v.smhd);
    let s2 = nested_opt_models::<HintMediaHeaderBox>(v.hmhd);
    let s3 = nested_opt_models::<SubtitleMediaHeaderBox>(v.sthd);
    let s4 = nested_opt_models::<VolumetricVisualMediaHeaderBox>(v.vvhd);
    let s5 = v.unknown_boxes;
    let s6 = seq![nested_model::<DataInformationBox>(v.dinf)];
    let s7 = seq![nested_model::<SampleTableBox>(v.stbl)];
    let n0: int = 0;
    let n1: int = n0 + s0.len();
    let n2: int = n1 + s1.len();
    let n3: int = n2 + s2.len();
    let n4: int = n3 + s3.len();
    let n5: int = n4 + s4.len();
    let n6: int = n5 + s5.len();
    let n7: int = n6 + s6.len();
    let n8: int = n7 + s7.len();
    if j < n1 {
        assert(cs[j] == s0[j - n0]);
        lemma_nested_cons::<VideoMediaHeaderBox>(v.vmhd.unwrap(), Seq::empty());
    } else if j < n2 {
        assert(cs[j] == s1[j - n1]);
        lemma_nested_cons::<SoundMediaHeaderBox>(v.smhd.unwrap(), Seq::empty());
    } else if j < n3 {
        assert(cs[j] == s2[j - n2]);
        lemma_nested_cons::<HintMediaHeaderBox>(v.hmhd.unwrap(), Seq::empty());
    } else if j < n4 {
        assert(cs[j] == s3[j - n3]);
        lemma_nested_cons::<SubtitleMediaHeaderBox>(v.sthd.unwrap(), Seq::empty());
    } else if j < n5 {
        assert(cs[j] == s4[j - n4]);
        lemma_nested_cons::<VolumetricVisualMediaHeaderBox>(v.vvhd.unwrap(), Seq::empty());
    } else if j < n6 {
        assert(cs[j] == s5[j - n5]);
        assert(!minf_known(v.unknown_boxes[j - n5]));
    } else if j < n7 {
        assert(cs[j] == s6[j - n6]);
        lemma_nested_cons::<DataInformationBox>(v.dinf, Seq::empty());
    } else if j < n8 {
        assert(cs[j] == s7[j - n7]);
        lemma_nested_cons::<SampleTableBox>(v.stbl, Seq::empty());
    }
}

/// Collecting over the lists of a minf one after the other collects over each in
/// turn.
proof fn lemma_minf_split<T: BoxBody>(m0: Seq<UnknownBoxModel>, m1: Seq<UnknownBoxModel>, m2: Seq<UnknownBoxModel>, m3: Seq<UnknownBoxModel>, m4: Seq<UnknownBoxModel>, m5: Seq<UnknownBoxModel>, m6: Seq<UnknownBoxModel>, m7: Seq<UnknownBoxModel>)
    ensures
        collect_children::<T>(m0 + m1 + m2 + m3 + m4 + m5 + m6 + m7) == collect_children::<T>(m0) + collect_children::<T>(m1) + collect_children::<T>(m2) + collect_children::<T>(m3) + collect_children::<T>(m4) + collect_children::<T>(m5) + collect_children::<T>(m6) + collect_children::<T>(m7),
{
    lemma_collect_add::<T>(m0 + m1 + m2 + m3 + m4 + m5 + m6, m7);
    lemma_collect_add::<T>(m0 + m1 + m2 + m3 + m4 + m5, m6);
    lemma_collect_add::<T>(m0 + m1 + m2 + m3 + m4, m5);
    lemma_collect_add::<T>(m0 + m1 + m2 + m3, m4);
    lemma_collect_add::<T>(m0 + m1 + m2, m3);
    lemma_collect_add::<T>(m0 + m1, m2);
    lemma_collect_add::<T>(m0, m1);
}

/// The boxes that a minf writes collect back into its field `vmhd`.
#[verifier::spinoff_prover]
#[verifier::rlimit(60)]
proof fn lemma_minf_collect_vmhd(v: MediaInformationBoxModel)
    requires
        minf_canonical(v),
        minf_types_differ(),
    ensures
        collect_children::<VideoMediaHeaderBox>(minf_models(v)) == opt_seq(v.vmhd),
{
    lemma_minf_split::<VideoMediaHeaderBox>(nested_opt_models::<VideoMediaHeaderBox>(v.vmhd), nested_opt_models::<SoundMediaHeaderBox>(v.smhd), nested_opt_models::<HintMediaHeaderBox>(v.hmhd), nested_opt_models::<SubtitleMediaHeaderBox>(v.sthd), nested_opt_models::<VolumetricVisualMediaHeaderBox>(v.vvhd), v.unknown_boxes, seq![nested_model::<DataInformationBox>(v.dinf)], seq![nested_model::<SampleTableBox>(v.stbl)]);
    lemma_nested_opt_own::<VideoMediaHeaderBox>(v.vmhd);
    lemma_nested_opt_other::<VideoMediaHeaderBox, SoundMediaHeaderBox>(v.smhd);
    lemma_nested_opt_other::<VideoMediaHeaderBox, HintMediaHeaderBox>(v.hmhd);
    lemma_nested_opt_other::<VideoMediaHeaderBox, SubtitleMediaHeaderBox>(v.sthd);
    lemma_nested_opt_other::<VideoMediaHeaderBox, VolumetricVisualMediaHeaderBox>(v.vvhd);
    assert forall|i: int| 0 <= i < v.unknown_boxes.len() implies !#[trigger] is_child::<VideoMediaHeaderBox>(v.unknown_boxes[i]) by {
        assert(!minf_known(v.unknown_boxes[i]));
    }
    lemma_collect_none::<VideoMediaHeaderBox>(v.unknown_boxes);
    lemma_nested_opt_other::<VideoMediaHeaderBox, DataInformationBox>(Some(v.dinf));
    assert(nested_opt_models::<DataInformationBox>(Some(v.dinf)) == seq![nested_model::<DataInformationBox>(v.dinf)]);
    lemma_nested_opt_other::<VideoMediaHeaderBox, SampleTableBox>(Some(v.stbl));
    assert(nested_opt_models::<SampleTableBox>(Some(v.stbl)) == seq![nested_model::<SampleTableBox>(v.stbl)]);
    assert(collect_children::<VideoMediaHeaderBox>(minf_models(v)) =~= opt_seq(v.vmhd));
}

/// The boxes that a minf writes collect back into its field `smhd`.
#[verifier::spinoff_prover]
#[verifier::rlimit(60)]
proof fn lemma_minf_collect_smhd(v: MediaInformationBoxModel)
    requires
        minf_canonical(v),
        minf_types_differ(),
    ensures
        collect_children::<SoundMediaHeaderBox>(minf_models(v)) == opt_seq(v.smhd),
{
    lemma_minf_split::<SoundMediaHeaderBox>(nested_opt_models::<VideoMediaHeaderBox>(v.vmhd), nested_opt_models::<SoundMediaHeaderBox>(v.smhd), nested_opt_models::<HintMediaHeaderBox>(v.hmhd), nested_opt_models::<SubtitleMediaHeaderBox>(v.sthd), nested_opt_models::<VolumetricVisualMediaHeaderBox>(v.vvhd), v.unknown_boxes, seq![nested_model::<DataInformationBox>(v.dinf)], seq![nested_model::<SampleTableBox>(v.stbl)]);
    lemma_nested_opt_other::<SoundMediaHeaderBox, VideoMediaHeaderBox>(v.vmhd);
    lemma_nested_opt_own::<SoundMediaHeaderBox>(v.smhd);
    lemma_nested_opt_other::<SoundMediaHeaderBox, HintMediaHeaderBox>(v.hmhd);
    lemma_nested_opt_other::<SoundMediaHeaderBox, SubtitleMediaHeaderBox>(v.sthd);
    lemma_nested_opt_other::<SoundMediaHeaderBox, VolumetricVisualMediaHeaderBox>(v.vvhd);
    assert forall|i: int| 0 <= i < v.unknown_boxes.len() implies !#[trigger] is_child::<SoundMediaHeaderBox>(v.unknown_boxes[i]) by {
        assert(!minf_known(v.unknown_boxes[i]));
    }
    lemma_collect_none::<SoundMediaHeaderBox>(v.unknown_boxes);
    lemma_nested_opt_other::<SoundMediaHeaderBox, DataInformationBox>(Some(v.dinf));
    assert(nested_opt_models::<DataInformationBox>(Some(v.dinf)) == seq![nested_model::<DataInformationBox>(v.dinf)]);
    lemma_nested_opt_other::<SoundMediaHeaderBox, SampleTableBox>(Some(v.stbl));
    assert(nested_opt_models::<SampleTableBox>(Some(v.stbl)) == seq![nested_model::<SampleTableBox>(v.stbl)]);
    assert(collect_children::<SoundMediaHeaderBox>(minf_models(v)) =~= opt_seq(v.smhd));
}

/// The boxes that a minf writes collect back into its field `hmhd`.
#[verifier::spinoff_prover]
#[verifier::rlimit(60)]
proof fn lemma_minf_collect_hmhd(v: MediaInformationBoxModel)
    requires
        minf_canonical(v),
        minf_types_differ(),
    ensures
        collect_children::<HintMediaHeaderBox>(minf_models(v)) == opt_seq(v.hmhd),
{
    lemma_minf_split::<HintMediaHeaderBox>(nested_opt_models::<VideoMediaHeaderBox>(v.vmhd), nested_opt_models::<SoundMediaHeaderBox>(v.smhd), nested_opt_models::<HintMediaHeaderBox>(v.hmhd), nested_opt_models::<SubtitleMediaHeaderBox>(v.sthd), nested_opt_models::<VolumetricVisualMediaHeaderBox>(v.vvhd), v.unknown_boxes, seq![nested_model::<DataInformationBox>(v.dinf)], seq![nested_model::<SampleTableBox>(v.stbl)]);
    lemma_nested_opt_other::<HintMediaHeaderBox, VideoMediaHeaderBox>(v.vmhd);
    lemma_nested_opt_other::<HintMediaHeaderBox, SoundMediaHeaderBox>(v.smhd);
    lemma_nested_opt_own::<HintMediaHeaderBox>(v.hmhd);
    lemma_nested_opt_other::<HintMediaHeaderBox, SubtitleMediaHeaderBox>(v.sthd);
    lemma_nested_opt_other::<HintMediaHeaderBox, VolumetricVisualMediaHeaderBox>(v.vvhd);
    assert forall|i: int| 0 <= i < v.unknown_boxes.len() implies !#[trigger] is_child::<HintMediaHeaderBox>(v.unknown_boxes[i]) by {
        assert(!minf_known(v.unknown_boxes[i]));
    }
    lemma_collect_none::<HintMediaHeaderBox>(v.unknown_boxes);
    lemma_nested_opt_other::<HintMediaHeaderBox, DataInformationBox>(Some(v.dinf));
    assert(nested_opt_models::<DataInformationBox>(Some(v.dinf)) == seq![nested_model::<DataInformationBox>(v.dinf)]);
    lemma_nested_opt_other::<HintMediaHeaderBox, SampleTableBox>(Some(v.stbl));
    assert(nested_opt_models::<SampleTableBox>(Some(v.stbl)) == seq![nested_model::<SampleTableBox>(v.stbl)]);
    assert(collect_children::<HintMediaHeaderBox>(minf_models(v)) =~= opt_seq(v.hmhd));
}

/// The boxes that a minf writes collect back into its field `sthd`.
#[verifier::spinoff_prover]
#[verifier::rlimit(60)]
proof fn lemma_minf_collect_sthd(v: MediaInformationBoxModel)
    requires
        minf_canonical(v),
        minf_types_differ(),
    ensures
        collect_children::<SubtitleMediaHeaderBox>(minf_models(v)) == opt_seq(v.sthd),
{
    lemma_minf_split::<SubtitleMediaHeaderBox>(nested_opt_models::<VideoMediaHeaderBox>(v.vmhd), nested_opt_models::<SoundMediaHeaderBox>(v.smhd), nested_opt_models::<HintMediaHeaderBox>(v.hmhd), nested_opt_models::<SubtitleMediaHeaderBox>(v.sthd), nested_opt_models::<VolumetricVisualMediaHeaderBox>(v.vvhd), v.unknown_boxes, seq![nested_model::<DataInformationBox>(v.dinf)], seq![nested_model::<SampleTableBox>(v.stbl)]);
    lemma_nested_opt_other::<SubtitleMediaHeaderBox, VideoMediaHeaderBox>(v.vmhd);
    lemma_nested_opt_other::<SubtitleMediaHeaderBox, SoundMediaHeaderBox>(v.smhd);
    lemma_nested_opt_other::<SubtitleMediaHeaderBox, HintMediaHeaderBox>(v.hmhd);
    lemma_nested_opt_own::<SubtitleMediaHeaderBox>(v.sthd);
    lemma_nested_opt_other::<SubtitleMediaHeaderBox, VolumetricVisualMediaHeaderBox>(v.vvhd);
    assert forall|i: int| 0 <= i < v.unknown_boxes.len() implies !#[trigger] is_child::<SubtitleMediaHeaderBox>(v.unknown_boxes[i]) by {
        assert(!minf_known(v.unknown_boxes[i]));
    }
    lemma_collect_none::<SubtitleMediaHeaderBox>(v.unknown_boxes);
    lemma_nested_opt_other::<SubtitleMediaHeaderBox, DataInformationBox>(Some(v.dinf));
    assert(nested_opt_models::<DataInformationBox>(Some(v.dinf)) == seq![nested_model::<DataInformationBox>(v.dinf)]);
    lemma_nested_opt_other::<SubtitleMediaHeaderBox, SampleTableBox>(Some(v.stbl));
    assert(nested_opt_models::<SampleTableBox>(Some(v.stbl)) == seq![nested_model::<SampleTableBox>(v.stbl)]);
    assert(collect_children::<SubtitleMediaHeaderBox>(minf_models(v)) =~= opt_seq(v.sthd));
}

/// The boxes that a minf writes collect back into its field `vvhd`.
#[verifier::spinoff_prover]
#[verifier::rlimit(60)]
proof fn lemma_minf_collect_vvhd(v: MediaInformationBoxModel)
    requires
        minf_canonical(v),
        minf_types_differ(),
    ensures
        collect_children::<VolumetricVisualMediaHeaderBox>(minf_models(v)) == opt_seq(v.vvhd),
{
    lemma_minf_split::<VolumetricVisualMediaHeaderBox>(nested_opt_models::<VideoMediaHeaderBox>(v.vmhd), nested_opt_models::<SoundMediaHeaderBox>(v.smhd), nested_opt_models::<HintMediaHeaderBox>(v.hmhd), nested_opt_models::<SubtitleMediaHeaderBox>(v.sthd), nested_opt_models::<VolumetricVisualMediaHeaderBox>(v.vvhd), v.unknown_boxes, seq![nested_model::<DataInformationBox>(v.dinf)], seq![nested_model::<SampleTableBox>(v.stbl)]);
    lemma_nested_opt_other::<VolumetricVisualMediaHeaderBox, VideoMediaHeaderBox>(v.vmhd);
    lemma_nested_opt_other::<VolumetricVisualMediaHeaderBox, SoundMediaHeaderBox>(v.smhd);
    lemma_nested_opt_other::<VolumetricVisualMediaHeaderBox, HintMediaHeaderBox>(v.hmhd);
    lemma_nested_opt_other::<VolumetricVisualMediaHeaderBox, SubtitleMediaHeaderBox>(v.sthd);
    lemma_nested_opt_own::<VolumetricVisualMediaHeaderBox>(v.vvhd);
    assert forall|i: int| 0 <= i < v.unknown_boxes.len() implies !#[trigger] is_child::<VolumetricVisualMediaHeaderBox>(v.unknown_boxes[i]) by {
        assert(!minf_known(v.unknown_boxes[i]));
    }
    lemma_collect_none::<VolumetricVisualMediaHeaderBox>(v.unknown_boxes);
    lemma_nested_opt_other::<VolumetricVisualMediaHeaderBox, DataInformationBox>(Some(v.dinf));
    assert(nested_opt_models::<DataInformationBox>(Some(v.dinf)) == seq![nested_model::<DataInformationBox>(v.dinf)]);
    lemma_nested_opt_other::<VolumetricVisualMediaHeaderBox, SampleTableBox>(Some(v.stbl));
    assert(nested_opt_models::<SampleTableBox>(Some(v.stbl)) == seq![nested_model::<SampleTableBox>(v.stbl)]);
    assert(collect_children::<VolumetricVisualMediaHeaderBox>(minf_models(v)) =~= opt_seq(v.vvhd));
}

/// The boxes that a minf writes collect back into its field `dinf`.
#[verifier::spinoff_prover]
#[verifier::rlimit(60)]
proof fn lemma_minf_collect_dinf(v: MediaInformationBoxModel)
    requires
        minf_canonical(v),
        minf_types_differ(),
    ensures
        collect_children::<DataInformationBox>(minf_models(v)) == seq![v.dinf],
{
    lemma_minf_split::<DataInformationBox>(nested_opt_models::<VideoMediaHeaderBox>(v.vmhd), nested_opt_models::<SoundMediaHeaderBox>(v.smhd), nested_opt_models::<HintMediaHeaderBox>(v.hmhd), nested_opt_models::<SubtitleMediaHeaderBox>(v.sthd), nested_opt_models::<VolumetricVisualMediaHeaderBox>(v.vvhd), v.unknown_boxes, seq![nested_model::<DataInformationBox>(v.dinf)], seq![nested_model::<SampleTableBox>(v.stbl)]);
    lemma_nested_opt_other::<DataInformationBox, VideoMediaHeaderBox>(v.vmhd);
    lemma_nested_opt_other::<DataInformationBox, SoundMediaHeaderBox>(v.smhd);
    lemma_nested_opt_other::<DataInformationBox, HintMediaHeaderBox>(v.hmhd);
    lemma_nested_opt_other::<DataInformationBox, SubtitleMediaHeaderBox>(v.sthd);
    lemma_nested_opt_other::<DataInformationBox, VolumetricVisualMediaHeaderBox>(v.vvhd);
    assert forall|i: int| 0 <= i < v.unknown_boxes.len() implies !#[trigger] is_child::<DataInformationBox>(v.unknown_boxes[i]) by {
        assert(!minf_known(v.unknown_boxes[i]));
    }
    lemma_collect_none::<DataInformationBox>(v.unknown_boxes);
    lemma_nested_opt_own::<DataInformationBox>(Some(v.dinf));
    assert(nested_opt_models::<DataInformationBox>(Some(v.dinf)) == seq![nested_model::<DataInformationBox>(v.dinf)]);
    lemma_nested_opt_other::<DataInformationBox, SampleTableBox>(Some(v.stbl));
    assert(nested_opt_models::<SampleTableBox>(Some(v.stbl)) == seq![nested_model::<SampleTableBox>(v.stbl)]);
    assert(collect_children::<DataInformationBox>(minf_models(v)) =~= seq![v.dinf]);
}

/// The boxes that a minf writes collect back into its field `stbl`.
#[verifier::spinoff_prover]
#[verifier::rlimit(60)]
proof fn lemma_minf_collect_stbl(v: MediaInformationBoxModel)
    requires
        minf_canonical(v),
        minf_types_differ(),
    ensures
        collect_children::<SampleTableBox>(minf_models(v)) == seq![v.stbl],
{
    lemma_minf_split::<SampleTableBox>(nested_opt_models::<VideoMediaHeaderBox>(v.vmhd), nested_opt_models::<SoundMediaHeaderBox>(v.smhd), nested_opt_models::<HintMediaHeaderBox>(v.hmhd), nested_opt_models::<SubtitleMediaHeaderBox>(v.sthd), nested_opt_models::<VolumetricVisualMediaHeaderBox>(v.vvhd), v.unknown_boxes, seq![nested_model::<DataInformationBox>(v.dinf)], seq![nested_model::<SampleTableBox>(v.stbl)]);
    lemma_nested_opt_other::<SampleTableBox, VideoMediaHeaderBox>(v.vmhd);
    lemma_nested_opt_other::<SampleTableBox, SoundMediaHeaderBox>(v.smhd);
    lemma_nested_opt_other::<SampleTableBox, HintMediaHeaderBox>(v.hmhd);
    lemma_nested_opt_other::<SampleTableBox, SubtitleMediaHeaderBox>(v.sthd);
    lemma_nested_opt_other::<SampleTableBox, VolumetricVisualMediaHeaderBox>(v.vvhd);
    assert forall|i: int| 0 <= i < v.unknown_boxes.len() implies !#[trigger] is_child::<SampleTableBox>(v.unknown_boxes[i]) by {
        assert(!minf_known(v.unknown_boxes[i]));
    }
    lemma_collect_none::<SampleTableBox>(v.unknown_boxes);
    lemma_nested_opt_other::<SampleTableBox, DataInformationBox>(Some(v.dinf));
    assert(nested_opt_models::<DataInformationBox>(Some(v.dinf)) == seq![nested_model::<DataInformationBox>(v.dinf)]);
    lemma_nested_opt_own::<SampleTableBox>(Some(v.stbl));
    assert(nested_opt_models::<SampleTableBox>(Some(v.stbl)) == seq![nested_model::<SampleTableBox>(v.stbl)]);
    assert(collect_children::<SampleTableBox>(minf_models(v)) =~= seq![v.stbl]);
}

/// The boxes of other types that a minf writes are collected back as they are.
#[verifier::spinoff_prover]
#[verifier::rlimit(60)]
proof fn lemma_minf_unknown(v: MediaInformationBoxModel)
    requires
        minf_canonical(v),
    ensures
        collect_unknown(minf_models(v), |c: UnknownBoxModel| minf_known(c)) == v.unknown_boxes,
{
    let known = |c: UnknownBoxModel| minf_known(c);
    let s0 = nested_opt_models::<VideoMediaHeaderBox>(v.vmhd);
    assert forall|i: int| 0 <= i < s0.len() implies #[trigger] known(s0[i]) by {}
    lemma_unknown_all_known(s0, known);
    let s1 = nested_opt_models::<SoundMediaHeaderBox>(v.smhd);
    assert forall|i: int| 0 <= i < s1.len() implies #[trigger] known(s1[i]) by {}
    lemma_unknown_all_known(s1, known);
    let s2 = nested_opt_models::<HintMediaHeaderBox>(v.hmhd);
    assert forall|i: int| 0 <= i < s2.len() implies #[trigger] known(s2[i]) by {}
    lemma_unknown_all_known(s2, known);
    let s3 = nested_opt_models::<SubtitleMediaHeaderBox>(v.sthd);
    assert forall|i: int| 0 <= i < s3.len() implies #[trigger] known(s3[i]) by {}
    lemma_unknown_all_known(s3, known);
    let s4 = nested_opt_models::<VolumetricVisualMediaHeaderBox>(v.vvhd);
    assert forall|i: int| 0 <= i < s4.len() implies #[trigger] known(s4[i]) by {}
    lemma_unknown_all_known(s4, known);
    let s5 = v.unknown_boxes;
    assert forall|i: int| 0 <= i < s5.len() implies !#[trigger] known(s5[i]) by {}
    lemma_unknown_none_known(s5, known);
    let s6 = seq![nested_model::<DataInformationBox>(v.dinf)];
    assert forall|i: int| 0 <= i < s6.len() implies #[trigger] known(s6[i]) by {}
    lemma_unknown_all_known(s6, known);
    let s7 = seq![nested_model::<SampleTableBox>(v.stbl)];
    assert forall|i: int| 0 <= i < s7.len() implies #[trigger] known(s7[i]) by {}
    lemma_unknown_all_known(s7, known);
    lemma_unknown_add(s0 + s1 + s2 + s3 + s4 + s5 + s6, s7, known);
    lemma_unknown_add(s0 + s1 + s2 + s3 + s4 + s5, s6, known);
    lemma_unknown_add(s0 + s1 + s2 + s3 + s4, s5, known);
    lemma_unknown_add(s0 + s1 + s2 + s3, s4, known);
    lemma_unknown_add(s0 + s1 + s2, s3, known);
    lemma_unknown_add(s0 + s1, s2, known);
    lemma_unknown_add(s0, s1, known);
    assert(collect_unknown(minf_models(v), known) =~= v.unknown_boxes);
}

/// Writing a minf and reading its payload back gives it again.
#[verifier::spinoff_prover]
#[verifier::rlimit(100)]
proof fn lemma_minf_roundtrip(v: MediaInformationBoxModel)
    requires
        minf_canonical(v),
    ensures
        minf_parse(minf_bytes(v)) == Ok::<MediaInformationBoxModel, IsoError>(v),
{
    let s = minf_bytes(v);
    lemma_minf_children(v);
    lemma_minf_types();
    let cs = minf_models(v);
    let fault = |c: UnknownBoxModel| minf_fault(c);
    assert forall|j: int| 0 <= j < cs.len() implies (#[trigger] fault(cs[j])) is None by {
        lemma_minf_no_fault(v, j);
    }
    lemma_first_fault(cs, fault, cs.len() as int);
    assert(cs.take(cs.len() as int) =~= cs);
    lemma_minf_collect_vmhd(v);
    lemma_minf_collect_smhd(v);
    lemma_minf_collect_hmhd(v);
    lemma_minf_collect_sthd(v);
    lemma_minf_collect_vvhd(v);
    lemma_minf_collect_dinf(v);
    lemma_minf_collect_stbl(v);
    lemma_minf_unknown(v);
    assert(spec_children(s) == cs);
    assert(last_child::<VideoMediaHeaderBox>(cs) == v.vmhd);
    assert(last_child::<SoundMediaHeaderBox>(cs) == v.smhd);
    assert(last_child::<HintMediaHeaderBox>(cs) == v.hmhd);
    assert(last_child::<SubtitleMediaHeaderBox>(cs) == v.sthd);
    assert(last_child::<VolumetricVisualMediaHeaderBox>(cs) == v.vvhd);
    assert(last_child::<DataInformationBox>(cs) == Some(v.dinf));
    assert(last_child::<SampleTableBox>(cs) == Some(v.stbl));
}

/// For a value that reads back as itself, the size is that of its payload and header.
#[verifier::spinoff_prover]
#[verifier::rlimit(60)]
proof fn lemma_minf_size(x: MediaInformationBox)
    requires
        minf_canonical(x@),
    ensures
        nested_opt_size::<VideoMediaHeaderBox>(x.vmhd) + nested_opt_size::<SoundMediaHeaderBox>(x.smhd) + nested_opt_size::<HintMediaHeaderBox>(x.hmhd) + nested_opt_size::<SubtitleMediaHeaderBox>(x.sthd) + nested_opt_size::<VolumetricVisualMediaHeaderBox>(x.vvhd) + size_seq::<UnknownBox>(x.unknown_boxes@) + x.dinf.spec_size() + x.stbl.spec_size() == minf_bytes(x@).len(),
{
    let v = x@;
    lemma_nested_opt_size::<VideoMediaHeaderBox>(x.vmhd);
    lemma_nested_opt_size::<SoundMediaHeaderBox>(x.smhd);
    lemma_nested_opt_size::<HintMediaHeaderBox>(x.hmhd);
    lemma_nested_opt_size::<SubtitleMediaHeaderBox>(x.sthd);
    lemma_nested_opt_size::<VolumetricVisualMediaHeaderBox>(x.vvhd);
    assert(writable_seq::<UnknownBox>(views(x.unknown_boxes@)));
    lemma_size_seq::<UnknownBox>(x.unknown_boxes@);
    lemma_nested_size::<DataInformationBox>(x.dinf);
    lemma_nested_size::<SampleTableBox>(x.stbl);
}

impl BoxBody for MediaInformationBox {
    open spec fn spec_box_type() -> [u8; 4] {
        [0x6du8, 0x69u8, 0x6eu8, 0x66u8]
    }

    fn box_type() -> (r: [u8; 4]) {
        [0x6du8, 0x69u8, 0x6eu8, 0x66u8]
    }

    open spec fn spec_parse_body(s: Seq<u8>) -> Result<MediaInformationBoxModel, IsoError> {
        minf_parse(s)
    }

    open spec fn spec_writable(v: MediaInformationBoxModel) -> bool {
        minf_writable(v)
    }

    open spec fn spec_serialize_body(v: MediaInformationBoxModel) -> Seq<u8> {
        minf_bytes(v)
    }

    open spec fn spec_canonical(v: MediaInformationBoxModel) -> bool {
        minf_canonical(v)
    }

    proof fn lemma_box_type() {
        assert(Self::spec_box_type()[0] != spec_uuid_fourcc()[0]);
    }

    proof fn lemma_body_size(x: MediaInformationBox) {
        lemma_minf_size(x);
    }

    proof fn lemma_body_roundtrip(v: MediaInformationBoxModel) {
        lemma_minf_roundtrip(v);
    }

    fn parse_body(payload: &[u8]) -> (r: Result<MediaInformationBox, IsoError>) {
        parse_minf(payload)
    }

    #[verifier::spinoff_prover]
    #[verifier::rlimit(60)]
    fn serialize_body(&self, out: &mut Vec<u8>) -> (r: Result<(), IsoError>) {
        write_minf_children(self, out)
    }
}

/// Media box
///
/// `mdia`
///
/// ISO/IEC 14496-12 - 8.4.1
#[derive(Debug)]
pub struct MediaBox {
    /// The contained [`MediaHeaderBox`]. (mandatory)
    pub mdhd: MediaHeaderBox,
    /// The contained [`HandlerBox`]. (mandatory)
    pub hdlr: HandlerBox,
    /// The contained [`ExtendedLanguageBox`]. (optional)
    pub elng: Option<ExtendedLanguageBox>,
    /// The contained [`MediaInformationBox`]. (mandatory)
    pub minf: MediaInformationBox,
    /// The boxes of other types, kept as they are.
    pub unknown_boxes: Vec<UnknownBox>,
}

/// The model of a [`MediaBox`].
pub struct MediaBoxModel {
    pub mdhd: <MediaHeaderBox as View>::V,
    pub hdlr: <HandlerBox as View>::V,
    pub elng: Option<<ExtendedLanguageBox as View>::V>,
    pub minf: <MediaInformationBox as View>::V,
    pub unknown_boxes: Seq<UnknownBoxModel>,
}

impl View for MediaBox {
    type V = MediaBoxModel;

    open spec fn view(&self) -> MediaBoxModel {
        MediaBoxModel {
            mdhd: self.mdhd@,
            hdlr: self.hdlr@,
            elng: opt_view(self.elng),
            minf: self.minf@,
            unknown_boxes: views(self.unknown_boxes@),
        }
    }
}

/// Whether a box found in a mdia has one of the types that it reads.
pub open spec fn mdia_known(c: UnknownBoxModel) -> bool {
    is_child::<MediaHeaderBox>(c) || is_child::<HandlerBox>(c) || is_child::<ExtendedLanguageBox>(c) || is_child::<MediaInformationBox>(c)
}

/// The failure of reading a box of a known type found in a mdia.
pub open spec fn mdia_fault(c: UnknownBoxModel) -> Option<IsoError> {
    if is_child::<MediaHeaderBox>(c) {
        child_fault::<MediaHeaderBox>(c)
    }     else if is_child::<HandlerBox>(c) {
        child_fault::<HandlerBox>(c)
    }     else if is_child::<ExtendedLanguageBox>(c) {
        child_fault::<ExtendedLanguageBox>(c)
    }     else if is_child::<MediaInformationBox>(c) {
        child_fault::<MediaInformationBox>(c)
    } else {
        None
    }
}

/// What a mdia reads from its payload: the boxes before the first that fails, each box of a known type in its field (the
/// last one for a single field, which must be there where it is required) and every
/// other box kept as it is.
pub open spec fn mdia_parse(s: Seq<u8>) -> Result<MediaBoxModel, IsoError> {
    let cs = spec_children(s);
    match scan_result(cs, |c: UnknownBoxModel| mdia_fault(c)) {
        Err(e) => Err(e),
        Ok(k) => {
            let p = cs.take(k as int);
            match last_child::<MediaHeaderBox>(p) {
                None => Err(IsoError::InvalidData),
                Some(mdhd) =>                 match last_child::<HandlerBox>(p) {
                    None => Err(IsoError::InvalidData),
                    Some(hdlr) =>                     match last_child::<MediaInformationBox>(p) {
                        None => Err(IsoError::InvalidData),
                        Some(minf) => Ok(
                            MediaBoxModel {
                                mdhd: mdhd,
                                hdlr: hdlr,
                                elng: last_child::<ExtendedLanguageBox>(p),
                                minf: minf,
                                unknown_boxes: collect_unknown(p, |c: UnknownBoxModel| mdia_known(c)),
                            },
                        ),
                    },
                },
            }
        },
    }
}

/// The bytes of the boxes that a mdia holds, in the order of its fields.
pub open spec fn mdia_children_bytes(v: MediaBoxModel) -> Seq<u8> {
    nested_box_bytes::<MediaHeaderBox>(v.mdhd)
        + nested_box_bytes::<HandlerBox>(v.hdlr)
        + nested_opt_bytes::<ExtendedLanguageBox>(v.elng)
        + nested_box_bytes::<MediaInformationBox>(v.minf)
        + ser_seq::<UnknownBox>(v.unknown_boxes)
}

/// The boxes, as found in a container, that a mdia writes.
pub open spec fn mdia_models(v: MediaBoxModel) -> Seq<UnknownBoxModel> {
    seq![nested_model::<MediaHeaderBox>(v.mdhd)]
        + seq![nested_model::<HandlerBox>(v.hdlr)]
        + nested_opt_models::<ExtendedLanguageBox>(v.elng)
        + seq![nested_model::<MediaInformationBox>(v.minf)]
        + v.unknown_boxes
}

/// The payload that a mdia writes.
pub open spec fn mdia_bytes(v: MediaBoxModel) -> Seq<u8> {
    mdia_children_bytes(v)
}

/// Every box of a known type can be written.
pub open spec fn mdia_writable(v: MediaBoxModel) -> bool {
    &&& nested_writable::<MediaHeaderBox>(v.mdhd)
    &&& nested_writable::<HandlerBox>(v.hdlr)
    &&& nested_opt_writable::<ExtendedLanguageBox>(v.elng)
    &&& nested_writable::<MediaInformationBox>(v.minf)
}

/// Every box of a known type reads back as itself, and every other box is of
/// another type and announces exactly its payload.
pub open spec fn mdia_canonical(v: MediaBoxModel) -> bool {
    &&& nested_ok::<MediaHeaderBox>(v.mdhd)
    &&& nested_ok::<HandlerBox>(v.hdlr)
    &&& nested_opt_ok::<ExtendedLanguageBox>(v.elng)
    &&& nested_ok::<MediaInformationBox>(v.minf)
    &&& forall|i: int|
        0 <= i < v.unknown_boxes.len() ==> UnknownBox::spec_canonical(#[trigger] v.unknown_boxes[i]) && !mdia_known(
            v.unknown_boxes[i],
        )
}

impl IsoSized for MediaBox {
    open spec fn spec_size(&self) -> nat {
        add_header_size(self.mdhd.spec_size() + self.hdlr.spec_size() + nested_opt_size::<ExtendedLanguageBox>(self.elng) + self.minf.spec_size() + size_seq::<UnknownBox>(self.unknown_boxes@))
    }

    fn size(&self) -> (n: usize) {
        proof {
            lemma_size_seq_mono::<UnknownBox>(self.unknown_boxes@, 0);
        }
        let mut n: usize = 0;
        n = n + self.mdhd.size();
        n = n + self.hdlr.size();
        n = n + size_nested_opt(&self.elng);
        n = n + self.minf.size();
        n = n + size_all(&self.unknown_boxes);
        add_header_size_exec(n)
    }
}

/// The fields of a mdia read so far.
pub struct MediaBoxScan {
    pub mdhd: Option<MediaHeaderBox>,
    pub hdlr: Option<HandlerBox>,
    pub elng: Option<ExtendedLanguageBox>,
    pub minf: Option<MediaInformationBox>,
    pub unknown_boxes: Vec<UnknownBox>,
}

/// The model of a [`MediaBoxScan`].
pub struct MediaBoxScanModel {
    pub mdhd: Option<<MediaHeaderBox as View>::V>,
    pub hdlr: Option<<HandlerBox as View>::V>,
    pub elng: Option<<ExtendedLanguageBox as View>::V>,
    pub minf: Option<<MediaInformationBox as View>::V>,
    pub unknown_boxes: Seq<UnknownBoxModel>,
}

impl View for MediaBoxScan {
    type V = MediaBoxScanModel;

    open spec fn view(&self) -> MediaBoxScanModel {
        MediaBoxScanModel {
            mdhd: opt_view(self.mdhd),
            hdlr: opt_view(self.hdlr),
            elng: opt_view(self.elng),
            minf: opt_view(self.minf),
            unknown_boxes: views(self.unknown_boxes@),
        }
    }
}

/// What a mdia holds after reading the boxes of `p`.
pub open spec fn mdia_prefix(p: Seq<UnknownBoxModel>) -> MediaBoxScanModel {
    MediaBoxScanModel {
        mdhd: last_child::<MediaHeaderBox>(p),
        hdlr: last_child::<HandlerBox>(p),
        elng: last_child::<ExtendedLanguageBox>(p),
        minf: last_child::<MediaInformationBox>(p),
        unknown_boxes: collect_unknown(p, |c: UnknownBoxModel| mdia_known(c)),
    }
}

/// What a mdia holds after reading one more box that does not fail.
pub open spec fn mdia_extend(m: MediaBoxScanModel, c: UnknownBoxModel) -> MediaBoxScanModel {
    MediaBoxScanModel {
        mdhd: match child_value::<MediaHeaderBox>(c) {
            Some(v) => Some(v),
            None => m.mdhd,
        },
        hdlr: match child_value::<HandlerBox>(c) {
            Some(v) => Some(v),
            None => m.hdlr,
        },
        elng: match child_value::<ExtendedLanguageBox>(c) {
            Some(v) => Some(v),
            None => m.elng,
        },
        minf: match child_value::<MediaInformationBox>(c) {
            Some(v) => Some(v),
            None => m.minf,
        },
        unknown_boxes: if mdia_known(c) {
            m.unknown_boxes
        } else {
            m.unknown_boxes.push(c)
        },
    }
}

/// The types that a mdia reads differ from one another.
pub open spec fn mdia_types_differ() -> bool {
    &&& MediaHeaderBox::spec_box_type() != HandlerBox::spec_box_type()
    &&& MediaHeaderBox::spec_box_type() != ExtendedLanguageBox::spec_box_type()
    &&& MediaHeaderBox::spec_box_type() != MediaInformationBox::spec_box_type()
    &&& HandlerBox::spec_box_type() != ExtendedLanguageBox::spec_box_type()
    &&& HandlerBox::spec_box_type() != MediaInformationBox::spec_box_type()
    &&& ExtendedLanguageBox::spec_box_type() != MediaInformationBox::spec_box_type()
}

proof fn lemma_mdia_types()
    ensures
        mdia_types_differ(),
{
    assert(MediaHeaderBox::spec_box_type()[0] != HandlerBox::spec_box_type()[0]);
    assert(MediaHeaderBox::spec_box_type()[0] != ExtendedLanguageBox::spec_box_type()[0]);
    assert(MediaHeaderBox::spec_box_type()[1] != MediaInformationBox::spec_box_type()[1]);
    assert(HandlerBox::spec_box_type()[0] != ExtendedLanguageBox::spec_box_type()[0]);
    assert(HandlerBox::spec_box_type()[0] != MediaInformationBox::spec_box_type()[0]);
    assert(ExtendedLanguageBox::spec_box_type()[0] != MediaInformationBox::spec_box_type()[0]);
}

/// Reads one box found in a mdia into its field.
#[verifier::spinoff_prover]
#[verifier::rlimit(60)]
fn mdia_step(c: &UnknownBox, acc: &mut MediaBoxScan) -> (r: Result<(), IsoError>)
    requires
        mdia_types_differ(),
    ensures
        match r {
            Ok(()) => mdia_fault(c@) is None && final(acc)@ == mdia_extend(old(acc)@, c@),
            Err(e) => mdia_fault(c@) == Some(e) && final(acc)@ == old(acc)@,
        },
{
    if is_child_exec::<MediaHeaderBox>(c) {
        proof {
            lemma_child_other::<HandlerBox>(c@);
            lemma_child_other::<ExtendedLanguageBox>(c@);
            lemma_child_other::<MediaInformationBox>(c@);
            lemma_child_read::<MediaHeaderBox>(c@);
        }
        let r = replace_into(c, &mut acc.mdhd);
        proof {
            if r is Err {
                assert(acc@ =~= old(acc)@);
            }
            if r is Ok {
                assert(acc@ =~= mdia_extend(old(acc)@, c@));
            }
        }
        r
    } else if is_child_exec::<HandlerBox>(c) {
        proof {
            lemma_child_other::<MediaHeaderBox>(c@);
            lemma_child_other::<ExtendedLanguageBox>(c@);
            lemma_child_other::<MediaInformationBox>(c@);
            lemma_child_read::<HandlerBox>(c@);
        }
        let r = replace_into(c, &mut acc.hdlr);
        proof {
            if r is Err {
                assert(acc@ =~= old(acc)@);
            }
            if r is Ok {
                assert(acc@ =~= mdia_extend(old(acc)@, c@));
            }
        }
        r
    } else if is_child_exec::<ExtendedLanguageBox>(c) {
        proof {
            lemma_child_other::<MediaHeaderBox>(c@);
            lemma_child_other::<HandlerBox>(c@);
            lemma_child_other::<MediaInformationBox>(c@);
            lemma_child_read::<ExtendedLanguageBox>(c@);
        }
        let r = replace_into(c, &mut acc.elng);
        proof {
            if r is Err {
                assert(acc@ =~= old(acc)@);
            }
            if r is Ok {
                assert(acc@ =~= mdia_extend(old(acc)@, c@));
            }
        }
        r
    } else if is_child_exec::<MediaInformationBox>(c) {
        proof {
            lemma_child_other::<MediaHeaderBox>(c@);
            lemma_child_other::<HandlerBox>(c@);
            lemma_child_other::<ExtendedLanguageBox>(c@);
            lemma_child_read::<MediaInformationBox>(c@);
        }
        let r = replace_into(c, &mut acc.minf);
        proof {
            if r is Err {
                assert(acc@ =~= old(acc)@);
            }
            if r is Ok {
                assert(acc@ =~= mdia_extend(old(acc)@, c@));
            }
        }
        r
    } else {
        proof {
            lemma_child_other::<MediaHeaderBox>(c@);
            lemma_child_other::<HandlerBox>(c@);
            lemma_child_other::<ExtendedLanguageBox>(c@);
            lemma_child_other::<MediaInformationBox>(c@);
        }
        let kept = UnknownBox { header: c.header, data: vstd::slice::slice_to_vec(c.data.as_slice()) };
        let ghost old_v = views(acc.unknown_boxes@);
        acc.unknown_boxes.push(kept);
        proof {
            assert(views(acc.unknown_boxes@) =~= old_v.push(c@));
            assert(acc@ =~= mdia_extend(old(acc)@, c@));
        }
        Ok(())
    }
}

/// Reading one more box extends what was read by it.
proof fn lemma_mdia_prefix_step(css: Seq<UnknownBoxModel>, i: int)
    requires
        0 <= i < css.len(),
    ensures
        mdia_prefix(css.take(i + 1)) == mdia_extend(mdia_prefix(css.take(i)), css[i]),
{
    lemma_collect_step::<MediaHeaderBox>(css, i);
    lemma_collect_step::<HandlerBox>(css, i);
    lemma_collect_step::<ExtendedLanguageBox>(css, i);
    lemma_collect_step::<MediaInformationBox>(css, i);
    lemma_unknown_step(css, |c: UnknownBoxModel| mdia_known(c), i);
    let a = mdia_prefix(css.take(i + 1));
    let b = mdia_extend(mdia_prefix(css.take(i)), css[i]);
    assert(a.unknown_boxes =~= b.unknown_boxes);
}

/// Reads the payload of a mdia.
#[verifier::spinoff_prover]
#[verifier::rlimit(60)]
fn parse_mdia(payload: &[u8]) -> (r: Result<MediaBox, IsoError>)
    ensures
        match (mdia_parse(payload@), r) {
            (Ok(v), Ok(x)) => x@ == v,
            (Err(e), Err(f)) => e == f,
            _ => false,
        },
{
    let cs = read_children(payload);
    let ghost css = spec_children(payload@);
    let ghost fault = |c: UnknownBoxModel| mdia_fault(c);
    let mut acc = MediaBoxScan {
        mdhd: None,
        hdlr: None,
        elng: None,
        minf: None,
        unknown_boxes: Vec::new(),
    };
    let mut i: usize = 0;
    let mut stop = false;
    proof {
        lemma_mdia_types();
        let e = css.take(0);
        assert(e =~= Seq::<UnknownBoxModel>::empty());
        assert(collect_children::<MediaHeaderBox>(e) =~= Seq::<<MediaHeaderBox as View>::V>::empty());
        assert(collect_children::<HandlerBox>(e) =~= Seq::<<HandlerBox as View>::V>::empty());
        assert(collect_children::<ExtendedLanguageBox>(e) =~= Seq::<<ExtendedLanguageBox as View>::V>::empty());
        assert(collect_children::<MediaInformationBox>(e) =~= Seq::<<MediaInformationBox as View>::V>::empty());
        assert(collect_unknown(e, |c: UnknownBoxModel| mdia_known(c)) =~= Seq::<UnknownBoxModel>::empty());
        assert(views(acc.unknown_boxes@) =~= Seq::<UnknownBoxModel>::empty());
        assert(acc@ =~= mdia_prefix(e));
    }
    while i < cs.len() && !stop
        invariant
            views(cs@) == css,
            css == spec_children(payload@),
            fault == (|c: UnknownBoxModel| mdia_fault(c)),
            mdia_types_differ(),
            i <= cs@.len(),
            forall|j: int| 0 <= j < i ==> (#[trigger] fault(css[j])) is None,
            stop ==> i < css.len() && fault(css[i as int]) == Some(IsoError::UnexpectedEof),
            acc@ == mdia_prefix(css.take(i as int)),
        decreases cs@.len() - i + (if stop { 0int } else { 1int }),
    {
        let c = &cs[i];
        proof {
            assert(c@ == css[i as int]);
            lemma_mdia_prefix_step(css, i as int);
        }
        match mdia_step(c, &mut acc) {
            Ok(()) => {
                i = i + 1;
            },
            Err(IsoError::UnexpectedEof) => {
                stop = true;
            },
            Err(e) => {
                proof {
                    lemma_first_fault(css, fault, i as int);
                }
                return Err(e);
            },
        }
    }
    proof {
        lemma_first_fault(css, fault, i as int);
        assert(first_fault(css, fault) == i);
    }
    let MediaBoxScan { mdhd, hdlr, elng, minf, unknown_boxes } = acc;
    let mdhd = match mdhd {
        Some(x) => x,
        None => {
            return Err(IsoError::InvalidData);
        },
    };
    let hdlr = match hdlr {
        Some(x) => x,
        None => {
            return Err(IsoError::InvalidData);
        },
    };
    let minf = match minf {
        Some(x) => x,
        None => {
            return Err(IsoError::InvalidData);
        },
    };
    Ok(MediaBox { mdhd, hdlr, elng, minf, unknown_boxes })
}

/// Writes the boxes of a mdia in the order of its fields.
#[verifier::spinoff_prover]
#[verifier::rlimit(60)]
fn write_mdia_children(x: &MediaBox, out: &mut Vec<u8>) -> (r: Result<(), IsoError>)
    requires
        x.spec_size() <= usize::MAX,
    ensures
        write_matches(r, mdia_writable(x@), mdia_children_bytes(x@), old(out)@, final(out)@),
{
    let ghost before = out@;
    let ghost v = x@;
    if write_nested(&x.mdhd, out).is_err() {
        return Err(IsoError::InvalidData);
    }
    let ghost m1 = out@;
    proof {
        lemma_append_prefix(before, nested_box_bytes::<MediaHeaderBox>(v.mdhd));
    }
    if write_nested(&x.hdlr, out).is_err() {
        proof {
            lemma_prefix_trans(before, m1, out@);
        }
        return Err(IsoError::InvalidData);
    }
    let ghost m2 = out@;
    proof {
        lemma_append_prefix(m1, nested_box_bytes::<HandlerBox>(v.hdlr));
        lemma_prefix_trans(before, m1, m2);
    }
    if write_nested_opt(&x.elng, out).is_err() {
        proof {
            lemma_prefix_trans(before, m2, out@);
        }
        return Err(IsoError::InvalidData);
    }
    let ghost m3 = out@;
    proof {
        lemma_append_prefix(m2, nested_opt_bytes::<ExtendedLanguageBox>(v.elng));
        lemma_prefix_trans(before, m2, m3);
    }
    if write_nested(&x.minf, out).is_err() {
        proof {
            lemma_prefix_trans(before, m3, out@);
        }
        return Err(IsoError::InvalidData);
    }
    let ghost m4 = out@;
    proof {
        lemma_append_prefix(m3, nested_box_bytes::<MediaInformationBox>(v.minf));
        lemma_prefix_trans(before, m3, m4);
    }
    let _ = serialize_all(&x.unknown_boxes, out);
    assert(out@ == m4 + ser_seq::<UnknownBox>(v.unknown_boxes)) by {
        assert(views(x.unknown_boxes@) == v.unknown_boxes);
    }
    let ghost m5 = out@;
    proof {
        lemma_append_prefix(m4, ser_seq::<UnknownBox>(v.unknown_boxes));
        lemma_prefix_trans(before, m4, m5);
    }
    proof {
        let l1 = nested_box_bytes::<MediaHeaderBox>(v.mdhd);
        assert(m1 == before + l1);
        let l2 = l1 + nested_box_bytes::<HandlerBox>(v.hdlr);
        vstd::seq_lib::lemma_concat_associative(before, l1, nested_box_bytes::<HandlerBox>(v.hdlr));
        assert(m2 == before + l2);
        let l3 = l2 + nested_opt_bytes::<ExtendedLanguageBox>(v.elng);
        vstd::seq_lib::lemma_concat_associative(before, l2, nested_opt_bytes::<ExtendedLanguageBox>(v.elng));
        assert(m3 == before + l3);
        let l4 = l3 + nested_box_bytes::<MediaInformationBox>(v.minf);
        vstd::seq_lib::lemma_concat_associative(before, l3, nested_box_bytes::<MediaInformationBox>(v.minf));
        assert(m4 == before + l4);
        let l5 = l4 + ser_seq::<UnknownBox>(v.unknown_boxes);
        vstd::seq_lib::lemma_concat_associative(before, l4, ser_seq::<UnknownBox>(v.unknown_boxes));
        assert(m5 == before + l5);
        assert(mdia_children_bytes(v) == l5);
        lemma_append_prefix(before, mdia_children_bytes(v));
    }
    Ok(())
}

/// The boxes that a mdia writes, read from their bytes one list after the other.
#[verifier::spinoff_prover]
#[verifier::rlimit(100)]
proof fn lemma_mdia_children_chain(v: MediaBoxModel)
    requires
        mdia_canonical(v),
    ensures
        spec_children(nested_box_bytes::<MediaHeaderBox>(v.mdhd) + (nested_box_bytes::<HandlerBox>(v.hdlr) + (nested_opt_bytes::<ExtendedLanguageBox>(v.elng) + (nested_box_bytes::<MediaInformationBox>(v.minf) + (ser_seq::<UnknownBox>(v.unknown_boxes)))))) == seq![nested_model::<MediaHeaderBox>(v.mdhd)] + (seq![nested_model::<HandlerBox>(v.hdlr)] + (nested_opt_models::<ExtendedLanguageBox>(v.elng) + (seq![nested_model::<MediaInformationBox>(v.minf)] + (v.unknown_boxes)))),
{
    let b0 = nested_box_bytes::<MediaHeaderBox>(v.mdhd);
    let s0 = seq![nested_model::<MediaHeaderBox>(v.mdhd)];
    let b1 = nested_box_bytes::<HandlerBox>(v.hdlr);
    let s1 = seq![nested_model::<HandlerBox>(v.hdlr)];
    let b2 = nested_opt_bytes::<ExtendedLanguageBox>(v.elng);
    let s2 = nested_opt_models::<ExtendedLanguageBox>(v.elng);
    let b3 = nested_box_bytes::<MediaInformationBox>(v.minf);
    let s3 = seq![nested_model::<MediaInformationBox>(v.minf)];
    let b4 = ser_seq::<UnknownBox>(v.unknown_boxes);
    let s4 = v.unknown_boxes;
    crate::children::lemma_children_empty();
    let t4 = b4;
    let u4 = s4;
    assert(b4 + Seq::<u8>::empty() =~= b4);
    assert(s4 + Seq::<UnknownBoxModel>::empty() =~= s4);
    lemma_unknown_seq_rest(v.unknown_boxes, Seq::<u8>::empty());
    assert(spec_children(t4) == u4);
    let t3 = b3 + t4;
    let u3 = s3 + u4;
    lemma_nested_cons::<MediaInformationBox>(v.minf, t4);
    assert(spec_children(t3) == u3);
    let t2 = b2 + t3;
    let u2 = s2 + u3;
    lemma_nested_opt_seq::<ExtendedLanguageBox>(v.elng, t3);
    assert(spec_children(t2) == u2);
    let t1 = b1 + t2;
    let u1 = s1 + u2;
    lemma_nested_cons::<HandlerBox>(v.hdlr, t2);
    assert(spec_children(t1) == u1);
    let t0 = b0 + t1;
    let u0 = s0 + u1;
    lemma_nested_cons::<MediaHeaderBox>(v.mdhd, t1);
    assert(spec_children(t0) == u0);
}

/// The boxes that a mdia writes read back as their models.
#[verifier::spinoff_prover]
#[verifier::rlimit(100)]
proof fn lemma_mdia_children(v: MediaBoxModel)
    requires
        mdia_canonical(v),
    ensures
        spec_children(mdia_children_bytes(v)) == mdia_models(v),
{
    lemma_mdia_children_chain(v);
    let b0 = nested_box_bytes::<MediaHeaderBox>(v.mdhd);
    let s0 = seq![nested_model::<MediaHeaderBox>(v.mdhd)];
    let b1 = nested_box_bytes::<HandlerBox>(v.hdlr);
    let s1 = seq![nested_model::<HandlerBox>(v.hdlr)];
    let b2 = nested_opt_bytes::<ExtendedLanguageBox>(v.elng);
    let s2 = nested_opt_models::<ExtendedLanguageBox>(v.elng);
    let b3 = nested_box_bytes::<MediaInformationBox>(v.minf);
    let s3 = seq![nested_model::<MediaInformationBox>(v.minf)];
    let b4 = ser_seq::<UnknownBox>(v.unknown_boxes);
    let s4 = v.unknown_boxes;
    let t4 = b4;
    let u4 = s4;
    let t3 = b3 + t4;
    let u3 = s3 + u4;
    let t2 = b2 + t3;
    let u2 = s2 + u3;
    let t1 = b1 + t2;
    let u1 = s1 + u2;
    let t0 = b0 + t1;
    let u0 = s0 + u1;
    let t5 = Seq::<u8>::empty();
    let u5 = Seq::<UnknownBoxModel>::empty();
    assert(b4 + t5 =~= t4);
    assert(s4 + u5 =~= u4);
    let l0 = Seq::<u8>::empty();
    let k0 = Seq::<UnknownBoxModel>::empty();
    assert(l0 + t0 =~= t0);
    assert(k0 + u0 =~= u0);
    let l1 = b0;
    let k1 = s0;
    assert(l1 + t1 == l0 + t0);
    assert(k1 + u1 == k0 + u0);
    let l2 = l1 + b1;
    let k2 = k1 + s1;
    vstd::seq_lib::lemma_concat_associative(l1, b1, t2);
    vstd::seq_lib::lemma_concat_associative(k1, s1, u2);
    assert(l2 + t2 == l1 + t1);
    assert(k2 + u2 == k1 + u1);
    let l3 = l2 + b2;
    let k3 = k2 + s2;
    vstd::seq_lib::lemma_concat_associative(l2, b2, t3);
    vstd::seq_lib::lemma_concat_associative(k2, s2, u3);
    assert(l3 + t3 == l2 + t2);
    assert(k3 + u3 == k2 + u2);
    let l4 = l3 + b3;
    let k4 = k3 + s3;
    vstd::seq_lib::lemma_concat_associative(l3, b3, t4);
    vstd::seq_lib::lemma_concat_associative(k3, s3, u4);
    assert(l4 + t4 == l3 + t3);
    assert(k4 + u4 == k3 + u3);
    let l5 = l4 + b4;
    let k5 = k4 + s4;
    vstd::seq_lib::lemma_concat_associative(l4, b4, t5);
    vstd::seq_lib::lemma_concat_associative(k4, s4, u5);
    assert(l5 + t5 == l4 + t4);
    assert(k5 + u5 == k4 + u4);
    assert(l5 + t5 =~= l5);
    assert(k5 + u5 =~= k5);
    assert(mdia_children_bytes(v) == l5);
    assert(mdia_models(v) == k5);
}

/// No box that a mdia writes fails to read.
#[verifier::spinoff_prover]
#[verifier::rlimit(60)]
proof fn lemma_mdia_no_fault(v: MediaBoxModel, j: int)
    requires
        mdia_canonical(v),
        mdia_types_differ(),
        0 <= j < mdia_models(v).len(),
    ensures
        mdia_fault(mdia_models(v)[j]) is None,
{
    let cs = mdia_models(v);
    let s0 = seq![nested_model::<MediaHeaderBox>(v.mdhd)];
    let s1 = seq![nested_model::<HandlerBox>(v.hdlr)];
    let s2 = nested_opt_models::<ExtendedLanguageBox>(v.elng);
    let s3 = seq![nested_model::<MediaInformationBox>(v.minf)];
    let s4 = v.unknown_boxes;
    let n0: int = 0;
    let n1: int = n0 + s0.len();
    let n2: int = n1 + s1.len();
    let n3: int = n2 + s2.len();
    let n4: int = n3 + s3.len();
    let n5: int = n4 + s4.len();
    if j < n1 {
        assert(cs[j] == s0[j - n0]);
        lemma_nested_cons::<MediaHeaderBox>(v.mdhd, Seq::empty());
    } else if j < n2 {
        assert(cs[j] == s1[j - n1]);
        lemma_nested_cons::<HandlerBox>(v.hdlr, Seq::empty());
    } else if j < n3 {
        assert(cs[j] == s2[j - n2]);
        lemma_nested_cons::<ExtendedLanguageBox>(v.elng.unwrap(), Seq::empty());
    } else if j < n4 {
        assert(cs[j] == s3[j - n3]);
        lemma_nested_cons::<MediaInformationBox>(v.minf, Seq::empty());
    } else if j < n5 {
        assert(cs[j] == s4[j - n4]);
        assert(!mdia_known(v.unknown_boxes[j - n4]));
    }
}

/// Collecting over the lists of a mdia one after the other collects over each in
/// turn.
proof fn lemma_mdia_split<T: BoxBody>(m0: Seq<UnknownBoxModel>, m1: Seq<UnknownBoxModel>, m2: Seq<UnknownBoxModel>, m3: Seq<UnknownBoxModel>, m4: Seq<UnknownBoxModel>)
    ensures
        collect_children::<T>(m0 + m1 + m2 + m3 + m4) == collect_children::<T>(m0) + collect_children::<T>(m1) + collect_children::<T>(m2) + collect_children::<T>(m3) + collect_children::<T>(m4),
{
    lemma_collect_add::<T>(m0 + m1 + m2 + m3, m4);
    lemma_collect_add::<T>(m0 + m1 + m2, m3);
    lemma_collect_add::<T>(m0 + m1, m2);
    lemma_collect_add::<T>(m0, m1);
}

/// The boxes that a mdia writes collect back into its field `mdhd`.
#[verifier::spinoff_prover]
#[verifier::rlimit(60)]
proof fn lemma_mdia_collect_mdhd(v: MediaBoxModel)
    requires
        mdia_canonical(v),
        mdia_types_differ(),
    ensures
        collect_children::<MediaHeaderBox>(mdia_models(v)) == seq![v.mdhd],
{
    lemma_mdia_split::<MediaHeaderBox>(seq![nested_model::<MediaHeaderBox>(v.mdhd)], seq![nested_model::<HandlerBox>(v.hdlr)], nested_opt_models::<ExtendedLanguageBox>(v.elng), seq![nested_model::<MediaInformationBox>(v.minf)], v.unknown_boxes);
    lemma_nested_opt_own::<MediaHeaderBox>(Some(v.mdhd));
    assert(nested_opt_models::<MediaHeaderBox>(Some(v.mdhd)) == seq![nested_model::<MediaHeaderBox>(v.mdhd)]);
    lemma_nested_opt_other::<MediaHeaderBox, HandlerBox>(Some(v.hdlr));
    assert(nested_opt_models::<HandlerBox>(Some(v.hdlr)) == seq![nested_model::<HandlerBox>(v.hdlr)]);
    lemma_nested_opt_other::<MediaHeaderBox, ExtendedLanguageBox>(v.elng);
    lemma_nested_opt_other::<MediaHeaderBox, MediaInformationBox>(Some(v.minf));
    assert(nested_opt_models::<MediaInformationBox>(Some(v.minf)) == seq![nested_model::<MediaInformationBox>(v.minf)]);
    assert forall|i: int| 0 <= i < v.unknown_boxes.len() implies !#[trigger] is_child::<MediaHeaderBox>(v.unknown_boxes[i]) by {
        assert(!mdia_known(v.unknown_boxes[i]));
    }
    lemma_collect_none::<MediaHeaderBox>(v.unknown_boxes);
    assert(collect_children::<MediaHeaderBox>(mdia_models(v)) =~= seq![v.mdhd]);
}

/// The boxes that a mdia writes collect back into its field `hdlr`.
#[verifier::spinoff_prover]
#[verifier::rlimit(60)]
proof fn lemma_mdia_collect_hdlr(v: MediaBoxModel)
    requires
        mdia_canonical(v),
        mdia_types_differ(),
    ensures
        collect_children::<HandlerBox>(mdia_models(v)) == seq![v.hdlr],
{
    lemma_mdia_split::<HandlerBox>(seq![nested_model::<MediaHeaderBox>(v.mdhd)], seq![nested_model::<HandlerBox>(v.hdlr)], nested_opt_models::<ExtendedLanguageBox>(v.elng), seq![nested_model::<MediaInformationBox>(v.minf)], v.unknown_boxes);
    lemma_nested_opt_other::<HandlerBox, MediaHeaderBox>(Some(v.mdhd));
    assert(nested_opt_models::<MediaHeaderBox>(Some(v.mdhd)) == seq![nested_model::<MediaHeaderBox>(v.mdhd)]);
    lemma_nested_opt_own::<HandlerBox>(Some(v.hdlr));
    assert(nested_opt_models::<HandlerBox>(Some(v.hdlr)) == seq![nested_model::<HandlerBox>(v.hdlr)]);
    lemma_nested_opt_other::<HandlerBox, ExtendedLanguageBox>(v.elng);
    lemma_nested_opt_other::<HandlerBox, MediaInformationBox>(Some(v.minf));
    assert(nested_opt_models::<MediaInformationBox>(Some(v.minf)) == seq![nested_model::<MediaInformationBox>(v.minf)]);
    assert forall|i: int| 0 <= i < v.unknown_boxes.len() implies !#[trigger] is_child::<HandlerBox>(v.unknown_boxes[i]) by {
        assert(!mdia_known(v.unknown_boxes[i]));
    }
    lemma_collect_none::<HandlerBox>(v.unknown_boxes);
    assert(collect_children::<HandlerBox>(mdia_models(v)) =~= seq![v.hdlr]);
}

/// The boxes that a mdia writes collect back into its field `elng`.
#[verifier::spinoff_prover]
#[verifier::rlimit(60)]
proof fn lemma_mdia_collect_elng(v: MediaBoxModel)
    requires
        mdia_canonical(v),
        mdia_types_differ(),
    ensures
        collect_children::<ExtendedLanguageBox>(mdia_models(v)) == opt_seq(v.elng),
{
    lemma_mdia_split::<ExtendedLanguageBox>(seq![nested_model::<MediaHeaderBox>(v.mdhd)], seq![nested_model::<HandlerBox>(v.hdlr)], nested_opt_models::<ExtendedLanguageBox>(v.elng), seq![nested_model::<MediaInformationBox>(v.minf)], v.unknown_boxes);
    lemma_nested_opt_other::<ExtendedLanguageBox, MediaHeaderBox>(Some(v.mdhd));
    assert(nested_opt_models::<MediaHeaderBox>(Some(v.mdhd)) == seq![nested_model::<MediaHeaderBox>(v.mdhd)]);
    lemma_nested_opt_other::<ExtendedLanguageBox, HandlerBox>(Some(v.hdlr));
    assert(nested_opt_models::<HandlerBox>(Some(v.hdlr)) == seq![nested_model::<HandlerBox>(v.hdlr)]);
    lemma_nested_opt_own::<ExtendedLanguageBox>(v.elng);
    lemma_nested_opt_other::<ExtendedLanguageBox, MediaInformationBox>(Some(v.minf));
    assert(nested_opt_models::<MediaInformationBox>(Some(v.minf)) == seq![nested_model::<MediaInformationBox>(v.minf)]);
    assert forall|i: int| 0 <= i < v.unknown_boxes.len() implies !#[trigger] is_child::<ExtendedLanguageBox>(v.unknown_boxes[i]) by {
        assert(!mdia_known(v.unknown_boxes[i]));
    }
    lemma_collect_none::<ExtendedLanguageBox>(v.unknown_boxes);
    assert(collect_children::<ExtendedLanguageBox>(mdia_models(v)) =~= opt_seq(v.elng));
}

/// The boxes that a mdia writes collect back into its field `minf`.
#[verifier::spinoff_prover]
#[verifier::rlimit(60)]
proof fn lemma_mdia_collect_minf(v: MediaBoxModel)
    requires
        mdia_canonical(v),
        mdia_types_differ(),
    ensures
        collect_children::<MediaInformationBox>(mdia_models(v)) == seq![v.minf],
{
    lemma_mdia_split::<MediaInformationBox>(seq![nested_model::<MediaHeaderBox>(v.mdhd)], seq![nested_model::<HandlerBox>(v.hdlr)], nested_opt_models::<ExtendedLanguageBox>(v.elng), seq![nested_model::<MediaInformationBox>(v.minf)], v.unknown_boxes);
    lemma_nested_opt_other::<MediaInformationBox, MediaHeaderBox>(Some(v.mdhd));
    assert(nested_opt_models::<MediaHeaderBox>(Some(v.mdhd)) == seq![nested_model::<MediaHeaderBox>(v.mdhd)]);
    lemma_nested_opt_other::<MediaInformationBox, HandlerBox>(Some(v.hdlr));
    assert(nested_opt_models::<HandlerBox>(Some(v.hdlr)) == seq![nested_model::<HandlerBox>(v.hdlr)]);
    lemma_nested_opt_other::<MediaInformationBox, ExtendedLanguageBox>(v.elng);
    lemma_nested_opt_own::<MediaInformationBox>(Some(v.minf));
    assert(nested_opt_models::<MediaInformationBox>(Some(v.minf)) == seq![nested_model::<MediaInformationBox>(v.minf)]);
    assert forall|i: int| 0 <= i < v.unknown_boxes.len() implies !#[trigger] is_child::<MediaInformationBox>(v.unknown_boxes[i]) by {
        assert(!mdia_known(v.unknown_boxes[i]));
    }
    lemma_collect_none::<MediaInformationBox>(v.unknown_boxes);
    assert(collect_children::<MediaInformationBox>(mdia_models(v)) =~= seq![v.minf]);
}

/// The boxes of other types that a mdia writes are collected back as they are.
#[verifier::spinoff_prover]
#[verifier::rlimit(60)]
proof fn lemma_mdia_unknown(v: MediaBoxModel)
    requires
        mdia_canonical(v),
    ensures
        collect_unknown(mdia_models(v), |c: UnknownBoxModel| mdia_known(c)) == v.unknown_boxes,
{
    let known = |c: UnknownBoxModel| mdia_known(c);
    let s0 = seq![nested_model::<MediaHeaderBox>(v.mdhd)];
    assert forall|i: int| 0 <= i < s0.len() implies #[trigger] known(s0[i]) by {}
    lemma_unknown_all_known(s0, known);
    let s1 = seq![nested_model::<HandlerBox>(v.hdlr)];
    assert forall|i: int| 0 <= i < s1.len() implies #[trigger] known(s1[i]) by {}
    lemma_unknown_all_known(s1, known);
    let s2 = nested_opt_models::<ExtendedLanguageBox>(v.elng);
    assert forall|i: int| 0 <= i < s2.len() implies #[trigger] known(s2[i]) by {}
    lemma_unknown_all_known(s2, known);
    let s3 = seq![nested_model::<MediaInformationBox>(v.minf)];
    assert forall|i: int| 0 <= i < s3.len() implies #[trigger] known(s3[i]) by {}
    lemma_unknown_all_known(s3, known);
    let s4 = v.unknown_boxes;
    assert forall|i: int| 0 <= i < s4.len() implies !#[trigger] known(s4[i]) by {}
    lemma_unknown_none_known(s4, known);
    lemma_unknown_add(s0 + s1 + s2 + s3, s4, known);
    lemma_unknown_add(s0 + s1 + s2, s3, known);
    lemma_unknown_add(s0 + s1, s2, known);
    lemma_unknown_add(s0, s1, known);
    assert(collect_unknown(mdia_models(v), known) =~= v.unknown_boxes);
}

/// Writing a mdia and reading its payload back gives it again.
#[verifier::spinoff_prover]
#[verifier::rlimit(100)]
proof fn lemma_mdia_roundtrip(v: MediaBoxModel)
    requires
        mdia_canonical(v),
    ensures
        mdia_parse(mdia_bytes(v)) == Ok::<MediaBoxModel, IsoError>(v),
{
    let s = mdia_bytes(v);
    lemma_mdia_children(v);
    lemma_mdia_types();
    let cs = mdia_models(v);
    let fault = |c: UnknownBoxModel| mdia_fault(c);
    assert forall|j: int| 0 <= j < cs.len() implies (#[trigger] fault(cs[j])) is None by {
        lemma_mdia_no_fault(v, j);
    }
    lemma_first_fault(cs, fault, cs.len() as int);
    assert(cs.take(cs.len() as int) =~= cs);
    lemma_mdia_collect_mdhd(v);
    lemma_mdia_collect_hdlr(v);
    lemma_mdia_collect_elng(v);
    lemma_mdia_collect_minf(v);
    lemma_mdia_unknown(v);
    assert(spec_children(s) == cs);
    assert(last_child::<MediaHeaderBox>(cs) == Some(v.mdhd));
    assert(last_child::<HandlerBox>(cs) == Some(v.hdlr));
    assert(last_child::<ExtendedLanguageBox>(cs) == v.elng);
    assert(last_child::<MediaInformationBox>(cs) == Some(v.minf));
}

/// For a value that reads back as itself, the size is that of its payload and header.
#[verifier::spinoff_prover]
#[verifier::rlimit(60)]
proof fn lemma_mdia_size(x: MediaBox)
    requires
        mdia_canonical(x@),
    ensures
        x.mdhd.spec_size() + x.hdlr.spec_size() + nested_opt_size::<ExtendedLanguageBox>(x.elng) + x.minf.spec_size() + size_seq::<UnknownBox>(x.unknown_boxes@) == mdia_bytes(x@).len(),
{
    let v = x@;
    lemma_nested_size::<MediaHeaderBox>(x.mdhd);
    lemma_nested_size::<HandlerBox>(x.hdlr);
    lemma_nested_opt_size::<ExtendedLanguageBox>(x.elng);
    lemma_nested_size::<MediaInformationBox>(x.minf);
    assert(writable_seq::<UnknownBox>(views(x.unknown_boxes@)));
    lemma_size_seq::<UnknownBox>(x.unknown_boxes@);
}

impl BoxBody for MediaBox {
    open spec fn spec_box_type() -> [u8; 4] {
        [0x6du8, 0x64u8, 0x69u8, 0x61u8]
    }

    fn box_type() -> (r: [u8; 4]) {
        [0x6du8, 0x64u8, 0x69u8, 0x61u8]
    }

    open spec fn spec_parse_body(s: Seq<u8>) -> Result<MediaBoxModel, IsoError> {
        mdia_parse(s)
    }

    open spec fn spec_writable(v: MediaBoxModel) -> bool {
        mdia_writable(v)
    }

    open spec fn spec_serialize_body(v: MediaBoxModel) -> Seq<u8> {
        mdia_bytes(v)
    }

    open spec fn spec_canonical(v: MediaBoxModel) -> bool {
        mdia_canonical(v)
    }

    proof fn lemma_box_type() {
        assert(Self::spec_box_type()[0] != spec_uuid_fourcc()[0]);
    }

    proof fn lemma_body_size(x: MediaBox) {
        lemma_mdia_size(x);
    }

    proof fn lemma_body_roundtrip(v: MediaBoxModel) {
        lemma_mdia_roundtrip(v);
    }

    fn parse_body(payload: &[u8]) -> (r: Result<MediaBox, IsoError>) {
        parse_mdia(payload)
    }

    #[verifier::spinoff_prover]
    #[verifier::rlimit(60)]
    fn serialize_body(&self, out: &mut Vec<u8>) -> (r: Result<(), IsoError>) {
        write_mdia_children(self, out)
    }
}

} // verus!
