//! The sub track boxes: a sub track, its information and its definition by sample
//! groups.

use vstd::prelude::*;

use crate::children::{
    boxes_size, child_bytes, child_fault, child_model, child_ok, child_value, children_bytes, children_models,
    children_ok, children_size, children_writable, collect_children, collect_into, first_fault, is_child,
    is_child_exec, last_child, lemma_boxes_size, lemma_child_cons, lemma_child_other, lemma_child_read,
    lemma_children_empty, lemma_children_seq, lemma_collect_add, lemma_collect_own, lemma_collect_step,
    lemma_first_fault, lemma_opt_box_size, lemma_option_other, lemma_option_own, lemma_option_seq,
    opt_box_size, opt_model, option_bytes, option_models, option_ok, option_writable, read_children,
    replace_into, scan_result, size_children, size_option, spec_children, write_child, write_children,
    write_option, ChildBox,
};
use crate::codec::{
    be_u16_at, be_u24_at, be_u32_at, fourcc_at, from_i16, i16_of, lemma_append_prefix, lemma_fourcc_at,
    lemma_i16_roundtrip, lemma_prefix_trans, lemma_u16_at, lemma_u24_at, lemma_u32_at, read_fourcc_at,
    read_u16_at, read_u24_at, read_u32_at, to_i16, u16_bytes, u16_of, u24_bytes, u32_bytes, write_fourcc,
    write_u16, write_u24, write_u32, write_u8, IsoError,
};
use crate::frame::{add_header_size, add_header_size_exec, BoxBody, UnknownBoxModel};
use crate::header::{spec_uuid_fourcc, FullBoxHeader};
use crate::wire::{
    canonical_seq, lemma_rest_roundtrip, lemma_size_seq, lemma_size_seq_mono, parse_remaining, parse_rest,
    ser_seq, serialize_all, size_all, size_seq, views, writable_seq, IsoSized, Wire,
};

verus! {

/// Sub track information box
///
/// `stri`
///
/// ISO/IEC 14496-12 - 8.14.4
#[derive(Debug, PartialEq, Eq)]
pub struct SubTrackInformationBox {
    /// The full box header.
    pub full_header: FullBoxHeader,
    /// The switch group of the sub track, or 0.
    pub switch_group: i16,
    /// The alternate group of the sub track, or 0.
    pub alternate_group: i16,
    /// The identifier of the sub track within the track, or 0.
    pub sub_track_id: u32,
    /// The attributes of the sub track, to the end of the box.
    pub attribute_list: Vec<u32>,
}

/// The model of a [`SubTrackInformationBox`].
pub struct SubTrackInformationBoxModel {
    pub full_header: FullBoxHeader,
    pub switch_group: i16,
    pub alternate_group: i16,
    pub sub_track_id: u32,
    pub attribute_list: Seq<u32>,
}

impl View for SubTrackInformationBox {
    type V = SubTrackInformationBoxModel;

    open spec fn view(&self) -> SubTrackInformationBoxModel {
        SubTrackInformationBoxModel {
            full_header: self.full_header,
            switch_group: self.switch_group,
            alternate_group: self.alternate_group,
            sub_track_id: self.sub_track_id,
            attribute_list: views(self.attribute_list@),
        }
    }
}

impl IsoSized for SubTrackInformationBox {
    open spec fn spec_size(&self) -> nat {
        add_header_size(12 + size_seq::<u32>(self.attribute_list@))
    }

    fn size(&self) -> (n: usize) {
        proof {
            lemma_size_seq_mono::<u32>(self.attribute_list@, 0);
        }
        add_header_size_exec(12 + size_all(&self.attribute_list))
    }
}

impl BoxBody for SubTrackInformationBox {
    open spec fn spec_box_type() -> [u8; 4] {
        [0x73u8, 0x74u8, 0x72u8, 0x69u8]
    }

    fn box_type() -> (r: [u8; 4]) {
        [0x73u8, 0x74u8, 0x72u8, 0x69u8]
    }

    /// The full header, the two signed groups, the identifier, then attributes until
    /// the payload ends.
    open spec fn spec_parse_body(s: Seq<u8>) -> Result<SubTrackInformationBoxModel, IsoError> {
        if s.len() < 12 {
            Err(IsoError::UnexpectedEof)
        } else {
            match parse_rest::<u32>(s.skip(12)) {
                Ok((items, _)) => Ok(
                    SubTrackInformationBoxModel {
                        full_header: FullBoxHeader { version: s[0], flags: be_u24_at(s, 1) },
                        switch_group: i16_of(be_u16_at(s, 4)),
                        alternate_group: i16_of(be_u16_at(s, 6)),
                        sub_track_id: be_u32_at(s, 8),
                        attribute_list: items,
                    },
                ),
                Err(e) => Err(e),
            }
        }
    }

    open spec fn spec_writable(v: SubTrackInformationBoxModel) -> bool {
        true
    }

    open spec fn spec_serialize_body(v: SubTrackInformationBoxModel) -> Seq<u8> {
        seq![v.full_header.version] + u24_bytes(v.full_header.flags) + u16_bytes(u16_of(v.switch_group)) + u16_bytes(
            u16_of(v.alternate_group),
        ) + u32_bytes(v.sub_track_id) + ser_seq::<u32>(v.attribute_list)
    }

    open spec fn spec_canonical(v: SubTrackInformationBoxModel) -> bool {
        v.full_header.flags < 0x100_0000 && canonical_seq::<u32>(v.attribute_list)
    }

    proof fn lemma_box_type() {
        assert(Self::spec_box_type()[0] != spec_uuid_fourcc()[0]);
    }

    proof fn lemma_body_size(x: SubTrackInformationBox) {
        assert(writable_seq::<u32>(views(x.attribute_list@)));
        lemma_size_seq::<u32>(x.attribute_list@);
    }

    proof fn lemma_body_roundtrip(v: SubTrackInformationBoxModel) {
        let s = Self::spec_serialize_body(v);
        assert(s.subrange(1, 4) =~= u24_bytes(v.full_header.flags));
        lemma_u24_at(s, 1, v.full_header.flags);
        assert(s.subrange(4, 6) =~= u16_bytes(u16_of(v.switch_group)));
        lemma_u16_at(s, 4, u16_of(v.switch_group));
        lemma_i16_roundtrip(v.switch_group);
        assert(s.subrange(6, 8) =~= u16_bytes(u16_of(v.alternate_group)));
        lemma_u16_at(s, 6, u16_of(v.alternate_group));
        lemma_i16_roundtrip(v.alternate_group);
        assert(s.subrange(8, 12) =~= u32_bytes(v.sub_track_id));
        lemma_u32_at(s, 8, v.sub_track_id);
        assert(s.skip(12) =~= ser_seq::<u32>(v.attribute_list));
        assert(writable_seq::<u32>(v.attribute_list));
        lemma_rest_roundtrip::<u32>(v.attribute_list);
    }

    fn parse_body(d: &[u8]) -> (r: Result<SubTrackInformationBox, IsoError>) {
        if d.len() < 12 {
            return Err(IsoError::UnexpectedEof);
        }
        let full_header = FullBoxHeader { version: d[0], flags: read_u24_at(d, 1) };
        let switch_group = to_i16(read_u16_at(d, 4));
        let alternate_group = to_i16(read_u16_at(d, 6));
        let sub_track_id = read_u32_at(d, 8);
        let (attribute_list, _end) = parse_remaining::<u32>(d, 12)?;
        Ok(SubTrackInformationBox { full_header, switch_group, alternate_group, sub_track_id, attribute_list })
    }

    fn serialize_body(&self, out: &mut Vec<u8>) -> (r: Result<(), IsoError>) {
        let ghost before = out@;
        write_u8(out, self.full_header.version);
        write_u24(out, self.full_header.flags);
        write_u16(out, from_i16(self.switch_group));
        write_u16(out, from_i16(self.alternate_group));
        write_u32(out, self.sub_track_id);
        let _ = serialize_all(&self.attribute_list, out);
        proof {
            assert(out@ =~= before + Self::spec_serialize_body(self@));
            lemma_append_prefix(before, Self::spec_serialize_body(self@));
        }
        Ok(())
    }
}

/// Sub track sample group box
///
/// `stsg`
///
/// ISO/IEC 14496-12 - 8.14.6
#[derive(Debug, PartialEq, Eq)]
pub struct SubTrackSampleGroupBox {
    /// The full box header.
    pub full_header: FullBoxHeader,
    /// The type of the sample grouping.
    pub grouping_type: [u8; 4],
    /// The number of sample groups listed.
    pub item_count: u16,
    /// The indices of the sample group entries, to the end of the box.
    pub group_description_index: Vec<u32>,
}

/// The model of a [`SubTrackSampleGroupBox`].
pub struct SubTrackSampleGroupBoxModel {
    pub full_header: FullBoxHeader,
    pub grouping_type: [u8; 4],
    pub item_count: u16,
    pub group_description_index: Seq<u32>,
}

impl View for SubTrackSampleGroupBox {
    type V = SubTrackSampleGroupBoxModel;

    open spec fn view(&self) -> SubTrackSampleGroupBoxModel {
        SubTrackSampleGroupBoxModel {
            full_header: self.full_header,
            grouping_type: self.grouping_type,
            item_count: self.item_count,
            group_description_index: views(self.group_description_index@),
        }
    }
}

impl IsoSized for SubTrackSampleGroupBox {
    open spec fn spec_size(&self) -> nat {
        add_header_size(10 + size_seq::<u32>(self.group_description_index@))
    }

    fn size(&self) -> (n: usize) {
        proof {
            lemma_size_seq_mono::<u32>(self.group_description_index@, 0);
        }
        add_header_size_exec(10 + size_all(&self.group_description_index))
    }
}

impl BoxBody for SubTrackSampleGroupBox {
    open spec fn spec_box_type() -> [u8; 4] {
        [0x73u8, 0x74u8, 0x73u8, 0x67u8]
    }

    fn box_type() -> (r: [u8; 4]) {
        [0x73u8, 0x74u8, 0x73u8, 0x67u8]
    }

    /// The full header, the grouping type and the count, then indices until the
    /// payload ends.
    open spec fn spec_parse_body(s: Seq<u8>) -> Result<SubTrackSampleGroupBoxModel, IsoError> {
        if s.len() < 10 {
            Err(IsoError::UnexpectedEof)
        } else {
            match parse_rest::<u32>(s.skip(10)) {
                Ok((items, _)) => Ok(
                    SubTrackSampleGroupBoxModel {
                        full_header: FullBoxHeader { version: s[0], flags: be_u24_at(s, 1) },
                        grouping_type: fourcc_at(s, 4),
                        item_count: be_u16_at(s, 8),
                        group_description_index: items,
                    },
                ),
                Err(e) => Err(e),
            }
        }
    }

    open spec fn spec_writable(v: SubTrackSampleGroupBoxModel) -> bool {
        true
    }

    open spec fn spec_serialize_body(v: SubTrackSampleGroupBoxModel) -> Seq<u8> {
        seq![v.full_header.version] + u24_bytes(v.full_header.flags) + v.grouping_type@ + u16_bytes(v.item_count)
            + ser_seq::<u32>(v.group_description_index)
    }

    open spec fn spec_canonical(v: SubTrackSampleGroupBoxModel) -> bool {
        v.full_header.flags < 0x100_0000 && canonical_seq::<u32>(v.group_description_index)
    }

    proof fn lemma_box_type() {
        assert(Self::spec_box_type()[0] != spec_uuid_fourcc()[0]);
    }

    proof fn lemma_body_size(x: SubTrackSampleGroupBox) {
        assert(writable_seq::<u32>(views(x.group_description_index@)));
        lemma_size_seq::<u32>(x.group_description_index@);
    }

    proof fn lemma_body_roundtrip(v: SubTrackSampleGroupBoxModel) {
        let s = Self::spec_serialize_body(v);
        assert(s.subrange(1, 4) =~= u24_bytes(v.full_header.flags));
        lemma_u24_at(s, 1, v.full_header.flags);
        assert(s.subrange(4, 8) =~= v.grouping_type@);
        lemma_fourcc_at(s, 4, v.grouping_type);
        assert(s.subrange(8, 10) =~= u16_bytes(v.item_count));
        lemma_u16_at(s, 8, v.item_count);
        assert(s.skip(10) =~= ser_seq::<u32>(v.group_description_index));
        assert(writable_seq::<u32>(v.group_description_index));
        lemma_rest_roundtrip::<u32>(v.group_description_index);
    }

    fn parse_body(d: &[u8]) -> (r: Result<SubTrackSampleGroupBox, IsoError>) {
        if d.len() < 10 {
            return Err(IsoError::UnexpectedEof);
        }
        let full_header = FullBoxHeader { version: d[0], flags: read_u24_at(d, 1) };
        let grouping_type = read_fourcc_at(d, 4);
        let item_count = read_u16_at(d, 8);
        let (group_description_index, _end) = parse_remaining::<u32>(d, 10)?;
        Ok(SubTrackSampleGroupBox { full_header, grouping_type, item_count, group_description_index })
    }

    fn serialize_body(&self, out: &mut Vec<u8>) -> (r: Result<(), IsoError>) {
        let ghost before = out@;
        write_u8(out, self.full_header.version);
        write_u24(out, self.full_header.flags);
        write_fourcc(out, self.grouping_type);
        write_u16(out, self.item_count);
        let _ = serialize_all(&self.group_description_index, out);
        proof {
            assert(out@ =~= before + Self::spec_serialize_body(self@));
            lemma_append_prefix(before, Self::spec_serialize_body(self@));
        }
        Ok(())
    }
}

impl ChildBox for SubTrackInformationBox {
    open spec fn spec_box_size(v: SubTrackInformationBoxModel) -> nat {
        add_header_size(12 + ser_seq::<u32>(v.attribute_list).len())
    }

    proof fn lemma_box_size(x: SubTrackInformationBox) {
        assert(writable_seq::<u32>(views(x.attribute_list@)));
        lemma_size_seq::<u32>(x.attribute_list@);
    }

    proof fn lemma_box_size_canonical(v: SubTrackInformationBoxModel) {
    }
}

impl ChildBox for SubTrackSampleGroupBox {
    open spec fn spec_box_size(v: SubTrackSampleGroupBoxModel) -> nat {
        add_header_size(10 + ser_seq::<u32>(v.group_description_index).len())
    }

    proof fn lemma_box_size(x: SubTrackSampleGroupBox) {
        assert(writable_seq::<u32>(views(x.group_description_index@)));
        lemma_size_seq::<u32>(x.group_description_index@);
    }

    proof fn lemma_box_size_canonical(v: SubTrackSampleGroupBoxModel) {
    }
}

/// Sub track definition box
///
/// `strd`
///
/// ISO/IEC 14496-12 - 8.14.5
#[derive(Debug, PartialEq, Eq)]
pub struct SubTrackDefinitionBox {
    /// The contained [`SubTrackSampleGroupBox`]es. (any quantity)
    pub stsg: Vec<SubTrackSampleGroupBox>,
}

/// The model of a [`SubTrackDefinitionBox`].
pub struct SubTrackDefinitionBoxModel {
    pub stsg: Seq<SubTrackSampleGroupBoxModel>,
}

impl View for SubTrackDefinitionBox {
    type V = SubTrackDefinitionBoxModel;

    open spec fn view(&self) -> SubTrackDefinitionBoxModel {
        SubTrackDefinitionBoxModel { stsg: views(self.stsg@) }
    }
}

/// The failure of reading a box found in a sub track definition box: that of a
/// sample group box; other boxes are skipped.
pub open spec fn strd_fault(c: UnknownBoxModel) -> Option<IsoError> {
    child_fault::<SubTrackSampleGroupBox>(c)
}

/// What a sub track definition box reads from its payload: the sample group boxes
/// before the first box that fails.
pub open spec fn strd_parse(s: Seq<u8>) -> Result<SubTrackDefinitionBoxModel, IsoError> {
    let cs = spec_children(s);
    match scan_result(cs, |c: UnknownBoxModel| strd_fault(c)) {
        Err(e) => Err(e),
        Ok(k) => Ok(SubTrackDefinitionBoxModel { stsg: collect_children::<SubTrackSampleGroupBox>(cs.take(k as int)) }),
    }
}

impl IsoSized for SubTrackDefinitionBox {
    open spec fn spec_size(&self) -> nat {
        add_header_size(boxes_size::<SubTrackSampleGroupBox>(self.stsg@))
    }

    fn size(&self) -> (n: usize) {
        add_header_size_exec(size_children(&self.stsg))
    }
}

impl BoxBody for SubTrackDefinitionBox {
    open spec fn spec_box_type() -> [u8; 4] {
        [0x73u8, 0x74u8, 0x72u8, 0x64u8]
    }

    fn box_type() -> (r: [u8; 4]) {
        [0x73u8, 0x74u8, 0x72u8, 0x64u8]
    }

    open spec fn spec_parse_body(s: Seq<u8>) -> Result<SubTrackDefinitionBoxModel, IsoError> {
        strd_parse(s)
    }

    open spec fn spec_writable(v: SubTrackDefinitionBoxModel) -> bool {
        children_writable::<SubTrackSampleGroupBox>(v.stsg)
    }

    open spec fn spec_serialize_body(v: SubTrackDefinitionBoxModel) -> Seq<u8> {
        children_bytes::<SubTrackSampleGroupBox>(v.stsg)
    }

    /// Every contained box reads back as itself and reports a size that fits.
    open spec fn spec_canonical(v: SubTrackDefinitionBoxModel) -> bool {
        children_ok::<SubTrackSampleGroupBox>(v.stsg)
    }

    proof fn lemma_box_type() {
        assert(Self::spec_box_type()[0] != spec_uuid_fourcc()[0]);
    }

    proof fn lemma_body_size(x: SubTrackDefinitionBox) {
        lemma_boxes_size::<SubTrackSampleGroupBox>(x.stsg@);
        lemma_children_seq::<SubTrackSampleGroupBox>(x@.stsg, Seq::empty());
        assert(children_bytes::<SubTrackSampleGroupBox>(x@.stsg) + Seq::<u8>::empty() =~= children_bytes::<
            SubTrackSampleGroupBox,
        >(x@.stsg));
    }

    proof fn lemma_body_roundtrip(v: SubTrackDefinitionBoxModel) {
        let s = children_bytes::<SubTrackSampleGroupBox>(v.stsg);
        lemma_children_seq::<SubTrackSampleGroupBox>(v.stsg, Seq::empty());
        lemma_children_empty();
        assert(s + Seq::<u8>::empty() =~= s);
        let cs = spec_children(s);
        let ms = children_models::<SubTrackSampleGroupBox>(v.stsg);
        assert(cs =~= ms);
        let fault = |c: UnknownBoxModel| strd_fault(c);
        assert forall|j: int| 0 <= j < cs.len() implies (#[trigger] fault(cs[j])) is None by {
            lemma_child_cons::<SubTrackSampleGroupBox>(v.stsg[j], Seq::empty());
            assert(cs[j] == child_model::<SubTrackSampleGroupBox>(v.stsg[j]));
        }
        lemma_first_fault(cs, fault, cs.len() as int);
        assert(cs.take(cs.len() as int) =~= cs);
        lemma_collect_own::<SubTrackSampleGroupBox>(v.stsg);
    }

    fn parse_body(payload: &[u8]) -> (r: Result<SubTrackDefinitionBox, IsoError>) {
        parse_strd(payload)
    }

    fn serialize_body(&self, out: &mut Vec<u8>) -> (r: Result<(), IsoError>) {
        proof {
            lemma_boxes_size::<SubTrackSampleGroupBox>(self.stsg@);
        }
        write_children(&self.stsg, out)
    }
}

/// Reads the payload of a sub track definition box.
#[verifier::spinoff_prover]
#[verifier::rlimit(60)]
fn parse_strd(payload: &[u8]) -> (r: Result<SubTrackDefinitionBox, IsoError>)
    ensures
        match (strd_parse(payload@), r) {
            (Ok(v), Ok(x)) => x@ == v,
            (Err(e), Err(f)) => e == f,
            _ => false,
        },
{
    let cs = read_children(payload);
    let ghost css = spec_children(payload@);
    let ghost fault = |c: UnknownBoxModel| strd_fault(c);
    let mut stsg: Vec<SubTrackSampleGroupBox> = Vec::new();
    let mut i: usize = 0;
    let mut stop = false;
    proof {
        assert(css.take(0) =~= Seq::<UnknownBoxModel>::empty());
        assert(views(stsg@) =~= Seq::<SubTrackSampleGroupBoxModel>::empty());
    }
    while i < cs.len() && !stop
        invariant
            views(cs@) == css,
            css == spec_children(payload@),
            fault == (|c: UnknownBoxModel| strd_fault(c)),
            i <= cs@.len(),
            forall|j: int| 0 <= j < i ==> (#[trigger] fault(css[j])) is None,
            stop ==> i < css.len() && fault(css[i as int]) == Some(IsoError::UnexpectedEof),
            views(stsg@) == collect_children::<SubTrackSampleGroupBox>(css.take(i as int)),
        decreases cs@.len() - i + (if stop { 0int } else { 1int }),
    {
        let c = &cs[i];
        proof {
            assert(c@ == css[i as int]);
            lemma_collect_step::<SubTrackSampleGroupBox>(css, i as int);
        }
        if is_child_exec::<SubTrackSampleGroupBox>(c) {
            proof {
                lemma_child_read::<SubTrackSampleGroupBox>(c@);
            }
            let ghost old_s = views(stsg@);
            match collect_into(c, &mut stsg) {
                Ok(()) => {
                    proof {
                        assert(views(stsg@) =~= old_s + seq![child_value::<SubTrackSampleGroupBox>(c@)->0]);
                    }
                    i = i + 1;
                },
                Err(IsoError::UnexpectedEof) => {
                    stop = true;
                },
                Err(e) => {
                    proof {
                        lemma_first_fault(css, fault, i as int);
                    }
                    return Err(e);
                },
            }
        } else {
            proof {
                lemma_child_other::<SubTrackSampleGroupBox>(c@);
            }
            i = i + 1;
        }
    }
    proof {
        lemma_first_fault(css, fault, i as int);
    }
    Ok(SubTrackDefinitionBox { stsg })
}

impl ChildBox for SubTrackDefinitionBox {
    open spec fn spec_box_size(v: SubTrackDefinitionBoxModel) -> nat {
        add_header_size(children_size::<SubTrackSampleGroupBox>(v.stsg))
    }

    proof fn lemma_box_size(x: SubTrackDefinitionBox) {
        lemma_boxes_size::<SubTrackSampleGroupBox>(x.stsg@);
    }

    proof fn lemma_box_size_canonical(v: SubTrackDefinitionBoxModel) {
        lemma_children_seq::<SubTrackSampleGroupBox>(v.stsg, Seq::empty());
    }
}

/// Sub track box
///
/// `strk`
///
/// ISO/IEC 14496-12 - 8.14.3
#[derive(Debug, PartialEq, Eq)]
pub struct SubTrackBox {
    /// The contained [`SubTrackInformationBox`]. (mandatory)
    pub stri: SubTrackInformationBox,
    /// The contained [`SubTrackDefinitionBox`]. (optional)
    pub strd: Option<SubTrackDefinitionBox>,
}

/// The model of a [`SubTrackBox`].
pub struct SubTrackBoxModel {
    pub stri: SubTrackInformationBoxModel,
    pub strd: Option<SubTrackDefinitionBoxModel>,
}

impl View for SubTrackBox {
    type V = SubTrackBoxModel;

    open spec fn view(&self) -> SubTrackBoxModel {
        SubTrackBoxModel { stri: self.stri@, strd: opt_model::<SubTrackDefinitionBox>(self.strd) }
    }
}

/// The failure of reading a box found in a sub track box: that of its information
/// or definition box; other boxes are skipped.
pub open spec fn strk_fault(c: UnknownBoxModel) -> Option<IsoError> {
    if is_child::<SubTrackInformationBox>(c) {
        child_fault::<SubTrackInformationBox>(c)
    } else if is_child::<SubTrackDefinitionBox>(c) {
        child_fault::<SubTrackDefinitionBox>(c)
    } else {
        None
    }
}

/// What a sub track box reads from its payload: the last information box and the
/// last definition box before the first box that fails; the information box must
/// be there.
pub open spec fn strk_parse(s: Seq<u8>) -> Result<SubTrackBoxModel, IsoError> {
    let cs = spec_children(s);
    match scan_result(cs, |c: UnknownBoxModel| strk_fault(c)) {
        Err(e) => Err(e),
        Ok(k) => {
            let p = cs.take(k as int);
            match last_child::<SubTrackInformationBox>(p) {
                Some(i) => Ok(SubTrackBoxModel { stri: i, strd: last_child::<SubTrackDefinitionBox>(p) }),
                None => Err(IsoError::InvalidData),
            }
        },
    }
}

impl IsoSized for SubTrackBox {
    open spec fn spec_size(&self) -> nat {
        add_header_size(self.stri.spec_size() + opt_box_size::<SubTrackDefinitionBox>(self.strd))
    }

    fn size(&self) -> (n: usize) {
        let a = self.stri.size();
        add_header_size_exec(a + size_option(&self.strd))
    }
}

impl BoxBody for SubTrackBox {
    open spec fn spec_box_type() -> [u8; 4] {
        [0x73u8, 0x74u8, 0x72u8, 0x6bu8]
    }

    fn box_type() -> (r: [u8; 4]) {
        [0x73u8, 0x74u8, 0x72u8, 0x6bu8]
    }

    open spec fn spec_parse_body(s: Seq<u8>) -> Result<SubTrackBoxModel, IsoError> {
        strk_parse(s)
    }

    open spec fn spec_writable(v: SubTrackBoxModel) -> bool {
        option_writable::<SubTrackDefinitionBox>(v.strd)
    }

    open spec fn spec_serialize_body(v: SubTrackBoxModel) -> Seq<u8> {
        child_bytes::<SubTrackInformationBox>(v.stri) + option_bytes::<SubTrackDefinitionBox>(v.strd)
    }

    /// Every contained box reads back as itself and reports a size that fits.
    open spec fn spec_canonical(v: SubTrackBoxModel) -> bool {
        child_ok::<SubTrackInformationBox>(v.stri) && option_ok::<SubTrackDefinitionBox>(v.strd)
    }

    proof fn lemma_box_type() {
        assert(Self::spec_box_type()[0] != spec_uuid_fourcc()[0]);
    }

    proof fn lemma_body_size(x: SubTrackBox) {
        let v = x@;
        lemma_opt_box_size::<SubTrackDefinitionBox>(x.strd);
        SubTrackInformationBox::lemma_box_size(x.stri);
        lemma_child_cons::<SubTrackInformationBox>(v.stri, option_bytes::<SubTrackDefinitionBox>(v.strd));
        lemma_option_seq::<SubTrackDefinitionBox>(v.strd, Seq::empty());
        assert(option_bytes::<SubTrackDefinitionBox>(v.strd) + Seq::<u8>::empty() =~= option_bytes::<
            SubTrackDefinitionBox,
        >(v.strd));
    }

    #[verifier::rlimit(40)]
    proof fn lemma_body_roundtrip(v: SubTrackBoxModel) {
        lemma_strk_roundtrip(v);
    }

    fn parse_body(payload: &[u8]) -> (r: Result<SubTrackBox, IsoError>) {
        parse_strk(payload)
    }

    fn serialize_body(&self, out: &mut Vec<u8>) -> (r: Result<(), IsoError>) {
        let ghost before = out@;
        proof {
            SubTrackInformationBox::lemma_box_size(self.stri);
            lemma_opt_box_size::<SubTrackDefinitionBox>(self.strd);
        }
        let _ = write_child(&self.stri, out);
        let ghost mid = out@;
        let r = write_option(&self.strd, out);
        if r.is_err() {
            proof {
                lemma_prefix_trans(before, mid, out@);
            }
            return Err(IsoError::InvalidData);
        }
        proof {
            lemma_append_prefix(before, child_bytes::<SubTrackInformationBox>(self@.stri));
            assert(out@ =~= before + Self::spec_serialize_body(self@));
            lemma_append_prefix(before, Self::spec_serialize_body(self@));
        }
        Ok(())
    }
}

/// Reads the payload of a sub track box.
#[verifier::spinoff_prover]
#[verifier::rlimit(100)]
fn parse_strk(payload: &[u8]) -> (r: Result<SubTrackBox, IsoError>)
    ensures
        match (strk_parse(payload@), r) {
            (Ok(v), Ok(x)) => x@ == v,
            (Err(e), Err(f)) => e == f,
            _ => false,
        },
{
    let cs = read_children(payload);
    let ghost css = spec_children(payload@);
    let ghost fault = |c: UnknownBoxModel| strk_fault(c);
    let mut stri: Option<SubTrackInformationBox> = None;
    let mut strd: Option<SubTrackDefinitionBox> = None;
    let mut i: usize = 0;
    let mut stop = false;
    proof {
        assert(css.take(0) =~= Seq::<UnknownBoxModel>::empty());
    }
    while i < cs.len() && !stop
        invariant
            views(cs@) == css,
            css == spec_children(payload@),
            fault == (|c: UnknownBoxModel| strk_fault(c)),
            i <= cs@.len(),
            forall|j: int| 0 <= j < i ==> (#[trigger] fault(css[j])) is None,
            stop ==> i < css.len() && fault(css[i as int]) == Some(IsoError::UnexpectedEof),
            opt_model(stri) == last_child::<SubTrackInformationBox>(css.take(i as int)),
            opt_model(strd) == last_child::<SubTrackDefinitionBox>(css.take(i as int)),
        decreases cs@.len() - i + (if stop { 0int } else { 1int }),
    {
        let c = &cs[i];
        proof {
            assert(c@ == css[i as int]);
            lemma_collect_step::<SubTrackInformationBox>(css, i as int);
            lemma_collect_step::<SubTrackDefinitionBox>(css, i as int);
        }
        if is_child_exec::<SubTrackInformationBox>(c) {
            proof {
                assert(SubTrackInformationBox::spec_box_type()[3] != SubTrackDefinitionBox::spec_box_type()[3]);
                assert(!is_child::<SubTrackDefinitionBox>(c@));
                lemma_child_other::<SubTrackDefinitionBox>(c@);
                lemma_child_read::<SubTrackInformationBox>(c@);
            }
            match replace_into(c, &mut stri) {
                Ok(()) => {
                    i = i + 1;
                },
                Err(IsoError::UnexpectedEof) => {
                    stop = true;
                },
                Err(e) => {
                    proof {
                        lemma_first_fault(css, fault, i as int);
                    }
                    return Err(e);
                },
            }
        } else if is_child_exec::<SubTrackDefinitionBox>(c) {
            proof {
                lemma_child_other::<SubTrackInformationBox>(c@);
                lemma_child_read::<SubTrackDefinitionBox>(c@);
            }
            match replace_into(c, &mut strd) {
                Ok(()) => {
                    i = i + 1;
                },
                Err(IsoError::UnexpectedEof) => {
                    stop = true;
                },
                Err(e) => {
                    proof {
                        lemma_first_fault(css, fault, i as int);
                    }
                    return Err(e);
                },
            }
        } else {
            proof {
                lemma_child_other::<SubTrackInformationBox>(c@);
                lemma_child_other::<SubTrackDefinitionBox>(c@);
            }
            i = i + 1;
        }
    }
    proof {
        lemma_first_fault(css, fault, i as int);
        assert(first_fault(css, fault) == i);
    }
    match stri {
        Some(x) => Ok(SubTrackBox { stri: x, strd }),
        None => Err(IsoError::InvalidData),
    }
}

/// Writing a sub track box and reading its payload back gives it again.
#[verifier::spinoff_prover]
#[verifier::rlimit(100)]
proof fn lemma_strk_roundtrip(v: SubTrackBoxModel)
    requires
        SubTrackBox::spec_writable(v),
        SubTrackBox::spec_canonical(v),
    ensures
        strk_parse(SubTrackBox::spec_serialize_body(v)) == Ok::<SubTrackBoxModel, IsoError>(v),
{
    let s = SubTrackBox::spec_serialize_body(v);
    let tail = option_bytes::<SubTrackDefinitionBox>(v.strd);
    let first = option_models::<SubTrackInformationBox>(Some(v.stri));
    let last = option_models::<SubTrackDefinitionBox>(v.strd);
    lemma_child_cons::<SubTrackInformationBox>(v.stri, tail);
    lemma_option_seq::<SubTrackDefinitionBox>(v.strd, Seq::empty());
    lemma_children_empty();
    assert(tail + Seq::<u8>::empty() =~= tail);
    let cs = spec_children(s);
    assert(cs =~= first + last);
    let fault = |c: UnknownBoxModel| strk_fault(c);
    assert(SubTrackInformationBox::spec_box_type()[3] != SubTrackDefinitionBox::spec_box_type()[3]);
    assert forall|j: int| 0 <= j < cs.len() implies (#[trigger] fault(cs[j])) is None by {
        if j == 0 {
            assert(cs[j] == child_model::<SubTrackInformationBox>(v.stri));
        } else {
            let x = v.strd.unwrap();
            lemma_child_cons::<SubTrackDefinitionBox>(x, Seq::empty());
            assert(cs[j] == child_model::<SubTrackDefinitionBox>(x));
            assert(!is_child::<SubTrackInformationBox>(cs[j]));
        }
    }
    lemma_first_fault(cs, fault, cs.len() as int);
    assert(cs.take(cs.len() as int) =~= cs);
    lemma_collect_add::<SubTrackInformationBox>(first, last);
    lemma_collect_add::<SubTrackDefinitionBox>(first, last);
    lemma_option_own::<SubTrackInformationBox>(Some(v.stri));
    lemma_option_own::<SubTrackDefinitionBox>(v.strd);
    lemma_option_other::<SubTrackDefinitionBox, SubTrackInformationBox>(Some(v.stri));
    lemma_option_other::<SubTrackInformationBox, SubTrackDefinitionBox>(v.strd);
    assert(collect_children::<SubTrackInformationBox>(cs) =~= seq![v.stri]);
}

} // verus!
