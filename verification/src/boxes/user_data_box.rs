//! The user data box, which holds copyright notices, track selection, track kinds,
//! sub tracks, loudness and boxes of other types.

use vstd::prelude::*;

use crate::boxes::audio_media::{AlbumLoudnessInfo, TrackLoudnessInfo};
use crate::boxes::loudness::{LoudnessBox, LoudnessBoxModel};
use crate::boxes::sub_tracks::{SubTrackBox, SubTrackBoxModel, SubTrackDefinitionBox, SubTrackInformationBox};
use crate::boxes::user_data::{
    CopyrightBox, CopyrightBoxModel, KindBox, KindBoxModel, TrackSelectionBox, TrackSelectionBoxModel,
};
use crate::children::{
    boxes_size, child_fault, child_model, child_ok, child_value, children_bytes, children_models, children_ok,
    children_size, children_writable, collect_children, collect_into, collect_unknown, first_fault, is_child,
    is_child_exec, last_child, lemma_boxes_size, lemma_child_cons, lemma_child_other, lemma_child_read,
    lemma_children_seq, lemma_collect_add, lemma_collect_none, lemma_collect_other, lemma_collect_own,
    lemma_collect_step, lemma_first_fault, lemma_opt_box_size, lemma_option_other, lemma_option_own,
    lemma_option_seq, lemma_unknown_add, lemma_unknown_all_known, lemma_unknown_none_known, lemma_unknown_seq,
    lemma_unknown_step, opt_box_size, opt_model, option_bytes, option_models, option_ok, option_size,
    option_writable, read_children, replace_into, scan_result, size_children, size_option, spec_children,
    write_children, write_option, ChildBox,
};
use crate::codec::{lemma_append_prefix, lemma_prefix_trans, IsoError};
use crate::common_types::Utf8String;
use crate::frame::{add_header_size, add_header_size_exec, BoxBody, UnknownBox, UnknownBoxModel};
use crate::header::spec_uuid_fourcc;
use crate::wire::{
    lemma_size_seq, ser_seq, serialize_all, size_all, size_seq, views, writable_seq, IsoSized, Wire,
};

verus! {

impl ChildBox for CopyrightBox {
    open spec fn spec_box_size(v: CopyrightBoxModel) -> nat {
        add_header_size(6 + Utf8String::spec_serialize(v.notice).len())
    }

    proof fn lemma_box_size(x: CopyrightBox) {
        Utf8String::lemma_size(x.notice);
    }

    proof fn lemma_box_size_canonical(v: CopyrightBoxModel) {
    }
}

impl ChildBox for TrackSelectionBox {
    open spec fn spec_box_size(v: TrackSelectionBoxModel) -> nat {
        add_header_size(8 + ser_seq::<[u8; 4]>(v.attribute_list).len())
    }

    proof fn lemma_box_size(x: TrackSelectionBox) {
        assert(writable_seq::<[u8; 4]>(views(x.attribute_list@)));
        lemma_size_seq::<[u8; 4]>(x.attribute_list@);
    }

    proof fn lemma_box_size_canonical(v: TrackSelectionBoxModel) {
    }
}

impl ChildBox for KindBox {
    open spec fn spec_box_size(v: KindBoxModel) -> nat {
        add_header_size(4 + Utf8String::spec_serialize(v.scheme_uri).len() + Utf8String::spec_serialize(v.value).len())
    }

    proof fn lemma_box_size(x: KindBox) {
        Utf8String::lemma_size(x.scheme_uri);
        Utf8String::lemma_size(x.value);
    }

    proof fn lemma_box_size_canonical(v: KindBoxModel) {
    }
}

impl ChildBox for SubTrackBox {
    open spec fn spec_box_size(v: SubTrackBoxModel) -> nat {
        add_header_size(SubTrackInformationBox::spec_box_size(v.stri) + option_size::<SubTrackDefinitionBox>(v.strd))
    }

    proof fn lemma_box_size(x: SubTrackBox) {
        SubTrackInformationBox::lemma_box_size(x.stri);
        lemma_opt_box_size::<SubTrackDefinitionBox>(x.strd);
    }

    proof fn lemma_box_size_canonical(v: SubTrackBoxModel) {
        lemma_child_cons::<SubTrackInformationBox>(v.stri, option_bytes::<SubTrackDefinitionBox>(v.strd));
        lemma_option_seq::<SubTrackDefinitionBox>(v.strd, Seq::empty());
    }
}

impl ChildBox for LoudnessBox {
    open spec fn spec_box_size(v: LoudnessBoxModel) -> nat {
        add_header_size(children_size::<TrackLoudnessInfo>(v.loudness) + children_size::<AlbumLoudnessInfo>(
            v.album_loudness,
        ))
    }

    proof fn lemma_box_size(x: LoudnessBox) {
        lemma_boxes_size::<TrackLoudnessInfo>(x.loudness@);
        lemma_boxes_size::<AlbumLoudnessInfo>(x.album_loudness@);
    }

    proof fn lemma_box_size_canonical(v: LoudnessBoxModel) {
        lemma_children_seq::<TrackLoudnessInfo>(v.loudness, Seq::empty());
        lemma_children_seq::<AlbumLoudnessInfo>(v.album_loudness, Seq::empty());
    }
}

/// User data box
///
/// `udta`
///
/// ISO/IEC 14496-12 - 8.10.1
#[derive(Debug)]
pub struct UserDataBox {
    /// The contained [`CopyrightBox`]es. (any quantity)
    pub cprt: Vec<CopyrightBox>,
    /// The contained [`TrackSelectionBox`]. (optional)
    pub tsel: Option<TrackSelectionBox>,
    /// The contained [`KindBox`]es. (any quantity)
    pub kind: Vec<KindBox>,
    /// The contained [`SubTrackBox`]es. (any quantity)
    pub strk: Vec<SubTrackBox>,
    /// The contained [`LoudnessBox`]es. (any quantity)
    pub ludt: Vec<LoudnessBox>,
    /// The boxes of other types, kept as they are.
    pub unknown_boxes: Vec<UnknownBox>,
}

/// The model of a [`UserDataBox`].
pub struct UserDataBoxModel {
    pub cprt: Seq<CopyrightBoxModel>,
    pub tsel: Option<TrackSelectionBoxModel>,
    pub kind: Seq<KindBoxModel>,
    pub strk: Seq<SubTrackBoxModel>,
    pub ludt: Seq<LoudnessBoxModel>,
    pub unknown_boxes: Seq<UnknownBoxModel>,
}

impl View for UserDataBox {
    type V = UserDataBoxModel;

    open spec fn view(&self) -> UserDataBoxModel {
        UserDataBoxModel {
            cprt: views(self.cprt@),
            tsel: opt_model::<TrackSelectionBox>(self.tsel),
            kind: views(self.kind@),
            strk: views(self.strk@),
            ludt: views(self.ludt@),
            unknown_boxes: views(self.unknown_boxes@),
        }
    }
}

/// Whether a box found in a user data box is of one of the types that it reads.
pub open spec fn udta_known(c: UnknownBoxModel) -> bool {
    is_child::<CopyrightBox>(c) || is_child::<TrackSelectionBox>(c) || is_child::<KindBox>(c) || is_child::<
        SubTrackBox,
    >(c) || is_child::<LoudnessBox>(c)
}

/// The failure of reading a box of a known type found in a user data box.
pub open spec fn udta_fault(c: UnknownBoxModel) -> Option<IsoError> {
    if is_child::<CopyrightBox>(c) {
        child_fault::<CopyrightBox>(c)
    } else if is_child::<TrackSelectionBox>(c) {
        child_fault::<TrackSelectionBox>(c)
    } else if is_child::<KindBox>(c) {
        child_fault::<KindBox>(c)
    } else if is_child::<SubTrackBox>(c) {
        child_fault::<SubTrackBox>(c)
    } else if is_child::<LoudnessBox>(c) {
        child_fault::<LoudnessBox>(c)
    } else {
        None
    }
}

/// What a user data box reads from its payload: the boxes before the first that
/// fails, each known box in its field (the last track selection box) and every other
/// box kept as it is.
pub open spec fn udta_parse(s: Seq<u8>) -> Result<UserDataBoxModel, IsoError> {
    let cs = spec_children(s);
    match scan_result(cs, |c: UnknownBoxModel| udta_fault(c)) {
        Err(e) => Err(e),
        Ok(k) => {
            let p = cs.take(k as int);
            Ok(
                UserDataBoxModel {
                    cprt: collect_children::<CopyrightBox>(p),
                    tsel: last_child::<TrackSelectionBox>(p),
                    kind: collect_children::<KindBox>(p),
                    strk: collect_children::<SubTrackBox>(p),
                    ludt: collect_children::<LoudnessBox>(p),
                    unknown_boxes: collect_unknown(p, |c: UnknownBoxModel| udta_known(c)),
                },
            )
        },
    }
}

/// The bytes of the boxes that a user data box holds, in the order of its fields.
pub open spec fn udta_bytes(v: UserDataBoxModel) -> Seq<u8> {
    children_bytes::<CopyrightBox>(v.cprt) + option_bytes::<TrackSelectionBox>(v.tsel) + children_bytes::<KindBox>(
        v.kind,
    ) + children_bytes::<SubTrackBox>(v.strk) + children_bytes::<LoudnessBox>(v.ludt) + ser_seq::<UnknownBox>(
        v.unknown_boxes,
    )
}

impl IsoSized for UserDataBox {
    open spec fn spec_size(&self) -> nat {
        add_header_size(
            boxes_size::<CopyrightBox>(self.cprt@) + opt_box_size::<TrackSelectionBox>(self.tsel) + boxes_size::<
                KindBox,
            >(self.kind@) + boxes_size::<SubTrackBox>(self.strk@) + boxes_size::<LoudnessBox>(self.ludt@) + size_seq::<
                UnknownBox,
            >(self.unknown_boxes@),
        )
    }

    fn size(&self) -> (n: usize) {
        let a = size_children(&self.cprt);
        let b = size_option(&self.tsel);
        let c = size_children(&self.kind);
        let d = size_children(&self.strk);
        let e = size_children(&self.ludt);
        let f = size_all(&self.unknown_boxes);
        add_header_size_exec(a + b + c + d + e + f)
    }
}

impl BoxBody for UserDataBox {
    open spec fn spec_box_type() -> [u8; 4] {
        [0x75u8, 0x64u8, 0x74u8, 0x61u8]
    }

    fn box_type() -> (r: [u8; 4]) {
        [0x75u8, 0x64u8, 0x74u8, 0x61u8]
    }

    open spec fn spec_parse_body(s: Seq<u8>) -> Result<UserDataBoxModel, IsoError> {
        udta_parse(s)
    }

    /// Every known box can be written.
    open spec fn spec_writable(v: UserDataBoxModel) -> bool {
        &&& children_writable::<CopyrightBox>(v.cprt)
        &&& option_writable::<TrackSelectionBox>(v.tsel)
        &&& children_writable::<KindBox>(v.kind)
        &&& children_writable::<SubTrackBox>(v.strk)
        &&& children_writable::<LoudnessBox>(v.ludt)
    }

    open spec fn spec_serialize_body(v: UserDataBoxModel) -> Seq<u8> {
        udta_bytes(v)
    }

    /// Every known box reads back as itself and reports a size that fits, and every
    /// other box is of another type and announces exactly its payload.
    open spec fn spec_canonical(v: UserDataBoxModel) -> bool {
        &&& children_ok::<CopyrightBox>(v.cprt)
        &&& option_ok::<TrackSelectionBox>(v.tsel)
        &&& children_ok::<KindBox>(v.kind)
        &&& children_ok::<SubTrackBox>(v.strk)
        &&& children_ok::<LoudnessBox>(v.ludt)
        &&& forall|i: int|
            0 <= i < v.unknown_boxes.len() ==> UnknownBox::spec_canonical(#[trigger] v.unknown_boxes[i])
                && !udta_known(v.unknown_boxes[i])
    }

    proof fn lemma_box_type() {
        assert(Self::spec_box_type()[1] != spec_uuid_fourcc()[1]);
    }

    #[verifier::spinoff_prover]
    #[verifier::rlimit(60)]
    proof fn lemma_body_size(x: UserDataBox) {
        let v = x@;
        lemma_boxes_size::<CopyrightBox>(x.cprt@);
        lemma_opt_box_size::<TrackSelectionBox>(x.tsel);
        lemma_boxes_size::<KindBox>(x.kind@);
        lemma_boxes_size::<SubTrackBox>(x.strk@);
        lemma_boxes_size::<LoudnessBox>(x.ludt@);
        lemma_size_seq::<UnknownBox>(x.unknown_boxes@);
        lemma_children_seq::<CopyrightBox>(v.cprt, Seq::empty());
        lemma_option_seq::<TrackSelectionBox>(v.tsel, Seq::empty());
        lemma_children_seq::<KindBox>(v.kind, Seq::empty());
        lemma_children_seq::<SubTrackBox>(v.strk, Seq::empty());
        lemma_children_seq::<LoudnessBox>(v.ludt, Seq::empty());
    }

    proof fn lemma_body_roundtrip(v: UserDataBoxModel) {
        lemma_udta_roundtrip(v);
    }

    fn parse_body(payload: &[u8]) -> (r: Result<UserDataBox, IsoError>) {
        parse_udta(payload)
    }

    #[verifier::spinoff_prover]
    #[verifier::rlimit(60)]
    fn serialize_body(&self, out: &mut Vec<u8>) -> (r: Result<(), IsoError>) {
        let ghost before = out@;
        let ghost v = self@;
        if write_children(&self.cprt, out).is_err() {
            return Err(IsoError::InvalidData);
        }
        let ghost m1 = out@;
        if write_option(&self.tsel, out).is_err() {
            proof {
                lemma_prefix_trans(before, m1, out@);
            }
            return Err(IsoError::InvalidData);
        }
        let ghost m2 = out@;
        proof {
            lemma_append_prefix(before, children_bytes::<CopyrightBox>(v.cprt));
            lemma_prefix_trans(before, m1, m2);
        }
        if write_children(&self.kind, out).is_err() {
            proof {
                lemma_prefix_trans(before, m2, out@);
            }
            return Err(IsoError::InvalidData);
        }
        let ghost m3 = out@;
        proof {
            lemma_prefix_trans(before, m2, m3);
        }
        if write_children(&self.strk, out).is_err() {
            proof {
                lemma_prefix_trans(before, m3, out@);
            }
            return Err(IsoError::InvalidData);
        }
        let ghost m4 = out@;
        proof {
            lemma_prefix_trans(before, m3, m4);
        }
        if write_children(&self.ludt, out).is_err() {
            proof {
                lemma_prefix_trans(before, m4, out@);
            }
            return Err(IsoError::InvalidData);
        }
        let ghost m5 = out@;
        let _ = serialize_all(&self.unknown_boxes, out);
        proof {
            assert(m1 == before + children_bytes::<CopyrightBox>(v.cprt));
            assert(m2 == m1 + option_bytes::<TrackSelectionBox>(v.tsel));
            assert(m3 == m2 + children_bytes::<KindBox>(v.kind));
            assert(m4 == m3 + children_bytes::<SubTrackBox>(v.strk));
            assert(m5 == m4 + children_bytes::<LoudnessBox>(v.ludt));
            assert(out@ == m5 + ser_seq::<UnknownBox>(v.unknown_boxes));
            assert(out@ =~= before + Self::spec_serialize_body(self@));
            lemma_append_prefix(before, Self::spec_serialize_body(self@));
        }
        Ok(())
    }
}

/// The five known types differ from one another.
pub open spec fn udta_types_differ() -> bool {
    &&& CopyrightBox::spec_box_type() != TrackSelectionBox::spec_box_type()
    &&& CopyrightBox::spec_box_type() != KindBox::spec_box_type()
    &&& CopyrightBox::spec_box_type() != SubTrackBox::spec_box_type()
    &&& CopyrightBox::spec_box_type() != LoudnessBox::spec_box_type()
    &&& TrackSelectionBox::spec_box_type() != KindBox::spec_box_type()
    &&& TrackSelectionBox::spec_box_type() != SubTrackBox::spec_box_type()
    &&& TrackSelectionBox::spec_box_type() != LoudnessBox::spec_box_type()
    &&& KindBox::spec_box_type() != SubTrackBox::spec_box_type()
    &&& KindBox::spec_box_type() != LoudnessBox::spec_box_type()
    &&& SubTrackBox::spec_box_type() != LoudnessBox::spec_box_type()
}

proof fn lemma_udta_types()
    ensures
        udta_types_differ(),
{
    assert(CopyrightBox::spec_box_type()[0] != TrackSelectionBox::spec_box_type()[0]);
    assert(CopyrightBox::spec_box_type()[0] != KindBox::spec_box_type()[0]);
    assert(CopyrightBox::spec_box_type()[0] != SubTrackBox::spec_box_type()[0]);
    assert(CopyrightBox::spec_box_type()[0] != LoudnessBox::spec_box_type()[0]);
    assert(TrackSelectionBox::spec_box_type()[0] != KindBox::spec_box_type()[0]);
    assert(TrackSelectionBox::spec_box_type()[0] != SubTrackBox::spec_box_type()[0]);
    assert(TrackSelectionBox::spec_box_type()[0] != LoudnessBox::spec_box_type()[0]);
    assert(KindBox::spec_box_type()[0] != SubTrackBox::spec_box_type()[0]);
    assert(KindBox::spec_box_type()[0] != LoudnessBox::spec_box_type()[0]);
    assert(SubTrackBox::spec_box_type()[0] != LoudnessBox::spec_box_type()[0]);
}

/// What a user data box holds after reading the boxes of `p`.
pub open spec fn udta_prefix(p: Seq<UnknownBoxModel>) -> UserDataBoxModel {
    UserDataBoxModel {
        cprt: collect_children::<CopyrightBox>(p),
        tsel: last_child::<TrackSelectionBox>(p),
        kind: collect_children::<KindBox>(p),
        strk: collect_children::<SubTrackBox>(p),
        ludt: collect_children::<LoudnessBox>(p),
        unknown_boxes: collect_unknown(p, |c: UnknownBoxModel| udta_known(c)),
    }
}

/// A value as a list of none or one.
pub open spec fn opt_seq<A>(x: Option<A>) -> Seq<A> {
    match x {
        Some(v) => seq![v],
        None => Seq::empty(),
    }
}

/// What a user data box holds after reading one more box that does not fail.
pub open spec fn udta_extend(m: UserDataBoxModel, c: UnknownBoxModel) -> UserDataBoxModel {
    UserDataBoxModel {
        cprt: m.cprt + opt_seq(child_value::<CopyrightBox>(c)),
        tsel: match child_value::<TrackSelectionBox>(c) {
            Some(v) => Some(v),
            None => m.tsel,
        },
        kind: m.kind + opt_seq(child_value::<KindBox>(c)),
        strk: m.strk + opt_seq(child_value::<SubTrackBox>(c)),
        ludt: m.ludt + opt_seq(child_value::<LoudnessBox>(c)),
        unknown_boxes: if udta_known(c) { m.unknown_boxes } else { m.unknown_boxes.push(c) },
    }
}

/// Reads one box found in a user data box into its field.
#[verifier::spinoff_prover]
#[verifier::rlimit(60)]
fn udta_step(c: &UnknownBox, acc: &mut UserDataBox) -> (r: Result<(), IsoError>)
    requires
        udta_types_differ(),
    ensures
        match r {
            Ok(()) => udta_fault(c@) is None && final(acc)@ == udta_extend(old(acc)@, c@),
            Err(e) => udta_fault(c@) == Some(e) && final(acc)@ == old(acc)@,
        },
{
    if is_child_exec::<CopyrightBox>(c) {
        proof {
            lemma_child_other::<TrackSelectionBox>(c@);
            lemma_child_other::<KindBox>(c@);
            lemma_child_other::<SubTrackBox>(c@);
            lemma_child_other::<LoudnessBox>(c@);
            lemma_child_read::<CopyrightBox>(c@);
        }
        let ghost old_v = views(acc.cprt@);
        let r = collect_into(c, &mut acc.cprt);
        proof {
            if r is Err {
                assert(acc@ =~= old(acc)@);
            }
            if r is Ok {
                assert(views(acc.cprt@) =~= old_v + opt_seq(child_value::<CopyrightBox>(c@)));
                assert(acc@ =~= udta_extend(old(acc)@, c@));
            }
        }
        r
    } else if is_child_exec::<TrackSelectionBox>(c) {
        proof {
            lemma_child_other::<CopyrightBox>(c@);
            lemma_child_other::<KindBox>(c@);
            lemma_child_other::<SubTrackBox>(c@);
            lemma_child_other::<LoudnessBox>(c@);
            lemma_child_read::<TrackSelectionBox>(c@);
        }
        let r = replace_into(c, &mut acc.tsel);
        proof {
            if r is Err {
                assert(acc@ =~= old(acc)@);
            }
            if r is Ok {
                assert(acc@ =~= udta_extend(old(acc)@, c@));
            }
        }
        r
    } else if is_child_exec::<KindBox>(c) {
        proof {
            lemma_child_other::<CopyrightBox>(c@);
            lemma_child_other::<TrackSelectionBox>(c@);
            lemma_child_other::<SubTrackBox>(c@);
            lemma_child_other::<LoudnessBox>(c@);
            lemma_child_read::<KindBox>(c@);
        }
        let ghost old_v = views(acc.kind@);
        let r = collect_into(c, &mut acc.kind);
        proof {
            if r is Err {
                assert(acc@ =~= old(acc)@);
            }
            if r is Ok {
                assert(views(acc.kind@) =~= old_v + opt_seq(child_value::<KindBox>(c@)));
                assert(acc@ =~= udta_extend(old(acc)@, c@));
            }
        }
        r
    } else if is_child_exec::<SubTrackBox>(c) {
        proof {
            lemma_child_other::<CopyrightBox>(c@);
            lemma_child_other::<TrackSelectionBox>(c@);
            lemma_child_other::<KindBox>(c@);
            lemma_child_other::<LoudnessBox>(c@);
            lemma_child_read::<SubTrackBox>(c@);
        }
        let ghost old_v = views(acc.strk@);
        let r = collect_into(c, &mut acc.strk);
        proof {
            if r is Err {
                assert(acc@ =~= old(acc)@);
            }
            if r is Ok {
                assert(views(acc.strk@) =~= old_v + opt_seq(child_value::<SubTrackBox>(c@)));
                assert(acc@ =~= udta_extend(old(acc)@, c@));
            }
        }
        r
    } else if is_child_exec::<LoudnessBox>(c) {
        proof {
            lemma_child_other::<CopyrightBox>(c@);
            lemma_child_other::<TrackSelectionBox>(c@);
            lemma_child_other::<KindBox>(c@);
            lemma_child_other::<SubTrackBox>(c@);
            lemma_child_read::<LoudnessBox>(c@);
        }
        let ghost old_v = views(acc.ludt@);
        let r = collect_into(c, &mut acc.ludt);
        proof {
            if r is Err {
                assert(acc@ =~= old(acc)@);
            }
            if r is Ok {
                assert(views(acc.ludt@) =~= old_v + opt_seq(child_value::<LoudnessBox>(c@)));
                assert(acc@ =~= udta_extend(old(acc)@, c@));
            }
        }
        r
    } else {
        proof {
            lemma_child_other::<CopyrightBox>(c@);
            lemma_child_other::<TrackSelectionBox>(c@);
            lemma_child_other::<KindBox>(c@);
            lemma_child_other::<SubTrackBox>(c@);
            lemma_child_other::<LoudnessBox>(c@);
        }
        let kept = UnknownBox { header: c.header, data: vstd::slice::slice_to_vec(c.data.as_slice()) };
        let ghost old_v = views(acc.unknown_boxes@);
        acc.unknown_boxes.push(kept);
        proof {
            assert(views(acc.unknown_boxes@) =~= old_v.push(c@));
            assert(opt_seq(child_value::<CopyrightBox>(c@)) =~= Seq::<CopyrightBoxModel>::empty());
            assert(opt_seq(child_value::<KindBox>(c@)) =~= Seq::<KindBoxModel>::empty());
            assert(opt_seq(child_value::<SubTrackBox>(c@)) =~= Seq::<SubTrackBoxModel>::empty());
            assert(opt_seq(child_value::<LoudnessBox>(c@)) =~= Seq::<LoudnessBoxModel>::empty());
            assert(acc@ =~= udta_extend(old(acc)@, c@));
        }
        Ok(())
    }
}

/// Reading one more box extends what was read by it.
proof fn lemma_udta_prefix_step(css: Seq<UnknownBoxModel>, i: int)
    requires
        0 <= i < css.len(),
    ensures
        udta_prefix(css.take(i + 1)) == udta_extend(udta_prefix(css.take(i)), css[i]),
{
    lemma_collect_step::<CopyrightBox>(css, i);
    lemma_collect_step::<TrackSelectionBox>(css, i);
    lemma_collect_step::<KindBox>(css, i);
    lemma_collect_step::<SubTrackBox>(css, i);
    lemma_collect_step::<LoudnessBox>(css, i);
    lemma_unknown_step(css, |c: UnknownBoxModel| udta_known(c), i);
    let a = udta_prefix(css.take(i + 1));
    let b = udta_extend(udta_prefix(css.take(i)), css[i]);
    assert(a.cprt =~= b.cprt);
    assert(a.kind =~= b.kind);
    assert(a.strk =~= b.strk);
    assert(a.ludt =~= b.ludt);
    assert(a.unknown_boxes =~= b.unknown_boxes);
}

/// Reads the payload of a user data box.
#[verifier::spinoff_prover]
#[verifier::rlimit(60)]
fn parse_udta(payload: &[u8]) -> (r: Result<UserDataBox, IsoError>)
    ensures
        match (udta_parse(payload@), r) {
            (Ok(v), Ok(x)) => x@ == v,
            (Err(e), Err(f)) => e == f,
            _ => false,
        },
{
    let cs = read_children(payload);
    let ghost css = spec_children(payload@);
    let ghost fault = |c: UnknownBoxModel| udta_fault(c);
    let mut acc = UserDataBox {
        cprt: Vec::new(),
        tsel: None,
        kind: Vec::new(),
        strk: Vec::new(),
        ludt: Vec::new(),
        unknown_boxes: Vec::new(),
    };
    let mut i: usize = 0;
    let mut stop = false;
    proof {
        lemma_udta_types();
        let e = css.take(0);
        assert(e =~= Seq::<UnknownBoxModel>::empty());
        assert(collect_children::<CopyrightBox>(e) =~= Seq::<CopyrightBoxModel>::empty());
        assert(collect_children::<TrackSelectionBox>(e) =~= Seq::<TrackSelectionBoxModel>::empty());
        assert(collect_children::<KindBox>(e) =~= Seq::<KindBoxModel>::empty());
        assert(collect_children::<SubTrackBox>(e) =~= Seq::<SubTrackBoxModel>::empty());
        assert(collect_children::<LoudnessBox>(e) =~= Seq::<LoudnessBoxModel>::empty());
        assert(collect_unknown(e, |c: UnknownBoxModel| udta_known(c)) =~= Seq::<UnknownBoxModel>::empty());
        assert(views(acc.cprt@) =~= Seq::<CopyrightBoxModel>::empty());
        assert(views(acc.kind@) =~= Seq::<KindBoxModel>::empty());
        assert(views(acc.strk@) =~= Seq::<SubTrackBoxModel>::empty());
        assert(views(acc.ludt@) =~= Seq::<LoudnessBoxModel>::empty());
        assert(views(acc.unknown_boxes@) =~= Seq::<UnknownBoxModel>::empty());
        assert(acc@ =~= udta_prefix(e));
    }
    while i < cs.len() && !stop
        invariant
            views(cs@) == css,
            css == spec_children(payload@),
            fault == (|c: UnknownBoxModel| udta_fault(c)),
            udta_types_differ(),
            i <= cs@.len(),
            forall|j: int| 0 <= j < i ==> (#[trigger] fault(css[j])) is None,
            stop ==> i < css.len() && fault(css[i as int]) == Some(IsoError::UnexpectedEof),
            acc@ == udta_prefix(css.take(i as int)),
        decreases cs@.len() - i + (if stop { 0int } else { 1int }),
    {
        let c = &cs[i];
        proof {
            assert(c@ == css[i as int]);
            lemma_udta_prefix_step(css, i as int);
        }
        match udta_step(c, &mut acc) {
            Ok(()) => {
                i = i + 1;
            },
            Err(IsoError::UnexpectedEof) => {
                stop = true;
            },
            Err(e) => {
                proof {
                    lemma_first_fault(css, fault, i as int);
                }
                return Err(e);
            },
        }
    }
    proof {
        lemma_first_fault(css, fault, i as int);
        assert(first_fault(css, fault) == i);
    }
    Ok(acc)
}

/// The boxes, as found in a container, that a user data box writes.
pub open spec fn udta_models(v: UserDataBoxModel) -> Seq<UnknownBoxModel> {
    children_models::<CopyrightBox>(v.cprt) + option_models::<TrackSelectionBox>(v.tsel) + children_models::<
        KindBox,
    >(v.kind) + children_models::<SubTrackBox>(v.strk) + children_models::<LoudnessBox>(v.ludt) + v.unknown_boxes
}

/// The boxes that a user data box writes read back as their models.
#[verifier::spinoff_prover]
#[verifier::rlimit(100)]
proof fn lemma_udta_children(v: UserDataBoxModel)
    requires
        UserDataBox::spec_canonical(v),
    ensures
        spec_children(udta_bytes(v)) == udta_models(v),
{
    let b6 = ser_seq::<UnknownBox>(v.unknown_boxes);
    let b5 = children_bytes::<LoudnessBox>(v.ludt);
    let b4 = children_bytes::<SubTrackBox>(v.strk);
    let b3 = children_bytes::<KindBox>(v.kind);
    let b2 = option_bytes::<TrackSelectionBox>(v.tsel);
    let b1 = children_bytes::<CopyrightBox>(v.cprt);
    assert(udta_bytes(v) =~= b1 + (b2 + (b3 + (b4 + (b5 + b6)))));
    assert forall|i: int| 0 <= i < v.unknown_boxes.len() implies #[trigger] UnknownBox::spec_canonical(
        v.unknown_boxes[i],
    ) by {}
    lemma_unknown_seq(v.unknown_boxes);
    let m1 = children_models::<CopyrightBox>(v.cprt);
    let m2 = option_models::<TrackSelectionBox>(v.tsel);
    let m3 = children_models::<KindBox>(v.kind);
    let m4 = children_models::<SubTrackBox>(v.strk);
    let m5 = children_models::<LoudnessBox>(v.ludt);
    let us = v.unknown_boxes;
    lemma_children_seq::<LoudnessBox>(v.ludt, b6);
    assert(spec_children(b5 + b6) == m5 + us);
    lemma_children_seq::<SubTrackBox>(v.strk, b5 + b6);
    assert(spec_children(b4 + (b5 + b6)) == m4 + (m5 + us));
    lemma_children_seq::<KindBox>(v.kind, b4 + (b5 + b6));
    assert(spec_children(b3 + (b4 + (b5 + b6))) == m3 + (m4 + (m5 + us)));
    lemma_option_seq::<TrackSelectionBox>(v.tsel, b3 + (b4 + (b5 + b6)));
    assert(spec_children(b2 + (b3 + (b4 + (b5 + b6)))) == m2 + (m3 + (m4 + (m5 + us))));
    lemma_children_seq::<CopyrightBox>(v.cprt, b2 + (b3 + (b4 + (b5 + b6))));
    assert(spec_children(udta_bytes(v)) == m1 + (m2 + (m3 + (m4 + (m5 + us)))));
    assert(udta_models(v) =~= m1 + (m2 + (m3 + (m4 + (m5 + us)))));
}

/// No box that a user data box writes fails to read.
#[verifier::spinoff_prover]
#[verifier::rlimit(60)]
proof fn lemma_udta_no_fault(v: UserDataBoxModel, j: int)
    requires
        UserDataBox::spec_canonical(v),
        udta_types_differ(),
        0 <= j < udta_models(v).len(),
    ensures
        udta_fault(udta_models(v)[j]) is None,
{
    let n1 = v.cprt.len() as int;
    let n2 = n1 + option_models::<TrackSelectionBox>(v.tsel).len();
    let n3 = n2 + v.kind.len();
    let n4 = n3 + v.strk.len();
    let n5 = n4 + v.ludt.len();
    let cs = udta_models(v);
    if j < n1 {
        assert(child_ok::<CopyrightBox>(v.cprt[j]));
        lemma_child_cons::<CopyrightBox>(v.cprt[j], Seq::empty());
        assert(cs[j] == child_model::<CopyrightBox>(v.cprt[j]));
    } else if j < n2 {
        let x = v.tsel.unwrap();
        lemma_child_cons::<TrackSelectionBox>(x, Seq::empty());
        assert(cs[j] == child_model::<TrackSelectionBox>(x));
    } else if j < n3 {
        assert(child_ok::<KindBox>(v.kind[j - n2]));
        lemma_child_cons::<KindBox>(v.kind[j - n2], Seq::empty());
        assert(cs[j] == child_model::<KindBox>(v.kind[j - n2]));
    } else if j < n4 {
        assert(child_ok::<SubTrackBox>(v.strk[j - n3]));
        lemma_child_cons::<SubTrackBox>(v.strk[j - n3], Seq::empty());
        assert(cs[j] == child_model::<SubTrackBox>(v.strk[j - n3]));
    } else if j < n5 {
        assert(child_ok::<LoudnessBox>(v.ludt[j - n4]));
        lemma_child_cons::<LoudnessBox>(v.ludt[j - n4], Seq::empty());
        assert(cs[j] == child_model::<LoudnessBox>(v.ludt[j - n4]));
    } else {
        assert(cs[j] == v.unknown_boxes[j - n5]);
        assert(!udta_known(v.unknown_boxes[j - n5]));
    }
}

/// Collecting over six lists one after the other, the last holding no box of `T`'s
/// type, collects over the first five in turn.
proof fn lemma_udta_collect_one<T: BoxBody>(
    m1: Seq<UnknownBoxModel>,
    m2: Seq<UnknownBoxModel>,
    m3: Seq<UnknownBoxModel>,
    m4: Seq<UnknownBoxModel>,
    m5: Seq<UnknownBoxModel>,
    us: Seq<UnknownBoxModel>,
)
    requires
        forall|i: int| 0 <= i < us.len() ==> !#[trigger] is_child::<T>(us[i]),
    ensures
        collect_children::<T>(m1 + m2 + m3 + m4 + m5 + us) == collect_children::<T>(m1) + collect_children::<T>(m2)
            + collect_children::<T>(m3) + collect_children::<T>(m4) + collect_children::<T>(m5),
{
    lemma_collect_none::<T>(us);
    lemma_collect_add::<T>(m1 + m2 + m3 + m4 + m5, us);
    lemma_collect_add::<T>(m1 + m2 + m3 + m4, m5);
    lemma_collect_add::<T>(m1 + m2 + m3, m4);
    lemma_collect_add::<T>(m1 + m2, m3);
    lemma_collect_add::<T>(m1, m2);
    assert(collect_children::<T>(m1 + m2 + m3 + m4 + m5) + Seq::<T::V>::empty() =~= collect_children::<T>(
        m1 + m2 + m3 + m4 + m5,
    ));
}

/// The boxes that a user data box writes collect back into their fields.
#[verifier::spinoff_prover]
#[verifier::rlimit(100)]
proof fn lemma_udta_collect(v: UserDataBoxModel)
    requires
        UserDataBox::spec_canonical(v),
        udta_types_differ(),
    ensures
        collect_children::<CopyrightBox>(udta_models(v)) == v.cprt,
        collect_children::<TrackSelectionBox>(udta_models(v)) == opt_seq(v.tsel),
        collect_children::<KindBox>(udta_models(v)) == v.kind,
        collect_children::<SubTrackBox>(udta_models(v)) == v.strk,
        collect_children::<LoudnessBox>(udta_models(v)) == v.ludt,
{
    let m1 = children_models::<CopyrightBox>(v.cprt);
    let m2 = option_models::<TrackSelectionBox>(v.tsel);
    let m3 = children_models::<KindBox>(v.kind);
    let m4 = children_models::<SubTrackBox>(v.strk);
    let m5 = children_models::<LoudnessBox>(v.ludt);
    let us = v.unknown_boxes;
    assert forall|i: int| 0 <= i < us.len() implies !#[trigger] is_child::<CopyrightBox>(us[i]) by {
        assert(!udta_known(us[i]));
    }
    assert forall|i: int| 0 <= i < us.len() implies !#[trigger] is_child::<TrackSelectionBox>(us[i]) by {
        assert(!udta_known(us[i]));
    }
    assert forall|i: int| 0 <= i < us.len() implies !#[trigger] is_child::<KindBox>(us[i]) by {
        assert(!udta_known(us[i]));
    }
    assert forall|i: int| 0 <= i < us.len() implies !#[trigger] is_child::<SubTrackBox>(us[i]) by {
        assert(!udta_known(us[i]));
    }
    assert forall|i: int| 0 <= i < us.len() implies !#[trigger] is_child::<LoudnessBox>(us[i]) by {
        assert(!udta_known(us[i]));
    }
    lemma_udta_collect_one::<CopyrightBox>(m1, m2, m3, m4, m5, us);
    lemma_udta_collect_one::<TrackSelectionBox>(m1, m2, m3, m4, m5, us);
    lemma_udta_collect_one::<KindBox>(m1, m2, m3, m4, m5, us);
    lemma_udta_collect_one::<SubTrackBox>(m1, m2, m3, m4, m5, us);
    lemma_udta_collect_one::<LoudnessBox>(m1, m2, m3, m4, m5, us);
    lemma_collect_own::<CopyrightBox>(v.cprt);
    lemma_option_own::<TrackSelectionBox>(v.tsel);
    lemma_collect_own::<KindBox>(v.kind);
    lemma_collect_own::<SubTrackBox>(v.strk);
    lemma_collect_own::<LoudnessBox>(v.ludt);
    lemma_option_other::<CopyrightBox, TrackSelectionBox>(v.tsel);
    lemma_collect_other::<CopyrightBox, KindBox>(v.kind);
    lemma_collect_other::<CopyrightBox, SubTrackBox>(v.strk);
    lemma_collect_other::<CopyrightBox, LoudnessBox>(v.ludt);
    lemma_collect_other::<TrackSelectionBox, CopyrightBox>(v.cprt);
    lemma_collect_other::<TrackSelectionBox, KindBox>(v.kind);
    lemma_collect_other::<TrackSelectionBox, SubTrackBox>(v.strk);
    lemma_collect_other::<TrackSelectionBox, LoudnessBox>(v.ludt);
    lemma_collect_other::<KindBox, CopyrightBox>(v.cprt);
    lemma_option_other::<KindBox, TrackSelectionBox>(v.tsel);
    lemma_collect_other::<KindBox, SubTrackBox>(v.strk);
    lemma_collect_other::<KindBox, LoudnessBox>(v.ludt);
    lemma_collect_other::<SubTrackBox, CopyrightBox>(v.cprt);
    lemma_option_other::<SubTrackBox, TrackSelectionBox>(v.tsel);
    lemma_collect_other::<SubTrackBox, KindBox>(v.kind);
    lemma_collect_other::<SubTrackBox, LoudnessBox>(v.ludt);
    lemma_collect_other::<LoudnessBox, CopyrightBox>(v.cprt);
    lemma_option_other::<LoudnessBox, TrackSelectionBox>(v.tsel);
    lemma_collect_other::<LoudnessBox, KindBox>(v.kind);
    lemma_collect_other::<LoudnessBox, SubTrackBox>(v.strk);
    assert(udta_models(v) == m1 + m2 + m3 + m4 + m5 + us);
    assert(collect_children::<CopyrightBox>(m1 + m2 + m3 + m4 + m5 + us) =~= v.cprt);
    assert(collect_children::<TrackSelectionBox>(m1 + m2 + m3 + m4 + m5 + us) =~= opt_seq(v.tsel));
    assert(collect_children::<KindBox>(m1 + m2 + m3 + m4 + m5 + us) =~= v.kind);
    assert(collect_children::<SubTrackBox>(m1 + m2 + m3 + m4 + m5 + us) =~= v.strk);
    assert(collect_children::<LoudnessBox>(m1 + m2 + m3 + m4 + m5 + us) =~= v.ludt);
}

/// Writing a user data box and reading its payload back gives it again.
#[verifier::spinoff_prover]
#[verifier::rlimit(100)]
proof fn lemma_udta_roundtrip(v: UserDataBoxModel)
    requires
        UserDataBox::spec_canonical(v),
    ensures
        udta_parse(udta_bytes(v)) == Ok::<UserDataBoxModel, IsoError>(v),
{
    lemma_udta_children(v);
    lemma_udta_types();
    let m1 = children_models::<CopyrightBox>(v.cprt);
    let m2 = option_models::<TrackSelectionBox>(v.tsel);
    let m3 = children_models::<KindBox>(v.kind);
    let m4 = children_models::<SubTrackBox>(v.strk);
    let m5 = children_models::<LoudnessBox>(v.ludt);
    let us = v.unknown_boxes;
    let cs = udta_models(v);
    let fault = |c: UnknownBoxModel| udta_fault(c);
    let known = |c: UnknownBoxModel| udta_known(c);
    assert forall|j: int| 0 <= j < cs.len() implies (#[trigger] fault(cs[j])) is None by {
        lemma_udta_no_fault(v, j);
    }
    lemma_first_fault(cs, fault, cs.len() as int);
    assert(cs.take(cs.len() as int) =~= cs);
    lemma_udta_collect(v);
    assert forall|i: int| 0 <= i < m1.len() implies #[trigger] known(m1[i]) by {}
    assert forall|i: int| 0 <= i < m2.len() implies #[trigger] known(m2[i]) by {}
    assert forall|i: int| 0 <= i < m3.len() implies #[trigger] known(m3[i]) by {}
    assert forall|i: int| 0 <= i < m4.len() implies #[trigger] known(m4[i]) by {}
    assert forall|i: int| 0 <= i < m5.len() implies #[trigger] known(m5[i]) by {}
    assert forall|i: int| 0 <= i < us.len() implies !#[trigger] known(us[i]) by {}
    lemma_unknown_all_known(m1, known);
    lemma_unknown_all_known(m2, known);
    lemma_unknown_all_known(m3, known);
    lemma_unknown_all_known(m4, known);
    lemma_unknown_all_known(m5, known);
    lemma_unknown_none_known(us, known);
    assert(cs == m1 + m2 + m3 + m4 + m5 + us);
    lemma_unknown_add(m1 + m2 + m3 + m4 + m5, us, known);
    lemma_unknown_add(m1 + m2 + m3 + m4, m5, known);
    lemma_unknown_add(m1 + m2 + m3, m4, known);
    lemma_unknown_add(m1 + m2, m3, known);
    lemma_unknown_add(m1, m2, known);
    assert(collect_unknown(cs, known) =~= us);
}

} // verus!
