//! The loudness box, which holds the loudness information of a track and its album.

use vstd::prelude::*;

use crate::boxes::audio_media::{
    AlbumLoudnessInfo, AlbumLoudnessInfoModel, LoudnessBaseBox, TrackLoudnessInfo, TrackLoudnessInfoModel,
};
use crate::children::{
    boxes_size, child_fault, child_model, child_value, children_bytes, children_models, children_ok,
    children_writable, collect_children, collect_into, first_fault, is_child, is_child_exec, lemma_boxes_size,
    lemma_child_cons, lemma_child_other, lemma_child_read, lemma_children_empty, lemma_children_seq,
    lemma_collect_add, lemma_collect_other, lemma_collect_own, lemma_collect_step, lemma_first_fault,
    read_children, scan_result, size_children, spec_children, write_children, ChildBox,
};
use crate::codec::{lemma_append_prefix, lemma_prefix_trans, IsoError};
use crate::frame::{add_header_size, add_header_size_exec, BoxBody, UnknownBoxModel};
use crate::header::spec_uuid_fourcc;
use crate::versioned::VersionedWire;

use crate::wire::{views, IsoSized};

verus! {

impl ChildBox for TrackLoudnessInfo {
    open spec fn spec_box_size(v: TrackLoudnessInfoModel) -> nat {
        add_header_size(4 + LoudnessBaseBox::spec_size_v(v.base_box, v.full_header.version))
    }

    proof fn lemma_box_size(x: TrackLoudnessInfo) {
    }

    proof fn lemma_box_size_canonical(v: TrackLoudnessInfoModel) {
        LoudnessBaseBox::lemma_size_v(v.base_box, v.full_header.version);
    }
}

impl ChildBox for AlbumLoudnessInfo {
    open spec fn spec_box_size(v: AlbumLoudnessInfoModel) -> nat {
        add_header_size(4 + LoudnessBaseBox::spec_size_v(v.base_box, v.full_header.version))
    }

    proof fn lemma_box_size(x: AlbumLoudnessInfo) {
    }

    proof fn lemma_box_size_canonical(v: AlbumLoudnessInfoModel) {
        LoudnessBaseBox::lemma_size_v(v.base_box, v.full_header.version);
    }
}

/// Loudness box
///
/// `ludt`
///
/// ISO/IEC 14496-12 - 12.2.7
#[derive(Debug)]
pub struct LoudnessBox {
    /// The contained [`TrackLoudnessInfo`] boxes.
    pub loudness: Vec<TrackLoudnessInfo>,
    /// The contained [`AlbumLoudnessInfo`] boxes.
    pub album_loudness: Vec<AlbumLoudnessInfo>,
}

/// The model of a [`LoudnessBox`].
pub struct LoudnessBoxModel {
    pub loudness: Seq<TrackLoudnessInfoModel>,
    pub album_loudness: Seq<AlbumLoudnessInfoModel>,
}

impl View for LoudnessBox {
    type V = LoudnessBoxModel;

    open spec fn view(&self) -> LoudnessBoxModel {
        LoudnessBoxModel { loudness: views(self.loudness@), album_loudness: views(self.album_loudness@) }
    }
}

/// The failure of reading a box found in a loudness box: that of a track or album
/// loudness box; other boxes are skipped.
pub open spec fn ludt_fault(c: UnknownBoxModel) -> Option<IsoError> {
    if is_child::<TrackLoudnessInfo>(c) {
        child_fault::<TrackLoudnessInfo>(c)
    } else if is_child::<AlbumLoudnessInfo>(c) {
        child_fault::<AlbumLoudnessInfo>(c)
    } else {
        None
    }
}

/// What a loudness box reads from its payload: the boxes of each kind before the
/// first box that fails.
pub open spec fn ludt_parse(s: Seq<u8>) -> Result<LoudnessBoxModel, IsoError> {
    let cs = spec_children(s);
    match scan_result(cs, |c: UnknownBoxModel| ludt_fault(c)) {
        Err(e) => Err(e),
        Ok(k) => {
            let p = cs.take(k as int);
            Ok(
                LoudnessBoxModel {
                    loudness: collect_children::<TrackLoudnessInfo>(p),
                    album_loudness: collect_children::<AlbumLoudnessInfo>(p),
                },
            )
        },
    }
}

impl IsoSized for LoudnessBox {
    open spec fn spec_size(&self) -> nat {
        add_header_size(boxes_size::<TrackLoudnessInfo>(self.loudness@) + boxes_size::<AlbumLoudnessInfo>(
            self.album_loudness@,
        ))
    }

    fn size(&self) -> (n: usize) {
        let a = size_children(&self.loudness);
        let b = size_children(&self.album_loudness);
        add_header_size_exec(a + b)
    }
}

impl BoxBody for LoudnessBox {
    open spec fn spec_box_type() -> [u8; 4] {
        [0x6cu8, 0x75u8, 0x64u8, 0x74u8]
    }

    fn box_type() -> (r: [u8; 4]) {
        [0x6cu8, 0x75u8, 0x64u8, 0x74u8]
    }

    open spec fn spec_parse_body(s: Seq<u8>) -> Result<LoudnessBoxModel, IsoError> {
        ludt_parse(s)
    }

    open spec fn spec_writable(v: LoudnessBoxModel) -> bool {
        children_writable::<TrackLoudnessInfo>(v.loudness) && children_writable::<AlbumLoudnessInfo>(
            v.album_loudness,
        )
    }

    open spec fn spec_serialize_body(v: LoudnessBoxModel) -> Seq<u8> {
        children_bytes::<TrackLoudnessInfo>(v.loudness) + children_bytes::<AlbumLoudnessInfo>(v.album_loudness)
    }

    /// Every contained box reads back as itself and reports a size that fits.
    open spec fn spec_canonical(v: LoudnessBoxModel) -> bool {
        children_ok::<TrackLoudnessInfo>(v.loudness) && children_ok::<AlbumLoudnessInfo>(v.album_loudness)
    }

    proof fn lemma_box_type() {
        assert(Self::spec_box_type()[0] != spec_uuid_fourcc()[0]);
    }

    proof fn lemma_body_size(x: LoudnessBox) {
        let v = x@;
        lemma_boxes_size::<TrackLoudnessInfo>(x.loudness@);
        lemma_boxes_size::<AlbumLoudnessInfo>(x.album_loudness@);
        lemma_children_seq::<TrackLoudnessInfo>(v.loudness, Seq::empty());
        lemma_children_seq::<AlbumLoudnessInfo>(v.album_loudness, Seq::empty());
        assert(children_bytes::<TrackLoudnessInfo>(v.loudness) + Seq::<u8>::empty() =~= children_bytes::<
            TrackLoudnessInfo,
        >(v.loudness));
        assert(children_bytes::<AlbumLoudnessInfo>(v.album_loudness) + Seq::<u8>::empty() =~= children_bytes::<
            AlbumLoudnessInfo,
        >(v.album_loudness));
    }

    #[verifier::rlimit(40)]
    proof fn lemma_body_roundtrip(v: LoudnessBoxModel) {
        lemma_ludt_roundtrip(v);
    }

    fn parse_body(payload: &[u8]) -> (r: Result<LoudnessBox, IsoError>) {
        parse_ludt(payload)
    }

    fn serialize_body(&self, out: &mut Vec<u8>) -> (r: Result<(), IsoError>) {
        let ghost before = out@;
        proof {
            lemma_boxes_size::<TrackLoudnessInfo>(self.loudness@);
            lemma_boxes_size::<AlbumLoudnessInfo>(self.album_loudness@);
        }
        let r = write_children(&self.loudness, out);
        if r.is_err() {
            return Err(IsoError::InvalidData);
        }
        let ghost mid = out@;
        let r2 = write_children(&self.album_loudness, out);
        if r2.is_err() {
            proof {
                lemma_prefix_trans(before, mid, out@);
            }
            return Err(IsoError::InvalidData);
        }
        proof {
            lemma_append_prefix(before, children_bytes::<TrackLoudnessInfo>(self@.loudness));
            assert(out@ =~= before + Self::spec_serialize_body(self@));
            lemma_append_prefix(before, Self::spec_serialize_body(self@));
        }
        Ok(())
    }
}

/// Reads the payload of a loudness box.
#[verifier::spinoff_prover]
#[verifier::rlimit(100)]
fn parse_ludt(payload: &[u8]) -> (r: Result<LoudnessBox, IsoError>)
    ensures
        match (ludt_parse(payload@), r) {
            (Ok(v), Ok(x)) => x@ == v,
            (Err(e), Err(f)) => e == f,
            _ => false,
        },
{
    let cs = read_children(payload);
    let ghost css = spec_children(payload@);
    let ghost fault = |c: UnknownBoxModel| ludt_fault(c);
    let mut loudness: Vec<TrackLoudnessInfo> = Vec::new();
    let mut album_loudness: Vec<AlbumLoudnessInfo> = Vec::new();
    let mut i: usize = 0;
    let mut stop = false;
    proof {
        assert(css.take(0) =~= Seq::<UnknownBoxModel>::empty());
        assert(views(loudness@) =~= Seq::<TrackLoudnessInfoModel>::empty());
        assert(views(album_loudness@) =~= Seq::<AlbumLoudnessInfoModel>::empty());
    }
    while i < cs.len() && !stop
        invariant
            views(cs@) == css,
            css == spec_children(payload@),
            fault == (|c: UnknownBoxModel| ludt_fault(c)),
            i <= cs@.len(),
            forall|j: int| 0 <= j < i ==> (#[trigger] fault(css[j])) is None,
            stop ==> i < css.len() && fault(css[i as int]) == Some(IsoError::UnexpectedEof),
            views(loudness@) == collect_children::<TrackLoudnessInfo>(css.take(i as int)),
            views(album_loudness@) == collect_children::<AlbumLoudnessInfo>(css.take(i as int)),
        decreases cs@.len() - i + (if stop { 0int } else { 1int }),
    {
        let c = &cs[i];
        proof {
            assert(c@ == css[i as int]);
            lemma_collect_step::<TrackLoudnessInfo>(css, i as int);
            lemma_collect_step::<AlbumLoudnessInfo>(css, i as int);
        }
        if is_child_exec::<TrackLoudnessInfo>(c) {
            proof {
                assert(TrackLoudnessInfo::spec_box_type()[0] != AlbumLoudnessInfo::spec_box_type()[0]);
                assert(!is_child::<AlbumLoudnessInfo>(c@));
                lemma_child_other::<AlbumLoudnessInfo>(c@);
                lemma_child_read::<TrackLoudnessInfo>(c@);
            }
            let ghost old_l = views(loudness@);
            match collect_into(c, &mut loudness) {
                Ok(()) => {
                    proof {
                        assert(views(loudness@) =~= old_l + seq![child_value::<TrackLoudnessInfo>(c@)->0]);
                    }
                    i = i + 1;
                },
                Err(IsoError::UnexpectedEof) => {
                    stop = true;
                },
                Err(e) => {
                    proof {
                        lemma_first_fault(css, fault, i as int);
                    }
                    return Err(e);
                },
            }
        } else if is_child_exec::<AlbumLoudnessInfo>(c) {
            proof {
                lemma_child_other::<TrackLoudnessInfo>(c@);
                lemma_child_read::<AlbumLoudnessInfo>(c@);
            }
            let ghost old_a = views(album_loudness@);
            match collect_into(c, &mut album_loudness) {
                Ok(()) => {
                    proof {
                        assert(views(album_loudness@) =~= old_a + seq![child_value::<AlbumLoudnessInfo>(c@)->0]);
                    }
                    i = i + 1;
                },
                Err(IsoError::UnexpectedEof) => {
                    stop = true;
                },
                Err(e) => {
                    proof {
                        lemma_first_fault(css, fault, i as int);
                    }
                    return Err(e);
                },
            }
        } else {
            proof {
                lemma_child_other::<TrackLoudnessInfo>(c@);
                lemma_child_other::<AlbumLoudnessInfo>(c@);
            }
            i = i + 1;
        }
    }
    proof {
        lemma_first_fault(css, fault, i as int);
        assert(first_fault(css, fault) == i);
    }
    Ok(LoudnessBox { loudness, album_loudness })
}

/// Writing a loudness box and reading its payload back gives it again.
#[verifier::spinoff_prover]
#[verifier::rlimit(100)]
proof fn lemma_ludt_roundtrip(v: LoudnessBoxModel)
    requires
        LoudnessBox::spec_writable(v),
        LoudnessBox::spec_canonical(v),
    ensures
        ludt_parse(LoudnessBox::spec_serialize_body(v)) == Ok::<LoudnessBoxModel, IsoError>(v),
{
    let s = LoudnessBox::spec_serialize_body(v);
    let tail = children_bytes::<AlbumLoudnessInfo>(v.album_loudness);
    let ms = children_models::<TrackLoudnessInfo>(v.loudness);
    let ns = children_models::<AlbumLoudnessInfo>(v.album_loudness);
    lemma_children_seq::<TrackLoudnessInfo>(v.loudness, tail);
    lemma_children_seq::<AlbumLoudnessInfo>(v.album_loudness, Seq::empty());
    lemma_children_empty();
    assert(tail + Seq::<u8>::empty() =~= tail);
    let cs = spec_children(s);
    assert(cs =~= ms + ns);
    let fault = |c: UnknownBoxModel| ludt_fault(c);
    assert(TrackLoudnessInfo::spec_box_type()[0] != AlbumLoudnessInfo::spec_box_type()[0]);
    assert forall|j: int| 0 <= j < cs.len() implies (#[trigger] fault(cs[j])) is None by {
        if j < ms.len() {
            assert(cs[j] == ms[j]);
            lemma_child_cons::<TrackLoudnessInfo>(v.loudness[j], Seq::empty());
            assert(cs[j] == child_model::<TrackLoudnessInfo>(v.loudness[j]));
        } else {
            let k = j - ms.len();
            assert(cs[j] == ns[k]);
            lemma_child_cons::<AlbumLoudnessInfo>(v.album_loudness[k], Seq::empty());
            assert(cs[j] == child_model::<AlbumLoudnessInfo>(v.album_loudness[k]));
            assert(!is_child::<TrackLoudnessInfo>(cs[j]));
        }
    }
    lemma_first_fault(cs, fault, cs.len() as int);
    assert(cs.take(cs.len() as int) =~= cs);
    lemma_collect_add::<TrackLoudnessInfo>(ms, ns);
    lemma_collect_add::<AlbumLoudnessInfo>(ms, ns);
    lemma_collect_own::<TrackLoudnessInfo>(v.loudness);
    lemma_collect_own::<AlbumLoudnessInfo>(v.album_loudness);
    lemma_collect_other::<AlbumLoudnessInfo, TrackLoudnessInfo>(v.loudness);
    lemma_collect_other::<TrackLoudnessInfo, AlbumLoudnessInfo>(v.album_loudness);
    assert(collect_children::<TrackLoudnessInfo>(cs) =~= v.loudness);
    assert(collect_children::<AlbumLoudnessInfo>(cs) =~= v.album_loudness);
}

} // verus!
