//! The movie box, which holds the tracks of a presentation.

use vstd::prelude::*;

use crate::children::{
    child_fault, child_value, collect_children, collect_into, collect_unknown, first_fault, is_child, is_child_exec,
    last_child, lemma_child_other, lemma_child_read, lemma_collect_add, lemma_collect_none, lemma_collect_step,
    lemma_first_fault, lemma_unknown_add, lemma_unknown_all_known, lemma_unknown_none_known, lemma_unknown_step,
    lemma_unknown_seq, read_children, replace_into, scan_result, spec_children,
};
use crate::codec::{
    be_u16_at, be_u24_at, be_u32_at, lemma_append_prefix, lemma_prefix_trans, lemma_u16_at, lemma_u24_at,
    lemma_u32_at, read_u16_at, read_u24_at, read_u32_at, u16_bytes, u24_bytes, u32_bytes, write_bytes, write_u16,
    write_u24, write_u32, write_u8, IsoError,
};
use crate::frame::{add_header_size, add_header_size_exec, BoxBody, UnknownBox, UnknownBoxModel};
use crate::header::{spec_uuid_fourcc, FullBoxHeader};
use crate::nested::{
    lemma_nested_collect_other, lemma_nested_collect_own, lemma_nested_cons, lemma_nested_opt_other,
    lemma_nested_opt_own, lemma_nested_opt_seq, lemma_nested_opt_size, lemma_nested_seq, lemma_nested_size,
    lemma_nested_sizes, lemma_unknown_seq_rest, nested_all_ok, nested_all_writable, nested_box_bytes, nested_bytes,
    nested_model,
    nested_models, nested_ok, nested_opt_bytes, nested_opt_models, nested_opt_ok, nested_opt_size,
    nested_opt_writable, nested_sizes, nested_writable, opt_seq, opt_view, size_nested_opt, size_nested_vec,
    write_nested, write_nested_opt, write_nested_vec,
};
use crate::wire::{
    lemma_size_seq, lemma_size_seq_mono, ser_seq, serialize_all, size_all, size_seq, views, writable_seq,
    write_matches, IsoSized, Wire,
};
use crate::boxes::media_headers::MovieHeaderBox;
use crate::boxes::meta::MetaBox;
use crate::boxes::movie_extends::MovieExtendsBox;
use crate::boxes::track::TrackBox;
use crate::boxes::user_data_box::UserDataBox;

verus! {

/// Movie box
///
/// `moov`
///
/// ISO/IEC 14496-12 - 8.2.1
#[derive(Debug)]
pub struct MovieBox {
    /// The contained [`MovieHeaderBox`]. (mandatory)
    pub mvhd: MovieHeaderBox,
    /// The contained [`MetaBox`]. (optional)
    pub meta: Option<MetaBox>,
    /// The contained [`TrackBox`] boxes. (any quantity)
    pub trak: Vec<TrackBox>,
    /// The contained [`MovieExtendsBox`]. (optional)
    pub mvex: Option<MovieExtendsBox>,
    /// The boxes of other types, kept as they are.
    pub unknown_boxes: Vec<UnknownBox>,
    /// The contained [`UserDataBox`]. (optional)
    pub udta: Option<UserDataBox>,
}

/// The model of a [`MovieBox`].
pub struct MovieBoxModel {
    pub mvhd: <MovieHeaderBox as View>::V,
    pub meta: Option<<MetaBox as View>::V>,
    pub trak: Seq<<TrackBox as View>::V>,
    pub mvex: Option<<MovieExtendsBox as View>::V>,
    pub unknown_boxes: Seq<UnknownBoxModel>,
    pub udta: Option<<UserDataBox as View>::V>,
}

impl View for MovieBox {
    type V = MovieBoxModel;

    open spec fn view(&self) -> MovieBoxModel {
        MovieBoxModel {
            mvhd: self.mvhd@,
            meta: opt_view(self.meta),
            trak: views(self.trak@),
            mvex: opt_view(self.mvex),
            unknown_boxes: views(self.unknown_boxes@),
            udta: opt_view(self.udta),
        }
    }
}

/// Whether a box found in a moov has one of the types that it reads.
pub open spec fn moov_known(c: UnknownBoxModel) -> bool {
    is_child::<MovieHeaderBox>(c) || is_child::<MetaBox>(c) || is_child::<TrackBox>(c) || is_child::<MovieExtendsBox>(c) || is_child::<UserDataBox>(c)
}

/// The failure of reading a box of a known type found in a moov.
pub open spec fn moov_fault(c: UnknownBoxModel) -> Option<IsoError> {
    if is_child::<MovieHeaderBox>(c) {
        child_fault::<MovieHeaderBox>(c)
    }     else if is_child::<MetaBox>(c) {
        child_fault::<MetaBox>(c)
    }     else if is_child::<TrackBox>(c) {
        child_fault::<TrackBox>(c)
    }     else if is_child::<MovieExtendsBox>(c) {
        child_fault::<MovieExtendsBox>(c)
    }     else if is_child::<UserDataBox>(c) {
        child_fault::<UserDataBox>(c)
    } else {
        None
    }
}

/// What a moov reads from its payload: the boxes before the first that fails, each box of a known type in its field (the
/// last one for a single field, which must be there where it is required) and every
/// other box kept as it is.
pub open spec fn moov_parse(s: Seq<u8>) -> Result<MovieBoxModel, IsoError> {
    let cs = spec_children(s);
    match scan_result(cs, |c: UnknownBoxModel| moov_fault(c)) {
        Err(e) => Err(e),
        Ok(k) => {
            let p = cs.take(k as int);
            match last_child::<MovieHeaderBox>(p) {
                None => Err(IsoError::InvalidData),
                Some(mvhd) => Ok(
                    MovieBoxModel {
                        mvhd: mvhd,
                        meta: last_child::<MetaBox>(p),
                        trak: collect_children::<TrackBox>(p),
                        mvex: last_child::<MovieExtendsBox>(p),
                        unknown_boxes: collect_unknown(p, |c: UnknownBoxModel| moov_known(c)),
                        udta: last_child::<UserDataBox>(p),
                    },
                ),
            }
        },
    }
}

/// The bytes of the boxes that a moov holds, in the order of its fields.
pub open spec fn moov_children_bytes(v: MovieBoxModel) -> Seq<u8> {
    nested_box_bytes::<MovieHeaderBox>(v.mvhd)
        + nested_opt_bytes::<MetaBox>(v.meta)
        + nested_bytes::<TrackBox>(v.trak)
        + nested_opt_bytes::<MovieExtendsBox>(v.mvex)
        + ser_seq::<UnknownBox>(v.unknown_boxes)
        + nested_opt_bytes::<UserDataBox>(v.udta)
}

/// The boxes, as found in a container, that a moov writes.
pub open spec fn moov_models(v: MovieBoxModel) -> Seq<UnknownBoxModel> {
    seq![nested_model::<MovieHeaderBox>(v.mvhd)]
        + nested_opt_models::<MetaBox>(v.meta)
        + nested_models::<TrackBox>(v.trak)
        + nested_opt_models::<MovieExtendsBox>(v.mvex)
        + v.unknown_boxes
        + nested_opt_models::<UserDataBox>(v.udta)
}

/// The payload that a moov writes.
pub open spec fn moov_bytes(v: MovieBoxModel) -> Seq<u8> {
    moov_children_bytes(v)
}

/// Every box of a known type can be written.
pub open spec fn moov_writable(v: MovieBoxModel) -> bool {
    &&& nested_writable::<MovieHeaderBox>(v.mvhd)
    &&& nested_opt_writable::<MetaBox>(v.meta)
    &&& nested_all_writable::<TrackBox>(v.trak)
    &&& nested_opt_writable::<MovieExtendsBox>(v.mvex)
    &&& nested_opt_writable::<UserDataBox>(v.udta)
}

/// Every box of a known type reads back as itself, and every other box is of
/// another type and announces exactly its payload.
pub open spec fn moov_canonical(v: MovieBoxModel) -> bool {
    &&& nested_ok::<MovieHeaderBox>(v.mvhd)
    &&& nested_opt_ok::<MetaBox>(v.meta)
    &&& nested_all_ok::<TrackBox>(v.trak)
    &&& nested_opt_ok::<MovieExtendsBox>(v.mvex)
    &&& nested_opt_ok::<UserDataBox>(v.udta)
    &&& forall|i: int|
        0 <= i < v.unknown_boxes.len() ==> UnknownBox::spec_canonical(#[trigger] v.unknown_boxes[i]) && !moov_known(
            v.unknown_boxes[i],
        )
}

impl IsoSized for MovieBox {
    open spec fn spec_size(&self) -> nat {
        add_header_size(self.mvhd.spec_size() + nested_opt_size::<MetaBox>(self.meta) + nested_sizes::<TrackBox>(self.trak@) + nested_opt_size::<MovieExtendsBox>(self.mvex) + size_seq::<UnknownBox>(self.unknown_boxes@) + nested_opt_size::<UserDataBox>(self.udta))
    }

    fn size(&self) -> (n: usize) {
        proof {
            lemma_size_seq_mono::<UnknownBox>(self.unknown_boxes@, 0);
        }
        let mut n: usize = 0;
        n = n + self.mvhd.size();
        n = n + size_nested_opt(&self.meta);
        n = n + size_nested_vec(&self.trak);
        n = n + size_nested_opt(&self.mvex);
        n = n + size_all(&self.unknown_boxes);
        n = n + size_nested_opt(&self.udta);
        add_header_size_exec(n)
    }
}

/// The fields of a moov read so far.
pub struct MovieBoxScan {
    pub mvhd: Option<MovieHeaderBox>,
    pub meta: Option<MetaBox>,
    pub trak: Vec<TrackBox>,
    pub mvex: Option<MovieExtendsBox>,
    pub unknown_boxes: Vec<UnknownBox>,
    pub udta: Option<UserDataBox>,
}

/// The model of a [`MovieBoxScan`].
pub struct MovieBoxScanModel {
    pub mvhd: Option<<MovieHeaderBox as View>::V>,
    pub meta: Option<<MetaBox as View>::V>,
    pub trak: Seq<<TrackBox as View>::V>,
    pub mvex: Option<<MovieExtendsBox as View>::V>,
    pub unknown_boxes: Seq<UnknownBoxModel>,
    pub udta: Option<<UserDataBox as View>::V>,
}

impl View for MovieBoxScan {
    type V = MovieBoxScanModel;

    open spec fn view(&self) -> MovieBoxScanModel {
        MovieBoxScanModel {
            mvhd: opt_view(self.mvhd),
            meta: opt_view(self.meta),
            trak: views(self.trak@),
            mvex: opt_view(self.mvex),
            unknown_boxes: views(self.unknown_boxes@),
            udta: opt_view(self.udta),
        }
    }
}

/// What a moov holds after reading the boxes of `p`.
pub open spec fn moov_prefix(p: Seq<UnknownBoxModel>) -> MovieBoxScanModel {
    MovieBoxScanModel {
        mvhd: last_child::<MovieHeaderBox>(p),
        meta: last_child::<MetaBox>(p),
        trak: collect_children::<TrackBox>(p),
        mvex: last_child::<MovieExtendsBox>(p),
        unknown_boxes: collect_unknown(p, |c: UnknownBoxModel| moov_known(c)),
        udta: last_child::<UserDataBox>(p),
    }
}

/// What a moov holds after reading one more box that does not fail.
pub open spec fn moov_extend(m: MovieBoxScanModel, c: UnknownBoxModel) -> MovieBoxScanModel {
    MovieBoxScanModel {
        mvhd: match child_value::<MovieHeaderBox>(c) {
            Some(v) => Some(v),
            None => m.mvhd,
        },
        meta: match child_value::<MetaBox>(c) {
            Some(v) => Some(v),
            None => m.meta,
        },
        trak: m.trak + opt_seq(child_value::<TrackBox>(c)),
        mvex: match child_value::<MovieExtendsBox>(c) {
            Some(v) => Some(v),
            None => m.mvex,
        },
        unknown_boxes: if moov_known(c) {
            m.unknown_boxes
        } else {
            m.unknown_boxes.push(c)
        },
        udta: match child_value::<UserDataBox>(c) {
            Some(v) => Some(v),
            None => m.udta,
        },
    }
}

/// The types that a moov reads differ from one another.
pub open spec fn moov_types_differ() -> bool {
    &&& MovieHeaderBox::spec_box_type() != MetaBox::spec_box_type()
    &&& MovieHeaderBox::spec_box_type() != TrackBox::spec_box_type()
    &&& MovieHeaderBox::spec_box_type() != MovieExtendsBox::spec_box_type()
    &&& MovieHeaderBox::spec_box_type() != UserDataBox::spec_box_type()
    &&& MetaBox::spec_box_type() != TrackBox::spec_box_type()
    &&& MetaBox::spec_box_type() != MovieExtendsBox::spec_box_type()
    &&& MetaBox::spec_box_type() != UserDataBox::spec_box_type()
    &&& TrackBox::spec_box_type() != MovieExtendsBox::spec_box_type()
    &&& TrackBox::spec_box_type() != UserDataBox::spec_box_type()
    &&& MovieExtendsBox::spec_box_type() != UserDataBox::spec_box_type()
}

proof fn lemma_moov_types()
    ensures
        moov_types_differ(),
{
    assert(MovieHeaderBox::spec_box_type()[1] != MetaBox::spec_box_type()[1]);
    assert(MovieHeaderBox::spec_box_type()[0] != TrackBox::spec_box_type()[0]);
    assert(MovieHeaderBox::spec_box_type()[2] != MovieExtendsBox::spec_box_type()[2]);
    assert(MovieHeaderBox::spec_box_type()[0] != UserDataBox::spec_box_type()[0]);
    assert(MetaBox::spec_box_type()[0] != TrackBox::spec_box_type()[0]);
    assert(MetaBox::spec_box_type()[1] != MovieExtendsBox::spec_box_type()[1]);
    assert(MetaBox::spec_box_type()[0] != UserDataBox::spec_box_type()[0]);
    assert(TrackBox::spec_box_type()[0] != MovieExtendsBox::spec_box_type()[0]);
    assert(TrackBox::spec_box_type()[0] != UserDataBox::spec_box_type()[0]);
    assert(MovieExtendsBox::spec_box_type()[0] != UserDataBox::spec_box_type()[0]);
}

/// Reads one box found in a moov into its field.
#[verifier::spinoff_prover]
#[verifier::rlimit(60)]
fn moov_step(c: &UnknownBox, acc: &mut MovieBoxScan) -> (r: Result<(), IsoError>)
    requires
        moov_types_differ(),
    ensures
        match r {
            Ok(()) => moov_fault(c@) is None && final(acc)@ == moov_extend(old(acc)@, c@),
            Err(e) => moov_fault(c@) == Some(e) && final(acc)@ == old(acc)@,
        },
{
    if is_child_exec::<MovieHeaderBox>(c) {
        proof {
            lemma_child_other::<MetaBox>(c@);
            lemma_child_other::<TrackBox>(c@);
            lemma_child_other::<MovieExtendsBox>(c@);
            lemma_child_other::<UserDataBox>(c@);
            lemma_child_read::<MovieHeaderBox>(c@);
        }
        let r = replace_into(c, &mut acc.mvhd);
        proof {
            if r is Err {
                assert(acc@ =~= old(acc)@);
            }
            if r is Ok {
                assert(opt_seq(child_value::<TrackBox>(c@)) =~= Seq::<<TrackBox as View>::V>::empty());
                assert(acc@ =~= moov_extend(old(acc)@, c@));
            }
        }
        r
    } else if is_child_exec::<MetaBox>(c) {
        proof {
            lemma_child_other::<MovieHeaderBox>(c@);
            lemma_child_other::<TrackBox>(c@);
            lemma_child_other::<MovieExtendsBox>(c@);
            lemma_child_other::<UserDataBox>(c@);
            lemma_child_read::<MetaBox>(c@);
        }
        let r = replace_into(c, &mut acc.meta);
        proof {
            if r is Err {
                assert(acc@ =~= old(acc)@);
            }
            if r is Ok {
                assert(opt_seq(child_value::<TrackBox>(c@)) =~= Seq::<<TrackBox as View>::V>::empty());
                assert(acc@ =~= moov_extend(old(acc)@, c@));
            }
        }
        r
    } else if is_child_exec::<TrackBox>(c) {
        proof {
            lemma_child_other::<MovieHeaderBox>(c@);
            lemma_child_other::<MetaBox>(c@);
            lemma_child_other::<MovieExtendsBox>(c@);
            lemma_child_other::<UserDataBox>(c@);
            lemma_child_read::<TrackBox>(c@);
        }
        let ghost old_v = views(acc.trak@);
        let r = collect_into(c, &mut acc.trak);
        proof {
            if r is Err {
                assert(acc@ =~= old(acc)@);
            }
            if r is Ok {
                assert(views(acc.trak@) =~= old_v + opt_seq(child_value::<TrackBox>(c@)));
                assert(acc@ =~= moov_extend(old(acc)@, c@));
            }
        }
        r
    } else if is_child_exec::<MovieExtendsBox>(c) {
        proof {
            lemma_child_other::<MovieHeaderBox>(c@);
            lemma_child_other::<MetaBox>(c@);
            lemma_child_other::<TrackBox>(c@);
            lemma_child_other::<UserDataBox>(c@);
            lemma_child_read::<MovieExtendsBox>(c@);
        }
        let r = replace_into(c, &mut acc.mvex);
        proof {
            if r is Err {
                assert(acc@ =~= old(acc)@);
            }
            if r is Ok {
                assert(opt_seq(child_value::<TrackBox>(c@)) =~= Seq::<<TrackBox as View>::V>::empty());
                assert(acc@ =~= moov_extend(old(acc)@, c@));
            }
        }
        r
    } else if is_child_exec::<UserDataBox>(c) {
        proof {
            lemma_child_other::<MovieHeaderBox>(c@);
            lemma_child_other::<MetaBox>(c@);
            lemma_child_other::<TrackBox>(c@);
            lemma_child_other::<MovieExtendsBox>(c@);
            lemma_child_read::<UserDataBox>(c@);
        }
        let r = replace_into(c, &mut acc.udta);
        proof {
            if r is Err {
                assert(acc@ =~= old(acc)@);
            }
            if r is Ok {
                assert(opt_seq(child_value::<TrackBox>(c@)) =~= Seq::<<TrackBox as View>::V>::empty());
                assert(acc@ =~= moov_extend(old(acc)@, c@));
            }
        }
        r
    } else {
        proof {
            lemma_child_other::<MovieHeaderBox>(c@);
            lemma_child_other::<MetaBox>(c@);
            lemma_child_other::<TrackBox>(c@);
            lemma_child_other::<MovieExtendsBox>(c@);
            lemma_child_other::<UserDataBox>(c@);
        }
        let kept = UnknownBox { header: c.header, data: vstd::slice::slice_to_vec(c.data.as_slice()) };
        let ghost old_v = views(acc.unknown_boxes@);
        acc.unknown_boxes.push(kept);
        proof {
            assert(views(acc.unknown_boxes@) =~= old_v.push(c@));
            assert(opt_seq(child_value::<TrackBox>(c@)) =~= Seq::<<TrackBox as View>::V>::empty());
            assert(acc@ =~= moov_extend(old(acc)@, c@));
        }
        Ok(())
    }
}

/// Reading one more box extends what was read by it.
proof fn lemma_moov_prefix_step(css: Seq<UnknownBoxModel>, i: int)
    requires
        0 <= i < css.len(),
    ensures
        moov_prefix(css.take(i + 1)) == moov_extend(moov_prefix(css.take(i)), css[i]),
{
    lemma_collect_step::<MovieHeaderBox>(css, i);
    lemma_collect_step::<MetaBox>(css, i);
    lemma_collect_step::<TrackBox>(css, i);
    lemma_collect_step::<MovieExtendsBox>(css, i);
    lemma_collect_step::<UserDataBox>(css, i);
    lemma_unknown_step(css, |c: UnknownBoxModel| moov_known(c), i);
    let a = moov_prefix(css.take(i + 1));
    let b = moov_extend(moov_prefix(css.take(i)), css[i]);
    assert(a.trak =~= b.trak);
    assert(a.unknown_boxes =~= b.unknown_boxes);
}

/// Reads the payload of a moov.
#[verifier::spinoff_prover]
#[verifier::rlimit(60)]
fn parse_moov(payload: &[u8]) -> (r: Result<MovieBox, IsoError>)
    ensures
        match (moov_parse(payload@), r) {
            (Ok(v), Ok(x)) => x@ == v,
            (Err(e), Err(f)) => e == f,
            _ => false,
        },
{
    let cs = read_children(payload);
    let ghost css = spec_children(payload@);
    let ghost fault = |c: UnknownBoxModel| moov_fault(c);
    let mut acc = MovieBoxScan {
        mvhd: None,
        meta: None,
        trak: Vec::new(),
        mvex: None,
        unknown_boxes: Vec::new(),
        udta: None,
    };
    let mut i: usize = 0;
    let mut stop = false;
    proof {
        lemma_moov_types();
        let e = css.take(0);
        assert(e =~= Seq::<UnknownBoxModel>::empty());
        assert(collect_children::<MovieHeaderBox>(e) =~= Seq::<<MovieHeaderBox as View>::V>::empty());
        assert(collect_children::<MetaBox>(e) =~= Seq::<<MetaBox as View>::V>::empty());
        assert(collect_children::<TrackBox>(e) =~= Seq::<<TrackBox as View>::V>::empty());
        assert(views(acc.trak@) =~= Seq::<<TrackBox as View>::V>::empty());
        assert(collect_children::<MovieExtendsBox>(e) =~= Seq::<<MovieExtendsBox as View>::V>::empty());
        assert(collect_unknown(e, |c: UnknownBoxModel| moov_known(c)) =~= Seq::<UnknownBoxModel>::empty());
        assert(views(acc.unknown_boxes@) =~= Seq::<UnknownBoxModel>::empty());
        assert(collect_children::<UserDataBox>(e) =~= Seq::<<UserDataBox as View>::V>::empty());
        assert(acc@ =~= moov_prefix(e));
    }
    while i < cs.len() && !stop
        invariant
            views(cs@) == css,
            css == spec_children(payload@),
            fault == (|c: UnknownBoxModel| moov_fault(c)),
            moov_types_differ(),
            i <= cs@.len(),
            forall|j: int| 0 <= j < i ==> (#[trigger] fault(css[j])) is None,
            stop ==> i < css.len() && fault(css[i as int]) == Some(IsoError::UnexpectedEof),
            acc@ == moov_prefix(css.take(i as int)),
        decreases cs@.len() - i + (if stop { 0int } else { 1int }),
    {
        let c = &cs[i];
        proof {
            assert(c@ == css[i as int]);
            lemma_moov_prefix_step(css, i as int);
        }
        match moov_step(c, &mut acc) {
            Ok(()) => {
                i = i + 1;
            },
            Err(IsoError::UnexpectedEof) => {
                stop = true;
            },
            Err(e) => {
                proof {
                    lemma_first_fault(css, fault, i as int);
                }
                return Err(e);
            },
        }
    }
    proof {
        lemma_first_fault(css, fault, i as int);
        assert(first_fault(css, fault) == i);
    }
    let MovieBoxScan { mvhd, meta, trak, mvex, unknown_boxes, udta } = acc;
    let mvhd = match mvhd {
        Some(x) => x,
        None => {
            return Err(IsoError::InvalidData);
        },
    };
    Ok(MovieBox { mvhd, meta, trak, mvex, unknown_boxes, udta })
}

/// Writes the boxes of a moov in the order of its fields.
#[verifier::spinoff_prover]
#[verifier::rlimit(60)]
fn write_moov_children(x: &MovieBox, out: &mut Vec<u8>) -> (r: Result<(), IsoError>)
    requires
        x.spec_size() <= usize::MAX,
    ensures
        write_matches(r, moov_writable(x@), moov_children_bytes(x@), old(out)@, final(out)@),
{
    let ghost before = out@;
    let ghost v = x@;
    if write_nested(&x.mvhd, out).is_err() {
        return Err(IsoError::InvalidData);
    }
    let ghost m1 = out@;
    proof {
        lemma_append_prefix(before, nested_box_bytes::<MovieHeaderBox>(v.mvhd));
    }
    if write_nested_opt(&x.meta, out).is_err() {
        proof {
            lemma_prefix_trans(before, m1, out@);
        }
        return Err(IsoError::InvalidData);
    }
    let ghost m2 = out@;
    proof {
        lemma_append_prefix(m1, nested_opt_bytes::<MetaBox>(v.meta));
        lemma_prefix_trans(before, m1, m2);
    }
    if write_nested_vec(&x.trak, out).is_err() {
        proof {
            lemma_prefix_trans(before, m2, out@);
        }
        return Err(IsoError::InvalidData);
    }
    let ghost m3 = out@;
    proof {
        lemma_append_prefix(m2, nested_bytes::<TrackBox>(v.trak));
        lemma_prefix_trans(before, m2, m3);
    }
    if write_nested_opt(&x.mvex, out).is_err() {
        proof {
            lemma_prefix_trans(before, m3, out@);
        }
        return Err(IsoError::InvalidData);
    }
    let ghost m4 = out@;
    proof {
        lemma_append_prefix(m3, nested_opt_bytes::<MovieExtendsBox>(v.mvex));
        lemma_prefix_trans(before, m3, m4);
    }
    let _ = serialize_all(&x.unknown_boxes, out);
    assert(out@ == m4 + ser_seq::<UnknownBox>(v.unknown_boxes)) by {
        assert(views(x.unknown_boxes@) == v.unknown_boxes);
    }
    let ghost m5 = out@;
    proof {
        lemma_append_prefix(m4, ser_seq::<UnknownBox>(v.unknown_boxes));
        lemma_prefix_trans(before, m4, m5);
    }
    if write_nested_opt(&x.udta, out).is_err() {
        proof {
            lemma_prefix_trans(before, m5, out@);
        }
        return Err(IsoError::InvalidData);
    }
    let ghost m6 = out@;
    proof {
        lemma_append_prefix(m5, nested_opt_bytes::<UserDataBox>(v.udta));
        lemma_prefix_trans(before, m5, m6);
    }
    proof {
        let l1 = nested_box_bytes::<MovieHeaderBox>(v.mvhd);
        assert(m1 == before + l1);
        let l2 = l1 + nested_opt_bytes::<MetaBox>(v.meta);
        vstd::seq_lib::lemma_concat_associative(before, l1, nested_opt_bytes::<MetaBox>(v.meta));
        assert(m2 == before + l2);
        let l3 = l2 + nested_bytes::<TrackBox>(v.trak);
        vstd::seq_lib::lemma_concat_associative(before, l2, nested_bytes::<TrackBox>(v.trak));
        assert(m3 == before + l3);
        let l4 = l3 + nested_opt_bytes::<MovieExtendsBox>(v.mvex);
        vstd::seq_lib::lemma_concat_associative(before, l3, nested_opt_bytes::<MovieExtendsBox>(v.mvex));
        assert(m4 == before + l4);
        let l5 = l4 + ser_seq::<UnknownBox>(v.unknown_boxes);
        vstd::seq_lib::lemma_concat_associative(before, l4, ser_seq::<UnknownBox>(v.unknown_boxes));
        assert(m5 == before + l5);
        let l6 = l5 + nested_opt_bytes::<UserDataBox>(v.udta);
        vstd::seq_lib::lemma_concat_associative(before, l5, nested_opt_bytes::<UserDataBox>(v.udta));
        assert(m6 == before + l6);
        assert(moov_children_bytes(v) == l6);
        lemma_append_prefix(before, moov_children_bytes(v));
    }
    Ok(())
}

/// The boxes that a moov writes, read from their bytes one list after the other.
#[verifier::spinoff_prover]
#[verifier::rlimit(100)]
proof fn lemma_moov_children_chain(v: MovieBoxModel)
    requires
        moov_canonical(v),
    ensures
        spec_children(nested_box_bytes::<MovieHeaderBox>(v.mvhd) + (nested_opt_bytes::<MetaBox>(v.meta) + (nested_bytes::<TrackBox>(v.trak) + (nested_opt_bytes::<MovieExtendsBox>(v.mvex) + (ser_seq::<UnknownBox>(v.unknown_boxes) + (nested_opt_bytes::<UserDataBox>(v.udta))))))) == seq![nested_model::<MovieHeaderBox>(v.mvhd)] + (nested_opt_models::<MetaBox>(v.meta) + (nested_models::<TrackBox>(v.trak) + (nested_opt_models::<MovieExtendsBox>(v.mvex) + (v.unknown_boxes + (nested_opt_models::<UserDataBox>(v.udta)))))),
{
    let b0 = nested_box_bytes::<MovieHeaderBox>(v.mvhd);
    let s0 = seq![nested_model::<MovieHeaderBox>(v.mvhd)];
    let b1 = nested_opt_bytes::<MetaBox>(v.meta);
    let s1 = nested_opt_models::<MetaBox>(v.meta);
    let b2 = nested_bytes::<TrackBox>(v.trak);
    let s2 = nested_models::<TrackBox>(v.trak);
    let b3 = nested_opt_bytes::<MovieExtendsBox>(v.mvex);
    let s3 = nested_opt_models::<MovieExtendsBox>(v.mvex);
    let b4 = ser_seq::<UnknownBox>(v.unknown_boxes);
    let s4 = v.unknown_boxes;
    let b5 = nested_opt_bytes::<UserDataBox>(v.udta);
    let s5 = nested_opt_models::<UserDataBox>(v.udta);
    crate::children::lemma_children_empty();
    let t5 = b5;
    let u5 = s5;
    assert(b5 + Seq::<u8>::empty() =~= b5);
    assert(s5 + Seq::<UnknownBoxModel>::empty() =~= s5);
    lemma_nested_opt_seq::<UserDataBox>(v.udta, Seq::<u8>::empty());
    assert(spec_children(t5) == u5);
    let t4 = b4 + t5;
    let u4 = s4 + u5;
    lemma_unknown_seq_rest(v.unknown_boxes, t5);
    assert(spec_children(t4) == u4);
    let t3 = b3 + t4;
    let u3 = s3 + u4;
    lemma_nested_opt_seq::<MovieExtendsBox>(v.mvex, t4);
    assert(spec_children(t3) == u3);
    let t2 = b2 + t3;
    let u2 = s2 + u3;
    lemma_nested_seq::<TrackBox>(v.trak, t3);
    assert(spec_children(t2) == u2);
    let t1 = b1 + t2;
    let u1 = s1 + u2;
    lemma_nested_opt_seq::<MetaBox>(v.meta, t2);
    assert(spec_children(t1) == u1);
    let t0 = b0 + t1;
    let u0 = s0 + u1;
    lemma_nested_cons::<MovieHeaderBox>(v.mvhd, t1);
    assert(spec_children(t0) == u0);
}

/// The boxes that a moov writes read back as their models.
#[verifier::spinoff_prover]
#[verifier::rlimit(100)]
proof fn lemma_moov_children(v: MovieBoxModel)
    requires
        moov_canonical(v),
    ensures
        spec_children(moov_children_bytes(v)) == moov_models(v),
{
    lemma_moov_children_chain(v);
    let b0 = nested_box_bytes::<MovieHeaderBox>(v.mvhd);
    let s0 = seq![nested_model::<MovieHeaderBox>(v.mvhd)];
    let b1 = nested_opt_bytes::<MetaBox>(v.meta);
    let s1 = nested_opt_models::<MetaBox>(v.meta);
    let b2 = nested_bytes::<TrackBox>(v.trak);
    let s2 = nested_models::<TrackBox>(v.trak);
    let b3 = nested_opt_bytes::<MovieExtendsBox>(v.mvex);
    let s3 = nested_opt_models::<MovieExtendsBox>(v.mvex);
    let b4 = ser_seq::<UnknownBox>(v.unknown_boxes);
    let s4 = v.unknown_boxes;
    let b5 = nested_opt_bytes::<UserDataBox>(v.udta);
    let s5 = nested_opt_models::<UserDataBox>(v.udta);
    let t5 = b5;
    let u5 = s5;
    let t4 = b4 + t5;
    let u4 = s4 + u5;
    let t3 = b3 + t4;
    let u3 = s3 + u4;
    let t2 = b2 + t3;
    let u2 = s2 + u3;
    let t1 = b1 + t2;
    let u1 = s1 + u2;
    let t0 = b0 + t1;
    let u0 = s0 + u1;
    let t6 = Seq::<u8>::empty();
    let u6 = Seq::<UnknownBoxModel>::empty();
    assert(b5 + t6 =~= t5);
    assert(s5 + u6 =~= u5);
    let l0 = Seq::<u8>::empty();
    let k0 = Seq::<UnknownBoxModel>::empty();
    assert(l0 + t0 =~= t0);
    assert(k0 + u0 =~= u0);
    let l1 = b0;
    let k1 = s0;
    assert(l1 + t1 == l0 + t0);
    assert(k1 + u1 == k0 + u0);
    let l2 = l1 + b1;
    let k2 = k1 + s1;
    vstd::seq_lib::lemma_concat_associative(l1, b1, t2);
    vstd::seq_lib::lemma_concat_associative(k1, s1, u2);
    assert(l2 + t2 == l1 + t1);
    assert(k2 + u2 == k1 + u1);
    let l3 = l2 + b2;
    let k3 = k2 + s2;
    vstd::seq_lib::lemma_concat_associative(l2, b2, t3);
    vstd::seq_lib::lemma_concat_associative(k2, s2, u3);
    assert(l3 + t3 == l2 + t2);
    assert(k3 + u3 == k2 + u2);
    let l4 = l3 + b3;
    let k4 = k3 + s3;
    vstd::seq_lib::lemma_concat_associative(l3, b3, t4);
    vstd::seq_lib::lemma_concat_associative(k3, s3, u4);
    assert(l4 + t4 == l3 + t3);
    assert(k4 + u4 == k3 + u3);
    let l5 = l4 + b4;
    let k5 = k4 + s4;
    vstd::seq_lib::lemma_concat_associative(l4, b4, t5);
    vstd::seq_lib::lemma_concat_associative(k4, s4, u5);
    assert(l5 + t5 == l4 + t4);
    assert(k5 + u5 == k4 + u4);
    let l6 = l5 + b5;
    let k6 = k5 + s5;
    vstd::seq_lib::lemma_concat_associative(l5, b5, t6);
    vstd::seq_lib::lemma_concat_associative(k5, s5, u6);
    assert(l6 + t6 == l5 + t5);
    assert(k6 + u6 == k5 + u5);
    assert(l6 + t6 =~= l6);
    assert(k6 + u6 =~= k6);
    assert(moov_children_bytes(v) == l6);
    assert(moov_models(v) == k6);
}

/// No box that a moov writes fails to read.
#[verifier::spinoff_prover]
#[verifier::rlimit(60)]
proof fn lemma_moov_no_fault(v: MovieBoxModel, j: int)
    requires
        moov_canonical(v),
        moov_types_differ(),
        0 <= j < moov_models(v).len(),
    ensures
        moov_fault(moov_models(v)[j]) is None,
{
    let cs = moov_models(v);
    let s0 = seq![nested_model::<MovieHeaderBox>(v.mvhd)];
    let s1 = nested_opt_models::<MetaBox>(v.meta);
    let s2 = nested_models::<TrackBox>(v.trak);
    let s3 = nested_opt_models::<MovieExtendsBox>(v.mvex);
    let s4 = v.unknown_boxes;
    let s5 = nested_opt_models::<UserDataBox>(v.udta);
    let n0: int = 0;
    let n1: int = n0 + s0.len();
    let n2: int = n1 + s1.len();
    let n3: int = n2 + s2.len();
    let n4: int = n3 + s3.len();
    let n5: int = n4 + s4.len();
    let n6: int = n5 + s5.len();
    if j < n1 {
        assert(cs[j] == s0[j - n0]);
        lemma_nested_cons::<MovieHeaderBox>(v.mvhd, Seq::empty());
    } else if j < n2 {
        assert(cs[j] == s1[j - n1]);
        lemma_nested_cons::<MetaBox>(v.meta.unwrap(), Seq::empty());
    } else if j < n3 {
        assert(cs[j] == s2[j - n2]);
        assert(nested_ok::<TrackBox>(v.trak[j - n2]));
        lemma_nested_cons::<TrackBox>(v.trak[j - n2], Seq::empty());
    } else if j < n4 {
        assert(cs[j] == s3[j - n3]);
        lemma_nested_cons::<MovieExtendsBox>(v.mvex.unwrap(), Seq::empty());
    } else if j < n5 {
        assert(cs[j] == s4[j - n4]);
        assert(!moov_known(v.unknown_boxes[j - n4]));
    } else if j < n6 {
        assert(cs[j] == s5[j - n5]);
        lemma_nested_cons::<UserDataBox>(v.udta.unwrap(), Seq::empty());
    }
}

/// Collecting over the lists of a moov one after the other collects over each in
/// turn.
proof fn lemma_moov_split<T: BoxBody>(m0: Seq<UnknownBoxModel>, m1: Seq<UnknownBoxModel>, m2: Seq<UnknownBoxModel>, m3: Seq<UnknownBoxModel>, m4: Seq<UnknownBoxModel>, m5: Seq<UnknownBoxModel>)
    ensures
        collect_children::<T>(m0 + m1 + m2 + m3 + m4 + m5) == collect_children::<T>(m0) + collect_children::<T>(m1) + collect_children::<T>(m2) + collect_children::<T>(m3) + collect_children::<T>(m4) + collect_children::<T>(m5),
{
    lemma_collect_add::<T>(m0 + m1 + m2 + m3 + m4, m5);
    lemma_collect_add::<T>(m0 + m1 + m2 + m3, m4);
    lemma_collect_add::<T>(m0 + m1 + m2, m3);
    lemma_collect_add::<T>(m0 + m1, m2);
    lemma_collect_add::<T>(m0, m1);
}

/// The boxes that a moov writes collect back into its field `mvhd`.
#[verifier::spinoff_prover]
#[verifier::rlimit(60)]
proof fn lemma_moov_collect_mvhd(v: MovieBoxModel)
    requires
        moov_canonical(v),
        moov_types_differ(),
    ensures
        collect_children::<MovieHeaderBox>(moov_models(v)) == seq![v.mvhd],
{
    lemma_moov_split::<MovieHeaderBox>(seq![nested_model::<MovieHeaderBox>(v.mvhd)], nested_opt_models::<MetaBox>(v.meta), nested_models::<TrackBox>(v.trak), nested_opt_models::<MovieExtendsBox>(v.mvex), v.unknown_boxes, nested_opt_models::<UserDataBox>(v.udta));
    lemma_nested_opt_own::<MovieHeaderBox>(Some(v.mvhd));
    assert(nested_opt_models::<MovieHeaderBox>(Some(v.mvhd)) == seq![nested_model::<MovieHeaderBox>(v.mvhd)]);
    lemma_nested_opt_other::<MovieHeaderBox, MetaBox>(v.meta);
    lemma_nested_collect_other::<MovieHeaderBox, TrackBox>(v.trak);
    lemma_nested_opt_other::<MovieHeaderBox, MovieExtendsBox>(v.mvex);
    assert forall|i: int| 0 <= i < v.unknown_boxes.len() implies !#[trigger] is_child::<MovieHeaderBox>(v.unknown_boxes[i]) by {
        assert(!moov_known(v.unknown_boxes[i]));
    }
    lemma_collect_none::<MovieHeaderBox>(v.unknown_boxes);
    lemma_nested_opt_other::<MovieHeaderBox, UserDataBox>(v.udta);
    assert(collect_children::<MovieHeaderBox>(moov_models(v)) =~= seq![v.mvhd]);
}

/// The boxes that a moov writes collect back into its field `meta`.
#[verifier::spinoff_prover]
#[verifier::rlimit(60)]
proof fn lemma_moov_collect_meta(v: MovieBoxModel)
    requires
        moov_canonical(v),
        moov_types_differ(),
    ensures
        collect_children::<MetaBox>(moov_models(v)) == opt_seq(v.meta),
{
    lemma_moov_split::<MetaBox>(seq![nested_model::<MovieHeaderBox>(v.mvhd)], nested_opt_models::<MetaBox>(v.meta), nested_models::<TrackBox>(v.trak), nested_opt_models::<MovieExtendsBox>(v.mvex), v.unknown_boxes, nested_opt_models::<UserDataBox>(v.udta));
    lemma_nested_opt_other::<MetaBox, MovieHeaderBox>(Some(v.mvhd));
    assert(nested_opt_models::<MovieHeaderBox>(Some(v.mvhd)) == seq![nested_model::<MovieHeaderBox>(v.mvhd)]);
    lemma_nested_opt_own::<MetaBox>(v.meta);
    lemma_nested_collect_other::<MetaBox, TrackBox>(v.trak);
    lemma_nested_opt_other::<MetaBox, MovieExtendsBox>(v.mvex);
    assert forall|i: int| 0 <= i < v.unknown_boxes.len() implies !#[trigger] is_child::<MetaBox>(v.unknown_boxes[i]) by {
        assert(!moov_known(v.unknown_boxes[i]));
    }
    lemma_collect_none::<MetaBox>(v.unknown_boxes);
    lemma_nested_opt_other::<MetaBox, UserDataBox>(v.udta);
    assert(collect_children::<MetaBox>(moov_models(v)) =~= opt_seq(v.meta));
}

/// The boxes that a moov writes collect back into its field `trak`.
#[verifier::spinoff_prover]
#[verifier::rlimit(60)]
proof fn lemma_moov_collect_trak(v: MovieBoxModel)
    requires
        moov_canonical(v),
        moov_types_differ(),
    ensures
        collect_children::<TrackBox>(moov_models(v)) == v.trak,
{
    lemma_moov_split::<TrackBox>(seq![nested_model::<MovieHeaderBox>(v.mvhd)], nested_opt_models::<MetaBox>(v.meta), nested_models::<TrackBox>(v.trak), nested_opt_models::<MovieExtendsBox>(v.mvex), v.unknown_boxes, nested_opt_models::<UserDataBox>(v.udta));
    lemma_nested_opt_other::<TrackBox, MovieHeaderBox>(Some(v.mvhd));
    assert(nested_opt_models::<MovieHeaderBox>(Some(v.mvhd)) == seq![nested_model::<MovieHeaderBox>(v.mvhd)]);
    lemma_nested_opt_other::<TrackBox, MetaBox>(v.meta);
    lemma_nested_collect_own::<TrackBox>(v.trak);
    lemma_nested_opt_other::<TrackBox, MovieExtendsBox>(v.mvex);
    assert forall|i: int| 0 <= i < v.unknown_boxes.len() implies !#[trigger] is_child::<TrackBox>(v.unknown_boxes[i]) by {
        assert(!moov_known(v.unknown_boxes[i]));
    }
    lemma_collect_none::<TrackBox>(v.unknown_boxes);
    lemma_nested_opt_other::<TrackBox, UserDataBox>(v.udta);
    assert(collect_children::<TrackBox>(moov_models(v)) =~= v.trak);
}

/// The boxes that a moov writes collect back into its field `mvex`.
#[verifier::spinoff_prover]
#[verifier::rlimit(60)]
proof fn lemma_moov_collect_mvex(v: MovieBoxModel)
    requires
        moov_canonical(v),
        moov_types_differ(),
    ensures
        collect_children::<MovieExtendsBox>(moov_models(v)) == opt_seq(v.mvex),
{
    lemma_moov_split::<MovieExtendsBox>(seq![nested_model::<MovieHeaderBox>(v.mvhd)], nested_opt_models::<MetaBox>(v.meta), nested_models::<TrackBox>(v.trak), nested_opt_models::<MovieExtendsBox>(v.mvex), v.unknown_boxes, nested_opt_models::<UserDataBox>(v.udta));
    lemma_nested_opt_other::<MovieExtendsBox, MovieHeaderBox>(Some(v.mvhd));
    assert(nested_opt_models::<MovieHeaderBox>(Some(v.mvhd)) == seq![nested_model::<MovieHeaderBox>(v.mvhd)]);
    lemma_nested_opt_other::<MovieExtendsBox, MetaBox>(v.meta);
    lemma_nested_collect_other::<MovieExtendsBox, TrackBox>(v.trak);
    lemma_nested_opt_own::<MovieExtendsBox>(v.mvex);
    assert forall|i: int| 0 <= i < v.unknown_boxes.len() implies !#[trigger] is_child::<MovieExtendsBox>(v.unknown_boxes[i]) by {
        assert(!moov_known(v.unknown_boxes[i]));
    }
    lemma_collect_none::<MovieExtendsBox>(v.unknown_boxes);
    lemma_nested_opt_other::<MovieExtendsBox, UserDataBox>(v.udta);
    assert(collect_children::<MovieExtendsBox>(moov_models(v)) =~= opt_seq(v.mvex));
}

/// The boxes that a moov writes collect back into its field `udta`.
#[verifier::spinoff_prover]
#[verifier::rlimit(60)]
proof fn lemma_moov_collect_udta(v: MovieBoxModel)
    requires
        moov_canonical(v),
        moov_types_differ(),
    ensures
        collect_children::<UserDataBox>(moov_models(v)) == opt_seq(v.udta),
{
    lemma_moov_split::<UserDataBox>(seq![nested_model::<MovieHeaderBox>(v.mvhd)], nested_opt_models::<MetaBox>(v.meta), nested_models::<TrackBox>(v.trak), nested_opt_models::<MovieExtendsBox>(v.mvex), v.unknown_boxes, nested_opt_models::<UserDataBox>(v.udta));
    lemma_nested_opt_other::<UserDataBox, MovieHeaderBox>(Some(v.mvhd));
    assert(nested_opt_models::<MovieHeaderBox>(Some(v.mvhd)) == seq![nested_model::<MovieHeaderBox>(v.mvhd)]);
    lemma_nested_opt_other::<UserDataBox, MetaBox>(v.meta);
    lemma_nested_collect_other::<UserDataBox, TrackBox>(v.trak);
    lemma_nested_opt_other::<UserDataBox, MovieExtendsBox>(v.mvex);
    assert forall|i: int| 0 <= i < v.unknown_boxes.len() implies !#[trigger] is_child::<UserDataBox>(v.unknown_boxes[i]) by {
        assert(!moov_known(v.unknown_boxes[i]));
    }
    lemma_collect_none::<UserDataBox>(v.unknown_boxes);
    lemma_nested_opt_own::<UserDataBox>(v.udta);
    assert(collect_children::<UserDataBox>(moov_models(v)) =~= opt_seq(v.udta));
}

/// The boxes of other types that a moov writes are collected back as they are.
#[verifier::spinoff_prover]
#[verifier::rlimit(60)]
proof fn lemma_moov_unknown(v: MovieBoxModel)
    requires
        moov_canonical(v),
    ensures
        collect_unknown(moov_models(v), |c: UnknownBoxModel| moov_known(c)) == v.unknown_boxes,
{
    let known = |c: UnknownBoxModel| moov_known(c);
    let s0 = seq![nested_model::<MovieHeaderBox>(v.mvhd)];
    assert forall|i: int| 0 <= i < s0.len() implies #[trigger] known(s0[i]) by {}
    lemma_unknown_all_known(s0, known);
    let s1 = nested_opt_models::<MetaBox>(v.meta);
    assert forall|i: int| 0 <= i < s1.len() implies #[trigger] known(s1[i]) by {}
    lemma_unknown_all_known(s1, known);
    let s2 = nested_models::<TrackBox>(v.trak);
    assert forall|i: int| 0 <= i < s2.len() implies #[trigger] known(s2[i]) by {}
    lemma_unknown_all_known(s2, known);
    let s3 = nested_opt_models::<MovieExtendsBox>(v.mvex);
    assert forall|i: int| 0 <= i < s3.len() implies #[trigger] known(s3[i]) by {}
    lemma_unknown_all_known(s3, known);
    let s4 = v.unknown_boxes;
    assert forall|i: int| 0 <= i < s4.len() implies !#[trigger] known(s4[i]) by {}
    lemma_unknown_none_known(s4, known);
    let s5 = nested_opt_models::<UserDataBox>(v.udta);
    assert forall|i: int| 0 <= i < s5.len() implies #[trigger] known(s5[i]) by {}
    lemma_unknown_all_known(s5, known);
    lemma_unknown_add(s0 + s1 + s2 + s3 + s4, s5, known);
    lemma_unknown_add(s0 + s1 + s2 + s3, s4, known);
    lemma_unknown_add(s0 + s1 + s2, s3, known);
    lemma_unknown_add(s0 + s1, s2, known);
    lemma_unknown_add(s0, s1, known);
    assert(collect_unknown(moov_models(v), known) =~= v.unknown_boxes);
}

/// Writing a moov and reading its payload back gives it again.
#[verifier::spinoff_prover]
#[verifier::rlimit(100)]
proof fn lemma_moov_roundtrip(v: MovieBoxModel)
    requires
        moov_canonical(v),
    ensures
        moov_parse(moov_bytes(v)) == Ok::<MovieBoxModel, IsoError>(v),
{
    let s = moov_bytes(v);
    lemma_moov_children(v);
    lemma_moov_types();
    let cs = moov_models(v);
    let fault = |c: UnknownBoxModel| moov_fault(c);
    assert forall|j: int| 0 <= j < cs.len() implies (#[trigger] fault(cs[j])) is None by {
        lemma_moov_no_fault(v, j);
    }
    lemma_first_fault(cs, fault, cs.len() as int);
    assert(cs.take(cs.len() as int) =~= cs);
    lemma_moov_collect_mvhd(v);
    lemma_moov_collect_meta(v);
    lemma_moov_collect_trak(v);
    lemma_moov_collect_mvex(v);
    lemma_moov_collect_udta(v);
    lemma_moov_unknown(v);
    assert(spec_children(s) == cs);
    assert(last_child::<MovieHeaderBox>(cs) == Some(v.mvhd));
    assert(last_child::<MetaBox>(cs) == v.meta);
    assert(last_child::<MovieExtendsBox>(cs) == v.mvex);
    assert(last_child::<UserDataBox>(cs) == v.udta);
}

/// For a value that reads back as itself, the size is that of its payload and header.
#[verifier::spinoff_prover]
#[verifier::rlimit(60)]
proof fn lemma_moov_size(x: MovieBox)
    requires
        moov_canonical(x@),
    ensures
        x.mvhd.spec_size() + nested_opt_size::<MetaBox>(x.meta) + nested_sizes::<TrackBox>(x.trak@) + nested_opt_size::<MovieExtendsBox>(x.mvex) + size_seq::<UnknownBox>(x.unknown_boxes@) + nested_opt_size::<UserDataBox>(x.udta) == moov_bytes(x@).len(),
{
    let v = x@;
    lemma_nested_size::<MovieHeaderBox>(x.mvhd);
    lemma_nested_opt_size::<MetaBox>(x.meta);
    lemma_nested_sizes::<TrackBox>(x.trak@);
    lemma_nested_opt_size::<MovieExtendsBox>(x.mvex);
    assert(writable_seq::<UnknownBox>(views(x.unknown_boxes@)));
    lemma_size_seq::<UnknownBox>(x.unknown_boxes@);
    lemma_nested_opt_size::<UserDataBox>(x.udta);
}

impl BoxBody for MovieBox {
    open spec fn spec_box_type() -> [u8; 4] {
        [0x6du8, 0x6fu8, 0x6fu8, 0x76u8]
    }

    fn box_type() -> (r: [u8; 4]) {
        [0x6du8, 0x6fu8, 0x6fu8, 0x76u8]
    }

    open spec fn spec_parse_body(s: Seq<u8>) -> Result<MovieBoxModel, IsoError> {
        moov_parse(s)
    }

    open spec fn spec_writable(v: MovieBoxModel) -> bool {
        moov_writable(v)
    }

    open spec fn spec_serialize_body(v: MovieBoxModel) -> Seq<u8> {
        moov_bytes(v)
    }

    open spec fn spec_canonical(v: MovieBoxModel) -> bool {
        moov_canonical(v)
    }

    proof fn lemma_box_type() {
        assert(Self::spec_box_type()[0] != spec_uuid_fourcc()[0]);
    }

    proof fn lemma_body_size(x: MovieBox) {
        lemma_moov_size(x);
    }

    proof fn lemma_body_roundtrip(v: MovieBoxModel) {
        lemma_moov_roundtrip(v);
    }

    fn parse_body(payload: &[u8]) -> (r: Result<MovieBox, IsoError>) {
        parse_moov(payload)
    }

    #[verifier::spinoff_prover]
    #[verifier::rlimit(60)]
    fn serialize_body(&self, out: &mut Vec<u8>) -> (r: Result<(), IsoError>) {
        write_moov_children(self, out)
    }
}

} // verus!
