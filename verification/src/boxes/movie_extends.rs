//! The movie extends box and the boxes that it holds.

use vstd::prelude::*;

use crate::boxes::media_headers::MovieExtendsHeaderBox;
use crate::boxes::movie_fragments::{
    LevelAssignmentBox, LevelAssignmentBoxLevel, LevelAssignmentBoxModel, TrackExtendsBox,
};
use crate::children::{
    boxes_size, child_fault, child_model, child_ok, child_value, children_bytes, children_models,
    children_ok, children_writable, collect_children, collect_into, first_fault, is_child,
    is_child_exec, last_child, lemma_boxes_size, lemma_child_cons, lemma_child_other,
    lemma_child_read, lemma_children_empty, lemma_children_seq, lemma_collect_add, lemma_collect_other,
    lemma_collect_own, lemma_collect_step, lemma_first_fault, lemma_opt_box_size, lemma_option_other,
    lemma_option_own, lemma_option_seq, opt_box_size, opt_model, option_bytes, option_models,
    option_ok, option_writable, read_children, replace_into, scan_result, size_children,
    size_option, spec_children, write_children, write_option, ChildBox,
};
use crate::codec::{lemma_append_prefix, lemma_prefix_trans, IsoError};
use crate::frame::{add_header_size, add_header_size_exec, BoxBody, UnknownBoxModel};
use crate::header::spec_uuid_fourcc;
use crate::wire::{lemma_size_seq, size_seq, views, IsoSized};

verus! {

impl ChildBox for MovieExtendsHeaderBox {
    open spec fn spec_box_size(v: MovieExtendsHeaderBox) -> nat {
        add_header_size(if v.full_header.version == 1 { 12 } else { 8 })
    }

    proof fn lemma_box_size(x: MovieExtendsHeaderBox) {
    }

    proof fn lemma_box_size_canonical(v: MovieExtendsHeaderBox) {
        Self::lemma_body_size(v);
    }
}

impl ChildBox for TrackExtendsBox {
    open spec fn spec_box_size(v: TrackExtendsBox) -> nat {
        add_header_size(24)
    }

    proof fn lemma_box_size(x: TrackExtendsBox) {
    }

    proof fn lemma_box_size_canonical(v: TrackExtendsBox) {
        Self::lemma_body_size(v);
    }
}

impl ChildBox for LevelAssignmentBox {
    open spec fn spec_box_size(v: LevelAssignmentBoxModel) -> nat {
        add_header_size(5 + size_seq::<LevelAssignmentBoxLevel>(v.levels))
    }

    proof fn lemma_box_size(x: LevelAssignmentBox) {
        assert(views(x.levels@) =~= x.levels@);
    }

    proof fn lemma_box_size_canonical(v: LevelAssignmentBoxModel) {
        assert(views(v.levels) =~= v.levels);
        lemma_size_seq::<LevelAssignmentBoxLevel>(v.levels);
    }
}

/// Movie extends box
///
/// `mvex`
///
/// ISO/IEC 14496-12 - 8.8.1
#[derive(Debug, PartialEq, Eq)]
pub struct MovieExtendsBox {
    /// The contained [`MovieExtendsHeaderBox`]. (optional)
    pub mehd: Option<MovieExtendsHeaderBox>,
    /// The contained [`TrackExtendsBox`]es. (exactly one for each track in the movie)
    pub trex: Vec<TrackExtendsBox>,
    /// The contained [`LevelAssignmentBox`]. (optional)
    pub leva: Option<LevelAssignmentBox>,
}

/// The model of a [`MovieExtendsBox`].
pub struct MovieExtendsBoxModel {
    pub mehd: Option<MovieExtendsHeaderBox>,
    pub trex: Seq<TrackExtendsBox>,
    pub leva: Option<LevelAssignmentBoxModel>,
}

impl View for MovieExtendsBox {
    type V = MovieExtendsBoxModel;

    open spec fn view(&self) -> MovieExtendsBoxModel {
        MovieExtendsBoxModel {
            mehd: self.mehd,
            trex: views(self.trex@),
            leva: opt_model::<LevelAssignmentBox>(self.leva),
        }
    }
}

/// The failure of reading a box found in a movie extends box: that of a header,
/// track extends or level assignment box; other boxes are skipped.
pub open spec fn mvex_fault(c: UnknownBoxModel) -> Option<IsoError> {
    if is_child::<MovieExtendsHeaderBox>(c) {
        child_fault::<MovieExtendsHeaderBox>(c)
    } else if is_child::<TrackExtendsBox>(c) {
        child_fault::<TrackExtendsBox>(c)
    } else if is_child::<LevelAssignmentBox>(c) {
        child_fault::<LevelAssignmentBox>(c)
    } else {
        None
    }
}

/// What a movie extends box reads from its payload: the boxes before the first that
/// fails; of the optional boxes, the last one found.
pub open spec fn mvex_parse(s: Seq<u8>) -> Result<MovieExtendsBoxModel, IsoError> {
    let cs = spec_children(s);
    match scan_result(cs, |c: UnknownBoxModel| mvex_fault(c)) {
        Err(e) => Err(e),
        Ok(k) => {
            let p = cs.take(k as int);
            Ok(
                MovieExtendsBoxModel {
                    mehd: last_child::<MovieExtendsHeaderBox>(p),
                    trex: collect_children::<TrackExtendsBox>(p),
                    leva: last_child::<LevelAssignmentBox>(p),
                },
            )
        },
    }
}

impl IsoSized for MovieExtendsBox {
    open spec fn spec_size(&self) -> nat {
        add_header_size(
            opt_box_size::<MovieExtendsHeaderBox>(self.mehd) + boxes_size::<TrackExtendsBox>(self.trex@)
                + opt_box_size::<LevelAssignmentBox>(self.leva),
        )
    }

    fn size(&self) -> (n: usize) {
        let a = size_option(&self.mehd);
        let b = size_children(&self.trex);
        let c = size_option(&self.leva);
        add_header_size_exec(a + b + c)
    }
}

impl BoxBody for MovieExtendsBox {
    open spec fn spec_box_type() -> [u8; 4] {
        [0x6du8, 0x76u8, 0x65u8, 0x78u8]
    }

    fn box_type() -> (r: [u8; 4]) {
        [0x6du8, 0x76u8, 0x65u8, 0x78u8]
    }

    open spec fn spec_parse_body(s: Seq<u8>) -> Result<MovieExtendsBoxModel, IsoError> {
        mvex_parse(s)
    }

    open spec fn spec_writable(v: MovieExtendsBoxModel) -> bool {
        option_writable::<LevelAssignmentBox>(v.leva)
    }

    open spec fn spec_serialize_body(v: MovieExtendsBoxModel) -> Seq<u8> {
        option_bytes::<MovieExtendsHeaderBox>(v.mehd) + children_bytes::<TrackExtendsBox>(v.trex)
            + option_bytes::<LevelAssignmentBox>(v.leva)
    }

    /// Every contained box reads back as itself and reports a size that fits.
    open spec fn spec_canonical(v: MovieExtendsBoxModel) -> bool {
        &&& option_ok::<MovieExtendsHeaderBox>(v.mehd)
        &&& children_ok::<TrackExtendsBox>(v.trex)
        &&& option_ok::<LevelAssignmentBox>(v.leva)
    }

    proof fn lemma_box_type() {
        assert(Self::spec_box_type()[1] != spec_uuid_fourcc()[1]);
    }

    proof fn lemma_body_size(x: MovieExtendsBox) {
        let v = x@;
        lemma_opt_box_size::<MovieExtendsHeaderBox>(x.mehd);
        lemma_boxes_size::<TrackExtendsBox>(x.trex@);
        lemma_opt_box_size::<LevelAssignmentBox>(x.leva);
        lemma_option_seq::<MovieExtendsHeaderBox>(v.mehd, Seq::empty());
        lemma_children_seq::<TrackExtendsBox>(v.trex, Seq::empty());
        lemma_option_seq::<LevelAssignmentBox>(v.leva, Seq::empty());
        assert(views(x.trex@) =~= x.trex@);
        assert(option_bytes::<MovieExtendsHeaderBox>(v.mehd) + Seq::<u8>::empty() =~= option_bytes::<
            MovieExtendsHeaderBox,
        >(v.mehd));
        assert(children_bytes::<TrackExtendsBox>(v.trex) + Seq::<u8>::empty() =~= children_bytes::<
            TrackExtendsBox,
        >(v.trex));
        assert(option_bytes::<LevelAssignmentBox>(v.leva) + Seq::<u8>::empty() =~= option_bytes::<
            LevelAssignmentBox,
        >(v.leva));
    }

    proof fn lemma_body_roundtrip(v: MovieExtendsBoxModel) {
        lemma_mvex_roundtrip(v);
    }

    fn parse_body(payload: &[u8]) -> (r: Result<MovieExtendsBox, IsoError>) {
        parse_mvex(payload)
    }

    fn serialize_body(&self, out: &mut Vec<u8>) -> (r: Result<(), IsoError>) {
        let ghost before = out@;
        let _ = write_option(&self.mehd, out);
        let ghost mid1 = out@;
        proof {
            assert(views(self.trex@) =~= self.trex@);
        }
        let _ = write_children(&self.trex, out);
        let ghost mid2 = out@;
        let r = write_option(&self.leva, out);
        if r.is_err() {
            proof {
                lemma_prefix_trans(before, mid1, mid2);
                lemma_prefix_trans(before, mid2, out@);
            }
            return Err(IsoError::InvalidData);
        }
        proof {
            lemma_prefix_trans(before, mid1, mid2);
            lemma_prefix_trans(before, mid2, out@);
            assert(out@ =~= before + Self::spec_serialize_body(self@));
        }
        Ok(())
    }
}

/// Reads the payload of a movie extends box.
#[verifier::spinoff_prover]
#[verifier::rlimit(100)]
fn parse_mvex(payload: &[u8]) -> (r: Result<MovieExtendsBox, IsoError>)
    ensures
        match (mvex_parse(payload@), r) {
            (Ok(v), Ok(x)) => x@ == v,
            (Err(e), Err(f)) => e == f,
            _ => false,
        },
{
    let cs = read_children(payload);
    let ghost css = spec_children(payload@);
    let ghost fault = |c: UnknownBoxModel| mvex_fault(c);
    let mut mehd: Option<MovieExtendsHeaderBox> = None;
    let mut trex: Vec<TrackExtendsBox> = Vec::new();
    let mut leva: Option<LevelAssignmentBox> = None;
    let mut i: usize = 0;
    let mut stop = false;
    proof {
        assert(css.take(0) =~= Seq::<UnknownBoxModel>::empty());
        assert(views(trex@) =~= Seq::<TrackExtendsBox>::empty());
        assert(MovieExtendsHeaderBox::spec_box_type()[0] != TrackExtendsBox::spec_box_type()[0]);
        assert(MovieExtendsHeaderBox::spec_box_type()[0] != LevelAssignmentBox::spec_box_type()[0]);
        assert(TrackExtendsBox::spec_box_type()[0] != LevelAssignmentBox::spec_box_type()[0]);
    }
    while i < cs.len() && !stop
        invariant
            views(cs@) == css,
            css == spec_children(payload@),
            fault == (|c: UnknownBoxModel| mvex_fault(c)),
            MovieExtendsHeaderBox::spec_box_type() != TrackExtendsBox::spec_box_type(),
            MovieExtendsHeaderBox::spec_box_type() != LevelAssignmentBox::spec_box_type(),
            TrackExtendsBox::spec_box_type() != LevelAssignmentBox::spec_box_type(),
            i <= cs@.len(),
            forall|j: int| 0 <= j < i ==> (#[trigger] fault(css[j])) is None,
            stop ==> i < css.len() && fault(css[i as int]) == Some(IsoError::UnexpectedEof),
            opt_model(mehd) == last_child::<MovieExtendsHeaderBox>(css.take(i as int)),
            views(trex@) == collect_children::<TrackExtendsBox>(css.take(i as int)),
            opt_model(leva) == last_child::<LevelAssignmentBox>(css.take(i as int)),
        decreases cs@.len() - i + (if stop { 0int } else { 1int }),
    {
        let c = &cs[i];
        proof {
            assert(c@ == css[i as int]);
            lemma_collect_step::<MovieExtendsHeaderBox>(css, i as int);
            lemma_collect_step::<TrackExtendsBox>(css, i as int);
            lemma_collect_step::<LevelAssignmentBox>(css, i as int);
        }
        if is_child_exec::<MovieExtendsHeaderBox>(c) {
            proof {
                lemma_child_other::<TrackExtendsBox>(c@);
                lemma_child_other::<LevelAssignmentBox>(c@);
                lemma_child_read::<MovieExtendsHeaderBox>(c@);
            }
            match replace_into(c, &mut mehd) {
                Ok(()) => {
                    i = i + 1;
                },
                Err(IsoError::UnexpectedEof) => {
                    stop = true;
                },
                Err(e) => {
                    proof {
                        lemma_first_fault(css, fault, i as int);
                    }
                    return Err(e);
                },
            }
        } else if is_child_exec::<TrackExtendsBox>(c) {
            proof {
                lemma_child_other::<MovieExtendsHeaderBox>(c@);
                lemma_child_other::<LevelAssignmentBox>(c@);
                lemma_child_read::<TrackExtendsBox>(c@);
            }
            let ghost old_trex = views(trex@);
            match collect_into(c, &mut trex) {
                Ok(()) => {
                    proof {
                        assert(views(trex@) =~= old_trex + seq![child_value::<TrackExtendsBox>(c@)->0]);
                    }
                    i = i + 1;
                },
                Err(IsoError::UnexpectedEof) => {
                    stop = true;
                },
                Err(e) => {
                    proof {
                        lemma_first_fault(css, fault, i as int);
                    }
                    return Err(e);
                },
            }
        } else if is_child_exec::<LevelAssignmentBox>(c) {
            proof {
                lemma_child_other::<MovieExtendsHeaderBox>(c@);
                lemma_child_other::<TrackExtendsBox>(c@);
                lemma_child_read::<LevelAssignmentBox>(c@);
            }
            match replace_into(c, &mut leva) {
                Ok(()) => {
                    i = i + 1;
                },
                Err(IsoError::UnexpectedEof) => {
                    stop = true;
                },
                Err(e) => {
                    proof {
                        lemma_first_fault(css, fault, i as int);
                    }
                    return Err(e);
                },
            }
        } else {
            proof {
                lemma_child_other::<MovieExtendsHeaderBox>(c@);
                lemma_child_other::<TrackExtendsBox>(c@);
                lemma_child_other::<LevelAssignmentBox>(c@);
            }
            i = i + 1;
        }
    }
    proof {
        lemma_first_fault(css, fault, i as int);
        assert(first_fault(css, fault) == i);
    }
    Ok(MovieExtendsBox { mehd, trex, leva })
}

/// Writing a movie extends box and reading its payload back gives it again.
#[verifier::spinoff_prover]
#[verifier::rlimit(100)]
proof fn lemma_mvex_roundtrip(v: MovieExtendsBoxModel)
    requires
        MovieExtendsBox::spec_writable(v),
        MovieExtendsBox::spec_canonical(v),
    ensures
        mvex_parse(MovieExtendsBox::spec_serialize_body(v)) == Ok::<MovieExtendsBoxModel, IsoError>(v),
{
    let b1 = option_bytes::<MovieExtendsHeaderBox>(v.mehd);
    let b2 = children_bytes::<TrackExtendsBox>(v.trex);
    let b3 = option_bytes::<LevelAssignmentBox>(v.leva);
    let s = MovieExtendsBox::spec_serialize_body(v);
    assert(s =~= b1 + (b2 + (b3 + Seq::<u8>::empty())));
    let m1 = option_models::<MovieExtendsHeaderBox>(v.mehd);
    let m2 = children_models::<TrackExtendsBox>(v.trex);
    let m3 = option_models::<LevelAssignmentBox>(v.leva);
    lemma_children_empty();
    lemma_option_seq::<LevelAssignmentBox>(v.leva, Seq::empty());
    lemma_children_seq::<TrackExtendsBox>(v.trex, b3 + Seq::<u8>::empty());
    lemma_option_seq::<MovieExtendsHeaderBox>(v.mehd, b2 + (b3 + Seq::<u8>::empty()));
    let cs = spec_children(s);
    assert(cs =~= m1 + m2 + m3);
    let fault = |c: UnknownBoxModel| mvex_fault(c);
    assert(MovieExtendsHeaderBox::spec_box_type()[0] != TrackExtendsBox::spec_box_type()[0]);
    assert(MovieExtendsHeaderBox::spec_box_type()[0] != LevelAssignmentBox::spec_box_type()[0]);
    assert(TrackExtendsBox::spec_box_type()[0] != LevelAssignmentBox::spec_box_type()[0]);
    assert forall|j: int| 0 <= j < cs.len() implies (#[trigger] fault(cs[j])) is None by {
        if j < m1.len() {
            let x = v.mehd->0;
            lemma_child_cons::<MovieExtendsHeaderBox>(x, Seq::empty());
            assert(cs[j] == child_model::<MovieExtendsHeaderBox>(x));
        } else if j < m1.len() + m2.len() {
            let x = v.trex[j - m1.len()];
            assert(child_ok::<TrackExtendsBox>(x));
            lemma_child_cons::<TrackExtendsBox>(x, Seq::empty());
            assert(cs[j] == child_model::<TrackExtendsBox>(x));
            assert(!is_child::<MovieExtendsHeaderBox>(cs[j]));
        } else {
            let x = v.leva->0;
            lemma_child_cons::<LevelAssignmentBox>(x, Seq::empty());
            assert(cs[j] == child_model::<LevelAssignmentBox>(x));
            assert(!is_child::<MovieExtendsHeaderBox>(cs[j]));
            assert(!is_child::<TrackExtendsBox>(cs[j]));
        }
    }
    lemma_first_fault(cs, fault, cs.len() as int);
    assert(cs.take(cs.len() as int) =~= cs);
    lemma_collect_add::<MovieExtendsHeaderBox>(m1 + m2, m3);
    lemma_collect_add::<MovieExtendsHeaderBox>(m1, m2);
    lemma_collect_add::<TrackExtendsBox>(m1 + m2, m3);
    lemma_collect_add::<TrackExtendsBox>(m1, m2);
    lemma_collect_add::<LevelAssignmentBox>(m1 + m2, m3);
    lemma_collect_add::<LevelAssignmentBox>(m1, m2);
    lemma_option_own::<MovieExtendsHeaderBox>(v.mehd);
    lemma_option_other::<TrackExtendsBox, MovieExtendsHeaderBox>(v.mehd);
    lemma_option_other::<LevelAssignmentBox, MovieExtendsHeaderBox>(v.mehd);
    lemma_collect_own::<TrackExtendsBox>(v.trex);
    lemma_collect_other::<MovieExtendsHeaderBox, TrackExtendsBox>(v.trex);
    lemma_collect_other::<LevelAssignmentBox, TrackExtendsBox>(v.trex);
    lemma_option_own::<LevelAssignmentBox>(v.leva);
    lemma_option_other::<MovieExtendsHeaderBox, LevelAssignmentBox>(v.leva);
    lemma_option_other::<TrackExtendsBox, LevelAssignmentBox>(v.leva);
    assert(collect_children::<TrackExtendsBox>(cs) =~= v.trex);
    assert(collect_children::<MovieExtendsHeaderBox>(cs) =~= match v.mehd {
        Some(x) => seq![x],
        None => Seq::<MovieExtendsHeaderBox>::empty(),
    });
    assert(collect_children::<LevelAssignmentBox>(cs) =~= match v.leva {
        Some(x) => seq![x],
        None => Seq::<LevelAssignmentBoxModel>::empty(),
    });
}

} // verus!
