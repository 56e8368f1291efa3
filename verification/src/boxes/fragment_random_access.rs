//! The movie fragment random access box and the boxes that it holds.

use vstd::prelude::*;

use crate::boxes::movie_fragments::{
    lemma_tfra_entries_size, lemma_tfra_layout, tfra_box_layout, tfra_entry_len, tfra_entry_size,
    MovieFragmentRandomAccessOffsetBox, TrackFragmentRandomAccessBox, TrackFragmentRandomAccessBoxEntry,
    TrackFragmentRandomAccessBoxModel,
};
use crate::children::{
    boxes_size, child_bytes, child_fault, child_model, child_ok, children_bytes, children_models,
    children_ok, children_size, children_writable, child_value, collect_children, collect_into, first_fault,
    is_child, is_child_exec, last_child, lemma_boxes_size, lemma_child_cons, lemma_children_empty,
    lemma_children_seq, lemma_collect_add, lemma_collect_other, lemma_collect_own, lemma_collect_step,
    lemma_child_other, lemma_child_read, lemma_first_fault, lemma_option_other, lemma_option_own, opt_model, option_models, read_children,
    replace_into, scan_result, size_children, spec_children, write_child, write_children, ChildBox,
};
use crate::codec::{lemma_append_prefix, lemma_prefix_trans, IsoError};
use crate::frame::{add_header_size, add_header_size_exec, BoxBody, UnknownBoxModel};
use crate::header::spec_uuid_fourcc;
use crate::versioned::lemma_size_seq_v;
use crate::wire::{views, write_matches, IsoSized};

verus! {

impl ChildBox for MovieFragmentRandomAccessOffsetBox {
    open spec fn spec_box_size(v: MovieFragmentRandomAccessOffsetBox) -> nat {
        add_header_size(8)
    }

    proof fn lemma_box_size(x: MovieFragmentRandomAccessOffsetBox) {
    }

    proof fn lemma_box_size_canonical(v: MovieFragmentRandomAccessOffsetBox) {
        Self::lemma_body_size(v);
    }
}

impl ChildBox for TrackFragmentRandomAccessBox {
    open spec fn spec_box_size(v: TrackFragmentRandomAccessBoxModel) -> nat {
        add_header_size(
            16 + v.entries.len() * tfra_entry_size(
                v.full_header.version,
                v.length_size_of_traf_num,
                v.length_size_of_trun_num,
                v.length_size_of_sample_num,
            ),
        )
    }

    proof fn lemma_box_size(x: TrackFragmentRandomAccessBox) {
        assert(views(x.entries@).len() == x.entries@.len());
    }

    proof fn lemma_box_size_canonical(v: TrackFragmentRandomAccessBoxModel) {
        let layout = tfra_box_layout(v);
        lemma_size_seq_v::<TrackFragmentRandomAccessBoxEntry>(v.entries, layout);
        lemma_tfra_entries_size(v.entries, layout);
        lemma_tfra_layout(
            v.full_header.version,
            v.length_size_of_traf_num,
            v.length_size_of_trun_num,
            v.length_size_of_sample_num,
        );
        assert(tfra_entry_len(layout) == tfra_entry_size(
            v.full_header.version,
            v.length_size_of_traf_num,
            v.length_size_of_trun_num,
            v.length_size_of_sample_num,
        ));
    }
}

/// Movie fragment random access box
///
/// `mfra`
///
/// ISO/IEC 14496-12 - 8.8.9
#[derive(Debug, PartialEq, Eq)]
pub struct MovieFragmentRandomAccessBox {
    /// The contained [`TrackFragmentRandomAccessBox`]es. (zero or one per track)
    pub tfra: Vec<TrackFragmentRandomAccessBox>,
    /// The contained [`MovieFragmentRandomAccessOffsetBox`]. (mandatory)
    pub mfro: MovieFragmentRandomAccessOffsetBox,
}

/// The model of a [`MovieFragmentRandomAccessBox`].
pub struct MovieFragmentRandomAccessBoxModel {
    pub tfra: Seq<TrackFragmentRandomAccessBoxModel>,
    pub mfro: MovieFragmentRandomAccessOffsetBox,
}

impl View for MovieFragmentRandomAccessBox {
    type V = MovieFragmentRandomAccessBoxModel;

    open spec fn view(&self) -> MovieFragmentRandomAccessBoxModel {
        MovieFragmentRandomAccessBoxModel { tfra: views(self.tfra@), mfro: self.mfro }
    }
}

/// The failure of reading a box found in a random access box: that of a track
/// fragment random access box or of an offset box; other boxes are skipped.
pub open spec fn mfra_fault(c: UnknownBoxModel) -> Option<IsoError> {
    if is_child::<TrackFragmentRandomAccessBox>(c) {
        child_fault::<TrackFragmentRandomAccessBox>(c)
    } else if is_child::<MovieFragmentRandomAccessOffsetBox>(c) {
        child_fault::<MovieFragmentRandomAccessOffsetBox>(c)
    } else {
        None
    }
}

/// What a random access box reads from its payload: the boxes before the first that
/// fails; the offset box is the last one found and must be there.
pub open spec fn mfra_parse(s: Seq<u8>) -> Result<MovieFragmentRandomAccessBoxModel, IsoError> {
    let cs = spec_children(s);
    match scan_result(cs, |c: UnknownBoxModel| mfra_fault(c)) {
        Err(e) => Err(e),
        Ok(k) => {
            let p = cs.take(k as int);
            match last_child::<MovieFragmentRandomAccessOffsetBox>(p) {
                Some(m) => Ok(
                    MovieFragmentRandomAccessBoxModel {
                        tfra: collect_children::<TrackFragmentRandomAccessBox>(p),
                        mfro: m,
                    },
                ),
                None => Err(IsoError::InvalidData),
            }
        },
    }
}

impl IsoSized for MovieFragmentRandomAccessBox {
    open spec fn spec_size(&self) -> nat {
        add_header_size(boxes_size::<TrackFragmentRandomAccessBox>(self.tfra@) + self.mfro.spec_size())
    }

    fn size(&self) -> (n: usize) {
        let t = size_children(&self.tfra);
        add_header_size_exec(t + self.mfro.size())
    }
}

impl BoxBody for MovieFragmentRandomAccessBox {
    open spec fn spec_box_type() -> [u8; 4] {
        [0x6du8, 0x66u8, 0x72u8, 0x61u8]
    }

    fn box_type() -> (r: [u8; 4]) {
        [0x6du8, 0x66u8, 0x72u8, 0x61u8]
    }

    open spec fn spec_parse_body(s: Seq<u8>) -> Result<MovieFragmentRandomAccessBoxModel, IsoError> {
        mfra_parse(s)
    }

    open spec fn spec_writable(v: MovieFragmentRandomAccessBoxModel) -> bool {
        children_writable::<TrackFragmentRandomAccessBox>(v.tfra)
    }

    open spec fn spec_serialize_body(v: MovieFragmentRandomAccessBoxModel) -> Seq<u8> {
        children_bytes::<TrackFragmentRandomAccessBox>(v.tfra) + child_bytes::<
            MovieFragmentRandomAccessOffsetBox,
        >(v.mfro)
    }

    /// Every contained box reads back as itself and reports a size that fits.
    open spec fn spec_canonical(v: MovieFragmentRandomAccessBoxModel) -> bool {
        children_ok::<TrackFragmentRandomAccessBox>(v.tfra) && child_ok::<
            MovieFragmentRandomAccessOffsetBox,
        >(v.mfro)
    }

    proof fn lemma_box_type() {
        assert(Self::spec_box_type()[0] != spec_uuid_fourcc()[0]);
    }

    proof fn lemma_body_size(x: MovieFragmentRandomAccessBox) {
        let v = x@;
        lemma_boxes_size::<TrackFragmentRandomAccessBox>(x.tfra@);
        lemma_children_seq::<TrackFragmentRandomAccessBox>(v.tfra, Seq::empty());
        lemma_child_cons::<MovieFragmentRandomAccessOffsetBox>(v.mfro, Seq::empty());
        assert(children_bytes::<TrackFragmentRandomAccessBox>(v.tfra) + Seq::<u8>::empty()
            =~= children_bytes::<TrackFragmentRandomAccessBox>(v.tfra));
    }

    #[verifier::rlimit(40)]
    proof fn lemma_body_roundtrip(v: MovieFragmentRandomAccessBoxModel) {
        lemma_mfra_roundtrip(v);
    }

    fn parse_body(payload: &[u8]) -> (r: Result<MovieFragmentRandomAccessBox, IsoError>) {
        parse_mfra(payload)
    }

    fn serialize_body(&self, out: &mut Vec<u8>) -> (r: Result<(), IsoError>) {
        let ghost before = out@;
        proof {
            lemma_boxes_size::<TrackFragmentRandomAccessBox>(self.tfra@);
        }
        let r = write_children(&self.tfra, out);
        if r.is_err() {
            return Err(IsoError::InvalidData);
        }
        let ghost mid = out@;
        let _ = write_child(&self.mfro, out);
        proof {
            lemma_append_prefix(before, children_bytes::<TrackFragmentRandomAccessBox>(self@.tfra));
            lemma_prefix_trans(before, mid, out@);
            assert(out@ =~= before + Self::spec_serialize_body(self@));
        }
        Ok(())
    }
}

/// Reads the payload of a random access box.
#[verifier::spinoff_prover]
#[verifier::rlimit(100)]
fn parse_mfra(payload: &[u8]) -> (r: Result<MovieFragmentRandomAccessBox, IsoError>)
    ensures
        match (mfra_parse(payload@), r) {
            (Ok(v), Ok(x)) => x@ == v,
            (Err(e), Err(f)) => e == f,
            _ => false,
        },
{
    let cs = read_children(payload);
    let ghost css = spec_children(payload@);
    let ghost fault = |c: UnknownBoxModel| mfra_fault(c);
    let mut tfra: Vec<TrackFragmentRandomAccessBox> = Vec::new();
    let mut mfro: Option<MovieFragmentRandomAccessOffsetBox> = None;
    let mut i: usize = 0;
    let mut stop = false;
    proof {
        assert(css.take(0) =~= Seq::<UnknownBoxModel>::empty());
        assert(views(tfra@) =~= Seq::<TrackFragmentRandomAccessBoxModel>::empty());
    }
    while i < cs.len() && !stop
        invariant
            views(cs@) == css,
            css == spec_children(payload@),
            fault == (|c: UnknownBoxModel| mfra_fault(c)),
            i <= cs@.len(),
            forall|j: int| 0 <= j < i ==> (#[trigger] fault(css[j])) is None,
            stop ==> i < css.len() && fault(css[i as int]) == Some(IsoError::UnexpectedEof),
            views(tfra@) == collect_children::<TrackFragmentRandomAccessBox>(css.take(i as int)),
            opt_model(mfro) == last_child::<MovieFragmentRandomAccessOffsetBox>(css.take(i as int)),
        decreases cs@.len() - i + (if stop { 0int } else { 1int }),
    {
        let c = &cs[i];
        proof {
            assert(c@ == css[i as int]);
            lemma_collect_step::<TrackFragmentRandomAccessBox>(css, i as int);
            lemma_collect_step::<MovieFragmentRandomAccessOffsetBox>(css, i as int);
        }
        if is_child_exec::<TrackFragmentRandomAccessBox>(c) {
            proof {
                assert(TrackFragmentRandomAccessBox::spec_box_type()[0]
                    != MovieFragmentRandomAccessOffsetBox::spec_box_type()[0]);
                assert(!is_child::<MovieFragmentRandomAccessOffsetBox>(c@));
                lemma_child_other::<MovieFragmentRandomAccessOffsetBox>(c@);
                lemma_child_read::<TrackFragmentRandomAccessBox>(c@);
            }
            let ghost old_tfra = views(tfra@);
            match collect_into(c, &mut tfra) {
                Ok(()) => {
                    proof {
                        assert(views(tfra@) =~= old_tfra + seq![child_value::<TrackFragmentRandomAccessBox>(c@)->0]);
                    }
                    i = i + 1;
                },
                Err(IsoError::UnexpectedEof) => {
                    stop = true;
                },
                Err(e) => {
                    proof {
                        lemma_first_fault(css, fault, i as int);
                    }
                    return Err(e);
                },
            }
        } else if is_child_exec::<MovieFragmentRandomAccessOffsetBox>(c) {
            proof {
                lemma_child_other::<TrackFragmentRandomAccessBox>(c@);
                lemma_child_read::<MovieFragmentRandomAccessOffsetBox>(c@);
            }
            match replace_into(c, &mut mfro) {
                Ok(()) => {
                    i = i + 1;
                },
                Err(IsoError::UnexpectedEof) => {
                    stop = true;
                },
                Err(e) => {
                    proof {
                        lemma_first_fault(css, fault, i as int);
                    }
                    return Err(e);
                },
            }
        } else {
            proof {
                lemma_child_other::<TrackFragmentRandomAccessBox>(c@);
                lemma_child_other::<MovieFragmentRandomAccessOffsetBox>(c@);
            }
            i = i + 1;
        }
    }
    proof {
        lemma_first_fault(css, fault, i as int);
        assert(first_fault(css, fault) == i);
    }
    match mfro {
        Some(m) => Ok(MovieFragmentRandomAccessBox { tfra, mfro: m }),
        None => Err(IsoError::InvalidData),
    }
}

/// Writing a random access box and reading its payload back gives it again.
#[verifier::spinoff_prover]
#[verifier::rlimit(100)]
proof fn lemma_mfra_roundtrip(v: MovieFragmentRandomAccessBoxModel)
    requires
        MovieFragmentRandomAccessBox::spec_writable(v),
        MovieFragmentRandomAccessBox::spec_canonical(v),
    ensures
        mfra_parse(MovieFragmentRandomAccessBox::spec_serialize_body(v)) == Ok::<
            MovieFragmentRandomAccessBoxModel,
            IsoError,
        >(v),
{
    let s = MovieFragmentRandomAccessBox::spec_serialize_body(v);
    let tail = child_bytes::<MovieFragmentRandomAccessOffsetBox>(v.mfro);
    let ms = children_models::<TrackFragmentRandomAccessBox>(v.tfra);
    let last = option_models::<MovieFragmentRandomAccessOffsetBox>(Some(v.mfro));
    lemma_children_seq::<TrackFragmentRandomAccessBox>(v.tfra, tail);
    lemma_child_cons::<MovieFragmentRandomAccessOffsetBox>(v.mfro, Seq::empty());
    lemma_children_empty();
    assert(tail + Seq::<u8>::empty() =~= tail);
    let cs = spec_children(s);
    assert(cs =~= ms + last);
    let fault = |c: UnknownBoxModel| mfra_fault(c);
    assert(TrackFragmentRandomAccessBox::spec_box_type()[0]
        != MovieFragmentRandomAccessOffsetBox::spec_box_type()[0]);
    assert forall|j: int| 0 <= j < cs.len() implies (#[trigger] fault(cs[j])) is None by {
        if j < ms.len() {
            assert(child_ok::<TrackFragmentRandomAccessBox>(v.tfra[j]));
            lemma_child_cons::<TrackFragmentRandomAccessBox>(v.tfra[j], Seq::empty());
            assert(cs[j] == child_model::<TrackFragmentRandomAccessBox>(v.tfra[j]));
        } else {
            assert(cs[j] == child_model::<MovieFragmentRandomAccessOffsetBox>(v.mfro));
            assert(!is_child::<TrackFragmentRandomAccessBox>(cs[j]));
        }
    }
    lemma_first_fault(cs, fault, cs.len() as int);
    assert(cs.take(cs.len() as int) =~= cs);
    lemma_collect_add::<TrackFragmentRandomAccessBox>(ms, last);
    lemma_collect_add::<MovieFragmentRandomAccessOffsetBox>(ms, last);
    lemma_collect_own::<TrackFragmentRandomAccessBox>(v.tfra);
    lemma_collect_other::<MovieFragmentRandomAccessOffsetBox, TrackFragmentRandomAccessBox>(v.tfra);
    lemma_option_own::<MovieFragmentRandomAccessOffsetBox>(Some(v.mfro));
    lemma_option_other::<TrackFragmentRandomAccessBox, MovieFragmentRandomAccessOffsetBox>(Some(v.mfro));
    assert(collect_children::<TrackFragmentRandomAccessBox>(cs) =~= v.tfra);
    assert(collect_children::<MovieFragmentRandomAccessOffsetBox>(cs) =~= seq![v.mfro]);
}

} // verus!
