//! The edit box, which holds the edit list of a track.

use vstd::prelude::*;

use crate::boxes::track_time::{EditListBox, EditListBoxEntry, EditListBoxModel};
use crate::children::{
    child_model, child_ok, is_child_exec, last_child, lemma_child_cons, lemma_child_other, lemma_child_read,
    lemma_children_empty, lemma_collect_step, lemma_first_fault, lemma_opt_box_size, lemma_option_own,
    lemma_option_seq, opt_box_size, opt_model, option_bytes, option_models, option_ok, option_writable,
    read_children, replace_into, scan_result, size_option, spec_children, write_option, child_fault, ChildBox,
};
use crate::codec::IsoError;
use crate::frame::{add_header_size, add_header_size_exec, BoxBody, UnknownBoxModel};
use crate::header::spec_uuid_fourcc;
use crate::versioned::{lemma_size_seq_v, size_seq_v};
use crate::wire::{views, IsoSized};

verus! {

impl ChildBox for EditListBox {
    open spec fn spec_box_size(v: EditListBoxModel) -> nat {
        add_header_size(8 + size_seq_v::<EditListBoxEntry>(v.entries, v.full_header.version))
    }

    proof fn lemma_box_size(x: EditListBox) {
    }

    proof fn lemma_box_size_canonical(v: EditListBoxModel) {
        lemma_size_seq_v::<EditListBoxEntry>(v.entries, v.full_header.version);
    }
}

/// Edit box
///
/// `edts`
///
/// ISO/IEC 14496-12 - 8.6.5
#[derive(Debug, PartialEq, Eq)]
pub struct EditBox {
    /// The contained [`EditListBox`]. (optional)
    pub elst: Option<EditListBox>,
}

/// The model of an [`EditBox`].
pub struct EditBoxModel {
    pub elst: Option<EditListBoxModel>,
}

impl View for EditBox {
    type V = EditBoxModel;

    open spec fn view(&self) -> EditBoxModel {
        EditBoxModel { elst: opt_model::<EditListBox>(self.elst) }
    }
}

/// The failure of reading a box found in an edit box: that of an edit list; other
/// boxes are skipped.
pub open spec fn edts_fault(c: UnknownBoxModel) -> Option<IsoError> {
    child_fault::<EditListBox>(c)
}

/// What an edit box reads from its payload: the last edit list before the first box
/// that fails.
pub open spec fn edts_parse(s: Seq<u8>) -> Result<EditBoxModel, IsoError> {
    let cs = spec_children(s);
    match scan_result(cs, |c: UnknownBoxModel| edts_fault(c)) {
        Err(e) => Err(e),
        Ok(k) => Ok(EditBoxModel { elst: last_child::<EditListBox>(cs.take(k as int)) }),
    }
}

impl IsoSized for EditBox {
    open spec fn spec_size(&self) -> nat {
        add_header_size(opt_box_size::<EditListBox>(self.elst))
    }

    fn size(&self) -> (n: usize) {
        add_header_size_exec(size_option(&self.elst))
    }
}

impl BoxBody for EditBox {
    open spec fn spec_box_type() -> [u8; 4] {
        [0x65u8, 0x64u8, 0x74u8, 0x73u8]
    }

    fn box_type() -> (r: [u8; 4]) {
        [0x65u8, 0x64u8, 0x74u8, 0x73u8]
    }

    open spec fn spec_parse_body(s: Seq<u8>) -> Result<EditBoxModel, IsoError> {
        edts_parse(s)
    }

    open spec fn spec_writable(v: EditBoxModel) -> bool {
        option_writable::<EditListBox>(v.elst)
    }

    open spec fn spec_serialize_body(v: EditBoxModel) -> Seq<u8> {
        option_bytes::<EditListBox>(v.elst)
    }

    /// The edit list reads back as itself and reports a size that fits.
    open spec fn spec_canonical(v: EditBoxModel) -> bool {
        option_ok::<EditListBox>(v.elst)
    }

    proof fn lemma_box_type() {
        assert(Self::spec_box_type()[1] != spec_uuid_fourcc()[1]);
    }

    proof fn lemma_body_size(x: EditBox) {
        lemma_opt_box_size::<EditListBox>(x.elst);
        lemma_option_seq::<EditListBox>(x@.elst, Seq::empty());
        assert(option_bytes::<EditListBox>(x@.elst) + Seq::<u8>::empty() =~= option_bytes::<EditListBox>(x@.elst));
    }

    proof fn lemma_body_roundtrip(v: EditBoxModel) {
        let s = option_bytes::<EditListBox>(v.elst);
        lemma_option_seq::<EditListBox>(v.elst, Seq::empty());
        lemma_children_empty();
        assert(s + Seq::<u8>::empty() =~= s);
        let cs = spec_children(s);
        assert(cs =~= option_models::<EditListBox>(v.elst));
        let fault = |c: UnknownBoxModel| edts_fault(c);
        if let Some(x) = v.elst {
            lemma_child_cons::<EditListBox>(x, Seq::empty());
            assert(cs[0] == child_model::<EditListBox>(x));
        }
        assert forall|j: int| 0 <= j < cs.len() implies (#[trigger] fault(cs[j])) is None by {}
        lemma_first_fault(cs, fault, cs.len() as int);
        assert(cs.take(cs.len() as int) =~= cs);
        lemma_option_own::<EditListBox>(v.elst);
    }

    fn parse_body(payload: &[u8]) -> (r: Result<EditBox, IsoError>) {
        parse_edts(payload)
    }

    fn serialize_body(&self, out: &mut Vec<u8>) -> (r: Result<(), IsoError>) {
        write_option(&self.elst, out)
    }
}

/// Reads the payload of an edit box.
#[verifier::spinoff_prover]
#[verifier::rlimit(60)]
fn parse_edts(payload: &[u8]) -> (r: Result<EditBox, IsoError>)
    ensures
        match (edts_parse(payload@), r) {
            (Ok(v), Ok(x)) => x@ == v,
            (Err(e), Err(f)) => e == f,
            _ => false,
        },
{
    let cs = read_children(payload);
    let ghost css = spec_children(payload@);
    let ghost fault = |c: UnknownBoxModel| edts_fault(c);
    let mut elst: Option<EditListBox> = None;
    let mut i: usize = 0;
    let mut stop = false;
    proof {
        assert(css.take(0) =~= Seq::<UnknownBoxModel>::empty());
    }
    while i < cs.len() && !stop
        invariant
            views(cs@) == css,
            css == spec_children(payload@),
            fault == (|c: UnknownBoxModel| edts_fault(c)),
            i <= cs@.len(),
            forall|j: int| 0 <= j < i ==> (#[trigger] fault(css[j])) is None,
            stop ==> i < css.len() && fault(css[i as int]) == Some(IsoError::UnexpectedEof),
            opt_model(elst) == last_child::<EditListBox>(css.take(i as int)),
        decreases cs@.len() - i + (if stop { 0int } else { 1int }),
    {
        let c = &cs[i];
        proof {
            assert(c@ == css[i as int]);
            lemma_collect_step::<EditListBox>(css, i as int);
        }
        if is_child_exec::<EditListBox>(c) {
            proof {
                lemma_child_read::<EditListBox>(c@);
            }
            match replace_into(c, &mut elst) {
                Ok(()) => {
                    i = i + 1;
                },
                Err(IsoError::UnexpectedEof) => {
                    stop = true;
                },
                Err(e) => {
                    proof {
                        lemma_first_fault(css, fault, i as int);
                    }
                    return Err(e);
                },
            }
        } else {
            proof {
                lemma_child_other::<EditListBox>(c@);
            }
            i = i + 1;
        }
    }
    proof {
        lemma_first_fault(css, fault, i as int);
    }
    Ok(EditBox { elst })
}

} // verus!
