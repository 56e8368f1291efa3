//! The original file-type box, which keeps the type boxes of a file before it was compressed.

use vstd::prelude::*;

use crate::children::{
    child_fault, child_value, collect_children, collect_into, collect_unknown, first_fault, is_child, is_child_exec,
    last_child, lemma_child_other, lemma_child_read, lemma_collect_add, lemma_collect_none, lemma_collect_step,
    lemma_first_fault, lemma_unknown_add, lemma_unknown_all_known, lemma_unknown_none_known, lemma_unknown_step,
    lemma_unknown_seq, read_children, replace_into, scan_result, spec_children,
};
use crate::codec::{
    be_u16_at, be_u24_at, be_u32_at, lemma_append_prefix, lemma_prefix_trans, lemma_u16_at, lemma_u24_at,
    lemma_u32_at, read_u16_at, read_u24_at, read_u32_at, u16_bytes, u24_bytes, u32_bytes, write_bytes, write_u16,
    write_u24, write_u32, write_u8, IsoError,
};
use crate::frame::{add_header_size, add_header_size_exec, BoxBody, UnknownBox, UnknownBoxModel};
use crate::header::{spec_uuid_fourcc, FullBoxHeader};
use crate::nested::{
    lemma_nested_collect_other, lemma_nested_collect_own, lemma_nested_cons, lemma_nested_opt_other,
    lemma_nested_opt_own, lemma_nested_opt_seq, lemma_nested_opt_size, lemma_nested_seq, lemma_nested_size,
    lemma_nested_sizes, lemma_unknown_seq_rest, nested_all_ok, nested_all_writable, nested_box_bytes, nested_bytes,
    nested_model,
    nested_models, nested_ok, nested_opt_bytes, nested_opt_models, nested_opt_ok, nested_opt_size,
    nested_opt_writable, nested_sizes, nested_writable, opt_seq, opt_view, size_nested_opt, size_nested_vec,
    write_nested, write_nested_opt, write_nested_vec,
};
use crate::wire::{
    lemma_size_seq, lemma_size_seq_mono, ser_seq, serialize_all, size_all, size_seq, views, writable_seq,
    write_matches, IsoSized, Wire,
};
use crate::boxes::file_organization::ExtendedTypeBox;

verus! {

/// Original file-type box
///
/// `otyp`
///
/// ISO/IEC 14496-12 - 8.19.2
#[derive(Debug)]
pub struct OriginalFileTypeBox {
    /// The contained [`ExtendedTypeBox`]. (optional)
    pub etyp: Option<ExtendedTypeBox>,
    /// The boxes of other types, kept as they are.
    pub unknown_boxes: Vec<UnknownBox>,
}

/// The model of a [`OriginalFileTypeBox`].
pub struct OriginalFileTypeBoxModel {
    pub etyp: Option<<ExtendedTypeBox as View>::V>,
    pub unknown_boxes: Seq<UnknownBoxModel>,
}

impl View for OriginalFileTypeBox {
    type V = OriginalFileTypeBoxModel;

    open spec fn view(&self) -> OriginalFileTypeBoxModel {
        OriginalFileTypeBoxModel {
            etyp: opt_view(self.etyp),
            unknown_boxes: views(self.unknown_boxes@),
        }
    }
}

/// Whether a box found in a otyp has one of the types that it reads.
pub open spec fn otyp_known(c: UnknownBoxModel) -> bool {
    is_child::<ExtendedTypeBox>(c)
}

/// The failure of reading a box of a known type found in a otyp.
pub open spec fn otyp_fault(c: UnknownBoxModel) -> Option<IsoError> {
    if is_child::<ExtendedTypeBox>(c) {
        child_fault::<ExtendedTypeBox>(c)
    } else {
        None
    }
}

/// What a otyp reads from its payload: the boxes before the first that fails, each box of a known type in its field (the
/// last one for a single field, which must be there where it is required) and every
/// other box kept as it is.
pub open spec fn otyp_parse(s: Seq<u8>) -> Result<OriginalFileTypeBoxModel, IsoError> {
    let cs = spec_children(s);
    match scan_result(cs, |c: UnknownBoxModel| otyp_fault(c)) {
        Err(e) => Err(e),
        Ok(k) => {
            let p = cs.take(k as int);
            Ok(
                OriginalFileTypeBoxModel {
                    etyp: last_child::<ExtendedTypeBox>(p),
                    unknown_boxes: collect_unknown(p, |c: UnknownBoxModel| otyp_known(c)),
                },
            )
        },
    }
}

/// The bytes of the boxes that a otyp holds, in the order of its fields.
pub open spec fn otyp_children_bytes(v: OriginalFileTypeBoxModel) -> Seq<u8> {
    nested_opt_bytes::<ExtendedTypeBox>(v.etyp)
        + ser_seq::<UnknownBox>(v.unknown_boxes)
}

/// The boxes, as found in a container, that a otyp writes.
pub open spec fn otyp_models(v: OriginalFileTypeBoxModel) -> Seq<UnknownBoxModel> {
    nested_opt_models::<ExtendedTypeBox>(v.etyp)
        + v.unknown_boxes
}

/// The payload that a otyp writes.
pub open spec fn otyp_bytes(v: OriginalFileTypeBoxModel) -> Seq<u8> {
    otyp_children_bytes(v)
}

/// Every box of a known type can be written.
pub open spec fn otyp_writable(v: OriginalFileTypeBoxModel) -> bool {
    &&& nested_opt_writable::<ExtendedTypeBox>(v.etyp)
}

/// Every box of a known type reads back as itself, and every other box is of
/// another type and announces exactly its payload.
pub open spec fn otyp_canonical(v: OriginalFileTypeBoxModel) -> bool {
    &&& nested_opt_ok::<ExtendedTypeBox>(v.etyp)
    &&& forall|i: int|
        0 <= i < v.unknown_boxes.len() ==> UnknownBox::spec_canonical(#[trigger] v.unknown_boxes[i]) && !otyp_known(
            v.unknown_boxes[i],
        )
}

impl IsoSized for OriginalFileTypeBox {
    open spec fn spec_size(&self) -> nat {
        add_header_size(nested_opt_size::<ExtendedTypeBox>(self.etyp) + size_seq::<UnknownBox>(self.unknown_boxes@))
    }

    fn size(&self) -> (n: usize) {
        proof {
            lemma_size_seq_mono::<UnknownBox>(self.unknown_boxes@, 0);
        }
        let mut n: usize = 0;
        n = n + size_nested_opt(&self.etyp);
        n = n + size_all(&self.unknown_boxes);
        add_header_size_exec(n)
    }
}

/// The fields of a otyp read so far.
pub struct OriginalFileTypeBoxScan {
    pub etyp: Option<ExtendedTypeBox>,
    pub unknown_boxes: Vec<UnknownBox>,
}

/// The model of a [`OriginalFileTypeBoxScan`].
pub struct OriginalFileTypeBoxScanModel {
    pub etyp: Option<<ExtendedTypeBox as View>::V>,
    pub unknown_boxes: Seq<UnknownBoxModel>,
}

impl View for OriginalFileTypeBoxScan {
    type V = OriginalFileTypeBoxScanModel;

    open spec fn view(&self) -> OriginalFileTypeBoxScanModel {
        OriginalFileTypeBoxScanModel {
            etyp: opt_view(self.etyp),
            unknown_boxes: views(self.unknown_boxes@),
        }
    }
}

/// What a otyp holds after reading the boxes of `p`.
pub open spec fn otyp_prefix(p: Seq<UnknownBoxModel>) -> OriginalFileTypeBoxScanModel {
    OriginalFileTypeBoxScanModel {
        etyp: last_child::<ExtendedTypeBox>(p),
        unknown_boxes: collect_unknown(p, |c: UnknownBoxModel| otyp_known(c)),
    }
}

/// What a otyp holds after reading one more box that does not fail.
pub open spec fn otyp_extend(m: OriginalFileTypeBoxScanModel, c: UnknownBoxModel) -> OriginalFileTypeBoxScanModel {
    OriginalFileTypeBoxScanModel {
        etyp: match child_value::<ExtendedTypeBox>(c) {
            Some(v) => Some(v),
            None => m.etyp,
        },
        unknown_boxes: if otyp_known(c) {
            m.unknown_boxes
        } else {
            m.unknown_boxes.push(c)
        },
    }
}

/// The types that a otyp reads differ from one another.
pub open spec fn otyp_types_differ() -> bool {
    true
}

proof fn lemma_otyp_types()
    ensures
        otyp_types_differ(),
{
}

/// Reads one box found in a otyp into its field.
#[verifier::spinoff_prover]
#[verifier::rlimit(60)]
fn otyp_step(c: &UnknownBox, acc: &mut OriginalFileTypeBoxScan) -> (r: Result<(), IsoError>)
    requires
        otyp_types_differ(),
    ensures
        match r {
            Ok(()) => otyp_fault(c@) is None && final(acc)@ == otyp_extend(old(acc)@, c@),
            Err(e) => otyp_fault(c@) == Some(e) && final(acc)@ == old(acc)@,
        },
{
    if is_child_exec::<ExtendedTypeBox>(c) {
        proof {
            lemma_child_read::<ExtendedTypeBox>(c@);
        }
        let r = replace_into(c, &mut acc.etyp);
        proof {
            if r is Err {
                assert(acc@ =~= old(acc)@);
            }
            if r is Ok {
                assert(acc@ =~= otyp_extend(old(acc)@, c@));
            }
        }
        r
    } else {
        proof {
            lemma_child_other::<ExtendedTypeBox>(c@);
        }
        let kept = UnknownBox { header: c.header, data: vstd::slice::slice_to_vec(c.data.as_slice()) };
        let ghost old_v = views(acc.unknown_boxes@);
        acc.unknown_boxes.push(kept);
        proof {
            assert(views(acc.unknown_boxes@) =~= old_v.push(c@));
            assert(acc@ =~= otyp_extend(old(acc)@, c@));
        }
        Ok(())
    }
}

/// Reading one more box extends what was read by it.
proof fn lemma_otyp_prefix_step(css: Seq<UnknownBoxModel>, i: int)
    requires
        0 <= i < css.len(),
    ensures
        otyp_prefix(css.take(i + 1)) == otyp_extend(otyp_prefix(css.take(i)), css[i]),
{
    lemma_collect_step::<ExtendedTypeBox>(css, i);
    lemma_unknown_step(css, |c: UnknownBoxModel| otyp_known(c), i);
    let a = otyp_prefix(css.take(i + 1));
    let b = otyp_extend(otyp_prefix(css.take(i)), css[i]);
    assert(a.unknown_boxes =~= b.unknown_boxes);
}

/// Reads the payload of a otyp.
#[verifier::spinoff_prover]
#[verifier::rlimit(60)]
fn parse_otyp(payload: &[u8]) -> (r: Result<OriginalFileTypeBox, IsoError>)
    ensures
        match (otyp_parse(payload@), r) {
            (Ok(v), Ok(x)) => x@ == v,
            (Err(e), Err(f)) => e == f,
            _ => false,
        },
{
    let cs = read_children(payload);
    let ghost css = spec_children(payload@);
    let ghost fault = |c: UnknownBoxModel| otyp_fault(c);
    let mut acc = OriginalFileTypeBoxScan {
        etyp: None,
        unknown_boxes: Vec::new(),
    };
    let mut i: usize = 0;
    let mut stop = false;
    proof {
        lemma_otyp_types();
        let e = css.take(0);
        assert(e =~= Seq::<UnknownBoxModel>::empty());
        assert(collect_children::<ExtendedTypeBox>(e) =~= Seq::<<ExtendedTypeBox as View>::V>::empty());
        assert(collect_unknown(e, |c: UnknownBoxModel| otyp_known(c)) =~= Seq::<UnknownBoxModel>::empty());
        assert(views(acc.unknown_boxes@) =~= Seq::<UnknownBoxModel>::empty());
        assert(acc@ =~= otyp_prefix(e));
    }
    while i < cs.len() && !stop
        invariant
            views(cs@) == css,
            css == spec_children(payload@),
            fault == (|c: UnknownBoxModel| otyp_fault(c)),
            otyp_types_differ(),
            i <= cs@.len(),
            forall|j: int| 0 <= j < i ==> (#[trigger] fault(css[j])) is None,
            stop ==> i < css.len() && fault(css[i as int]) == Some(IsoError::UnexpectedEof),
            acc@ == otyp_prefix(css.take(i as int)),
        decreases cs@.len() - i + (if stop { 0int } else { 1int }),
    {
        let c = &cs[i];
        proof {
            assert(c@ == css[i as int]);
            lemma_otyp_prefix_step(css, i as int);
        }
        match otyp_step(c, &mut acc) {
            Ok(()) => {
                i = i + 1;
            },
            Err(IsoError::UnexpectedEof) => {
                stop = true;
            },
            Err(e) => {
                proof {
                    lemma_first_fault(css, fault, i as int);
                }
                return Err(e);
            },
        }
    }
    proof {
        lemma_first_fault(css, fault, i as int);
        assert(first_fault(css, fault) == i);
    }
    let OriginalFileTypeBoxScan { etyp, unknown_boxes } = acc;
    Ok(OriginalFileTypeBox { etyp, unknown_boxes })
}

/// Writes the boxes of a otyp in the order of its fields.
#[verifier::spinoff_prover]
#[verifier::rlimit(60)]
fn write_otyp_children(x: &OriginalFileTypeBox, out: &mut Vec<u8>) -> (r: Result<(), IsoError>)
    requires
        x.spec_size() <= usize::MAX,
    ensures
        write_matches(r, otyp_writable(x@), otyp_children_bytes(x@), old(out)@, final(out)@),
{
    let ghost before = out@;
    let ghost v = x@;
    if write_nested_opt(&x.etyp, out).is_err() {
        return Err(IsoError::InvalidData);
    }
    let ghost m1 = out@;
    proof {
        lemma_append_prefix(before, nested_opt_bytes::<ExtendedTypeBox>(v.etyp));
    }
    let _ = serialize_all(&x.unknown_boxes, out);
    assert(out@ == m1 + ser_seq::<UnknownBox>(v.unknown_boxes)) by {
        assert(views(x.unknown_boxes@) == v.unknown_boxes);
    }
    let ghost m2 = out@;
    proof {
        lemma_append_prefix(m1, ser_seq::<UnknownBox>(v.unknown_boxes));
        lemma_prefix_trans(before, m1, m2);
    }
    proof {
        let l1 = nested_opt_bytes::<ExtendedTypeBox>(v.etyp);
        assert(m1 == before + l1);
        let l2 = l1 + ser_seq::<UnknownBox>(v.unknown_boxes);
        vstd::seq_lib::lemma_concat_associative(before, l1, ser_seq::<UnknownBox>(v.unknown_boxes));
        assert(m2 == before + l2);
        assert(otyp_children_bytes(v) == l2);
        lemma_append_prefix(before, otyp_children_bytes(v));
    }
    Ok(())
}

/// The boxes that a otyp writes, read from their bytes one list after the other.
#[verifier::spinoff_prover]
#[verifier::rlimit(100)]
proof fn lemma_otyp_children_chain(v: OriginalFileTypeBoxModel)
    requires
        otyp_canonical(v),
    ensures
        spec_children(nested_opt_bytes::<ExtendedTypeBox>(v.etyp) + (ser_seq::<UnknownBox>(v.unknown_boxes))) == nested_opt_models::<ExtendedTypeBox>(v.etyp) + (v.unknown_boxes),
{
    let b0 = nested_opt_bytes::<ExtendedTypeBox>(v.etyp);
    let s0 = nested_opt_models::<ExtendedTypeBox>(v.etyp);
    let b1 = ser_seq::<UnknownBox>(v.unknown_boxes);
    let s1 = v.unknown_boxes;
    crate::children::lemma_children_empty();
    let t1 = b1;
    let u1 = s1;
    assert(b1 + Seq::<u8>::empty() =~= b1);
    assert(s1 + Seq::<UnknownBoxModel>::empty() =~= s1);
    lemma_unknown_seq_rest(v.unknown_boxes, Seq::<u8>::empty());
    assert(spec_children(t1) == u1);
    let t0 = b0 + t1;
    let u0 = s0 + u1;
    lemma_nested_opt_seq::<ExtendedTypeBox>(v.etyp, t1);
    assert(spec_children(t0) == u0);
}

/// The boxes that a otyp writes read back as their models.
#[verifier::spinoff_prover]
#[verifier::rlimit(100)]
proof fn lemma_otyp_children(v: OriginalFileTypeBoxModel)
    requires
        otyp_canonical(v),
    ensures
        spec_children(otyp_children_bytes(v)) == otyp_models(v),
{
    lemma_otyp_children_chain(v);
    let b0 = nested_opt_bytes::<ExtendedTypeBox>(v.etyp);
    let s0 = nested_opt_models::<ExtendedTypeBox>(v.etyp);
    let b1 = ser_seq::<UnknownBox>(v.unknown_boxes);
    let s1 = v.unknown_boxes;
    let t1 = b1;
    let u1 = s1;
    let t0 = b0 + t1;
    let u0 = s0 + u1;
    let t2 = Seq::<u8>::empty();
    let u2 = Seq::<UnknownBoxModel>::empty();
    assert(b1 + t2 =~= t1);
    assert(s1 + u2 =~= u1);
    let l0 = Seq::<u8>::empty();
    let k0 = Seq::<UnknownBoxModel>::empty();
    assert(l0 + t0 =~= t0);
    assert(k0 + u0 =~= u0);
    let l1 = b0;
    let k1 = s0;
    assert(l1 + t1 == l0 + t0);
    assert(k1 + u1 == k0 + u0);
    let l2 = l1 + b1;
    let k2 = k1 + s1;
    vstd::seq_lib::lemma_concat_associative(l1, b1, t2);
    vstd::seq_lib::lemma_concat_associative(k1, s1, u2);
    assert(l2 + t2 == l1 + t1);
    assert(k2 + u2 == k1 + u1);
    assert(l2 + t2 =~= l2);
    assert(k2 + u2 =~= k2);
    assert(otyp_children_bytes(v) == l2);
    assert(otyp_models(v) == k2);
}

/// No box that a otyp writes fails to read.
#[verifier::spinoff_prover]
#[verifier::rlimit(60)]
proof fn lemma_otyp_no_fault(v: OriginalFileTypeBoxModel, j: int)
    requires
        otyp_canonical(v),
        otyp_types_differ(),
        0 <= j < otyp_models(v).len(),
    ensures
        otyp_fault(otyp_models(v)[j]) is None,
{
    let cs = otyp_models(v);
    let s0 = nested_opt_models::<ExtendedTypeBox>(v.etyp);
    let s1 = v.unknown_boxes;
    let n0: int = 0;
    let n1: int = n0 + s0.len();
    let n2: int = n1 + s1.len();
    if j < n1 {
        assert(cs[j] == s0[j - n0]);
        lemma_nested_cons::<ExtendedTypeBox>(v.etyp.unwrap(), Seq::empty());
    } else if j < n2 {
        assert(cs[j] == s1[j - n1]);
        assert(!otyp_known(v.unknown_boxes[j - n1]));
    }
}

/// Collecting over the lists of a otyp one after the other collects over each in
/// turn.
proof fn lemma_otyp_split<T: BoxBody>(m0: Seq<UnknownBoxModel>, m1: Seq<UnknownBoxModel>)
    ensures
        collect_children::<T>(m0 + m1) == collect_children::<T>(m0) + collect_children::<T>(m1),
{
    lemma_collect_add::<T>(m0, m1);
}

/// The boxes that a otyp writes collect back into its field `etyp`.
#[verifier::spinoff_prover]
#[verifier::rlimit(60)]
proof fn lemma_otyp_collect_etyp(v: OriginalFileTypeBoxModel)
    requires
        otyp_canonical(v),
        otyp_types_differ(),
    ensures
        collect_children::<ExtendedTypeBox>(otyp_models(v)) == opt_seq(v.etyp),
{
    lemma_otyp_split::<ExtendedTypeBox>(nested_opt_models::<ExtendedTypeBox>(v.etyp), v.unknown_boxes);
    lemma_nested_opt_own::<ExtendedTypeBox>(v.etyp);
    assert forall|i: int| 0 <= i < v.unknown_boxes.len() implies !#[trigger] is_child::<ExtendedTypeBox>(v.unknown_boxes[i]) by {
        assert(!otyp_known(v.unknown_boxes[i]));
    }
    lemma_collect_none::<ExtendedTypeBox>(v.unknown_boxes);
    assert(collect_children::<ExtendedTypeBox>(otyp_models(v)) =~= opt_seq(v.etyp));
}

/// The boxes of other types that a otyp writes are collected back as they are.
#[verifier::spinoff_prover]
#[verifier::rlimit(60)]
proof fn lemma_otyp_unknown(v: OriginalFileTypeBoxModel)
    requires
        otyp_canonical(v),
    ensures
        collect_unknown(otyp_models(v), |c: UnknownBoxModel| otyp_known(c)) == v.unknown_boxes,
{
    let known = |c: UnknownBoxModel| otyp_known(c);
    let s0 = nested_opt_models::<ExtendedTypeBox>(v.etyp);
    assert forall|i: int| 0 <= i < s0.len() implies #[trigger] known(s0[i]) by {}
    lemma_unknown_all_known(s0, known);
    let s1 = v.unknown_boxes;
    assert forall|i: int| 0 <= i < s1.len() implies !#[trigger] known(s1[i]) by {}
    lemma_unknown_none_known(s1, known);
    lemma_unknown_add(s0, s1, known);
    assert(collect_unknown(otyp_models(v), known) =~= v.unknown_boxes);
}

/// Writing a otyp and reading its payload back gives it again.
#[verifier::spinoff_prover]
#[verifier::rlimit(100)]
proof fn lemma_otyp_roundtrip(v: OriginalFileTypeBoxModel)
    requires
        otyp_canonical(v),
    ensures
        otyp_parse(otyp_bytes(v)) == Ok::<OriginalFileTypeBoxModel, IsoError>(v),
{
    let s = otyp_bytes(v);
    lemma_otyp_children(v);
    lemma_otyp_types();
    let cs = otyp_models(v);
    let fault = |c: UnknownBoxModel| otyp_fault(c);
    assert forall|j: int| 0 <= j < cs.len() implies (#[trigger] fault(cs[j])) is None by {
        lemma_otyp_no_fault(v, j);
    }
    lemma_first_fault(cs, fault, cs.len() as int);
    assert(cs.take(cs.len() as int) =~= cs);
    lemma_otyp_collect_etyp(v);
    lemma_otyp_unknown(v);
    assert(spec_children(s) == cs);
    assert(last_child::<ExtendedTypeBox>(cs) == v.etyp);
}

/// For a value that reads back as itself, the size is that of its payload and header.
#[verifier::spinoff_prover]
#[verifier::rlimit(60)]
proof fn lemma_otyp_size(x: OriginalFileTypeBox)
    requires
        otyp_canonical(x@),
    ensures
        nested_opt_size::<ExtendedTypeBox>(x.etyp) + size_seq::<UnknownBox>(x.unknown_boxes@) == otyp_bytes(x@).len(),
{
    let v = x@;
    lemma_nested_opt_size::<ExtendedTypeBox>(x.etyp);
    assert(writable_seq::<UnknownBox>(views(x.unknown_boxes@)));
    lemma_size_seq::<UnknownBox>(x.unknown_boxes@);
}

impl BoxBody for OriginalFileTypeBox {
    open spec fn spec_box_type() -> [u8; 4] {
        [0x6fu8, 0x74u8, 0x79u8, 0x70u8]
    }

    fn box_type() -> (r: [u8; 4]) {
        [0x6fu8, 0x74u8, 0x79u8, 0x70u8]
    }

    open spec fn spec_parse_body(s: Seq<u8>) -> Result<OriginalFileTypeBoxModel, IsoError> {
        otyp_parse(s)
    }

    open spec fn spec_writable(v: OriginalFileTypeBoxModel) -> bool {
        otyp_writable(v)
    }

    open spec fn spec_serialize_body(v: OriginalFileTypeBoxModel) -> Seq<u8> {
        otyp_bytes(v)
    }

    open spec fn spec_canonical(v: OriginalFileTypeBoxModel) -> bool {
        otyp_canonical(v)
    }

    proof fn lemma_box_type() {
        assert(Self::spec_box_type()[0] != spec_uuid_fourcc()[0]);
    }

    proof fn lemma_body_size(x: OriginalFileTypeBox) {
        lemma_otyp_size(x);
    }

    proof fn lemma_body_roundtrip(v: OriginalFileTypeBoxModel) {
        lemma_otyp_roundtrip(v);
    }

    fn parse_body(payload: &[u8]) -> (r: Result<OriginalFileTypeBox, IsoError>) {
        parse_otyp(payload)
    }

    #[verifier::spinoff_prover]
    #[verifier::rlimit(60)]
    fn serialize_body(&self, out: &mut Vec<u8>) -> (r: Result<(), IsoError>) {
        write_otyp_children(self, out)
    }
}

} // verus!
