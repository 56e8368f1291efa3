//! The groups list box, which holds the entity groups of a file or a track.

use vstd::prelude::*;

use crate::children::{
    child_fault, child_value, collect_children, collect_into, collect_unknown, first_fault, is_child, is_child_exec,
    last_child, lemma_child_other, lemma_child_read, lemma_collect_add, lemma_collect_none, lemma_collect_step,
    lemma_first_fault, lemma_unknown_add, lemma_unknown_all_known, lemma_unknown_none_known, lemma_unknown_step,
    lemma_unknown_seq, read_children, replace_into, scan_result, spec_children,
};
use crate::codec::{
    be_u16_at, be_u24_at, be_u32_at, lemma_append_prefix, lemma_prefix_trans, lemma_u16_at, lemma_u24_at,
    lemma_u32_at, read_u16_at, read_u24_at, read_u32_at, u16_bytes, u24_bytes, u32_bytes, write_bytes, write_u16,
    write_u24, write_u32, write_u8, IsoError,
};
use crate::frame::{add_header_size, add_header_size_exec, BoxBody, UnknownBox, UnknownBoxModel};
use crate::header::{spec_uuid_fourcc, FullBoxHeader};
use crate::nested::{
    lemma_nested_collect_other, lemma_nested_collect_own, lemma_nested_cons, lemma_nested_opt_other,
    lemma_nested_opt_own, lemma_nested_opt_seq, lemma_nested_opt_size, lemma_nested_seq, lemma_nested_size,
    lemma_nested_sizes, lemma_unknown_seq_rest, nested_all_ok, nested_all_writable, nested_box_bytes, nested_bytes,
    nested_model,
    nested_models, nested_ok, nested_opt_bytes, nested_opt_models, nested_opt_ok, nested_opt_size,
    nested_opt_writable, nested_sizes, nested_writable, opt_seq, opt_view, size_nested_opt, size_nested_vec,
    write_nested, write_nested_opt, write_nested_vec,
};
use crate::wire::{
    lemma_size_seq, lemma_size_seq_mono, ser_seq, serialize_all, size_all, size_seq, views, writable_seq,
    write_matches, IsoSized, Wire,
};
use crate::boxes::entity_grouping::AltrEntityToGroupBox;

verus! {

/// Groups list box
///
/// `grpl`
///
/// ISO/IEC 14496-12 - 8.18.3
#[derive(Debug)]
pub struct GroupsListBox {
    /// The contained [`AltrEntityToGroupBox`]es. (any quantity)
    pub altr: Vec<AltrEntityToGroupBox>,
    /// The entity groups of other types, kept as they are.
    pub unknown_boxes: Vec<UnknownBox>,
}

/// The model of a [`GroupsListBox`].
pub struct GroupsListBoxModel {
    pub altr: Seq<<AltrEntityToGroupBox as View>::V>,
    pub unknown_boxes: Seq<UnknownBoxModel>,
}

impl View for GroupsListBox {
    type V = GroupsListBoxModel;

    open spec fn view(&self) -> GroupsListBoxModel {
        GroupsListBoxModel {
            altr: views(self.altr@),
            unknown_boxes: views(self.unknown_boxes@),
        }
    }
}

/// Whether a box found in a grpl has one of the types that it reads.
pub open spec fn grpl_known(c: UnknownBoxModel) -> bool {
    is_child::<AltrEntityToGroupBox>(c)
}

/// The failure of reading a box of a known type found in a grpl.
pub open spec fn grpl_fault(c: UnknownBoxModel) -> Option<IsoError> {
    if is_child::<AltrEntityToGroupBox>(c) {
        child_fault::<AltrEntityToGroupBox>(c)
    } else {
        None
    }
}

/// What a grpl reads from its payload: the boxes before the first that fails, each box of a known type in its field (the
/// last one for a single field, which must be there where it is required) and every
/// other box kept as it is.
pub open spec fn grpl_parse(s: Seq<u8>) -> Result<GroupsListBoxModel, IsoError> {
    let cs = spec_children(s);
    match scan_result(cs, |c: UnknownBoxModel| grpl_fault(c)) {
        Err(e) => Err(e),
        Ok(k) => {
            let p = cs.take(k as int);
            Ok(
                GroupsListBoxModel {
                    altr: collect_children::<AltrEntityToGroupBox>(p),
                    unknown_boxes: collect_unknown(p, |c: UnknownBoxModel| grpl_known(c)),
                },
            )
        },
    }
}

/// The bytes of the boxes that a grpl holds, in the order of its fields.
pub open spec fn grpl_children_bytes(v: GroupsListBoxModel) -> Seq<u8> {
    nested_bytes::<AltrEntityToGroupBox>(v.altr)
        + ser_seq::<UnknownBox>(v.unknown_boxes)
}

/// The boxes, as found in a container, that a grpl writes.
pub open spec fn grpl_models(v: GroupsListBoxModel) -> Seq<UnknownBoxModel> {
    nested_models::<AltrEntityToGroupBox>(v.altr)
        + v.unknown_boxes
}

/// The payload that a grpl writes.
pub open spec fn grpl_bytes(v: GroupsListBoxModel) -> Seq<u8> {
    grpl_children_bytes(v)
}

/// Every box of a known type can be written.
pub open spec fn grpl_writable(v: GroupsListBoxModel) -> bool {
    &&& nested_all_writable::<AltrEntityToGroupBox>(v.altr)
}

/// Every box of a known type reads back as itself, and every other box is of
/// another type and announces exactly its payload.
pub open spec fn grpl_canonical(v: GroupsListBoxModel) -> bool {
    &&& nested_all_ok::<AltrEntityToGroupBox>(v.altr)
    &&& forall|i: int|
        0 <= i < v.unknown_boxes.len() ==> UnknownBox::spec_canonical(#[trigger] v.unknown_boxes[i]) && !grpl_known(
            v.unknown_boxes[i],
        )
}

impl IsoSized for GroupsListBox {
    open spec fn spec_size(&self) -> nat {
        add_header_size(nested_sizes::<AltrEntityToGroupBox>(self.altr@) + size_seq::<UnknownBox>(self.unknown_boxes@))
    }

    fn size(&self) -> (n: usize) {
        proof {
            lemma_size_seq_mono::<UnknownBox>(self.unknown_boxes@, 0);
        }
        let mut n: usize = 0;
        n = n + size_nested_vec(&self.altr);
        n = n + size_all(&self.unknown_boxes);
        add_header_size_exec(n)
    }
}

/// The fields of a grpl read so far.
pub struct GroupsListBoxScan {
    pub altr: Vec<AltrEntityToGroupBox>,
    pub unknown_boxes: Vec<UnknownBox>,
}

/// The model of a [`GroupsListBoxScan`].
pub struct GroupsListBoxScanModel {
    pub altr: Seq<<AltrEntityToGroupBox as View>::V>,
    pub unknown_boxes: Seq<UnknownBoxModel>,
}

impl View for GroupsListBoxScan {
    type V = GroupsListBoxScanModel;

    open spec fn view(&self) -> GroupsListBoxScanModel {
        GroupsListBoxScanModel {
            altr: views(self.altr@),
            unknown_boxes: views(self.unknown_boxes@),
        }
    }
}

/// What a grpl holds after reading the boxes of `p`.
pub open spec fn grpl_prefix(p: Seq<UnknownBoxModel>) -> GroupsListBoxScanModel {
    GroupsListBoxScanModel {
        altr: collect_children::<AltrEntityToGroupBox>(p),
        unknown_boxes: collect_unknown(p, |c: UnknownBoxModel| grpl_known(c)),
    }
}

/// What a grpl holds after reading one more box that does not fail.
pub open spec fn grpl_extend(m: GroupsListBoxScanModel, c: UnknownBoxModel) -> GroupsListBoxScanModel {
    GroupsListBoxScanModel {
        altr: m.altr + opt_seq(child_value::<AltrEntityToGroupBox>(c)),
        unknown_boxes: if grpl_known(c) {
            m.unknown_boxes
        } else {
            m.unknown_boxes.push(c)
        },
    }
}

/// The types that a grpl reads differ from one another.
pub open spec fn grpl_types_differ() -> bool {
    true
}

proof fn lemma_grpl_types()
    ensures
        grpl_types_differ(),
{
}

/// Reads one box found in a grpl into its field.
#[verifier::spinoff_prover]
#[verifier::rlimit(60)]
fn grpl_step(c: &UnknownBox, acc: &mut GroupsListBoxScan) -> (r: Result<(), IsoError>)
    requires
        grpl_types_differ(),
    ensures
        match r {
            Ok(()) => grpl_fault(c@) is None && final(acc)@ == grpl_extend(old(acc)@, c@),
            Err(e) => grpl_fault(c@) == Some(e) && final(acc)@ == old(acc)@,
        },
{
    if is_child_exec::<AltrEntityToGroupBox>(c) {
        proof {
            lemma_child_read::<AltrEntityToGroupBox>(c@);
        }
        let ghost old_v = views(acc.altr@);
        let r = collect_into(c, &mut acc.altr);
        proof {
            if r is Err {
                assert(acc@ =~= old(acc)@);
            }
            if r is Ok {
                assert(views(acc.altr@) =~= old_v + opt_seq(child_value::<AltrEntityToGroupBox>(c@)));
                assert(acc@ =~= grpl_extend(old(acc)@, c@));
            }
        }
        r
    } else {
        proof {
            lemma_child_other::<AltrEntityToGroupBox>(c@);
        }
        let kept = UnknownBox { header: c.header, data: vstd::slice::slice_to_vec(c.data.as_slice()) };
        let ghost old_v = views(acc.unknown_boxes@);
        acc.unknown_boxes.push(kept);
        proof {
            assert(views(acc.unknown_boxes@) =~= old_v.push(c@));
            assert(opt_seq(child_value::<AltrEntityToGroupBox>(c@)) =~= Seq::<<AltrEntityToGroupBox as View>::V>::empty());
            assert(acc@ =~= grpl_extend(old(acc)@, c@));
        }
        Ok(())
    }
}

/// Reading one more box extends what was read by it.
proof fn lemma_grpl_prefix_step(css: Seq<UnknownBoxModel>, i: int)
    requires
        0 <= i < css.len(),
    ensures
        grpl_prefix(css.take(i + 1)) == grpl_extend(grpl_prefix(css.take(i)), css[i]),
{
    lemma_collect_step::<AltrEntityToGroupBox>(css, i);
    lemma_unknown_step(css, |c: UnknownBoxModel| grpl_known(c), i);
    let a = grpl_prefix(css.take(i + 1));
    let b = grpl_extend(grpl_prefix(css.take(i)), css[i]);
    assert(a.altr =~= b.altr);
    assert(a.unknown_boxes =~= b.unknown_boxes);
}

/// Reads the payload of a grpl.
#[verifier::spinoff_prover]
#[verifier::rlimit(60)]
fn parse_grpl(payload: &[u8]) -> (r: Result<GroupsListBox, IsoError>)
    ensures
        match (grpl_parse(payload@), r) {
            (Ok(v), Ok(x)) => x@ == v,
            (Err(e), Err(f)) => e == f,
            _ => false,
        },
{
    let cs = read_children(payload);
    let ghost css = spec_children(payload@);
    let ghost fault = |c: UnknownBoxModel| grpl_fault(c);
    let mut acc = GroupsListBoxScan {
        altr: Vec::new(),
        unknown_boxes: Vec::new(),
    };
    let mut i: usize = 0;
    let mut stop = false;
    proof {
        lemma_grpl_types();
        let e = css.take(0);
        assert(e =~= Seq::<UnknownBoxModel>::empty());
        assert(collect_children::<AltrEntityToGroupBox>(e) =~= Seq::<<AltrEntityToGroupBox as View>::V>::empty());
        assert(views(acc.altr@) =~= Seq::<<AltrEntityToGroupBox as View>::V>::empty());
        assert(collect_unknown(e, |c: UnknownBoxModel| grpl_known(c)) =~= Seq::<UnknownBoxModel>::empty());
        assert(views(acc.unknown_boxes@) =~= Seq::<UnknownBoxModel>::empty());
        assert(acc@ =~= grpl_prefix(e));
    }
    while i < cs.len() && !stop
        invariant
            views(cs@) == css,
            css == spec_children(payload@),
            fault == (|c: UnknownBoxModel| grpl_fault(c)),
            grpl_types_differ(),
            i <= cs@.len(),
            forall|j: int| 0 <= j < i ==> (#[trigger] fault(css[j])) is None,
            stop ==> i < css.len() && fault(css[i as int]) == Some(IsoError::UnexpectedEof),
            acc@ == grpl_prefix(css.take(i as int)),
        decreases cs@.len() - i + (if stop { 0int } else { 1int }),
    {
        let c = &cs[i];
        proof {
            assert(c@ == css[i as int]);
            lemma_grpl_prefix_step(css, i as int);
        }
        match grpl_step(c, &mut acc) {
            Ok(()) => {
                i = i + 1;
            },
            Err(IsoError::UnexpectedEof) => {
                stop = true;
            },
            Err(e) => {
                proof {
                    lemma_first_fault(css, fault, i as int);
                }
                return Err(e);
            },
        }
    }
    proof {
        lemma_first_fault(css, fault, i as int);
        assert(first_fault(css, fault) == i);
    }
    let GroupsListBoxScan { altr, unknown_boxes } = acc;
    Ok(GroupsListBox { altr, unknown_boxes })
}

/// Writes the boxes of a grpl in the order of its fields.
#[verifier::spinoff_prover]
#[verifier::rlimit(60)]
fn write_grpl_children(x: &GroupsListBox, out: &mut Vec<u8>) -> (r: Result<(), IsoError>)
    requires
        x.spec_size() <= usize::MAX,
    ensures
        write_matches(r, grpl_writable(x@), grpl_children_bytes(x@), old(out)@, final(out)@),
{
    let ghost before = out@;
    let ghost v = x@;
    if write_nested_vec(&x.altr, out).is_err() {
        return Err(IsoError::InvalidData);
    }
    let ghost m1 = out@;
    proof {
        lemma_append_prefix(before, nested_bytes::<AltrEntityToGroupBox>(v.altr));
    }
    let _ = serialize_all(&x.unknown_boxes, out);
    assert(out@ == m1 + ser_seq::<UnknownBox>(v.unknown_boxes)) by {
        assert(views(x.unknown_boxes@) == v.unknown_boxes);
    }
    let ghost m2 = out@;
    proof {
        lemma_append_prefix(m1, ser_seq::<UnknownBox>(v.unknown_boxes));
        lemma_prefix_trans(before, m1, m2);
    }
    proof {
        let l1 = nested_bytes::<AltrEntityToGroupBox>(v.altr);
        assert(m1 == before + l1);
        let l2 = l1 + ser_seq::<UnknownBox>(v.unknown_boxes);
        vstd::seq_lib::lemma_concat_associative(before, l1, ser_seq::<UnknownBox>(v.unknown_boxes));
        assert(m2 == before + l2);
        assert(grpl_children_bytes(v) == l2);
        lemma_append_prefix(before, grpl_children_bytes(v));
    }
    Ok(())
}

/// The boxes that a grpl writes, read from their bytes one list after the other.
#[verifier::spinoff_prover]
#[verifier::rlimit(100)]
proof fn lemma_grpl_children_chain(v: GroupsListBoxModel)
    requires
        grpl_canonical(v),
    ensures
        spec_children(nested_bytes::<AltrEntityToGroupBox>(v.altr) + (ser_seq::<UnknownBox>(v.unknown_boxes))) == nested_models::<AltrEntityToGroupBox>(v.altr) + (v.unknown_boxes),
{
    let b0 = nested_bytes::<AltrEntityToGroupBox>(v.altr);
    let s0 = nested_models::<AltrEntityToGroupBox>(v.altr);
    let b1 = ser_seq::<UnknownBox>(v.unknown_boxes);
    let s1 = v.unknown_boxes;
    crate::children::lemma_children_empty();
    let t1 = b1;
    let u1 = s1;
    assert(b1 + Seq::<u8>::empty() =~= b1);
    assert(s1 + Seq::<UnknownBoxModel>::empty() =~= s1);
    lemma_unknown_seq_rest(v.unknown_boxes, Seq::<u8>::empty());
    assert(spec_children(t1) == u1);
    let t0 = b0 + t1;
    let u0 = s0 + u1;
    lemma_nested_seq::<AltrEntityToGroupBox>(v.altr, t1);
    assert(spec_children(t0) == u0);
}

/// The boxes that a grpl writes read back as their models.
#[verifier::spinoff_prover]
#[verifier::rlimit(100)]
proof fn lemma_grpl_children(v: GroupsListBoxModel)
    requires
        grpl_canonical(v),
    ensures
        spec_children(grpl_children_bytes(v)) == grpl_models(v),
{
    lemma_grpl_children_chain(v);
    let b0 = nested_bytes::<AltrEntityToGroupBox>(v.altr);
    let s0 = nested_models::<AltrEntityToGroupBox>(v.altr);
    let b1 = ser_seq::<UnknownBox>(v.unknown_boxes);
    let s1 = v.unknown_boxes;
    let t1 = b1;
    let u1 = s1;
    let t0 = b0 + t1;
    let u0 = s0 + u1;
    let t2 = Seq::<u8>::empty();
    let u2 = Seq::<UnknownBoxModel>::empty();
    assert(b1 + t2 =~= t1);
    assert(s1 + u2 =~= u1);
    let l0 = Seq::<u8>::empty();
    let k0 = Seq::<UnknownBoxModel>::empty();
    assert(l0 + t0 =~= t0);
    assert(k0 + u0 =~= u0);
    let l1 = b0;
    let k1 = s0;
    assert(l1 + t1 == l0 + t0);
    assert(k1 + u1 == k0 + u0);
    let l2 = l1 + b1;
    let k2 = k1 + s1;
    vstd::seq_lib::lemma_concat_associative(l1, b1, t2);
    vstd::seq_lib::lemma_concat_associative(k1, s1, u2);
    assert(l2 + t2 == l1 + t1);
    assert(k2 + u2 == k1 + u1);
    assert(l2 + t2 =~= l2);
    assert(k2 + u2 =~= k2);
    assert(grpl_children_bytes(v) == l2);
    assert(grpl_models(v) == k2);
}

/// No box that a grpl writes fails to read.
#[verifier::spinoff_prover]
#[verifier::rlimit(60)]
proof fn lemma_grpl_no_fault(v: GroupsListBoxModel, j: int)
    requires
        grpl_canonical(v),
        grpl_types_differ(),
        0 <= j < grpl_models(v).len(),
    ensures
        grpl_fault(grpl_models(v)[j]) is None,
{
    let cs = grpl_models(v);
    let s0 = nested_models::<AltrEntityToGroupBox>(v.altr);
    let s1 = v.unknown_boxes;
    let n0: int = 0;
    let n1: int = n0 + s0.len();
    let n2: int = n1 + s1.len();
    if j < n1 {
        assert(cs[j] == s0[j - n0]);
        assert(nested_ok::<AltrEntityToGroupBox>(v.altr[j - n0]));
        lemma_nested_cons::<AltrEntityToGroupBox>(v.altr[j - n0], Seq::empty());
    } else if j < n2 {
        assert(cs[j] == s1[j - n1]);
        assert(!grpl_known(v.unknown_boxes[j - n1]));
    }
}

/// Collecting over the lists of a grpl one after the other collects over each in
/// turn.
proof fn lemma_grpl_split<T: BoxBody>(m0: Seq<UnknownBoxModel>, m1: Seq<UnknownBoxModel>)
    ensures
        collect_children::<T>(m0 + m1) == collect_children::<T>(m0) + collect_children::<T>(m1),
{
    lemma_collect_add::<T>(m0, m1);
}

/// The boxes that a grpl writes collect back into its field `altr`.
#[verifier::spinoff_prover]
#[verifier::rlimit(60)]
proof fn lemma_grpl_collect_altr(v: GroupsListBoxModel)
    requires
        grpl_canonical(v),
        grpl_types_differ(),
    ensures
        collect_children::<AltrEntityToGroupBox>(grpl_models(v)) == v.altr,
{
    lemma_grpl_split::<AltrEntityToGroupBox>(nested_models::<AltrEntityToGroupBox>(v.altr), v.unknown_boxes);
    lemma_nested_collect_own::<AltrEntityToGroupBox>(v.altr);
    assert forall|i: int| 0 <= i < v.unknown_boxes.len() implies !#[trigger] is_child::<AltrEntityToGroupBox>(v.unknown_boxes[i]) by {
        assert(!grpl_known(v.unknown_boxes[i]));
    }
    lemma_collect_none::<AltrEntityToGroupBox>(v.unknown_boxes);
    assert(collect_children::<AltrEntityToGroupBox>(grpl_models(v)) =~= v.altr);
}

/// The boxes of other types that a grpl writes are collected back as they are.
#[verifier::spinoff_prover]
#[verifier::rlimit(60)]
proof fn lemma_grpl_unknown(v: GroupsListBoxModel)
    requires
        grpl_canonical(v),
    ensures
        collect_unknown(grpl_models(v), |c: UnknownBoxModel| grpl_known(c)) == v.unknown_boxes,
{
    let known = |c: UnknownBoxModel| grpl_known(c);
    let s0 = nested_models::<AltrEntityToGroupBox>(v.altr);
    assert forall|i: int| 0 <= i < s0.len() implies #[trigger] known(s0[i]) by {}
    lemma_unknown_all_known(s0, known);
    let s1 = v.unknown_boxes;
    assert forall|i: int| 0 <= i < s1.len() implies !#[trigger] known(s1[i]) by {}
    lemma_unknown_none_known(s1, known);
    lemma_unknown_add(s0, s1, known);
    assert(collect_unknown(grpl_models(v), known) =~= v.unknown_boxes);
}

/// Writing a grpl and reading its payload back gives it again.
#[verifier::spinoff_prover]
#[verifier::rlimit(100)]
proof fn lemma_grpl_roundtrip(v: GroupsListBoxModel)
    requires
        grpl_canonical(v),
    ensures
        grpl_parse(grpl_bytes(v)) == Ok::<GroupsListBoxModel, IsoError>(v),
{
    let s = grpl_bytes(v);
    lemma_grpl_children(v);
    lemma_grpl_types();
    let cs = grpl_models(v);
    let fault = |c: UnknownBoxModel| grpl_fault(c);
    assert forall|j: int| 0 <= j < cs.len() implies (#[trigger] fault(cs[j])) is None by {
        lemma_grpl_no_fault(v, j);
    }
    lemma_first_fault(cs, fault, cs.len() as int);
    assert(cs.take(cs.len() as int) =~= cs);
    lemma_grpl_collect_altr(v);
    lemma_grpl_unknown(v);
    assert(spec_children(s) == cs);
}

/// For a value that reads back as itself, the size is that of its payload and header.
#[verifier::spinoff_prover]
#[verifier::rlimit(60)]
proof fn lemma_grpl_size(x: GroupsListBox)
    requires
        grpl_canonical(x@),
    ensures
        nested_sizes::<AltrEntityToGroupBox>(x.altr@) + size_seq::<UnknownBox>(x.unknown_boxes@) == grpl_bytes(x@).len(),
{
    let v = x@;
    lemma_nested_sizes::<AltrEntityToGroupBox>(x.altr@);
    assert(writable_seq::<UnknownBox>(views(x.unknown_boxes@)));
    lemma_size_seq::<UnknownBox>(x.unknown_boxes@);
}

impl BoxBody for GroupsListBox {
    open spec fn spec_box_type() -> [u8; 4] {
        [0x67u8, 0x72u8, 0x70u8, 0x6cu8]
    }

    fn box_type() -> (r: [u8; 4]) {
        [0x67u8, 0x72u8, 0x70u8, 0x6cu8]
    }

    open spec fn spec_parse_body(s: Seq<u8>) -> Result<GroupsListBoxModel, IsoError> {
        grpl_parse(s)
    }

    open spec fn spec_writable(v: GroupsListBoxModel) -> bool {
        grpl_writable(v)
    }

    open spec fn spec_serialize_body(v: GroupsListBoxModel) -> Seq<u8> {
        grpl_bytes(v)
    }

    open spec fn spec_canonical(v: GroupsListBoxModel) -> bool {
        grpl_canonical(v)
    }

    proof fn lemma_box_type() {
        assert(Self::spec_box_type()[0] != spec_uuid_fourcc()[0]);
    }

    proof fn lemma_body_size(x: GroupsListBox) {
        lemma_grpl_size(x);
    }

    proof fn lemma_body_roundtrip(v: GroupsListBoxModel) {
        lemma_grpl_roundtrip(v);
    }

    fn parse_body(payload: &[u8]) -> (r: Result<GroupsListBox, IsoError>) {
        parse_grpl(payload)
    }

    #[verifier::spinoff_prover]
    #[verifier::rlimit(60)]
    fn serialize_body(&self, out: &mut Vec<u8>) -> (r: Result<(), IsoError>) {
        write_grpl_children(self, out)
    }
}

} // verus!
