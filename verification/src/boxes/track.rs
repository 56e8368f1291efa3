//! The track box, and the track reference and track group boxes.

use vstd::prelude::*;

use crate::children::{
    child_fault, child_value, collect_children, collect_into, collect_unknown, first_fault, is_child, is_child_exec,
    last_child, lemma_child_other, lemma_child_read, lemma_collect_add, lemma_collect_none, lemma_collect_step,
    lemma_first_fault, lemma_unknown_add, lemma_unknown_all_known, lemma_unknown_none_known, lemma_unknown_step,
    lemma_unknown_seq, read_children, replace_into, scan_result, spec_children,
};
use crate::codec::{
    be_u16_at, be_u24_at, be_u32_at, lemma_append_prefix, lemma_prefix_trans, lemma_u16_at, lemma_u24_at,
    lemma_u32_at, read_u16_at, read_u24_at, read_u32_at, u16_bytes, u24_bytes, u32_bytes, write_bytes, write_u16,
    write_u24, write_u32, write_u8, IsoError,
};
use crate::frame::{add_header_size, add_header_size_exec, BoxBody, UnknownBox, UnknownBoxModel};
use crate::header::{spec_uuid_fourcc, FullBoxHeader};
use crate::nested::{
    lemma_nested_collect_other, lemma_nested_collect_own, lemma_nested_cons, lemma_nested_opt_other,
    lemma_nested_opt_own, lemma_nested_opt_seq, lemma_nested_opt_size, lemma_nested_seq, lemma_nested_size,
    lemma_nested_sizes, lemma_unknown_seq_rest, nested_all_ok, nested_all_writable, nested_box_bytes, nested_bytes,
    nested_model,
    nested_models, nested_ok, nested_opt_bytes, nested_opt_models, nested_opt_ok, nested_opt_size,
    nested_opt_writable, nested_sizes, nested_writable, opt_seq, opt_view, size_nested_opt, size_nested_vec,
    write_nested, write_nested_opt, write_nested_vec,
};
use crate::wire::{
    lemma_size_seq, lemma_size_seq_mono, ser_seq, serialize_all, size_all, size_seq, views, writable_seq,
    write_matches, IsoSized, Wire,
};
use crate::boxes::edit::EditBox;
use crate::boxes::file_organization::TrackTypeBox;
use crate::boxes::media::MediaBox;
use crate::boxes::media_headers::TrackHeaderBox;
use crate::boxes::meta::MetaBox;
use crate::boxes::user_data_box::UserDataBox;

verus! {

/// Track reference box
///
/// `tref`
///
/// ISO/IEC 14496-12 - 8.3.3
#[derive(Debug)]
pub struct TrackReferenceBox {
    /// The references, one box of each reference type.
    pub track_reference_type: Vec<UnknownBox>,
}

/// The model of a [`TrackReferenceBox`].
pub struct TrackReferenceBoxModel {
    pub track_reference_type: Seq<UnknownBoxModel>,
}

impl View for TrackReferenceBox {
    type V = TrackReferenceBoxModel;

    open spec fn view(&self) -> TrackReferenceBoxModel {
        TrackReferenceBoxModel {
            track_reference_type: views(self.track_reference_type@),
        }
    }
}

/// Whether a box found in a tref has one of the types that it reads.
pub open spec fn tref_known(c: UnknownBoxModel) -> bool {
    false
}

/// The failure of reading a box of a known type found in a tref.
pub open spec fn tref_fault(c: UnknownBoxModel) -> Option<IsoError> {
    None
}

/// What a tref reads from its payload: the boxes before the first that fails, each box of a known type in its field (the
/// last one for a single field, which must be there where it is required) and every
/// other box kept as it is.
pub open spec fn tref_parse(s: Seq<u8>) -> Result<TrackReferenceBoxModel, IsoError> {
    let cs = spec_children(s);
    match scan_result(cs, |c: UnknownBoxModel| tref_fault(c)) {
        Err(e) => Err(e),
        Ok(k) => {
            let p = cs.take(k as int);
            Ok(
                TrackReferenceBoxModel {
                    track_reference_type: collect_unknown(p, |c: UnknownBoxModel| tref_known(c)),
                },
            )
        },
    }
}

/// The bytes of the boxes that a tref holds, in the order of its fields.
pub open spec fn tref_children_bytes(v: TrackReferenceBoxModel) -> Seq<u8> {
    ser_seq::<UnknownBox>(v.track_reference_type)
}

/// The boxes, as found in a container, that a tref writes.
pub open spec fn tref_models(v: TrackReferenceBoxModel) -> Seq<UnknownBoxModel> {
    v.track_reference_type
}

/// The payload that a tref writes.
pub open spec fn tref_bytes(v: TrackReferenceBoxModel) -> Seq<u8> {
    tref_children_bytes(v)
}

/// Every box of a known type can be written.
pub open spec fn tref_writable(v: TrackReferenceBoxModel) -> bool {
    true
}

/// Every box of a known type reads back as itself, and every other box is of
/// another type and announces exactly its payload.
pub open spec fn tref_canonical(v: TrackReferenceBoxModel) -> bool {
    &&& forall|i: int|
        0 <= i < v.track_reference_type.len() ==> UnknownBox::spec_canonical(#[trigger] v.track_reference_type[i]) && !tref_known(
            v.track_reference_type[i],
        )
}

impl IsoSized for TrackReferenceBox {
    open spec fn spec_size(&self) -> nat {
        add_header_size(size_seq::<UnknownBox>(self.track_reference_type@))
    }

    fn size(&self) -> (n: usize) {
        proof {
            lemma_size_seq_mono::<UnknownBox>(self.track_reference_type@, 0);
        }
        let mut n: usize = 0;
        n = n + size_all(&self.track_reference_type);
        add_header_size_exec(n)
    }
}

/// The fields of a tref read so far.
pub struct TrackReferenceBoxScan {
    pub track_reference_type: Vec<UnknownBox>,
}

/// The model of a [`TrackReferenceBoxScan`].
pub struct TrackReferenceBoxScanModel {
    pub track_reference_type: Seq<UnknownBoxModel>,
}

impl View for TrackReferenceBoxScan {
    type V = TrackReferenceBoxScanModel;

    open spec fn view(&self) -> TrackReferenceBoxScanModel {
        TrackReferenceBoxScanModel {
            track_reference_type: views(self.track_reference_type@),
        }
    }
}

/// What a tref holds after reading the boxes of `p`.
pub open spec fn tref_prefix(p: Seq<UnknownBoxModel>) -> TrackReferenceBoxScanModel {
    TrackReferenceBoxScanModel {
        track_reference_type: collect_unknown(p, |c: UnknownBoxModel| tref_known(c)),
    }
}

/// What a tref holds after reading one more box that does not fail.
pub open spec fn tref_extend(m: TrackReferenceBoxScanModel, c: UnknownBoxModel) -> TrackReferenceBoxScanModel {
    TrackReferenceBoxScanModel {
        track_reference_type: if tref_known(c) {
            m.track_reference_type
        } else {
            m.track_reference_type.push(c)
        },
    }
}

/// The types that a tref reads differ from one another.
pub open spec fn tref_types_differ() -> bool {
    true
}

proof fn lemma_tref_types()
    ensures
        tref_types_differ(),
{
}

/// Reads one box found in a tref into its field.
#[verifier::spinoff_prover]
#[verifier::rlimit(60)]
fn tref_step(c: &UnknownBox, acc: &mut TrackReferenceBoxScan) -> (r: Result<(), IsoError>)
    requires
        tref_types_differ(),
    ensures
        match r {
            Ok(()) => tref_fault(c@) is None && final(acc)@ == tref_extend(old(acc)@, c@),
            Err(e) => tref_fault(c@) == Some(e) && final(acc)@ == old(acc)@,
        },
{
    proof {
    }
    let kept = UnknownBox { header: c.header, data: vstd::slice::slice_to_vec(c.data.as_slice()) };
    let ghost old_v = views(acc.track_reference_type@);
    acc.track_reference_type.push(kept);
    proof {
        assert(views(acc.track_reference_type@) =~= old_v.push(c@));
        assert(acc@ =~= tref_extend(old(acc)@, c@));
    }
    Ok(())
}

/// Reading one more box extends what was read by it.
proof fn lemma_tref_prefix_step(css: Seq<UnknownBoxModel>, i: int)
    requires
        0 <= i < css.len(),
    ensures
        tref_prefix(css.take(i + 1)) == tref_extend(tref_prefix(css.take(i)), css[i]),
{
    lemma_unknown_step(css, |c: UnknownBoxModel| tref_known(c), i);
    let a = tref_prefix(css.take(i + 1));
    let b = tref_extend(tref_prefix(css.take(i)), css[i]);
    assert(a.track_reference_type =~= b.track_reference_type);
}

/// Reads the payload of a tref.
#[verifier::spinoff_prover]
#[verifier::rlimit(60)]
fn parse_tref(payload: &[u8]) -> (r: Result<TrackReferenceBox, IsoError>)
    ensures
        match (tref_parse(payload@), r) {
            (Ok(v), Ok(x)) => x@ == v,
            (Err(e), Err(f)) => e == f,
            _ => false,
        },
{
    let cs = read_children(payload);
    let ghost css = spec_children(payload@);
    let ghost fault = |c: UnknownBoxModel| tref_fault(c);
    let mut acc = TrackReferenceBoxScan {
        track_reference_type: Vec::new(),
    };
    let mut i: usize = 0;
    let mut stop = false;
    proof {
        lemma_tref_types();
        let e = css.take(0);
        assert(e =~= Seq::<UnknownBoxModel>::empty());
        assert(collect_unknown(e, |c: UnknownBoxModel| tref_known(c)) =~= Seq::<UnknownBoxModel>::empty());
        assert(views(acc.track_reference_type@) =~= Seq::<UnknownBoxModel>::empty());
        assert(acc@ =~= tref_prefix(e));
    }
    while i < cs.len() && !stop
        invariant
            views(cs@) == css,
            css == spec_children(payload@),
            fault == (|c: UnknownBoxModel| tref_fault(c)),
            tref_types_differ(),
            i <= cs@.len(),
            forall|j: int| 0 <= j < i ==> (#[trigger] fault(css[j])) is None,
            stop ==> i < css.len() && fault(css[i as int]) == Some(IsoError::UnexpectedEof),
            acc@ == tref_prefix(css.take(i as int)),
        decreases cs@.len() - i + (if stop { 0int } else { 1int }),
    {
        let c = &cs[i];
        proof {
            assert(c@ == css[i as int]);
            lemma_tref_prefix_step(css, i as int);
        }
        match tref_step(c, &mut acc) {
            Ok(()) => {
                i = i + 1;
            },
            Err(IsoError::UnexpectedEof) => {
                stop = true;
            },
            Err(e) => {
                proof {
                    lemma_first_fault(css, fault, i as int);
                }
                return Err(e);
            },
        }
    }
    proof {
        lemma_first_fault(css, fault, i as int);
        assert(first_fault(css, fault) == i);
    }
    let TrackReferenceBoxScan { track_reference_type } = acc;
    Ok(TrackReferenceBox { track_reference_type })
}

/// Writes the boxes of a tref in the order of its fields.
#[verifier::spinoff_prover]
#[verifier::rlimit(60)]
fn write_tref_children(x: &TrackReferenceBox, out: &mut Vec<u8>) -> (r: Result<(), IsoError>)
    requires
        x.spec_size() <= usize::MAX,
    ensures
        write_matches(r, tref_writable(x@), tref_children_bytes(x@), old(out)@, final(out)@),
{
    let ghost before = out@;
    let ghost v = x@;
    let _ = serialize_all(&x.track_reference_type, out);
    assert(out@ == before + ser_seq::<UnknownBox>(v.track_reference_type));
    let ghost m1 = out@;
    proof {
        lemma_append_prefix(before, ser_seq::<UnknownBox>(v.track_reference_type));
    }
    proof {
        let l1 = ser_seq::<UnknownBox>(v.track_reference_type);
        assert(m1 == before + l1);
        assert(tref_children_bytes(v) == l1);
        lemma_append_prefix(before, tref_children_bytes(v));
    }
    Ok(())
}

/// The boxes that a tref writes, read from their bytes one list after the other.
#[verifier::spinoff_prover]
#[verifier::rlimit(100)]
proof fn lemma_tref_children_chain(v: TrackReferenceBoxModel)
    requires
        tref_canonical(v),
    ensures
        spec_children(ser_seq::<UnknownBox>(v.track_reference_type)) == v.track_reference_type,
{
    let b0 = ser_seq::<UnknownBox>(v.track_reference_type);
    let s0 = v.track_reference_type;
    crate::children::lemma_children_empty();
    let t0 = b0;
    let u0 = s0;
    assert(b0 + Seq::<u8>::empty() =~= b0);
    assert(s0 + Seq::<UnknownBoxModel>::empty() =~= s0);
    lemma_unknown_seq_rest(v.track_reference_type, Seq::<u8>::empty());
    assert(spec_children(t0) == u0);
}

/// The boxes that a tref writes read back as their models.
#[verifier::spinoff_prover]
#[verifier::rlimit(100)]
proof fn lemma_tref_children(v: TrackReferenceBoxModel)
    requires
        tref_canonical(v),
    ensures
        spec_children(tref_children_bytes(v)) == tref_models(v),
{
    lemma_tref_children_chain(v);
    let b0 = ser_seq::<UnknownBox>(v.track_reference_type);
    let s0 = v.track_reference_type;
    let t0 = b0;
    let u0 = s0;
    let t1 = Seq::<u8>::empty();
    let u1 = Seq::<UnknownBoxModel>::empty();
    assert(b0 + t1 =~= t0);
    assert(s0 + u1 =~= u0);
    let l0 = Seq::<u8>::empty();
    let k0 = Seq::<UnknownBoxModel>::empty();
    assert(l0 + t0 =~= t0);
    assert(k0 + u0 =~= u0);
    let l1 = b0;
    let k1 = s0;
    assert(l1 + t1 == l0 + t0);
    assert(k1 + u1 == k0 + u0);
    assert(l1 + t1 =~= l1);
    assert(k1 + u1 =~= k1);
    assert(tref_children_bytes(v) == l1);
    assert(tref_models(v) == k1);
}

/// No box that a tref writes fails to read.
#[verifier::spinoff_prover]
#[verifier::rlimit(60)]
proof fn lemma_tref_no_fault(v: TrackReferenceBoxModel, j: int)
    requires
        tref_canonical(v),
        tref_types_differ(),
        0 <= j < tref_models(v).len(),
    ensures
        tref_fault(tref_models(v)[j]) is None,
{
    let cs = tref_models(v);
    let s0 = v.track_reference_type;
    let n0: int = 0;
    let n1: int = n0 + s0.len();
    if j < n1 {
        assert(cs[j] == s0[j - n0]);
        assert(!tref_known(v.track_reference_type[j - n0]));
    }
}

/// Collecting over the lists of a tref one after the other collects over each in
/// turn.
proof fn lemma_tref_split<T: BoxBody>(m0: Seq<UnknownBoxModel>)
    ensures
        collect_children::<T>(m0) == collect_children::<T>(m0),
{
}

/// The boxes of other types that a tref writes are collected back as they are.
#[verifier::spinoff_prover]
#[verifier::rlimit(60)]
proof fn lemma_tref_unknown(v: TrackReferenceBoxModel)
    requires
        tref_canonical(v),
    ensures
        collect_unknown(tref_models(v), |c: UnknownBoxModel| tref_known(c)) == v.track_reference_type,
{
    let known = |c: UnknownBoxModel| tref_known(c);
    let s0 = v.track_reference_type;
    assert forall|i: int| 0 <= i < s0.len() implies !#[trigger] known(s0[i]) by {}
    lemma_unknown_none_known(s0, known);
    assert(collect_unknown(tref_models(v), known) =~= v.track_reference_type);
}

/// Writing a tref and reading its payload back gives it again.
#[verifier::spinoff_prover]
#[verifier::rlimit(100)]
proof fn lemma_tref_roundtrip(v: TrackReferenceBoxModel)
    requires
        tref_canonical(v),
    ensures
        tref_parse(tref_bytes(v)) == Ok::<TrackReferenceBoxModel, IsoError>(v),
{
    let s = tref_bytes(v);
    lemma_tref_children(v);
    lemma_tref_types();
    let cs = tref_models(v);
    let fault = |c: UnknownBoxModel| tref_fault(c);
    assert forall|j: int| 0 <= j < cs.len() implies (#[trigger] fault(cs[j])) is None by {
        lemma_tref_no_fault(v, j);
    }
    lemma_first_fault(cs, fault, cs.len() as int);
    assert(cs.take(cs.len() as int) =~= cs);
    lemma_tref_unknown(v);
    assert(spec_children(s) == cs);
}

/// For a value that reads back as itself, the size is that of its payload and header.
#[verifier::spinoff_prover]
#[verifier::rlimit(60)]
proof fn lemma_tref_size(x: TrackReferenceBox)
    requires
        tref_canonical(x@),
    ensures
        size_seq::<UnknownBox>(x.track_reference_type@) == tref_bytes(x@).len(),
{
    let v = x@;
    assert(writable_seq::<UnknownBox>(views(x.track_reference_type@)));
    lemma_size_seq::<UnknownBox>(x.track_reference_type@);
}

impl BoxBody for TrackReferenceBox {
    open spec fn spec_box_type() -> [u8; 4] {
        [0x74u8, 0x72u8, 0x65u8, 0x66u8]
    }

    fn box_type() -> (r: [u8; 4]) {
        [0x74u8, 0x72u8, 0x65u8, 0x66u8]
    }

    open spec fn spec_parse_body(s: Seq<u8>) -> Result<TrackReferenceBoxModel, IsoError> {
        tref_parse(s)
    }

    open spec fn spec_writable(v: TrackReferenceBoxModel) -> bool {
        tref_writable(v)
    }

    open spec fn spec_serialize_body(v: TrackReferenceBoxModel) -> Seq<u8> {
        tref_bytes(v)
    }

    open spec fn spec_canonical(v: TrackReferenceBoxModel) -> bool {
        tref_canonical(v)
    }

    proof fn lemma_box_type() {
        assert(Self::spec_box_type()[0] != spec_uuid_fourcc()[0]);
    }

    proof fn lemma_body_size(x: TrackReferenceBox) {
        lemma_tref_size(x);
    }

    proof fn lemma_body_roundtrip(v: TrackReferenceBoxModel) {
        lemma_tref_roundtrip(v);
    }

    fn parse_body(payload: &[u8]) -> (r: Result<TrackReferenceBox, IsoError>) {
        parse_tref(payload)
    }

    #[verifier::spinoff_prover]
    #[verifier::rlimit(60)]
    fn serialize_body(&self, out: &mut Vec<u8>) -> (r: Result<(), IsoError>) {
        write_tref_children(self, out)
    }
}

/// Track group box
///
/// `trgr`
///
/// ISO/IEC 14496-12 - 8.3.4
#[derive(Debug)]
pub struct TrackGroupBox {
    /// The groups, one box of each group type.
    pub track_group_type: Vec<UnknownBox>,
}

/// The model of a [`TrackGroupBox`].
pub struct TrackGroupBoxModel {
    pub track_group_type: Seq<UnknownBoxModel>,
}

impl View for TrackGroupBox {
    type V = TrackGroupBoxModel;

    open spec fn view(&self) -> TrackGroupBoxModel {
        TrackGroupBoxModel {
            track_group_type: views(self.track_group_type@),
        }
    }
}

/// Whether a box found in a trgr has one of the types that it reads.
pub open spec fn trgr_known(c: UnknownBoxModel) -> bool {
    false
}

/// The failure of reading a box of a known type found in a trgr.
pub open spec fn trgr_fault(c: UnknownBoxModel) -> Option<IsoError> {
    None
}

/// What a trgr reads from its payload: the boxes before the first that fails, each box of a known type in its field (the
/// last one for a single field, which must be there where it is required) and every
/// other box kept as it is.
pub open spec fn trgr_parse(s: Seq<u8>) -> Result<TrackGroupBoxModel, IsoError> {
    let cs = spec_children(s);
    match scan_result(cs, |c: UnknownBoxModel| trgr_fault(c)) {
        Err(e) => Err(e),
        Ok(k) => {
            let p = cs.take(k as int);
            Ok(
                TrackGroupBoxModel {
                    track_group_type: collect_unknown(p, |c: UnknownBoxModel| trgr_known(c)),
                },
            )
        },
    }
}

/// The bytes of the boxes that a trgr holds, in the order of its fields.
pub open spec fn trgr_children_bytes(v: TrackGroupBoxModel) -> Seq<u8> {
    ser_seq::<UnknownBox>(v.track_group_type)
}

/// The boxes, as found in a container, that a trgr writes.
pub open spec fn trgr_models(v: TrackGroupBoxModel) -> Seq<UnknownBoxModel> {
    v.track_group_type
}

/// The payload that a trgr writes.
pub open spec fn trgr_bytes(v: TrackGroupBoxModel) -> Seq<u8> {
    trgr_children_bytes(v)
}

/// Every box of a known type can be written.
pub open spec fn trgr_writable(v: TrackGroupBoxModel) -> bool {
    true
}

/// Every box of a known type reads back as itself, and every other box is of
/// another type and announces exactly its payload.
pub open spec fn trgr_canonical(v: TrackGroupBoxModel) -> bool {
    &&& forall|i: int|
        0 <= i < v.track_group_type.len() ==> UnknownBox::spec_canonical(#[trigger] v.track_group_type[i]) && !trgr_known(
            v.track_group_type[i],
        )
}

impl IsoSized for TrackGroupBox {
    open spec fn spec_size(&self) -> nat {
        add_header_size(size_seq::<UnknownBox>(self.track_group_type@))
    }

    fn size(&self) -> (n: usize) {
        proof {
            lemma_size_seq_mono::<UnknownBox>(self.track_group_type@, 0);
        }
        let mut n: usize = 0;
        n = n + size_all(&self.track_group_type);
        add_header_size_exec(n)
    }
}

/// The fields of a trgr read so far.
pub struct TrackGroupBoxScan {
    pub track_group_type: Vec<UnknownBox>,
}

/// The model of a [`TrackGroupBoxScan`].
pub struct TrackGroupBoxScanModel {
    pub track_group_type: Seq<UnknownBoxModel>,
}

impl View for TrackGroupBoxScan {
    type V = TrackGroupBoxScanModel;

    open spec fn view(&self) -> TrackGroupBoxScanModel {
        TrackGroupBoxScanModel {
            track_group_type: views(self.track_group_type@),
        }
    }
}

/// What a trgr holds after reading the boxes of `p`.
pub open spec fn trgr_prefix(p: Seq<UnknownBoxModel>) -> TrackGroupBoxScanModel {
    TrackGroupBoxScanModel {
        track_group_type: collect_unknown(p, |c: UnknownBoxModel| trgr_known(c)),
    }
}

/// What a trgr holds after reading one more box that does not fail.
pub open spec fn trgr_extend(m: TrackGroupBoxScanModel, c: UnknownBoxModel) -> TrackGroupBoxScanModel {
    TrackGroupBoxScanModel {
        track_group_type: if trgr_known(c) {
            m.track_group_type
        } else {
            m.track_group_type.push(c)
        },
    }
}

/// The types that a trgr reads differ from one another.
pub open spec fn trgr_types_differ() -> bool {
    true
}

proof fn lemma_trgr_types()
    ensures
        trgr_types_differ(),
{
}

/// Reads one box found in a trgr into its field.
#[verifier::spinoff_prover]
#[verifier::rlimit(60)]
fn trgr_step(c: &UnknownBox, acc: &mut TrackGroupBoxScan) -> (r: Result<(), IsoError>)
    requires
        trgr_types_differ(),
    ensures
        match r {
            Ok(()) => trgr_fault(c@) is None && final(acc)@ == trgr_extend(old(acc)@, c@),
            Err(e) => trgr_fault(c@) == Some(e) && final(acc)@ == old(acc)@,
        },
{
    proof {
    }
    let kept = UnknownBox { header: c.header, data: vstd::slice::slice_to_vec(c.data.as_slice()) };
    let ghost old_v = views(acc.track_group_type@);
    acc.track_group_type.push(kept);
    proof {
        assert(views(acc.track_group_type@) =~= old_v.push(c@));
        assert(acc@ =~= trgr_extend(old(acc)@, c@));
    }
    Ok(())
}

/// Reading one more box extends what was read by it.
proof fn lemma_trgr_prefix_step(css: Seq<UnknownBoxModel>, i: int)
    requires
        0 <= i < css.len(),
    ensures
        trgr_prefix(css.take(i + 1)) == trgr_extend(trgr_prefix(css.take(i)), css[i]),
{
    lemma_unknown_step(css, |c: UnknownBoxModel| trgr_known(c), i);
    let a = trgr_prefix(css.take(i + 1));
    let b = trgr_extend(trgr_prefix(css.take(i)), css[i]);
    assert(a.track_group_type =~= b.track_group_type);
}

/// Reads the payload of a trgr.
#[verifier::spinoff_prover]
#[verifier::rlimit(60)]
fn parse_trgr(payload: &[u8]) -> (r: Result<TrackGroupBox, IsoError>)
    ensures
        match (trgr_parse(payload@), r) {
            (Ok(v), Ok(x)) => x@ == v,
            (Err(e), Err(f)) => e == f,
            _ => false,
        },
{
    let cs = read_children(payload);
    let ghost css = spec_children(payload@);
    let ghost fault = |c: UnknownBoxModel| trgr_fault(c);
    let mut acc = TrackGroupBoxScan {
        track_group_type: Vec::new(),
    };
    let mut i: usize = 0;
    let mut stop = false;
    proof {
        lemma_trgr_types();
        let e = css.take(0);
        assert(e =~= Seq::<UnknownBoxModel>::empty());
        assert(collect_unknown(e, |c: UnknownBoxModel| trgr_known(c)) =~= Seq::<UnknownBoxModel>::empty());
        assert(views(acc.track_group_type@) =~= Seq::<UnknownBoxModel>::empty());
        assert(acc@ =~= trgr_prefix(e));
    }
    while i < cs.len() && !stop
        invariant
            views(cs@) == css,
            css == spec_children(payload@),
            fault == (|c: UnknownBoxModel| trgr_fault(c)),
            trgr_types_differ(),
            i <= cs@.len(),
            forall|j: int| 0 <= j < i ==> (#[trigger] fault(css[j])) is None,
            stop ==> i < css.len() && fault(css[i as int]) == Some(IsoError::UnexpectedEof),
            acc@ == trgr_prefix(css.take(i as int)),
        decreases cs@.len() - i + (if stop { 0int } else { 1int }),
    {
        let c = &cs[i];
        proof {
            assert(c@ == css[i as int]);
            lemma_trgr_prefix_step(css, i as int);
        }
        match trgr_step(c, &mut acc) {
            Ok(()) => {
                i = i + 1;
            },
            Err(IsoError::UnexpectedEof) => {
                stop = true;
            },
            Err(e) => {
                proof {
                    lemma_first_fault(css, fault, i as int);
                }
                return Err(e);
            },
        }
    }
    proof {
        lemma_first_fault(css, fault, i as int);
        assert(first_fault(css, fault) == i);
    }
    let TrackGroupBoxScan { track_group_type } = acc;
    Ok(TrackGroupBox { track_group_type })
}

/// Writes the boxes of a trgr in the order of its fields.
#[verifier::spinoff_prover]
#[verifier::rlimit(60)]
fn write_trgr_children(x: &TrackGroupBox, out: &mut Vec<u8>) -> (r: Result<(), IsoError>)
    requires
        x.spec_size() <= usize::MAX,
    ensures
        write_matches(r, trgr_writable(x@), trgr_children_bytes(x@), old(out)@, final(out)@),
{
    let ghost before = out@;
    let ghost v = x@;
    let _ = serialize_all(&x.track_group_type, out);
    assert(out@ == before + ser_seq::<UnknownBox>(v.track_group_type));
    let ghost m1 = out@;
    proof {
        lemma_append_prefix(before, ser_seq::<UnknownBox>(v.track_group_type));
    }
    proof {
        let l1 = ser_seq::<UnknownBox>(v.track_group_type);
        assert(m1 == before + l1);
        assert(trgr_children_bytes(v) == l1);
        lemma_append_prefix(before, trgr_children_bytes(v));
    }
    Ok(())
}

/// The boxes that a trgr writes, read from their bytes one list after the other.
#[verifier::spinoff_prover]
#[verifier::rlimit(100)]
proof fn lemma_trgr_children_chain(v: TrackGroupBoxModel)
    requires
        trgr_canonical(v),
    ensures
        spec_children(ser_seq::<UnknownBox>(v.track_group_type)) == v.track_group_type,
{
    let b0 = ser_seq::<UnknownBox>(v.track_group_type);
    let s0 = v.track_group_type;
    crate::children::lemma_children_empty();
    let t0 = b0;
    let u0 = s0;
    assert(b0 + Seq::<u8>::empty() =~= b0);
    assert(s0 + Seq::<UnknownBoxModel>::empty() =~= s0);
    lemma_unknown_seq_rest(v.track_group_type, Seq::<u8>::empty());
    assert(spec_children(t0) == u0);
}

/// The boxes that a trgr writes read back as their models.
#[verifier::spinoff_prover]
#[verifier::rlimit(100)]
proof fn lemma_trgr_children(v: TrackGroupBoxModel)
    requires
        trgr_canonical(v),
    ensures
        spec_children(trgr_children_bytes(v)) == trgr_models(v),
{
    lemma_trgr_children_chain(v);
    let b0 = ser_seq::<UnknownBox>(v.track_group_type);
    let s0 = v.track_group_type;
    let t0 = b0;
    let u0 = s0;
    let t1 = Seq::<u8>::empty();
    let u1 = Seq::<UnknownBoxModel>::empty();
    assert(b0 + t1 =~= t0);
    assert(s0 + u1 =~= u0);
    let l0 = Seq::<u8>::empty();
    let k0 = Seq::<UnknownBoxModel>::empty();
    assert(l0 + t0 =~= t0);
    assert(k0 + u0 =~= u0);
    let l1 = b0;
    let k1 = s0;
    assert(l1 + t1 == l0 + t0);
    assert(k1 + u1 == k0 + u0);
    assert(l1 + t1 =~= l1);
    assert(k1 + u1 =~= k1);
    assert(trgr_children_bytes(v) == l1);
    assert(trgr_models(v) == k1);
}

/// No box that a trgr writes fails to read.
#[verifier::spinoff_prover]
#[verifier::rlimit(60)]
proof fn lemma_trgr_no_fault(v: TrackGroupBoxModel, j: int)
    requires
        trgr_canonical(v),
        trgr_types_differ(),
        0 <= j < trgr_models(v).len(),
    ensures
        trgr_fault(trgr_models(v)[j]) is None,
{
    let cs = trgr_models(v);
    let s0 = v.track_group_type;
    let n0: int = 0;
    let n1: int = n0 + s0.len();
    if j < n1 {
        assert(cs[j] == s0[j - n0]);
        assert(!trgr_known(v.track_group_type[j - n0]));
    }
}

/// Collecting over the lists of a trgr one after the other collects over each in
/// turn.
proof fn lemma_trgr_split<T: BoxBody>(m0: Seq<UnknownBoxModel>)
    ensures
        collect_children::<T>(m0) == collect_children::<T>(m0),
{
}

/// The boxes of other types that a trgr writes are collected back as they are.
#[verifier::spinoff_prover]
#[verifier::rlimit(60)]
proof fn lemma_trgr_unknown(v: TrackGroupBoxModel)
    requires
        trgr_canonical(v),
    ensures
        collect_unknown(trgr_models(v), |c: UnknownBoxModel| trgr_known(c)) == v.track_group_type,
{
    let known = |c: UnknownBoxModel| trgr_known(c);
    let s0 = v.track_group_type;
    assert forall|i: int| 0 <= i < s0.len() implies !#[trigger] known(s0[i]) by {}
    lemma_unknown_none_known(s0, known);
    assert(collect_unknown(trgr_models(v), known) =~= v.track_group_type);
}

/// Writing a trgr and reading its payload back gives it again.
#[verifier::spinoff_prover]
#[verifier::rlimit(100)]
proof fn lemma_trgr_roundtrip(v: TrackGroupBoxModel)
    requires
        trgr_canonical(v),
    ensures
        trgr_parse(trgr_bytes(v)) == Ok::<TrackGroupBoxModel, IsoError>(v),
{
    let s = trgr_bytes(v);
    lemma_trgr_children(v);
    lemma_trgr_types();
    let cs = trgr_models(v);
    let fault = |c: UnknownBoxModel| trgr_fault(c);
    assert forall|j: int| 0 <= j < cs.len() implies (#[trigger] fault(cs[j])) is None by {
        lemma_trgr_no_fault(v, j);
    }
    lemma_first_fault(cs, fault, cs.len() as int);
    assert(cs.take(cs.len() as int) =~= cs);
    lemma_trgr_unknown(v);
    assert(spec_children(s) == cs);
}

/// For a value that reads back as itself, the size is that of its payload and header.
#[verifier::spinoff_prover]
#[verifier::rlimit(60)]
proof fn lemma_trgr_size(x: TrackGroupBox)
    requires
        trgr_canonical(x@),
    ensures
        size_seq::<UnknownBox>(x.track_group_type@) == trgr_bytes(x@).len(),
{
    let v = x@;
    assert(writable_seq::<UnknownBox>(views(x.track_group_type@)));
    lemma_size_seq::<UnknownBox>(x.track_group_type@);
}

impl BoxBody for TrackGroupBox {
    open spec fn spec_box_type() -> [u8; 4] {
        [0x74u8, 0x72u8, 0x67u8, 0x72u8]
    }

    fn box_type() -> (r: [u8; 4]) {
        [0x74u8, 0x72u8, 0x67u8, 0x72u8]
    }

    open spec fn spec_parse_body(s: Seq<u8>) -> Result<TrackGroupBoxModel, IsoError> {
        trgr_parse(s)
    }

    open spec fn spec_writable(v: TrackGroupBoxModel) -> bool {
        trgr_writable(v)
    }

    open spec fn spec_serialize_body(v: TrackGroupBoxModel) -> Seq<u8> {
        trgr_bytes(v)
    }

    open spec fn spec_canonical(v: TrackGroupBoxModel) -> bool {
        trgr_canonical(v)
    }

    proof fn lemma_box_type() {
        assert(Self::spec_box_type()[0] != spec_uuid_fourcc()[0]);
    }

    proof fn lemma_body_size(x: TrackGroupBox) {
        lemma_trgr_size(x);
    }

    proof fn lemma_body_roundtrip(v: TrackGroupBoxModel) {
        lemma_trgr_roundtrip(v);
    }

    fn parse_body(payload: &[u8]) -> (r: Result<TrackGroupBox, IsoError>) {
        parse_trgr(payload)
    }

    #[verifier::spinoff_prover]
    #[verifier::rlimit(60)]
    fn serialize_body(&self, out: &mut Vec<u8>) -> (r: Result<(), IsoError>) {
        write_trgr_children(self, out)
    }
}

/// Track box
///
/// `trak`
///
/// ISO/IEC 14496-12 - 8.3.1
#[derive(Debug)]
pub struct TrackBox {
    /// The contained [`TrackHeaderBox`]. (mandatory)
    pub tkhd: TrackHeaderBox,
    /// The contained [`TrackReferenceBox`]. (optional)
    pub tref: Option<TrackReferenceBox>,
    /// The contained [`TrackGroupBox`]. (optional)
    pub trgr: Option<TrackGroupBox>,
    /// The contained [`EditBox`]. (optional)
    pub edts: Option<EditBox>,
    /// The contained [`TrackTypeBox`]. (optional)
    pub ttyp: Option<TrackTypeBox>,
    /// The contained [`MetaBox`]. (optional)
    pub meta: Option<MetaBox>,
    /// The contained [`MediaBox`]. (mandatory)
    pub mdia: MediaBox,
    /// The boxes of other types, kept as they are.
    pub unknown_boxes: Vec<UnknownBox>,
    /// The contained [`UserDataBox`]. (optional)
    pub udta: Option<UserDataBox>,
}

/// The model of a [`TrackBox`].
pub struct TrackBoxModel {
    pub tkhd: <TrackHeaderBox as View>::V,
    pub tref: Option<<TrackReferenceBox as View>::V>,
    pub trgr: Option<<TrackGroupBox as View>::V>,
    pub edts: Option<<EditBox as View>::V>,
    pub ttyp: Option<<TrackTypeBox as View>::V>,
    pub meta: Option<<MetaBox as View>::V>,
    pub mdia: <MediaBox as View>::V,
    pub unknown_boxes: Seq<UnknownBoxModel>,
    pub udta: Option<<UserDataBox as View>::V>,
}

impl View for TrackBox {
    type V = TrackBoxModel;

    open spec fn view(&self) -> TrackBoxModel {
        TrackBoxModel {
            tkhd: self.tkhd@,
            tref: opt_view(self.tref),
            trgr: opt_view(self.trgr),
            edts: opt_view(self.edts),
            ttyp: opt_view(self.ttyp),
            meta: opt_view(self.meta),
            mdia: self.mdia@,
            unknown_boxes: views(self.unknown_boxes@),
            udta: opt_view(self.udta),
        }
    }
}

/// Whether a box found in a trak has one of the types that it reads.
pub open spec fn trak_known(c: UnknownBoxModel) -> bool {
    is_child::<TrackHeaderBox>(c) || is_child::<TrackReferenceBox>(c) || is_child::<TrackGroupBox>(c) || is_child::<EditBox>(c) || is_child::<TrackTypeBox>(c) || is_child::<MetaBox>(c) || is_child::<MediaBox>(c) || is_child::<UserDataBox>(c)
}

/// The failure of reading a box of a known type found in a trak.
pub open spec fn trak_fault(c: UnknownBoxModel) -> Option<IsoError> {
    if is_child::<TrackHeaderBox>(c) {
        child_fault::<TrackHeaderBox>(c)
    }     else if is_child::<TrackReferenceBox>(c) {
        child_fault::<TrackReferenceBox>(c)
    }     else if is_child::<TrackGroupBox>(c) {
        child_fault::<TrackGroupBox>(c)
    }     else if is_child::<EditBox>(c) {
        child_fault::<EditBox>(c)
    }     else if is_child::<TrackTypeBox>(c) {
        child_fault::<TrackTypeBox>(c)
    }     else if is_child::<MetaBox>(c) {
        child_fault::<MetaBox>(c)
    }     else if is_child::<MediaBox>(c) {
        child_fault::<MediaBox>(c)
    }     else if is_child::<UserDataBox>(c) {
        child_fault::<UserDataBox>(c)
    } else {
        None
    }
}

/// What a trak reads from its payload: the boxes before the first that fails, each box of a known type in its field (the
/// last one for a single field, which must be there where it is required) and every
/// other box kept as it is.
pub open spec fn trak_parse(s: Seq<u8>) -> Result<TrackBoxModel, IsoError> {
    let cs = spec_children(s);
    match scan_result(cs, |c: UnknownBoxModel| trak_fault(c)) {
        Err(e) => Err(e),
        Ok(k) => {
            let p = cs.take(k as int);
            match last_child::<TrackHeaderBox>(p) {
                None => Err(IsoError::InvalidData),
                Some(tkhd) =>                 match last_child::<MediaBox>(p) {
                    None => Err(IsoError::InvalidData),
                    Some(mdia) => Ok(
                        TrackBoxModel {
                            tkhd: tkhd,
                            tref: last_child::<TrackReferenceBox>(p),
                            trgr: last_child::<TrackGroupBox>(p),
                            edts: last_child::<EditBox>(p),
                            ttyp: last_child::<TrackTypeBox>(p),
                            meta: last_child::<MetaBox>(p),
                            mdia: mdia,
                            unknown_boxes: collect_unknown(p, |c: UnknownBoxModel| trak_known(c)),
                            udta: last_child::<UserDataBox>(p),
                        },
                    ),
                },
            }
        },
    }
}

/// The bytes of the boxes that a trak holds, in the order of its fields.
pub open spec fn trak_children_bytes(v: TrackBoxModel) -> Seq<u8> {
    nested_box_bytes::<TrackHeaderBox>(v.tkhd)
        + nested_opt_bytes::<TrackReferenceBox>(v.tref)
        + nested_opt_bytes::<TrackGroupBox>(v.trgr)
        + nested_opt_bytes::<EditBox>(v.edts)
        + nested_opt_bytes::<TrackTypeBox>(v.ttyp)
        + nested_opt_bytes::<MetaBox>(v.meta)
        + nested_box_bytes::<MediaBox>(v.mdia)
        + ser_seq::<UnknownBox>(v.unknown_boxes)
        + nested_opt_bytes::<UserDataBox>(v.udta)
}

/// The boxes, as found in a container, that a trak writes.
pub open spec fn trak_models(v: TrackBoxModel) -> Seq<UnknownBoxModel> {
    seq![nested_model::<TrackHeaderBox>(v.tkhd)]
        + nested_opt_models::<TrackReferenceBox>(v.tref)
        + nested_opt_models::<TrackGroupBox>(v.trgr)
        + nested_opt_models::<EditBox>(v.edts)
        + nested_opt_models::<TrackTypeBox>(v.ttyp)
        + nested_opt_models::<MetaBox>(v.meta)
        + seq![nested_model::<MediaBox>(v.mdia)]
        + v.unknown_boxes
        + nested_opt_models::<UserDataBox>(v.udta)
}

/// The payload that a trak writes.
pub open spec fn trak_bytes(v: TrackBoxModel) -> Seq<u8> {
    trak_children_bytes(v)
}

/// Every box of a known type can be written.
pub open spec fn trak_writable(v: TrackBoxModel) -> bool {
    &&& nested_writable::<TrackHeaderBox>(v.tkhd)
    &&& nested_opt_writable::<TrackReferenceBox>(v.tref)
    &&& nested_opt_writable::<TrackGroupBox>(v.trgr)
    &&& nested_opt_writable::<EditBox>(v.edts)
    &&& nested_opt_writable::<TrackTypeBox>(v.ttyp)
    &&& nested_opt_writable::<MetaBox>(v.meta)
    &&& nested_writable::<MediaBox>(v.mdia)
    &&& nested_opt_writable::<UserDataBox>(v.udta)
}

/// Every box of a known type reads back as itself, and every other box is of
/// another type and announces exactly its payload.
pub open spec fn trak_canonical(v: TrackBoxModel) -> bool {
    &&& nested_ok::<TrackHeaderBox>(v.tkhd)
    &&& nested_opt_ok::<TrackReferenceBox>(v.tref)
    &&& nested_opt_ok::<TrackGroupBox>(v.trgr)
    &&& nested_opt_ok::<EditBox>(v.edts)
    &&& nested_opt_ok::<TrackTypeBox>(v.ttyp)
    &&& nested_opt_ok::<MetaBox>(v.meta)
    &&& nested_ok::<MediaBox>(v.mdia)
    &&& nested_opt_ok::<UserDataBox>(v.udta)
    &&& forall|i: int|
        0 <= i < v.unknown_boxes.len() ==> UnknownBox::spec_canonical(#[trigger] v.unknown_boxes[i]) && !trak_known(
            v.unknown_boxes[i],
        )
}

impl IsoSized for TrackBox {
    open spec fn spec_size(&self) -> nat {
        add_header_size(self.tkhd.spec_size() + nested_opt_size::<TrackReferenceBox>(self.tref) + nested_opt_size::<TrackGroupBox>(self.trgr) + nested_opt_size::<EditBox>(self.edts) + nested_opt_size::<TrackTypeBox>(self.ttyp) + nested_opt_size::<MetaBox>(self.meta) + self.mdia.spec_size() + size_seq::<UnknownBox>(self.unknown_boxes@) + nested_opt_size::<UserDataBox>(self.udta))
    }

    fn size(&self) -> (n: usize) {
        proof {
            lemma_size_seq_mono::<UnknownBox>(self.unknown_boxes@, 0);
        }
        let mut n: usize = 0;
        n = n + self.tkhd.size();
        n = n + size_nested_opt(&self.tref);
        n = n + size_nested_opt(&self.trgr);
        n = n + size_nested_opt(&self.edts);
        n = n + size_nested_opt(&self.ttyp);
        n = n + size_nested_opt(&self.meta);
        n = n + self.mdia.size();
        n = n + size_all(&self.unknown_boxes);
        n = n + size_nested_opt(&self.udta);
        add_header_size_exec(n)
    }
}

/// The fields of a trak read so far.
pub struct TrackBoxScan {
    pub tkhd: Option<TrackHeaderBox>,
    pub tref: Option<TrackReferenceBox>,
    pub trgr: Option<TrackGroupBox>,
    pub edts: Option<EditBox>,
    pub ttyp: Option<TrackTypeBox>,
    pub meta: Option<MetaBox>,
    pub mdia: Option<MediaBox>,
    pub unknown_boxes: Vec<UnknownBox>,
    pub udta: Option<UserDataBox>,
}

/// The model of a [`TrackBoxScan`].
pub struct TrackBoxScanModel {
    pub tkhd: Option<<TrackHeaderBox as View>::V>,
    pub tref: Option<<TrackReferenceBox as View>::V>,
    pub trgr: Option<<TrackGroupBox as View>::V>,
    pub edts: Option<<EditBox as View>::V>,
    pub ttyp: Option<<TrackTypeBox as View>::V>,
    pub meta: Option<<MetaBox as View>::V>,
    pub mdia: Option<<MediaBox as View>::V>,
    pub unknown_boxes: Seq<UnknownBoxModel>,
    pub udta: Option<<UserDataBox as View>::V>,
}

impl View for TrackBoxScan {
    type V = TrackBoxScanModel;

    open spec fn view(&self) -> TrackBoxScanModel {
        TrackBoxScanModel {
            tkhd: opt_view(self.tkhd),
            tref: opt_view(self.tref),
            trgr: opt_view(self.trgr),
            edts: opt_view(self.edts),
            ttyp: opt_view(self.ttyp),
            meta: opt_view(self.meta),
            mdia: opt_view(self.mdia),
            unknown_boxes: views(self.unknown_boxes@),
            udta: opt_view(self.udta),
        }
    }
}

/// What a trak holds after reading the boxes of `p`.
pub open spec fn trak_prefix(p: Seq<UnknownBoxModel>) -> TrackBoxScanModel {
    TrackBoxScanModel {
        tkhd: last_child::<TrackHeaderBox>(p),
        tref: last_child::<TrackReferenceBox>(p),
        trgr: last_child::<TrackGroupBox>(p),
        edts: last_child::<EditBox>(p),
        ttyp: last_child::<TrackTypeBox>(p),
        meta: last_child::<MetaBox>(p),
        mdia: last_child::<MediaBox>(p),
        unknown_boxes: collect_unknown(p, |c: UnknownBoxModel| trak_known(c)),
        udta: last_child::<UserDataBox>(p),
    }
}

/// What a trak holds after reading one more box that does not fail.
pub open spec fn trak_extend(m: TrackBoxScanModel, c: UnknownBoxModel) -> TrackBoxScanModel {
    TrackBoxScanModel {
        tkhd: match child_value::<TrackHeaderBox>(c) {
            Some(v) => Some(v),
            None => m.tkhd,
        },
        tref: match child_value::<TrackReferenceBox>(c) {
            Some(v) => Some(v),
            None => m.tref,
        },
        trgr: match child_value::<TrackGroupBox>(c) {
            Some(v) => Some(v),
            None => m.trgr,
        },
        edts: match child_value::<EditBox>(c) {
            Some(v) => Some(v),
            None => m.edts,
        },
        ttyp: match child_value::<TrackTypeBox>(c) {
            Some(v) => Some(v),
            None => m.ttyp,
        },
        meta: match child_value::<MetaBox>(c) {
            Some(v) => Some(v),
            None => m.meta,
        },
        mdia: match child_value::<MediaBox>(c) {
            Some(v) => Some(v),
            None => m.mdia,
        },
        unknown_boxes: if trak_known(c) {
            m.unknown_boxes
        } else {
            m.unknown_boxes.push(c)
        },
        udta: match child_value::<UserDataBox>(c) {
            Some(v) => Some(v),
            None => m.udta,
        },
    }
}

/// The types that a trak reads differ from one another.
pub open spec fn trak_types_differ() -> bool {
    &&& TrackHeaderBox::spec_box_type() != TrackReferenceBox::spec_box_type()
    &&& TrackHeaderBox::spec_box_type() != TrackGroupBox::spec_box_type()
    &&& TrackHeaderBox::spec_box_type() != EditBox::spec_box_type()
    &&& TrackHeaderBox::spec_box_type() != TrackTypeBox::spec_box_type()
    &&& TrackHeaderBox::spec_box_type() != MetaBox::spec_box_type()
    &&& TrackHeaderBox::spec_box_type() != MediaBox::spec_box_type()
    &&& TrackHeaderBox::spec_box_type() != UserDataBox::spec_box_type()
    &&& TrackReferenceBox::spec_box_type() != TrackGroupBox::spec_box_type()
    &&& TrackReferenceBox::spec_box_type() != EditBox::spec_box_type()
    &&& TrackReferenceBox::spec_box_type() != TrackTypeBox::spec_box_type()
    &&& TrackReferenceBox::spec_box_type() != MetaBox::spec_box_type()
    &&& TrackReferenceBox::spec_box_type() != MediaBox::spec_box_type()
    &&& TrackReferenceBox::spec_box_type() != UserDataBox::spec_box_type()
    &&& TrackGroupBox::spec_box_type() != EditBox::spec_box_type()
    &&& TrackGroupBox::spec_box_type() != TrackTypeBox::spec_box_type()
    &&& TrackGroupBox::spec_box_type() != MetaBox::spec_box_type()
    &&& TrackGroupBox::spec_box_type() != MediaBox::spec_box_type()
    &&& TrackGroupBox::spec_box_type() != UserDataBox::spec_box_type()
    &&& EditBox::spec_box_type() != TrackTypeBox::spec_box_type()
    &&& EditBox::spec_box_type() != MetaBox::spec_box_type()
    &&& EditBox::spec_box_type() != MediaBox::spec_box_type()
    &&& EditBox::spec_box_type() != UserDataBox::spec_box_type()
    &&& TrackTypeBox::spec_box_type() != MetaBox::spec_box_type()
    &&& TrackTypeBox::spec_box_type() != MediaBox::spec_box_type()
    &&& TrackTypeBox::spec_box_type() != UserDataBox::spec_box_type()
    &&& MetaBox::spec_box_type() != MediaBox::spec_box_type()
    &&& MetaBox::spec_box_type() != UserDataBox::spec_box_type()
    &&& MediaBox::spec_box_type() != UserDataBox::spec_box_type()
}

proof fn lemma_trak_types()
    ensures
        trak_types_differ(),
{
    assert(TrackHeaderBox::spec_box_type()[1] != TrackReferenceBox::spec_box_type()[1]);
    assert(TrackHeaderBox::spec_box_type()[1] != TrackGroupBox::spec_box_type()[1]);
    assert(TrackHeaderBox::spec_box_type()[0] != EditBox::spec_box_type()[0]);
    assert(TrackHeaderBox::spec_box_type()[1] != TrackTypeBox::spec_box_type()[1]);
    assert(TrackHeaderBox::spec_box_type()[0] != MetaBox::spec_box_type()[0]);
    assert(TrackHeaderBox::spec_box_type()[0] != MediaBox::spec_box_type()[0]);
    assert(TrackHeaderBox::spec_box_type()[0] != UserDataBox::spec_box_type()[0]);
    assert(TrackReferenceBox::spec_box_type()[2] != TrackGroupBox::spec_box_type()[2]);
    assert(TrackReferenceBox::spec_box_type()[0] != EditBox::spec_box_type()[0]);
    assert(TrackReferenceBox::spec_box_type()[1] != TrackTypeBox::spec_box_type()[1]);
    assert(TrackReferenceBox::spec_box_type()[0] != MetaBox::spec_box_type()[0]);
    assert(TrackReferenceBox::spec_box_type()[0] != MediaBox::spec_box_type()[0]);
    assert(TrackReferenceBox::spec_box_type()[0] != UserDataBox::spec_box_type()[0]);
    assert(TrackGroupBox::spec_box_type()[0] != EditBox::spec_box_type()[0]);
    assert(TrackGroupBox::spec_box_type()[1] != TrackTypeBox::spec_box_type()[1]);
    assert(TrackGroupBox::spec_box_type()[0] != MetaBox::spec_box_type()[0]);
    assert(TrackGroupBox::spec_box_type()[0] != MediaBox::spec_box_type()[0]);
    assert(TrackGroupBox::spec_box_type()[0] != UserDataBox::spec_box_type()[0]);
    assert(EditBox::spec_box_type()[0] != TrackTypeBox::spec_box_type()[0]);
    assert(EditBox::spec_box_type()[0] != MetaBox::spec_box_type()[0]);
    assert(EditBox::spec_box_type()[0] != MediaBox::spec_box_type()[0]);
    assert(EditBox::spec_box_type()[0] != UserDataBox::spec_box_type()[0]);
    assert(TrackTypeBox::spec_box_type()[0] != MetaBox::spec_box_type()[0]);
    assert(TrackTypeBox::spec_box_type()[0] != MediaBox::spec_box_type()[0]);
    assert(TrackTypeBox::spec_box_type()[0] != UserDataBox::spec_box_type()[0]);
    assert(MetaBox::spec_box_type()[1] != MediaBox::spec_box_type()[1]);
    assert(MetaBox::spec_box_type()[0] != UserDataBox::spec_box_type()[0]);
    assert(MediaBox::spec_box_type()[0] != UserDataBox::spec_box_type()[0]);
}

/// Reads one box found in a trak into its field.
#[verifier::spinoff_prover]
#[verifier::rlimit(100)]
fn trak_step(c: &UnknownBox, acc: &mut TrackBoxScan) -> (r: Result<(), IsoError>)
    requires
        trak_types_differ(),
    ensures
        match r {
            Ok(()) => trak_fault(c@) is None && final(acc)@ == trak_extend(old(acc)@, c@),
            Err(e) => trak_fault(c@) == Some(e) && final(acc)@ == old(acc)@,
        },
{
    if is_child_exec::<TrackHeaderBox>(c) {
        proof {
            lemma_child_other::<TrackReferenceBox>(c@);
            lemma_child_other::<TrackGroupBox>(c@);
            lemma_child_other::<EditBox>(c@);
            lemma_child_other::<TrackTypeBox>(c@);
            lemma_child_other::<MetaBox>(c@);
            lemma_child_other::<MediaBox>(c@);
            lemma_child_other::<UserDataBox>(c@);
            lemma_child_read::<TrackHeaderBox>(c@);
        }
        let r = replace_into(c, &mut acc.tkhd);
        proof {
            if r is Err {
                assert(acc@ =~= old(acc)@);
            }
            if r is Ok {
                assert(acc@ =~= trak_extend(old(acc)@, c@));
            }
        }
        r
    } else if is_child_exec::<TrackReferenceBox>(c) {
        proof {
            lemma_child_other::<TrackHeaderBox>(c@);
            lemma_child_other::<TrackGroupBox>(c@);
            lemma_child_other::<EditBox>(c@);
            lemma_child_other::<TrackTypeBox>(c@);
            lemma_child_other::<MetaBox>(c@);
            lemma_child_other::<MediaBox>(c@);
            lemma_child_other::<UserDataBox>(c@);
            lemma_child_read::<TrackReferenceBox>(c@);
        }
        let r = replace_into(c, &mut acc.tref);
        proof {
            if r is Err {
                assert(acc@ =~= old(acc)@);
            }
            if r is Ok {
                assert(acc@ =~= trak_extend(old(acc)@, c@));
            }
        }
        r
    } else if is_child_exec::<TrackGroupBox>(c) {
        proof {
            lemma_child_other::<TrackHeaderBox>(c@);
            lemma_child_other::<TrackReferenceBox>(c@);
            lemma_child_other::<EditBox>(c@);
            lemma_child_other::<TrackTypeBox>(c@);
            lemma_child_other::<MetaBox>(c@);
            lemma_child_other::<MediaBox>(c@);
            lemma_child_other::<UserDataBox>(c@);
            lemma_child_read::<TrackGroupBox>(c@);
        }
        let r = replace_into(c, &mut acc.trgr);
        proof {
            if r is Err {
                assert(acc@ =~= old(acc)@);
            }
            if r is Ok {
                assert(acc@ =~= trak_extend(old(acc)@, c@));
            }
        }
        r
    } else if is_child_exec::<EditBox>(c) {
        proof {
            lemma_child_other::<TrackHeaderBox>(c@);
            lemma_child_other::<TrackReferenceBox>(c@);
            lemma_child_other::<TrackGroupBox>(c@);
            lemma_child_other::<TrackTypeBox>(c@);
            lemma_child_other::<MetaBox>(c@);
            lemma_child_other::<MediaBox>(c@);
            lemma_child_other::<UserDataBox>(c@);
            lemma_child_read::<EditBox>(c@);
        }
        let r = replace_into(c, &mut acc.edts);
        proof {
            if r is Err {
                assert(acc@ =~= old(acc)@);
            }
            if r is Ok {
                assert(acc@ =~= trak_extend(old(acc)@, c@));
            }
        }
        r
    } else if is_child_exec::<TrackTypeBox>(c) {
        proof {
            lemma_child_other::<TrackHeaderBox>(c@);
            lemma_child_other::<TrackReferenceBox>(c@);
            lemma_child_other::<TrackGroupBox>(c@);
            lemma_child_other::<EditBox>(c@);
            lemma_child_other::<MetaBox>(c@);
            lemma_child_other::<MediaBox>(c@);
            lemma_child_other::<UserDataBox>(c@);
            lemma_child_read::<TrackTypeBox>(c@);
        }
        let r = replace_into(c, &mut acc.ttyp);
        proof {
            if r is Err {
                assert(acc@ =~= old(acc)@);
            }
            if r is Ok {
                assert(acc@ =~= trak_extend(old(acc)@, c@));
            }
        }
        r
    } else if is_child_exec::<MetaBox>(c) {
        proof {
            lemma_child_other::<TrackHeaderBox>(c@);
            lemma_child_other::<TrackReferenceBox>(c@);
            lemma_child_other::<TrackGroupBox>(c@);
            lemma_child_other::<EditBox>(c@);
            lemma_child_other::<TrackTypeBox>(c@);
            lemma_child_other::<MediaBox>(c@);
            lemma_child_other::<UserDataBox>(c@);
            lemma_child_read::<MetaBox>(c@);
        }
        let r = replace_into(c, &mut acc.meta);
        proof {
            if r is Err {
                assert(acc@ =~= old(acc)@);
            }
            if r is Ok {
                assert(acc@ =~= trak_extend(old(acc)@, c@));
            }
        }
        r
    } else if is_child_exec::<MediaBox>(c) {
        proof {
            lemma_child_other::<TrackHeaderBox>(c@);
            lemma_child_other::<TrackReferenceBox>(c@);
            lemma_child_other::<TrackGroupBox>(c@);
            lemma_child_other::<EditBox>(c@);
            lemma_child_other::<TrackTypeBox>(c@);
            lemma_child_other::<MetaBox>(c@);
            lemma_child_other::<UserDataBox>(c@);
            lemma_child_read::<MediaBox>(c@);
        }
        let r = replace_into(c, &mut acc.mdia);
        proof {
            if r is Err {
                assert(acc@ =~= old(acc)@);
            }
            if r is Ok {
                assert(acc@ =~= trak_extend(old(acc)@, c@));
            }
        }
        r
    } else if is_child_exec::<UserDataBox>(c) {
        proof {
            lemma_child_other::<TrackHeaderBox>(c@);
            lemma_child_other::<TrackReferenceBox>(c@);
            lemma_child_other::<TrackGroupBox>(c@);
            lemma_child_other::<EditBox>(c@);
            lemma_child_other::<TrackTypeBox>(c@);
            lemma_child_other::<MetaBox>(c@);
            lemma_child_other::<MediaBox>(c@);
            lemma_child_read::<UserDataBox>(c@);
        }
        let r = replace_into(c, &mut acc.udta);
        proof {
            if r is Err {
                assert(acc@ =~= old(acc)@);
            }
            if r is Ok {
                assert(acc@ =~= trak_extend(old(acc)@, c@));
            }
        }
        r
    } else {
        proof {
            lemma_child_other::<TrackHeaderBox>(c@);
            lemma_child_other::<TrackReferenceBox>(c@);
            lemma_child_other::<TrackGroupBox>(c@);
            lemma_child_other::<EditBox>(c@);
            lemma_child_other::<TrackTypeBox>(c@);
            lemma_child_other::<MetaBox>(c@);
            lemma_child_other::<MediaBox>(c@);
            lemma_child_other::<UserDataBox>(c@);
        }
        let kept = UnknownBox { header: c.header, data: vstd::slice::slice_to_vec(c.data.as_slice()) };
        let ghost old_v = views(acc.unknown_boxes@);
        acc.unknown_boxes.push(kept);
        proof {
            assert(views(acc.unknown_boxes@) =~= old_v.push(c@));
            assert(acc@ =~= trak_extend(old(acc)@, c@));
        }
        Ok(())
    }
}

/// Reading one more box extends what was read by it.
proof fn lemma_trak_prefix_step(css: Seq<UnknownBoxModel>, i: int)
    requires
        0 <= i < css.len(),
    ensures
        trak_prefix(css.take(i + 1)) == trak_extend(trak_prefix(css.take(i)), css[i]),
{
    lemma_collect_step::<TrackHeaderBox>(css, i);
    lemma_collect_step::<TrackReferenceBox>(css, i);
    lemma_collect_step::<TrackGroupBox>(css, i);
    lemma_collect_step::<EditBox>(css, i);
    lemma_collect_step::<TrackTypeBox>(css, i);
    lemma_collect_step::<MetaBox>(css, i);
    lemma_collect_step::<MediaBox>(css, i);
    lemma_collect_step::<UserDataBox>(css, i);
    lemma_unknown_step(css, |c: UnknownBoxModel| trak_known(c), i);
    let a = trak_prefix(css.take(i + 1));
    let b = trak_extend(trak_prefix(css.take(i)), css[i]);
    assert(a.unknown_boxes =~= b.unknown_boxes);
}

/// Reads the payload of a trak.
#[verifier::spinoff_prover]
#[verifier::rlimit(60)]
fn parse_trak(payload: &[u8]) -> (r: Result<TrackBox, IsoError>)
    ensures
        match (trak_parse(payload@), r) {
            (Ok(v), Ok(x)) => x@ == v,
            (Err(e), Err(f)) => e == f,
            _ => false,
        },
{
    let cs = read_children(payload);
    let ghost css = spec_children(payload@);
    let ghost fault = |c: UnknownBoxModel| trak_fault(c);
    let mut acc = TrackBoxScan {
        tkhd: None,
        tref: None,
        trgr: None,
        edts: None,
        ttyp: None,
        meta: None,
        mdia: None,
        unknown_boxes: Vec::new(),
        udta: None,
    };
    let mut i: usize = 0;
    let mut stop = false;
    proof {
        lemma_trak_types();
        let e = css.take(0);
        assert(e =~= Seq::<UnknownBoxModel>::empty());
        assert(collect_children::<TrackHeaderBox>(e) =~= Seq::<<TrackHeaderBox as View>::V>::empty());
        assert(collect_children::<TrackReferenceBox>(e) =~= Seq::<<TrackReferenceBox as View>::V>::empty());
        assert(collect_children::<TrackGroupBox>(e) =~= Seq::<<TrackGroupBox as View>::V>::empty());
        assert(collect_children::<EditBox>(e) =~= Seq::<<EditBox as View>::V>::empty());
        assert(collect_children::<TrackTypeBox>(e) =~= Seq::<<TrackTypeBox as View>::V>::empty());
        assert(collect_children::<MetaBox>(e) =~= Seq::<<MetaBox as View>::V>::empty());
        assert(collect_children::<MediaBox>(e) =~= Seq::<<MediaBox as View>::V>::empty());
        assert(collect_unknown(e, |c: UnknownBoxModel| trak_known(c)) =~= Seq::<UnknownBoxModel>::empty());
        assert(views(acc.unknown_boxes@) =~= Seq::<UnknownBoxModel>::empty());
        assert(collect_children::<UserDataBox>(e) =~= Seq::<<UserDataBox as View>::V>::empty());
        assert(acc@ =~= trak_prefix(e));
    }
    while i < cs.len() && !stop
        invariant
            views(cs@) == css,
            css == spec_children(payload@),
            fault == (|c: UnknownBoxModel| trak_fault(c)),
            trak_types_differ(),
            i <= cs@.len(),
            forall|j: int| 0 <= j < i ==> (#[trigger] fault(css[j])) is None,
            stop ==> i < css.len() && fault(css[i as int]) == Some(IsoError::UnexpectedEof),
            acc@ == trak_prefix(css.take(i as int)),
        decreases cs@.len() - i + (if stop { 0int } else { 1int }),
    {
        let c = &cs[i];
        proof {
            assert(c@ == css[i as int]);
            lemma_trak_prefix_step(css, i as int);
        }
        match trak_step(c, &mut acc) {
            Ok(()) => {
                i = i + 1;
            },
            Err(IsoError::UnexpectedEof) => {
                stop = true;
            },
            Err(e) => {
                proof {
                    lemma_first_fault(css, fault, i as int);
                }
                return Err(e);
            },
        }
    }
    proof {
        lemma_first_fault(css, fault, i as int);
        assert(first_fault(css, fault) == i);
    }
    let TrackBoxScan { tkhd, tref, trgr, edts, ttyp, meta, mdia, unknown_boxes, udta } = acc;
    let tkhd = match tkhd {
        Some(x) => x,
        None => {
            return Err(IsoError::InvalidData);
        },
    };
    let mdia = match mdia {
        Some(x) => x,
        None => {
            return Err(IsoError::InvalidData);
        },
    };
    Ok(TrackBox { tkhd, tref, trgr, edts, ttyp, meta, mdia, unknown_boxes, udta })
}

/// Writes the boxes of a trak in the order of its fields.
#[verifier::spinoff_prover]
#[verifier::rlimit(60)]
fn write_trak_children(x: &TrackBox, out: &mut Vec<u8>) -> (r: Result<(), IsoError>)
    requires
        x.spec_size() <= usize::MAX,
    ensures
        write_matches(r, trak_writable(x@), trak_children_bytes(x@), old(out)@, final(out)@),
{
    let ghost before = out@;
    let ghost v = x@;
    if write_nested(&x.tkhd, out).is_err() {
        return Err(IsoError::InvalidData);
    }
    let ghost m1 = out@;
    proof {
        lemma_append_prefix(before, nested_box_bytes::<TrackHeaderBox>(v.tkhd));
    }
    if write_nested_opt(&x.tref, out).is_err() {
        proof {
            lemma_prefix_trans(before, m1, out@);
        }
        return Err(IsoError::InvalidData);
    }
    let ghost m2 = out@;
    proof {
        lemma_append_prefix(m1, nested_opt_bytes::<TrackReferenceBox>(v.tref));
        lemma_prefix_trans(before, m1, m2);
    }
    if write_nested_opt(&x.trgr, out).is_err() {
        proof {
            lemma_prefix_trans(before, m2, out@);
        }
        return Err(IsoError::InvalidData);
    }
    let ghost m3 = out@;
    proof {
        lemma_append_prefix(m2, nested_opt_bytes::<TrackGroupBox>(v.trgr));
        lemma_prefix_trans(before, m2, m3);
    }
    if write_nested_opt(&x.edts, out).is_err() {
        proof {
            lemma_prefix_trans(before, m3, out@);
        }
        return Err(IsoError::InvalidData);
    }
    let ghost m4 = out@;
    proof {
        lemma_append_prefix(m3, nested_opt_bytes::<EditBox>(v.edts));
        lemma_prefix_trans(before, m3, m4);
    }
    if write_nested_opt(&x.ttyp, out).is_err() {
        proof {
            lemma_prefix_trans(before, m4, out@);
        }
        return Err(IsoError::InvalidData);
    }
    let ghost m5 = out@;
    proof {
        lemma_append_prefix(m4, nested_opt_bytes::<TrackTypeBox>(v.ttyp));
        lemma_prefix_trans(before, m4, m5);
    }
    if write_nested_opt(&x.meta, out).is_err() {
        proof {
            lemma_prefix_trans(before, m5, out@);
        }
        return Err(IsoError::InvalidData);
    }
    let ghost m6 = out@;
    proof {
        lemma_append_prefix(m5, nested_opt_bytes::<MetaBox>(v.meta));
        lemma_prefix_trans(before, m5, m6);
    }
    if write_nested(&x.mdia, out).is_err() {
        proof {
            lemma_prefix_trans(before, m6, out@);
        }
        return Err(IsoError::InvalidData);
    }
    let ghost m7 = out@;
    proof {
        lemma_append_prefix(m6, nested_box_bytes::<MediaBox>(v.mdia));
        lemma_prefix_trans(before, m6, m7);
    }
    let _ = serialize_all(&x.unknown_boxes, out);
    assert(out@ == m7 + ser_seq::<UnknownBox>(v.unknown_boxes)) by {
        assert(views(x.unknown_boxes@) == v.unknown_boxes);
    }
    let ghost m8 = out@;
    proof {
        lemma_append_prefix(m7, ser_seq::<UnknownBox>(v.unknown_boxes));
        lemma_prefix_trans(before, m7, m8);
    }
    if write_nested_opt(&x.udta, out).is_err() {
        proof {
            lemma_prefix_trans(before, m8, out@);
        }
        return Err(IsoError::InvalidData);
    }
    let ghost m9 = out@;
    proof {
        lemma_append_prefix(m8, nested_opt_bytes::<UserDataBox>(v.udta));
        lemma_prefix_trans(before, m8, m9);
    }
    proof {
        let l1 = nested_box_bytes::<TrackHeaderBox>(v.tkhd);
        assert(m1 == before + l1);
        let l2 = l1 + nested_opt_bytes::<TrackReferenceBox>(v.tref);
        vstd::seq_lib::lemma_concat_associative(before, l1, nested_opt_bytes::<TrackReferenceBox>(v.tref));
        assert(m2 == before + l2);
        let l3 = l2 + nested_opt_bytes::<TrackGroupBox>(v.trgr);
        vstd::seq_lib::lemma_concat_associative(before, l2, nested_opt_bytes::<TrackGroupBox>(v.trgr));
        assert(m3 == before + l3);
        let l4 = l3 + nested_opt_bytes::<EditBox>(v.edts);
        vstd::seq_lib::lemma_concat_associative(before, l3, nested_opt_bytes::<EditBox>(v.edts));
        assert(m4 == before + l4);
        let l5 = l4 + nested_opt_bytes::<TrackTypeBox>(v.ttyp);
        vstd::seq_lib::lemma_concat_associative(before, l4, nested_opt_bytes::<TrackTypeBox>(v.ttyp));
        assert(m5 == before + l5);
        let l6 = l5 + nested_opt_bytes::<MetaBox>(v.meta);
        vstd::seq_lib::lemma_concat_associative(before, l5, nested_opt_bytes::<MetaBox>(v.meta));
        assert(m6 == before + l6);
        let l7 = l6 + nested_box_bytes::<MediaBox>(v.mdia);
        vstd::seq_lib::lemma_concat_associative(before, l6, nested_box_bytes::<MediaBox>(v.mdia));
        assert(m7 == before + l7);
        let l8 = l7 + ser_seq::<UnknownBox>(v.unknown_boxes);
        vstd::seq_lib::lemma_concat_associative(before, l7, ser_seq::<UnknownBox>(v.unknown_boxes));
        assert(m8 == before + l8);
        let l9 = l8 + nested_opt_bytes::<UserDataBox>(v.udta);
        vstd::seq_lib::lemma_concat_associative(before, l8, nested_opt_bytes::<UserDataBox>(v.udta));
        assert(m9 == before + l9);
        assert(trak_children_bytes(v) == l9);
        lemma_append_prefix(before, trak_children_bytes(v));
    }
    Ok(())
}

/// The boxes that a trak writes, read from their bytes one list after the other.
#[verifier::spinoff_prover]
#[verifier::rlimit(100)]
proof fn lemma_trak_children_chain(v: TrackBoxModel)
    requires
        trak_canonical(v),
    ensures
        spec_children(nested_box_bytes::<TrackHeaderBox>(v.tkhd) + (nested_opt_bytes::<TrackReferenceBox>(v.tref) + (nested_opt_bytes::<TrackGroupBox>(v.trgr) + (nested_opt_bytes::<EditBox>(v.edts) + (nested_opt_bytes::<TrackTypeBox>(v.ttyp) + (nested_opt_bytes::<MetaBox>(v.meta) + (nested_box_bytes::<MediaBox>(v.mdia) + (ser_seq::<UnknownBox>(v.unknown_boxes) + (nested_opt_bytes::<UserDataBox>(v.udta)))))))))) == seq![nested_model::<TrackHeaderBox>(v.tkhd)] + (nested_opt_models::<TrackReferenceBox>(v.tref) + (nested_opt_models::<TrackGroupBox>(v.trgr) + (nested_opt_models::<EditBox>(v.edts) + (nested_opt_models::<TrackTypeBox>(v.ttyp) + (nested_opt_models::<MetaBox>(v.meta) + (seq![nested_model::<MediaBox>(v.mdia)] + (v.unknown_boxes + (nested_opt_models::<UserDataBox>(v.udta))))))))),
{
    let b0 = nested_box_bytes::<TrackHeaderBox>(v.tkhd);
    let s0 = seq![nested_model::<TrackHeaderBox>(v.tkhd)];
    let b1 = nested_opt_bytes::<TrackReferenceBox>(v.tref);
    let s1 = nested_opt_models::<TrackReferenceBox>(v.tref);
    let b2 = nested_opt_bytes::<TrackGroupBox>(v.trgr);
    let s2 = nested_opt_models::<TrackGroupBox>(v.trgr);
    let b3 = nested_opt_bytes::<EditBox>(v.edts);
    let s3 = nested_opt_models::<EditBox>(v.edts);
    let b4 = nested_opt_bytes::<TrackTypeBox>(v.ttyp);
    let s4 = nested_opt_models::<TrackTypeBox>(v.ttyp);
    let b5 = nested_opt_bytes::<MetaBox>(v.meta);
    let s5 = nested_opt_models::<MetaBox>(v.meta);
    let b6 = nested_box_bytes::<MediaBox>(v.mdia);
    let s6 = seq![nested_model::<MediaBox>(v.mdia)];
    let b7 = ser_seq::<UnknownBox>(v.unknown_boxes);
    let s7 = v.unknown_boxes;
    let b8 = nested_opt_bytes::<UserDataBox>(v.udta);
    let s8 = nested_opt_models::<UserDataBox>(v.udta);
    crate::children::lemma_children_empty();
    let t8 = b8;
    let u8 = s8;
    assert(b8 + Seq::<u8>::empty() =~= b8);
    assert(s8 + Seq::<UnknownBoxModel>::empty() =~= s8);
    lemma_nested_opt_seq::<UserDataBox>(v.udta, Seq::<u8>::empty());
    assert(spec_children(t8) == u8);
    let t7 = b7 + t8;
    let u7 = s7 + u8;
    lemma_unknown_seq_rest(v.unknown_boxes, t8);
    assert(spec_children(t7) == u7);
    let t6 = b6 + t7;
    let u6 = s6 + u7;
    lemma_nested_cons::<MediaBox>(v.mdia, t7);
    assert(spec_children(t6) == u6);
    let t5 = b5 + t6;
    let u5 = s5 + u6;
    lemma_nested_opt_seq::<MetaBox>(v.meta, t6);
    assert(spec_children(t5) == u5);
    let t4 = b4 + t5;
    let u4 = s4 + u5;
    lemma_nested_opt_seq::<TrackTypeBox>(v.ttyp, t5);
    assert(spec_children(t4) == u4);
    let t3 = b3 + t4;
    let u3 = s3 + u4;
    lemma_nested_opt_seq::<EditBox>(v.edts, t4);
    assert(spec_children(t3) == u3);
    let t2 = b2 + t3;
    let u2 = s2 + u3;
    lemma_nested_opt_seq::<TrackGroupBox>(v.trgr, t3);
    assert(spec_children(t2) == u2);
    let t1 = b1 + t2;
    let u1 = s1 + u2;
    lemma_nested_opt_seq::<TrackReferenceBox>(v.tref, t2);
    assert(spec_children(t1) == u1);
    let t0 = b0 + t1;
    let u0 = s0 + u1;
    lemma_nested_cons::<TrackHeaderBox>(v.tkhd, t1);
    assert(spec_children(t0) == u0);
}

/// The boxes that a trak writes read back as their models.
#[verifier::spinoff_prover]
#[verifier::rlimit(100)]
proof fn lemma_trak_children(v: TrackBoxModel)
    requires
        trak_canonical(v),
    ensures
        spec_children(trak_children_bytes(v)) == trak_models(v),
{
    lemma_trak_children_chain(v);
    let b0 = nested_box_bytes::<TrackHeaderBox>(v.tkhd);
    let s0 = seq![nested_model::<TrackHeaderBox>(v.tkhd)];
    let b1 = nested_opt_bytes::<TrackReferenceBox>(v.tref);
    let s1 = nested_opt_models::<TrackReferenceBox>(v.tref);
    let b2 = nested_opt_bytes::<TrackGroupBox>(v.trgr);
    let s2 = nested_opt_models::<TrackGroupBox>(v.trgr);
    let b3 = nested_opt_bytes::<EditBox>(v.edts);
    let s3 = nested_opt_models::<EditBox>(v.edts);
    let b4 = nested_opt_bytes::<TrackTypeBox>(v.ttyp);
    let s4 = nested_opt_models::<TrackTypeBox>(v.ttyp);
    let b5 = nested_opt_bytes::<MetaBox>(v.meta);
    let s5 = nested_opt_models::<MetaBox>(v.meta);
    let b6 = nested_box_bytes::<MediaBox>(v.mdia);
    let s6 = seq![nested_model::<MediaBox>(v.mdia)];
    let b7 = ser_seq::<UnknownBox>(v.unknown_boxes);
    let s7 = v.unknown_boxes;
    let b8 = nested_opt_bytes::<UserDataBox>(v.udta);
    let s8 = nested_opt_models::<UserDataBox>(v.udta);
    let t8 = b8;
    let u8 = s8;
    let t7 = b7 + t8;
    let u7 = s7 + u8;
    let t6 = b6 + t7;
    let u6 = s6 + u7;
    let t5 = b5 + t6;
    let u5 = s5 + u6;
    let t4 = b4 + t5;
    let u4 = s4 + u5;
    let t3 = b3 + t4;
    let u3 = s3 + u4;
    let t2 = b2 + t3;
    let u2 = s2 + u3;
    let t1 = b1 + t2;
    let u1 = s1 + u2;
    let t0 = b0 + t1;
    let u0 = s0 + u1;
    let t9 = Seq::<u8>::empty();
    let u9 = Seq::<UnknownBoxModel>::empty();
    assert(b8 + t9 =~= t8);
    assert(s8 + u9 =~= u8);
    let l0 = Seq::<u8>::empty();
    let k0 = Seq::<UnknownBoxModel>::empty();
    assert(l0 + t0 =~= t0);
    assert(k0 + u0 =~= u0);
    let l1 = b0;
    let k1 = s0;
    assert(l1 + t1 == l0 + t0);
    assert(k1 + u1 == k0 + u0);
    let l2 = l1 + b1;
    let k2 = k1 + s1;
    vstd::seq_lib::lemma_concat_associative(l1, b1, t2);
    vstd::seq_lib::lemma_concat_associative(k1, s1, u2);
    assert(l2 + t2 == l1 + t1);
    assert(k2 + u2 == k1 + u1);
    let l3 = l2 + b2;
    let k3 = k2 + s2;
    vstd::seq_lib::lemma_concat_associative(l2, b2, t3);
    vstd::seq_lib::lemma_concat_associative(k2, s2, u3);
    assert(l3 + t3 == l2 + t2);
    assert(k3 + u3 == k2 + u2);
    let l4 = l3 + b3;
    let k4 = k3 + s3;
    vstd::seq_lib::lemma_concat_associative(l3, b3, t4);
    vstd::seq_lib::lemma_concat_associative(k3, s3, u4);
    assert(l4 + t4 == l3 + t3);
    assert(k4 + u4 == k3 + u3);
    let l5 = l4 + b4;
    let k5 = k4 + s4;
    vstd::seq_lib::lemma_concat_associative(l4, b4, t5);
    vstd::seq_lib::lemma_concat_associative(k4, s4, u5);
    assert(l5 + t5 == l4 + t4);
    assert(k5 + u5 == k4 + u4);
    let l6 = l5 + b5;
    let k6 = k5 + s5;
    vstd::seq_lib::lemma_concat_associative(l5, b5, t6);
    vstd::seq_lib::lemma_concat_associative(k5, s5, u6);
    assert(l6 + t6 == l5 + t5);
    assert(k6 + u6 == k5 + u5);
    let l7 = l6 + b6;
    let k7 = k6 + s6;
    vstd::seq_lib::lemma_concat_associative(l6, b6, t7);
    vstd::seq_lib::lemma_concat_associative(k6, s6, u7);
    assert(l7 + t7 == l6 + t6);
    assert(k7 + u7 == k6 + u6);
    let l8 = l7 + b7;
    let k8 = k7 + s7;
    vstd::seq_lib::lemma_concat_associative(l7, b7, t8);
    vstd::seq_lib::lemma_concat_associative(k7, s7, u8);
    assert(l8 + t8 == l7 + t7);
    assert(k8 + u8 == k7 + u7);
    let l9 = l8 + b8;
    let k9 = k8 + s8;
    vstd::seq_lib::lemma_concat_associative(l8, b8, t9);
    vstd::seq_lib::lemma_concat_associative(k8, s8, u9);
    assert(l9 + t9 == l8 + t8);
    assert(k9 + u9 == k8 + u8);
    assert(l9 + t9 =~= l9);
    assert(k9 + u9 =~= k9);
    assert(trak_children_bytes(v) == l9);
    assert(trak_models(v) == k9);
}

/// No box that a trak writes fails to read.
#[verifier::spinoff_prover]
#[verifier::rlimit(60)]
proof fn lemma_trak_no_fault(v: TrackBoxModel, j: int)
    requires
        trak_canonical(v),
        trak_types_differ(),
        0 <= j < trak_models(v).len(),
    ensures
        trak_fault(trak_models(v)[j]) is None,
{
    let cs = trak_models(v);
    let s0 = seq![nested_model::<TrackHeaderBox>(v.tkhd)];
    let s1 = nested_opt_models::<TrackReferenceBox>(v.tref);
    let s2 = nested_opt_models::<TrackGroupBox>(v.trgr);
    let s3 = nested_opt_models::<EditBox>(v.edts);
    let s4 = nested_opt_models::<TrackTypeBox>(v.ttyp);
    let s5 = nested_opt_models::<MetaBox>(v.meta);
    let s6 = seq![nested_model::<MediaBox>(v.mdia)];
    let s7 = v.unknown_boxes;
    let s8 = nested_opt_models::<UserDataBox>(v.udta);
    let n0: int = 0;
    let n1: int = n0 + s0.len();
    let n2: int = n1 + s1.len();
    let n3: int = n2 + s2.len();
    let n4: int = n3 + s3.len();
    let n5: int = n4 + s4.len();
    let n6: int = n5 + s5.len();
    let n7: int = n6 + s6.len();
    let n8: int = n7 + s7.len();
    let n9: int = n8 + s8.len();
    if j < n1 {
        assert(cs[j] == s0[j - n0]);
        lemma_nested_cons::<TrackHeaderBox>(v.tkhd, Seq::empty());
    } else if j < n2 {
        assert(cs[j] == s1[j - n1]);
        lemma_nested_cons::<TrackReferenceBox>(v.tref.unwrap(), Seq::empty());
    } else if j < n3 {
        assert(cs[j] == s2[j - n2]);
        lemma_nested_cons::<TrackGroupBox>(v.trgr.unwrap(), Seq::empty());
    } else if j < n4 {
        assert(cs[j] == s3[j - n3]);
        lemma_nested_cons::<EditBox>(v.edts.unwrap(), Seq::empty());
    } else if j < n5 {
        assert(cs[j] == s4[j - n4]);
        lemma_nested_cons::<TrackTypeBox>(v.ttyp.unwrap(), Seq::empty());
    } else if j < n6 {
        assert(cs[j] == s5[j - n5]);
        lemma_nested_cons::<MetaBox>(v.meta.unwrap(), Seq::empty());
    } else if j < n7 {
        assert(cs[j] == s6[j - n6]);
        lemma_nested_cons::<MediaBox>(v.mdia, Seq::empty());
    } else if j < n8 {
        assert(cs[j] == s7[j - n7]);
        assert(!trak_known(v.unknown_boxes[j - n7]));
    } else if j < n9 {
        assert(cs[j] == s8[j - n8]);
        lemma_nested_cons::<UserDataBox>(v.udta.unwrap(), Seq::empty());
    }
}

/// Collecting over the lists of a trak one after the other collects over each in
/// turn.
proof fn lemma_trak_split<T: BoxBody>(m0: Seq<UnknownBoxModel>, m1: Seq<UnknownBoxModel>, m2: Seq<UnknownBoxModel>, m3: Seq<UnknownBoxModel>, m4: Seq<UnknownBoxModel>, m5: Seq<UnknownBoxModel>, m6: Seq<UnknownBoxModel>, m7: Seq<UnknownBoxModel>, m8: Seq<UnknownBoxModel>)
    ensures
        collect_children::<T>(m0 + m1 + m2 + m3 + m4 + m5 + m6 + m7 + m8) == collect_children::<T>(m0) + collect_children::<T>(m1) + collect_children::<T>(m2) + collect_children::<T>(m3) + collect_children::<T>(m4) + collect_children::<T>(m5) + collect_children::<T>(m6) + collect_children::<T>(m7) + collect_children::<T>(m8),
{
    lemma_collect_add::<T>(m0 + m1 + m2 + m3 + m4 + m5 + m6 + m7, m8);
    lemma_collect_add::<T>(m0 + m1 + m2 + m3 + m4 + m5 + m6, m7);
    lemma_collect_add::<T>(m0 + m1 + m2 + m3 + m4 + m5, m6);
    lemma_collect_add::<T>(m0 + m1 + m2 + m3 + m4, m5);
    lemma_collect_add::<T>(m0 + m1 + m2 + m3, m4);
    lemma_collect_add::<T>(m0 + m1 + m2, m3);
    lemma_collect_add::<T>(m0 + m1, m2);
    lemma_collect_add::<T>(m0, m1);
}

/// The boxes that a trak writes collect back into its field `tkhd`.
#[verifier::spinoff_prover]
#[verifier::rlimit(60)]
proof fn lemma_trak_collect_tkhd(v: TrackBoxModel)
    requires
        trak_canonical(v),
        trak_types_differ(),
    ensures
        collect_children::<TrackHeaderBox>(trak_models(v)) == seq![v.tkhd],
{
    lemma_trak_split::<TrackHeaderBox>(seq![nested_model::<TrackHeaderBox>(v.tkhd)], nested_opt_models::<TrackReferenceBox>(v.tref), nested_opt_models::<TrackGroupBox>(v.trgr), nested_opt_models::<EditBox>(v.edts), nested_opt_models::<TrackTypeBox>(v.ttyp), nested_opt_models::<MetaBox>(v.meta), seq![nested_model::<MediaBox>(v.mdia)], v.unknown_boxes, nested_opt_models::<UserDataBox>(v.udta));
    lemma_nested_opt_own::<TrackHeaderBox>(Some(v.tkhd));
    assert(nested_opt_models::<TrackHeaderBox>(Some(v.tkhd)) == seq![nested_model::<TrackHeaderBox>(v.tkhd)]);
    lemma_nested_opt_other::<TrackHeaderBox, TrackReferenceBox>(v.tref);
    lemma_nested_opt_other::<TrackHeaderBox, TrackGroupBox>(v.trgr);
    lemma_nested_opt_other::<TrackHeaderBox, EditBox>(v.edts);
    lemma_nested_opt_other::<TrackHeaderBox, TrackTypeBox>(v.ttyp);
    lemma_nested_opt_other::<TrackHeaderBox, MetaBox>(v.meta);
    lemma_nested_opt_other::<TrackHeaderBox, MediaBox>(Some(v.mdia));
    assert(nested_opt_models::<MediaBox>(Some(v.mdia)) == seq![nested_model::<MediaBox>(v.mdia)]);
    assert forall|i: int| 0 <= i < v.unknown_boxes.len() implies !#[trigger] is_child::<TrackHeaderBox>(v.unknown_boxes[i]) by {
        assert(!trak_known(v.unknown_boxes[i]));
    }
    lemma_collect_none::<TrackHeaderBox>(v.unknown_boxes);
    lemma_nested_opt_other::<TrackHeaderBox, UserDataBox>(v.udta);
    assert(collect_children::<TrackHeaderBox>(trak_models(v)) =~= seq![v.tkhd]);
}

/// The boxes that a trak writes collect back into its field `tref`.
#[verifier::spinoff_prover]
#[verifier::rlimit(60)]
proof fn lemma_trak_collect_tref(v: TrackBoxModel)
    requires
        trak_canonical(v),
        trak_types_differ(),
    ensures
        collect_children::<TrackReferenceBox>(trak_models(v)) == opt_seq(v.tref),
{
    lemma_trak_split::<TrackReferenceBox>(seq![nested_model::<TrackHeaderBox>(v.tkhd)], nested_opt_models::<TrackReferenceBox>(v.tref), nested_opt_models::<TrackGroupBox>(v.trgr), nested_opt_models::<EditBox>(v.edts), nested_opt_models::<TrackTypeBox>(v.ttyp), nested_opt_models::<MetaBox>(v.meta), seq![nested_model::<MediaBox>(v.mdia)], v.unknown_boxes, nested_opt_models::<UserDataBox>(v.udta));
    lemma_nested_opt_other::<TrackReferenceBox, TrackHeaderBox>(Some(v.tkhd));
    assert(nested_opt_models::<TrackHeaderBox>(Some(v.tkhd)) == seq![nested_model::<TrackHeaderBox>(v.tkhd)]);
    lemma_nested_opt_own::<TrackReferenceBox>(v.tref);
    lemma_nested_opt_other::<TrackReferenceBox, TrackGroupBox>(v.trgr);
    lemma_nested_opt_other::<TrackReferenceBox, EditBox>(v.edts);
    lemma_nested_opt_other::<TrackReferenceBox, TrackTypeBox>(v.ttyp);
    lemma_nested_opt_other::<TrackReferenceBox, MetaBox>(v.meta);
    lemma_nested_opt_other::<TrackReferenceBox, MediaBox>(Some(v.mdia));
    assert(nested_opt_models::<MediaBox>(Some(v.mdia)) == seq![nested_model::<MediaBox>(v.mdia)]);
    assert forall|i: int| 0 <= i < v.unknown_boxes.len() implies !#[trigger] is_child::<TrackReferenceBox>(v.unknown_boxes[i]) by {
        assert(!trak_known(v.unknown_boxes[i]));
    }
    lemma_collect_none::<TrackReferenceBox>(v.unknown_boxes);
    lemma_nested_opt_other::<TrackReferenceBox, UserDataBox>(v.udta);
    assert(collect_children::<TrackReferenceBox>(trak_models(v)) =~= opt_seq(v.tref));
}

/// The boxes that a trak writes collect back into its field `trgr`.
#[verifier::spinoff_prover]
#[verifier::rlimit(60)]
proof fn lemma_trak_collect_trgr(v: TrackBoxModel)
    requires
        trak_canonical(v),
        trak_types_differ(),
    ensures
        collect_children::<TrackGroupBox>(trak_models(v)) == opt_seq(v.trgr),
{
    lemma_trak_split::<TrackGroupBox>(seq![nested_model::<TrackHeaderBox>(v.tkhd)], nested_opt_models::<TrackReferenceBox>(v.tref), nested_opt_models::<TrackGroupBox>(v.trgr), nested_opt_models::<EditBox>(v.edts), nested_opt_models::<TrackTypeBox>(v.ttyp), nested_opt_models::<MetaBox>(v.meta), seq![nested_model::<MediaBox>(v.mdia)], v.unknown_boxes, nested_opt_models::<UserDataBox>(v.udta));
    lemma_nested_opt_other::<TrackGroupBox, TrackHeaderBox>(Some(v.tkhd));
    assert(nested_opt_models::<TrackHeaderBox>(Some(v.tkhd)) == seq![nested_model::<TrackHeaderBox>(v.tkhd)]);
    lemma_nested_opt_other::<TrackGroupBox, TrackReferenceBox>(v.tref);
    lemma_nested_opt_own::<TrackGroupBox>(v.trgr);
    lemma_nested_opt_other::<TrackGroupBox, EditBox>(v.edts);
    lemma_nested_opt_other::<TrackGroupBox, TrackTypeBox>(v.ttyp);
    lemma_nested_opt_other::<TrackGroupBox, MetaBox>(v.meta);
    lemma_nested_opt_other::<TrackGroupBox, MediaBox>(Some(v.mdia));
    assert(nested_opt_models::<MediaBox>(Some(v.mdia)) == seq![nested_model::<MediaBox>(v.mdia)]);
    assert forall|i: int| 0 <= i < v.unknown_boxes.len() implies !#[trigger] is_child::<TrackGroupBox>(v.unknown_boxes[i]) by {
        assert(!trak_known(v.unknown_boxes[i]));
    }
    lemma_collect_none::<TrackGroupBox>(v.unknown_boxes);
    lemma_nested_opt_other::<TrackGroupBox, UserDataBox>(v.udta);
    assert(collect_children::<TrackGroupBox>(trak_models(v)) =~= opt_seq(v.trgr));
}

/// The boxes that a trak writes collect back into its field `edts`.
#[verifier::spinoff_prover]
#[verifier::rlimit(60)]
proof fn lemma_trak_collect_edts(v: TrackBoxModel)
    requires
        trak_canonical(v),
        trak_types_differ(),
    ensures
        collect_children::<EditBox>(trak_models(v)) == opt_seq(v.edts),
{
    lemma_trak_split::<EditBox>(seq![nested_model::<TrackHeaderBox>(v.tkhd)], nested_opt_models::<TrackReferenceBox>(v.tref), nested_opt_models::<TrackGroupBox>(v.trgr), nested_opt_models::<EditBox>(v.edts), nested_opt_models::<TrackTypeBox>(v.ttyp), nested_opt_models::<MetaBox>(v.meta), seq![nested_model::<MediaBox>(v.mdia)], v.unknown_boxes, nested_opt_models::<UserDataBox>(v.udta));
    lemma_nested_opt_other::<EditBox, TrackHeaderBox>(Some(v.tkhd));
    assert(nested_opt_models::<TrackHeaderBox>(Some(v.tkhd)) == seq![nested_model::<TrackHeaderBox>(v.tkhd)]);
    lemma_nested_opt_other::<EditBox, TrackReferenceBox>(v.tref);
    lemma_nested_opt_other::<EditBox, TrackGroupBox>(v.trgr);
    lemma_nested_opt_own::<EditBox>(v.edts);
    lemma_nested_opt_other::<EditBox, TrackTypeBox>(v.ttyp);
    lemma_nested_opt_other::<EditBox, MetaBox>(v.meta);
    lemma_nested_opt_other::<EditBox, MediaBox>(Some(v.mdia));
    assert(nested_opt_models::<MediaBox>(Some(v.mdia)) == seq![nested_model::<MediaBox>(v.mdia)]);
    assert forall|i: int| 0 <= i < v.unknown_boxes.len() implies !#[trigger] is_child::<EditBox>(v.unknown_boxes[i]) by {
        assert(!trak_known(v.unknown_boxes[i]));
    }
    lemma_collect_none::<EditBox>(v.unknown_boxes);
    lemma_nested_opt_other::<EditBox, UserDataBox>(v.udta);
    assert(collect_children::<EditBox>(trak_models(v)) =~= opt_seq(v.edts));
}

/// The boxes that a trak writes collect back into its field `ttyp`.
#[verifier::spinoff_prover]
#[verifier::rlimit(60)]
proof fn lemma_trak_collect_ttyp(v: TrackBoxModel)
    requires
        trak_canonical(v),
        trak_types_differ(),
    ensures
        collect_children::<TrackTypeBox>(trak_models(v)) == opt_seq(v.ttyp),
{
    lemma_trak_split::<TrackTypeBox>(seq![nested_model::<TrackHeaderBox>(v.tkhd)], nested_opt_models::<TrackReferenceBox>(v.tref), nested_opt_models::<TrackGroupBox>(v.trgr), nested_opt_models::<EditBox>(v.edts), nested_opt_models::<TrackTypeBox>(v.ttyp), nested_opt_models::<MetaBox>(v.meta), seq![nested_model::<MediaBox>(v.mdia)], v.unknown_boxes, nested_opt_models::<UserDataBox>(v.udta));
    lemma_nested_opt_other::<TrackTypeBox, TrackHeaderBox>(Some(v.tkhd));
    assert(nested_opt_models::<TrackHeaderBox>(Some(v.tkhd)) == seq![nested_model::<TrackHeaderBox>(v.tkhd)]);
    lemma_nested_opt_other::<TrackTypeBox, TrackReferenceBox>(v.tref);
    lemma_nested_opt_other::<TrackTypeBox, TrackGroupBox>(v.trgr);
    lemma_nested_opt_other::<TrackTypeBox, EditBox>(v.edts);
    lemma_nested_opt_own::<TrackTypeBox>(v.ttyp);
    lemma_nested_opt_other::<TrackTypeBox, MetaBox>(v.meta);
    lemma_nested_opt_other::<TrackTypeBox, MediaBox>(Some(v.mdia));
    assert(nested_opt_models::<MediaBox>(Some(v.mdia)) == seq![nested_model::<MediaBox>(v.mdia)]);
    assert forall|i: int| 0 <= i < v.unknown_boxes.len() implies !#[trigger] is_child::<TrackTypeBox>(v.unknown_boxes[i]) by {
        assert(!trak_known(v.unknown_boxes[i]));
    }
    lemma_collect_none::<TrackTypeBox>(v.unknown_boxes);
    lemma_nested_opt_other::<TrackTypeBox, UserDataBox>(v.udta);
    assert(collect_children::<TrackTypeBox>(trak_models(v)) =~= opt_seq(v.ttyp));
}

/// The boxes that a trak writes collect back into its field `meta`.
#[verifier::spinoff_prover]
#[verifier::rlimit(60)]
proof fn lemma_trak_collect_meta(v: TrackBoxModel)
    requires
        trak_canonical(v),
        trak_types_differ(),
    ensures
        collect_children::<MetaBox>(trak_models(v)) == opt_seq(v.meta),
{
    lemma_trak_split::<MetaBox>(seq![nested_model::<TrackHeaderBox>(v.tkhd)], nested_opt_models::<TrackReferenceBox>(v.tref), nested_opt_models::<TrackGroupBox>(v.trgr), nested_opt_models::<EditBox>(v.edts), nested_opt_models::<TrackTypeBox>(v.ttyp), nested_opt_models::<MetaBox>(v.meta), seq![nested_model::<MediaBox>(v.mdia)], v.unknown_boxes, nested_opt_models::<UserDataBox>(v.udta));
    lemma_nested_opt_other::<MetaBox, TrackHeaderBox>(Some(v.tkhd));
    assert(nested_opt_models::<TrackHeaderBox>(Some(v.tkhd)) == seq![nested_model::<TrackHeaderBox>(v.tkhd)]);
    lemma_nested_opt_other::<MetaBox, TrackReferenceBox>(v.tref);
    lemma_nested_opt_other::<MetaBox, TrackGroupBox>(v.trgr);
    lemma_nested_opt_other::<MetaBox, EditBox>(v.edts);
    lemma_nested_opt_other::<MetaBox, TrackTypeBox>(v.ttyp);
    lemma_nested_opt_own::<MetaBox>(v.meta);
    lemma_nested_opt_other::<MetaBox, MediaBox>(Some(v.mdia));
    assert(nested_opt_models::<MediaBox>(Some(v.mdia)) == seq![nested_model::<MediaBox>(v.mdia)]);
    assert forall|i: int| 0 <= i < v.unknown_boxes.len() implies !#[trigger] is_child::<MetaBox>(v.unknown_boxes[i]) by {
        assert(!trak_known(v.unknown_boxes[i]));
    }
    lemma_collect_none::<MetaBox>(v.unknown_boxes);
    lemma_nested_opt_other::<MetaBox, UserDataBox>(v.udta);
    assert(collect_children::<MetaBox>(trak_models(v)) =~= opt_seq(v.meta));
}

/// The boxes that a trak writes collect back into its field `mdia`.
#[verifier::spinoff_prover]
#[verifier::rlimit(60)]
proof fn lemma_trak_collect_mdia(v: TrackBoxModel)
    requires
        trak_canonical(v),
        trak_types_differ(),
    ensures
        collect_children::<MediaBox>(trak_models(v)) == seq![v.mdia],
{
    lemma_trak_split::<MediaBox>(seq![nested_model::<TrackHeaderBox>(v.tkhd)], nested_opt_models::<TrackReferenceBox>(v.tref), nested_opt_models::<TrackGroupBox>(v.trgr), nested_opt_models::<EditBox>(v.edts), nested_opt_models::<TrackTypeBox>(v.ttyp), nested_opt_models::<MetaBox>(v.meta), seq![nested_model::<MediaBox>(v.mdia)], v.unknown_boxes, nested_opt_models::<UserDataBox>(v.udta));
    lemma_nested_opt_other::<MediaBox, TrackHeaderBox>(Some(v.tkhd));
    assert(nested_opt_models::<TrackHeaderBox>(Some(v.tkhd)) == seq![nested_model::<TrackHeaderBox>(v.tkhd)]);
    lemma_nested_opt_other::<MediaBox, TrackReferenceBox>(v.tref);
    lemma_nested_opt_other::<MediaBox, TrackGroupBox>(v.trgr);
    lemma_nested_opt_other::<MediaBox, EditBox>(v.edts);
    lemma_nested_opt_other::<MediaBox, TrackTypeBox>(v.ttyp);
    lemma_nested_opt_other::<MediaBox, MetaBox>(v.meta);
    lemma_nested_opt_own::<MediaBox>(Some(v.mdia));
    assert(nested_opt_models::<MediaBox>(Some(v.mdia)) == seq![nested_model::<MediaBox>(v.mdia)]);
    assert forall|i: int| 0 <= i < v.unknown_boxes.len() implies !#[trigger] is_child::<MediaBox>(v.unknown_boxes[i]) by {
        assert(!trak_known(v.unknown_boxes[i]));
    }
    lemma_collect_none::<MediaBox>(v.unknown_boxes);
    lemma_nested_opt_other::<MediaBox, UserDataBox>(v.udta);
    assert(collect_children::<MediaBox>(trak_models(v)) =~= seq![v.mdia]);
}

/// The boxes that a trak writes collect back into its field `udta`.
#[verifier::spinoff_prover]
#[verifier::rlimit(60)]
proof fn lemma_trak_collect_udta(v: TrackBoxModel)
    requires
        trak_canonical(v),
        trak_types_differ(),
    ensures
        collect_children::<UserDataBox>(trak_models(v)) == opt_seq(v.udta),
{
    lemma_trak_split::<UserDataBox>(seq![nested_model::<TrackHeaderBox>(v.tkhd)], nested_opt_models::<TrackReferenceBox>(v.tref), nested_opt_models::<TrackGroupBox>(v.trgr), nested_opt_models::<EditBox>(v.edts), nested_opt_models::<TrackTypeBox>(v.ttyp), nested_opt_models::<MetaBox>(v.meta), seq![nested_model::<MediaBox>(v.mdia)], v.unknown_boxes, nested_opt_models::<UserDataBox>(v.udta));
    lemma_nested_opt_other::<UserDataBox, TrackHeaderBox>(Some(v.tkhd));
    assert(nested_opt_models::<TrackHeaderBox>(Some(v.tkhd)) == seq![nested_model::<TrackHeaderBox>(v.tkhd)]);
    lemma_nested_opt_other::<UserDataBox, TrackReferenceBox>(v.tref);
    lemma_nested_opt_other::<UserDataBox, TrackGroupBox>(v.trgr);
    lemma_nested_opt_other::<UserDataBox, EditBox>(v.edts);
    lemma_nested_opt_other::<UserDataBox, TrackTypeBox>(v.ttyp);
    lemma_nested_opt_other::<UserDataBox, MetaBox>(v.meta);
    lemma_nested_opt_other::<UserDataBox, MediaBox>(Some(v.mdia));
    assert(nested_opt_models::<MediaBox>(Some(v.mdia)) == seq![nested_model::<MediaBox>(v.mdia)]);
    assert forall|i: int| 0 <= i < v.unknown_boxes.len() implies !#[trigger] is_child::<UserDataBox>(v.unknown_boxes[i]) by {
        assert(!trak_known(v.unknown_boxes[i]));
    }
    lemma_collect_none::<UserDataBox>(v.unknown_boxes);
    lemma_nested_opt_own::<UserDataBox>(v.udta);
    assert(collect_children::<UserDataBox>(trak_models(v)) =~= opt_seq(v.udta));
}

/// The boxes of other types that a trak writes are collected back as they are.
#[verifier::spinoff_prover]
#[verifier::rlimit(60)]
proof fn lemma_trak_unknown(v: TrackBoxModel)
    requires
        trak_canonical(v),
    ensures
        collect_unknown(trak_models(v), |c: UnknownBoxModel| trak_known(c)) == v.unknown_boxes,
{
    let known = |c: UnknownBoxModel| trak_known(c);
    let s0 = seq![nested_model::<TrackHeaderBox>(v.tkhd)];
    assert forall|i: int| 0 <= i < s0.len() implies #[trigger] known(s0[i]) by {}
    lemma_unknown_all_known(s0, known);
    let s1 = nested_opt_models::<TrackReferenceBox>(v.tref);
    assert forall|i: int| 0 <= i < s1.len() implies #[trigger] known(s1[i]) by {}
    lemma_unknown_all_known(s1, known);
    let s2 = nested_opt_models::<TrackGroupBox>(v.trgr);
    assert forall|i: int| 0 <= i < s2.len() implies #[trigger] known(s2[i]) by {}
    lemma_unknown_all_known(s2, known);
    let s3 = nested_opt_models::<EditBox>(v.edts);
    assert forall|i: int| 0 <= i < s3.len() implies #[trigger] known(s3[i]) by {}
    lemma_unknown_all_known(s3, known);
    let s4 = nested_opt_models::<TrackTypeBox>(v.ttyp);
    assert forall|i: int| 0 <= i < s4.len() implies #[trigger] known(s4[i]) by {}
    lemma_unknown_all_known(s4, known);
    let s5 = nested_opt_models::<MetaBox>(v.meta);
    assert forall|i: int| 0 <= i < s5.len() implies #[trigger] known(s5[i]) by {}
    lemma_unknown_all_known(s5, known);
    let s6 = seq![nested_model::<MediaBox>(v.mdia)];
    assert forall|i: int| 0 <= i < s6.len() implies #[trigger] known(s6[i]) by {}
    lemma_unknown_all_known(s6, known);
    let s7 = v.unknown_boxes;
    assert forall|i: int| 0 <= i < s7.len() implies !#[trigger] known(s7[i]) by {}
    lemma_unknown_none_known(s7, known);
    let s8 = nested_opt_models::<UserDataBox>(v.udta);
    assert forall|i: int| 0 <= i < s8.len() implies #[trigger] known(s8[i]) by {}
    lemma_unknown_all_known(s8, known);
    lemma_unknown_add(s0 + s1 + s2 + s3 + s4 + s5 + s6 + s7, s8, known);
    lemma_unknown_add(s0 + s1 + s2 + s3 + s4 + s5 + s6, s7, known);
    lemma_unknown_add(s0 + s1 + s2 + s3 + s4 + s5, s6, known);
    lemma_unknown_add(s0 + s1 + s2 + s3 + s4, s5, known);
    lemma_unknown_add(s0 + s1 + s2 + s3, s4, known);
    lemma_unknown_add(s0 + s1 + s2, s3, known);
    lemma_unknown_add(s0 + s1, s2, known);
    lemma_unknown_add(s0, s1, known);
    assert(collect_unknown(trak_models(v), known) =~= v.unknown_boxes);
}

/// Writing a trak and reading its payload back gives it again.
#[verifier::spinoff_prover]
#[verifier::rlimit(100)]
proof fn lemma_trak_roundtrip(v: TrackBoxModel)
    requires
        trak_canonical(v),
    ensures
        trak_parse(trak_bytes(v)) == Ok::<TrackBoxModel, IsoError>(v),
{
    let s = trak_bytes(v);
    lemma_trak_children(v);
    lemma_trak_types();
    let cs = trak_models(v);
    let fault = |c: UnknownBoxModel| trak_fault(c);
    assert forall|j: int| 0 <= j < cs.len() implies (#[trigger] fault(cs[j])) is None by {
        lemma_trak_no_fault(v, j);
    }
    lemma_first_fault(cs, fault, cs.len() as int);
    assert(cs.take(cs.len() as int) =~= cs);
    lemma_trak_collect_tkhd(v);
    lemma_trak_collect_tref(v);
    lemma_trak_collect_trgr(v);
    lemma_trak_collect_edts(v);
    lemma_trak_collect_ttyp(v);
    lemma_trak_collect_meta(v);
    lemma_trak_collect_mdia(v);
    lemma_trak_collect_udta(v);
    lemma_trak_unknown(v);
    assert(spec_children(s) == cs);
    assert(last_child::<TrackHeaderBox>(cs) == Some(v.tkhd));
    assert(last_child::<TrackReferenceBox>(cs) == v.tref);
    assert(last_child::<TrackGroupBox>(cs) == v.trgr);
    assert(last_child::<EditBox>(cs) == v.edts);
    assert(last_child::<TrackTypeBox>(cs) == v.ttyp);
    assert(last_child::<MetaBox>(cs) == v.meta);
    assert(last_child::<MediaBox>(cs) == Some(v.mdia));
    assert(last_child::<UserDataBox>(cs) == v.udta);
}

/// For a value that reads back as itself, the size is that of its payload and header.
#[verifier::spinoff_prover]
#[verifier::rlimit(60)]
proof fn lemma_trak_size(x: TrackBox)
    requires
        trak_canonical(x@),
    ensures
        x.tkhd.spec_size() + nested_opt_size::<TrackReferenceBox>(x.tref) + nested_opt_size::<TrackGroupBox>(x.trgr) + nested_opt_size::<EditBox>(x.edts) + nested_opt_size::<TrackTypeBox>(x.ttyp) + nested_opt_size::<MetaBox>(x.meta) + x.mdia.spec_size() + size_seq::<UnknownBox>(x.unknown_boxes@) + nested_opt_size::<UserDataBox>(x.udta) == trak_bytes(x@).len(),
{
    let v = x@;
    lemma_nested_size::<TrackHeaderBox>(x.tkhd);
    lemma_nested_opt_size::<TrackReferenceBox>(x.tref);
    lemma_nested_opt_size::<TrackGroupBox>(x.trgr);
    lemma_nested_opt_size::<EditBox>(x.edts);
    lemma_nested_opt_size::<TrackTypeBox>(x.ttyp);
    lemma_nested_opt_size::<MetaBox>(x.meta);
    lemma_nested_size::<MediaBox>(x.mdia);
    assert(writable_seq::<UnknownBox>(views(x.unknown_boxes@)));
    lemma_size_seq::<UnknownBox>(x.unknown_boxes@);
    lemma_nested_opt_size::<UserDataBox>(x.udta);
}

impl BoxBody for TrackBox {
    open spec fn spec_box_type() -> [u8; 4] {
        [0x74u8, 0x72u8, 0x61u8, 0x6bu8]
    }

    fn box_type() -> (r: [u8; 4]) {
        [0x74u8, 0x72u8, 0x61u8, 0x6bu8]
    }

    open spec fn spec_parse_body(s: Seq<u8>) -> Result<TrackBoxModel, IsoError> {
        trak_parse(s)
    }

    open spec fn spec_writable(v: TrackBoxModel) -> bool {
        trak_writable(v)
    }

    open spec fn spec_serialize_body(v: TrackBoxModel) -> Seq<u8> {
        trak_bytes(v)
    }

    open spec fn spec_canonical(v: TrackBoxModel) -> bool {
        trak_canonical(v)
    }

    proof fn lemma_box_type() {
        assert(Self::spec_box_type()[0] != spec_uuid_fourcc()[0]);
    }

    proof fn lemma_body_size(x: TrackBox) {
        lemma_trak_size(x);
    }

    proof fn lemma_body_roundtrip(v: TrackBoxModel) {
        lemma_trak_roundtrip(v);
    }

    fn parse_body(payload: &[u8]) -> (r: Result<TrackBox, IsoError>) {
        parse_trak(payload)
    }

    #[verifier::spinoff_prover]
    #[verifier::rlimit(60)]
    fn serialize_body(&self, out: &mut Vec<u8>) -> (r: Result<(), IsoError>) {
        write_trak_children(self, out)
    }
}

} // verus!
