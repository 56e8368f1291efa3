//! The boxes nested in the payload of a container box.
//!
//! A container reads the boxes of its payload one after the other, until no
//! further header fits in what is left. Each box whose type the container knows is
//! read into its field; a box cut short by the end of the input ends the scan, any
//! other failure is the failure of the container; a box of another type is kept or
//! skipped.

use vstd::prelude::*;

use crate::codec::{fourcc_eq, lemma_append_prefix, IsoError};
use crate::frame::{add_header_size, frame_header, payload_window, BoxBody, UnknownBox, UnknownBoxModel};
use crate::header::{BoxHeader, BoxType};
use crate::wire::{lemma_ser_seq_cons, ser_seq, views, write_matches, IsoSized, Wire};

verus! {

// ---------------------------------------------------------------------------
// Scanning a payload into boxes.
// ---------------------------------------------------------------------------

/// The boxes that follow one another in `s`: each header with the payload window
/// that it announces, until no further header fits in what is left.
pub open spec fn spec_children(s: Seq<u8>) -> Seq<UnknownBoxModel>
    decreases s.len(),
{
    match UnknownBox::spec_parse(s) {
        Ok((c, n)) => if 0 < n <= s.len() {
            seq![c] + spec_children(s.skip(n))
        } else {
            Seq::empty()
        },
        Err(_) => Seq::empty(),
    }
}

/// Splits a payload into the boxes that it holds.
pub fn read_children(data: &[u8]) -> (r: Vec<UnknownBox>)
    ensures
        views(r@) == spec_children(data@),
{
    let mut out: Vec<UnknownBox> = Vec::new();
    let mut pos: usize = 0;
    proof {
        assert(data@.skip(0) =~= data@);
        assert(views(out@) =~= Seq::<UnknownBoxModel>::empty());
    }
    loop
        invariant
            pos <= data@.len(),
            views(out@) + spec_children(data@.skip(pos as int)) == spec_children(data@),
        decreases data@.len() - pos,
    {
        let ghost s = data@.skip(pos as int);
        match UnknownBox::parse(data, pos) {
            Ok((c, end)) => {
                proof {
                    UnknownBox::lemma_parse_len(s);
                    assert(s.skip(end - pos) =~= data@.skip(end as int));
                    assert(views(out@.push(c)) =~= views(out@).push(c@));
                    assert(views(out@) + spec_children(s) =~= views(out@).push(c@) + spec_children(
                        data@.skip(end as int),
                    ));
                }
                out.push(c);
                pos = end;
            },
            Err(_) => {
                proof {
                    assert(views(out@) + spec_children(s) =~= views(out@));
                }
                return out;
            },
        }
    }
}

// ---------------------------------------------------------------------------
// Boxes that stand in a container.
// ---------------------------------------------------------------------------

/// A box that can stand inside a container: the size that it reports is a function
/// of its model.
pub trait ChildBox: BoxBody {
    /// The size that a box with this model reports, its header included.
    spec fn spec_box_size(v: Self::V) -> nat;

    proof fn lemma_box_size(x: Self)
        ensures
            x.spec_size() == Self::spec_box_size(x@),
    ;

    /// For a value that reads back as itself, the size is that of the header and payload.
    proof fn lemma_box_size_canonical(v: Self::V)
        requires
            Self::spec_writable(v),
            Self::spec_canonical(v),
        ensures
            Self::spec_box_size(v) == add_header_size(Self::spec_serialize_body(v).len()),
    ;
}

/// The bytes written for a box inside a container: its header, with the size that
/// the box reports, then its payload.
pub open spec fn child_bytes<T: ChildBox>(v: T::V) -> Seq<u8> {
    BoxHeader::spec_serialize(frame_header(T::spec_box_type(), T::spec_box_size(v)))
        + T::spec_serialize_body(v)
}

/// The boxes of a list, one after the other.
pub open spec fn children_bytes<T: ChildBox>(vs: Seq<T::V>) -> Seq<u8>
    decreases vs.len(),
{
    if vs.len() == 0 {
        Seq::empty()
    } else {
        children_bytes::<T>(vs.drop_last()) + child_bytes::<T>(vs.last())
    }
}

/// The box of an optional field, or nothing.
pub open spec fn option_bytes<T: ChildBox>(v: Option<T::V>) -> Seq<u8> {
    match v {
        Some(x) => child_bytes::<T>(x),
        None => Seq::empty(),
    }
}

/// The sum of the sizes of the boxes of a list.
pub open spec fn children_size<T: ChildBox>(vs: Seq<T::V>) -> nat
    decreases vs.len(),
{
    if vs.len() == 0 {
        0
    } else {
        children_size::<T>(vs.drop_last()) + T::spec_box_size(vs.last())
    }
}

/// The size of the box of an optional field, or 0.
pub open spec fn option_size<T: ChildBox>(v: Option<T::V>) -> nat {
    match v {
        Some(x) => T::spec_box_size(x),
        None => 0,
    }
}

pub open spec fn children_writable<T: ChildBox>(vs: Seq<T::V>) -> bool {
    forall|i: int| 0 <= i < vs.len() ==> #[trigger] T::spec_writable(vs[i])
}

pub open spec fn children_canonical<T: ChildBox>(vs: Seq<T::V>) -> bool {
    forall|i: int| 0 <= i < vs.len() ==> #[trigger] T::spec_canonical(vs[i])
}

pub open spec fn option_writable<T: ChildBox>(v: Option<T::V>) -> bool {
    match v {
        Some(x) => T::spec_writable(x),
        None => true,
    }
}

pub open spec fn option_canonical<T: ChildBox>(v: Option<T::V>) -> bool {
    match v {
        Some(x) => T::spec_canonical(x),
        None => true,
    }
}

/// The sum of the sizes that the boxes of a vector report.
pub open spec fn boxes_size<T: ChildBox>(xs: Seq<T>) -> nat
    decreases xs.len(),
{
    if xs.len() == 0 {
        0
    } else {
        boxes_size::<T>(xs.drop_last()) + xs.last().spec_size()
    }
}

pub proof fn lemma_boxes_size<T: ChildBox>(xs: Seq<T>)
    ensures
        boxes_size::<T>(xs) == children_size::<T>(views(xs)),
    decreases xs.len(),
{
    if xs.len() > 0 {
        lemma_boxes_size::<T>(xs.drop_last());
        assert(views(xs).drop_last() =~= views(xs.drop_last()));
        T::lemma_box_size(xs.last());
    }
}

/// The size that an optional box reports, or 0.
pub open spec fn opt_box_size<T: ChildBox>(x: Option<T>) -> nat {
    match x {
        Some(b) => b.spec_size(),
        None => 0,
    }
}


pub proof fn lemma_opt_box_size<T: ChildBox>(x: Option<T>)
    ensures
        opt_box_size::<T>(x) == option_size::<T>(opt_model::<T>(x)),
{
    if let Some(b) = x {
        T::lemma_box_size(b);
    }
}

// ---------------------------------------------------------------------------
// Writing boxes inside a container.
// ---------------------------------------------------------------------------

/// Writes one box: its header, with the size that it reports, then its payload.
pub fn write_child<T: ChildBox>(x: &T, out: &mut Vec<u8>) -> (r: Result<(), IsoError>)
    requires
        x.spec_size() <= usize::MAX,
    ensures
        write_matches(r, T::spec_writable(x@), child_bytes::<T>(x@), old(out)@, final(out)@),
{
    proof {
        T::lemma_box_size(*x);
    }
    crate::frame::serialize_box(x, out)
}

/// Writes the boxes of a vector one after the other.
pub fn write_children<T: ChildBox>(xs: &Vec<T>, out: &mut Vec<u8>) -> (r: Result<(), IsoError>)
    requires
        boxes_size::<T>(xs@) <= usize::MAX,
    ensures
        write_matches(
            r,
            children_writable::<T>(views(xs@)),
            children_bytes::<T>(views(xs@)),
            old(out)@,
            final(out)@,
        ),
{
    let ghost vs = views(xs@);
    let ghost start = out@;
    let mut i: usize = 0;
    proof {
        assert(vs.take(0) =~= Seq::<T::V>::empty());
        assert(out@ =~= start + children_bytes::<T>(vs.take(0)));
    }
    while i < xs.len()
        invariant
            vs == views(xs@),
            start == old(out)@,
            i <= xs@.len(),
            boxes_size::<T>(xs@) <= usize::MAX,
            out@ == start + children_bytes::<T>(vs.take(i as int)),
            forall|j: int| 0 <= j < i ==> #[trigger] T::spec_writable(vs[j]),
        decreases xs@.len() - i,
    {
        proof {
            lemma_boxes_size_bound::<T>(xs@, i as int);
            assert(vs.take(i + 1).drop_last() =~= vs.take(i as int));
        }
        let ghost before = out@;
        let r = write_child(&xs[i], out);
        if r.is_err() {
            proof {
                assert(vs[i as int] == xs@[i as int]@);
                assert(!children_writable::<T>(vs));
                lemma_append_prefix(start, children_bytes::<T>(vs.take(i as int)));
                assert(start.len() <= before.len());
                assert(before.len() <= out@.len());
                assert forall|k: int| 0 <= k < start.len() implies out@[k] == start[k] by {
                    assert(out@.subrange(0, before.len() as int)[k] == before[k]);
                    assert(before.subrange(0, start.len() as int)[k] == start[k]);
                }
                assert(out@.subrange(0, start.len() as int) =~= start);
            }
            return Err(IsoError::InvalidData);
        }
        proof {
            assert(out@ =~= start + children_bytes::<T>(vs.take(i + 1)));
        }
        i = i + 1;
    }
    proof {
        assert(vs.take(i as int) =~= vs);
        lemma_append_prefix(start, children_bytes::<T>(vs));
    }
    Ok(())
}

/// Each box of a vector reports a size no larger than their sum.
pub proof fn lemma_boxes_size_bound<T: ChildBox>(xs: Seq<T>, i: int)
    requires
        0 <= i < xs.len(),
    ensures
        xs[i].spec_size() <= boxes_size::<T>(xs),
    decreases xs.len(),
{
    if i < xs.len() - 1 {
        lemma_boxes_size_bound::<T>(xs.drop_last(), i);
    }
}

/// Writes the box of an optional field, if there is one.
pub fn write_option<T: ChildBox>(x: &Option<T>, out: &mut Vec<u8>) -> (r: Result<(), IsoError>)
    requires
        opt_box_size::<T>(*x) <= usize::MAX,
    ensures
        write_matches(
            r,
            option_writable::<T>(opt_model::<T>(*x)),
            option_bytes::<T>(opt_model::<T>(*x)),
            old(out)@,
            final(out)@,
        ),
{
    match x {
        Some(b) => write_child(b, out),
        None => {
            proof {
                assert(out@ =~= old(out)@ + Seq::<u8>::empty());
                lemma_append_prefix(out@, Seq::<u8>::empty());
            }
            Ok(())
        },
    }
}

/// The sum of the sizes that the boxes of a vector report.
pub fn size_children<T: ChildBox>(xs: &Vec<T>) -> (n: usize)
    requires
        boxes_size::<T>(xs@) <= usize::MAX,
    ensures
        n == boxes_size::<T>(xs@),
{
    let mut acc: usize = 0;
    let mut i: usize = 0;
    assert(xs@.take(0) =~= Seq::<T>::empty());
    while i < xs.len()
        invariant
            i <= xs@.len(),
            acc == boxes_size::<T>(xs@.take(i as int)),
            boxes_size::<T>(xs@) <= usize::MAX,
        decreases xs@.len() - i,
    {
        proof {
            assert(xs@.take(i + 1).drop_last() =~= xs@.take(i as int));
            lemma_boxes_size_prefix::<T>(xs@, i + 1);
        }
        acc = acc + xs[i].size();
        i = i + 1;
    }
    assert(xs@.take(i as int) =~= xs@);
    acc
}

/// A prefix of a vector reports no more than the whole vector.
pub proof fn lemma_boxes_size_prefix<T: ChildBox>(xs: Seq<T>, i: int)
    requires
        0 <= i <= xs.len(),
    ensures
        boxes_size::<T>(xs.take(i)) <= boxes_size::<T>(xs),
    decreases xs.len() - i,
{
    if i < xs.len() {
        assert(xs.take(i + 1).drop_last() =~= xs.take(i));
        lemma_boxes_size_prefix::<T>(xs, i + 1);
    } else {
        assert(xs.take(i) =~= xs);
    }
}

/// The size that an optional box reports, or 0.
pub fn size_option<T: ChildBox>(x: &Option<T>) -> (n: usize)
    requires
        opt_box_size::<T>(*x) <= usize::MAX,
    ensures
        n == opt_box_size::<T>(*x),
{
    match x {
        Some(b) => b.size(),
        None => 0,
    }
}

// ---------------------------------------------------------------------------
// Reading the boxes of a container into its fields.
// ---------------------------------------------------------------------------

/// Whether a box found in a container has the type of `T`.
pub open spec fn is_child<T: BoxBody>(c: UnknownBoxModel) -> bool {
    c.header.box_type == BoxType::FourCc(T::spec_box_type())
}

/// What a box of the type of `T` reads as, or `None` for a box of another type or
/// one that cannot be read.
#[verifier::opaque]
pub open spec fn child_value<T: BoxBody>(c: UnknownBoxModel) -> Option<T::V> {
    if is_child::<T>(c) {
        match T::spec_parse_body(c.data) {
            Ok(v) => Some(v),
            Err(_) => None,
        }
    } else {
        None
    }
}

/// The failure of reading a box of the type of `T`, or `None`.
#[verifier::opaque]
pub open spec fn child_fault<T: BoxBody>(c: UnknownBoxModel) -> Option<IsoError> {
    if is_child::<T>(c) {
        match T::spec_parse_body(c.data) {
            Ok(_) => None,
            Err(e) => Some(e),
        }
    } else {
        None
    }
}

/// The values of the boxes of the type of `T` in a list, in order.
pub open spec fn collect_children<T: BoxBody>(cs: Seq<UnknownBoxModel>) -> Seq<T::V> {
    cs.filter_map(|c: UnknownBoxModel| child_value::<T>(c))
}

/// The value of the last box of the type of `T` in a list.
pub open spec fn last_child<T: BoxBody>(cs: Seq<UnknownBoxModel>) -> Option<T::V> {
    let vs = collect_children::<T>(cs);
    if vs.len() > 0 {
        Some(vs.last())
    } else {
        None
    }
}

/// The boxes of a list that `known` does not claim, in order.
pub open spec fn collect_unknown(
    cs: Seq<UnknownBoxModel>,
    known: spec_fn(UnknownBoxModel) -> bool,
) -> Seq<UnknownBoxModel> {
    cs.filter_map(|c: UnknownBoxModel| if known(c) { None } else { Some(c) })
}

/// The position of the first box whose reading fails, or the length of the list.
pub open spec fn first_fault(
    cs: Seq<UnknownBoxModel>,
    fault: spec_fn(UnknownBoxModel) -> Option<IsoError>,
) -> nat
    decreases cs.len(),
{
    if cs.len() == 0 {
        0
    } else if fault(cs[0]) is Some {
        0
    } else {
        1 + first_fault(cs.drop_first(), fault)
    }
}

/// The first failure of a list ends it: boxes before it are read, a box cut short
/// ends the scan, any other failure is the result.
pub open spec fn scan_result(
    cs: Seq<UnknownBoxModel>,
    fault: spec_fn(UnknownBoxModel) -> Option<IsoError>,
) -> Result<nat, IsoError> {
    let k = first_fault(cs, fault);
    if k < cs.len() && fault(cs[k as int]) != Some(IsoError::UnexpectedEof) {
        Err(fault(cs[k as int]).unwrap())
    } else {
        Ok(k)
    }
}

/// Where no box before `i` fails and the box at `i` fails or the list ends there,
/// the first failure is at `i`.
pub proof fn lemma_first_fault(
    cs: Seq<UnknownBoxModel>,
    fault: spec_fn(UnknownBoxModel) -> Option<IsoError>,
    i: int,
)
    requires
        0 <= i <= cs.len(),
        forall|j: int| 0 <= j < i ==> (#[trigger] fault(cs[j])) is None,
        i < cs.len() ==> fault(cs[i]) is Some,
    ensures
        first_fault(cs, fault) == i,
    decreases i,
{
    if i > 0 {
        assert(fault(cs[0]) is None);
        let rest = cs.drop_first();
        assert forall|j: int| 0 <= j < i - 1 implies (#[trigger] fault(rest[j])) is None by {
            assert(rest[j] == cs[j + 1]);
        }
        if i < cs.len() {
            assert(rest[i - 1] == cs[i]);
        }
        lemma_first_fault(rest, fault, i - 1);
    }
}

/// Reading one more box adds its value, if it has the type of `T`.
pub proof fn lemma_collect_step<T: BoxBody>(cs: Seq<UnknownBoxModel>, i: int)
    requires
        0 <= i < cs.len(),
    ensures
        collect_children::<T>(cs.take(i + 1)) == collect_children::<T>(cs.take(i)) + match child_value::<T>(
            cs[i],
        ) {
            Some(v) => seq![v],
            None => Seq::<T::V>::empty(),
        },
        last_child::<T>(cs.take(i + 1)) == match child_value::<T>(cs[i]) {
            Some(v) => Some(v),
            None => last_child::<T>(cs.take(i)),
        },
{
    let f = |c: UnknownBoxModel| child_value::<T>(c);
    cs.lemma_filter_map_take_succ(f, i);
}

/// Reading one more box adds it to the unknown ones, if `known` does not claim it.
pub proof fn lemma_unknown_step(cs: Seq<UnknownBoxModel>, known: spec_fn(UnknownBoxModel) -> bool, i: int)
    requires
        0 <= i < cs.len(),
    ensures
        collect_unknown(cs.take(i + 1), known) == collect_unknown(cs.take(i), known) + if known(cs[i]) {
            Seq::<UnknownBoxModel>::empty()
        } else {
            seq![cs[i]]
        },
{
    let f = |c: UnknownBoxModel| if known(c) { None } else { Some(c) };
    cs.lemma_filter_map_take_succ(f, i);
}

/// Whether a box has the type of `T`.
pub fn is_child_exec<T: BoxBody>(c: &UnknownBox) -> (r: bool)
    ensures
        r == is_child::<T>(c@),
{
    match c.header.box_type {
        BoxType::FourCc(t) => fourcc_eq(t, T::box_type()),
        BoxType::Uuid(_) => false,
    }
}

/// Reads a box of the type of `T` into a vector field.
pub fn collect_into<T: BoxBody>(c: &UnknownBox, items: &mut Vec<T>) -> (r: Result<(), IsoError>)
    requires
        is_child::<T>(c@),
    ensures
        match child_fault::<T>(c@) {
            None => r is Ok && views(final(items)@) == views(old(items)@).push(child_value::<T>(c@)->0),
            Some(e) => r == Err::<(), IsoError>(e) && final(items)@ == old(items)@,
        },
{
    proof {
        reveal(child_value);
        reveal(child_fault);
    }
    let x = T::parse_body(c.data.as_slice())?;
    proof {
        assert(views(items@.push(x)) =~= views(items@).push(x@));
    }
    items.push(x);
    Ok(())
}

/// Reads a box of the type of `T` into an optional field; a later box replaces an
/// earlier one.
pub fn replace_into<T: BoxBody>(c: &UnknownBox, item: &mut Option<T>) -> (r: Result<(), IsoError>)
    requires
        is_child::<T>(c@),
    ensures
        match child_fault::<T>(c@) {
            None => r is Ok && opt_model::<T>(*final(item)) == child_value::<T>(c@),
            Some(e) => r == Err::<(), IsoError>(e) && *final(item) == *old(item),
        },
{
    proof {
        reveal(child_value);
        reveal(child_fault);
    }
    let x = T::parse_body(c.data.as_slice())?;
    *item = Some(x);
    Ok(())
}

/// The model of an optional field of any box type.
pub open spec fn opt_model<T: BoxBody>(x: Option<T>) -> Option<T::V> {
    match x {
        Some(b) => Some(b@),
        None => None,
    }
}

// ---------------------------------------------------------------------------
// Reading back what was written.
// ---------------------------------------------------------------------------

/// The box, as found in a container, that is written for a value of `T`.
pub open spec fn child_model<T: ChildBox>(v: T::V) -> UnknownBoxModel {
    UnknownBoxModel {
        header: frame_header(T::spec_box_type(), T::spec_box_size(v)),
        data: T::spec_serialize_body(v),
    }
}

/// The boxes, as found in a container, written for a list of values.
pub open spec fn children_models<T: ChildBox>(vs: Seq<T::V>) -> Seq<UnknownBoxModel> {
    vs.map_values(|v: T::V| child_model::<T>(v))
}

/// The box, as found in a container, written for an optional field.
pub open spec fn option_models<T: ChildBox>(v: Option<T::V>) -> Seq<UnknownBoxModel> {
    match v {
        Some(x) => seq![child_model::<T>(x)],
        None => Seq::empty(),
    }
}

/// A value whose box reads back as itself inside a container.
pub open spec fn child_ok<T: ChildBox>(v: T::V) -> bool {
    T::spec_writable(v) && T::spec_canonical(v) && T::spec_box_size(v) <= usize::MAX
}

pub open spec fn children_ok<T: ChildBox>(vs: Seq<T::V>) -> bool {
    forall|i: int| 0 <= i < vs.len() ==> #[trigger] child_ok::<T>(vs[i])
}

pub open spec fn option_ok<T: ChildBox>(v: Option<T::V>) -> bool {
    match v {
        Some(x) => child_ok::<T>(x),
        None => true,
    }
}

/// The box written for a value reads as that box, whatever follows it, and its
/// payload reads back as the value.
pub proof fn lemma_child_cons<T: ChildBox>(v: T::V, rest: Seq<u8>)
    requires
        child_ok::<T>(v),
    ensures
        spec_children(child_bytes::<T>(v) + rest) == seq![child_model::<T>(v)] + spec_children(rest),
        child_bytes::<T>(v).len() == T::spec_box_size(v),
        UnknownBox::spec_canonical(child_model::<T>(v)),
        child_value::<T>(child_model::<T>(v)) == Some(v),
        child_fault::<T>(child_model::<T>(v)) is None,
        is_child::<T>(child_model::<T>(v)),
{
    reveal(child_value);
    reveal(child_fault);
    T::lemma_box_size_canonical(v);
    T::lemma_box_type();
    T::lemma_body_roundtrip(v);
    let m = child_model::<T>(v);
    BoxHeader::lemma_size(m.header);
    assert(UnknownBox::spec_canonical(m));
    UnknownBox::lemma_roundtrip(m, rest);
    let s = child_bytes::<T>(v) + rest;
    assert(UnknownBox::spec_serialize(m) == child_bytes::<T>(v));
    UnknownBox::lemma_parse_len(s);
    assert(s.skip(child_bytes::<T>(v).len() as int) =~= rest);
}

/// The boxes written for a list read as those boxes, whatever follows them.
pub proof fn lemma_children_seq<T: ChildBox>(vs: Seq<T::V>, rest: Seq<u8>)
    requires
        children_ok::<T>(vs),
    ensures
        spec_children(children_bytes::<T>(vs) + rest) == children_models::<T>(vs) + spec_children(rest),
        children_bytes::<T>(vs).len() == children_size::<T>(vs),
    decreases vs.len(),
{
    if vs.len() == 0 {
        assert(children_bytes::<T>(vs) + rest =~= rest);
        assert(children_models::<T>(vs) + spec_children(rest) =~= spec_children(rest));
    } else {
        let init = vs.drop_last();
        let last = vs.last();
        assert(child_ok::<T>(vs[vs.len() - 1]));
        assert forall|i: int| 0 <= i < init.len() implies #[trigger] child_ok::<T>(init[i]) by {
            assert(child_ok::<T>(vs[i]));
        }
        lemma_child_cons::<T>(last, rest);
        lemma_children_seq::<T>(init, child_bytes::<T>(last) + rest);
        assert(children_bytes::<T>(vs) + rest =~= children_bytes::<T>(init) + (child_bytes::<T>(last)
            + rest));
        assert(children_models::<T>(vs) =~= children_models::<T>(init) + seq![child_model::<T>(last)]);
        assert(children_models::<T>(vs) + spec_children(rest) =~= children_models::<T>(init) + (seq![
            child_model::<T>(last),
        ] + spec_children(rest)));
    }
}

/// The box written for an optional field reads as that box, whatever follows it.
pub proof fn lemma_option_seq<T: ChildBox>(v: Option<T::V>, rest: Seq<u8>)
    requires
        option_ok::<T>(v),
    ensures
        spec_children(option_bytes::<T>(v) + rest) == option_models::<T>(v) + spec_children(rest),
        option_bytes::<T>(v).len() == option_size::<T>(v),
{
    match v {
        Some(x) => {
            lemma_child_cons::<T>(x, rest);
        },
        None => {
            assert(option_bytes::<T>(v) + rest =~= rest);
            assert(option_models::<T>(v) + spec_children(rest) =~= spec_children(rest));
        },
    }
}

/// Unknown boxes written one after the other read back as themselves.
pub proof fn lemma_unknown_seq(us: Seq<UnknownBoxModel>)
    requires
        forall|i: int| 0 <= i < us.len() ==> #[trigger] UnknownBox::spec_canonical(us[i]),
    ensures
        spec_children(ser_seq::<UnknownBox>(us)) == us,
    decreases us.len(),
{
    if us.len() == 0 {
        UnknownBox::lemma_parse_len(Seq::<u8>::empty());
        assert(ser_seq::<UnknownBox>(us) =~= Seq::<u8>::empty());
        assert(us =~= Seq::<UnknownBoxModel>::empty());
    } else {
        let first = us[0];
        let tail = us.drop_first();
        assert(us =~= seq![first] + tail);
        assert(UnknownBox::spec_canonical(us[0]));
        assert forall|i: int| 0 <= i < tail.len() implies #[trigger] UnknownBox::spec_canonical(tail[i]) by {
            assert(UnknownBox::spec_canonical(us[i + 1]));
        }
        lemma_unknown_seq(tail);
        lemma_ser_seq_cons::<UnknownBox>(first, tail);
        let s = ser_seq::<UnknownBox>(us);
        UnknownBox::lemma_roundtrip(first, ser_seq::<UnknownBox>(tail));
        UnknownBox::lemma_parse_len(s);
        assert(s.skip(UnknownBox::spec_serialize(first).len() as int) =~= ser_seq::<UnknownBox>(tail));
    }
}

/// Collecting over two lists one after the other collects over each in turn.
pub proof fn lemma_filter_map_add<A, B>(a: Seq<A>, b: Seq<A>, f: spec_fn(A) -> Option<B>)
    ensures
        (a + b).filter_map(f) == a.filter_map(f) + b.filter_map(f),
    decreases b.len(),
{
    if b.len() == 0 {
        assert(a + b =~= a);
        assert(a.filter_map(f) + b.filter_map(f) =~= a.filter_map(f));
    } else {
        let bi = b.drop_last();
        lemma_filter_map_add(a, bi, f);
        assert((a + b).drop_last() =~= a + bi);
        assert((a + b).last() == b.last());
        match f(b.last()) {
            Some(x) => {
                assert((a.filter_map(f) + bi.filter_map(f)) + seq![x] =~= a.filter_map(f) + (
                bi.filter_map(f) + seq![x]));
            },
            None => {},
        }
    }
}

/// The boxes written for a list of values of `T` collect back into that list.
pub proof fn lemma_collect_own<T: ChildBox>(vs: Seq<T::V>)
    requires
        children_ok::<T>(vs),
    ensures
        collect_children::<T>(children_models::<T>(vs)) == vs,
    decreases vs.len(),
{
    let f = |c: UnknownBoxModel| child_value::<T>(c);
    if vs.len() == 0 {
        assert(children_models::<T>(vs) =~= Seq::<UnknownBoxModel>::empty());
        assert(vs =~= Seq::<T::V>::empty());
    } else {
        let init = vs.drop_last();
        assert forall|i: int| 0 <= i < init.len() implies #[trigger] child_ok::<T>(init[i]) by {
            assert(child_ok::<T>(vs[i]));
        }
        assert(child_ok::<T>(vs[vs.len() - 1]));
        lemma_collect_own::<T>(init);
        lemma_child_cons::<T>(vs.last(), Seq::empty());
        let ms = children_models::<T>(vs);
        assert(ms.drop_last() =~= children_models::<T>(init));
        assert(ms.last() == child_model::<T>(vs.last()));
        assert(vs =~= init + seq![vs.last()]);
    }
}

/// The boxes written for a list of values of `U` hold no box of `T`'s type.
pub proof fn lemma_collect_other<T: BoxBody, U: ChildBox>(vs: Seq<U::V>)
    requires
        T::spec_box_type() != U::spec_box_type(),
    ensures
        collect_children::<T>(children_models::<U>(vs)) == Seq::<T::V>::empty(),
    decreases vs.len(),
{
    if vs.len() > 0 {
        let init = vs.drop_last();
        lemma_collect_other::<T, U>(init);
        let ms = children_models::<U>(vs);
        assert(ms.drop_last() =~= children_models::<U>(init));
        assert(!is_child::<T>(ms.last()));
        reveal(child_value);
    } else {
        assert(children_models::<U>(vs) =~= Seq::<UnknownBoxModel>::empty());
    }
}

/// The box written for an optional field collects back into it.
pub proof fn lemma_option_own<T: ChildBox>(v: Option<T::V>)
    requires
        option_ok::<T>(v),
    ensures
        collect_children::<T>(option_models::<T>(v)) == match v {
            Some(x) => seq![x],
            None => Seq::<T::V>::empty(),
        },
{
    let f = |c: UnknownBoxModel| child_value::<T>(c);
    match v {
        Some(x) => {
            lemma_child_cons::<T>(x, Seq::empty());
            Seq::<UnknownBoxModel>::lemma_filter_map_singleton(child_model::<T>(x), f);
        },
        None => {
            assert(option_models::<T>(v) =~= Seq::<UnknownBoxModel>::empty());
        },
    }
}

/// The box written for an optional field of `U` holds no box of `T`'s type.
pub proof fn lemma_option_other<T: BoxBody, U: ChildBox>(v: Option<U::V>)
    requires
        T::spec_box_type() != U::spec_box_type(),
    ensures
        collect_children::<T>(option_models::<U>(v)) == Seq::<T::V>::empty(),
{
    let f = |c: UnknownBoxModel| child_value::<T>(c);
    match v {
        Some(x) => {
            reveal(child_value);
            Seq::<UnknownBoxModel>::lemma_filter_map_singleton(child_model::<U>(x), f);
        },
        None => {
            assert(option_models::<U>(v) =~= Seq::<UnknownBoxModel>::empty());
        },
    }
}

/// Collecting over two lists one after the other collects over each in turn.
pub proof fn lemma_collect_add<T: BoxBody>(a: Seq<UnknownBoxModel>, b: Seq<UnknownBoxModel>)
    ensures
        collect_children::<T>(a + b) == collect_children::<T>(a) + collect_children::<T>(b),
{
    let f = |c: UnknownBoxModel| child_value::<T>(c);
    lemma_filter_map_add(a, b, f);
}

/// An empty payload holds no box.
pub proof fn lemma_children_empty()
    ensures
        spec_children(Seq::<u8>::empty()) == Seq::<UnknownBoxModel>::empty(),
{
    UnknownBox::lemma_parse_len(Seq::<u8>::empty());
}

/// A box of another type than `T` neither reads as `T` nor fails as one.
pub proof fn lemma_child_other<T: BoxBody>(c: UnknownBoxModel)
    requires
        !is_child::<T>(c),
    ensures
        child_value::<T>(c) is None,
        child_fault::<T>(c) is None,
{
    reveal(child_value);
    reveal(child_fault);
}

/// A box of the type of `T` either reads as a value or fails.
pub proof fn lemma_child_read<T: BoxBody>(c: UnknownBoxModel)
    requires
        is_child::<T>(c),
    ensures
        child_fault::<T>(c) is None <==> child_value::<T>(c) is Some,
{
    reveal(child_value);
    reveal(child_fault);
}

/// Collecting the unknown boxes of two lists one after the other collects over each
/// in turn.
pub proof fn lemma_unknown_add(
    a: Seq<UnknownBoxModel>,
    b: Seq<UnknownBoxModel>,
    known: spec_fn(UnknownBoxModel) -> bool,
)
    ensures
        collect_unknown(a + b, known) == collect_unknown(a, known) + collect_unknown(b, known),
{
    let f = |c: UnknownBoxModel| if known(c) { None } else { Some(c) };
    lemma_filter_map_add(a, b, f);
}

/// A list of boxes that `known` claims holds no unknown box.
pub proof fn lemma_unknown_all_known(cs: Seq<UnknownBoxModel>, known: spec_fn(UnknownBoxModel) -> bool)
    requires
        forall|i: int| 0 <= i < cs.len() ==> #[trigger] known(cs[i]),
    ensures
        collect_unknown(cs, known) == Seq::<UnknownBoxModel>::empty(),
    decreases cs.len(),
{
    if cs.len() > 0 {
        let init = cs.drop_last();
        assert forall|i: int| 0 <= i < init.len() implies #[trigger] known(init[i]) by {
            assert(known(cs[i]));
        }
        assert(known(cs[cs.len() - 1]));
        lemma_unknown_all_known(init, known);
    }
}

/// A list of boxes that `known` does not claim is its own list of unknown boxes.
pub proof fn lemma_unknown_none_known(cs: Seq<UnknownBoxModel>, known: spec_fn(UnknownBoxModel) -> bool)
    requires
        forall|i: int| 0 <= i < cs.len() ==> !#[trigger] known(cs[i]),
    ensures
        collect_unknown(cs, known) == cs,
    decreases cs.len(),
{
    if cs.len() > 0 {
        let init = cs.drop_last();
        assert forall|i: int| 0 <= i < init.len() implies !#[trigger] known(init[i]) by {
            assert(!known(cs[i]));
        }
        assert(!known(cs[cs.len() - 1]));
        lemma_unknown_none_known(init, known);
        assert(cs =~= init.push(cs.last()));
    } else {
        assert(cs =~= Seq::<UnknownBoxModel>::empty());
    }
}

/// A list that holds no box of `T`'s type collects nothing for `T`.
pub proof fn lemma_collect_none<T: BoxBody>(cs: Seq<UnknownBoxModel>)
    requires
        forall|i: int| 0 <= i < cs.len() ==> !#[trigger] is_child::<T>(cs[i]),
    ensures
        collect_children::<T>(cs) == Seq::<T::V>::empty(),
    decreases cs.len(),
{
    if cs.len() > 0 {
        let init = cs.drop_last();
        assert forall|i: int| 0 <= i < init.len() implies !#[trigger] is_child::<T>(init[i]) by {
            assert(!is_child::<T>(cs[i]));
        }
        assert(!is_child::<T>(cs[cs.len() - 1]));
        lemma_child_other::<T>(cs.last());
        lemma_collect_none::<T>(init);
    }
}

} // verus!
