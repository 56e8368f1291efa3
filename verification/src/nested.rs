//! Boxes nested in a container, each written with a header that gives the length
//! of what its writer produced.
//!
//! A contained box is framed with the size of its header and payload as written,
//! which is the size that a canonical box reports. Its reading is that of
//! `children`: a box of the field's type is read into the field, a box cut short
//! ends the scan and any other failure is the failure of the container.

use vstd::prelude::*;

use crate::children::{child_fault, child_value, is_child, spec_children};
use crate::codec::{lemma_append_prefix, lemma_prefix_trans, write_bytes, IsoError};
use crate::frame::{add_header_size, box_bytes, frame_header, spec_parse_box, BoxBody, UnknownBox, UnknownBoxModel};
use crate::header::{BoxHeader, BoxSize, BoxType};
use crate::wire::{views, write_matches, IsoSized, Wire};

verus! {

/// The payload that the writer of `T` produces for `v`.
#[verifier::opaque]
pub open spec fn body<T: BoxBody>(v: T::V) -> Seq<u8> {
    T::spec_serialize_body(v)
}

/// The box, as found in a container, that is written for `v`.
pub open spec fn nested_model<T: BoxBody>(v: T::V) -> UnknownBoxModel {
    UnknownBoxModel {
        header: frame_header(T::spec_box_type(), add_header_size(body::<T>(v).len())),
        data: body::<T>(v),
    }
}

/// The box can be written: its writer succeeds and the whole box fits in memory.
#[verifier::opaque]
pub open spec fn nested_writable<T: BoxBody>(v: T::V) -> bool {
    T::spec_writable(v) && add_header_size(body::<T>(v).len()) <= usize::MAX
}

/// A value whose box reads back as itself.
#[verifier::opaque]
pub open spec fn nested_ok<T: BoxBody>(v: T::V) -> bool {
    nested_writable::<T>(v) && T::spec_canonical(v)
}

/// The bytes of the box written for `v`: its header, with the size of the header
/// and the payload, then the payload.
#[verifier::opaque]
pub open spec fn nested_box_bytes<T: BoxBody>(v: T::V) -> Seq<u8> {
    box_bytes::<T>(v)
}

/// The boxes of a list, one after the other.
pub open spec fn nested_bytes<T: BoxBody>(vs: Seq<T::V>) -> Seq<u8>
    decreases vs.len(),
{
    if vs.len() == 0 {
        Seq::empty()
    } else {
        nested_bytes::<T>(vs.drop_last()) + nested_box_bytes::<T>(vs.last())
    }
}

/// The box of an optional field, or nothing.
pub open spec fn nested_opt_bytes<T: BoxBody>(v: Option<T::V>) -> Seq<u8> {
    match v {
        Some(x) => nested_box_bytes::<T>(x),
        None => Seq::empty(),
    }
}

/// The boxes, as found in a container, written for a list of values.
pub open spec fn nested_models<T: BoxBody>(vs: Seq<T::V>) -> Seq<UnknownBoxModel> {
    vs.map_values(|v: T::V| nested_model::<T>(v))
}

/// The box, as found in a container, written for an optional field.
pub open spec fn nested_opt_models<T: BoxBody>(v: Option<T::V>) -> Seq<UnknownBoxModel> {
    match v {
        Some(x) => seq![nested_model::<T>(x)],
        None => Seq::empty(),
    }
}

pub open spec fn nested_all_writable<T: BoxBody>(vs: Seq<T::V>) -> bool {
    forall|i: int| 0 <= i < vs.len() ==> #[trigger] nested_writable::<T>(vs[i])
}

pub open spec fn nested_opt_writable<T: BoxBody>(v: Option<T::V>) -> bool {
    match v {
        Some(x) => nested_writable::<T>(x),
        None => true,
    }
}

pub open spec fn nested_all_ok<T: BoxBody>(vs: Seq<T::V>) -> bool {
    forall|i: int| 0 <= i < vs.len() ==> #[trigger] nested_ok::<T>(vs[i])
}

pub open spec fn nested_opt_ok<T: BoxBody>(v: Option<T::V>) -> bool {
    match v {
        Some(x) => nested_ok::<T>(x),
        None => true,
    }
}

/// A value as a list of none or one.
pub open spec fn opt_seq<A>(x: Option<A>) -> Seq<A> {
    match x {
        Some(v) => seq![v],
        None => Seq::empty(),
    }
}

/// The model of an optional box.
pub open spec fn opt_view<T: View>(x: Option<T>) -> Option<T::V> {
    match x {
        Some(b) => Some(b@),
        None => None,
    }
}

// ---------------------------------------------------------------------------
// Reading back what was written.
// ---------------------------------------------------------------------------

/// The box written for a value reads as that box, whatever follows it, and its
/// type's reader gives the value back.
pub proof fn lemma_nested_cons<T: BoxBody>(v: T::V, rest: Seq<u8>)
    requires
        nested_ok::<T>(v),
    ensures
        spec_children(nested_box_bytes::<T>(v) + rest) == seq![nested_model::<T>(v)] + spec_children(rest),
        nested_box_bytes::<T>(v).len() == add_header_size(body::<T>(v).len()),
        UnknownBox::spec_canonical(nested_model::<T>(v)),
        child_value::<T>(nested_model::<T>(v)) == Some(v),
        child_fault::<T>(nested_model::<T>(v)) is None,
        is_child::<T>(nested_model::<T>(v)),
        nested_model::<T>(v).header.box_type == BoxType::FourCc(T::spec_box_type()),
{
    reveal(child_value);
    reveal(child_fault);
    reveal(nested_ok);
    reveal(nested_writable);
    reveal(body);
    reveal(nested_box_bytes);
    T::lemma_box_type();
    T::lemma_body_roundtrip(v);
    let m = nested_model::<T>(v);
    BoxHeader::lemma_size(m.header);
    assert(UnknownBox::spec_canonical(m));
    UnknownBox::lemma_roundtrip(m, rest);
    let s = nested_box_bytes::<T>(v) + rest;
    assert(UnknownBox::spec_serialize(m) == nested_box_bytes::<T>(v));
    UnknownBox::lemma_parse_len(s);
    assert(s.skip(nested_box_bytes::<T>(v).len() as int) =~= rest);
}

/// The boxes written for a list read as those boxes, whatever follows them.
pub proof fn lemma_nested_seq<T: BoxBody>(vs: Seq<T::V>, rest: Seq<u8>)
    requires
        nested_all_ok::<T>(vs),
    ensures
        spec_children(nested_bytes::<T>(vs) + rest) == nested_models::<T>(vs) + spec_children(rest),
    decreases vs.len(),
{
    if vs.len() == 0 {
        assert(nested_bytes::<T>(vs) + rest =~= rest);
        assert(nested_models::<T>(vs) + spec_children(rest) =~= spec_children(rest));
    } else {
        let init = vs.drop_last();
        let last = vs.last();
        assert(nested_ok::<T>(vs[vs.len() - 1]));
        assert forall|i: int| 0 <= i < init.len() implies #[trigger] nested_ok::<T>(init[i]) by {
            assert(nested_ok::<T>(vs[i]));
        }
        lemma_nested_cons::<T>(last, rest);
        lemma_nested_seq::<T>(init, nested_box_bytes::<T>(last) + rest);
        assert(nested_bytes::<T>(vs) + rest =~= nested_bytes::<T>(init) + (nested_box_bytes::<T>(last) + rest));
        assert(nested_models::<T>(vs) =~= nested_models::<T>(init) + seq![nested_model::<T>(last)]);
        assert(nested_models::<T>(vs) + spec_children(rest) =~= nested_models::<T>(init) + (seq![
            nested_model::<T>(last),
        ] + spec_children(rest)));
    }
}

/// The box written for an optional field reads as that box, whatever follows it.
pub proof fn lemma_nested_opt_seq<T: BoxBody>(v: Option<T::V>, rest: Seq<u8>)
    requires
        nested_opt_ok::<T>(v),
    ensures
        spec_children(nested_opt_bytes::<T>(v) + rest) == nested_opt_models::<T>(v) + spec_children(rest),
{
    match v {
        Some(x) => {
            lemma_nested_cons::<T>(x, rest);
        },
        None => {
            assert(nested_opt_bytes::<T>(v) + rest =~= rest);
            assert(nested_opt_models::<T>(v) + spec_children(rest) =~= spec_children(rest));
        },
    }
}

/// The boxes written for a list of values of `T` collect back into the list.
pub proof fn lemma_nested_collect_own<T: BoxBody>(vs: Seq<T::V>)
    requires
        nested_all_ok::<T>(vs),
    ensures
        crate::children::collect_children::<T>(nested_models::<T>(vs)) == vs,
    decreases vs.len(),
{
    if vs.len() == 0 {
        assert(nested_models::<T>(vs) =~= Seq::<UnknownBoxModel>::empty());
        assert(vs =~= Seq::<T::V>::empty());
    } else {
        let init = vs.drop_last();
        assert forall|i: int| 0 <= i < init.len() implies #[trigger] nested_ok::<T>(init[i]) by {
            assert(nested_ok::<T>(vs[i]));
        }
        assert(nested_ok::<T>(vs[vs.len() - 1]));
        lemma_nested_collect_own::<T>(init);
        lemma_nested_cons::<T>(vs.last(), Seq::empty());
        let ms = nested_models::<T>(vs);
        assert(ms.drop_last() =~= nested_models::<T>(init));
        assert(ms.last() == nested_model::<T>(vs.last()));
        assert(vs =~= init + seq![vs.last()]);
    }
}

/// The box written for an optional field collects back into it.
pub proof fn lemma_nested_opt_own<T: BoxBody>(v: Option<T::V>)
    requires
        nested_opt_ok::<T>(v),
    ensures
        crate::children::collect_children::<T>(nested_opt_models::<T>(v)) == opt_seq(v),
{
    let f = |c: UnknownBoxModel| child_value::<T>(c);
    match v {
        Some(x) => {
            lemma_nested_cons::<T>(x, Seq::empty());
            Seq::<UnknownBoxModel>::lemma_filter_map_singleton(nested_model::<T>(x), f);
        },
        None => {
            assert(nested_opt_models::<T>(v) =~= Seq::<UnknownBoxModel>::empty());
        },
    }
}

/// Every box written for a list of values of `U` has the type of `U`.
pub proof fn lemma_nested_types<U: BoxBody>(vs: Seq<U::V>)
    ensures
        forall|i: int|
            0 <= i < nested_models::<U>(vs).len() ==> (#[trigger] nested_models::<U>(vs)[i]).header.box_type
                == BoxType::FourCc(U::spec_box_type()),
        nested_models::<U>(vs).len() == vs.len(),
{
}

/// The boxes written for a list of values of `U` hold no box of `T`'s type.
pub proof fn lemma_nested_collect_other<T: BoxBody, U: BoxBody>(vs: Seq<U::V>)
    requires
        T::spec_box_type() != U::spec_box_type(),
    ensures
        crate::children::collect_children::<T>(nested_models::<U>(vs)) == Seq::<T::V>::empty(),
{
    let ms = nested_models::<U>(vs);
    assert forall|i: int| 0 <= i < ms.len() implies !#[trigger] is_child::<T>(ms[i]) by {
        assert(ms[i].header.box_type == BoxType::FourCc(U::spec_box_type()));
    }
    crate::children::lemma_collect_none::<T>(ms);
}

/// The box written for an optional field of `U` holds no box of `T`'s type.
pub proof fn lemma_nested_opt_other<T: BoxBody, U: BoxBody>(v: Option<U::V>)
    requires
        T::spec_box_type() != U::spec_box_type(),
    ensures
        crate::children::collect_children::<T>(nested_opt_models::<U>(v)) == Seq::<T::V>::empty(),
{
    let ms = nested_opt_models::<U>(v);
    assert forall|i: int| 0 <= i < ms.len() implies !#[trigger] is_child::<T>(ms[i]) by {
        assert(ms[i].header.box_type == BoxType::FourCc(U::spec_box_type()));
    }
    crate::children::lemma_collect_none::<T>(ms);
}

/// Unknown boxes written one after the other read back as themselves, whatever
/// follows them.
pub proof fn lemma_unknown_seq_rest(us: Seq<UnknownBoxModel>, rest: Seq<u8>)
    requires
        forall|i: int| 0 <= i < us.len() ==> #[trigger] UnknownBox::spec_canonical(us[i]),
    ensures
        spec_children(crate::wire::ser_seq::<UnknownBox>(us) + rest) == us + spec_children(rest),
    decreases us.len(),
{
    if us.len() == 0 {
        assert(crate::wire::ser_seq::<UnknownBox>(us) + rest =~= rest);
        assert(us + spec_children(rest) =~= spec_children(rest));
    } else {
        let first = us[0];
        let tail = us.drop_first();
        assert(us =~= seq![first] + tail);
        assert(UnknownBox::spec_canonical(us[0]));
        assert forall|i: int| 0 <= i < tail.len() implies #[trigger] UnknownBox::spec_canonical(tail[i]) by {
            assert(UnknownBox::spec_canonical(us[i + 1]));
        }
        lemma_unknown_seq_rest(tail, rest);
        crate::wire::lemma_ser_seq_cons::<UnknownBox>(first, tail);
        let tb = crate::wire::ser_seq::<UnknownBox>(tail) + rest;
        let s = crate::wire::ser_seq::<UnknownBox>(us) + rest;
        assert(s =~= UnknownBox::spec_serialize(first) + tb);
        UnknownBox::lemma_roundtrip(first, tb);
        UnknownBox::lemma_parse_len(s);
        assert(s.skip(UnknownBox::spec_serialize(first).len() as int) =~= tb);
        assert(us + spec_children(rest) =~= seq![first] + (tail + spec_children(rest)));
    }
}

/// A whole box read from `s` consumes no more than `s`.
pub proof fn lemma_parse_box_len<T: BoxBody>(s: Seq<u8>)
    ensures
        spec_parse_box::<T>(s) matches Ok((_, k)) ==> 0 <= k <= s.len(),
{
    BoxHeader::lemma_parse_len(s);
}

/// The boxes of a list with one more in front.
pub proof fn lemma_nested_bytes_cons<T: BoxBody>(x: T::V, tail: Seq<T::V>)
    ensures
        nested_bytes::<T>(seq![x] + tail) == nested_box_bytes::<T>(x) + nested_bytes::<T>(tail),
    decreases tail.len(),
{
    if tail.len() == 0 {
        let one = seq![x];
        assert(one + tail =~= one);
        assert(one.drop_last() =~= Seq::<T::V>::empty());
        assert(one.last() == x);
        assert(nested_bytes::<T>(Seq::<T::V>::empty()) == Seq::<u8>::empty());
        assert(nested_box_bytes::<T>(x) + nested_bytes::<T>(tail) =~= nested_box_bytes::<T>(x));
        assert(nested_bytes::<T>(one) =~= nested_box_bytes::<T>(x));
    } else {
        let init = tail.drop_last();
        lemma_nested_bytes_cons::<T>(x, init);
        assert((seq![x] + tail).drop_last() =~= seq![x] + init);
        assert((seq![x] + tail).last() == tail.last());
        assert(nested_box_bytes::<T>(x) + nested_bytes::<T>(tail) =~= nested_box_bytes::<T>(x) + nested_bytes::<T>(init)
            + nested_box_bytes::<T>(tail.last()));
    }
}

/// Reading `n` boxes of `T` one after the other from `s` at `used`, after `acc`.
#[verifier::opaque]
pub open spec fn boxes_count<T: BoxBody>(s: Seq<u8>, n: nat, acc: Seq<T::V>, used: int) -> Result<
    (Seq<T::V>, int),
    IsoError,
>
    decreases n,
{
    if n == 0 {
        Ok((acc, used))
    } else {
        match spec_parse_box::<T>(s.skip(used)) {
            Err(e) => Err(e),
            Ok((v, k)) => boxes_count::<T>(s, (n - 1) as nat, acc.push(v), used + k),
        }
    }
}

/// Reading an optional box of `T`: a box cut short or missing gives none.
#[verifier::opaque]
pub open spec fn optional_box<T: BoxBody>(s: Seq<u8>) -> Result<(Option<T::V>, int), IsoError> {
    match spec_parse_box::<T>(s) {
        Ok((v, k)) => Ok((Some(v), k)),
        Err(IsoError::UnexpectedEof) => Ok((None, 0)),
        Err(e) => Err(e),
    }
}

/// One more box read by `boxes_count`.
pub proof fn lemma_boxes_count_step<T: BoxBody>(s: Seq<u8>, n: nat, acc: Seq<T::V>, used: int)
    ensures
        n > 0 ==> boxes_count::<T>(s, n, acc, used) == match spec_parse_box::<T>(s.skip(used)) {
            Err(e) => Err(e),
            Ok((v, k)) => boxes_count::<T>(s, (n - 1) as nat, acc.push(v), used + k),
        },
        n == 0 ==> boxes_count::<T>(s, n, acc, used) == Ok::<(Seq<T::V>, int), IsoError>((acc, used)),
{
    reveal_with_fuel(boxes_count, 1);
}

/// What `optional_box` reads.
pub proof fn lemma_optional_box_def<T: BoxBody>(s: Seq<u8>)
    ensures
        optional_box::<T>(s) == match spec_parse_box::<T>(s) {
            Ok((v, k)) => Ok((Some(v), k)),
            Err(IsoError::UnexpectedEof) => Ok((None, 0)),
            Err(e) => Err(e),
        },
{
    reveal(optional_box);
}

/// Reading written boxes gives them back.
#[verifier::spinoff_prover]
#[verifier::rlimit(60)]
pub proof fn lemma_boxes_count<T: BoxBody>(s: Seq<u8>, vs: Seq<T::V>, acc: Seq<T::V>, used: int, rest: Seq<u8>)
    requires
        0 <= used <= s.len(),
        nested_all_ok::<T>(vs),
        s.skip(used) == nested_bytes::<T>(vs) + rest,
    ensures
        boxes_count::<T>(s, vs.len(), acc, used) == Ok::<(Seq<T::V>, int), IsoError>(
            (acc + vs, used + nested_bytes::<T>(vs).len()),
        ),
    decreases vs.len(),
{
    reveal_with_fuel(boxes_count, 1);
    if vs.len() == 0 {
        assert(acc + vs =~= acc);
    } else {
        let first = vs[0];
        let tail = vs.drop_first();
        assert(vs =~= seq![first] + tail);
        assert(nested_ok::<T>(vs[0]));
        assert forall|i: int| 0 <= i < tail.len() implies #[trigger] nested_ok::<T>(tail[i]) by {
            assert(nested_ok::<T>(vs[i + 1]));
        }
        lemma_nested_bytes_cons::<T>(first, tail);
        let fb = nested_box_bytes::<T>(first);
        let tb = nested_bytes::<T>(tail);
        let fl = fb.len() as int;
        assert(s.skip(used) =~= fb + (tb + rest));
        assert(spec_parse_box::<T>(s.skip(used)) == Ok::<(T::V, int), IsoError>((first, fl))) by {
            reveal(nested_ok);
            reveal(nested_writable);
            reveal(body);
            reveal(nested_box_bytes);
            crate::frame::lemma_box_bytes_roundtrip::<T>(first, tb + rest);
        }
        assert(s.skip(used + fl) =~= tb + rest) by {
            assert(s.skip(used + fl) =~= s.skip(used).skip(fl));
        }
        assert(tail.len() == (vs.len() - 1) as nat);
        lemma_boxes_count::<T>(s, tail, acc.push(first), used + fl, rest);
        assert(acc.push(first) + tail =~= acc + vs);
    }
}

/// Reading a written optional box gives it back; where none was written and
/// nothing follows, none is read.
pub proof fn lemma_optional_box<T: BoxBody>(v: Option<T::V>, rest: Seq<u8>)
    requires
        nested_opt_ok::<T>(v),
        v is None ==> rest.len() == 0,
    ensures
        optional_box::<T>(nested_opt_bytes::<T>(v) + rest) == Ok::<(Option<T::V>, int), IsoError>(
            (v, nested_opt_bytes::<T>(v).len() as int),
        ),
{
    reveal(optional_box);
    match v {
        Some(x) => {
            reveal(nested_ok);
            reveal(nested_writable);
            reveal(body);
            reveal(nested_box_bytes);
            crate::frame::lemma_box_bytes_roundtrip::<T>(x, rest);
        },
        None => {
            assert(nested_opt_bytes::<T>(v) + rest =~= Seq::<u8>::empty());
            BoxHeader::lemma_parse_len(Seq::<u8>::empty());
        },
    }
}

// ---------------------------------------------------------------------------
// Writing.
// ---------------------------------------------------------------------------

/// Writes one box: its header, with the length of the header and of the payload
/// that its writer produced, then that payload.
#[verifier::spinoff_prover]
#[verifier::rlimit(40)]
pub fn write_nested<T: BoxBody>(x: &T, out: &mut Vec<u8>) -> (r: Result<(), IsoError>)
    requires
        x.spec_size() <= usize::MAX,
    ensures
        write_matches(r, nested_writable::<T>(x@), nested_box_bytes::<T>(x@), old(out)@, final(out)@),
{
    reveal(nested_writable);
    reveal(body);
    reveal(nested_box_bytes);
    let ghost before = out@;
    let mut payload: Vec<u8> = Vec::new();
    if x.serialize_body(&mut payload).is_err() {
        proof {
            lemma_append_prefix(before, Seq::empty());
            assert(before + Seq::<u8>::empty() =~= before);
        }
        return Err(IsoError::InvalidData);
    }
    proof {
        assert(payload@ =~= body::<T>(x@));
    }
    let n = payload.len();
    let total: usize = if (n as u64) > 0xffff_fff7u64 {
        if n > usize::MAX - 16 {
            proof {
                lemma_append_prefix(before, Seq::empty());
                assert(before + Seq::<u8>::empty() =~= before);
            }
            return Err(IsoError::InvalidData);
        }
        n + 16
    } else {
        n + 8
    };
    let header = BoxHeader { size: BoxSize::for_total(total), box_type: BoxType::FourCc(T::box_type()) };
    let _ = header.serialize(out);
    write_bytes(out, payload.as_slice());
    proof {
        assert(header == frame_header(T::spec_box_type(), add_header_size(body::<T>(x@).len())));
        assert(out@ =~= before + nested_box_bytes::<T>(x@));
        lemma_append_prefix(before, nested_box_bytes::<T>(x@));
    }
    Ok(())
}

/// The sum of the sizes that the boxes of a vector report.
pub open spec fn nested_sizes<T: BoxBody>(xs: Seq<T>) -> nat
    decreases xs.len(),
{
    if xs.len() == 0 {
        0
    } else {
        nested_sizes::<T>(xs.drop_last()) + xs.last().spec_size()
    }
}

/// The size that an optional box reports, or 0.
pub open spec fn nested_opt_size<T: BoxBody>(x: Option<T>) -> nat {
    match x {
        Some(b) => b.spec_size(),
        None => 0,
    }
}

/// Each box of a vector reports a size no larger than their sum.
pub proof fn lemma_nested_sizes_bound<T: BoxBody>(xs: Seq<T>, i: int)
    requires
        0 <= i < xs.len(),
    ensures
        xs[i].spec_size() <= nested_sizes::<T>(xs),
    decreases xs.len(),
{
    if i < xs.len() - 1 {
        lemma_nested_sizes_bound::<T>(xs.drop_last(), i);
    }
}

/// A prefix of a vector reports no more than the whole vector.
pub proof fn lemma_nested_sizes_prefix<T: BoxBody>(xs: Seq<T>, i: int)
    requires
        0 <= i <= xs.len(),
    ensures
        nested_sizes::<T>(xs.take(i)) <= nested_sizes::<T>(xs),
    decreases xs.len() - i,
{
    if i < xs.len() {
        assert(xs.take(i + 1).drop_last() =~= xs.take(i));
        lemma_nested_sizes_prefix::<T>(xs, i + 1);
    } else {
        assert(xs.take(i) =~= xs);
    }
}

/// For boxes that read back as themselves, the sizes they report add up to the
/// length of what is written.
pub proof fn lemma_nested_sizes<T: BoxBody>(xs: Seq<T>)
    requires
        nested_all_ok::<T>(views(xs)),
    ensures
        nested_sizes::<T>(xs) == nested_bytes::<T>(views(xs)).len(),
    decreases xs.len(),
{
    if xs.len() > 0 {
        let init = xs.drop_last();
        assert(views(xs).drop_last() =~= views(init));
        assert forall|i: int| 0 <= i < views(init).len() implies #[trigger] nested_ok::<T>(views(init)[i]) by {
            assert(nested_ok::<T>(views(xs)[i]));
        }
        lemma_nested_sizes::<T>(init);
        let x = xs.last();
        assert(views(xs)[xs.len() - 1] == x@);
        assert(nested_ok::<T>(views(xs)[xs.len() - 1]));
        reveal(nested_ok);
        reveal(nested_writable);
        reveal(body);
        T::lemma_body_size(x);
        lemma_nested_cons::<T>(x@, Seq::empty());
    }
}

/// For an optional box that reads back as itself, the size it reports is the
/// length of what is written.
pub proof fn lemma_nested_opt_size<T: BoxBody>(x: Option<T>)
    requires
        nested_opt_ok::<T>(opt_view(x)),
    ensures
        nested_opt_size::<T>(x) == nested_opt_bytes::<T>(opt_view(x)).len(),
{
    if let Some(b) = x {
        reveal(nested_ok);
        reveal(nested_writable);
        reveal(body);
        T::lemma_body_size(b);
        lemma_nested_cons::<T>(b@, Seq::empty());
    }
}

/// For a box that reads back as itself, the size it reports is the length of what
/// is written.
pub proof fn lemma_nested_size<T: BoxBody>(x: T)
    requires
        nested_ok::<T>(x@),
    ensures
        x.spec_size() == nested_box_bytes::<T>(x@).len(),
{
    reveal(nested_ok);
    reveal(nested_writable);
    reveal(body);
    T::lemma_body_size(x);
    lemma_nested_cons::<T>(x@, Seq::empty());
}

/// Writes the boxes of a vector one after the other.
pub fn write_nested_vec<T: BoxBody>(xs: &Vec<T>, out: &mut Vec<u8>) -> (r: Result<(), IsoError>)
    requires
        nested_sizes::<T>(xs@) <= usize::MAX,
    ensures
        write_matches(
            r,
            nested_all_writable::<T>(views(xs@)),
            nested_bytes::<T>(views(xs@)),
            old(out)@,
            final(out)@,
        ),
{
    let ghost vs = views(xs@);
    let ghost start = out@;
    let mut i: usize = 0;
    proof {
        assert(vs.take(0) =~= Seq::<T::V>::empty());
        assert(out@ =~= start + nested_bytes::<T>(vs.take(0)));
    }
    while i < xs.len()
        invariant
            vs == views(xs@),
            start == old(out)@,
            i <= xs@.len(),
            nested_sizes::<T>(xs@) <= usize::MAX,
            out@ == start + nested_bytes::<T>(vs.take(i as int)),
            forall|j: int| 0 <= j < i ==> #[trigger] nested_writable::<T>(vs[j]),
        decreases xs@.len() - i,
    {
        proof {
            lemma_nested_sizes_bound::<T>(xs@, i as int);
            assert(vs.take(i + 1).drop_last() =~= vs.take(i as int));
        }
        let ghost before = out@;
        let r = write_nested(&xs[i], out);
        if r.is_err() {
            proof {
                assert(vs[i as int] == xs@[i as int]@);
                assert(!nested_all_writable::<T>(vs));
                lemma_append_prefix(start, nested_bytes::<T>(vs.take(i as int)));
                lemma_prefix_trans(start, before, out@);
            }
            return Err(IsoError::InvalidData);
        }
        proof {
            assert(out@ =~= start + nested_bytes::<T>(vs.take(i + 1)));
        }
        i = i + 1;
    }
    proof {
        assert(vs.take(i as int) =~= vs);
        lemma_append_prefix(start, nested_bytes::<T>(vs));
    }
    Ok(())
}

/// Writes the box of an optional field, if there is one.
pub fn write_nested_opt<T: BoxBody>(x: &Option<T>, out: &mut Vec<u8>) -> (r: Result<(), IsoError>)
    requires
        nested_opt_size::<T>(*x) <= usize::MAX,
    ensures
        write_matches(
            r,
            nested_opt_writable::<T>(opt_view(*x)),
            nested_opt_bytes::<T>(opt_view(*x)),
            old(out)@,
            final(out)@,
        ),
{
    match x {
        Some(b) => write_nested(b, out),
        None => {
            proof {
                assert(out@ =~= old(out)@ + Seq::<u8>::empty());
                lemma_append_prefix(out@, Seq::<u8>::empty());
            }
            Ok(())
        },
    }
}

/// The sum of the sizes that the boxes of a vector report.
pub fn size_nested_vec<T: BoxBody>(xs: &Vec<T>) -> (n: usize)
    requires
        nested_sizes::<T>(xs@) <= usize::MAX,
    ensures
        n == nested_sizes::<T>(xs@),
{
    let mut acc: usize = 0;
    let mut i: usize = 0;
    assert(xs@.take(0) =~= Seq::<T>::empty());
    while i < xs.len()
        invariant
            i <= xs@.len(),
            acc == nested_sizes::<T>(xs@.take(i as int)),
            nested_sizes::<T>(xs@) <= usize::MAX,
        decreases xs@.len() - i,
    {
        proof {
            assert(xs@.take(i + 1).drop_last() =~= xs@.take(i as int));
            lemma_nested_sizes_prefix::<T>(xs@, i + 1);
        }
        acc = acc + xs[i].size();
        i = i + 1;
    }
    assert(xs@.take(i as int) =~= xs@);
    acc
}

/// The size that an optional box reports, or 0.
pub fn size_nested_opt<T: BoxBody>(x: &Option<T>) -> (n: usize)
    requires
        nested_opt_size::<T>(*x) <= usize::MAX,
    ensures
        n == nested_opt_size::<T>(*x),
{
    match x {
        Some(b) => b.size(),
        None => 0,
    }
}

} // verus!
