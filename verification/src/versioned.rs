//! Structures whose encoding depends on the version of the full box that holds
//! them, and counted lists of such structures.

use vstd::prelude::*;

use crate::codec::{lemma_append_prefix, IsoError, SpecParse};
use crate::wire::{parse_matches, views, lemma_views_push, write_matches};

verus! {

/// A structure whose byte encoding depends on a version number.
pub trait VersionedWire: View + Sized {
    /// What the parser for `version` reads from the start of `s`, and how many bytes it consumes.
    spec fn spec_parse_v(s: Seq<u8>, version: u8) -> SpecParse<Self::V>;

    /// Whether the value can be written in `version`.
    spec fn spec_writable_v(v: Self::V, version: u8) -> bool;

    /// The bytes written in `version`.
    spec fn spec_serialize_v(v: Self::V, version: u8) -> Seq<u8>;

    /// Values that read back as themselves in `version`.
    spec fn spec_canonical_v(v: Self::V, version: u8) -> bool;

    /// The size that the structure reports in `version`.
    spec fn spec_size_v(v: Self::V, version: u8) -> nat;

    proof fn lemma_parse_len_v(s: Seq<u8>, version: u8)
        ensures
            Self::spec_parse_v(s, version) matches Ok((v, n)) ==> 0 < n <= s.len(),
    ;

    proof fn lemma_size_v(v: Self::V, version: u8)
        requires
            Self::spec_writable_v(v, version),
            Self::spec_canonical_v(v, version),
        ensures
            Self::spec_serialize_v(v, version).len() == Self::spec_size_v(v, version),
    ;

    proof fn lemma_roundtrip_v(v: Self::V, version: u8, rest: Seq<u8>)
        requires
            Self::spec_writable_v(v, version),
            Self::spec_canonical_v(v, version),
        ensures
            Self::spec_parse_v(Self::spec_serialize_v(v, version) + rest, version) == Ok::<
                (Self::V, int),
                IsoError,
            >((v, Self::spec_serialize_v(v, version).len() as int)),
    ;

    fn parse_v(data: &[u8], pos: usize, version: u8) -> (r: Result<(Self, usize), IsoError>)
        requires
            pos <= data@.len(),
        ensures
            parse_matches(r, Self::spec_parse_v(data@.skip(pos as int), version), pos),
    ;

    fn serialize_v(&self, out: &mut Vec<u8>, version: u8) -> (r: Result<(), IsoError>)
        ensures
            write_matches(
                r,
                Self::spec_writable_v(self@, version),
                Self::spec_serialize_v(self@, version),
                old(out)@,
                final(out)@,
            ),
    ;

    fn size_v(&self, version: u8) -> (n: usize)
        requires
            Self::spec_size_v(self@, version) <= usize::MAX,
        ensures
            n == Self::spec_size_v(self@, version),
    ;
}

/// Reading exactly `count` elements of `version` one after the other.
pub open spec fn parse_count_v<T: VersionedWire>(s: Seq<u8>, count: nat, version: u8) -> SpecParse<
    Seq<T::V>,
>
    decreases count,
{
    if count == 0 {
        Ok((Seq::empty(), 0))
    } else {
        match parse_count_v::<T>(s, (count - 1) as nat, version) {
            Ok((items, k)) => match T::spec_parse_v(s.skip(k), version) {
                Ok((v, n)) => Ok((items.push(v), k + n)),
                Err(e) => Err(e),
            },
            Err(e) => Err(e),
        }
    }
}

/// The concatenated encodings of a list in `version`.
pub open spec fn ser_seq_v<T: VersionedWire>(items: Seq<T::V>, version: u8) -> Seq<u8>
    decreases items.len(),
{
    if items.len() == 0 {
        Seq::empty()
    } else {
        ser_seq_v::<T>(items.drop_last(), version) + T::spec_serialize_v(items.last(), version)
    }
}

/// The sum of the sizes of the elements of a list in `version`.
pub open spec fn size_seq_v<T: VersionedWire>(items: Seq<T::V>, version: u8) -> nat
    decreases items.len(),
{
    if items.len() == 0 {
        0
    } else {
        size_seq_v::<T>(items.drop_last(), version) + T::spec_size_v(items.last(), version)
    }
}

pub open spec fn writable_seq_v<T: VersionedWire>(items: Seq<T::V>, version: u8) -> bool {
    forall|i: int| 0 <= i < items.len() ==> #[trigger] T::spec_writable_v(items[i], version)
}

pub open spec fn canonical_seq_v<T: VersionedWire>(items: Seq<T::V>, version: u8) -> bool {
    forall|i: int| 0 <= i < items.len() ==> #[trigger] T::spec_canonical_v(items[i], version)
}

pub proof fn lemma_parse_count_v_len<T: VersionedWire>(s: Seq<u8>, count: nat, version: u8)
    ensures
        parse_count_v::<T>(s, count, version) matches Ok((items, k)) ==> items.len() == count && 0
            <= k <= s.len(),
    decreases count,
{
    if count > 0 {
        lemma_parse_count_v_len::<T>(s, (count - 1) as nat, version);
        if let Ok((items, k)) = parse_count_v::<T>(s, (count - 1) as nat, version) {
            T::lemma_parse_len_v(s.skip(k), version);
        }
    }
}

/// Once reading a counted list has failed, reading a longer one fails the same way.
pub proof fn lemma_parse_count_v_err<T: VersionedWire>(s: Seq<u8>, i: nat, j: nat, version: u8)
    requires
        i <= j,
        parse_count_v::<T>(s, i, version) is Err,
    ensures
        parse_count_v::<T>(s, j, version) == parse_count_v::<T>(s, i, version),
    decreases j,
{
    if j > i {
        lemma_parse_count_v_err::<T>(s, i, (j - 1) as nat, version);
    }
}

/// The written list is as long as the sizes of its elements add up to.
pub proof fn lemma_size_seq_v<T: VersionedWire>(items: Seq<T::V>, version: u8)
    requires
        writable_seq_v::<T>(items, version),
        canonical_seq_v::<T>(items, version),
    ensures
        ser_seq_v::<T>(items, version).len() == size_seq_v::<T>(items, version),
    decreases items.len(),
{
    if items.len() > 0 {
        let init = items.drop_last();
        assert(T::spec_writable_v(items[items.len() - 1], version));
        assert(T::spec_canonical_v(items[items.len() - 1], version));
        T::lemma_size_v(items.last(), version);
        assert forall|i: int| 0 <= i < init.len() implies #[trigger] T::spec_writable_v(init[i], version)
            && T::spec_canonical_v(init[i], version) by {
            assert(init[i] == items[i]);
        }
        lemma_size_seq_v::<T>(init, version);
    }
}

/// Reading back `items.len()` elements from the written list gives the list.
pub proof fn lemma_count_roundtrip_v<T: VersionedWire>(items: Seq<T::V>, version: u8, rest: Seq<u8>)
    requires
        writable_seq_v::<T>(items, version),
        canonical_seq_v::<T>(items, version),
    ensures
        parse_count_v::<T>(ser_seq_v::<T>(items, version) + rest, items.len(), version) == Ok::<
            (Seq<T::V>, int),
            IsoError,
        >((items, ser_seq_v::<T>(items, version).len() as int)),
    decreases items.len(),
{
    if items.len() == 0 {
        assert(items =~= Seq::<T::V>::empty());
    } else {
        let init = items.drop_last();
        let last = items.last();
        assert(T::spec_writable_v(items[items.len() - 1], version));
        assert(T::spec_canonical_v(items[items.len() - 1], version));
        assert forall|i: int| 0 <= i < init.len() implies #[trigger] T::spec_writable_v(init[i], version)
            && T::spec_canonical_v(init[i], version) by {
            assert(init[i] == items[i]);
        }
        let tail = T::spec_serialize_v(last, version) + rest;
        lemma_count_roundtrip_v::<T>(init, version, tail);
        let s = ser_seq_v::<T>(items, version) + rest;
        assert(ser_seq_v::<T>(init, version) + tail =~= s);
        assert(s.skip(ser_seq_v::<T>(init, version).len() as int) =~= tail);
        T::lemma_roundtrip_v(last, version, rest);
        assert(init.push(last) =~= items);
    }
}

pub proof fn lemma_ser_seq_v_take<T: VersionedWire>(items: Seq<T::V>, i: int, version: u8)
    requires
        0 <= i < items.len(),
    ensures
        ser_seq_v::<T>(items.take(i + 1), version) == ser_seq_v::<T>(items.take(i), version)
            + T::spec_serialize_v(items[i], version),
{
    assert(items.take(i + 1).drop_last() =~= items.take(i));
}

pub proof fn lemma_size_seq_v_take<T: VersionedWire>(items: Seq<T::V>, i: int, version: u8)
    requires
        0 <= i < items.len(),
    ensures
        size_seq_v::<T>(items.take(i + 1), version) == size_seq_v::<T>(items.take(i), version)
            + T::spec_size_v(items[i], version),
{
    assert(items.take(i + 1).drop_last() =~= items.take(i));
}

pub proof fn lemma_size_seq_v_mono<T: VersionedWire>(items: Seq<T::V>, i: int, version: u8)
    requires
        0 <= i <= items.len(),
    ensures
        size_seq_v::<T>(items.take(i), version) <= size_seq_v::<T>(items, version),
    decreases items.len() - i,
{
    if i < items.len() {
        lemma_size_seq_v_take::<T>(items, i, version);
        lemma_size_seq_v_mono::<T>(items, i + 1, version);
    } else {
        assert(items.take(i) =~= items);
    }
}

/// Reads exactly `count` elements of `version` starting at `pos`.
pub fn parse_counted_v<T: VersionedWire>(data: &[u8], pos: usize, count: usize, version: u8) -> (r:
    Result<(Vec<T>, usize), IsoError>)
    requires
        pos <= data@.len(),
    ensures
        match (parse_count_v::<T>(data@.skip(pos as int), count as nat, version), r) {
            (Ok((items, n)), Ok((v, p))) => views(v@) == items && p == pos + n,
            (Err(e), Err(f)) => e == f,
            _ => false,
        },
{
    let ghost s = data@.skip(pos as int);
    let mut items: Vec<T> = Vec::new();
    let mut p = pos;
    let mut i: usize = 0;
    assert(views(items@) =~= Seq::<T::V>::empty());
    while i < count
        invariant
            s == data@.skip(pos as int),
            pos <= p <= data@.len(),
            i <= count,
            parse_count_v::<T>(s, i as nat, version) == Ok::<(Seq<T::V>, int), IsoError>(
                (views(items@), p - pos),
            ),
        decreases count - i,
    {
        proof {
            lemma_parse_count_v_len::<T>(s, i as nat, version);
            assert(s.skip(p - pos) =~= data@.skip(p as int));
        }
        match T::parse_v(data, p, version) {
            Ok((v, np)) => {
                proof {
                    T::lemma_parse_len_v(data@.skip(p as int), version);
                    lemma_views_push(items@, v);
                }
                items.push(v);
                p = np;
                i = i + 1;
            },
            Err(e) => {
                proof {
                    lemma_parse_count_v_err::<T>(s, (i + 1) as nat, count as nat, version);
                }
                return Err(e);
            },
        }
    }
    Ok((items, p))
}

/// Writes the elements one after the other, in `version`.
pub fn serialize_all_v<T: VersionedWire>(items: &Vec<T>, out: &mut Vec<u8>, version: u8) -> (r:
    Result<(), IsoError>)
    ensures
        write_matches(
            r,
            writable_seq_v::<T>(views(items@), version),
            ser_seq_v::<T>(views(items@), version),
            old(out)@,
            final(out)@,
        ),
{
    let ghost vs = views(items@);
    let ghost start = out@;
    let mut i: usize = 0;
    assert(vs.take(0) =~= Seq::<T::V>::empty());
    assert(out@ =~= start + ser_seq_v::<T>(vs.take(0), version));
    while i < items.len()
        invariant
            vs == views(items@),
            start == old(out)@,
            i <= items@.len(),
            out@ == start + ser_seq_v::<T>(vs.take(i as int), version),
            forall|j: int| 0 <= j < i ==> #[trigger] T::spec_writable_v(vs[j], version),
        decreases items@.len() - i,
    {
        proof {
            lemma_ser_seq_v_take::<T>(vs, i as int, version);
        }
        let ghost before = out@;
        let r = items[i].serialize_v(out, version);
        if r.is_err() {
            proof {
                assert(!T::spec_writable_v(vs[i as int], version));
                lemma_append_prefix(start, ser_seq_v::<T>(vs.take(i as int), version));
                assert forall|k: int| 0 <= k < start.len() implies out@[k] == start[k] by {
                    assert(out@.subrange(0, before.len() as int)[k] == before[k]);
                    assert(before.subrange(0, start.len() as int)[k] == start[k]);
                }
                assert(out@.subrange(0, start.len() as int) =~= start);
            }
            return Err(IsoError::InvalidData);
        }
        assert(out@ =~= start + ser_seq_v::<T>(vs.take(i + 1), version));
        i = i + 1;
    }
    proof {
        assert(vs.take(i as int) =~= vs);
        lemma_append_prefix(start, ser_seq_v::<T>(vs, version));
    }
    Ok(())
}

/// The sum of the sizes of the elements in `version`.
pub fn size_all_v<T: VersionedWire>(items: &Vec<T>, version: u8) -> (n: usize)
    requires
        size_seq_v::<T>(views(items@), version) <= usize::MAX,
    ensures
        n == size_seq_v::<T>(views(items@), version),
{
    let ghost vs = views(items@);
    let mut acc: usize = 0;
    let mut i: usize = 0;
    assert(vs.take(0) =~= Seq::<T::V>::empty());
    while i < items.len()
        invariant
            vs == views(items@),
            i <= items@.len(),
            acc == size_seq_v::<T>(vs.take(i as int), version),
            size_seq_v::<T>(vs, version) <= usize::MAX,
        decreases items@.len() - i,
    {
        proof {
            lemma_size_seq_v_take::<T>(vs, i as int, version);
            lemma_size_seq_v_mono::<T>(vs, i + 1, version);
        }
        acc = acc + items[i].size_v(version);
        i = i + 1;
    }
    assert(vs.take(i as int) =~= vs);
    acc
}


/// Reading elements of `version` until the input ends: an element cut short by the
/// end of the input ends the list; any other failure is the failure of the list.
pub open spec fn parse_rest_v<T: VersionedWire>(s: Seq<u8>, version: u8) -> SpecParse<Seq<T::V>>
    decreases s.len(),
{
    match T::spec_parse_v(s, version) {
        Err(IsoError::UnexpectedEof) => Ok((Seq::empty(), 0)),
        Err(e) => Err(e),
        Ok((v, n)) => if 0 < n <= s.len() {
            match parse_rest_v::<T>(s.skip(n), version) {
                Ok((vs, m)) => Ok((seq![v] + vs, n + m)),
                Err(e) => Err(e),
            }
        } else {
            Err(IsoError::InvalidData)
        },
    }
}

/// The written list seen from its front.
pub proof fn lemma_ser_seq_v_cons<T: VersionedWire>(x: T::V, tail: Seq<T::V>, version: u8)
    ensures
        ser_seq_v::<T>(seq![x] + tail, version) == T::spec_serialize_v(x, version) + ser_seq_v::<T>(tail, version),
    decreases tail.len(),
{
    if tail.len() == 0 {
        assert(seq![x] + tail =~= seq![x]);
        assert(seq![x].drop_last() =~= Seq::<T::V>::empty());
        assert(ser_seq_v::<T>(Seq::<T::V>::empty(), version) =~= Seq::<u8>::empty());
        assert(ser_seq_v::<T>(seq![x], version) =~= T::spec_serialize_v(x, version));
        assert(T::spec_serialize_v(x, version) + ser_seq_v::<T>(tail, version) =~= T::spec_serialize_v(x, version));
    } else {
        let all = seq![x] + tail;
        assert(all.drop_last() =~= seq![x] + tail.drop_last());
        assert(all.last() == tail.last());
        lemma_ser_seq_v_cons::<T>(x, tail.drop_last(), version);
        assert(ser_seq_v::<T>(all, version) =~= T::spec_serialize_v(x, version) + ser_seq_v::<T>(tail, version));
    }
}

/// Reading to the end of a written list of `version` gives the list back, for elements
/// whose reader reports an empty input as cut short.
pub proof fn lemma_rest_roundtrip_v<T: VersionedWire>(items: Seq<T::V>, version: u8)
    requires
        T::spec_parse_v(Seq::<u8>::empty(), version) == Err::<(T::V, int), IsoError>(IsoError::UnexpectedEof),
        writable_seq_v::<T>(items, version),
        canonical_seq_v::<T>(items, version),
    ensures
        parse_rest_v::<T>(ser_seq_v::<T>(items, version), version) == Ok::<(Seq<T::V>, int), IsoError>(
            (items, ser_seq_v::<T>(items, version).len() as int),
        ),
    decreases items.len(),
{
    if items.len() == 0 {
        assert(ser_seq_v::<T>(items, version) =~= Seq::<u8>::empty());
        assert(items =~= Seq::<T::V>::empty());
    } else {
        let x = items[0];
        let tail = items.skip(1);
        assert(items =~= seq![x] + tail);
        assert(T::spec_writable_v(items[0], version));
        assert(T::spec_canonical_v(items[0], version));
        assert(writable_seq_v::<T>(tail, version)) by {
            assert forall|i: int| 0 <= i < tail.len() implies #[trigger] T::spec_writable_v(tail[i], version) by {
                assert(tail[i] == items[i + 1]);
            }
        }
        assert(canonical_seq_v::<T>(tail, version)) by {
            assert forall|i: int| 0 <= i < tail.len() implies #[trigger] T::spec_canonical_v(tail[i], version) by {
                assert(tail[i] == items[i + 1]);
            }
        }
        lemma_ser_seq_v_cons::<T>(x, tail, version);
        let s = ser_seq_v::<T>(items, version);
        T::lemma_roundtrip_v(x, version, ser_seq_v::<T>(tail, version));
        T::lemma_parse_len_v(s, version);
        let n = T::spec_serialize_v(x, version).len() as int;
        assert(s.skip(n) =~= ser_seq_v::<T>(tail, version));
        lemma_rest_roundtrip_v::<T>(tail, version);
    }
}

/// Reads elements of `version` from `pos` until the input ends.
pub fn parse_remaining_v<T: VersionedWire>(data: &[u8], pos: usize, version: u8) -> (r: Result<(Vec<T>, usize), IsoError>)
    requires
        pos <= data@.len(),
    ensures
        match (parse_rest_v::<T>(data@.skip(pos as int), version), r) {
            (Ok((items, n)), Ok((v, p))) => views(v@) == items && p == pos + n,
            (Err(e), Err(f)) => e == f,
            _ => false,
        },
{
    let mut items: Vec<T> = Vec::new();
    let mut p = pos;
    assert(views(items@) =~= Seq::<T::V>::empty());
    loop
        invariant
            pos <= p <= data@.len(),
            match parse_rest_v::<T>(data@.skip(p as int), version) {
                Ok((vs, m)) => parse_rest_v::<T>(data@.skip(pos as int), version) == Ok::<
                    (Seq<T::V>, int),
                    IsoError,
                >((views(items@) + vs, (p - pos) + m)),
                Err(e) => parse_rest_v::<T>(data@.skip(pos as int), version) == Err::<
                    (Seq<T::V>, int),
                    IsoError,
                >(e),
            },
        decreases data@.len() - p,
    {
        match T::parse_v(data, p, version) {
            Ok((v, np)) => {
                proof {
                    let sp = data@.skip(p as int);
                    T::lemma_parse_len_v(sp, version);
                    assert(sp.skip(np - p) =~= data@.skip(np as int));
                    lemma_views_push(items@, v);
                    if let Ok((vs, m)) = parse_rest_v::<T>(data@.skip(np as int), version) {
                        assert(views(items@) + (seq![v@] + vs) =~= views(items@).push(v@) + vs);
                    }
                }
                items.push(v);
                p = np;
            },
            Err(IsoError::UnexpectedEof) => {
                proof {
                    assert(views(items@) + Seq::<T::V>::empty() =~= views(items@));
                }
                return Ok((items, p));
            },
            Err(e) => {
                return Err(e);
            },
        }
    }
}

} // verus!
