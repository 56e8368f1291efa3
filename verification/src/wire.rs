//! The contract that every encodable structure meets, and the sequence
//! combinators (a counted list, a list that runs to the end of its input)
//! with their proofs.

use vstd::prelude::*;

use crate::codec::{
    be_u16_at, be_u32_at, be_u64_at, lemma_append_prefix, lemma_u16_roundtrip, lemma_u32_roundtrip,
    lemma_u64_roundtrip, lemma_wide_bytes_len, read_fourcc_at, read_u16_at, read_u32_at, read_u64_at, u16_bytes,
    u32_bytes, u64_bytes, write_fourcc, write_u16, write_u32, write_u64, write_u8, IsoError, SpecParse,
};

verus! {

/// `r` is what the model `m` describes for a parser started at `pos`.
pub open spec fn parse_matches<T: View>(
    r: Result<(T, usize), IsoError>,
    m: SpecParse<T::V>,
    pos: usize,
) -> bool {
    match (m, r) {
        (Ok((v, n)), Ok((x, p))) => x@ == v && p == pos + n,
        (Err(e), Err(f)) => e == f,
        _ => false,
    }
}

/// `r` is what a writer of `bytes` returns when `ok` says whether the value can be written;
/// `before` and `after` are the output buffer before and after the call.
pub open spec fn write_matches(
    r: Result<(), IsoError>,
    ok: bool,
    bytes: Seq<u8>,
    before: Seq<u8>,
    after: Seq<u8>,
) -> bool {
    &&& (r is Ok <==> ok)
    &&& (r is Ok ==> after == before + bytes)
    &&& (r is Err ==> r == Err::<(), IsoError>(IsoError::InvalidData))
    &&& before.len() <= after.len()
    &&& after.subrange(0, before.len() as int) == before
}

/// The size in bytes that a structure occupies when it is written.
pub trait IsoSized {
    /// The size that the structure reports for itself.
    spec fn spec_size(&self) -> nat;

    fn size(&self) -> (n: usize)
        requires
            self.spec_size() <= usize::MAX,
        ensures
            n == self.spec_size(),
    ;
}

/// A structure with a byte encoding.
///
/// The model functions describe the format; the executable functions are
/// proved against them.
pub trait Wire: View + IsoSized + Sized {
    /// What the parser reads from the start of `s`, and how many bytes it consumes.
    spec fn spec_parse(s: Seq<u8>) -> SpecParse<Self::V>;

    /// Whether the value can be written: every field that the encoding asks for is present.
    spec fn spec_writable(v: Self::V) -> bool;

    /// The bytes that are written for a writable value.
    spec fn spec_serialize(v: Self::V) -> Seq<u8>;

    /// Values whose every field fits the width it is written with, so that reading
    /// back what was written gives the value again.
    spec fn spec_canonical(v: Self::V) -> bool;

    proof fn lemma_parse_len(s: Seq<u8>)
        ensures
            Self::spec_parse(s) matches Ok((v, n)) ==> 0 < n <= s.len(),
            Self::spec_parse(Seq::<u8>::empty()) == Err::<(Self::V, int), IsoError>(
                IsoError::UnexpectedEof,
            ),
    ;

    proof fn lemma_size(x: Self)
        requires
            Self::spec_writable(x@),
        ensures
            Self::spec_serialize(x@).len() == x.spec_size(),
    ;

    proof fn lemma_roundtrip(v: Self::V, rest: Seq<u8>)
        requires
            Self::spec_writable(v),
            Self::spec_canonical(v),
        ensures
            Self::spec_parse(Self::spec_serialize(v) + rest) == Ok::<(Self::V, int), IsoError>(
                (v, Self::spec_serialize(v).len() as int),
            ),
    ;

    fn parse(data: &[u8], pos: usize) -> (r: Result<(Self, usize), IsoError>)
        requires
            pos <= data@.len(),
        ensures
            parse_matches(r, Self::spec_parse(data@.skip(pos as int)), pos),
    ;

    fn serialize(&self, out: &mut Vec<u8>) -> (r: Result<(), IsoError>)
        ensures
            write_matches(
                r,
                Self::spec_writable(self@),
                Self::spec_serialize(self@),
                old(out)@,
                final(out)@,
            ),
    ;
}

// ---------------------------------------------------------------------------
// Plain integers.
// ---------------------------------------------------------------------------

impl Wire for u8 {
    open spec fn spec_parse(s: Seq<u8>) -> SpecParse<u8> {
        if s.len() < 1 { Err(IsoError::UnexpectedEof) } else { Ok((s[0], 1)) }
    }

    open spec fn spec_writable(v: u8) -> bool {
        true
    }

    open spec fn spec_serialize(v: u8) -> Seq<u8> {
        seq![v]
    }

    open spec fn spec_canonical(v: u8) -> bool {
        true
    }

    proof fn lemma_parse_len(s: Seq<u8>) {
    }

    proof fn lemma_size(x: u8) {
    }

    proof fn lemma_roundtrip(v: u8, rest: Seq<u8>) {
    }

    fn parse(data: &[u8], pos: usize) -> (r: Result<(u8, usize), IsoError>) {
        if pos >= data.len() {
            Err(IsoError::UnexpectedEof)
        } else {
            Ok((data[pos], pos + 1))
        }
    }

    fn serialize(&self, out: &mut Vec<u8>) -> (r: Result<(), IsoError>) {
        proof {
            lemma_append_prefix(old(out)@, seq![*self]);
        }
        write_u8(out, *self);
        Ok(())
    }
}

impl IsoSized for u8 {
    open spec fn spec_size(&self) -> nat {
        1
    }

    fn size(&self) -> (n: usize) {
        1
    }
}

impl Wire for u16 {
    open spec fn spec_parse(s: Seq<u8>) -> SpecParse<u16> {
        if s.len() < 2 { Err(IsoError::UnexpectedEof) } else { Ok((be_u16_at(s, 0), 2)) }
    }

    open spec fn spec_writable(v: u16) -> bool {
        true
    }

    open spec fn spec_serialize(v: u16) -> Seq<u8> {
        u16_bytes(v)
    }

    open spec fn spec_canonical(v: u16) -> bool {
        true
    }

    proof fn lemma_parse_len(s: Seq<u8>) {
    }

    proof fn lemma_size(x: u16) {
    }

    proof fn lemma_roundtrip(v: u16, rest: Seq<u8>) {
        lemma_u16_roundtrip(v, rest);
    }

    fn parse(data: &[u8], pos: usize) -> (r: Result<(u16, usize), IsoError>) {
        if data.len() - pos < 2 {
            Err(IsoError::UnexpectedEof)
        } else {
            Ok((read_u16_at(data, pos), pos + 2))
        }
    }

    fn serialize(&self, out: &mut Vec<u8>) -> (r: Result<(), IsoError>) {
        proof {
            lemma_append_prefix(old(out)@, u16_bytes(*self));
        }
        write_u16(out, *self);
        Ok(())
    }
}

/// A four-character code: its four bytes.
impl Wire for [u8; 4] {
    open spec fn spec_parse(s: Seq<u8>) -> SpecParse<Seq<u8>> {
        if s.len() < 4 { Err(IsoError::UnexpectedEof) } else { Ok((s.subrange(0, 4), 4)) }
    }

    open spec fn spec_writable(v: Seq<u8>) -> bool {
        true
    }

    open spec fn spec_serialize(v: Seq<u8>) -> Seq<u8> {
        v
    }

    /// The code has four bytes.
    open spec fn spec_canonical(v: Seq<u8>) -> bool {
        v.len() == 4
    }

    proof fn lemma_parse_len(s: Seq<u8>) {
    }

    proof fn lemma_size(x: [u8; 4]) {
    }

    proof fn lemma_roundtrip(v: Seq<u8>, rest: Seq<u8>) {
        assert((v + rest).subrange(0, 4) =~= v);
        assert((v + rest).skip(4) =~= rest);
    }

    fn parse(data: &[u8], pos: usize) -> (r: Result<([u8; 4], usize), IsoError>) {
        if data.len() - pos < 4 {
            Err(IsoError::UnexpectedEof)
        } else {
            let v = read_fourcc_at(data, pos);
            proof {
                assert(v@ =~= data@.skip(pos as int).subrange(0, 4));
            }
            Ok((v, pos + 4))
        }
    }

    fn serialize(&self, out: &mut Vec<u8>) -> (r: Result<(), IsoError>) {
        proof {
            lemma_append_prefix(old(out)@, self@);
        }
        write_fourcc(out, *self);
        Ok(())
    }
}

impl IsoSized for [u8; 4] {
    open spec fn spec_size(&self) -> nat {
        4
    }

    fn size(&self) -> (n: usize) {
        4
    }
}

impl IsoSized for u16 {
    open spec fn spec_size(&self) -> nat {
        2
    }

    fn size(&self) -> (n: usize) {
        2
    }
}

impl Wire for u32 {
    open spec fn spec_parse(s: Seq<u8>) -> SpecParse<u32> {
        if s.len() < 4 { Err(IsoError::UnexpectedEof) } else { Ok((be_u32_at(s, 0), 4)) }
    }

    open spec fn spec_writable(v: u32) -> bool {
        true
    }

    open spec fn spec_serialize(v: u32) -> Seq<u8> {
        u32_bytes(v)
    }

    open spec fn spec_canonical(v: u32) -> bool {
        true
    }

    proof fn lemma_parse_len(s: Seq<u8>) {
    }

    proof fn lemma_size(x: u32) {
    }

    proof fn lemma_roundtrip(v: u32, rest: Seq<u8>) {
        lemma_u32_roundtrip(v, rest);
    }

    fn parse(data: &[u8], pos: usize) -> (r: Result<(u32, usize), IsoError>) {
        if data.len() - pos < 4 {
            Err(IsoError::UnexpectedEof)
        } else {
            Ok((read_u32_at(data, pos), pos + 4))
        }
    }

    fn serialize(&self, out: &mut Vec<u8>) -> (r: Result<(), IsoError>) {
        proof {
            lemma_append_prefix(old(out)@, u32_bytes(*self));
        }
        write_u32(out, *self);
        Ok(())
    }
}

impl IsoSized for u32 {
    open spec fn spec_size(&self) -> nat {
        4
    }

    fn size(&self) -> (n: usize) {
        4
    }
}

impl Wire for u64 {
    open spec fn spec_parse(s: Seq<u8>) -> SpecParse<u64> {
        if s.len() < 8 { Err(IsoError::UnexpectedEof) } else { Ok((be_u64_at(s, 0), 8)) }
    }

    open spec fn spec_writable(v: u64) -> bool {
        true
    }

    open spec fn spec_serialize(v: u64) -> Seq<u8> {
        u64_bytes(v)
    }

    open spec fn spec_canonical(v: u64) -> bool {
        true
    }

    proof fn lemma_parse_len(s: Seq<u8>) {
    }

    proof fn lemma_size(x: u64) {
        lemma_wide_bytes_len(x, 0);
    }

    proof fn lemma_roundtrip(v: u64, rest: Seq<u8>) {
        lemma_u64_roundtrip(v, rest);
    }

    fn parse(data: &[u8], pos: usize) -> (r: Result<(u64, usize), IsoError>) {
        if data.len() - pos < 8 {
            Err(IsoError::UnexpectedEof)
        } else {
            let v = read_u64_at(data, pos);
            proof {
                reveal(be_u64_at);
                assert(be_u32_at(data@, pos as int) == be_u32_at(data@.skip(pos as int), 0));
                assert(be_u32_at(data@, pos + 4) == be_u32_at(data@.skip(pos as int), 4));
            }
            Ok((v, pos + 8))
        }
    }

    fn serialize(&self, out: &mut Vec<u8>) -> (r: Result<(), IsoError>) {
        proof {
            lemma_append_prefix(old(out)@, u64_bytes(*self));
        }
        write_u64(out, *self);
        Ok(())
    }
}

impl IsoSized for u64 {
    open spec fn spec_size(&self) -> nat {
        8
    }

    fn size(&self) -> (n: usize) {
        8
    }
}

// ---------------------------------------------------------------------------
// Lists of encodable structures.
// ---------------------------------------------------------------------------

/// The models of the elements of a vector.
pub open spec fn views<T: View>(v: Seq<T>) -> Seq<T::V> {
    v.map_values(|x: T| x@)
}

/// The concatenated encodings of a list.
pub open spec fn ser_seq<T: Wire>(items: Seq<T::V>) -> Seq<u8>
    decreases items.len(),
{
    if items.len() == 0 {
        Seq::empty()
    } else {
        ser_seq::<T>(items.drop_last()) + T::spec_serialize(items.last())
    }
}

/// The sum of the sizes of the elements of a list.
pub open spec fn size_seq<T: IsoSized>(items: Seq<T>) -> nat
    decreases items.len(),
{
    if items.len() == 0 {
        0
    } else {
        size_seq::<T>(items.drop_last()) + items.last().spec_size()
    }
}

pub open spec fn writable_seq<T: Wire>(items: Seq<T::V>) -> bool {
    forall|i: int| 0 <= i < items.len() ==> #[trigger] T::spec_writable(items[i])
}

pub open spec fn canonical_seq<T: Wire>(items: Seq<T::V>) -> bool {
    forall|i: int| 0 <= i < items.len() ==> #[trigger] T::spec_canonical(items[i])
}

/// Reading exactly `count` elements one after the other.
pub open spec fn parse_count<T: Wire>(s: Seq<u8>, count: nat) -> SpecParse<Seq<T::V>>
    decreases count,
{
    if count == 0 {
        Ok((Seq::empty(), 0))
    } else {
        match parse_count::<T>(s, (count - 1) as nat) {
            Ok((items, k)) => match T::spec_parse(s.skip(k)) {
                Ok((v, n)) => Ok((items.push(v), k + n)),
                Err(e) => Err(e),
            },
            Err(e) => Err(e),
        }
    }
}

/// Reading elements until the input ends: an element cut short by the end of the
/// input ends the list; any other failure is the failure of the list.
pub open spec fn parse_rest<T: Wire>(s: Seq<u8>) -> SpecParse<Seq<T::V>>
    decreases s.len(),
{
    match T::spec_parse(s) {
        Err(IsoError::UnexpectedEof) => Ok((Seq::empty(), 0)),
        Err(e) => Err(e),
        Ok((v, n)) => if 0 < n <= s.len() {
            match parse_rest::<T>(s.skip(n)) {
                Ok((vs, m)) => Ok((seq![v] + vs, n + m)),
                Err(e) => Err(e),
            }
        } else {
            Err(IsoError::InvalidData)
        },
    }
}

pub proof fn lemma_views_push<T: View>(v: Seq<T>, x: T)
    ensures
        views(v.push(x)) == views(v).push(x@),
        views(v).len() == v.len(),
{
    assert(views(v.push(x)) =~= views(v).push(x@));
}

pub proof fn lemma_parse_count_len<T: Wire>(s: Seq<u8>, count: nat)
    ensures
        parse_count::<T>(s, count) matches Ok((items, k)) ==> items.len() == count && 0 <= k
            <= s.len(),
    decreases count,
{
    if count > 0 {
        lemma_parse_count_len::<T>(s, (count - 1) as nat);
        if let Ok((items, k)) = parse_count::<T>(s, (count - 1) as nat) {
            T::lemma_parse_len(s.skip(k));
        }
    }
}

/// Once reading a counted list has failed, reading a longer one fails the same way.
pub proof fn lemma_parse_count_err<T: Wire>(s: Seq<u8>, i: nat, j: nat)
    requires
        i <= j,
        parse_count::<T>(s, i) is Err,
    ensures
        parse_count::<T>(s, j) == parse_count::<T>(s, i),
    decreases j,
{
    if j > i {
        lemma_parse_count_err::<T>(s, i, (j - 1) as nat);
    }
}

pub proof fn lemma_size_seq<T: Wire>(items: Seq<T>)
    requires
        writable_seq::<T>(views(items)),
    ensures
        ser_seq::<T>(views(items)).len() == size_seq::<T>(items),
    decreases items.len(),
{
    if items.len() > 0 {
        assert(T::spec_writable(views(items)[items.len() - 1]));
        T::lemma_size(items.last());
        assert(views(items).drop_last() =~= views(items.drop_last()));
        lemma_size_seq::<T>(items.drop_last());
    }
}

/// Reading back `items.len()` elements from the written list gives the list.
pub proof fn lemma_count_roundtrip<T: Wire>(items: Seq<T::V>, rest: Seq<u8>)
    requires
        writable_seq::<T>(items),
        canonical_seq::<T>(items),
    ensures
        parse_count::<T>(ser_seq::<T>(items) + rest, items.len()) == Ok::<(Seq<T::V>, int), IsoError>(
            (items, ser_seq::<T>(items).len() as int),
        ),
    decreases items.len(),
{
    if items.len() == 0 {
        assert(items =~= Seq::<T::V>::empty());
    } else {
        let init = items.drop_last();
        let last = items.last();
        assert(T::spec_writable(items[items.len() - 1]));
        assert(T::spec_canonical(items[items.len() - 1]));
        let tail = T::spec_serialize(last) + rest;
        lemma_count_roundtrip::<T>(init, tail);
        let s = ser_seq::<T>(items) + rest;
        assert(ser_seq::<T>(init) + tail =~= s);
        assert(s.skip(ser_seq::<T>(init).len() as int) =~= tail);
        T::lemma_roundtrip(last, rest);
        assert(init.push(last) =~= items);
    }
}

pub proof fn lemma_parse_rest_len<T: Wire>(s: Seq<u8>)
    ensures
        parse_rest::<T>(s) matches Ok((vs, m)) ==> 0 <= m <= s.len(),
    decreases s.len(),
{
    if let Ok((v, n)) = T::spec_parse(s) {
        if 0 < n <= s.len() {
            lemma_parse_rest_len::<T>(s.skip(n));
        }
    }
}

/// The written list seen from its front.
pub proof fn lemma_ser_seq_cons<T: Wire>(x: T::V, tail: Seq<T::V>)
    ensures
        ser_seq::<T>(seq![x] + tail) == T::spec_serialize(x) + ser_seq::<T>(tail),
    decreases tail.len(),
{
    if tail.len() == 0 {
        assert(seq![x] + tail =~= seq![x]);
        assert(seq![x].drop_last() =~= Seq::<T::V>::empty());
        assert(ser_seq::<T>(seq![x]) == ser_seq::<T>(seq![x].drop_last()) + T::spec_serialize(x));
        assert(ser_seq::<T>(Seq::<T::V>::empty()) =~= Seq::<u8>::empty());
        assert(ser_seq::<T>(seq![x]) =~= T::spec_serialize(x));
        assert(T::spec_serialize(x) + ser_seq::<T>(tail) =~= T::spec_serialize(x));
    } else {
        let all = seq![x] + tail;
        assert(all.drop_last() =~= seq![x] + tail.drop_last());
        assert(all.last() == tail.last());
        lemma_ser_seq_cons::<T>(x, tail.drop_last());
        assert(ser_seq::<T>(all) =~= T::spec_serialize(x) + ser_seq::<T>(tail));
    }
}

/// Reading to the end of the written list gives the list back.
pub proof fn lemma_rest_roundtrip<T: Wire>(items: Seq<T::V>)
    requires
        writable_seq::<T>(items),
        canonical_seq::<T>(items),
    ensures
        parse_rest::<T>(ser_seq::<T>(items)) == Ok::<(Seq<T::V>, int), IsoError>(
            (items, ser_seq::<T>(items).len() as int),
        ),
    decreases items.len(),
{
    if items.len() == 0 {
        T::lemma_parse_len(Seq::<u8>::empty());
        assert(ser_seq::<T>(items) =~= Seq::<u8>::empty());
        assert(items =~= Seq::<T::V>::empty());
    } else {
        let x = items[0];
        let tail = items.skip(1);
        assert(items =~= seq![x] + tail);
        assert(T::spec_writable(items[0]));
        assert(T::spec_canonical(items[0]));
        assert(writable_seq::<T>(tail)) by {
            assert forall|i: int| 0 <= i < tail.len() implies #[trigger] T::spec_writable(tail[i]) by {
                assert(tail[i] == items[i + 1]);
            }
        }
        assert(canonical_seq::<T>(tail)) by {
            assert forall|i: int| 0 <= i < tail.len() implies #[trigger] T::spec_canonical(tail[i]) by {
                assert(tail[i] == items[i + 1]);
            }
        }
        lemma_ser_seq_cons::<T>(x, tail);
        let s = ser_seq::<T>(items);
        T::lemma_roundtrip(x, ser_seq::<T>(tail));
        T::lemma_parse_len(s);
        let n = T::spec_serialize(x).len() as int;
        assert(s.skip(n) =~= ser_seq::<T>(tail));
        lemma_rest_roundtrip::<T>(tail);
    }
}

// ---------------------------------------------------------------------------
// Executable list reading, writing and sizing.
// ---------------------------------------------------------------------------

/// Reads exactly `count` elements starting at `pos`.
pub fn parse_counted<T: Wire>(data: &[u8], pos: usize, count: usize) -> (r: Result<
    (Vec<T>, usize),
    IsoError,
>)
    requires
        pos <= data@.len(),
    ensures
        match (parse_count::<T>(data@.skip(pos as int), count as nat), r) {
            (Ok((items, n)), Ok((v, p))) => views(v@) == items && p == pos + n,
            (Err(e), Err(f)) => e == f,
            _ => false,
        },
{
    let ghost s = data@.skip(pos as int);
    let mut items: Vec<T> = Vec::new();
    let mut p = pos;
    let mut i: usize = 0;
    assert(views(items@) =~= Seq::<T::V>::empty());
    while i < count
        invariant
            s == data@.skip(pos as int),
            pos <= p <= data@.len(),
            i <= count,
            parse_count::<T>(s, i as nat) == Ok::<(Seq<T::V>, int), IsoError>(
                (views(items@), p - pos),
            ),
        decreases count - i,
    {
        proof {
            lemma_parse_count_len::<T>(s, i as nat);
            assert(s.skip(p - pos) =~= data@.skip(p as int));
        }
        match T::parse(data, p) {
            Ok((v, np)) => {
                proof {
                    T::lemma_parse_len(data@.skip(p as int));
                    lemma_views_push(items@, v);
                }
                items.push(v);
                p = np;
                i = i + 1;
            },
            Err(e) => {
                proof {
                    lemma_parse_count_err::<T>(s, (i + 1) as nat, count as nat);
                }
                return Err(e);
            },
        }
    }
    Ok((items, p))
}

/// Reads elements from `pos` until the input ends.
pub fn parse_remaining<T: Wire>(data: &[u8], pos: usize) -> (r: Result<(Vec<T>, usize), IsoError>)
    requires
        pos <= data@.len(),
    ensures
        match (parse_rest::<T>(data@.skip(pos as int)), r) {
            (Ok((items, n)), Ok((v, p))) => views(v@) == items && p == pos + n,
            (Err(e), Err(f)) => e == f,
            _ => false,
        },
{
    let mut items: Vec<T> = Vec::new();
    let mut p = pos;
    assert(views(items@) =~= Seq::<T::V>::empty());
    loop
        invariant
            pos <= p <= data@.len(),
            match parse_rest::<T>(data@.skip(p as int)) {
                Ok((vs, m)) => parse_rest::<T>(data@.skip(pos as int)) == Ok::<
                    (Seq<T::V>, int),
                    IsoError,
                >((views(items@) + vs, (p - pos) + m)),
                Err(e) => parse_rest::<T>(data@.skip(pos as int)) == Err::<
                    (Seq<T::V>, int),
                    IsoError,
                >(e),
            },
        decreases data@.len() - p,
    {
        match T::parse(data, p) {
            Ok((v, np)) => {
                proof {
                    let sp = data@.skip(p as int);
                    T::lemma_parse_len(sp);
                    assert(sp.skip(np - p) =~= data@.skip(np as int));
                    lemma_views_push(items@, v);
                    if let Ok((vs, m)) = parse_rest::<T>(data@.skip(np as int)) {
                        assert(views(items@) + (seq![v@] + vs) =~= views(items@).push(v@) + vs);
                    }
                }
                items.push(v);
                p = np;
            },
            Err(IsoError::UnexpectedEof) => {
                proof {
                    assert(views(items@) + Seq::<T::V>::empty() =~= views(items@));
                }
                return Ok((items, p));
            },
            Err(e) => {
                return Err(e);
            },
        }
    }
}

pub proof fn lemma_ser_seq_take<T: Wire>(items: Seq<T::V>, i: int)
    requires
        0 <= i < items.len(),
    ensures
        ser_seq::<T>(items.take(i + 1)) == ser_seq::<T>(items.take(i)) + T::spec_serialize(items[i]),
{
    assert(items.take(i + 1).drop_last() =~= items.take(i));
}

pub proof fn lemma_size_seq_take<T: IsoSized>(items: Seq<T>, i: int)
    requires
        0 <= i < items.len(),
    ensures
        size_seq::<T>(items.take(i + 1)) == size_seq::<T>(items.take(i)) + items[i].spec_size(),
{
    assert(items.take(i + 1).drop_last() =~= items.take(i));
}

/// Writes the elements one after the other.
pub fn serialize_all<T: Wire>(items: &Vec<T>, out: &mut Vec<u8>) -> (r: Result<(), IsoError>)
    ensures
        write_matches(
            r,
            writable_seq::<T>(views(items@)),
            ser_seq::<T>(views(items@)),
            old(out)@,
            final(out)@,
        ),
{
    let ghost vs = views(items@);
    let ghost start = out@;
    let mut i: usize = 0;
    assert(vs.take(0) =~= Seq::<T::V>::empty());
    assert(out@ =~= start + ser_seq::<T>(vs.take(0)));
    while i < items.len()
        invariant
            vs == views(items@),
            start == old(out)@,
            i <= items@.len(),
            out@ == start + ser_seq::<T>(vs.take(i as int)),
            forall|j: int| 0 <= j < i ==> #[trigger] T::spec_writable(vs[j]),
        decreases items@.len() - i,
    {
        proof {
            lemma_ser_seq_take::<T>(vs, i as int);
        }
        let ghost before = out@;
        let r = items[i].serialize(out);
        if r.is_err() {
            proof {
                assert(!T::spec_writable(vs[i as int]));
                lemma_append_prefix(start, ser_seq::<T>(vs.take(i as int)));
                assert(start.len() <= before.len());
                assert(before.len() <= out@.len());
                assert forall|k: int| 0 <= k < start.len() implies out@[k] == start[k] by {
                    assert(out@.subrange(0, before.len() as int)[k] == before[k]);
                    assert(before.subrange(0, start.len() as int)[k] == start[k]);
                }
                assert(out@.subrange(0, start.len() as int) =~= start);
            }
            return Err(IsoError::InvalidData);
        }
        assert(out@ =~= start + ser_seq::<T>(vs.take(i + 1)));
        i = i + 1;
    }
    proof {
        assert(vs.take(i as int) =~= vs);
        lemma_append_prefix(start, ser_seq::<T>(vs));
    }
    Ok(())
}

pub proof fn lemma_size_seq_mono<T: IsoSized>(items: Seq<T>, i: int)
    requires
        0 <= i <= items.len(),
    ensures
        size_seq::<T>(items.take(i)) <= size_seq::<T>(items),
    decreases items.len() - i,
{
    if i < items.len() {
        lemma_size_seq_take::<T>(items, i);
        lemma_size_seq_mono::<T>(items, i + 1);
    } else {
        assert(items.take(i) =~= items);
    }
}

/// The sum of the sizes of the elements.
pub fn size_all<T: IsoSized>(items: &Vec<T>) -> (n: usize)
    requires
        size_seq::<T>(items@) <= usize::MAX,
    ensures
        n == size_seq::<T>(items@),
{
    let ghost vs = items@;
    let mut acc: usize = 0;
    let mut i: usize = 0;
    assert(vs.take(0) =~= Seq::<T>::empty());
    while i < items.len()
        invariant
            vs == items@,
            i <= items@.len(),
            acc == size_seq::<T>(vs.take(i as int)),
            size_seq::<T>(vs) <= usize::MAX,
        decreases items@.len() - i,
    {
        proof {
            lemma_size_seq_take::<T>(vs, i as int);
            lemma_size_seq_mono::<T>(vs, i + 1);
        }
        acc = acc + items[i].size();
        i = i + 1;
    }
    assert(vs.take(i as int) =~= vs);
    acc
}

/// A list of elements that are all written with the same width takes that width
/// times its length.
pub proof fn lemma_ser_seq_fixed<T: Wire>(items: Seq<T::V>, w: nat)
    requires
        forall|i: int| 0 <= i < items.len() ==> (#[trigger] T::spec_serialize(items[i])).len() == w,
    ensures
        ser_seq::<T>(items).len() == w * items.len(),
    decreases items.len(),
{
    if items.len() > 0 {
        let init = items.drop_last();
        assert forall|i: int| 0 <= i < init.len() implies (#[trigger] T::spec_serialize(init[i])).len() == w by {
            assert(init[i] == items[i]);
        }
        lemma_ser_seq_fixed::<T>(init, w);
        assert(T::spec_serialize(items[items.len() - 1]).len() == w);
        vstd::arithmetic::mul::lemma_mul_is_distributive_add(w as int, init.len() as int, 1);
    }
}


/// A list of 32-bit numbers read to the end: one number for each whole four bytes, in
/// order, each spelled by the four bytes at its place; a shorter tail is left unread.
pub proof fn lemma_u32_list_layout(s: Seq<u8>)
    ensures
        parse_rest::<u32>(s) matches Ok((xs, _)) && xs.len() == s.len() / 4 && forall|i: int|
            0 <= i < xs.len() ==> #[trigger] xs[i] == crate::codec::be_int(s, 4 * i, 4),
    decreases s.len(),
{
    if s.len() >= 4 {
        let t = s.skip(4);
        lemma_u32_list_layout(t);
        crate::codec::lemma_be_int_u32(s, 0);
        if let Ok((ts, m)) = parse_rest::<u32>(t) {
            let xs = seq![be_u32_at(s, 0)] + ts;
            assert(parse_rest::<u32>(s) == Ok::<(Seq<u32>, int), IsoError>((xs, 4 + m)));
            assert forall|i: int| 0 <= i < xs.len() implies #[trigger] xs[i] == crate::codec::be_int(s, 4 * i, 4) by {
                if i > 0 {
                    assert(xs[i] == ts[i - 1]);
                    assert(t.subrange(4 * (i - 1), 4 * (i - 1) + 4) =~= s.subrange(4 * i, 4 * i + 4));
                    crate::codec::lemma_be_int_subrange(t, s, 4 * (i - 1), 4 * i, 4);
                }
            }
        }
    } else {
        assert(<u32 as Wire>::spec_parse(s) == Err::<(u32, int), IsoError>(IsoError::UnexpectedEof));
    }
}

/// A list of 64-bit numbers read to the end: one number for each whole eight bytes,
/// in order, each spelled by the eight bytes at its place.
pub proof fn lemma_u64_list_layout(s: Seq<u8>)
    ensures
        parse_rest::<u64>(s) matches Ok((xs, _)) && xs.len() == s.len() / 8 && forall|i: int|
            0 <= i < xs.len() ==> #[trigger] xs[i] == crate::codec::be_int(s, 8 * i, 8),
    decreases s.len(),
{
    if s.len() >= 8 {
        let t = s.skip(8);
        lemma_u64_list_layout(t);
        crate::codec::lemma_be_int_u64(s, 0);
        if let Ok((ts, m)) = parse_rest::<u64>(t) {
            let xs = seq![be_u64_at(s, 0)] + ts;
            assert(parse_rest::<u64>(s) == Ok::<(Seq<u64>, int), IsoError>((xs, 8 + m)));
            assert forall|i: int| 0 <= i < xs.len() implies #[trigger] xs[i] == crate::codec::be_int(s, 8 * i, 8) by {
                if i > 0 {
                    assert(xs[i] == ts[i - 1]);
                    assert(t.subrange(8 * (i - 1), 8 * (i - 1) + 8) =~= s.subrange(8 * i, 8 * i + 8));
                    crate::codec::lemma_be_int_subrange(t, s, 8 * (i - 1), 8 * i, 8);
                }
            }
        }
    } else {
        assert(<u64 as Wire>::spec_parse(s) == Err::<(u64, int), IsoError>(IsoError::UnexpectedEof));
    }
}

} // verus!
