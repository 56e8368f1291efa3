//! Boxes: a header followed by a payload whose length the header announces.

use vstd::prelude::*;

use crate::codec::{lemma_append_prefix, IsoError, SpecParse};
use crate::header::{spec_uuid_fourcc, BoxHeader, BoxSize, BoxType};
use crate::wire::{parse_matches, write_matches, IsoSized, Wire};

verus! {

/// A box whose payload has a byte encoding.
///
/// The payload parser always sees exactly the bytes of the payload, so that a list
/// that runs to the end of its input ends where the box ends.
pub trait BoxBody: View + IsoSized + Sized {
    /// The four-character code of the box.
    spec fn spec_box_type() -> [u8; 4];

    fn box_type() -> (r: [u8; 4])
        ensures
            r == Self::spec_box_type(),
    ;

    /// What the parser reads from the payload.
    spec fn spec_parse_body(payload: Seq<u8>) -> Result<Self::V, IsoError>;

    /// Whether the value can be written.
    spec fn spec_writable(v: Self::V) -> bool;

    /// The bytes of the payload of a writable value.
    spec fn spec_serialize_body(v: Self::V) -> Seq<u8>;

    /// Values that read back as themselves.
    spec fn spec_canonical(v: Self::V) -> bool;

    proof fn lemma_box_type()
        ensures
            Self::spec_box_type() != spec_uuid_fourcc(),
    ;

    /// The size that the box reports is the length of its header and payload.
    proof fn lemma_body_size(x: Self)
        requires
            Self::spec_writable(x@),
            Self::spec_canonical(x@),
        ensures
            x.spec_size() == add_header_size(Self::spec_serialize_body(x@).len()),
    ;

    proof fn lemma_body_roundtrip(v: Self::V)
        requires
            Self::spec_writable(v),
            Self::spec_canonical(v),
        ensures
            Self::spec_parse_body(Self::spec_serialize_body(v)) == Ok::<Self::V, IsoError>(v),
    ;

    fn parse_body(payload: &[u8]) -> (r: Result<Self, IsoError>)
        ensures
            match (Self::spec_parse_body(payload@), r) {
                (Ok(v), Ok(x)) => x@ == v,
                (Err(e), Err(f)) => e == f,
                _ => false,
            },
    ;

    fn serialize_body(&self, out: &mut Vec<u8>) -> (r: Result<(), IsoError>)
        requires
            self.spec_size() <= usize::MAX,
        ensures
            write_matches(
                r,
                Self::spec_writable(self@),
                Self::spec_serialize_body(self@),
                old(out)@,
                final(out)@,
            ),
    ;
}

/// The size of a box with a four-character type and `payload` bytes of payload:
/// an 8-byte header, or a 16-byte one where the total does not fit in 32 bits.
pub open spec fn add_header_size(payload: nat) -> nat {
    if payload + 8 > u32::MAX {
        payload + 16
    } else {
        payload + 8
    }
}

pub fn add_header_size_exec(payload: usize) -> (n: usize)
    requires
        add_header_size(payload as nat) <= usize::MAX,
    ensures
        n == add_header_size(payload as nat),
{
    let size = payload + 8;
    if size > u32::MAX as usize {
        size + 8
    } else {
        size
    }
}

/// The bytes of the payload of a box: those that the header announces, cut short
/// by the end of the input, or all the rest for a box that runs to the end.
pub open spec fn payload_window(s: Seq<u8>, h: BoxHeader, hl: int) -> Seq<u8> {
    match h.spec_payload_size() {
        Some(p) => if hl + p <= s.len() { s.subrange(hl, hl + p) } else { s.skip(hl) },
        None => s.skip(hl),
    }
}

/// Reading a whole box: its header, then its payload; the box consumes its header
/// and its payload window.
pub open spec fn spec_parse_box<T: BoxBody>(s: Seq<u8>) -> SpecParse<T::V> {
    match BoxHeader::spec_parse(s) {
        Ok((h, hl)) => match T::spec_parse_body(payload_window(s, h, hl)) {
            Ok(v) => Ok((v, hl + payload_window(s, h, hl).len())),
            Err(e) => Err(e),
        },
        Err(e) => Err(e),
    }
}

/// The header that is written in front of a box of `total` bytes.
pub open spec fn frame_header(box_type: [u8; 4], total: nat) -> BoxHeader {
    BoxHeader { size: BoxSize::spec_from_usize(total as usize), box_type: BoxType::FourCc(box_type) }
}

/// The bytes of a whole box: the header, whose size is the size that the box
/// reports, then the payload.
pub open spec fn spec_serialize_box<T: BoxBody>(x: T) -> Seq<u8> {
    BoxHeader::spec_serialize(frame_header(T::spec_box_type(), x.spec_size()))
        + T::spec_serialize_body(x@)
}

/// Reads a box starting at `pos`.
pub fn parse_box<T: BoxBody>(data: &[u8], pos: usize) -> (r: Result<(T, usize), IsoError>)
    requires
        pos <= data@.len(),
    ensures
        parse_matches(r, spec_parse_box::<T>(data@.skip(pos as int)), pos),
{
    let ghost s = data@.skip(pos as int);
    let (h, p) = BoxHeader::parse(data, pos)?;
    proof {
        BoxHeader::lemma_parse_len(s);
    }
    let end = match h.payload_size() {
        Some(ps) => if ps <= data.len() - p {
            p + ps
        } else {
            data.len()
        },
        None => data.len(),
    };
    let payload = &data[p..end];
    proof {
        let hl = p - pos;
        assert(payload@ =~= payload_window(s, h, hl));
    }
    let v = T::parse_body(payload)?;
    Ok((v, end))
}

/// Writes a whole box: the header with the size that the box reports, then the payload.
pub fn serialize_box<T: BoxBody>(x: &T, out: &mut Vec<u8>) -> (r: Result<(), IsoError>)
    requires
        x.spec_size() <= usize::MAX,
    ensures
        write_matches(r, T::spec_writable(x@), spec_serialize_box(*x), old(out)@, final(out)@),
{
    let total = x.size();
    let header = BoxHeader { size: BoxSize::for_total(total), box_type: BoxType::FourCc(T::box_type()) };
    let ghost before = out@;
    let _ = header.serialize(out);
    let ghost mid = out@;
    let r = x.serialize_body(out);
    proof {
        lemma_append_prefix(before, BoxHeader::spec_serialize(header));
        assert forall|k: int| 0 <= k < before.len() implies out@[k] == before[k] by {
            assert(out@.subrange(0, mid.len() as int)[k] == mid[k]);
        }
        assert(out@.subrange(0, before.len() as int) =~= before);
        if r.is_ok() {
            assert(out@ =~= before + spec_serialize_box(*x));
        }
    }
    r
}

/// Writing a box and reading it back gives the value, and consumes exactly what
/// was written.
pub proof fn lemma_box_roundtrip<T: BoxBody>(x: T)
    requires
        T::spec_writable(x@),
        T::spec_canonical(x@),
        x.spec_size() <= usize::MAX,
    ensures
        spec_serialize_box(x).len() == x.spec_size(),
        spec_parse_box::<T>(spec_serialize_box(x)) == Ok::<(T::V, int), IsoError>(
            (x@, spec_serialize_box(x).len() as int),
        ),
{
    T::lemma_body_size(x);
    T::lemma_box_type();
    T::lemma_body_roundtrip(x@);
    let body = T::spec_serialize_body(x@);
    let total = x.spec_size();
    let h = frame_header(T::spec_box_type(), total);
    let hs = BoxHeader::spec_serialize(h);
    BoxHeader::lemma_roundtrip(h, body);
    let s = hs + body;
    assert(s.skip(hs.len() as int) =~= body) by {
        assert(s.subrange(hs.len() as int, s.len() as int) =~= body);
    }
    assert(h.header_len() == hs.len());
    assert(payload_window(s, h, hs.len() as int) =~= body);
}

/// The bytes of a whole box given its model: the header with the size of the header
/// and payload, then the payload.
pub open spec fn box_bytes<T: BoxBody>(v: T::V) -> Seq<u8> {
    BoxHeader::spec_serialize(frame_header(T::spec_box_type(), add_header_size(T::spec_serialize_body(v).len())))
        + T::spec_serialize_body(v)
}

/// Reading a written box gives it back, whatever follows it.
pub proof fn lemma_box_bytes_roundtrip<T: BoxBody>(v: T::V, rest: Seq<u8>)
    requires
        T::spec_writable(v),
        T::spec_canonical(v),
        add_header_size(T::spec_serialize_body(v).len()) <= usize::MAX,
    ensures
        spec_parse_box::<T>(box_bytes::<T>(v) + rest) == Ok::<(T::V, int), IsoError>(
            (v, box_bytes::<T>(v).len() as int),
        ),
{
    T::lemma_box_type();
    T::lemma_body_roundtrip(v);
    let body = T::spec_serialize_body(v);
    let total = add_header_size(body.len());
    let h = frame_header(T::spec_box_type(), total);
    let hs = BoxHeader::spec_serialize(h);
    BoxHeader::lemma_roundtrip(h, body + rest);
    BoxHeader::lemma_size(h);
    let s = box_bytes::<T>(v) + rest;
    assert(s =~= hs + (body + rest));
    assert(h.header_len() == hs.len());
    assert(s.subrange(hs.len() as int, hs.len() + body.len() as int) =~= body);
    assert(payload_window(s, h, hs.len() as int) =~= body);
}

// ---------------------------------------------------------------------------
// Boxes kept as bytes.
// ---------------------------------------------------------------------------

/// A box whose payload is kept as it was read.
#[derive(Debug)]
pub struct UnknownBox {
    /// The header of the box.
    pub header: BoxHeader,
    /// The payload of the box.
    pub data: Vec<u8>,
}

/// The model of an [`UnknownBox`].
pub struct UnknownBoxModel {
    pub header: BoxHeader,
    pub data: Seq<u8>,
}

impl View for UnknownBox {
    type V = UnknownBoxModel;

    open spec fn view(&self) -> UnknownBoxModel {
        UnknownBoxModel { header: self.header, data: self.data@ }
    }
}

impl IsoSized for UnknownBox {
    open spec fn spec_size(&self) -> nat {
        self.header.header_len() + self.data@.len()
    }

    fn size(&self) -> (n: usize) {
        self.header.size() + self.data.len()
    }
}

impl Wire for UnknownBox {
    /// The header, then the payload window that it announces.
    open spec fn spec_parse(s: Seq<u8>) -> SpecParse<UnknownBoxModel> {
        match BoxHeader::spec_parse(s) {
            Ok((h, hl)) => Ok(
                (
                    UnknownBoxModel { header: h, data: payload_window(s, h, hl) },
                    hl + payload_window(s, h, hl).len(),
                ),
            ),
            Err(e) => Err(e),
        }
    }

    open spec fn spec_writable(v: UnknownBoxModel) -> bool {
        true
    }

    open spec fn spec_serialize(v: UnknownBoxModel) -> Seq<u8> {
        BoxHeader::spec_serialize(v.header) + v.data
    }

    /// The header is canonical and announces exactly the payload.
    open spec fn spec_canonical(v: UnknownBoxModel) -> bool {
        BoxHeader::spec_canonical(v.header) && v.header.spec_payload_size() == Some(v.data.len() as usize)
            && v.data.len() <= usize::MAX
    }

    proof fn lemma_parse_len(s: Seq<u8>) {
        BoxHeader::lemma_parse_len(s);
    }

    proof fn lemma_size(x: UnknownBox) {
        BoxHeader::lemma_size(x.header);
    }

    proof fn lemma_roundtrip(v: UnknownBoxModel, rest: Seq<u8>) {
        let hs = BoxHeader::spec_serialize(v.header);
        BoxHeader::lemma_roundtrip(v.header, v.data + rest);
        BoxHeader::lemma_size(v.header);
        let s = hs + v.data + rest;
        assert(s =~= hs + (v.data + rest));
        assert(s.subrange(hs.len() as int, hs.len() + v.data.len() as int) =~= v.data);
    }

    fn parse(data: &[u8], pos: usize) -> (r: Result<(UnknownBox, usize), IsoError>) {
        let ghost s = data@.skip(pos as int);
        let (h, p) = BoxHeader::parse(data, pos)?;
        proof {
            BoxHeader::lemma_parse_len(s);
        }
        let end = match h.payload_size() {
            Some(ps) => if ps <= data.len() - p {
                p + ps
            } else {
                data.len()
            },
            None => data.len(),
        };
        let payload = vstd::slice::slice_to_vec(vstd::slice::slice_subrange(data, p, end));
        proof {
            assert(payload@ =~= payload_window(s, h, p - pos));
        }
        Ok((UnknownBox { header: h, data: payload }, end))
    }

    fn serialize(&self, out: &mut Vec<u8>) -> (r: Result<(), IsoError>) {
        let ghost before = out@;
        let _ = self.header.serialize(out);
        let mut i: usize = 0;
        let ghost mid = out@;
        while i < self.data.len()
            invariant
                i <= self.data@.len(),
                out@ == mid + self.data@.take(i as int),
            decreases self.data@.len() - i,
        {
            out.push(self.data[i]);
            proof {
                assert(out@ =~= mid + self.data@.take(i + 1));
            }
            i = i + 1;
        }
        proof {
            assert(self.data@.take(i as int) =~= self.data@);
            assert(out@ =~= before + Self::spec_serialize(self@));
            lemma_append_prefix(before, Self::spec_serialize(self@));
        }
        Ok(())
    }
}

} // verus!
