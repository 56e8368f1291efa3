//! The original format of a transformed sample entry and the information box of a
//! complete track (ISO/IEC 14496-12 - 8.12.3, 8.17.3).

use vstd::prelude::*;

use crate::codec::{
    fourcc_at, fourcc_eq, lemma_append_prefix, lemma_fourcc_at, read_fourcc_at, write_fourcc, IsoError,
};
use crate::frame::{
    add_header_size, add_header_size_exec, box_bytes, frame_header, payload_window, serialize_box,
    spec_serialize_box, BoxBody,
};
use crate::header::{spec_uuid_fourcc, BoxHeader, BoxType};
use crate::wire::{IsoSized, Wire};

verus! {


/// Original format box
///
/// ISO/IEC 14496-12 - 8.12.3
#[derive(Debug, Clone, Copy, PartialEq, Eq)]
pub struct OriginalFormatBox {
    /// The four-character code of the sample entry before it was transformed.
    pub data_format: [u8; 4],
}

impl View for OriginalFormatBox {
    type V = OriginalFormatBox;

    open spec fn view(&self) -> OriginalFormatBox {
        *self
    }
}

impl IsoSized for OriginalFormatBox {
    open spec fn spec_size(&self) -> nat {
        add_header_size(4)
    }

    fn size(&self) -> (n: usize) {
        add_header_size_exec(4)
    }
}

impl BoxBody for OriginalFormatBox {
    open spec fn spec_box_type() -> [u8; 4] {
        [0x66u8, 0x72u8, 0x6du8, 0x61u8]
    }

    fn box_type() -> (r: [u8; 4]) {
        [0x66u8, 0x72u8, 0x6du8, 0x61u8]
    }

    open spec fn spec_parse_body(s: Seq<u8>) -> Result<OriginalFormatBox, IsoError> {
        if s.len() < 4 {
            Err(IsoError::UnexpectedEof)
        } else {
            Ok(OriginalFormatBox {
                data_format: fourcc_at(s, 0),
            })
        }
    }

    open spec fn spec_writable(v: OriginalFormatBox) -> bool {
        true
    }

    open spec fn spec_serialize_body(v: OriginalFormatBox) -> Seq<u8> {
        v.data_format@
    }

    open spec fn spec_canonical(v: OriginalFormatBox) -> bool {
        true
    }

    proof fn lemma_box_type() {
        assert(Self::spec_box_type()[0] != spec_uuid_fourcc()[0] || Self::spec_box_type()[1] != spec_uuid_fourcc()[1]);
    }

    proof fn lemma_body_size(x: OriginalFormatBox) {
    }

    proof fn lemma_body_roundtrip(v: OriginalFormatBox) {
        let s = Self::spec_serialize_body(v);
        assert(s.subrange(0, 4) =~= v.data_format@);
        lemma_fourcc_at(s, 0, v.data_format);
    }

    fn parse_body(d: &[u8]) -> (r: Result<OriginalFormatBox, IsoError>) {
        if d.len() < 4 {
            return Err(IsoError::UnexpectedEof);
        }
        let data_format = read_fourcc_at(d, 0);
        Ok(OriginalFormatBox { data_format })
    }

    fn serialize_body(&self, out: &mut Vec<u8>) -> (r: Result<(), IsoError>) {
        let ghost before = out@;
        write_fourcc(out, self.data_format);
        proof {
            assert(out@ =~= before + Self::spec_serialize_body(self@));
            lemma_append_prefix(before, Self::spec_serialize_body(self@));
        }
        Ok(())
    }
}

/// The four-character code of the original format box.
pub open spec fn frma_type() -> [u8; 4] {
    [0x66u8, 0x72u8, 0x6du8, 0x61u8]
}

/// Reading the boxes nested in a complete track information box: the last original
/// format box is kept, other boxes are skipped, and an original format box cut short
/// by the end of the input ends the reading.
#[verifier::opaque]
pub open spec fn cinf_scan(s: Seq<u8>, found: Option<OriginalFormatBox>) -> Result<Option<OriginalFormatBox>, IsoError>
    decreases s.len(),
{
    match BoxHeader::spec_parse(s) {
        Err(e) => if e == IsoError::UnexpectedEof { Ok(found) } else { Err(e) },
        Ok((h, hl)) => {
            let w = payload_window(s, h, hl);
            if 0 < hl && hl + w.len() <= s.len() {
                let next = s.skip(hl + w.len());
                if h.box_type == BoxType::FourCc(frma_type()) {
                    match OriginalFormatBox::spec_parse_body(w) {
                        Err(e) => if e == IsoError::UnexpectedEof { Ok(found) } else { Err(e) },
                        Ok(t) => cinf_scan(next, Some(t)),
                    }
                } else {
                    cinf_scan(next, found)
                }
            } else {
                Err(IsoError::InvalidData)
            }
        },
    }
}

/// Complete track information box
///
/// ISO/IEC 14496-12 - 8.17.3
#[derive(Debug, Clone, Copy, PartialEq, Eq)]
pub struct CompleteTrackInfoBox {
    /// The format of the complete track.
    pub original_format: OriginalFormatBox,
}

impl View for CompleteTrackInfoBox {
    type V = CompleteTrackInfoBox;

    open spec fn view(&self) -> CompleteTrackInfoBox {
        *self
    }
}

impl IsoSized for CompleteTrackInfoBox {
    open spec fn spec_size(&self) -> nat {
        add_header_size(self.original_format.spec_size())
    }

    fn size(&self) -> (n: usize) {
        add_header_size_exec(self.original_format.size())
    }
}

/// Reads the boxes nested from `pos` to the end of `d`, keeping the last original
/// format box.
#[verifier::loop_isolation(false)]
fn scan_original_format(d: &[u8], pos: usize) -> (r: Result<Option<OriginalFormatBox>, IsoError>)
    requires
        pos <= d@.len(),
    ensures
        match (cinf_scan(d@.skip(pos as int), None), r) {
            (Ok(a), Ok(b)) => a == b,
            (Err(e), Err(f)) => e == f,
            _ => false,
        },
{
    let mut found: Option<OriginalFormatBox> = None;
    let mut p = pos;
    loop
        invariant
            pos <= p <= d@.len(),
            cinf_scan(d@.skip(pos as int), None) == cinf_scan(d@.skip(p as int), found),
        decreases d@.len() - p,
    {
        let ghost s = d@.skip(p as int);
        proof {
            reveal(cinf_scan);
        }
        let (h, hp) = match BoxHeader::parse(d, p) {
            Ok(x) => x,
            Err(e) => {
                if e == IsoError::UnexpectedEof {
                    return Ok(found);
                } else {
                    return Err(e);
                }
            },
        };
        proof {
            BoxHeader::lemma_parse_len(s);
        }
        let end = match h.payload_size() {
            Some(ps) => if ps <= d.len() - hp {
                hp + ps
            } else {
                d.len()
            },
            None => d.len(),
        };
        let payload = vstd::slice::slice_subrange(d, hp, end);
        proof {
            assert(payload@ =~= payload_window(s, h, hp - p));
            assert(s.skip(end - p) =~= d@.skip(end as int));
        }
        let is_frma = match h.box_type {
            BoxType::FourCc(t) => fourcc_eq(t, [0x66u8, 0x72u8, 0x6du8, 0x61u8]),
            BoxType::Uuid(_) => false,
        };
        proof {
            assert(is_frma == (h.box_type == BoxType::FourCc(frma_type())));
        }
        if is_frma {
            match OriginalFormatBox::parse_body(payload) {
                Ok(t) => {
                    found = Some(t);
                },
                Err(e) => {
                    if e == IsoError::UnexpectedEof {
                        return Ok(found);
                    } else {
                        return Err(e);
                    }
                },
            }
        }
        p = end;
    }
}

impl BoxBody for CompleteTrackInfoBox {
    open spec fn spec_box_type() -> [u8; 4] {
        [0x63u8, 0x69u8, 0x6eu8, 0x66u8]
    }

    fn box_type() -> (r: [u8; 4]) {
        [0x63u8, 0x69u8, 0x6eu8, 0x66u8]
    }

    /// The nested boxes; an original format box must be among them.
    open spec fn spec_parse_body(s: Seq<u8>) -> Result<CompleteTrackInfoBox, IsoError> {
        match cinf_scan(s, None) {
            Ok(Some(t)) => Ok(CompleteTrackInfoBox { original_format: t }),
            Ok(None) => Err(IsoError::InvalidData),
            Err(e) => Err(e),
        }
    }

    open spec fn spec_writable(v: CompleteTrackInfoBox) -> bool {
        true
    }

    /// The original format box.
    open spec fn spec_serialize_body(v: CompleteTrackInfoBox) -> Seq<u8> {
        box_bytes::<OriginalFormatBox>(v.original_format)
    }

    open spec fn spec_canonical(v: CompleteTrackInfoBox) -> bool {
        true
    }

    proof fn lemma_box_type() {
        assert(Self::spec_box_type()[0] != spec_uuid_fourcc()[0]);
    }

    proof fn lemma_body_size(x: CompleteTrackInfoBox) {
        broadcast use vstd::array::group_array_axioms;
        OriginalFormatBox::lemma_body_size(x.original_format);
        BoxHeader::lemma_size(frame_header(frma_type(), 12));
    }

    proof fn lemma_body_roundtrip(v: CompleteTrackInfoBox) {
        broadcast use vstd::array::group_array_axioms;
        let t = v.original_format;
        let body = OriginalFormatBox::spec_serialize_body(t);
        let h = frame_header(frma_type(), add_header_size(body.len()));
        let hs = BoxHeader::spec_serialize(h);
        let s = box_bytes::<OriginalFormatBox>(t);
        reveal(cinf_scan);
        BoxHeader::lemma_roundtrip(h, body);
        BoxHeader::lemma_size(h);
        assert(s =~= hs + body);
        assert(s.subrange(hs.len() as int, hs.len() + body.len() as int) =~= body);
        assert(payload_window(s, h, hs.len() as int) =~= body);
        assert(s.skip((hs.len() + body.len()) as int) =~= Seq::<u8>::empty());
        OriginalFormatBox::lemma_body_roundtrip(t);
        BoxHeader::lemma_parse_len(Seq::<u8>::empty());
        assert(cinf_scan(Seq::<u8>::empty(), Some(t)) == Ok::<Option<OriginalFormatBox>, IsoError>(Some(t)));
    }

    fn parse_body(d: &[u8]) -> (r: Result<CompleteTrackInfoBox, IsoError>) {
        proof {
            assert(d@.skip(0) =~= d@);
        }
        match scan_original_format(d, 0)? {
            Some(t) => Ok(CompleteTrackInfoBox { original_format: t }),
            None => Err(IsoError::InvalidData),
        }
    }

    fn serialize_body(&self, out: &mut Vec<u8>) -> (r: Result<(), IsoError>) {
        proof {
            OriginalFormatBox::lemma_body_size(self.original_format);
        }
        let _ = serialize_box(&self.original_format, out);
        proof {
            assert(spec_serialize_box(self.original_format) == box_bytes::<OriginalFormatBox>(self.original_format));
        }
        Ok(())
    }
}

} // verus!
