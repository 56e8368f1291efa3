//! The sample description box, which holds the sample entries of a track, and the
//! degradation priority box.

use vstd::prelude::*;

use crate::children::{lemma_unknown_seq, read_children, spec_children};
use crate::codec::{
    be_u24_at, be_u32_at, lemma_append_prefix, lemma_u24_at, lemma_u32_at, read_u24_at, read_u32_at,
    u24_bytes, u32_bytes, write_u24, write_u32, write_u8, IsoError,
};
use crate::frame::{add_header_size, add_header_size_exec, BoxBody, UnknownBox, UnknownBoxModel};
use crate::header::{spec_uuid_fourcc, FullBoxHeader};
use crate::wire::{
    canonical_seq, lemma_rest_roundtrip, lemma_size_seq, lemma_size_seq_mono, parse_remaining, parse_rest,
    ser_seq, serialize_all, size_all, size_seq, views, writable_seq, IsoSized, Wire,
};

verus! {

/// Sample description box
///
/// `stsd`
///
/// ISO/IEC 14496-12 - 8.5.2
#[derive(Debug)]
pub struct SampleDescriptionBox {
    /// The version and flags of the box.
    pub full_header: FullBoxHeader,
    /// The number of entries.
    pub entry_count: u32,
    /// The sample entries, kept as the boxes that they are.
    pub boxes: Vec<UnknownBox>,
}

/// The model of a [`SampleDescriptionBox`].
pub struct SampleDescriptionBoxModel {
    pub full_header: FullBoxHeader,
    pub entry_count: u32,
    pub boxes: Seq<UnknownBoxModel>,
}

impl View for SampleDescriptionBox {
    type V = SampleDescriptionBoxModel;

    open spec fn view(&self) -> SampleDescriptionBoxModel {
        SampleDescriptionBoxModel {
            full_header: self.full_header,
            entry_count: self.entry_count,
            boxes: views(self.boxes@),
        }
    }
}

impl SampleDescriptionBox {
    /// A sample description box of version 0 that counts the boxes it holds.
    pub fn new(boxes: Vec<UnknownBox>) -> (r: Self)
        requires
            boxes@.len() <= u32::MAX,
        ensures
            r.full_header == (FullBoxHeader { version: 0, flags: 0 }),
            r.entry_count == boxes@.len(),
            r.boxes@ == boxes@,
    {
        let n = boxes.len() as u32;
        SampleDescriptionBox { full_header: FullBoxHeader { version: 0, flags: 0 }, entry_count: n, boxes }
    }
}

impl IsoSized for SampleDescriptionBox {
    open spec fn spec_size(&self) -> nat {
        add_header_size(8 + size_seq::<UnknownBox>(self.boxes@))
    }

    fn size(&self) -> (n: usize) {
        proof {
            lemma_size_seq_mono::<UnknownBox>(self.boxes@, 0);
        }
        add_header_size_exec(8 + size_all(&self.boxes))
    }
}

impl BoxBody for SampleDescriptionBox {
    open spec fn spec_box_type() -> [u8; 4] {
        [0x73u8, 0x74u8, 0x73u8, 0x64u8]
    }

    fn box_type() -> (r: [u8; 4]) {
        [0x73u8, 0x74u8, 0x73u8, 0x64u8]
    }

    /// The version, flags and count, then every box to the end of the payload.
    open spec fn spec_parse_body(s: Seq<u8>) -> Result<SampleDescriptionBoxModel, IsoError> {
        if s.len() < 8 {
            Err(IsoError::UnexpectedEof)
        } else {
            Ok(
                SampleDescriptionBoxModel {
                    full_header: FullBoxHeader { version: s[0], flags: be_u24_at(s, 1) },
                    entry_count: be_u32_at(s, 4),
                    boxes: spec_children(s.skip(8)),
                },
            )
        }
    }

    open spec fn spec_writable(v: SampleDescriptionBoxModel) -> bool {
        true
    }

    open spec fn spec_serialize_body(v: SampleDescriptionBoxModel) -> Seq<u8> {
        seq![v.full_header.version] + u24_bytes(v.full_header.flags) + u32_bytes(v.entry_count) + ser_seq::<UnknownBox>(
            v.boxes,
        )
    }

    /// The flags fit 24 bits and every box announces exactly its payload.
    open spec fn spec_canonical(v: SampleDescriptionBoxModel) -> bool {
        &&& v.full_header.flags < 0x100_0000
        &&& forall|i: int| 0 <= i < v.boxes.len() ==> #[trigger] UnknownBox::spec_canonical(v.boxes[i])
    }

    proof fn lemma_box_type() {
        assert(Self::spec_box_type()[0] != spec_uuid_fourcc()[0] || Self::spec_box_type()[1]
            != spec_uuid_fourcc()[1]);
    }

    proof fn lemma_body_size(x: SampleDescriptionBox) {
        lemma_size_seq::<UnknownBox>(x.boxes@);
    }

    proof fn lemma_body_roundtrip(v: SampleDescriptionBoxModel) {
        let s = Self::spec_serialize_body(v);
        assert(s.subrange(1, 4) =~= u24_bytes(v.full_header.flags));
        lemma_u24_at(s, 1, v.full_header.flags);
        assert(s.subrange(4, 8) =~= u32_bytes(v.entry_count));
        lemma_u32_at(s, 4, v.entry_count);
        assert(s.skip(8) =~= ser_seq::<UnknownBox>(v.boxes));
        lemma_unknown_seq(v.boxes);
    }

    fn parse_body(d: &[u8]) -> (r: Result<SampleDescriptionBox, IsoError>) {
        if d.len() < 8 {
            return Err(IsoError::UnexpectedEof);
        }
        let full_header = FullBoxHeader { version: d[0], flags: read_u24_at(d, 1) };
        let entry_count = read_u32_at(d, 4);
        let rest = vstd::slice::slice_subrange(d, 8, d.len());
        proof {
            assert(rest@ =~= d@.skip(8));
        }
        let boxes = read_children(rest);
        Ok(SampleDescriptionBox { full_header, entry_count, boxes })
    }

    fn serialize_body(&self, out: &mut Vec<u8>) -> (r: Result<(), IsoError>) {
        let ghost before = out@;
        write_u8(out, self.full_header.version);
        write_u24(out, self.full_header.flags);
        write_u32(out, self.entry_count);
        let _ = serialize_all(&self.boxes, out);
        proof {
            assert(out@ =~= before + Self::spec_serialize_body(self@));
            lemma_append_prefix(before, Self::spec_serialize_body(self@));
        }
        Ok(())
    }
}

/// Degradation priority box
///
/// `stdp`
///
/// ISO/IEC 14496-12 - 8.5.3
#[derive(Debug, PartialEq, Eq)]
pub struct DegradationPriorityBox {
    /// The version and flags of the box.
    pub full_header: FullBoxHeader,
    /// The priority of each sample, to the end of the box.
    pub priority: Vec<u16>,
}

/// The model of a [`DegradationPriorityBox`].
pub struct DegradationPriorityBoxModel {
    pub full_header: FullBoxHeader,
    pub priority: Seq<u16>,
}

impl View for DegradationPriorityBox {
    type V = DegradationPriorityBoxModel;

    open spec fn view(&self) -> DegradationPriorityBoxModel {
        DegradationPriorityBoxModel { full_header: self.full_header, priority: views(self.priority@) }
    }
}

impl IsoSized for DegradationPriorityBox {
    open spec fn spec_size(&self) -> nat {
        add_header_size(4 + size_seq::<u16>(self.priority@))
    }

    fn size(&self) -> (n: usize) {
        proof {
            lemma_size_seq_mono::<u16>(self.priority@, 0);
        }
        add_header_size_exec(4 + size_all(&self.priority))
    }
}

impl BoxBody for DegradationPriorityBox {
    open spec fn spec_box_type() -> [u8; 4] {
        [0x73u8, 0x74u8, 0x64u8, 0x70u8]
    }

    fn box_type() -> (r: [u8; 4]) {
        [0x73u8, 0x74u8, 0x64u8, 0x70u8]
    }

    /// The version and flags, then priorities until the payload ends.
    open spec fn spec_parse_body(s: Seq<u8>) -> Result<DegradationPriorityBoxModel, IsoError> {
        if s.len() < 4 {
            Err(IsoError::UnexpectedEof)
        } else {
            match parse_rest::<u16>(s.skip(4)) {
                Ok((items, _)) => Ok(
                    DegradationPriorityBoxModel {
                        full_header: FullBoxHeader { version: s[0], flags: be_u24_at(s, 1) },
                        priority: items,
                    },
                ),
                Err(e) => Err(e),
            }
        }
    }

    open spec fn spec_writable(v: DegradationPriorityBoxModel) -> bool {
        true
    }

    open spec fn spec_serialize_body(v: DegradationPriorityBoxModel) -> Seq<u8> {
        seq![v.full_header.version] + u24_bytes(v.full_header.flags) + ser_seq::<u16>(v.priority)
    }

    open spec fn spec_canonical(v: DegradationPriorityBoxModel) -> bool {
        v.full_header.flags < 0x100_0000 && canonical_seq::<u16>(v.priority)
    }

    proof fn lemma_box_type() {
        assert(Self::spec_box_type()[0] != spec_uuid_fourcc()[0]);
    }

    proof fn lemma_body_size(x: DegradationPriorityBox) {
        assert(writable_seq::<u16>(views(x.priority@)));
        lemma_size_seq::<u16>(x.priority@);
    }

    proof fn lemma_body_roundtrip(v: DegradationPriorityBoxModel) {
        let s = Self::spec_serialize_body(v);
        assert(s.subrange(1, 4) =~= u24_bytes(v.full_header.flags));
        lemma_u24_at(s, 1, v.full_header.flags);
        assert(s.skip(4) =~= ser_seq::<u16>(v.priority));
        assert(writable_seq::<u16>(v.priority));
        lemma_rest_roundtrip::<u16>(v.priority);
    }

    fn parse_body(d: &[u8]) -> (r: Result<DegradationPriorityBox, IsoError>) {
        if d.len() < 4 {
            return Err(IsoError::UnexpectedEof);
        }
        let full_header = FullBoxHeader { version: d[0], flags: read_u24_at(d, 1) };
        let (priority, _end) = parse_remaining::<u16>(d, 4)?;
        Ok(DegradationPriorityBox { full_header, priority })
    }

    fn serialize_body(&self, out: &mut Vec<u8>) -> (r: Result<(), IsoError>) {
        let ghost before = out@;
        write_u8(out, self.full_header.version);
        write_u24(out, self.full_header.flags);
        let _ = serialize_all(&self.priority, out);
        proof {
            assert(out@ =~= before + Self::spec_serialize_body(self@));
            lemma_append_prefix(before, Self::spec_serialize_body(self@));
        }
        Ok(())
    }
}

} // verus!
