//! Item references: the item reference box and the boxes of one reference type that it
//! holds (ISO/IEC 14496-12 - 8.11.12).

use vstd::prelude::*;

use crate::codec::{
    be_u16_at, be_u24_at, be_u32_at, lemma_append_prefix, lemma_u16_at, lemma_u24_at, lemma_u32_at, read_u16_at,
    read_u24_at, read_u32_at, u16_bytes, u24_bytes, u32_bytes, write_u16, write_u24, write_u32, write_u8,
    IsoError, SpecParse,
};
use crate::boxes::file_delivery::{
    id_width, lemma_versioned_u32_at, read_versioned_u32_at, versioned_u32_at, versioned_u32_bytes,
    versioned_u32_fits, write_versioned_u32,
};
use crate::frame::{add_header_size, add_header_size_exec, BoxBody};
use crate::header::{spec_uuid_fourcc, BoxHeader, FullBoxHeader};
use crate::versioned::{
    canonical_seq_v, lemma_rest_roundtrip_v, lemma_size_seq_v, lemma_size_seq_v_mono, parse_remaining_v,
    parse_rest_v, ser_seq_v, serialize_all_v, size_all_v, size_seq_v, VersionedWire,
};
use crate::wire::{
    lemma_count_roundtrip, lemma_parse_count_len, lemma_ser_seq_fixed, parse_count, parse_counted, ser_seq,
    serialize_all, views, IsoSized, Wire,
};

verus! {

/// Identifiers read as 16-bit numbers.
pub open spec fn widen_ids(v: Seq<u16>) -> Seq<u32> {
    v.map_values(|x: u16| x as u32)
}

/// Identifiers cut to 16 bits.
pub open spec fn narrow_ids(v: Seq<u32>) -> Seq<u16> {
    v.map_values(|x: u32| x as u16)
}

/// Reading `count` identifiers of 32 bits, or of 16 bits where `large` does not hold.
pub open spec fn ids_parse(s: Seq<u8>, count: nat, large: bool) -> SpecParse<Seq<u32>> {
    if large {
        parse_count::<u32>(s, count)
    } else {
        match parse_count::<u16>(s, count) {
            Ok((v, k)) => Ok((widen_ids(v), k)),
            Err(e) => Err(e),
        }
    }
}

/// The bytes of identifiers of 32 bits, or of 16 bits where `large` does not hold.
pub open spec fn ids_bytes(v: Seq<u32>, large: bool) -> Seq<u8> {
    if large {
        ser_seq::<u32>(v)
    } else {
        ser_seq::<u16>(narrow_ids(v))
    }
}

/// Single item type reference box
///
/// ISO/IEC 14496-12 - 8.11.12
#[derive(Debug)]
pub struct SingleItemTypeReferenceBox {
    /// Whether the identifiers take 32 bits (the large form) rather than 16.
    pub large: bool,
    /// The box header, written as it is.
    pub header: BoxHeader,
    /// The item that refers to the others.
    pub from_item_id: u32,
    /// The number of references.
    pub reference_count: u16,
    /// The items referred to.
    pub to_item_id: Vec<u32>,
}

/// The model of a [`SingleItemTypeReferenceBox`].
pub struct SingleItemTypeReferenceBoxModel {
    pub large: bool,
    pub header: BoxHeader,
    pub from_item_id: u32,
    pub reference_count: u16,
    pub to_item_id: Seq<u32>,
}

impl View for SingleItemTypeReferenceBox {
    type V = SingleItemTypeReferenceBoxModel;

    open spec fn view(&self) -> SingleItemTypeReferenceBoxModel {
        SingleItemTypeReferenceBoxModel {
            large: self.large,
            header: self.header,
            from_item_id: self.from_item_id,
            reference_count: self.reference_count,
            to_item_id: self.to_item_id@,
        }
    }
}

impl VersionedWire for SingleItemTypeReferenceBox {
    /// A box header, then, in the width that version 1 of the item reference box makes
    /// 32 bits and the others 16, the referring item, a 16-bit count and that many
    /// referred items; the size in the header is not consulted.
    open spec fn spec_parse_v(s: Seq<u8>, version: u8) -> SpecParse<SingleItemTypeReferenceBoxModel> {
        match BoxHeader::spec_parse(s) {
            Ok((h, hl)) => {
                let large = version == 1;
                let w: int = if large { 4 } else { 2 };
                if s.len() < hl + w + 2 {
                    Err(IsoError::UnexpectedEof)
                } else {
                    let count = be_u16_at(s, hl + w);
                    match ids_parse(s.skip(hl + w + 2), count as nat, large) {
                        Ok((ids, k)) => Ok(
                            (
                                SingleItemTypeReferenceBoxModel {
                                    large,
                                    header: h,
                                    from_item_id: if large { be_u32_at(s, hl) } else { be_u16_at(s, hl) as u32 },
                                    reference_count: count,
                                    to_item_id: ids,
                                },
                                hl + w + 2 + k,
                            ),
                        ),
                        Err(e) => Err(e),
                    }
                }
            },
            Err(e) => Err(e),
        }
    }

    open spec fn spec_writable_v(v: SingleItemTypeReferenceBoxModel, version: u8) -> bool {
        true
    }

    /// The header as it is, then the fields in the width of the box's own form.
    open spec fn spec_serialize_v(v: SingleItemTypeReferenceBoxModel, version: u8) -> Seq<u8> {
        BoxHeader::spec_serialize(v.header) + (if v.large {
            u32_bytes(v.from_item_id)
        } else {
            u16_bytes(v.from_item_id as u16)
        }) + u16_bytes(v.reference_count) + ids_bytes(v.to_item_id, v.large)
    }

    /// The header reads back as itself, the form is that of the version, the count is
    /// the number of referred items, and the identifiers fit their width.
    open spec fn spec_canonical_v(v: SingleItemTypeReferenceBoxModel, version: u8) -> bool {
        &&& BoxHeader::spec_canonical(v.header)
        &&& v.large == (version == 1)
        &&& v.reference_count == v.to_item_id.len()
        &&& !v.large ==> v.from_item_id < 0x10000
        &&& !v.large ==> forall|i: int| 0 <= i < v.to_item_id.len() ==> #[trigger] v.to_item_id[i] < 0x10000
    }

    /// The header, then the fields in the width of the box's own form.
    open spec fn spec_size_v(v: SingleItemTypeReferenceBoxModel, version: u8) -> nat {
        v.header.header_len() + if v.large {
            6 + 4 * v.to_item_id.len()
        } else {
            4 + 2 * v.to_item_id.len()
        }
    }

    proof fn lemma_parse_len_v(s: Seq<u8>, version: u8) {
        BoxHeader::lemma_parse_len(s);
        if let Ok((h, hl)) = BoxHeader::spec_parse(s) {
            let w: int = if version == 1 { 4 } else { 2 };
            if s.len() >= hl + w + 2 {
                let count = be_u16_at(s, hl + w);
                lemma_parse_count_len::<u32>(s.skip(hl + w + 2), count as nat);
                lemma_parse_count_len::<u16>(s.skip(hl + w + 2), count as nat);
            }
        }
    }

    proof fn lemma_size_v(v: SingleItemTypeReferenceBoxModel, version: u8) {
        BoxHeader::lemma_size(v.header);
        if v.large {
            lemma_ser_seq_fixed::<u32>(v.to_item_id, 4);
        } else {
            lemma_ser_seq_fixed::<u16>(narrow_ids(v.to_item_id), 2);
        }
    }

    #[verifier::spinoff_prover]
    proof fn lemma_roundtrip_v(v: SingleItemTypeReferenceBoxModel, version: u8, rest: Seq<u8>) {
        let hs = BoxHeader::spec_serialize(v.header);
        let large = v.large;
        let w: int = if large { 4 } else { 2 };
        let from = if large { u32_bytes(v.from_item_id) } else { u16_bytes(v.from_item_id as u16) };
        let ids = ids_bytes(v.to_item_id, large);
        let s = Self::spec_serialize_v(v, version) + rest;
        BoxHeader::lemma_size(v.header);
        BoxHeader::lemma_roundtrip(v.header, from + u16_bytes(v.reference_count) + ids + rest);
        assert(s =~= hs + (from + u16_bytes(v.reference_count) + ids + rest));
        let hl = hs.len() as int;
        if large {
            assert(s.subrange(hl, hl + 4) =~= u32_bytes(v.from_item_id));
            lemma_u32_at(s, hl, v.from_item_id);
        } else {
            assert(s.subrange(hl, hl + 2) =~= u16_bytes(v.from_item_id as u16));
            lemma_u16_at(s, hl, v.from_item_id as u16);
            let f = v.from_item_id;
            assert((f as u16) as u32 == f) by (bit_vector)
                requires
                    f < 0x10000,
            ;
        }
        assert(s.subrange(hl + w, hl + w + 2) =~= u16_bytes(v.reference_count));
        lemma_u16_at(s, hl + w, v.reference_count);
        assert(s.skip(hl + w + 2) =~= ids + rest);
        if large {
            lemma_count_roundtrip::<u32>(v.to_item_id, rest);
        } else {
            lemma_count_roundtrip::<u16>(narrow_ids(v.to_item_id), rest);
            assert forall|i: int| 0 <= i < v.to_item_id.len() implies #[trigger] widen_ids(narrow_ids(v.to_item_id))[i]
                == v.to_item_id[i] by {
                let x = v.to_item_id[i];
                assert((x as u16) as u32 == x) by (bit_vector)
                    requires
                        x < 0x10000,
                ;
            }
            assert(widen_ids(narrow_ids(v.to_item_id)) =~= v.to_item_id);
        }
    }

    fn parse_v(data: &[u8], pos: usize, version: u8) -> (r: Result<(SingleItemTypeReferenceBox, usize), IsoError>) {
        let ghost s = data@.skip(pos as int);
        let (header, p) = BoxHeader::parse(data, pos)?;
        proof {
            BoxHeader::lemma_parse_len(s);
        }
        let large = version == 1;
        let w: usize = if large { 4 } else { 2 };
        if data.len() - p < w + 2 {
            return Err(IsoError::UnexpectedEof);
        }
        let from_item_id = if large { read_u32_at(data, p) } else { read_u16_at(data, p) as u32 };
        let reference_count = read_u16_at(data, p + w);
        proof {
            let hl = p - pos;
            assert(be_u32_at(s, hl) == be_u32_at(data@, p as int));
            assert(be_u16_at(s, hl) == be_u16_at(data@, p as int));
            assert(be_u16_at(s, hl + w) == be_u16_at(data@, p + w));
            assert(s.skip(hl + w + 2) =~= data@.skip(p + w + 2));
        }
        let (to_item_id, end) = if large {
            let (ids, end) = parse_counted::<u32>(data, p + w + 2, reference_count as usize)?;
            proof {
                assert(views(ids@) =~= ids@);
            }
            (ids, end)
        } else {
            let (narrow, end) = parse_counted::<u16>(data, p + w + 2, reference_count as usize)?;
            let mut wide: Vec<u32> = Vec::new();
            let mut i: usize = 0;
            while i < narrow.len()
                invariant
                    i <= narrow@.len(),
                    wide@ == widen_ids(narrow@.take(i as int)),
                decreases narrow@.len() - i,
            {
                wide.push(narrow[i] as u32);
                proof {
                    assert(widen_ids(narrow@.take(i + 1)) =~= widen_ids(narrow@.take(i as int)).push(narrow@[i as int] as u32));
                }
                i = i + 1;
            }
            proof {
                assert(narrow@.take(i as int) =~= narrow@);
                assert(views(narrow@) =~= narrow@);
            }
            (wide, end)
        };
        Ok((SingleItemTypeReferenceBox { large, header, from_item_id, reference_count, to_item_id }, end))
    }

    fn serialize_v(&self, out: &mut Vec<u8>, version: u8) -> (r: Result<(), IsoError>) {
        let ghost before = out@;
        let _ = self.header.serialize(out);
        if self.large {
            write_u32(out, self.from_item_id);
        } else {
            write_u16(out, self.from_item_id as u16);
        }
        write_u16(out, self.reference_count);
        if self.large {
            proof {
                assert(views(self.to_item_id@) =~= self.to_item_id@);
            }
            let _ = serialize_all(&self.to_item_id, out);
        } else {
            let mut narrow: Vec<u16> = Vec::new();
            let mut i: usize = 0;
            while i < self.to_item_id.len()
                invariant
                    i <= self.to_item_id@.len(),
                    narrow@ == narrow_ids(self.to_item_id@.take(i as int)),
                decreases self.to_item_id@.len() - i,
            {
                narrow.push(self.to_item_id[i] as u16);
                proof {
                    assert(narrow_ids(self.to_item_id@.take(i + 1)) =~= narrow_ids(self.to_item_id@.take(i as int)).push(self.to_item_id@[i as int] as u16));
                }
                i = i + 1;
            }
            proof {
                assert(self.to_item_id@.take(i as int) =~= self.to_item_id@);
                assert(views(narrow@) =~= narrow@);
            }
            let _ = serialize_all(&narrow, out);
        }
        proof {
            assert(out@ =~= before + Self::spec_serialize_v(self@, version));
            lemma_append_prefix(before, Self::spec_serialize_v(self@, version));
        }
        Ok(())
    }

    fn size_v(&self, version: u8) -> (n: usize) {
        if self.large {
            self.header.size() + 6 + 4 * self.to_item_id.len()
        } else {
            self.header.size() + 4 + 2 * self.to_item_id.len()
        }
    }
}

impl SingleItemTypeReferenceBox {
    /// The size of the box: its header and its fields in the width of its form.
    pub fn size(&self) -> (n: usize)
        requires
            SingleItemTypeReferenceBox::spec_size_v(self@, 0) <= usize::MAX,
        ensures
            n == SingleItemTypeReferenceBox::spec_size_v(self@, 0),
    {
        self.size_v(0)
    }
}

/// Item reference box
///
/// ISO/IEC 14496-12 - 8.11.12
#[derive(Debug)]
pub struct ItemReferenceBox {
    /// The full box header; version 1 has 32-bit identifiers.
    pub full_header: FullBoxHeader,
    /// The boxes of one reference type each, to the end of the box.
    pub references: Vec<SingleItemTypeReferenceBox>,
}

/// The model of an [`ItemReferenceBox`].
pub struct ItemReferenceBoxModel {
    pub full_header: FullBoxHeader,
    pub references: Seq<SingleItemTypeReferenceBoxModel>,
}

impl View for ItemReferenceBox {
    type V = ItemReferenceBoxModel;

    open spec fn view(&self) -> ItemReferenceBoxModel {
        ItemReferenceBoxModel { full_header: self.full_header, references: views(self.references@) }
    }
}

impl IsoSized for ItemReferenceBox {
    open spec fn spec_size(&self) -> nat {
        add_header_size(4 + size_seq_v::<SingleItemTypeReferenceBox>(views(self.references@), self.full_header.version))
    }

    fn size(&self) -> (n: usize) {
        proof {
            lemma_size_seq_v_mono::<SingleItemTypeReferenceBox>(views(self.references@), 0, self.full_header.version);
        }
        add_header_size_exec(4 + size_all_v(&self.references, self.full_header.version))
    }
}

impl BoxBody for ItemReferenceBox {
    open spec fn spec_box_type() -> [u8; 4] {
        [0x69u8, 0x72u8, 0x65u8, 0x66u8]
    }

    fn box_type() -> (r: [u8; 4]) {
        [0x69u8, 0x72u8, 0x65u8, 0x66u8]
    }

    /// The full header, then references until the box ends.
    open spec fn spec_parse_body(s: Seq<u8>) -> Result<ItemReferenceBoxModel, IsoError> {
        if s.len() < 4 {
            Err(IsoError::UnexpectedEof)
        } else {
            match parse_rest_v::<SingleItemTypeReferenceBox>(s.skip(4), s[0]) {
                Ok((refs, _)) => Ok(
                    ItemReferenceBoxModel {
                        full_header: FullBoxHeader { version: s[0], flags: be_u24_at(s, 1) },
                        references: refs,
                    },
                ),
                Err(e) => Err(e),
            }
        }
    }

    open spec fn spec_writable(v: ItemReferenceBoxModel) -> bool {
        true
    }

    open spec fn spec_serialize_body(v: ItemReferenceBoxModel) -> Seq<u8> {
        seq![v.full_header.version] + u24_bytes(v.full_header.flags) + ser_seq_v::<SingleItemTypeReferenceBox>(
            v.references,
            v.full_header.version,
        )
    }

    /// Every reference reads back as itself in the version of the box.
    open spec fn spec_canonical(v: ItemReferenceBoxModel) -> bool {
        &&& v.full_header.flags < 0x100_0000
        &&& canonical_seq_v::<SingleItemTypeReferenceBox>(v.references, v.full_header.version)
    }

    proof fn lemma_box_type() {
        assert(Self::spec_box_type()[0] != spec_uuid_fourcc()[0]);
    }

    proof fn lemma_body_size(x: ItemReferenceBox) {
        lemma_size_seq_v::<SingleItemTypeReferenceBox>(x@.references, x.full_header.version);
    }

    proof fn lemma_body_roundtrip(v: ItemReferenceBoxModel) {
        let s = Self::spec_serialize_body(v);
        assert(s.subrange(1, 4) =~= u24_bytes(v.full_header.flags));
        lemma_u24_at(s, 1, v.full_header.flags);
        assert(s.skip(4) =~= ser_seq_v::<SingleItemTypeReferenceBox>(v.references, v.full_header.version));
        BoxHeader::lemma_parse_len(Seq::<u8>::empty());
        lemma_rest_roundtrip_v::<SingleItemTypeReferenceBox>(v.references, v.full_header.version);
    }

    fn parse_body(d: &[u8]) -> (r: Result<ItemReferenceBox, IsoError>) {
        if d.len() < 4 {
            return Err(IsoError::UnexpectedEof);
        }
        let version = d[0];
        let flags = read_u24_at(d, 1);
        let (references, _end) = parse_remaining_v::<SingleItemTypeReferenceBox>(d, 4, version)?;
        Ok(ItemReferenceBox { full_header: FullBoxHeader { version, flags }, references })
    }

    fn serialize_body(&self, out: &mut Vec<u8>) -> (r: Result<(), IsoError>) {
        let ghost before = out@;
        write_u8(out, self.full_header.version);
        write_u24(out, self.full_header.flags);
        let _ = serialize_all_v(&self.references, out, self.full_header.version);
        proof {
            assert(out@ =~= before + Self::spec_serialize_body(self@));
            lemma_append_prefix(before, Self::spec_serialize_body(self@));
        }
        Ok(())
    }
}


/// Primary item box
///
/// ISO/IEC 14496-12 - 8.11.4
#[derive(Debug, Clone, Copy, PartialEq, Eq, Structural)]
pub struct PrimaryItemBox {
    /// The full box header; version 0 has a 16-bit identifier.
    pub full_header: FullBoxHeader,
    /// The primary item.
    pub item_id: u32,
}

impl View for PrimaryItemBox {
    type V = PrimaryItemBox;

    open spec fn view(&self) -> PrimaryItemBox {
        *self
    }
}

impl IsoSized for PrimaryItemBox {
    open spec fn spec_size(&self) -> nat {
        add_header_size(4 + id_width(self.full_header.version))
    }

    fn size(&self) -> (n: usize) {
        if self.full_header.version == 0 {
            add_header_size_exec(6)
        } else {
            add_header_size_exec(8)
        }
    }
}

impl BoxBody for PrimaryItemBox {
    open spec fn spec_box_type() -> [u8; 4] {
        [0x70u8, 0x69u8, 0x74u8, 0x6du8]
    }

    fn box_type() -> (r: [u8; 4]) {
        [0x70u8, 0x69u8, 0x74u8, 0x6du8]
    }

    /// The full header, then the item in the width of the version.
    open spec fn spec_parse_body(s: Seq<u8>) -> Result<PrimaryItemBox, IsoError> {
        if s.len() < 4 || s.len() < 4 + id_width(s[0]) {
            Err(IsoError::UnexpectedEof)
        } else {
            Ok(
                PrimaryItemBox {
                    full_header: FullBoxHeader { version: s[0], flags: be_u24_at(s, 1) },
                    item_id: versioned_u32_at(s, 4, s[0]),
                },
            )
        }
    }

    open spec fn spec_writable(v: PrimaryItemBox) -> bool {
        true
    }

    open spec fn spec_serialize_body(v: PrimaryItemBox) -> Seq<u8> {
        seq![v.full_header.version] + u24_bytes(v.full_header.flags) + versioned_u32_bytes(
            v.item_id,
            v.full_header.version,
        )
    }

    /// The identifier fits the width of the version.
    open spec fn spec_canonical(v: PrimaryItemBox) -> bool {
        v.full_header.flags < 0x100_0000 && versioned_u32_fits(v.item_id, v.full_header.version)
    }

    proof fn lemma_box_type() {
        assert(Self::spec_box_type()[0] != spec_uuid_fourcc()[0]);
    }

    proof fn lemma_body_size(x: PrimaryItemBox) {
        if x.full_header.version == 0 {
            assert(versioned_u32_bytes(x.item_id, 0).len() == 2);
        }
    }

    proof fn lemma_body_roundtrip(v: PrimaryItemBox) {
        let s = Self::spec_serialize_body(v);
        let w = id_width(v.full_header.version) as int;
        assert(s.subrange(1, 4) =~= u24_bytes(v.full_header.flags));
        lemma_u24_at(s, 1, v.full_header.flags);
        assert(s.subrange(4, 4 + w) =~= versioned_u32_bytes(v.item_id, v.full_header.version));
        lemma_versioned_u32_at(s, 4, v.item_id, v.full_header.version);
    }

    fn parse_body(d: &[u8]) -> (r: Result<PrimaryItemBox, IsoError>) {
        if d.len() < 4 {
            return Err(IsoError::UnexpectedEof);
        }
        let version = d[0];
        let w: usize = if version == 0 { 2 } else { 4 };
        if d.len() < 4 + w {
            return Err(IsoError::UnexpectedEof);
        }
        Ok(
            PrimaryItemBox {
                full_header: FullBoxHeader { version, flags: read_u24_at(d, 1) },
                item_id: read_versioned_u32_at(d, 4, version),
            },
        )
    }

    fn serialize_body(&self, out: &mut Vec<u8>) -> (r: Result<(), IsoError>) {
        let ghost before = out@;
        write_u8(out, self.full_header.version);
        write_u24(out, self.full_header.flags);
        write_versioned_u32(out, self.item_id, self.full_header.version);
        proof {
            assert(out@ =~= before + Self::spec_serialize_body(self@));
            lemma_append_prefix(before, Self::spec_serialize_body(self@));
        }
        Ok(())
    }
}

} // verus!
