//! Item property associations (ISO/IEC 14496-12 - 8.11.14).

use vstd::prelude::*;

use crate::boxes::file_delivery::{
    id_width, lemma_versioned_u32_at, read_versioned_u32_at, versioned_u32_at, versioned_u32_bytes,
    versioned_u32_fits, write_versioned_u32,
};
use crate::codec::{
    be_u24_at, be_u32_at, lemma_append_prefix, lemma_prefix_trans, lemma_u24_at, lemma_u32_at, read_u24_at,
    read_u32_at, u24_bytes, u32_bytes, write_u24, write_u32, write_u8, IsoError, SpecParse,
};
use crate::frame::{add_header_size, add_header_size_exec, BoxBody};
use crate::header::{spec_uuid_fourcc, FullBoxHeader};
use crate::versioned::{
    canonical_seq_v, lemma_count_roundtrip_v, lemma_parse_count_v_len, lemma_size_seq_v, lemma_size_seq_v_mono,
    parse_count_v, parse_counted_v, ser_seq_v, serialize_all_v, size_all_v, size_seq_v, writable_seq_v,
    VersionedWire,
};
use crate::wire::{views, IsoSized};

verus! {

/// The layout of the entries of an item property association box, in one byte: bit 1
/// is set for 32-bit item identifiers (version 1 and above), bit 0 for 15-bit property
/// indexes (flag 1 set).
pub open spec fn ipma_layout(h: FullBoxHeader) -> u8 {
    ((if h.version >= 1 { 2int } else { 0int }) + h.flags % 2) as u8
}

/// The version whose item identifier width the layout has.
pub open spec fn ipma_id_version(layout: u8) -> u8 {
    if layout >= 2 { 1 } else { 0 }
}

/// Whether property indexes take 15 bits in `layout`.
pub open spec fn ipma_wide(layout: u8) -> bool {
    layout % 2 == 1
}

/// An association of a property with an item.
#[derive(Debug, Clone, Copy, PartialEq, Eq, Structural)]
pub struct ItemPropertyAssociationBoxEntryAssociation {
    /// Whether the property is essential to the item.
    pub essential: bool,
    /// The index of the property, from 1, or 0 for none.
    pub property_index: u16,
}

impl View for ItemPropertyAssociationBoxEntryAssociation {
    type V = ItemPropertyAssociationBoxEntryAssociation;

    open spec fn view(&self) -> ItemPropertyAssociationBoxEntryAssociation {
        *self
    }
}

/// The first byte of an association: the flag in the high bit and the high seven bits
/// of a 15-bit index below it.
pub open spec fn assoc_high_byte(flag: u8, index: u16) -> u8 {
    (flag << 7u8) | (((index >> 8u16) as u8) & 0x7f)
}

/// The byte of an association with a 7-bit index.
pub open spec fn assoc_byte(flag: u8, index: u16) -> u8 {
    (flag << 7u8) | ((index & 0x7f) as u8)
}

pub proof fn lemma_assoc_bytes(flag: u8, index: u16)
    by (bit_vector)
    requires
        flag < 2,
    ensures
        assoc_high_byte(flag, index) >> 7u8 == flag,
        assoc_byte(flag, index) >> 7u8 == flag,
        index < 0x8000 ==> ((((assoc_high_byte(flag, index) & 0x7f) as u16) << 8u16) | (((index & 0xff) as u8)
            as u16)) == index,
        index < 0x80 ==> ((assoc_byte(flag, index) & 0x7f) as u16) == index,
{
}

impl VersionedWire for ItemPropertyAssociationBoxEntryAssociation {
    open spec fn spec_parse_v(s: Seq<u8>, layout: u8) -> SpecParse<ItemPropertyAssociationBoxEntryAssociation> {
        if ipma_wide(layout) {
            if s.len() < 2 {
                Err(IsoError::UnexpectedEof)
            } else {
                Ok(
                    (
                        ItemPropertyAssociationBoxEntryAssociation {
                            essential: (s[0] >> 7u8) != 0,
                            property_index: (((s[0] & 0x7f) as u16) << 8u16) | (s[1] as u16),
                        },
                        2,
                    ),
                )
            }
        } else {
            if s.len() < 1 {
                Err(IsoError::UnexpectedEof)
            } else {
                Ok(
                    (
                        ItemPropertyAssociationBoxEntryAssociation {
                            essential: (s[0] >> 7u8) != 0,
                            property_index: (s[0] & 0x7f) as u16,
                        },
                        1,
                    ),
                )
            }
        }
    }

    open spec fn spec_writable_v(v: ItemPropertyAssociationBoxEntryAssociation, layout: u8) -> bool {
        true
    }

    open spec fn spec_serialize_v(v: ItemPropertyAssociationBoxEntryAssociation, layout: u8) -> Seq<u8> {
        let flag: u8 = if v.essential { 1 } else { 0 };
        if ipma_wide(layout) {
            seq![assoc_high_byte(flag, v.property_index), (v.property_index & 0xff) as u8]
        } else {
            seq![assoc_byte(flag, v.property_index)]
        }
    }

    /// The index fits its 15 or 7 bits.
    open spec fn spec_canonical_v(v: ItemPropertyAssociationBoxEntryAssociation, layout: u8) -> bool {
        if ipma_wide(layout) { v.property_index < 0x8000 } else { v.property_index < 0x80 }
    }

    open spec fn spec_size_v(v: ItemPropertyAssociationBoxEntryAssociation, layout: u8) -> nat {
        if ipma_wide(layout) { 2 } else { 1 }
    }

    proof fn lemma_parse_len_v(s: Seq<u8>, layout: u8) {
    }

    proof fn lemma_size_v(v: ItemPropertyAssociationBoxEntryAssociation, layout: u8) {
    }

    proof fn lemma_roundtrip_v(v: ItemPropertyAssociationBoxEntryAssociation, layout: u8, rest: Seq<u8>) {
        let flag: u8 = if v.essential { 1 } else { 0 };
        lemma_assoc_bytes(flag, v.property_index);
        let s = Self::spec_serialize_v(v, layout) + rest;
        if ipma_wide(layout) {
            assert(s[0] == assoc_high_byte(flag, v.property_index));
            assert(s[1] == (v.property_index & 0xff) as u8);
        } else {
            assert(s[0] == assoc_byte(flag, v.property_index));
        }
    }

    fn parse_v(data: &[u8], pos: usize, layout: u8) -> (r: Result<(ItemPropertyAssociationBoxEntryAssociation, usize), IsoError>) {
        if layout % 2 == 1 {
            if data.len() - pos < 2 {
                return Err(IsoError::UnexpectedEof);
            }
            let b = data[pos];
            Ok((
                ItemPropertyAssociationBoxEntryAssociation {
                    essential: (b >> 7u8) != 0,
                    property_index: (((b & 0x7f) as u16) << 8u16) | (data[pos + 1] as u16),
                },
                pos + 2,
            ))
        } else {
            if data.len() - pos < 1 {
                return Err(IsoError::UnexpectedEof);
            }
            let b = data[pos];
            Ok((
                ItemPropertyAssociationBoxEntryAssociation { essential: (b >> 7u8) != 0, property_index: (b & 0x7f) as u16 },
                pos + 1,
            ))
        }
    }

    fn serialize_v(&self, out: &mut Vec<u8>, layout: u8) -> (r: Result<(), IsoError>) {
        let ghost before = out@;
        let flag: u8 = if self.essential { 1 } else { 0 };
        if layout % 2 == 1 {
            write_u8(out, (flag << 7u8) | (((self.property_index >> 8u16) as u8) & 0x7f));
            write_u8(out, (self.property_index & 0xff) as u8);
        } else {
            write_u8(out, (flag << 7u8) | ((self.property_index & 0x7f) as u8));
        }
        proof {
            assert(out@ =~= before + Self::spec_serialize_v(self@, layout));
            lemma_append_prefix(before, Self::spec_serialize_v(self@, layout));
        }
        Ok(())
    }

    fn size_v(&self, layout: u8) -> (n: usize) {
        if layout % 2 == 1 {
            2
        } else {
            1
        }
    }
}

impl ItemPropertyAssociationBoxEntryAssociation {
    /// The size of the association in a box with `flags`: two bytes where flag 1 is set.
    pub fn size(&self, flags: u32) -> (n: usize)
        ensures
            n == (if flags % 2 == 1 { 2nat } else { 1nat }),
    {
        if flags % 2 == 1 {
            2
        } else {
            1
        }
    }
}

/// An entry of the item property association box: the properties of one item.
#[derive(Debug, PartialEq, Eq)]
pub struct ItemPropertyAssociationBoxEntry {
    /// The item: 16 bits in version 0, 32 bits otherwise.
    pub item_id: u32,
    /// The number of associations.
    pub association_count: u8,
    /// The associations.
    pub associations: Vec<ItemPropertyAssociationBoxEntryAssociation>,
}

/// The model of an [`ItemPropertyAssociationBoxEntry`].
pub struct ItemPropertyAssociationBoxEntryModel {
    pub item_id: u32,
    pub association_count: u8,
    pub associations: Seq<ItemPropertyAssociationBoxEntryAssociation>,
}

impl View for ItemPropertyAssociationBoxEntry {
    type V = ItemPropertyAssociationBoxEntryModel;

    open spec fn view(&self) -> ItemPropertyAssociationBoxEntryModel {
        ItemPropertyAssociationBoxEntryModel {
            item_id: self.item_id,
            association_count: self.association_count,
            associations: views(self.associations@),
        }
    }
}

impl VersionedWire for ItemPropertyAssociationBoxEntry {
    /// The item, the count, then that many associations.
    open spec fn spec_parse_v(s: Seq<u8>, layout: u8) -> SpecParse<ItemPropertyAssociationBoxEntryModel> {
        let w = id_width(ipma_id_version(layout)) as int;
        if s.len() < w + 1 {
            Err(IsoError::UnexpectedEof)
        } else {
            match parse_count_v::<ItemPropertyAssociationBoxEntryAssociation>(s.skip(w + 1), s[w] as nat, layout) {
                Ok((assocs, n)) => Ok(
                    (
                        ItemPropertyAssociationBoxEntryModel {
                            item_id: versioned_u32_at(s, 0, ipma_id_version(layout)),
                            association_count: s[w],
                            associations: assocs,
                        },
                        w + 1 + n,
                    ),
                ),
                Err(e) => Err(e),
            }
        }
    }

    open spec fn spec_writable_v(v: ItemPropertyAssociationBoxEntryModel, layout: u8) -> bool {
        true
    }

    open spec fn spec_serialize_v(v: ItemPropertyAssociationBoxEntryModel, layout: u8) -> Seq<u8> {
        versioned_u32_bytes(v.item_id, ipma_id_version(layout)) + seq![v.association_count] + ser_seq_v::<
            ItemPropertyAssociationBoxEntryAssociation,
        >(v.associations, layout)
    }

    /// The item fits its width, and the count is the number of associations.
    open spec fn spec_canonical_v(v: ItemPropertyAssociationBoxEntryModel, layout: u8) -> bool {
        &&& versioned_u32_fits(v.item_id, ipma_id_version(layout))
        &&& v.associations.len() == v.association_count
        &&& canonical_seq_v::<ItemPropertyAssociationBoxEntryAssociation>(v.associations, layout)
    }

    open spec fn spec_size_v(v: ItemPropertyAssociationBoxEntryModel, layout: u8) -> nat {
        id_width(ipma_id_version(layout)) + 1 + size_seq_v::<ItemPropertyAssociationBoxEntryAssociation>(
            v.associations,
            layout,
        )
    }

    proof fn lemma_parse_len_v(s: Seq<u8>, layout: u8) {
        let w = id_width(ipma_id_version(layout)) as int;
        if s.len() >= w + 1 {
            lemma_parse_count_v_len::<ItemPropertyAssociationBoxEntryAssociation>(s.skip(w + 1), s[w] as nat, layout);
        }
    }

    proof fn lemma_size_v(v: ItemPropertyAssociationBoxEntryModel, layout: u8) {
        lemma_size_seq_v::<ItemPropertyAssociationBoxEntryAssociation>(v.associations, layout);
        if ipma_id_version(layout) == 0 {
            assert(versioned_u32_bytes(v.item_id, 0).len() == 2);
        }
    }

    proof fn lemma_roundtrip_v(v: ItemPropertyAssociationBoxEntryModel, layout: u8, rest: Seq<u8>) {
        let iv = ipma_id_version(layout);
        let w = id_width(iv) as int;
        let a = ser_seq_v::<ItemPropertyAssociationBoxEntryAssociation>(v.associations, layout);
        let s = Self::spec_serialize_v(v, layout) + rest;
        assert(s.subrange(0, w) =~= versioned_u32_bytes(v.item_id, iv));
        lemma_versioned_u32_at(s, 0, v.item_id, iv);
        assert(s[w] == v.association_count);
        assert(s.skip(w + 1) =~= a + rest);
        lemma_count_roundtrip_v::<ItemPropertyAssociationBoxEntryAssociation>(v.associations, layout, rest);
    }

    fn parse_v(data: &[u8], pos: usize, layout: u8) -> (r: Result<(ItemPropertyAssociationBoxEntry, usize), IsoError>) {
        let iv: u8 = if layout >= 2 { 1 } else { 0 };
        let w: usize = if iv == 0 { 2 } else { 4 };
        if data.len() - pos < w + 1 {
            return Err(IsoError::UnexpectedEof);
        }
        let d = vstd::slice::slice_subrange(data, pos, data.len());
        proof {
            assert(d@ =~= data@.skip(pos as int));
        }
        let item_id = read_versioned_u32_at(d, 0, iv);
        let association_count = d[w];
        let (associations, end) = parse_counted_v::<ItemPropertyAssociationBoxEntryAssociation>(
            d,
            w + 1,
            association_count as usize,
            layout,
        )?;
        proof {
            lemma_parse_count_v_len::<ItemPropertyAssociationBoxEntryAssociation>(
                d@.skip((w + 1) as int),
                association_count as nat,
                layout,
            );
        }
        Ok((ItemPropertyAssociationBoxEntry { item_id, association_count, associations }, pos + end))
    }

    fn serialize_v(&self, out: &mut Vec<u8>, layout: u8) -> (r: Result<(), IsoError>) {
        let ghost before = out@;
        let iv: u8 = if layout >= 2 { 1 } else { 0 };
        write_versioned_u32(out, self.item_id, iv);
        write_u8(out, self.association_count);
        let _ = serialize_all_v(&self.associations, out, layout);
        proof {
            assert(out@ =~= before + Self::spec_serialize_v(self@, layout));
            lemma_append_prefix(before, Self::spec_serialize_v(self@, layout));
        }
        Ok(())
    }

    fn size_v(&self, layout: u8) -> (n: usize) {
        let w: usize = if layout >= 2 { 4 } else { 2 };
        w + 1 + size_all_v(&self.associations, layout)
    }
}

impl ItemPropertyAssociationBoxEntry {
    /// The size of the entry in a box with `header`.
    pub fn size(&self, header: &FullBoxHeader) -> (n: usize)
        requires
            ItemPropertyAssociationBoxEntry::spec_size_v(self@, ipma_layout(*header)) <= usize::MAX,
        ensures
            n == ItemPropertyAssociationBoxEntry::spec_size_v(self@, ipma_layout(*header)),
    {
        let layout: u8 = (if header.version >= 1 { 2u8 } else { 0u8 }) + (header.flags % 2) as u8;
        self.size_v(layout)
    }
}

/// Item property association box
///
/// ISO/IEC 14496-12 - 8.11.14
#[derive(Debug, PartialEq, Eq)]
pub struct ItemPropertyAssociationBox {
    /// The version and flags of the box; they set the widths of the fields of the entries.
    pub full_header: FullBoxHeader,
    /// The number of entries.
    pub entry_count: u32,
    /// The entries.
    pub entries: Vec<ItemPropertyAssociationBoxEntry>,
}

/// The model of an [`ItemPropertyAssociationBox`].
pub struct ItemPropertyAssociationBoxModel {
    pub full_header: FullBoxHeader,
    pub entry_count: u32,
    pub entries: Seq<ItemPropertyAssociationBoxEntryModel>,
}

impl View for ItemPropertyAssociationBox {
    type V = ItemPropertyAssociationBoxModel;

    open spec fn view(&self) -> ItemPropertyAssociationBoxModel {
        ItemPropertyAssociationBoxModel {
            full_header: self.full_header,
            entry_count: self.entry_count,
            entries: views(self.entries@),
        }
    }
}

impl IsoSized for ItemPropertyAssociationBox {
    open spec fn spec_size(&self) -> nat {
        add_header_size(8 + size_seq_v::<ItemPropertyAssociationBoxEntry>(views(self.entries@), ipma_layout(self.full_header)))
    }

    fn size(&self) -> (n: usize) {
        let layout: u8 = (if self.full_header.version >= 1 { 2u8 } else { 0u8 }) + (self.full_header.flags % 2) as u8;
        add_header_size_exec(8 + size_all_v(&self.entries, layout))
    }
}

impl BoxBody for ItemPropertyAssociationBox {
    open spec fn spec_box_type() -> [u8; 4] {
        [0x69u8, 0x70u8, 0x6du8, 0x61u8]
    }

    fn box_type() -> (r: [u8; 4]) {
        [0x69u8, 0x70u8, 0x6du8, 0x61u8]
    }

    /// The full header, the count, then that many entries in the layout that the
    /// version and flags give.
    open spec fn spec_parse_body(s: Seq<u8>) -> Result<ItemPropertyAssociationBoxModel, IsoError> {
        if s.len() < 8 {
            Err(IsoError::UnexpectedEof)
        } else {
            let h = FullBoxHeader { version: s[0], flags: be_u24_at(s, 1) };
            match parse_count_v::<ItemPropertyAssociationBoxEntry>(s.skip(8), be_u32_at(s, 4) as nat, ipma_layout(h)) {
                Ok((entries, _)) => Ok(
                    ItemPropertyAssociationBoxModel { full_header: h, entry_count: be_u32_at(s, 4), entries },
                ),
                Err(e) => Err(e),
            }
        }
    }

    open spec fn spec_writable(v: ItemPropertyAssociationBoxModel) -> bool {
        true
    }

    open spec fn spec_serialize_body(v: ItemPropertyAssociationBoxModel) -> Seq<u8> {
        seq![v.full_header.version] + u24_bytes(v.full_header.flags) + u32_bytes(v.entry_count) + ser_seq_v::<
            ItemPropertyAssociationBoxEntry,
        >(v.entries, ipma_layout(v.full_header))
    }

    /// The count is the number of entries, and every entry fits the layout.
    open spec fn spec_canonical(v: ItemPropertyAssociationBoxModel) -> bool {
        &&& v.full_header.flags < 0x100_0000
        &&& v.entries.len() == v.entry_count
        &&& canonical_seq_v::<ItemPropertyAssociationBoxEntry>(v.entries, ipma_layout(v.full_header))
    }

    proof fn lemma_box_type() {
        assert(Self::spec_box_type()[0] != spec_uuid_fourcc()[0]);
    }

    proof fn lemma_body_size(x: ItemPropertyAssociationBox) {
        lemma_size_seq_v::<ItemPropertyAssociationBoxEntry>(x@.entries, ipma_layout(x.full_header));
    }

    proof fn lemma_body_roundtrip(v: ItemPropertyAssociationBoxModel) {
        let s = Self::spec_serialize_body(v);
        assert(s.subrange(1, 4) =~= u24_bytes(v.full_header.flags));
        lemma_u24_at(s, 1, v.full_header.flags);
        assert(s.subrange(4, 8) =~= u32_bytes(v.entry_count));
        lemma_u32_at(s, 4, v.entry_count);
        let e = ser_seq_v::<ItemPropertyAssociationBoxEntry>(v.entries, ipma_layout(v.full_header));
        assert(s.skip(8) =~= e + Seq::<u8>::empty());
        lemma_count_roundtrip_v::<ItemPropertyAssociationBoxEntry>(
            v.entries,
            ipma_layout(v.full_header),
            Seq::<u8>::empty(),
        );
    }

    fn parse_body(d: &[u8]) -> (r: Result<ItemPropertyAssociationBox, IsoError>) {
        if d.len() < 8 {
            return Err(IsoError::UnexpectedEof);
        }
        let full_header = FullBoxHeader { version: d[0], flags: read_u24_at(d, 1) };
        let entry_count = read_u32_at(d, 4);
        let layout: u8 = (if full_header.version >= 1 { 2u8 } else { 0u8 }) + (full_header.flags % 2) as u8;
        let (entries, _end) = parse_counted_v::<ItemPropertyAssociationBoxEntry>(d, 8, entry_count as usize, layout)?;
        Ok(ItemPropertyAssociationBox { full_header, entry_count, entries })
    }

    fn serialize_body(&self, out: &mut Vec<u8>) -> (r: Result<(), IsoError>) {
        let ghost before = out@;
        write_u8(out, self.full_header.version);
        write_u24(out, self.full_header.flags);
        write_u32(out, self.entry_count);
        let layout: u8 = (if self.full_header.version >= 1 { 2u8 } else { 0u8 }) + (self.full_header.flags % 2) as u8;
        let _ = serialize_all_v(&self.entries, out, layout);
        proof {
            assert(out@ =~= before + Self::spec_serialize_body(self@));
            lemma_append_prefix(before, Self::spec_serialize_body(self@));
        }
        Ok(())
    }
}

} // verus!
