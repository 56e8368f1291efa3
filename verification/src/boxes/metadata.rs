//! Metadata boxes (ISO/IEC 14496-12 - 8.11).

use vstd::arithmetic::power::pow;
use vstd::prelude::*;

use crate::codec::lemma_div_mod_step;

use crate::codec::{
    be_u16_at, be_u24_at, be_u32_at, be_uint, lemma_append_prefix, lemma_be_uint_bound, lemma_u16_at,
    lemma_u24_at, lemma_u32_at, lemma_uint_bytes_n, pad_to_u64, read_u16_at, read_u24_at, read_u32_at,
    u16_bytes, u24_bytes, u32_bytes, uint_bytes_n, write_u16, write_u24, write_u32, write_u8, write_uint_n,
    IsoError, SpecParse,
};
use crate::frame::{add_header_size, add_header_size_exec, BoxBody};
use crate::header::{spec_uuid_fourcc, FullBoxHeader};
use crate::wire::{write_matches, IsoSized};

verus! {

// ---------------------------------------------------------------------------
// Item location box.
// ---------------------------------------------------------------------------

/// The field widths of an item location box, which every item and extent of the box
/// is read and written with.
#[derive(Debug, Clone, Copy, PartialEq, Eq, Structural)]
pub struct ItemLocationLayout {
    /// The version of the box.
    pub version: u8,
    /// The number of bytes of each extent offset.
    pub offset_size: u8,
    /// The number of bytes of each extent length.
    pub length_size: u8,
    /// The number of bytes of each base offset.
    pub base_offset_size: u8,
    /// The number of bytes of each item reference index (versions 1 and 2).
    pub index_size: u8,
}

/// Whether extents carry an item reference index.
pub open spec fn has_index(l: ItemLocationLayout) -> bool {
    (l.version == 1 || l.version == 2) && l.index_size > 0
}

/// The number of bytes of an extent.
pub open spec fn extent_width(l: ItemLocationLayout) -> nat {
    (if has_index(l) { l.index_size as nat } else { 0nat }) + l.offset_size as nat + l.length_size as nat
}

/// The number of bytes of the item identifier: 16 bits before version 2, 32 bits in
/// version 2, absent after.
pub open spec fn item_id_width(version: u8) -> nat {
    if version < 2 { 2 } else if version == 2 { 4 } else { 0 }
}

/// Whether items have a construction method (versions 1 and 2).
pub open spec fn has_construction_method(version: u8) -> bool {
    version == 1 || version == 2
}

/// The number of bytes of an item before its extents.
pub open spec fn item_head_width(l: ItemLocationLayout) -> nat {
    item_id_width(l.version) + (if has_construction_method(l.version) { 2nat } else { 0nat }) + 2nat
        + l.base_offset_size as nat + 2nat
}

/// An extent of an item.
#[derive(Debug, Clone, Copy, PartialEq, Eq, Structural)]
pub struct ItemLocationBoxExtent {
    /// The index of the item reference that gives the data (versions 1 and 2).
    pub item_reference_index: Option<u64>,
    /// The offset of the extent from the base offset.
    pub extent_offset: u64,
    /// The length of the extent in bytes.
    pub extent_length: u64,
}

/// The extent at offset `i`.
pub open spec fn extent_at(s: Seq<u8>, i: int, l: ItemLocationLayout) -> ItemLocationBoxExtent {
    let iw: int = if has_index(l) { l.index_size as int } else { 0 };
    ItemLocationBoxExtent {
        item_reference_index: if has_index(l) { Some(be_uint(s.subrange(i, i + iw)) as u64) } else { None },
        extent_offset: be_uint(s.subrange(i + iw, i + iw + l.offset_size)) as u64,
        extent_length: be_uint(s.subrange(i + iw + l.offset_size, i + iw + l.offset_size + l.length_size))
            as u64,
    }
}

/// The bytes of an extent: each field in the low bytes of its width.
pub open spec fn extent_bytes(e: ItemLocationBoxExtent, l: ItemLocationLayout) -> Seq<u8> {
    (if has_index(l) { uint_bytes_n(e.item_reference_index.unwrap(), l.index_size as nat) } else {
        Seq::empty()
    }) + uint_bytes_n(e.extent_offset, l.offset_size as nat) + uint_bytes_n(e.extent_length, l.length_size as nat)
}

/// An extent that reads back as itself.
pub open spec fn extent_fits(e: ItemLocationBoxExtent, l: ItemLocationLayout) -> bool {
    &&& e.item_reference_index is Some == has_index(l)
    &&& (e.item_reference_index matches Some(x) ==> x < pow(256, l.index_size as nat))
    &&& e.extent_offset < pow(256, l.offset_size as nat)
    &&& e.extent_length < pow(256, l.length_size as nat)
}

pub proof fn lemma_extent_len(e: ItemLocationBoxExtent, l: ItemLocationLayout)
    ensures
        extent_bytes(e, l).len() == extent_width(l),
{
    if has_index(l) {
        lemma_uint_bytes_n(e.item_reference_index.unwrap(), l.index_size as nat);
    }
    lemma_uint_bytes_n(e.extent_offset, l.offset_size as nat);
    lemma_uint_bytes_n(e.extent_length, l.length_size as nat);
}

/// A number written in the low bytes of its width reads back.
pub proof fn lemma_uint_field(s: Seq<u8>, i: int, v: u64, n: nat)
    requires
        0 <= i,
        i + n <= s.len(),
        v < pow(256, n),
        s.subrange(i, i + n) == uint_bytes_n(v, n),
    ensures
        be_uint(s.subrange(i, i + n)) as u64 == v,
{
    lemma_uint_bytes_n(v, n);
    vstd::arithmetic::div_mod::lemma_small_mod(v as nat, pow(256, n) as nat);
}

pub proof fn lemma_extent_decode(s: Seq<u8>, i: int, e: ItemLocationBoxExtent, l: ItemLocationLayout)
    requires
        extent_fits(e, l),
        0 <= i,
        i + extent_width(l) <= s.len(),
        s.subrange(i, i + extent_width(l)) == extent_bytes(e, l),
    ensures
        extent_at(s, i, l) == e,
{
    lemma_extent_len(e, l);
    let t = s.subrange(i, i + extent_width(l));
    let iw: int = if has_index(l) { l.index_size as int } else { 0 };
    let os = l.offset_size as int;
    let ls = l.length_size as int;
    let a: Seq<u8> = if has_index(l) { uint_bytes_n(e.item_reference_index.unwrap(), l.index_size as nat) } else {
        Seq::empty()
    };
    if has_index(l) {
        lemma_uint_bytes_n(e.item_reference_index.unwrap(), l.index_size as nat);
    }
    let b = uint_bytes_n(e.extent_offset, l.offset_size as nat);
    let c = uint_bytes_n(e.extent_length, l.length_size as nat);
    lemma_uint_bytes_n(e.extent_offset, l.offset_size as nat);
    lemma_uint_bytes_n(e.extent_length, l.length_size as nat);
    assert(t =~= a + b + c);
    if has_index(l) {
        let x = e.item_reference_index.unwrap();
        assert(s.subrange(i, i + iw) =~= uint_bytes_n(x, l.index_size as nat)) by {
            assert forall|k: int| 0 <= k < iw implies s.subrange(i, i + iw)[k] == uint_bytes_n(
                x,
                l.index_size as nat,
            )[k] by {
                assert(t[k] == s[i + k]);
            }
        }
        lemma_uint_field(s, i, x, l.index_size as nat);
    }
    assert(s.subrange(i + iw, i + iw + os) =~= uint_bytes_n(e.extent_offset, l.offset_size as nat)) by {
        assert forall|k: int| 0 <= k < os implies s.subrange(i + iw, i + iw + os)[k] == uint_bytes_n(
            e.extent_offset,
            l.offset_size as nat,
        )[k] by {
            assert(t[iw + k] == s[i + iw + k]);
        }
    }
    lemma_uint_field(s, i + iw, e.extent_offset, l.offset_size as nat);
    assert(s.subrange(i + iw + os, i + iw + os + ls) =~= uint_bytes_n(e.extent_length, l.length_size as nat))
        by {
        assert forall|k: int| 0 <= k < ls implies s.subrange(i + iw + os, i + iw + os + ls)[k] == uint_bytes_n(
            e.extent_length,
            l.length_size as nat,
        )[k] by {
            assert(t[iw + os + k] == s[i + iw + os + k]);
        }
    }
    lemma_uint_field(s, i + iw + os, e.extent_length, l.length_size as nat);
}

/// The extents stored one after the other from offset `i`.
pub open spec fn extents_at(s: Seq<u8>, i: int, l: ItemLocationLayout, count: nat) -> Seq<ItemLocationBoxExtent> {
    Seq::new(count, |k: int| extent_at(s, i + k * extent_width(l), l))
}

/// The bytes of the extents, one after the other.
pub open spec fn extents_bytes(items: Seq<ItemLocationBoxExtent>, l: ItemLocationLayout) -> Seq<u8> {
    Seq::new(
        items.len() * extent_width(l),
        |i: int| extent_bytes(items[i / extent_width(l) as int], l)[i % extent_width(l) as int],
    )
}


pub proof fn lemma_extents_step(items: Seq<ItemLocationBoxExtent>, l: ItemLocationLayout, i: int)
    requires
        0 <= i < items.len(),
    ensures
        extents_bytes(items.take(i + 1), l) == extents_bytes(items.take(i), l) + extent_bytes(items[i], l),
{
    let w = extent_width(l) as int;
    lemma_extent_len(items[i], l);
    let a = extents_bytes(items.take(i + 1), l);
    let b = extents_bytes(items.take(i), l) + extent_bytes(items[i], l);
    if w == 0 {
        assert(a =~= b);
    } else {
        vstd::arithmetic::mul::lemma_mul_is_distributive_add_other_way(w, i, 1);
        assert forall|k: int| 0 <= k < a.len() implies a[k] == b[k] by {
            let q = k / w;
            vstd::arithmetic::div_mod::lemma_fundamental_div_mod(k, w);
            if k < i * w {
                vstd::arithmetic::mul::lemma_mul_strict_inequality_converse(q, i, w);
            } else {
                lemma_div_mod_step(i, w, k - i * w);
            }
        }
        assert(a =~= b);
    }
}

pub proof fn lemma_extents_region(s: Seq<u8>, i: int, items: Seq<ItemLocationBoxExtent>, l: ItemLocationLayout)
    requires
        forall|k: int| 0 <= k < items.len() ==> #[trigger] extent_fits(items[k], l),
        0 <= i,
        i + items.len() * extent_width(l) <= s.len(),
        s.subrange(i, i + items.len() * extent_width(l)) == extents_bytes(items, l),
    ensures
        extents_at(s, i, l, items.len()) == items,
{
    let w = extent_width(l) as int;
    assert forall|k: int| 0 <= k < items.len() implies #[trigger] extent_at(s, i + k * w, l) == items[k] by {
        lemma_extent_len(items[k], l);
        vstd::arithmetic::mul::lemma_mul_is_distributive_add_other_way(w, k, 1);
        vstd::arithmetic::mul::lemma_mul_inequality(k + 1, items.len() as int, w);
        vstd::arithmetic::mul::lemma_mul_nonnegative(k, w);
        assert(s.subrange(i + k * w, i + k * w + w) =~= extent_bytes(items[k], l)) by {
            assert forall|r: int| 0 <= r < w implies s.subrange(i + k * w, i + k * w + w)[r] == extent_bytes(
                items[k],
                l,
            )[r] by {
                lemma_div_mod_step(k, w, r);
                assert(s.subrange(i, i + items.len() * w)[k * w + r] == s[i + k * w + r]);
            }
        }
        lemma_extent_decode(s, i + k * w, items[k], l);
    }
    assert(extents_at(s, i, l, items.len()) =~= items);
}

/// An item of the item location box.
#[derive(Debug, PartialEq, Eq)]
pub struct ItemLocationBoxItem {
    /// The identifier of the item (absent after version 2).
    pub item_id: Option<u32>,
    /// How the item's data is found (versions 1 and 2).
    pub construction_method: Option<u8>,
    /// The data reference that holds the item's data (0: this file).
    pub data_reference_index: u16,
    /// The base offset of the extents.
    pub base_offset: u64,
    /// The number of extents.
    pub extent_count: u16,
    /// The extents.
    pub extents: Vec<ItemLocationBoxExtent>,
}

/// The model of an [`ItemLocationBoxItem`].
pub struct ItemLocationBoxItemModel {
    pub item_id: Option<u32>,
    pub construction_method: Option<u8>,
    pub data_reference_index: u16,
    pub base_offset: u64,
    pub extent_count: u16,
    pub extents: Seq<ItemLocationBoxExtent>,
}

impl View for ItemLocationBoxItem {
    type V = ItemLocationBoxItemModel;

    open spec fn view(&self) -> ItemLocationBoxItemModel {
        ItemLocationBoxItemModel {
            item_id: self.item_id,
            construction_method: self.construction_method,
            data_reference_index: self.data_reference_index,
            base_offset: self.base_offset,
            extent_count: self.extent_count,
            extents: self.extents@,
        }
    }
}

/// Offsets within an item: the construction method, the data reference index, the
/// base offset, the extent count and the extents.
pub open spec fn item_offsets(l: ItemLocationLayout) -> (int, int, int, int, int) {
    let p_cm = item_id_width(l.version) as int;
    let p_dri = p_cm + if has_construction_method(l.version) { 2int } else { 0 };
    let p_bo = p_dri + 2;
    let p_ec = p_bo + l.base_offset_size;
    let p_ex = p_ec + 2;
    (p_cm, p_dri, p_bo, p_ec, p_ex)
}

/// Reading an item at the start of `s`.
pub open spec fn item_parse(s: Seq<u8>, l: ItemLocationLayout) -> SpecParse<ItemLocationBoxItemModel> {
    let (p_cm, p_dri, p_bo, p_ec, p_ex) = item_offsets(l);
    if s.len() < p_ex {
        Err(IsoError::UnexpectedEof)
    } else {
        let count = be_u16_at(s, p_ec);
        let n = p_ex + count * extent_width(l);
        if s.len() < n {
            Err(IsoError::UnexpectedEof)
        } else {
            Ok((
                ItemLocationBoxItemModel {
                    item_id: if l.version < 2 {
                        Some(be_u16_at(s, 0) as u32)
                    } else if l.version == 2 {
                        Some(be_u32_at(s, 0))
                    } else {
                        None
                    },
                    construction_method: if has_construction_method(l.version) {
                        Some((be_u16_at(s, p_cm) & 0xf) as u8)
                    } else {
                        None
                    },
                    data_reference_index: be_u16_at(s, p_dri),
                    base_offset: be_uint(s.subrange(p_bo, p_ec)) as u64,
                    extent_count: count,
                    extents: extents_at(s, p_ex, l, count as nat),
                },
                n,
            ))
        }
    }
}

/// The bytes of an item; a 16-bit identifier is the low bits of the identifier.
pub open spec fn item_bytes(v: ItemLocationBoxItemModel, l: ItemLocationLayout) -> Seq<u8> {
    (if l.version < 2 {
        u16_bytes(v.item_id.unwrap() as u16)
    } else if l.version == 2 {
        u32_bytes(v.item_id.unwrap())
    } else {
        Seq::empty()
    }) + (if has_construction_method(l.version) {
        u16_bytes((v.construction_method.unwrap() & 0xf) as u16)
    } else {
        Seq::empty()
    }) + u16_bytes(v.data_reference_index) + uint_bytes_n(v.base_offset, l.base_offset_size as nat) + u16_bytes(
        v.extent_count,
    ) + extents_bytes(v.extents, l)
}

/// An item can be written when the fields the layout asks for are present.
pub open spec fn item_writable(v: ItemLocationBoxItemModel, l: ItemLocationLayout) -> bool {
    &&& l.version <= 2 ==> v.item_id is Some
    &&& has_construction_method(l.version) ==> v.construction_method is Some
    &&& forall|k: int| 0 <= k < v.extents.len() ==> (has_index(l) ==> (#[trigger] v.extents[k]).item_reference_index is Some)
}

/// An item that reads back as itself.
pub open spec fn item_fits(v: ItemLocationBoxItemModel, l: ItemLocationLayout) -> bool {
    &&& v.item_id is Some == (l.version <= 2)
    &&& (l.version < 2 ==> v.item_id.unwrap() < 0x10000)
    &&& v.construction_method is Some == has_construction_method(l.version)
    &&& (v.construction_method matches Some(c) ==> c < 16)
    &&& v.base_offset < pow(256, l.base_offset_size as nat)
    &&& v.extent_count == v.extents.len()
    &&& forall|k: int| 0 <= k < v.extents.len() ==> #[trigger] extent_fits(v.extents[k], l)
}

/// The size of an item in the layout.
pub open spec fn item_size(v: ItemLocationBoxItemModel, l: ItemLocationLayout) -> nat {
    item_head_width(l) + v.extents.len() * extent_width(l)
}

pub proof fn lemma_item_len(v: ItemLocationBoxItemModel, l: ItemLocationLayout)
    ensures
        item_bytes(v, l).len() == item_size(v, l),
{
    lemma_uint_bytes_n(v.base_offset, l.base_offset_size as nat);
}

#[verifier::rlimit(40)]
pub proof fn lemma_item_roundtrip(v: ItemLocationBoxItemModel, l: ItemLocationLayout, rest: Seq<u8>)
    requires
        item_fits(v, l),
    ensures
        item_parse(item_bytes(v, l) + rest, l) == Ok::<(ItemLocationBoxItemModel, int), IsoError>(
            (v, item_bytes(v, l).len() as int),
        ),
{
    lemma_item_len(v, l);
    let s = item_bytes(v, l) + rest;
    let (p_cm, p_dri, p_bo, p_ec, p_ex) = item_offsets(l);
    let w = extent_width(l) as int;
    let n = v.extents.len() as int;
    vstd::arithmetic::mul::lemma_mul_nonnegative(n, w);
    if l.version < 2 {
        let id = v.item_id.unwrap();
        assert(s.subrange(0, 2) =~= u16_bytes(id as u16));
        lemma_u16_at(s, 0, id as u16);
    } else if l.version == 2 {
        assert(s.subrange(0, 4) =~= u32_bytes(v.item_id.unwrap()));
        lemma_u32_at(s, 0, v.item_id.unwrap());
    }
    if has_construction_method(l.version) {
        let c = v.construction_method.unwrap();
        assert(s.subrange(p_cm, p_cm + 2) =~= u16_bytes((c & 0xf) as u16));
        lemma_u16_at(s, p_cm, (c & 0xf) as u16);
        assert((((c & 0xf) as u16) & 0xf) as u8 == c) by (bit_vector)
            requires
                c < 16,
        ;
    }
    assert(s.subrange(p_dri, p_dri + 2) =~= u16_bytes(v.data_reference_index));
    lemma_u16_at(s, p_dri, v.data_reference_index);
    lemma_uint_bytes_n(v.base_offset, l.base_offset_size as nat);
    assert(s.subrange(p_bo, p_ec) =~= uint_bytes_n(v.base_offset, l.base_offset_size as nat));
    lemma_uint_field(s, p_bo, v.base_offset, l.base_offset_size as nat);
    assert(s.subrange(p_ec, p_ec + 2) =~= u16_bytes(v.extent_count));
    lemma_u16_at(s, p_ec, v.extent_count);
    assert(s.subrange(p_ex, p_ex + n * w) =~= extents_bytes(v.extents, l));
    lemma_extents_region(s, p_ex, v.extents, l);
}

pub proof fn lemma_extent_at_skip(data: Seq<u8>, pos: int, p: int, l: ItemLocationLayout)
    requires
        0 <= pos <= p,
        p + extent_width(l) <= data.len(),
    ensures
        extent_at(data.skip(pos), p - pos, l) == extent_at(data, p, l),
{
    let s = data.skip(pos);
    let q = p - pos;
    let iw: int = if has_index(l) { l.index_size as int } else { 0 };
    let os = l.offset_size as int;
    let ls = l.length_size as int;
    assert(s.subrange(q, q + iw) =~= data.subrange(p, p + iw));
    assert(s.subrange(q + iw, q + iw + os) =~= data.subrange(p + iw, p + iw + os));
    assert(s.subrange(q + iw + os, q + iw + os + ls) =~= data.subrange(p + iw + os, p + iw + os + ls));
}

fn read_uint_n(data: &[u8], pos: usize, n: u8) -> (v: u64)
    requires
        n <= 8,
        pos + n <= data@.len(),
    ensures
        v == be_uint(data@.subrange(pos as int, pos + n)),
{
    assert(data@.len() == data.len());
    let bytes = &data[pos..pos + n as usize];
    assert(bytes@ =~= data@.subrange(pos as int, pos + n));
    pad_to_u64(bytes)
}

impl ItemLocationBoxExtent {
    /// Reads an extent of the layout at `pos`.
    pub fn parse_with(data: &[u8], pos: usize, l: ItemLocationLayout) -> (r: Result<(ItemLocationBoxExtent, usize), IsoError>)
        requires
            pos <= data@.len(),
            l.offset_size <= 8,
            l.length_size <= 8,
            has_index(l) ==> l.index_size <= 8,
        ensures
            match r {
                Ok((e, p)) => pos + extent_width(l) <= data@.len() && e == extent_at(data@, pos as int, l) && p == pos
                    + extent_width(l),
                Err(err) => err == IsoError::UnexpectedEof && data@.len() < pos + extent_width(l),
            },
    {
        let iw: u8 = if (l.version == 1 || l.version == 2) && l.index_size > 0 { l.index_size } else { 0 };
        let w = iw as usize + l.offset_size as usize + l.length_size as usize;
        if data.len() - pos < w {
            return Err(IsoError::UnexpectedEof);
        }
        let item_reference_index = if iw > 0 { Some(read_uint_n(data, pos, iw)) } else { None };
        let p = pos + iw as usize;
        let extent_offset = read_uint_n(data, p, l.offset_size);
        let extent_length = read_uint_n(data, p + l.offset_size as usize, l.length_size);
        proof {
            lemma_be_uint_bound(data@.subrange(pos as int, pos + iw));
        }
        Ok((ItemLocationBoxExtent { item_reference_index, extent_offset, extent_length }, pos + w))
    }

    /// Writes the extent with the widths of the layout; refused where the layout asks
    /// for an item reference index that the extent does not have.
    pub fn serialize(&self, out: &mut Vec<u8>, l: ItemLocationLayout) -> (r: Result<(), IsoError>)
        ensures
            write_matches(
                r,
                has_index(l) ==> self.item_reference_index is Some,
                extent_bytes(*self, l),
                old(out)@,
                final(out)@,
            ),
    {
        proof {
            assert(out@.subrange(0, out@.len() as int) =~= out@);
        }
        let ghost before = out@;
        if (l.version == 1 || l.version == 2) && l.index_size > 0 {
            match self.item_reference_index {
                Some(x) => write_uint_n(out, x, l.index_size),
                None => {
                    return Err(IsoError::InvalidData);
                },
            }
        }
        write_uint_n(out, self.extent_offset, l.offset_size);
        write_uint_n(out, self.extent_length, l.length_size);
        proof {
            assert(out@ =~= before + extent_bytes(*self, l));
            lemma_append_prefix(before, extent_bytes(*self, l));
        }
        Ok(())
    }

    /// The size of the extent in the box `parent`.
    pub fn size(&self, parent: &ItemLocationBox) -> (n: usize)
        ensures
            n == extent_width(parent.layout_spec()),
    {
        let l = parent.layout();
        let mut n: usize = 0;
        if (l.version == 1 || l.version == 2) && l.index_size > 0 {
            n = n + l.index_size as usize;
        }
        n + l.offset_size as usize + l.length_size as usize
    }
}

impl ItemLocationBoxItem {
    /// Reads an item of the layout at `pos`.
    #[verifier::rlimit(40)]
    pub fn parse_with(data: &[u8], pos: usize, l: ItemLocationLayout) -> (r: Result<(ItemLocationBoxItem, usize), IsoError>)
        requires
            pos <= data@.len(),
            l.offset_size <= 8,
            l.length_size <= 8,
            has_index(l) ==> l.index_size <= 8,
            l.base_offset_size <= 8,
        ensures
            match (item_parse(data@.skip(pos as int), l), r) {
                (Ok((v, n)), Ok((x, p))) => x@ == v && p == pos + n,
                (Err(e), Err(f)) => e == f,
                _ => false,
            },
    {
        let ghost s = data@.skip(pos as int);
        assert(data@.len() == data.len());
        let idw: usize = if l.version < 2 { 2 } else if l.version == 2 { 4 } else { 0 };
        let cmw: usize = if l.version == 1 || l.version == 2 { 2 } else { 0 };
        let head = idw + cmw + 2 + l.base_offset_size as usize + 2;
        if data.len() - pos < head {
            return Err(IsoError::UnexpectedEof);
        }
        let p_cm = pos + idw;
        let p_dri = p_cm + cmw;
        let p_bo = p_dri + 2;
        let item_id = if l.version < 2 {
            Some(read_u16_at(data, pos) as u32)
        } else if l.version == 2 {
            Some(read_u32_at(data, pos))
        } else {
            None
        };
        let construction_method = if cmw > 0 { Some((read_u16_at(data, p_cm) & 0xf) as u8) } else { None };
        let data_reference_index = read_u16_at(data, p_dri);
        let base_offset = read_uint_n(data, p_bo, l.base_offset_size);
        let p_ec = p_bo + l.base_offset_size as usize;
        let extent_count = read_u16_at(data, p_ec);
        proof {
            assert(data@.subrange(p_bo as int, p_ec as int) =~= s.subrange(p_bo - pos, p_ec - pos));
        }
        let ghost w = extent_width(l) as int;
        let ghost p_ex = (p_ec + 2) as int;
        let mut extents: Vec<ItemLocationBoxExtent> = Vec::new();
        let mut p = p_ec + 2;
        let mut k: u16 = 0;
        assert(extents@ =~= extents_at(s, p_ex - pos, l, 0));
        while k < extent_count
            invariant
                s == data@.skip(pos as int),
                w == extent_width(l),
                l.offset_size <= 8,
                l.length_size <= 8,
                has_index(l) ==> l.index_size <= 8,
                pos <= p_ex <= p <= data@.len(),
                p_ex - pos == item_offsets(l).4,
                s.len() >= item_offsets(l).4,
                extent_count == be_u16_at(s, item_offsets(l).3),
                k <= extent_count,
                p == p_ex + k * w,
                extents@ == extents_at(s, p_ex - pos, l, k as nat),
            decreases extent_count - k,
        {
            match ItemLocationBoxExtent::parse_with(data, p, l) {
                Ok((e, np)) => {
                    proof {
                        vstd::arithmetic::mul::lemma_mul_is_distributive_add_other_way(w, k as int, 1);
                        assert(e == extent_at(s, p_ex - pos + k * w, l)) by {
                            lemma_extent_at_skip(data@, pos as int, p as int, l);
                        }
                        assert(extents@.push(e) =~= extents_at(s, p_ex - pos, l, (k + 1) as nat));
                    }
                    extents.push(e);
                    p = np;
                    k = k + 1;
                },
                Err(e) => {
                    proof {
                        vstd::arithmetic::mul::lemma_mul_is_distributive_add_other_way(w, k as int, 1);
                        vstd::arithmetic::mul::lemma_mul_inequality(k + 1, extent_count as int, w);
                    }
                    return Err(e);
                },
            }
        }
        Ok((
            ItemLocationBoxItem {
                item_id,
                construction_method,
                data_reference_index,
                base_offset,
                extent_count,
                extents,
            },
            p,
        ))
    }

    /// Whether the item has every field that the layout asks for.
    pub fn writable(&self, l: ItemLocationLayout) -> (r: bool)
        ensures
            r == item_writable(self@, l),
    {
        if l.version <= 2 && self.item_id.is_none() {
            return false;
        }
        if (l.version == 1 || l.version == 2) && self.construction_method.is_none() {
            return false;
        }
        if (l.version == 1 || l.version == 2) && l.index_size > 0 {
            let mut i: usize = 0;
            while i < self.extents.len()
                invariant
                    has_index(l),
                    i <= self.extents@.len(),
                    forall|k: int| 0 <= k < i ==> (#[trigger] self.extents@[k]).item_reference_index is Some,
                decreases self.extents@.len() - i,
            {
                if self.extents[i].item_reference_index.is_none() {
                    return false;
                }
                i = i + 1;
            }
        }
        true
    }

    /// Writes the item with the widths of the layout; refused where a field that the
    /// layout asks for is missing.
    pub fn serialize(&self, out: &mut Vec<u8>, l: ItemLocationLayout) -> (r: Result<(), IsoError>)
        ensures
            write_matches(r, item_writable(self@, l), item_bytes(self@, l), old(out)@, final(out)@),
    {
        proof {
            assert(out@.subrange(0, out@.len() as int) =~= out@);
        }
        if !self.writable(l) {
            return Err(IsoError::InvalidData);
        }
        let ghost before = out@;
        if l.version < 2 {
            write_u16(out, self.item_id.unwrap() as u16);
        } else if l.version == 2 {
            write_u32(out, self.item_id.unwrap());
        }
        if l.version == 1 || l.version == 2 {
            write_u16(out, (self.construction_method.unwrap() & 0xf) as u16);
        }
        write_u16(out, self.data_reference_index);
        write_uint_n(out, self.base_offset, l.base_offset_size);
        write_u16(out, self.extent_count);
        let ghost head = out@;
        let mut i: usize = 0;
        proof {
            assert(self.extents@.take(0).len() == 0);
            assert(extents_bytes(self.extents@.take(0), l) =~= Seq::<u8>::empty());
            assert(out@ =~= head + extents_bytes(self.extents@.take(0), l));
        }
        while i < self.extents.len()
            invariant
                i <= self.extents@.len(),
                item_writable(self@, l),
                out@ == head + extents_bytes(self.extents@.take(i as int), l),
            decreases self.extents@.len() - i,
        {
            proof {
                lemma_extents_step(self.extents@, l, i as int);
            }
            let _ = self.extents[i].serialize(out, l);
            proof {
                assert(out@ =~= head + extents_bytes(self.extents@.take(i + 1), l));
            }
            i = i + 1;
        }
        proof {
            assert(self.extents@.take(i as int) =~= self.extents@);
            assert(out@ =~= before + item_bytes(self@, l));
            lemma_append_prefix(before, item_bytes(self@, l));
        }
        Ok(())
    }

    /// The size of the item in the box `parent`.
    pub fn size(&self, parent: &ItemLocationBox) -> (n: usize)
        requires
            item_size(self@, parent.layout_spec()) <= usize::MAX,
        ensures
            n == item_size(self@, parent.layout_spec()),
    {
        let l = parent.layout();
        let mut n: usize = 0;
        if l.version < 2 {
            n = n + 2;
        } else if l.version == 2 {
            n = n + 4;
        }
        if l.version == 1 || l.version == 2 {
            n = n + 2;
        }
        n = n + 2 + l.base_offset_size as usize + 2;
        let w = if (l.version == 1 || l.version == 2) && l.index_size > 0 { l.index_size as usize } else { 0 }
            + l.offset_size as usize + l.length_size as usize;
        proof {
            vstd::arithmetic::mul::lemma_mul_nonnegative(self.extents@.len() as int, w as int);
        }
        n + self.extents.len() * w
    }
}

/// The models of a list of items.
pub open spec fn item_models(v: Seq<ItemLocationBoxItem>) -> Seq<ItemLocationBoxItemModel> {
    v.map_values(|x: ItemLocationBoxItem| x@)
}

/// Reading `count` items one after the other.
pub open spec fn items_parse(s: Seq<u8>, l: ItemLocationLayout, count: nat) -> SpecParse<
    Seq<ItemLocationBoxItemModel>,
>
    decreases count,
{
    if count == 0 {
        Ok((Seq::empty(), 0))
    } else {
        match items_parse(s, l, (count - 1) as nat) {
            Ok((items, k)) => match item_parse(s.skip(k), l) {
                Ok((v, n)) => Ok((items.push(v), k + n)),
                Err(e) => Err(e),
            },
            Err(e) => Err(e),
        }
    }
}

/// The bytes of the items, one after the other.
pub open spec fn items_bytes(items: Seq<ItemLocationBoxItemModel>, l: ItemLocationLayout) -> Seq<u8>
    decreases items.len(),
{
    if items.len() == 0 {
        Seq::empty()
    } else {
        items_bytes(items.drop_last(), l) + item_bytes(items.last(), l)
    }
}

/// The sum of the sizes of the items.
pub open spec fn items_size(items: Seq<ItemLocationBoxItemModel>, l: ItemLocationLayout) -> nat
    decreases items.len(),
{
    if items.len() == 0 {
        0
    } else {
        items_size(items.drop_last(), l) + item_size(items.last(), l)
    }
}

pub proof fn lemma_items_parse_len(s: Seq<u8>, l: ItemLocationLayout, count: nat)
    ensures
        items_parse(s, l, count) matches Ok((items, k)) ==> items.len() == count && 0 <= k <= s.len(),
    decreases count,
{
    if count > 0 {
        lemma_items_parse_len(s, l, (count - 1) as nat);
    }
}

pub proof fn lemma_items_parse_err(s: Seq<u8>, l: ItemLocationLayout, i: nat, j: nat)
    requires
        i <= j,
        items_parse(s, l, i) is Err,
    ensures
        items_parse(s, l, j) == items_parse(s, l, i),
    decreases j,
{
    if j > i {
        lemma_items_parse_err(s, l, i, (j - 1) as nat);
    }
}

pub proof fn lemma_items_len(items: Seq<ItemLocationBoxItemModel>, l: ItemLocationLayout)
    ensures
        items_bytes(items, l).len() == items_size(items, l),
    decreases items.len(),
{
    if items.len() > 0 {
        lemma_items_len(items.drop_last(), l);
        lemma_item_len(items.last(), l);
    }
}

/// Reading back `items.len()` written items gives the items.
pub proof fn lemma_items_roundtrip(items: Seq<ItemLocationBoxItemModel>, l: ItemLocationLayout, rest: Seq<u8>)
    requires
        forall|i: int| 0 <= i < items.len() ==> #[trigger] item_fits(items[i], l),
    ensures
        items_parse(items_bytes(items, l) + rest, l, items.len()) == Ok::<
            (Seq<ItemLocationBoxItemModel>, int),
            IsoError,
        >((items, items_bytes(items, l).len() as int)),
    decreases items.len(),
{
    if items.len() == 0 {
        assert(items =~= Seq::<ItemLocationBoxItemModel>::empty());
    } else {
        let init = items.drop_last();
        let last = items.last();
        assert(item_fits(items[items.len() - 1], l));
        assert forall|i: int| 0 <= i < init.len() implies #[trigger] item_fits(init[i], l) by {
            assert(init[i] == items[i]);
        }
        let tail = item_bytes(last, l) + rest;
        lemma_items_roundtrip(init, l, tail);
        let s = items_bytes(items, l) + rest;
        assert(items_bytes(init, l) + tail =~= s);
        assert(s.skip(items_bytes(init, l).len() as int) =~= tail);
        lemma_item_roundtrip(last, l, rest);
        assert(init.push(last) =~= items);
    }
}

pub proof fn lemma_items_bytes_step(items: Seq<ItemLocationBoxItemModel>, l: ItemLocationLayout, i: int)
    requires
        0 <= i < items.len(),
    ensures
        items_bytes(items.take(i + 1), l) == items_bytes(items.take(i), l) + item_bytes(items[i], l),
        items_size(items.take(i + 1), l) == items_size(items.take(i), l) + item_size(items[i], l),
{
    assert(items.take(i + 1).drop_last() =~= items.take(i));
}

pub proof fn lemma_items_size_mono(items: Seq<ItemLocationBoxItemModel>, l: ItemLocationLayout, i: int)
    requires
        0 <= i <= items.len(),
    ensures
        items_size(items.take(i), l) <= items_size(items, l),
    decreases items.len() - i,
{
    if i < items.len() {
        lemma_items_bytes_step(items, l, i);
        lemma_items_size_mono(items, l, i + 1);
    } else {
        assert(items.take(i) =~= items);
    }
}

/// Item location box
///
/// ISO/IEC 14496-12 - 8.11.3
#[derive(Debug, PartialEq, Eq)]
pub struct ItemLocationBox {
    /// The version and flags of the box.
    pub full_header: FullBoxHeader,
    /// The number of bytes of each extent offset: 0, 4 or 8.
    pub offset_size: u8,
    /// The number of bytes of each extent length: 0, 4 or 8.
    pub length_size: u8,
    /// The number of bytes of each base offset: 0, 4 or 8.
    pub base_offset_size: u8,
    /// The number of bytes of each item reference index: 0, 4 or 8 (versions 1 and 2).
    pub index_size: u8,
    /// The number of items (absent after version 2).
    pub item_count: Option<u32>,
    /// The items.
    pub items: Vec<ItemLocationBoxItem>,
}

/// The model of an [`ItemLocationBox`].
pub struct ItemLocationBoxModel {
    pub full_header: FullBoxHeader,
    pub offset_size: u8,
    pub length_size: u8,
    pub base_offset_size: u8,
    pub index_size: u8,
    pub item_count: Option<u32>,
    pub items: Seq<ItemLocationBoxItemModel>,
}

impl View for ItemLocationBox {
    type V = ItemLocationBoxModel;

    open spec fn view(&self) -> ItemLocationBoxModel {
        ItemLocationBoxModel {
            full_header: self.full_header,
            offset_size: self.offset_size,
            length_size: self.length_size,
            base_offset_size: self.base_offset_size,
            index_size: self.index_size,
            item_count: self.item_count,
            items: item_models(self.items@),
        }
    }
}

/// The layout of a box model.
pub open spec fn iloc_layout(v: ItemLocationBoxModel) -> ItemLocationLayout {
    ItemLocationLayout {
        version: v.full_header.version,
        offset_size: v.offset_size,
        length_size: v.length_size,
        base_offset_size: v.base_offset_size,
        index_size: v.index_size,
    }
}

/// A byte size of 0, 4 or 8.
pub open spec fn valid_size(n: u8) -> bool {
    n == 0 || n == 4 || n == 8
}

/// The number of bytes of the item count.
pub open spec fn item_count_width(version: u8) -> int {
    if version < 2 { 2 } else if version == 2 { 4 } else { 0 }
}

/// Reading the payload of an item location box: sizes that are not 0, 4 or 8 are
/// refused as soon as they are read.
pub open spec fn iloc_parse(s: Seq<u8>) -> Result<ItemLocationBoxModel, IsoError> {
    if s.len() < 5 {
        Err(IsoError::UnexpectedEof)
    } else if !valid_size(s[4] >> 4u8) || !valid_size(s[4] & 0xf) {
        Err(IsoError::InvalidData)
    } else if s.len() < 6 {
        Err(IsoError::UnexpectedEof)
    } else if !valid_size(s[5] >> 4u8) || ((s[0] == 1 || s[0] == 2) && !valid_size(s[5] & 0xf)) {
        Err(IsoError::InvalidData)
    } else if s.len() < 6 + item_count_width(s[0]) {
        Err(IsoError::UnexpectedEof)
    } else {
        let version = s[0];
        let l = ItemLocationLayout {
            version,
            offset_size: s[4] >> 4u8,
            length_size: s[4] & 0xf,
            base_offset_size: s[5] >> 4u8,
            index_size: s[5] & 0xf,
        };
        let item_count: Option<u32> = if version < 2 {
            Some(be_u16_at(s, 6) as u32)
        } else if version == 2 {
            Some(be_u32_at(s, 6))
        } else {
            None
        };
        let count: nat = match item_count {
            Some(c) => c as nat,
            None => 0,
        };
        match items_parse(s.skip(6 + item_count_width(version)), l, count) {
            Ok((items, _)) => Ok(
                ItemLocationBoxModel {
                    full_header: FullBoxHeader { version, flags: be_u24_at(s, 1) },
                    offset_size: l.offset_size,
                    length_size: l.length_size,
                    base_offset_size: l.base_offset_size,
                    index_size: l.index_size,
                    item_count,
                    items,
                },
            ),
            Err(e) => Err(e),
        }
    }
}

/// The bytes of the payload of an item location box; the sizes are written in 4 bits
/// each, and a 16-bit count is the low bits of the count.
pub open spec fn iloc_bytes(v: ItemLocationBoxModel) -> Seq<u8> {
    seq![v.full_header.version] + u24_bytes(v.full_header.flags) + seq![
        ((v.offset_size & 0xf) << 4u8) | (v.length_size & 0xf),
        ((v.base_offset_size & 0xf) << 4u8) | (v.index_size & 0xf),
    ] + (if v.full_header.version < 2 {
        u16_bytes(v.item_count.unwrap() as u16)
    } else if v.full_header.version == 2 {
        u32_bytes(v.item_count.unwrap())
    } else {
        Seq::empty()
    }) + items_bytes(v.items, iloc_layout(v))
}

/// A box can be written when its sizes fit the field widths that the bit writer can
/// write, the count is present where the version asks for it, and every item can be.
pub open spec fn iloc_writable(v: ItemLocationBoxModel) -> bool {
    &&& v.offset_size <= 8 && v.length_size <= 8 && v.base_offset_size <= 8 && v.index_size <= 8
    &&& v.full_header.version <= 2 ==> v.item_count is Some
    &&& forall|i: int| 0 <= i < v.items.len() ==> #[trigger] item_writable(v.items[i], iloc_layout(v))
}

/// A box that reads back as itself.
pub open spec fn iloc_canonical(v: ItemLocationBoxModel) -> bool {
    &&& v.full_header.flags < 0x100_0000
    &&& valid_size(v.offset_size) && valid_size(v.length_size) && valid_size(v.base_offset_size)
    &&& v.index_size < 16
    &&& (v.full_header.version == 1 || v.full_header.version == 2) ==> valid_size(v.index_size)
    &&& v.item_count is Some == (v.full_header.version <= 2)
    &&& (v.full_header.version < 2 ==> v.item_count.unwrap() < 0x10000)
    &&& (v.item_count matches Some(c) ==> c == v.items.len())
    &&& (v.item_count is None ==> v.items.len() == 0)
    &&& forall|i: int| 0 <= i < v.items.len() ==> #[trigger] item_fits(v.items[i], iloc_layout(v))
}

impl ItemLocationBox {
    /// The layout of this box.
    pub open spec fn layout_spec(&self) -> ItemLocationLayout {
        iloc_layout(self@)
    }

    /// The layout of this box.
    pub fn layout(&self) -> (l: ItemLocationLayout)
        ensures
            l == self.layout_spec(),
    {
        ItemLocationLayout {
            version: self.full_header.version,
            offset_size: self.offset_size,
            length_size: self.length_size,
            base_offset_size: self.base_offset_size,
            index_size: self.index_size,
        }
    }
}

impl IsoSized for ItemLocationBox {
    open spec fn spec_size(&self) -> nat {
        add_header_size((6 + item_count_width(self.full_header.version) + items_size(self@.items, self.layout_spec())) as nat)
    }

    fn size(&self) -> (n: usize) {
        let l = self.layout();
        let ghost items = item_models(self.items@);
        let mut total: usize = 0;
        let mut i: usize = 0;
        proof {
            assert(items.take(0) =~= Seq::<ItemLocationBoxItemModel>::empty());
        }
        while i < self.items.len()
            invariant
                items == item_models(self.items@),
                l == self.layout_spec(),
                i <= self.items@.len(),
                total == items_size(items.take(i as int), l),
                items_size(items, l) <= usize::MAX,
            decreases self.items@.len() - i,
        {
            proof {
                lemma_items_bytes_step(items, l, i as int);
                lemma_items_size_mono(items, l, i + 1);
            }
            total = total + self.items[i].size(self);
            i = i + 1;
        }
        proof {
            assert(items.take(i as int) =~= items);
        }
        let c: usize = if l.version < 2 { 2 } else if l.version == 2 { 4 } else { 0 };
        add_header_size_exec(6 + c + total)
    }
}


/// Reads `count` items of the layout one after the other from `pos`.
fn parse_items(d: &[u8], pos: usize, l: ItemLocationLayout, count: u32) -> (r: Result<(Vec<ItemLocationBoxItem>, usize), IsoError>)
    requires
    pos <= d@.len(),
    l.offset_size <= 8,
    l.length_size <= 8,
    l.base_offset_size <= 8,
    has_index(l) ==> l.index_size <= 8,
    ensures
    match (items_parse(d@.skip(pos as int), l, count as nat), r) {
        (Ok((items, n)), Ok((v, p))) => item_models(v@) == items && p == pos + n,
        (Err(e), Err(f)) => e == f,
        _ => false,
    },
{
    let ghost s = d@.skip(pos as int);
    let mut items: Vec<ItemLocationBoxItem> = Vec::new();
    let mut p = pos;
    let mut i: u32 = 0;
    assert(item_models(items@) =~= Seq::<ItemLocationBoxItemModel>::empty());
    while i < count
        invariant
            s == d@.skip(pos as int),
            l.offset_size <= 8,
            l.length_size <= 8,
            l.base_offset_size <= 8,
            has_index(l) ==> l.index_size <= 8,
            pos <= p <= d@.len(),
            i <= count,
            items_parse(s, l, i as nat) == Ok::<(Seq<ItemLocationBoxItemModel>, int), IsoError>(
                (item_models(items@), p - pos),
            ),
        decreases count - i,
    {
        proof {
            lemma_items_parse_len(s, l, i as nat);
            assert(s.skip(p - pos) =~= d@.skip(p as int));
        }
        match ItemLocationBoxItem::parse_with(d, p, l) {
            Ok((item, np)) => {
                proof {
                    assert(item_models(items@.push(item)) =~= item_models(items@).push(item@));
                }
                items.push(item);
                p = np;
                i = i + 1;
            },
            Err(e) => {
                proof {
                    lemma_items_parse_err(s, l, (i + 1) as nat, count as nat);
                }
                return Err(e);
            },
        }
    }
    Ok((items, p))
}

impl BoxBody for ItemLocationBox {
    open spec fn spec_box_type() -> [u8; 4] {
        [0x69u8, 0x6cu8, 0x6fu8, 0x63u8]
    }

    fn box_type() -> (r: [u8; 4]) {
        [0x69u8, 0x6cu8, 0x6fu8, 0x63u8]
    }

    open spec fn spec_parse_body(s: Seq<u8>) -> Result<ItemLocationBoxModel, IsoError> {
        iloc_parse(s)
    }

    open spec fn spec_writable(v: ItemLocationBoxModel) -> bool {
        iloc_writable(v)
    }

    open spec fn spec_serialize_body(v: ItemLocationBoxModel) -> Seq<u8> {
        iloc_bytes(v)
    }

    open spec fn spec_canonical(v: ItemLocationBoxModel) -> bool {
        iloc_canonical(v)
    }

    proof fn lemma_box_type() {
        assert(Self::spec_box_type()[0] != spec_uuid_fourcc()[0]);
    }

    proof fn lemma_body_size(x: ItemLocationBox) {
        lemma_items_len(x@.items, x.layout_spec());
    }

    #[verifier::rlimit(60)]
    proof fn lemma_body_roundtrip(v: ItemLocationBoxModel) {
        let l = iloc_layout(v);
        let s = iloc_bytes(v);
        let version = v.full_header.version;
        let b4 = ((v.offset_size & 0xf) << 4u8) | (v.length_size & 0xf);
        let b5 = ((v.base_offset_size & 0xf) << 4u8) | (v.index_size & 0xf);
        let os = v.offset_size;
        let ls = v.length_size;
        let bos = v.base_offset_size;
        let is = v.index_size;
        assert((b4 >> 4u8) == os && (b4 & 0xf) == ls) by (bit_vector)
            requires
                b4 == ((os & 0xf) << 4u8) | (ls & 0xf),
                os < 16,
                ls < 16,
        ;
        assert((b5 >> 4u8) == bos && (b5 & 0xf) == is) by (bit_vector)
            requires
                b5 == ((bos & 0xf) << 4u8) | (is & 0xf),
                bos < 16,
                is < 16,
        ;
        assert(s[0] == version);
        assert(s[4] == b4);
        assert(s[5] == b5);
        assert(s.subrange(1, 4) =~= u24_bytes(v.full_header.flags));
        lemma_u24_at(s, 1, v.full_header.flags);
        let cw = item_count_width(version);
        if version < 2 {
            let c = v.item_count.unwrap();
            assert(s.subrange(6, 8) =~= u16_bytes(c as u16));
            lemma_u16_at(s, 6, c as u16);
        } else if version == 2 {
            assert(s.subrange(6, 10) =~= u32_bytes(v.item_count.unwrap()));
            lemma_u32_at(s, 6, v.item_count.unwrap());
        }
        assert(s.skip(6 + cw) =~= items_bytes(v.items, l) + Seq::<u8>::empty());
        lemma_items_roundtrip(v.items, l, Seq::<u8>::empty());
    }

    #[verifier::rlimit(40)]
    #[verifier::loop_isolation(false)]
    fn parse_body(d: &[u8]) -> (r: Result<ItemLocationBox, IsoError>) {
        if d.len() < 5 {
            return Err(IsoError::UnexpectedEof);
        }
        let version = d[0];
        let flags = read_u24_at(d, 1);
        let offset_size = d[4] >> 4u8;
        let length_size = d[4] & 0xf;
        if !(offset_size == 0 || offset_size == 4 || offset_size == 8) || !(length_size == 0 || length_size == 4
            || length_size == 8) {
            return Err(IsoError::InvalidData);
        }
        if d.len() < 6 {
            return Err(IsoError::UnexpectedEof);
        }
        let base_offset_size = d[5] >> 4u8;
        let index_size = d[5] & 0xf;
        if !(base_offset_size == 0 || base_offset_size == 4 || base_offset_size == 8) || ((version == 1 || version
            == 2) && !(index_size == 0 || index_size == 4 || index_size == 8)) {
            return Err(IsoError::InvalidData);
        }
        let cw: usize = if version < 2 { 2 } else if version == 2 { 4 } else { 0 };
        if d.len() < 6 + cw {
            return Err(IsoError::UnexpectedEof);
        }
        let item_count: Option<u32> = if version < 2 {
            Some(read_u16_at(d, 6) as u32)
        } else if version == 2 {
            Some(read_u32_at(d, 6))
        } else {
            None
        };
        let count: u32 = match item_count {
            Some(c) => c,
            None => 0,
        };
        let b5 = d[5];
        proof {
            assert((b5 & 0xf) <= 15) by (bit_vector);
        }
        let l = ItemLocationLayout { version, offset_size, length_size, base_offset_size, index_size };
        let pos = 6 + cw;
        let (items, _end) = parse_items(d, pos, l, count)?;
        Ok(ItemLocationBox {
            full_header: FullBoxHeader { version, flags },
            offset_size,
            length_size,
            base_offset_size,
            index_size,
            item_count,
            items,
        })
    }

    #[verifier::loop_isolation(false)]
    #[verifier::spinoff_prover]
    #[verifier::rlimit(40)]
    fn serialize_body(&self, out: &mut Vec<u8>) -> (r: Result<(), IsoError>) {
        proof {
            assert(out@.subrange(0, out@.len() as int) =~= out@);
        }
        let l = self.layout();
        if self.offset_size > 8 || self.length_size > 8 || self.base_offset_size > 8 || self.index_size > 8 {
            return Err(IsoError::InvalidData);
        }
        if l.version <= 2 && self.item_count.is_none() {
            return Err(IsoError::InvalidData);
        }
        let mut i: usize = 0;
        while i < self.items.len()
            invariant
                out@ == old(out)@,
                l == self.layout_spec(),
                i <= self.items@.len(),
                forall|j: int| 0 <= j < i ==> #[trigger] item_writable(item_models(self.items@)[j], l),
            decreases self.items@.len() - i,
        {
            if !self.items[i].writable(l) {
                proof {
                    assert(out@.subrange(0, out@.len() as int) =~= out@);
                    assert(item_models(self.items@)[i as int] == self.items@[i as int]@);
                }
                return Err(IsoError::InvalidData);
            }
            i = i + 1;
        }
        let ghost before = out@;
        write_u8(out, self.full_header.version);
        write_u24(out, self.full_header.flags);
        write_u8(out, ((self.offset_size & 0xf) << 4u8) | (self.length_size & 0xf));
        write_u8(out, ((self.base_offset_size & 0xf) << 4u8) | (self.index_size & 0xf));
        if l.version < 2 {
            write_u16(out, self.item_count.unwrap() as u16);
        } else if l.version == 2 {
            write_u32(out, self.item_count.unwrap());
        }
        let ghost head = out@;
        let ghost items = item_models(self.items@);
        let mut j: usize = 0;
        proof {
            assert(items.take(0) =~= Seq::<ItemLocationBoxItemModel>::empty());
            assert(out@ =~= head + items_bytes(items.take(0), l));
        }
        while j < self.items.len()
            invariant
                items == item_models(self.items@),
                l == self.layout_spec(),
                j <= self.items@.len(),
                forall|m: int| 0 <= m < items.len() ==> #[trigger] item_writable(items[m], l),
                out@ == head + items_bytes(items.take(j as int), l),
            decreases self.items@.len() - j,
        {
            proof {
                lemma_items_bytes_step(items, l, j as int);
            }
            let _ = self.items[j].serialize(out, l);
            proof {
                assert(out@ =~= head + items_bytes(items.take(j + 1), l));
            }
            j = j + 1;
        }
        proof {
            assert(items.take(j as int) =~= items);
            assert(out@ =~= before + iloc_bytes(self@));
            lemma_append_prefix(before, iloc_bytes(self@));
        }
        Ok(())
    }
}

} // verus!
