//! The type-specific information of an item information entry (ISO/IEC 14496-12 - 8.11.6).

use vstd::prelude::*;

use crate::codec::{
    be_u16_at, be_u24_at, be_u32_at, be_u64_at, fourcc_at, fourcc_eq, lemma_append_prefix, lemma_fourcc_at,
    lemma_u16_at, lemma_u24_at, lemma_u32_at, lemma_u64_at, lemma_wide_bytes_len, read_fourcc_at, read_u16_at,
    read_u24_at, read_u32_at, read_u64_at, u16_bytes, u24_bytes, u32_bytes, u64_bytes, write_bytes,
    write_fourcc, write_u16, write_u24, write_u32, write_u64, write_u8, IsoError, SpecParse,
};
use crate::common_types::{string_bytes, Utf8String};
use crate::boxes::file_delivery::{
    id_width, lemma_versioned_u32_at, read_versioned_u32_at, versioned_u32_at, versioned_u32_bytes,
    versioned_u32_fits, write_versioned_u32,
};
use crate::frame::{
    add_header_size, add_header_size_exec, box_bytes, frame_header, lemma_box_bytes_roundtrip, parse_box,
    serialize_box, spec_parse_box, spec_serialize_box, BoxBody,
};
use crate::header::{spec_uuid_fourcc, BoxHeader, FullBoxHeader};
use crate::wire::{
    lemma_count_roundtrip, lemma_ser_seq_fixed, lemma_views_push, parse_count, parse_counted, ser_seq,
    serialize_all, views, writable_seq, IsoSized, Wire,
};

verus! {

/// The item type of MIME items.
pub open spec fn mime_type() -> [u8; 4] {
    [0x6du8, 0x69u8, 0x6du8, 0x65u8]
}

/// The item type of URI items.
pub open spec fn uri_type() -> [u8; 4] {
    [0x75u8, 0x72u8, 0x69u8, 0x20u8]
}

/// The information that an item information entry holds for MIME and URI items.
#[derive(Debug)]
pub enum ItemInfoEntryItem {
    /// A MIME item.
    Mime {
        /// The MIME type of the item, after content decoding.
        content_type: Utf8String,
        /// The content encoding of the item, empty for none.
        content_encoding: Utf8String,
    },
    /// A URI item.
    Uri {
        /// An absolute URI that serves as the type of the item.
        item_uri_type: Utf8String,
    },
}

/// The model of an [`ItemInfoEntryItem`].
pub enum ItemInfoEntryItemModel {
    Mime { content_type: Seq<char>, content_encoding: Seq<char> },
    Uri { item_uri_type: Seq<char> },
}

impl View for ItemInfoEntryItem {
    type V = ItemInfoEntryItemModel;

    open spec fn view(&self) -> ItemInfoEntryItemModel {
        match self {
            ItemInfoEntryItem::Mime { content_type, content_encoding } => ItemInfoEntryItemModel::Mime {
                content_type: content_type@,
                content_encoding: content_encoding@,
            },
            ItemInfoEntryItem::Uri { item_uri_type } => ItemInfoEntryItemModel::Uri { item_uri_type: item_uri_type@ },
        }
    }
}

/// The item type that an item's information goes with.
pub open spec fn item_info_type(v: ItemInfoEntryItemModel) -> [u8; 4] {
    match v {
        ItemInfoEntryItemModel::Mime { .. } => mime_type(),
        ItemInfoEntryItemModel::Uri { .. } => uri_type(),
    }
}

/// Reading the information of an item of `item_type`: two strings for a MIME item, one
/// for a URI item, nothing for any other type.
pub open spec fn item_info_parse(s: Seq<u8>, item_type: [u8; 4]) -> SpecParse<Option<ItemInfoEntryItemModel>> {
    if item_type == mime_type() {
        match Utf8String::spec_parse(s) {
            Ok((a, n)) => match Utf8String::spec_parse(s.skip(n)) {
                Ok((b, m)) => Ok(
                    (Some(ItemInfoEntryItemModel::Mime { content_type: a, content_encoding: b }), n + m),
                ),
                Err(e) => Err(e),
            },
            Err(e) => Err(e),
        }
    } else if item_type == uri_type() {
        match Utf8String::spec_parse(s) {
            Ok((a, n)) => Ok((Some(ItemInfoEntryItemModel::Uri { item_uri_type: a }), n)),
            Err(e) => Err(e),
        }
    } else {
        Ok((None, 0))
    }
}

/// The bytes of the information.
pub open spec fn item_info_bytes(v: ItemInfoEntryItemModel) -> Seq<u8> {
    match v {
        ItemInfoEntryItemModel::Mime { content_type, content_encoding } => Utf8String::spec_serialize(content_type)
            + Utf8String::spec_serialize(content_encoding),
        ItemInfoEntryItemModel::Uri { item_uri_type } => Utf8String::spec_serialize(item_uri_type),
    }
}

/// No string holds a zero byte.
pub open spec fn item_info_canonical(v: ItemInfoEntryItemModel) -> bool {
    match v {
        ItemInfoEntryItemModel::Mime { content_type, content_encoding } => Utf8String::spec_canonical(content_type)
            && Utf8String::spec_canonical(content_encoding),
        ItemInfoEntryItemModel::Uri { item_uri_type } => Utf8String::spec_canonical(item_uri_type),
    }
}

/// The size of the information.
pub open spec fn item_info_size(x: ItemInfoEntryItem) -> nat {
    match x {
        ItemInfoEntryItem::Mime { content_type, content_encoding } => content_type.spec_size()
            + content_encoding.spec_size(),
        ItemInfoEntryItem::Uri { item_uri_type } => item_uri_type.spec_size(),
    }
}

/// Written information reads back as itself for its item type.
pub proof fn lemma_item_info_roundtrip(v: ItemInfoEntryItemModel, rest: Seq<u8>)
    requires
        item_info_canonical(v),
    ensures
        item_info_parse(item_info_bytes(v) + rest, item_info_type(v)) == Ok::<
            (Option<ItemInfoEntryItemModel>, int),
            IsoError,
        >((Some(v), item_info_bytes(v).len() as int)),
{
    broadcast use vstd::array::group_array_axioms;
    assert(mime_type() != uri_type()) by {
        assert(mime_type()[0] != uri_type()[0]);
    }
    match v {
        ItemInfoEntryItemModel::Mime { content_type, content_encoding } => {
            let a = Utf8String::spec_serialize(content_type);
            let b = Utf8String::spec_serialize(content_encoding);
            let s = item_info_bytes(v) + rest;
            assert(s =~= a + (b + rest));
            Utf8String::lemma_roundtrip(content_type, b + rest);
            assert(s.skip(a.len() as int) =~= b + rest);
            Utf8String::lemma_roundtrip(content_encoding, rest);
        },
        ItemInfoEntryItemModel::Uri { item_uri_type } => {
            Utf8String::lemma_roundtrip(item_uri_type, rest);
        },
    }
}

/// The written information is as long as its size.
pub proof fn lemma_item_info_size(x: ItemInfoEntryItem)
    ensures
        item_info_bytes(x@).len() == item_info_size(x),
{
    match x {
        ItemInfoEntryItem::Mime { content_type, content_encoding } => {
            Utf8String::lemma_size(content_type);
            Utf8String::lemma_size(content_encoding);
        },
        ItemInfoEntryItem::Uri { item_uri_type } => {
            Utf8String::lemma_size(item_uri_type);
        },
    }
}

impl ItemInfoEntryItem {
    /// Reads the information of an item of `item_type` at `pos`.
    pub fn parse_for(data: &[u8], pos: usize, item_type: [u8; 4]) -> (r: Result<(Option<ItemInfoEntryItem>, usize), IsoError>)
        requires
            pos <= data@.len(),
        ensures
            match (item_info_parse(data@.skip(pos as int), item_type), r) {
                (Ok((m, n)), Ok((x, p))) => p == pos + n && match (m, x) {
                    (Some(a), Some(b)) => b@ == a,
                    (None, None) => true,
                    _ => false,
                },
                (Err(e), Err(f)) => e == f,
                _ => false,
            },
    {
        if fourcc_eq(item_type, [0x6du8, 0x69u8, 0x6du8, 0x65u8]) {
            let (content_type, p) = Utf8String::parse(data, pos)?;
            proof {
                Utf8String::lemma_parse_len(data@.skip(pos as int));
                assert(data@.skip(pos as int).skip(p - pos) =~= data@.skip(p as int));
            }
            let (content_encoding, q) = Utf8String::parse(data, p)?;
            Ok((Some(ItemInfoEntryItem::Mime { content_type, content_encoding }), q))
        } else if fourcc_eq(item_type, [0x75u8, 0x72u8, 0x69u8, 0x20u8]) {
            let (item_uri_type, p) = Utf8String::parse(data, pos)?;
            Ok((Some(ItemInfoEntryItem::Uri { item_uri_type }), p))
        } else {
            Ok((None, pos))
        }
    }

    /// Writes the information.
    pub fn serialize(&self, out: &mut Vec<u8>)
        ensures
            final(out)@ == old(out)@ + item_info_bytes(self@),
    {
        let ghost before = out@;
        match self {
            ItemInfoEntryItem::Mime { content_type, content_encoding } => {
                let _ = content_type.serialize(out);
                let _ = content_encoding.serialize(out);
            },
            ItemInfoEntryItem::Uri { item_uri_type } => {
                let _ = item_uri_type.serialize(out);
            },
        }
        assert(out@ =~= before + item_info_bytes(self@));
    }

    /// The size of the information.
    pub fn size(&self) -> (n: usize)
        requires
            item_info_size(*self) <= usize::MAX,
        ensures
            n == item_info_size(*self),
    {
        match self {
            ItemInfoEntryItem::Mime { content_type, content_encoding } => content_type.size() + content_encoding.size(),
            ItemInfoEntryItem::Uri { item_uri_type } => item_uri_type.size(),
        }
    }
}


/// The extension type of file delivery information.
pub open spec fn fdel_type() -> [u8; 4] {
    [0x66u8, 0x64u8, 0x65u8, 0x6cu8]
}

/// The extension of an item information entry.
#[derive(Debug)]
pub enum ItemInfoExtension {
    /// File delivery information (`fdel`).
    FDItemInfoExtension {
        /// The URI of the file.
        current_location: Utf8String,
        /// The MD5 digest of the file.
        current_md5: Utf8String,
        /// The length of the file before content encoding, in bytes.
        content_length: u64,
        /// The length of the file as transferred, in bytes.
        transfer_length: u64,
        /// The number of entries in `group_id`.
        entry_count: u8,
        /// The file groups that the file belongs to.
        group_id: Vec<u32>,
    },
    /// Any other extension.
    Other {
        /// The four-character code of the extension.
        extension_type: [u8; 4],
        /// The fields of the extension.
        data: Vec<u8>,
    },
}

/// The model of an [`ItemInfoExtension`].
pub enum ItemInfoExtensionModel {
    FDItemInfoExtension {
        current_location: Seq<char>,
        current_md5: Seq<char>,
        content_length: u64,
        transfer_length: u64,
        entry_count: u8,
        group_id: Seq<u32>,
    },
    Other { extension_type: [u8; 4], data: Seq<u8> },
}

impl View for ItemInfoExtension {
    type V = ItemInfoExtensionModel;

    open spec fn view(&self) -> ItemInfoExtensionModel {
        match self {
            ItemInfoExtension::FDItemInfoExtension {
                current_location,
                current_md5,
                content_length,
                transfer_length,
                entry_count,
                group_id,
            } => ItemInfoExtensionModel::FDItemInfoExtension {
                current_location: current_location@,
                current_md5: current_md5@,
                content_length: *content_length,
                transfer_length: *transfer_length,
                entry_count: *entry_count,
                group_id: group_id@,
            },
            ItemInfoExtension::Other { extension_type, data } => ItemInfoExtensionModel::Other {
                extension_type: *extension_type,
                data: data@,
            },
        }
    }
}

/// Reading an extension of type `t` that runs to the end of `s`: for `fdel`, two
/// strings, two 64-bit lengths, an 8-bit count and that many 32-bit group
/// identifiers; for any other type, all the bytes.
pub open spec fn item_info_extension_parse(s: Seq<u8>, t: [u8; 4]) -> Result<ItemInfoExtensionModel, IsoError> {
    if t == fdel_type() {
        match Utf8String::spec_parse(s) {
            Ok((loc, a)) => match Utf8String::spec_parse(s.skip(a)) {
                Ok((md5, b)) => if s.len() < a + b + 17 {
                    Err(IsoError::UnexpectedEof)
                } else {
                    let p = a + b;
                    match parse_count::<u32>(s.skip(p + 17), s[p + 16] as nat) {
                        Ok((ids, _)) => Ok(
                            ItemInfoExtensionModel::FDItemInfoExtension {
                                current_location: loc,
                                current_md5: md5,
                                content_length: be_u64_at(s, p),
                                transfer_length: be_u64_at(s, p + 8),
                                entry_count: s[p + 16],
                                group_id: ids,
                            },
                        ),
                        Err(e) => Err(e),
                    }
                },
                Err(e) => Err(e),
            },
            Err(e) => Err(e),
        }
    } else {
        Ok(ItemInfoExtensionModel::Other { extension_type: t, data: s })
    }
}

/// The bytes written for an extension; an extension of another type writes its
/// type in front of its fields.
pub open spec fn item_info_extension_bytes(v: ItemInfoExtensionModel) -> Seq<u8> {
    match v {
        ItemInfoExtensionModel::FDItemInfoExtension {
            current_location,
            current_md5,
            content_length,
            transfer_length,
            entry_count,
            group_id,
        } => Utf8String::spec_serialize(current_location) + Utf8String::spec_serialize(current_md5) + u64_bytes(
            content_length,
        ) + u64_bytes(transfer_length) + seq![entry_count] + ser_seq::<u32>(group_id),
        ItemInfoExtensionModel::Other { extension_type, data } => extension_type@ + data,
    }
}

/// The size that an extension reports: the fields for `fdel`, the data alone for
/// another type.
pub open spec fn item_info_extension_size(v: ItemInfoExtensionModel) -> nat {
    match v {
        ItemInfoExtensionModel::FDItemInfoExtension { current_location, current_md5, group_id, .. } => Utf8String::spec_serialize(
            current_location,
        ).len() + Utf8String::spec_serialize(current_md5).len() + 17 + 4 * group_id.len(),
        ItemInfoExtensionModel::Other { data, .. } => 4 + data.len(),
    }
}

/// The type of an extension.
pub open spec fn item_info_extension_type(v: ItemInfoExtensionModel) -> [u8; 4] {
    match v {
        ItemInfoExtensionModel::FDItemInfoExtension { .. } => fdel_type(),
        ItemInfoExtensionModel::Other { extension_type, .. } => extension_type,
    }
}

/// File delivery information whose strings hold no zero byte and whose count is the
/// number of group identifiers; an extension of another type does not read back as
/// itself, since its type is written twice.
pub open spec fn item_info_extension_canonical(v: ItemInfoExtensionModel) -> bool {
    match v {
        ItemInfoExtensionModel::FDItemInfoExtension { current_location, current_md5, entry_count, group_id, .. } => {
            &&& Utf8String::spec_canonical(current_location)
            &&& Utf8String::spec_canonical(current_md5)
            &&& group_id.len() == entry_count
        },
        ItemInfoExtensionModel::Other { .. } => false,
    }
}

/// A file delivery extension reads back as itself.
pub proof fn lemma_item_info_extension_roundtrip(v: ItemInfoExtensionModel)
    requires
        item_info_extension_canonical(v),
    ensures
        item_info_extension_parse(item_info_extension_bytes(v), item_info_extension_type(v)) == Ok::<
            ItemInfoExtensionModel,
            IsoError,
        >(v),
        item_info_extension_bytes(v).len() == item_info_extension_size(v),
{
    match v {
        ItemInfoExtensionModel::FDItemInfoExtension {
            current_location,
            current_md5,
            content_length,
            transfer_length,
            entry_count,
            group_id,
        } => {
            let a = Utf8String::spec_serialize(current_location);
            let b = Utf8String::spec_serialize(current_md5);
            let ids = ser_seq::<u32>(group_id);
            let tail = u64_bytes(content_length) + u64_bytes(transfer_length) + seq![entry_count] + ids;
            let s = item_info_extension_bytes(v);
            lemma_wide_bytes_len(content_length, 0);
            lemma_wide_bytes_len(transfer_length, 0);
            assert(s =~= a + (b + tail));
            Utf8String::lemma_roundtrip(current_location, b + tail);
            assert(s.skip(a.len() as int) =~= b + tail);
            Utf8String::lemma_roundtrip(current_md5, tail);
            let p = (a.len() + b.len()) as int;
            assert(s.subrange(p, p + 8) =~= u64_bytes(content_length));
            lemma_u64_at(s, p, content_length);
            assert(s.subrange(p + 8, p + 16) =~= u64_bytes(transfer_length));
            lemma_u64_at(s, p + 8, transfer_length);
            assert(s[p + 16] == entry_count);
            assert(s.skip(p + 17) =~= ids + Seq::<u8>::empty());
            lemma_count_roundtrip::<u32>(group_id, Seq::<u8>::empty());
            assert forall|i: int| 0 <= i < group_id.len() implies (#[trigger] u32::spec_serialize(group_id[i])).len()
                == 4 by {
                u32::lemma_size(group_id[i]);
            }
            lemma_ser_seq_fixed::<u32>(group_id, 4);
        },
        ItemInfoExtensionModel::Other { .. } => {},
    }
}

impl ItemInfoExtension {
    /// Reads an extension of type `t` that runs from `pos` to the end of `data`.
    pub fn parse_for(data: &[u8], pos: usize, t: [u8; 4]) -> (r: Result<ItemInfoExtension, IsoError>)
        requires
            pos <= data@.len(),
        ensures
            match (item_info_extension_parse(data@.skip(pos as int), t), r) {
                (Ok(v), Ok(x)) => x@ == v,
                (Err(e), Err(f)) => e == f,
                _ => false,
            },
    {
        let ghost s = data@.skip(pos as int);
        if fourcc_eq(t, [0x66u8, 0x64u8, 0x65u8, 0x6cu8]) {
            let (current_location, p) = Utf8String::parse(data, pos)?;
            proof {
                Utf8String::lemma_parse_len(s);
                assert(s.skip(p - pos) =~= data@.skip(p as int));
            }
            let (current_md5, q) = Utf8String::parse(data, p)?;
            proof {
                Utf8String::lemma_parse_len(data@.skip(p as int));
            }
            if data.len() - q < 17 {
                return Err(IsoError::UnexpectedEof);
            }
            let content_length = read_u64_at(data, q);
            let transfer_length = read_u64_at(data, q + 8);
            let entry_count = data[q + 16];
            proof {
                let k = (q - pos) as int;
                assert(be_u64_at(s, k) == be_u64_at(data@, q as int)) by {
                    reveal(be_u64_at);
                    assert(s.skip(k) =~= data@.skip(q as int));
                }
                assert(be_u64_at(s, k + 8) == be_u64_at(data@, q + 8)) by {
                    reveal(be_u64_at);
                    assert(s.skip(k + 8) =~= data@.skip(q + 8));
                }
                assert(s.skip(k + 17) =~= data@.skip(q + 17));
            }
            let (group_id, _end) = parse_counted::<u32>(data, q + 17, entry_count as usize)?;
            proof {
                assert(views(group_id@) =~= group_id@);
            }
            Ok(
                ItemInfoExtension::FDItemInfoExtension {
                    current_location,
                    current_md5,
                    content_length,
                    transfer_length,
                    entry_count,
                    group_id,
                },
            )
        } else {
            let d = vstd::slice::slice_subrange(data, pos, data.len());
            let data_vec = vstd::slice::slice_to_vec(d);
            proof {
                assert(data_vec@ =~= s);
            }
            Ok(ItemInfoExtension::Other { extension_type: t, data: data_vec })
        }
    }

    /// Writes the extension.
    pub fn serialize(&self, out: &mut Vec<u8>)
        ensures
            final(out)@ == old(out)@ + item_info_extension_bytes(self@),
    {
        let ghost before = out@;
        match self {
            ItemInfoExtension::FDItemInfoExtension {
                current_location,
                current_md5,
                content_length,
                transfer_length,
                entry_count,
                group_id,
            } => {
                let _ = current_location.serialize(out);
                let _ = current_md5.serialize(out);
                write_u64(out, *content_length);
                write_u64(out, *transfer_length);
                write_u8(out, *entry_count);
                let ghost mid = out@;
                let _ = serialize_all(group_id, out);
                proof {
                    assert(views(group_id@) =~= group_id@);
                    assert(writable_seq::<u32>(group_id@));
                }
            },
            ItemInfoExtension::Other { extension_type, data } => {
                write_fourcc(out, *extension_type);
                write_bytes(out, data.as_slice());
            },
        }
        assert(out@ =~= before + item_info_extension_bytes(self@));
    }

    /// The size that the extension reports.
    pub fn size(&self) -> (n: usize)
        requires
            item_info_extension_size(self@) <= usize::MAX,
        ensures
            n == item_info_extension_size(self@),
    {
        match self {
            ItemInfoExtension::FDItemInfoExtension { current_location, current_md5, group_id, .. } => {
                proof {
                    Utf8String::lemma_size(*current_location);
                    Utf8String::lemma_size(*current_md5);
                }
                current_location.size() + current_md5.size() + 17 + 4 * group_id.len()
            },
            ItemInfoExtension::Other { data, .. } => 4 + data.len(),
        }
    }
}


/// Reading information of an item of `item_type` consumes no more than its input.
pub proof fn lemma_item_info_parse_len(s: Seq<u8>, item_type: [u8; 4])
    ensures
        item_info_parse(s, item_type) matches Ok((_, n)) ==> 0 <= n <= s.len(),
{
    Utf8String::lemma_parse_len(s);
    if let Ok((_, n)) = Utf8String::spec_parse(s) {
        Utf8String::lemma_parse_len(s.skip(n));
    }
}

// ---------------------------------------------------------------------------
// Item information entries.
// ---------------------------------------------------------------------------

/// The width of the item identifier in an entry of `version`: 16 bits up to version
/// 2, 32 bits in version 3, none after.
pub open spec fn infe_id_width(version: u8) -> int {
    if version <= 2 { 2 } else if version == 3 { 4 } else { 0 }
}

/// The width of the item type in an entry of `version`: versions 0 and 1 have no
/// item type field, their items being MIME items.
pub open spec fn infe_type_width(version: u8) -> int {
    if version <= 1 { 0 } else { 4 }
}

/// The item identifier of an entry of `version`, at offset 4.
pub open spec fn infe_id_at(s: Seq<u8>, version: u8) -> Option<u32> {
    if version <= 2 {
        Some(be_u16_at(s, 4) as u32)
    } else if version == 3 {
        Some(be_u32_at(s, 4))
    } else {
        None
    }
}

/// Item information entry
///
/// ISO/IEC 14496-12 - 8.11.6
#[derive(Debug)]
pub struct ItemInfoEntry {
    /// The full box header.
    pub full_header: FullBoxHeader,
    /// The item that the entry describes, 0 for the primary resource; versions above 3
    /// have none.
    pub item_id: Option<u32>,
    /// 0 for an unprotected item, or the index, from 1, of its protection in the item
    /// protection box.
    pub item_protection_index: u16,
    /// The type of the item, such as `mime`.
    pub item_type: [u8; 4],
    /// The symbolic name of the item.
    pub item_name: Utf8String,
    /// The information of MIME and URI items.
    pub item: Option<ItemInfoEntryItem>,
    /// The type of the extension (version 1).
    pub extension_type: Option<[u8; 4]>,
    /// The extension (version 1).
    pub extension: Option<ItemInfoExtension>,
}

/// The model of an [`ItemInfoEntry`].
pub struct ItemInfoEntryModel {
    pub full_header: FullBoxHeader,
    pub item_id: Option<u32>,
    pub item_protection_index: u16,
    pub item_type: [u8; 4],
    pub item_name: Seq<char>,
    pub item: Option<ItemInfoEntryItemModel>,
    pub extension_type: Option<[u8; 4]>,
    pub extension: Option<ItemInfoExtensionModel>,
}

impl View for ItemInfoEntry {
    type V = ItemInfoEntryModel;

    open spec fn view(&self) -> ItemInfoEntryModel {
        ItemInfoEntryModel {
            full_header: self.full_header,
            item_id: self.item_id,
            item_protection_index: self.item_protection_index,
            item_type: self.item_type,
            item_name: self.item_name@,
            item: match self.item {
                Some(i) => Some(i@),
                None => None,
            },
            extension_type: self.extension_type,
            extension: match self.extension {
                Some(e) => Some(e@),
                None => None,
            },
        }
    }
}

/// The bytes of optional item information.
pub open spec fn opt_item_info_bytes(item: Option<ItemInfoEntryItemModel>) -> Seq<u8> {
    match item {
        Some(i) => item_info_bytes(i),
        None => Seq::empty(),
    }
}

/// The bytes of the item identifier of an entry of version 2 or more.
pub open spec fn infe_id_bytes(item_id: Option<u32>, version: u8) -> Seq<u8> {
    if version == 2 {
        u16_bytes(item_id.unwrap() as u16)
    } else if version == 3 {
        u32_bytes(item_id.unwrap())
    } else {
        Seq::empty()
    }
}

/// The extension fields of an entry of version 1.
pub open spec fn infe_extension_bytes(v: ItemInfoEntryModel) -> Seq<u8> {
    (match v.extension_type {
        Some(t) => t@,
        None => Seq::empty(),
    }) + (match v.extension {
        Some(e) => item_info_extension_bytes(e),
        None => Seq::empty(),
    })
}

/// The payload of an entry: versions 0 and 1 write a 16-bit identifier, the protection
/// index, the name and the MIME information (and in version 1 the extension); later
/// versions write the identifier in its width, the protection index, the item type,
/// the name and the information of the item.
pub open spec fn infe_fields_bytes(v: ItemInfoEntryModel) -> Seq<u8> {
    let version = v.full_header.version;
    if version <= 1 {
        u16_bytes(v.item_id.unwrap() as u16) + u16_bytes(v.item_protection_index) + Utf8String::spec_serialize(
            v.item_name,
        ) + opt_item_info_bytes(v.item) + (if version == 1 {
            infe_extension_bytes(v)
        } else {
            Seq::empty()
        })
    } else {
        infe_id_bytes(v.item_id, version) + u16_bytes(v.item_protection_index) + v.item_type@
            + Utf8String::spec_serialize(v.item_name) + opt_item_info_bytes(v.item)
    }
}

/// The payload size that an entry reports: as written; in versions 0 and 1 only MIME
/// information is counted, which is the only information that such an entry writes.
pub open spec fn infe_body_size(v: ItemInfoEntryModel) -> nat {
    let version = v.full_header.version;
    let name = Utf8String::spec_serialize(v.item_name).len();
    let item = opt_item_info_bytes(v.item).len();
    if version <= 1 {
        let mime = match v.item {
            Some(ItemInfoEntryItemModel::Mime { .. }) => item,
            _ => 0,
        };
        let ext: nat = if version == 1 {
            (if v.extension_type is Some { 4nat } else { 0nat }) + (match v.extension {
                Some(e) => item_info_extension_size(e),
                None => 0,
            })
        } else {
            0
        };
        8 + name + mime + ext
    } else {
        (4 + infe_id_width(version) + 6 + name + item) as nat
    }
}

/// The payload of an entry: its full header, then its fields.
#[verifier::opaque]
pub open spec fn infe_serialize_body(v: ItemInfoEntryModel) -> Seq<u8> {
    seq![v.full_header.version] + u24_bytes(v.full_header.flags) + infe_fields_bytes(v)
}

/// The full header, the identifier in the width of the version, the protection
/// index, the item type from version 2 on (`mime` before), the name, the
/// information of MIME and URI items and, in version 1, an extension where at least
/// four bytes remain.
#[verifier::opaque]
pub open spec fn infe_parse_body(s: Seq<u8>) -> Result<ItemInfoEntryModel, IsoError> {
    if s.len() < 4 || s.len() < 6 + infe_id_width(s[0]) + infe_type_width(s[0]) {
        Err(IsoError::UnexpectedEof)
    } else {
        let version = s[0];
        let w = infe_id_width(version);
        let q = 6 + w + infe_type_width(version);
        let item_type = if version <= 1 { mime_type() } else { fourcc_at(s, 6 + w) };
        match Utf8String::spec_parse(s.skip(q)) {
            Ok((name, n)) => match item_info_parse(s.skip(q + n), item_type) {
                Ok((item, m)) => {
                    let r = q + n + m;
                    if version == 1 && r + 4 <= s.len() {
                        match item_info_extension_parse(s.skip(r + 4), fourcc_at(s, r)) {
                            Ok(e) => Ok(
                                ItemInfoEntryModel {
                                    full_header: FullBoxHeader { version, flags: be_u24_at(s, 1) },
                                    item_id: infe_id_at(s, version),
                                    item_protection_index: be_u16_at(s, 4 + w),
                                    item_type,
                                    item_name: name,
                                    item,
                                    extension_type: Some(fourcc_at(s, r)),
                                    extension: Some(e),
                                },
                            ),
                            Err(e) => Err(e),
                        }
                    } else {
                        Ok(
                            ItemInfoEntryModel {
                                full_header: FullBoxHeader { version, flags: be_u24_at(s, 1) },
                                item_id: infe_id_at(s, version),
                                item_protection_index: be_u16_at(s, 4 + w),
                                item_type,
                                item_name: name,
                                item,
                                extension_type: None,
                                extension: None,
                            },
                        )
                    }
                },
                Err(e) => Err(e),
            },
            Err(e) => Err(e),
        }
    }
}

impl IsoSized for ItemInfoEntry {
    open spec fn spec_size(&self) -> nat {
        add_header_size(infe_body_size(self@))
    }

    fn size(&self) -> (n: usize) {
        let b = self.body_size_wide();
        add_header_size_exec(b as usize)
    }
}

impl BoxBody for ItemInfoEntry {
    open spec fn spec_box_type() -> [u8; 4] {
        [0x69u8, 0x6eu8, 0x66u8, 0x65u8]
    }

    fn box_type() -> (r: [u8; 4]) {
        [0x69u8, 0x6eu8, 0x66u8, 0x65u8]
    }

    open spec fn spec_parse_body(s: Seq<u8>) -> Result<ItemInfoEntryModel, IsoError> {
        infe_parse_body(s)
    }

    /// Versions up to 3 need an item identifier, and versions 0 and 1 MIME information.
    open spec fn spec_writable(v: ItemInfoEntryModel) -> bool {
        &&& v.full_header.version <= 3 ==> v.item_id is Some
        &&& v.full_header.version <= 1 ==> v.item matches Some(ItemInfoEntryItemModel::Mime { .. })
    }

    open spec fn spec_serialize_body(v: ItemInfoEntryModel) -> Seq<u8> {
        infe_serialize_body(v)
    }

    /// The identifier fits its width, versions 0 and 1 are MIME items, the information
    /// goes with the item type, no string holds a zero byte, and only version 1 has an
    /// extension, with its type, of file delivery information.
    open spec fn spec_canonical(v: ItemInfoEntryModel) -> bool {
        let version = v.full_header.version;
        &&& v.full_header.flags < 0x100_0000
        &&& version <= 2 ==> v.item_id.unwrap() < 0x10000
        &&& version >= 4 ==> v.item_id is None
        &&& version <= 1 ==> v.item_type == mime_type()
        &&& Utf8String::spec_canonical(v.item_name)
        &&& match v.item {
            Some(i) => item_info_type(i) == v.item_type && item_info_canonical(i),
            None => v.item_type != mime_type() && v.item_type != uri_type(),
        }
        &&& if version == 1 {
            match (v.extension_type, v.extension) {
                (Some(t), Some(e)) => item_info_extension_type(e) == t && item_info_extension_canonical(e),
                (None, None) => true,
                _ => false,
            }
        } else {
            v.extension_type is None && v.extension is None
        }
    }

    proof fn lemma_box_type() {
        assert(Self::spec_box_type()[0] != spec_uuid_fourcc()[0]);
    }

    proof fn lemma_body_size(x: ItemInfoEntry) {
        lemma_infe_body_len(x@);
    }

    proof fn lemma_body_roundtrip(v: ItemInfoEntryModel) {
        lemma_infe_roundtrip(v);
    }

    fn parse_body(d: &[u8]) -> (r: Result<ItemInfoEntry, IsoError>) {
        proof {
            reveal(infe_parse_body);
        }
        if d.len() < 4 {
            return Err(IsoError::UnexpectedEof);
        }
        let version = d[0];
        let w: usize = if version <= 2 { 2 } else if version == 3 { 4 } else { 0 };
        let tw: usize = if version <= 1 { 0 } else { 4 };
        if d.len() < 6 + w + tw {
            return Err(IsoError::UnexpectedEof);
        }
        let flags = read_u24_at(d, 1);
        let item_id = if version <= 2 {
            Some(read_u16_at(d, 4) as u32)
        } else if version == 3 {
            Some(read_u32_at(d, 4))
        } else {
            None
        };
        let item_protection_index = read_u16_at(d, 4 + w);
        let item_type = if version <= 1 {
            [0x6du8, 0x69u8, 0x6du8, 0x65u8]
        } else {
            read_fourcc_at(d, 6 + w)
        };
        let q = 6 + w + tw;
        let (item_name, p1) = Utf8String::parse(d, q)?;
        proof {
            Utf8String::lemma_parse_len(d@.skip(q as int));
            assert(d@.skip(q as int).skip(p1 - q) =~= d@.skip(p1 as int));
        }
        let (item, p2) = ItemInfoEntryItem::parse_for(d, p1, item_type)?;
        proof {
            lemma_item_info_parse_len(d@.skip(p1 as int), item_type);
        }
        if version == 1 && d.len() - p2 >= 4 {
            let t = read_fourcc_at(d, p2);
            let ext = ItemInfoExtension::parse_for(d, p2 + 4, t)?;
            Ok(
                ItemInfoEntry {
                    full_header: FullBoxHeader { version, flags },
                    item_id,
                    item_protection_index,
                    item_type,
                    item_name,
                    item,
                    extension_type: Some(t),
                    extension: Some(ext),
                },
            )
        } else {
            Ok(
                ItemInfoEntry {
                    full_header: FullBoxHeader { version, flags },
                    item_id,
                    item_protection_index,
                    item_type,
                    item_name,
                    item,
                    extension_type: None,
                    extension: None,
                },
            )
        }
    }

    fn serialize_body(&self, out: &mut Vec<u8>) -> (r: Result<(), IsoError>) {
        let version = self.full_header.version;
        proof {
            reveal(infe_serialize_body);
            assert(out@.subrange(0, out@.len() as int) =~= out@);
        }
        if version <= 3 && self.item_id.is_none() {
            return Err(IsoError::InvalidData);
        }
        if version <= 1 {
            match &self.item {
                Some(ItemInfoEntryItem::Mime { .. }) => {},
                _ => {
                    return Err(IsoError::InvalidData);
                },
            }
        }
        let ghost before = out@;
        write_u8(out, version);
        write_u24(out, self.full_header.flags);
        if version <= 1 {
            self.write_fields_early(out);
        } else {
            self.write_fields_late(out);
        }
        proof {
            assert(out@ =~= before + Self::spec_serialize_body(self@));
            lemma_append_prefix(before, Self::spec_serialize_body(self@));
        }
        Ok(())
    }
}

impl ItemInfoEntry {
    /// Writes the fields of an entry of version 0 or 1.
    fn write_fields_early(&self, out: &mut Vec<u8>)
        requires
            self.full_header.version <= 1,
            ItemInfoEntry::spec_writable(self@),
        ensures
            final(out)@ == old(out)@ + infe_fields_bytes(self@),
    {
        let ghost before = out@;
        let id = match self.item_id {
            Some(i) => i,
            None => 0,
        };
        write_u16(out, id as u16);
        write_u16(out, self.item_protection_index);
        let _ = self.item_name.serialize(out);
        match &self.item {
            Some(i) => i.serialize(out),
            None => {},
        }
        let ghost mid = out@;
        if self.full_header.version == 1 {
            match self.extension_type {
                Some(t) => write_fourcc(out, t),
                None => {},
            }
            match &self.extension {
                Some(e) => e.serialize(out),
                None => {},
            }
            assert(out@ =~= mid + infe_extension_bytes(self@));
        }
        assert(out@ =~= before + infe_fields_bytes(self@));
    }

    /// Writes the fields of an entry of version 2 or more.
    fn write_fields_late(&self, out: &mut Vec<u8>)
        requires
            self.full_header.version >= 2,
            ItemInfoEntry::spec_writable(self@),
        ensures
            final(out)@ == old(out)@ + infe_fields_bytes(self@),
    {
        let ghost before = out@;
        let version = self.full_header.version;
        let id = match self.item_id {
            Some(i) => i,
            None => 0,
        };
        if version == 2 {
            write_u16(out, id as u16);
        } else if version == 3 {
            write_u32(out, id);
        }
        write_u16(out, self.item_protection_index);
        write_fourcc(out, self.item_type);
        let _ = self.item_name.serialize(out);
        match &self.item {
            Some(i) => i.serialize(out),
            None => {},
        }
        assert(out@ =~= before + infe_fields_bytes(self@));
    }

    /// The payload size that the entry reports, computed without overflow.
    pub fn body_size_wide(&self) -> (n: u128)
        ensures
            n == infe_body_size(self@),
            n <= 0x100_0000_0000_0000_0000,
    {
        let version = self.full_header.version;
        proof {
            Utf8String::lemma_size(self.item_name);
        }
        let name = string_bytes(&self.item_name.0).len() as u128 + 1;
        let item: u128 = match &self.item {
            Some(ItemInfoEntryItem::Mime { content_type, content_encoding }) => {
                string_bytes(&content_type.0).len() as u128 + 1 + string_bytes(&content_encoding.0).len() as u128 + 1
            },
            Some(ItemInfoEntryItem::Uri { item_uri_type }) => string_bytes(&item_uri_type.0).len() as u128 + 1,
            None => 0,
        };
        if version <= 1 {
            let mime: u128 = match &self.item {
                Some(ItemInfoEntryItem::Mime { .. }) => item,
                _ => 0,
            };
            let mut ext: u128 = 0;
            if version == 1 {
                if self.extension_type.is_some() {
                    ext = 4;
                }
                match &self.extension {
                    Some(ItemInfoExtension::FDItemInfoExtension { current_location, current_md5, group_id, .. }) => {
                        ext = ext + string_bytes(&current_location.0).len() as u128 + 1
                            + string_bytes(&current_md5.0).len() as u128 + 1 + 17 + 4 * (group_id.len() as u128);
                    },
                    Some(ItemInfoExtension::Other { data, .. }) => {
                        ext = ext + 4 + data.len() as u128;
                    },
                    None => {},
                }
            }
            8 + name + mime + ext
        } else {
            let w: u128 = if version == 2 { 2 } else if version == 3 { 4 } else { 0 };
            4 + w + 6 + name + item
        }
    }
}

/// A file delivery extension is as long as the size it reports.
pub proof fn lemma_item_info_extension_len(e: ItemInfoExtensionModel)
    ensures
        item_info_extension_bytes(e).len() == item_info_extension_size(e),
{
    if let ItemInfoExtensionModel::FDItemInfoExtension { content_length, transfer_length, group_id, .. } = e {
        lemma_wide_bytes_len(content_length, 0);
        lemma_wide_bytes_len(transfer_length, 0);
        assert forall|i: int| 0 <= i < group_id.len() implies (#[trigger] u32::spec_serialize(group_id[i])).len()
            == 4 by {
            u32::lemma_size(group_id[i]);
        }
        lemma_ser_seq_fixed::<u32>(group_id, 4);
    }
}

/// The payload of a writable entry is as long as the size it reports.
pub proof fn lemma_infe_body_len(v: ItemInfoEntryModel)
    requires
        ItemInfoEntry::spec_writable(v),
    ensures
        ItemInfoEntry::spec_serialize_body(v).len() == infe_body_size(v),
{
    reveal(infe_serialize_body);
    if let Some(e) = v.extension {
        if v.full_header.version == 1 {
            lemma_item_info_extension_len(e);
        }
    }
}

/// An entry that fits its layout reads back as itself.
pub proof fn lemma_infe_roundtrip(v: ItemInfoEntryModel)
    requires
        ItemInfoEntry::spec_writable(v),
        ItemInfoEntry::spec_canonical(v),
    ensures
        ItemInfoEntry::spec_parse_body(ItemInfoEntry::spec_serialize_body(v)) == Ok::<ItemInfoEntryModel, IsoError>(v),
{
    if v.full_header.version <= 1 {
        lemma_infe_roundtrip_early(v);
    } else {
        lemma_infe_roundtrip_late(v);
    }
}

#[verifier::spinoff_prover]
#[verifier::rlimit(90)]
proof fn lemma_infe_roundtrip_early(v: ItemInfoEntryModel)
    requires
        v.full_header.version <= 1,
        ItemInfoEntry::spec_writable(v),
        ItemInfoEntry::spec_canonical(v),
    ensures
        ItemInfoEntry::spec_parse_body(ItemInfoEntry::spec_serialize_body(v)) == Ok::<ItemInfoEntryModel, IsoError>(v),
{
    reveal(infe_parse_body);
    reveal(infe_serialize_body);
    broadcast use vstd::array::group_array_axioms;
    let version = v.full_header.version;
    let s = ItemInfoEntry::spec_serialize_body(v);
    let name = Utf8String::spec_serialize(v.item_name);
    let item = opt_item_info_bytes(v.item);
    let id = v.item_id.unwrap();
    let ext = if version == 1 { infe_extension_bytes(v) } else { Seq::<u8>::empty() };
    assert(s =~= seq![version] + u24_bytes(v.full_header.flags) + u16_bytes(id as u16) + u16_bytes(v.item_protection_index) + (name + (item + ext)));
    assert(s.subrange(1, 4) =~= u24_bytes(v.full_header.flags));
    lemma_u24_at(s, 1, v.full_header.flags);
    assert(s.subrange(4, 6) =~= u16_bytes(id as u16));
    lemma_u16_at(s, 4, id as u16);
    assert((id as u16) as u32 == id) by (bit_vector)
        requires
            id < 0x10000,
    ;
    assert(s.subrange(6, 8) =~= u16_bytes(v.item_protection_index));
    lemma_u16_at(s, 6, v.item_protection_index);
    assert(s.skip(8) =~= name + (item + ext));
    Utf8String::lemma_roundtrip(v.item_name, item + ext);
    let n = name.len() as int;
    assert(s.skip(8 + n) =~= item + ext);
    let i = v.item.unwrap();
    lemma_item_info_roundtrip(i, ext);
    assert(Utf8String::spec_parse(s.skip(8)) == Ok::<(Seq<char>, int), IsoError>((v.item_name, n)));
    assert(item_info_parse(s.skip(8 + n), mime_type()) == Ok::<(Option<ItemInfoEntryItemModel>, int), IsoError>((Some(i), item.len() as int)));
    let r = 8 + n + item.len();
    assert(s.len() == r + ext.len());
    if version == 1 {
        if let (Some(t), Some(e)) = (v.extension_type, v.extension) {
            assert(s.subrange(r, r + 4) =~= t@);
            lemma_fourcc_at(s, r, t);
            assert(s.skip(r + 4) =~= item_info_extension_bytes(e));
            lemma_item_info_extension_roundtrip(e);
        }
    }
}

#[verifier::spinoff_prover]
#[verifier::rlimit(40)]
proof fn lemma_infe_roundtrip_late(v: ItemInfoEntryModel)
    requires
        v.full_header.version >= 2,
        ItemInfoEntry::spec_writable(v),
        ItemInfoEntry::spec_canonical(v),
    ensures
        ItemInfoEntry::spec_parse_body(ItemInfoEntry::spec_serialize_body(v)) == Ok::<ItemInfoEntryModel, IsoError>(v),
{
    reveal(infe_parse_body);
    reveal(infe_serialize_body);
    broadcast use vstd::array::group_array_axioms;
    let version = v.full_header.version;
    let s = ItemInfoEntry::spec_serialize_body(v);
    let name = Utf8String::spec_serialize(v.item_name);
    let item = opt_item_info_bytes(v.item);
    let w = infe_id_width(version);
    let idb = infe_id_bytes(v.item_id, version);
    assert(idb.len() == w);
    assert(s =~= seq![version] + u24_bytes(v.full_header.flags) + idb + u16_bytes(v.item_protection_index) + v.item_type@ + (name + item));
    assert(mime_type() != uri_type()) by {
        assert(mime_type()[0] != uri_type()[0]);
    }
    assert(s.subrange(1, 4) =~= u24_bytes(v.full_header.flags));
    lemma_u24_at(s, 1, v.full_header.flags);
    if version == 2 {
        let id = v.item_id.unwrap();
        assert(s.subrange(4, 6) =~= u16_bytes(id as u16));
        lemma_u16_at(s, 4, id as u16);
        assert((id as u16) as u32 == id) by (bit_vector)
            requires
                id < 0x10000,
        ;
    } else if version == 3 {
        assert(s.subrange(4, 8) =~= u32_bytes(v.item_id.unwrap()));
        lemma_u32_at(s, 4, v.item_id.unwrap());
    }
    assert(s.subrange(4 + w, 6 + w) =~= u16_bytes(v.item_protection_index));
    lemma_u16_at(s, 4 + w, v.item_protection_index);
    assert(s.subrange(6 + w, 10 + w) =~= v.item_type@);
    lemma_fourcc_at(s, 6 + w, v.item_type);
    assert(s.skip(10 + w) =~= name + item);
    Utf8String::lemma_roundtrip(v.item_name, item);
    let n = name.len() as int;
    assert(s.skip(10 + w + n) =~= item + Seq::<u8>::empty());
    match v.item {
        Some(i) => {
            lemma_item_info_roundtrip(i, Seq::<u8>::empty());
        },
        None => {},
    }
}

// ---------------------------------------------------------------------------
// The item information box: a counted list of entries, each a whole box.
// ---------------------------------------------------------------------------

/// Reading exactly `count` entries one after the other, each a whole box.
pub open spec fn parse_count_infe(s: Seq<u8>, count: nat) -> SpecParse<Seq<ItemInfoEntryModel>>
    decreases count,
{
    if count == 0 {
        Ok((Seq::empty(), 0))
    } else {
        match parse_count_infe(s, (count - 1) as nat) {
            Ok((items, k)) => match spec_parse_box::<ItemInfoEntry>(s.skip(k)) {
                Ok((v, n)) => Ok((items.push(v), k + n)),
                Err(e) => Err(e),
            },
            Err(e) => Err(e),
        }
    }
}

/// The bytes of an entry as a whole box: a header with the size that the entry
/// reports, then its payload.
pub open spec fn infe_box_bytes(v: ItemInfoEntryModel) -> Seq<u8> {
    BoxHeader::spec_serialize(frame_header(ItemInfoEntry::spec_box_type(), add_header_size(infe_body_size(v))))
        + ItemInfoEntry::spec_serialize_body(v)
}

/// The concatenated boxes of a list of entries.
pub open spec fn ser_infe_seq(vs: Seq<ItemInfoEntryModel>) -> Seq<u8>
    decreases vs.len(),
{
    if vs.len() == 0 {
        Seq::empty()
    } else {
        ser_infe_seq(vs.drop_last()) + infe_box_bytes(vs.last())
    }
}

/// The sum of the sizes that the entries report.
pub open spec fn infe_seq_size(vs: Seq<ItemInfoEntryModel>) -> nat
    decreases vs.len(),
{
    if vs.len() == 0 {
        0
    } else {
        infe_seq_size(vs.drop_last()) + add_header_size(infe_body_size(vs.last()))
    }
}

/// An entry that can be written as a box: it is writable, and its size fits a `usize`.
pub open spec fn infe_box_writable(v: ItemInfoEntryModel) -> bool {
    ItemInfoEntry::spec_writable(v) && add_header_size(infe_body_size(v)) <= usize::MAX
}

/// The box of an entry that fits its layout is as long as its size, and reads back as
/// the entry, whatever follows it.
pub proof fn lemma_infe_box_roundtrip(v: ItemInfoEntryModel, rest: Seq<u8>)
    requires
        infe_box_writable(v),
        ItemInfoEntry::spec_canonical(v),
    ensures
        infe_box_bytes(v).len() == add_header_size(infe_body_size(v)),
        spec_parse_box::<ItemInfoEntry>(infe_box_bytes(v) + rest) == Ok::<(ItemInfoEntryModel, int), IsoError>(
            (v, infe_box_bytes(v).len() as int),
        ),
{
    lemma_infe_body_len(v);
    let body = ItemInfoEntry::spec_serialize_body(v);
    assert(infe_box_bytes(v) == box_bytes::<ItemInfoEntry>(v));
    lemma_box_bytes_roundtrip::<ItemInfoEntry>(v, rest);
    let h = frame_header(ItemInfoEntry::spec_box_type(), add_header_size(body.len()));
    BoxHeader::lemma_size(h);
}

/// A written list of entries reads back as itself, and is as long as the sum of
/// their sizes.
pub proof fn lemma_infe_seq_roundtrip(vs: Seq<ItemInfoEntryModel>, rest: Seq<u8>)
    requires
        forall|i: int| 0 <= i < vs.len() ==> #[trigger] infe_box_writable(vs[i]),
        forall|i: int| 0 <= i < vs.len() ==> #[trigger] ItemInfoEntry::spec_canonical(vs[i]),
    ensures
        parse_count_infe(ser_infe_seq(vs) + rest, vs.len()) == Ok::<(Seq<ItemInfoEntryModel>, int), IsoError>(
            (vs, ser_infe_seq(vs).len() as int),
        ),
        ser_infe_seq(vs).len() == infe_seq_size(vs),
    decreases vs.len(),
{
    if vs.len() == 0 {
        assert(vs =~= Seq::<ItemInfoEntryModel>::empty());
    } else {
        let init = vs.drop_last();
        let last = vs.last();
        assert(infe_box_writable(vs[vs.len() - 1]));
        assert(ItemInfoEntry::spec_canonical(vs[vs.len() - 1]));
        assert forall|i: int| 0 <= i < init.len() implies #[trigger] infe_box_writable(init[i]) by {
            assert(infe_box_writable(vs[i]));
        }
        assert forall|i: int| 0 <= i < init.len() implies #[trigger] ItemInfoEntry::spec_canonical(init[i]) by {
            assert(ItemInfoEntry::spec_canonical(vs[i]));
        }
        let tail = infe_box_bytes(last) + rest;
        lemma_infe_seq_roundtrip(init, tail);
        let s = ser_infe_seq(vs) + rest;
        assert(ser_infe_seq(init) + tail =~= s);
        assert(s.skip(ser_infe_seq(init).len() as int) =~= tail);
        lemma_infe_box_roundtrip(last, rest);
        assert(init.push(last) =~= vs);
    }
}

/// Once reading entries has failed, reading more fails the same way.
pub proof fn lemma_parse_count_infe_err(s: Seq<u8>, i: nat, j: nat)
    requires
        i <= j,
        parse_count_infe(s, i) is Err,
    ensures
        parse_count_infe(s, j) == parse_count_infe(s, i),
    decreases j,
{
    if j > i {
        lemma_parse_count_infe_err(s, i, (j - 1) as nat);
    }
}

/// The sizes of the first entries add up to no more than those of all of them.
pub proof fn lemma_infe_seq_size_mono(vs: Seq<ItemInfoEntryModel>, i: int)
    requires
        0 <= i <= vs.len(),
    ensures
        infe_seq_size(vs.take(i)) <= infe_seq_size(vs),
        i < vs.len() ==> infe_seq_size(vs.take(i + 1)) == infe_seq_size(vs.take(i)) + add_header_size(
            infe_body_size(vs[i]),
        ),
    decreases vs.len(),
{
    if i < vs.len() {
        assert(vs.take(i + 1).drop_last() =~= vs.take(i));
    }
    if vs.len() > 0 {
        if i < vs.len() {
            lemma_infe_seq_size_mono(vs.drop_last(), if i == vs.len() - 1 { i } else { i });
            assert(vs.drop_last().take(i) =~= vs.take(i));
        } else {
            assert(vs.take(i) =~= vs);
        }
    } else {
        assert(vs.take(i) =~= vs);
    }
}

/// Item information box
///
/// ISO/IEC 14496-12 - 8.11.6
#[derive(Debug)]
pub struct ItemInfoBox {
    /// The full box header; the count takes 16 bits in version 0 and 32 bits otherwise.
    pub full_header: FullBoxHeader,
    /// The number of entries.
    pub entry_count: u32,
    /// The entries.
    pub item_infos: Vec<ItemInfoEntry>,
}

/// The model of an [`ItemInfoBox`].
pub struct ItemInfoBoxModel {
    pub full_header: FullBoxHeader,
    pub entry_count: u32,
    pub item_infos: Seq<ItemInfoEntryModel>,
}

impl View for ItemInfoBox {
    type V = ItemInfoBoxModel;

    open spec fn view(&self) -> ItemInfoBoxModel {
        ItemInfoBoxModel {
            full_header: self.full_header,
            entry_count: self.entry_count,
            item_infos: views(self.item_infos@),
        }
    }
}

impl IsoSized for ItemInfoBox {
    open spec fn spec_size(&self) -> nat {
        add_header_size(4 + id_width(self.full_header.version) + infe_seq_size(views(self.item_infos@)))
    }

    fn size(&self) -> (n: usize) {
        let ghost vs = views(self.item_infos@);
        let mut total: usize = 0;
        let mut i: usize = 0;
        while i < self.item_infos.len()
            invariant
                vs == views(self.item_infos@),
                i <= self.item_infos@.len(),
                total == infe_seq_size(vs.take(i as int)),
                4 + id_width(self.full_header.version) + infe_seq_size(vs) <= usize::MAX,
            decreases self.item_infos@.len() - i,
        {
            proof {
                lemma_infe_seq_size_mono(vs, i as int);
                lemma_infe_seq_size_mono(vs, i + 1);
                assert(vs[i as int] == self.item_infos@[i as int]@);
            }
            total = total + self.item_infos[i].size();
            i = i + 1;
        }
        proof {
            assert(vs.take(i as int) =~= vs);
        }
        let w: usize = if self.full_header.version == 0 { 2 } else { 4 };
        add_header_size_exec(4 + w + total)
    }
}

impl BoxBody for ItemInfoBox {
    open spec fn spec_box_type() -> [u8; 4] {
        [0x69u8, 0x69u8, 0x6eu8, 0x66u8]
    }

    fn box_type() -> (r: [u8; 4]) {
        [0x69u8, 0x69u8, 0x6eu8, 0x66u8]
    }

    /// The full header, the count in the width of the version, then that many entry boxes.
    open spec fn spec_parse_body(s: Seq<u8>) -> Result<ItemInfoBoxModel, IsoError> {
        if s.len() < 4 || s.len() < 4 + id_width(s[0]) {
            Err(IsoError::UnexpectedEof)
        } else {
            let version = s[0];
            let count = versioned_u32_at(s, 4, version);
            match parse_count_infe(s.skip(4 + id_width(version) as int), count as nat) {
                Ok((items, _)) => Ok(
                    ItemInfoBoxModel {
                        full_header: FullBoxHeader { version, flags: be_u24_at(s, 1) },
                        entry_count: count,
                        item_infos: items,
                    },
                ),
                Err(e) => Err(e),
            }
        }
    }

    /// Every entry can be written as a box.
    open spec fn spec_writable(v: ItemInfoBoxModel) -> bool {
        forall|i: int| 0 <= i < v.item_infos.len() ==> #[trigger] infe_box_writable(v.item_infos[i])
    }

    open spec fn spec_serialize_body(v: ItemInfoBoxModel) -> Seq<u8> {
        seq![v.full_header.version] + u24_bytes(v.full_header.flags) + versioned_u32_bytes(
            v.entry_count,
            v.full_header.version,
        ) + ser_infe_seq(v.item_infos)
    }

    /// The count fits its field and is the number of entries, and every entry fits its layout.
    open spec fn spec_canonical(v: ItemInfoBoxModel) -> bool {
        &&& v.full_header.flags < 0x100_0000
        &&& versioned_u32_fits(v.entry_count, v.full_header.version)
        &&& v.item_infos.len() == v.entry_count
        &&& forall|i: int| 0 <= i < v.item_infos.len() ==> #[trigger] ItemInfoEntry::spec_canonical(v.item_infos[i])
    }

    proof fn lemma_box_type() {
        assert(Self::spec_box_type()[0] != spec_uuid_fourcc()[0]);
    }

    proof fn lemma_body_size(x: ItemInfoBox) {
        lemma_infe_seq_roundtrip(x@.item_infos, Seq::<u8>::empty());
        if x.full_header.version == 0 {
            assert(versioned_u32_bytes(x.entry_count, 0).len() == 2);
        }
    }

    proof fn lemma_body_roundtrip(v: ItemInfoBoxModel) {
        let version = v.full_header.version;
        let w = id_width(version) as int;
        let s = Self::spec_serialize_body(v);
        assert(s.subrange(1, 4) =~= u24_bytes(v.full_header.flags));
        lemma_u24_at(s, 1, v.full_header.flags);
        assert(s.subrange(4, 4 + w) =~= versioned_u32_bytes(v.entry_count, version));
        lemma_versioned_u32_at(s, 4, v.entry_count, version);
        assert(s.skip(4 + w) =~= ser_infe_seq(v.item_infos) + Seq::<u8>::empty());
        lemma_infe_seq_roundtrip(v.item_infos, Seq::<u8>::empty());
    }

    fn parse_body(d: &[u8]) -> (r: Result<ItemInfoBox, IsoError>) {
        if d.len() < 4 {
            return Err(IsoError::UnexpectedEof);
        }
        let version = d[0];
        let w: usize = if version == 0 { 2 } else { 4 };
        if d.len() < 4 + w {
            return Err(IsoError::UnexpectedEof);
        }
        let full_header = FullBoxHeader { version, flags: read_u24_at(d, 1) };
        let entry_count = read_versioned_u32_at(d, 4, version);
        let start = 4 + w;
        let ghost s = d@.skip(start as int);
        let mut item_infos: Vec<ItemInfoEntry> = Vec::new();
        let mut p = start;
        let mut i: u32 = 0;
        assert(views(item_infos@) =~= Seq::<ItemInfoEntryModel>::empty());
        while i < entry_count
            invariant
                s == d@.skip(start as int),
                d@.len() >= 4,
                version == d@[0],
                start == 4 + id_width(version),
                entry_count == versioned_u32_at(d@, 4, version),
                full_header == (FullBoxHeader { version, flags: be_u24_at(d@, 1) }),
                start <= p <= d@.len(),
                i <= entry_count,
                parse_count_infe(s, i as nat) == Ok::<(Seq<ItemInfoEntryModel>, int), IsoError>(
                    (views(item_infos@), p - start),
                ),
            decreases entry_count - i,
        {
            proof {
                assert(s.skip(p - start) =~= d@.skip(p as int));
            }
            match parse_box::<ItemInfoEntry>(d, p) {
                Ok((v, np)) => {
                    proof {
                        lemma_views_push(item_infos@, v);
                    }
                    item_infos.push(v);
                    p = np;
                    i = i + 1;
                },
                Err(e) => {
                    proof {
                        assert(parse_count_infe(s, (i + 1) as nat) == Err::<(Seq<ItemInfoEntryModel>, int), IsoError>(e));
                        lemma_parse_count_infe_err(s, (i + 1) as nat, entry_count as nat);
                        assert(parse_count_infe(s, entry_count as nat) == Err::<(Seq<ItemInfoEntryModel>, int), IsoError>(e));
                        assert(d@[0] == version);
                        assert(4 + id_width(version) == start);
                        assert(Self::spec_parse_body(d@) == Err::<ItemInfoBoxModel, IsoError>(e));
                    }
                    return Err(e);
                },
            }
        }
        Ok(ItemInfoBox { full_header, entry_count, item_infos })
    }

    fn serialize_body(&self, out: &mut Vec<u8>) -> (r: Result<(), IsoError>) {
        let ghost start = out@;
        let version = self.full_header.version;
        write_u8(out, version);
        write_u24(out, self.full_header.flags);
        write_versioned_u32(out, self.entry_count, version);
        let ghost head = out@;
        let ghost vs = views(self.item_infos@);
        let mut i: usize = 0;
        assert(vs.take(0) =~= Seq::<ItemInfoEntryModel>::empty());
        assert(out@ =~= head + ser_infe_seq(vs.take(0)));
        while i < self.item_infos.len()
            invariant
                vs == views(self.item_infos@),
                start == old(out)@,
                head == start + seq![version] + u24_bytes(self.full_header.flags) + versioned_u32_bytes(
                    self.entry_count,
                    version,
                ),
                version == self.full_header.version,
                i <= self.item_infos@.len(),
                out@ == head + ser_infe_seq(vs.take(i as int)),
                forall|j: int| 0 <= j < i ==> #[trigger] infe_box_writable(vs[j]),
            decreases self.item_infos@.len() - i,
        {
            proof {
                assert(vs.take(i + 1).drop_last() =~= vs.take(i as int));
                assert(vs[i as int] == self.item_infos@[i as int]@);
            }
            let ghost before = out@;
            let b = self.item_infos[i].body_size_wide();
            let total: u128 = if b + 8 > 0xffff_ffff { b + 16 } else { b + 8 };
            if total > usize::MAX as u128 {
                proof {
                    assert(!infe_box_writable(vs[i as int]));
                    lemma_append_prefix(start, out@.skip(start.len() as int));
                    assert(out@ =~= start + out@.skip(start.len() as int));
                }
                return Err(IsoError::InvalidData);
            }
            let r = serialize_box(&self.item_infos[i], out);
            if r.is_err() {
                proof {
                    assert(!infe_box_writable(vs[i as int]));
                    assert(before =~= start + before.skip(start.len() as int));
                    assert forall|k: int| 0 <= k < start.len() implies out@[k] == start[k] by {
                        assert(out@.subrange(0, before.len() as int)[k] == before[k]);
                    }
                    assert(out@.subrange(0, start.len() as int) =~= start);
                }
                return Err(IsoError::InvalidData);
            }
            proof {
                assert(spec_serialize_box(self.item_infos@[i as int]) == infe_box_bytes(vs[i as int]));
                assert(out@ =~= head + ser_infe_seq(vs.take(i + 1)));
            }
            i = i + 1;
        }
        proof {
            assert(vs.take(i as int) =~= vs);
            assert(out@ =~= start + Self::spec_serialize_body(self@));
            lemma_append_prefix(start, Self::spec_serialize_body(self@));
        }
        Ok(())
    }
}

} // verus!
