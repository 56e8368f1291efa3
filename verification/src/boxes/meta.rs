//! The meta box and the boxes that only it holds: item protection, item
//! properties, XML and item data.

use vstd::prelude::*;

use crate::children::{
    child_fault, child_value, collect_children, collect_into, collect_unknown, first_fault, is_child, is_child_exec,
    last_child, lemma_child_other, lemma_child_read, lemma_collect_add, lemma_collect_none, lemma_collect_step,
    lemma_first_fault, lemma_unknown_add, lemma_unknown_all_known, lemma_unknown_none_known, lemma_unknown_step,
    lemma_unknown_seq, read_children, replace_into, scan_result, spec_children,
};
use crate::codec::{
    be_u16_at, be_u24_at, be_u32_at, lemma_append_prefix, lemma_prefix_trans, lemma_u16_at, lemma_u24_at,
    lemma_u32_at, read_u16_at, read_u24_at, read_u32_at, u16_bytes, u24_bytes, u32_bytes, write_bytes, write_u16,
    write_u24, write_u32, write_u8, IsoError,
};
use crate::frame::{add_header_size, add_header_size_exec, BoxBody, UnknownBox, UnknownBoxModel};
use crate::header::{spec_uuid_fourcc, FullBoxHeader};
use crate::nested::{
    lemma_nested_collect_other, lemma_nested_collect_own, lemma_nested_cons, lemma_nested_opt_other,
    lemma_nested_opt_own, lemma_nested_opt_seq, lemma_nested_opt_size, lemma_nested_seq, lemma_nested_size,
    lemma_nested_sizes, lemma_unknown_seq_rest, nested_all_ok, nested_all_writable, nested_box_bytes, nested_bytes,
    nested_model,
    nested_models, nested_ok, nested_opt_bytes, nested_opt_models, nested_opt_ok, nested_opt_size,
    nested_opt_writable, nested_sizes, nested_writable, opt_seq, opt_view, size_nested_opt, size_nested_vec,
    write_nested, write_nested_opt, write_nested_vec,
};
use crate::wire::{
    lemma_size_seq, lemma_size_seq_mono, ser_seq, serialize_all, size_all, size_seq, views, writable_seq,
    write_matches, IsoSized, Wire,
};
use crate::boxes::data_reference::DataInformationBox;
use crate::boxes::fd_item_info::FDItemInformationBox;
use crate::boxes::file_organization::{BrandProperty, ExtendedTypeBox};
use crate::boxes::groups_list::GroupsListBox;
use crate::boxes::item_info::ItemInfoBox;
use crate::boxes::item_properties::ItemPropertyAssociationBox;
use crate::boxes::item_reference::{ItemReferenceBox, PrimaryItemBox};
use crate::boxes::metadata::ItemLocationBox;
use crate::boxes::protection::{ProtectionSchemeInfoBox, ScrambleSchemeInfoBox};
use crate::boxes::track_media::HandlerBox;
use crate::common_types::Utf8String;

verus! {

/// XML box
///
/// `xml `
///
/// ISO/IEC 14496-12 - 8.11.2
#[derive(Debug)]
pub struct XmlBox {
    /// The full box header.
    pub full_header: FullBoxHeader,
    /// The XML text.
    pub xml: Utf8String,
}

/// The model of an [`XmlBox`].
pub struct XmlBoxModel {
    pub full_header: FullBoxHeader,
    pub xml: Seq<char>,
}

impl View for XmlBox {
    type V = XmlBoxModel;

    open spec fn view(&self) -> XmlBoxModel {
        XmlBoxModel { full_header: self.full_header, xml: self.xml@ }
    }
}

impl IsoSized for XmlBox {
    open spec fn spec_size(&self) -> nat {
        add_header_size(4 + self.xml.spec_size())
    }

    fn size(&self) -> (n: usize) {
        add_header_size_exec(4 + self.xml.size())
    }
}

impl BoxBody for XmlBox {
    open spec fn spec_box_type() -> [u8; 4] {
        [0x78u8, 0x6du8, 0x6cu8, 0x20u8]
    }

    fn box_type() -> (r: [u8; 4]) {
        [0x78u8, 0x6du8, 0x6cu8, 0x20u8]
    }

    /// The full header, then the text up to its zero byte.
    open spec fn spec_parse_body(s: Seq<u8>) -> Result<XmlBoxModel, IsoError> {
        if s.len() < 4 {
            Err(IsoError::UnexpectedEof)
        } else {
            match Utf8String::spec_parse(s.skip(4)) {
                Ok((t, _)) => Ok(XmlBoxModel { full_header: FullBoxHeader { version: s[0], flags: be_u24_at(s, 1) }, xml: t }),
                Err(e) => Err(e),
            }
        }
    }

    open spec fn spec_writable(v: XmlBoxModel) -> bool {
        true
    }

    open spec fn spec_serialize_body(v: XmlBoxModel) -> Seq<u8> {
        seq![v.full_header.version] + u24_bytes(v.full_header.flags) + Utf8String::spec_serialize(v.xml)
    }

    /// The text holds no zero byte.
    open spec fn spec_canonical(v: XmlBoxModel) -> bool {
        v.full_header.flags < 0x100_0000 && Utf8String::spec_canonical(v.xml)
    }

    proof fn lemma_box_type() {
        assert(Self::spec_box_type()[0] != spec_uuid_fourcc()[0]);
    }

    proof fn lemma_body_size(x: XmlBox) {
        Utf8String::lemma_size(x.xml);
    }

    proof fn lemma_body_roundtrip(v: XmlBoxModel) {
        let s = Self::spec_serialize_body(v);
        assert(s.subrange(1, 4) =~= u24_bytes(v.full_header.flags));
        lemma_u24_at(s, 1, v.full_header.flags);
        assert(s.skip(4) =~= Utf8String::spec_serialize(v.xml) + Seq::<u8>::empty());
        Utf8String::lemma_roundtrip(v.xml, Seq::<u8>::empty());
    }

    fn parse_body(d: &[u8]) -> (r: Result<XmlBox, IsoError>) {
        if d.len() < 4 {
            return Err(IsoError::UnexpectedEof);
        }
        let (xml, _p) = Utf8String::parse(d, 4)?;
        Ok(XmlBox { full_header: FullBoxHeader { version: d[0], flags: read_u24_at(d, 1) }, xml })
    }

    fn serialize_body(&self, out: &mut Vec<u8>) -> (r: Result<(), IsoError>) {
        let ghost before = out@;
        write_u8(out, self.full_header.version);
        write_u24(out, self.full_header.flags);
        let _ = self.xml.serialize(out);
        proof {
            assert(out@ =~= before + Self::spec_serialize_body(self@));
            lemma_append_prefix(before, Self::spec_serialize_body(self@));
        }
        Ok(())
    }
}

/// Binary XML box
///
/// `bxml`
///
/// ISO/IEC 14496-12 - 8.11.2
#[derive(Debug)]
pub struct BinaryXmlBox {
    /// The full box header.
    pub full_header: FullBoxHeader,
    /// The encoded XML, to the end of the box.
    pub data: Vec<u8>,
}

/// The model of a [`BinaryXmlBox`].
pub struct BinaryXmlBoxModel {
    pub full_header: FullBoxHeader,
    pub data: Seq<u8>,
}

impl View for BinaryXmlBox {
    type V = BinaryXmlBoxModel;

    open spec fn view(&self) -> BinaryXmlBoxModel {
        BinaryXmlBoxModel { full_header: self.full_header, data: self.data@ }
    }
}

impl IsoSized for BinaryXmlBox {
    open spec fn spec_size(&self) -> nat {
        add_header_size(4 + self.data@.len())
    }

    fn size(&self) -> (n: usize) {
        add_header_size_exec(4 + self.data.len())
    }
}

impl BoxBody for BinaryXmlBox {
    open spec fn spec_box_type() -> [u8; 4] {
        [0x62u8, 0x78u8, 0x6du8, 0x6cu8]
    }

    fn box_type() -> (r: [u8; 4]) {
        [0x62u8, 0x78u8, 0x6du8, 0x6cu8]
    }

    /// The full header, then the data to the end of the payload.
    open spec fn spec_parse_body(s: Seq<u8>) -> Result<BinaryXmlBoxModel, IsoError> {
        if s.len() < 4 {
            Err(IsoError::UnexpectedEof)
        } else {
            Ok(BinaryXmlBoxModel { full_header: FullBoxHeader { version: s[0], flags: be_u24_at(s, 1) }, data: s.skip(4) })
        }
    }

    open spec fn spec_writable(v: BinaryXmlBoxModel) -> bool {
        true
    }

    open spec fn spec_serialize_body(v: BinaryXmlBoxModel) -> Seq<u8> {
        seq![v.full_header.version] + u24_bytes(v.full_header.flags) + v.data
    }

    open spec fn spec_canonical(v: BinaryXmlBoxModel) -> bool {
        v.full_header.flags < 0x100_0000
    }

    proof fn lemma_box_type() {
        assert(Self::spec_box_type()[0] != spec_uuid_fourcc()[0]);
    }

    proof fn lemma_body_size(x: BinaryXmlBox) {
    }

    proof fn lemma_body_roundtrip(v: BinaryXmlBoxModel) {
        let s = Self::spec_serialize_body(v);
        assert(s.subrange(1, 4) =~= u24_bytes(v.full_header.flags));
        lemma_u24_at(s, 1, v.full_header.flags);
        assert(s.skip(4) =~= v.data);
    }

    fn parse_body(d: &[u8]) -> (r: Result<BinaryXmlBox, IsoError>) {
        if d.len() < 4 {
            return Err(IsoError::UnexpectedEof);
        }
        let data = vstd::slice::slice_to_vec(vstd::slice::slice_subrange(d, 4, d.len()));
        proof {
            assert(data@ =~= d@.skip(4));
        }
        Ok(BinaryXmlBox { full_header: FullBoxHeader { version: d[0], flags: read_u24_at(d, 1) }, data })
    }

    fn serialize_body(&self, out: &mut Vec<u8>) -> (r: Result<(), IsoError>) {
        let ghost before = out@;
        write_u8(out, self.full_header.version);
        write_u24(out, self.full_header.flags);
        write_bytes(out, self.data.as_slice());
        proof {
            assert(out@ =~= before + Self::spec_serialize_body(self@));
            lemma_append_prefix(before, Self::spec_serialize_body(self@));
        }
        Ok(())
    }
}

/// Item data box
///
/// `idat`
///
/// ISO/IEC 14496-12 - 8.11.11
#[derive(Debug)]
pub struct ItemDataBox {
    /// The data of the items, the whole payload.
    pub data: Vec<u8>,
}

impl View for ItemDataBox {
    type V = Seq<u8>;

    open spec fn view(&self) -> Seq<u8> {
        self.data@
    }
}

impl IsoSized for ItemDataBox {
    open spec fn spec_size(&self) -> nat {
        add_header_size(self.data@.len())
    }

    fn size(&self) -> (n: usize) {
        add_header_size_exec(self.data.len())
    }
}

impl BoxBody for ItemDataBox {
    open spec fn spec_box_type() -> [u8; 4] {
        [0x69u8, 0x64u8, 0x61u8, 0x74u8]
    }

    fn box_type() -> (r: [u8; 4]) {
        [0x69u8, 0x64u8, 0x61u8, 0x74u8]
    }

    /// The whole payload.
    open spec fn spec_parse_body(s: Seq<u8>) -> Result<Seq<u8>, IsoError> {
        Ok(s)
    }

    open spec fn spec_writable(v: Seq<u8>) -> bool {
        true
    }

    open spec fn spec_serialize_body(v: Seq<u8>) -> Seq<u8> {
        v
    }

    open spec fn spec_canonical(v: Seq<u8>) -> bool {
        true
    }

    proof fn lemma_box_type() {
        assert(Self::spec_box_type()[1] != spec_uuid_fourcc()[1]);
    }

    proof fn lemma_body_size(x: ItemDataBox) {
    }

    proof fn lemma_body_roundtrip(v: Seq<u8>) {
    }

    fn parse_body(d: &[u8]) -> (r: Result<ItemDataBox, IsoError>) {
        Ok(ItemDataBox { data: vstd::slice::slice_to_vec(d) })
    }

    fn serialize_body(&self, out: &mut Vec<u8>) -> (r: Result<(), IsoError>) {
        let ghost before = out@;
        write_bytes(out, self.data.as_slice());
        proof {
            lemma_append_prefix(before, self.data@);
        }
        Ok(())
    }
}

/// Item protection box
///
/// `ipro`
///
/// ISO/IEC 14496-12 - 8.11.5
#[derive(Debug)]
pub struct ItemProtectionBox {
    /// The version and flags of the box.
    pub full_header: FullBoxHeader,
    /// The number of protection scheme boxes.
    pub protection_count: u16,
    /// The contained [`ProtectionSchemeInfoBox`]es. (any quantity)
    pub protection_information: Vec<ProtectionSchemeInfoBox>,
}

/// The model of a [`ItemProtectionBox`].
pub struct ItemProtectionBoxModel {
    pub full_header: FullBoxHeader,
    pub protection_count: u16,
    pub protection_information: Seq<<ProtectionSchemeInfoBox as View>::V>,
}

impl View for ItemProtectionBox {
    type V = ItemProtectionBoxModel;

    open spec fn view(&self) -> ItemProtectionBoxModel {
        ItemProtectionBoxModel {
            full_header: self.full_header,
            protection_count: self.protection_count,
            protection_information: views(self.protection_information@),
        }
    }
}

/// Whether a box found in a ipro has one of the types that it reads.
pub open spec fn ipro_known(c: UnknownBoxModel) -> bool {
    is_child::<ProtectionSchemeInfoBox>(c)
}

/// The failure of reading a box of a known type found in a ipro.
pub open spec fn ipro_fault(c: UnknownBoxModel) -> Option<IsoError> {
    if is_child::<ProtectionSchemeInfoBox>(c) {
        child_fault::<ProtectionSchemeInfoBox>(c)
    } else {
        None
    }
}

/// What a ipro reads from its payload: the fields before its boxes, then the boxes before the first that fails, each box of a known type in its field (the
/// last one for a single field, which must be there where it is required) and every
/// other box kept as it is.
pub open spec fn ipro_parse(s: Seq<u8>) -> Result<ItemProtectionBoxModel, IsoError> {
    if s.len() < 6 {
        Err(IsoError::UnexpectedEof)
    } else {
        let cs = spec_children(s.skip(6));
        match scan_result(cs, |c: UnknownBoxModel| ipro_fault(c)) {
            Err(e) => Err(e),
            Ok(k) => {
                let p = cs.take(k as int);
                Ok(
                    ItemProtectionBoxModel {
                        full_header: FullBoxHeader { version: s[0], flags: be_u24_at(s, 1) },
                        protection_count: be_u16_at(s, 4),
                        protection_information: collect_children::<ProtectionSchemeInfoBox>(p),
                    },
                )
            },
        }
    }
}

/// The bytes of the boxes that a ipro holds, in the order of its fields.
pub open spec fn ipro_children_bytes(v: ItemProtectionBoxModel) -> Seq<u8> {
    nested_bytes::<ProtectionSchemeInfoBox>(v.protection_information)
}

/// The boxes, as found in a container, that a ipro writes.
pub open spec fn ipro_models(v: ItemProtectionBoxModel) -> Seq<UnknownBoxModel> {
    nested_models::<ProtectionSchemeInfoBox>(v.protection_information)
}

/// The payload that a ipro writes.
pub open spec fn ipro_bytes(v: ItemProtectionBoxModel) -> Seq<u8> {
    seq![v.full_header.version] + u24_bytes(v.full_header.flags) + u16_bytes(v.protection_count) + ipro_children_bytes(v)
}

/// Every box of a known type can be written.
pub open spec fn ipro_writable(v: ItemProtectionBoxModel) -> bool {
    &&& nested_all_writable::<ProtectionSchemeInfoBox>(v.protection_information)
}

/// The flags fit in 24 bits. Every box of a known type reads back as itself, and every other box is of
/// another type and announces exactly its payload.
pub open spec fn ipro_canonical(v: ItemProtectionBoxModel) -> bool {
    &&& v.full_header.flags < 0x100_0000
    &&& nested_all_ok::<ProtectionSchemeInfoBox>(v.protection_information)
}

impl IsoSized for ItemProtectionBox {
    open spec fn spec_size(&self) -> nat {
        add_header_size(6 + nested_sizes::<ProtectionSchemeInfoBox>(self.protection_information@))
    }

    fn size(&self) -> (n: usize) {
        let mut n: usize = 6;
        n = n + size_nested_vec(&self.protection_information);
        add_header_size_exec(n)
    }
}

/// The fields of a ipro read so far.
pub struct ItemProtectionBoxScan {
    pub protection_information: Vec<ProtectionSchemeInfoBox>,
}

/// The model of a [`ItemProtectionBoxScan`].
pub struct ItemProtectionBoxScanModel {
    pub protection_information: Seq<<ProtectionSchemeInfoBox as View>::V>,
}

impl View for ItemProtectionBoxScan {
    type V = ItemProtectionBoxScanModel;

    open spec fn view(&self) -> ItemProtectionBoxScanModel {
        ItemProtectionBoxScanModel {
            protection_information: views(self.protection_information@),
        }
    }
}

/// What a ipro holds after reading the boxes of `p`.
pub open spec fn ipro_prefix(p: Seq<UnknownBoxModel>) -> ItemProtectionBoxScanModel {
    ItemProtectionBoxScanModel {
        protection_information: collect_children::<ProtectionSchemeInfoBox>(p),
    }
}

/// What a ipro holds after reading one more box that does not fail.
pub open spec fn ipro_extend(m: ItemProtectionBoxScanModel, c: UnknownBoxModel) -> ItemProtectionBoxScanModel {
    ItemProtectionBoxScanModel {
        protection_information: m.protection_information + opt_seq(child_value::<ProtectionSchemeInfoBox>(c)),
    }
}

/// The types that a ipro reads differ from one another.
pub open spec fn ipro_types_differ() -> bool {
    true
}

proof fn lemma_ipro_types()
    ensures
        ipro_types_differ(),
{
}

/// Reads one box found in a ipro into its field.
#[verifier::spinoff_prover]
#[verifier::rlimit(60)]
fn ipro_step(c: &UnknownBox, acc: &mut ItemProtectionBoxScan) -> (r: Result<(), IsoError>)
    requires
        ipro_types_differ(),
    ensures
        match r {
            Ok(()) => ipro_fault(c@) is None && final(acc)@ == ipro_extend(old(acc)@, c@),
            Err(e) => ipro_fault(c@) == Some(e) && final(acc)@ == old(acc)@,
        },
{
    if is_child_exec::<ProtectionSchemeInfoBox>(c) {
        proof {
            lemma_child_read::<ProtectionSchemeInfoBox>(c@);
        }
        let ghost old_v = views(acc.protection_information@);
        let r = collect_into(c, &mut acc.protection_information);
        proof {
            if r is Err {
                assert(acc@ =~= old(acc)@);
            }
            if r is Ok {
                assert(views(acc.protection_information@) =~= old_v + opt_seq(child_value::<ProtectionSchemeInfoBox>(c@)));
                assert(acc@ =~= ipro_extend(old(acc)@, c@));
            }
        }
        r
    } else {
        proof {
            lemma_child_other::<ProtectionSchemeInfoBox>(c@);
        }
        proof {
            assert(opt_seq(child_value::<ProtectionSchemeInfoBox>(c@)) =~= Seq::<<ProtectionSchemeInfoBox as View>::V>::empty());
            assert(acc@ =~= ipro_extend(old(acc)@, c@));
        }
        Ok(())
    }
}

/// Reading one more box extends what was read by it.
proof fn lemma_ipro_prefix_step(css: Seq<UnknownBoxModel>, i: int)
    requires
        0 <= i < css.len(),
    ensures
        ipro_prefix(css.take(i + 1)) == ipro_extend(ipro_prefix(css.take(i)), css[i]),
{
    lemma_collect_step::<ProtectionSchemeInfoBox>(css, i);
    lemma_unknown_step(css, |c: UnknownBoxModel| ipro_known(c), i);
    let a = ipro_prefix(css.take(i + 1));
    let b = ipro_extend(ipro_prefix(css.take(i)), css[i]);
    assert(a.protection_information =~= b.protection_information);
}

/// Reads the payload of a ipro.
#[verifier::spinoff_prover]
#[verifier::rlimit(60)]
fn parse_ipro(payload: &[u8]) -> (r: Result<ItemProtectionBox, IsoError>)
    ensures
        match (ipro_parse(payload@), r) {
            (Ok(v), Ok(x)) => x@ == v,
            (Err(e), Err(f)) => e == f,
            _ => false,
        },
{
    if payload.len() < 6 {
        return Err(IsoError::UnexpectedEof);
    }
    let full_header = FullBoxHeader { version: payload[0], flags: read_u24_at(payload, 1) };
    let protection_count = read_u16_at(payload, 4);
    let rest = vstd::slice::slice_subrange(payload, 6, payload.len());
    proof {
        assert(rest@ =~= payload@.skip(6));
    }
    let cs = read_children(rest);
    let ghost css = spec_children(payload@.skip(6));
    let ghost fault = |c: UnknownBoxModel| ipro_fault(c);
    let mut acc = ItemProtectionBoxScan {
        protection_information: Vec::new(),
    };
    let mut i: usize = 0;
    let mut stop = false;
    proof {
        lemma_ipro_types();
        let e = css.take(0);
        assert(e =~= Seq::<UnknownBoxModel>::empty());
        assert(collect_children::<ProtectionSchemeInfoBox>(e) =~= Seq::<<ProtectionSchemeInfoBox as View>::V>::empty());
        assert(views(acc.protection_information@) =~= Seq::<<ProtectionSchemeInfoBox as View>::V>::empty());
        assert(acc@ =~= ipro_prefix(e));
    }
    while i < cs.len() && !stop
        invariant
            views(cs@) == css,
            payload@.len() >= 6,
            css == spec_children(payload@.skip(6)),
            fault == (|c: UnknownBoxModel| ipro_fault(c)),
            ipro_types_differ(),
            i <= cs@.len(),
            forall|j: int| 0 <= j < i ==> (#[trigger] fault(css[j])) is None,
            stop ==> i < css.len() && fault(css[i as int]) == Some(IsoError::UnexpectedEof),
            acc@ == ipro_prefix(css.take(i as int)),
        decreases cs@.len() - i + (if stop { 0int } else { 1int }),
    {
        let c = &cs[i];
        proof {
            assert(c@ == css[i as int]);
            lemma_ipro_prefix_step(css, i as int);
        }
        match ipro_step(c, &mut acc) {
            Ok(()) => {
                i = i + 1;
            },
            Err(IsoError::UnexpectedEof) => {
                stop = true;
            },
            Err(e) => {
                proof {
                    lemma_first_fault(css, fault, i as int);
                }
                return Err(e);
            },
        }
    }
    proof {
        lemma_first_fault(css, fault, i as int);
        assert(first_fault(css, fault) == i);
    }
    let ItemProtectionBoxScan { protection_information } = acc;
    Ok(ItemProtectionBox { full_header, protection_count, protection_information })
}

/// Writes the boxes of a ipro in the order of its fields.
#[verifier::spinoff_prover]
#[verifier::rlimit(60)]
fn write_ipro_children(x: &ItemProtectionBox, out: &mut Vec<u8>) -> (r: Result<(), IsoError>)
    requires
        x.spec_size() <= usize::MAX,
    ensures
        write_matches(r, ipro_writable(x@), ipro_children_bytes(x@), old(out)@, final(out)@),
{
    let ghost before = out@;
    let ghost v = x@;
    if write_nested_vec(&x.protection_information, out).is_err() {
        return Err(IsoError::InvalidData);
    }
    let ghost m1 = out@;
    proof {
        lemma_append_prefix(before, nested_bytes::<ProtectionSchemeInfoBox>(v.protection_information));
    }
    proof {
        let l1 = nested_bytes::<ProtectionSchemeInfoBox>(v.protection_information);
        assert(m1 == before + l1);
        assert(ipro_children_bytes(v) == l1);
        lemma_append_prefix(before, ipro_children_bytes(v));
    }
    Ok(())
}

/// The boxes that a ipro writes, read from their bytes one list after the other.
#[verifier::spinoff_prover]
#[verifier::rlimit(100)]
proof fn lemma_ipro_children_chain(v: ItemProtectionBoxModel)
    requires
        ipro_canonical(v),
    ensures
        spec_children(nested_bytes::<ProtectionSchemeInfoBox>(v.protection_information)) == nested_models::<ProtectionSchemeInfoBox>(v.protection_information),
{
    let b0 = nested_bytes::<ProtectionSchemeInfoBox>(v.protection_information);
    let s0 = nested_models::<ProtectionSchemeInfoBox>(v.protection_information);
    crate::children::lemma_children_empty();
    let t0 = b0;
    let u0 = s0;
    assert(b0 + Seq::<u8>::empty() =~= b0);
    assert(s0 + Seq::<UnknownBoxModel>::empty() =~= s0);
    lemma_nested_seq::<ProtectionSchemeInfoBox>(v.protection_information, Seq::<u8>::empty());
    assert(spec_children(t0) == u0);
}

/// The boxes that a ipro writes read back as their models.
#[verifier::spinoff_prover]
#[verifier::rlimit(100)]
proof fn lemma_ipro_children(v: ItemProtectionBoxModel)
    requires
        ipro_canonical(v),
    ensures
        spec_children(ipro_children_bytes(v)) == ipro_models(v),
{
    lemma_ipro_children_chain(v);
    let b0 = nested_bytes::<ProtectionSchemeInfoBox>(v.protection_information);
    let s0 = nested_models::<ProtectionSchemeInfoBox>(v.protection_information);
    let t0 = b0;
    let u0 = s0;
    let t1 = Seq::<u8>::empty();
    let u1 = Seq::<UnknownBoxModel>::empty();
    assert(b0 + t1 =~= t0);
    assert(s0 + u1 =~= u0);
    let l0 = Seq::<u8>::empty();
    let k0 = Seq::<UnknownBoxModel>::empty();
    assert(l0 + t0 =~= t0);
    assert(k0 + u0 =~= u0);
    let l1 = b0;
    let k1 = s0;
    assert(l1 + t1 == l0 + t0);
    assert(k1 + u1 == k0 + u0);
    assert(l1 + t1 =~= l1);
    assert(k1 + u1 =~= k1);
    assert(ipro_children_bytes(v) == l1);
    assert(ipro_models(v) == k1);
}

/// No box that a ipro writes fails to read.
#[verifier::spinoff_prover]
#[verifier::rlimit(60)]
proof fn lemma_ipro_no_fault(v: ItemProtectionBoxModel, j: int)
    requires
        ipro_canonical(v),
        ipro_types_differ(),
        0 <= j < ipro_models(v).len(),
    ensures
        ipro_fault(ipro_models(v)[j]) is None,
{
    let cs = ipro_models(v);
    let s0 = nested_models::<ProtectionSchemeInfoBox>(v.protection_information);
    let n0: int = 0;
    let n1: int = n0 + s0.len();
    if j < n1 {
        assert(cs[j] == s0[j - n0]);
        assert(nested_ok::<ProtectionSchemeInfoBox>(v.protection_information[j - n0]));
        lemma_nested_cons::<ProtectionSchemeInfoBox>(v.protection_information[j - n0], Seq::empty());
    }
}

/// Collecting over the lists of a ipro one after the other collects over each in
/// turn.
proof fn lemma_ipro_split<T: BoxBody>(m0: Seq<UnknownBoxModel>)
    ensures
        collect_children::<T>(m0) == collect_children::<T>(m0),
{
}

/// The boxes that a ipro writes collect back into its field `protection_information`.
#[verifier::spinoff_prover]
#[verifier::rlimit(60)]
proof fn lemma_ipro_collect_protection_information(v: ItemProtectionBoxModel)
    requires
        ipro_canonical(v),
        ipro_types_differ(),
    ensures
        collect_children::<ProtectionSchemeInfoBox>(ipro_models(v)) == v.protection_information,
{
    lemma_ipro_split::<ProtectionSchemeInfoBox>(nested_models::<ProtectionSchemeInfoBox>(v.protection_information));
    lemma_nested_collect_own::<ProtectionSchemeInfoBox>(v.protection_information);
    assert(collect_children::<ProtectionSchemeInfoBox>(ipro_models(v)) =~= v.protection_information);
}

/// Writing a ipro and reading its payload back gives it again.
#[verifier::spinoff_prover]
#[verifier::rlimit(100)]
proof fn lemma_ipro_roundtrip(v: ItemProtectionBoxModel)
    requires
        ipro_canonical(v),
    ensures
        ipro_parse(ipro_bytes(v)) == Ok::<ItemProtectionBoxModel, IsoError>(v),
{
    let s = ipro_bytes(v);
    assert(s.skip(6) =~= ipro_children_bytes(v));
    assert(s.subrange(1, 4) =~= u24_bytes(v.full_header.flags));
    lemma_u24_at(s, 1, v.full_header.flags);
    assert(s.subrange(4, 6) =~= u16_bytes(v.protection_count));
    lemma_u16_at(s, 4, v.protection_count);
    lemma_ipro_children(v);
    lemma_ipro_types();
    let cs = ipro_models(v);
    let fault = |c: UnknownBoxModel| ipro_fault(c);
    assert forall|j: int| 0 <= j < cs.len() implies (#[trigger] fault(cs[j])) is None by {
        lemma_ipro_no_fault(v, j);
    }
    lemma_first_fault(cs, fault, cs.len() as int);
    assert(cs.take(cs.len() as int) =~= cs);
    lemma_ipro_collect_protection_information(v);
    assert(spec_children(s.skip(6)) == cs);
}

/// For a value that reads back as itself, the size is that of its payload and header.
#[verifier::spinoff_prover]
#[verifier::rlimit(60)]
proof fn lemma_ipro_size(x: ItemProtectionBox)
    requires
        ipro_canonical(x@),
    ensures
        6 + nested_sizes::<ProtectionSchemeInfoBox>(x.protection_information@) == ipro_bytes(x@).len(),
{
    let v = x@;
    lemma_nested_sizes::<ProtectionSchemeInfoBox>(x.protection_information@);
}

impl BoxBody for ItemProtectionBox {
    open spec fn spec_box_type() -> [u8; 4] {
        [0x69u8, 0x70u8, 0x72u8, 0x6fu8]
    }

    fn box_type() -> (r: [u8; 4]) {
        [0x69u8, 0x70u8, 0x72u8, 0x6fu8]
    }

    open spec fn spec_parse_body(s: Seq<u8>) -> Result<ItemProtectionBoxModel, IsoError> {
        ipro_parse(s)
    }

    open spec fn spec_writable(v: ItemProtectionBoxModel) -> bool {
        ipro_writable(v)
    }

    open spec fn spec_serialize_body(v: ItemProtectionBoxModel) -> Seq<u8> {
        ipro_bytes(v)
    }

    open spec fn spec_canonical(v: ItemProtectionBoxModel) -> bool {
        ipro_canonical(v)
    }

    proof fn lemma_box_type() {
        assert(Self::spec_box_type()[0] != spec_uuid_fourcc()[0]);
    }

    proof fn lemma_body_size(x: ItemProtectionBox) {
        lemma_ipro_size(x);
    }

    proof fn lemma_body_roundtrip(v: ItemProtectionBoxModel) {
        lemma_ipro_roundtrip(v);
    }

    fn parse_body(payload: &[u8]) -> (r: Result<ItemProtectionBox, IsoError>) {
        parse_ipro(payload)
    }

    #[verifier::spinoff_prover]
    #[verifier::rlimit(60)]
    fn serialize_body(&self, out: &mut Vec<u8>) -> (r: Result<(), IsoError>) {
        let ghost before = out@;
        write_u8(out, self.full_header.version);
        write_u24(out, self.full_header.flags);
        write_u16(out, self.protection_count);
        let ghost mid = out@;
        proof {
            assert(mid =~= before + (seq![self@.full_header.version] + u24_bytes(self@.full_header.flags) + u16_bytes(self@.protection_count)));
            lemma_append_prefix(before, seq![self@.full_header.version] + u24_bytes(self@.full_header.flags) + u16_bytes(self@.protection_count));
        }
        let r = write_ipro_children(self, out);
        proof {
            if r is Err {
                lemma_prefix_trans(before, mid, out@);
            } else {
                assert(out@ =~= before + ipro_bytes(self@));
                lemma_append_prefix(before, ipro_bytes(self@));
            }
        }
        r
    }
}

/// Item property container box
///
/// `ipco`
///
/// ISO/IEC 14496-12 - 8.11.14
#[derive(Debug)]
pub struct ItemPropertyContainerBox {
    /// The contained [`ExtendedTypeBox`]. (optional)
    pub etyp: Option<ExtendedTypeBox>,
    /// The contained [`BrandProperty`] boxes. (any quantity)
    pub brnd: Vec<BrandProperty>,
    /// The contained [`ScrambleSchemeInfoBox`]es. (any quantity)
    pub scrb: Vec<ScrambleSchemeInfoBox>,
    /// The properties of other types, kept as they are.
    pub boxes: Vec<UnknownBox>,
}

/// The model of a [`ItemPropertyContainerBox`].
pub struct ItemPropertyContainerBoxModel {
    pub etyp: Option<<ExtendedTypeBox as View>::V>,
    pub brnd: Seq<<BrandProperty as View>::V>,
    pub scrb: Seq<<ScrambleSchemeInfoBox as View>::V>,
    pub boxes: Seq<UnknownBoxModel>,
}

impl View for ItemPropertyContainerBox {
    type V = ItemPropertyContainerBoxModel;

    open spec fn view(&self) -> ItemPropertyContainerBoxModel {
        ItemPropertyContainerBoxModel {
            etyp: opt_view(self.etyp),
            brnd: views(self.brnd@),
            scrb: views(self.scrb@),
            boxes: views(self.boxes@),
        }
    }
}

/// Whether a box found in a ipco has one of the types that it reads.
pub open spec fn ipco_known(c: UnknownBoxModel) -> bool {
    is_child::<ExtendedTypeBox>(c) || is_child::<BrandProperty>(c) || is_child::<ScrambleSchemeInfoBox>(c)
}

/// The failure of reading a box of a known type found in a ipco.
pub open spec fn ipco_fault(c: UnknownBoxModel) -> Option<IsoError> {
    if is_child::<ExtendedTypeBox>(c) {
        child_fault::<ExtendedTypeBox>(c)
    }     else if is_child::<BrandProperty>(c) {
        child_fault::<BrandProperty>(c)
    }     else if is_child::<ScrambleSchemeInfoBox>(c) {
        child_fault::<ScrambleSchemeInfoBox>(c)
    } else {
        None
    }
}

/// What a ipco reads from its payload: the boxes before the first that fails, each box of a known type in its field (the
/// last one for a single field, which must be there where it is required) and every
/// other box kept as it is.
pub open spec fn ipco_parse(s: Seq<u8>) -> Result<ItemPropertyContainerBoxModel, IsoError> {
    let cs = spec_children(s);
    match scan_result(cs, |c: UnknownBoxModel| ipco_fault(c)) {
        Err(e) => Err(e),
        Ok(k) => {
            let p = cs.take(k as int);
            Ok(
                ItemPropertyContainerBoxModel {
                    etyp: last_child::<ExtendedTypeBox>(p),
                    brnd: collect_children::<BrandProperty>(p),
                    scrb: collect_children::<ScrambleSchemeInfoBox>(p),
                    boxes: collect_unknown(p, |c: UnknownBoxModel| ipco_known(c)),
                },
            )
        },
    }
}

/// The bytes of the boxes that a ipco holds, in the order of its fields.
pub open spec fn ipco_children_bytes(v: ItemPropertyContainerBoxModel) -> Seq<u8> {
    nested_opt_bytes::<ExtendedTypeBox>(v.etyp)
        + nested_bytes::<BrandProperty>(v.brnd)
        + nested_bytes::<ScrambleSchemeInfoBox>(v.scrb)
        + ser_seq::<UnknownBox>(v.boxes)
}

/// The boxes, as found in a container, that a ipco writes.
pub open spec fn ipco_models(v: ItemPropertyContainerBoxModel) -> Seq<UnknownBoxModel> {
    nested_opt_models::<ExtendedTypeBox>(v.etyp)
        + nested_models::<BrandProperty>(v.brnd)
        + nested_models::<ScrambleSchemeInfoBox>(v.scrb)
        + v.boxes
}

/// The payload that a ipco writes.
pub open spec fn ipco_bytes(v: ItemPropertyContainerBoxModel) -> Seq<u8> {
    ipco_children_bytes(v)
}

/// Every box of a known type can be written.
pub open spec fn ipco_writable(v: ItemPropertyContainerBoxModel) -> bool {
    &&& nested_opt_writable::<ExtendedTypeBox>(v.etyp)
    &&& nested_all_writable::<BrandProperty>(v.brnd)
    &&& nested_all_writable::<ScrambleSchemeInfoBox>(v.scrb)
}

/// Every box of a known type reads back as itself, and every other box is of
/// another type and announces exactly its payload.
pub open spec fn ipco_canonical(v: ItemPropertyContainerBoxModel) -> bool {
    &&& nested_opt_ok::<ExtendedTypeBox>(v.etyp)
    &&& nested_all_ok::<BrandProperty>(v.brnd)
    &&& nested_all_ok::<ScrambleSchemeInfoBox>(v.scrb)
    &&& forall|i: int|
        0 <= i < v.boxes.len() ==> UnknownBox::spec_canonical(#[trigger] v.boxes[i]) && !ipco_known(
            v.boxes[i],
        )
}

impl IsoSized for ItemPropertyContainerBox {
    open spec fn spec_size(&self) -> nat {
        add_header_size(nested_opt_size::<ExtendedTypeBox>(self.etyp) + nested_sizes::<BrandProperty>(self.brnd@) + nested_sizes::<ScrambleSchemeInfoBox>(self.scrb@) + size_seq::<UnknownBox>(self.boxes@))
    }

    fn size(&self) -> (n: usize) {
        proof {
            lemma_size_seq_mono::<UnknownBox>(self.boxes@, 0);
        }
        let mut n: usize = 0;
        n = n + size_nested_opt(&self.etyp);
        n = n + size_nested_vec(&self.brnd);
        n = n + size_nested_vec(&self.scrb);
        n = n + size_all(&self.boxes);
        add_header_size_exec(n)
    }
}

/// The fields of a ipco read so far.
pub struct ItemPropertyContainerBoxScan {
    pub etyp: Option<ExtendedTypeBox>,
    pub brnd: Vec<BrandProperty>,
    pub scrb: Vec<ScrambleSchemeInfoBox>,
    pub boxes: Vec<UnknownBox>,
}

/// The model of a [`ItemPropertyContainerBoxScan`].
pub struct ItemPropertyContainerBoxScanModel {
    pub etyp: Option<<ExtendedTypeBox as View>::V>,
    pub brnd: Seq<<BrandProperty as View>::V>,
    pub scrb: Seq<<ScrambleSchemeInfoBox as View>::V>,
    pub boxes: Seq<UnknownBoxModel>,
}

impl View for ItemPropertyContainerBoxScan {
    type V = ItemPropertyContainerBoxScanModel;

    open spec fn view(&self) -> ItemPropertyContainerBoxScanModel {
        ItemPropertyContainerBoxScanModel {
            etyp: opt_view(self.etyp),
            brnd: views(self.brnd@),
            scrb: views(self.scrb@),
            boxes: views(self.boxes@),
        }
    }
}

/// What a ipco holds after reading the boxes of `p`.
pub open spec fn ipco_prefix(p: Seq<UnknownBoxModel>) -> ItemPropertyContainerBoxScanModel {
    ItemPropertyContainerBoxScanModel {
        etyp: last_child::<ExtendedTypeBox>(p),
        brnd: collect_children::<BrandProperty>(p),
        scrb: collect_children::<ScrambleSchemeInfoBox>(p),
        boxes: collect_unknown(p, |c: UnknownBoxModel| ipco_known(c)),
    }
}

/// What a ipco holds after reading one more box that does not fail.
pub open spec fn ipco_extend(m: ItemPropertyContainerBoxScanModel, c: UnknownBoxModel) -> ItemPropertyContainerBoxScanModel {
    ItemPropertyContainerBoxScanModel {
        etyp: match child_value::<ExtendedTypeBox>(c) {
            Some(v) => Some(v),
            None => m.etyp,
        },
        brnd: m.brnd + opt_seq(child_value::<BrandProperty>(c)),
        scrb: m.scrb + opt_seq(child_value::<ScrambleSchemeInfoBox>(c)),
        boxes: if ipco_known(c) {
            m.boxes
        } else {
            m.boxes.push(c)
        },
    }
}

/// The types that a ipco reads differ from one another.
pub open spec fn ipco_types_differ() -> bool {
    &&& ExtendedTypeBox::spec_box_type() != BrandProperty::spec_box_type()
    &&& ExtendedTypeBox::spec_box_type() != ScrambleSchemeInfoBox::spec_box_type()
    &&& BrandProperty::spec_box_type() != ScrambleSchemeInfoBox::spec_box_type()
}

proof fn lemma_ipco_types()
    ensures
        ipco_types_differ(),
{
    assert(ExtendedTypeBox::spec_box_type()[0] != BrandProperty::spec_box_type()[0]);
    assert(ExtendedTypeBox::spec_box_type()[0] != ScrambleSchemeInfoBox::spec_box_type()[0]);
    assert(BrandProperty::spec_box_type()[0] != ScrambleSchemeInfoBox::spec_box_type()[0]);
}

/// Reads one box found in a ipco into its field.
#[verifier::spinoff_prover]
#[verifier::rlimit(60)]
fn ipco_step(c: &UnknownBox, acc: &mut ItemPropertyContainerBoxScan) -> (r: Result<(), IsoError>)
    requires
        ipco_types_differ(),
    ensures
        match r {
            Ok(()) => ipco_fault(c@) is None && final(acc)@ == ipco_extend(old(acc)@, c@),
            Err(e) => ipco_fault(c@) == Some(e) && final(acc)@ == old(acc)@,
        },
{
    if is_child_exec::<ExtendedTypeBox>(c) {
        proof {
            lemma_child_other::<BrandProperty>(c@);
            lemma_child_other::<ScrambleSchemeInfoBox>(c@);
            lemma_child_read::<ExtendedTypeBox>(c@);
        }
        let r = replace_into(c, &mut acc.etyp);
        proof {
            if r is Err {
                assert(acc@ =~= old(acc)@);
            }
            if r is Ok {
                assert(opt_seq(child_value::<BrandProperty>(c@)) =~= Seq::<<BrandProperty as View>::V>::empty());
                assert(opt_seq(child_value::<ScrambleSchemeInfoBox>(c@)) =~= Seq::<<ScrambleSchemeInfoBox as View>::V>::empty());
                assert(acc@ =~= ipco_extend(old(acc)@, c@));
            }
        }
        r
    } else if is_child_exec::<BrandProperty>(c) {
        proof {
            lemma_child_other::<ExtendedTypeBox>(c@);
            lemma_child_other::<ScrambleSchemeInfoBox>(c@);
            lemma_child_read::<BrandProperty>(c@);
        }
        let ghost old_v = views(acc.brnd@);
        let r = collect_into(c, &mut acc.brnd);
        proof {
            if r is Err {
                assert(acc@ =~= old(acc)@);
            }
            if r is Ok {
                assert(views(acc.brnd@) =~= old_v + opt_seq(child_value::<BrandProperty>(c@)));
                assert(opt_seq(child_value::<ScrambleSchemeInfoBox>(c@)) =~= Seq::<<ScrambleSchemeInfoBox as View>::V>::empty());
                assert(acc@ =~= ipco_extend(old(acc)@, c@));
            }
        }
        r
    } else if is_child_exec::<ScrambleSchemeInfoBox>(c) {
        proof {
            lemma_child_other::<ExtendedTypeBox>(c@);
            lemma_child_other::<BrandProperty>(c@);
            lemma_child_read::<ScrambleSchemeInfoBox>(c@);
        }
        let ghost old_v = views(acc.scrb@);
        let r = collect_into(c, &mut acc.scrb);
        proof {
            if r is Err {
                assert(acc@ =~= old(acc)@);
            }
            if r is Ok {
                assert(views(acc.scrb@) =~= old_v + opt_seq(child_value::<ScrambleSchemeInfoBox>(c@)));
                assert(opt_seq(child_value::<BrandProperty>(c@)) =~= Seq::<<BrandProperty as View>::V>::empty());
                assert(acc@ =~= ipco_extend(old(acc)@, c@));
            }
        }
        r
    } else {
        proof {
            lemma_child_other::<ExtendedTypeBox>(c@);
            lemma_child_other::<BrandProperty>(c@);
            lemma_child_other::<ScrambleSchemeInfoBox>(c@);
        }
        let kept = UnknownBox { header: c.header, data: vstd::slice::slice_to_vec(c.data.as_slice()) };
        let ghost old_v = views(acc.boxes@);
        acc.boxes.push(kept);
        proof {
            assert(views(acc.boxes@) =~= old_v.push(c@));
            assert(opt_seq(child_value::<BrandProperty>(c@)) =~= Seq::<<BrandProperty as View>::V>::empty());
            assert(opt_seq(child_value::<ScrambleSchemeInfoBox>(c@)) =~= Seq::<<ScrambleSchemeInfoBox as View>::V>::empty());
            assert(acc@ =~= ipco_extend(old(acc)@, c@));
        }
        Ok(())
    }
}

/// Reading one more box extends what was read by it.
proof fn lemma_ipco_prefix_step(css: Seq<UnknownBoxModel>, i: int)
    requires
        0 <= i < css.len(),
    ensures
        ipco_prefix(css.take(i + 1)) == ipco_extend(ipco_prefix(css.take(i)), css[i]),
{
    lemma_collect_step::<ExtendedTypeBox>(css, i);
    lemma_collect_step::<BrandProperty>(css, i);
    lemma_collect_step::<ScrambleSchemeInfoBox>(css, i);
    lemma_unknown_step(css, |c: UnknownBoxModel| ipco_known(c), i);
    let a = ipco_prefix(css.take(i + 1));
    let b = ipco_extend(ipco_prefix(css.take(i)), css[i]);
    assert(a.brnd =~= b.brnd);
    assert(a.scrb =~= b.scrb);
    assert(a.boxes =~= b.boxes);
}

/// Reads the payload of a ipco.
#[verifier::spinoff_prover]
#[verifier::rlimit(60)]
fn parse_ipco(payload: &[u8]) -> (r: Result<ItemPropertyContainerBox, IsoError>)
    ensures
        match (ipco_parse(payload@), r) {
            (Ok(v), Ok(x)) => x@ == v,
            (Err(e), Err(f)) => e == f,
            _ => false,
        },
{
    let cs = read_children(payload);
    let ghost css = spec_children(payload@);
    let ghost fault = |c: UnknownBoxModel| ipco_fault(c);
    let mut acc = ItemPropertyContainerBoxScan {
        etyp: None,
        brnd: Vec::new(),
        scrb: Vec::new(),
        boxes: Vec::new(),
    };
    let mut i: usize = 0;
    let mut stop = false;
    proof {
        lemma_ipco_types();
        let e = css.take(0);
        assert(e =~= Seq::<UnknownBoxModel>::empty());
        assert(collect_children::<ExtendedTypeBox>(e) =~= Seq::<<ExtendedTypeBox as View>::V>::empty());
        assert(collect_children::<BrandProperty>(e) =~= Seq::<<BrandProperty as View>::V>::empty());
        assert(views(acc.brnd@) =~= Seq::<<BrandProperty as View>::V>::empty());
        assert(collect_children::<ScrambleSchemeInfoBox>(e) =~= Seq::<<ScrambleSchemeInfoBox as View>::V>::empty());
        assert(views(acc.scrb@) =~= Seq::<<ScrambleSchemeInfoBox as View>::V>::empty());
        assert(collect_unknown(e, |c: UnknownBoxModel| ipco_known(c)) =~= Seq::<UnknownBoxModel>::empty());
        assert(views(acc.boxes@) =~= Seq::<UnknownBoxModel>::empty());
        assert(acc@ =~= ipco_prefix(e));
    }
    while i < cs.len() && !stop
        invariant
            views(cs@) == css,
            css == spec_children(payload@),
            fault == (|c: UnknownBoxModel| ipco_fault(c)),
            ipco_types_differ(),
            i <= cs@.len(),
            forall|j: int| 0 <= j < i ==> (#[trigger] fault(css[j])) is None,
            stop ==> i < css.len() && fault(css[i as int]) == Some(IsoError::UnexpectedEof),
            acc@ == ipco_prefix(css.take(i as int)),
        decreases cs@.len() - i + (if stop { 0int } else { 1int }),
    {
        let c = &cs[i];
        proof {
            assert(c@ == css[i as int]);
            lemma_ipco_prefix_step(css, i as int);
        }
        match ipco_step(c, &mut acc) {
            Ok(()) => {
                i = i + 1;
            },
            Err(IsoError::UnexpectedEof) => {
                stop = true;
            },
            Err(e) => {
                proof {
                    lemma_first_fault(css, fault, i as int);
                }
                return Err(e);
            },
        }
    }
    proof {
        lemma_first_fault(css, fault, i as int);
        assert(first_fault(css, fault) == i);
    }
    let ItemPropertyContainerBoxScan { etyp, brnd, scrb, boxes } = acc;
    Ok(ItemPropertyContainerBox { etyp, brnd, scrb, boxes })
}

/// Writes the boxes of a ipco in the order of its fields.
#[verifier::spinoff_prover]
#[verifier::rlimit(60)]
fn write_ipco_children(x: &ItemPropertyContainerBox, out: &mut Vec<u8>) -> (r: Result<(), IsoError>)
    requires
        x.spec_size() <= usize::MAX,
    ensures
        write_matches(r, ipco_writable(x@), ipco_children_bytes(x@), old(out)@, final(out)@),
{
    let ghost before = out@;
    let ghost v = x@;
    if write_nested_opt(&x.etyp, out).is_err() {
        return Err(IsoError::InvalidData);
    }
    let ghost m1 = out@;
    proof {
        lemma_append_prefix(before, nested_opt_bytes::<ExtendedTypeBox>(v.etyp));
    }
    if write_nested_vec(&x.brnd, out).is_err() {
        proof {
            lemma_prefix_trans(before, m1, out@);
        }
        return Err(IsoError::InvalidData);
    }
    let ghost m2 = out@;
    proof {
        lemma_append_prefix(m1, nested_bytes::<BrandProperty>(v.brnd));
        lemma_prefix_trans(before, m1, m2);
    }
    if write_nested_vec(&x.scrb, out).is_err() {
        proof {
            lemma_prefix_trans(before, m2, out@);
        }
        return Err(IsoError::InvalidData);
    }
    let ghost m3 = out@;
    proof {
        lemma_append_prefix(m2, nested_bytes::<ScrambleSchemeInfoBox>(v.scrb));
        lemma_prefix_trans(before, m2, m3);
    }
    let _ = serialize_all(&x.boxes, out);
    assert(out@ == m3 + ser_seq::<UnknownBox>(v.boxes)) by {
        assert(views(x.boxes@) == v.boxes);
    }
    let ghost m4 = out@;
    proof {
        lemma_append_prefix(m3, ser_seq::<UnknownBox>(v.boxes));
        lemma_prefix_trans(before, m3, m4);
    }
    proof {
        let l1 = nested_opt_bytes::<ExtendedTypeBox>(v.etyp);
        assert(m1 == before + l1);
        let l2 = l1 + nested_bytes::<BrandProperty>(v.brnd);
        vstd::seq_lib::lemma_concat_associative(before, l1, nested_bytes::<BrandProperty>(v.brnd));
        assert(m2 == before + l2);
        let l3 = l2 + nested_bytes::<ScrambleSchemeInfoBox>(v.scrb);
        vstd::seq_lib::lemma_concat_associative(before, l2, nested_bytes::<ScrambleSchemeInfoBox>(v.scrb));
        assert(m3 == before + l3);
        let l4 = l3 + ser_seq::<UnknownBox>(v.boxes);
        vstd::seq_lib::lemma_concat_associative(before, l3, ser_seq::<UnknownBox>(v.boxes));
        assert(m4 == before + l4);
        assert(ipco_children_bytes(v) == l4);
        lemma_append_prefix(before, ipco_children_bytes(v));
    }
    Ok(())
}

/// The boxes that a ipco writes, read from their bytes one list after the other.
#[verifier::spinoff_prover]
#[verifier::rlimit(100)]
proof fn lemma_ipco_children_chain(v: ItemPropertyContainerBoxModel)
    requires
        ipco_canonical(v),
    ensures
        spec_children(nested_opt_bytes::<ExtendedTypeBox>(v.etyp) + (nested_bytes::<BrandProperty>(v.brnd) + (nested_bytes::<ScrambleSchemeInfoBox>(v.scrb) + (ser_seq::<UnknownBox>(v.boxes))))) == nested_opt_models::<ExtendedTypeBox>(v.etyp) + (nested_models::<BrandProperty>(v.brnd) + (nested_models::<ScrambleSchemeInfoBox>(v.scrb) + (v.boxes))),
{
    let b0 = nested_opt_bytes::<ExtendedTypeBox>(v.etyp);
    let s0 = nested_opt_models::<ExtendedTypeBox>(v.etyp);
    let b1 = nested_bytes::<BrandProperty>(v.brnd);
    let s1 = nested_models::<BrandProperty>(v.brnd);
    let b2 = nested_bytes::<ScrambleSchemeInfoBox>(v.scrb);
    let s2 = nested_models::<ScrambleSchemeInfoBox>(v.scrb);
    let b3 = ser_seq::<UnknownBox>(v.boxes);
    let s3 = v.boxes;
    crate::children::lemma_children_empty();
    let t3 = b3;
    let u3 = s3;
    assert(b3 + Seq::<u8>::empty() =~= b3);
    assert(s3 + Seq::<UnknownBoxModel>::empty() =~= s3);
    lemma_unknown_seq_rest(v.boxes, Seq::<u8>::empty());
    assert(spec_children(t3) == u3);
    let t2 = b2 + t3;
    let u2 = s2 + u3;
    lemma_nested_seq::<ScrambleSchemeInfoBox>(v.scrb, t3);
    assert(spec_children(t2) == u2);
    let t1 = b1 + t2;
    let u1 = s1 + u2;
    lemma_nested_seq::<BrandProperty>(v.brnd, t2);
    assert(spec_children(t1) == u1);
    let t0 = b0 + t1;
    let u0 = s0 + u1;
    lemma_nested_opt_seq::<ExtendedTypeBox>(v.etyp, t1);
    assert(spec_children(t0) == u0);
}

/// The boxes that a ipco writes read back as their models.
#[verifier::spinoff_prover]
#[verifier::rlimit(100)]
proof fn lemma_ipco_children(v: ItemPropertyContainerBoxModel)
    requires
        ipco_canonical(v),
    ensures
        spec_children(ipco_children_bytes(v)) == ipco_models(v),
{
    lemma_ipco_children_chain(v);
    let b0 = nested_opt_bytes::<ExtendedTypeBox>(v.etyp);
    let s0 = nested_opt_models::<ExtendedTypeBox>(v.etyp);
    let b1 = nested_bytes::<BrandProperty>(v.brnd);
    let s1 = nested_models::<BrandProperty>(v.brnd);
    let b2 = nested_bytes::<ScrambleSchemeInfoBox>(v.scrb);
    let s2 = nested_models::<ScrambleSchemeInfoBox>(v.scrb);
    let b3 = ser_seq::<UnknownBox>(v.boxes);
    let s3 = v.boxes;
    let t3 = b3;
    let u3 = s3;
    let t2 = b2 + t3;
    let u2 = s2 + u3;
    let t1 = b1 + t2;
    let u1 = s1 + u2;
    let t0 = b0 + t1;
    let u0 = s0 + u1;
    let t4 = Seq::<u8>::empty();
    let u4 = Seq::<UnknownBoxModel>::empty();
    assert(b3 + t4 =~= t3);
    assert(s3 + u4 =~= u3);
    let l0 = Seq::<u8>::empty();
    let k0 = Seq::<UnknownBoxModel>::empty();
    assert(l0 + t0 =~= t0);
    assert(k0 + u0 =~= u0);
    let l1 = b0;
    let k1 = s0;
    assert(l1 + t1 == l0 + t0);
    assert(k1 + u1 == k0 + u0);
    let l2 = l1 + b1;
    let k2 = k1 + s1;
    vstd::seq_lib::lemma_concat_associative(l1, b1, t2);
    vstd::seq_lib::lemma_concat_associative(k1, s1, u2);
    assert(l2 + t2 == l1 + t1);
    assert(k2 + u2 == k1 + u1);
    let l3 = l2 + b2;
    let k3 = k2 + s2;
    vstd::seq_lib::lemma_concat_associative(l2, b2, t3);
    vstd::seq_lib::lemma_concat_associative(k2, s2, u3);
    assert(l3 + t3 == l2 + t2);
    assert(k3 + u3 == k2 + u2);
    let l4 = l3 + b3;
    let k4 = k3 + s3;
    vstd::seq_lib::lemma_concat_associative(l3, b3, t4);
    vstd::seq_lib::lemma_concat_associative(k3, s3, u4);
    assert(l4 + t4 == l3 + t3);
    assert(k4 + u4 == k3 + u3);
    assert(l4 + t4 =~= l4);
    assert(k4 + u4 =~= k4);
    assert(ipco_children_bytes(v) == l4);
    assert(ipco_models(v) == k4);
}

/// No box that a ipco writes fails to read.
#[verifier::spinoff_prover]
#[verifier::rlimit(60)]
proof fn lemma_ipco_no_fault(v: ItemPropertyContainerBoxModel, j: int)
    requires
        ipco_canonical(v),
        ipco_types_differ(),
        0 <= j < ipco_models(v).len(),
    ensures
        ipco_fault(ipco_models(v)[j]) is None,
{
    let cs = ipco_models(v);
    let s0 = nested_opt_models::<ExtendedTypeBox>(v.etyp);
    let s1 = nested_models::<BrandProperty>(v.brnd);
    let s2 = nested_models::<ScrambleSchemeInfoBox>(v.scrb);
    let s3 = v.boxes;
    let n0: int = 0;
    let n1: int = n0 + s0.len();
    let n2: int = n1 + s1.len();
    let n3: int = n2 + s2.len();
    let n4: int = n3 + s3.len();
    if j < n1 {
        assert(cs[j] == s0[j - n0]);
        lemma_nested_cons::<ExtendedTypeBox>(v.etyp.unwrap(), Seq::empty());
    } else if j < n2 {
        assert(cs[j] == s1[j - n1]);
        assert(nested_ok::<BrandProperty>(v.brnd[j - n1]));
        lemma_nested_cons::<BrandProperty>(v.brnd[j - n1], Seq::empty());
    } else if j < n3 {
        assert(cs[j] == s2[j - n2]);
        assert(nested_ok::<ScrambleSchemeInfoBox>(v.scrb[j - n2]));
        lemma_nested_cons::<ScrambleSchemeInfoBox>(v.scrb[j - n2], Seq::empty());
    } else if j < n4 {
        assert(cs[j] == s3[j - n3]);
        assert(!ipco_known(v.boxes[j - n3]));
    }
}

/// Collecting over the lists of a ipco one after the other collects over each in
/// turn.
proof fn lemma_ipco_split<T: BoxBody>(m0: Seq<UnknownBoxModel>, m1: Seq<UnknownBoxModel>, m2: Seq<UnknownBoxModel>, m3: Seq<UnknownBoxModel>)
    ensures
        collect_children::<T>(m0 + m1 + m2 + m3) == collect_children::<T>(m0) + collect_children::<T>(m1) + collect_children::<T>(m2) + collect_children::<T>(m3),
{
    lemma_collect_add::<T>(m0 + m1 + m2, m3);
    lemma_collect_add::<T>(m0 + m1, m2);
    lemma_collect_add::<T>(m0, m1);
}

/// The boxes that a ipco writes collect back into its field `etyp`.
#[verifier::spinoff_prover]
#[verifier::rlimit(60)]
proof fn lemma_ipco_collect_etyp(v: ItemPropertyContainerBoxModel)
    requires
        ipco_canonical(v),
        ipco_types_differ(),
    ensures
        collect_children::<ExtendedTypeBox>(ipco_models(v)) == opt_seq(v.etyp),
{
    lemma_ipco_split::<ExtendedTypeBox>(nested_opt_models::<ExtendedTypeBox>(v.etyp), nested_models::<BrandProperty>(v.brnd), nested_models::<ScrambleSchemeInfoBox>(v.scrb), v.boxes);
    lemma_nested_opt_own::<ExtendedTypeBox>(v.etyp);
    lemma_nested_collect_other::<ExtendedTypeBox, BrandProperty>(v.brnd);
    lemma_nested_collect_other::<ExtendedTypeBox, ScrambleSchemeInfoBox>(v.scrb);
    assert forall|i: int| 0 <= i < v.boxes.len() implies !#[trigger] is_child::<ExtendedTypeBox>(v.boxes[i]) by {
        assert(!ipco_known(v.boxes[i]));
    }
    lemma_collect_none::<ExtendedTypeBox>(v.boxes);
    assert(collect_children::<ExtendedTypeBox>(ipco_models(v)) =~= opt_seq(v.etyp));
}

/// The boxes that a ipco writes collect back into its field `brnd`.
#[verifier::spinoff_prover]
#[verifier::rlimit(60)]
proof fn lemma_ipco_collect_brnd(v: ItemPropertyContainerBoxModel)
    requires
        ipco_canonical(v),
        ipco_types_differ(),
    ensures
        collect_children::<BrandProperty>(ipco_models(v)) == v.brnd,
{
    lemma_ipco_split::<BrandProperty>(nested_opt_models::<ExtendedTypeBox>(v.etyp), nested_models::<BrandProperty>(v.brnd), nested_models::<ScrambleSchemeInfoBox>(v.scrb), v.boxes);
    lemma_nested_opt_other::<BrandProperty, ExtendedTypeBox>(v.etyp);
    lemma_nested_collect_own::<BrandProperty>(v.brnd);
    lemma_nested_collect_other::<BrandProperty, ScrambleSchemeInfoBox>(v.scrb);
    assert forall|i: int| 0 <= i < v.boxes.len() implies !#[trigger] is_child::<BrandProperty>(v.boxes[i]) by {
        assert(!ipco_known(v.boxes[i]));
    }
    lemma_collect_none::<BrandProperty>(v.boxes);
    assert(collect_children::<BrandProperty>(ipco_models(v)) =~= v.brnd);
}

/// The boxes that a ipco writes collect back into its field `scrb`.
#[verifier::spinoff_prover]
#[verifier::rlimit(60)]
proof fn lemma_ipco_collect_scrb(v: ItemPropertyContainerBoxModel)
    requires
        ipco_canonical(v),
        ipco_types_differ(),
    ensures
        collect_children::<ScrambleSchemeInfoBox>(ipco_models(v)) == v.scrb,
{
    lemma_ipco_split::<ScrambleSchemeInfoBox>(nested_opt_models::<ExtendedTypeBox>(v.etyp), nested_models::<BrandProperty>(v.brnd), nested_models::<ScrambleSchemeInfoBox>(v.scrb), v.boxes);
    lemma_nested_opt_other::<ScrambleSchemeInfoBox, ExtendedTypeBox>(v.etyp);
    lemma_nested_collect_other::<ScrambleSchemeInfoBox, BrandProperty>(v.brnd);
    lemma_nested_collect_own::<ScrambleSchemeInfoBox>(v.scrb);
    assert forall|i: int| 0 <= i < v.boxes.len() implies !#[trigger] is_child::<ScrambleSchemeInfoBox>(v.boxes[i]) by {
        assert(!ipco_known(v.boxes[i]));
    }
    lemma_collect_none::<ScrambleSchemeInfoBox>(v.boxes);
    assert(collect_children::<ScrambleSchemeInfoBox>(ipco_models(v)) =~= v.scrb);
}

/// The boxes of other types that a ipco writes are collected back as they are.
#[verifier::spinoff_prover]
#[verifier::rlimit(60)]
proof fn lemma_ipco_unknown(v: ItemPropertyContainerBoxModel)
    requires
        ipco_canonical(v),
    ensures
        collect_unknown(ipco_models(v), |c: UnknownBoxModel| ipco_known(c)) == v.boxes,
{
    let known = |c: UnknownBoxModel| ipco_known(c);
    let s0 = nested_opt_models::<ExtendedTypeBox>(v.etyp);
    assert forall|i: int| 0 <= i < s0.len() implies #[trigger] known(s0[i]) by {}
    lemma_unknown_all_known(s0, known);
    let s1 = nested_models::<BrandProperty>(v.brnd);
    assert forall|i: int| 0 <= i < s1.len() implies #[trigger] known(s1[i]) by {}
    lemma_unknown_all_known(s1, known);
    let s2 = nested_models::<ScrambleSchemeInfoBox>(v.scrb);
    assert forall|i: int| 0 <= i < s2.len() implies #[trigger] known(s2[i]) by {}
    lemma_unknown_all_known(s2, known);
    let s3 = v.boxes;
    assert forall|i: int| 0 <= i < s3.len() implies !#[trigger] known(s3[i]) by {}
    lemma_unknown_none_known(s3, known);
    lemma_unknown_add(s0 + s1 + s2, s3, known);
    lemma_unknown_add(s0 + s1, s2, known);
    lemma_unknown_add(s0, s1, known);
    assert(collect_unknown(ipco_models(v), known) =~= v.boxes);
}

/// Writing a ipco and reading its payload back gives it again.
#[verifier::spinoff_prover]
#[verifier::rlimit(100)]
proof fn lemma_ipco_roundtrip(v: ItemPropertyContainerBoxModel)
    requires
        ipco_canonical(v),
    ensures
        ipco_parse(ipco_bytes(v)) == Ok::<ItemPropertyContainerBoxModel, IsoError>(v),
{
    let s = ipco_bytes(v);
    lemma_ipco_children(v);
    lemma_ipco_types();
    let cs = ipco_models(v);
    let fault = |c: UnknownBoxModel| ipco_fault(c);
    assert forall|j: int| 0 <= j < cs.len() implies (#[trigger] fault(cs[j])) is None by {
        lemma_ipco_no_fault(v, j);
    }
    lemma_first_fault(cs, fault, cs.len() as int);
    assert(cs.take(cs.len() as int) =~= cs);
    lemma_ipco_collect_etyp(v);
    lemma_ipco_collect_brnd(v);
    lemma_ipco_collect_scrb(v);
    lemma_ipco_unknown(v);
    assert(spec_children(s) == cs);
    assert(last_child::<ExtendedTypeBox>(cs) == v.etyp);
}

/// For a value that reads back as itself, the size is that of its payload and header.
#[verifier::spinoff_prover]
#[verifier::rlimit(60)]
proof fn lemma_ipco_size(x: ItemPropertyContainerBox)
    requires
        ipco_canonical(x@),
    ensures
        nested_opt_size::<ExtendedTypeBox>(x.etyp) + nested_sizes::<BrandProperty>(x.brnd@) + nested_sizes::<ScrambleSchemeInfoBox>(x.scrb@) + size_seq::<UnknownBox>(x.boxes@) == ipco_bytes(x@).len(),
{
    let v = x@;
    lemma_nested_opt_size::<ExtendedTypeBox>(x.etyp);
    lemma_nested_sizes::<BrandProperty>(x.brnd@);
    lemma_nested_sizes::<ScrambleSchemeInfoBox>(x.scrb@);
    assert(writable_seq::<UnknownBox>(views(x.boxes@)));
    lemma_size_seq::<UnknownBox>(x.boxes@);
}

impl BoxBody for ItemPropertyContainerBox {
    open spec fn spec_box_type() -> [u8; 4] {
        [0x69u8, 0x70u8, 0x63u8, 0x6fu8]
    }

    fn box_type() -> (r: [u8; 4]) {
        [0x69u8, 0x70u8, 0x63u8, 0x6fu8]
    }

    open spec fn spec_parse_body(s: Seq<u8>) -> Result<ItemPropertyContainerBoxModel, IsoError> {
        ipco_parse(s)
    }

    open spec fn spec_writable(v: ItemPropertyContainerBoxModel) -> bool {
        ipco_writable(v)
    }

    open spec fn spec_serialize_body(v: ItemPropertyContainerBoxModel) -> Seq<u8> {
        ipco_bytes(v)
    }

    open spec fn spec_canonical(v: ItemPropertyContainerBoxModel) -> bool {
        ipco_canonical(v)
    }

    proof fn lemma_box_type() {
        assert(Self::spec_box_type()[0] != spec_uuid_fourcc()[0]);
    }

    proof fn lemma_body_size(x: ItemPropertyContainerBox) {
        lemma_ipco_size(x);
    }

    proof fn lemma_body_roundtrip(v: ItemPropertyContainerBoxModel) {
        lemma_ipco_roundtrip(v);
    }

    fn parse_body(payload: &[u8]) -> (r: Result<ItemPropertyContainerBox, IsoError>) {
        parse_ipco(payload)
    }

    #[verifier::spinoff_prover]
    #[verifier::rlimit(60)]
    fn serialize_body(&self, out: &mut Vec<u8>) -> (r: Result<(), IsoError>) {
        write_ipco_children(self, out)
    }
}

/// Item properties box
///
/// `iprp`
///
/// ISO/IEC 14496-12 - 8.11.14
#[derive(Debug)]
pub struct ItemPropertiesBox {
    /// The contained [`ItemPropertyContainerBox`]. (mandatory)
    pub property_container: ItemPropertyContainerBox,
    /// The contained [`ItemPropertyAssociationBox`]es. (any quantity)
    pub association: Vec<ItemPropertyAssociationBox>,
}

/// The model of a [`ItemPropertiesBox`].
pub struct ItemPropertiesBoxModel {
    pub property_container: <ItemPropertyContainerBox as View>::V,
    pub association: Seq<<ItemPropertyAssociationBox as View>::V>,
}

impl View for ItemPropertiesBox {
    type V = ItemPropertiesBoxModel;

    open spec fn view(&self) -> ItemPropertiesBoxModel {
        ItemPropertiesBoxModel {
            property_container: self.property_container@,
            association: views(self.association@),
        }
    }
}

/// Whether a box found in a iprp has one of the types that it reads.
pub open spec fn iprp_known(c: UnknownBoxModel) -> bool {
    is_child::<ItemPropertyContainerBox>(c) || is_child::<ItemPropertyAssociationBox>(c)
}

/// The failure of reading a box of a known type found in a iprp.
pub open spec fn iprp_fault(c: UnknownBoxModel) -> Option<IsoError> {
    if is_child::<ItemPropertyContainerBox>(c) {
        child_fault::<ItemPropertyContainerBox>(c)
    }     else if is_child::<ItemPropertyAssociationBox>(c) {
        child_fault::<ItemPropertyAssociationBox>(c)
    } else {
        None
    }
}

/// What a iprp reads from its payload: the boxes before the first that fails, each box of a known type in its field (the
/// last one for a single field, which must be there where it is required) and every
/// other box kept as it is.
pub open spec fn iprp_parse(s: Seq<u8>) -> Result<ItemPropertiesBoxModel, IsoError> {
    let cs = spec_children(s);
    match scan_result(cs, |c: UnknownBoxModel| iprp_fault(c)) {
        Err(e) => Err(e),
        Ok(k) => {
            let p = cs.take(k as int);
            match last_child::<ItemPropertyContainerBox>(p) {
                None => Err(IsoError::InvalidData),
                Some(property_container) => Ok(
                    ItemPropertiesBoxModel {
                        property_container: property_container,
                        association: collect_children::<ItemPropertyAssociationBox>(p),
                    },
                ),
            }
        },
    }
}

/// The bytes of the boxes that a iprp holds, in the order of its fields.
pub open spec fn iprp_children_bytes(v: ItemPropertiesBoxModel) -> Seq<u8> {
    nested_box_bytes::<ItemPropertyContainerBox>(v.property_container)
        + nested_bytes::<ItemPropertyAssociationBox>(v.association)
}

/// The boxes, as found in a container, that a iprp writes.
pub open spec fn iprp_models(v: ItemPropertiesBoxModel) -> Seq<UnknownBoxModel> {
    seq![nested_model::<ItemPropertyContainerBox>(v.property_container)]
        + nested_models::<ItemPropertyAssociationBox>(v.association)
}

/// The payload that a iprp writes.
pub open spec fn iprp_bytes(v: ItemPropertiesBoxModel) -> Seq<u8> {
    iprp_children_bytes(v)
}

/// Every box of a known type can be written.
pub open spec fn iprp_writable(v: ItemPropertiesBoxModel) -> bool {
    &&& nested_writable::<ItemPropertyContainerBox>(v.property_container)
    &&& nested_all_writable::<ItemPropertyAssociationBox>(v.association)
}

/// Every box of a known type reads back as itself, and every other box is of
/// another type and announces exactly its payload.
pub open spec fn iprp_canonical(v: ItemPropertiesBoxModel) -> bool {
    &&& nested_ok::<ItemPropertyContainerBox>(v.property_container)
    &&& nested_all_ok::<ItemPropertyAssociationBox>(v.association)
}

impl IsoSized for ItemPropertiesBox {
    open spec fn spec_size(&self) -> nat {
        add_header_size(self.property_container.spec_size() + nested_sizes::<ItemPropertyAssociationBox>(self.association@))
    }

    fn size(&self) -> (n: usize) {
        let mut n: usize = 0;
        n = n + self.property_container.size();
        n = n + size_nested_vec(&self.association);
        add_header_size_exec(n)
    }
}

/// The fields of a iprp read so far.
pub struct ItemPropertiesBoxScan {
    pub property_container: Option<ItemPropertyContainerBox>,
    pub association: Vec<ItemPropertyAssociationBox>,
}

/// The model of a [`ItemPropertiesBoxScan`].
pub struct ItemPropertiesBoxScanModel {
    pub property_container: Option<<ItemPropertyContainerBox as View>::V>,
    pub association: Seq<<ItemPropertyAssociationBox as View>::V>,
}

impl View for ItemPropertiesBoxScan {
    type V = ItemPropertiesBoxScanModel;

    open spec fn view(&self) -> ItemPropertiesBoxScanModel {
        ItemPropertiesBoxScanModel {
            property_container: opt_view(self.property_container),
            association: views(self.association@),
        }
    }
}

/// What a iprp holds after reading the boxes of `p`.
pub open spec fn iprp_prefix(p: Seq<UnknownBoxModel>) -> ItemPropertiesBoxScanModel {
    ItemPropertiesBoxScanModel {
        property_container: last_child::<ItemPropertyContainerBox>(p),
        association: collect_children::<ItemPropertyAssociationBox>(p),
    }
}

/// What a iprp holds after reading one more box that does not fail.
pub open spec fn iprp_extend(m: ItemPropertiesBoxScanModel, c: UnknownBoxModel) -> ItemPropertiesBoxScanModel {
    ItemPropertiesBoxScanModel {
        property_container: match child_value::<ItemPropertyContainerBox>(c) {
            Some(v) => Some(v),
            None => m.property_container,
        },
        association: m.association + opt_seq(child_value::<ItemPropertyAssociationBox>(c)),
    }
}

/// The types that a iprp reads differ from one another.
pub open spec fn iprp_types_differ() -> bool {
    &&& ItemPropertyContainerBox::spec_box_type() != ItemPropertyAssociationBox::spec_box_type()
}

proof fn lemma_iprp_types()
    ensures
        iprp_types_differ(),
{
    assert(ItemPropertyContainerBox::spec_box_type()[2] != ItemPropertyAssociationBox::spec_box_type()[2]);
}

/// Reads one box found in a iprp into its field.
#[verifier::spinoff_prover]
#[verifier::rlimit(60)]
fn iprp_step(c: &UnknownBox, acc: &mut ItemPropertiesBoxScan) -> (r: Result<(), IsoError>)
    requires
        iprp_types_differ(),
    ensures
        match r {
            Ok(()) => iprp_fault(c@) is None && final(acc)@ == iprp_extend(old(acc)@, c@),
            Err(e) => iprp_fault(c@) == Some(e) && final(acc)@ == old(acc)@,
        },
{
    if is_child_exec::<ItemPropertyContainerBox>(c) {
        proof {
            lemma_child_other::<ItemPropertyAssociationBox>(c@);
            lemma_child_read::<ItemPropertyContainerBox>(c@);
        }
        let r = replace_into(c, &mut acc.property_container);
        proof {
            if r is Err {
                assert(acc@ =~= old(acc)@);
            }
            if r is Ok {
                assert(opt_seq(child_value::<ItemPropertyAssociationBox>(c@)) =~= Seq::<<ItemPropertyAssociationBox as View>::V>::empty());
                assert(acc@ =~= iprp_extend(old(acc)@, c@));
            }
        }
        r
    } else if is_child_exec::<ItemPropertyAssociationBox>(c) {
        proof {
            lemma_child_other::<ItemPropertyContainerBox>(c@);
            lemma_child_read::<ItemPropertyAssociationBox>(c@);
        }
        let ghost old_v = views(acc.association@);
        let r = collect_into(c, &mut acc.association);
        proof {
            if r is Err {
                assert(acc@ =~= old(acc)@);
            }
            if r is Ok {
                assert(views(acc.association@) =~= old_v + opt_seq(child_value::<ItemPropertyAssociationBox>(c@)));
                assert(acc@ =~= iprp_extend(old(acc)@, c@));
            }
        }
        r
    } else {
        proof {
            lemma_child_other::<ItemPropertyContainerBox>(c@);
            lemma_child_other::<ItemPropertyAssociationBox>(c@);
        }
        proof {
            assert(opt_seq(child_value::<ItemPropertyAssociationBox>(c@)) =~= Seq::<<ItemPropertyAssociationBox as View>::V>::empty());
            assert(acc@ =~= iprp_extend(old(acc)@, c@));
        }
        Ok(())
    }
}

/// Reading one more box extends what was read by it.
proof fn lemma_iprp_prefix_step(css: Seq<UnknownBoxModel>, i: int)
    requires
        0 <= i < css.len(),
    ensures
        iprp_prefix(css.take(i + 1)) == iprp_extend(iprp_prefix(css.take(i)), css[i]),
{
    lemma_collect_step::<ItemPropertyContainerBox>(css, i);
    lemma_collect_step::<ItemPropertyAssociationBox>(css, i);
    lemma_unknown_step(css, |c: UnknownBoxModel| iprp_known(c), i);
    let a = iprp_prefix(css.take(i + 1));
    let b = iprp_extend(iprp_prefix(css.take(i)), css[i]);
    assert(a.association =~= b.association);
}

/// Reads the payload of a iprp.
#[verifier::spinoff_prover]
#[verifier::rlimit(60)]
fn parse_iprp(payload: &[u8]) -> (r: Result<ItemPropertiesBox, IsoError>)
    ensures
        match (iprp_parse(payload@), r) {
            (Ok(v), Ok(x)) => x@ == v,
            (Err(e), Err(f)) => e == f,
            _ => false,
        },
{
    let cs = read_children(payload);
    let ghost css = spec_children(payload@);
    let ghost fault = |c: UnknownBoxModel| iprp_fault(c);
    let mut acc = ItemPropertiesBoxScan {
        property_container: None,
        association: Vec::new(),
    };
    let mut i: usize = 0;
    let mut stop = false;
    proof {
        lemma_iprp_types();
        let e = css.take(0);
        assert(e =~= Seq::<UnknownBoxModel>::empty());
        assert(collect_children::<ItemPropertyContainerBox>(e) =~= Seq::<<ItemPropertyContainerBox as View>::V>::empty());
        assert(collect_children::<ItemPropertyAssociationBox>(e) =~= Seq::<<ItemPropertyAssociationBox as View>::V>::empty());
        assert(views(acc.association@) =~= Seq::<<ItemPropertyAssociationBox as View>::V>::empty());
        assert(acc@ =~= iprp_prefix(e));
    }
    while i < cs.len() && !stop
        invariant
            views(cs@) == css,
            css == spec_children(payload@),
            fault == (|c: UnknownBoxModel| iprp_fault(c)),
            iprp_types_differ(),
            i <= cs@.len(),
            forall|j: int| 0 <= j < i ==> (#[trigger] fault(css[j])) is None,
            stop ==> i < css.len() && fault(css[i as int]) == Some(IsoError::UnexpectedEof),
            acc@ == iprp_prefix(css.take(i as int)),
        decreases cs@.len() - i + (if stop { 0int } else { 1int }),
    {
        let c = &cs[i];
        proof {
            assert(c@ == css[i as int]);
            lemma_iprp_prefix_step(css, i as int);
        }
        match iprp_step(c, &mut acc) {
            Ok(()) => {
                i = i + 1;
            },
            Err(IsoError::UnexpectedEof) => {
                stop = true;
            },
            Err(e) => {
                proof {
                    lemma_first_fault(css, fault, i as int);
                }
                return Err(e);
            },
        }
    }
    proof {
        lemma_first_fault(css, fault, i as int);
        assert(first_fault(css, fault) == i);
    }
    let ItemPropertiesBoxScan { property_container, association } = acc;
    let property_container = match property_container {
        Some(x) => x,
        None => {
            return Err(IsoError::InvalidData);
        },
    };
    Ok(ItemPropertiesBox { property_container, association })
}

/// Writes the boxes of a iprp in the order of its fields.
#[verifier::spinoff_prover]
#[verifier::rlimit(60)]
fn write_iprp_children(x: &ItemPropertiesBox, out: &mut Vec<u8>) -> (r: Result<(), IsoError>)
    requires
        x.spec_size() <= usize::MAX,
    ensures
        write_matches(r, iprp_writable(x@), iprp_children_bytes(x@), old(out)@, final(out)@),
{
    let ghost before = out@;
    let ghost v = x@;
    if write_nested(&x.property_container, out).is_err() {
        return Err(IsoError::InvalidData);
    }
    let ghost m1 = out@;
    proof {
        lemma_append_prefix(before, nested_box_bytes::<ItemPropertyContainerBox>(v.property_container));
    }
    if write_nested_vec(&x.association, out).is_err() {
        proof {
            lemma_prefix_trans(before, m1, out@);
        }
        return Err(IsoError::InvalidData);
    }
    let ghost m2 = out@;
    proof {
        lemma_append_prefix(m1, nested_bytes::<ItemPropertyAssociationBox>(v.association));
        lemma_prefix_trans(before, m1, m2);
    }
    proof {
        let l1 = nested_box_bytes::<ItemPropertyContainerBox>(v.property_container);
        assert(m1 == before + l1);
        let l2 = l1 + nested_bytes::<ItemPropertyAssociationBox>(v.association);
        vstd::seq_lib::lemma_concat_associative(before, l1, nested_bytes::<ItemPropertyAssociationBox>(v.association));
        assert(m2 == before + l2);
        assert(iprp_children_bytes(v) == l2);
        lemma_append_prefix(before, iprp_children_bytes(v));
    }
    Ok(())
}

/// The boxes that a iprp writes, read from their bytes one list after the other.
#[verifier::spinoff_prover]
#[verifier::rlimit(100)]
proof fn lemma_iprp_children_chain(v: ItemPropertiesBoxModel)
    requires
        iprp_canonical(v),
    ensures
        spec_children(nested_box_bytes::<ItemPropertyContainerBox>(v.property_container) + (nested_bytes::<ItemPropertyAssociationBox>(v.association))) == seq![nested_model::<ItemPropertyContainerBox>(v.property_container)] + (nested_models::<ItemPropertyAssociationBox>(v.association)),
{
    let b0 = nested_box_bytes::<ItemPropertyContainerBox>(v.property_container);
    let s0 = seq![nested_model::<ItemPropertyContainerBox>(v.property_container)];
    let b1 = nested_bytes::<ItemPropertyAssociationBox>(v.association);
    let s1 = nested_models::<ItemPropertyAssociationBox>(v.association);
    crate::children::lemma_children_empty();
    let t1 = b1;
    let u1 = s1;
    assert(b1 + Seq::<u8>::empty() =~= b1);
    assert(s1 + Seq::<UnknownBoxModel>::empty() =~= s1);
    lemma_nested_seq::<ItemPropertyAssociationBox>(v.association, Seq::<u8>::empty());
    assert(spec_children(t1) == u1);
    let t0 = b0 + t1;
    let u0 = s0 + u1;
    lemma_nested_cons::<ItemPropertyContainerBox>(v.property_container, t1);
    assert(spec_children(t0) == u0);
}

/// The boxes that a iprp writes read back as their models.
#[verifier::spinoff_prover]
#[verifier::rlimit(100)]
proof fn lemma_iprp_children(v: ItemPropertiesBoxModel)
    requires
        iprp_canonical(v),
    ensures
        spec_children(iprp_children_bytes(v)) == iprp_models(v),
{
    lemma_iprp_children_chain(v);
    let b0 = nested_box_bytes::<ItemPropertyContainerBox>(v.property_container);
    let s0 = seq![nested_model::<ItemPropertyContainerBox>(v.property_container)];
    let b1 = nested_bytes::<ItemPropertyAssociationBox>(v.association);
    let s1 = nested_models::<ItemPropertyAssociationBox>(v.association);
    let t1 = b1;
    let u1 = s1;
    let t0 = b0 + t1;
    let u0 = s0 + u1;
    let t2 = Seq::<u8>::empty();
    let u2 = Seq::<UnknownBoxModel>::empty();
    assert(b1 + t2 =~= t1);
    assert(s1 + u2 =~= u1);
    let l0 = Seq::<u8>::empty();
    let k0 = Seq::<UnknownBoxModel>::empty();
    assert(l0 + t0 =~= t0);
    assert(k0 + u0 =~= u0);
    let l1 = b0;
    let k1 = s0;
    assert(l1 + t1 == l0 + t0);
    assert(k1 + u1 == k0 + u0);
    let l2 = l1 + b1;
    let k2 = k1 + s1;
    vstd::seq_lib::lemma_concat_associative(l1, b1, t2);
    vstd::seq_lib::lemma_concat_associative(k1, s1, u2);
    assert(l2 + t2 == l1 + t1);
    assert(k2 + u2 == k1 + u1);
    assert(l2 + t2 =~= l2);
    assert(k2 + u2 =~= k2);
    assert(iprp_children_bytes(v) == l2);
    assert(iprp_models(v) == k2);
}

/// No box that a iprp writes fails to read.
#[verifier::spinoff_prover]
#[verifier::rlimit(60)]
proof fn lemma_iprp_no_fault(v: ItemPropertiesBoxModel, j: int)
    requires
        iprp_canonical(v),
        iprp_types_differ(),
        0 <= j < iprp_models(v).len(),
    ensures
        iprp_fault(iprp_models(v)[j]) is None,
{
    let cs = iprp_models(v);
    let s0 = seq![nested_model::<ItemPropertyContainerBox>(v.property_container)];
    let s1 = nested_models::<ItemPropertyAssociationBox>(v.association);
    let n0: int = 0;
    let n1: int = n0 + s0.len();
    let n2: int = n1 + s1.len();
    if j < n1 {
        assert(cs[j] == s0[j - n0]);
        lemma_nested_cons::<ItemPropertyContainerBox>(v.property_container, Seq::empty());
    } else if j < n2 {
        assert(cs[j] == s1[j - n1]);
        assert(nested_ok::<ItemPropertyAssociationBox>(v.association[j - n1]));
        lemma_nested_cons::<ItemPropertyAssociationBox>(v.association[j - n1], Seq::empty());
    }
}

/// Collecting over the lists of a iprp one after the other collects over each in
/// turn.
proof fn lemma_iprp_split<T: BoxBody>(m0: Seq<UnknownBoxModel>, m1: Seq<UnknownBoxModel>)
    ensures
        collect_children::<T>(m0 + m1) == collect_children::<T>(m0) + collect_children::<T>(m1),
{
    lemma_collect_add::<T>(m0, m1);
}

/// The boxes that a iprp writes collect back into its field `property_container`.
#[verifier::spinoff_prover]
#[verifier::rlimit(60)]
proof fn lemma_iprp_collect_property_container(v: ItemPropertiesBoxModel)
    requires
        iprp_canonical(v),
        iprp_types_differ(),
    ensures
        collect_children::<ItemPropertyContainerBox>(iprp_models(v)) == seq![v.property_container],
{
    lemma_iprp_split::<ItemPropertyContainerBox>(seq![nested_model::<ItemPropertyContainerBox>(v.property_container)], nested_models::<ItemPropertyAssociationBox>(v.association));
    lemma_nested_opt_own::<ItemPropertyContainerBox>(Some(v.property_container));
    assert(nested_opt_models::<ItemPropertyContainerBox>(Some(v.property_container)) == seq![nested_model::<ItemPropertyContainerBox>(v.property_container)]);
    lemma_nested_collect_other::<ItemPropertyContainerBox, ItemPropertyAssociationBox>(v.association);
    assert(collect_children::<ItemPropertyContainerBox>(iprp_models(v)) =~= seq![v.property_container]);
}

/// The boxes that a iprp writes collect back into its field `association`.
#[verifier::spinoff_prover]
#[verifier::rlimit(60)]
proof fn lemma_iprp_collect_association(v: ItemPropertiesBoxModel)
    requires
        iprp_canonical(v),
        iprp_types_differ(),
    ensures
        collect_children::<ItemPropertyAssociationBox>(iprp_models(v)) == v.association,
{
    lemma_iprp_split::<ItemPropertyAssociationBox>(seq![nested_model::<ItemPropertyContainerBox>(v.property_container)], nested_models::<ItemPropertyAssociationBox>(v.association));
    lemma_nested_opt_other::<ItemPropertyAssociationBox, ItemPropertyContainerBox>(Some(v.property_container));
    assert(nested_opt_models::<ItemPropertyContainerBox>(Some(v.property_container)) == seq![nested_model::<ItemPropertyContainerBox>(v.property_container)]);
    lemma_nested_collect_own::<ItemPropertyAssociationBox>(v.association);
    assert(collect_children::<ItemPropertyAssociationBox>(iprp_models(v)) =~= v.association);
}

/// Writing a iprp and reading its payload back gives it again.
#[verifier::spinoff_prover]
#[verifier::rlimit(100)]
proof fn lemma_iprp_roundtrip(v: ItemPropertiesBoxModel)
    requires
        iprp_canonical(v),
    ensures
        iprp_parse(iprp_bytes(v)) == Ok::<ItemPropertiesBoxModel, IsoError>(v),
{
    let s = iprp_bytes(v);
    lemma_iprp_children(v);
    lemma_iprp_types();
    let cs = iprp_models(v);
    let fault = |c: UnknownBoxModel| iprp_fault(c);
    assert forall|j: int| 0 <= j < cs.len() implies (#[trigger] fault(cs[j])) is None by {
        lemma_iprp_no_fault(v, j);
    }
    lemma_first_fault(cs, fault, cs.len() as int);
    assert(cs.take(cs.len() as int) =~= cs);
    lemma_iprp_collect_property_container(v);
    lemma_iprp_collect_association(v);
    assert(spec_children(s) == cs);
    assert(last_child::<ItemPropertyContainerBox>(cs) == Some(v.property_container));
}

/// For a value that reads back as itself, the size is that of its payload and header.
#[verifier::spinoff_prover]
#[verifier::rlimit(60)]
proof fn lemma_iprp_size(x: ItemPropertiesBox)
    requires
        iprp_canonical(x@),
    ensures
        x.property_container.spec_size() + nested_sizes::<ItemPropertyAssociationBox>(x.association@) == iprp_bytes(x@).len(),
{
    let v = x@;
    lemma_nested_size::<ItemPropertyContainerBox>(x.property_container);
    lemma_nested_sizes::<ItemPropertyAssociationBox>(x.association@);
}

impl BoxBody for ItemPropertiesBox {
    open spec fn spec_box_type() -> [u8; 4] {
        [0x69u8, 0x70u8, 0x72u8, 0x70u8]
    }

    fn box_type() -> (r: [u8; 4]) {
        [0x69u8, 0x70u8, 0x72u8, 0x70u8]
    }

    open spec fn spec_parse_body(s: Seq<u8>) -> Result<ItemPropertiesBoxModel, IsoError> {
        iprp_parse(s)
    }

    open spec fn spec_writable(v: ItemPropertiesBoxModel) -> bool {
        iprp_writable(v)
    }

    open spec fn spec_serialize_body(v: ItemPropertiesBoxModel) -> Seq<u8> {
        iprp_bytes(v)
    }

    open spec fn spec_canonical(v: ItemPropertiesBoxModel) -> bool {
        iprp_canonical(v)
    }

    proof fn lemma_box_type() {
        assert(Self::spec_box_type()[0] != spec_uuid_fourcc()[0]);
    }

    proof fn lemma_body_size(x: ItemPropertiesBox) {
        lemma_iprp_size(x);
    }

    proof fn lemma_body_roundtrip(v: ItemPropertiesBoxModel) {
        lemma_iprp_roundtrip(v);
    }

    fn parse_body(payload: &[u8]) -> (r: Result<ItemPropertiesBox, IsoError>) {
        parse_iprp(payload)
    }

    #[verifier::spinoff_prover]
    #[verifier::rlimit(60)]
    fn serialize_body(&self, out: &mut Vec<u8>) -> (r: Result<(), IsoError>) {
        write_iprp_children(self, out)
    }
}

/// Meta box
///
/// `meta`
///
/// ISO/IEC 14496-12 - 8.11.1
#[derive(Debug)]
pub struct MetaBox {
    /// The version and flags of the box.
    pub full_header: FullBoxHeader,
    /// The contained [`HandlerBox`]. (mandatory)
    pub hdlr: HandlerBox,
    /// The contained [`DataInformationBox`]. (optional)
    pub dinf: Option<DataInformationBox>,
    /// The contained [`ItemLocationBox`]. (optional)
    pub iloc: Option<ItemLocationBox>,
    /// The contained [`ItemProtectionBox`]. (optional)
    pub ipro: Option<ItemProtectionBox>,
    /// The contained [`ItemInfoBox`]. (optional)
    pub iinf: Option<ItemInfoBox>,
    /// The contained [`XmlBox`]. (optional)
    pub xml: Option<XmlBox>,
    /// The contained [`BinaryXmlBox`]. (optional)
    pub bxml: Option<BinaryXmlBox>,
    /// The contained [`PrimaryItemBox`]. (optional)
    pub pitm: Option<PrimaryItemBox>,
    /// The contained [`FDItemInformationBox`]. (optional)
    pub fiin: Option<FDItemInformationBox>,
    /// The contained [`ItemDataBox`]. (optional)
    pub idat: Option<ItemDataBox>,
    /// The contained [`ItemReferenceBox`]. (optional)
    pub iref: Option<ItemReferenceBox>,
    /// The contained [`ItemPropertiesBox`]. (optional)
    pub iprp: Option<ItemPropertiesBox>,
    /// The contained [`GroupsListBox`]. (optional)
    pub grpl: Option<GroupsListBox>,
    /// The boxes of other types, kept as they are.
    pub unknown_boxes: Vec<UnknownBox>,
}

/// The model of a [`MetaBox`].
pub struct MetaBoxModel {
    pub full_header: FullBoxHeader,
    pub hdlr: <HandlerBox as View>::V,
    pub dinf: Option<<DataInformationBox as View>::V>,
    pub iloc: Option<<ItemLocationBox as View>::V>,
    pub ipro: Option<<ItemProtectionBox as View>::V>,
    pub iinf: Option<<ItemInfoBox as View>::V>,
    pub xml: Option<<XmlBox as View>::V>,
    pub bxml: Option<<BinaryXmlBox as View>::V>,
    pub pitm: Option<<PrimaryItemBox as View>::V>,
    pub fiin: Option<<FDItemInformationBox as View>::V>,
    pub idat: Option<<ItemDataBox as View>::V>,
    pub iref: Option<<ItemReferenceBox as View>::V>,
    pub iprp: Option<<ItemPropertiesBox as View>::V>,
    pub grpl: Option<<GroupsListBox as View>::V>,
    pub unknown_boxes: Seq<UnknownBoxModel>,
}

impl View for MetaBox {
    type V = MetaBoxModel;

    open spec fn view(&self) -> MetaBoxModel {
        MetaBoxModel {
            full_header: self.full_header,
            hdlr: self.hdlr@,
            dinf: opt_view(self.dinf),
            iloc: opt_view(self.iloc),
            ipro: opt_view(self.ipro),
            iinf: opt_view(self.iinf),
            xml: opt_view(self.xml),
            bxml: opt_view(self.bxml),
            pitm: opt_view(self.pitm),
            fiin: opt_view(self.fiin),
            idat: opt_view(self.idat),
            iref: opt_view(self.iref),
            iprp: opt_view(self.iprp),
            grpl: opt_view(self.grpl),
            unknown_boxes: views(self.unknown_boxes@),
        }
    }
}

/// Whether a box found in a meta has one of the types that it reads.
pub open spec fn meta_known(c: UnknownBoxModel) -> bool {
    is_child::<HandlerBox>(c) || is_child::<DataInformationBox>(c) || is_child::<ItemLocationBox>(c) || is_child::<ItemProtectionBox>(c) || is_child::<ItemInfoBox>(c) || is_child::<XmlBox>(c) || is_child::<BinaryXmlBox>(c) || is_child::<PrimaryItemBox>(c) || is_child::<FDItemInformationBox>(c) || is_child::<ItemDataBox>(c) || is_child::<ItemReferenceBox>(c) || is_child::<ItemPropertiesBox>(c) || is_child::<GroupsListBox>(c)
}

/// The failure of reading a box of a known type found in a meta.
pub open spec fn meta_fault(c: UnknownBoxModel) -> Option<IsoError> {
    if is_child::<HandlerBox>(c) {
        child_fault::<HandlerBox>(c)
    }     else if is_child::<DataInformationBox>(c) {
        child_fault::<DataInformationBox>(c)
    }     else if is_child::<ItemLocationBox>(c) {
        child_fault::<ItemLocationBox>(c)
    }     else if is_child::<ItemProtectionBox>(c) {
        child_fault::<ItemProtectionBox>(c)
    }     else if is_child::<ItemInfoBox>(c) {
        child_fault::<ItemInfoBox>(c)
    }     else if is_child::<XmlBox>(c) {
        child_fault::<XmlBox>(c)
    }     else if is_child::<BinaryXmlBox>(c) {
        child_fault::<BinaryXmlBox>(c)
    }     else if is_child::<PrimaryItemBox>(c) {
        child_fault::<PrimaryItemBox>(c)
    }     else if is_child::<FDItemInformationBox>(c) {
        child_fault::<FDItemInformationBox>(c)
    }     else if is_child::<ItemDataBox>(c) {
        child_fault::<ItemDataBox>(c)
    }     else if is_child::<ItemReferenceBox>(c) {
        child_fault::<ItemReferenceBox>(c)
    }     else if is_child::<ItemPropertiesBox>(c) {
        child_fault::<ItemPropertiesBox>(c)
    }     else if is_child::<GroupsListBox>(c) {
        child_fault::<GroupsListBox>(c)
    } else {
        None
    }
}

/// What a meta reads from its payload: the fields before its boxes, then the boxes before the first that fails, each box of a known type in its field (the
/// last one for a single field, which must be there where it is required) and every
/// other box kept as it is.
pub open spec fn meta_parse(s: Seq<u8>) -> Result<MetaBoxModel, IsoError> {
    if s.len() < 4 {
        Err(IsoError::UnexpectedEof)
    } else {
        let cs = spec_children(s.skip(4));
        match scan_result(cs, |c: UnknownBoxModel| meta_fault(c)) {
            Err(e) => Err(e),
            Ok(k) => {
                let p = cs.take(k as int);
                match last_child::<HandlerBox>(p) {
                    None => Err(IsoError::InvalidData),
                    Some(hdlr) => Ok(
                        MetaBoxModel {
                            full_header: FullBoxHeader { version: s[0], flags: be_u24_at(s, 1) },
                            hdlr: hdlr,
                            dinf: last_child::<DataInformationBox>(p),
                            iloc: last_child::<ItemLocationBox>(p),
                            ipro: last_child::<ItemProtectionBox>(p),
                            iinf: last_child::<ItemInfoBox>(p),
                            xml: last_child::<XmlBox>(p),
                            bxml: last_child::<BinaryXmlBox>(p),
                            pitm: last_child::<PrimaryItemBox>(p),
                            fiin: last_child::<FDItemInformationBox>(p),
                            idat: last_child::<ItemDataBox>(p),
                            iref: last_child::<ItemReferenceBox>(p),
                            iprp: last_child::<ItemPropertiesBox>(p),
                            grpl: last_child::<GroupsListBox>(p),
                            unknown_boxes: collect_unknown(p, |c: UnknownBoxModel| meta_known(c)),
                        },
                    ),
                }
            },
        }
    }
}

/// The bytes of the boxes that a meta holds, in the order of its fields.
pub open spec fn meta_children_bytes(v: MetaBoxModel) -> Seq<u8> {
    nested_box_bytes::<HandlerBox>(v.hdlr)
        + nested_opt_bytes::<DataInformationBox>(v.dinf)
        + nested_opt_bytes::<ItemLocationBox>(v.iloc)
        + nested_opt_bytes::<ItemProtectionBox>(v.ipro)
        + nested_opt_bytes::<ItemInfoBox>(v.iinf)
        + nested_opt_bytes::<XmlBox>(v.xml)
        + nested_opt_bytes::<BinaryXmlBox>(v.bxml)
        + nested_opt_bytes::<PrimaryItemBox>(v.pitm)
        + nested_opt_bytes::<FDItemInformationBox>(v.fiin)
        + nested_opt_bytes::<ItemDataBox>(v.idat)
        + nested_opt_bytes::<ItemReferenceBox>(v.iref)
        + nested_opt_bytes::<ItemPropertiesBox>(v.iprp)
        + nested_opt_bytes::<GroupsListBox>(v.grpl)
        + ser_seq::<UnknownBox>(v.unknown_boxes)
}

/// The boxes, as found in a container, that a meta writes.
pub open spec fn meta_models(v: MetaBoxModel) -> Seq<UnknownBoxModel> {
    seq![nested_model::<HandlerBox>(v.hdlr)]
        + nested_opt_models::<DataInformationBox>(v.dinf)
        + nested_opt_models::<ItemLocationBox>(v.iloc)
        + nested_opt_models::<ItemProtectionBox>(v.ipro)
        + nested_opt_models::<ItemInfoBox>(v.iinf)
        + nested_opt_models::<XmlBox>(v.xml)
        + nested_opt_models::<BinaryXmlBox>(v.bxml)
        + nested_opt_models::<PrimaryItemBox>(v.pitm)
        + nested_opt_models::<FDItemInformationBox>(v.fiin)
        + nested_opt_models::<ItemDataBox>(v.idat)
        + nested_opt_models::<ItemReferenceBox>(v.iref)
        + nested_opt_models::<ItemPropertiesBox>(v.iprp)
        + nested_opt_models::<GroupsListBox>(v.grpl)
        + v.unknown_boxes
}

/// The payload that a meta writes.
pub open spec fn meta_bytes(v: MetaBoxModel) -> Seq<u8> {
    seq![v.full_header.version] + u24_bytes(v.full_header.flags) + meta_children_bytes(v)
}

/// Every box of a known type can be written.
pub open spec fn meta_writable(v: MetaBoxModel) -> bool {
    &&& nested_writable::<HandlerBox>(v.hdlr)
    &&& nested_opt_writable::<DataInformationBox>(v.dinf)
    &&& nested_opt_writable::<ItemLocationBox>(v.iloc)
    &&& nested_opt_writable::<ItemProtectionBox>(v.ipro)
    &&& nested_opt_writable::<ItemInfoBox>(v.iinf)
    &&& nested_opt_writable::<XmlBox>(v.xml)
    &&& nested_opt_writable::<BinaryXmlBox>(v.bxml)
    &&& nested_opt_writable::<PrimaryItemBox>(v.pitm)
    &&& nested_opt_writable::<FDItemInformationBox>(v.fiin)
    &&& nested_opt_writable::<ItemDataBox>(v.idat)
    &&& nested_opt_writable::<ItemReferenceBox>(v.iref)
    &&& nested_opt_writable::<ItemPropertiesBox>(v.iprp)
    &&& nested_opt_writable::<GroupsListBox>(v.grpl)
}

/// The flags fit in 24 bits. Every box of a known type reads back as itself, and every other box is of
/// another type and announces exactly its payload.
pub open spec fn meta_canonical(v: MetaBoxModel) -> bool {
    &&& v.full_header.flags < 0x100_0000
    &&& nested_ok::<HandlerBox>(v.hdlr)
    &&& nested_opt_ok::<DataInformationBox>(v.dinf)
    &&& nested_opt_ok::<ItemLocationBox>(v.iloc)
    &&& nested_opt_ok::<ItemProtectionBox>(v.ipro)
    &&& nested_opt_ok::<ItemInfoBox>(v.iinf)
    &&& nested_opt_ok::<XmlBox>(v.xml)
    &&& nested_opt_ok::<BinaryXmlBox>(v.bxml)
    &&& nested_opt_ok::<PrimaryItemBox>(v.pitm)
    &&& nested_opt_ok::<FDItemInformationBox>(v.fiin)
    &&& nested_opt_ok::<ItemDataBox>(v.idat)
    &&& nested_opt_ok::<ItemReferenceBox>(v.iref)
    &&& nested_opt_ok::<ItemPropertiesBox>(v.iprp)
    &&& nested_opt_ok::<GroupsListBox>(v.grpl)
    &&& forall|i: int|
        0 <= i < v.unknown_boxes.len() ==> UnknownBox::spec_canonical(#[trigger] v.unknown_boxes[i]) && !meta_known(
            v.unknown_boxes[i],
        )
}

impl IsoSized for MetaBox {
    open spec fn spec_size(&self) -> nat {
        add_header_size(4 + self.hdlr.spec_size() + nested_opt_size::<DataInformationBox>(self.dinf) + nested_opt_size::<ItemLocationBox>(self.iloc) + nested_opt_size::<ItemProtectionBox>(self.ipro) + nested_opt_size::<ItemInfoBox>(self.iinf) + nested_opt_size::<XmlBox>(self.xml) + nested_opt_size::<BinaryXmlBox>(self.bxml) + nested_opt_size::<PrimaryItemBox>(self.pitm) + nested_opt_size::<FDItemInformationBox>(self.fiin) + nested_opt_size::<ItemDataBox>(self.idat) + nested_opt_size::<ItemReferenceBox>(self.iref) + nested_opt_size::<ItemPropertiesBox>(self.iprp) + nested_opt_size::<GroupsListBox>(self.grpl) + size_seq::<UnknownBox>(self.unknown_boxes@))
    }

    fn size(&self) -> (n: usize) {
        proof {
            lemma_size_seq_mono::<UnknownBox>(self.unknown_boxes@, 0);
        }
        let mut n: usize = 4;
        n = n + self.hdlr.size();
        n = n + size_nested_opt(&self.dinf);
        n = n + size_nested_opt(&self.iloc);
        n = n + size_nested_opt(&self.ipro);
        n = n + size_nested_opt(&self.iinf);
        n = n + size_nested_opt(&self.xml);
        n = n + size_nested_opt(&self.bxml);
        n = n + size_nested_opt(&self.pitm);
        n = n + size_nested_opt(&self.fiin);
        n = n + size_nested_opt(&self.idat);
        n = n + size_nested_opt(&self.iref);
        n = n + size_nested_opt(&self.iprp);
        n = n + size_nested_opt(&self.grpl);
        n = n + size_all(&self.unknown_boxes);
        add_header_size_exec(n)
    }
}

/// The fields of a meta read so far.
pub struct MetaBoxScan {
    pub hdlr: Option<HandlerBox>,
    pub dinf: Option<DataInformationBox>,
    pub iloc: Option<ItemLocationBox>,
    pub ipro: Option<ItemProtectionBox>,
    pub iinf: Option<ItemInfoBox>,
    pub xml: Option<XmlBox>,
    pub bxml: Option<BinaryXmlBox>,
    pub pitm: Option<PrimaryItemBox>,
    pub fiin: Option<FDItemInformationBox>,
    pub idat: Option<ItemDataBox>,
    pub iref: Option<ItemReferenceBox>,
    pub iprp: Option<ItemPropertiesBox>,
    pub grpl: Option<GroupsListBox>,
    pub unknown_boxes: Vec<UnknownBox>,
}

/// The model of a [`MetaBoxScan`].
pub struct MetaBoxScanModel {
    pub hdlr: Option<<HandlerBox as View>::V>,
    pub dinf: Option<<DataInformationBox as View>::V>,
    pub iloc: Option<<ItemLocationBox as View>::V>,
    pub ipro: Option<<ItemProtectionBox as View>::V>,
    pub iinf: Option<<ItemInfoBox as View>::V>,
    pub xml: Option<<XmlBox as View>::V>,
    pub bxml: Option<<BinaryXmlBox as View>::V>,
    pub pitm: Option<<PrimaryItemBox as View>::V>,
    pub fiin: Option<<FDItemInformationBox as View>::V>,
    pub idat: Option<<ItemDataBox as View>::V>,
    pub iref: Option<<ItemReferenceBox as View>::V>,
    pub iprp: Option<<ItemPropertiesBox as View>::V>,
    pub grpl: Option<<GroupsListBox as View>::V>,
    pub unknown_boxes: Seq<UnknownBoxModel>,
}

impl View for MetaBoxScan {
    type V = MetaBoxScanModel;

    open spec fn view(&self) -> MetaBoxScanModel {
        MetaBoxScanModel {
            hdlr: opt_view(self.hdlr),
            dinf: opt_view(self.dinf),
            iloc: opt_view(self.iloc),
            ipro: opt_view(self.ipro),
            iinf: opt_view(self.iinf),
            xml: opt_view(self.xml),
            bxml: opt_view(self.bxml),
            pitm: opt_view(self.pitm),
            fiin: opt_view(self.fiin),
            idat: opt_view(self.idat),
            iref: opt_view(self.iref),
            iprp: opt_view(self.iprp),
            grpl: opt_view(self.grpl),
            unknown_boxes: views(self.unknown_boxes@),
        }
    }
}

/// What a meta holds after reading the boxes of `p`.
pub open spec fn meta_prefix(p: Seq<UnknownBoxModel>) -> MetaBoxScanModel {
    MetaBoxScanModel {
        hdlr: last_child::<HandlerBox>(p),
        dinf: last_child::<DataInformationBox>(p),
        iloc: last_child::<ItemLocationBox>(p),
        ipro: last_child::<ItemProtectionBox>(p),
        iinf: last_child::<ItemInfoBox>(p),
        xml: last_child::<XmlBox>(p),
        bxml: last_child::<BinaryXmlBox>(p),
        pitm: last_child::<PrimaryItemBox>(p),
        fiin: last_child::<FDItemInformationBox>(p),
        idat: last_child::<ItemDataBox>(p),
        iref: last_child::<ItemReferenceBox>(p),
        iprp: last_child::<ItemPropertiesBox>(p),
        grpl: last_child::<GroupsListBox>(p),
        unknown_boxes: collect_unknown(p, |c: UnknownBoxModel| meta_known(c)),
    }
}

/// What a meta holds after reading one more box that does not fail.
pub open spec fn meta_extend(m: MetaBoxScanModel, c: UnknownBoxModel) -> MetaBoxScanModel {
    MetaBoxScanModel {
        hdlr: match child_value::<HandlerBox>(c) {
            Some(v) => Some(v),
            None => m.hdlr,
        },
        dinf: match child_value::<DataInformationBox>(c) {
            Some(v) => Some(v),
            None => m.dinf,
        },
        iloc: match child_value::<ItemLocationBox>(c) {
            Some(v) => Some(v),
            None => m.iloc,
        },
        ipro: match child_value::<ItemProtectionBox>(c) {
            Some(v) => Some(v),
            None => m.ipro,
        },
        iinf: match child_value::<ItemInfoBox>(c) {
            Some(v) => Some(v),
            None => m.iinf,
        },
        xml: match child_value::<XmlBox>(c) {
            Some(v) => Some(v),
            None => m.xml,
        },
        bxml: match child_value::<BinaryXmlBox>(c) {
            Some(v) => Some(v),
            None => m.bxml,
        },
        pitm: match child_value::<PrimaryItemBox>(c) {
            Some(v) => Some(v),
            None => m.pitm,
        },
        fiin: match child_value::<FDItemInformationBox>(c) {
            Some(v) => Some(v),
            None => m.fiin,
        },
        idat: match child_value::<ItemDataBox>(c) {
            Some(v) => Some(v),
            None => m.idat,
        },
        iref: match child_value::<ItemReferenceBox>(c) {
            Some(v) => Some(v),
            None => m.iref,
        },
        iprp: match child_value::<ItemPropertiesBox>(c) {
            Some(v) => Some(v),
            None => m.iprp,
        },
        grpl: match child_value::<GroupsListBox>(c) {
            Some(v) => Some(v),
            None => m.grpl,
        },
        unknown_boxes: if meta_known(c) {
            m.unknown_boxes
        } else {
            m.unknown_boxes.push(c)
        },
    }
}

/// The types that a meta reads differ from one another.
pub open spec fn meta_types_differ() -> bool {
    &&& HandlerBox::spec_box_type() != DataInformationBox::spec_box_type()
    &&& HandlerBox::spec_box_type() != ItemLocationBox::spec_box_type()
    &&& HandlerBox::spec_box_type() != ItemProtectionBox::spec_box_type()
    &&& HandlerBox::spec_box_type() != ItemInfoBox::spec_box_type()
    &&& HandlerBox::spec_box_type() != XmlBox::spec_box_type()
    &&& HandlerBox::spec_box_type() != BinaryXmlBox::spec_box_type()
    &&& HandlerBox::spec_box_type() != PrimaryItemBox::spec_box_type()
    &&& HandlerBox::spec_box_type() != FDItemInformationBox::spec_box_type()
    &&& HandlerBox::spec_box_type() != ItemDataBox::spec_box_type()
    &&& HandlerBox::spec_box_type() != ItemReferenceBox::spec_box_type()
    &&& HandlerBox::spec_box_type() != ItemPropertiesBox::spec_box_type()
    &&& HandlerBox::spec_box_type() != GroupsListBox::spec_box_type()
    &&& DataInformationBox::spec_box_type() != ItemLocationBox::spec_box_type()
    &&& DataInformationBox::spec_box_type() != ItemProtectionBox::spec_box_type()
    &&& DataInformationBox::spec_box_type() != ItemInfoBox::spec_box_type()
    &&& DataInformationBox::spec_box_type() != XmlBox::spec_box_type()
    &&& DataInformationBox::spec_box_type() != BinaryXmlBox::spec_box_type()
    &&& DataInformationBox::spec_box_type() != PrimaryItemBox::spec_box_type()
    &&& DataInformationBox::spec_box_type() != FDItemInformationBox::spec_box_type()
    &&& DataInformationBox::spec_box_type() != ItemDataBox::spec_box_type()
    &&& DataInformationBox::spec_box_type() != ItemReferenceBox::spec_box_type()
    &&& DataInformationBox::spec_box_type() != ItemPropertiesBox::spec_box_type()
    &&& DataInformationBox::spec_box_type() != GroupsListBox::spec_box_type()
    &&& ItemLocationBox::spec_box_type() != ItemProtectionBox::spec_box_type()
    &&& ItemLocationBox::spec_box_type() != ItemInfoBox::spec_box_type()
    &&& ItemLocationBox::spec_box_type() != XmlBox::spec_box_type()
    &&& ItemLocationBox::spec_box_type() != BinaryXmlBox::spec_box_type()
    &&& ItemLocationBox::spec_box_type() != PrimaryItemBox::spec_box_type()
    &&& ItemLocationBox::spec_box_type() != FDItemInformationBox::spec_box_type()
    &&& ItemLocationBox::spec_box_type() != ItemDataBox::spec_box_type()
    &&& ItemLocationBox::spec_box_type() != ItemReferenceBox::spec_box_type()
    &&& ItemLocationBox::spec_box_type() != ItemPropertiesBox::spec_box_type()
    &&& ItemLocationBox::spec_box_type() != GroupsListBox::spec_box_type()
    &&& ItemProtectionBox::spec_box_type() != ItemInfoBox::spec_box_type()
    &&& ItemProtectionBox::spec_box_type() != XmlBox::spec_box_type()
    &&& ItemProtectionBox::spec_box_type() != BinaryXmlBox::spec_box_type()
    &&& ItemProtectionBox::spec_box_type() != PrimaryItemBox::spec_box_type()
    &&& ItemProtectionBox::spec_box_type() != FDItemInformationBox::spec_box_type()
    &&& ItemProtectionBox::spec_box_type() != ItemDataBox::spec_box_type()
    &&& ItemProtectionBox::spec_box_type() != ItemReferenceBox::spec_box_type()
    &&& ItemProtectionBox::spec_box_type() != ItemPropertiesBox::spec_box_type()
    &&& ItemProtectionBox::spec_box_type() != GroupsListBox::spec_box_type()
    &&& ItemInfoBox::spec_box_type() != XmlBox::spec_box_type()
    &&& ItemInfoBox::spec_box_type() != BinaryXmlBox::spec_box_type()
    &&& ItemInfoBox::spec_box_type() != PrimaryItemBox::spec_box_type()
    &&& ItemInfoBox::spec_box_type() != FDItemInformationBox::spec_box_type()
    &&& ItemInfoBox::spec_box_type() != ItemDataBox::spec_box_type()
    &&& ItemInfoBox::spec_box_type() != ItemReferenceBox::spec_box_type()
    &&& ItemInfoBox::spec_box_type() != ItemPropertiesBox::spec_box_type()
    &&& ItemInfoBox::spec_box_type() != GroupsListBox::spec_box_type()
    &&& XmlBox::spec_box_type() != BinaryXmlBox::spec_box_type()
    &&& XmlBox::spec_box_type() != PrimaryItemBox::spec_box_type()
    &&& XmlBox::spec_box_type() != FDItemInformationBox::spec_box_type()
    &&& XmlBox::spec_box_type() != ItemDataBox::spec_box_type()
    &&& XmlBox::spec_box_type() != ItemReferenceBox::spec_box_type()
    &&& XmlBox::spec_box_type() != ItemPropertiesBox::spec_box_type()
    &&& XmlBox::spec_box_type() != GroupsListBox::spec_box_type()
    &&& BinaryXmlBox::spec_box_type() != PrimaryItemBox::spec_box_type()
    &&& BinaryXmlBox::spec_box_type() != FDItemInformationBox::spec_box_type()
    &&& BinaryXmlBox::spec_box_type() != ItemDataBox::spec_box_type()
    &&& BinaryXmlBox::spec_box_type() != ItemReferenceBox::spec_box_type()
    &&& BinaryXmlBox::spec_box_type() != ItemPropertiesBox::spec_box_type()
    &&& BinaryXmlBox::spec_box_type() != GroupsListBox::spec_box_type()
    &&& PrimaryItemBox::spec_box_type() != FDItemInformationBox::spec_box_type()
    &&& PrimaryItemBox::spec_box_type() != ItemDataBox::spec_box_type()
    &&& PrimaryItemBox::spec_box_type() != ItemReferenceBox::spec_box_type()
    &&& PrimaryItemBox::spec_box_type() != ItemPropertiesBox::spec_box_type()
    &&& PrimaryItemBox::spec_box_type() != GroupsListBox::spec_box_type()
    &&& FDItemInformationBox::spec_box_type() != ItemDataBox::spec_box_type()
    &&& FDItemInformationBox::spec_box_type() != ItemReferenceBox::spec_box_type()
    &&& FDItemInformationBox::spec_box_type() != ItemPropertiesBox::spec_box_type()
    &&& FDItemInformationBox::spec_box_type() != GroupsListBox::spec_box_type()
    &&& ItemDataBox::spec_box_type() != ItemReferenceBox::spec_box_type()
    &&& ItemDataBox::spec_box_type() != ItemPropertiesBox::spec_box_type()
    &&& ItemDataBox::spec_box_type() != GroupsListBox::spec_box_type()
    &&& ItemReferenceBox::spec_box_type() != ItemPropertiesBox::spec_box_type()
    &&& ItemReferenceBox::spec_box_type() != GroupsListBox::spec_box_type()
    &&& ItemPropertiesBox::spec_box_type() != GroupsListBox::spec_box_type()
}

proof fn lemma_meta_types()
    ensures
        meta_types_differ(),
{
    assert(HandlerBox::spec_box_type()[0] != DataInformationBox::spec_box_type()[0]);
    assert(HandlerBox::spec_box_type()[0] != ItemLocationBox::spec_box_type()[0]);
    assert(HandlerBox::spec_box_type()[0] != ItemProtectionBox::spec_box_type()[0]);
    assert(HandlerBox::spec_box_type()[0] != ItemInfoBox::spec_box_type()[0]);
    assert(HandlerBox::spec_box_type()[0] != XmlBox::spec_box_type()[0]);
    assert(HandlerBox::spec_box_type()[0] != BinaryXmlBox::spec_box_type()[0]);
    assert(HandlerBox::spec_box_type()[0] != PrimaryItemBox::spec_box_type()[0]);
    assert(HandlerBox::spec_box_type()[0] != FDItemInformationBox::spec_box_type()[0]);
    assert(HandlerBox::spec_box_type()[0] != ItemDataBox::spec_box_type()[0]);
    assert(HandlerBox::spec_box_type()[0] != ItemReferenceBox::spec_box_type()[0]);
    assert(HandlerBox::spec_box_type()[0] != ItemPropertiesBox::spec_box_type()[0]);
    assert(HandlerBox::spec_box_type()[0] != GroupsListBox::spec_box_type()[0]);
    assert(DataInformationBox::spec_box_type()[0] != ItemLocationBox::spec_box_type()[0]);
    assert(DataInformationBox::spec_box_type()[0] != ItemProtectionBox::spec_box_type()[0]);
    assert(DataInformationBox::spec_box_type()[0] != ItemInfoBox::spec_box_type()[0]);
    assert(DataInformationBox::spec_box_type()[0] != XmlBox::spec_box_type()[0]);
    assert(DataInformationBox::spec_box_type()[0] != BinaryXmlBox::spec_box_type()[0]);
    assert(DataInformationBox::spec_box_type()[0] != PrimaryItemBox::spec_box_type()[0]);
    assert(DataInformationBox::spec_box_type()[0] != FDItemInformationBox::spec_box_type()[0]);
    assert(DataInformationBox::spec_box_type()[0] != ItemDataBox::spec_box_type()[0]);
    assert(DataInformationBox::spec_box_type()[0] != ItemReferenceBox::spec_box_type()[0]);
    assert(DataInformationBox::spec_box_type()[0] != ItemPropertiesBox::spec_box_type()[0]);
    assert(DataInformationBox::spec_box_type()[0] != GroupsListBox::spec_box_type()[0]);
    assert(ItemLocationBox::spec_box_type()[1] != ItemProtectionBox::spec_box_type()[1]);
    assert(ItemLocationBox::spec_box_type()[1] != ItemInfoBox::spec_box_type()[1]);
    assert(ItemLocationBox::spec_box_type()[0] != XmlBox::spec_box_type()[0]);
    assert(ItemLocationBox::spec_box_type()[0] != BinaryXmlBox::spec_box_type()[0]);
    assert(ItemLocationBox::spec_box_type()[0] != PrimaryItemBox::spec_box_type()[0]);
    assert(ItemLocationBox::spec_box_type()[0] != FDItemInformationBox::spec_box_type()[0]);
    assert(ItemLocationBox::spec_box_type()[1] != ItemDataBox::spec_box_type()[1]);
    assert(ItemLocationBox::spec_box_type()[1] != ItemReferenceBox::spec_box_type()[1]);
    assert(ItemLocationBox::spec_box_type()[1] != ItemPropertiesBox::spec_box_type()[1]);
    assert(ItemLocationBox::spec_box_type()[0] != GroupsListBox::spec_box_type()[0]);
    assert(ItemProtectionBox::spec_box_type()[1] != ItemInfoBox::spec_box_type()[1]);
    assert(ItemProtectionBox::spec_box_type()[0] != XmlBox::spec_box_type()[0]);
    assert(ItemProtectionBox::spec_box_type()[0] != BinaryXmlBox::spec_box_type()[0]);
    assert(ItemProtectionBox::spec_box_type()[0] != PrimaryItemBox::spec_box_type()[0]);
    assert(ItemProtectionBox::spec_box_type()[0] != FDItemInformationBox::spec_box_type()[0]);
    assert(ItemProtectionBox::spec_box_type()[1] != ItemDataBox::spec_box_type()[1]);
    assert(ItemProtectionBox::spec_box_type()[1] != ItemReferenceBox::spec_box_type()[1]);
    assert(ItemProtectionBox::spec_box_type()[3] != ItemPropertiesBox::spec_box_type()[3]);
    assert(ItemProtectionBox::spec_box_type()[0] != GroupsListBox::spec_box_type()[0]);
    assert(ItemInfoBox::spec_box_type()[0] != XmlBox::spec_box_type()[0]);
    assert(ItemInfoBox::spec_box_type()[0] != BinaryXmlBox::spec_box_type()[0]);
    assert(ItemInfoBox::spec_box_type()[0] != PrimaryItemBox::spec_box_type()[0]);
    assert(ItemInfoBox::spec_box_type()[0] != FDItemInformationBox::spec_box_type()[0]);
    assert(ItemInfoBox::spec_box_type()[1] != ItemDataBox::spec_box_type()[1]);
    assert(ItemInfoBox::spec_box_type()[1] != ItemReferenceBox::spec_box_type()[1]);
    assert(ItemInfoBox::spec_box_type()[1] != ItemPropertiesBox::spec_box_type()[1]);
    assert(ItemInfoBox::spec_box_type()[0] != GroupsListBox::spec_box_type()[0]);
    assert(XmlBox::spec_box_type()[0] != BinaryXmlBox::spec_box_type()[0]);
    assert(XmlBox::spec_box_type()[0] != PrimaryItemBox::spec_box_type()[0]);
    assert(XmlBox::spec_box_type()[0] != FDItemInformationBox::spec_box_type()[0]);
    assert(XmlBox::spec_box_type()[0] != ItemDataBox::spec_box_type()[0]);
    assert(XmlBox::spec_box_type()[0] != ItemReferenceBox::spec_box_type()[0]);
    assert(XmlBox::spec_box_type()[0] != ItemPropertiesBox::spec_box_type()[0]);
    assert(XmlBox::spec_box_type()[0] != GroupsListBox::spec_box_type()[0]);
    assert(BinaryXmlBox::spec_box_type()[0] != PrimaryItemBox::spec_box_type()[0]);
    assert(BinaryXmlBox::spec_box_type()[0] != FDItemInformationBox::spec_box_type()[0]);
    assert(BinaryXmlBox::spec_box_type()[0] != ItemDataBox::spec_box_type()[0]);
    assert(BinaryXmlBox::spec_box_type()[0] != ItemReferenceBox::spec_box_type()[0]);
    assert(BinaryXmlBox::spec_box_type()[0] != ItemPropertiesBox::spec_box_type()[0]);
    assert(BinaryXmlBox::spec_box_type()[0] != GroupsListBox::spec_box_type()[0]);
    assert(PrimaryItemBox::spec_box_type()[0] != FDItemInformationBox::spec_box_type()[0]);
    assert(PrimaryItemBox::spec_box_type()[0] != ItemDataBox::spec_box_type()[0]);
    assert(PrimaryItemBox::spec_box_type()[0] != ItemReferenceBox::spec_box_type()[0]);
    assert(PrimaryItemBox::spec_box_type()[0] != ItemPropertiesBox::spec_box_type()[0]);
    assert(PrimaryItemBox::spec_box_type()[0] != GroupsListBox::spec_box_type()[0]);
    assert(FDItemInformationBox::spec_box_type()[0] != ItemDataBox::spec_box_type()[0]);
    assert(FDItemInformationBox::spec_box_type()[0] != ItemReferenceBox::spec_box_type()[0]);
    assert(FDItemInformationBox::spec_box_type()[0] != ItemPropertiesBox::spec_box_type()[0]);
    assert(FDItemInformationBox::spec_box_type()[0] != GroupsListBox::spec_box_type()[0]);
    assert(ItemDataBox::spec_box_type()[1] != ItemReferenceBox::spec_box_type()[1]);
    assert(ItemDataBox::spec_box_type()[1] != ItemPropertiesBox::spec_box_type()[1]);
    assert(ItemDataBox::spec_box_type()[0] != GroupsListBox::spec_box_type()[0]);
    assert(ItemReferenceBox::spec_box_type()[1] != ItemPropertiesBox::spec_box_type()[1]);
    assert(ItemReferenceBox::spec_box_type()[0] != GroupsListBox::spec_box_type()[0]);
    assert(ItemPropertiesBox::spec_box_type()[0] != GroupsListBox::spec_box_type()[0]);
}

/// Reads one box found in a meta into its field.
#[verifier::spinoff_prover]
#[verifier::rlimit(100)]
fn meta_step(c: &UnknownBox, acc: &mut MetaBoxScan) -> (r: Result<(), IsoError>)
    requires
        meta_types_differ(),
    ensures
        match r {
            Ok(()) => meta_fault(c@) is None && final(acc)@ == meta_extend(old(acc)@, c@),
            Err(e) => meta_fault(c@) == Some(e) && final(acc)@ == old(acc)@,
        },
{
    if is_child_exec::<HandlerBox>(c) {
        proof {
            lemma_child_other::<DataInformationBox>(c@);
            lemma_child_other::<ItemLocationBox>(c@);
            lemma_child_other::<ItemProtectionBox>(c@);
            lemma_child_other::<ItemInfoBox>(c@);
            lemma_child_other::<XmlBox>(c@);
            lemma_child_other::<BinaryXmlBox>(c@);
            lemma_child_other::<PrimaryItemBox>(c@);
            lemma_child_other::<FDItemInformationBox>(c@);
            lemma_child_other::<ItemDataBox>(c@);
            lemma_child_other::<ItemReferenceBox>(c@);
            lemma_child_other::<ItemPropertiesBox>(c@);
            lemma_child_other::<GroupsListBox>(c@);
            lemma_child_read::<HandlerBox>(c@);
        }
        let r = replace_into(c, &mut acc.hdlr);
        proof {
            if r is Err {
                assert(acc@ =~= old(acc)@);
            }
            if r is Ok {
                assert(acc@ =~= meta_extend(old(acc)@, c@));
            }
        }
        r
    } else if is_child_exec::<DataInformationBox>(c) {
        proof {
            lemma_child_other::<HandlerBox>(c@);
            lemma_child_other::<ItemLocationBox>(c@);
            lemma_child_other::<ItemProtectionBox>(c@);
            lemma_child_other::<ItemInfoBox>(c@);
            lemma_child_other::<XmlBox>(c@);
            lemma_child_other::<BinaryXmlBox>(c@);
            lemma_child_other::<PrimaryItemBox>(c@);
            lemma_child_other::<FDItemInformationBox>(c@);
            lemma_child_other::<ItemDataBox>(c@);
            lemma_child_other::<ItemReferenceBox>(c@);
            lemma_child_other::<ItemPropertiesBox>(c@);
            lemma_child_other::<GroupsListBox>(c@);
            lemma_child_read::<DataInformationBox>(c@);
        }
        let r = replace_into(c, &mut acc.dinf);
        proof {
            if r is Err {
                assert(acc@ =~= old(acc)@);
            }
            if r is Ok {
                assert(acc@ =~= meta_extend(old(acc)@, c@));
            }
        }
        r
    } else if is_child_exec::<ItemLocationBox>(c) {
        proof {
            lemma_child_other::<HandlerBox>(c@);
            lemma_child_other::<DataInformationBox>(c@);
            lemma_child_other::<ItemProtectionBox>(c@);
            lemma_child_other::<ItemInfoBox>(c@);
            lemma_child_other::<XmlBox>(c@);
            lemma_child_other::<BinaryXmlBox>(c@);
            lemma_child_other::<PrimaryItemBox>(c@);
            lemma_child_other::<FDItemInformationBox>(c@);
            lemma_child_other::<ItemDataBox>(c@);
            lemma_child_other::<ItemReferenceBox>(c@);
            lemma_child_other::<ItemPropertiesBox>(c@);
            lemma_child_other::<GroupsListBox>(c@);
            lemma_child_read::<ItemLocationBox>(c@);
        }
        let r = replace_into(c, &mut acc.iloc);
        proof {
            if r is Err {
                assert(acc@ =~= old(acc)@);
            }
            if r is Ok {
                assert(acc@ =~= meta_extend(old(acc)@, c@));
            }
        }
        r
    } else if is_child_exec::<ItemProtectionBox>(c) {
        proof {
            lemma_child_other::<HandlerBox>(c@);
            lemma_child_other::<DataInformationBox>(c@);
            lemma_child_other::<ItemLocationBox>(c@);
            lemma_child_other::<ItemInfoBox>(c@);
            lemma_child_other::<XmlBox>(c@);
            lemma_child_other::<BinaryXmlBox>(c@);
            lemma_child_other::<PrimaryItemBox>(c@);
            lemma_child_other::<FDItemInformationBox>(c@);
            lemma_child_other::<ItemDataBox>(c@);
            lemma_child_other::<ItemReferenceBox>(c@);
            lemma_child_other::<ItemPropertiesBox>(c@);
            lemma_child_other::<GroupsListBox>(c@);
            lemma_child_read::<ItemProtectionBox>(c@);
        }
        let r = replace_into(c, &mut acc.ipro);
        proof {
            if r is Err {
                assert(acc@ =~= old(acc)@);
            }
            if r is Ok {
                assert(acc@ =~= meta_extend(old(acc)@, c@));
            }
        }
        r
    } else if is_child_exec::<ItemInfoBox>(c) {
        proof {
            lemma_child_other::<HandlerBox>(c@);
            lemma_child_other::<DataInformationBox>(c@);
            lemma_child_other::<ItemLocationBox>(c@);
            lemma_child_other::<ItemProtectionBox>(c@);
            lemma_child_other::<XmlBox>(c@);
            lemma_child_other::<BinaryXmlBox>(c@);
            lemma_child_other::<PrimaryItemBox>(c@);
            lemma_child_other::<FDItemInformationBox>(c@);
            lemma_child_other::<ItemDataBox>(c@);
            lemma_child_other::<ItemReferenceBox>(c@);
            lemma_child_other::<ItemPropertiesBox>(c@);
            lemma_child_other::<GroupsListBox>(c@);
            lemma_child_read::<ItemInfoBox>(c@);
        }
        let r = replace_into(c, &mut acc.iinf);
        proof {
            if r is Err {
                assert(acc@ =~= old(acc)@);
            }
            if r is Ok {
                assert(acc@ =~= meta_extend(old(acc)@, c@));
            }
        }
        r
    } else if is_child_exec::<XmlBox>(c) {
        proof {
            lemma_child_other::<HandlerBox>(c@);
            lemma_child_other::<DataInformationBox>(c@);
            lemma_child_other::<ItemLocationBox>(c@);
            lemma_child_other::<ItemProtectionBox>(c@);
            lemma_child_other::<ItemInfoBox>(c@);
            lemma_child_other::<BinaryXmlBox>(c@);
            lemma_child_other::<PrimaryItemBox>(c@);
            lemma_child_other::<FDItemInformationBox>(c@);
            lemma_child_other::<ItemDataBox>(c@);
            lemma_child_other::<ItemReferenceBox>(c@);
            lemma_child_other::<ItemPropertiesBox>(c@);
            lemma_child_other::<GroupsListBox>(c@);
            lemma_child_read::<XmlBox>(c@);
        }
        let r = replace_into(c, &mut acc.xml);
        proof {
            if r is Err {
                assert(acc@ =~= old(acc)@);
            }
            if r is Ok {
                assert(acc@ =~= meta_extend(old(acc)@, c@));
            }
        }
        r
    } else if is_child_exec::<BinaryXmlBox>(c) {
        proof {
            lemma_child_other::<HandlerBox>(c@);
            lemma_child_other::<DataInformationBox>(c@);
            lemma_child_other::<ItemLocationBox>(c@);
            lemma_child_other::<ItemProtectionBox>(c@);
            lemma_child_other::<ItemInfoBox>(c@);
            lemma_child_other::<XmlBox>(c@);
            lemma_child_other::<PrimaryItemBox>(c@);
            lemma_child_other::<FDItemInformationBox>(c@);
            lemma_child_other::<ItemDataBox>(c@);
            lemma_child_other::<ItemReferenceBox>(c@);
            lemma_child_other::<ItemPropertiesBox>(c@);
            lemma_child_other::<GroupsListBox>(c@);
            lemma_child_read::<BinaryXmlBox>(c@);
        }
        let r = replace_into(c, &mut acc.bxml);
        proof {
            if r is Err {
                assert(acc@ =~= old(acc)@);
            }
            if r is Ok {
                assert(acc@ =~= meta_extend(old(acc)@, c@));
            }
        }
        r
    } else if is_child_exec::<PrimaryItemBox>(c) {
        proof {
            lemma_child_other::<HandlerBox>(c@);
            lemma_child_other::<DataInformationBox>(c@);
            lemma_child_other::<ItemLocationBox>(c@);
            lemma_child_other::<ItemProtectionBox>(c@);
            lemma_child_other::<ItemInfoBox>(c@);
            lemma_child_other::<XmlBox>(c@);
            lemma_child_other::<BinaryXmlBox>(c@);
            lemma_child_other::<FDItemInformationBox>(c@);
            lemma_child_other::<ItemDataBox>(c@);
            lemma_child_other::<ItemReferenceBox>(c@);
            lemma_child_other::<ItemPropertiesBox>(c@);
            lemma_child_other::<GroupsListBox>(c@);
            lemma_child_read::<PrimaryItemBox>(c@);
        }
        let r = replace_into(c, &mut acc.pitm);
        proof {
            if r is Err {
                assert(acc@ =~= old(acc)@);
            }
            if r is Ok {
                assert(acc@ =~= meta_extend(old(acc)@, c@));
            }
        }
        r
    } else if is_child_exec::<FDItemInformationBox>(c) {
        proof {
            lemma_child_other::<HandlerBox>(c@);
            lemma_child_other::<DataInformationBox>(c@);
            lemma_child_other::<ItemLocationBox>(c@);
            lemma_child_other::<ItemProtectionBox>(c@);
            lemma_child_other::<ItemInfoBox>(c@);
            lemma_child_other::<XmlBox>(c@);
            lemma_child_other::<BinaryXmlBox>(c@);
            lemma_child_other::<PrimaryItemBox>(c@);
            lemma_child_other::<ItemDataBox>(c@);
            lemma_child_other::<ItemReferenceBox>(c@);
            lemma_child_other::<ItemPropertiesBox>(c@);
            lemma_child_other::<GroupsListBox>(c@);
            lemma_child_read::<FDItemInformationBox>(c@);
        }
        let r = replace_into(c, &mut acc.fiin);
        proof {
            if r is Err {
                assert(acc@ =~= old(acc)@);
            }
            if r is Ok {
                assert(acc@ =~= meta_extend(old(acc)@, c@));
            }
        }
        r
    } else if is_child_exec::<ItemDataBox>(c) {
        proof {
            lemma_child_other::<HandlerBox>(c@);
            lemma_child_other::<DataInformationBox>(c@);
            lemma_child_other::<ItemLocationBox>(c@);
            lemma_child_other::<ItemProtectionBox>(c@);
            lemma_child_other::<ItemInfoBox>(c@);
            lemma_child_other::<XmlBox>(c@);
            lemma_child_other::<BinaryXmlBox>(c@);
            lemma_child_other::<PrimaryItemBox>(c@);
            lemma_child_other::<FDItemInformationBox>(c@);
            lemma_child_other::<ItemReferenceBox>(c@);
            lemma_child_other::<ItemPropertiesBox>(c@);
            lemma_child_other::<GroupsListBox>(c@);
            lemma_child_read::<ItemDataBox>(c@);
        }
        let r = replace_into(c, &mut acc.idat);
        proof {
            if r is Err {
                assert(acc@ =~= old(acc)@);
            }
            if r is Ok {
                assert(acc@ =~= meta_extend(old(acc)@, c@));
            }
        }
        r
    } else if is_child_exec::<ItemReferenceBox>(c) {
        proof {
            lemma_child_other::<HandlerBox>(c@);
            lemma_child_other::<DataInformationBox>(c@);
            lemma_child_other::<ItemLocationBox>(c@);
            lemma_child_other::<ItemProtectionBox>(c@);
            lemma_child_other::<ItemInfoBox>(c@);
            lemma_child_other::<XmlBox>(c@);
            lemma_child_other::<BinaryXmlBox>(c@);
            lemma_child_other::<PrimaryItemBox>(c@);
            lemma_child_other::<FDItemInformationBox>(c@);
            lemma_child_other::<ItemDataBox>(c@);
            lemma_child_other::<ItemPropertiesBox>(c@);
            lemma_child_other::<GroupsListBox>(c@);
            lemma_child_read::<ItemReferenceBox>(c@);
        }
        let r = replace_into(c, &mut acc.iref);
        proof {
            if r is Err {
                assert(acc@ =~= old(acc)@);
            }
            if r is Ok {
                assert(acc@ =~= meta_extend(old(acc)@, c@));
            }
        }
        r
    } else if is_child_exec::<ItemPropertiesBox>(c) {
        proof {
            lemma_child_other::<HandlerBox>(c@);
            lemma_child_other::<DataInformationBox>(c@);
            lemma_child_other::<ItemLocationBox>(c@);
            lemma_child_other::<ItemProtectionBox>(c@);
            lemma_child_other::<ItemInfoBox>(c@);
            lemma_child_other::<XmlBox>(c@);
            lemma_child_other::<BinaryXmlBox>(c@);
            lemma_child_other::<PrimaryItemBox>(c@);
            lemma_child_other::<FDItemInformationBox>(c@);
            lemma_child_other::<ItemDataBox>(c@);
            lemma_child_other::<ItemReferenceBox>(c@);
            lemma_child_other::<GroupsListBox>(c@);
            lemma_child_read::<ItemPropertiesBox>(c@);
        }
        let r = replace_into(c, &mut acc.iprp);
        proof {
            if r is Err {
                assert(acc@ =~= old(acc)@);
            }
            if r is Ok {
                assert(acc@ =~= meta_extend(old(acc)@, c@));
            }
        }
        r
    } else if is_child_exec::<GroupsListBox>(c) {
        proof {
            lemma_child_other::<HandlerBox>(c@);
            lemma_child_other::<DataInformationBox>(c@);
            lemma_child_other::<ItemLocationBox>(c@);
            lemma_child_other::<ItemProtectionBox>(c@);
            lemma_child_other::<ItemInfoBox>(c@);
            lemma_child_other::<XmlBox>(c@);
            lemma_child_other::<BinaryXmlBox>(c@);
            lemma_child_other::<PrimaryItemBox>(c@);
            lemma_child_other::<FDItemInformationBox>(c@);
            lemma_child_other::<ItemDataBox>(c@);
            lemma_child_other::<ItemReferenceBox>(c@);
            lemma_child_other::<ItemPropertiesBox>(c@);
            lemma_child_read::<GroupsListBox>(c@);
        }
        let r = replace_into(c, &mut acc.grpl);
        proof {
            if r is Err {
                assert(acc@ =~= old(acc)@);
            }
            if r is Ok {
                assert(acc@ =~= meta_extend(old(acc)@, c@));
            }
        }
        r
    } else {
        proof {
            lemma_child_other::<HandlerBox>(c@);
            lemma_child_other::<DataInformationBox>(c@);
            lemma_child_other::<ItemLocationBox>(c@);
            lemma_child_other::<ItemProtectionBox>(c@);
            lemma_child_other::<ItemInfoBox>(c@);
            lemma_child_other::<XmlBox>(c@);
            lemma_child_other::<BinaryXmlBox>(c@);
            lemma_child_other::<PrimaryItemBox>(c@);
            lemma_child_other::<FDItemInformationBox>(c@);
            lemma_child_other::<ItemDataBox>(c@);
            lemma_child_other::<ItemReferenceBox>(c@);
            lemma_child_other::<ItemPropertiesBox>(c@);
            lemma_child_other::<GroupsListBox>(c@);
        }
        let kept = UnknownBox { header: c.header, data: vstd::slice::slice_to_vec(c.data.as_slice()) };
        let ghost old_v = views(acc.unknown_boxes@);
        acc.unknown_boxes.push(kept);
        proof {
            assert(views(acc.unknown_boxes@) =~= old_v.push(c@));
            assert(acc@ =~= meta_extend(old(acc)@, c@));
        }
        Ok(())
    }
}

/// Reading one more box extends what was read by it.
proof fn lemma_meta_prefix_step(css: Seq<UnknownBoxModel>, i: int)
    requires
        0 <= i < css.len(),
    ensures
        meta_prefix(css.take(i + 1)) == meta_extend(meta_prefix(css.take(i)), css[i]),
{
    lemma_collect_step::<HandlerBox>(css, i);
    lemma_collect_step::<DataInformationBox>(css, i);
    lemma_collect_step::<ItemLocationBox>(css, i);
    lemma_collect_step::<ItemProtectionBox>(css, i);
    lemma_collect_step::<ItemInfoBox>(css, i);
    lemma_collect_step::<XmlBox>(css, i);
    lemma_collect_step::<BinaryXmlBox>(css, i);
    lemma_collect_step::<PrimaryItemBox>(css, i);
    lemma_collect_step::<FDItemInformationBox>(css, i);
    lemma_collect_step::<ItemDataBox>(css, i);
    lemma_collect_step::<ItemReferenceBox>(css, i);
    lemma_collect_step::<ItemPropertiesBox>(css, i);
    lemma_collect_step::<GroupsListBox>(css, i);
    lemma_unknown_step(css, |c: UnknownBoxModel| meta_known(c), i);
    let a = meta_prefix(css.take(i + 1));
    let b = meta_extend(meta_prefix(css.take(i)), css[i]);
    assert(a.unknown_boxes =~= b.unknown_boxes);
}

/// Reads the payload of a meta.
#[verifier::spinoff_prover]
#[verifier::rlimit(60)]
fn parse_meta(payload: &[u8]) -> (r: Result<MetaBox, IsoError>)
    ensures
        match (meta_parse(payload@), r) {
            (Ok(v), Ok(x)) => x@ == v,
            (Err(e), Err(f)) => e == f,
            _ => false,
        },
{
    if payload.len() < 4 {
        return Err(IsoError::UnexpectedEof);
    }
    let full_header = FullBoxHeader { version: payload[0], flags: read_u24_at(payload, 1) };
    let rest = vstd::slice::slice_subrange(payload, 4, payload.len());
    proof {
        assert(rest@ =~= payload@.skip(4));
    }
    let cs = read_children(rest);
    let ghost css = spec_children(payload@.skip(4));
    let ghost fault = |c: UnknownBoxModel| meta_fault(c);
    let mut acc = MetaBoxScan {
        hdlr: None,
        dinf: None,
        iloc: None,
        ipro: None,
        iinf: None,
        xml: None,
        bxml: None,
        pitm: None,
        fiin: None,
        idat: None,
        iref: None,
        iprp: None,
        grpl: None,
        unknown_boxes: Vec::new(),
    };
    let mut i: usize = 0;
    let mut stop = false;
    proof {
        lemma_meta_types();
        let e = css.take(0);
        assert(e =~= Seq::<UnknownBoxModel>::empty());
        assert(collect_children::<HandlerBox>(e) =~= Seq::<<HandlerBox as View>::V>::empty());
        assert(collect_children::<DataInformationBox>(e) =~= Seq::<<DataInformationBox as View>::V>::empty());
        assert(collect_children::<ItemLocationBox>(e) =~= Seq::<<ItemLocationBox as View>::V>::empty());
        assert(collect_children::<ItemProtectionBox>(e) =~= Seq::<<ItemProtectionBox as View>::V>::empty());
        assert(collect_children::<ItemInfoBox>(e) =~= Seq::<<ItemInfoBox as View>::V>::empty());
        assert(collect_children::<XmlBox>(e) =~= Seq::<<XmlBox as View>::V>::empty());
        assert(collect_children::<BinaryXmlBox>(e) =~= Seq::<<BinaryXmlBox as View>::V>::empty());
        assert(collect_children::<PrimaryItemBox>(e) =~= Seq::<<PrimaryItemBox as View>::V>::empty());
        assert(collect_children::<FDItemInformationBox>(e) =~= Seq::<<FDItemInformationBox as View>::V>::empty());
        assert(collect_children::<ItemDataBox>(e) =~= Seq::<<ItemDataBox as View>::V>::empty());
        assert(collect_children::<ItemReferenceBox>(e) =~= Seq::<<ItemReferenceBox as View>::V>::empty());
        assert(collect_children::<ItemPropertiesBox>(e) =~= Seq::<<ItemPropertiesBox as View>::V>::empty());
        assert(collect_children::<GroupsListBox>(e) =~= Seq::<<GroupsListBox as View>::V>::empty());
        assert(collect_unknown(e, |c: UnknownBoxModel| meta_known(c)) =~= Seq::<UnknownBoxModel>::empty());
        assert(views(acc.unknown_boxes@) =~= Seq::<UnknownBoxModel>::empty());
        assert(acc@ =~= meta_prefix(e));
    }
    while i < cs.len() && !stop
        invariant
            views(cs@) == css,
            payload@.len() >= 4,
            css == spec_children(payload@.skip(4)),
            fault == (|c: UnknownBoxModel| meta_fault(c)),
            meta_types_differ(),
            i <= cs@.len(),
            forall|j: int| 0 <= j < i ==> (#[trigger] fault(css[j])) is None,
            stop ==> i < css.len() && fault(css[i as int]) == Some(IsoError::UnexpectedEof),
            acc@ == meta_prefix(css.take(i as int)),
        decreases cs@.len() - i + (if stop { 0int } else { 1int }),
    {
        let c = &cs[i];
        proof {
            assert(c@ == css[i as int]);
            lemma_meta_prefix_step(css, i as int);
        }
        match meta_step(c, &mut acc) {
            Ok(()) => {
                i = i + 1;
            },
            Err(IsoError::UnexpectedEof) => {
                stop = true;
            },
            Err(e) => {
                proof {
                    lemma_first_fault(css, fault, i as int);
                }
                return Err(e);
            },
        }
    }
    proof {
        lemma_first_fault(css, fault, i as int);
        assert(first_fault(css, fault) == i);
    }
    let MetaBoxScan { hdlr, dinf, iloc, ipro, iinf, xml, bxml, pitm, fiin, idat, iref, iprp, grpl, unknown_boxes } = acc;
    let hdlr = match hdlr {
        Some(x) => x,
        None => {
            return Err(IsoError::InvalidData);
        },
    };
    Ok(MetaBox { full_header, hdlr, dinf, iloc, ipro, iinf, xml, bxml, pitm, fiin, idat, iref, iprp, grpl, unknown_boxes })
}

/// Writes the boxes of a meta in the order of its fields.
#[verifier::spinoff_prover]
#[verifier::rlimit(60)]
fn write_meta_children(x: &MetaBox, out: &mut Vec<u8>) -> (r: Result<(), IsoError>)
    requires
        x.spec_size() <= usize::MAX,
    ensures
        write_matches(r, meta_writable(x@), meta_children_bytes(x@), old(out)@, final(out)@),
{
    let ghost before = out@;
    let ghost v = x@;
    if write_nested(&x.hdlr, out).is_err() {
        return Err(IsoError::InvalidData);
    }
    let ghost m1 = out@;
    proof {
        lemma_append_prefix(before, nested_box_bytes::<HandlerBox>(v.hdlr));
    }
    if write_nested_opt(&x.dinf, out).is_err() {
        proof {
            lemma_prefix_trans(before, m1, out@);
        }
        return Err(IsoError::InvalidData);
    }
    let ghost m2 = out@;
    proof {
        lemma_append_prefix(m1, nested_opt_bytes::<DataInformationBox>(v.dinf));
        lemma_prefix_trans(before, m1, m2);
    }
    if write_nested_opt(&x.iloc, out).is_err() {
        proof {
            lemma_prefix_trans(before, m2, out@);
        }
        return Err(IsoError::InvalidData);
    }
    let ghost m3 = out@;
    proof {
        lemma_append_prefix(m2, nested_opt_bytes::<ItemLocationBox>(v.iloc));
        lemma_prefix_trans(before, m2, m3);
    }
    if write_nested_opt(&x.ipro, out).is_err() {
        proof {
            lemma_prefix_trans(before, m3, out@);
        }
        return Err(IsoError::InvalidData);
    }
    let ghost m4 = out@;
    proof {
        lemma_append_prefix(m3, nested_opt_bytes::<ItemProtectionBox>(v.ipro));
        lemma_prefix_trans(before, m3, m4);
    }
    if write_nested_opt(&x.iinf, out).is_err() {
        proof {
            lemma_prefix_trans(before, m4, out@);
        }
        return Err(IsoError::InvalidData);
    }
    let ghost m5 = out@;
    proof {
        lemma_append_prefix(m4, nested_opt_bytes::<ItemInfoBox>(v.iinf));
        lemma_prefix_trans(before, m4, m5);
    }
    if write_nested_opt(&x.xml, out).is_err() {
        proof {
            lemma_prefix_trans(before, m5, out@);
        }
        return Err(IsoError::InvalidData);
    }
    let ghost m6 = out@;
    proof {
        lemma_append_prefix(m5, nested_opt_bytes::<XmlBox>(v.xml));
        lemma_prefix_trans(before, m5, m6);
    }
    if write_nested_opt(&x.bxml, out).is_err() {
        proof {
            lemma_prefix_trans(before, m6, out@);
        }
        return Err(IsoError::InvalidData);
    }
    let ghost m7 = out@;
    proof {
        lemma_append_prefix(m6, nested_opt_bytes::<BinaryXmlBox>(v.bxml));
        lemma_prefix_trans(before, m6, m7);
    }
    if write_nested_opt(&x.pitm, out).is_err() {
        proof {
            lemma_prefix_trans(before, m7, out@);
        }
        return Err(IsoError::InvalidData);
    }
    let ghost m8 = out@;
    proof {
        lemma_append_prefix(m7, nested_opt_bytes::<PrimaryItemBox>(v.pitm));
        lemma_prefix_trans(before, m7, m8);
    }
    if write_nested_opt(&x.fiin, out).is_err() {
        proof {
            lemma_prefix_trans(before, m8, out@);
        }
        return Err(IsoError::InvalidData);
    }
    let ghost m9 = out@;
    proof {
        lemma_append_prefix(m8, nested_opt_bytes::<FDItemInformationBox>(v.fiin));
        lemma_prefix_trans(before, m8, m9);
    }
    if write_nested_opt(&x.idat, out).is_err() {
        proof {
            lemma_prefix_trans(before, m9, out@);
        }
        return Err(IsoError::InvalidData);
    }
    let ghost m10 = out@;
    proof {
        lemma_append_prefix(m9, nested_opt_bytes::<ItemDataBox>(v.idat));
        lemma_prefix_trans(before, m9, m10);
    }
    if write_nested_opt(&x.iref, out).is_err() {
        proof {
            lemma_prefix_trans(before, m10, out@);
        }
        return Err(IsoError::InvalidData);
    }
    let ghost m11 = out@;
    proof {
        lemma_append_prefix(m10, nested_opt_bytes::<ItemReferenceBox>(v.iref));
        lemma_prefix_trans(before, m10, m11);
    }
    if write_nested_opt(&x.iprp, out).is_err() {
        proof {
            lemma_prefix_trans(before, m11, out@);
        }
        return Err(IsoError::InvalidData);
    }
    let ghost m12 = out@;
    proof {
        lemma_append_prefix(m11, nested_opt_bytes::<ItemPropertiesBox>(v.iprp));
        lemma_prefix_trans(before, m11, m12);
    }
    if write_nested_opt(&x.grpl, out).is_err() {
        proof {
            lemma_prefix_trans(before, m12, out@);
        }
        return Err(IsoError::InvalidData);
    }
    let ghost m13 = out@;
    proof {
        lemma_append_prefix(m12, nested_opt_bytes::<GroupsListBox>(v.grpl));
        lemma_prefix_trans(before, m12, m13);
    }
    let _ = serialize_all(&x.unknown_boxes, out);
    assert(out@ == m13 + ser_seq::<UnknownBox>(v.unknown_boxes)) by {
        assert(views(x.unknown_boxes@) == v.unknown_boxes);
    }
    let ghost m14 = out@;
    proof {
        lemma_append_prefix(m13, ser_seq::<UnknownBox>(v.unknown_boxes));
        lemma_prefix_trans(before, m13, m14);
    }
    proof {
        let l1 = nested_box_bytes::<HandlerBox>(v.hdlr);
        assert(m1 == before + l1);
        let l2 = l1 + nested_opt_bytes::<DataInformationBox>(v.dinf);
        vstd::seq_lib::lemma_concat_associative(before, l1, nested_opt_bytes::<DataInformationBox>(v.dinf));
        assert(m2 == before + l2);
        let l3 = l2 + nested_opt_bytes::<ItemLocationBox>(v.iloc);
        vstd::seq_lib::lemma_concat_associative(before, l2, nested_opt_bytes::<ItemLocationBox>(v.iloc));
        assert(m3 == before + l3);
        let l4 = l3 + nested_opt_bytes::<ItemProtectionBox>(v.ipro);
        vstd::seq_lib::lemma_concat_associative(before, l3, nested_opt_bytes::<ItemProtectionBox>(v.ipro));
        assert(m4 == before + l4);
        let l5 = l4 + nested_opt_bytes::<ItemInfoBox>(v.iinf);
        vstd::seq_lib::lemma_concat_associative(before, l4, nested_opt_bytes::<ItemInfoBox>(v.iinf));
        assert(m5 == before + l5);
        let l6 = l5 + nested_opt_bytes::<XmlBox>(v.xml);
        vstd::seq_lib::lemma_concat_associative(before, l5, nested_opt_bytes::<XmlBox>(v.xml));
        assert(m6 == before + l6);
        let l7 = l6 + nested_opt_bytes::<BinaryXmlBox>(v.bxml);
        vstd::seq_lib::lemma_concat_associative(before, l6, nested_opt_bytes::<BinaryXmlBox>(v.bxml));
        assert(m7 == before + l7);
        let l8 = l7 + nested_opt_bytes::<PrimaryItemBox>(v.pitm);
        vstd::seq_lib::lemma_concat_associative(before, l7, nested_opt_bytes::<PrimaryItemBox>(v.pitm));
        assert(m8 == before + l8);
        let l9 = l8 + nested_opt_bytes::<FDItemInformationBox>(v.fiin);
        vstd::seq_lib::lemma_concat_associative(before, l8, nested_opt_bytes::<FDItemInformationBox>(v.fiin));
        assert(m9 == before + l9);
        let l10 = l9 + nested_opt_bytes::<ItemDataBox>(v.idat);
        vstd::seq_lib::lemma_concat_associative(before, l9, nested_opt_bytes::<ItemDataBox>(v.idat));
        assert(m10 == before + l10);
        let l11 = l10 + nested_opt_bytes::<ItemReferenceBox>(v.iref);
        vstd::seq_lib::lemma_concat_associative(before, l10, nested_opt_bytes::<ItemReferenceBox>(v.iref));
        assert(m11 == before + l11);
        let l12 = l11 + nested_opt_bytes::<ItemPropertiesBox>(v.iprp);
        vstd::seq_lib::lemma_concat_associative(before, l11, nested_opt_bytes::<ItemPropertiesBox>(v.iprp));
        assert(m12 == before + l12);
        let l13 = l12 + nested_opt_bytes::<GroupsListBox>(v.grpl);
        vstd::seq_lib::lemma_concat_associative(before, l12, nested_opt_bytes::<GroupsListBox>(v.grpl));
        assert(m13 == before + l13);
        let l14 = l13 + ser_seq::<UnknownBox>(v.unknown_boxes);
        vstd::seq_lib::lemma_concat_associative(before, l13, ser_seq::<UnknownBox>(v.unknown_boxes));
        assert(m14 == before + l14);
        assert(meta_children_bytes(v) == l14);
        lemma_append_prefix(before, meta_children_bytes(v));
    }
    Ok(())
}

/// The boxes that a meta writes, read from their bytes one list after the other.
#[verifier::spinoff_prover]
#[verifier::rlimit(100)]
proof fn lemma_meta_children_chain(v: MetaBoxModel)
    requires
        meta_canonical(v),
    ensures
        spec_children(nested_box_bytes::<HandlerBox>(v.hdlr) + (nested_opt_bytes::<DataInformationBox>(v.dinf) + (nested_opt_bytes::<ItemLocationBox>(v.iloc) + (nested_opt_bytes::<ItemProtectionBox>(v.ipro) + (nested_opt_bytes::<ItemInfoBox>(v.iinf) + (nested_opt_bytes::<XmlBox>(v.xml) + (nested_opt_bytes::<BinaryXmlBox>(v.bxml) + (nested_opt_bytes::<PrimaryItemBox>(v.pitm) + (nested_opt_bytes::<FDItemInformationBox>(v.fiin) + (nested_opt_bytes::<ItemDataBox>(v.idat) + (nested_opt_bytes::<ItemReferenceBox>(v.iref) + (nested_opt_bytes::<ItemPropertiesBox>(v.iprp) + (nested_opt_bytes::<GroupsListBox>(v.grpl) + (ser_seq::<UnknownBox>(v.unknown_boxes))))))))))))))) == seq![nested_model::<HandlerBox>(v.hdlr)] + (nested_opt_models::<DataInformationBox>(v.dinf) + (nested_opt_models::<ItemLocationBox>(v.iloc) + (nested_opt_models::<ItemProtectionBox>(v.ipro) + (nested_opt_models::<ItemInfoBox>(v.iinf) + (nested_opt_models::<XmlBox>(v.xml) + (nested_opt_models::<BinaryXmlBox>(v.bxml) + (nested_opt_models::<PrimaryItemBox>(v.pitm) + (nested_opt_models::<FDItemInformationBox>(v.fiin) + (nested_opt_models::<ItemDataBox>(v.idat) + (nested_opt_models::<ItemReferenceBox>(v.iref) + (nested_opt_models::<ItemPropertiesBox>(v.iprp) + (nested_opt_models::<GroupsListBox>(v.grpl) + (v.unknown_boxes))))))))))))),
{
    let b0 = nested_box_bytes::<HandlerBox>(v.hdlr);
    let s0 = seq![nested_model::<HandlerBox>(v.hdlr)];
    let b1 = nested_opt_bytes::<DataInformationBox>(v.dinf);
    let s1 = nested_opt_models::<DataInformationBox>(v.dinf);
    let b2 = nested_opt_bytes::<ItemLocationBox>(v.iloc);
    let s2 = nested_opt_models::<ItemLocationBox>(v.iloc);
    let b3 = nested_opt_bytes::<ItemProtectionBox>(v.ipro);
    let s3 = nested_opt_models::<ItemProtectionBox>(v.ipro);
    let b4 = nested_opt_bytes::<ItemInfoBox>(v.iinf);
    let s4 = nested_opt_models::<ItemInfoBox>(v.iinf);
    let b5 = nested_opt_bytes::<XmlBox>(v.xml);
    let s5 = nested_opt_models::<XmlBox>(v.xml);
    let b6 = nested_opt_bytes::<BinaryXmlBox>(v.bxml);
    let s6 = nested_opt_models::<BinaryXmlBox>(v.bxml);
    let b7 = nested_opt_bytes::<PrimaryItemBox>(v.pitm);
    let s7 = nested_opt_models::<PrimaryItemBox>(v.pitm);
    let b8 = nested_opt_bytes::<FDItemInformationBox>(v.fiin);
    let s8 = nested_opt_models::<FDItemInformationBox>(v.fiin);
    let b9 = nested_opt_bytes::<ItemDataBox>(v.idat);
    let s9 = nested_opt_models::<ItemDataBox>(v.idat);
    let b10 = nested_opt_bytes::<ItemReferenceBox>(v.iref);
    let s10 = nested_opt_models::<ItemReferenceBox>(v.iref);
    let b11 = nested_opt_bytes::<ItemPropertiesBox>(v.iprp);
    let s11 = nested_opt_models::<ItemPropertiesBox>(v.iprp);
    let b12 = nested_opt_bytes::<GroupsListBox>(v.grpl);
    let s12 = nested_opt_models::<GroupsListBox>(v.grpl);
    let b13 = ser_seq::<UnknownBox>(v.unknown_boxes);
    let s13 = v.unknown_boxes;
    crate::children::lemma_children_empty();
    let t13 = b13;
    let u13 = s13;
    assert(b13 + Seq::<u8>::empty() =~= b13);
    assert(s13 + Seq::<UnknownBoxModel>::empty() =~= s13);
    lemma_unknown_seq_rest(v.unknown_boxes, Seq::<u8>::empty());
    assert(spec_children(t13) == u13);
    let t12 = b12 + t13;
    let u12 = s12 + u13;
    lemma_nested_opt_seq::<GroupsListBox>(v.grpl, t13);
    assert(spec_children(t12) == u12);
    let t11 = b11 + t12;
    let u11 = s11 + u12;
    lemma_nested_opt_seq::<ItemPropertiesBox>(v.iprp, t12);
    assert(spec_children(t11) == u11);
    let t10 = b10 + t11;
    let u10 = s10 + u11;
    lemma_nested_opt_seq::<ItemReferenceBox>(v.iref, t11);
    assert(spec_children(t10) == u10);
    let t9 = b9 + t10;
    let u9 = s9 + u10;
    lemma_nested_opt_seq::<ItemDataBox>(v.idat, t10);
    assert(spec_children(t9) == u9);
    let t8 = b8 + t9;
    let u8 = s8 + u9;
    lemma_nested_opt_seq::<FDItemInformationBox>(v.fiin, t9);
    assert(spec_children(t8) == u8);
    let t7 = b7 + t8;
    let u7 = s7 + u8;
    lemma_nested_opt_seq::<PrimaryItemBox>(v.pitm, t8);
    assert(spec_children(t7) == u7);
    let t6 = b6 + t7;
    let u6 = s6 + u7;
    lemma_nested_opt_seq::<BinaryXmlBox>(v.bxml, t7);
    assert(spec_children(t6) == u6);
    let t5 = b5 + t6;
    let u5 = s5 + u6;
    lemma_nested_opt_seq::<XmlBox>(v.xml, t6);
    assert(spec_children(t5) == u5);
    let t4 = b4 + t5;
    let u4 = s4 + u5;
    lemma_nested_opt_seq::<ItemInfoBox>(v.iinf, t5);
    assert(spec_children(t4) == u4);
    let t3 = b3 + t4;
    let u3 = s3 + u4;
    lemma_nested_opt_seq::<ItemProtectionBox>(v.ipro, t4);
    assert(spec_children(t3) == u3);
    let t2 = b2 + t3;
    let u2 = s2 + u3;
    lemma_nested_opt_seq::<ItemLocationBox>(v.iloc, t3);
    assert(spec_children(t2) == u2);
    let t1 = b1 + t2;
    let u1 = s1 + u2;
    lemma_nested_opt_seq::<DataInformationBox>(v.dinf, t2);
    assert(spec_children(t1) == u1);
    let t0 = b0 + t1;
    let u0 = s0 + u1;
    lemma_nested_cons::<HandlerBox>(v.hdlr, t1);
    assert(spec_children(t0) == u0);
}

/// The boxes that a meta writes read back as their models.
#[verifier::spinoff_prover]
#[verifier::rlimit(100)]
proof fn lemma_meta_children(v: MetaBoxModel)
    requires
        meta_canonical(v),
    ensures
        spec_children(meta_children_bytes(v)) == meta_models(v),
{
    lemma_meta_children_chain(v);
    let b0 = nested_box_bytes::<HandlerBox>(v.hdlr);
    let s0 = seq![nested_model::<HandlerBox>(v.hdlr)];
    let b1 = nested_opt_bytes::<DataInformationBox>(v.dinf);
    let s1 = nested_opt_models::<DataInformationBox>(v.dinf);
    let b2 = nested_opt_bytes::<ItemLocationBox>(v.iloc);
    let s2 = nested_opt_models::<ItemLocationBox>(v.iloc);
    let b3 = nested_opt_bytes::<ItemProtectionBox>(v.ipro);
    let s3 = nested_opt_models::<ItemProtectionBox>(v.ipro);
    let b4 = nested_opt_bytes::<ItemInfoBox>(v.iinf);
    let s4 = nested_opt_models::<ItemInfoBox>(v.iinf);
    let b5 = nested_opt_bytes::<XmlBox>(v.xml);
    let s5 = nested_opt_models::<XmlBox>(v.xml);
    let b6 = nested_opt_bytes::<BinaryXmlBox>(v.bxml);
    let s6 = nested_opt_models::<BinaryXmlBox>(v.bxml);
    let b7 = nested_opt_bytes::<PrimaryItemBox>(v.pitm);
    let s7 = nested_opt_models::<PrimaryItemBox>(v.pitm);
    let b8 = nested_opt_bytes::<FDItemInformationBox>(v.fiin);
    let s8 = nested_opt_models::<FDItemInformationBox>(v.fiin);
    let b9 = nested_opt_bytes::<ItemDataBox>(v.idat);
    let s9 = nested_opt_models::<ItemDataBox>(v.idat);
    let b10 = nested_opt_bytes::<ItemReferenceBox>(v.iref);
    let s10 = nested_opt_models::<ItemReferenceBox>(v.iref);
    let b11 = nested_opt_bytes::<ItemPropertiesBox>(v.iprp);
    let s11 = nested_opt_models::<ItemPropertiesBox>(v.iprp);
    let b12 = nested_opt_bytes::<GroupsListBox>(v.grpl);
    let s12 = nested_opt_models::<GroupsListBox>(v.grpl);
    let b13 = ser_seq::<UnknownBox>(v.unknown_boxes);
    let s13 = v.unknown_boxes;
    let t13 = b13;
    let u13 = s13;
    let t12 = b12 + t13;
    let u12 = s12 + u13;
    let t11 = b11 + t12;
    let u11 = s11 + u12;
    let t10 = b10 + t11;
    let u10 = s10 + u11;
    let t9 = b9 + t10;
    let u9 = s9 + u10;
    let t8 = b8 + t9;
    let u8 = s8 + u9;
    let t7 = b7 + t8;
    let u7 = s7 + u8;
    let t6 = b6 + t7;
    let u6 = s6 + u7;
    let t5 = b5 + t6;
    let u5 = s5 + u6;
    let t4 = b4 + t5;
    let u4 = s4 + u5;
    let t3 = b3 + t4;
    let u3 = s3 + u4;
    let t2 = b2 + t3;
    let u2 = s2 + u3;
    let t1 = b1 + t2;
    let u1 = s1 + u2;
    let t0 = b0 + t1;
    let u0 = s0 + u1;
    let t14 = Seq::<u8>::empty();
    let u14 = Seq::<UnknownBoxModel>::empty();
    assert(b13 + t14 =~= t13);
    assert(s13 + u14 =~= u13);
    let l0 = Seq::<u8>::empty();
    let k0 = Seq::<UnknownBoxModel>::empty();
    assert(l0 + t0 =~= t0);
    assert(k0 + u0 =~= u0);
    let l1 = b0;
    let k1 = s0;
    assert(l1 + t1 == l0 + t0);
    assert(k1 + u1 == k0 + u0);
    let l2 = l1 + b1;
    let k2 = k1 + s1;
    vstd::seq_lib::lemma_concat_associative(l1, b1, t2);
    vstd::seq_lib::lemma_concat_associative(k1, s1, u2);
    assert(l2 + t2 == l1 + t1);
    assert(k2 + u2 == k1 + u1);
    let l3 = l2 + b2;
    let k3 = k2 + s2;
    vstd::seq_lib::lemma_concat_associative(l2, b2, t3);
    vstd::seq_lib::lemma_concat_associative(k2, s2, u3);
    assert(l3 + t3 == l2 + t2);
    assert(k3 + u3 == k2 + u2);
    let l4 = l3 + b3;
    let k4 = k3 + s3;
    vstd::seq_lib::lemma_concat_associative(l3, b3, t4);
    vstd::seq_lib::lemma_concat_associative(k3, s3, u4);
    assert(l4 + t4 == l3 + t3);
    assert(k4 + u4 == k3 + u3);
    let l5 = l4 + b4;
    let k5 = k4 + s4;
    vstd::seq_lib::lemma_concat_associative(l4, b4, t5);
    vstd::seq_lib::lemma_concat_associative(k4, s4, u5);
    assert(l5 + t5 == l4 + t4);
    assert(k5 + u5 == k4 + u4);
    let l6 = l5 + b5;
    let k6 = k5 + s5;
    vstd::seq_lib::lemma_concat_associative(l5, b5, t6);
    vstd::seq_lib::lemma_concat_associative(k5, s5, u6);
    assert(l6 + t6 == l5 + t5);
    assert(k6 + u6 == k5 + u5);
    let l7 = l6 + b6;
    let k7 = k6 + s6;
    vstd::seq_lib::lemma_concat_associative(l6, b6, t7);
    vstd::seq_lib::lemma_concat_associative(k6, s6, u7);
    assert(l7 + t7 == l6 + t6);
    assert(k7 + u7 == k6 + u6);
    let l8 = l7 + b7;
    let k8 = k7 + s7;
    vstd::seq_lib::lemma_concat_associative(l7, b7, t8);
    vstd::seq_lib::lemma_concat_associative(k7, s7, u8);
    assert(l8 + t8 == l7 + t7);
    assert(k8 + u8 == k7 + u7);
    let l9 = l8 + b8;
    let k9 = k8 + s8;
    vstd::seq_lib::lemma_concat_associative(l8, b8, t9);
    vstd::seq_lib::lemma_concat_associative(k8, s8, u9);
    assert(l9 + t9 == l8 + t8);
    assert(k9 + u9 == k8 + u8);
    let l10 = l9 + b9;
    let k10 = k9 + s9;
    vstd::seq_lib::lemma_concat_associative(l9, b9, t10);
    vstd::seq_lib::lemma_concat_associative(k9, s9, u10);
    assert(l10 + t10 == l9 + t9);
    assert(k10 + u10 == k9 + u9);
    let l11 = l10 + b10;
    let k11 = k10 + s10;
    vstd::seq_lib::lemma_concat_associative(l10, b10, t11);
    vstd::seq_lib::lemma_concat_associative(k10, s10, u11);
    assert(l11 + t11 == l10 + t10);
    assert(k11 + u11 == k10 + u10);
    let l12 = l11 + b11;
    let k12 = k11 + s11;
    vstd::seq_lib::lemma_concat_associative(l11, b11, t12);
    vstd::seq_lib::lemma_concat_associative(k11, s11, u12);
    assert(l12 + t12 == l11 + t11);
    assert(k12 + u12 == k11 + u11);
    let l13 = l12 + b12;
    let k13 = k12 + s12;
    vstd::seq_lib::lemma_concat_associative(l12, b12, t13);
    vstd::seq_lib::lemma_concat_associative(k12, s12, u13);
    assert(l13 + t13 == l12 + t12);
    assert(k13 + u13 == k12 + u12);
    let l14 = l13 + b13;
    let k14 = k13 + s13;
    vstd::seq_lib::lemma_concat_associative(l13, b13, t14);
    vstd::seq_lib::lemma_concat_associative(k13, s13, u14);
    assert(l14 + t14 == l13 + t13);
    assert(k14 + u14 == k13 + u13);
    assert(l14 + t14 =~= l14);
    assert(k14 + u14 =~= k14);
    assert(meta_children_bytes(v) == l14);
    assert(meta_models(v) == k14);
}

/// No box that a meta writes fails to read.
#[verifier::spinoff_prover]
#[verifier::rlimit(60)]
proof fn lemma_meta_no_fault(v: MetaBoxModel, j: int)
    requires
        meta_canonical(v),
        meta_types_differ(),
        0 <= j < meta_models(v).len(),
    ensures
        meta_fault(meta_models(v)[j]) is None,
{
    let cs = meta_models(v);
    let s0 = seq![nested_model::<HandlerBox>(v.hdlr)];
    let s1 = nested_opt_models::<DataInformationBox>(v.dinf);
    let s2 = nested_opt_models::<ItemLocationBox>(v.iloc);
    let s3 = nested_opt_models::<ItemProtectionBox>(v.ipro);
    let s4 = nested_opt_models::<ItemInfoBox>(v.iinf);
    let s5 = nested_opt_models::<XmlBox>(v.xml);
    let s6 = nested_opt_models::<BinaryXmlBox>(v.bxml);
    let s7 = nested_opt_models::<PrimaryItemBox>(v.pitm);
    let s8 = nested_opt_models::<FDItemInformationBox>(v.fiin);
    let s9 = nested_opt_models::<ItemDataBox>(v.idat);
    let s10 = nested_opt_models::<ItemReferenceBox>(v.iref);
    let s11 = nested_opt_models::<ItemPropertiesBox>(v.iprp);
    let s12 = nested_opt_models::<GroupsListBox>(v.grpl);
    let s13 = v.unknown_boxes;
    let n0: int = 0;
    let n1: int = n0 + s0.len();
    let n2: int = n1 + s1.len();
    let n3: int = n2 + s2.len();
    let n4: int = n3 + s3.len();
    let n5: int = n4 + s4.len();
    let n6: int = n5 + s5.len();
    let n7: int = n6 + s6.len();
    let n8: int = n7 + s7.len();
    let n9: int = n8 + s8.len();
    let n10: int = n9 + s9.len();
    let n11: int = n10 + s10.len();
    let n12: int = n11 + s11.len();
    let n13: int = n12 + s12.len();
    let n14: int = n13 + s13.len();
    if j < n1 {
        assert(cs[j] == s0[j - n0]);
        lemma_nested_cons::<HandlerBox>(v.hdlr, Seq::empty());
    } else if j < n2 {
        assert(cs[j] == s1[j - n1]);
        lemma_nested_cons::<DataInformationBox>(v.dinf.unwrap(), Seq::empty());
    } else if j < n3 {
        assert(cs[j] == s2[j - n2]);
        lemma_nested_cons::<ItemLocationBox>(v.iloc.unwrap(), Seq::empty());
    } else if j < n4 {
        assert(cs[j] == s3[j - n3]);
        lemma_nested_cons::<ItemProtectionBox>(v.ipro.unwrap(), Seq::empty());
    } else if j < n5 {
        assert(cs[j] == s4[j - n4]);
        lemma_nested_cons::<ItemInfoBox>(v.iinf.unwrap(), Seq::empty());
    } else if j < n6 {
        assert(cs[j] == s5[j - n5]);
        lemma_nested_cons::<XmlBox>(v.xml.unwrap(), Seq::empty());
    } else if j < n7 {
        assert(cs[j] == s6[j - n6]);
        lemma_nested_cons::<BinaryXmlBox>(v.bxml.unwrap(), Seq::empty());
    } else if j < n8 {
        assert(cs[j] == s7[j - n7]);
        lemma_nested_cons::<PrimaryItemBox>(v.pitm.unwrap(), Seq::empty());
    } else if j < n9 {
        assert(cs[j] == s8[j - n8]);
        lemma_nested_cons::<FDItemInformationBox>(v.fiin.unwrap(), Seq::empty());
    } else if j < n10 {
        assert(cs[j] == s9[j - n9]);
        lemma_nested_cons::<ItemDataBox>(v.idat.unwrap(), Seq::empty());
    } else if j < n11 {
        assert(cs[j] == s10[j - n10]);
        lemma_nested_cons::<ItemReferenceBox>(v.iref.unwrap(), Seq::empty());
    } else if j < n12 {
        assert(cs[j] == s11[j - n11]);
        lemma_nested_cons::<ItemPropertiesBox>(v.iprp.unwrap(), Seq::empty());
    } else if j < n13 {
        assert(cs[j] == s12[j - n12]);
        lemma_nested_cons::<GroupsListBox>(v.grpl.unwrap(), Seq::empty());
    } else if j < n14 {
        assert(cs[j] == s13[j - n13]);
        assert(!meta_known(v.unknown_boxes[j - n13]));
    }
}

/// Collecting over the lists of a meta one after the other collects over each in
/// turn.
proof fn lemma_meta_split<T: BoxBody>(m0: Seq<UnknownBoxModel>, m1: Seq<UnknownBoxModel>, m2: Seq<UnknownBoxModel>, m3: Seq<UnknownBoxModel>, m4: Seq<UnknownBoxModel>, m5: Seq<UnknownBoxModel>, m6: Seq<UnknownBoxModel>, m7: Seq<UnknownBoxModel>, m8: Seq<UnknownBoxModel>, m9: Seq<UnknownBoxModel>, m10: Seq<UnknownBoxModel>, m11: Seq<UnknownBoxModel>, m12: Seq<UnknownBoxModel>, m13: Seq<UnknownBoxModel>)
    ensures
        collect_children::<T>(m0 + m1 + m2 + m3 + m4 + m5 + m6 + m7 + m8 + m9 + m10 + m11 + m12 + m13) == collect_children::<T>(m0) + collect_children::<T>(m1) + collect_children::<T>(m2) + collect_children::<T>(m3) + collect_children::<T>(m4) + collect_children::<T>(m5) + collect_children::<T>(m6) + collect_children::<T>(m7) + collect_children::<T>(m8) + collect_children::<T>(m9) + collect_children::<T>(m10) + collect_children::<T>(m11) + collect_children::<T>(m12) + collect_children::<T>(m13),
{
    lemma_collect_add::<T>(m0 + m1 + m2 + m3 + m4 + m5 + m6 + m7 + m8 + m9 + m10 + m11 + m12, m13);
    lemma_collect_add::<T>(m0 + m1 + m2 + m3 + m4 + m5 + m6 + m7 + m8 + m9 + m10 + m11, m12);
    lemma_collect_add::<T>(m0 + m1 + m2 + m3 + m4 + m5 + m6 + m7 + m8 + m9 + m10, m11);
    lemma_collect_add::<T>(m0 + m1 + m2 + m3 + m4 + m5 + m6 + m7 + m8 + m9, m10);
    lemma_collect_add::<T>(m0 + m1 + m2 + m3 + m4 + m5 + m6 + m7 + m8, m9);
    lemma_collect_add::<T>(m0 + m1 + m2 + m3 + m4 + m5 + m6 + m7, m8);
    lemma_collect_add::<T>(m0 + m1 + m2 + m3 + m4 + m5 + m6, m7);
    lemma_collect_add::<T>(m0 + m1 + m2 + m3 + m4 + m5, m6);
    lemma_collect_add::<T>(m0 + m1 + m2 + m3 + m4, m5);
    lemma_collect_add::<T>(m0 + m1 + m2 + m3, m4);
    lemma_collect_add::<T>(m0 + m1 + m2, m3);
    lemma_collect_add::<T>(m0 + m1, m2);
    lemma_collect_add::<T>(m0, m1);
}

/// The boxes that a meta writes collect back into its field `hdlr`.
#[verifier::spinoff_prover]
#[verifier::rlimit(60)]
proof fn lemma_meta_collect_hdlr(v: MetaBoxModel)
    requires
        meta_canonical(v),
        meta_types_differ(),
    ensures
        collect_children::<HandlerBox>(meta_models(v)) == seq![v.hdlr],
{
    lemma_meta_split::<HandlerBox>(seq![nested_model::<HandlerBox>(v.hdlr)], nested_opt_models::<DataInformationBox>(v.dinf), nested_opt_models::<ItemLocationBox>(v.iloc), nested_opt_models::<ItemProtectionBox>(v.ipro), nested_opt_models::<ItemInfoBox>(v.iinf), nested_opt_models::<XmlBox>(v.xml), nested_opt_models::<BinaryXmlBox>(v.bxml), nested_opt_models::<PrimaryItemBox>(v.pitm), nested_opt_models::<FDItemInformationBox>(v.fiin), nested_opt_models::<ItemDataBox>(v.idat), nested_opt_models::<ItemReferenceBox>(v.iref), nested_opt_models::<ItemPropertiesBox>(v.iprp), nested_opt_models::<GroupsListBox>(v.grpl), v.unknown_boxes);
    lemma_nested_opt_own::<HandlerBox>(Some(v.hdlr));
    assert(nested_opt_models::<HandlerBox>(Some(v.hdlr)) == seq![nested_model::<HandlerBox>(v.hdlr)]);
    lemma_nested_opt_other::<HandlerBox, DataInformationBox>(v.dinf);
    lemma_nested_opt_other::<HandlerBox, ItemLocationBox>(v.iloc);
    lemma_nested_opt_other::<HandlerBox, ItemProtectionBox>(v.ipro);
    lemma_nested_opt_other::<HandlerBox, ItemInfoBox>(v.iinf);
    lemma_nested_opt_other::<HandlerBox, XmlBox>(v.xml);
    lemma_nested_opt_other::<HandlerBox, BinaryXmlBox>(v.bxml);
    lemma_nested_opt_other::<HandlerBox, PrimaryItemBox>(v.pitm);
    lemma_nested_opt_other::<HandlerBox, FDItemInformationBox>(v.fiin);
    lemma_nested_opt_other::<HandlerBox, ItemDataBox>(v.idat);
    lemma_nested_opt_other::<HandlerBox, ItemReferenceBox>(v.iref);
    lemma_nested_opt_other::<HandlerBox, ItemPropertiesBox>(v.iprp);
    lemma_nested_opt_other::<HandlerBox, GroupsListBox>(v.grpl);
    assert forall|i: int| 0 <= i < v.unknown_boxes.len() implies !#[trigger] is_child::<HandlerBox>(v.unknown_boxes[i]) by {
        assert(!meta_known(v.unknown_boxes[i]));
    }
    lemma_collect_none::<HandlerBox>(v.unknown_boxes);
    assert(collect_children::<HandlerBox>(meta_models(v)) =~= seq![v.hdlr]);
}

/// The boxes that a meta writes collect back into its field `dinf`.
#[verifier::spinoff_prover]
#[verifier::rlimit(60)]
proof fn lemma_meta_collect_dinf(v: MetaBoxModel)
    requires
        meta_canonical(v),
        meta_types_differ(),
    ensures
        collect_children::<DataInformationBox>(meta_models(v)) == opt_seq(v.dinf),
{
    lemma_meta_split::<DataInformationBox>(seq![nested_model::<HandlerBox>(v.hdlr)], nested_opt_models::<DataInformationBox>(v.dinf), nested_opt_models::<ItemLocationBox>(v.iloc), nested_opt_models::<ItemProtectionBox>(v.ipro), nested_opt_models::<ItemInfoBox>(v.iinf), nested_opt_models::<XmlBox>(v.xml), nested_opt_models::<BinaryXmlBox>(v.bxml), nested_opt_models::<PrimaryItemBox>(v.pitm), nested_opt_models::<FDItemInformationBox>(v.fiin), nested_opt_models::<ItemDataBox>(v.idat), nested_opt_models::<ItemReferenceBox>(v.iref), nested_opt_models::<ItemPropertiesBox>(v.iprp), nested_opt_models::<GroupsListBox>(v.grpl), v.unknown_boxes);
    lemma_nested_opt_other::<DataInformationBox, HandlerBox>(Some(v.hdlr));
    assert(nested_opt_models::<HandlerBox>(Some(v.hdlr)) == seq![nested_model::<HandlerBox>(v.hdlr)]);
    lemma_nested_opt_own::<DataInformationBox>(v.dinf);
    lemma_nested_opt_other::<DataInformationBox, ItemLocationBox>(v.iloc);
    lemma_nested_opt_other::<DataInformationBox, ItemProtectionBox>(v.ipro);
    lemma_nested_opt_other::<DataInformationBox, ItemInfoBox>(v.iinf);
    lemma_nested_opt_other::<DataInformationBox, XmlBox>(v.xml);
    lemma_nested_opt_other::<DataInformationBox, BinaryXmlBox>(v.bxml);
    lemma_nested_opt_other::<DataInformationBox, PrimaryItemBox>(v.pitm);
    lemma_nested_opt_other::<DataInformationBox, FDItemInformationBox>(v.fiin);
    lemma_nested_opt_other::<DataInformationBox, ItemDataBox>(v.idat);
    lemma_nested_opt_other::<DataInformationBox, ItemReferenceBox>(v.iref);
    lemma_nested_opt_other::<DataInformationBox, ItemPropertiesBox>(v.iprp);
    lemma_nested_opt_other::<DataInformationBox, GroupsListBox>(v.grpl);
    assert forall|i: int| 0 <= i < v.unknown_boxes.len() implies !#[trigger] is_child::<DataInformationBox>(v.unknown_boxes[i]) by {
        assert(!meta_known(v.unknown_boxes[i]));
    }
    lemma_collect_none::<DataInformationBox>(v.unknown_boxes);
    assert(collect_children::<DataInformationBox>(meta_models(v)) =~= opt_seq(v.dinf));
}

/// The boxes that a meta writes collect back into its field `iloc`.
#[verifier::spinoff_prover]
#[verifier::rlimit(60)]
proof fn lemma_meta_collect_iloc(v: MetaBoxModel)
    requires
        meta_canonical(v),
        meta_types_differ(),
    ensures
        collect_children::<ItemLocationBox>(meta_models(v)) == opt_seq(v.iloc),
{
    lemma_meta_split::<ItemLocationBox>(seq![nested_model::<HandlerBox>(v.hdlr)], nested_opt_models::<DataInformationBox>(v.dinf), nested_opt_models::<ItemLocationBox>(v.iloc), nested_opt_models::<ItemProtectionBox>(v.ipro), nested_opt_models::<ItemInfoBox>(v.iinf), nested_opt_models::<XmlBox>(v.xml), nested_opt_models::<BinaryXmlBox>(v.bxml), nested_opt_models::<PrimaryItemBox>(v.pitm), nested_opt_models::<FDItemInformationBox>(v.fiin), nested_opt_models::<ItemDataBox>(v.idat), nested_opt_models::<ItemReferenceBox>(v.iref), nested_opt_models::<ItemPropertiesBox>(v.iprp), nested_opt_models::<GroupsListBox>(v.grpl), v.unknown_boxes);
    lemma_nested_opt_other::<ItemLocationBox, HandlerBox>(Some(v.hdlr));
    assert(nested_opt_models::<HandlerBox>(Some(v.hdlr)) == seq![nested_model::<HandlerBox>(v.hdlr)]);
    lemma_nested_opt_other::<ItemLocationBox, DataInformationBox>(v.dinf);
    lemma_nested_opt_own::<ItemLocationBox>(v.iloc);
    lemma_nested_opt_other::<ItemLocationBox, ItemProtectionBox>(v.ipro);
    lemma_nested_opt_other::<ItemLocationBox, ItemInfoBox>(v.iinf);
    lemma_nested_opt_other::<ItemLocationBox, XmlBox>(v.xml);
    lemma_nested_opt_other::<ItemLocationBox, BinaryXmlBox>(v.bxml);
    lemma_nested_opt_other::<ItemLocationBox, PrimaryItemBox>(v.pitm);
    lemma_nested_opt_other::<ItemLocationBox, FDItemInformationBox>(v.fiin);
    lemma_nested_opt_other::<ItemLocationBox, ItemDataBox>(v.idat);
    lemma_nested_opt_other::<ItemLocationBox, ItemReferenceBox>(v.iref);
    lemma_nested_opt_other::<ItemLocationBox, ItemPropertiesBox>(v.iprp);
    lemma_nested_opt_other::<ItemLocationBox, GroupsListBox>(v.grpl);
    assert forall|i: int| 0 <= i < v.unknown_boxes.len() implies !#[trigger] is_child::<ItemLocationBox>(v.unknown_boxes[i]) by {
        assert(!meta_known(v.unknown_boxes[i]));
    }
    lemma_collect_none::<ItemLocationBox>(v.unknown_boxes);
    assert(collect_children::<ItemLocationBox>(meta_models(v)) =~= opt_seq(v.iloc));
}

/// The boxes that a meta writes collect back into its field `ipro`.
#[verifier::spinoff_prover]
#[verifier::rlimit(60)]
proof fn lemma_meta_collect_ipro(v: MetaBoxModel)
    requires
        meta_canonical(v),
        meta_types_differ(),
    ensures
        collect_children::<ItemProtectionBox>(meta_models(v)) == opt_seq(v.ipro),
{
    lemma_meta_split::<ItemProtectionBox>(seq![nested_model::<HandlerBox>(v.hdlr)], nested_opt_models::<DataInformationBox>(v.dinf), nested_opt_models::<ItemLocationBox>(v.iloc), nested_opt_models::<ItemProtectionBox>(v.ipro), nested_opt_models::<ItemInfoBox>(v.iinf), nested_opt_models::<XmlBox>(v.xml), nested_opt_models::<BinaryXmlBox>(v.bxml), nested_opt_models::<PrimaryItemBox>(v.pitm), nested_opt_models::<FDItemInformationBox>(v.fiin), nested_opt_models::<ItemDataBox>(v.idat), nested_opt_models::<ItemReferenceBox>(v.iref), nested_opt_models::<ItemPropertiesBox>(v.iprp), nested_opt_models::<GroupsListBox>(v.grpl), v.unknown_boxes);
    lemma_nested_opt_other::<ItemProtectionBox, HandlerBox>(Some(v.hdlr));
    assert(nested_opt_models::<HandlerBox>(Some(v.hdlr)) == seq![nested_model::<HandlerBox>(v.hdlr)]);
    lemma_nested_opt_other::<ItemProtectionBox, DataInformationBox>(v.dinf);
    lemma_nested_opt_other::<ItemProtectionBox, ItemLocationBox>(v.iloc);
    lemma_nested_opt_own::<ItemProtectionBox>(v.ipro);
    lemma_nested_opt_other::<ItemProtectionBox, ItemInfoBox>(v.iinf);
    lemma_nested_opt_other::<ItemProtectionBox, XmlBox>(v.xml);
    lemma_nested_opt_other::<ItemProtectionBox, BinaryXmlBox>(v.bxml);
    lemma_nested_opt_other::<ItemProtectionBox, PrimaryItemBox>(v.pitm);
    lemma_nested_opt_other::<ItemProtectionBox, FDItemInformationBox>(v.fiin);
    lemma_nested_opt_other::<ItemProtectionBox, ItemDataBox>(v.idat);
    lemma_nested_opt_other::<ItemProtectionBox, ItemReferenceBox>(v.iref);
    lemma_nested_opt_other::<ItemProtectionBox, ItemPropertiesBox>(v.iprp);
    lemma_nested_opt_other::<ItemProtectionBox, GroupsListBox>(v.grpl);
    assert forall|i: int| 0 <= i < v.unknown_boxes.len() implies !#[trigger] is_child::<ItemProtectionBox>(v.unknown_boxes[i]) by {
        assert(!meta_known(v.unknown_boxes[i]));
    }
    lemma_collect_none::<ItemProtectionBox>(v.unknown_boxes);
    assert(collect_children::<ItemProtectionBox>(meta_models(v)) =~= opt_seq(v.ipro));
}

/// The boxes that a meta writes collect back into its field `iinf`.
#[verifier::spinoff_prover]
#[verifier::rlimit(60)]
proof fn lemma_meta_collect_iinf(v: MetaBoxModel)
    requires
        meta_canonical(v),
        meta_types_differ(),
    ensures
        collect_children::<ItemInfoBox>(meta_models(v)) == opt_seq(v.iinf),
{
    lemma_meta_split::<ItemInfoBox>(seq![nested_model::<HandlerBox>(v.hdlr)], nested_opt_models::<DataInformationBox>(v.dinf), nested_opt_models::<ItemLocationBox>(v.iloc), nested_opt_models::<ItemProtectionBox>(v.ipro), nested_opt_models::<ItemInfoBox>(v.iinf), nested_opt_models::<XmlBox>(v.xml), nested_opt_models::<BinaryXmlBox>(v.bxml), nested_opt_models::<PrimaryItemBox>(v.pitm), nested_opt_models::<FDItemInformationBox>(v.fiin), nested_opt_models::<ItemDataBox>(v.idat), nested_opt_models::<ItemReferenceBox>(v.iref), nested_opt_models::<ItemPropertiesBox>(v.iprp), nested_opt_models::<GroupsListBox>(v.grpl), v.unknown_boxes);
    lemma_nested_opt_other::<ItemInfoBox, HandlerBox>(Some(v.hdlr));
    assert(nested_opt_models::<HandlerBox>(Some(v.hdlr)) == seq![nested_model::<HandlerBox>(v.hdlr)]);
    lemma_nested_opt_other::<ItemInfoBox, DataInformationBox>(v.dinf);
    lemma_nested_opt_other::<ItemInfoBox, ItemLocationBox>(v.iloc);
    lemma_nested_opt_other::<ItemInfoBox, ItemProtectionBox>(v.ipro);
    lemma_nested_opt_own::<ItemInfoBox>(v.iinf);
    lemma_nested_opt_other::<ItemInfoBox, XmlBox>(v.xml);
    lemma_nested_opt_other::<ItemInfoBox, BinaryXmlBox>(v.bxml);
    lemma_nested_opt_other::<ItemInfoBox, PrimaryItemBox>(v.pitm);
    lemma_nested_opt_other::<ItemInfoBox, FDItemInformationBox>(v.fiin);
    lemma_nested_opt_other::<ItemInfoBox, ItemDataBox>(v.idat);
    lemma_nested_opt_other::<ItemInfoBox, ItemReferenceBox>(v.iref);
    lemma_nested_opt_other::<ItemInfoBox, ItemPropertiesBox>(v.iprp);
    lemma_nested_opt_other::<ItemInfoBox, GroupsListBox>(v.grpl);
    assert forall|i: int| 0 <= i < v.unknown_boxes.len() implies !#[trigger] is_child::<ItemInfoBox>(v.unknown_boxes[i]) by {
        assert(!meta_known(v.unknown_boxes[i]));
    }
    lemma_collect_none::<ItemInfoBox>(v.unknown_boxes);
    assert(collect_children::<ItemInfoBox>(meta_models(v)) =~= opt_seq(v.iinf));
}

/// The boxes that a meta writes collect back into its field `xml`.
#[verifier::spinoff_prover]
#[verifier::rlimit(60)]
proof fn lemma_meta_collect_xml(v: MetaBoxModel)
    requires
        meta_canonical(v),
        meta_types_differ(),
    ensures
        collect_children::<XmlBox>(meta_models(v)) == opt_seq(v.xml),
{
    lemma_meta_split::<XmlBox>(seq![nested_model::<HandlerBox>(v.hdlr)], nested_opt_models::<DataInformationBox>(v.dinf), nested_opt_models::<ItemLocationBox>(v.iloc), nested_opt_models::<ItemProtectionBox>(v.ipro), nested_opt_models::<ItemInfoBox>(v.iinf), nested_opt_models::<XmlBox>(v.xml), nested_opt_models::<BinaryXmlBox>(v.bxml), nested_opt_models::<PrimaryItemBox>(v.pitm), nested_opt_models::<FDItemInformationBox>(v.fiin), nested_opt_models::<ItemDataBox>(v.idat), nested_opt_models::<ItemReferenceBox>(v.iref), nested_opt_models::<ItemPropertiesBox>(v.iprp), nested_opt_models::<GroupsListBox>(v.grpl), v.unknown_boxes);
    lemma_nested_opt_other::<XmlBox, HandlerBox>(Some(v.hdlr));
    assert(nested_opt_models::<HandlerBox>(Some(v.hdlr)) == seq![nested_model::<HandlerBox>(v.hdlr)]);
    lemma_nested_opt_other::<XmlBox, DataInformationBox>(v.dinf);
    lemma_nested_opt_other::<XmlBox, ItemLocationBox>(v.iloc);
    lemma_nested_opt_other::<XmlBox, ItemProtectionBox>(v.ipro);
    lemma_nested_opt_other::<XmlBox, ItemInfoBox>(v.iinf);
    lemma_nested_opt_own::<XmlBox>(v.xml);
    lemma_nested_opt_other::<XmlBox, BinaryXmlBox>(v.bxml);
    lemma_nested_opt_other::<XmlBox, PrimaryItemBox>(v.pitm);
    lemma_nested_opt_other::<XmlBox, FDItemInformationBox>(v.fiin);
    lemma_nested_opt_other::<XmlBox, ItemDataBox>(v.idat);
    lemma_nested_opt_other::<XmlBox, ItemReferenceBox>(v.iref);
    lemma_nested_opt_other::<XmlBox, ItemPropertiesBox>(v.iprp);
    lemma_nested_opt_other::<XmlBox, GroupsListBox>(v.grpl);
    assert forall|i: int| 0 <= i < v.unknown_boxes.len() implies !#[trigger] is_child::<XmlBox>(v.unknown_boxes[i]) by {
        assert(!meta_known(v.unknown_boxes[i]));
    }
    lemma_collect_none::<XmlBox>(v.unknown_boxes);
    assert(collect_children::<XmlBox>(meta_models(v)) =~= opt_seq(v.xml));
}

/// The boxes that a meta writes collect back into its field `bxml`.
#[verifier::spinoff_prover]
#[verifier::rlimit(60)]
proof fn lemma_meta_collect_bxml(v: MetaBoxModel)
    requires
        meta_canonical(v),
        meta_types_differ(),
    ensures
        collect_children::<BinaryXmlBox>(meta_models(v)) == opt_seq(v.bxml),
{
    lemma_meta_split::<BinaryXmlBox>(seq![nested_model::<HandlerBox>(v.hdlr)], nested_opt_models::<DataInformationBox>(v.dinf), nested_opt_models::<ItemLocationBox>(v.iloc), nested_opt_models::<ItemProtectionBox>(v.ipro), nested_opt_models::<ItemInfoBox>(v.iinf), nested_opt_models::<XmlBox>(v.xml), nested_opt_models::<BinaryXmlBox>(v.bxml), nested_opt_models::<PrimaryItemBox>(v.pitm), nested_opt_models::<FDItemInformationBox>(v.fiin), nested_opt_models::<ItemDataBox>(v.idat), nested_opt_models::<ItemReferenceBox>(v.iref), nested_opt_models::<ItemPropertiesBox>(v.iprp), nested_opt_models::<GroupsListBox>(v.grpl), v.unknown_boxes);
    lemma_nested_opt_other::<BinaryXmlBox, HandlerBox>(Some(v.hdlr));
    assert(nested_opt_models::<HandlerBox>(Some(v.hdlr)) == seq![nested_model::<HandlerBox>(v.hdlr)]);
    lemma_nested_opt_other::<BinaryXmlBox, DataInformationBox>(v.dinf);
    lemma_nested_opt_other::<BinaryXmlBox, ItemLocationBox>(v.iloc);
    lemma_nested_opt_other::<BinaryXmlBox, ItemProtectionBox>(v.ipro);
    lemma_nested_opt_other::<BinaryXmlBox, ItemInfoBox>(v.iinf);
    lemma_nested_opt_other::<BinaryXmlBox, XmlBox>(v.xml);
    lemma_nested_opt_own::<BinaryXmlBox>(v.bxml);
    lemma_nested_opt_other::<BinaryXmlBox, PrimaryItemBox>(v.pitm);
    lemma_nested_opt_other::<BinaryXmlBox, FDItemInformationBox>(v.fiin);
    lemma_nested_opt_other::<BinaryXmlBox, ItemDataBox>(v.idat);
    lemma_nested_opt_other::<BinaryXmlBox, ItemReferenceBox>(v.iref);
    lemma_nested_opt_other::<BinaryXmlBox, ItemPropertiesBox>(v.iprp);
    lemma_nested_opt_other::<BinaryXmlBox, GroupsListBox>(v.grpl);
    assert forall|i: int| 0 <= i < v.unknown_boxes.len() implies !#[trigger] is_child::<BinaryXmlBox>(v.unknown_boxes[i]) by {
        assert(!meta_known(v.unknown_boxes[i]));
    }
    lemma_collect_none::<BinaryXmlBox>(v.unknown_boxes);
    assert(collect_children::<BinaryXmlBox>(meta_models(v)) =~= opt_seq(v.bxml));
}

/// The boxes that a meta writes collect back into its field `pitm`.
#[verifier::spinoff_prover]
#[verifier::rlimit(60)]
proof fn lemma_meta_collect_pitm(v: MetaBoxModel)
    requires
        meta_canonical(v),
        meta_types_differ(),
    ensures
        collect_children::<PrimaryItemBox>(meta_models(v)) == opt_seq(v.pitm),
{
    lemma_meta_split::<PrimaryItemBox>(seq![nested_model::<HandlerBox>(v.hdlr)], nested_opt_models::<DataInformationBox>(v.dinf), nested_opt_models::<ItemLocationBox>(v.iloc), nested_opt_models::<ItemProtectionBox>(v.ipro), nested_opt_models::<ItemInfoBox>(v.iinf), nested_opt_models::<XmlBox>(v.xml), nested_opt_models::<BinaryXmlBox>(v.bxml), nested_opt_models::<PrimaryItemBox>(v.pitm), nested_opt_models::<FDItemInformationBox>(v.fiin), nested_opt_models::<ItemDataBox>(v.idat), nested_opt_models::<ItemReferenceBox>(v.iref), nested_opt_models::<ItemPropertiesBox>(v.iprp), nested_opt_models::<GroupsListBox>(v.grpl), v.unknown_boxes);
    lemma_nested_opt_other::<PrimaryItemBox, HandlerBox>(Some(v.hdlr));
    assert(nested_opt_models::<HandlerBox>(Some(v.hdlr)) == seq![nested_model::<HandlerBox>(v.hdlr)]);
    lemma_nested_opt_other::<PrimaryItemBox, DataInformationBox>(v.dinf);
    lemma_nested_opt_other::<PrimaryItemBox, ItemLocationBox>(v.iloc);
    lemma_nested_opt_other::<PrimaryItemBox, ItemProtectionBox>(v.ipro);
    lemma_nested_opt_other::<PrimaryItemBox, ItemInfoBox>(v.iinf);
    lemma_nested_opt_other::<PrimaryItemBox, XmlBox>(v.xml);
    lemma_nested_opt_other::<PrimaryItemBox, BinaryXmlBox>(v.bxml);
    lemma_nested_opt_own::<PrimaryItemBox>(v.pitm);
    lemma_nested_opt_other::<PrimaryItemBox, FDItemInformationBox>(v.fiin);
    lemma_nested_opt_other::<PrimaryItemBox, ItemDataBox>(v.idat);
    lemma_nested_opt_other::<PrimaryItemBox, ItemReferenceBox>(v.iref);
    lemma_nested_opt_other::<PrimaryItemBox, ItemPropertiesBox>(v.iprp);
    lemma_nested_opt_other::<PrimaryItemBox, GroupsListBox>(v.grpl);
    assert forall|i: int| 0 <= i < v.unknown_boxes.len() implies !#[trigger] is_child::<PrimaryItemBox>(v.unknown_boxes[i]) by {
        assert(!meta_known(v.unknown_boxes[i]));
    }
    lemma_collect_none::<PrimaryItemBox>(v.unknown_boxes);
    assert(collect_children::<PrimaryItemBox>(meta_models(v)) =~= opt_seq(v.pitm));
}

/// The boxes that a meta writes collect back into its field `fiin`.
#[verifier::spinoff_prover]
#[verifier::rlimit(60)]
proof fn lemma_meta_collect_fiin(v: MetaBoxModel)
    requires
        meta_canonical(v),
        meta_types_differ(),
    ensures
        collect_children::<FDItemInformationBox>(meta_models(v)) == opt_seq(v.fiin),
{
    lemma_meta_split::<FDItemInformationBox>(seq![nested_model::<HandlerBox>(v.hdlr)], nested_opt_models::<DataInformationBox>(v.dinf), nested_opt_models::<ItemLocationBox>(v.iloc), nested_opt_models::<ItemProtectionBox>(v.ipro), nested_opt_models::<ItemInfoBox>(v.iinf), nested_opt_models::<XmlBox>(v.xml), nested_opt_models::<BinaryXmlBox>(v.bxml), nested_opt_models::<PrimaryItemBox>(v.pitm), nested_opt_models::<FDItemInformationBox>(v.fiin), nested_opt_models::<ItemDataBox>(v.idat), nested_opt_models::<ItemReferenceBox>(v.iref), nested_opt_models::<ItemPropertiesBox>(v.iprp), nested_opt_models::<GroupsListBox>(v.grpl), v.unknown_boxes);
    lemma_nested_opt_other::<FDItemInformationBox, HandlerBox>(Some(v.hdlr));
    assert(nested_opt_models::<HandlerBox>(Some(v.hdlr)) == seq![nested_model::<HandlerBox>(v.hdlr)]);
    lemma_nested_opt_other::<FDItemInformationBox, DataInformationBox>(v.dinf);
    lemma_nested_opt_other::<FDItemInformationBox, ItemLocationBox>(v.iloc);
    lemma_nested_opt_other::<FDItemInformationBox, ItemProtectionBox>(v.ipro);
    lemma_nested_opt_other::<FDItemInformationBox, ItemInfoBox>(v.iinf);
    lemma_nested_opt_other::<FDItemInformationBox, XmlBox>(v.xml);
    lemma_nested_opt_other::<FDItemInformationBox, BinaryXmlBox>(v.bxml);
    lemma_nested_opt_other::<FDItemInformationBox, PrimaryItemBox>(v.pitm);
    lemma_nested_opt_own::<FDItemInformationBox>(v.fiin);
    lemma_nested_opt_other::<FDItemInformationBox, ItemDataBox>(v.idat);
    lemma_nested_opt_other::<FDItemInformationBox, ItemReferenceBox>(v.iref);
    lemma_nested_opt_other::<FDItemInformationBox, ItemPropertiesBox>(v.iprp);
    lemma_nested_opt_other::<FDItemInformationBox, GroupsListBox>(v.grpl);
    assert forall|i: int| 0 <= i < v.unknown_boxes.len() implies !#[trigger] is_child::<FDItemInformationBox>(v.unknown_boxes[i]) by {
        assert(!meta_known(v.unknown_boxes[i]));
    }
    lemma_collect_none::<FDItemInformationBox>(v.unknown_boxes);
    assert(collect_children::<FDItemInformationBox>(meta_models(v)) =~= opt_seq(v.fiin));
}

/// The boxes that a meta writes collect back into its field `idat`.
#[verifier::spinoff_prover]
#[verifier::rlimit(60)]
proof fn lemma_meta_collect_idat(v: MetaBoxModel)
    requires
        meta_canonical(v),
        meta_types_differ(),
    ensures
        collect_children::<ItemDataBox>(meta_models(v)) == opt_seq(v.idat),
{
    lemma_meta_split::<ItemDataBox>(seq![nested_model::<HandlerBox>(v.hdlr)], nested_opt_models::<DataInformationBox>(v.dinf), nested_opt_models::<ItemLocationBox>(v.iloc), nested_opt_models::<ItemProtectionBox>(v.ipro), nested_opt_models::<ItemInfoBox>(v.iinf), nested_opt_models::<XmlBox>(v.xml), nested_opt_models::<BinaryXmlBox>(v.bxml), nested_opt_models::<PrimaryItemBox>(v.pitm), nested_opt_models::<FDItemInformationBox>(v.fiin), nested_opt_models::<ItemDataBox>(v.idat), nested_opt_models::<ItemReferenceBox>(v.iref), nested_opt_models::<ItemPropertiesBox>(v.iprp), nested_opt_models::<GroupsListBox>(v.grpl), v.unknown_boxes);
    lemma_nested_opt_other::<ItemDataBox, HandlerBox>(Some(v.hdlr));
    assert(nested_opt_models::<HandlerBox>(Some(v.hdlr)) == seq![nested_model::<HandlerBox>(v.hdlr)]);
    lemma_nested_opt_other::<ItemDataBox, DataInformationBox>(v.dinf);
    lemma_nested_opt_other::<ItemDataBox, ItemLocationBox>(v.iloc);
    lemma_nested_opt_other::<ItemDataBox, ItemProtectionBox>(v.ipro);
    lemma_nested_opt_other::<ItemDataBox, ItemInfoBox>(v.iinf);
    lemma_nested_opt_other::<ItemDataBox, XmlBox>(v.xml);
    lemma_nested_opt_other::<ItemDataBox, BinaryXmlBox>(v.bxml);
    lemma_nested_opt_other::<ItemDataBox, PrimaryItemBox>(v.pitm);
    lemma_nested_opt_other::<ItemDataBox, FDItemInformationBox>(v.fiin);
    lemma_nested_opt_own::<ItemDataBox>(v.idat);
    lemma_nested_opt_other::<ItemDataBox, ItemReferenceBox>(v.iref);
    lemma_nested_opt_other::<ItemDataBox, ItemPropertiesBox>(v.iprp);
    lemma_nested_opt_other::<ItemDataBox, GroupsListBox>(v.grpl);
    assert forall|i: int| 0 <= i < v.unknown_boxes.len() implies !#[trigger] is_child::<ItemDataBox>(v.unknown_boxes[i]) by {
        assert(!meta_known(v.unknown_boxes[i]));
    }
    lemma_collect_none::<ItemDataBox>(v.unknown_boxes);
    assert(collect_children::<ItemDataBox>(meta_models(v)) =~= opt_seq(v.idat));
}

/// The boxes that a meta writes collect back into its field `iref`.
#[verifier::spinoff_prover]
#[verifier::rlimit(60)]
proof fn lemma_meta_collect_iref(v: MetaBoxModel)
    requires
        meta_canonical(v),
        meta_types_differ(),
    ensures
        collect_children::<ItemReferenceBox>(meta_models(v)) == opt_seq(v.iref),
{
    lemma_meta_split::<ItemReferenceBox>(seq![nested_model::<HandlerBox>(v.hdlr)], nested_opt_models::<DataInformationBox>(v.dinf), nested_opt_models::<ItemLocationBox>(v.iloc), nested_opt_models::<ItemProtectionBox>(v.ipro), nested_opt_models::<ItemInfoBox>(v.iinf), nested_opt_models::<XmlBox>(v.xml), nested_opt_models::<BinaryXmlBox>(v.bxml), nested_opt_models::<PrimaryItemBox>(v.pitm), nested_opt_models::<FDItemInformationBox>(v.fiin), nested_opt_models::<ItemDataBox>(v.idat), nested_opt_models::<ItemReferenceBox>(v.iref), nested_opt_models::<ItemPropertiesBox>(v.iprp), nested_opt_models::<GroupsListBox>(v.grpl), v.unknown_boxes);
    lemma_nested_opt_other::<ItemReferenceBox, HandlerBox>(Some(v.hdlr));
    assert(nested_opt_models::<HandlerBox>(Some(v.hdlr)) == seq![nested_model::<HandlerBox>(v.hdlr)]);
    lemma_nested_opt_other::<ItemReferenceBox, DataInformationBox>(v.dinf);
    lemma_nested_opt_other::<ItemReferenceBox, ItemLocationBox>(v.iloc);
    lemma_nested_opt_other::<ItemReferenceBox, ItemProtectionBox>(v.ipro);
    lemma_nested_opt_other::<ItemReferenceBox, ItemInfoBox>(v.iinf);
    lemma_nested_opt_other::<ItemReferenceBox, XmlBox>(v.xml);
    lemma_nested_opt_other::<ItemReferenceBox, BinaryXmlBox>(v.bxml);
    lemma_nested_opt_other::<ItemReferenceBox, PrimaryItemBox>(v.pitm);
    lemma_nested_opt_other::<ItemReferenceBox, FDItemInformationBox>(v.fiin);
    lemma_nested_opt_other::<ItemReferenceBox, ItemDataBox>(v.idat);
    lemma_nested_opt_own::<ItemReferenceBox>(v.iref);
    lemma_nested_opt_other::<ItemReferenceBox, ItemPropertiesBox>(v.iprp);
    lemma_nested_opt_other::<ItemReferenceBox, GroupsListBox>(v.grpl);
    assert forall|i: int| 0 <= i < v.unknown_boxes.len() implies !#[trigger] is_child::<ItemReferenceBox>(v.unknown_boxes[i]) by {
        assert(!meta_known(v.unknown_boxes[i]));
    }
    lemma_collect_none::<ItemReferenceBox>(v.unknown_boxes);
    assert(collect_children::<ItemReferenceBox>(meta_models(v)) =~= opt_seq(v.iref));
}

/// The boxes that a meta writes collect back into its field `iprp`.
#[verifier::spinoff_prover]
#[verifier::rlimit(60)]
proof fn lemma_meta_collect_iprp(v: MetaBoxModel)
    requires
        meta_canonical(v),
        meta_types_differ(),
    ensures
        collect_children::<ItemPropertiesBox>(meta_models(v)) == opt_seq(v.iprp),
{
    lemma_meta_split::<ItemPropertiesBox>(seq![nested_model::<HandlerBox>(v.hdlr)], nested_opt_models::<DataInformationBox>(v.dinf), nested_opt_models::<ItemLocationBox>(v.iloc), nested_opt_models::<ItemProtectionBox>(v.ipro), nested_opt_models::<ItemInfoBox>(v.iinf), nested_opt_models::<XmlBox>(v.xml), nested_opt_models::<BinaryXmlBox>(v.bxml), nested_opt_models::<PrimaryItemBox>(v.pitm), nested_opt_models::<FDItemInformationBox>(v.fiin), nested_opt_models::<ItemDataBox>(v.idat), nested_opt_models::<ItemReferenceBox>(v.iref), nested_opt_models::<ItemPropertiesBox>(v.iprp), nested_opt_models::<GroupsListBox>(v.grpl), v.unknown_boxes);
    lemma_nested_opt_other::<ItemPropertiesBox, HandlerBox>(Some(v.hdlr));
    assert(nested_opt_models::<HandlerBox>(Some(v.hdlr)) == seq![nested_model::<HandlerBox>(v.hdlr)]);
    lemma_nested_opt_other::<ItemPropertiesBox, DataInformationBox>(v.dinf);
    lemma_nested_opt_other::<ItemPropertiesBox, ItemLocationBox>(v.iloc);
    lemma_nested_opt_other::<ItemPropertiesBox, ItemProtectionBox>(v.ipro);
    lemma_nested_opt_other::<ItemPropertiesBox, ItemInfoBox>(v.iinf);
    lemma_nested_opt_other::<ItemPropertiesBox, XmlBox>(v.xml);
    lemma_nested_opt_other::<ItemPropertiesBox, BinaryXmlBox>(v.bxml);
    lemma_nested_opt_other::<ItemPropertiesBox, PrimaryItemBox>(v.pitm);
    lemma_nested_opt_other::<ItemPropertiesBox, FDItemInformationBox>(v.fiin);
    lemma_nested_opt_other::<ItemPropertiesBox, ItemDataBox>(v.idat);
    lemma_nested_opt_other::<ItemPropertiesBox, ItemReferenceBox>(v.iref);
    lemma_nested_opt_own::<ItemPropertiesBox>(v.iprp);
    lemma_nested_opt_other::<ItemPropertiesBox, GroupsListBox>(v.grpl);
    assert forall|i: int| 0 <= i < v.unknown_boxes.len() implies !#[trigger] is_child::<ItemPropertiesBox>(v.unknown_boxes[i]) by {
        assert(!meta_known(v.unknown_boxes[i]));
    }
    lemma_collect_none::<ItemPropertiesBox>(v.unknown_boxes);
    assert(collect_children::<ItemPropertiesBox>(meta_models(v)) =~= opt_seq(v.iprp));
}

/// The boxes that a meta writes collect back into its field `grpl`.
#[verifier::spinoff_prover]
#[verifier::rlimit(60)]
proof fn lemma_meta_collect_grpl(v: MetaBoxModel)
    requires
        meta_canonical(v),
        meta_types_differ(),
    ensures
        collect_children::<GroupsListBox>(meta_models(v)) == opt_seq(v.grpl),
{
    lemma_meta_split::<GroupsListBox>(seq![nested_model::<HandlerBox>(v.hdlr)], nested_opt_models::<DataInformationBox>(v.dinf), nested_opt_models::<ItemLocationBox>(v.iloc), nested_opt_models::<ItemProtectionBox>(v.ipro), nested_opt_models::<ItemInfoBox>(v.iinf), nested_opt_models::<XmlBox>(v.xml), nested_opt_models::<BinaryXmlBox>(v.bxml), nested_opt_models::<PrimaryItemBox>(v.pitm), nested_opt_models::<FDItemInformationBox>(v.fiin), nested_opt_models::<ItemDataBox>(v.idat), nested_opt_models::<ItemReferenceBox>(v.iref), nested_opt_models::<ItemPropertiesBox>(v.iprp), nested_opt_models::<GroupsListBox>(v.grpl), v.unknown_boxes);
    lemma_nested_opt_other::<GroupsListBox, HandlerBox>(Some(v.hdlr));
    assert(nested_opt_models::<HandlerBox>(Some(v.hdlr)) == seq![nested_model::<HandlerBox>(v.hdlr)]);
    lemma_nested_opt_other::<GroupsListBox, DataInformationBox>(v.dinf);
    lemma_nested_opt_other::<GroupsListBox, ItemLocationBox>(v.iloc);
    lemma_nested_opt_other::<GroupsListBox, ItemProtectionBox>(v.ipro);
    lemma_nested_opt_other::<GroupsListBox, ItemInfoBox>(v.iinf);
    lemma_nested_opt_other::<GroupsListBox, XmlBox>(v.xml);
    lemma_nested_opt_other::<GroupsListBox, BinaryXmlBox>(v.bxml);
    lemma_nested_opt_other::<GroupsListBox, PrimaryItemBox>(v.pitm);
    lemma_nested_opt_other::<GroupsListBox, FDItemInformationBox>(v.fiin);
    lemma_nested_opt_other::<GroupsListBox, ItemDataBox>(v.idat);
    lemma_nested_opt_other::<GroupsListBox, ItemReferenceBox>(v.iref);
    lemma_nested_opt_other::<GroupsListBox, ItemPropertiesBox>(v.iprp);
    lemma_nested_opt_own::<GroupsListBox>(v.grpl);
    assert forall|i: int| 0 <= i < v.unknown_boxes.len() implies !#[trigger] is_child::<GroupsListBox>(v.unknown_boxes[i]) by {
        assert(!meta_known(v.unknown_boxes[i]));
    }
    lemma_collect_none::<GroupsListBox>(v.unknown_boxes);
    assert(collect_children::<GroupsListBox>(meta_models(v)) =~= opt_seq(v.grpl));
}

/// The boxes of other types that a meta writes are collected back as they are.
#[verifier::spinoff_prover]
#[verifier::rlimit(60)]
proof fn lemma_meta_unknown(v: MetaBoxModel)
    requires
        meta_canonical(v),
    ensures
        collect_unknown(meta_models(v), |c: UnknownBoxModel| meta_known(c)) == v.unknown_boxes,
{
    let known = |c: UnknownBoxModel| meta_known(c);
    let s0 = seq![nested_model::<HandlerBox>(v.hdlr)];
    assert forall|i: int| 0 <= i < s0.len() implies #[trigger] known(s0[i]) by {}
    lemma_unknown_all_known(s0, known);
    let s1 = nested_opt_models::<DataInformationBox>(v.dinf);
    assert forall|i: int| 0 <= i < s1.len() implies #[trigger] known(s1[i]) by {}
    lemma_unknown_all_known(s1, known);
    let s2 = nested_opt_models::<ItemLocationBox>(v.iloc);
    assert forall|i: int| 0 <= i < s2.len() implies #[trigger] known(s2[i]) by {}
    lemma_unknown_all_known(s2, known);
    let s3 = nested_opt_models::<ItemProtectionBox>(v.ipro);
    assert forall|i: int| 0 <= i < s3.len() implies #[trigger] known(s3[i]) by {}
    lemma_unknown_all_known(s3, known);
    let s4 = nested_opt_models::<ItemInfoBox>(v.iinf);
    assert forall|i: int| 0 <= i < s4.len() implies #[trigger] known(s4[i]) by {}
    lemma_unknown_all_known(s4, known);
    let s5 = nested_opt_models::<XmlBox>(v.xml);
    assert forall|i: int| 0 <= i < s5.len() implies #[trigger] known(s5[i]) by {}
    lemma_unknown_all_known(s5, known);
    let s6 = nested_opt_models::<BinaryXmlBox>(v.bxml);
    assert forall|i: int| 0 <= i < s6.len() implies #[trigger] known(s6[i]) by {}
    lemma_unknown_all_known(s6, known);
    let s7 = nested_opt_models::<PrimaryItemBox>(v.pitm);
    assert forall|i: int| 0 <= i < s7.len() implies #[trigger] known(s7[i]) by {}
    lemma_unknown_all_known(s7, known);
    let s8 = nested_opt_models::<FDItemInformationBox>(v.fiin);
    assert forall|i: int| 0 <= i < s8.len() implies #[trigger] known(s8[i]) by {}
    lemma_unknown_all_known(s8, known);
    let s9 = nested_opt_models::<ItemDataBox>(v.idat);
    assert forall|i: int| 0 <= i < s9.len() implies #[trigger] known(s9[i]) by {}
    lemma_unknown_all_known(s9, known);
    let s10 = nested_opt_models::<ItemReferenceBox>(v.iref);
    assert forall|i: int| 0 <= i < s10.len() implies #[trigger] known(s10[i]) by {}
    lemma_unknown_all_known(s10, known);
    let s11 = nested_opt_models::<ItemPropertiesBox>(v.iprp);
    assert forall|i: int| 0 <= i < s11.len() implies #[trigger] known(s11[i]) by {}
    lemma_unknown_all_known(s11, known);
    let s12 = nested_opt_models::<GroupsListBox>(v.grpl);
    assert forall|i: int| 0 <= i < s12.len() implies #[trigger] known(s12[i]) by {}
    lemma_unknown_all_known(s12, known);
    let s13 = v.unknown_boxes;
    assert forall|i: int| 0 <= i < s13.len() implies !#[trigger] known(s13[i]) by {}
    lemma_unknown_none_known(s13, known);
    lemma_unknown_add(s0 + s1 + s2 + s3 + s4 + s5 + s6 + s7 + s8 + s9 + s10 + s11 + s12, s13, known);
    lemma_unknown_add(s0 + s1 + s2 + s3 + s4 + s5 + s6 + s7 + s8 + s9 + s10 + s11, s12, known);
    lemma_unknown_add(s0 + s1 + s2 + s3 + s4 + s5 + s6 + s7 + s8 + s9 + s10, s11, known);
    lemma_unknown_add(s0 + s1 + s2 + s3 + s4 + s5 + s6 + s7 + s8 + s9, s10, known);
    lemma_unknown_add(s0 + s1 + s2 + s3 + s4 + s5 + s6 + s7 + s8, s9, known);
    lemma_unknown_add(s0 + s1 + s2 + s3 + s4 + s5 + s6 + s7, s8, known);
    lemma_unknown_add(s0 + s1 + s2 + s3 + s4 + s5 + s6, s7, known);
    lemma_unknown_add(s0 + s1 + s2 + s3 + s4 + s5, s6, known);
    lemma_unknown_add(s0 + s1 + s2 + s3 + s4, s5, known);
    lemma_unknown_add(s0 + s1 + s2 + s3, s4, known);
    lemma_unknown_add(s0 + s1 + s2, s3, known);
    lemma_unknown_add(s0 + s1, s2, known);
    lemma_unknown_add(s0, s1, known);
    assert(collect_unknown(meta_models(v), known) =~= v.unknown_boxes);
}

/// Writing a meta and reading its payload back gives it again.
#[verifier::spinoff_prover]
#[verifier::rlimit(100)]
proof fn lemma_meta_roundtrip(v: MetaBoxModel)
    requires
        meta_canonical(v),
    ensures
        meta_parse(meta_bytes(v)) == Ok::<MetaBoxModel, IsoError>(v),
{
    let s = meta_bytes(v);
    assert(s.skip(4) =~= meta_children_bytes(v));
    assert(s.subrange(1, 4) =~= u24_bytes(v.full_header.flags));
    lemma_u24_at(s, 1, v.full_header.flags);
    lemma_meta_children(v);
    lemma_meta_types();
    let cs = meta_models(v);
    let fault = |c: UnknownBoxModel| meta_fault(c);
    assert forall|j: int| 0 <= j < cs.len() implies (#[trigger] fault(cs[j])) is None by {
        lemma_meta_no_fault(v, j);
    }
    lemma_first_fault(cs, fault, cs.len() as int);
    assert(cs.take(cs.len() as int) =~= cs);
    lemma_meta_collect_hdlr(v);
    lemma_meta_collect_dinf(v);
    lemma_meta_collect_iloc(v);
    lemma_meta_collect_ipro(v);
    lemma_meta_collect_iinf(v);
    lemma_meta_collect_xml(v);
    lemma_meta_collect_bxml(v);
    lemma_meta_collect_pitm(v);
    lemma_meta_collect_fiin(v);
    lemma_meta_collect_idat(v);
    lemma_meta_collect_iref(v);
    lemma_meta_collect_iprp(v);
    lemma_meta_collect_grpl(v);
    lemma_meta_unknown(v);
    assert(spec_children(s.skip(4)) == cs);
    assert(last_child::<HandlerBox>(cs) == Some(v.hdlr));
    assert(last_child::<DataInformationBox>(cs) == v.dinf);
    assert(last_child::<ItemLocationBox>(cs) == v.iloc);
    assert(last_child::<ItemProtectionBox>(cs) == v.ipro);
    assert(last_child::<ItemInfoBox>(cs) == v.iinf);
    assert(last_child::<XmlBox>(cs) == v.xml);
    assert(last_child::<BinaryXmlBox>(cs) == v.bxml);
    assert(last_child::<PrimaryItemBox>(cs) == v.pitm);
    assert(last_child::<FDItemInformationBox>(cs) == v.fiin);
    assert(last_child::<ItemDataBox>(cs) == v.idat);
    assert(last_child::<ItemReferenceBox>(cs) == v.iref);
    assert(last_child::<ItemPropertiesBox>(cs) == v.iprp);
    assert(last_child::<GroupsListBox>(cs) == v.grpl);
}

/// For a value that reads back as itself, the size is that of its payload and header.
#[verifier::spinoff_prover]
#[verifier::rlimit(60)]
proof fn lemma_meta_size(x: MetaBox)
    requires
        meta_canonical(x@),
    ensures
        4 + x.hdlr.spec_size() + nested_opt_size::<DataInformationBox>(x.dinf) + nested_opt_size::<ItemLocationBox>(x.iloc) + nested_opt_size::<ItemProtectionBox>(x.ipro) + nested_opt_size::<ItemInfoBox>(x.iinf) + nested_opt_size::<XmlBox>(x.xml) + nested_opt_size::<BinaryXmlBox>(x.bxml) + nested_opt_size::<PrimaryItemBox>(x.pitm) + nested_opt_size::<FDItemInformationBox>(x.fiin) + nested_opt_size::<ItemDataBox>(x.idat) + nested_opt_size::<ItemReferenceBox>(x.iref) + nested_opt_size::<ItemPropertiesBox>(x.iprp) + nested_opt_size::<GroupsListBox>(x.grpl) + size_seq::<UnknownBox>(x.unknown_boxes@) == meta_bytes(x@).len(),
{
    let v = x@;
    lemma_nested_size::<HandlerBox>(x.hdlr);
    lemma_nested_opt_size::<DataInformationBox>(x.dinf);
    lemma_nested_opt_size::<ItemLocationBox>(x.iloc);
    lemma_nested_opt_size::<ItemProtectionBox>(x.ipro);
    lemma_nested_opt_size::<ItemInfoBox>(x.iinf);
    lemma_nested_opt_size::<XmlBox>(x.xml);
    lemma_nested_opt_size::<BinaryXmlBox>(x.bxml);
    lemma_nested_opt_size::<PrimaryItemBox>(x.pitm);
    lemma_nested_opt_size::<FDItemInformationBox>(x.fiin);
    lemma_nested_opt_size::<ItemDataBox>(x.idat);
    lemma_nested_opt_size::<ItemReferenceBox>(x.iref);
    lemma_nested_opt_size::<ItemPropertiesBox>(x.iprp);
    lemma_nested_opt_size::<GroupsListBox>(x.grpl);
    assert(writable_seq::<UnknownBox>(views(x.unknown_boxes@)));
    lemma_size_seq::<UnknownBox>(x.unknown_boxes@);
}

impl BoxBody for MetaBox {
    open spec fn spec_box_type() -> [u8; 4] {
        [0x6du8, 0x65u8, 0x74u8, 0x61u8]
    }

    fn box_type() -> (r: [u8; 4]) {
        [0x6du8, 0x65u8, 0x74u8, 0x61u8]
    }

    open spec fn spec_parse_body(s: Seq<u8>) -> Result<MetaBoxModel, IsoError> {
        meta_parse(s)
    }

    open spec fn spec_writable(v: MetaBoxModel) -> bool {
        meta_writable(v)
    }

    open spec fn spec_serialize_body(v: MetaBoxModel) -> Seq<u8> {
        meta_bytes(v)
    }

    open spec fn spec_canonical(v: MetaBoxModel) -> bool {
        meta_canonical(v)
    }

    proof fn lemma_box_type() {
        assert(Self::spec_box_type()[0] != spec_uuid_fourcc()[0]);
    }

    proof fn lemma_body_size(x: MetaBox) {
        lemma_meta_size(x);
    }

    proof fn lemma_body_roundtrip(v: MetaBoxModel) {
        lemma_meta_roundtrip(v);
    }

    fn parse_body(payload: &[u8]) -> (r: Result<MetaBox, IsoError>) {
        parse_meta(payload)
    }

    #[verifier::spinoff_prover]
    #[verifier::rlimit(60)]
    fn serialize_body(&self, out: &mut Vec<u8>) -> (r: Result<(), IsoError>) {
        let ghost before = out@;
        write_u8(out, self.full_header.version);
        write_u24(out, self.full_header.flags);
        let ghost mid = out@;
        proof {
            assert(mid =~= before + (seq![self@.full_header.version] + u24_bytes(self@.full_header.flags)));
            lemma_append_prefix(before, seq![self@.full_header.version] + u24_bytes(self@.full_header.flags));
        }
        let r = write_meta_children(self, out);
        proof {
            if r is Err {
                lemma_prefix_trans(before, mid, out@);
            } else {
                assert(out@ =~= before + meta_bytes(self@));
                lemma_append_prefix(before, meta_bytes(self@));
            }
        }
        r
    }
}

} // verus!
