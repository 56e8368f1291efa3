//! The FD item information box, which holds the partition entries of items sent
//! by file delivery.

use vstd::prelude::*;

use crate::children::{
    child_fault, child_value, collect_children, collect_into, collect_unknown, first_fault, is_child, is_child_exec,
    last_child, lemma_child_other, lemma_child_read, lemma_collect_add, lemma_collect_none, lemma_collect_step,
    lemma_first_fault, lemma_unknown_add, lemma_unknown_all_known, lemma_unknown_none_known, lemma_unknown_step,
    lemma_unknown_seq, read_children, replace_into, scan_result, spec_children,
};
use crate::codec::{
    be_u16_at, be_u24_at, be_u32_at, lemma_append_prefix, lemma_prefix_trans, lemma_u16_at, lemma_u24_at,
    lemma_u32_at, read_u16_at, read_u24_at, read_u32_at, u16_bytes, u24_bytes, u32_bytes, write_bytes, write_u16,
    write_u24, write_u32, write_u8, IsoError,
};
use crate::frame::{add_header_size, add_header_size_exec, BoxBody, UnknownBox, UnknownBoxModel};
use crate::header::{spec_uuid_fourcc, FullBoxHeader};
use crate::nested::{
    lemma_nested_collect_other, lemma_nested_collect_own, lemma_nested_cons, lemma_nested_opt_other,
    lemma_nested_opt_own, lemma_nested_opt_seq, lemma_nested_opt_size, lemma_nested_seq, lemma_nested_size,
    lemma_nested_sizes, lemma_unknown_seq_rest, nested_all_ok, nested_all_writable, nested_box_bytes, nested_bytes,
    nested_model,
    nested_models, nested_ok, nested_opt_bytes, nested_opt_models, nested_opt_ok, nested_opt_size,
    nested_opt_writable, nested_sizes, nested_writable, opt_seq, opt_view, size_nested_opt, size_nested_vec,
    write_nested, write_nested_opt, write_nested_vec,
};
use crate::wire::{
    lemma_size_seq, lemma_size_seq_mono, ser_seq, serialize_all, size_all, size_seq, views, writable_seq,
    write_matches, IsoSized, Wire,
};
use crate::boxes::file_delivery::{FDSessionGroupBox, FECReservoirBox, FilePartitionBox, FileReservoirBox, GroupIdToNameBox};
use crate::frame::{lemma_box_bytes_roundtrip, parse_box, spec_parse_box};
use crate::header::BoxHeader;
use crate::nested::{
    boxes_count, lemma_boxes_count, lemma_boxes_count_step, lemma_optional_box, lemma_optional_box_def,
    lemma_parse_box_len, optional_box,
};

verus! {

/// FD item information box
///
/// `fiin`
///
/// ISO/IEC 14496-12 - 8.13.2
#[derive(Debug)]
pub struct FDItemInformationBox {
    /// The full box header.
    pub header: FullBoxHeader,
    /// The number of partition entries.
    pub entry_count: u16,
    /// The partition entries.
    pub partition_entries: Vec<PartitionEntry>,
    /// The file delivery session group box, if there is one.
    pub session_info: Option<FDSessionGroupBox>,
    /// The group id to name box, if there is one.
    pub group_id_to_name: Option<GroupIdToNameBox>,
}

/// The model of an [`FDItemInformationBox`].
pub struct FDItemInformationBoxModel {
    pub header: FullBoxHeader,
    pub entry_count: u16,
    pub partition_entries: Seq<<PartitionEntry as View>::V>,
    pub session_info: Option<<FDSessionGroupBox as View>::V>,
    pub group_id_to_name: Option<<GroupIdToNameBox as View>::V>,
}

impl View for FDItemInformationBox {
    type V = FDItemInformationBoxModel;

    open spec fn view(&self) -> FDItemInformationBoxModel {
        FDItemInformationBoxModel {
            header: self.header,
            entry_count: self.entry_count,
            partition_entries: views(self.partition_entries@),
            session_info: opt_view(self.session_info),
            group_id_to_name: opt_view(self.group_id_to_name),
        }
    }
}

/// What an FD item information box reads: the full header and the count, that many
/// partition entries, then a session group box and a group name box where they are
/// there.
pub open spec fn fiin_parse(s: Seq<u8>) -> Result<FDItemInformationBoxModel, IsoError> {
    if s.len() < 6 {
        Err(IsoError::UnexpectedEof)
    } else {
        match boxes_count::<PartitionEntry>(s, be_u16_at(s, 4) as nat, Seq::empty(), 6) {
            Err(e) => Err(e),
            Ok((es, p)) => match optional_box::<FDSessionGroupBox>(s.skip(p)) {
                Err(e) => Err(e),
                Ok((si, q)) => match optional_box::<GroupIdToNameBox>(s.skip(p + q)) {
                    Err(e) => Err(e),
                    Ok((gi, _)) => Ok(
                        FDItemInformationBoxModel {
                            header: FullBoxHeader { version: s[0], flags: be_u24_at(s, 1) },
                            entry_count: be_u16_at(s, 4),
                            partition_entries: es,
                            session_info: si,
                            group_id_to_name: gi,
                        },
                    ),
                },
            },
        }
    }
}

pub open spec fn fiin_bytes(v: FDItemInformationBoxModel) -> Seq<u8> {
    seq![v.header.version] + u24_bytes(v.header.flags) + u16_bytes(v.entry_count) + nested_bytes::<PartitionEntry>(
        v.partition_entries,
    ) + nested_opt_bytes::<FDSessionGroupBox>(v.session_info) + nested_opt_bytes::<GroupIdToNameBox>(
        v.group_id_to_name,
    )
}

impl IsoSized for FDItemInformationBox {
    open spec fn spec_size(&self) -> nat {
        add_header_size(
            6 + nested_sizes::<PartitionEntry>(self.partition_entries@) + nested_opt_size::<FDSessionGroupBox>(
                self.session_info,
            ) + nested_opt_size::<GroupIdToNameBox>(self.group_id_to_name),
        )
    }

    fn size(&self) -> (n: usize) {
        let a = size_nested_vec(&self.partition_entries);
        let b = size_nested_opt(&self.session_info);
        let c = size_nested_opt(&self.group_id_to_name);
        add_header_size_exec(6 + a + b + c)
    }
}

/// Reads the payload of an FD item information box.
#[verifier::spinoff_prover]
#[verifier::rlimit(60)]
fn parse_fiin(d: &[u8]) -> (r: Result<FDItemInformationBox, IsoError>)
    ensures
        match (fiin_parse(d@), r) {
            (Ok(v), Ok(x)) => x@ == v,
            (Err(e), Err(f)) => e == f,
            _ => false,
        },
{
    if d.len() < 6 {
        return Err(IsoError::UnexpectedEof);
    }
    let header = FullBoxHeader { version: d[0], flags: read_u24_at(d, 1) };
    let entry_count = read_u16_at(d, 4);
    let mut partition_entries: Vec<PartitionEntry> = Vec::new();
    let mut p: usize = 6;
    let mut i: u16 = 0;
    proof {
        assert(views(partition_entries@) =~= Seq::<<PartitionEntry as View>::V>::empty());
    }
    while i < entry_count
        invariant
            d@.len() >= 6,
            6 <= p <= d@.len(),
            i <= entry_count,
            entry_count == be_u16_at(d@, 4),
            boxes_count::<PartitionEntry>(d@, entry_count as nat, Seq::empty(), 6) == boxes_count::<PartitionEntry>(
                d@,
                (entry_count - i) as nat,
                views(partition_entries@),
                p as int,
            ),
        decreases entry_count - i,
    {
        proof {
            lemma_boxes_count_step::<PartitionEntry>(d@, (entry_count - i) as nat, views(partition_entries@), p as int);
        }
        let (e, q) = parse_box::<PartitionEntry>(d, p)?;
        proof {
            lemma_parse_box_len::<PartitionEntry>(d@.skip(p as int));
            assert(views(partition_entries@.push(e)) =~= views(partition_entries@).push(e@));
        }
        partition_entries.push(e);
        p = q;
        i = i + 1;
    }
    proof {
        lemma_boxes_count_step::<PartitionEntry>(d@, 0, views(partition_entries@), p as int);
        lemma_optional_box_def::<FDSessionGroupBox>(d@.skip(p as int));
    }
    let (session_info, p2) = match parse_box::<FDSessionGroupBox>(d, p) {
        Ok((x, q)) => (Some(x), q),
        Err(IsoError::UnexpectedEof) => (None, p),
        Err(e) => {
            return Err(e);
        },
    };
    proof {
        lemma_parse_box_len::<FDSessionGroupBox>(d@.skip(p as int));
        lemma_optional_box_def::<GroupIdToNameBox>(d@.skip(p2 as int));
    }
    let group_id_to_name = match parse_box::<GroupIdToNameBox>(d, p2) {
        Ok((x, _q)) => Some(x),
        Err(IsoError::UnexpectedEof) => None,
        Err(e) => {
            return Err(e);
        },
    };
    Ok(FDItemInformationBox { header, entry_count, partition_entries, session_info, group_id_to_name })
}

impl BoxBody for FDItemInformationBox {
    open spec fn spec_box_type() -> [u8; 4] {
        [0x66u8, 0x69u8, 0x69u8, 0x6eu8]
    }

    fn box_type() -> (r: [u8; 4]) {
        [0x66u8, 0x69u8, 0x69u8, 0x6eu8]
    }

    open spec fn spec_parse_body(s: Seq<u8>) -> Result<FDItemInformationBoxModel, IsoError> {
        fiin_parse(s)
    }

    open spec fn spec_writable(v: FDItemInformationBoxModel) -> bool {
        &&& nested_all_writable::<PartitionEntry>(v.partition_entries)
        &&& nested_opt_writable::<FDSessionGroupBox>(v.session_info)
        &&& nested_opt_writable::<GroupIdToNameBox>(v.group_id_to_name)
    }

    open spec fn spec_serialize_body(v: FDItemInformationBoxModel) -> Seq<u8> {
        fiin_bytes(v)
    }

    /// The flags fit 24 bits, the count is that of the entries, every contained box
    /// reads back as itself, and a group name box follows a session group box.
    open spec fn spec_canonical(v: FDItemInformationBoxModel) -> bool {
        &&& v.header.flags < 0x100_0000
        &&& v.entry_count == v.partition_entries.len()
        &&& nested_all_ok::<PartitionEntry>(v.partition_entries)
        &&& nested_opt_ok::<FDSessionGroupBox>(v.session_info)
        &&& nested_opt_ok::<GroupIdToNameBox>(v.group_id_to_name)
        &&& (v.session_info is None ==> v.group_id_to_name is None)
    }

    proof fn lemma_box_type() {
        assert(Self::spec_box_type()[0] != spec_uuid_fourcc()[0]);
    }

    proof fn lemma_body_size(x: FDItemInformationBox) {
        lemma_nested_sizes::<PartitionEntry>(x.partition_entries@);
        lemma_nested_opt_size::<FDSessionGroupBox>(x.session_info);
        lemma_nested_opt_size::<GroupIdToNameBox>(x.group_id_to_name);
    }

    #[verifier::spinoff_prover]
    #[verifier::rlimit(100)]
    proof fn lemma_body_roundtrip(v: FDItemInformationBoxModel) {
        let s = fiin_bytes(v);
        let eb = nested_bytes::<PartitionEntry>(v.partition_entries);
        let sb = nested_opt_bytes::<FDSessionGroupBox>(v.session_info);
        let gb = nested_opt_bytes::<GroupIdToNameBox>(v.group_id_to_name);
        let p: int = 6 + eb.len() as int;
        assert(s.len() >= 6);
        assert(s[0] == v.header.version);
        assert(be_u24_at(s, 1) == v.header.flags) by {
            assert(s.subrange(1, 4) =~= u24_bytes(v.header.flags));
            lemma_u24_at(s, 1, v.header.flags);
        }
        assert(be_u16_at(s, 4) == v.entry_count) by {
            assert(s.subrange(4, 6) =~= u16_bytes(v.entry_count));
            lemma_u16_at(s, 4, v.entry_count);
        }
        assert(boxes_count::<PartitionEntry>(s, v.entry_count as nat, Seq::empty(), 6) == Ok::<
            (Seq<<PartitionEntry as View>::V>, int),
            IsoError,
        >((v.partition_entries, p))) by {
            assert(s.skip(6) =~= eb + (sb + gb));
            lemma_boxes_count::<PartitionEntry>(s, v.partition_entries, Seq::empty(), 6, sb + gb);
            assert(Seq::<<PartitionEntry as View>::V>::empty() + v.partition_entries =~= v.partition_entries);
        }
        assert(optional_box::<FDSessionGroupBox>(s.skip(p)) == Ok::<
            (Option<<FDSessionGroupBox as View>::V>, int),
            IsoError,
        >((v.session_info, sb.len() as int))) by {
            assert(s.skip(p) =~= sb + gb);
            lemma_optional_box::<FDSessionGroupBox>(v.session_info, gb);
        }
        assert(optional_box::<GroupIdToNameBox>(s.skip(p + sb.len() as int)) == Ok::<
            (Option<<GroupIdToNameBox as View>::V>, int),
            IsoError,
        >((v.group_id_to_name, gb.len() as int))) by {
            assert(s.skip(p + sb.len() as int) =~= gb + Seq::<u8>::empty());
            lemma_optional_box::<GroupIdToNameBox>(v.group_id_to_name, Seq::empty());
        }
    }

    fn parse_body(payload: &[u8]) -> (r: Result<FDItemInformationBox, IsoError>) {
        parse_fiin(payload)
    }

    fn serialize_body(&self, out: &mut Vec<u8>) -> (r: Result<(), IsoError>) {
        let ghost before = out@;
        let ghost v = self@;
        write_u8(out, self.header.version);
        write_u24(out, self.header.flags);
        write_u16(out, self.entry_count);
        let ghost m0 = out@;
        proof {
            lemma_append_prefix(before, seq![v.header.version] + u24_bytes(v.header.flags) + u16_bytes(v.entry_count));
            assert(m0 =~= before + (seq![v.header.version] + u24_bytes(v.header.flags) + u16_bytes(v.entry_count)));
        }
        if write_nested_vec(&self.partition_entries, out).is_err() {
            proof {
                lemma_prefix_trans(before, m0, out@);
            }
            return Err(IsoError::InvalidData);
        }
        let ghost m1 = out@;
        proof {
            lemma_append_prefix(m0, nested_bytes::<PartitionEntry>(v.partition_entries));
            lemma_prefix_trans(before, m0, m1);
        }
        if write_nested_opt(&self.session_info, out).is_err() {
            proof {
                lemma_prefix_trans(before, m1, out@);
            }
            return Err(IsoError::InvalidData);
        }
        let ghost m2 = out@;
        proof {
            lemma_append_prefix(m1, nested_opt_bytes::<FDSessionGroupBox>(v.session_info));
            lemma_prefix_trans(before, m1, m2);
        }
        if write_nested_opt(&self.group_id_to_name, out).is_err() {
            proof {
                lemma_prefix_trans(before, m2, out@);
            }
            return Err(IsoError::InvalidData);
        }
        proof {
            assert(out@ =~= before + fiin_bytes(v));
            lemma_append_prefix(before, fiin_bytes(v));
        }
        Ok(())
    }
}

/// Partition entry
///
/// `paen`
///
/// ISO/IEC 14496-12 - 8.13.2
#[derive(Debug)]
pub struct PartitionEntry {
    /// The contained [`FileReservoirBox`]. (optional)
    pub file_symbol_locations: Option<FileReservoirBox>,
    /// The contained [`FilePartitionBox`]. (mandatory)
    pub blocks_and_symbols: FilePartitionBox,
    /// The contained [`FECReservoirBox`]. (optional)
    pub fec_symbol_locations: Option<FECReservoirBox>,
}

/// The model of a [`PartitionEntry`].
pub struct PartitionEntryModel {
    pub file_symbol_locations: Option<<FileReservoirBox as View>::V>,
    pub blocks_and_symbols: <FilePartitionBox as View>::V,
    pub fec_symbol_locations: Option<<FECReservoirBox as View>::V>,
}

impl View for PartitionEntry {
    type V = PartitionEntryModel;

    open spec fn view(&self) -> PartitionEntryModel {
        PartitionEntryModel {
            file_symbol_locations: opt_view(self.file_symbol_locations),
            blocks_and_symbols: self.blocks_and_symbols@,
            fec_symbol_locations: opt_view(self.fec_symbol_locations),
        }
    }
}

/// Whether a box found in a paen has one of the types that it reads.
pub open spec fn paen_known(c: UnknownBoxModel) -> bool {
    is_child::<FileReservoirBox>(c) || is_child::<FilePartitionBox>(c) || is_child::<FECReservoirBox>(c)
}

/// The failure of reading a box of a known type found in a paen.
pub open spec fn paen_fault(c: UnknownBoxModel) -> Option<IsoError> {
    if is_child::<FileReservoirBox>(c) {
        child_fault::<FileReservoirBox>(c)
    }     else if is_child::<FilePartitionBox>(c) {
        child_fault::<FilePartitionBox>(c)
    }     else if is_child::<FECReservoirBox>(c) {
        child_fault::<FECReservoirBox>(c)
    } else {
        None
    }
}

/// What a paen reads from its payload: the boxes before the first that fails, each box of a known type in its field (the
/// last one for a single field, which must be there where it is required) and every
/// other box kept as it is.
pub open spec fn paen_parse(s: Seq<u8>) -> Result<PartitionEntryModel, IsoError> {
    let cs = spec_children(s);
    match scan_result(cs, |c: UnknownBoxModel| paen_fault(c)) {
        Err(e) => Err(e),
        Ok(k) => {
            let p = cs.take(k as int);
            match last_child::<FilePartitionBox>(p) {
                None => Err(IsoError::InvalidData),
                Some(blocks_and_symbols) => Ok(
                    PartitionEntryModel {
                        file_symbol_locations: last_child::<FileReservoirBox>(p),
                        blocks_and_symbols: blocks_and_symbols,
                        fec_symbol_locations: last_child::<FECReservoirBox>(p),
                    },
                ),
            }
        },
    }
}

/// The bytes of the boxes that a paen holds, in the order of its fields.
pub open spec fn paen_children_bytes(v: PartitionEntryModel) -> Seq<u8> {
    nested_opt_bytes::<FileReservoirBox>(v.file_symbol_locations)
        + nested_box_bytes::<FilePartitionBox>(v.blocks_and_symbols)
        + nested_opt_bytes::<FECReservoirBox>(v.fec_symbol_locations)
}

/// The boxes, as found in a container, that a paen writes.
pub open spec fn paen_models(v: PartitionEntryModel) -> Seq<UnknownBoxModel> {
    nested_opt_models::<FileReservoirBox>(v.file_symbol_locations)
        + seq![nested_model::<FilePartitionBox>(v.blocks_and_symbols)]
        + nested_opt_models::<FECReservoirBox>(v.fec_symbol_locations)
}

/// The payload that a paen writes.
pub open spec fn paen_bytes(v: PartitionEntryModel) -> Seq<u8> {
    paen_children_bytes(v)
}

/// Every box of a known type can be written.
pub open spec fn paen_writable(v: PartitionEntryModel) -> bool {
    &&& nested_opt_writable::<FileReservoirBox>(v.file_symbol_locations)
    &&& nested_writable::<FilePartitionBox>(v.blocks_and_symbols)
    &&& nested_opt_writable::<FECReservoirBox>(v.fec_symbol_locations)
}

/// Every box of a known type reads back as itself, and every other box is of
/// another type and announces exactly its payload.
pub open spec fn paen_canonical(v: PartitionEntryModel) -> bool {
    &&& nested_opt_ok::<FileReservoirBox>(v.file_symbol_locations)
    &&& nested_ok::<FilePartitionBox>(v.blocks_and_symbols)
    &&& nested_opt_ok::<FECReservoirBox>(v.fec_symbol_locations)
}

impl IsoSized for PartitionEntry {
    open spec fn spec_size(&self) -> nat {
        add_header_size(nested_opt_size::<FileReservoirBox>(self.file_symbol_locations) + self.blocks_and_symbols.spec_size() + nested_opt_size::<FECReservoirBox>(self.fec_symbol_locations))
    }

    fn size(&self) -> (n: usize) {
        let mut n: usize = 0;
        n = n + size_nested_opt(&self.file_symbol_locations);
        n = n + self.blocks_and_symbols.size();
        n = n + size_nested_opt(&self.fec_symbol_locations);
        add_header_size_exec(n)
    }
}

/// The fields of a paen read so far.
pub struct PartitionEntryScan {
    pub file_symbol_locations: Option<FileReservoirBox>,
    pub blocks_and_symbols: Option<FilePartitionBox>,
    pub fec_symbol_locations: Option<FECReservoirBox>,
}

/// The model of a [`PartitionEntryScan`].
pub struct PartitionEntryScanModel {
    pub file_symbol_locations: Option<<FileReservoirBox as View>::V>,
    pub blocks_and_symbols: Option<<FilePartitionBox as View>::V>,
    pub fec_symbol_locations: Option<<FECReservoirBox as View>::V>,
}

impl View for PartitionEntryScan {
    type V = PartitionEntryScanModel;

    open spec fn view(&self) -> PartitionEntryScanModel {
        PartitionEntryScanModel {
            file_symbol_locations: opt_view(self.file_symbol_locations),
            blocks_and_symbols: opt_view(self.blocks_and_symbols),
            fec_symbol_locations: opt_view(self.fec_symbol_locations),
        }
    }
}

/// What a paen holds after reading the boxes of `p`.
pub open spec fn paen_prefix(p: Seq<UnknownBoxModel>) -> PartitionEntryScanModel {
    PartitionEntryScanModel {
        file_symbol_locations: last_child::<FileReservoirBox>(p),
        blocks_and_symbols: last_child::<FilePartitionBox>(p),
        fec_symbol_locations: last_child::<FECReservoirBox>(p),
    }
}

/// What a paen holds after reading one more box that does not fail.
pub open spec fn paen_extend(m: PartitionEntryScanModel, c: UnknownBoxModel) -> PartitionEntryScanModel {
    PartitionEntryScanModel {
        file_symbol_locations: match child_value::<FileReservoirBox>(c) {
            Some(v) => Some(v),
            None => m.file_symbol_locations,
        },
        blocks_and_symbols: match child_value::<FilePartitionBox>(c) {
            Some(v) => Some(v),
            None => m.blocks_and_symbols,
        },
        fec_symbol_locations: match child_value::<FECReservoirBox>(c) {
            Some(v) => Some(v),
            None => m.fec_symbol_locations,
        },
    }
}

/// The types that a paen reads differ from one another.
pub open spec fn paen_types_differ() -> bool {
    &&& FileReservoirBox::spec_box_type() != FilePartitionBox::spec_box_type()
    &&& FileReservoirBox::spec_box_type() != FECReservoirBox::spec_box_type()
    &&& FilePartitionBox::spec_box_type() != FECReservoirBox::spec_box_type()
}

proof fn lemma_paen_types()
    ensures
        paen_types_differ(),
{
    assert(FileReservoirBox::spec_box_type()[1] != FilePartitionBox::spec_box_type()[1]);
    assert(FileReservoirBox::spec_box_type()[1] != FECReservoirBox::spec_box_type()[1]);
    assert(FilePartitionBox::spec_box_type()[1] != FECReservoirBox::spec_box_type()[1]);
}

/// Reads one box found in a paen into its field.
#[verifier::spinoff_prover]
#[verifier::rlimit(60)]
fn paen_step(c: &UnknownBox, acc: &mut PartitionEntryScan) -> (r: Result<(), IsoError>)
    requires
        paen_types_differ(),
    ensures
        match r {
            Ok(()) => paen_fault(c@) is None && final(acc)@ == paen_extend(old(acc)@, c@),
            Err(e) => paen_fault(c@) == Some(e) && final(acc)@ == old(acc)@,
        },
{
    if is_child_exec::<FileReservoirBox>(c) {
        proof {
            lemma_child_other::<FilePartitionBox>(c@);
            lemma_child_other::<FECReservoirBox>(c@);
            lemma_child_read::<FileReservoirBox>(c@);
        }
        let r = replace_into(c, &mut acc.file_symbol_locations);
        proof {
            if r is Err {
                assert(acc@ =~= old(acc)@);
            }
            if r is Ok {
                assert(acc@ =~= paen_extend(old(acc)@, c@));
            }
        }
        r
    } else if is_child_exec::<FilePartitionBox>(c) {
        proof {
            lemma_child_other::<FileReservoirBox>(c@);
            lemma_child_other::<FECReservoirBox>(c@);
            lemma_child_read::<FilePartitionBox>(c@);
        }
        let r = replace_into(c, &mut acc.blocks_and_symbols);
        proof {
            if r is Err {
                assert(acc@ =~= old(acc)@);
            }
            if r is Ok {
                assert(acc@ =~= paen_extend(old(acc)@, c@));
            }
        }
        r
    } else if is_child_exec::<FECReservoirBox>(c) {
        proof {
            lemma_child_other::<FileReservoirBox>(c@);
            lemma_child_other::<FilePartitionBox>(c@);
            lemma_child_read::<FECReservoirBox>(c@);
        }
        let r = replace_into(c, &mut acc.fec_symbol_locations);
        proof {
            if r is Err {
                assert(acc@ =~= old(acc)@);
            }
            if r is Ok {
                assert(acc@ =~= paen_extend(old(acc)@, c@));
            }
        }
        r
    } else {
        proof {
            lemma_child_other::<FileReservoirBox>(c@);
            lemma_child_other::<FilePartitionBox>(c@);
            lemma_child_other::<FECReservoirBox>(c@);
        }
        proof {
            assert(acc@ =~= paen_extend(old(acc)@, c@));
        }
        Ok(())
    }
}

/// Reading one more box extends what was read by it.
proof fn lemma_paen_prefix_step(css: Seq<UnknownBoxModel>, i: int)
    requires
        0 <= i < css.len(),
    ensures
        paen_prefix(css.take(i + 1)) == paen_extend(paen_prefix(css.take(i)), css[i]),
{
    lemma_collect_step::<FileReservoirBox>(css, i);
    lemma_collect_step::<FilePartitionBox>(css, i);
    lemma_collect_step::<FECReservoirBox>(css, i);
    lemma_unknown_step(css, |c: UnknownBoxModel| paen_known(c), i);
    let a = paen_prefix(css.take(i + 1));
    let b = paen_extend(paen_prefix(css.take(i)), css[i]);
}

/// Reads the payload of a paen.
#[verifier::spinoff_prover]
#[verifier::rlimit(60)]
fn parse_paen(payload: &[u8]) -> (r: Result<PartitionEntry, IsoError>)
    ensures
        match (paen_parse(payload@), r) {
            (Ok(v), Ok(x)) => x@ == v,
            (Err(e), Err(f)) => e == f,
            _ => false,
        },
{
    let cs = read_children(payload);
    let ghost css = spec_children(payload@);
    let ghost fault = |c: UnknownBoxModel| paen_fault(c);
    let mut acc = PartitionEntryScan {
        file_symbol_locations: None,
        blocks_and_symbols: None,
        fec_symbol_locations: None,
    };
    let mut i: usize = 0;
    let mut stop = false;
    proof {
        lemma_paen_types();
        let e = css.take(0);
        assert(e =~= Seq::<UnknownBoxModel>::empty());
        assert(collect_children::<FileReservoirBox>(e) =~= Seq::<<FileReservoirBox as View>::V>::empty());
        assert(collect_children::<FilePartitionBox>(e) =~= Seq::<<FilePartitionBox as View>::V>::empty());
        assert(collect_children::<FECReservoirBox>(e) =~= Seq::<<FECReservoirBox as View>::V>::empty());
        assert(acc@ =~= paen_prefix(e));
    }
    while i < cs.len() && !stop
        invariant
            views(cs@) == css,
            css == spec_children(payload@),
            fault == (|c: UnknownBoxModel| paen_fault(c)),
            paen_types_differ(),
            i <= cs@.len(),
            forall|j: int| 0 <= j < i ==> (#[trigger] fault(css[j])) is None,
            stop ==> i < css.len() && fault(css[i as int]) == Some(IsoError::UnexpectedEof),
            acc@ == paen_prefix(css.take(i as int)),
        decreases cs@.len() - i + (if stop { 0int } else { 1int }),
    {
        let c = &cs[i];
        proof {
            assert(c@ == css[i as int]);
            lemma_paen_prefix_step(css, i as int);
        }
        match paen_step(c, &mut acc) {
            Ok(()) => {
                i = i + 1;
            },
            Err(IsoError::UnexpectedEof) => {
                stop = true;
            },
            Err(e) => {
                proof {
                    lemma_first_fault(css, fault, i as int);
                }
                return Err(e);
            },
        }
    }
    proof {
        lemma_first_fault(css, fault, i as int);
        assert(first_fault(css, fault) == i);
    }
    let PartitionEntryScan { file_symbol_locations, blocks_and_symbols, fec_symbol_locations } = acc;
    let blocks_and_symbols = match blocks_and_symbols {
        Some(x) => x,
        None => {
            return Err(IsoError::InvalidData);
        },
    };
    Ok(PartitionEntry { file_symbol_locations, blocks_and_symbols, fec_symbol_locations })
}

/// Writes the boxes of a paen in the order of its fields.
#[verifier::spinoff_prover]
#[verifier::rlimit(60)]
fn write_paen_children(x: &PartitionEntry, out: &mut Vec<u8>) -> (r: Result<(), IsoError>)
    requires
        x.spec_size() <= usize::MAX,
    ensures
        write_matches(r, paen_writable(x@), paen_children_bytes(x@), old(out)@, final(out)@),
{
    let ghost before = out@;
    let ghost v = x@;
    if write_nested_opt(&x.file_symbol_locations, out).is_err() {
        return Err(IsoError::InvalidData);
    }
    let ghost m1 = out@;
    proof {
        lemma_append_prefix(before, nested_opt_bytes::<FileReservoirBox>(v.file_symbol_locations));
    }
    if write_nested(&x.blocks_and_symbols, out).is_err() {
        proof {
            lemma_prefix_trans(before, m1, out@);
        }
        return Err(IsoError::InvalidData);
    }
    let ghost m2 = out@;
    proof {
        lemma_append_prefix(m1, nested_box_bytes::<FilePartitionBox>(v.blocks_and_symbols));
        lemma_prefix_trans(before, m1, m2);
    }
    if write_nested_opt(&x.fec_symbol_locations, out).is_err() {
        proof {
            lemma_prefix_trans(before, m2, out@);
        }
        return Err(IsoError::InvalidData);
    }
    let ghost m3 = out@;
    proof {
        lemma_append_prefix(m2, nested_opt_bytes::<FECReservoirBox>(v.fec_symbol_locations));
        lemma_prefix_trans(before, m2, m3);
    }
    proof {
        let l1 = nested_opt_bytes::<FileReservoirBox>(v.file_symbol_locations);
        assert(m1 == before + l1);
        let l2 = l1 + nested_box_bytes::<FilePartitionBox>(v.blocks_and_symbols);
        vstd::seq_lib::lemma_concat_associative(before, l1, nested_box_bytes::<FilePartitionBox>(v.blocks_and_symbols));
        assert(m2 == before + l2);
        let l3 = l2 + nested_opt_bytes::<FECReservoirBox>(v.fec_symbol_locations);
        vstd::seq_lib::lemma_concat_associative(before, l2, nested_opt_bytes::<FECReservoirBox>(v.fec_symbol_locations));
        assert(m3 == before + l3);
        assert(paen_children_bytes(v) == l3);
        lemma_append_prefix(before, paen_children_bytes(v));
    }
    Ok(())
}

/// The boxes that a paen writes, read from their bytes one list after the other.
#[verifier::spinoff_prover]
#[verifier::rlimit(100)]
proof fn lemma_paen_children_chain(v: PartitionEntryModel)
    requires
        paen_canonical(v),
    ensures
        spec_children(nested_opt_bytes::<FileReservoirBox>(v.file_symbol_locations) + (nested_box_bytes::<FilePartitionBox>(v.blocks_and_symbols) + (nested_opt_bytes::<FECReservoirBox>(v.fec_symbol_locations)))) == nested_opt_models::<FileReservoirBox>(v.file_symbol_locations) + (seq![nested_model::<FilePartitionBox>(v.blocks_and_symbols)] + (nested_opt_models::<FECReservoirBox>(v.fec_symbol_locations))),
{
    let b0 = nested_opt_bytes::<FileReservoirBox>(v.file_symbol_locations);
    let s0 = nested_opt_models::<FileReservoirBox>(v.file_symbol_locations);
    let b1 = nested_box_bytes::<FilePartitionBox>(v.blocks_and_symbols);
    let s1 = seq![nested_model::<FilePartitionBox>(v.blocks_and_symbols)];
    let b2 = nested_opt_bytes::<FECReservoirBox>(v.fec_symbol_locations);
    let s2 = nested_opt_models::<FECReservoirBox>(v.fec_symbol_locations);
    crate::children::lemma_children_empty();
    let t2 = b2;
    let u2 = s2;
    assert(b2 + Seq::<u8>::empty() =~= b2);
    assert(s2 + Seq::<UnknownBoxModel>::empty() =~= s2);
    lemma_nested_opt_seq::<FECReservoirBox>(v.fec_symbol_locations, Seq::<u8>::empty());
    assert(spec_children(t2) == u2);
    let t1 = b1 + t2;
    let u1 = s1 + u2;
    lemma_nested_cons::<FilePartitionBox>(v.blocks_and_symbols, t2);
    assert(spec_children(t1) == u1);
    let t0 = b0 + t1;
    let u0 = s0 + u1;
    lemma_nested_opt_seq::<FileReservoirBox>(v.file_symbol_locations, t1);
    assert(spec_children(t0) == u0);
}

/// The boxes that a paen writes read back as their models.
#[verifier::spinoff_prover]
#[verifier::rlimit(100)]
proof fn lemma_paen_children(v: PartitionEntryModel)
    requires
        paen_canonical(v),
    ensures
        spec_children(paen_children_bytes(v)) == paen_models(v),
{
    lemma_paen_children_chain(v);
    let b0 = nested_opt_bytes::<FileReservoirBox>(v.file_symbol_locations);
    let s0 = nested_opt_models::<FileReservoirBox>(v.file_symbol_locations);
    let b1 = nested_box_bytes::<FilePartitionBox>(v.blocks_and_symbols);
    let s1 = seq![nested_model::<FilePartitionBox>(v.blocks_and_symbols)];
    let b2 = nested_opt_bytes::<FECReservoirBox>(v.fec_symbol_locations);
    let s2 = nested_opt_models::<FECReservoirBox>(v.fec_symbol_locations);
    let t2 = b2;
    let u2 = s2;
    let t1 = b1 + t2;
    let u1 = s1 + u2;
    let t0 = b0 + t1;
    let u0 = s0 + u1;
    let t3 = Seq::<u8>::empty();
    let u3 = Seq::<UnknownBoxModel>::empty();
    assert(b2 + t3 =~= t2);
    assert(s2 + u3 =~= u2);
    let l0 = Seq::<u8>::empty();
    let k0 = Seq::<UnknownBoxModel>::empty();
    assert(l0 + t0 =~= t0);
    assert(k0 + u0 =~= u0);
    let l1 = b0;
    let k1 = s0;
    assert(l1 + t1 == l0 + t0);
    assert(k1 + u1 == k0 + u0);
    let l2 = l1 + b1;
    let k2 = k1 + s1;
    vstd::seq_lib::lemma_concat_associative(l1, b1, t2);
    vstd::seq_lib::lemma_concat_associative(k1, s1, u2);
    assert(l2 + t2 == l1 + t1);
    assert(k2 + u2 == k1 + u1);
    let l3 = l2 + b2;
    let k3 = k2 + s2;
    vstd::seq_lib::lemma_concat_associative(l2, b2, t3);
    vstd::seq_lib::lemma_concat_associative(k2, s2, u3);
    assert(l3 + t3 == l2 + t2);
    assert(k3 + u3 == k2 + u2);
    assert(l3 + t3 =~= l3);
    assert(k3 + u3 =~= k3);
    assert(paen_children_bytes(v) == l3);
    assert(paen_models(v) == k3);
}

/// No box that a paen writes fails to read.
#[verifier::spinoff_prover]
#[verifier::rlimit(60)]
proof fn lemma_paen_no_fault(v: PartitionEntryModel, j: int)
    requires
        paen_canonical(v),
        paen_types_differ(),
        0 <= j < paen_models(v).len(),
    ensures
        paen_fault(paen_models(v)[j]) is None,
{
    let cs = paen_models(v);
    let s0 = nested_opt_models::<FileReservoirBox>(v.file_symbol_locations);
    let s1 = seq![nested_model::<FilePartitionBox>(v.blocks_and_symbols)];
    let s2 = nested_opt_models::<FECReservoirBox>(v.fec_symbol_locations);
    let n0: int = 0;
    let n1: int = n0 + s0.len();
    let n2: int = n1 + s1.len();
    let n3: int = n2 + s2.len();
    if j < n1 {
        assert(cs[j] == s0[j - n0]);
        lemma_nested_cons::<FileReservoirBox>(v.file_symbol_locations.unwrap(), Seq::empty());
    } else if j < n2 {
        assert(cs[j] == s1[j - n1]);
        lemma_nested_cons::<FilePartitionBox>(v.blocks_and_symbols, Seq::empty());
    } else if j < n3 {
        assert(cs[j] == s2[j - n2]);
        lemma_nested_cons::<FECReservoirBox>(v.fec_symbol_locations.unwrap(), Seq::empty());
    }
}

/// Collecting over the lists of a paen one after the other collects over each in
/// turn.
proof fn lemma_paen_split<T: BoxBody>(m0: Seq<UnknownBoxModel>, m1: Seq<UnknownBoxModel>, m2: Seq<UnknownBoxModel>)
    ensures
        collect_children::<T>(m0 + m1 + m2) == collect_children::<T>(m0) + collect_children::<T>(m1) + collect_children::<T>(m2),
{
    lemma_collect_add::<T>(m0 + m1, m2);
    lemma_collect_add::<T>(m0, m1);
}

/// The boxes that a paen writes collect back into its field `file_symbol_locations`.
#[verifier::spinoff_prover]
#[verifier::rlimit(60)]
proof fn lemma_paen_collect_file_symbol_locations(v: PartitionEntryModel)
    requires
        paen_canonical(v),
        paen_types_differ(),
    ensures
        collect_children::<FileReservoirBox>(paen_models(v)) == opt_seq(v.file_symbol_locations),
{
    lemma_paen_split::<FileReservoirBox>(nested_opt_models::<FileReservoirBox>(v.file_symbol_locations), seq![nested_model::<FilePartitionBox>(v.blocks_and_symbols)], nested_opt_models::<FECReservoirBox>(v.fec_symbol_locations));
    lemma_nested_opt_own::<FileReservoirBox>(v.file_symbol_locations);
    lemma_nested_opt_other::<FileReservoirBox, FilePartitionBox>(Some(v.blocks_and_symbols));
    assert(nested_opt_models::<FilePartitionBox>(Some(v.blocks_and_symbols)) == seq![nested_model::<FilePartitionBox>(v.blocks_and_symbols)]);
    lemma_nested_opt_other::<FileReservoirBox, FECReservoirBox>(v.fec_symbol_locations);
    assert(collect_children::<FileReservoirBox>(paen_models(v)) =~= opt_seq(v.file_symbol_locations));
}

/// The boxes that a paen writes collect back into its field `blocks_and_symbols`.
#[verifier::spinoff_prover]
#[verifier::rlimit(60)]
proof fn lemma_paen_collect_blocks_and_symbols(v: PartitionEntryModel)
    requires
        paen_canonical(v),
        paen_types_differ(),
    ensures
        collect_children::<FilePartitionBox>(paen_models(v)) == seq![v.blocks_and_symbols],
{
    lemma_paen_split::<FilePartitionBox>(nested_opt_models::<FileReservoirBox>(v.file_symbol_locations), seq![nested_model::<FilePartitionBox>(v.blocks_and_symbols)], nested_opt_models::<FECReservoirBox>(v.fec_symbol_locations));
    lemma_nested_opt_other::<FilePartitionBox, FileReservoirBox>(v.file_symbol_locations);
    lemma_nested_opt_own::<FilePartitionBox>(Some(v.blocks_and_symbols));
    assert(nested_opt_models::<FilePartitionBox>(Some(v.blocks_and_symbols)) == seq![nested_model::<FilePartitionBox>(v.blocks_and_symbols)]);
    lemma_nested_opt_other::<FilePartitionBox, FECReservoirBox>(v.fec_symbol_locations);
    assert(collect_children::<FilePartitionBox>(paen_models(v)) =~= seq![v.blocks_and_symbols]);
}

/// The boxes that a paen writes collect back into its field `fec_symbol_locations`.
#[verifier::spinoff_prover]
#[verifier::rlimit(60)]
proof fn lemma_paen_collect_fec_symbol_locations(v: PartitionEntryModel)
    requires
        paen_canonical(v),
        paen_types_differ(),
    ensures
        collect_children::<FECReservoirBox>(paen_models(v)) == opt_seq(v.fec_symbol_locations),
{
    lemma_paen_split::<FECReservoirBox>(nested_opt_models::<FileReservoirBox>(v.file_symbol_locations), seq![nested_model::<FilePartitionBox>(v.blocks_and_symbols)], nested_opt_models::<FECReservoirBox>(v.fec_symbol_locations));
    lemma_nested_opt_other::<FECReservoirBox, FileReservoirBox>(v.file_symbol_locations);
    lemma_nested_opt_other::<FECReservoirBox, FilePartitionBox>(Some(v.blocks_and_symbols));
    assert(nested_opt_models::<FilePartitionBox>(Some(v.blocks_and_symbols)) == seq![nested_model::<FilePartitionBox>(v.blocks_and_symbols)]);
    lemma_nested_opt_own::<FECReservoirBox>(v.fec_symbol_locations);
    assert(collect_children::<FECReservoirBox>(paen_models(v)) =~= opt_seq(v.fec_symbol_locations));
}

/// Writing a paen and reading its payload back gives it again.
#[verifier::spinoff_prover]
#[verifier::rlimit(100)]
proof fn lemma_paen_roundtrip(v: PartitionEntryModel)
    requires
        paen_canonical(v),
    ensures
        paen_parse(paen_bytes(v)) == Ok::<PartitionEntryModel, IsoError>(v),
{
    let s = paen_bytes(v);
    lemma_paen_children(v);
    lemma_paen_types();
    let cs = paen_models(v);
    let fault = |c: UnknownBoxModel| paen_fault(c);
    assert forall|j: int| 0 <= j < cs.len() implies (#[trigger] fault(cs[j])) is None by {
        lemma_paen_no_fault(v, j);
    }
    lemma_first_fault(cs, fault, cs.len() as int);
    assert(cs.take(cs.len() as int) =~= cs);
    lemma_paen_collect_file_symbol_locations(v);
    lemma_paen_collect_blocks_and_symbols(v);
    lemma_paen_collect_fec_symbol_locations(v);
    assert(spec_children(s) == cs);
    assert(last_child::<FileReservoirBox>(cs) == v.file_symbol_locations);
    assert(last_child::<FilePartitionBox>(cs) == Some(v.blocks_and_symbols));
    assert(last_child::<FECReservoirBox>(cs) == v.fec_symbol_locations);
}

/// For a value that reads back as itself, the size is that of its payload and header.
#[verifier::spinoff_prover]
#[verifier::rlimit(60)]
proof fn lemma_paen_size(x: PartitionEntry)
    requires
        paen_canonical(x@),
    ensures
        nested_opt_size::<FileReservoirBox>(x.file_symbol_locations) + x.blocks_and_symbols.spec_size() + nested_opt_size::<FECReservoirBox>(x.fec_symbol_locations) == paen_bytes(x@).len(),
{
    let v = x@;
    lemma_nested_opt_size::<FileReservoirBox>(x.file_symbol_locations);
    lemma_nested_size::<FilePartitionBox>(x.blocks_and_symbols);
    lemma_nested_opt_size::<FECReservoirBox>(x.fec_symbol_locations);
}

impl BoxBody for PartitionEntry {
    open spec fn spec_box_type() -> [u8; 4] {
        [0x70u8, 0x61u8, 0x65u8, 0x6eu8]
    }

    fn box_type() -> (r: [u8; 4]) {
        [0x70u8, 0x61u8, 0x65u8, 0x6eu8]
    }

    open spec fn spec_parse_body(s: Seq<u8>) -> Result<PartitionEntryModel, IsoError> {
        paen_parse(s)
    }

    open spec fn spec_writable(v: PartitionEntryModel) -> bool {
        paen_writable(v)
    }

    open spec fn spec_serialize_body(v: PartitionEntryModel) -> Seq<u8> {
        paen_bytes(v)
    }

    open spec fn spec_canonical(v: PartitionEntryModel) -> bool {
        paen_canonical(v)
    }

    proof fn lemma_box_type() {
        assert(Self::spec_box_type()[0] != spec_uuid_fourcc()[0]);
    }

    proof fn lemma_body_size(x: PartitionEntry) {
        lemma_paen_size(x);
    }

    proof fn lemma_body_roundtrip(v: PartitionEntryModel) {
        lemma_paen_roundtrip(v);
    }

    fn parse_body(payload: &[u8]) -> (r: Result<PartitionEntry, IsoError>) {
        parse_paen(payload)
    }

    #[verifier::spinoff_prover]
    #[verifier::rlimit(60)]
    fn serialize_body(&self, out: &mut Vec<u8>) -> (r: Result<(), IsoError>) {
        write_paen_children(self, out)
    }
}

} // verus!
