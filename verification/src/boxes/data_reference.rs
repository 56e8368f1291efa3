//! The data reference box and the data entry boxes that it holds.

use vstd::prelude::*;

use crate::boxes::track_data_layout::{
    lemma_opt_string_size, opt_string_bytes, DataEntryImdaBox, DataEntrySeqNumImdaBox, DataEntryUrlBox,
    DataEntryUrlBoxModel, DataEntryUrnBox, DataEntryUrnBoxModel,
};
use crate::children::{
    child_bytes, children_size, last_child, lemma_children_empty, lemma_option_own, opt_model, option_models,
    replace_into, write_child, boxes_size, child_fault, child_model, child_ok, child_value, children_bytes, children_models,
    children_ok, collect_children, collect_into, collect_unknown, first_fault, is_child, is_child_exec,
    lemma_boxes_size, lemma_child_cons, lemma_child_other, lemma_child_read, lemma_children_seq,
    lemma_collect_add, lemma_collect_none, lemma_collect_other, lemma_collect_own, lemma_collect_step,
    lemma_first_fault, lemma_unknown_add, lemma_unknown_all_known, lemma_unknown_none_known,
    lemma_unknown_seq, lemma_unknown_step, read_children, scan_result, size_children, spec_children,
    write_children, ChildBox,
};
use crate::codec::{
    be_u24_at, be_u32_at, lemma_append_prefix, lemma_prefix_trans, lemma_u24_at, lemma_u32_at,
    read_u24_at, read_u32_at, u24_bytes, u32_bytes, write_u24, write_u32, write_u8, IsoError,
};
use crate::common_types::Utf8String;
use crate::frame::{add_header_size, add_header_size_exec, BoxBody, UnknownBox, UnknownBoxModel};
use crate::header::{spec_uuid_fourcc, FullBoxHeader};
use crate::wire::{lemma_size_seq, ser_seq, serialize_all, size_all, size_seq, views, IsoSized, Wire};

verus! {

impl ChildBox for DataEntryUrlBox {
    open spec fn spec_box_size(v: DataEntryUrlBoxModel) -> nat {
        add_header_size(4 + opt_string_bytes(v.location).len())
    }

    proof fn lemma_box_size(x: DataEntryUrlBox) {
        lemma_opt_string_size(x.location);
    }

    proof fn lemma_box_size_canonical(v: DataEntryUrlBoxModel) {
    }
}

impl ChildBox for DataEntryUrnBox {
    open spec fn spec_box_size(v: DataEntryUrnBoxModel) -> nat {
        add_header_size(4 + Utf8String::spec_serialize(v.name).len() + opt_string_bytes(v.location).len())
    }

    proof fn lemma_box_size(x: DataEntryUrnBox) {
        Utf8String::lemma_size(x.name);
        lemma_opt_string_size(x.location);
    }

    proof fn lemma_box_size_canonical(v: DataEntryUrnBoxModel) {
    }
}

impl ChildBox for DataEntryImdaBox {
    open spec fn spec_box_size(v: DataEntryImdaBox) -> nat {
        add_header_size(8)
    }

    proof fn lemma_box_size(x: DataEntryImdaBox) {
    }

    proof fn lemma_box_size_canonical(v: DataEntryImdaBox) {
    }
}

impl ChildBox for DataEntrySeqNumImdaBox {
    open spec fn spec_box_size(v: DataEntrySeqNumImdaBox) -> nat {
        add_header_size(4)
    }

    proof fn lemma_box_size(x: DataEntrySeqNumImdaBox) {
    }

    proof fn lemma_box_size_canonical(v: DataEntrySeqNumImdaBox) {
        Self::lemma_body_size(v);
    }
}

/// Data reference box
///
/// `dref`
///
/// ISO/IEC 14496-12 - 8.7.2
#[derive(Debug)]
pub struct DataReferenceBox {
    /// The full box header.
    pub full_header: FullBoxHeader,
    /// An integer that counts the sub boxes.
    pub entry_count: u32,
    /// Data entry URL boxes.
    pub url: Vec<DataEntryUrlBox>,
    /// Data entry URN boxes.
    pub urn: Vec<DataEntryUrnBox>,
    /// Data entry IMDA boxes.
    pub imda: Vec<DataEntryImdaBox>,
    /// Data entry sequence number IMDA boxes.
    pub snim: Vec<DataEntrySeqNumImdaBox>,
    /// Any other unknown boxes.
    pub unknown_boxes: Vec<UnknownBox>,
}

/// The model of a [`DataReferenceBox`].
pub struct DataReferenceBoxModel {
    pub full_header: FullBoxHeader,
    pub entry_count: u32,
    pub url: Seq<DataEntryUrlBoxModel>,
    pub urn: Seq<DataEntryUrnBoxModel>,
    pub imda: Seq<DataEntryImdaBox>,
    pub snim: Seq<DataEntrySeqNumImdaBox>,
    pub unknown_boxes: Seq<UnknownBoxModel>,
}

impl View for DataReferenceBox {
    type V = DataReferenceBoxModel;

    open spec fn view(&self) -> DataReferenceBoxModel {
        DataReferenceBoxModel {
            full_header: self.full_header,
            entry_count: self.entry_count,
            url: views(self.url@),
            urn: views(self.urn@),
            imda: views(self.imda@),
            snim: views(self.snim@),
            unknown_boxes: views(self.unknown_boxes@),
        }
    }
}

/// Whether a box found in a data reference box is one of the data entries.
pub open spec fn dref_known(c: UnknownBoxModel) -> bool {
    is_child::<DataEntryUrlBox>(c) || is_child::<DataEntryUrnBox>(c) || is_child::<DataEntryImdaBox>(c)
        || is_child::<DataEntrySeqNumImdaBox>(c)
}

/// The failure of reading a data entry found in a data reference box.
pub open spec fn dref_fault(c: UnknownBoxModel) -> Option<IsoError> {
    if is_child::<DataEntryUrlBox>(c) {
        child_fault::<DataEntryUrlBox>(c)
    } else if is_child::<DataEntryUrnBox>(c) {
        child_fault::<DataEntryUrnBox>(c)
    } else if is_child::<DataEntryImdaBox>(c) {
        child_fault::<DataEntryImdaBox>(c)
    } else if is_child::<DataEntrySeqNumImdaBox>(c) {
        child_fault::<DataEntrySeqNumImdaBox>(c)
    } else {
        None
    }
}

/// What a data reference box reads from its payload: the version, flags and entry
/// count, then the boxes before the first that fails, each data entry in its list and
/// every other box kept as it is.
pub open spec fn dref_parse(s: Seq<u8>) -> Result<DataReferenceBoxModel, IsoError> {
    if s.len() < 8 {
        Err(IsoError::UnexpectedEof)
    } else {
        let cs = spec_children(s.skip(8));
        match scan_result(cs, |c: UnknownBoxModel| dref_fault(c)) {
            Err(e) => Err(e),
            Ok(k) => {
                let p = cs.take(k as int);
                Ok(
                    DataReferenceBoxModel {
                        full_header: FullBoxHeader { version: s[0], flags: be_u24_at(s, 1) },
                        entry_count: be_u32_at(s, 4),
                        url: collect_children::<DataEntryUrlBox>(p),
                        urn: collect_children::<DataEntryUrnBox>(p),
                        imda: collect_children::<DataEntryImdaBox>(p),
                        snim: collect_children::<DataEntrySeqNumImdaBox>(p),
                        unknown_boxes: collect_unknown(p, |c: UnknownBoxModel| dref_known(c)),
                    },
                )
            },
        }
    }
}

/// The bytes of the boxes that a data reference box holds, in the order of its fields.
pub open spec fn dref_children_bytes(v: DataReferenceBoxModel) -> Seq<u8> {
    children_bytes::<DataEntryUrlBox>(v.url) + children_bytes::<DataEntryUrnBox>(v.urn)
        + children_bytes::<DataEntryImdaBox>(v.imda) + children_bytes::<DataEntrySeqNumImdaBox>(v.snim)
        + ser_seq::<UnknownBox>(v.unknown_boxes)
}

impl IsoSized for DataReferenceBox {
    open spec fn spec_size(&self) -> nat {
        add_header_size(
            8 + boxes_size::<DataEntryUrlBox>(self.url@) + boxes_size::<DataEntryUrnBox>(self.urn@)
                + boxes_size::<DataEntryImdaBox>(self.imda@) + boxes_size::<DataEntrySeqNumImdaBox>(
                self.snim@,
            ) + size_seq::<UnknownBox>(self.unknown_boxes@),
        )
    }

    fn size(&self) -> (n: usize) {
        let a = size_children(&self.url);
        let b = size_children(&self.urn);
        let c = size_children(&self.imda);
        let d = size_children(&self.snim);
        let e = size_all(&self.unknown_boxes);
        add_header_size_exec(8 + a + b + c + d + e)
    }
}

impl BoxBody for DataReferenceBox {
    open spec fn spec_box_type() -> [u8; 4] {
        [0x64u8, 0x72u8, 0x65u8, 0x66u8]
    }

    fn box_type() -> (r: [u8; 4]) {
        [0x64u8, 0x72u8, 0x65u8, 0x66u8]
    }

    open spec fn spec_parse_body(s: Seq<u8>) -> Result<DataReferenceBoxModel, IsoError> {
        dref_parse(s)
    }

    open spec fn spec_writable(v: DataReferenceBoxModel) -> bool {
        true
    }

    open spec fn spec_serialize_body(v: DataReferenceBoxModel) -> Seq<u8> {
        seq![v.full_header.version] + u24_bytes(v.full_header.flags) + u32_bytes(v.entry_count)
            + dref_children_bytes(v)
    }

    /// The flags fit in 24 bits, every data entry reads back as itself and reports a
    /// size that fits, and every other box is of another type and announces exactly
    /// its payload.
    open spec fn spec_canonical(v: DataReferenceBoxModel) -> bool {
        &&& v.full_header.flags < 0x100_0000
        &&& children_ok::<DataEntryUrlBox>(v.url)
        &&& children_ok::<DataEntryUrnBox>(v.urn)
        &&& children_ok::<DataEntryImdaBox>(v.imda)
        &&& children_ok::<DataEntrySeqNumImdaBox>(v.snim)
        &&& forall|i: int|
            0 <= i < v.unknown_boxes.len() ==> UnknownBox::spec_canonical(#[trigger] v.unknown_boxes[i])
                && !dref_known(v.unknown_boxes[i])
    }

    proof fn lemma_box_type() {
        assert(Self::spec_box_type()[0] != spec_uuid_fourcc()[0]);
    }

    #[verifier::spinoff_prover]
    #[verifier::rlimit(60)]
    proof fn lemma_body_size(x: DataReferenceBox) {
        let v = x@;
        lemma_boxes_size::<DataEntryUrlBox>(x.url@);
        lemma_boxes_size::<DataEntryUrnBox>(x.urn@);
        lemma_boxes_size::<DataEntryImdaBox>(x.imda@);
        lemma_boxes_size::<DataEntrySeqNumImdaBox>(x.snim@);
        lemma_size_seq::<UnknownBox>(x.unknown_boxes@);
        lemma_children_seq::<DataEntryUrlBox>(v.url, Seq::empty());
        lemma_children_seq::<DataEntryUrnBox>(v.urn, Seq::empty());
        lemma_children_seq::<DataEntryImdaBox>(v.imda, Seq::empty());
        lemma_children_seq::<DataEntrySeqNumImdaBox>(v.snim, Seq::empty());
    }

    proof fn lemma_body_roundtrip(v: DataReferenceBoxModel) {
        lemma_dref_roundtrip(v);
    }

    fn parse_body(payload: &[u8]) -> (r: Result<DataReferenceBox, IsoError>) {
        parse_dref(payload)
    }

    fn serialize_body(&self, out: &mut Vec<u8>) -> (r: Result<(), IsoError>) {
        let ghost before = out@;
        write_u8(out, self.full_header.version);
        write_u24(out, self.full_header.flags);
        write_u32(out, self.entry_count);
        let ghost m0 = out@;
        let _ = write_children(&self.url, out);
        let ghost m1 = out@;
        let _ = write_children(&self.urn, out);
        let ghost m2 = out@;
        let _ = write_children(&self.imda, out);
        let ghost m3 = out@;
        let _ = write_children(&self.snim, out);
        let ghost m4 = out@;
        let _ = serialize_all(&self.unknown_boxes, out);
        proof {
            assert(out@ =~= before + Self::spec_serialize_body(self@));
            lemma_append_prefix(before, Self::spec_serialize_body(self@));
        }
        Ok(())
    }
}

/// Reads the payload of a data reference box.
#[verifier::spinoff_prover]
#[verifier::rlimit(100)]
fn parse_dref(payload: &[u8]) -> (r: Result<DataReferenceBox, IsoError>)
    ensures
        match (dref_parse(payload@), r) {
            (Ok(v), Ok(x)) => x@ == v,
            (Err(e), Err(f)) => e == f,
            _ => false,
        },
{
    if payload.len() < 8 {
        return Err(IsoError::UnexpectedEof);
    }
    let full_header = FullBoxHeader { version: payload[0], flags: read_u24_at(payload, 1) };
    let entry_count = read_u32_at(payload, 4);
    let rest = vstd::slice::slice_subrange(payload, 8, payload.len());
    proof {
        assert(rest@ =~= payload@.skip(8));
    }
    let cs = read_children(rest);
    let ghost css = spec_children(payload@.skip(8));
    let ghost fault = |c: UnknownBoxModel| dref_fault(c);
    let ghost known = |c: UnknownBoxModel| dref_known(c);
    let mut url: Vec<DataEntryUrlBox> = Vec::new();
    let mut urn: Vec<DataEntryUrnBox> = Vec::new();
    let mut imda: Vec<DataEntryImdaBox> = Vec::new();
    let mut snim: Vec<DataEntrySeqNumImdaBox> = Vec::new();
    let mut unknown_boxes: Vec<UnknownBox> = Vec::new();
    let mut i: usize = 0;
    let mut stop = false;
    proof {
        assert(css.take(0) =~= Seq::<UnknownBoxModel>::empty());
        assert(views(url@) =~= Seq::<DataEntryUrlBoxModel>::empty());
        assert(views(urn@) =~= Seq::<DataEntryUrnBoxModel>::empty());
        assert(views(imda@) =~= Seq::<DataEntryImdaBox>::empty());
        assert(views(snim@) =~= Seq::<DataEntrySeqNumImdaBox>::empty());
        assert(views(unknown_boxes@) =~= Seq::<UnknownBoxModel>::empty());
        lemma_dref_types();
    }
    while i < cs.len() && !stop
        invariant
            views(cs@) == css,
            payload@.len() >= 8,
            css == spec_children(payload@.skip(8)),
            fault == (|c: UnknownBoxModel| dref_fault(c)),
            known == (|c: UnknownBoxModel| dref_known(c)),
            dref_types_differ(),
            i <= cs@.len(),
            forall|j: int| 0 <= j < i ==> (#[trigger] fault(css[j])) is None,
            stop ==> i < css.len() && fault(css[i as int]) == Some(IsoError::UnexpectedEof),
            views(url@) == collect_children::<DataEntryUrlBox>(css.take(i as int)),
            views(urn@) == collect_children::<DataEntryUrnBox>(css.take(i as int)),
            views(imda@) == collect_children::<DataEntryImdaBox>(css.take(i as int)),
            views(snim@) == collect_children::<DataEntrySeqNumImdaBox>(css.take(i as int)),
            views(unknown_boxes@) == collect_unknown(css.take(i as int), known),
        decreases cs@.len() - i + (if stop { 0int } else { 1int }),
    {
        let c = &cs[i];
        proof {
            assert(c@ == css[i as int]);
            lemma_collect_step::<DataEntryUrlBox>(css, i as int);
            lemma_collect_step::<DataEntryUrnBox>(css, i as int);
            lemma_collect_step::<DataEntryImdaBox>(css, i as int);
            lemma_collect_step::<DataEntrySeqNumImdaBox>(css, i as int);
            lemma_unknown_step(css, known, i as int);
        }
        let r: Result<(), IsoError> = if is_child_exec::<DataEntryUrlBox>(c) {
            proof {
                lemma_child_other::<DataEntryUrnBox>(c@);
                lemma_child_other::<DataEntryImdaBox>(c@);
                lemma_child_other::<DataEntrySeqNumImdaBox>(c@);
                lemma_child_read::<DataEntryUrlBox>(c@);
            }
            let ghost old_v = views(url@);
            let r1 = collect_into(c, &mut url);
            proof {
                if r1 is Ok {
                    assert(views(url@) =~= old_v + seq![child_value::<DataEntryUrlBox>(c@)->0]);
                }
            }
            proof {
                assert(match r1 {
                    Ok(_) => dref_fault(c@) is None,
                    Err(e) => dref_fault(c@) == Some(e),
                });
            }
            r1
        } else if is_child_exec::<DataEntryUrnBox>(c) {
            proof {
                lemma_child_other::<DataEntryUrlBox>(c@);
                lemma_child_other::<DataEntryImdaBox>(c@);
                lemma_child_other::<DataEntrySeqNumImdaBox>(c@);
                lemma_child_read::<DataEntryUrnBox>(c@);
            }
            let ghost old_v = views(urn@);
            let r1 = collect_into(c, &mut urn);
            proof {
                if r1 is Ok {
                    assert(views(urn@) =~= old_v + seq![child_value::<DataEntryUrnBox>(c@)->0]);
                }
            }
            proof {
                assert(match r1 {
                    Ok(_) => dref_fault(c@) is None,
                    Err(e) => dref_fault(c@) == Some(e),
                });
            }
            r1
        } else if is_child_exec::<DataEntryImdaBox>(c) {
            proof {
                lemma_child_other::<DataEntryUrlBox>(c@);
                lemma_child_other::<DataEntryUrnBox>(c@);
                lemma_child_other::<DataEntrySeqNumImdaBox>(c@);
                lemma_child_read::<DataEntryImdaBox>(c@);
            }
            let ghost old_v = views(imda@);
            let r1 = collect_into(c, &mut imda);
            proof {
                if r1 is Ok {
                    assert(views(imda@) =~= old_v + seq![child_value::<DataEntryImdaBox>(c@)->0]);
                }
            }
            proof {
                assert(match r1 {
                    Ok(_) => dref_fault(c@) is None,
                    Err(e) => dref_fault(c@) == Some(e),
                });
            }
            r1
        } else if is_child_exec::<DataEntrySeqNumImdaBox>(c) {
            proof {
                lemma_child_other::<DataEntryUrlBox>(c@);
                lemma_child_other::<DataEntryUrnBox>(c@);
                lemma_child_other::<DataEntryImdaBox>(c@);
                lemma_child_read::<DataEntrySeqNumImdaBox>(c@);
            }
            let ghost old_v = views(snim@);
            let r1 = collect_into(c, &mut snim);
            proof {
                if r1 is Ok {
                    assert(views(snim@) =~= old_v + seq![child_value::<DataEntrySeqNumImdaBox>(c@)->0]);
                }
            }
            proof {
                assert(match r1 {
                    Ok(_) => dref_fault(c@) is None,
                    Err(e) => dref_fault(c@) == Some(e),
                });
            }
            r1
        } else {
            proof {
                lemma_child_other::<DataEntryUrlBox>(c@);
                lemma_child_other::<DataEntryUrnBox>(c@);
                lemma_child_other::<DataEntryImdaBox>(c@);
                lemma_child_other::<DataEntrySeqNumImdaBox>(c@);
            }
            let kept = UnknownBox { header: c.header, data: vstd::slice::slice_to_vec(c.data.as_slice()) };
            let ghost old_v = views(unknown_boxes@);
            unknown_boxes.push(kept);
            proof {
                assert(views(unknown_boxes@) =~= old_v + seq![c@]);
            }
            Ok(())
        };
        proof {
            assert(match r {
                Ok(_) => fault(css[i as int]) is None,
                Err(e) => fault(css[i as int]) == Some(e),
            });
        }
        match r {
            Ok(()) => {
                i = i + 1;
            },
            Err(IsoError::UnexpectedEof) => {
                stop = true;
            },
            Err(e) => {
                proof {
                    lemma_first_fault(css, fault, i as int);
                }
                return Err(e);
            },
        }
    }
    proof {
        lemma_first_fault(css, fault, i as int);
        assert(first_fault(css, fault) == i);
    }
    Ok(DataReferenceBox { full_header, entry_count, url, urn, imda, snim, unknown_boxes })
}

/// The four data entry types differ from one another.
pub open spec fn dref_types_differ() -> bool {
    &&& DataEntryUrlBox::spec_box_type() != DataEntryUrnBox::spec_box_type()
    &&& DataEntryUrlBox::spec_box_type() != DataEntryImdaBox::spec_box_type()
    &&& DataEntryUrlBox::spec_box_type() != DataEntrySeqNumImdaBox::spec_box_type()
    &&& DataEntryUrnBox::spec_box_type() != DataEntryImdaBox::spec_box_type()
    &&& DataEntryUrnBox::spec_box_type() != DataEntrySeqNumImdaBox::spec_box_type()
    &&& DataEntryImdaBox::spec_box_type() != DataEntrySeqNumImdaBox::spec_box_type()
}

proof fn lemma_dref_types()
    ensures
        dref_types_differ(),
{
    assert(DataEntryUrlBox::spec_box_type()[2] != DataEntryUrnBox::spec_box_type()[2]);
    assert(DataEntryUrlBox::spec_box_type()[0] != DataEntryImdaBox::spec_box_type()[0]);
    assert(DataEntryUrlBox::spec_box_type()[0] != DataEntrySeqNumImdaBox::spec_box_type()[0]);
    assert(DataEntryUrnBox::spec_box_type()[0] != DataEntryImdaBox::spec_box_type()[0]);
    assert(DataEntryUrnBox::spec_box_type()[0] != DataEntrySeqNumImdaBox::spec_box_type()[0]);
    assert(DataEntryImdaBox::spec_box_type()[0] != DataEntrySeqNumImdaBox::spec_box_type()[0]);
}

/// The boxes that a data reference box writes read back as their models, one list
/// after the other, and none of them fails.
#[verifier::spinoff_prover]
#[verifier::rlimit(100)]
proof fn lemma_dref_children(v: DataReferenceBoxModel)
    requires
        DataReferenceBox::spec_canonical(v),
    ensures
        spec_children(dref_children_bytes(v)) == children_models::<DataEntryUrlBox>(v.url)
            + children_models::<DataEntryUrnBox>(v.urn) + children_models::<DataEntryImdaBox>(v.imda)
            + children_models::<DataEntrySeqNumImdaBox>(v.snim) + v.unknown_boxes,
{
    let b5 = ser_seq::<UnknownBox>(v.unknown_boxes);
    let b4 = children_bytes::<DataEntrySeqNumImdaBox>(v.snim);
    let b3 = children_bytes::<DataEntryImdaBox>(v.imda);
    let b2 = children_bytes::<DataEntryUrnBox>(v.urn);
    let b1 = children_bytes::<DataEntryUrlBox>(v.url);
    assert(dref_children_bytes(v) =~= b1 + (b2 + (b3 + (b4 + b5))));
    assert forall|i: int| 0 <= i < v.unknown_boxes.len() implies #[trigger] UnknownBox::spec_canonical(
        v.unknown_boxes[i],
    ) by {}
    lemma_unknown_seq(v.unknown_boxes);
    lemma_children_seq::<DataEntrySeqNumImdaBox>(v.snim, b5);
    lemma_children_seq::<DataEntryImdaBox>(v.imda, b4 + b5);
    lemma_children_seq::<DataEntryUrnBox>(v.urn, b3 + (b4 + b5));
    lemma_children_seq::<DataEntryUrlBox>(v.url, b2 + (b3 + (b4 + b5)));
}

/// Writing a data reference box and reading its payload back gives it again.
#[verifier::spinoff_prover]
#[verifier::rlimit(100)]
proof fn lemma_dref_roundtrip(v: DataReferenceBoxModel)
    requires
        DataReferenceBox::spec_canonical(v),
    ensures
        dref_parse(DataReferenceBox::spec_serialize_body(v)) == Ok::<DataReferenceBoxModel, IsoError>(v),
{
    let s = DataReferenceBox::spec_serialize_body(v);
    assert(s.skip(8) =~= dref_children_bytes(v));
    assert(s.subrange(1, 4) =~= u24_bytes(v.full_header.flags));
    lemma_u24_at(s, 1, v.full_header.flags);
    assert(s.subrange(4, 8) =~= u32_bytes(v.entry_count));
    lemma_u32_at(s, 4, v.entry_count);
    lemma_dref_children(v);
    lemma_dref_types();
    let m1 = children_models::<DataEntryUrlBox>(v.url);
    let m2 = children_models::<DataEntryUrnBox>(v.urn);
    let m3 = children_models::<DataEntryImdaBox>(v.imda);
    let m4 = children_models::<DataEntrySeqNumImdaBox>(v.snim);
    let us = v.unknown_boxes;
    let cs = m1 + m2 + m3 + m4 + us;
    let fault = |c: UnknownBoxModel| dref_fault(c);
    let known = |c: UnknownBoxModel| dref_known(c);
    assert forall|j: int| 0 <= j < cs.len() implies (#[trigger] fault(cs[j])) is None by {
        lemma_dref_no_fault(v, j);
    }
    lemma_first_fault(cs, fault, cs.len() as int);
    assert(cs.take(cs.len() as int) =~= cs);
    lemma_dref_collect(v);
    assert forall|i: int| 0 <= i < m1.len() implies #[trigger] known(m1[i]) by {}
    assert forall|i: int| 0 <= i < m2.len() implies #[trigger] known(m2[i]) by {}
    assert forall|i: int| 0 <= i < m3.len() implies #[trigger] known(m3[i]) by {}
    assert forall|i: int| 0 <= i < m4.len() implies #[trigger] known(m4[i]) by {}
    assert forall|i: int| 0 <= i < us.len() implies !#[trigger] known(us[i]) by {}
    lemma_unknown_all_known(m1, known);
    lemma_unknown_all_known(m2, known);
    lemma_unknown_all_known(m3, known);
    lemma_unknown_all_known(m4, known);
    lemma_unknown_none_known(us, known);
    lemma_unknown_add(m1 + m2 + m3 + m4, us, known);
    lemma_unknown_add(m1 + m2 + m3, m4, known);
    lemma_unknown_add(m1 + m2, m3, known);
    lemma_unknown_add(m1, m2, known);
    assert(collect_unknown(cs, known) =~= us);
}

/// No box that a data reference box writes fails to read.
proof fn lemma_dref_no_fault(v: DataReferenceBoxModel, j: int)
    requires
        DataReferenceBox::spec_canonical(v),
        dref_types_differ(),
        0 <= j < (children_models::<DataEntryUrlBox>(v.url) + children_models::<DataEntryUrnBox>(v.urn)
            + children_models::<DataEntryImdaBox>(v.imda) + children_models::<DataEntrySeqNumImdaBox>(
            v.snim,
        ) + v.unknown_boxes).len(),
    ensures
        dref_fault(
            (children_models::<DataEntryUrlBox>(v.url) + children_models::<DataEntryUrnBox>(v.urn)
                + children_models::<DataEntryImdaBox>(v.imda) + children_models::<DataEntrySeqNumImdaBox>(
                v.snim,
            ) + v.unknown_boxes)[j],
        ) is None,
{
    let n1 = v.url.len() as int;
    let n2 = n1 + v.urn.len();
    let n3 = n2 + v.imda.len();
    let n4 = n3 + v.snim.len();
    let cs = children_models::<DataEntryUrlBox>(v.url) + children_models::<DataEntryUrnBox>(v.urn)
        + children_models::<DataEntryImdaBox>(v.imda) + children_models::<DataEntrySeqNumImdaBox>(v.snim)
        + v.unknown_boxes;
    if j < n1 {
        assert(child_ok::<DataEntryUrlBox>(v.url[j]));
        lemma_child_cons::<DataEntryUrlBox>(v.url[j], Seq::empty());
        assert(cs[j] == child_model::<DataEntryUrlBox>(v.url[j]));
    } else if j < n2 {
        assert(child_ok::<DataEntryUrnBox>(v.urn[j - n1]));
        lemma_child_cons::<DataEntryUrnBox>(v.urn[j - n1], Seq::empty());
        assert(cs[j] == child_model::<DataEntryUrnBox>(v.urn[j - n1]));
    } else if j < n3 {
        assert(child_ok::<DataEntryImdaBox>(v.imda[j - n2]));
        lemma_child_cons::<DataEntryImdaBox>(v.imda[j - n2], Seq::empty());
        assert(cs[j] == child_model::<DataEntryImdaBox>(v.imda[j - n2]));
    } else if j < n4 {
        assert(child_ok::<DataEntrySeqNumImdaBox>(v.snim[j - n3]));
        lemma_child_cons::<DataEntrySeqNumImdaBox>(v.snim[j - n3], Seq::empty());
        assert(cs[j] == child_model::<DataEntrySeqNumImdaBox>(v.snim[j - n3]));
    } else {
        assert(cs[j] == v.unknown_boxes[j - n4]);
        assert(!dref_known(v.unknown_boxes[j - n4]));
    }
}

/// The data entries that a data reference box writes collect back into their lists.
#[verifier::spinoff_prover]
#[verifier::rlimit(100)]
proof fn lemma_dref_collect(v: DataReferenceBoxModel)
    requires
        DataReferenceBox::spec_canonical(v),
        dref_types_differ(),
    ensures
        ({
            let cs = children_models::<DataEntryUrlBox>(v.url) + children_models::<DataEntryUrnBox>(v.urn)
                + children_models::<DataEntryImdaBox>(v.imda) + children_models::<DataEntrySeqNumImdaBox>(
                v.snim,
            ) + v.unknown_boxes;
            &&& collect_children::<DataEntryUrlBox>(cs) == v.url
            &&& collect_children::<DataEntryUrnBox>(cs) == v.urn
            &&& collect_children::<DataEntryImdaBox>(cs) == v.imda
            &&& collect_children::<DataEntrySeqNumImdaBox>(cs) == v.snim
        }),
{
    let m1 = children_models::<DataEntryUrlBox>(v.url);
    let m2 = children_models::<DataEntryUrnBox>(v.urn);
    let m3 = children_models::<DataEntryImdaBox>(v.imda);
    let m4 = children_models::<DataEntrySeqNumImdaBox>(v.snim);
    let us = v.unknown_boxes;
    assert forall|i: int| 0 <= i < us.len() implies !#[trigger] is_child::<DataEntryUrlBox>(us[i]) by {
        assert(!dref_known(us[i]));
    }
    assert forall|i: int| 0 <= i < us.len() implies !#[trigger] is_child::<DataEntryUrnBox>(us[i]) by {
        assert(!dref_known(us[i]));
    }
    assert forall|i: int| 0 <= i < us.len() implies !#[trigger] is_child::<DataEntryImdaBox>(us[i]) by {
        assert(!dref_known(us[i]));
    }
    assert forall|i: int| 0 <= i < us.len() implies !#[trigger] is_child::<DataEntrySeqNumImdaBox>(
        us[i],
    ) by {
        assert(!dref_known(us[i]));
    }
    lemma_dref_collect_one::<DataEntryUrlBox>(m1, m2, m3, m4, us);
    lemma_dref_collect_one::<DataEntryUrnBox>(m1, m2, m3, m4, us);
    lemma_dref_collect_one::<DataEntryImdaBox>(m1, m2, m3, m4, us);
    lemma_dref_collect_one::<DataEntrySeqNumImdaBox>(m1, m2, m3, m4, us);
    lemma_collect_own::<DataEntryUrlBox>(v.url);
    lemma_collect_own::<DataEntryUrnBox>(v.urn);
    lemma_collect_own::<DataEntryImdaBox>(v.imda);
    lemma_collect_own::<DataEntrySeqNumImdaBox>(v.snim);
    lemma_collect_other::<DataEntryUrlBox, DataEntryUrnBox>(v.urn);
    lemma_collect_other::<DataEntryUrlBox, DataEntryImdaBox>(v.imda);
    lemma_collect_other::<DataEntryUrlBox, DataEntrySeqNumImdaBox>(v.snim);
    lemma_collect_other::<DataEntryUrnBox, DataEntryUrlBox>(v.url);
    lemma_collect_other::<DataEntryUrnBox, DataEntryImdaBox>(v.imda);
    lemma_collect_other::<DataEntryUrnBox, DataEntrySeqNumImdaBox>(v.snim);
    lemma_collect_other::<DataEntryImdaBox, DataEntryUrlBox>(v.url);
    lemma_collect_other::<DataEntryImdaBox, DataEntryUrnBox>(v.urn);
    lemma_collect_other::<DataEntryImdaBox, DataEntrySeqNumImdaBox>(v.snim);
    lemma_collect_other::<DataEntrySeqNumImdaBox, DataEntryUrlBox>(v.url);
    lemma_collect_other::<DataEntrySeqNumImdaBox, DataEntryUrnBox>(v.urn);
    lemma_collect_other::<DataEntrySeqNumImdaBox, DataEntryImdaBox>(v.imda);
    assert(collect_children::<DataEntryUrlBox>(m1 + m2 + m3 + m4 + us) =~= v.url);
    assert(collect_children::<DataEntryUrnBox>(m1 + m2 + m3 + m4 + us) =~= v.urn);
    assert(collect_children::<DataEntryImdaBox>(m1 + m2 + m3 + m4 + us) =~= v.imda);
    assert(collect_children::<DataEntrySeqNumImdaBox>(m1 + m2 + m3 + m4 + us) =~= v.snim);
}

/// Collecting over five lists one after the other collects over each in turn.
proof fn lemma_dref_collect_one<T: BoxBody>(
    m1: Seq<UnknownBoxModel>,
    m2: Seq<UnknownBoxModel>,
    m3: Seq<UnknownBoxModel>,
    m4: Seq<UnknownBoxModel>,
    us: Seq<UnknownBoxModel>,
)
    requires
        forall|i: int| 0 <= i < us.len() ==> !#[trigger] is_child::<T>(us[i]),
    ensures
        collect_children::<T>(m1 + m2 + m3 + m4 + us) == collect_children::<T>(m1) + collect_children::<T>(m2)
            + collect_children::<T>(m3) + collect_children::<T>(m4),
{
    lemma_collect_none::<T>(us);
    lemma_collect_add::<T>(m1 + m2 + m3 + m4, us);
    lemma_collect_add::<T>(m1 + m2 + m3, m4);
    lemma_collect_add::<T>(m1 + m2, m3);
    lemma_collect_add::<T>(m1, m2);
    assert(collect_children::<T>(m1 + m2 + m3 + m4) + Seq::<T::V>::empty() =~= collect_children::<T>(
        m1 + m2 + m3 + m4,
    ));
}

impl ChildBox for DataReferenceBox {
    open spec fn spec_box_size(v: DataReferenceBoxModel) -> nat {
        add_header_size(
            8 + children_size::<DataEntryUrlBox>(v.url) + children_size::<DataEntryUrnBox>(v.urn)
                + children_size::<DataEntryImdaBox>(v.imda) + children_size::<DataEntrySeqNumImdaBox>(v.snim)
                + ser_seq::<UnknownBox>(v.unknown_boxes).len(),
        )
    }

    proof fn lemma_box_size(x: DataReferenceBox) {
        lemma_boxes_size::<DataEntryUrlBox>(x.url@);
        lemma_boxes_size::<DataEntryUrnBox>(x.urn@);
        lemma_boxes_size::<DataEntryImdaBox>(x.imda@);
        lemma_boxes_size::<DataEntrySeqNumImdaBox>(x.snim@);
        lemma_size_seq::<UnknownBox>(x.unknown_boxes@);
    }

    #[verifier::spinoff_prover]
    #[verifier::rlimit(60)]
    proof fn lemma_box_size_canonical(v: DataReferenceBoxModel) {
        lemma_children_seq::<DataEntryUrlBox>(v.url, Seq::empty());
        lemma_children_seq::<DataEntryUrnBox>(v.urn, Seq::empty());
        lemma_children_seq::<DataEntryImdaBox>(v.imda, Seq::empty());
        lemma_children_seq::<DataEntrySeqNumImdaBox>(v.snim, Seq::empty());
    }
}

/// Data information box
///
/// `dinf`
///
/// ISO/IEC 14496-12 - 8.7.1
#[derive(Debug)]
pub struct DataInformationBox {
    /// The contained [`DataReferenceBox`]. (mandatory)
    pub dref: DataReferenceBox,
}

/// The model of a [`DataInformationBox`].
pub struct DataInformationBoxModel {
    pub dref: DataReferenceBoxModel,
}

impl View for DataInformationBox {
    type V = DataInformationBoxModel;

    open spec fn view(&self) -> DataInformationBoxModel {
        DataInformationBoxModel { dref: self.dref@ }
    }
}

/// The failure of reading a box found in a data information box: that of a data
/// reference box; other boxes are skipped.
pub open spec fn dinf_fault(c: UnknownBoxModel) -> Option<IsoError> {
    child_fault::<DataReferenceBox>(c)
}

/// What a data information box reads from its payload: the last data reference box
/// before the first box that fails, which must be there.
pub open spec fn dinf_parse(s: Seq<u8>) -> Result<DataInformationBoxModel, IsoError> {
    let cs = spec_children(s);
    match scan_result(cs, |c: UnknownBoxModel| dinf_fault(c)) {
        Err(e) => Err(e),
        Ok(k) => match last_child::<DataReferenceBox>(cs.take(k as int)) {
            Some(d) => Ok(DataInformationBoxModel { dref: d }),
            None => Err(IsoError::InvalidData),
        },
    }
}

impl IsoSized for DataInformationBox {
    open spec fn spec_size(&self) -> nat {
        add_header_size(self.dref.spec_size())
    }

    fn size(&self) -> (n: usize) {
        add_header_size_exec(self.dref.size())
    }
}

impl BoxBody for DataInformationBox {
    open spec fn spec_box_type() -> [u8; 4] {
        [0x64u8, 0x69u8, 0x6eu8, 0x66u8]
    }

    fn box_type() -> (r: [u8; 4]) {
        [0x64u8, 0x69u8, 0x6eu8, 0x66u8]
    }

    open spec fn spec_parse_body(s: Seq<u8>) -> Result<DataInformationBoxModel, IsoError> {
        dinf_parse(s)
    }

    open spec fn spec_writable(v: DataInformationBoxModel) -> bool {
        true
    }

    open spec fn spec_serialize_body(v: DataInformationBoxModel) -> Seq<u8> {
        child_bytes::<DataReferenceBox>(v.dref)
    }

    /// The data reference box reads back as itself and reports a size that fits.
    open spec fn spec_canonical(v: DataInformationBoxModel) -> bool {
        child_ok::<DataReferenceBox>(v.dref)
    }

    proof fn lemma_box_type() {
        assert(Self::spec_box_type()[1] != spec_uuid_fourcc()[1]);
    }

    proof fn lemma_body_size(x: DataInformationBox) {
        DataReferenceBox::lemma_box_size(x.dref);
        lemma_child_cons::<DataReferenceBox>(x.dref@, Seq::empty());
        assert(child_bytes::<DataReferenceBox>(x.dref@) + Seq::<u8>::empty() =~= child_bytes::<
            DataReferenceBox,
        >(x.dref@));
    }

    proof fn lemma_body_roundtrip(v: DataInformationBoxModel) {
        let s = child_bytes::<DataReferenceBox>(v.dref);
        lemma_child_cons::<DataReferenceBox>(v.dref, Seq::empty());
        lemma_children_empty();
        assert(s + Seq::<u8>::empty() =~= s);
        let cs = spec_children(s);
        assert(cs =~= seq![child_model::<DataReferenceBox>(v.dref)]);
        let fault = |c: UnknownBoxModel| dinf_fault(c);
        assert(fault(cs[0]) is None);
        lemma_first_fault(cs, fault, 1);
        assert(cs.take(1) =~= cs);
        lemma_option_own::<DataReferenceBox>(Some(v.dref));
        assert(cs =~= option_models::<DataReferenceBox>(Some(v.dref)));
    }

    fn parse_body(payload: &[u8]) -> (r: Result<DataInformationBox, IsoError>) {
        parse_dinf(payload)
    }

    fn serialize_body(&self, out: &mut Vec<u8>) -> (r: Result<(), IsoError>) {
        write_child(&self.dref, out)
    }
}

/// Reads the payload of a data information box.
#[verifier::spinoff_prover]
#[verifier::rlimit(60)]
fn parse_dinf(payload: &[u8]) -> (r: Result<DataInformationBox, IsoError>)
    ensures
        match (dinf_parse(payload@), r) {
            (Ok(v), Ok(x)) => x@ == v,
            (Err(e), Err(f)) => e == f,
            _ => false,
        },
{
    let cs = read_children(payload);
    let ghost css = spec_children(payload@);
    let ghost fault = |c: UnknownBoxModel| dinf_fault(c);
    let mut dref: Option<DataReferenceBox> = None;
    let mut i: usize = 0;
    let mut stop = false;
    proof {
        assert(css.take(0) =~= Seq::<UnknownBoxModel>::empty());
    }
    while i < cs.len() && !stop
        invariant
            views(cs@) == css,
            css == spec_children(payload@),
            fault == (|c: UnknownBoxModel| dinf_fault(c)),
            i <= cs@.len(),
            forall|j: int| 0 <= j < i ==> (#[trigger] fault(css[j])) is None,
            stop ==> i < css.len() && fault(css[i as int]) == Some(IsoError::UnexpectedEof),
            opt_model(dref) == last_child::<DataReferenceBox>(css.take(i as int)),
        decreases cs@.len() - i + (if stop { 0int } else { 1int }),
    {
        let c = &cs[i];
        proof {
            assert(c@ == css[i as int]);
            lemma_collect_step::<DataReferenceBox>(css, i as int);
        }
        if is_child_exec::<DataReferenceBox>(c) {
            proof {
                lemma_child_read::<DataReferenceBox>(c@);
            }
            match replace_into(c, &mut dref) {
                Ok(()) => {
                    i = i + 1;
                },
                Err(IsoError::UnexpectedEof) => {
                    stop = true;
                },
                Err(e) => {
                    proof {
                        lemma_first_fault(css, fault, i as int);
                    }
                    return Err(e);
                },
            }
        } else {
            proof {
                lemma_child_other::<DataReferenceBox>(c@);
            }
            i = i + 1;
        }
    }
    proof {
        lemma_first_fault(css, fault, i as int);
    }
    match dref {
        Some(d) => Ok(DataInformationBox { dref: d }),
        None => Err(IsoError::InvalidData),
    }
}

} // verus!
