//! The boxes that describe how a stream is protected or scrambled: the scheme
//! information, the stereo video information it may hold, and the scheme boxes.

use vstd::prelude::*;

use crate::children::{
    child_fault, child_value, collect_children, collect_into, collect_unknown, first_fault, is_child, is_child_exec,
    last_child, lemma_child_other, lemma_child_read, lemma_collect_add, lemma_collect_none, lemma_collect_step,
    lemma_first_fault, lemma_unknown_add, lemma_unknown_all_known, lemma_unknown_none_known, lemma_unknown_step,
    lemma_unknown_seq, read_children, replace_into, scan_result, spec_children,
};
use crate::codec::{
    be_u16_at, be_u24_at, be_u32_at, lemma_append_prefix, lemma_prefix_trans, lemma_u16_at, lemma_u24_at,
    lemma_u32_at, read_u16_at, read_u24_at, read_u32_at, u16_bytes, u24_bytes, u32_bytes, write_bytes, write_u16,
    write_u24, write_u32, write_u8, IsoError,
};
use crate::frame::{add_header_size, add_header_size_exec, BoxBody, UnknownBox, UnknownBoxModel};
use crate::header::{spec_uuid_fourcc, FullBoxHeader};
use crate::nested::{
    lemma_nested_collect_other, lemma_nested_collect_own, lemma_nested_cons, lemma_nested_opt_other,
    lemma_nested_opt_own, lemma_nested_opt_seq, lemma_nested_opt_size, lemma_nested_seq, lemma_nested_size,
    lemma_nested_sizes, lemma_unknown_seq_rest, nested_all_ok, nested_all_writable, nested_box_bytes, nested_bytes,
    nested_model,
    nested_models, nested_ok, nested_opt_bytes, nested_opt_models, nested_opt_ok, nested_opt_size,
    nested_opt_writable, nested_sizes, nested_writable, opt_seq, opt_view, size_nested_opt, size_nested_vec,
    write_nested, write_nested_opt, write_nested_vec,
};
use crate::wire::{
    lemma_size_seq, lemma_size_seq_mono, ser_seq, serialize_all, size_all, size_seq, views, writable_seq,
    write_matches, IsoSized, Wire,
};
use crate::boxes::incomplete_tracks::OriginalFormatBox;
use crate::boxes::schemes::{CompatibleSchemeTypeBox, SchemeTypeBox};

verus! {

/// Stereo video box
///
/// `stvi`
///
/// ISO/IEC 14496-12 - 8.15.4.2
#[derive(Debug)]
pub struct StereoVideoBox {
    /// The full box header.
    pub header: FullBoxHeader,
    /// Whether one view alone may be shown, in the low two bits of a 32-bit word.
    pub single_view_allowed: u8,
    /// The scheme of the stereo arrangement.
    pub stereo_scheme: u32,
    /// The number of bytes of the stereo indication type.
    pub length: u32,
    /// The stereo indication type, in the format of the scheme.
    pub stereo_indication_type: Vec<u8>,
    /// Any boxes that follow, kept as they are.
    pub any_box: Vec<UnknownBox>,
}

/// The model of a [`StereoVideoBox`].
pub struct StereoVideoBoxModel {
    pub header: FullBoxHeader,
    pub single_view_allowed: u8,
    pub stereo_scheme: u32,
    pub length: u32,
    pub stereo_indication_type: Seq<u8>,
    pub any_box: Seq<UnknownBoxModel>,
}

impl View for StereoVideoBox {
    type V = StereoVideoBoxModel;

    open spec fn view(&self) -> StereoVideoBoxModel {
        StereoVideoBoxModel {
            header: self.header,
            single_view_allowed: self.single_view_allowed,
            stereo_scheme: self.stereo_scheme,
            length: self.length,
            stereo_indication_type: self.stereo_indication_type@,
            any_box: views(self.any_box@),
        }
    }
}

impl IsoSized for StereoVideoBox {
    open spec fn spec_size(&self) -> nat {
        add_header_size(16 + self.stereo_indication_type@.len() + size_seq::<UnknownBox>(self.any_box@))
    }

    fn size(&self) -> (n: usize) {
        proof {
            lemma_size_seq_mono::<UnknownBox>(self.any_box@, 0);
        }
        add_header_size_exec(16 + self.stereo_indication_type.len() + size_all(&self.any_box))
    }
}

impl BoxBody for StereoVideoBox {
    open spec fn spec_box_type() -> [u8; 4] {
        [0x73u8, 0x74u8, 0x76u8, 0x69u8]
    }

    fn box_type() -> (r: [u8; 4]) {
        [0x73u8, 0x74u8, 0x76u8, 0x69u8]
    }

    /// The full header, a word whose low two bits allow a single view, the scheme, the
    /// length of the indication type and its bytes, then boxes to the end.
    open spec fn spec_parse_body(s: Seq<u8>) -> Result<StereoVideoBoxModel, IsoError> {
        if s.len() < 16 {
            Err(IsoError::UnexpectedEof)
        } else if s.len() - 16 < be_u32_at(s, 12) {
            Err(IsoError::UnexpectedEof)
        } else {
            let l = be_u32_at(s, 12) as int;
            Ok(
                StereoVideoBoxModel {
                    header: FullBoxHeader { version: s[0], flags: be_u24_at(s, 1) },
                    single_view_allowed: (be_u32_at(s, 4) & 3) as u8,
                    stereo_scheme: be_u32_at(s, 8),
                    length: be_u32_at(s, 12),
                    stereo_indication_type: s.subrange(16, 16 + l),
                    any_box: spec_children(s.skip(16 + l)),
                },
            )
        }
    }

    open spec fn spec_writable(v: StereoVideoBoxModel) -> bool {
        true
    }

    open spec fn spec_serialize_body(v: StereoVideoBoxModel) -> Seq<u8> {
        seq![v.header.version] + u24_bytes(v.header.flags) + u32_bytes(v.single_view_allowed as u32) + u32_bytes(
            v.stereo_scheme,
        ) + u32_bytes(v.length) + v.stereo_indication_type + ser_seq::<UnknownBox>(v.any_box)
    }

    /// The flags fit 24 bits, the allowance two bits, the length counts the indication
    /// type, and every box announces exactly its payload.
    open spec fn spec_canonical(v: StereoVideoBoxModel) -> bool {
        &&& v.header.flags < 0x100_0000
        &&& v.single_view_allowed < 4
        &&& v.length == v.stereo_indication_type.len()
        &&& forall|i: int| 0 <= i < v.any_box.len() ==> #[trigger] UnknownBox::spec_canonical(v.any_box[i])
    }

    proof fn lemma_box_type() {
        assert(Self::spec_box_type()[0] != spec_uuid_fourcc()[0]);
    }

    proof fn lemma_body_size(x: StereoVideoBox) {
        lemma_size_seq::<UnknownBox>(x.any_box@);
    }

    proof fn lemma_body_roundtrip(v: StereoVideoBoxModel) {
        let s = Self::spec_serialize_body(v);
        let b = v.single_view_allowed;
        let a = b as u32;
        assert(s.subrange(1, 4) =~= u24_bytes(v.header.flags));
        lemma_u24_at(s, 1, v.header.flags);
        assert(s.subrange(4, 8) =~= u32_bytes(a));
        lemma_u32_at(s, 4, a);
        assert(s.subrange(8, 12) =~= u32_bytes(v.stereo_scheme));
        lemma_u32_at(s, 8, v.stereo_scheme);
        assert(s.subrange(12, 16) =~= u32_bytes(v.length));
        lemma_u32_at(s, 12, v.length);
        let l = v.length as int;
        assert(s.subrange(16, 16 + l) =~= v.stereo_indication_type);
        assert(s.skip(16 + l) =~= ser_seq::<UnknownBox>(v.any_box));
        assert((a & 3) as u8 == b) by (bit_vector)
            requires
                a == b as u32,
                b < 4,
        ;
        lemma_unknown_seq(v.any_box);
    }

    fn parse_body(d: &[u8]) -> (r: Result<StereoVideoBox, IsoError>) {
        if d.len() < 16 {
            return Err(IsoError::UnexpectedEof);
        }
        let length = read_u32_at(d, 12);
        if ((d.len() - 16) as u64) < (length as u64) {
            return Err(IsoError::UnexpectedEof);
        }
        let end = 16 + length as usize;
        let stereo_indication_type = vstd::slice::slice_to_vec(vstd::slice::slice_subrange(d, 16, end));
        let rest = vstd::slice::slice_subrange(d, end, d.len());
        proof {
            assert(rest@ =~= d@.skip(end as int));
        }
        let any_box = read_children(rest);
        Ok(
            StereoVideoBox {
                header: FullBoxHeader { version: d[0], flags: read_u24_at(d, 1) },
                single_view_allowed: (read_u32_at(d, 4) & 3) as u8,
                stereo_scheme: read_u32_at(d, 8),
                length,
                stereo_indication_type,
                any_box,
            },
        )
    }

    fn serialize_body(&self, out: &mut Vec<u8>) -> (r: Result<(), IsoError>) {
        let ghost before = out@;
        write_u8(out, self.header.version);
        write_u24(out, self.header.flags);
        write_u32(out, self.single_view_allowed as u32);
        write_u32(out, self.stereo_scheme);
        write_u32(out, self.length);
        write_bytes(out, self.stereo_indication_type.as_slice());
        let _ = serialize_all(&self.any_box, out);
        proof {
            assert(out@ =~= before + Self::spec_serialize_body(self@));
            lemma_append_prefix(before, Self::spec_serialize_body(self@));
        }
        Ok(())
    }
}

/// Scheme information box
///
/// `schi`
///
/// ISO/IEC 14496-12 - 8.12.7
#[derive(Debug)]
pub struct SchemeInformationBox {
    /// The contained [`StereoVideoBox`]. (optional)
    pub stvi: Option<StereoVideoBox>,
    /// The boxes of other types, which depend on the scheme, kept as they are.
    pub boxes: Vec<UnknownBox>,
}

/// The model of a [`SchemeInformationBox`].
pub struct SchemeInformationBoxModel {
    pub stvi: Option<<StereoVideoBox as View>::V>,
    pub boxes: Seq<UnknownBoxModel>,
}

impl View for SchemeInformationBox {
    type V = SchemeInformationBoxModel;

    open spec fn view(&self) -> SchemeInformationBoxModel {
        SchemeInformationBoxModel {
            stvi: opt_view(self.stvi),
            boxes: views(self.boxes@),
        }
    }
}

/// Whether a box found in a schi has one of the types that it reads.
pub open spec fn schi_known(c: UnknownBoxModel) -> bool {
    is_child::<StereoVideoBox>(c)
}

/// The failure of reading a box of a known type found in a schi.
pub open spec fn schi_fault(c: UnknownBoxModel) -> Option<IsoError> {
    if is_child::<StereoVideoBox>(c) {
        child_fault::<StereoVideoBox>(c)
    } else {
        None
    }
}

/// What a schi reads from its payload: the boxes before the first that fails, each box of a known type in its field (the
/// last one for a single field, which must be there where it is required) and every
/// other box kept as it is.
pub open spec fn schi_parse(s: Seq<u8>) -> Result<SchemeInformationBoxModel, IsoError> {
    let cs = spec_children(s);
    match scan_result(cs, |c: UnknownBoxModel| schi_fault(c)) {
        Err(e) => Err(e),
        Ok(k) => {
            let p = cs.take(k as int);
            Ok(
                SchemeInformationBoxModel {
                    stvi: last_child::<StereoVideoBox>(p),
                    boxes: collect_unknown(p, |c: UnknownBoxModel| schi_known(c)),
                },
            )
        },
    }
}

/// The bytes of the boxes that a schi holds, in the order of its fields.
pub open spec fn schi_children_bytes(v: SchemeInformationBoxModel) -> Seq<u8> {
    nested_opt_bytes::<StereoVideoBox>(v.stvi)
        + ser_seq::<UnknownBox>(v.boxes)
}

/// The boxes, as found in a container, that a schi writes.
pub open spec fn schi_models(v: SchemeInformationBoxModel) -> Seq<UnknownBoxModel> {
    nested_opt_models::<StereoVideoBox>(v.stvi)
        + v.boxes
}

/// The payload that a schi writes.
pub open spec fn schi_bytes(v: SchemeInformationBoxModel) -> Seq<u8> {
    schi_children_bytes(v)
}

/// Every box of a known type can be written.
pub open spec fn schi_writable(v: SchemeInformationBoxModel) -> bool {
    &&& nested_opt_writable::<StereoVideoBox>(v.stvi)
}

/// Every box of a known type reads back as itself, and every other box is of
/// another type and announces exactly its payload.
pub open spec fn schi_canonical(v: SchemeInformationBoxModel) -> bool {
    &&& nested_opt_ok::<StereoVideoBox>(v.stvi)
    &&& forall|i: int|
        0 <= i < v.boxes.len() ==> UnknownBox::spec_canonical(#[trigger] v.boxes[i]) && !schi_known(
            v.boxes[i],
        )
}

impl IsoSized for SchemeInformationBox {
    open spec fn spec_size(&self) -> nat {
        add_header_size(nested_opt_size::<StereoVideoBox>(self.stvi) + size_seq::<UnknownBox>(self.boxes@))
    }

    fn size(&self) -> (n: usize) {
        proof {
            lemma_size_seq_mono::<UnknownBox>(self.boxes@, 0);
        }
        let mut n: usize = 0;
        n = n + size_nested_opt(&self.stvi);
        n = n + size_all(&self.boxes);
        add_header_size_exec(n)
    }
}

/// The fields of a schi read so far.
pub struct SchemeInformationBoxScan {
    pub stvi: Option<StereoVideoBox>,
    pub boxes: Vec<UnknownBox>,
}

/// The model of a [`SchemeInformationBoxScan`].
pub struct SchemeInformationBoxScanModel {
    pub stvi: Option<<StereoVideoBox as View>::V>,
    pub boxes: Seq<UnknownBoxModel>,
}

impl View for SchemeInformationBoxScan {
    type V = SchemeInformationBoxScanModel;

    open spec fn view(&self) -> SchemeInformationBoxScanModel {
        SchemeInformationBoxScanModel {
            stvi: opt_view(self.stvi),
            boxes: views(self.boxes@),
        }
    }
}

/// What a schi holds after reading the boxes of `p`.
pub open spec fn schi_prefix(p: Seq<UnknownBoxModel>) -> SchemeInformationBoxScanModel {
    SchemeInformationBoxScanModel {
        stvi: last_child::<StereoVideoBox>(p),
        boxes: collect_unknown(p, |c: UnknownBoxModel| schi_known(c)),
    }
}

/// What a schi holds after reading one more box that does not fail.
pub open spec fn schi_extend(m: SchemeInformationBoxScanModel, c: UnknownBoxModel) -> SchemeInformationBoxScanModel {
    SchemeInformationBoxScanModel {
        stvi: match child_value::<StereoVideoBox>(c) {
            Some(v) => Some(v),
            None => m.stvi,
        },
        boxes: if schi_known(c) {
            m.boxes
        } else {
            m.boxes.push(c)
        },
    }
}

/// The types that a schi reads differ from one another.
pub open spec fn schi_types_differ() -> bool {
    true
}

proof fn lemma_schi_types()
    ensures
        schi_types_differ(),
{
}

/// Reads one box found in a schi into its field.
#[verifier::spinoff_prover]
#[verifier::rlimit(60)]
fn schi_step(c: &UnknownBox, acc: &mut SchemeInformationBoxScan) -> (r: Result<(), IsoError>)
    requires
        schi_types_differ(),
    ensures
        match r {
            Ok(()) => schi_fault(c@) is None && final(acc)@ == schi_extend(old(acc)@, c@),
            Err(e) => schi_fault(c@) == Some(e) && final(acc)@ == old(acc)@,
        },
{
    if is_child_exec::<StereoVideoBox>(c) {
        proof {
            lemma_child_read::<StereoVideoBox>(c@);
        }
        let r = replace_into(c, &mut acc.stvi);
        proof {
            if r is Err {
                assert(acc@ =~= old(acc)@);
            }
            if r is Ok {
                assert(acc@ =~= schi_extend(old(acc)@, c@));
            }
        }
        r
    } else {
        proof {
            lemma_child_other::<StereoVideoBox>(c@);
        }
        let kept = UnknownBox { header: c.header, data: vstd::slice::slice_to_vec(c.data.as_slice()) };
        let ghost old_v = views(acc.boxes@);
        acc.boxes.push(kept);
        proof {
            assert(views(acc.boxes@) =~= old_v.push(c@));
            assert(acc@ =~= schi_extend(old(acc)@, c@));
        }
        Ok(())
    }
}

/// Reading one more box extends what was read by it.
proof fn lemma_schi_prefix_step(css: Seq<UnknownBoxModel>, i: int)
    requires
        0 <= i < css.len(),
    ensures
        schi_prefix(css.take(i + 1)) == schi_extend(schi_prefix(css.take(i)), css[i]),
{
    lemma_collect_step::<StereoVideoBox>(css, i);
    lemma_unknown_step(css, |c: UnknownBoxModel| schi_known(c), i);
    let a = schi_prefix(css.take(i + 1));
    let b = schi_extend(schi_prefix(css.take(i)), css[i]);
    assert(a.boxes =~= b.boxes);
}

/// Reads the payload of a schi.
#[verifier::spinoff_prover]
#[verifier::rlimit(60)]
fn parse_schi(payload: &[u8]) -> (r: Result<SchemeInformationBox, IsoError>)
    ensures
        match (schi_parse(payload@), r) {
            (Ok(v), Ok(x)) => x@ == v,
            (Err(e), Err(f)) => e == f,
            _ => false,
        },
{
    let cs = read_children(payload);
    let ghost css = spec_children(payload@);
    let ghost fault = |c: UnknownBoxModel| schi_fault(c);
    let mut acc = SchemeInformationBoxScan {
        stvi: None,
        boxes: Vec::new(),
    };
    let mut i: usize = 0;
    let mut stop = false;
    proof {
        lemma_schi_types();
        let e = css.take(0);
        assert(e =~= Seq::<UnknownBoxModel>::empty());
        assert(collect_children::<StereoVideoBox>(e) =~= Seq::<<StereoVideoBox as View>::V>::empty());
        assert(collect_unknown(e, |c: UnknownBoxModel| schi_known(c)) =~= Seq::<UnknownBoxModel>::empty());
        assert(views(acc.boxes@) =~= Seq::<UnknownBoxModel>::empty());
        assert(acc@ =~= schi_prefix(e));
    }
    while i < cs.len() && !stop
        invariant
            views(cs@) == css,
            css == spec_children(payload@),
            fault == (|c: UnknownBoxModel| schi_fault(c)),
            schi_types_differ(),
            i <= cs@.len(),
            forall|j: int| 0 <= j < i ==> (#[trigger] fault(css[j])) is None,
            stop ==> i < css.len() && fault(css[i as int]) == Some(IsoError::UnexpectedEof),
            acc@ == schi_prefix(css.take(i as int)),
        decreases cs@.len() - i + (if stop { 0int } else { 1int }),
    {
        let c = &cs[i];
        proof {
            assert(c@ == css[i as int]);
            lemma_schi_prefix_step(css, i as int);
        }
        match schi_step(c, &mut acc) {
            Ok(()) => {
                i = i + 1;
            },
            Err(IsoError::UnexpectedEof) => {
                stop = true;
            },
            Err(e) => {
                proof {
                    lemma_first_fault(css, fault, i as int);
                }
                return Err(e);
            },
        }
    }
    proof {
        lemma_first_fault(css, fault, i as int);
        assert(first_fault(css, fault) == i);
    }
    let SchemeInformationBoxScan { stvi, boxes } = acc;
    Ok(SchemeInformationBox { stvi, boxes })
}

/// Writes the boxes of a schi in the order of its fields.
#[verifier::spinoff_prover]
#[verifier::rlimit(60)]
fn write_schi_children(x: &SchemeInformationBox, out: &mut Vec<u8>) -> (r: Result<(), IsoError>)
    requires
        x.spec_size() <= usize::MAX,
    ensures
        write_matches(r, schi_writable(x@), schi_children_bytes(x@), old(out)@, final(out)@),
{
    let ghost before = out@;
    let ghost v = x@;
    if write_nested_opt(&x.stvi, out).is_err() {
        return Err(IsoError::InvalidData);
    }
    let ghost m1 = out@;
    proof {
        lemma_append_prefix(before, nested_opt_bytes::<StereoVideoBox>(v.stvi));
    }
    let _ = serialize_all(&x.boxes, out);
    assert(out@ == m1 + ser_seq::<UnknownBox>(v.boxes)) by {
        assert(views(x.boxes@) == v.boxes);
    }
    let ghost m2 = out@;
    proof {
        lemma_append_prefix(m1, ser_seq::<UnknownBox>(v.boxes));
        lemma_prefix_trans(before, m1, m2);
    }
    proof {
        let l1 = nested_opt_bytes::<StereoVideoBox>(v.stvi);
        assert(m1 == before + l1);
        let l2 = l1 + ser_seq::<UnknownBox>(v.boxes);
        vstd::seq_lib::lemma_concat_associative(before, l1, ser_seq::<UnknownBox>(v.boxes));
        assert(m2 == before + l2);
        assert(schi_children_bytes(v) == l2);
        lemma_append_prefix(before, schi_children_bytes(v));
    }
    Ok(())
}

/// The boxes that a schi writes, read from their bytes one list after the other.
#[verifier::spinoff_prover]
#[verifier::rlimit(100)]
proof fn lemma_schi_children_chain(v: SchemeInformationBoxModel)
    requires
        schi_canonical(v),
    ensures
        spec_children(nested_opt_bytes::<StereoVideoBox>(v.stvi) + (ser_seq::<UnknownBox>(v.boxes))) == nested_opt_models::<StereoVideoBox>(v.stvi) + (v.boxes),
{
    let b0 = nested_opt_bytes::<StereoVideoBox>(v.stvi);
    let s0 = nested_opt_models::<StereoVideoBox>(v.stvi);
    let b1 = ser_seq::<UnknownBox>(v.boxes);
    let s1 = v.boxes;
    crate::children::lemma_children_empty();
    let t1 = b1;
    let u1 = s1;
    assert(b1 + Seq::<u8>::empty() =~= b1);
    assert(s1 + Seq::<UnknownBoxModel>::empty() =~= s1);
    lemma_unknown_seq_rest(v.boxes, Seq::<u8>::empty());
    assert(spec_children(t1) == u1);
    let t0 = b0 + t1;
    let u0 = s0 + u1;
    lemma_nested_opt_seq::<StereoVideoBox>(v.stvi, t1);
    assert(spec_children(t0) == u0);
}

/// The boxes that a schi writes read back as their models.
#[verifier::spinoff_prover]
#[verifier::rlimit(100)]
proof fn lemma_schi_children(v: SchemeInformationBoxModel)
    requires
        schi_canonical(v),
    ensures
        spec_children(schi_children_bytes(v)) == schi_models(v),
{
    lemma_schi_children_chain(v);
    let b0 = nested_opt_bytes::<StereoVideoBox>(v.stvi);
    let s0 = nested_opt_models::<StereoVideoBox>(v.stvi);
    let b1 = ser_seq::<UnknownBox>(v.boxes);
    let s1 = v.boxes;
    let t1 = b1;
    let u1 = s1;
    let t0 = b0 + t1;
    let u0 = s0 + u1;
    let t2 = Seq::<u8>::empty();
    let u2 = Seq::<UnknownBoxModel>::empty();
    assert(b1 + t2 =~= t1);
    assert(s1 + u2 =~= u1);
    let l0 = Seq::<u8>::empty();
    let k0 = Seq::<UnknownBoxModel>::empty();
    assert(l0 + t0 =~= t0);
    assert(k0 + u0 =~= u0);
    let l1 = b0;
    let k1 = s0;
    assert(l1 + t1 == l0 + t0);
    assert(k1 + u1 == k0 + u0);
    let l2 = l1 + b1;
    let k2 = k1 + s1;
    vstd::seq_lib::lemma_concat_associative(l1, b1, t2);
    vstd::seq_lib::lemma_concat_associative(k1, s1, u2);
    assert(l2 + t2 == l1 + t1);
    assert(k2 + u2 == k1 + u1);
    assert(l2 + t2 =~= l2);
    assert(k2 + u2 =~= k2);
    assert(schi_children_bytes(v) == l2);
    assert(schi_models(v) == k2);
}

/// No box that a schi writes fails to read.
#[verifier::spinoff_prover]
#[verifier::rlimit(60)]
proof fn lemma_schi_no_fault(v: SchemeInformationBoxModel, j: int)
    requires
        schi_canonical(v),
        schi_types_differ(),
        0 <= j < schi_models(v).len(),
    ensures
        schi_fault(schi_models(v)[j]) is None,
{
    let cs = schi_models(v);
    let s0 = nested_opt_models::<StereoVideoBox>(v.stvi);
    let s1 = v.boxes;
    let n0: int = 0;
    let n1: int = n0 + s0.len();
    let n2: int = n1 + s1.len();
    if j < n1 {
        assert(cs[j] == s0[j - n0]);
        lemma_nested_cons::<StereoVideoBox>(v.stvi.unwrap(), Seq::empty());
    } else if j < n2 {
        assert(cs[j] == s1[j - n1]);
        assert(!schi_known(v.boxes[j - n1]));
    }
}

/// Collecting over the lists of a schi one after the other collects over each in
/// turn.
proof fn lemma_schi_split<T: BoxBody>(m0: Seq<UnknownBoxModel>, m1: Seq<UnknownBoxModel>)
    ensures
        collect_children::<T>(m0 + m1) == collect_children::<T>(m0) + collect_children::<T>(m1),
{
    lemma_collect_add::<T>(m0, m1);
}

/// The boxes that a schi writes collect back into its field `stvi`.
#[verifier::spinoff_prover]
#[verifier::rlimit(60)]
proof fn lemma_schi_collect_stvi(v: SchemeInformationBoxModel)
    requires
        schi_canonical(v),
        schi_types_differ(),
    ensures
        collect_children::<StereoVideoBox>(schi_models(v)) == opt_seq(v.stvi),
{
    lemma_schi_split::<StereoVideoBox>(nested_opt_models::<StereoVideoBox>(v.stvi), v.boxes);
    lemma_nested_opt_own::<StereoVideoBox>(v.stvi);
    assert forall|i: int| 0 <= i < v.boxes.len() implies !#[trigger] is_child::<StereoVideoBox>(v.boxes[i]) by {
        assert(!schi_known(v.boxes[i]));
    }
    lemma_collect_none::<StereoVideoBox>(v.boxes);
    assert(collect_children::<StereoVideoBox>(schi_models(v)) =~= opt_seq(v.stvi));
}

/// The boxes of other types that a schi writes are collected back as they are.
#[verifier::spinoff_prover]
#[verifier::rlimit(60)]
proof fn lemma_schi_unknown(v: SchemeInformationBoxModel)
    requires
        schi_canonical(v),
    ensures
        collect_unknown(schi_models(v), |c: UnknownBoxModel| schi_known(c)) == v.boxes,
{
    let known = |c: UnknownBoxModel| schi_known(c);
    let s0 = nested_opt_models::<StereoVideoBox>(v.stvi);
    assert forall|i: int| 0 <= i < s0.len() implies #[trigger] known(s0[i]) by {}
    lemma_unknown_all_known(s0, known);
    let s1 = v.boxes;
    assert forall|i: int| 0 <= i < s1.len() implies !#[trigger] known(s1[i]) by {}
    lemma_unknown_none_known(s1, known);
    lemma_unknown_add(s0, s1, known);
    assert(collect_unknown(schi_models(v), known) =~= v.boxes);
}

/// Writing a schi and reading its payload back gives it again.
#[verifier::spinoff_prover]
#[verifier::rlimit(100)]
proof fn lemma_schi_roundtrip(v: SchemeInformationBoxModel)
    requires
        schi_canonical(v),
    ensures
        schi_parse(schi_bytes(v)) == Ok::<SchemeInformationBoxModel, IsoError>(v),
{
    let s = schi_bytes(v);
    lemma_schi_children(v);
    lemma_schi_types();
    let cs = schi_models(v);
    let fault = |c: UnknownBoxModel| schi_fault(c);
    assert forall|j: int| 0 <= j < cs.len() implies (#[trigger] fault(cs[j])) is None by {
        lemma_schi_no_fault(v, j);
    }
    lemma_first_fault(cs, fault, cs.len() as int);
    assert(cs.take(cs.len() as int) =~= cs);
    lemma_schi_collect_stvi(v);
    lemma_schi_unknown(v);
    assert(spec_children(s) == cs);
    assert(last_child::<StereoVideoBox>(cs) == v.stvi);
}

/// For a value that reads back as itself, the size is that of its payload and header.
#[verifier::spinoff_prover]
#[verifier::rlimit(60)]
proof fn lemma_schi_size(x: SchemeInformationBox)
    requires
        schi_canonical(x@),
    ensures
        nested_opt_size::<StereoVideoBox>(x.stvi) + size_seq::<UnknownBox>(x.boxes@) == schi_bytes(x@).len(),
{
    let v = x@;
    lemma_nested_opt_size::<StereoVideoBox>(x.stvi);
    assert(writable_seq::<UnknownBox>(views(x.boxes@)));
    lemma_size_seq::<UnknownBox>(x.boxes@);
}

impl BoxBody for SchemeInformationBox {
    open spec fn spec_box_type() -> [u8; 4] {
        [0x73u8, 0x63u8, 0x68u8, 0x69u8]
    }

    fn box_type() -> (r: [u8; 4]) {
        [0x73u8, 0x63u8, 0x68u8, 0x69u8]
    }

    open spec fn spec_parse_body(s: Seq<u8>) -> Result<SchemeInformationBoxModel, IsoError> {
        schi_parse(s)
    }

    open spec fn spec_writable(v: SchemeInformationBoxModel) -> bool {
        schi_writable(v)
    }

    open spec fn spec_serialize_body(v: SchemeInformationBoxModel) -> Seq<u8> {
        schi_bytes(v)
    }

    open spec fn spec_canonical(v: SchemeInformationBoxModel) -> bool {
        schi_canonical(v)
    }

    proof fn lemma_box_type() {
        assert(Self::spec_box_type()[0] != spec_uuid_fourcc()[0]);
    }

    proof fn lemma_body_size(x: SchemeInformationBox) {
        lemma_schi_size(x);
    }

    proof fn lemma_body_roundtrip(v: SchemeInformationBoxModel) {
        lemma_schi_roundtrip(v);
    }

    fn parse_body(payload: &[u8]) -> (r: Result<SchemeInformationBox, IsoError>) {
        parse_schi(payload)
    }

    #[verifier::spinoff_prover]
    #[verifier::rlimit(60)]
    fn serialize_body(&self, out: &mut Vec<u8>) -> (r: Result<(), IsoError>) {
        write_schi_children(self, out)
    }
}

/// Scramble scheme information box
///
/// `scrb`
///
/// ISO/IEC 14496-12 - 8.12.11
#[derive(Debug)]
pub struct ScrambleSchemeInfoBox {
    /// The contained [`SchemeTypeBox`]. (mandatory)
    pub scheme_type_box: SchemeTypeBox,
    /// The contained [`SchemeInformationBox`]. (optional)
    pub info: Option<SchemeInformationBox>,
}

/// The model of a [`ScrambleSchemeInfoBox`].
pub struct ScrambleSchemeInfoBoxModel {
    pub scheme_type_box: <SchemeTypeBox as View>::V,
    pub info: Option<<SchemeInformationBox as View>::V>,
}

impl View for ScrambleSchemeInfoBox {
    type V = ScrambleSchemeInfoBoxModel;

    open spec fn view(&self) -> ScrambleSchemeInfoBoxModel {
        ScrambleSchemeInfoBoxModel {
            scheme_type_box: self.scheme_type_box@,
            info: opt_view(self.info),
        }
    }
}

/// Whether a box found in a scrb has one of the types that it reads.
pub open spec fn scrb_known(c: UnknownBoxModel) -> bool {
    is_child::<SchemeTypeBox>(c) || is_child::<SchemeInformationBox>(c)
}

/// The failure of reading a box of a known type found in a scrb.
pub open spec fn scrb_fault(c: UnknownBoxModel) -> Option<IsoError> {
    if is_child::<SchemeTypeBox>(c) {
        child_fault::<SchemeTypeBox>(c)
    }     else if is_child::<SchemeInformationBox>(c) {
        child_fault::<SchemeInformationBox>(c)
    } else {
        None
    }
}

/// What a scrb reads from its payload: the boxes before the first that fails, each box of a known type in its field (the
/// last one for a single field, which must be there where it is required) and every
/// other box kept as it is.
pub open spec fn scrb_parse(s: Seq<u8>) -> Result<ScrambleSchemeInfoBoxModel, IsoError> {
    let cs = spec_children(s);
    match scan_result(cs, |c: UnknownBoxModel| scrb_fault(c)) {
        Err(e) => Err(e),
        Ok(k) => {
            let p = cs.take(k as int);
            match last_child::<SchemeTypeBox>(p) {
                None => Err(IsoError::InvalidData),
                Some(scheme_type_box) => Ok(
                    ScrambleSchemeInfoBoxModel {
                        scheme_type_box: scheme_type_box,
                        info: last_child::<SchemeInformationBox>(p),
                    },
                ),
            }
        },
    }
}

/// The bytes of the boxes that a scrb holds, in the order of its fields.
pub open spec fn scrb_children_bytes(v: ScrambleSchemeInfoBoxModel) -> Seq<u8> {
    nested_box_bytes::<SchemeTypeBox>(v.scheme_type_box)
        + nested_opt_bytes::<SchemeInformationBox>(v.info)
}

/// The boxes, as found in a container, that a scrb writes.
pub open spec fn scrb_models(v: ScrambleSchemeInfoBoxModel) -> Seq<UnknownBoxModel> {
    seq![nested_model::<SchemeTypeBox>(v.scheme_type_box)]
        + nested_opt_models::<SchemeInformationBox>(v.info)
}

/// The payload that a scrb writes.
pub open spec fn scrb_bytes(v: ScrambleSchemeInfoBoxModel) -> Seq<u8> {
    scrb_children_bytes(v)
}

/// Every box of a known type can be written.
pub open spec fn scrb_writable(v: ScrambleSchemeInfoBoxModel) -> bool {
    &&& nested_writable::<SchemeTypeBox>(v.scheme_type_box)
    &&& nested_opt_writable::<SchemeInformationBox>(v.info)
}

/// Every box of a known type reads back as itself, and every other box is of
/// another type and announces exactly its payload.
pub open spec fn scrb_canonical(v: ScrambleSchemeInfoBoxModel) -> bool {
    &&& nested_ok::<SchemeTypeBox>(v.scheme_type_box)
    &&& nested_opt_ok::<SchemeInformationBox>(v.info)
}

impl IsoSized for ScrambleSchemeInfoBox {
    open spec fn spec_size(&self) -> nat {
        add_header_size(self.scheme_type_box.spec_size() + nested_opt_size::<SchemeInformationBox>(self.info))
    }

    fn size(&self) -> (n: usize) {
        let mut n: usize = 0;
        n = n + self.scheme_type_box.size();
        n = n + size_nested_opt(&self.info);
        add_header_size_exec(n)
    }
}

/// The fields of a scrb read so far.
pub struct ScrambleSchemeInfoBoxScan {
    pub scheme_type_box: Option<SchemeTypeBox>,
    pub info: Option<SchemeInformationBox>,
}

/// The model of a [`ScrambleSchemeInfoBoxScan`].
pub struct ScrambleSchemeInfoBoxScanModel {
    pub scheme_type_box: Option<<SchemeTypeBox as View>::V>,
    pub info: Option<<SchemeInformationBox as View>::V>,
}

impl View for ScrambleSchemeInfoBoxScan {
    type V = ScrambleSchemeInfoBoxScanModel;

    open spec fn view(&self) -> ScrambleSchemeInfoBoxScanModel {
        ScrambleSchemeInfoBoxScanModel {
            scheme_type_box: opt_view(self.scheme_type_box),
            info: opt_view(self.info),
        }
    }
}

/// What a scrb holds after reading the boxes of `p`.
pub open spec fn scrb_prefix(p: Seq<UnknownBoxModel>) -> ScrambleSchemeInfoBoxScanModel {
    ScrambleSchemeInfoBoxScanModel {
        scheme_type_box: last_child::<SchemeTypeBox>(p),
        info: last_child::<SchemeInformationBox>(p),
    }
}

/// What a scrb holds after reading one more box that does not fail.
pub open spec fn scrb_extend(m: ScrambleSchemeInfoBoxScanModel, c: UnknownBoxModel) -> ScrambleSchemeInfoBoxScanModel {
    ScrambleSchemeInfoBoxScanModel {
        scheme_type_box: match child_value::<SchemeTypeBox>(c) {
            Some(v) => Some(v),
            None => m.scheme_type_box,
        },
        info: match child_value::<SchemeInformationBox>(c) {
            Some(v) => Some(v),
            None => m.info,
        },
    }
}

/// The types that a scrb reads differ from one another.
pub open spec fn scrb_types_differ() -> bool {
    &&& SchemeTypeBox::spec_box_type() != SchemeInformationBox::spec_box_type()
}

proof fn lemma_scrb_types()
    ensures
        scrb_types_differ(),
{
    assert(SchemeTypeBox::spec_box_type()[3] != SchemeInformationBox::spec_box_type()[3]);
}

/// Reads one box found in a scrb into its field.
#[verifier::spinoff_prover]
#[verifier::rlimit(60)]
fn scrb_step(c: &UnknownBox, acc: &mut ScrambleSchemeInfoBoxScan) -> (r: Result<(), IsoError>)
    requires
        scrb_types_differ(),
    ensures
        match r {
            Ok(()) => scrb_fault(c@) is None && final(acc)@ == scrb_extend(old(acc)@, c@),
            Err(e) => scrb_fault(c@) == Some(e) && final(acc)@ == old(acc)@,
        },
{
    if is_child_exec::<SchemeTypeBox>(c) {
        proof {
            lemma_child_other::<SchemeInformationBox>(c@);
            lemma_child_read::<SchemeTypeBox>(c@);
        }
        let r = replace_into(c, &mut acc.scheme_type_box);
        proof {
            if r is Err {
                assert(acc@ =~= old(acc)@);
            }
            if r is Ok {
                assert(acc@ =~= scrb_extend(old(acc)@, c@));
            }
        }
        r
    } else if is_child_exec::<SchemeInformationBox>(c) {
        proof {
            lemma_child_other::<SchemeTypeBox>(c@);
            lemma_child_read::<SchemeInformationBox>(c@);
        }
        let r = replace_into(c, &mut acc.info);
        proof {
            if r is Err {
                assert(acc@ =~= old(acc)@);
            }
            if r is Ok {
                assert(acc@ =~= scrb_extend(old(acc)@, c@));
            }
        }
        r
    } else {
        proof {
            lemma_child_other::<SchemeTypeBox>(c@);
            lemma_child_other::<SchemeInformationBox>(c@);
        }
        proof {
            assert(acc@ =~= scrb_extend(old(acc)@, c@));
        }
        Ok(())
    }
}

/// Reading one more box extends what was read by it.
proof fn lemma_scrb_prefix_step(css: Seq<UnknownBoxModel>, i: int)
    requires
        0 <= i < css.len(),
    ensures
        scrb_prefix(css.take(i + 1)) == scrb_extend(scrb_prefix(css.take(i)), css[i]),
{
    lemma_collect_step::<SchemeTypeBox>(css, i);
    lemma_collect_step::<SchemeInformationBox>(css, i);
    lemma_unknown_step(css, |c: UnknownBoxModel| scrb_known(c), i);
    let a = scrb_prefix(css.take(i + 1));
    let b = scrb_extend(scrb_prefix(css.take(i)), css[i]);
}

/// Reads the payload of a scrb.
#[verifier::spinoff_prover]
#[verifier::rlimit(60)]
fn parse_scrb(payload: &[u8]) -> (r: Result<ScrambleSchemeInfoBox, IsoError>)
    ensures
        match (scrb_parse(payload@), r) {
            (Ok(v), Ok(x)) => x@ == v,
            (Err(e), Err(f)) => e == f,
            _ => false,
        },
{
    let cs = read_children(payload);
    let ghost css = spec_children(payload@);
    let ghost fault = |c: UnknownBoxModel| scrb_fault(c);
    let mut acc = ScrambleSchemeInfoBoxScan {
        scheme_type_box: None,
        info: None,
    };
    let mut i: usize = 0;
    let mut stop = false;
    proof {
        lemma_scrb_types();
        let e = css.take(0);
        assert(e =~= Seq::<UnknownBoxModel>::empty());
        assert(collect_children::<SchemeTypeBox>(e) =~= Seq::<<SchemeTypeBox as View>::V>::empty());
        assert(collect_children::<SchemeInformationBox>(e) =~= Seq::<<SchemeInformationBox as View>::V>::empty());
        assert(acc@ =~= scrb_prefix(e));
    }
    while i < cs.len() && !stop
        invariant
            views(cs@) == css,
            css == spec_children(payload@),
            fault == (|c: UnknownBoxModel| scrb_fault(c)),
            scrb_types_differ(),
            i <= cs@.len(),
            forall|j: int| 0 <= j < i ==> (#[trigger] fault(css[j])) is None,
            stop ==> i < css.len() && fault(css[i as int]) == Some(IsoError::UnexpectedEof),
            acc@ == scrb_prefix(css.take(i as int)),
        decreases cs@.len() - i + (if stop { 0int } else { 1int }),
    {
        let c = &cs[i];
        proof {
            assert(c@ == css[i as int]);
            lemma_scrb_prefix_step(css, i as int);
        }
        match scrb_step(c, &mut acc) {
            Ok(()) => {
                i = i + 1;
            },
            Err(IsoError::UnexpectedEof) => {
                stop = true;
            },
            Err(e) => {
                proof {
                    lemma_first_fault(css, fault, i as int);
                }
                return Err(e);
            },
        }
    }
    proof {
        lemma_first_fault(css, fault, i as int);
        assert(first_fault(css, fault) == i);
    }
    let ScrambleSchemeInfoBoxScan { scheme_type_box, info } = acc;
    let scheme_type_box = match scheme_type_box {
        Some(x) => x,
        None => {
            return Err(IsoError::InvalidData);
        },
    };
    Ok(ScrambleSchemeInfoBox { scheme_type_box, info })
}

/// Writes the boxes of a scrb in the order of its fields.
#[verifier::spinoff_prover]
#[verifier::rlimit(60)]
fn write_scrb_children(x: &ScrambleSchemeInfoBox, out: &mut Vec<u8>) -> (r: Result<(), IsoError>)
    requires
        x.spec_size() <= usize::MAX,
    ensures
        write_matches(r, scrb_writable(x@), scrb_children_bytes(x@), old(out)@, final(out)@),
{
    let ghost before = out@;
    let ghost v = x@;
    if write_nested(&x.scheme_type_box, out).is_err() {
        return Err(IsoError::InvalidData);
    }
    let ghost m1 = out@;
    proof {
        lemma_append_prefix(before, nested_box_bytes::<SchemeTypeBox>(v.scheme_type_box));
    }
    if write_nested_opt(&x.info, out).is_err() {
        proof {
            lemma_prefix_trans(before, m1, out@);
        }
        return Err(IsoError::InvalidData);
    }
    let ghost m2 = out@;
    proof {
        lemma_append_prefix(m1, nested_opt_bytes::<SchemeInformationBox>(v.info));
        lemma_prefix_trans(before, m1, m2);
    }
    proof {
        let l1 = nested_box_bytes::<SchemeTypeBox>(v.scheme_type_box);
        assert(m1 == before + l1);
        let l2 = l1 + nested_opt_bytes::<SchemeInformationBox>(v.info);
        vstd::seq_lib::lemma_concat_associative(before, l1, nested_opt_bytes::<SchemeInformationBox>(v.info));
        assert(m2 == before + l2);
        assert(scrb_children_bytes(v) == l2);
        lemma_append_prefix(before, scrb_children_bytes(v));
    }
    Ok(())
}

/// The boxes that a scrb writes, read from their bytes one list after the other.
#[verifier::spinoff_prover]
#[verifier::rlimit(100)]
proof fn lemma_scrb_children_chain(v: ScrambleSchemeInfoBoxModel)
    requires
        scrb_canonical(v),
    ensures
        spec_children(nested_box_bytes::<SchemeTypeBox>(v.scheme_type_box) + (nested_opt_bytes::<SchemeInformationBox>(v.info))) == seq![nested_model::<SchemeTypeBox>(v.scheme_type_box)] + (nested_opt_models::<SchemeInformationBox>(v.info)),
{
    let b0 = nested_box_bytes::<SchemeTypeBox>(v.scheme_type_box);
    let s0 = seq![nested_model::<SchemeTypeBox>(v.scheme_type_box)];
    let b1 = nested_opt_bytes::<SchemeInformationBox>(v.info);
    let s1 = nested_opt_models::<SchemeInformationBox>(v.info);
    crate::children::lemma_children_empty();
    let t1 = b1;
    let u1 = s1;
    assert(b1 + Seq::<u8>::empty() =~= b1);
    assert(s1 + Seq::<UnknownBoxModel>::empty() =~= s1);
    lemma_nested_opt_seq::<SchemeInformationBox>(v.info, Seq::<u8>::empty());
    assert(spec_children(t1) == u1);
    let t0 = b0 + t1;
    let u0 = s0 + u1;
    lemma_nested_cons::<SchemeTypeBox>(v.scheme_type_box, t1);
    assert(spec_children(t0) == u0);
}

/// The boxes that a scrb writes read back as their models.
#[verifier::spinoff_prover]
#[verifier::rlimit(100)]
proof fn lemma_scrb_children(v: ScrambleSchemeInfoBoxModel)
    requires
        scrb_canonical(v),
    ensures
        spec_children(scrb_children_bytes(v)) == scrb_models(v),
{
    lemma_scrb_children_chain(v);
    let b0 = nested_box_bytes::<SchemeTypeBox>(v.scheme_type_box);
    let s0 = seq![nested_model::<SchemeTypeBox>(v.scheme_type_box)];
    let b1 = nested_opt_bytes::<SchemeInformationBox>(v.info);
    let s1 = nested_opt_models::<SchemeInformationBox>(v.info);
    let t1 = b1;
    let u1 = s1;
    let t0 = b0 + t1;
    let u0 = s0 + u1;
    let t2 = Seq::<u8>::empty();
    let u2 = Seq::<UnknownBoxModel>::empty();
    assert(b1 + t2 =~= t1);
    assert(s1 + u2 =~= u1);
    let l0 = Seq::<u8>::empty();
    let k0 = Seq::<UnknownBoxModel>::empty();
    assert(l0 + t0 =~= t0);
    assert(k0 + u0 =~= u0);
    let l1 = b0;
    let k1 = s0;
    assert(l1 + t1 == l0 + t0);
    assert(k1 + u1 == k0 + u0);
    let l2 = l1 + b1;
    let k2 = k1 + s1;
    vstd::seq_lib::lemma_concat_associative(l1, b1, t2);
    vstd::seq_lib::lemma_concat_associative(k1, s1, u2);
    assert(l2 + t2 == l1 + t1);
    assert(k2 + u2 == k1 + u1);
    assert(l2 + t2 =~= l2);
    assert(k2 + u2 =~= k2);
    assert(scrb_children_bytes(v) == l2);
    assert(scrb_models(v) == k2);
}

/// No box that a scrb writes fails to read.
#[verifier::spinoff_prover]
#[verifier::rlimit(60)]
proof fn lemma_scrb_no_fault(v: ScrambleSchemeInfoBoxModel, j: int)
    requires
        scrb_canonical(v),
        scrb_types_differ(),
        0 <= j < scrb_models(v).len(),
    ensures
        scrb_fault(scrb_models(v)[j]) is None,
{
    let cs = scrb_models(v);
    let s0 = seq![nested_model::<SchemeTypeBox>(v.scheme_type_box)];
    let s1 = nested_opt_models::<SchemeInformationBox>(v.info);
    let n0: int = 0;
    let n1: int = n0 + s0.len();
    let n2: int = n1 + s1.len();
    if j < n1 {
        assert(cs[j] == s0[j - n0]);
        lemma_nested_cons::<SchemeTypeBox>(v.scheme_type_box, Seq::empty());
    } else if j < n2 {
        assert(cs[j] == s1[j - n1]);
        lemma_nested_cons::<SchemeInformationBox>(v.info.unwrap(), Seq::empty());
    }
}

/// Collecting over the lists of a scrb one after the other collects over each in
/// turn.
proof fn lemma_scrb_split<T: BoxBody>(m0: Seq<UnknownBoxModel>, m1: Seq<UnknownBoxModel>)
    ensures
        collect_children::<T>(m0 + m1) == collect_children::<T>(m0) + collect_children::<T>(m1),
{
    lemma_collect_add::<T>(m0, m1);
}

/// The boxes that a scrb writes collect back into its field `scheme_type_box`.
#[verifier::spinoff_prover]
#[verifier::rlimit(60)]
proof fn lemma_scrb_collect_scheme_type_box(v: ScrambleSchemeInfoBoxModel)
    requires
        scrb_canonical(v),
        scrb_types_differ(),
    ensures
        collect_children::<SchemeTypeBox>(scrb_models(v)) == seq![v.scheme_type_box],
{
    lemma_scrb_split::<SchemeTypeBox>(seq![nested_model::<SchemeTypeBox>(v.scheme_type_box)], nested_opt_models::<SchemeInformationBox>(v.info));
    lemma_nested_opt_own::<SchemeTypeBox>(Some(v.scheme_type_box));
    assert(nested_opt_models::<SchemeTypeBox>(Some(v.scheme_type_box)) == seq![nested_model::<SchemeTypeBox>(v.scheme_type_box)]);
    lemma_nested_opt_other::<SchemeTypeBox, SchemeInformationBox>(v.info);
    assert(collect_children::<SchemeTypeBox>(scrb_models(v)) =~= seq![v.scheme_type_box]);
}

/// The boxes that a scrb writes collect back into its field `info`.
#[verifier::spinoff_prover]
#[verifier::rlimit(60)]
proof fn lemma_scrb_collect_info(v: ScrambleSchemeInfoBoxModel)
    requires
        scrb_canonical(v),
        scrb_types_differ(),
    ensures
        collect_children::<SchemeInformationBox>(scrb_models(v)) == opt_seq(v.info),
{
    lemma_scrb_split::<SchemeInformationBox>(seq![nested_model::<SchemeTypeBox>(v.scheme_type_box)], nested_opt_models::<SchemeInformationBox>(v.info));
    lemma_nested_opt_other::<SchemeInformationBox, SchemeTypeBox>(Some(v.scheme_type_box));
    assert(nested_opt_models::<SchemeTypeBox>(Some(v.scheme_type_box)) == seq![nested_model::<SchemeTypeBox>(v.scheme_type_box)]);
    lemma_nested_opt_own::<SchemeInformationBox>(v.info);
    assert(collect_children::<SchemeInformationBox>(scrb_models(v)) =~= opt_seq(v.info));
}

/// Writing a scrb and reading its payload back gives it again.
#[verifier::spinoff_prover]
#[verifier::rlimit(100)]
proof fn lemma_scrb_roundtrip(v: ScrambleSchemeInfoBoxModel)
    requires
        scrb_canonical(v),
    ensures
        scrb_parse(scrb_bytes(v)) == Ok::<ScrambleSchemeInfoBoxModel, IsoError>(v),
{
    let s = scrb_bytes(v);
    lemma_scrb_children(v);
    lemma_scrb_types();
    let cs = scrb_models(v);
    let fault = |c: UnknownBoxModel| scrb_fault(c);
    assert forall|j: int| 0 <= j < cs.len() implies (#[trigger] fault(cs[j])) is None by {
        lemma_scrb_no_fault(v, j);
    }
    lemma_first_fault(cs, fault, cs.len() as int);
    assert(cs.take(cs.len() as int) =~= cs);
    lemma_scrb_collect_scheme_type_box(v);
    lemma_scrb_collect_info(v);
    assert(spec_children(s) == cs);
    assert(last_child::<SchemeTypeBox>(cs) == Some(v.scheme_type_box));
    assert(last_child::<SchemeInformationBox>(cs) == v.info);
}

/// For a value that reads back as itself, the size is that of its payload and header.
#[verifier::spinoff_prover]
#[verifier::rlimit(60)]
proof fn lemma_scrb_size(x: ScrambleSchemeInfoBox)
    requires
        scrb_canonical(x@),
    ensures
        x.scheme_type_box.spec_size() + nested_opt_size::<SchemeInformationBox>(x.info) == scrb_bytes(x@).len(),
{
    let v = x@;
    lemma_nested_size::<SchemeTypeBox>(x.scheme_type_box);
    lemma_nested_opt_size::<SchemeInformationBox>(x.info);
}

impl BoxBody for ScrambleSchemeInfoBox {
    open spec fn spec_box_type() -> [u8; 4] {
        [0x73u8, 0x63u8, 0x72u8, 0x62u8]
    }

    fn box_type() -> (r: [u8; 4]) {
        [0x73u8, 0x63u8, 0x72u8, 0x62u8]
    }

    open spec fn spec_parse_body(s: Seq<u8>) -> Result<ScrambleSchemeInfoBoxModel, IsoError> {
        scrb_parse(s)
    }

    open spec fn spec_writable(v: ScrambleSchemeInfoBoxModel) -> bool {
        scrb_writable(v)
    }

    open spec fn spec_serialize_body(v: ScrambleSchemeInfoBoxModel) -> Seq<u8> {
        scrb_bytes(v)
    }

    open spec fn spec_canonical(v: ScrambleSchemeInfoBoxModel) -> bool {
        scrb_canonical(v)
    }

    proof fn lemma_box_type() {
        assert(Self::spec_box_type()[0] != spec_uuid_fourcc()[0]);
    }

    proof fn lemma_body_size(x: ScrambleSchemeInfoBox) {
        lemma_scrb_size(x);
    }

    proof fn lemma_body_roundtrip(v: ScrambleSchemeInfoBoxModel) {
        lemma_scrb_roundtrip(v);
    }

    fn parse_body(payload: &[u8]) -> (r: Result<ScrambleSchemeInfoBox, IsoError>) {
        parse_scrb(payload)
    }

    #[verifier::spinoff_prover]
    #[verifier::rlimit(60)]
    fn serialize_body(&self, out: &mut Vec<u8>) -> (r: Result<(), IsoError>) {
        write_scrb_children(self, out)
    }
}

/// Protection scheme information box
///
/// `sinf`
///
/// ISO/IEC 14496-12 - 8.12.2
#[derive(Debug)]
pub struct ProtectionSchemeInfoBox {
    /// The contained [`OriginalFormatBox`]. (mandatory)
    pub orginal_format: OriginalFormatBox,
    /// The contained [`SchemeTypeBox`]. (optional)
    pub scheme_type: Option<SchemeTypeBox>,
    /// The contained [`SchemeInformationBox`]. (optional)
    pub info: Option<SchemeInformationBox>,
}

/// The model of a [`ProtectionSchemeInfoBox`].
pub struct ProtectionSchemeInfoBoxModel {
    pub orginal_format: <OriginalFormatBox as View>::V,
    pub scheme_type: Option<<SchemeTypeBox as View>::V>,
    pub info: Option<<SchemeInformationBox as View>::V>,
}

impl View for ProtectionSchemeInfoBox {
    type V = ProtectionSchemeInfoBoxModel;

    open spec fn view(&self) -> ProtectionSchemeInfoBoxModel {
        ProtectionSchemeInfoBoxModel {
            orginal_format: self.orginal_format@,
            scheme_type: opt_view(self.scheme_type),
            info: opt_view(self.info),
        }
    }
}

/// Whether a box found in a sinf has one of the types that it reads.
pub open spec fn sinf_known(c: UnknownBoxModel) -> bool {
    is_child::<OriginalFormatBox>(c) || is_child::<SchemeTypeBox>(c) || is_child::<SchemeInformationBox>(c)
}

/// The failure of reading a box of a known type found in a sinf.
pub open spec fn sinf_fault(c: UnknownBoxModel) -> Option<IsoError> {
    if is_child::<OriginalFormatBox>(c) {
        child_fault::<OriginalFormatBox>(c)
    }     else if is_child::<SchemeTypeBox>(c) {
        child_fault::<SchemeTypeBox>(c)
    }     else if is_child::<SchemeInformationBox>(c) {
        child_fault::<SchemeInformationBox>(c)
    } else {
        None
    }
}

/// What a sinf reads from its payload: the boxes before the first that fails, each box of a known type in its field (the
/// last one for a single field, which must be there where it is required) and every
/// other box kept as it is.
pub open spec fn sinf_parse(s: Seq<u8>) -> Result<ProtectionSchemeInfoBoxModel, IsoError> {
    let cs = spec_children(s);
    match scan_result(cs, |c: UnknownBoxModel| sinf_fault(c)) {
        Err(e) => Err(e),
        Ok(k) => {
            let p = cs.take(k as int);
            match last_child::<OriginalFormatBox>(p) {
                None => Err(IsoError::InvalidData),
                Some(orginal_format) => Ok(
                    ProtectionSchemeInfoBoxModel {
                        orginal_format: orginal_format,
                        scheme_type: last_child::<SchemeTypeBox>(p),
                        info: last_child::<SchemeInformationBox>(p),
                    },
                ),
            }
        },
    }
}

/// The bytes of the boxes that a sinf holds, in the order of its fields.
pub open spec fn sinf_children_bytes(v: ProtectionSchemeInfoBoxModel) -> Seq<u8> {
    nested_box_bytes::<OriginalFormatBox>(v.orginal_format)
        + nested_opt_bytes::<SchemeTypeBox>(v.scheme_type)
        + nested_opt_bytes::<SchemeInformationBox>(v.info)
}

/// The boxes, as found in a container, that a sinf writes.
pub open spec fn sinf_models(v: ProtectionSchemeInfoBoxModel) -> Seq<UnknownBoxModel> {
    seq![nested_model::<OriginalFormatBox>(v.orginal_format)]
        + nested_opt_models::<SchemeTypeBox>(v.scheme_type)
        + nested_opt_models::<SchemeInformationBox>(v.info)
}

/// The payload that a sinf writes.
pub open spec fn sinf_bytes(v: ProtectionSchemeInfoBoxModel) -> Seq<u8> {
    sinf_children_bytes(v)
}

/// Every box of a known type can be written.
pub open spec fn sinf_writable(v: ProtectionSchemeInfoBoxModel) -> bool {
    &&& nested_writable::<OriginalFormatBox>(v.orginal_format)
    &&& nested_opt_writable::<SchemeTypeBox>(v.scheme_type)
    &&& nested_opt_writable::<SchemeInformationBox>(v.info)
}

/// Every box of a known type reads back as itself, and every other box is of
/// another type and announces exactly its payload.
pub open spec fn sinf_canonical(v: ProtectionSchemeInfoBoxModel) -> bool {
    &&& nested_ok::<OriginalFormatBox>(v.orginal_format)
    &&& nested_opt_ok::<SchemeTypeBox>(v.scheme_type)
    &&& nested_opt_ok::<SchemeInformationBox>(v.info)
}

impl IsoSized for ProtectionSchemeInfoBox {
    open spec fn spec_size(&self) -> nat {
        add_header_size(self.orginal_format.spec_size() + nested_opt_size::<SchemeTypeBox>(self.scheme_type) + nested_opt_size::<SchemeInformationBox>(self.info))
    }

    fn size(&self) -> (n: usize) {
        let mut n: usize = 0;
        n = n + self.orginal_format.size();
        n = n + size_nested_opt(&self.scheme_type);
        n = n + size_nested_opt(&self.info);
        add_header_size_exec(n)
    }
}

/// The fields of a sinf read so far.
pub struct ProtectionSchemeInfoBoxScan {
    pub orginal_format: Option<OriginalFormatBox>,
    pub scheme_type: Option<SchemeTypeBox>,
    pub info: Option<SchemeInformationBox>,
}

/// The model of a [`ProtectionSchemeInfoBoxScan`].
pub struct ProtectionSchemeInfoBoxScanModel {
    pub orginal_format: Option<<OriginalFormatBox as View>::V>,
    pub scheme_type: Option<<SchemeTypeBox as View>::V>,
    pub info: Option<<SchemeInformationBox as View>::V>,
}

impl View for ProtectionSchemeInfoBoxScan {
    type V = ProtectionSchemeInfoBoxScanModel;

    open spec fn view(&self) -> ProtectionSchemeInfoBoxScanModel {
        ProtectionSchemeInfoBoxScanModel {
            orginal_format: opt_view(self.orginal_format),
            scheme_type: opt_view(self.scheme_type),
            info: opt_view(self.info),
        }
    }
}

/// What a sinf holds after reading the boxes of `p`.
pub open spec fn sinf_prefix(p: Seq<UnknownBoxModel>) -> ProtectionSchemeInfoBoxScanModel {
    ProtectionSchemeInfoBoxScanModel {
        orginal_format: last_child::<OriginalFormatBox>(p),
        scheme_type: last_child::<SchemeTypeBox>(p),
        info: last_child::<SchemeInformationBox>(p),
    }
}

/// What a sinf holds after reading one more box that does not fail.
pub open spec fn sinf_extend(m: ProtectionSchemeInfoBoxScanModel, c: UnknownBoxModel) -> ProtectionSchemeInfoBoxScanModel {
    ProtectionSchemeInfoBoxScanModel {
        orginal_format: match child_value::<OriginalFormatBox>(c) {
            Some(v) => Some(v),
            None => m.orginal_format,
        },
        scheme_type: match child_value::<SchemeTypeBox>(c) {
            Some(v) => Some(v),
            None => m.scheme_type,
        },
        info: match child_value::<SchemeInformationBox>(c) {
            Some(v) => Some(v),
            None => m.info,
        },
    }
}

/// The types that a sinf reads differ from one another.
pub open spec fn sinf_types_differ() -> bool {
    &&& OriginalFormatBox::spec_box_type() != SchemeTypeBox::spec_box_type()
    &&& OriginalFormatBox::spec_box_type() != SchemeInformationBox::spec_box_type()
    &&& SchemeTypeBox::spec_box_type() != SchemeInformationBox::spec_box_type()
}

proof fn lemma_sinf_types()
    ensures
        sinf_types_differ(),
{
    assert(OriginalFormatBox::spec_box_type()[0] != SchemeTypeBox::spec_box_type()[0]);
    assert(OriginalFormatBox::spec_box_type()[0] != SchemeInformationBox::spec_box_type()[0]);
    assert(SchemeTypeBox::spec_box_type()[3] != SchemeInformationBox::spec_box_type()[3]);
}

/// Reads one box found in a sinf into its field.
#[verifier::spinoff_prover]
#[verifier::rlimit(60)]
fn sinf_step(c: &UnknownBox, acc: &mut ProtectionSchemeInfoBoxScan) -> (r: Result<(), IsoError>)
    requires
        sinf_types_differ(),
    ensures
        match r {
            Ok(()) => sinf_fault(c@) is None && final(acc)@ == sinf_extend(old(acc)@, c@),
            Err(e) => sinf_fault(c@) == Some(e) && final(acc)@ == old(acc)@,
        },
{
    if is_child_exec::<OriginalFormatBox>(c) {
        proof {
            lemma_child_other::<SchemeTypeBox>(c@);
            lemma_child_other::<SchemeInformationBox>(c@);
            lemma_child_read::<OriginalFormatBox>(c@);
        }
        let r = replace_into(c, &mut acc.orginal_format);
        proof {
            if r is Err {
                assert(acc@ =~= old(acc)@);
            }
            if r is Ok {
                assert(acc@ =~= sinf_extend(old(acc)@, c@));
            }
        }
        r
    } else if is_child_exec::<SchemeTypeBox>(c) {
        proof {
            lemma_child_other::<OriginalFormatBox>(c@);
            lemma_child_other::<SchemeInformationBox>(c@);
            lemma_child_read::<SchemeTypeBox>(c@);
        }
        let r = replace_into(c, &mut acc.scheme_type);
        proof {
            if r is Err {
                assert(acc@ =~= old(acc)@);
            }
            if r is Ok {
                assert(acc@ =~= sinf_extend(old(acc)@, c@));
            }
        }
        r
    } else if is_child_exec::<SchemeInformationBox>(c) {
        proof {
            lemma_child_other::<OriginalFormatBox>(c@);
            lemma_child_other::<SchemeTypeBox>(c@);
            lemma_child_read::<SchemeInformationBox>(c@);
        }
        let r = replace_into(c, &mut acc.info);
        proof {
            if r is Err {
                assert(acc@ =~= old(acc)@);
            }
            if r is Ok {
                assert(acc@ =~= sinf_extend(old(acc)@, c@));
            }
        }
        r
    } else {
        proof {
            lemma_child_other::<OriginalFormatBox>(c@);
            lemma_child_other::<SchemeTypeBox>(c@);
            lemma_child_other::<SchemeInformationBox>(c@);
        }
        proof {
            assert(acc@ =~= sinf_extend(old(acc)@, c@));
        }
        Ok(())
    }
}

/// Reading one more box extends what was read by it.
proof fn lemma_sinf_prefix_step(css: Seq<UnknownBoxModel>, i: int)
    requires
        0 <= i < css.len(),
    ensures
        sinf_prefix(css.take(i + 1)) == sinf_extend(sinf_prefix(css.take(i)), css[i]),
{
    lemma_collect_step::<OriginalFormatBox>(css, i);
    lemma_collect_step::<SchemeTypeBox>(css, i);
    lemma_collect_step::<SchemeInformationBox>(css, i);
    lemma_unknown_step(css, |c: UnknownBoxModel| sinf_known(c), i);
    let a = sinf_prefix(css.take(i + 1));
    let b = sinf_extend(sinf_prefix(css.take(i)), css[i]);
}

/// Reads the payload of a sinf.
#[verifier::spinoff_prover]
#[verifier::rlimit(60)]
fn parse_sinf(payload: &[u8]) -> (r: Result<ProtectionSchemeInfoBox, IsoError>)
    ensures
        match (sinf_parse(payload@), r) {
            (Ok(v), Ok(x)) => x@ == v,
            (Err(e), Err(f)) => e == f,
            _ => false,
        },
{
    let cs = read_children(payload);
    let ghost css = spec_children(payload@);
    let ghost fault = |c: UnknownBoxModel| sinf_fault(c);
    let mut acc = ProtectionSchemeInfoBoxScan {
        orginal_format: None,
        scheme_type: None,
        info: None,
    };
    let mut i: usize = 0;
    let mut stop = false;
    proof {
        lemma_sinf_types();
        let e = css.take(0);
        assert(e =~= Seq::<UnknownBoxModel>::empty());
        assert(collect_children::<OriginalFormatBox>(e) =~= Seq::<<OriginalFormatBox as View>::V>::empty());
        assert(collect_children::<SchemeTypeBox>(e) =~= Seq::<<SchemeTypeBox as View>::V>::empty());
        assert(collect_children::<SchemeInformationBox>(e) =~= Seq::<<SchemeInformationBox as View>::V>::empty());
        assert(acc@ =~= sinf_prefix(e));
    }
    while i < cs.len() && !stop
        invariant
            views(cs@) == css,
            css == spec_children(payload@),
            fault == (|c: UnknownBoxModel| sinf_fault(c)),
            sinf_types_differ(),
            i <= cs@.len(),
            forall|j: int| 0 <= j < i ==> (#[trigger] fault(css[j])) is None,
            stop ==> i < css.len() && fault(css[i as int]) == Some(IsoError::UnexpectedEof),
            acc@ == sinf_prefix(css.take(i as int)),
        decreases cs@.len() - i + (if stop { 0int } else { 1int }),
    {
        let c = &cs[i];
        proof {
            assert(c@ == css[i as int]);
            lemma_sinf_prefix_step(css, i as int);
        }
        match sinf_step(c, &mut acc) {
            Ok(()) => {
                i = i + 1;
            },
            Err(IsoError::UnexpectedEof) => {
                stop = true;
            },
            Err(e) => {
                proof {
                    lemma_first_fault(css, fault, i as int);
                }
                return Err(e);
            },
        }
    }
    proof {
        lemma_first_fault(css, fault, i as int);
        assert(first_fault(css, fault) == i);
    }
    let ProtectionSchemeInfoBoxScan { orginal_format, scheme_type, info } = acc;
    let orginal_format = match orginal_format {
        Some(x) => x,
        None => {
            return Err(IsoError::InvalidData);
        },
    };
    Ok(ProtectionSchemeInfoBox { orginal_format, scheme_type, info })
}

/// Writes the boxes of a sinf in the order of its fields.
#[verifier::spinoff_prover]
#[verifier::rlimit(60)]
fn write_sinf_children(x: &ProtectionSchemeInfoBox, out: &mut Vec<u8>) -> (r: Result<(), IsoError>)
    requires
        x.spec_size() <= usize::MAX,
    ensures
        write_matches(r, sinf_writable(x@), sinf_children_bytes(x@), old(out)@, final(out)@),
{
    let ghost before = out@;
    let ghost v = x@;
    if write_nested(&x.orginal_format, out).is_err() {
        return Err(IsoError::InvalidData);
    }
    let ghost m1 = out@;
    proof {
        lemma_append_prefix(before, nested_box_bytes::<OriginalFormatBox>(v.orginal_format));
    }
    if write_nested_opt(&x.scheme_type, out).is_err() {
        proof {
            lemma_prefix_trans(before, m1, out@);
        }
        return Err(IsoError::InvalidData);
    }
    let ghost m2 = out@;
    proof {
        lemma_append_prefix(m1, nested_opt_bytes::<SchemeTypeBox>(v.scheme_type));
        lemma_prefix_trans(before, m1, m2);
    }
    if write_nested_opt(&x.info, out).is_err() {
        proof {
            lemma_prefix_trans(before, m2, out@);
        }
        return Err(IsoError::InvalidData);
    }
    let ghost m3 = out@;
    proof {
        lemma_append_prefix(m2, nested_opt_bytes::<SchemeInformationBox>(v.info));
        lemma_prefix_trans(before, m2, m3);
    }
    proof {
        let l1 = nested_box_bytes::<OriginalFormatBox>(v.orginal_format);
        assert(m1 == before + l1);
        let l2 = l1 + nested_opt_bytes::<SchemeTypeBox>(v.scheme_type);
        vstd::seq_lib::lemma_concat_associative(before, l1, nested_opt_bytes::<SchemeTypeBox>(v.scheme_type));
        assert(m2 == before + l2);
        let l3 = l2 + nested_opt_bytes::<SchemeInformationBox>(v.info);
        vstd::seq_lib::lemma_concat_associative(before, l2, nested_opt_bytes::<SchemeInformationBox>(v.info));
        assert(m3 == before + l3);
        assert(sinf_children_bytes(v) == l3);
        lemma_append_prefix(before, sinf_children_bytes(v));
    }
    Ok(())
}

/// The boxes that a sinf writes, read from their bytes one list after the other.
#[verifier::spinoff_prover]
#[verifier::rlimit(100)]
proof fn lemma_sinf_children_chain(v: ProtectionSchemeInfoBoxModel)
    requires
        sinf_canonical(v),
    ensures
        spec_children(nested_box_bytes::<OriginalFormatBox>(v.orginal_format) + (nested_opt_bytes::<SchemeTypeBox>(v.scheme_type) + (nested_opt_bytes::<SchemeInformationBox>(v.info)))) == seq![nested_model::<OriginalFormatBox>(v.orginal_format)] + (nested_opt_models::<SchemeTypeBox>(v.scheme_type) + (nested_opt_models::<SchemeInformationBox>(v.info))),
{
    let b0 = nested_box_bytes::<OriginalFormatBox>(v.orginal_format);
    let s0 = seq![nested_model::<OriginalFormatBox>(v.orginal_format)];
    let b1 = nested_opt_bytes::<SchemeTypeBox>(v.scheme_type);
    let s1 = nested_opt_models::<SchemeTypeBox>(v.scheme_type);
    let b2 = nested_opt_bytes::<SchemeInformationBox>(v.info);
    let s2 = nested_opt_models::<SchemeInformationBox>(v.info);
    crate::children::lemma_children_empty();
    let t2 = b2;
    let u2 = s2;
    assert(b2 + Seq::<u8>::empty() =~= b2);
    assert(s2 + Seq::<UnknownBoxModel>::empty() =~= s2);
    lemma_nested_opt_seq::<SchemeInformationBox>(v.info, Seq::<u8>::empty());
    assert(spec_children(t2) == u2);
    let t1 = b1 + t2;
    let u1 = s1 + u2;
    lemma_nested_opt_seq::<SchemeTypeBox>(v.scheme_type, t2);
    assert(spec_children(t1) == u1);
    let t0 = b0 + t1;
    let u0 = s0 + u1;
    lemma_nested_cons::<OriginalFormatBox>(v.orginal_format, t1);
    assert(spec_children(t0) == u0);
}

/// The boxes that a sinf writes read back as their models.
#[verifier::spinoff_prover]
#[verifier::rlimit(100)]
proof fn lemma_sinf_children(v: ProtectionSchemeInfoBoxModel)
    requires
        sinf_canonical(v),
    ensures
        spec_children(sinf_children_bytes(v)) == sinf_models(v),
{
    lemma_sinf_children_chain(v);
    let b0 = nested_box_bytes::<OriginalFormatBox>(v.orginal_format);
    let s0 = seq![nested_model::<OriginalFormatBox>(v.orginal_format)];
    let b1 = nested_opt_bytes::<SchemeTypeBox>(v.scheme_type);
    let s1 = nested_opt_models::<SchemeTypeBox>(v.scheme_type);
    let b2 = nested_opt_bytes::<SchemeInformationBox>(v.info);
    let s2 = nested_opt_models::<SchemeInformationBox>(v.info);
    let t2 = b2;
    let u2 = s2;
    let t1 = b1 + t2;
    let u1 = s1 + u2;
    let t0 = b0 + t1;
    let u0 = s0 + u1;
    let t3 = Seq::<u8>::empty();
    let u3 = Seq::<UnknownBoxModel>::empty();
    assert(b2 + t3 =~= t2);
    assert(s2 + u3 =~= u2);
    let l0 = Seq::<u8>::empty();
    let k0 = Seq::<UnknownBoxModel>::empty();
    assert(l0 + t0 =~= t0);
    assert(k0 + u0 =~= u0);
    let l1 = b0;
    let k1 = s0;
    assert(l1 + t1 == l0 + t0);
    assert(k1 + u1 == k0 + u0);
    let l2 = l1 + b1;
    let k2 = k1 + s1;
    vstd::seq_lib::lemma_concat_associative(l1, b1, t2);
    vstd::seq_lib::lemma_concat_associative(k1, s1, u2);
    assert(l2 + t2 == l1 + t1);
    assert(k2 + u2 == k1 + u1);
    let l3 = l2 + b2;
    let k3 = k2 + s2;
    vstd::seq_lib::lemma_concat_associative(l2, b2, t3);
    vstd::seq_lib::lemma_concat_associative(k2, s2, u3);
    assert(l3 + t3 == l2 + t2);
    assert(k3 + u3 == k2 + u2);
    assert(l3 + t3 =~= l3);
    assert(k3 + u3 =~= k3);
    assert(sinf_children_bytes(v) == l3);
    assert(sinf_models(v) == k3);
}

/// No box that a sinf writes fails to read.
#[verifier::spinoff_prover]
#[verifier::rlimit(60)]
proof fn lemma_sinf_no_fault(v: ProtectionSchemeInfoBoxModel, j: int)
    requires
        sinf_canonical(v),
        sinf_types_differ(),
        0 <= j < sinf_models(v).len(),
    ensures
        sinf_fault(sinf_models(v)[j]) is None,
{
    let cs = sinf_models(v);
    let s0 = seq![nested_model::<OriginalFormatBox>(v.orginal_format)];
    let s1 = nested_opt_models::<SchemeTypeBox>(v.scheme_type);
    let s2 = nested_opt_models::<SchemeInformationBox>(v.info);
    let n0: int = 0;
    let n1: int = n0 + s0.len();
    let n2: int = n1 + s1.len();
    let n3: int = n2 + s2.len();
    if j < n1 {
        assert(cs[j] == s0[j - n0]);
        lemma_nested_cons::<OriginalFormatBox>(v.orginal_format, Seq::empty());
    } else if j < n2 {
        assert(cs[j] == s1[j - n1]);
        lemma_nested_cons::<SchemeTypeBox>(v.scheme_type.unwrap(), Seq::empty());
    } else if j < n3 {
        assert(cs[j] == s2[j - n2]);
        lemma_nested_cons::<SchemeInformationBox>(v.info.unwrap(), Seq::empty());
    }
}

/// Collecting over the lists of a sinf one after the other collects over each in
/// turn.
proof fn lemma_sinf_split<T: BoxBody>(m0: Seq<UnknownBoxModel>, m1: Seq<UnknownBoxModel>, m2: Seq<UnknownBoxModel>)
    ensures
        collect_children::<T>(m0 + m1 + m2) == collect_children::<T>(m0) + collect_children::<T>(m1) + collect_children::<T>(m2),
{
    lemma_collect_add::<T>(m0 + m1, m2);
    lemma_collect_add::<T>(m0, m1);
}

/// The boxes that a sinf writes collect back into its field `orginal_format`.
#[verifier::spinoff_prover]
#[verifier::rlimit(60)]
proof fn lemma_sinf_collect_orginal_format(v: ProtectionSchemeInfoBoxModel)
    requires
        sinf_canonical(v),
        sinf_types_differ(),
    ensures
        collect_children::<OriginalFormatBox>(sinf_models(v)) == seq![v.orginal_format],
{
    lemma_sinf_split::<OriginalFormatBox>(seq![nested_model::<OriginalFormatBox>(v.orginal_format)], nested_opt_models::<SchemeTypeBox>(v.scheme_type), nested_opt_models::<SchemeInformationBox>(v.info));
    lemma_nested_opt_own::<OriginalFormatBox>(Some(v.orginal_format));
    assert(nested_opt_models::<OriginalFormatBox>(Some(v.orginal_format)) == seq![nested_model::<OriginalFormatBox>(v.orginal_format)]);
    lemma_nested_opt_other::<OriginalFormatBox, SchemeTypeBox>(v.scheme_type);
    lemma_nested_opt_other::<OriginalFormatBox, SchemeInformationBox>(v.info);
    assert(collect_children::<OriginalFormatBox>(sinf_models(v)) =~= seq![v.orginal_format]);
}

/// The boxes that a sinf writes collect back into its field `scheme_type`.
#[verifier::spinoff_prover]
#[verifier::rlimit(60)]
proof fn lemma_sinf_collect_scheme_type(v: ProtectionSchemeInfoBoxModel)
    requires
        sinf_canonical(v),
        sinf_types_differ(),
    ensures
        collect_children::<SchemeTypeBox>(sinf_models(v)) == opt_seq(v.scheme_type),
{
    lemma_sinf_split::<SchemeTypeBox>(seq![nested_model::<OriginalFormatBox>(v.orginal_format)], nested_opt_models::<SchemeTypeBox>(v.scheme_type), nested_opt_models::<SchemeInformationBox>(v.info));
    lemma_nested_opt_other::<SchemeTypeBox, OriginalFormatBox>(Some(v.orginal_format));
    assert(nested_opt_models::<OriginalFormatBox>(Some(v.orginal_format)) == seq![nested_model::<OriginalFormatBox>(v.orginal_format)]);
    lemma_nested_opt_own::<SchemeTypeBox>(v.scheme_type);
    lemma_nested_opt_other::<SchemeTypeBox, SchemeInformationBox>(v.info);
    assert(collect_children::<SchemeTypeBox>(sinf_models(v)) =~= opt_seq(v.scheme_type));
}

/// The boxes that a sinf writes collect back into its field `info`.
#[verifier::spinoff_prover]
#[verifier::rlimit(60)]
proof fn lemma_sinf_collect_info(v: ProtectionSchemeInfoBoxModel)
    requires
        sinf_canonical(v),
        sinf_types_differ(),
    ensures
        collect_children::<SchemeInformationBox>(sinf_models(v)) == opt_seq(v.info),
{
    lemma_sinf_split::<SchemeInformationBox>(seq![nested_model::<OriginalFormatBox>(v.orginal_format)], nested_opt_models::<SchemeTypeBox>(v.scheme_type), nested_opt_models::<SchemeInformationBox>(v.info));
    lemma_nested_opt_other::<SchemeInformationBox, OriginalFormatBox>(Some(v.orginal_format));
    assert(nested_opt_models::<OriginalFormatBox>(Some(v.orginal_format)) == seq![nested_model::<OriginalFormatBox>(v.orginal_format)]);
    lemma_nested_opt_other::<SchemeInformationBox, SchemeTypeBox>(v.scheme_type);
    lemma_nested_opt_own::<SchemeInformationBox>(v.info);
    assert(collect_children::<SchemeInformationBox>(sinf_models(v)) =~= opt_seq(v.info));
}

/// Writing a sinf and reading its payload back gives it again.
#[verifier::spinoff_prover]
#[verifier::rlimit(100)]
proof fn lemma_sinf_roundtrip(v: ProtectionSchemeInfoBoxModel)
    requires
        sinf_canonical(v),
    ensures
        sinf_parse(sinf_bytes(v)) == Ok::<ProtectionSchemeInfoBoxModel, IsoError>(v),
{
    let s = sinf_bytes(v);
    lemma_sinf_children(v);
    lemma_sinf_types();
    let cs = sinf_models(v);
    let fault = |c: UnknownBoxModel| sinf_fault(c);
    assert forall|j: int| 0 <= j < cs.len() implies (#[trigger] fault(cs[j])) is None by {
        lemma_sinf_no_fault(v, j);
    }
    lemma_first_fault(cs, fault, cs.len() as int);
    assert(cs.take(cs.len() as int) =~= cs);
    lemma_sinf_collect_orginal_format(v);
    lemma_sinf_collect_scheme_type(v);
    lemma_sinf_collect_info(v);
    assert(spec_children(s) == cs);
    assert(last_child::<OriginalFormatBox>(cs) == Some(v.orginal_format));
    assert(last_child::<SchemeTypeBox>(cs) == v.scheme_type);
    assert(last_child::<SchemeInformationBox>(cs) == v.info);
}

/// For a value that reads back as itself, the size is that of its payload and header.
#[verifier::spinoff_prover]
#[verifier::rlimit(60)]
proof fn lemma_sinf_size(x: ProtectionSchemeInfoBox)
    requires
        sinf_canonical(x@),
    ensures
        x.orginal_format.spec_size() + nested_opt_size::<SchemeTypeBox>(x.scheme_type) + nested_opt_size::<SchemeInformationBox>(x.info) == sinf_bytes(x@).len(),
{
    let v = x@;
    lemma_nested_size::<OriginalFormatBox>(x.orginal_format);
    lemma_nested_opt_size::<SchemeTypeBox>(x.scheme_type);
    lemma_nested_opt_size::<SchemeInformationBox>(x.info);
}

impl BoxBody for ProtectionSchemeInfoBox {
    open spec fn spec_box_type() -> [u8; 4] {
        [0x73u8, 0x69u8, 0x6eu8, 0x66u8]
    }

    fn box_type() -> (r: [u8; 4]) {
        [0x73u8, 0x69u8, 0x6eu8, 0x66u8]
    }

    open spec fn spec_parse_body(s: Seq<u8>) -> Result<ProtectionSchemeInfoBoxModel, IsoError> {
        sinf_parse(s)
    }

    open spec fn spec_writable(v: ProtectionSchemeInfoBoxModel) -> bool {
        sinf_writable(v)
    }

    open spec fn spec_serialize_body(v: ProtectionSchemeInfoBoxModel) -> Seq<u8> {
        sinf_bytes(v)
    }

    open spec fn spec_canonical(v: ProtectionSchemeInfoBoxModel) -> bool {
        sinf_canonical(v)
    }

    proof fn lemma_box_type() {
        assert(Self::spec_box_type()[0] != spec_uuid_fourcc()[0]);
    }

    proof fn lemma_body_size(x: ProtectionSchemeInfoBox) {
        lemma_sinf_size(x);
    }

    proof fn lemma_body_roundtrip(v: ProtectionSchemeInfoBoxModel) {
        lemma_sinf_roundtrip(v);
    }

    fn parse_body(payload: &[u8]) -> (r: Result<ProtectionSchemeInfoBox, IsoError>) {
        parse_sinf(payload)
    }

    #[verifier::spinoff_prover]
    #[verifier::rlimit(60)]
    fn serialize_body(&self, out: &mut Vec<u8>) -> (r: Result<(), IsoError>) {
        write_sinf_children(self, out)
    }
}

/// Restricted scheme information box
///
/// `rinf`
///
/// ISO/IEC 14496-12 - 8.15.3
#[derive(Debug)]
pub struct RestrictedSchemeInfoBox {
    /// The contained [`OriginalFormatBox`]. (mandatory)
    pub original_format: OriginalFormatBox,
    /// The contained [`SchemeTypeBox`]. (mandatory)
    pub scheme_type: SchemeTypeBox,
    /// The contained [`SchemeInformationBox`]. (optional)
    pub info: Option<SchemeInformationBox>,
    /// The contained [`CompatibleSchemeTypeBox`]es. (any quantity)
    pub csch: Vec<CompatibleSchemeTypeBox>,
}

/// The model of a [`RestrictedSchemeInfoBox`].
pub struct RestrictedSchemeInfoBoxModel {
    pub original_format: <OriginalFormatBox as View>::V,
    pub scheme_type: <SchemeTypeBox as View>::V,
    pub info: Option<<SchemeInformationBox as View>::V>,
    pub csch: Seq<<CompatibleSchemeTypeBox as View>::V>,
}

impl View for RestrictedSchemeInfoBox {
    type V = RestrictedSchemeInfoBoxModel;

    open spec fn view(&self) -> RestrictedSchemeInfoBoxModel {
        RestrictedSchemeInfoBoxModel {
            original_format: self.original_format@,
            scheme_type: self.scheme_type@,
            info: opt_view(self.info),
            csch: views(self.csch@),
        }
    }
}

/// Whether a box found in a rinf has one of the types that it reads.
pub open spec fn rinf_known(c: UnknownBoxModel) -> bool {
    is_child::<OriginalFormatBox>(c) || is_child::<SchemeTypeBox>(c) || is_child::<SchemeInformationBox>(c) || is_child::<CompatibleSchemeTypeBox>(c)
}

/// The failure of reading a box of a known type found in a rinf.
pub open spec fn rinf_fault(c: UnknownBoxModel) -> Option<IsoError> {
    if is_child::<OriginalFormatBox>(c) {
        child_fault::<OriginalFormatBox>(c)
    }     else if is_child::<SchemeTypeBox>(c) {
        child_fault::<SchemeTypeBox>(c)
    }     else if is_child::<SchemeInformationBox>(c) {
        child_fault::<SchemeInformationBox>(c)
    }     else if is_child::<CompatibleSchemeTypeBox>(c) {
        child_fault::<CompatibleSchemeTypeBox>(c)
    } else {
        None
    }
}

/// What a rinf reads from its payload: the boxes before the first that fails, each box of a known type in its field (the
/// last one for a single field, which must be there where it is required) and every
/// other box kept as it is.
pub open spec fn rinf_parse(s: Seq<u8>) -> Result<RestrictedSchemeInfoBoxModel, IsoError> {
    let cs = spec_children(s);
    match scan_result(cs, |c: UnknownBoxModel| rinf_fault(c)) {
        Err(e) => Err(e),
        Ok(k) => {
            let p = cs.take(k as int);
            match last_child::<OriginalFormatBox>(p) {
                None => Err(IsoError::InvalidData),
                Some(original_format) =>                 match last_child::<SchemeTypeBox>(p) {
                    None => Err(IsoError::InvalidData),
                    Some(scheme_type) => Ok(
                        RestrictedSchemeInfoBoxModel {
                            original_format: original_format,
                            scheme_type: scheme_type,
                            info: last_child::<SchemeInformationBox>(p),
                            csch: collect_children::<CompatibleSchemeTypeBox>(p),
                        },
                    ),
                },
            }
        },
    }
}

/// The bytes of the boxes that a rinf holds, in the order of its fields.
pub open spec fn rinf_children_bytes(v: RestrictedSchemeInfoBoxModel) -> Seq<u8> {
    nested_box_bytes::<OriginalFormatBox>(v.original_format)
        + nested_box_bytes::<SchemeTypeBox>(v.scheme_type)
        + nested_opt_bytes::<SchemeInformationBox>(v.info)
        + nested_bytes::<CompatibleSchemeTypeBox>(v.csch)
}

/// The boxes, as found in a container, that a rinf writes.
pub open spec fn rinf_models(v: RestrictedSchemeInfoBoxModel) -> Seq<UnknownBoxModel> {
    seq![nested_model::<OriginalFormatBox>(v.original_format)]
        + seq![nested_model::<SchemeTypeBox>(v.scheme_type)]
        + nested_opt_models::<SchemeInformationBox>(v.info)
        + nested_models::<CompatibleSchemeTypeBox>(v.csch)
}

/// The payload that a rinf writes.
pub open spec fn rinf_bytes(v: RestrictedSchemeInfoBoxModel) -> Seq<u8> {
    rinf_children_bytes(v)
}

/// Every box of a known type can be written.
pub open spec fn rinf_writable(v: RestrictedSchemeInfoBoxModel) -> bool {
    &&& nested_writable::<OriginalFormatBox>(v.original_format)
    &&& nested_writable::<SchemeTypeBox>(v.scheme_type)
    &&& nested_opt_writable::<SchemeInformationBox>(v.info)
    &&& nested_all_writable::<CompatibleSchemeTypeBox>(v.csch)
}

/// Every box of a known type reads back as itself, and every other box is of
/// another type and announces exactly its payload.
pub open spec fn rinf_canonical(v: RestrictedSchemeInfoBoxModel) -> bool {
    &&& nested_ok::<OriginalFormatBox>(v.original_format)
    &&& nested_ok::<SchemeTypeBox>(v.scheme_type)
    &&& nested_opt_ok::<SchemeInformationBox>(v.info)
    &&& nested_all_ok::<CompatibleSchemeTypeBox>(v.csch)
}

impl IsoSized for RestrictedSchemeInfoBox {
    open spec fn spec_size(&self) -> nat {
        add_header_size(self.original_format.spec_size() + self.scheme_type.spec_size() + nested_opt_size::<SchemeInformationBox>(self.info) + nested_sizes::<CompatibleSchemeTypeBox>(self.csch@))
    }

    fn size(&self) -> (n: usize) {
        let mut n: usize = 0;
        n = n + self.original_format.size();
        n = n + self.scheme_type.size();
        n = n + size_nested_opt(&self.info);
        n = n + size_nested_vec(&self.csch);
        add_header_size_exec(n)
    }
}

/// The fields of a rinf read so far.
pub struct RestrictedSchemeInfoBoxScan {
    pub original_format: Option<OriginalFormatBox>,
    pub scheme_type: Option<SchemeTypeBox>,
    pub info: Option<SchemeInformationBox>,
    pub csch: Vec<CompatibleSchemeTypeBox>,
}

/// The model of a [`RestrictedSchemeInfoBoxScan`].
pub struct RestrictedSchemeInfoBoxScanModel {
    pub original_format: Option<<OriginalFormatBox as View>::V>,
    pub scheme_type: Option<<SchemeTypeBox as View>::V>,
    pub info: Option<<SchemeInformationBox as View>::V>,
    pub csch: Seq<<CompatibleSchemeTypeBox as View>::V>,
}

impl View for RestrictedSchemeInfoBoxScan {
    type V = RestrictedSchemeInfoBoxScanModel;

    open spec fn view(&self) -> RestrictedSchemeInfoBoxScanModel {
        RestrictedSchemeInfoBoxScanModel {
            original_format: opt_view(self.original_format),
            scheme_type: opt_view(self.scheme_type),
            info: opt_view(self.info),
            csch: views(self.csch@),
        }
    }
}

/// What a rinf holds after reading the boxes of `p`.
pub open spec fn rinf_prefix(p: Seq<UnknownBoxModel>) -> RestrictedSchemeInfoBoxScanModel {
    RestrictedSchemeInfoBoxScanModel {
        original_format: last_child::<OriginalFormatBox>(p),
        scheme_type: last_child::<SchemeTypeBox>(p),
        info: last_child::<SchemeInformationBox>(p),
        csch: collect_children::<CompatibleSchemeTypeBox>(p),
    }
}

/// What a rinf holds after reading one more box that does not fail.
pub open spec fn rinf_extend(m: RestrictedSchemeInfoBoxScanModel, c: UnknownBoxModel) -> RestrictedSchemeInfoBoxScanModel {
    RestrictedSchemeInfoBoxScanModel {
        original_format: match child_value::<OriginalFormatBox>(c) {
            Some(v) => Some(v),
            None => m.original_format,
        },
        scheme_type: match child_value::<SchemeTypeBox>(c) {
            Some(v) => Some(v),
            None => m.scheme_type,
        },
        info: match child_value::<SchemeInformationBox>(c) {
            Some(v) => Some(v),
            None => m.info,
        },
        csch: m.csch + opt_seq(child_value::<CompatibleSchemeTypeBox>(c)),
    }
}

/// The types that a rinf reads differ from one another.
pub open spec fn rinf_types_differ() -> bool {
    &&& OriginalFormatBox::spec_box_type() != SchemeTypeBox::spec_box_type()
    &&& OriginalFormatBox::spec_box_type() != SchemeInformationBox::spec_box_type()
    &&& OriginalFormatBox::spec_box_type() != CompatibleSchemeTypeBox::spec_box_type()
    &&& SchemeTypeBox::spec_box_type() != SchemeInformationBox::spec_box_type()
    &&& SchemeTypeBox::spec_box_type() != CompatibleSchemeTypeBox::spec_box_type()
    &&& SchemeInformationBox::spec_box_type() != CompatibleSchemeTypeBox::spec_box_type()
}

proof fn lemma_rinf_types()
    ensures
        rinf_types_differ(),
{
    assert(OriginalFormatBox::spec_box_type()[0] != SchemeTypeBox::spec_box_type()[0]);
    assert(OriginalFormatBox::spec_box_type()[0] != SchemeInformationBox::spec_box_type()[0]);
    assert(OriginalFormatBox::spec_box_type()[0] != CompatibleSchemeTypeBox::spec_box_type()[0]);
    assert(SchemeTypeBox::spec_box_type()[3] != SchemeInformationBox::spec_box_type()[3]);
    assert(SchemeTypeBox::spec_box_type()[0] != CompatibleSchemeTypeBox::spec_box_type()[0]);
    assert(SchemeInformationBox::spec_box_type()[0] != CompatibleSchemeTypeBox::spec_box_type()[0]);
}

/// Reads one box found in a rinf into its field.
#[verifier::spinoff_prover]
#[verifier::rlimit(60)]
fn rinf_step(c: &UnknownBox, acc: &mut RestrictedSchemeInfoBoxScan) -> (r: Result<(), IsoError>)
    requires
        rinf_types_differ(),
    ensures
        match r {
            Ok(()) => rinf_fault(c@) is None && final(acc)@ == rinf_extend(old(acc)@, c@),
            Err(e) => rinf_fault(c@) == Some(e) && final(acc)@ == old(acc)@,
        },
{
    if is_child_exec::<OriginalFormatBox>(c) {
        proof {
            lemma_child_other::<SchemeTypeBox>(c@);
            lemma_child_other::<SchemeInformationBox>(c@);
            lemma_child_other::<CompatibleSchemeTypeBox>(c@);
            lemma_child_read::<OriginalFormatBox>(c@);
        }
        let r = replace_into(c, &mut acc.original_format);
        proof {
            if r is Err {
                assert(acc@ =~= old(acc)@);
            }
            if r is Ok {
                assert(opt_seq(child_value::<CompatibleSchemeTypeBox>(c@)) =~= Seq::<<CompatibleSchemeTypeBox as View>::V>::empty());
                assert(acc@ =~= rinf_extend(old(acc)@, c@));
            }
        }
        r
    } else if is_child_exec::<SchemeTypeBox>(c) {
        proof {
            lemma_child_other::<OriginalFormatBox>(c@);
            lemma_child_other::<SchemeInformationBox>(c@);
            lemma_child_other::<CompatibleSchemeTypeBox>(c@);
            lemma_child_read::<SchemeTypeBox>(c@);
        }
        let r = replace_into(c, &mut acc.scheme_type);
        proof {
            if r is Err {
                assert(acc@ =~= old(acc)@);
            }
            if r is Ok {
                assert(opt_seq(child_value::<CompatibleSchemeTypeBox>(c@)) =~= Seq::<<CompatibleSchemeTypeBox as View>::V>::empty());
                assert(acc@ =~= rinf_extend(old(acc)@, c@));
            }
        }
        r
    } else if is_child_exec::<SchemeInformationBox>(c) {
        proof {
            lemma_child_other::<OriginalFormatBox>(c@);
            lemma_child_other::<SchemeTypeBox>(c@);
            lemma_child_other::<CompatibleSchemeTypeBox>(c@);
            lemma_child_read::<SchemeInformationBox>(c@);
        }
        let r = replace_into(c, &mut acc.info);
        proof {
            if r is Err {
                assert(acc@ =~= old(acc)@);
            }
            if r is Ok {
                assert(opt_seq(child_value::<CompatibleSchemeTypeBox>(c@)) =~= Seq::<<CompatibleSchemeTypeBox as View>::V>::empty());
                assert(acc@ =~= rinf_extend(old(acc)@, c@));
            }
        }
        r
    } else if is_child_exec::<CompatibleSchemeTypeBox>(c) {
        proof {
            lemma_child_other::<OriginalFormatBox>(c@);
            lemma_child_other::<SchemeTypeBox>(c@);
            lemma_child_other::<SchemeInformationBox>(c@);
            lemma_child_read::<CompatibleSchemeTypeBox>(c@);
        }
        let ghost old_v = views(acc.csch@);
        let r = collect_into(c, &mut acc.csch);
        proof {
            if r is Err {
                assert(acc@ =~= old(acc)@);
            }
            if r is Ok {
                assert(views(acc.csch@) =~= old_v + opt_seq(child_value::<CompatibleSchemeTypeBox>(c@)));
                assert(acc@ =~= rinf_extend(old(acc)@, c@));
            }
        }
        r
    } else {
        proof {
            lemma_child_other::<OriginalFormatBox>(c@);
            lemma_child_other::<SchemeTypeBox>(c@);
            lemma_child_other::<SchemeInformationBox>(c@);
            lemma_child_other::<CompatibleSchemeTypeBox>(c@);
        }
        proof {
            assert(opt_seq(child_value::<CompatibleSchemeTypeBox>(c@)) =~= Seq::<<CompatibleSchemeTypeBox as View>::V>::empty());
            assert(acc@ =~= rinf_extend(old(acc)@, c@));
        }
        Ok(())
    }
}

/// Reading one more box extends what was read by it.
proof fn lemma_rinf_prefix_step(css: Seq<UnknownBoxModel>, i: int)
    requires
        0 <= i < css.len(),
    ensures
        rinf_prefix(css.take(i + 1)) == rinf_extend(rinf_prefix(css.take(i)), css[i]),
{
    lemma_collect_step::<OriginalFormatBox>(css, i);
    lemma_collect_step::<SchemeTypeBox>(css, i);
    lemma_collect_step::<SchemeInformationBox>(css, i);
    lemma_collect_step::<CompatibleSchemeTypeBox>(css, i);
    lemma_unknown_step(css, |c: UnknownBoxModel| rinf_known(c), i);
    let a = rinf_prefix(css.take(i + 1));
    let b = rinf_extend(rinf_prefix(css.take(i)), css[i]);
    assert(a.csch =~= b.csch);
}

/// Reads the payload of a rinf.
#[verifier::spinoff_prover]
#[verifier::rlimit(60)]
fn parse_rinf(payload: &[u8]) -> (r: Result<RestrictedSchemeInfoBox, IsoError>)
    ensures
        match (rinf_parse(payload@), r) {
            (Ok(v), Ok(x)) => x@ == v,
            (Err(e), Err(f)) => e == f,
            _ => false,
        },
{
    let cs = read_children(payload);
    let ghost css = spec_children(payload@);
    let ghost fault = |c: UnknownBoxModel| rinf_fault(c);
    let mut acc = RestrictedSchemeInfoBoxScan {
        original_format: None,
        scheme_type: None,
        info: None,
        csch: Vec::new(),
    };
    let mut i: usize = 0;
    let mut stop = false;
    proof {
        lemma_rinf_types();
        let e = css.take(0);
        assert(e =~= Seq::<UnknownBoxModel>::empty());
        assert(collect_children::<OriginalFormatBox>(e) =~= Seq::<<OriginalFormatBox as View>::V>::empty());
        assert(collect_children::<SchemeTypeBox>(e) =~= Seq::<<SchemeTypeBox as View>::V>::empty());
        assert(collect_children::<SchemeInformationBox>(e) =~= Seq::<<SchemeInformationBox as View>::V>::empty());
        assert(collect_children::<CompatibleSchemeTypeBox>(e) =~= Seq::<<CompatibleSchemeTypeBox as View>::V>::empty());
        assert(views(acc.csch@) =~= Seq::<<CompatibleSchemeTypeBox as View>::V>::empty());
        assert(acc@ =~= rinf_prefix(e));
    }
    while i < cs.len() && !stop
        invariant
            views(cs@) == css,
            css == spec_children(payload@),
            fault == (|c: UnknownBoxModel| rinf_fault(c)),
            rinf_types_differ(),
            i <= cs@.len(),
            forall|j: int| 0 <= j < i ==> (#[trigger] fault(css[j])) is None,
            stop ==> i < css.len() && fault(css[i as int]) == Some(IsoError::UnexpectedEof),
            acc@ == rinf_prefix(css.take(i as int)),
        decreases cs@.len() - i + (if stop { 0int } else { 1int }),
    {
        let c = &cs[i];
        proof {
            assert(c@ == css[i as int]);
            lemma_rinf_prefix_step(css, i as int);
        }
        match rinf_step(c, &mut acc) {
            Ok(()) => {
                i = i + 1;
            },
            Err(IsoError::UnexpectedEof) => {
                stop = true;
            },
            Err(e) => {
                proof {
                    lemma_first_fault(css, fault, i as int);
                }
                return Err(e);
            },
        }
    }
    proof {
        lemma_first_fault(css, fault, i as int);
        assert(first_fault(css, fault) == i);
    }
    let RestrictedSchemeInfoBoxScan { original_format, scheme_type, info, csch } = acc;
    let original_format = match original_format {
        Some(x) => x,
        None => {
            return Err(IsoError::InvalidData);
        },
    };
    let scheme_type = match scheme_type {
        Some(x) => x,
        None => {
            return Err(IsoError::InvalidData);
        },
    };
    Ok(RestrictedSchemeInfoBox { original_format, scheme_type, info, csch })
}

/// Writes the boxes of a rinf in the order of its fields.
#[verifier::spinoff_prover]
#[verifier::rlimit(60)]
fn write_rinf_children(x: &RestrictedSchemeInfoBox, out: &mut Vec<u8>) -> (r: Result<(), IsoError>)
    requires
        x.spec_size() <= usize::MAX,
    ensures
        write_matches(r, rinf_writable(x@), rinf_children_bytes(x@), old(out)@, final(out)@),
{
    let ghost before = out@;
    let ghost v = x@;
    if write_nested(&x.original_format, out).is_err() {
        return Err(IsoError::InvalidData);
    }
    let ghost m1 = out@;
    proof {
        lemma_append_prefix(before, nested_box_bytes::<OriginalFormatBox>(v.original_format));
    }
    if write_nested(&x.scheme_type, out).is_err() {
        proof {
            lemma_prefix_trans(before, m1, out@);
        }
        return Err(IsoError::InvalidData);
    }
    let ghost m2 = out@;
    proof {
        lemma_append_prefix(m1, nested_box_bytes::<SchemeTypeBox>(v.scheme_type));
        lemma_prefix_trans(before, m1, m2);
    }
    if write_nested_opt(&x.info, out).is_err() {
        proof {
            lemma_prefix_trans(before, m2, out@);
        }
        return Err(IsoError::InvalidData);
    }
    let ghost m3 = out@;
    proof {
        lemma_append_prefix(m2, nested_opt_bytes::<SchemeInformationBox>(v.info));
        lemma_prefix_trans(before, m2, m3);
    }
    if write_nested_vec(&x.csch, out).is_err() {
        proof {
            lemma_prefix_trans(before, m3, out@);
        }
        return Err(IsoError::InvalidData);
    }
    let ghost m4 = out@;
    proof {
        lemma_append_prefix(m3, nested_bytes::<CompatibleSchemeTypeBox>(v.csch));
        lemma_prefix_trans(before, m3, m4);
    }
    proof {
        let l1 = nested_box_bytes::<OriginalFormatBox>(v.original_format);
        assert(m1 == before + l1);
        let l2 = l1 + nested_box_bytes::<SchemeTypeBox>(v.scheme_type);
        vstd::seq_lib::lemma_concat_associative(before, l1, nested_box_bytes::<SchemeTypeBox>(v.scheme_type));
        assert(m2 == before + l2);
        let l3 = l2 + nested_opt_bytes::<SchemeInformationBox>(v.info);
        vstd::seq_lib::lemma_concat_associative(before, l2, nested_opt_bytes::<SchemeInformationBox>(v.info));
        assert(m3 == before + l3);
        let l4 = l3 + nested_bytes::<CompatibleSchemeTypeBox>(v.csch);
        vstd::seq_lib::lemma_concat_associative(before, l3, nested_bytes::<CompatibleSchemeTypeBox>(v.csch));
        assert(m4 == before + l4);
        assert(rinf_children_bytes(v) == l4);
        lemma_append_prefix(before, rinf_children_bytes(v));
    }
    Ok(())
}

/// The boxes that a rinf writes, read from their bytes one list after the other.
#[verifier::spinoff_prover]
#[verifier::rlimit(100)]
proof fn lemma_rinf_children_chain(v: RestrictedSchemeInfoBoxModel)
    requires
        rinf_canonical(v),
    ensures
        spec_children(nested_box_bytes::<OriginalFormatBox>(v.original_format) + (nested_box_bytes::<SchemeTypeBox>(v.scheme_type) + (nested_opt_bytes::<SchemeInformationBox>(v.info) + (nested_bytes::<CompatibleSchemeTypeBox>(v.csch))))) == seq![nested_model::<OriginalFormatBox>(v.original_format)] + (seq![nested_model::<SchemeTypeBox>(v.scheme_type)] + (nested_opt_models::<SchemeInformationBox>(v.info) + (nested_models::<CompatibleSchemeTypeBox>(v.csch)))),
{
    let b0 = nested_box_bytes::<OriginalFormatBox>(v.original_format);
    let s0 = seq![nested_model::<OriginalFormatBox>(v.original_format)];
    let b1 = nested_box_bytes::<SchemeTypeBox>(v.scheme_type);
    let s1 = seq![nested_model::<SchemeTypeBox>(v.scheme_type)];
    let b2 = nested_opt_bytes::<SchemeInformationBox>(v.info);
    let s2 = nested_opt_models::<SchemeInformationBox>(v.info);
    let b3 = nested_bytes::<CompatibleSchemeTypeBox>(v.csch);
    let s3 = nested_models::<CompatibleSchemeTypeBox>(v.csch);
    crate::children::lemma_children_empty();
    let t3 = b3;
    let u3 = s3;
    assert(b3 + Seq::<u8>::empty() =~= b3);
    assert(s3 + Seq::<UnknownBoxModel>::empty() =~= s3);
    lemma_nested_seq::<CompatibleSchemeTypeBox>(v.csch, Seq::<u8>::empty());
    assert(spec_children(t3) == u3);
    let t2 = b2 + t3;
    let u2 = s2 + u3;
    lemma_nested_opt_seq::<SchemeInformationBox>(v.info, t3);
    assert(spec_children(t2) == u2);
    let t1 = b1 + t2;
    let u1 = s1 + u2;
    lemma_nested_cons::<SchemeTypeBox>(v.scheme_type, t2);
    assert(spec_children(t1) == u1);
    let t0 = b0 + t1;
    let u0 = s0 + u1;
    lemma_nested_cons::<OriginalFormatBox>(v.original_format, t1);
    assert(spec_children(t0) == u0);
}

/// The boxes that a rinf writes read back as their models.
#[verifier::spinoff_prover]
#[verifier::rlimit(100)]
proof fn lemma_rinf_children(v: RestrictedSchemeInfoBoxModel)
    requires
        rinf_canonical(v),
    ensures
        spec_children(rinf_children_bytes(v)) == rinf_models(v),
{
    lemma_rinf_children_chain(v);
    let b0 = nested_box_bytes::<OriginalFormatBox>(v.original_format);
    let s0 = seq![nested_model::<OriginalFormatBox>(v.original_format)];
    let b1 = nested_box_bytes::<SchemeTypeBox>(v.scheme_type);
    let s1 = seq![nested_model::<SchemeTypeBox>(v.scheme_type)];
    let b2 = nested_opt_bytes::<SchemeInformationBox>(v.info);
    let s2 = nested_opt_models::<SchemeInformationBox>(v.info);
    let b3 = nested_bytes::<CompatibleSchemeTypeBox>(v.csch);
    let s3 = nested_models::<CompatibleSchemeTypeBox>(v.csch);
    let t3 = b3;
    let u3 = s3;
    let t2 = b2 + t3;
    let u2 = s2 + u3;
    let t1 = b1 + t2;
    let u1 = s1 + u2;
    let t0 = b0 + t1;
    let u0 = s0 + u1;
    let t4 = Seq::<u8>::empty();
    let u4 = Seq::<UnknownBoxModel>::empty();
    assert(b3 + t4 =~= t3);
    assert(s3 + u4 =~= u3);
    let l0 = Seq::<u8>::empty();
    let k0 = Seq::<UnknownBoxModel>::empty();
    assert(l0 + t0 =~= t0);
    assert(k0 + u0 =~= u0);
    let l1 = b0;
    let k1 = s0;
    assert(l1 + t1 == l0 + t0);
    assert(k1 + u1 == k0 + u0);
    let l2 = l1 + b1;
    let k2 = k1 + s1;
    vstd::seq_lib::lemma_concat_associative(l1, b1, t2);
    vstd::seq_lib::lemma_concat_associative(k1, s1, u2);
    assert(l2 + t2 == l1 + t1);
    assert(k2 + u2 == k1 + u1);
    let l3 = l2 + b2;
    let k3 = k2 + s2;
    vstd::seq_lib::lemma_concat_associative(l2, b2, t3);
    vstd::seq_lib::lemma_concat_associative(k2, s2, u3);
    assert(l3 + t3 == l2 + t2);
    assert(k3 + u3 == k2 + u2);
    let l4 = l3 + b3;
    let k4 = k3 + s3;
    vstd::seq_lib::lemma_concat_associative(l3, b3, t4);
    vstd::seq_lib::lemma_concat_associative(k3, s3, u4);
    assert(l4 + t4 == l3 + t3);
    assert(k4 + u4 == k3 + u3);
    assert(l4 + t4 =~= l4);
    assert(k4 + u4 =~= k4);
    assert(rinf_children_bytes(v) == l4);
    assert(rinf_models(v) == k4);
}

/// No box that a rinf writes fails to read.
#[verifier::spinoff_prover]
#[verifier::rlimit(60)]
proof fn lemma_rinf_no_fault(v: RestrictedSchemeInfoBoxModel, j: int)
    requires
        rinf_canonical(v),
        rinf_types_differ(),
        0 <= j < rinf_models(v).len(),
    ensures
        rinf_fault(rinf_models(v)[j]) is None,
{
    let cs = rinf_models(v);
    let s0 = seq![nested_model::<OriginalFormatBox>(v.original_format)];
    let s1 = seq![nested_model::<SchemeTypeBox>(v.scheme_type)];
    let s2 = nested_opt_models::<SchemeInformationBox>(v.info);
    let s3 = nested_models::<CompatibleSchemeTypeBox>(v.csch);
    let n0: int = 0;
    let n1: int = n0 + s0.len();
    let n2: int = n1 + s1.len();
    let n3: int = n2 + s2.len();
    let n4: int = n3 + s3.len();
    if j < n1 {
        assert(cs[j] == s0[j - n0]);
        lemma_nested_cons::<OriginalFormatBox>(v.original_format, Seq::empty());
    } else if j < n2 {
        assert(cs[j] == s1[j - n1]);
        lemma_nested_cons::<SchemeTypeBox>(v.scheme_type, Seq::empty());
    } else if j < n3 {
        assert(cs[j] == s2[j - n2]);
        lemma_nested_cons::<SchemeInformationBox>(v.info.unwrap(), Seq::empty());
    } else if j < n4 {
        assert(cs[j] == s3[j - n3]);
        assert(nested_ok::<CompatibleSchemeTypeBox>(v.csch[j - n3]));
        lemma_nested_cons::<CompatibleSchemeTypeBox>(v.csch[j - n3], Seq::empty());
    }
}

/// Collecting over the lists of a rinf one after the other collects over each in
/// turn.
proof fn lemma_rinf_split<T: BoxBody>(m0: Seq<UnknownBoxModel>, m1: Seq<UnknownBoxModel>, m2: Seq<UnknownBoxModel>, m3: Seq<UnknownBoxModel>)
    ensures
        collect_children::<T>(m0 + m1 + m2 + m3) == collect_children::<T>(m0) + collect_children::<T>(m1) + collect_children::<T>(m2) + collect_children::<T>(m3),
{
    lemma_collect_add::<T>(m0 + m1 + m2, m3);
    lemma_collect_add::<T>(m0 + m1, m2);
    lemma_collect_add::<T>(m0, m1);
}

/// The boxes that a rinf writes collect back into its field `original_format`.
#[verifier::spinoff_prover]
#[verifier::rlimit(60)]
proof fn lemma_rinf_collect_original_format(v: RestrictedSchemeInfoBoxModel)
    requires
        rinf_canonical(v),
        rinf_types_differ(),
    ensures
        collect_children::<OriginalFormatBox>(rinf_models(v)) == seq![v.original_format],
{
    lemma_rinf_split::<OriginalFormatBox>(seq![nested_model::<OriginalFormatBox>(v.original_format)], seq![nested_model::<SchemeTypeBox>(v.scheme_type)], nested_opt_models::<SchemeInformationBox>(v.info), nested_models::<CompatibleSchemeTypeBox>(v.csch));
    lemma_nested_opt_own::<OriginalFormatBox>(Some(v.original_format));
    assert(nested_opt_models::<OriginalFormatBox>(Some(v.original_format)) == seq![nested_model::<OriginalFormatBox>(v.original_format)]);
    lemma_nested_opt_other::<OriginalFormatBox, SchemeTypeBox>(Some(v.scheme_type));
    assert(nested_opt_models::<SchemeTypeBox>(Some(v.scheme_type)) == seq![nested_model::<SchemeTypeBox>(v.scheme_type)]);
    lemma_nested_opt_other::<OriginalFormatBox, SchemeInformationBox>(v.info);
    lemma_nested_collect_other::<OriginalFormatBox, CompatibleSchemeTypeBox>(v.csch);
    assert(collect_children::<OriginalFormatBox>(rinf_models(v)) =~= seq![v.original_format]);
}

/// The boxes that a rinf writes collect back into its field `scheme_type`.
#[verifier::spinoff_prover]
#[verifier::rlimit(60)]
proof fn lemma_rinf_collect_scheme_type(v: RestrictedSchemeInfoBoxModel)
    requires
        rinf_canonical(v),
        rinf_types_differ(),
    ensures
        collect_children::<SchemeTypeBox>(rinf_models(v)) == seq![v.scheme_type],
{
    lemma_rinf_split::<SchemeTypeBox>(seq![nested_model::<OriginalFormatBox>(v.original_format)], seq![nested_model::<SchemeTypeBox>(v.scheme_type)], nested_opt_models::<SchemeInformationBox>(v.info), nested_models::<CompatibleSchemeTypeBox>(v.csch));
    lemma_nested_opt_other::<SchemeTypeBox, OriginalFormatBox>(Some(v.original_format));
    assert(nested_opt_models::<OriginalFormatBox>(Some(v.original_format)) == seq![nested_model::<OriginalFormatBox>(v.original_format)]);
    lemma_nested_opt_own::<SchemeTypeBox>(Some(v.scheme_type));
    assert(nested_opt_models::<SchemeTypeBox>(Some(v.scheme_type)) == seq![nested_model::<SchemeTypeBox>(v.scheme_type)]);
    lemma_nested_opt_other::<SchemeTypeBox, SchemeInformationBox>(v.info);
    lemma_nested_collect_other::<SchemeTypeBox, CompatibleSchemeTypeBox>(v.csch);
    assert(collect_children::<SchemeTypeBox>(rinf_models(v)) =~= seq![v.scheme_type]);
}

/// The boxes that a rinf writes collect back into its field `info`.
#[verifier::spinoff_prover]
#[verifier::rlimit(60)]
proof fn lemma_rinf_collect_info(v: RestrictedSchemeInfoBoxModel)
    requires
        rinf_canonical(v),
        rinf_types_differ(),
    ensures
        collect_children::<SchemeInformationBox>(rinf_models(v)) == opt_seq(v.info),
{
    lemma_rinf_split::<SchemeInformationBox>(seq![nested_model::<OriginalFormatBox>(v.original_format)], seq![nested_model::<SchemeTypeBox>(v.scheme_type)], nested_opt_models::<SchemeInformationBox>(v.info), nested_models::<CompatibleSchemeTypeBox>(v.csch));
    lemma_nested_opt_other::<SchemeInformationBox, OriginalFormatBox>(Some(v.original_format));
    assert(nested_opt_models::<OriginalFormatBox>(Some(v.original_format)) == seq![nested_model::<OriginalFormatBox>(v.original_format)]);
    lemma_nested_opt_other::<SchemeInformationBox, SchemeTypeBox>(Some(v.scheme_type));
    assert(nested_opt_models::<SchemeTypeBox>(Some(v.scheme_type)) == seq![nested_model::<SchemeTypeBox>(v.scheme_type)]);
    lemma_nested_opt_own::<SchemeInformationBox>(v.info);
    lemma_nested_collect_other::<SchemeInformationBox, CompatibleSchemeTypeBox>(v.csch);
    assert(collect_children::<SchemeInformationBox>(rinf_models(v)) =~= opt_seq(v.info));
}

/// The boxes that a rinf writes collect back into its field `csch`.
#[verifier::spinoff_prover]
#[verifier::rlimit(60)]
proof fn lemma_rinf_collect_csch(v: RestrictedSchemeInfoBoxModel)
    requires
        rinf_canonical(v),
        rinf_types_differ(),
    ensures
        collect_children::<CompatibleSchemeTypeBox>(rinf_models(v)) == v.csch,
{
    lemma_rinf_split::<CompatibleSchemeTypeBox>(seq![nested_model::<OriginalFormatBox>(v.original_format)], seq![nested_model::<SchemeTypeBox>(v.scheme_type)], nested_opt_models::<SchemeInformationBox>(v.info), nested_models::<CompatibleSchemeTypeBox>(v.csch));
    lemma_nested_opt_other::<CompatibleSchemeTypeBox, OriginalFormatBox>(Some(v.original_format));
    assert(nested_opt_models::<OriginalFormatBox>(Some(v.original_format)) == seq![nested_model::<OriginalFormatBox>(v.original_format)]);
    lemma_nested_opt_other::<CompatibleSchemeTypeBox, SchemeTypeBox>(Some(v.scheme_type));
    assert(nested_opt_models::<SchemeTypeBox>(Some(v.scheme_type)) == seq![nested_model::<SchemeTypeBox>(v.scheme_type)]);
    lemma_nested_opt_other::<CompatibleSchemeTypeBox, SchemeInformationBox>(v.info);
    lemma_nested_collect_own::<CompatibleSchemeTypeBox>(v.csch);
    assert(collect_children::<CompatibleSchemeTypeBox>(rinf_models(v)) =~= v.csch);
}

/// Writing a rinf and reading its payload back gives it again.
#[verifier::spinoff_prover]
#[verifier::rlimit(100)]
proof fn lemma_rinf_roundtrip(v: RestrictedSchemeInfoBoxModel)
    requires
        rinf_canonical(v),
    ensures
        rinf_parse(rinf_bytes(v)) == Ok::<RestrictedSchemeInfoBoxModel, IsoError>(v),
{
    let s = rinf_bytes(v);
    lemma_rinf_children(v);
    lemma_rinf_types();
    let cs = rinf_models(v);
    let fault = |c: UnknownBoxModel| rinf_fault(c);
    assert forall|j: int| 0 <= j < cs.len() implies (#[trigger] fault(cs[j])) is None by {
        lemma_rinf_no_fault(v, j);
    }
    lemma_first_fault(cs, fault, cs.len() as int);
    assert(cs.take(cs.len() as int) =~= cs);
    lemma_rinf_collect_original_format(v);
    lemma_rinf_collect_scheme_type(v);
    lemma_rinf_collect_info(v);
    lemma_rinf_collect_csch(v);
    assert(spec_children(s) == cs);
    assert(last_child::<OriginalFormatBox>(cs) == Some(v.original_format));
    assert(last_child::<SchemeTypeBox>(cs) == Some(v.scheme_type));
    assert(last_child::<SchemeInformationBox>(cs) == v.info);
}

/// For a value that reads back as itself, the size is that of its payload and header.
#[verifier::spinoff_prover]
#[verifier::rlimit(60)]
proof fn lemma_rinf_size(x: RestrictedSchemeInfoBox)
    requires
        rinf_canonical(x@),
    ensures
        x.original_format.spec_size() + x.scheme_type.spec_size() + nested_opt_size::<SchemeInformationBox>(x.info) + nested_sizes::<CompatibleSchemeTypeBox>(x.csch@) == rinf_bytes(x@).len(),
{
    let v = x@;
    lemma_nested_size::<OriginalFormatBox>(x.original_format);
    lemma_nested_size::<SchemeTypeBox>(x.scheme_type);
    lemma_nested_opt_size::<SchemeInformationBox>(x.info);
    lemma_nested_sizes::<CompatibleSchemeTypeBox>(x.csch@);
}

impl BoxBody for RestrictedSchemeInfoBox {
    open spec fn spec_box_type() -> [u8; 4] {
        [0x72u8, 0x69u8, 0x6eu8, 0x66u8]
    }

    fn box_type() -> (r: [u8; 4]) {
        [0x72u8, 0x69u8, 0x6eu8, 0x66u8]
    }

    open spec fn spec_parse_body(s: Seq<u8>) -> Result<RestrictedSchemeInfoBoxModel, IsoError> {
        rinf_parse(s)
    }

    open spec fn spec_writable(v: RestrictedSchemeInfoBoxModel) -> bool {
        rinf_writable(v)
    }

    open spec fn spec_serialize_body(v: RestrictedSchemeInfoBoxModel) -> Seq<u8> {
        rinf_bytes(v)
    }

    open spec fn spec_canonical(v: RestrictedSchemeInfoBoxModel) -> bool {
        rinf_canonical(v)
    }

    proof fn lemma_box_type() {
        assert(Self::spec_box_type()[0] != spec_uuid_fourcc()[0]);
    }

    proof fn lemma_body_size(x: RestrictedSchemeInfoBox) {
        lemma_rinf_size(x);
    }

    proof fn lemma_body_roundtrip(v: RestrictedSchemeInfoBoxModel) {
        lemma_rinf_roundtrip(v);
    }

    fn parse_body(payload: &[u8]) -> (r: Result<RestrictedSchemeInfoBox, IsoError>) {
        parse_rinf(payload)
    }

    #[verifier::spinoff_prover]
    #[verifier::rlimit(60)]
    fn serialize_body(&self, out: &mut Vec<u8>) -> (r: Result<(), IsoError>) {
        write_rinf_children(self, out)
    }
}

} // verus!
