//! Descriptors kept as bytes, and the decoder configuration descriptor
//! (ISO/IEC 14496-1 - 7.2.6.6).

use vstd::prelude::*;

use crate::codec::{
    be_u24_at, be_u32_at, lemma_append_prefix, lemma_u24_at, lemma_u32_at, read_u24_at, read_u32_at,
    u24_bytes, u32_bytes, write_bytes, write_u24, write_u32, IsoError, SpecParse,
};
use crate::object_description::{
    vlq_len, vlq_len_exec, BaseDescriptor, DescriptorTag, ProfileLevelIndicationIndexDescriptor,
    PROFILE_LEVEL_INDICATION_INDEX_DESCR_TAG,
};
use crate::wire::{
    lemma_ser_seq_cons, lemma_size_seq, ser_seq, serialize_all, size_all, size_seq, views, IsoSized, Wire,
};

verus! {

/// The tag of the decoder configuration descriptor.
pub const DECODER_CONFIG_DESCR_TAG: u8 = 0x04;

/// The tag of the decoder specific information.
pub const DEC_SPECIFIC_INFO_TAG: u8 = 0x05;

// ---------------------------------------------------------------------------
// Descriptors kept as bytes.
// ---------------------------------------------------------------------------

/// A descriptor whose payload is kept as it was read.
#[derive(Debug)]
pub struct UnknownDescriptor {
    /// The tag and size of the descriptor.
    pub base_descriptor: BaseDescriptor,
    /// The payload.
    pub data: Vec<u8>,
}

/// The model of an [`UnknownDescriptor`].
pub struct UnknownDescriptorModel {
    pub base_descriptor: BaseDescriptor,
    pub data: Seq<u8>,
}

impl View for UnknownDescriptor {
    type V = UnknownDescriptorModel;

    open spec fn view(&self) -> UnknownDescriptorModel {
        UnknownDescriptorModel { base_descriptor: self.base_descriptor, data: self.data@ }
    }
}

impl UnknownDescriptor {
    /// A descriptor of `tag` whose size is that of `data`.
    pub fn new(tag: DescriptorTag, data: Vec<u8>) -> (r: UnknownDescriptor)
        requires
            data@.len() <= u32::MAX,
        ensures
            r@ == (UnknownDescriptorModel {
                base_descriptor: BaseDescriptor { tag, size_of_instance: data@.len() as u32 },
                data: data@,
            }),
    {
        let size_of_instance = data.len() as u32;
        UnknownDescriptor { base_descriptor: BaseDescriptor { tag, size_of_instance }, data }
    }
}

/// The payload of a descriptor whose base descriptor is `b`: the number of bytes
/// that it gives, which must all be there.
pub open spec fn descriptor_body(s: Seq<u8>, b: BaseDescriptor) -> SpecParse<UnknownDescriptorModel> {
    if s.len() < b.size_of_instance {
        Err(IsoError::UnexpectedEof)
    } else {
        Ok((UnknownDescriptorModel { base_descriptor: b, data: s.take(b.size_of_instance as int) }, b.size_of_instance as int))
    }
}

/// Reads the payload of a descriptor whose base descriptor is `b` at `pos`.
pub fn read_descriptor_body(data: &[u8], pos: usize, b: BaseDescriptor) -> (r: Result<(UnknownDescriptor, usize), IsoError>)
    requires
        pos <= data@.len(),
    ensures
        crate::wire::parse_matches(r, descriptor_body(data@.skip(pos as int), b), pos),
{
    if ((data.len() - pos) as u64) < (b.size_of_instance as u64) {
        return Err(IsoError::UnexpectedEof);
    }
    let end = pos + b.size_of_instance as usize;
    let bytes = vstd::slice::slice_to_vec(vstd::slice::slice_subrange(data, pos, end));
    proof {
        assert(bytes@ =~= data@.skip(pos as int).take(b.size_of_instance as int));
    }
    Ok((UnknownDescriptor { base_descriptor: b, data: bytes }, end))
}

impl IsoSized for UnknownDescriptor {
    open spec fn spec_size(&self) -> nat {
        self.base_descriptor.spec_size() + self.data@.len()
    }

    fn size(&self) -> (n: usize) {
        self.base_descriptor.size() + self.data.len()
    }
}

impl Wire for UnknownDescriptor {
    /// The base descriptor, then as many bytes as it gives.
    open spec fn spec_parse(s: Seq<u8>) -> SpecParse<UnknownDescriptorModel> {
        match BaseDescriptor::spec_parse(s) {
            Ok((b, h)) => match descriptor_body(s.skip(h), b) {
                Ok((u, n)) => Ok((u, h + n)),
                Err(e) => Err(e),
            },
            Err(e) => Err(e),
        }
    }

    open spec fn spec_writable(v: UnknownDescriptorModel) -> bool {
        true
    }

    open spec fn spec_serialize(v: UnknownDescriptorModel) -> Seq<u8> {
        BaseDescriptor::spec_serialize(v.base_descriptor) + v.data
    }

    /// The size is that of the payload, and not zero.
    open spec fn spec_canonical(v: UnknownDescriptorModel) -> bool {
        v.base_descriptor.size_of_instance == v.data.len() && v.data.len() > 0
    }

    proof fn lemma_parse_len(s: Seq<u8>) {
        BaseDescriptor::lemma_parse_len(s);
    }

    proof fn lemma_size(x: UnknownDescriptor) {
        BaseDescriptor::lemma_size(x.base_descriptor);
    }

    proof fn lemma_roundtrip(v: UnknownDescriptorModel, rest: Seq<u8>) {
        let bs = BaseDescriptor::spec_serialize(v.base_descriptor);
        BaseDescriptor::lemma_roundtrip(v.base_descriptor, v.data + rest);
        let s = Self::spec_serialize(v) + rest;
        assert(s =~= bs + (v.data + rest));
        assert(s.skip(bs.len() as int) =~= v.data + rest);
        assert((v.data + rest).take(v.data.len() as int) =~= v.data);
    }

    fn parse(data: &[u8], pos: usize) -> (r: Result<(UnknownDescriptor, usize), IsoError>) {
        let (b, p) = BaseDescriptor::parse(data, pos)?;
        proof {
            BaseDescriptor::lemma_parse_len(data@.skip(pos as int));
            assert(data@.skip(pos as int).skip(p - pos) =~= data@.skip(p as int));
        }
        read_descriptor_body(data, p, b)
    }

    fn serialize(&self, out: &mut Vec<u8>) -> (r: Result<(), IsoError>) {
        let ghost before = out@;
        let _ = self.base_descriptor.serialize(out);
        write_bytes(out, self.data.as_slice());
        proof {
            assert(out@ =~= before + Self::spec_serialize(self@));
            lemma_append_prefix(before, Self::spec_serialize(self@));
        }
        Ok(())
    }
}

// ---------------------------------------------------------------------------
// The decoder configuration descriptor.
// ---------------------------------------------------------------------------

/// The kind of the coded object (ISO/IEC 14496-1 - Table 5).
#[derive(Debug, Clone, Copy, PartialEq, Eq, Structural)]
pub struct ObjectTypeIndication(pub u8);

/// The kind of the elementary stream (ISO/IEC 14496-1 - Table 6).
#[derive(Debug, Clone, Copy, PartialEq, Eq, Structural)]
pub struct StreamType(pub u8);

/// Decoder configuration descriptor
///
/// ISO/IEC 14496-1 - 7.2.6.6
#[derive(Debug)]
pub struct DecoderConfigDescriptor {
    /// The kind of the coded object.
    pub object_type_indication: ObjectTypeIndication,
    /// The kind of the stream, in six bits.
    pub stream_type: StreamType,
    /// Whether the stream flows upstream.
    pub up_stream: bool,
    /// Reserved bit.
    pub reserved: bool,
    /// The size of the decoding buffer, in 24 bits.
    pub buffer_size_db: u32,
    /// The largest bitrate of the stream.
    pub max_bitrate: u32,
    /// The average bitrate of the stream.
    pub avg_bitrate: u32,
    /// The decoder specific information.
    pub dec_specific_info: Option<UnknownDescriptor>,
    /// The profile and level indication index descriptors.
    pub profile_level_indication_index_descr: Vec<ProfileLevelIndicationIndexDescriptor>,
    /// Any other descriptors.
    pub unknown_descriptors: Vec<UnknownDescriptor>,
}

/// The descriptors that a decoder configuration holds.
pub struct DecoderConfigListModel {
    pub dec_specific_info: Option<UnknownDescriptorModel>,
    pub profile_level_indication_index_descr: Seq<ProfileLevelIndicationIndexDescriptor>,
    pub unknown_descriptors: Seq<UnknownDescriptorModel>,
}

/// The model of a [`DecoderConfigDescriptor`].
pub struct DecoderConfigDescriptorModel {
    pub object_type_indication: ObjectTypeIndication,
    pub stream_type: StreamType,
    pub up_stream: bool,
    pub reserved: bool,
    pub buffer_size_db: u32,
    pub max_bitrate: u32,
    pub avg_bitrate: u32,
    pub descriptors: DecoderConfigListModel,
}

pub open spec fn opt_descriptor_model(d: Option<UnknownDescriptor>) -> Option<UnknownDescriptorModel> {
    match d {
        Some(u) => Some(u@),
        None => None,
    }
}

impl View for DecoderConfigDescriptor {
    type V = DecoderConfigDescriptorModel;

    open spec fn view(&self) -> DecoderConfigDescriptorModel {
        DecoderConfigDescriptorModel {
            object_type_indication: self.object_type_indication,
            stream_type: self.stream_type,
            up_stream: self.up_stream,
            reserved: self.reserved,
            buffer_size_db: self.buffer_size_db,
            max_bitrate: self.max_bitrate,
            avg_bitrate: self.avg_bitrate,
            descriptors: DecoderConfigListModel {
                dec_specific_info: opt_descriptor_model(self.dec_specific_info),
                profile_level_indication_index_descr: self.profile_level_indication_index_descr@,
                unknown_descriptors: views(self.unknown_descriptors@),
            },
        }
    }
}

/// Reading the descriptors that follow the fixed fields, until the input ends or a
/// descriptor is cut short: the decoder specific information (the last one read),
/// the profile and level indication index descriptors, and any other descriptor.
pub open spec fn dcd_list(s: Seq<u8>, acc: DecoderConfigListModel) -> DecoderConfigListModel
    decreases s.len(),
{
    match BaseDescriptor::spec_parse(s) {
        Err(_) => acc,
        Ok((b, h)) => if 0 < h <= s.len() {
            let r = s.skip(h);
            if b.tag.0 == PROFILE_LEVEL_INDICATION_INDEX_DESCR_TAG {
                if b.size_of_instance < 1 || r.len() < 1 {
                    acc
                } else {
                    dcd_list(
                        r.skip(1),
                        DecoderConfigListModel {
                            profile_level_indication_index_descr: acc.profile_level_indication_index_descr.push(
                                ProfileLevelIndicationIndexDescriptor { profile_level_indication_index: r[0] },
                            ),
                            ..acc
                        },
                    )
                }
            } else {
                match descriptor_body(r, b) {
                    Ok((u, n)) => if b.tag.0 == DEC_SPECIFIC_INFO_TAG {
                        dcd_list(r.skip(n), DecoderConfigListModel { dec_specific_info: Some(u), ..acc })
                    } else {
                        dcd_list(
                            r.skip(n),
                            DecoderConfigListModel { unknown_descriptors: acc.unknown_descriptors.push(u), ..acc },
                        )
                    },
                    Err(_) => acc,
                }
            }
        } else {
            acc
        },
    }
}

/// No descriptor read yet.
pub open spec fn empty_dcd_list() -> DecoderConfigListModel {
    DecoderConfigListModel {
        dec_specific_info: None,
        profile_level_indication_index_descr: Seq::empty(),
        unknown_descriptors: Seq::empty(),
    }
}

/// The byte that holds the stream type, the upstream flag and the reserved bit.
pub open spec fn dcd_stream_byte(stream_type: u8, up_stream: bool, reserved: bool) -> u8 {
    ((stream_type << 2u8) | (if up_stream { 2u8 } else { 0u8 }) | (if reserved { 1u8 } else { 0u8 })) as u8
}

/// The window of a descriptor's payload: the bytes that its size gives, cut short by
/// the end of the input.
pub open spec fn descriptor_window(s: Seq<u8>, size: u32) -> Seq<u8> {
    if s.len() >= size { s.take(size as int) } else { s }
}

/// Reading a decoder configuration descriptor: the base descriptor, then within the
/// window that it gives the object type, the byte of the stream type (of which the
/// five bits below the top one are read) and the two flags, the buffer size, the two
/// bitrates and the descriptors; the descriptor consumes its whole window.
pub open spec fn dcd_parse(s: Seq<u8>) -> SpecParse<DecoderConfigDescriptorModel> {
    match BaseDescriptor::spec_parse(s) {
        Err(e) => Err(e),
        Ok((b, h)) => {
            let w = descriptor_window(s.skip(h), b.size_of_instance);
            if w.len() < 13 {
                Err(IsoError::UnexpectedEof)
            } else {
                let byte = w[1];
                Ok(
                    (
                        DecoderConfigDescriptorModel {
                            object_type_indication: ObjectTypeIndication(w[0]),
                            stream_type: StreamType((byte & 0x7c) >> 2u8),
                            up_stream: byte & 2 != 0,
                            reserved: byte & 1 != 0,
                            buffer_size_db: be_u24_at(w, 2),
                            max_bitrate: be_u32_at(w, 5),
                            avg_bitrate: be_u32_at(w, 9),
                            descriptors: dcd_list(w.skip(13), empty_dcd_list()),
                        },
                        h + w.len(),
                    ),
                )
            }
        },
    }
}

/// The bytes of the descriptors of a decoder configuration.
pub open spec fn dcd_list_bytes(l: DecoderConfigListModel) -> Seq<u8> {
    (match l.dec_specific_info {
        Some(u) => UnknownDescriptor::spec_serialize(u),
        None => Seq::empty(),
    }) + ser_seq::<ProfileLevelIndicationIndexDescriptor>(l.profile_level_indication_index_descr) + ser_seq::<
        UnknownDescriptor,
    >(l.unknown_descriptors)
}

/// The payload of a decoder configuration: thirteen bytes of fields, then the
/// descriptors.
pub open spec fn dcd_payload_bytes(v: DecoderConfigDescriptorModel) -> Seq<u8> {
    seq![v.object_type_indication.0, dcd_stream_byte(v.stream_type.0, v.up_stream, v.reserved)] + u24_bytes(
        v.buffer_size_db,
    ) + u32_bytes(v.max_bitrate) + u32_bytes(v.avg_bitrate) + dcd_list_bytes(v.descriptors)
}

/// The size of the payload that a decoder configuration reports.
pub open spec fn dcd_payload_size(x: DecoderConfigDescriptor) -> nat {
    13 + (match x.dec_specific_info {
        Some(u) => u.spec_size(),
        None => 0,
    }) + size_seq::<ProfileLevelIndicationIndexDescriptor>(x.profile_level_indication_index_descr@) + size_seq::<
        UnknownDescriptor,
    >(x.unknown_descriptors@)
}

impl DecoderConfigDescriptor {
    /// The number of bytes of the payload.
    pub fn payload_size(&self) -> (n: usize)
        requires
            dcd_payload_size(*self) <= usize::MAX,
        ensures
            n == dcd_payload_size(*self),
    {
        let a = match &self.dec_specific_info {
            Some(u) => u.size(),
            None => 0,
        };
        let b = size_all(&self.profile_level_indication_index_descr);
        let c = size_all(&self.unknown_descriptors);
        13 + a + b + c
    }

    /// The fields that the descriptor begins with: its tag and the size of its payload.
    pub fn base_descriptor(&self) -> (r: BaseDescriptor)
        requires
            dcd_payload_size(*self) <= u32::MAX,
        ensures
            r == (BaseDescriptor {
                tag: DescriptorTag(DECODER_CONFIG_DESCR_TAG),
                size_of_instance: dcd_payload_size(*self) as u32,
            }),
    {
        BaseDescriptor { tag: DescriptorTag(DECODER_CONFIG_DESCR_TAG), size_of_instance: self.payload_size() as u32 }
    }
}

impl IsoSized for DecoderConfigDescriptor {
    /// The base descriptor, whose size field holds the payload size in 32 bits, then
    /// the payload.
    open spec fn spec_size(&self) -> nat {
        1 + vlq_len((dcd_payload_size(*self) as u32) as nat) + dcd_payload_size(*self)
    }

    fn size(&self) -> (n: usize) {
        let p = self.payload_size();
        let k = vlq_len_exec(p as u32);
        1 + k + p
    }
}

/// Once the descriptors are read, nothing remains to read.
pub proof fn lemma_dcd_list_empty(acc: DecoderConfigListModel)
    ensures
        dcd_list(Seq::empty(), acc) == acc,
{
    BaseDescriptor::lemma_parse_len(Seq::empty());
}

/// A written profile and level indication index descriptor is read into its list.
pub proof fn lemma_dcd_list_pli(p: ProfileLevelIndicationIndexDescriptor, rest: Seq<u8>, acc: DecoderConfigListModel)
    ensures
        dcd_list(ProfileLevelIndicationIndexDescriptor::spec_serialize(p) + rest, acc) == dcd_list(
            rest,
            DecoderConfigListModel {
                profile_level_indication_index_descr: acc.profile_level_indication_index_descr.push(p),
                ..acc
            },
        ),
{
    let b = BaseDescriptor { tag: DescriptorTag(PROFILE_LEVEL_INDICATION_INDEX_DESCR_TAG), size_of_instance: 1 };
    let bs = BaseDescriptor::spec_serialize(b);
    reveal_with_fuel(vlq_len, 2);
    BaseDescriptor::lemma_size(b);
    BaseDescriptor::lemma_roundtrip(b, seq![p.profile_level_indication_index] + rest);
    let s = ProfileLevelIndicationIndexDescriptor::spec_serialize(p) + rest;
    assert(s =~= bs + (seq![p.profile_level_indication_index] + rest));
    assert(s.skip(bs.len() as int) =~= seq![p.profile_level_indication_index] + rest);
    assert(s.skip(bs.len() as int).skip(1) =~= rest);
}

/// A written descriptor of another kind is read as itself.
pub proof fn lemma_dcd_list_unknown(u: UnknownDescriptorModel, rest: Seq<u8>, acc: DecoderConfigListModel)
    requires
        UnknownDescriptor::spec_canonical(u),
        u.base_descriptor.tag.0 != PROFILE_LEVEL_INDICATION_INDEX_DESCR_TAG,
    ensures
        dcd_list(UnknownDescriptor::spec_serialize(u) + rest, acc) == if u.base_descriptor.tag.0
            == DEC_SPECIFIC_INFO_TAG {
            dcd_list(rest, DecoderConfigListModel { dec_specific_info: Some(u), ..acc })
        } else {
            dcd_list(rest, DecoderConfigListModel { unknown_descriptors: acc.unknown_descriptors.push(u), ..acc })
        },
{
    let bs = BaseDescriptor::spec_serialize(u.base_descriptor);
    BaseDescriptor::lemma_roundtrip(u.base_descriptor, u.data + rest);
    BaseDescriptor::lemma_size(u.base_descriptor);
    let s = UnknownDescriptor::spec_serialize(u) + rest;
    assert(s =~= bs + (u.data + rest));
    let r = s.skip(bs.len() as int);
    assert(r =~= u.data + rest);
    assert(r.take(u.data.len() as int) =~= u.data);
    assert(r.skip(u.data.len() as int) =~= rest);
}

/// Written profile and level indication index descriptors are read into their list.
pub proof fn lemma_dcd_list_plis(
    ps: Seq<ProfileLevelIndicationIndexDescriptor>,
    rest: Seq<u8>,
    acc: DecoderConfigListModel,
)
    ensures
        dcd_list(ser_seq::<ProfileLevelIndicationIndexDescriptor>(ps) + rest, acc) == dcd_list(
            rest,
            DecoderConfigListModel {
                profile_level_indication_index_descr: acc.profile_level_indication_index_descr + ps,
                ..acc
            },
        ),
    decreases ps.len(),
{
    if ps.len() == 0 {
        assert(ser_seq::<ProfileLevelIndicationIndexDescriptor>(ps) + rest =~= rest);
        assert(acc.profile_level_indication_index_descr + ps =~= acc.profile_level_indication_index_descr);
    } else {
        let first = ps[0];
        let tail = ps.drop_first();
        assert(ps =~= seq![first] + tail);
        lemma_ser_seq_cons::<ProfileLevelIndicationIndexDescriptor>(first, tail);
        let tb = ser_seq::<ProfileLevelIndicationIndexDescriptor>(tail);
        assert(ser_seq::<ProfileLevelIndicationIndexDescriptor>(ps) + rest
            =~= ProfileLevelIndicationIndexDescriptor::spec_serialize(first) + (tb + rest));
        lemma_dcd_list_pli(first, tb + rest, acc);
        let acc1 = DecoderConfigListModel {
            profile_level_indication_index_descr: acc.profile_level_indication_index_descr.push(first),
            ..acc
        };
        lemma_dcd_list_plis(tail, rest, acc1);
        assert(acc1.profile_level_indication_index_descr + tail =~= acc.profile_level_indication_index_descr + ps);
    }
}

/// Written descriptors of other kinds than the decoder specific information and the
/// profile and level indication index are read into the unknown ones.
pub proof fn lemma_dcd_list_unknowns(us: Seq<UnknownDescriptorModel>, rest: Seq<u8>, acc: DecoderConfigListModel)
    requires
        forall|i: int| 0 <= i < us.len() ==> #[trigger] dcd_other_descriptor(us[i]),
    ensures
        dcd_list(ser_seq::<UnknownDescriptor>(us) + rest, acc) == dcd_list(
            rest,
            DecoderConfigListModel { unknown_descriptors: acc.unknown_descriptors + us, ..acc },
        ),
    decreases us.len(),
{
    if us.len() == 0 {
        assert(ser_seq::<UnknownDescriptor>(us) + rest =~= rest);
        assert(acc.unknown_descriptors + us =~= acc.unknown_descriptors);
    } else {
        let first = us[0];
        let tail = us.drop_first();
        assert(us =~= seq![first] + tail);
        assert(dcd_other_descriptor(us[0]));
        assert forall|i: int| 0 <= i < tail.len() implies #[trigger] dcd_other_descriptor(tail[i]) by {
            assert(dcd_other_descriptor(us[i + 1]));
        }
        lemma_ser_seq_cons::<UnknownDescriptor>(first, tail);
        let tb = ser_seq::<UnknownDescriptor>(tail);
        assert(ser_seq::<UnknownDescriptor>(us) + rest =~= UnknownDescriptor::spec_serialize(first) + (tb + rest));
        lemma_dcd_list_unknown(first, tb + rest, acc);
        let acc1 = DecoderConfigListModel { unknown_descriptors: acc.unknown_descriptors.push(first), ..acc };
        lemma_dcd_list_unknowns(tail, rest, acc1);
        assert(acc1.unknown_descriptors + tail =~= acc.unknown_descriptors + us);
    }
}

/// A descriptor that reads back as itself among the other descriptors of a decoder
/// configuration.
pub open spec fn dcd_other_descriptor(u: UnknownDescriptorModel) -> bool {
    &&& UnknownDescriptor::spec_canonical(u)
    &&& u.base_descriptor.tag.0 != DEC_SPECIFIC_INFO_TAG
    &&& u.base_descriptor.tag.0 != PROFILE_LEVEL_INDICATION_INDEX_DESCR_TAG
}

/// The stream byte reads back as the stream type and flags that it was made of.
pub proof fn lemma_dcd_stream_byte(stream_type: u8, up_stream: bool, reserved: bool)
    requires
        stream_type < 32,
    ensures
        (dcd_stream_byte(stream_type, up_stream, reserved) & 0x7c) >> 2u8 == stream_type,
        (dcd_stream_byte(stream_type, up_stream, reserved) & 2 != 0) == up_stream,
        (dcd_stream_byte(stream_type, up_stream, reserved) & 1 != 0) == reserved,
{
    let b = dcd_stream_byte(stream_type, up_stream, reserved);
    assert((b & 0x7c) >> 2u8 == stream_type && (b & 2 != 0) == up_stream && (b & 1 != 0) == reserved)
        by (bit_vector)
        requires
            stream_type < 32,
            b == ((stream_type << 2u8) | (if up_stream { 2u8 } else { 0u8 }) | (if reserved { 1u8 } else { 0u8 })) as u8,
    ;
}

/// The payload is as long as the size that the descriptor reports for it.
pub proof fn lemma_dcd_payload_len(x: DecoderConfigDescriptor)
    ensures
        dcd_payload_bytes(x@).len() == dcd_payload_size(x),
{
    let l = x@.descriptors;
    if let Some(u) = x.dec_specific_info {
        UnknownDescriptor::lemma_size(u);
    }
    assert(views(x.profile_level_indication_index_descr@) =~= x.profile_level_indication_index_descr@);
    lemma_size_seq::<ProfileLevelIndicationIndexDescriptor>(x.profile_level_indication_index_descr@);
    lemma_size_seq::<UnknownDescriptor>(x.unknown_descriptors@);
}

/// The bytes of a decoder configuration: its base descriptor, whose size is the
/// length of the payload in 32 bits, then the payload.
pub open spec fn dcd_bytes(v: DecoderConfigDescriptorModel) -> Seq<u8> {
    BaseDescriptor::spec_serialize(
        BaseDescriptor {
            tag: DescriptorTag(DECODER_CONFIG_DESCR_TAG),
            size_of_instance: dcd_payload_bytes(v).len() as u32,
        },
    ) + dcd_payload_bytes(v)
}

impl Wire for DecoderConfigDescriptor {
    open spec fn spec_parse(s: Seq<u8>) -> SpecParse<DecoderConfigDescriptorModel> {
        dcd_parse(s)
    }

    open spec fn spec_writable(v: DecoderConfigDescriptorModel) -> bool {
        true
    }

    open spec fn spec_serialize(v: DecoderConfigDescriptorModel) -> Seq<u8> {
        dcd_bytes(v)
    }

    /// A descriptor that reads back as itself: the stream type fits in five bits, the
    /// buffer size in 24, the payload in 32; the decoder specific information has its
    /// tag and, like every other descriptor, a size that is that of its payload and not
    /// zero; the other descriptors have other tags.
    open spec fn spec_canonical(v: DecoderConfigDescriptorModel) -> bool {
        &&& v.stream_type.0 < 32
        &&& v.buffer_size_db < 0x100_0000
        &&& dcd_payload_bytes(v).len() <= u32::MAX
        &&& (v.descriptors.dec_specific_info matches Some(u) ==> UnknownDescriptor::spec_canonical(u)
            && u.base_descriptor.tag.0 == DEC_SPECIFIC_INFO_TAG)
        &&& forall|i: int|
            0 <= i < v.descriptors.unknown_descriptors.len() ==> #[trigger] dcd_other_descriptor(
                v.descriptors.unknown_descriptors[i],
            )
    }

    proof fn lemma_parse_len(s: Seq<u8>) {
        BaseDescriptor::lemma_parse_len(s);
    }

    proof fn lemma_size(x: DecoderConfigDescriptor) {
        lemma_dcd_payload_len(x);
        let b = BaseDescriptor {
            tag: DescriptorTag(DECODER_CONFIG_DESCR_TAG),
            size_of_instance: dcd_payload_bytes(x@).len() as u32,
        };
        BaseDescriptor::lemma_size(b);
    }

    #[verifier::spinoff_prover]
    #[verifier::rlimit(60)]
    proof fn lemma_roundtrip(v: DecoderConfigDescriptorModel, rest: Seq<u8>) {
        lemma_dcd_roundtrip(v, rest);
    }
    #[verifier::rlimit(60)]
    fn parse(data: &[u8], pos: usize) -> (r: Result<(DecoderConfigDescriptor, usize), IsoError>) {
        let ghost s = data@.skip(pos as int);
        let (b, h) = BaseDescriptor::parse(data, pos)?;
        proof {
            BaseDescriptor::lemma_parse_len(s);
            assert(s.skip(h - pos) =~= data@.skip(h as int));
        }
        let end = if ((data.len() - h) as u64) >= (b.size_of_instance as u64) {
            h + b.size_of_instance as usize
        } else {
            data.len()
        };
        let w = vstd::slice::slice_subrange(data, h, end);
        proof {
            assert(w@ =~= descriptor_window(data@.skip(h as int), b.size_of_instance));
        }
        if w.len() < 13 {
            return Err(IsoError::UnexpectedEof);
        }
        let object_type_indication = ObjectTypeIndication(w[0]);
        let byte = w[1];
        let stream_type = StreamType((byte & 0x7c) >> 2u8);
        let up_stream = byte & 2 != 0;
        let reserved = byte & 1 != 0;
        let buffer_size_db = read_u24_at(w, 2);
        let max_bitrate = read_u32_at(w, 5);
        let avg_bitrate = read_u32_at(w, 9);
        let (dec_specific_info, profile_level_indication_index_descr, unknown_descriptors) = read_dcd_list(w, 13);
        proof {
            assert(w@.skip(13) =~= w@.skip(13));
        }
        Ok((
            DecoderConfigDescriptor {
                object_type_indication,
                stream_type,
                up_stream,
                reserved,
                buffer_size_db,
                max_bitrate,
                avg_bitrate,
                dec_specific_info,
                profile_level_indication_index_descr,
                unknown_descriptors,
            },
            end,
        ))
    }

    fn serialize(&self, out: &mut Vec<u8>) -> (r: Result<(), IsoError>) {
        let mut payload: Vec<u8> = Vec::new();
        payload.push(self.object_type_indication.0);
        let st = self.stream_type.0;
        let byte: u8 = ((st << 2u8) | (if self.up_stream { 2u8 } else { 0u8 }) | (if self.reserved {
            1u8
        } else {
            0u8
        })) as u8;
        payload.push(byte);
        write_u24(&mut payload, self.buffer_size_db);
        write_u32(&mut payload, self.max_bitrate);
        write_u32(&mut payload, self.avg_bitrate);
        match &self.dec_specific_info {
            Some(u) => {
                let _ = u.serialize(&mut payload);
            },
            None => {},
        }
        let _ = serialize_all(&self.profile_level_indication_index_descr, &mut payload);
        let _ = serialize_all(&self.unknown_descriptors, &mut payload);
        proof {
            assert(views(self.profile_level_indication_index_descr@) =~= self.profile_level_indication_index_descr@);
            assert(payload@ =~= dcd_payload_bytes(self@));
        }
        let ghost before = out@;
        let b = BaseDescriptor { tag: DescriptorTag(DECODER_CONFIG_DESCR_TAG), size_of_instance: payload.len() as u32 };
        let _ = b.serialize(out);
        write_bytes(out, payload.as_slice());
        proof {
            assert(out@ =~= before + Self::spec_serialize(self@));
            lemma_append_prefix(before, Self::spec_serialize(self@));
        }
        Ok(())
    }
}

/// Writing a decoder configuration and reading it back gives it again, consuming
/// exactly what was written.
#[verifier::spinoff_prover]
#[verifier::rlimit(60)]
pub proof fn lemma_dcd_roundtrip(v: DecoderConfigDescriptorModel, rest: Seq<u8>)
    requires
        DecoderConfigDescriptor::spec_canonical(v),
    ensures
        dcd_parse(dcd_bytes(v) + rest) == Ok::<(DecoderConfigDescriptorModel, int), IsoError>(
            (v, dcd_bytes(v).len() as int),
        ),
{
    let l = v.descriptors;
    let p = dcd_payload_bytes(v);
    let b = BaseDescriptor { tag: DescriptorTag(DECODER_CONFIG_DESCR_TAG), size_of_instance: p.len() as u32 };
    let bs = BaseDescriptor::spec_serialize(b);
    BaseDescriptor::lemma_roundtrip(b, p + rest);
    BaseDescriptor::lemma_size(b);
    let s = dcd_bytes(v) + rest;
    assert(s =~= bs + (p + rest));
    let w = descriptor_window(s.skip(bs.len() as int), b.size_of_instance);
    assert(s.skip(bs.len() as int) =~= p + rest);
    assert(w =~= p);
    lemma_dcd_stream_byte(v.stream_type.0, v.up_stream, v.reserved);
    assert(w.subrange(2, 5) =~= u24_bytes(v.buffer_size_db));
    lemma_u24_at(w, 2, v.buffer_size_db);
    assert(w.subrange(5, 9) =~= u32_bytes(v.max_bitrate));
    lemma_u32_at(w, 5, v.max_bitrate);
    assert(w.subrange(9, 13) =~= u32_bytes(v.avg_bitrate));
    lemma_u32_at(w, 9, v.avg_bitrate);
    let dsi = match l.dec_specific_info {
        Some(u) => UnknownDescriptor::spec_serialize(u),
        None => Seq::<u8>::empty(),
    };
    let pb = ser_seq::<ProfileLevelIndicationIndexDescriptor>(l.profile_level_indication_index_descr);
    let ub = ser_seq::<UnknownDescriptor>(l.unknown_descriptors);
    assert(w.skip(13) =~= dsi + (pb + (ub + Seq::<u8>::empty())));
    let a0 = empty_dcd_list();
    let a1 = DecoderConfigListModel { dec_specific_info: l.dec_specific_info, ..a0 };
    if let Some(u) = l.dec_specific_info {
        lemma_dcd_list_unknown(u, pb + (ub + Seq::<u8>::empty()), a0);
    } else {
        assert(dsi + (pb + (ub + Seq::<u8>::empty())) =~= pb + (ub + Seq::<u8>::empty()));
    }
    lemma_dcd_list_plis(l.profile_level_indication_index_descr, ub + Seq::<u8>::empty(), a1);
    let a2 = DecoderConfigListModel {
        profile_level_indication_index_descr: a1.profile_level_indication_index_descr + l.profile_level_indication_index_descr,
        ..a1
    };
    lemma_dcd_list_unknowns(l.unknown_descriptors, Seq::empty(), a2);
    lemma_dcd_list_empty(
        DecoderConfigListModel { unknown_descriptors: a2.unknown_descriptors + l.unknown_descriptors, ..a2 },
    );
    assert(a2.profile_level_indication_index_descr =~= l.profile_level_indication_index_descr);
    assert(a2.unknown_descriptors + l.unknown_descriptors =~= l.unknown_descriptors);
}

/// Reads the descriptors of a decoder configuration from `pos` to the end of `w`.
#[verifier::rlimit(60)]
fn read_dcd_list(w: &[u8], pos: usize) -> (r: (
    Option<UnknownDescriptor>,
    Vec<ProfileLevelIndicationIndexDescriptor>,
    Vec<UnknownDescriptor>,
))
    requires
        pos <= w@.len(),
    ensures
        (DecoderConfigListModel {
            dec_specific_info: opt_descriptor_model(r.0),
            profile_level_indication_index_descr: r.1@,
            unknown_descriptors: views(r.2@),
        }) == dcd_list(w@.skip(pos as int), empty_dcd_list()),
{
    let mut dsi: Option<UnknownDescriptor> = None;
    let mut plis: Vec<ProfileLevelIndicationIndexDescriptor> = Vec::new();
    let mut unknowns: Vec<UnknownDescriptor> = Vec::new();
    let mut p = pos;
    proof {
        assert(views(unknowns@) =~= Seq::<UnknownDescriptorModel>::empty());
        assert(plis@ =~= Seq::<ProfileLevelIndicationIndexDescriptor>::empty());
    }
    loop
        invariant
            pos <= p <= w@.len(),
            dcd_list(w@.skip(pos as int), empty_dcd_list()) == dcd_list(
                w@.skip(p as int),
                DecoderConfigListModel {
                    dec_specific_info: opt_descriptor_model(dsi),
                    profile_level_indication_index_descr: plis@,
                    unknown_descriptors: views(unknowns@),
                },
            ),
        decreases w@.len() - p,
    {
        let ghost s = w@.skip(p as int);
        let ghost acc = DecoderConfigListModel {
            dec_specific_info: opt_descriptor_model(dsi),
            profile_level_indication_index_descr: plis@,
            unknown_descriptors: views(unknowns@),
        };
        let (b, h) = match BaseDescriptor::parse(w, p) {
            Ok(x) => x,
            Err(_) => {
                return (dsi, plis, unknowns);
            },
        };
        proof {
            BaseDescriptor::lemma_parse_len(s);
            assert(s.skip(h - p) =~= w@.skip(h as int));
        }
        if b.tag.0 == PROFILE_LEVEL_INDICATION_INDEX_DESCR_TAG {
            if b.size_of_instance < 1 || h >= w.len() {
                return (dsi, plis, unknowns);
            }
            let d = ProfileLevelIndicationIndexDescriptor { profile_level_indication_index: w[h] };
            proof {
                assert(w@.skip(h as int)[0] == w@[h as int]);
                assert(w@.skip(h as int).skip(1) =~= w@.skip(h + 1));
            }
            plis.push(d);
            p = h + 1;
        } else {
            match read_descriptor_body(w, h, b) {
                Ok((u, e)) => {
                    proof {
                        assert(w@.skip(h as int).skip(e - h) =~= w@.skip(e as int));
                    }
                    if b.tag.0 == DEC_SPECIFIC_INFO_TAG {
                        dsi = Some(u);
                    } else {
                        let ghost old_u = views(unknowns@);
                        unknowns.push(u);
                        proof {
                            assert(views(unknowns@) =~= old_u.push(u@));
                        }
                    }
                    p = e;
                },
                Err(_) => {
                    return (dsi, plis, unknowns);
                },
            }
        }
    }
}


/// The fixed fields of a decoder configuration, at their offsets in the payload
/// window that the base descriptor gives (ISO/IEC 14496-1 - 7.2.6.6): the object type
/// is byte 0; byte 1 holds the stream type in its six bits below the top one (of
/// which the low five are read), then the upstream flag, then the reserved bit; the
/// buffer size is spelled by bytes 2..5, the maximum bitrate by bytes 5..9 and the
/// average bitrate by bytes 9..13. A window of fewer than 13 bytes is an unexpected end.
pub proof fn lemma_dcd_layout(s: Seq<u8>)
    ensures
        match BaseDescriptor::spec_parse(s) {
            Err(e) => dcd_parse(s) == Err::<(DecoderConfigDescriptorModel, int), IsoError>(e),
            Ok((b, h)) => {
                let w = descriptor_window(s.skip(h), b.size_of_instance);
                &&& w.len() < 13 ==> dcd_parse(s) == Err::<(DecoderConfigDescriptorModel, int), IsoError>(
                    IsoError::UnexpectedEof,
                )
                &&& w.len() >= 13 ==> (dcd_parse(s) matches Ok((v, n)) && n == h + w.len()
                    && v.object_type_indication.0 == w[0] && v.stream_type.0 == w[1] / 4 % 32 && v.up_stream
                    == (w[1] / 2 % 2 == 1) && v.reserved == (w[1] % 2 == 1) && v.buffer_size_db
                    == crate::codec::be_int(w, 2, 3) && v.max_bitrate == crate::codec::be_int(w, 5, 4)
                    && v.avg_bitrate == crate::codec::be_int(w, 9, 4))
            },
        },
{
    if let Ok((b, h)) = BaseDescriptor::spec_parse(s) {
        let w = descriptor_window(s.skip(h), b.size_of_instance);
        if w.len() >= 13 {
            let byte = w[1];
            assert((byte & 0x7c) >> 2u8 == byte / 4 % 32 && (byte & 2 != 0) == (byte / 2 % 2 == 1) && (byte
                & 1 != 0) == (byte % 2 == 1)) by (bit_vector);
            crate::codec::lemma_be_int_u24(w, 2);
            crate::codec::lemma_be_int_u32(w, 5);
            crate::codec::lemma_be_int_u32(w, 9);
        }
    }
}

/// The payload written for a decoder configuration: byte 0 is the object type, the
/// maximum bitrate is spelled by bytes 5..9 and the average bitrate by bytes 9..13,
/// and a buffer size that fits in 24 bits by bytes 2..5.
pub proof fn lemma_dcd_payload_layout(v: DecoderConfigDescriptorModel)
    ensures
        dcd_payload_bytes(v).len() >= 13,
        dcd_payload_bytes(v)[0] == v.object_type_indication.0,
        crate::codec::be_int(dcd_payload_bytes(v), 5, 4) == v.max_bitrate,
        crate::codec::be_int(dcd_payload_bytes(v), 9, 4) == v.avg_bitrate,
        v.buffer_size_db < 0x100_0000 ==> crate::codec::be_int(dcd_payload_bytes(v), 2, 3) == v.buffer_size_db,
{
    let p = dcd_payload_bytes(v);
    assert(p.subrange(5, 9) =~= u32_bytes(v.max_bitrate));
    assert(p.subrange(9, 13) =~= u32_bytes(v.avg_bitrate));
    assert(p.subrange(2, 5) =~= u24_bytes(v.buffer_size_db));
    crate::codec::lemma_be_int_u32_bytes(p, 5, v.max_bitrate);
    crate::codec::lemma_be_int_u32_bytes(p, 9, v.avg_bitrate);
    if v.buffer_size_db < 0x100_0000 {
        crate::codec::lemma_be_int_u24_bytes(p, 2, v.buffer_size_db);
    }
}

} // verus!
