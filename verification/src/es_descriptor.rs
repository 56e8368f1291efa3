//! The elementary stream descriptor (ISO/IEC 14496-1 - 7.2.6.5).

use vstd::prelude::*;
use vstd::utf8::{decode_utf8, encode_utf8, valid_utf8};

use crate::codec::{
    be_u16_at, lemma_append_prefix, lemma_u16_at, read_u16_at, u16_bytes, write_bytes, write_u16, IsoError,
    SpecParse,
};
use crate::common_types::{string_bytes, string_from_utf8};
use crate::decoder_config::{
    descriptor_window, DecoderConfigDescriptor, DecoderConfigDescriptorModel, UnknownDescriptor,
    UnknownDescriptorModel,
};
use crate::object_description::{vlq_len, vlq_len_exec, BaseDescriptor, DescriptorTag, SLConfigDescriptor};
use crate::wire::{
    lemma_ser_seq_cons, lemma_size_seq, ser_seq, serialize_all, size_all, size_seq, views, IsoSized, Wire,
};

verus! {

/// The tag of the elementary stream descriptor.
pub const ES_DESCR_TAG: u8 = 0x03;

/// Elementary stream descriptor
///
/// ISO/IEC 14496-1 - 7.2.6.5
#[derive(Debug)]
pub struct ESDescriptor {
    /// The identifier of the stream.
    pub es_id: u16,
    /// The relative priority of the stream, in five bits.
    pub stream_priority: u8,
    /// The stream that this one depends on.
    pub depends_on_es_id: Option<u16>,
    /// The location of the stream, at most 255 bytes of UTF-8.
    pub url_string: Option<String>,
    /// The stream that carries the clock of this one.
    pub ocr_es_id: Option<u16>,
    /// The decoder configuration.
    pub dec_config_descr: DecoderConfigDescriptor,
    /// The sync layer configuration.
    pub sl_config_descr: Option<SLConfigDescriptor>,
    /// Any other descriptors.
    pub unknown_descriptors: Vec<UnknownDescriptor>,
}

/// The model of an [`ESDescriptor`].
pub struct ESDescriptorModel {
    pub es_id: u16,
    pub stream_priority: u8,
    pub depends_on_es_id: Option<u16>,
    pub url_string: Option<Seq<char>>,
    pub ocr_es_id: Option<u16>,
    pub dec_config_descr: DecoderConfigDescriptorModel,
    pub sl_config_descr: Option<SLConfigDescriptor>,
    pub unknown_descriptors: Seq<UnknownDescriptorModel>,
}

impl View for ESDescriptor {
    type V = ESDescriptorModel;

    open spec fn view(&self) -> ESDescriptorModel {
        ESDescriptorModel {
            es_id: self.es_id,
            stream_priority: self.stream_priority,
            depends_on_es_id: self.depends_on_es_id,
            url_string: match self.url_string {
                Some(u) => Some(u@),
                None => None,
            },
            ocr_es_id: self.ocr_es_id,
            dec_config_descr: self.dec_config_descr@,
            sl_config_descr: self.sl_config_descr,
            unknown_descriptors: views(self.unknown_descriptors@),
        }
    }
}

/// Reading descriptors until the input ends or one is cut short.
pub open spec fn es_list(s: Seq<u8>, acc: Seq<UnknownDescriptorModel>) -> Seq<UnknownDescriptorModel>
    decreases s.len(),
{
    match UnknownDescriptor::spec_parse(s) {
        Ok((u, n)) => if 0 < n <= s.len() {
            es_list(s.skip(n), acc.push(u))
        } else {
            acc
        },
        Err(_) => acc,
    }
}

/// An optional 16-bit field at `p` where `present`.
pub open spec fn es_opt_u16(w: Seq<u8>, p: int, present: bool) -> Result<(Option<u16>, int), IsoError> {
    if !present {
        Ok((None, p))
    } else if w.len() < p + 2 {
        Err(IsoError::UnexpectedEof)
    } else {
        Ok((Some(be_u16_at(w, p)), p + 2))
    }
}

/// The URL at `p` where `present`: a length byte, then that many bytes of UTF-8.
pub open spec fn es_url(w: Seq<u8>, p: int, present: bool) -> Result<(Option<Seq<char>>, int), IsoError> {
    if !present {
        Ok((None, p))
    } else if w.len() < p + 1 {
        Err(IsoError::UnexpectedEof)
    } else if w.len() < p + 1 + w[p] {
        Err(IsoError::UnexpectedEof)
    } else if !valid_utf8(w.subrange(p + 1, p + 1 + w[p])) {
        Err(IsoError::InvalidData)
    } else {
        Ok((Some(decode_utf8(w.subrange(p + 1, p + 1 + w[p]))), p + 1 + w[p]))
    }
}

/// The payload of an elementary stream descriptor: the identifier, the byte of the
/// three flags and the priority, the fields that the flags announce, the decoder
/// configuration, a sync layer configuration unless the input ends first, then any
/// other descriptors.
pub open spec fn es_body(w: Seq<u8>) -> Result<ESDescriptorModel, IsoError> {
    if w.len() < 3 {
        Err(IsoError::UnexpectedEof)
    } else {
        let f = w[2];
        match es_opt_u16(w, 3, f & 0x80 != 0) {
            Err(e) => Err(e),
            Ok((dep, p1)) => match es_url(w, p1, f & 0x40 != 0) {
                Err(e) => Err(e),
                Ok((url, p2)) => match es_opt_u16(w, p2, f & 0x20 != 0) {
                    Err(e) => Err(e),
                    Ok((ocr, p3)) => match DecoderConfigDescriptor::spec_parse(w.skip(p3)) {
                        Err(e) => Err(e),
                        Ok((dcd, n)) => {
                            let p4 = p3 + n;
                            let sl = match SLConfigDescriptor::spec_parse(w.skip(p4)) {
                                Ok((x, m)) => Ok((Some(x), m)),
                                Err(IsoError::UnexpectedEof) => Ok((None, 0int)),
                                Err(e) => Err(e),
                            };
                            match sl {
                                Err(e) => Err(e),
                                Ok((sl, m)) => Ok(
                                    ESDescriptorModel {
                                        es_id: be_u16_at(w, 0),
                                        stream_priority: f & 0x1f,
                                        depends_on_es_id: dep,
                                        url_string: url,
                                        ocr_es_id: ocr,
                                        dec_config_descr: dcd,
                                        sl_config_descr: sl,
                                        unknown_descriptors: es_list(w.skip(p4 + m), Seq::empty()),
                                    },
                                ),
                            }
                        },
                    },
                },
            },
        }
    }
}

/// Reading an elementary stream descriptor: the base descriptor, then its payload
/// within the window that it gives; the descriptor consumes its whole window.
pub open spec fn es_parse(s: Seq<u8>) -> SpecParse<ESDescriptorModel> {
    match BaseDescriptor::spec_parse(s) {
        Err(e) => Err(e),
        Ok((b, h)) => {
            let w = descriptor_window(s.skip(h), b.size_of_instance);
            match es_body(w) {
                Ok(v) => Ok((v, h + w.len())),
                Err(e) => Err(e),
            }
        },
    }
}

/// The byte of the three flags and the priority.
pub open spec fn es_flags_byte(v: ESDescriptorModel) -> u8 {
    (if v.depends_on_es_id is Some { 0x80u8 } else { 0u8 }) | (if v.url_string is Some { 0x40u8 } else { 0u8 }) | (
    if v.ocr_es_id is Some { 0x20u8 } else { 0u8 }) | (v.stream_priority & 0x1f)
}

pub open spec fn opt_u16_bytes(v: Option<u16>) -> Seq<u8> {
    match v {
        Some(x) => u16_bytes(x),
        None => Seq::empty(),
    }
}

/// The bytes of a URL: its length in a byte, then its UTF-8 bytes.
pub open spec fn url_bytes(v: Option<Seq<char>>) -> Seq<u8> {
    match v {
        Some(u) => seq![encode_utf8(u).len() as u8] + encode_utf8(u),
        None => Seq::empty(),
    }
}

/// The payload of an elementary stream descriptor.
pub open spec fn es_payload_bytes(v: ESDescriptorModel) -> Seq<u8> {
    u16_bytes(v.es_id) + seq![es_flags_byte(v)] + opt_u16_bytes(v.depends_on_es_id) + url_bytes(v.url_string)
        + opt_u16_bytes(v.ocr_es_id) + DecoderConfigDescriptor::spec_serialize(v.dec_config_descr) + (
    match v.sl_config_descr {
        Some(x) => SLConfigDescriptor::spec_serialize(x),
        None => Seq::empty(),
    }) + ser_seq::<UnknownDescriptor>(v.unknown_descriptors)
}

/// The size of the payload that the descriptor reports.
pub open spec fn es_payload_size(x: ESDescriptor) -> nat {
    3 + (if x.depends_on_es_id is Some { 2nat } else { 0 }) + (match x.url_string {
        Some(u) => 1 + encode_utf8(u@).len(),
        None => 0,
    }) + (if x.ocr_es_id is Some { 2nat } else { 0 }) + x.dec_config_descr.spec_size() + (match x.sl_config_descr {
        Some(s) => s.spec_size(),
        None => 0,
    }) + size_seq::<UnknownDescriptor>(x.unknown_descriptors@)
}

impl IsoSized for ESDescriptor {
    /// The base descriptor, whose size field holds the payload size in 32 bits, then
    /// the payload.
    open spec fn spec_size(&self) -> nat {
        1 + vlq_len((es_payload_size(*self) as u32) as nat) + es_payload_size(*self)
    }

    fn size(&self) -> (n: usize) {
        let p = self.payload_size();
        1 + vlq_len_exec(p as u32) + p
    }
}

impl ESDescriptor {
    /// The number of bytes of the payload.
    fn payload_size(&self) -> (n: usize)
        requires
            es_payload_size(*self) <= usize::MAX,
        ensures
            n == es_payload_size(*self),
    {
        let mut p: usize = 3;
        if self.depends_on_es_id.is_some() {
            p = p + 2;
        }
        match &self.url_string {
            Some(u) => {
                p = p + 1 + string_bytes(u).len();
            },
            None => {},
        }
        if self.ocr_es_id.is_some() {
            p = p + 2;
        }
        p = p + self.dec_config_descr.size();
        match &self.sl_config_descr {
            Some(s) => {
                p = p + s.size();
            },
            None => {},
        }
        proof {
            crate::wire::lemma_size_seq_mono::<UnknownDescriptor>(self.unknown_descriptors@, 0);
        }
        p = p + size_all(&self.unknown_descriptors);
        p
    }

    /// The fields that the descriptor begins with: its tag and the size of its payload.
    pub fn base_descriptor(&self) -> (r: BaseDescriptor)
        requires
            es_payload_size(*self) <= u32::MAX,
        ensures
            r == (BaseDescriptor { tag: DescriptorTag(ES_DESCR_TAG), size_of_instance: es_payload_size(*self) as u32 }),
    {
        BaseDescriptor { tag: DescriptorTag(ES_DESCR_TAG), size_of_instance: self.payload_size() as u32 }
    }
}

/// Written descriptors of any kind are read back, whatever follows the list when it
/// is empty.
pub proof fn lemma_es_list(us: Seq<UnknownDescriptorModel>, acc: Seq<UnknownDescriptorModel>)
    requires
        forall|i: int| 0 <= i < us.len() ==> #[trigger] UnknownDescriptor::spec_canonical(us[i]),
    ensures
        es_list(ser_seq::<UnknownDescriptor>(us), acc) == acc + us,
    decreases us.len(),
{
    if us.len() == 0 {
        UnknownDescriptor::lemma_parse_len(Seq::empty());
        assert(ser_seq::<UnknownDescriptor>(us) =~= Seq::<u8>::empty());
        assert(acc + us =~= acc);
    } else {
        let first = us[0];
        let tail = us.drop_first();
        assert(us =~= seq![first] + tail);
        assert(UnknownDescriptor::spec_canonical(us[0]));
        assert forall|i: int| 0 <= i < tail.len() implies #[trigger] UnknownDescriptor::spec_canonical(tail[i]) by {
            assert(UnknownDescriptor::spec_canonical(us[i + 1]));
        }
        lemma_ser_seq_cons::<UnknownDescriptor>(first, tail);
        let tb = ser_seq::<UnknownDescriptor>(tail);
        let s = ser_seq::<UnknownDescriptor>(us);
        UnknownDescriptor::lemma_roundtrip(first, tb);
        UnknownDescriptor::lemma_parse_len(s);
        assert(s.skip(UnknownDescriptor::spec_serialize(first).len() as int) =~= tb);
        lemma_es_list(tail, acc.push(first));
        assert(acc.push(first) + tail =~= acc + us);
    }
}

/// Reads descriptors from `pos` until the input ends or one is cut short.
fn read_es_list(w: &[u8], pos: usize) -> (r: Vec<UnknownDescriptor>)
    requires
        pos <= w@.len(),
    ensures
        views(r@) == es_list(w@.skip(pos as int), Seq::empty()),
{
    let mut out: Vec<UnknownDescriptor> = Vec::new();
    let mut p = pos;
    proof {
        assert(views(out@) =~= Seq::<UnknownDescriptorModel>::empty());
    }
    loop
        invariant
            pos <= p <= w@.len(),
            es_list(w@.skip(pos as int), Seq::empty()) == es_list(w@.skip(p as int), views(out@)),
        decreases w@.len() - p,
    {
        let ghost s = w@.skip(p as int);
        match UnknownDescriptor::parse(w, p) {
            Ok((u, e)) => {
                proof {
                    UnknownDescriptor::lemma_parse_len(s);
                    assert(s.skip(e - p) =~= w@.skip(e as int));
                    assert(views(out@.push(u)) =~= views(out@).push(u@));
                }
                out.push(u);
                p = e;
            },
            Err(_) => {
                return out;
            },
        }
    }
}

/// Reads an optional 16-bit field at `p`.
fn read_opt_u16(w: &[u8], p: usize, present: bool) -> (r: Result<(Option<u16>, usize), IsoError>)
    requires
        p <= w@.len(),
    ensures
        match (es_opt_u16(w@, p as int, present), r) {
            (Ok((v, n)), Ok((x, q))) => x == v && q == n,
            (Err(e), Err(f)) => e == f,
            _ => false,
        },
{
    if !present {
        Ok((None, p))
    } else if w.len() - p < 2 {
        Err(IsoError::UnexpectedEof)
    } else {
        Ok((Some(read_u16_at(w, p)), p + 2))
    }
}

/// Reads the URL at `p`.
fn read_url(w: &[u8], p: usize, present: bool) -> (r: Result<(Option<String>, usize), IsoError>)
    requires
        p <= w@.len(),
    ensures
        match (es_url(w@, p as int, present), r) {
            (Ok((v, n)), Ok((x, q))) => q == n && match (v, x) {
                (Some(a), Some(b)) => b@ == a,
                (None, None) => true,
                _ => false,
            },
            (Err(e), Err(f)) => e == f,
            _ => false,
        },
{
    if !present {
        return Ok((None, p));
    }
    if w.len() - p < 1 {
        return Err(IsoError::UnexpectedEof);
    }
    let l = w[p] as usize;
    if w.len() - p - 1 < l {
        return Err(IsoError::UnexpectedEof);
    }
    let bytes = vstd::slice::slice_to_vec(vstd::slice::slice_subrange(w, p + 1, p + 1 + l));
    proof {
        assert(bytes@ =~= w@.subrange(p + 1, p + 1 + l));
    }
    match string_from_utf8(bytes) {
        Some(u) => Ok((Some(u), p + 1 + l)),
        None => Err(IsoError::InvalidData),
    }
}

impl Wire for ESDescriptor {
    open spec fn spec_parse(s: Seq<u8>) -> SpecParse<ESDescriptorModel> {
        es_parse(s)
    }

    /// The sync layer configuration can be written where it is present.
    open spec fn spec_writable(v: ESDescriptorModel) -> bool {
        v.sl_config_descr matches Some(x) ==> SLConfigDescriptor::spec_writable(x)
    }

    /// The base descriptor, whose size is the length of the payload in 32 bits, then
    /// the payload.
    open spec fn spec_serialize(v: ESDescriptorModel) -> Seq<u8> {
        BaseDescriptor::spec_serialize(
            BaseDescriptor { tag: DescriptorTag(ES_DESCR_TAG), size_of_instance: es_payload_bytes(v).len() as u32 },
        ) + es_payload_bytes(v)
    }

    /// The priority fits five bits, the URL 255 bytes and the payload 32 bits; the
    /// decoder configuration, the sync layer configuration and the other descriptors
    /// read back as themselves; other descriptors follow a sync layer configuration.
    open spec fn spec_canonical(v: ESDescriptorModel) -> bool {
        &&& v.stream_priority < 32
        &&& (v.url_string matches Some(u) ==> encode_utf8(u).len() <= 255)
        &&& es_payload_bytes(v).len() <= u32::MAX
        &&& DecoderConfigDescriptor::spec_canonical(v.dec_config_descr)
        &&& (v.sl_config_descr matches Some(x) ==> SLConfigDescriptor::spec_canonical(x))
        &&& (v.sl_config_descr is None ==> v.unknown_descriptors.len() == 0)
        &&& forall|i: int|
            0 <= i < v.unknown_descriptors.len() ==> #[trigger] UnknownDescriptor::spec_canonical(
                v.unknown_descriptors[i],
            )
    }

    proof fn lemma_parse_len(s: Seq<u8>) {
        BaseDescriptor::lemma_parse_len(s);
    }

    proof fn lemma_size(x: ESDescriptor) {
        DecoderConfigDescriptor::lemma_size(x.dec_config_descr);
        if let Some(sl) = x.sl_config_descr {
            SLConfigDescriptor::lemma_size(sl);
        }
        lemma_size_seq::<UnknownDescriptor>(x.unknown_descriptors@);
        assert(es_payload_bytes(x@).len() == es_payload_size(x));
        let b = BaseDescriptor { tag: DescriptorTag(ES_DESCR_TAG), size_of_instance: es_payload_bytes(x@).len() as u32 };
        BaseDescriptor::lemma_size(b);
    }

    proof fn lemma_roundtrip(v: ESDescriptorModel, rest: Seq<u8>) {
        lemma_es_roundtrip(v, rest);
    }

    #[verifier::rlimit(60)]
    fn parse(data: &[u8], pos: usize) -> (r: Result<(ESDescriptor, usize), IsoError>) {
        let ghost s = data@.skip(pos as int);
        let (b, h) = BaseDescriptor::parse(data, pos)?;
        proof {
            BaseDescriptor::lemma_parse_len(s);
            assert(s.skip(h - pos) =~= data@.skip(h as int));
        }
        let end = if ((data.len() - h) as u64) >= (b.size_of_instance as u64) {
            h + b.size_of_instance as usize
        } else {
            data.len()
        };
        let w = vstd::slice::slice_subrange(data, h, end);
        proof {
            assert(w@ =~= descriptor_window(data@.skip(h as int), b.size_of_instance));
        }
        let v = parse_es_body(w)?;
        Ok((v, end))
    }

    #[verifier::spinoff_prover]
    #[verifier::rlimit(80)]
    fn serialize(&self, out: &mut Vec<u8>) -> (r: Result<(), IsoError>) {
        let ghost before = out@;
        let mut payload: Vec<u8> = Vec::new();
        write_u16(&mut payload, self.es_id);
        let flags: u8 = (if self.depends_on_es_id.is_some() { 0x80u8 } else { 0u8 }) | (if self.url_string.is_some() {
            0x40u8
        } else {
            0u8
        }) | (if self.ocr_es_id.is_some() { 0x20u8 } else { 0u8 }) | (self.stream_priority & 0x1f);
        payload.push(flags);
        match self.depends_on_es_id {
            Some(d) => write_u16(&mut payload, d),
            None => {},
        }
        match &self.url_string {
            Some(u) => {
                let bytes = string_bytes(u);
                payload.push(bytes.len() as u8);
                write_bytes(&mut payload, bytes);
            },
            None => {},
        }
        match self.ocr_es_id {
            Some(d) => write_u16(&mut payload, d),
            None => {},
        }
        let _ = self.dec_config_descr.serialize(&mut payload);
        match &self.sl_config_descr {
            Some(sl) => {
                let ghost mid = payload@;
                let r = sl.serialize(&mut payload);
                if r.is_err() {
                    proof {
                        lemma_append_prefix(before, Seq::empty());
                        assert(before + Seq::<u8>::empty() =~= before);
                    }
                    return Err(IsoError::InvalidData);
                }
            },
            None => {},
        }
        let _ = serialize_all(&self.unknown_descriptors, &mut payload);
        proof {
            assert(payload@ =~= es_payload_bytes(self@));
        }
        let b = BaseDescriptor { tag: DescriptorTag(ES_DESCR_TAG), size_of_instance: payload.len() as u32 };
        let _ = b.serialize(out);
        write_bytes(out, payload.as_slice());
        proof {
            assert(out@ =~= before + Self::spec_serialize(self@));
            lemma_append_prefix(before, Self::spec_serialize(self@));
        }
        Ok(())
    }
}

/// Reads the payload of an elementary stream descriptor.
#[verifier::spinoff_prover]
#[verifier::rlimit(80)]
fn parse_es_body(w: &[u8]) -> (r: Result<ESDescriptor, IsoError>)
    ensures
        match (es_body(w@), r) {
            (Ok(v), Ok(x)) => x@ == v,
            (Err(e), Err(f)) => e == f,
            _ => false,
        },
{
    if w.len() < 3 {
        return Err(IsoError::UnexpectedEof);
    }
    let es_id = read_u16_at(w, 0);
    let f = w[2];
    let (depends_on_es_id, p1) = read_opt_u16(w, 3, f & 0x80 != 0)?;
    let (url_string, p2) = read_url(w, p1, f & 0x40 != 0)?;
    let (ocr_es_id, p3) = read_opt_u16(w, p2, f & 0x20 != 0)?;
    proof {
        assert(w@.skip(p3 as int) =~= w@.skip(p3 as int));
    }
    let (dec_config_descr, p4) = DecoderConfigDescriptor::parse(w, p3)?;
    proof {
        DecoderConfigDescriptor::lemma_parse_len(w@.skip(p3 as int));
    }
    let (sl_config_descr, p5) = match SLConfigDescriptor::parse(w, p4) {
        Ok((x, e)) => (Some(x), e),
        Err(IsoError::UnexpectedEof) => (None, p4),
        Err(e) => {
            return Err(e);
        },
    };
    proof {
        SLConfigDescriptor::lemma_parse_len(w@.skip(p4 as int));
    }
    let unknown_descriptors = read_es_list(w, p5);
    Ok(
        ESDescriptor {
            es_id,
            stream_priority: f & 0x1f,
            depends_on_es_id,
            url_string,
            ocr_es_id,
            dec_config_descr,
            sl_config_descr,
            unknown_descriptors,
        },
    )
}

/// The byte of flags and priority reads back as the flags and the priority.
pub proof fn lemma_es_flags(v: ESDescriptorModel)
    requires
        v.stream_priority < 32,
    ensures
        (es_flags_byte(v) & 0x80 != 0) == (v.depends_on_es_id is Some),
        (es_flags_byte(v) & 0x40 != 0) == (v.url_string is Some),
        (es_flags_byte(v) & 0x20 != 0) == (v.ocr_es_id is Some),
        es_flags_byte(v) & 0x1f == v.stream_priority,
{
    let a = v.depends_on_es_id is Some;
    let b = v.url_string is Some;
    let c = v.ocr_es_id is Some;
    let p = v.stream_priority;
    let x = es_flags_byte(v);
    assert((x & 0x80 != 0) == a && (x & 0x40 != 0) == b && (x & 0x20 != 0) == c && x & 0x1f == p) by (bit_vector)
        requires
            p < 32,
            x == (if a { 0x80u8 } else { 0u8 }) | (if b { 0x40u8 } else { 0u8 }) | (if c { 0x20u8 } else { 0u8 }) | (p
                & 0x1f),
    ;
}

/// Writing an elementary stream descriptor and reading it back gives it again.
#[verifier::spinoff_prover]
#[verifier::rlimit(100)]
pub proof fn lemma_es_roundtrip(v: ESDescriptorModel, rest: Seq<u8>)
    requires
        ESDescriptor::spec_writable(v),
        ESDescriptor::spec_canonical(v),
    ensures
        es_parse(ESDescriptor::spec_serialize(v) + rest) == Ok::<(ESDescriptorModel, int), IsoError>(
            (v, ESDescriptor::spec_serialize(v).len() as int),
        ),
{
    let p = es_payload_bytes(v);
    let b = BaseDescriptor { tag: DescriptorTag(ES_DESCR_TAG), size_of_instance: p.len() as u32 };
    let bs = BaseDescriptor::spec_serialize(b);
    BaseDescriptor::lemma_roundtrip(b, p + rest);
    BaseDescriptor::lemma_size(b);
    let s = ESDescriptor::spec_serialize(v) + rest;
    assert(s =~= bs + (p + rest));
    assert(s.skip(bs.len() as int) =~= p + rest);
    assert(descriptor_window(s.skip(bs.len() as int), b.size_of_instance) =~= p);
    lemma_es_body(v);
}

/// The fields before the decoder configuration: the identifier, the byte of flags
/// and priority, and the fields that the flags announce.
pub open spec fn es_head_bytes(v: ESDescriptorModel) -> Seq<u8> {
    u16_bytes(v.es_id) + seq![es_flags_byte(v)] + opt_u16_bytes(v.depends_on_es_id) + url_bytes(v.url_string)
        + opt_u16_bytes(v.ocr_es_id)
}

/// The fields before the decoder configuration read back as themselves.
#[verifier::spinoff_prover]
#[verifier::rlimit(60)]
proof fn lemma_es_head(v: ESDescriptorModel, rest: Seq<u8>)
    requires
        v.stream_priority < 32,
        v.url_string matches Some(u) ==> encode_utf8(u).len() <= 255,
    ensures
        ({
            let w = es_head_bytes(v) + rest;
            let f = w[2];
            let p1: int = 3 + opt_u16_bytes(v.depends_on_es_id).len() as int;
            let p2: int = p1 + url_bytes(v.url_string).len() as int;
            let p3 = es_head_bytes(v).len() as int;
            &&& w.len() >= 3
            &&& be_u16_at(w, 0) == v.es_id
            &&& f & 0x1f == v.stream_priority
            &&& es_opt_u16(w, 3, f & 0x80 != 0) == Ok::<(Option<u16>, int), IsoError>((v.depends_on_es_id, p1))
            &&& es_url(w, p1, f & 0x40 != 0) == Ok::<(Option<Seq<char>>, int), IsoError>((v.url_string, p2))
            &&& es_opt_u16(w, p2, f & 0x20 != 0) == Ok::<(Option<u16>, int), IsoError>((v.ocr_es_id, p3))
            &&& w.skip(p3) == rest
        }),
{
    let w = es_head_bytes(v) + rest;
    let dep = opt_u16_bytes(v.depends_on_es_id);
    let url = url_bytes(v.url_string);
    let ocr = opt_u16_bytes(v.ocr_es_id);
    lemma_es_flags(v);
    assert(w.subrange(0, 2) =~= u16_bytes(v.es_id));
    lemma_u16_at(w, 0, v.es_id);
    assert(w[2] == es_flags_byte(v));
    let p1: int = 3 + dep.len() as int;
    if let Some(d) = v.depends_on_es_id {
        assert(w.subrange(3, 5) =~= u16_bytes(d));
        lemma_u16_at(w, 3, d);
    }
    let p2: int = p1 + url.len();
    if let Some(u) = v.url_string {
        let e = encode_utf8(u);
        assert(w[p1] == e.len() as u8);
        assert(w.subrange(p1 + 1, p1 + 1 + e.len() as int) =~= e);
        vstd::utf8::encode_utf8_valid_utf8(u);
        vstd::utf8::encode_utf8_decode_utf8(u);
    }
    let p3: int = p2 + ocr.len();
    if let Some(d) = v.ocr_es_id {
        assert(w.subrange(p2, p2 + 2) =~= u16_bytes(d));
        lemma_u16_at(w, p2, d);
    }
    assert(w.skip(p3) =~= rest);
}

/// The payload of a canonical elementary stream descriptor reads back as it.
#[verifier::spinoff_prover]
#[verifier::rlimit(60)]
pub proof fn lemma_es_body(v: ESDescriptorModel)
    requires
        ESDescriptor::spec_writable(v),
        ESDescriptor::spec_canonical(v),
    ensures
        es_body(es_payload_bytes(v)) == Ok::<ESDescriptorModel, IsoError>(v),
{
    let w = es_payload_bytes(v);
    let dcd = DecoderConfigDescriptor::spec_serialize(v.dec_config_descr);
    let sl = match v.sl_config_descr {
        Some(x) => SLConfigDescriptor::spec_serialize(x),
        None => Seq::<u8>::empty(),
    };
    let us = ser_seq::<UnknownDescriptor>(v.unknown_descriptors);
    let tail = dcd + (sl + us);
    assert(w =~= es_head_bytes(v) + tail);
    lemma_es_head(v, tail);
    let p3 = es_head_bytes(v).len() as int;
    assert(w.skip(p3) == tail);
    DecoderConfigDescriptor::lemma_roundtrip(v.dec_config_descr, sl + us);
    let p4: int = p3 + dcd.len();
    assert(w.skip(p4) =~= sl + us);
    match v.sl_config_descr {
        Some(x) => {
            SLConfigDescriptor::lemma_roundtrip(x, us);
            assert(w.skip(p4 + sl.len() as int) =~= us);
        },
        None => {
            assert(v.unknown_descriptors =~= Seq::<UnknownDescriptorModel>::empty());
            assert(us =~= Seq::<u8>::empty());
            assert(w.skip(p4) =~= Seq::<u8>::empty());
            BaseDescriptor::lemma_parse_len(Seq::empty());
            assert(w.skip(p4 + 0) =~= us);
        },
    }
    lemma_es_list(v.unknown_descriptors, Seq::empty());
    assert(Seq::<UnknownDescriptorModel>::empty() + v.unknown_descriptors =~= v.unknown_descriptors);
}


/// The start of an elementary stream descriptor's payload (ISO/IEC 14496-1 - 7.2.6.5):
/// the ES id spelled by bytes 0..2; in byte 2 the top bit announces the id of the
/// stream depended on, the next the URL, the next the OCR stream id, and the low five
/// bits are the stream priority; the id depended on, when announced, is spelled by
/// bytes 3..5. Fewer than three bytes are an unexpected end.
pub proof fn lemma_es_descriptor_layout(w: Seq<u8>)
    ensures
        w.len() < 3 ==> es_body(w) == Err::<ESDescriptorModel, IsoError>(IsoError::UnexpectedEof),
        w.len() >= 3 ==> (es_body(w) matches Ok(v) ==> (v.es_id == crate::codec::be_int(w, 0, 2) && v.stream_priority
            == w[2] % 32 && (v.depends_on_es_id is Some) == (w[2] >= 0x80) && (v.url_string is Some) == (w[2] / 0x40
            % 2 == 1) && (v.ocr_es_id is Some) == (w[2] / 0x20 % 2 == 1) && (w[2] >= 0x80
            ==> v.depends_on_es_id.unwrap() == crate::codec::be_int(w, 3, 2)))),
{
    if w.len() >= 3 {
        let f = w[2];
        assert((f & 0x1f) == f % 32 && ((f & 0x80) != 0) == (f >= 0x80) && ((f & 0x40) != 0) == (f / 0x40 % 2 == 1)
            && ((f & 0x20) != 0) == (f / 0x20 % 2 == 1)) by (bit_vector);
        crate::codec::lemma_be_int_u16(w, 0);
        if f >= 0x80 && w.len() >= 5 {
            crate::codec::lemma_be_int_u16(w, 3);
        }
    }
}

} // verus!
