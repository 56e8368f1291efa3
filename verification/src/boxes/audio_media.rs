//! Audio media structures (ISO/IEC 14496-12 - 12.2).

use vstd::prelude::*;

use crate::boxes::sample_entries::{
    lemma_sample_entry_at, read_sample_entry_at, sample_entry_at, sample_entry_bytes, write_sample_entry,
    SampleEntry,
};
use crate::codec::{
    be_u16_at, be_u24_at, be_u32_at, be_u64_at, from_i16, i16_of, lemma_append_prefix, lemma_i16_roundtrip,
    lemma_prefix_trans, lemma_u16_at, lemma_u24_at, lemma_u32_at, lemma_u64_at, lemma_wide_bytes_len,
    read_u16_at, read_u24_at, read_u32_at, read_u64_at, to_i16, u16_bytes, u16_of, u24_bytes, u32_bytes,
    u64_bytes, write_u16, write_u24, write_u32, write_u64, write_u8, IsoError, SpecParse,
};
use crate::frame::{add_header_size, add_header_size_exec, BoxBody};
use crate::header::{spec_uuid_fourcc, FullBoxHeader};
use crate::versioned::{
    canonical_seq_v, lemma_count_roundtrip_v, lemma_parse_count_v_len, lemma_size_seq_v, parse_count_v,
    parse_counted_v, ser_seq_v, serialize_all_v, size_all_v, size_seq_v, writable_seq_v, VersionedWire,
};
use crate::wire::{
    canonical_seq, lemma_count_roundtrip, lemma_parse_count_len, lemma_ser_seq_fixed, parse_count,
    parse_counted, ser_seq, serialize_all, views, IsoSized, Wire,
};

verus! {


/// Sound media header
///
/// ISO/IEC 14496-12 - 12.2.2
#[derive(Debug, Clone, Copy, PartialEq, Eq, Structural)]
pub struct SoundMediaHeaderBox {
    /// The version and flags of the box.
    pub full_header: FullBoxHeader,
    /// The stereo balance, as a signed 8.8 fixed-point number.
    pub balance: i16,
    /// Reserved, zero.
    pub reserved: u16,
}

impl View for SoundMediaHeaderBox {
    type V = SoundMediaHeaderBox;

    open spec fn view(&self) -> SoundMediaHeaderBox {
        *self
    }
}

impl IsoSized for SoundMediaHeaderBox {
    open spec fn spec_size(&self) -> nat {
        add_header_size(8)
    }

    fn size(&self) -> (n: usize) {
        add_header_size_exec(8)
    }
}

impl BoxBody for SoundMediaHeaderBox {
    open spec fn spec_box_type() -> [u8; 4] {
        [0x73u8, 0x6du8, 0x68u8, 0x64u8]
    }

    fn box_type() -> (r: [u8; 4]) {
        [0x73u8, 0x6du8, 0x68u8, 0x64u8]
    }

    open spec fn spec_parse_body(s: Seq<u8>) -> Result<SoundMediaHeaderBox, IsoError> {
        if s.len() < 8 {
            Err(IsoError::UnexpectedEof)
        } else {
            Ok(SoundMediaHeaderBox {
                full_header: FullBoxHeader { version: s[0], flags: be_u24_at(s, 1) },
                balance: i16_of(be_u16_at(s, 4)),
                reserved: be_u16_at(s, 6),
            })
        }
    }

    open spec fn spec_writable(v: SoundMediaHeaderBox) -> bool {
        true
    }

    open spec fn spec_serialize_body(v: SoundMediaHeaderBox) -> Seq<u8> {
        seq![v.full_header.version] + u24_bytes(v.full_header.flags) + u16_bytes(u16_of(v.balance)) + u16_bytes(v.reserved)
    }

    open spec fn spec_canonical(v: SoundMediaHeaderBox) -> bool {
        v.full_header.flags < 0x100_0000
    }

    proof fn lemma_box_type() {
        assert(Self::spec_box_type()[0] != spec_uuid_fourcc()[0] || Self::spec_box_type()[1] != spec_uuid_fourcc()[1]);
    }

    proof fn lemma_body_size(x: SoundMediaHeaderBox) {
    }

    proof fn lemma_body_roundtrip(v: SoundMediaHeaderBox) {
        let s = Self::spec_serialize_body(v);
        assert(s[0] == v.full_header.version);
        assert(s.subrange(1, 4) =~= u24_bytes(v.full_header.flags));
        lemma_u24_at(s, 1, v.full_header.flags);
        assert(s.subrange(4, 6) =~= u16_bytes(u16_of(v.balance)));
        lemma_u16_at(s, 4, u16_of(v.balance));
        lemma_i16_roundtrip(v.balance);
        assert(s.subrange(6, 8) =~= u16_bytes(v.reserved));
        lemma_u16_at(s, 6, v.reserved);
    }

    fn parse_body(d: &[u8]) -> (r: Result<SoundMediaHeaderBox, IsoError>) {
        if d.len() < 8 {
            return Err(IsoError::UnexpectedEof);
        }
        let full_header = FullBoxHeader { version: d[0], flags: read_u24_at(d, 1) };
        let balance = to_i16(read_u16_at(d, 4));
        let reserved = read_u16_at(d, 6);
        Ok(SoundMediaHeaderBox { full_header, balance, reserved })
    }

    fn serialize_body(&self, out: &mut Vec<u8>) -> (r: Result<(), IsoError>) {
        let ghost before = out@;
        write_u8(out, self.full_header.version);
        write_u24(out, self.full_header.flags);
        write_u16(out, from_i16(self.balance));
        write_u16(out, self.reserved);
        proof {
            assert(out@ =~= before + Self::spec_serialize_body(self@));
            lemma_append_prefix(before, Self::spec_serialize_body(self@));
        }
        Ok(())
    }
}

/// Sampling rate box
///
/// ISO/IEC 14496-12 - 12.2.3
#[derive(Debug, Clone, Copy, PartialEq, Eq, Structural)]
pub struct SamplingRateBox {
    /// The version and flags of the box.
    pub full_header: FullBoxHeader,
    /// The sampling rate of the audio.
    pub sampling_rate: u32,
}

impl View for SamplingRateBox {
    type V = SamplingRateBox;

    open spec fn view(&self) -> SamplingRateBox {
        *self
    }
}

impl IsoSized for SamplingRateBox {
    open spec fn spec_size(&self) -> nat {
        add_header_size(8)
    }

    fn size(&self) -> (n: usize) {
        add_header_size_exec(8)
    }
}

impl BoxBody for SamplingRateBox {
    open spec fn spec_box_type() -> [u8; 4] {
        [0x73u8, 0x72u8, 0x61u8, 0x74u8]
    }

    fn box_type() -> (r: [u8; 4]) {
        [0x73u8, 0x72u8, 0x61u8, 0x74u8]
    }

    open spec fn spec_parse_body(s: Seq<u8>) -> Result<SamplingRateBox, IsoError> {
        if s.len() < 8 {
            Err(IsoError::UnexpectedEof)
        } else {
            Ok(SamplingRateBox {
                full_header: FullBoxHeader { version: s[0], flags: be_u24_at(s, 1) },
                sampling_rate: be_u32_at(s, 4),
            })
        }
    }

    open spec fn spec_writable(v: SamplingRateBox) -> bool {
        true
    }

    open spec fn spec_serialize_body(v: SamplingRateBox) -> Seq<u8> {
        seq![v.full_header.version] + u24_bytes(v.full_header.flags) + u32_bytes(v.sampling_rate)
    }

    open spec fn spec_canonical(v: SamplingRateBox) -> bool {
        v.full_header.flags < 0x100_0000
    }

    proof fn lemma_box_type() {
        assert(Self::spec_box_type()[0] != spec_uuid_fourcc()[0] || Self::spec_box_type()[1] != spec_uuid_fourcc()[1]);
    }

    proof fn lemma_body_size(x: SamplingRateBox) {
    }

    proof fn lemma_body_roundtrip(v: SamplingRateBox) {
        let s = Self::spec_serialize_body(v);
        assert(s[0] == v.full_header.version);
        assert(s.subrange(1, 4) =~= u24_bytes(v.full_header.flags));
        lemma_u24_at(s, 1, v.full_header.flags);
        assert(s.subrange(4, 8) =~= u32_bytes(v.sampling_rate));
        lemma_u32_at(s, 4, v.sampling_rate);
    }

    fn parse_body(d: &[u8]) -> (r: Result<SamplingRateBox, IsoError>) {
        if d.len() < 8 {
            return Err(IsoError::UnexpectedEof);
        }
        let full_header = FullBoxHeader { version: d[0], flags: read_u24_at(d, 1) };
        let sampling_rate = read_u32_at(d, 4);
        Ok(SamplingRateBox { full_header, sampling_rate })
    }

    fn serialize_body(&self, out: &mut Vec<u8>) -> (r: Result<(), IsoError>) {
        let ghost before = out@;
        write_u8(out, self.full_header.version);
        write_u24(out, self.full_header.flags);
        write_u32(out, self.sampling_rate);
        proof {
            assert(out@ =~= before + Self::spec_serialize_body(self@));
            lemma_append_prefix(before, Self::spec_serialize_body(self@));
        }
        Ok(())
    }
}

/// Audio sample entry
///
/// ISO/IEC 14496-12 - 12.2.3
#[derive(Debug, Clone, Copy, PartialEq, Eq)]
pub struct AudioSampleEntry {
    /// The sample entry that this entry extends.
    pub sample_entry: SampleEntry,
    /// Reserved, zero.
    pub reserved1: u64,
    /// The number of channels.
    pub channelcount: u16,
    /// The size of a sample, in bits.
    pub samplesize: u16,
    /// Zero.
    pub pre_defined: u16,
    /// Reserved, zero.
    pub reserved2: u16,
    /// The sampling rate, as a 16.16 fixed-point number.
    pub samplerate: u32,
}

impl View for AudioSampleEntry {
    type V = AudioSampleEntry;

    open spec fn view(&self) -> AudioSampleEntry {
        *self
    }
}

impl IsoSized for AudioSampleEntry {
    open spec fn spec_size(&self) -> nat {
        28
    }

    fn size(&self) -> (n: usize) {
        28
    }
}

impl Wire for AudioSampleEntry {
    open spec fn spec_parse(s: Seq<u8>) -> SpecParse<AudioSampleEntry> {
        if s.len() < 28 {
            Err(IsoError::UnexpectedEof)
        } else {
            Ok((AudioSampleEntry {
                sample_entry: sample_entry_at(s, 0),
                reserved1: be_u64_at(s, 8),
                channelcount: be_u16_at(s, 16),
                samplesize: be_u16_at(s, 18),
                pre_defined: be_u16_at(s, 20),
                reserved2: be_u16_at(s, 22),
                samplerate: be_u32_at(s, 24),
            }, 28))
        }
    }

    open spec fn spec_writable(v: AudioSampleEntry) -> bool {
        true
    }

    open spec fn spec_serialize(v: AudioSampleEntry) -> Seq<u8> {
        sample_entry_bytes(v.sample_entry) + u64_bytes(v.reserved1) + u16_bytes(v.channelcount) + u16_bytes(v.samplesize) + u16_bytes(v.pre_defined) + u16_bytes(v.reserved2) + u32_bytes(v.samplerate)
    }

    open spec fn spec_canonical(v: AudioSampleEntry) -> bool {
        true
    }

    proof fn lemma_parse_len(s: Seq<u8>) {
    }

    proof fn lemma_size(x: AudioSampleEntry) {
        lemma_wide_bytes_len(x.reserved1, 0);
    }

    proof fn lemma_roundtrip(v: AudioSampleEntry, rest: Seq<u8>) {
        lemma_wide_bytes_len(v.reserved1, 0);
        let s = Self::spec_serialize(v) + rest;
        assert(s.subrange(0, 8) =~= sample_entry_bytes(v.sample_entry));
        lemma_sample_entry_at(s, 0, v.sample_entry);
        assert(s.subrange(8, 16) =~= u64_bytes(v.reserved1));
        lemma_u64_at(s, 8, v.reserved1);
        assert(s.subrange(16, 18) =~= u16_bytes(v.channelcount));
        lemma_u16_at(s, 16, v.channelcount);
        assert(s.subrange(18, 20) =~= u16_bytes(v.samplesize));
        lemma_u16_at(s, 18, v.samplesize);
        assert(s.subrange(20, 22) =~= u16_bytes(v.pre_defined));
        lemma_u16_at(s, 20, v.pre_defined);
        assert(s.subrange(22, 24) =~= u16_bytes(v.reserved2));
        lemma_u16_at(s, 22, v.reserved2);
        assert(s.subrange(24, 28) =~= u32_bytes(v.samplerate));
        lemma_u32_at(s, 24, v.samplerate);
    }

    fn parse(data: &[u8], pos: usize) -> (r: Result<(AudioSampleEntry, usize), IsoError>) {
        if data.len() - pos < 28 {
            return Err(IsoError::UnexpectedEof);
        }
        let d = &data[pos..data.len()];
        proof {
            assert(d@ =~= data@.skip(pos as int));
            reveal(be_u64_at);
        }
        let sample_entry = read_sample_entry_at(d, 0);
        let reserved1 = read_u64_at(d, 8);
        let channelcount = read_u16_at(d, 16);
        let samplesize = read_u16_at(d, 18);
        let pre_defined = read_u16_at(d, 20);
        let reserved2 = read_u16_at(d, 22);
        let samplerate = read_u32_at(d, 24);
        Ok((AudioSampleEntry { sample_entry, reserved1, channelcount, samplesize, pre_defined, reserved2, samplerate }, pos + 28))
    }

    fn serialize(&self, out: &mut Vec<u8>) -> (r: Result<(), IsoError>) {
        let ghost before = out@;
        proof {
            lemma_wide_bytes_len(self.reserved1, 0);
        }
        write_sample_entry(out, self.sample_entry);
        write_u64(out, self.reserved1);
        write_u16(out, self.channelcount);
        write_u16(out, self.samplesize);
        write_u16(out, self.pre_defined);
        write_u16(out, self.reserved2);
        write_u32(out, self.samplerate);
        proof {
            assert(out@ =~= before + Self::spec_serialize(self@));
            lemma_append_prefix(before, Self::spec_serialize(self@));
        }
        Ok(())
    }
}

/// Audio sample entry, version 1
///
/// ISO/IEC 14496-12 - 12.2.3
#[derive(Debug, Clone, Copy, PartialEq, Eq)]
pub struct AudioSampleEntryV1 {
    /// The sample entry that this entry extends.
    pub sample_entry: SampleEntry,
    /// The version of the entry.
    pub entry_version: u16,
    /// Reserved, zero.
    pub reserved1: [u16; 3],
    /// The number of channels.
    pub channelcount: u16,
    /// The size of a sample, in bits.
    pub samplesize: u16,
    /// Zero.
    pub pre_defined: u16,
    /// Reserved, zero.
    pub reserved2: u16,
    /// The sampling rate, as a 16.16 fixed-point number.
    pub samplerate: u32,
}

impl View for AudioSampleEntryV1 {
    type V = AudioSampleEntryV1;

    open spec fn view(&self) -> AudioSampleEntryV1 {
        *self
    }
}

impl IsoSized for AudioSampleEntryV1 {
    open spec fn spec_size(&self) -> nat {
        28
    }

    fn size(&self) -> (n: usize) {
        28
    }
}

impl Wire for AudioSampleEntryV1 {
    open spec fn spec_parse(s: Seq<u8>) -> SpecParse<AudioSampleEntryV1> {
        if s.len() < 28 {
            Err(IsoError::UnexpectedEof)
        } else {
            Ok((AudioSampleEntryV1 {
                sample_entry: sample_entry_at(s, 0),
                entry_version: be_u16_at(s, 8),
                reserved1: u16x3_at(s, 10),
                channelcount: be_u16_at(s, 16),
                samplesize: be_u16_at(s, 18),
                pre_defined: be_u16_at(s, 20),
                reserved2: be_u16_at(s, 22),
                samplerate: be_u32_at(s, 24),
            }, 28))
        }
    }

    open spec fn spec_writable(v: AudioSampleEntryV1) -> bool {
        true
    }

    open spec fn spec_serialize(v: AudioSampleEntryV1) -> Seq<u8> {
        sample_entry_bytes(v.sample_entry) + u16_bytes(v.entry_version) + u16x3_bytes(v.reserved1) + u16_bytes(v.channelcount) + u16_bytes(v.samplesize) + u16_bytes(v.pre_defined) + u16_bytes(v.reserved2) + u32_bytes(v.samplerate)
    }

    open spec fn spec_canonical(v: AudioSampleEntryV1) -> bool {
        true
    }

    proof fn lemma_parse_len(s: Seq<u8>) {
    }

    proof fn lemma_size(x: AudioSampleEntryV1) {
    }

    proof fn lemma_roundtrip(v: AudioSampleEntryV1, rest: Seq<u8>) {
        let s = Self::spec_serialize(v) + rest;
        assert(s.subrange(0, 8) =~= sample_entry_bytes(v.sample_entry));
        lemma_sample_entry_at(s, 0, v.sample_entry);
        assert(s.subrange(8, 10) =~= u16_bytes(v.entry_version));
        lemma_u16_at(s, 8, v.entry_version);
        assert(s.subrange(10, 16) =~= u16x3_bytes(v.reserved1));
        lemma_u16x3_at(s, 10, v.reserved1);
        assert(s.subrange(16, 18) =~= u16_bytes(v.channelcount));
        lemma_u16_at(s, 16, v.channelcount);
        assert(s.subrange(18, 20) =~= u16_bytes(v.samplesize));
        lemma_u16_at(s, 18, v.samplesize);
        assert(s.subrange(20, 22) =~= u16_bytes(v.pre_defined));
        lemma_u16_at(s, 20, v.pre_defined);
        assert(s.subrange(22, 24) =~= u16_bytes(v.reserved2));
        lemma_u16_at(s, 22, v.reserved2);
        assert(s.subrange(24, 28) =~= u32_bytes(v.samplerate));
        lemma_u32_at(s, 24, v.samplerate);
    }

    fn parse(data: &[u8], pos: usize) -> (r: Result<(AudioSampleEntryV1, usize), IsoError>) {
        if data.len() - pos < 28 {
            return Err(IsoError::UnexpectedEof);
        }
        let d = &data[pos..data.len()];
        proof {
            assert(d@ =~= data@.skip(pos as int));
        }
        let sample_entry = read_sample_entry_at(d, 0);
        let entry_version = read_u16_at(d, 8);
        let reserved1 = read_u16x3_at(d, 10);
        let channelcount = read_u16_at(d, 16);
        let samplesize = read_u16_at(d, 18);
        let pre_defined = read_u16_at(d, 20);
        let reserved2 = read_u16_at(d, 22);
        let samplerate = read_u32_at(d, 24);
        Ok((AudioSampleEntryV1 { sample_entry, entry_version, reserved1, channelcount, samplesize, pre_defined, reserved2, samplerate }, pos + 28))
    }

    fn serialize(&self, out: &mut Vec<u8>) -> (r: Result<(), IsoError>) {
        let ghost before = out@;
        write_sample_entry(out, self.sample_entry);
        write_u16(out, self.entry_version);
        write_u16x3(out, self.reserved1);
        write_u16(out, self.channelcount);
        write_u16(out, self.samplesize);
        write_u16(out, self.pre_defined);
        write_u16(out, self.reserved2);
        write_u32(out, self.samplerate);
        proof {
            assert(out@ =~= before + Self::spec_serialize(self@));
            lemma_append_prefix(before, Self::spec_serialize(self@));
        }
        Ok(())
    }
}

/// Three 16-bit values at offset `i`.
pub open spec fn u16x3_at(s: Seq<u8>, i: int) -> [u16; 3] {
    [be_u16_at(s, i), be_u16_at(s, i + 2), be_u16_at(s, i + 4)]
}

/// The bytes of three 16-bit values.
pub open spec fn u16x3_bytes(v: [u16; 3]) -> Seq<u8> {
    u16_bytes(v[0]) + u16_bytes(v[1]) + u16_bytes(v[2])
}

pub fn read_u16x3_at(data: &[u8], pos: usize) -> (v: [u16; 3])
    requires
        pos + 6 <= data@.len(),
    ensures
        v == u16x3_at(data@, pos as int),
{
    assert(data@.len() == data.len());
    [read_u16_at(data, pos), read_u16_at(data, pos + 2), read_u16_at(data, pos + 4)]
}

pub fn write_u16x3(out: &mut Vec<u8>, v: [u16; 3])
    ensures
        final(out)@ == old(out)@ + u16x3_bytes(v),
{
    let ghost before = out@;
    write_u16(out, v[0]);
    write_u16(out, v[1]);
    write_u16(out, v[2]);
    assert(out@ =~= before + u16x3_bytes(v));
}

pub proof fn lemma_u16x3_at(s: Seq<u8>, i: int, v: [u16; 3])
    requires
        0 <= i,
        i + 6 <= s.len(),
        s.subrange(i, i + 6) == u16x3_bytes(v),
    ensures
        u16x3_at(s, i) == v,
{
    broadcast use vstd::array::group_array_axioms;
    assert forall|j: int| 0 <= j < 3 implies s.subrange(i + 2 * j, i + 2 * j + 2) =~= u16_bytes(v[j]) by {
        assert forall|k: int| 0 <= k < 2 implies s.subrange(i + 2 * j, i + 2 * j + 2)[k] == u16_bytes(
            v[j],
        )[k] by {
            assert(s.subrange(i, i + 6)[2 * j + k] == s[i + 2 * j + k]);
        }
    }
    lemma_u16_at(s, i, v[0]);
    lemma_u16_at(s, i + 2, v[1]);
    lemma_u16_at(s, i + 4, v[2]);
    assert(u16x3_at(s, i) =~= v);
}

impl AudioSampleEntry {
    /// An audio sample entry with the reserved and predefined fields zero.
    pub fn new(sample_entry: SampleEntry, channelcount: u16, samplesize: u16, samplerate: u32) -> (r: Self)
        ensures
            r == (AudioSampleEntry {
                sample_entry,
                reserved1: 0,
                channelcount,
                samplesize,
                pre_defined: 0,
                reserved2: 0,
                samplerate,
            }),
    {
        AudioSampleEntry { sample_entry, reserved1: 0, channelcount, samplesize, pre_defined: 0, reserved2: 0, samplerate }
    }
}

// ---------------------------------------------------------------------------
// Loudness.
// ---------------------------------------------------------------------------

/// A loudness measurement.
#[derive(Debug, Clone, Copy, PartialEq, Eq, Structural)]
pub struct LoudnessBaseMeasurement {
    /// What was measured.
    pub method_definition: u8,
    /// The measured value.
    pub method_value: u8,
    /// The measurement system, in four bits.
    pub measurement_system: u8,
    /// How reliable the value is, in four bits.
    pub reliability: u8,
}

impl View for LoudnessBaseMeasurement {
    type V = LoudnessBaseMeasurement;

    open spec fn view(&self) -> LoudnessBaseMeasurement {
        *self
    }
}

/// The byte that holds the measurement system in its high four bits and the
/// reliability in its low four bits.
pub open spec fn measurement_byte(measurement_system: u8, reliability: u8) -> u8 {
    ((measurement_system & 0xf) << 4u8) | (reliability & 0xf)
}

pub proof fn lemma_measurement_byte(measurement_system: u8, reliability: u8)
    by (bit_vector)
    requires
        measurement_system < 16,
        reliability < 16,
    ensures
        (measurement_byte(measurement_system, reliability) >> 4u8) & 0x0f == measurement_system,
        measurement_byte(measurement_system, reliability) & 0x0f == reliability,
{
}

impl IsoSized for LoudnessBaseMeasurement {
    open spec fn spec_size(&self) -> nat {
        3
    }

    fn size(&self) -> (n: usize) {
        3
    }
}

impl Wire for LoudnessBaseMeasurement {
    open spec fn spec_parse(s: Seq<u8>) -> SpecParse<LoudnessBaseMeasurement> {
        if s.len() < 3 {
            Err(IsoError::UnexpectedEof)
        } else {
            Ok(
                (
                    LoudnessBaseMeasurement {
                        method_definition: s[0],
                        method_value: s[1],
                        measurement_system: (s[2] >> 4u8) & 0x0f,
                        reliability: s[2] & 0x0f,
                    },
                    3,
                ),
            )
        }
    }

    open spec fn spec_writable(v: LoudnessBaseMeasurement) -> bool {
        true
    }

    open spec fn spec_serialize(v: LoudnessBaseMeasurement) -> Seq<u8> {
        seq![v.method_definition, v.method_value, measurement_byte(v.measurement_system, v.reliability)]
    }

    /// The measurement system and the reliability fit in four bits.
    open spec fn spec_canonical(v: LoudnessBaseMeasurement) -> bool {
        v.measurement_system < 16 && v.reliability < 16
    }

    proof fn lemma_parse_len(s: Seq<u8>) {
    }

    proof fn lemma_size(x: LoudnessBaseMeasurement) {
    }

    proof fn lemma_roundtrip(v: LoudnessBaseMeasurement, rest: Seq<u8>) {
        lemma_measurement_byte(v.measurement_system, v.reliability);
        let s = Self::spec_serialize(v) + rest;
        assert(s[0] == v.method_definition && s[1] == v.method_value);
        assert(s[2] == measurement_byte(v.measurement_system, v.reliability));
    }

    fn parse(data: &[u8], pos: usize) -> (r: Result<(LoudnessBaseMeasurement, usize), IsoError>) {
        if data.len() - pos < 3 {
            return Err(IsoError::UnexpectedEof);
        }
        let byte = data[pos + 2];
        Ok((
            LoudnessBaseMeasurement {
                method_definition: data[pos],
                method_value: data[pos + 1],
                measurement_system: (byte >> 4u8) & 0x0f,
                reliability: byte & 0x0f,
            },
            pos + 3,
        ))
    }

    fn serialize(&self, out: &mut Vec<u8>) -> (r: Result<(), IsoError>) {
        let ghost before = out@;
        write_u8(out, self.method_definition);
        write_u8(out, self.method_value);
        write_u8(out, ((self.measurement_system & 0xf) << 4u8) | (self.reliability & 0xf));
        proof {
            assert(out@ =~= before + Self::spec_serialize(self@));
            lemma_append_prefix(before, Self::spec_serialize(self@));
        }
        Ok(())
    }
}

/// A loudness base: the loudness of the content under one downmix and one dynamic
/// range control set.
#[derive(Debug)]
pub struct LoudnessBase {
    /// The equalization set, present from version 1 on, in six bits.
    pub eq_set_id: Option<u8>,
    /// The downmix, in seven bits.
    pub downmix_id: u8,
    /// The dynamic range control set, in six bits.
    pub drc_set_id: u8,
    /// The sample peak level, in twelve bits.
    pub bs_sample_peak_level: i16,
    /// The true peak level, in twelve bits.
    pub bs_true_peak_level: i16,
    /// The measurement system of the true peak, in four bits.
    pub measurement_system_for_tp: u8,
    /// The reliability of the true peak, in four bits.
    pub reliability_for_tp: u8,
    /// The number of measurements.
    pub measurement_count: u8,
    /// The measurements.
    pub measurements: Vec<LoudnessBaseMeasurement>,
}

/// The model of a [`LoudnessBase`].
pub struct LoudnessBaseModel {
    pub eq_set_id: Option<u8>,
    pub downmix_id: u8,
    pub drc_set_id: u8,
    pub bs_sample_peak_level: i16,
    pub bs_true_peak_level: i16,
    pub measurement_system_for_tp: u8,
    pub reliability_for_tp: u8,
    pub measurement_count: u8,
    pub measurements: Seq<LoudnessBaseMeasurement>,
}

impl View for LoudnessBase {
    type V = LoudnessBaseModel;

    open spec fn view(&self) -> LoudnessBaseModel {
        LoudnessBaseModel {
            eq_set_id: self.eq_set_id,
            downmix_id: self.downmix_id,
            drc_set_id: self.drc_set_id,
            bs_sample_peak_level: self.bs_sample_peak_level,
            bs_true_peak_level: self.bs_true_peak_level,
            measurement_system_for_tp: self.measurement_system_for_tp,
            reliability_for_tp: self.reliability_for_tp,
            measurement_count: self.measurement_count,
            measurements: views(self.measurements@),
        }
    }
}

/// The 16 bits that hold three zero bits, the downmix in seven bits and the dynamic
/// range control set in six bits.
pub open spec fn downmix_drc_bits(downmix_id: u8, drc_set_id: u8) -> u16 {
    (((downmix_id & 0x7f) as u16) << 6u16) | ((drc_set_id & 0x3f) as u16)
}

/// The 32 bits that hold the two peak levels in twelve bits each, then the
/// measurement system and the reliability of the true peak in four bits each.
pub open spec fn peak_bits(sample_peak: u16, true_peak: u16, system: u8, reliability: u8) -> u32 {
    (((sample_peak & 0xfff) as u32) << 20u32) | (((true_peak & 0xfff) as u32) << 8u32) | (((system & 0xf)
        as u32) << 4u32) | ((reliability & 0xf) as u32)
}

pub proof fn lemma_downmix_drc_bits(downmix_id: u8, drc_set_id: u8)
    by (bit_vector)
    requires
        downmix_id < 128,
        drc_set_id < 64,
    ensures
        ((downmix_drc_bits(downmix_id, drc_set_id) >> 6u16) & 0x7f) as u8 == downmix_id,
        (downmix_drc_bits(downmix_id, drc_set_id) & 0x3f) as u8 == drc_set_id,
{
}

pub proof fn lemma_peak_bits(sample_peak: u16, true_peak: u16, system: u8, reliability: u8)
    by (bit_vector)
    requires
        sample_peak < 4096,
        true_peak < 4096,
        system < 16,
        reliability < 16,
    ensures
        peak_bits(sample_peak, true_peak, system, reliability) >> 20u32 == sample_peak as u32,
        (peak_bits(sample_peak, true_peak, system, reliability) >> 8u32) & 0xfff == true_peak as u32,
        ((peak_bits(sample_peak, true_peak, system, reliability) >> 4u32) & 0xf) as u8 == system,
        (peak_bits(sample_peak, true_peak, system, reliability) & 0xf) as u8 == reliability,
{
}

pub proof fn lemma_low_bits_u8(v: u8)
    by (bit_vector)
    ensures
        v < 64 ==> v & 0x3f == v,
        v < 128 ==> v & 0x7f == v,
        v < 32 ==> v & 0x1f == v,
        v & 0x3f & 0x3f == v & 0x3f,
        v & 0x7f & 0x7f == v & 0x7f,
        v & 0x1f & 0x1f == v & 0x1f,
        v & 0x3f < 64,
        v & 0x7f < 128,
        v & 0x1f < 32,
{
}

/// The number of bytes that precede the other fields of a loudness base in `version`.
pub open spec fn eq_width(version: u8) -> nat {
    if version >= 1 { 1 } else { 0 }
}

impl VersionedWire for LoudnessBase {
    /// From version 1 on a byte with the equalization set, then the downmix and dynamic
    /// range control set, the peak levels, the count and that many measurements.
    open spec fn spec_parse_v(s: Seq<u8>, version: u8) -> SpecParse<LoudnessBaseModel> {
        let k = eq_width(version) as int;
        if s.len() < k + 7 {
            Err(IsoError::UnexpectedEof)
        } else {
            let w = be_u16_at(s, k);
            let p = be_u32_at(s, k + 2);
            match parse_count::<LoudnessBaseMeasurement>(s.skip(k + 7), s[k + 6] as nat) {
                Ok((ms, n)) => Ok(
                    (
                        LoudnessBaseModel {
                            eq_set_id: if version >= 1 { Some(s[0] & 0x3f) } else { None },
                            downmix_id: ((w >> 6u16) & 0x7f) as u8,
                            drc_set_id: (w & 0x3f) as u8,
                            bs_sample_peak_level: (p >> 20u32) as i16,
                            bs_true_peak_level: ((p >> 8u32) & 0xfff) as i16,
                            measurement_system_for_tp: ((p >> 4u32) & 0xf) as u8,
                            reliability_for_tp: (p & 0xf) as u8,
                            measurement_count: s[k + 6],
                            measurements: ms,
                        },
                        k + 7 + n,
                    ),
                ),
                Err(e) => Err(e),
            }
        }
    }

    /// From version 1 on the equalization set is present.
    open spec fn spec_writable_v(v: LoudnessBaseModel, version: u8) -> bool {
        version >= 1 ==> v.eq_set_id is Some
    }

    open spec fn spec_serialize_v(v: LoudnessBaseModel, version: u8) -> Seq<u8> {
        (if version >= 1 { seq![v.eq_set_id.unwrap() & 0x3f] } else { Seq::empty() }) + u16_bytes(
            downmix_drc_bits(v.downmix_id, v.drc_set_id),
        ) + u32_bytes(
            peak_bits(
                v.bs_sample_peak_level as u16,
                v.bs_true_peak_level as u16,
                v.measurement_system_for_tp,
                v.reliability_for_tp,
            ),
        ) + seq![v.measurement_count] + ser_seq::<LoudnessBaseMeasurement>(v.measurements)
    }

    /// The equalization set is present exactly from version 1 on, every field fits its
    /// bits, and the count is the number of measurements.
    open spec fn spec_canonical_v(v: LoudnessBaseModel, version: u8) -> bool {
        &&& (v.eq_set_id is Some) == (version >= 1)
        &&& (v.eq_set_id matches Some(e) ==> e < 64)
        &&& v.downmix_id < 128
        &&& v.drc_set_id < 64
        &&& 0 <= v.bs_sample_peak_level < 4096
        &&& 0 <= v.bs_true_peak_level < 4096
        &&& v.measurement_system_for_tp < 16
        &&& v.reliability_for_tp < 16
        &&& v.measurements.len() == v.measurement_count
        &&& canonical_seq::<LoudnessBaseMeasurement>(v.measurements)
    }

    /// The equalization byte where the field is present, six bytes of fields, the
    /// count and three bytes per measurement.
    open spec fn spec_size_v(v: LoudnessBaseModel, version: u8) -> nat {
        (if v.eq_set_id is Some { 1nat } else { 0 }) + 7 + 3 * v.measurements.len()
    }

    proof fn lemma_parse_len_v(s: Seq<u8>, version: u8) {
        let k = eq_width(version) as int;
        if s.len() >= k + 7 {
            lemma_parse_count_len::<LoudnessBaseMeasurement>(s.skip(k + 7), s[k + 6] as nat);
        }
    }

    proof fn lemma_size_v(v: LoudnessBaseModel, version: u8) {
        lemma_ser_seq_fixed::<LoudnessBaseMeasurement>(v.measurements, 3);
    }

    proof fn lemma_roundtrip_v(v: LoudnessBaseModel, version: u8, rest: Seq<u8>) {
        let k = eq_width(version) as int;
        let w = downmix_drc_bits(v.downmix_id, v.drc_set_id);
        let spl = v.bs_sample_peak_level as u16;
        let tpl = v.bs_true_peak_level as u16;
        let p = peak_bits(spl, tpl, v.measurement_system_for_tp, v.reliability_for_tp);
        let ms = ser_seq::<LoudnessBaseMeasurement>(v.measurements);
        let head: Seq<u8> = if version >= 1 { seq![v.eq_set_id.unwrap() & 0x3f] } else { Seq::empty() };
        let s = Self::spec_serialize_v(v, version) + rest;
        assert(head.len() == k);
        assert(s =~= head + u16_bytes(w) + u32_bytes(p) + seq![v.measurement_count] + (ms + rest));
        assert(s.subrange(k, k + 2) =~= u16_bytes(w));
        lemma_u16_at(s, k, w);
        assert(s.subrange(k + 2, k + 6) =~= u32_bytes(p));
        lemma_u32_at(s, k + 2, p);
        assert(s[k + 6] == v.measurement_count);
        assert(s.skip(k + 7) =~= ms + rest);
        lemma_count_roundtrip::<LoudnessBaseMeasurement>(v.measurements, rest);
        lemma_downmix_drc_bits(v.downmix_id, v.drc_set_id);
        lemma_peak_bits(spl, tpl, v.measurement_system_for_tp, v.reliability_for_tp);
        if version >= 1 {
            lemma_low_bits_u8(v.eq_set_id.unwrap());
            assert(s[0] == v.eq_set_id.unwrap() & 0x3f);
        }
    }

    fn parse_v(data: &[u8], pos: usize, version: u8) -> (r: Result<(LoudnessBase, usize), IsoError>) {
        let k: usize = if version >= 1 { 1 } else { 0 };
        if data.len() - pos < k + 7 {
            return Err(IsoError::UnexpectedEof);
        }
        let d = vstd::slice::slice_subrange(data, pos, data.len());
        proof {
            assert(d@ =~= data@.skip(pos as int));
        }
        let eq_set_id = if version >= 1 { Some(d[0] & 0x3f) } else { None };
        let w = read_u16_at(d, k);
        let p = read_u32_at(d, k + 2);
        let measurement_count = d[k + 6];
        let (measurements, end) = parse_counted::<LoudnessBaseMeasurement>(d, k + 7, measurement_count as usize)?;
        proof {
            lemma_parse_count_len::<LoudnessBaseMeasurement>(d@.skip((k + 7) as int), measurement_count as nat);
        }
        Ok((
            LoudnessBase {
                eq_set_id,
                downmix_id: ((w >> 6u16) & 0x7f) as u8,
                drc_set_id: (w & 0x3f) as u8,
                bs_sample_peak_level: (p >> 20u32) as i16,
                bs_true_peak_level: ((p >> 8u32) & 0xfff) as i16,
                measurement_system_for_tp: ((p >> 4u32) & 0xf) as u8,
                reliability_for_tp: (p & 0xf) as u8,
                measurement_count,
                measurements,
            },
            pos + end,
        ))
    }

    fn serialize_v(&self, out: &mut Vec<u8>, version: u8) -> (r: Result<(), IsoError>) {
        let ghost before = out@;
        if version >= 1 {
            match self.eq_set_id {
                Some(e) => write_u8(out, e & 0x3f),
                None => {
                    proof {
                        assert(out@.subrange(0, out@.len() as int) =~= out@);
                    }
                    return Err(IsoError::InvalidData);
                },
            }
        }
        write_u16(out, (((self.downmix_id & 0x7f) as u16) << 6u16) | ((self.drc_set_id & 0x3f) as u16));
        write_u32(
            out,
            (((self.bs_sample_peak_level as u16 & 0xfff) as u32) << 20u32) | (((
            self.bs_true_peak_level as u16 & 0xfff) as u32) << 8u32) | (((self.measurement_system_for_tp
                & 0xf) as u32) << 4u32) | ((self.reliability_for_tp & 0xf) as u32),
        );
        write_u8(out, self.measurement_count);
        let _ = serialize_all(&self.measurements, out);
        proof {
            assert(out@ =~= before + Self::spec_serialize_v(self@, version));
            lemma_append_prefix(before, Self::spec_serialize_v(self@, version));
        }
        Ok(())
    }

    fn size_v(&self, version: u8) -> (n: usize) {
        (if self.eq_set_id.is_some() { 1 } else { 0 }) + 7 + 3 * self.measurements.len()
    }
}

/// The loudness bases of a track or an album.
#[derive(Debug)]
pub struct LoudnessBaseBox {
    /// From version 2 on, what the loudness information applies to, in two bits.
    pub loudness_info_type: Option<u8>,
    /// The number of loudness bases, in six bits; always 1 in version 0.
    pub loudness_base_count: u8,
    /// The group or group preset that the information applies to, for the types that
    /// name one.
    pub mae_group_id: Option<u8>,
    /// The loudness bases.
    pub loudness_bases: Vec<LoudnessBase>,
}

/// The model of a [`LoudnessBaseBox`].
pub struct LoudnessBaseBoxModel {
    pub loudness_info_type: Option<u8>,
    pub loudness_base_count: u8,
    pub mae_group_id: Option<u8>,
    pub loudness_bases: Seq<LoudnessBaseModel>,
}

impl View for LoudnessBaseBox {
    type V = LoudnessBaseBoxModel;

    open spec fn view(&self) -> LoudnessBaseBoxModel {
        LoudnessBaseBoxModel {
            loudness_info_type: self.loudness_info_type,
            loudness_base_count: self.loudness_base_count,
            mae_group_id: self.mae_group_id,
            loudness_bases: views(self.loudness_bases@),
        }
    }
}

/// Whether a loudness information type is followed by a group byte.
pub open spec fn names_group(info: u8) -> bool {
    info == 1 || info == 2 || info == 3
}

/// What precedes the loudness bases in `version`: the information type, the count, the
/// group, and the number of bytes that they take. Version 0 holds one base and no
/// other field.
pub open spec fn loudness_head(s: Seq<u8>, version: u8) -> Result<(Option<u8>, u8, Option<u8>, int), IsoError> {
    if version >= 2 {
        if s.len() < 1 {
            Err(IsoError::UnexpectedEof)
        } else {
            let info = (s[0] >> 6u8) & 0x3;
            let count = s[0] & 0x3f;
            if names_group(info) {
                if s.len() < 2 {
                    Err(IsoError::UnexpectedEof)
                } else if info == 3 {
                    Ok((Some(info), count, Some(s[1] & 0x1f), 2))
                } else {
                    Ok((Some(info), count, Some(s[1] & 0x7f), 2))
                }
            } else {
                Ok((Some(info), count, None, 1))
            }
        }
    } else if version == 1 {
        if s.len() < 1 {
            Err(IsoError::UnexpectedEof)
        } else {
            Ok((None, s[0] & 0x3f, None, 1))
        }
    } else {
        Ok((None, 1, None, 0))
    }
}

/// The byte with the information type in its two high bits and the count in the
/// six low bits.
pub open spec fn info_count_byte(info: u8, count: u8) -> u8 {
    ((info & 0x3) << 6u8) | (count & 0x3f)
}

pub proof fn lemma_info_count_byte(info: u8, count: u8)
    by (bit_vector)
    requires
        info < 4,
        count < 64,
    ensures
        (info_count_byte(info, count) >> 6u8) & 0x3 == info,
        info_count_byte(info, count) & 0x3f == count,
{
}

/// The bytes that precede the loudness bases in `version`.
pub open spec fn loudness_head_bytes(v: LoudnessBaseBoxModel, version: u8) -> Seq<u8> {
    if version >= 2 {
        let info = v.loudness_info_type.unwrap();
        seq![info_count_byte(info, v.loudness_base_count)] + if names_group(info) {
            if info == 3 {
                seq![v.mae_group_id.unwrap() & 0x1f]
            } else {
                seq![v.mae_group_id.unwrap() & 0x7f]
            }
        } else {
            Seq::empty()
        }
    } else if version == 1 {
        seq![v.loudness_base_count & 0x3f]
    } else {
        Seq::empty()
    }
}

/// The fields in front of the bases have the form that `version` reads back.
pub open spec fn loudness_head_canonical(v: LoudnessBaseBoxModel, version: u8) -> bool {
    if version >= 2 {
        &&& v.loudness_info_type matches Some(i)
        &&& i < 4
        &&& v.loudness_base_count < 64
        &&& if names_group(i) {
            &&& v.mae_group_id matches Some(g)
            &&& if i == 3 { g < 32 } else { g < 128 }
        } else {
            v.mae_group_id is None
        }
    } else if version == 1 {
        v.loudness_info_type is None && v.mae_group_id is None && v.loudness_base_count < 64
    } else {
        v.loudness_info_type is None && v.mae_group_id is None && v.loudness_base_count == 1
    }
}

/// The number of bytes in front of the bases that the box reports for `version`.
pub open spec fn loudness_head_size(v: LoudnessBaseBoxModel, version: u8) -> nat {
    if version >= 2 {
        1 + if v.loudness_info_type matches Some(t) && names_group(t) { 1nat } else { 0 }
    } else if version == 1 {
        1
    } else {
        0
    }
}

impl VersionedWire for LoudnessBaseBox {
    open spec fn spec_parse_v(s: Seq<u8>, version: u8) -> SpecParse<LoudnessBaseBoxModel> {
        match loudness_head(s, version) {
            Ok((info, count, group, h)) => match parse_count_v::<LoudnessBase>(s.skip(h), count as nat, version) {
                Ok((bases, n)) => Ok(
                    (
                        LoudnessBaseBoxModel {
                            loudness_info_type: info,
                            loudness_base_count: count,
                            mae_group_id: group,
                            loudness_bases: bases,
                        },
                        h + n,
                    ),
                ),
                Err(e) => Err(e),
            },
            Err(e) => Err(e),
        }
    }

    /// From version 2 on the information type is present, and so is the group where
    /// the type names one; every base can be written.
    open spec fn spec_writable_v(v: LoudnessBaseBoxModel, version: u8) -> bool {
        &&& version >= 2 ==> (v.loudness_info_type is Some && (names_group(v.loudness_info_type.unwrap())
            ==> v.mae_group_id is Some))
        &&& writable_seq_v::<LoudnessBase>(v.loudness_bases, version)
    }

    open spec fn spec_serialize_v(v: LoudnessBaseBoxModel, version: u8) -> Seq<u8> {
        loudness_head_bytes(v, version) + ser_seq_v::<LoudnessBase>(v.loudness_bases, version)
    }

    open spec fn spec_canonical_v(v: LoudnessBaseBoxModel, version: u8) -> bool {
        &&& loudness_head_canonical(v, version)
        &&& v.loudness_bases.len() == v.loudness_base_count
        &&& canonical_seq_v::<LoudnessBase>(v.loudness_bases, version)
    }

    open spec fn spec_size_v(v: LoudnessBaseBoxModel, version: u8) -> nat {
        loudness_head_size(v, version) + size_seq_v::<LoudnessBase>(v.loudness_bases, version)
    }

    proof fn lemma_parse_len_v(s: Seq<u8>, version: u8) {
        if let Ok((info, count, group, h)) = loudness_head(s, version) {
            lemma_parse_count_v_len::<LoudnessBase>(s.skip(h), count as nat, version);
            if version == 0 {
                assert(s.skip(h).skip(0) =~= s.skip(h));
                assert(parse_count_v::<LoudnessBase>(s.skip(h), 0, version) == Ok::<
                    (Seq<LoudnessBaseModel>, int),
                    IsoError,
                >((Seq::empty(), 0)));
                LoudnessBase::lemma_parse_len_v(s.skip(h), version);
            }
        }
    }

    proof fn lemma_size_v(v: LoudnessBaseBoxModel, version: u8) {
        lemma_size_seq_v::<LoudnessBase>(v.loudness_bases, version);
    }

    proof fn lemma_roundtrip_v(v: LoudnessBaseBoxModel, version: u8, rest: Seq<u8>) {
        let head = loudness_head_bytes(v, version);
        let bases = ser_seq_v::<LoudnessBase>(v.loudness_bases, version);
        let s = Self::spec_serialize_v(v, version) + rest;
        assert(s =~= head + (bases + rest));
        if version >= 2 {
            let i = v.loudness_info_type.unwrap();
            lemma_info_count_byte(i, v.loudness_base_count);
            assert(s[0] == info_count_byte(i, v.loudness_base_count));
            if names_group(i) {
                lemma_low_bits_u8(v.mae_group_id.unwrap());
                assert(s[1] == head[1]);
            }
        } else if version == 1 {
            lemma_low_bits_u8(v.loudness_base_count);
            assert(s[0] == head[0]);
        }
        assert(s.skip(head.len() as int) =~= bases + rest);
        lemma_count_roundtrip_v::<LoudnessBase>(v.loudness_bases, version, rest);
    }

    fn parse_v(data: &[u8], pos: usize, version: u8) -> (r: Result<(LoudnessBaseBox, usize), IsoError>) {
        let d = vstd::slice::slice_subrange(data, pos, data.len());
        proof {
            assert(d@ =~= data@.skip(pos as int));
        }
        let (loudness_info_type, loudness_base_count, mae_group_id, h): (Option<u8>, u8, Option<u8>, usize) =
            if version >= 2 {
            if d.len() < 1 {
                return Err(IsoError::UnexpectedEof);
            }
            let info = (d[0] >> 6u8) & 0x3;
            let count = d[0] & 0x3f;
            if info == 1 || info == 2 || info == 3 {
                if d.len() < 2 {
                    return Err(IsoError::UnexpectedEof);
                }
                if info == 3 {
                    (Some(info), count, Some(d[1] & 0x1f), 2)
                } else {
                    (Some(info), count, Some(d[1] & 0x7f), 2)
                }
            } else {
                (Some(info), count, None, 1)
            }
        } else if version == 1 {
            if d.len() < 1 {
                return Err(IsoError::UnexpectedEof);
            }
            (None, d[0] & 0x3f, None, 1)
        } else {
            (None, 1, None, 0)
        };
        let (loudness_bases, end) = parse_counted_v::<LoudnessBase>(d, h, loudness_base_count as usize, version)?;
        proof {
            lemma_parse_count_v_len::<LoudnessBase>(d@.skip(h as int), loudness_base_count as nat, version);
        }
        Ok((LoudnessBaseBox { loudness_info_type, loudness_base_count, mae_group_id, loudness_bases }, pos + end))
    }

    fn serialize_v(&self, out: &mut Vec<u8>, version: u8) -> (r: Result<(), IsoError>) {
        let ghost before = out@;
        proof {
            assert(out@.subrange(0, out@.len() as int) =~= out@);
        }
        if version >= 2 {
            let info = match self.loudness_info_type {
                Some(t) => t,
                None => {
                    return Err(IsoError::InvalidData);
                },
            };
            if info == 1 || info == 2 || info == 3 {
                let group = match self.mae_group_id {
                    Some(g) => g,
                    None => {
                        return Err(IsoError::InvalidData);
                    },
                };
                write_u8(out, ((info & 0x3) << 6u8) | (self.loudness_base_count & 0x3f));
                if info == 3 {
                    write_u8(out, group & 0x1f);
                } else {
                    write_u8(out, group & 0x7f);
                }
            } else {
                write_u8(out, ((info & 0x3) << 6u8) | (self.loudness_base_count & 0x3f));
            }
        } else if version == 1 {
            write_u8(out, self.loudness_base_count & 0x3f);
        }
        proof {
            assert(out@ =~= before + loudness_head_bytes(self@, version));
            lemma_append_prefix(before, loudness_head_bytes(self@, version));
        }
        let ghost mid = out@;
        let r = serialize_all_v(&self.loudness_bases, out, version);
        if r.is_err() {
            proof {
                lemma_prefix_trans(before, mid, out@);
            }
            return Err(IsoError::InvalidData);
        }
        proof {
            assert(out@ =~= before + Self::spec_serialize_v(self@, version));
            lemma_append_prefix(before, Self::spec_serialize_v(self@, version));
        }
        Ok(())
    }

    fn size_v(&self, version: u8) -> (n: usize) {
        let mut size: usize = 0;
        if version >= 2 {
            size = 1;
            if let Some(t) = self.loudness_info_type {
                if t == 1 || t == 2 || t == 3 {
                    size = 2;
                }
            }
        } else if version == 1 {
            size = 1;
        }
        size + size_all_v(&self.loudness_bases, version)
    }
}

impl LoudnessBaseBox {
    /// The size of the loudness bases and the fields in front of them, in `version`.
    pub fn size(&self, version: u8) -> (n: usize)
        requires
            LoudnessBaseBox::spec_size_v(self@, version) <= usize::MAX,
        ensures
            n == LoudnessBaseBox::spec_size_v(self@, version),
    {
        self.size_v(version)
    }
}

/// Track loudness info
///
/// ISO/IEC 14496-12 - 12.2.7
#[derive(Debug)]
pub struct TrackLoudnessInfo {
    /// The version and flags of the box; the version sets the layout of the bases.
    pub full_header: FullBoxHeader,
    /// The loudness bases.
    pub base_box: LoudnessBaseBox,
}

/// The model of a [`TrackLoudnessInfo`].
pub struct TrackLoudnessInfoModel {
    pub full_header: FullBoxHeader,
    pub base_box: LoudnessBaseBoxModel,
}

impl View for TrackLoudnessInfo {
    type V = TrackLoudnessInfoModel;

    open spec fn view(&self) -> TrackLoudnessInfoModel {
        TrackLoudnessInfoModel { full_header: self.full_header, base_box: self.base_box@ }
    }
}

impl IsoSized for TrackLoudnessInfo {
    open spec fn spec_size(&self) -> nat {
        add_header_size(4 + LoudnessBaseBox::spec_size_v(self.base_box@, self.full_header.version))
    }

    fn size(&self) -> (n: usize) {
        add_header_size_exec(4 + self.base_box.size_v(self.full_header.version))
    }
}

impl BoxBody for TrackLoudnessInfo {
    open spec fn spec_box_type() -> [u8; 4] {
        [0x74u8, 0x6cu8, 0x6fu8, 0x75u8]
    }

    fn box_type() -> (r: [u8; 4]) {
        [0x74u8, 0x6cu8, 0x6fu8, 0x75u8]
    }

    /// The full header, then the bases in the layout of its version.
    open spec fn spec_parse_body(s: Seq<u8>) -> Result<TrackLoudnessInfoModel, IsoError> {
        if s.len() < 4 {
            Err(IsoError::UnexpectedEof)
        } else {
            match LoudnessBaseBox::spec_parse_v(s.skip(4), s[0]) {
                Ok((b, _)) => Ok(TrackLoudnessInfoModel { full_header: FullBoxHeader { version: s[0], flags: be_u24_at(s, 1) }, base_box: b }),
                Err(e) => Err(e),
            }
        }
    }

    open spec fn spec_writable(v: TrackLoudnessInfoModel) -> bool {
        LoudnessBaseBox::spec_writable_v(v.base_box, v.full_header.version)
    }

    open spec fn spec_serialize_body(v: TrackLoudnessInfoModel) -> Seq<u8> {
        seq![v.full_header.version] + u24_bytes(v.full_header.flags) + LoudnessBaseBox::spec_serialize_v(
            v.base_box,
            v.full_header.version,
        )
    }

    open spec fn spec_canonical(v: TrackLoudnessInfoModel) -> bool {
        v.full_header.flags < 0x100_0000 && LoudnessBaseBox::spec_canonical_v(v.base_box, v.full_header.version)
    }

    proof fn lemma_box_type() {
        assert(Self::spec_box_type()[0] != spec_uuid_fourcc()[0]);
    }

    proof fn lemma_body_size(x: TrackLoudnessInfo) {
        LoudnessBaseBox::lemma_size_v(x.base_box@, x.full_header.version);
    }

    proof fn lemma_body_roundtrip(v: TrackLoudnessInfoModel) {
        let s = Self::spec_serialize_body(v);
        assert(s.subrange(1, 4) =~= u24_bytes(v.full_header.flags));
        lemma_u24_at(s, 1, v.full_header.flags);
        let b = LoudnessBaseBox::spec_serialize_v(v.base_box, v.full_header.version);
        assert(s.skip(4) =~= b + Seq::<u8>::empty());
        LoudnessBaseBox::lemma_roundtrip_v(v.base_box, v.full_header.version, Seq::<u8>::empty());
    }

    fn parse_body(d: &[u8]) -> (r: Result<TrackLoudnessInfo, IsoError>) {
        if d.len() < 4 {
            return Err(IsoError::UnexpectedEof);
        }
        let full_header = FullBoxHeader { version: d[0], flags: read_u24_at(d, 1) };
        let (base_box, _end) = LoudnessBaseBox::parse_v(d, 4, d[0])?;
        Ok(TrackLoudnessInfo { full_header, base_box })
    }

    fn serialize_body(&self, out: &mut Vec<u8>) -> (r: Result<(), IsoError>) {
        let ghost before = out@;
        write_u8(out, self.full_header.version);
        write_u24(out, self.full_header.flags);
        let ghost mid = out@;
        proof {
            lemma_append_prefix(before, seq![self.full_header.version] + u24_bytes(self.full_header.flags));
            assert(mid =~= before + (seq![self.full_header.version] + u24_bytes(self.full_header.flags)));
        }
        let r = self.base_box.serialize_v(out, self.full_header.version);
        if r.is_err() {
            proof {
                lemma_prefix_trans(before, mid, out@);
            }
            return Err(IsoError::InvalidData);
        }
        proof {
            assert(out@ =~= before + Self::spec_serialize_body(self@));
            lemma_append_prefix(before, Self::spec_serialize_body(self@));
        }
        Ok(())
    }
}

/// Album loudness info
///
/// ISO/IEC 14496-12 - 12.2.7
#[derive(Debug)]
pub struct AlbumLoudnessInfo {
    /// The version and flags of the box; the version sets the layout of the bases.
    pub full_header: FullBoxHeader,
    /// The loudness bases.
    pub base_box: LoudnessBaseBox,
}

/// The model of a [`AlbumLoudnessInfo`].
pub struct AlbumLoudnessInfoModel {
    pub full_header: FullBoxHeader,
    pub base_box: LoudnessBaseBoxModel,
}

impl View for AlbumLoudnessInfo {
    type V = AlbumLoudnessInfoModel;

    open spec fn view(&self) -> AlbumLoudnessInfoModel {
        AlbumLoudnessInfoModel { full_header: self.full_header, base_box: self.base_box@ }
    }
}

impl IsoSized for AlbumLoudnessInfo {
    open spec fn spec_size(&self) -> nat {
        add_header_size(4 + LoudnessBaseBox::spec_size_v(self.base_box@, self.full_header.version))
    }

    fn size(&self) -> (n: usize) {
        add_header_size_exec(4 + self.base_box.size_v(self.full_header.version))
    }
}

impl BoxBody for AlbumLoudnessInfo {
    open spec fn spec_box_type() -> [u8; 4] {
        [0x61u8, 0x6cu8, 0x6fu8, 0x75u8]
    }

    fn box_type() -> (r: [u8; 4]) {
        [0x61u8, 0x6cu8, 0x6fu8, 0x75u8]
    }

    /// The full header, then the bases in the layout of its version.
    open spec fn spec_parse_body(s: Seq<u8>) -> Result<AlbumLoudnessInfoModel, IsoError> {
        if s.len() < 4 {
            Err(IsoError::UnexpectedEof)
        } else {
            match LoudnessBaseBox::spec_parse_v(s.skip(4), s[0]) {
                Ok((b, _)) => Ok(AlbumLoudnessInfoModel { full_header: FullBoxHeader { version: s[0], flags: be_u24_at(s, 1) }, base_box: b }),
                Err(e) => Err(e),
            }
        }
    }

    open spec fn spec_writable(v: AlbumLoudnessInfoModel) -> bool {
        LoudnessBaseBox::spec_writable_v(v.base_box, v.full_header.version)
    }

    open spec fn spec_serialize_body(v: AlbumLoudnessInfoModel) -> Seq<u8> {
        seq![v.full_header.version] + u24_bytes(v.full_header.flags) + LoudnessBaseBox::spec_serialize_v(
            v.base_box,
            v.full_header.version,
        )
    }

    open spec fn spec_canonical(v: AlbumLoudnessInfoModel) -> bool {
        v.full_header.flags < 0x100_0000 && LoudnessBaseBox::spec_canonical_v(v.base_box, v.full_header.version)
    }

    proof fn lemma_box_type() {
        assert(Self::spec_box_type()[0] != spec_uuid_fourcc()[0]);
    }

    proof fn lemma_body_size(x: AlbumLoudnessInfo) {
        LoudnessBaseBox::lemma_size_v(x.base_box@, x.full_header.version);
    }

    proof fn lemma_body_roundtrip(v: AlbumLoudnessInfoModel) {
        let s = Self::spec_serialize_body(v);
        assert(s.subrange(1, 4) =~= u24_bytes(v.full_header.flags));
        lemma_u24_at(s, 1, v.full_header.flags);
        let b = LoudnessBaseBox::spec_serialize_v(v.base_box, v.full_header.version);
        assert(s.skip(4) =~= b + Seq::<u8>::empty());
        LoudnessBaseBox::lemma_roundtrip_v(v.base_box, v.full_header.version, Seq::<u8>::empty());
    }

    fn parse_body(d: &[u8]) -> (r: Result<AlbumLoudnessInfo, IsoError>) {
        if d.len() < 4 {
            return Err(IsoError::UnexpectedEof);
        }
        let full_header = FullBoxHeader { version: d[0], flags: read_u24_at(d, 1) };
        let (base_box, _end) = LoudnessBaseBox::parse_v(d, 4, d[0])?;
        Ok(AlbumLoudnessInfo { full_header, base_box })
    }

    fn serialize_body(&self, out: &mut Vec<u8>) -> (r: Result<(), IsoError>) {
        let ghost before = out@;
        write_u8(out, self.full_header.version);
        write_u24(out, self.full_header.flags);
        let ghost mid = out@;
        proof {
            lemma_append_prefix(before, seq![self.full_header.version] + u24_bytes(self.full_header.flags));
            assert(mid =~= before + (seq![self.full_header.version] + u24_bytes(self.full_header.flags)));
        }
        let r = self.base_box.serialize_v(out, self.full_header.version);
        if r.is_err() {
            proof {
                lemma_prefix_trans(before, mid, out@);
            }
            return Err(IsoError::InvalidData);
        }
        proof {
            assert(out@ =~= before + Self::spec_serialize_body(self@));
            lemma_append_prefix(before, Self::spec_serialize_body(self@));
        }
        Ok(())
    }
}

/// A base whose equalization set is present exactly from version 1 on is as long as
/// the size that it reports, whether or not its fields fit their bits.
pub proof fn lemma_loudness_base_len(v: LoudnessBaseModel, version: u8)
    requires
        LoudnessBase::spec_writable_v(v, version),
        (v.eq_set_id is Some) == (version >= 1),
    ensures
        LoudnessBase::spec_serialize_v(v, version).len() == LoudnessBase::spec_size_v(v, version),
{
    lemma_ser_seq_fixed::<LoudnessBaseMeasurement>(v.measurements, 3);
}

/// Bases whose equalization sets are present exactly from version 1 on are as long as
/// the sizes that they report.
pub proof fn lemma_loudness_bases_len(vs: Seq<LoudnessBaseModel>, version: u8)
    requires
        forall|i: int| 0 <= i < vs.len() ==> #[trigger] LoudnessBase::spec_writable_v(vs[i], version) && (
        vs[i].eq_set_id is Some) == (version >= 1),
    ensures
        ser_seq_v::<LoudnessBase>(vs, version).len() == size_seq_v::<LoudnessBase>(vs, version),
    decreases vs.len(),
{
    if vs.len() > 0 {
        let init = vs.drop_last();
        assert forall|i: int| 0 <= i < init.len() implies #[trigger] LoudnessBase::spec_writable_v(init[i], version)
            && (init[i].eq_set_id is Some) == (version >= 1) by {
            assert(LoudnessBase::spec_writable_v(vs[i], version));
        }
        assert(LoudnessBase::spec_writable_v(vs[vs.len() - 1], version));
        lemma_loudness_bases_len(init, version);
        lemma_loudness_base_len(vs.last(), version);
    }
}

/// The size law of a loudness box for every value that can be written, canonical or
/// not: when the information type (and the group that it names) is present from
/// version 2 on and every base holds its equalization set exactly from version 1 on,
/// the bytes that `serialize_v` appends number exactly what `size_v` reports, whether
/// or not the fields fit their bits.
pub proof fn lemma_loudness_box_len(v: LoudnessBaseBoxModel, version: u8)
    requires
        LoudnessBaseBox::spec_writable_v(v, version),
        forall|i: int| 0 <= i < v.loudness_bases.len() ==> (#[trigger] v.loudness_bases[i].eq_set_id is Some) == (
        version >= 1),
    ensures
        LoudnessBaseBox::spec_serialize_v(v, version).len() == LoudnessBaseBox::spec_size_v(v, version),
{
    assert forall|i: int| 0 <= i < v.loudness_bases.len() implies #[trigger] LoudnessBase::spec_writable_v(
        v.loudness_bases[i],
        version,
    ) && (v.loudness_bases[i].eq_set_id is Some) == (version >= 1) by {
        assert(LoudnessBase::spec_writable_v(v.loudness_bases[i], version));
    }
    lemma_loudness_bases_len(v.loudness_bases, version);
}


/// The fields of an audio sample entry (ISO/IEC 14496-12 - 12.2.3.2) after the common eight bytes and eight reserved ones: the channel count spelled by bytes 16..18, the sample size by 18..20 and the sample rate by 24..28; the entry takes 28 bytes.
pub proof fn lemma_audio_sample_entry_layout(s: Seq<u8>)
    ensures
        s.len() < 28 ==> AudioSampleEntry::spec_parse(s) == Err::<(AudioSampleEntry, int), IsoError>(IsoError::UnexpectedEof),
        s.len() >= 28 ==> (AudioSampleEntry::spec_parse(s) matches Ok((h, n)) && n == 28 && h.channelcount == crate::codec::be_int(s, 16, 2) && h.samplesize == crate::codec::be_int(s, 18, 2) && h.samplerate == crate::codec::be_int(s, 24, 4) && h.sample_entry.data_reference_index == crate::codec::be_int(s, 6, 2)),
{
    if s.len() >= 28 {
        crate::codec::lemma_be_int_u16(s, 16);
        crate::codec::lemma_be_int_u16(s, 18);
        crate::codec::lemma_be_int_u32(s, 24);
        crate::codec::lemma_be_int_u16(s, 6);
    }
}


/// The sampling rate box body (ISO/IEC 14496-12 - 12.2.3): after the version byte and three flag bytes, the sampling rate spelled by bytes 4..8.
pub proof fn lemma_sampling_rate_layout(s: Seq<u8>)
    ensures
        s.len() < 8 ==> SamplingRateBox::spec_parse_body(s) == Err::<SamplingRateBox, IsoError>(IsoError::UnexpectedEof),
        s.len() >= 8 ==> (SamplingRateBox::spec_parse_body(s) matches Ok(h) && h.full_header.version == s[0] && h.full_header.flags == crate::codec::be_int(s, 1, 3) && h.sampling_rate == crate::codec::be_int(s, 4, 4)),
{
    if s.len() >= 8 {
        crate::codec::lemma_be_int_u24(s, 1);
        crate::codec::lemma_be_int_u32(s, 4);
    }
}

} // verus!
