//! Sample group description entries (ISO/IEC 14496-12 - 10).

use vstd::prelude::*;

use crate::codec::{
    be_u16_at, be_u32_at, i16_of, lemma_append_prefix, lemma_i16_roundtrip, lemma_u16_at, lemma_u32_at,
    lemma_u32_roundtrip,
    read_u16_at, read_u32_at, to_i16, from_i16, u16_bytes, u16_of, u32_bytes, write_u16, write_u32, write_u8,
    IsoError, SpecParse,
};
use crate::wire::{
    lemma_count_roundtrip, lemma_parse_count_len, lemma_rest_roundtrip, parse_remaining, parse_rest, lemma_ser_seq_fixed, lemma_size_seq, parse_count, parse_counted,
    ser_seq, serialize_all, size_all, size_seq, views, IsoSized, Wire,
};

verus! {


/// `VisualRollRecoveryEntry` and `AudioRollRecoveryEntry`
///
/// `roll`
///
/// ISO/IEC 14496-12 - 10.1
#[derive(Debug, Clone, Copy, PartialEq, Eq, Structural)]
pub struct RollRecoveryEntry {
    /// The number of samples that must be decoded before a sample is correct:
    /// positive for roll-forward, negative for pre-roll.
    pub roll_distance: i16,
}

impl View for RollRecoveryEntry {
    type V = RollRecoveryEntry;

    open spec fn view(&self) -> RollRecoveryEntry {
        *self
    }
}

impl IsoSized for RollRecoveryEntry {
    open spec fn spec_size(&self) -> nat {
        2
    }

    fn size(&self) -> (n: usize) {
        2
    }
}

impl Wire for RollRecoveryEntry {
    open spec fn spec_parse(s: Seq<u8>) -> SpecParse<RollRecoveryEntry> {
        if s.len() < 2 {
            Err(IsoError::UnexpectedEof)
        } else {
            Ok((RollRecoveryEntry {
                roll_distance: i16_of(be_u16_at(s, 0)),
            }, 2))
        }
    }

    open spec fn spec_writable(v: RollRecoveryEntry) -> bool {
        true
    }

    open spec fn spec_serialize(v: RollRecoveryEntry) -> Seq<u8> {
        u16_bytes(u16_of(v.roll_distance))
    }

    open spec fn spec_canonical(v: RollRecoveryEntry) -> bool {
        true
    }

    proof fn lemma_parse_len(s: Seq<u8>) {
    }

    proof fn lemma_size(x: RollRecoveryEntry) {
    }

    proof fn lemma_roundtrip(v: RollRecoveryEntry, rest: Seq<u8>) {
        let s = Self::spec_serialize(v) + rest;
        assert(s.subrange(0, 2) =~= u16_bytes(u16_of(v.roll_distance)));
        lemma_u16_at(s, 0, u16_of(v.roll_distance));
        lemma_i16_roundtrip(v.roll_distance);
    }

    fn parse(data: &[u8], pos: usize) -> (r: Result<(RollRecoveryEntry, usize), IsoError>) {
        if data.len() - pos < 2 {
            return Err(IsoError::UnexpectedEof);
        }
        let d = &data[pos..data.len()];
        proof {
            assert(d@ =~= data@.skip(pos as int));
        }
        let roll_distance = to_i16(read_u16_at(d, 0));
        Ok((RollRecoveryEntry { roll_distance }, pos + 2))
    }

    fn serialize(&self, out: &mut Vec<u8>) -> (r: Result<(), IsoError>) {
        let ghost before = out@;
        write_u16(out, from_i16(self.roll_distance));
        proof {
            assert(out@ =~= before + Self::spec_serialize(self@));
            lemma_append_prefix(before, Self::spec_serialize(self@));
        }
        Ok(())
    }
}

/// `AudioPreRollEntry`
///
/// `prol`
///
/// ISO/IEC 14496-12 - 10.1
#[derive(Debug, Clone, Copy, PartialEq, Eq, Structural)]
pub struct AudioPreRollEntry {
    /// The number of samples to decode before the sample.
    pub roll_distance: i16,
}

impl View for AudioPreRollEntry {
    type V = AudioPreRollEntry;

    open spec fn view(&self) -> AudioPreRollEntry {
        *self
    }
}

impl IsoSized for AudioPreRollEntry {
    open spec fn spec_size(&self) -> nat {
        2
    }

    fn size(&self) -> (n: usize) {
        2
    }
}

impl Wire for AudioPreRollEntry {
    open spec fn spec_parse(s: Seq<u8>) -> SpecParse<AudioPreRollEntry> {
        if s.len() < 2 {
            Err(IsoError::UnexpectedEof)
        } else {
            Ok((AudioPreRollEntry {
                roll_distance: i16_of(be_u16_at(s, 0)),
            }, 2))
        }
    }

    open spec fn spec_writable(v: AudioPreRollEntry) -> bool {
        true
    }

    open spec fn spec_serialize(v: AudioPreRollEntry) -> Seq<u8> {
        u16_bytes(u16_of(v.roll_distance))
    }

    open spec fn spec_canonical(v: AudioPreRollEntry) -> bool {
        true
    }

    proof fn lemma_parse_len(s: Seq<u8>) {
    }

    proof fn lemma_size(x: AudioPreRollEntry) {
    }

    proof fn lemma_roundtrip(v: AudioPreRollEntry, rest: Seq<u8>) {
        let s = Self::spec_serialize(v) + rest;
        assert(s.subrange(0, 2) =~= u16_bytes(u16_of(v.roll_distance)));
        lemma_u16_at(s, 0, u16_of(v.roll_distance));
        lemma_i16_roundtrip(v.roll_distance);
    }

    fn parse(data: &[u8], pos: usize) -> (r: Result<(AudioPreRollEntry, usize), IsoError>) {
        if data.len() - pos < 2 {
            return Err(IsoError::UnexpectedEof);
        }
        let d = &data[pos..data.len()];
        proof {
            assert(d@ =~= data@.skip(pos as int));
        }
        let roll_distance = to_i16(read_u16_at(d, 0));
        Ok((AudioPreRollEntry { roll_distance }, pos + 2))
    }

    fn serialize(&self, out: &mut Vec<u8>) -> (r: Result<(), IsoError>) {
        let ghost before = out@;
        write_u16(out, from_i16(self.roll_distance));
        proof {
            assert(out@ =~= before + Self::spec_serialize(self@));
            lemma_append_prefix(before, Self::spec_serialize(self@));
        }
        Ok(())
    }
}

/// Output and total sample counts in [`AlternativeStartupEntry`].
#[derive(Debug, Clone, Copy, PartialEq, Eq, Structural)]
pub struct AlternativeStartupEntryNums {
    /// The number of samples to output at the frame rate of the track.
    pub num_output_samples: u16,
    /// The total number of samples, output or not.
    pub num_total_samples: u16,
}

impl View for AlternativeStartupEntryNums {
    type V = AlternativeStartupEntryNums;

    open spec fn view(&self) -> AlternativeStartupEntryNums {
        *self
    }
}

impl IsoSized for AlternativeStartupEntryNums {
    open spec fn spec_size(&self) -> nat {
        4
    }

    fn size(&self) -> (n: usize) {
        4
    }
}

impl Wire for AlternativeStartupEntryNums {
    open spec fn spec_parse(s: Seq<u8>) -> SpecParse<AlternativeStartupEntryNums> {
        if s.len() < 4 {
            Err(IsoError::UnexpectedEof)
        } else {
            Ok((AlternativeStartupEntryNums {
                num_output_samples: be_u16_at(s, 0),
                num_total_samples: be_u16_at(s, 2),
            }, 4))
        }
    }

    open spec fn spec_writable(v: AlternativeStartupEntryNums) -> bool {
        true
    }

    open spec fn spec_serialize(v: AlternativeStartupEntryNums) -> Seq<u8> {
        u16_bytes(v.num_output_samples) + u16_bytes(v.num_total_samples)
    }

    open spec fn spec_canonical(v: AlternativeStartupEntryNums) -> bool {
        true
    }

    proof fn lemma_parse_len(s: Seq<u8>) {
    }

    proof fn lemma_size(x: AlternativeStartupEntryNums) {
    }

    proof fn lemma_roundtrip(v: AlternativeStartupEntryNums, rest: Seq<u8>) {
        let s = Self::spec_serialize(v) + rest;
        assert(s.subrange(0, 2) =~= u16_bytes(v.num_output_samples));
        lemma_u16_at(s, 0, v.num_output_samples);
        assert(s.subrange(2, 4) =~= u16_bytes(v.num_total_samples));
        lemma_u16_at(s, 2, v.num_total_samples);
    }

    fn parse(data: &[u8], pos: usize) -> (r: Result<(AlternativeStartupEntryNums, usize), IsoError>) {
        if data.len() - pos < 4 {
            return Err(IsoError::UnexpectedEof);
        }
        let d = &data[pos..data.len()];
        proof {
            assert(d@ =~= data@.skip(pos as int));
        }
        let num_output_samples = read_u16_at(d, 0);
        let num_total_samples = read_u16_at(d, 2);
        Ok((AlternativeStartupEntryNums { num_output_samples, num_total_samples }, pos + 4))
    }

    fn serialize(&self, out: &mut Vec<u8>) -> (r: Result<(), IsoError>) {
        let ghost before = out@;
        write_u16(out, self.num_output_samples);
        write_u16(out, self.num_total_samples);
        proof {
            assert(out@ =~= before + Self::spec_serialize(self@));
            lemma_append_prefix(before, Self::spec_serialize(self@));
        }
        Ok(())
    }
}

/// Pixel aspect ratio sample group entry
///
/// `pasr`
///
/// ISO/IEC 14496-12 - 10.10
#[derive(Debug, Clone, Copy, PartialEq, Eq, Structural)]
pub struct PixelAspectRatioEntry {
    /// The relative width of a pixel.
    pub h_spacing: u32,
    /// The relative height of a pixel.
    pub v_spacing: u32,
}

impl View for PixelAspectRatioEntry {
    type V = PixelAspectRatioEntry;

    open spec fn view(&self) -> PixelAspectRatioEntry {
        *self
    }
}

impl IsoSized for PixelAspectRatioEntry {
    open spec fn spec_size(&self) -> nat {
        8
    }

    fn size(&self) -> (n: usize) {
        8
    }
}

impl Wire for PixelAspectRatioEntry {
    open spec fn spec_parse(s: Seq<u8>) -> SpecParse<PixelAspectRatioEntry> {
        if s.len() < 8 {
            Err(IsoError::UnexpectedEof)
        } else {
            Ok((PixelAspectRatioEntry {
                h_spacing: be_u32_at(s, 0),
                v_spacing: be_u32_at(s, 4),
            }, 8))
        }
    }

    open spec fn spec_writable(v: PixelAspectRatioEntry) -> bool {
        true
    }

    open spec fn spec_serialize(v: PixelAspectRatioEntry) -> Seq<u8> {
        u32_bytes(v.h_spacing) + u32_bytes(v.v_spacing)
    }

    open spec fn spec_canonical(v: PixelAspectRatioEntry) -> bool {
        true
    }

    proof fn lemma_parse_len(s: Seq<u8>) {
    }

    proof fn lemma_size(x: PixelAspectRatioEntry) {
    }

    proof fn lemma_roundtrip(v: PixelAspectRatioEntry, rest: Seq<u8>) {
        let s = Self::spec_serialize(v) + rest;
        assert(s.subrange(0, 4) =~= u32_bytes(v.h_spacing));
        lemma_u32_at(s, 0, v.h_spacing);
        assert(s.subrange(4, 8) =~= u32_bytes(v.v_spacing));
        lemma_u32_at(s, 4, v.v_spacing);
    }

    fn parse(data: &[u8], pos: usize) -> (r: Result<(PixelAspectRatioEntry, usize), IsoError>) {
        if data.len() - pos < 8 {
            return Err(IsoError::UnexpectedEof);
        }
        let d = &data[pos..data.len()];
        proof {
            assert(d@ =~= data@.skip(pos as int));
        }
        let h_spacing = read_u32_at(d, 0);
        let v_spacing = read_u32_at(d, 4);
        Ok((PixelAspectRatioEntry { h_spacing, v_spacing }, pos + 8))
    }

    fn serialize(&self, out: &mut Vec<u8>) -> (r: Result<(), IsoError>) {
        let ghost before = out@;
        write_u32(out, self.h_spacing);
        write_u32(out, self.v_spacing);
        proof {
            assert(out@ =~= before + Self::spec_serialize(self@));
            lemma_append_prefix(before, Self::spec_serialize(self@));
        }
        Ok(())
    }
}

/// Clean aperture sample group entry
///
/// `casg`
///
/// ISO/IEC 14496-12 - 10.11
#[derive(Debug, Clone, Copy, PartialEq, Eq, Structural)]
pub struct CleanApertureEntry {
    pub clean_aperture_width_n: u32,
    pub clean_aperture_width_d: u32,
    pub clean_aperture_height_n: u32,
    pub clean_aperture_height_d: u32,
    pub horiz_off_n: u32,
    pub horiz_off_d: u32,
    pub vert_off_n: u32,
    pub vert_off_d: u32,
}

impl View for CleanApertureEntry {
    type V = CleanApertureEntry;

    open spec fn view(&self) -> CleanApertureEntry {
        *self
    }
}

impl IsoSized for CleanApertureEntry {
    open spec fn spec_size(&self) -> nat {
        32
    }

    fn size(&self) -> (n: usize) {
        32
    }
}

impl Wire for CleanApertureEntry {
    open spec fn spec_parse(s: Seq<u8>) -> SpecParse<CleanApertureEntry> {
        if s.len() < 32 {
            Err(IsoError::UnexpectedEof)
        } else {
            Ok((CleanApertureEntry {
                clean_aperture_width_n: be_u32_at(s, 0),
                clean_aperture_width_d: be_u32_at(s, 4),
                clean_aperture_height_n: be_u32_at(s, 8),
                clean_aperture_height_d: be_u32_at(s, 12),
                horiz_off_n: be_u32_at(s, 16),
                horiz_off_d: be_u32_at(s, 20),
                vert_off_n: be_u32_at(s, 24),
                vert_off_d: be_u32_at(s, 28),
            }, 32))
        }
    }

    open spec fn spec_writable(v: CleanApertureEntry) -> bool {
        true
    }

    open spec fn spec_serialize(v: CleanApertureEntry) -> Seq<u8> {
        u32_bytes(v.clean_aperture_width_n) + u32_bytes(v.clean_aperture_width_d) + u32_bytes(v.clean_aperture_height_n) + u32_bytes(v.clean_aperture_height_d) + u32_bytes(v.horiz_off_n) + u32_bytes(v.horiz_off_d) + u32_bytes(v.vert_off_n) + u32_bytes(v.vert_off_d)
    }

    open spec fn spec_canonical(v: CleanApertureEntry) -> bool {
        true
    }

    proof fn lemma_parse_len(s: Seq<u8>) {
    }

    proof fn lemma_size(x: CleanApertureEntry) {
    }

    proof fn lemma_roundtrip(v: CleanApertureEntry, rest: Seq<u8>) {
        let s = Self::spec_serialize(v) + rest;
        assert(s.subrange(0, 4) =~= u32_bytes(v.clean_aperture_width_n));
        lemma_u32_at(s, 0, v.clean_aperture_width_n);
        assert(s.subrange(4, 8) =~= u32_bytes(v.clean_aperture_width_d));
        lemma_u32_at(s, 4, v.clean_aperture_width_d);
        assert(s.subrange(8, 12) =~= u32_bytes(v.clean_aperture_height_n));
        lemma_u32_at(s, 8, v.clean_aperture_height_n);
        assert(s.subrange(12, 16) =~= u32_bytes(v.clean_aperture_height_d));
        lemma_u32_at(s, 12, v.clean_aperture_height_d);
        assert(s.subrange(16, 20) =~= u32_bytes(v.horiz_off_n));
        lemma_u32_at(s, 16, v.horiz_off_n);
        assert(s.subrange(20, 24) =~= u32_bytes(v.horiz_off_d));
        lemma_u32_at(s, 20, v.horiz_off_d);
        assert(s.subrange(24, 28) =~= u32_bytes(v.vert_off_n));
        lemma_u32_at(s, 24, v.vert_off_n);
        assert(s.subrange(28, 32) =~= u32_bytes(v.vert_off_d));
        lemma_u32_at(s, 28, v.vert_off_d);
    }

    fn parse(data: &[u8], pos: usize) -> (r: Result<(CleanApertureEntry, usize), IsoError>) {
        if data.len() - pos < 32 {
            return Err(IsoError::UnexpectedEof);
        }
        let d = &data[pos..data.len()];
        proof {
            assert(d@ =~= data@.skip(pos as int));
        }
        let clean_aperture_width_n = read_u32_at(d, 0);
        let clean_aperture_width_d = read_u32_at(d, 4);
        let clean_aperture_height_n = read_u32_at(d, 8);
        let clean_aperture_height_d = read_u32_at(d, 12);
        let horiz_off_n = read_u32_at(d, 16);
        let horiz_off_d = read_u32_at(d, 20);
        let vert_off_n = read_u32_at(d, 24);
        let vert_off_d = read_u32_at(d, 28);
        Ok((CleanApertureEntry { clean_aperture_width_n, clean_aperture_width_d, clean_aperture_height_n, clean_aperture_height_d, horiz_off_n, horiz_off_d, vert_off_n, vert_off_d }, pos + 32))
    }

    #[verifier::spinoff_prover]
    #[verifier::rlimit(40)]
    fn serialize(&self, out: &mut Vec<u8>) -> (r: Result<(), IsoError>) {
        let ghost before = out@;
        write_u32(out, self.clean_aperture_width_n);
        write_u32(out, self.clean_aperture_width_d);
        write_u32(out, self.clean_aperture_height_n);
        write_u32(out, self.clean_aperture_height_d);
        proof {
            assert(out@ =~= before + (u32_bytes(self.clean_aperture_width_n) + u32_bytes(self.clean_aperture_width_d)
                + u32_bytes(self.clean_aperture_height_n) + u32_bytes(self.clean_aperture_height_d)));
        }
        write_u32(out, self.horiz_off_n);
        write_u32(out, self.horiz_off_d);
        write_u32(out, self.vert_off_n);
        write_u32(out, self.vert_off_d);
        proof {
            assert(out@ =~= before + Self::spec_serialize(self@));
            lemma_append_prefix(before, Self::spec_serialize(self@));
        }
        Ok(())
    }
}

// ---------------------------------------------------------------------------
// Entries packed into bits.
// ---------------------------------------------------------------------------

/// Random access point (RAP) sample group entry
///
/// `rap `
///
/// ISO/IEC 14496-12 - 10.4
#[derive(Debug, Clone, Copy, PartialEq, Eq, Structural)]
pub struct VisualRandomAccessEntry {
    /// Whether the number of leading samples is known.
    pub num_leading_samples_known: bool,
    /// The number of leading samples (7 bits).
    pub num_leading_samples: u8,
}

impl View for VisualRandomAccessEntry {
    type V = VisualRandomAccessEntry;

    open spec fn view(&self) -> VisualRandomAccessEntry {
        *self
    }
}

impl IsoSized for VisualRandomAccessEntry {
    open spec fn spec_size(&self) -> nat {
        1
    }

    fn size(&self) -> (n: usize) {
        1
    }
}

impl Wire for VisualRandomAccessEntry {
    open spec fn spec_parse(s: Seq<u8>) -> SpecParse<VisualRandomAccessEntry> {
        if s.len() < 1 {
            Err(IsoError::UnexpectedEof)
        } else {
            Ok((
                VisualRandomAccessEntry {
                    num_leading_samples_known: s[0] & 0x80 != 0,
                    num_leading_samples: s[0] & 0x7f,
                },
                1,
            ))
        }
    }

    open spec fn spec_writable(v: VisualRandomAccessEntry) -> bool {
        true
    }

    /// The flag in the top bit, or-ed with the number.
    open spec fn spec_serialize(v: VisualRandomAccessEntry) -> Seq<u8> {
        seq![(if v.num_leading_samples_known { 0x80u8 } else { 0u8 }) | v.num_leading_samples]
    }

    open spec fn spec_canonical(v: VisualRandomAccessEntry) -> bool {
        v.num_leading_samples < 0x80
    }

    proof fn lemma_parse_len(s: Seq<u8>) {
    }

    proof fn lemma_size(x: VisualRandomAccessEntry) {
    }

    proof fn lemma_roundtrip(v: VisualRandomAccessEntry, rest: Seq<u8>) {
        let k = v.num_leading_samples_known;
        let n = v.num_leading_samples;
        let b: u8 = (if k { 0x80u8 } else { 0u8 }) | n;
        assert((b & 0x80 != 0) == k && b & 0x7f == n) by (bit_vector)
            requires
                b == (if k { 0x80u8 } else { 0u8 }) | n,
                n < 0x80,
        ;
        assert((Self::spec_serialize(v) + rest)[0] == b);
    }

    fn parse(data: &[u8], pos: usize) -> (r: Result<(VisualRandomAccessEntry, usize), IsoError>) {
        if pos >= data.len() {
            return Err(IsoError::UnexpectedEof);
        }
        let byte = data[pos];
        Ok((
            VisualRandomAccessEntry {
                num_leading_samples_known: byte & 0x80 != 0,
                num_leading_samples: byte & 0x7f,
            },
            pos + 1,
        ))
    }

    fn serialize(&self, out: &mut Vec<u8>) -> (r: Result<(), IsoError>) {
        let byte: u8 = (if self.num_leading_samples_known { 0x80u8 } else { 0u8 }) | self.num_leading_samples;
        proof {
            lemma_append_prefix(old(out)@, seq![byte]);
        }
        write_u8(out, byte);
        Ok(())
    }
}

/// Temporal level sample group entry
///
/// `tele`
///
/// ISO/IEC 14496-12 - 10.5
#[derive(Debug, Clone, Copy, PartialEq, Eq, Structural)]
pub struct TemporalLevelEntry {
    /// Whether the level can be decoded on its own.
    pub level_independently_decodable: bool,
}

impl View for TemporalLevelEntry {
    type V = TemporalLevelEntry;

    open spec fn view(&self) -> TemporalLevelEntry {
        *self
    }
}

impl IsoSized for TemporalLevelEntry {
    open spec fn spec_size(&self) -> nat {
        1
    }

    fn size(&self) -> (n: usize) {
        1
    }
}

impl Wire for TemporalLevelEntry {
    open spec fn spec_parse(s: Seq<u8>) -> SpecParse<TemporalLevelEntry> {
        if s.len() < 1 {
            Err(IsoError::UnexpectedEof)
        } else {
            Ok((TemporalLevelEntry { level_independently_decodable: s[0] & 0x80 != 0 }, 1))
        }
    }

    open spec fn spec_writable(v: TemporalLevelEntry) -> bool {
        true
    }

    open spec fn spec_serialize(v: TemporalLevelEntry) -> Seq<u8> {
        seq![if v.level_independently_decodable { 0x80u8 } else { 0u8 }]
    }

    open spec fn spec_canonical(v: TemporalLevelEntry) -> bool {
        true
    }

    proof fn lemma_parse_len(s: Seq<u8>) {
    }

    proof fn lemma_size(x: TemporalLevelEntry) {
    }

    proof fn lemma_roundtrip(v: TemporalLevelEntry, rest: Seq<u8>) {
        assert(0x80u8 & 0x80u8 != 0u8 && 0u8 & 0x80u8 == 0u8) by (bit_vector);
        assert((Self::spec_serialize(v) + rest)[0] == Self::spec_serialize(v)[0]);
    }

    fn parse(data: &[u8], pos: usize) -> (r: Result<(TemporalLevelEntry, usize), IsoError>) {
        if pos >= data.len() {
            return Err(IsoError::UnexpectedEof);
        }
        Ok((TemporalLevelEntry { level_independently_decodable: data[pos] & 0x80 != 0 }, pos + 1))
    }

    fn serialize(&self, out: &mut Vec<u8>) -> (r: Result<(), IsoError>) {
        let byte: u8 = if self.level_independently_decodable { 0x80u8 } else { 0u8 };
        proof {
            lemma_append_prefix(old(out)@, seq![byte]);
        }
        write_u8(out, byte);
        Ok(())
    }
}

/// Stream access point sample group entry
///
/// `sap `
///
/// ISO/IEC 14496-12 - 10.6
#[derive(Debug, Clone, Copy, PartialEq, Eq, Structural)]
pub struct SAPEntry {
    /// Whether the samples depend on the reference samples of the stream access point.
    pub dependent_flag: bool,
    /// The type of the stream access point (4 bits).
    pub sap_type: u8,
}

impl View for SAPEntry {
    type V = SAPEntry;

    open spec fn view(&self) -> SAPEntry {
        *self
    }
}

impl IsoSized for SAPEntry {
    open spec fn spec_size(&self) -> nat {
        1
    }

    fn size(&self) -> (n: usize) {
        1
    }
}

impl Wire for SAPEntry {
    open spec fn spec_parse(s: Seq<u8>) -> SpecParse<SAPEntry> {
        if s.len() < 1 {
            Err(IsoError::UnexpectedEof)
        } else {
            Ok((SAPEntry { dependent_flag: s[0] & 0x80 != 0, sap_type: s[0] & 0x0f }, 1))
        }
    }

    open spec fn spec_writable(v: SAPEntry) -> bool {
        true
    }

    /// The flag in the top bit and the low 4 bits of the type in the low bits.
    open spec fn spec_serialize(v: SAPEntry) -> Seq<u8> {
        seq![(if v.dependent_flag { 0x80u8 } else { 0u8 }) | (v.sap_type & 0x0f)]
    }

    open spec fn spec_canonical(v: SAPEntry) -> bool {
        v.sap_type < 0x10
    }

    proof fn lemma_parse_len(s: Seq<u8>) {
    }

    proof fn lemma_size(x: SAPEntry) {
    }

    proof fn lemma_roundtrip(v: SAPEntry, rest: Seq<u8>) {
        let k = v.dependent_flag;
        let t = v.sap_type;
        let b: u8 = (if k { 0x80u8 } else { 0u8 }) | (t & 0x0f);
        assert((b & 0x80 != 0) == k && b & 0x0f == t) by (bit_vector)
            requires
                b == (if k { 0x80u8 } else { 0u8 }) | (t & 0x0f),
                t < 0x10,
        ;
        assert((Self::spec_serialize(v) + rest)[0] == b);
    }

    fn parse(data: &[u8], pos: usize) -> (r: Result<(SAPEntry, usize), IsoError>) {
        if pos >= data.len() {
            return Err(IsoError::UnexpectedEof);
        }
        let byte = data[pos];
        Ok((SAPEntry { dependent_flag: byte & 0x80 != 0, sap_type: byte & 0x0f }, pos + 1))
    }

    fn serialize(&self, out: &mut Vec<u8>) -> (r: Result<(), IsoError>) {
        let byte: u8 = (if self.dependent_flag { 0x80u8 } else { 0u8 }) | (self.sap_type & 0x0f);
        proof {
            lemma_append_prefix(old(out)@, seq![byte]);
        }
        write_u8(out, byte);
        Ok(())
    }
}

/// Visual drap sample group entry
///
/// `drap`
///
/// ISO/IEC 14496-12 - 10.8
#[derive(Debug, Clone, Copy, PartialEq, Eq, Structural)]
pub struct VisualDRAPEntry {
    /// The type of the dependent random access point (3 bits).
    pub drap_type: u8,
}

impl View for VisualDRAPEntry {
    type V = VisualDRAPEntry;

    open spec fn view(&self) -> VisualDRAPEntry {
        *self
    }
}

impl IsoSized for VisualDRAPEntry {
    open spec fn spec_size(&self) -> nat {
        4
    }

    fn size(&self) -> (n: usize) {
        4
    }
}

impl Wire for VisualDRAPEntry {
    /// The type is in the top 3 bits of a 32-bit word.
    open spec fn spec_parse(s: Seq<u8>) -> SpecParse<VisualDRAPEntry> {
        if s.len() < 4 {
            Err(IsoError::UnexpectedEof)
        } else {
            Ok((VisualDRAPEntry { drap_type: ((be_u32_at(s, 0) >> 29u32) & 7) as u8 }, 4))
        }
    }

    open spec fn spec_writable(v: VisualDRAPEntry) -> bool {
        true
    }

    /// The low 4 bits of the type shifted to the top of a 32-bit word.
    open spec fn spec_serialize(v: VisualDRAPEntry) -> Seq<u8> {
        u32_bytes(((v.drap_type & 0x0f) as u32) << 29u32)
    }

    open spec fn spec_canonical(v: VisualDRAPEntry) -> bool {
        v.drap_type < 8
    }

    proof fn lemma_parse_len(s: Seq<u8>) {
    }

    proof fn lemma_size(x: VisualDRAPEntry) {
    }

    proof fn lemma_roundtrip(v: VisualDRAPEntry, rest: Seq<u8>) {
        let w: u32 = ((v.drap_type & 0x0f) as u32) << 29u32;
        let t = v.drap_type;
        lemma_u32_roundtrip(w, rest);
        assert(((w >> 29u32) & 7) as u8 == t) by (bit_vector)
            requires
                w == ((t & 0x0f) as u32) << 29u32,
                t < 8,
        ;
    }

    fn parse(data: &[u8], pos: usize) -> (r: Result<(VisualDRAPEntry, usize), IsoError>) {
        if data.len() - pos < 4 {
            return Err(IsoError::UnexpectedEof);
        }
        let w = read_u32_at(data, pos);
        Ok((VisualDRAPEntry { drap_type: ((w >> 29u32) & 7) as u8 }, pos + 4))
    }

    fn serialize(&self, out: &mut Vec<u8>) -> (r: Result<(), IsoError>) {
        let w: u32 = ((self.drap_type & 0x0f) as u32) << 29u32;
        proof {
            lemma_append_prefix(old(out)@, u32_bytes(w));
        }
        write_u32(out, w);
        Ok(())
    }
}


// ---------------------------------------------------------------------------
// Entries with lists.
// ---------------------------------------------------------------------------

/// Sample to metadata item sample group entry
///
/// `stmi`
///
/// ISO/IEC 14496-12 - 10.7
#[derive(Debug, PartialEq, Eq)]
pub struct SampleToMetadataItemEntry {
    /// The handler type of the meta box that holds the items.
    pub meta_box_handler_type: u32,
    /// The number of items.
    pub num_items: u32,
    /// The identifiers of the items.
    pub item_id: Vec<u32>,
}

/// The model of a [`SampleToMetadataItemEntry`].
pub struct SampleToMetadataItemEntryModel {
    pub meta_box_handler_type: u32,
    pub num_items: u32,
    pub item_id: Seq<u32>,
}

impl View for SampleToMetadataItemEntry {
    type V = SampleToMetadataItemEntryModel;

    open spec fn view(&self) -> SampleToMetadataItemEntryModel {
        SampleToMetadataItemEntryModel {
            meta_box_handler_type: self.meta_box_handler_type,
            num_items: self.num_items,
            item_id: views(self.item_id@),
        }
    }
}

impl IsoSized for SampleToMetadataItemEntry {
    open spec fn spec_size(&self) -> nat {
        8 + 4 * self.item_id@.len()
    }

    fn size(&self) -> (n: usize) {
        8 + 4 * self.item_id.len()
    }
}

impl Wire for SampleToMetadataItemEntry {
    /// The handler type and the count, then that many identifiers.
    open spec fn spec_parse(s: Seq<u8>) -> SpecParse<SampleToMetadataItemEntryModel> {
        if s.len() < 8 {
            Err(IsoError::UnexpectedEof)
        } else {
            match parse_count::<u32>(s.skip(8), be_u32_at(s, 4) as nat) {
                Ok((ids, k)) => Ok((
                    SampleToMetadataItemEntryModel {
                        meta_box_handler_type: be_u32_at(s, 0),
                        num_items: be_u32_at(s, 4),
                        item_id: ids,
                    },
                    8 + k,
                )),
                Err(e) => Err(e),
            }
        }
    }

    open spec fn spec_writable(v: SampleToMetadataItemEntryModel) -> bool {
        true
    }

    open spec fn spec_serialize(v: SampleToMetadataItemEntryModel) -> Seq<u8> {
        u32_bytes(v.meta_box_handler_type) + u32_bytes(v.num_items) + ser_seq::<u32>(v.item_id)
    }

    open spec fn spec_canonical(v: SampleToMetadataItemEntryModel) -> bool {
        v.num_items == v.item_id.len()
    }

    proof fn lemma_parse_len(s: Seq<u8>) {
        if s.len() >= 8 {
            lemma_parse_count_len::<u32>(s.skip(8), be_u32_at(s, 4) as nat);
        }
    }

    proof fn lemma_size(x: SampleToMetadataItemEntry) {
        lemma_ser_seq_fixed::<u32>(views(x.item_id@), 4);
    }

    proof fn lemma_roundtrip(v: SampleToMetadataItemEntryModel, rest: Seq<u8>) {
        let body = ser_seq::<u32>(v.item_id);
        let s = Self::spec_serialize(v) + rest;
        assert(s.subrange(0, 4) =~= u32_bytes(v.meta_box_handler_type));
        lemma_u32_at(s, 0, v.meta_box_handler_type);
        assert(s.subrange(4, 8) =~= u32_bytes(v.num_items));
        lemma_u32_at(s, 4, v.num_items);
        assert(s.skip(8) =~= body + rest);
        lemma_count_roundtrip::<u32>(v.item_id, rest);
    }

    fn parse(data: &[u8], pos: usize) -> (r: Result<(SampleToMetadataItemEntry, usize), IsoError>) {
        if data.len() - pos < 8 {
            return Err(IsoError::UnexpectedEof);
        }
        let meta_box_handler_type = read_u32_at(data, pos);
        let num_items = read_u32_at(data, pos + 4);
        proof {
            assert(data@.skip(pos as int).skip(8) =~= data@.skip(pos + 8));
        }
        let (item_id, p) = parse_counted::<u32>(data, pos + 8, num_items as usize)?;
        Ok((SampleToMetadataItemEntry { meta_box_handler_type, num_items, item_id }, p))
    }

    fn serialize(&self, out: &mut Vec<u8>) -> (r: Result<(), IsoError>) {
        let ghost before = out@;
        write_u32(out, self.meta_box_handler_type);
        write_u32(out, self.num_items);
        let ghost mid = out@;
        let _ = serialize_all(&self.item_id, out);
        proof {
            assert(out@ =~= before + Self::spec_serialize(self@));
            lemma_append_prefix(before, Self::spec_serialize(self@));
        }
        Ok(())
    }
}

/// Operation point in [`RateShareEntry`].
#[derive(Debug, Clone, Copy, PartialEq, Eq, Structural)]
pub struct RateShareEntryOperationPoint {
    /// The percentage of the available bandwidth to give the media at this operation
    /// point; 0 for no preference.
    pub target_rate_share: u16,
    /// The total bitrate, in kilobits per second, that can be shared at this
    /// operation point. Absent where the entry has a single operation point.
    pub available_bitrate: Option<u32>,
}

impl View for RateShareEntryOperationPoint {
    type V = RateShareEntryOperationPoint;

    open spec fn view(&self) -> RateShareEntryOperationPoint {
        *self
    }
}

impl IsoSized for RateShareEntryOperationPoint {
    open spec fn spec_size(&self) -> nat {
        if self.available_bitrate is Some { 6 } else { 2 }
    }

    fn size(&self) -> (n: usize) {
        if self.available_bitrate.is_some() {
            6
        } else {
            2
        }
    }
}

impl Wire for RateShareEntryOperationPoint {
    /// Within a list the bitrate comes first, then the share.
    open spec fn spec_parse(s: Seq<u8>) -> SpecParse<RateShareEntryOperationPoint> {
        if s.len() < 6 {
            Err(IsoError::UnexpectedEof)
        } else {
            Ok((
                RateShareEntryOperationPoint {
                    target_rate_share: be_u16_at(s, 4),
                    available_bitrate: Some(be_u32_at(s, 0)),
                },
                6,
            ))
        }
    }

    open spec fn spec_writable(v: RateShareEntryOperationPoint) -> bool {
        true
    }

    open spec fn spec_serialize(v: RateShareEntryOperationPoint) -> Seq<u8> {
        (match v.available_bitrate {
            Some(b) => u32_bytes(b),
            None => Seq::empty(),
        }) + u16_bytes(v.target_rate_share)
    }

    open spec fn spec_canonical(v: RateShareEntryOperationPoint) -> bool {
        v.available_bitrate is Some
    }

    proof fn lemma_parse_len(s: Seq<u8>) {
    }

    proof fn lemma_size(x: RateShareEntryOperationPoint) {
    }

    proof fn lemma_roundtrip(v: RateShareEntryOperationPoint, rest: Seq<u8>) {
        let s = Self::spec_serialize(v) + rest;
        let b = v.available_bitrate.unwrap();
        assert(s.subrange(0, 4) =~= u32_bytes(b));
        lemma_u32_at(s, 0, b);
        assert(s.subrange(4, 6) =~= u16_bytes(v.target_rate_share));
        lemma_u16_at(s, 4, v.target_rate_share);
    }

    fn parse(data: &[u8], pos: usize) -> (r: Result<(RateShareEntryOperationPoint, usize), IsoError>) {
        if data.len() - pos < 6 {
            return Err(IsoError::UnexpectedEof);
        }
        let available_bitrate = read_u32_at(data, pos);
        let target_rate_share = read_u16_at(data, pos + 4);
        Ok((
            RateShareEntryOperationPoint { target_rate_share, available_bitrate: Some(available_bitrate) },
            pos + 6,
        ))
    }

    fn serialize(&self, out: &mut Vec<u8>) -> (r: Result<(), IsoError>) {
        let ghost before = out@;
        match self.available_bitrate {
            Some(b) => write_u32(out, b),
            None => {},
        }
        write_u16(out, self.target_rate_share);
        proof {
            assert(out@ =~= before + Self::spec_serialize(self@));
            lemma_append_prefix(before, Self::spec_serialize(self@));
        }
        Ok(())
    }
}

/// Rate share sample group entry
///
/// `rash`
///
/// ISO/IEC 14496-12 - 10.2
#[derive(Debug, PartialEq, Eq)]
pub struct RateShareEntry {
    /// The number of operation points.
    pub operation_point_count: u16,
    /// The operation points.
    pub operation_points: Vec<RateShareEntryOperationPoint>,
    /// The largest bitrate, in kilobits per second, to give the track.
    pub maximum_bitrate: u32,
    /// The smallest bitrate, in kilobits per second, to give the track.
    pub minimum_bitrate: u32,
    /// The priority of the track when bitrates must be cut.
    pub discard_priority: u8,
}

/// The model of a [`RateShareEntry`].
pub struct RateShareEntryModel {
    pub operation_point_count: u16,
    pub operation_points: Seq<RateShareEntryOperationPoint>,
    pub maximum_bitrate: u32,
    pub minimum_bitrate: u32,
    pub discard_priority: u8,
}

impl View for RateShareEntry {
    type V = RateShareEntryModel;

    open spec fn view(&self) -> RateShareEntryModel {
        RateShareEntryModel {
            operation_point_count: self.operation_point_count,
            operation_points: views(self.operation_points@),
            maximum_bitrate: self.maximum_bitrate,
            minimum_bitrate: self.minimum_bitrate,
            discard_priority: self.discard_priority,
        }
    }
}

/// The operation points of a rate share entry: a single one is only its share;
/// otherwise each has its bitrate and its share.
pub open spec fn rash_points(s: Seq<u8>, count: u16) -> SpecParse<Seq<RateShareEntryOperationPoint>> {
    if count == 1 {
        if s.len() < 2 {
            Err(IsoError::UnexpectedEof)
        } else {
            Ok((
                seq![RateShareEntryOperationPoint { target_rate_share: be_u16_at(s, 0), available_bitrate: None }],
                2,
            ))
        }
    } else {
        parse_count::<RateShareEntryOperationPoint>(s, count as nat)
    }
}

impl IsoSized for RateShareEntry {
    open spec fn spec_size(&self) -> nat {
        2 + size_seq::<RateShareEntryOperationPoint>(self.operation_points@) + 9
    }

    fn size(&self) -> (n: usize) {
        2 + size_all(&self.operation_points) + 9
    }
}

impl Wire for RateShareEntry {
    open spec fn spec_parse(s: Seq<u8>) -> SpecParse<RateShareEntryModel> {
        if s.len() < 2 {
            Err(IsoError::UnexpectedEof)
        } else {
            let count = be_u16_at(s, 0);
            match rash_points(s.skip(2), count) {
                Ok((points, k)) => {
                    let q = 2 + k;
                    if s.len() < q + 9 {
                        Err(IsoError::UnexpectedEof)
                    } else {
                        Ok((
                            RateShareEntryModel {
                                operation_point_count: count,
                                operation_points: points,
                                maximum_bitrate: be_u32_at(s, q),
                                minimum_bitrate: be_u32_at(s, q + 4),
                                discard_priority: s[q + 8],
                            },
                            q + 9,
                        ))
                    }
                },
                Err(e) => Err(e),
            }
        }
    }

    /// With more than one operation point, every point carries its bitrate.
    open spec fn spec_writable(v: RateShareEntryModel) -> bool {
        v.operation_point_count > 1 ==> forall|i: int|
            0 <= i < v.operation_points.len() ==> (#[trigger] v.operation_points[i]).available_bitrate is Some
    }

    open spec fn spec_serialize(v: RateShareEntryModel) -> Seq<u8> {
        u16_bytes(v.operation_point_count) + ser_seq::<RateShareEntryOperationPoint>(v.operation_points)
            + u32_bytes(v.maximum_bitrate) + u32_bytes(v.minimum_bitrate) + seq![v.discard_priority]
    }

    /// The count is the number of points; a single point has no bitrate, and
    /// otherwise every point has one.
    open spec fn spec_canonical(v: RateShareEntryModel) -> bool {
        &&& v.operation_point_count == v.operation_points.len()
        &&& v.operation_point_count == 1 ==> v.operation_points[0].available_bitrate is None
        &&& v.operation_point_count != 1 ==> forall|i: int|
            0 <= i < v.operation_points.len() ==> (#[trigger] v.operation_points[i]).available_bitrate is Some
    }

    proof fn lemma_parse_len(s: Seq<u8>) {
        if s.len() >= 2 && be_u16_at(s, 0) != 1 {
            lemma_parse_count_len::<RateShareEntryOperationPoint>(s.skip(2), be_u16_at(s, 0) as nat);
        }
    }

    proof fn lemma_size(x: RateShareEntry) {
        lemma_size_seq::<RateShareEntryOperationPoint>(x.operation_points@);
    }

    #[verifier::spinoff_prover]
    #[verifier::rlimit(40)]
    proof fn lemma_roundtrip(v: RateShareEntryModel, rest: Seq<u8>) {
        let pts = ser_seq::<RateShareEntryOperationPoint>(v.operation_points);
        let tail = u32_bytes(v.maximum_bitrate) + u32_bytes(v.minimum_bitrate) + seq![v.discard_priority]
            + rest;
        let s = Self::spec_serialize(v) + rest;
        assert(s =~= u16_bytes(v.operation_point_count) + (pts + tail));
        assert(s.subrange(0, 2) =~= u16_bytes(v.operation_point_count));
        lemma_u16_at(s, 0, v.operation_point_count);
        assert(s.skip(2) =~= pts + tail);
        let k = pts.len() as int;
        if v.operation_point_count == 1 {
            let p = v.operation_points[0];
            assert(v.operation_points =~= seq![p]);
            assert(pts =~= u16_bytes(p.target_rate_share)) by {
                assert(seq![p].drop_last() =~= Seq::<RateShareEntryOperationPoint>::empty());
                assert(ser_seq::<RateShareEntryOperationPoint>(seq![p]) == ser_seq::<RateShareEntryOperationPoint>(
                    Seq::empty(),
                ) + RateShareEntryOperationPoint::spec_serialize(p));
            }
            assert(s.subrange(2, 4) =~= u16_bytes(p.target_rate_share));
            lemma_u16_at(s, 2, p.target_rate_share);
            assert(be_u16_at(s.skip(2), 0) == be_u16_at(s, 2));
            assert(rash_points(s.skip(2), 1) == Ok::<(Seq<RateShareEntryOperationPoint>, int), IsoError>(
                (v.operation_points, 2),
            ));
        } else {
            lemma_count_roundtrip::<RateShareEntryOperationPoint>(v.operation_points, tail);
        }
        let q = 2 + k;
        assert(s.subrange(q, q + 4) =~= u32_bytes(v.maximum_bitrate));
        lemma_u32_at(s, q, v.maximum_bitrate);
        assert(s.subrange(q + 4, q + 8) =~= u32_bytes(v.minimum_bitrate));
        lemma_u32_at(s, q + 4, v.minimum_bitrate);
        assert(s[q + 8] == v.discard_priority);
    }

    fn parse(data: &[u8], pos: usize) -> (r: Result<(RateShareEntry, usize), IsoError>) {
        if data.len() - pos < 2 {
            return Err(IsoError::UnexpectedEof);
        }
        let operation_point_count = read_u16_at(data, pos);
        let ghost s = data@.skip(pos as int);
        proof {
            assert(s.skip(2) =~= data@.skip(pos + 2));
        }
        let (operation_points, q) = if operation_point_count == 1 {
            if data.len() - pos < 4 {
                return Err(IsoError::UnexpectedEof);
            }
            let target_rate_share = read_u16_at(data, pos + 2);
            let mut points: Vec<RateShareEntryOperationPoint> = Vec::new();
            points.push(RateShareEntryOperationPoint { target_rate_share, available_bitrate: None });
            proof {
                assert(views(points@) =~= seq![
                    RateShareEntryOperationPoint { target_rate_share, available_bitrate: None },
                ]);
            }
            (points, pos + 4)
        } else {
            let (points, p) = parse_counted::<RateShareEntryOperationPoint>(
                data,
                pos + 2,
                operation_point_count as usize,
            )?;
            proof {
                lemma_parse_count_len::<RateShareEntryOperationPoint>(
                    data@.skip(pos + 2),
                    operation_point_count as nat,
                );
            }
            (points, p)
        };
        if data.len() - q < 9 {
            return Err(IsoError::UnexpectedEof);
        }
        let maximum_bitrate = read_u32_at(data, q);
        let minimum_bitrate = read_u32_at(data, q + 4);
        let discard_priority = data[q + 8];
        Ok((
            RateShareEntry {
                operation_point_count,
                operation_points,
                maximum_bitrate,
                minimum_bitrate,
                discard_priority,
            },
            q + 9,
        ))
    }

    fn serialize(&self, out: &mut Vec<u8>) -> (r: Result<(), IsoError>) {
        proof {
            assert(out@.subrange(0, out@.len() as int) =~= out@);
        }
        if self.operation_point_count > 1 {
            let mut i: usize = 0;
            while i < self.operation_points.len()
                invariant
                    out@ == old(out)@,
                    self.operation_point_count > 1,
                    i <= self.operation_points@.len(),
                    forall|j: int| 0 <= j < i ==> (#[trigger] self.operation_points@[j]).available_bitrate is Some,
                decreases self.operation_points@.len() - i,
            {
                if self.operation_points[i].available_bitrate.is_none() {
                    proof {
                        assert(out@.subrange(0, out@.len() as int) =~= out@);
                        assert(views(self.operation_points@)[i as int] == self.operation_points@[i as int]);
                    }
                    return Err(IsoError::InvalidData);
                }
                i = i + 1;
            }
        }
        let ghost before = out@;
        write_u16(out, self.operation_point_count);
        let _ = serialize_all(&self.operation_points, out);
        write_u32(out, self.maximum_bitrate);
        write_u32(out, self.minimum_bitrate);
        write_u8(out, self.discard_priority);
        proof {
            assert(out@ =~= before + Self::spec_serialize(self@));
            lemma_append_prefix(before, Self::spec_serialize(self@));
        }
        Ok(())
    }
}


/// Alternative startup sequences
///
/// `alst`
///
/// ISO/IEC 14496-12 - 10.3
#[derive(Debug, PartialEq, Eq)]
pub struct AlternativeStartupEntry {
    /// The number of samples in the alternative startup sequence.
    pub roll_count: u16,
    /// The index of the first sample to output.
    pub first_output_sample: u16,
    /// The composition time offset of each sample of the sequence.
    pub sample_offset: Vec<u32>,
    /// Output and total sample counts, to the end of the input.
    pub nums: Vec<AlternativeStartupEntryNums>,
}

/// The model of an [`AlternativeStartupEntry`].
pub struct AlternativeStartupEntryModel {
    pub roll_count: u16,
    pub first_output_sample: u16,
    pub sample_offset: Seq<u32>,
    pub nums: Seq<AlternativeStartupEntryNums>,
}

impl View for AlternativeStartupEntry {
    type V = AlternativeStartupEntryModel;

    open spec fn view(&self) -> AlternativeStartupEntryModel {
        AlternativeStartupEntryModel {
            roll_count: self.roll_count,
            first_output_sample: self.first_output_sample,
            sample_offset: views(self.sample_offset@),
            nums: views(self.nums@),
        }
    }
}

/// Reading an alternative startup entry that fills the input: the counts, the
/// offsets, then pairs of numbers until the input ends.
pub open spec fn alst_parse(s: Seq<u8>) -> Result<AlternativeStartupEntryModel, IsoError> {
    if s.len() < 4 {
        Err(IsoError::UnexpectedEof)
    } else {
        match parse_count::<u32>(s.skip(4), be_u16_at(s, 0) as nat) {
            Ok((offsets, k)) => match parse_rest::<AlternativeStartupEntryNums>(s.skip(4 + k)) {
                Ok((nums, m)) => Ok(
                    AlternativeStartupEntryModel {
                        roll_count: be_u16_at(s, 0),
                        first_output_sample: be_u16_at(s, 2),
                        sample_offset: offsets,
                        nums,
                    },
                ),
                Err(e) => Err(e),
            },
            Err(e) => Err(e),
        }
    }
}

/// The bytes of an alternative startup entry.
pub open spec fn alst_serialize(v: AlternativeStartupEntryModel) -> Seq<u8> {
    u16_bytes(v.roll_count) + u16_bytes(v.first_output_sample) + ser_seq::<u32>(v.sample_offset)
        + ser_seq::<AlternativeStartupEntryNums>(v.nums)
}

impl IsoSized for AlternativeStartupEntry {
    open spec fn spec_size(&self) -> nat {
        4 + 4 * self.sample_offset@.len() + 4 * self.nums@.len()
    }

    fn size(&self) -> (n: usize) {
        4 + 4 * self.sample_offset.len() + 4 * self.nums.len()
    }
}

impl AlternativeStartupEntry {
    /// Reads an entry that fills `data`.
    pub fn parse(data: &[u8]) -> (r: Result<AlternativeStartupEntry, IsoError>)
        ensures
            match (alst_parse(data@), r) {
                (Ok(v), Ok(x)) => x@ == v,
                (Err(e), Err(f)) => e == f,
                _ => false,
            },
    {
        if data.len() < 4 {
            return Err(IsoError::UnexpectedEof);
        }
        let roll_count = read_u16_at(data, 0);
        let first_output_sample = read_u16_at(data, 2);
        let (sample_offset, p) = parse_counted::<u32>(data, 4, roll_count as usize)?;
        proof {
            lemma_parse_count_len::<u32>(data@.skip(4), roll_count as nat);
            assert(data@.skip(4).skip(p - 4) =~= data@.skip(p as int));
        }
        let (nums, _end) = parse_remaining::<AlternativeStartupEntryNums>(data, p)?;
        Ok(AlternativeStartupEntry { roll_count, first_output_sample, sample_offset, nums })
    }

    /// Writes the entry.
    pub fn serialize(&self, out: &mut Vec<u8>)
        ensures
            final(out)@ == old(out)@ + alst_serialize(self@),
    {
        let ghost before = out@;
        write_u16(out, self.roll_count);
        write_u16(out, self.first_output_sample);
        let _ = serialize_all(&self.sample_offset, out);
        let _ = serialize_all(&self.nums, out);
        proof {
            assert(out@ =~= before + alst_serialize(self@));
        }
    }
}

/// A written alternative startup entry takes four bytes for each offset and pair.
pub proof fn lemma_alst_len(v: AlternativeStartupEntryModel)
    ensures
        alst_serialize(v).len() == 4 + 4 * v.sample_offset.len() + 4 * v.nums.len(),
{
    lemma_ser_seq_fixed::<u32>(v.sample_offset, 4);
    lemma_ser_seq_fixed::<AlternativeStartupEntryNums>(v.nums, 4);
}

/// Reading back a written alternative startup entry whose count is the number of
/// its offsets gives the entry.
pub proof fn lemma_alst_roundtrip(v: AlternativeStartupEntryModel)
    requires
        v.roll_count == v.sample_offset.len(),
    ensures
        alst_parse(alst_serialize(v)) == Ok::<AlternativeStartupEntryModel, IsoError>(v),
        alst_serialize(v).len() == 4 + 4 * v.sample_offset.len() + 4 * v.nums.len(),
{
    let offs = ser_seq::<u32>(v.sample_offset);
    let nums = ser_seq::<AlternativeStartupEntryNums>(v.nums);
    let s = alst_serialize(v);
    assert(s.subrange(0, 2) =~= u16_bytes(v.roll_count));
    lemma_u16_at(s, 0, v.roll_count);
    assert(s.subrange(2, 4) =~= u16_bytes(v.first_output_sample));
    lemma_u16_at(s, 2, v.first_output_sample);
    assert(s.skip(4) =~= offs + nums);
    lemma_count_roundtrip::<u32>(v.sample_offset, nums);
    assert(s.skip(4 + offs.len() as int) =~= nums);
    lemma_rest_roundtrip::<AlternativeStartupEntryNums>(v.nums);
    lemma_ser_seq_fixed::<u32>(v.sample_offset, 4);
    lemma_ser_seq_fixed::<AlternativeStartupEntryNums>(v.nums, 4);
}

} // verus!
