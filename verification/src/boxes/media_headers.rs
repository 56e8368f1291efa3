//! Header boxes of movies, tracks, media and fragments, whose times take 32 or 64 bits
//! by version (ISO/IEC 14496-12 - 8.2, 8.3, 8.4, 8.6, 8.8).

use vstd::prelude::*;

use crate::codec::{
    be_u16_at, be_u24_at, be_u32_at, be_u64_at, from_i16, from_i32, from_i64, i16_of, i32_of, i64_of,
    lemma_append_prefix, lemma_i16_roundtrip, lemma_i32_roundtrip, lemma_i64_roundtrip, lemma_u16_at,
    lemma_u24_at, lemma_u32_at, lemma_u64_at, lemma_wide_bytes_len, read_u16_at, read_u24_at, read_u32_at,
    read_u64_at, to_i16, to_i32, to_i64, u16_bytes, u16_of, u24_bytes, u32_bytes, u32_of, u64_bytes, u64_of,
    write_u16, write_u24, write_u32, write_u64, write_u8, IsoError,
};
use crate::common_types::{language_from_word, language_word, Langauge};
use crate::frame::{add_header_size, add_header_size_exec, BoxBody};
use crate::header::{spec_uuid_fourcc, FullBoxHeader};
use crate::wire::IsoSized;

verus! {


/// 9 32-bit values at offset `i`.
#[verifier::opaque]
pub open spec fn i32x9_at(s: Seq<u8>, i: int) -> [i32; 9] {
    [i32_of(be_u32_at(s, i + 0)), i32_of(be_u32_at(s, i + 4)), i32_of(be_u32_at(s, i + 8)), i32_of(be_u32_at(s, i + 12)), i32_of(be_u32_at(s, i + 16)), i32_of(be_u32_at(s, i + 20)), i32_of(be_u32_at(s, i + 24)), i32_of(be_u32_at(s, i + 28)), i32_of(be_u32_at(s, i + 32))]
}

/// The bytes of 9 32-bit values.
#[verifier::opaque]
pub open spec fn i32x9_bytes(v: [i32; 9]) -> Seq<u8> {
    u32_bytes(u32_of(v[0])) + u32_bytes(u32_of(v[1])) + u32_bytes(u32_of(v[2])) + u32_bytes(u32_of(v[3])) + u32_bytes(u32_of(v[4])) + u32_bytes(u32_of(v[5])) + u32_bytes(u32_of(v[6])) + u32_bytes(u32_of(v[7])) + u32_bytes(u32_of(v[8]))
}

pub proof fn lemma_i32x9_bytes_len(v: [i32; 9])
    ensures
        i32x9_bytes(v).len() == 36,
{
    reveal(i32x9_bytes);
}

pub fn read_i32x9_at(data: &[u8], pos: usize) -> (v: [i32; 9])
    requires
        pos + 36 <= data@.len(),
    ensures
        v == i32x9_at(data@, pos as int),
{
    reveal(i32x9_at);
    assert(data@.len() == data.len());
    [to_i32(read_u32_at(data, pos + 0)), to_i32(read_u32_at(data, pos + 4)), to_i32(read_u32_at(data, pos + 8)), to_i32(read_u32_at(data, pos + 12)), to_i32(read_u32_at(data, pos + 16)), to_i32(read_u32_at(data, pos + 20)), to_i32(read_u32_at(data, pos + 24)), to_i32(read_u32_at(data, pos + 28)), to_i32(read_u32_at(data, pos + 32))]
}

pub fn write_i32x9(out: &mut Vec<u8>, v: [i32; 9])
    ensures
        final(out)@ == old(out)@ + i32x9_bytes(v),
{
    reveal(i32x9_bytes);
    let ghost before = out@;
    write_u32(out, from_i32(v[0]));
    write_u32(out, from_i32(v[1]));
    write_u32(out, from_i32(v[2]));
    write_u32(out, from_i32(v[3]));
    write_u32(out, from_i32(v[4]));
    write_u32(out, from_i32(v[5]));
    write_u32(out, from_i32(v[6]));
    write_u32(out, from_i32(v[7]));
    write_u32(out, from_i32(v[8]));
    assert(out@ =~= before + i32x9_bytes(v));
}

pub proof fn lemma_i32x9_at(s: Seq<u8>, i: int, v: [i32; 9])
    requires
        0 <= i,
        i + 36 <= s.len(),
        s.subrange(i, i + 36) == i32x9_bytes(v),
    ensures
        i32x9_at(s, i) == v,
{
    reveal(i32x9_at);
    reveal(i32x9_bytes);
    broadcast use vstd::array::group_array_axioms;
    assert(s.subrange(i + 0, i + 4) =~= s.subrange(i, i + 36).subrange(0, 4));
    assert(s.subrange(i + 4, i + 8) =~= s.subrange(i, i + 36).subrange(4, 8));
    assert(s.subrange(i + 8, i + 12) =~= s.subrange(i, i + 36).subrange(8, 12));
    assert(s.subrange(i + 12, i + 16) =~= s.subrange(i, i + 36).subrange(12, 16));
    assert(s.subrange(i + 16, i + 20) =~= s.subrange(i, i + 36).subrange(16, 20));
    assert(s.subrange(i + 20, i + 24) =~= s.subrange(i, i + 36).subrange(20, 24));
    assert(s.subrange(i + 24, i + 28) =~= s.subrange(i, i + 36).subrange(24, 28));
    assert(s.subrange(i + 28, i + 32) =~= s.subrange(i, i + 36).subrange(28, 32));
    assert(s.subrange(i + 32, i + 36) =~= s.subrange(i, i + 36).subrange(32, 36));
    assert(i32x9_bytes(v).subrange(0, 4) =~= u32_bytes(u32_of(v[0])));
    assert(i32x9_bytes(v).subrange(4, 8) =~= u32_bytes(u32_of(v[1])));
    assert(i32x9_bytes(v).subrange(8, 12) =~= u32_bytes(u32_of(v[2])));
    assert(i32x9_bytes(v).subrange(12, 16) =~= u32_bytes(u32_of(v[3])));
    assert(i32x9_bytes(v).subrange(16, 20) =~= u32_bytes(u32_of(v[4])));
    assert(i32x9_bytes(v).subrange(20, 24) =~= u32_bytes(u32_of(v[5])));
    assert(i32x9_bytes(v).subrange(24, 28) =~= u32_bytes(u32_of(v[6])));
    assert(i32x9_bytes(v).subrange(28, 32) =~= u32_bytes(u32_of(v[7])));
    assert(i32x9_bytes(v).subrange(32, 36) =~= u32_bytes(u32_of(v[8])));
    lemma_u32_at(s, i + 0, u32_of(v[0])); lemma_i32_roundtrip(v[0]);
    lemma_u32_at(s, i + 4, u32_of(v[1])); lemma_i32_roundtrip(v[1]);
    lemma_u32_at(s, i + 8, u32_of(v[2])); lemma_i32_roundtrip(v[2]);
    lemma_u32_at(s, i + 12, u32_of(v[3])); lemma_i32_roundtrip(v[3]);
    lemma_u32_at(s, i + 16, u32_of(v[4])); lemma_i32_roundtrip(v[4]);
    lemma_u32_at(s, i + 20, u32_of(v[5])); lemma_i32_roundtrip(v[5]);
    lemma_u32_at(s, i + 24, u32_of(v[6])); lemma_i32_roundtrip(v[6]);
    lemma_u32_at(s, i + 28, u32_of(v[7])); lemma_i32_roundtrip(v[7]);
    lemma_u32_at(s, i + 32, u32_of(v[8])); lemma_i32_roundtrip(v[8]);
    assert(i32x9_at(s, i) =~= v);
}

/// 6 32-bit values at offset `i`.
#[verifier::opaque]
pub open spec fn u32x6_at(s: Seq<u8>, i: int) -> [u32; 6] {
    [be_u32_at(s, i + 0), be_u32_at(s, i + 4), be_u32_at(s, i + 8), be_u32_at(s, i + 12), be_u32_at(s, i + 16), be_u32_at(s, i + 20)]
}

/// The bytes of 6 32-bit values.
#[verifier::opaque]
pub open spec fn u32x6_bytes(v: [u32; 6]) -> Seq<u8> {
    u32_bytes(v[0]) + u32_bytes(v[1]) + u32_bytes(v[2]) + u32_bytes(v[3]) + u32_bytes(v[4]) + u32_bytes(v[5])
}

pub proof fn lemma_u32x6_bytes_len(v: [u32; 6])
    ensures
        u32x6_bytes(v).len() == 24,
{
    reveal(u32x6_bytes);
}

pub fn read_u32x6_at(data: &[u8], pos: usize) -> (v: [u32; 6])
    requires
        pos + 24 <= data@.len(),
    ensures
        v == u32x6_at(data@, pos as int),
{
    reveal(u32x6_at);
    assert(data@.len() == data.len());
    [read_u32_at(data, pos + 0), read_u32_at(data, pos + 4), read_u32_at(data, pos + 8), read_u32_at(data, pos + 12), read_u32_at(data, pos + 16), read_u32_at(data, pos + 20)]
}

pub fn write_u32x6(out: &mut Vec<u8>, v: [u32; 6])
    ensures
        final(out)@ == old(out)@ + u32x6_bytes(v),
{
    reveal(u32x6_bytes);
    let ghost before = out@;
    write_u32(out, v[0]);
    write_u32(out, v[1]);
    write_u32(out, v[2]);
    write_u32(out, v[3]);
    write_u32(out, v[4]);
    write_u32(out, v[5]);
    assert(out@ =~= before + u32x6_bytes(v));
}

pub proof fn lemma_u32x6_at(s: Seq<u8>, i: int, v: [u32; 6])
    requires
        0 <= i,
        i + 24 <= s.len(),
        s.subrange(i, i + 24) == u32x6_bytes(v),
    ensures
        u32x6_at(s, i) == v,
{
    reveal(u32x6_at);
    reveal(u32x6_bytes);
    broadcast use vstd::array::group_array_axioms;
    assert(s.subrange(i + 0, i + 4) =~= s.subrange(i, i + 24).subrange(0, 4));
    assert(s.subrange(i + 4, i + 8) =~= s.subrange(i, i + 24).subrange(4, 8));
    assert(s.subrange(i + 8, i + 12) =~= s.subrange(i, i + 24).subrange(8, 12));
    assert(s.subrange(i + 12, i + 16) =~= s.subrange(i, i + 24).subrange(12, 16));
    assert(s.subrange(i + 16, i + 20) =~= s.subrange(i, i + 24).subrange(16, 20));
    assert(s.subrange(i + 20, i + 24) =~= s.subrange(i, i + 24).subrange(20, 24));
    assert(u32x6_bytes(v).subrange(0, 4) =~= u32_bytes(v[0]));
    assert(u32x6_bytes(v).subrange(4, 8) =~= u32_bytes(v[1]));
    assert(u32x6_bytes(v).subrange(8, 12) =~= u32_bytes(v[2]));
    assert(u32x6_bytes(v).subrange(12, 16) =~= u32_bytes(v[3]));
    assert(u32x6_bytes(v).subrange(16, 20) =~= u32_bytes(v[4]));
    assert(u32x6_bytes(v).subrange(20, 24) =~= u32_bytes(v[5]));
    lemma_u32_at(s, i + 0, v[0]);
    lemma_u32_at(s, i + 4, v[1]);
    lemma_u32_at(s, i + 8, v[2]);
    lemma_u32_at(s, i + 12, v[3]);
    lemma_u32_at(s, i + 16, v[4]);
    lemma_u32_at(s, i + 20, v[5]);
    assert(u32x6_at(s, i) =~= v);
}

pub proof fn lemma_low_nibble(v: u32)
    by (bit_vector)
    requires
        v < 16,
    ensures
        v & 0xf == v,
{
}

pub fn read_language_at(data: &[u8], pos: usize) -> (l: Langauge)
    requires
        pos + 2 <= data@.len(),
    ensures
        l == Langauge(language_from_word(be_u16_at(data@, pos as int))),
{
    let w = read_u16_at(data, pos);
    let l = [((w >> 10u16) & 0x1f) as u8, ((w >> 5u16) & 0x1f) as u8, (w & 0x1f) as u8];
    proof {
        assert(l =~= language_from_word(w));
    }
    Langauge(l)
}

pub fn write_language(out: &mut Vec<u8>, l: Langauge)
    ensures
        final(out)@ == old(out)@ + u16_bytes(language_word(l.0)),
{
    let w: u16 = (((l.0[0] & 0x1f) as u16) << 10u16) | (((l.0[1] & 0x1f) as u16) << 5u16) | ((l.0[2] & 0x1f) as u16);
    write_u16(out, w);
}

pub proof fn lemma_language_at(s: Seq<u8>, i: int, l: Langauge)
    requires
        0 <= i,
        i + 2 <= s.len(),
        s.subrange(i, i + 2) == u16_bytes(language_word(l.0)),
        l.0[0] < 32 && l.0[1] < 32 && l.0[2] < 32,
    ensures
        Langauge(language_from_word(be_u16_at(s, i))) == l,
{
    let w = language_word(l.0);
    lemma_u16_at(s, i, w);
    let a = l.0[0];
    let b = l.0[1];
    let c = l.0[2];
    assert(((w >> 10u16) & 0x1f) as u8 == a && ((w >> 5u16) & 0x1f) as u8 == b && (w & 0x1f) as u8 == c)
        by (bit_vector)
        requires
            w == (((a & 0x1f) as u16) << 10u16) | (((b & 0x1f) as u16) << 5u16) | ((c & 0x1f) as u16),
            a < 32,
            b < 32,
            c < 32,
    ;
    assert(language_from_word(w) =~= l.0);
}

/// The identity transformation matrix of a presentation, in 16.16 and 2.30 fixed point.
pub open spec fn unity_matrix() -> [i32; 9] {
    [0x00010000i32, 0, 0, 0, 0x00010000, 0, 0, 0, 0x40000000]
}

/// The track is enabled.
pub const TRACK_ENABLED: u32 = 0x000001;
/// The track is used in the presentation.
pub const TRACK_IN_MOVIE: u32 = 0x000002;
/// The track is used in previews.
pub const TRACK_IN_PREVIEW: u32 = 0x000004;
/// The width and height give an aspect ratio, not a size.
pub const TRACK_SIZE_IS_ASPECT_RATIO: u32 = 0x000008;

/// The version that 64-bit times need: 1 where one of them does not fit in 32 bits.
pub open spec fn times_version(creation_time: u64, modification_time: u64, duration: u64) -> u8 {
    if creation_time > u32::MAX || modification_time > u32::MAX || duration > u32::MAX { 1 } else { 0 }
}

impl MovieHeaderBox {
    /// A movie header with the given times and next track, a rate and a volume of 1,
    /// the identity matrix and version and flags 0.
    pub fn new(creation_time: u64, modification_time: u64, timescale: u32, duration: u64, next_track_id: u32) -> (r: Self)
        ensures
            r == (MovieHeaderBox {
                full_header: FullBoxHeader { version: 0, flags: 0 },
                creation_time,
                modification_time,
                timescale,
                duration,
                rate: 0x00010000,
                volume: 0x0100,
                reserved1: 0,
                reserved2: 0,
                matrix: unity_matrix(),
                pre_defined: [0u32, 0, 0, 0, 0, 0],
                next_track_id,
            }),
    {
        MovieHeaderBox {
            full_header: FullBoxHeader { version: 0, flags: 0 },
            creation_time,
            modification_time,
            timescale,
            duration,
            rate: 0x00010000,
            volume: 0x0100,
            reserved1: 0,
            reserved2: 0,
            matrix: [0x00010000i32, 0, 0, 0, 0x00010000, 0, 0, 0, 0x40000000],
            pre_defined: [0u32, 0, 0, 0, 0, 0],
            next_track_id,
        }
    }
}

impl TrackHeaderBox {
    /// A track header of an enabled track in the presentation, with 64-bit times where
    /// they need them; with dimensions it is visual (volume 0), without them audible
    /// (volume 1, size 0).
    pub fn new(creation_time: u64, modification_time: u64, track_id: u32, duration: u64, dimensions: Option<(u32, u32)>) -> (r: Self)
        requires
            dimensions matches Some((w, h)) ==> w < 0x10000 && h < 0x10000,
        ensures
            r == (TrackHeaderBox {
                version: times_version(creation_time, modification_time, duration),
                flags: TRACK_ENABLED | TRACK_IN_MOVIE,
                creation_time,
                modification_time,
                track_id,
                reserved1: 0,
                duration,
                reserved2: 0,
                layer: 0,
                alternate_group: 0,
                volume: if dimensions is Some { 0 } else { 0x0100 },
                reserved3: 0,
                matrix: unity_matrix(),
                width: match dimensions { Some((w, _)) => (w * 0x10000) as u32, None => 0 },
                height: match dimensions { Some((_, h)) => (h * 0x10000) as u32, None => 0 },
            }),
    {
        let version: u8 = if creation_time > u32::MAX as u64 || modification_time > u32::MAX as u64 || duration
            > u32::MAX as u64 {
            1
        } else {
            0
        };
        let (width, height, volume): (u32, u32, i16) = match dimensions {
            Some((w, h)) => (w * 0x10000, h * 0x10000, 0),
            None => (0, 0, 0x0100),
        };
        TrackHeaderBox {
            version,
            flags: TRACK_ENABLED | TRACK_IN_MOVIE,
            creation_time,
            modification_time,
            track_id,
            reserved1: 0,
            duration,
            reserved2: 0,
            layer: 0,
            alternate_group: 0,
            volume,
            reserved3: 0,
            matrix: [0x00010000i32, 0, 0, 0, 0x00010000, 0, 0, 0, 0x40000000],
            width,
            height,
        }
    }
}

impl MediaHeaderBox {
    /// A media header with the given times, 64-bit where they need it, and the language
    /// `und` (undetermined).
    pub fn new(creation_time: u64, modification_time: u64, timescale: u32, duration: u64) -> (r: Self)
        ensures
            r == (MediaHeaderBox {
                full_header: FullBoxHeader { version: times_version(creation_time, modification_time, duration), flags: 0 },
                creation_time,
                modification_time,
                timescale,
                duration,
                language: Langauge([0x15u8, 0x0e, 0x04]),
                pre_defined: 0,
            }),
    {
        let version: u8 = if creation_time > u32::MAX as u64 || modification_time > u32::MAX as u64 || duration
            > u32::MAX as u64 {
            1
        } else {
            0
        };
        MediaHeaderBox {
            full_header: FullBoxHeader { version, flags: 0 },
            creation_time,
            modification_time,
            timescale,
            duration,
            language: Langauge([0x15u8, 0x0e, 0x04]),
            pre_defined: 0,
        }
    }
}

impl TrackFragmentBaseMediaDecodeTimeBox {
    /// The decode time of the first sample of a fragment, 64-bit where it needs it.
    pub fn new(base_media_decode_time: u64) -> (r: Self)
        ensures
            r == (TrackFragmentBaseMediaDecodeTimeBox {
                full_header: FullBoxHeader { version: if base_media_decode_time > u32::MAX { 1 } else { 0 }, flags: 0 },
                base_media_decode_time,
            }),
    {
        let version: u8 = if base_media_decode_time > u32::MAX as u64 { 1 } else { 0 };
        TrackFragmentBaseMediaDecodeTimeBox { full_header: FullBoxHeader { version, flags: 0 }, base_media_decode_time }
    }
}

/// Movie header box
///
/// ISO/IEC 14496-12 - 8.2.2
#[derive(Debug, Clone, Copy, PartialEq, Eq)]
pub struct MovieHeaderBox {
    /// The version and flags of the box; version 1 has 64-bit times.
    pub full_header: FullBoxHeader,
    /// When the presentation was created, in seconds since 1904.
    pub creation_time: u64,
    /// When it was last modified.
    pub modification_time: u64,
    /// The number of time units in a second.
    pub timescale: u32,
    /// The length of the presentation, in those units.
    pub duration: u64,
    /// The preferred playback rate, as a 16.16 fixed-point number.
    pub rate: i32,
    /// The preferred volume, as an 8.8 fixed-point number.
    pub volume: i16,
    /// Reserved, zero.
    pub reserved1: u16,
    /// Reserved, zero.
    pub reserved2: u64,
    /// The transformation of the video.
    pub matrix: [i32; 9],
    /// Zero.
    pub pre_defined: [u32; 6],
    /// A track identifier not yet used.
    pub next_track_id: u32,
}

impl View for MovieHeaderBox {
    type V = MovieHeaderBox;

    open spec fn view(&self) -> MovieHeaderBox {
        *self
    }
}

impl IsoSized for MovieHeaderBox {
    open spec fn spec_size(&self) -> nat {
        add_header_size(if self.full_header.version == 1 { 112 } else { 100 })
    }

    fn size(&self) -> (n: usize) {
        if self.full_header.version == 1 {
            add_header_size_exec(112)
        } else {
            add_header_size_exec(100)
        }
    }
}

impl BoxBody for MovieHeaderBox {
    open spec fn spec_box_type() -> [u8; 4] {
        [0x6du8, 0x76u8, 0x68u8, 0x64u8]
    }

    fn box_type() -> (r: [u8; 4]) {
        [0x6du8, 0x76u8, 0x68u8, 0x64u8]
    }

    /// The fields in the layout of the version; version 1 has 64-bit times.
    open spec fn spec_parse_body(s: Seq<u8>) -> Result<MovieHeaderBox, IsoError> {
        if s.len() < 1 {
            Err(IsoError::UnexpectedEof)
        } else if s[0] == 1 {
            if s.len() < 112 {
                Err(IsoError::UnexpectedEof)
            } else {
                Ok(MovieHeaderBox {
                    full_header: FullBoxHeader { version: s[0], flags: be_u24_at(s, 1) },
                    creation_time: be_u64_at(s, 4),
                    modification_time: be_u64_at(s, 12),
                    timescale: be_u32_at(s, 20),
                    duration: be_u64_at(s, 24),
                    rate: i32_of(be_u32_at(s, 32)),
                    volume: i16_of(be_u16_at(s, 36)),
                    reserved1: be_u16_at(s, 38),
                    reserved2: be_u64_at(s, 40),
                    matrix: i32x9_at(s, 48),
                    pre_defined: u32x6_at(s, 84),
                    next_track_id: be_u32_at(s, 108),
                })
            }
        } else {
            if s.len() < 100 {
                Err(IsoError::UnexpectedEof)
            } else {
                Ok(MovieHeaderBox {
                    full_header: FullBoxHeader { version: s[0], flags: be_u24_at(s, 1) },
                    creation_time: (be_u32_at(s, 4) as u64),
                    modification_time: (be_u32_at(s, 8) as u64),
                    timescale: be_u32_at(s, 12),
                    duration: (be_u32_at(s, 16) as u64),
                    rate: i32_of(be_u32_at(s, 20)),
                    volume: i16_of(be_u16_at(s, 24)),
                    reserved1: be_u16_at(s, 26),
                    reserved2: be_u64_at(s, 28),
                    matrix: i32x9_at(s, 36),
                    pre_defined: u32x6_at(s, 72),
                    next_track_id: be_u32_at(s, 96),
                })
            }
        }
    }

    open spec fn spec_writable(v: MovieHeaderBox) -> bool {
        true
    }

    open spec fn spec_serialize_body(v: MovieHeaderBox) -> Seq<u8> {
        if v.full_header.version == 1 {
            seq![v.full_header.version] + u24_bytes(v.full_header.flags) + u64_bytes(v.creation_time) + u64_bytes(v.modification_time) + u32_bytes(v.timescale) + u64_bytes(v.duration) + u32_bytes(u32_of(v.rate)) + u16_bytes(u16_of(v.volume)) + u16_bytes(v.reserved1) + u64_bytes(v.reserved2) + i32x9_bytes(v.matrix) + u32x6_bytes(v.pre_defined) + u32_bytes(v.next_track_id)
        } else {
            seq![v.full_header.version] + u24_bytes(v.full_header.flags) + u32_bytes(v.creation_time as u32) + u32_bytes(v.modification_time as u32) + u32_bytes(v.timescale) + u32_bytes(v.duration as u32) + u32_bytes(u32_of(v.rate)) + u16_bytes(u16_of(v.volume)) + u16_bytes(v.reserved1) + u64_bytes(v.reserved2) + i32x9_bytes(v.matrix) + u32x6_bytes(v.pre_defined) + u32_bytes(v.next_track_id)
        }
    }

    /// Every field fits its width in the layout of the version.
    open spec fn spec_canonical(v: MovieHeaderBox) -> bool {
        if v.full_header.version == 1 {
            v.full_header.flags < 0x100_0000
        } else {
            v.full_header.flags < 0x100_0000 && v.creation_time <= u32::MAX && v.modification_time <= u32::MAX && v.duration <= u32::MAX
        }
    }

    proof fn lemma_box_type() {
        assert(Self::spec_box_type()[0] != spec_uuid_fourcc()[0] || Self::spec_box_type()[1] != spec_uuid_fourcc()[1]);
    }

    proof fn lemma_body_size(x: MovieHeaderBox) {
        broadcast use vstd::array::group_array_axioms;
        lemma_i32x9_bytes_len(x.matrix);
        lemma_u32x6_bytes_len(x.pre_defined);
        lemma_wide_bytes_len(x.creation_time, 0);
        lemma_wide_bytes_len(x.duration, 0);
        lemma_wide_bytes_len(x.modification_time, 0);
        lemma_wide_bytes_len(x.reserved2, 0);
    }

    proof fn lemma_body_roundtrip(v: MovieHeaderBox) {
        if v.full_header.version == 1 {
            lemma_movie_header_box_wide_roundtrip(v);
        } else {
            lemma_movie_header_box_narrow_roundtrip(v);
        }
    }

    fn parse_body(d: &[u8]) -> (r: Result<MovieHeaderBox, IsoError>) {
        if d.len() < 1 {
            return Err(IsoError::UnexpectedEof);
        }
        proof {
            reveal(be_u64_at);
        }
        if d[0] == 1 {
            if d.len() < 112 {
                return Err(IsoError::UnexpectedEof);
            }
            let full_header = FullBoxHeader { version: d[0], flags: read_u24_at(d, 1) };
            let creation_time = read_u64_at(d, 4);
            let modification_time = read_u64_at(d, 12);
            let timescale = read_u32_at(d, 20);
            let duration = read_u64_at(d, 24);
            let rate = to_i32(read_u32_at(d, 32));
            let volume = to_i16(read_u16_at(d, 36));
            let reserved1 = read_u16_at(d, 38);
            let reserved2 = read_u64_at(d, 40);
            let matrix = read_i32x9_at(d, 48);
            let pre_defined = read_u32x6_at(d, 84);
            let next_track_id = read_u32_at(d, 108);
            Ok(MovieHeaderBox { full_header, creation_time, modification_time, timescale, duration, rate, volume, reserved1, reserved2, matrix, pre_defined, next_track_id })
        } else {
            if d.len() < 100 {
                return Err(IsoError::UnexpectedEof);
            }
            let full_header = FullBoxHeader { version: d[0], flags: read_u24_at(d, 1) };
            let creation_time = (read_u32_at(d, 4) as u64);
            let modification_time = (read_u32_at(d, 8) as u64);
            let timescale = read_u32_at(d, 12);
            let duration = (read_u32_at(d, 16) as u64);
            let rate = to_i32(read_u32_at(d, 20));
            let volume = to_i16(read_u16_at(d, 24));
            let reserved1 = read_u16_at(d, 26);
            let reserved2 = read_u64_at(d, 28);
            let matrix = read_i32x9_at(d, 36);
            let pre_defined = read_u32x6_at(d, 72);
            let next_track_id = read_u32_at(d, 96);
            Ok(MovieHeaderBox { full_header, creation_time, modification_time, timescale, duration, rate, volume, reserved1, reserved2, matrix, pre_defined, next_track_id })
        }
    }

    fn serialize_body(&self, out: &mut Vec<u8>) -> (r: Result<(), IsoError>) {
        let ghost before = out@;
        proof {
            lemma_i32x9_bytes_len(self.matrix);
            lemma_u32x6_bytes_len(self.pre_defined);
            lemma_wide_bytes_len(self.creation_time, 0);
            lemma_wide_bytes_len(self.duration, 0);
            lemma_wide_bytes_len(self.modification_time, 0);
            lemma_wide_bytes_len(self.reserved2, 0);
        }
        if self.full_header.version == 1 {
            write_u8(out, self.full_header.version);
            write_u24(out, self.full_header.flags);
            write_u64(out, self.creation_time);
            write_u64(out, self.modification_time);
            write_u32(out, self.timescale);
            write_u64(out, self.duration);
            write_u32(out, from_i32(self.rate));
            write_u16(out, from_i16(self.volume));
            write_u16(out, self.reserved1);
            write_u64(out, self.reserved2);
            write_i32x9(out, self.matrix);
            write_u32x6(out, self.pre_defined);
            write_u32(out, self.next_track_id);
        } else {
            write_u8(out, self.full_header.version);
            write_u24(out, self.full_header.flags);
            write_u32(out, self.creation_time as u32);
            write_u32(out, self.modification_time as u32);
            write_u32(out, self.timescale);
            write_u32(out, self.duration as u32);
            write_u32(out, from_i32(self.rate));
            write_u16(out, from_i16(self.volume));
            write_u16(out, self.reserved1);
            write_u64(out, self.reserved2);
            write_i32x9(out, self.matrix);
            write_u32x6(out, self.pre_defined);
            write_u32(out, self.next_track_id);
        }
        proof {
            assert(out@ =~= before + Self::spec_serialize_body(self@));
            lemma_append_prefix(before, Self::spec_serialize_body(self@));
        }
        Ok(())
    }
}

#[verifier::spinoff_prover]
#[verifier::rlimit(100)]
proof fn lemma_movie_header_box_wide_roundtrip(v: MovieHeaderBox)
    requires
        v.full_header.version == 1,
        MovieHeaderBox::spec_canonical(v),
    ensures
        MovieHeaderBox::spec_parse_body(MovieHeaderBox::spec_serialize_body(v)) == Ok::<MovieHeaderBox, IsoError>(v),
{
    broadcast use vstd::array::group_array_axioms;
    lemma_i32x9_bytes_len(v.matrix);
    lemma_u32x6_bytes_len(v.pre_defined);
    lemma_wide_bytes_len(v.creation_time, 0);
    lemma_wide_bytes_len(v.duration, 0);
    lemma_wide_bytes_len(v.modification_time, 0);
    lemma_wide_bytes_len(v.reserved2, 0);
    let s = MovieHeaderBox::spec_serialize_body(v);
    assert(s[0] == v.full_header.version);
    assert(s.subrange(1, 4) =~= u24_bytes(v.full_header.flags));
    lemma_u24_at(s, 1, v.full_header.flags);
    assert(s.subrange(4, 12) =~= u64_bytes(v.creation_time));
    lemma_u64_at(s, 4, v.creation_time);
    assert(s.subrange(12, 20) =~= u64_bytes(v.modification_time));
    lemma_u64_at(s, 12, v.modification_time);
    assert(s.subrange(20, 24) =~= u32_bytes(v.timescale));
    lemma_u32_at(s, 20, v.timescale);
    assert(s.subrange(24, 32) =~= u64_bytes(v.duration));
    lemma_u64_at(s, 24, v.duration);
    assert(s.subrange(32, 36) =~= u32_bytes(u32_of(v.rate)));
    lemma_u32_at(s, 32, u32_of(v.rate));
    lemma_i32_roundtrip(v.rate);
    assert(s.subrange(36, 38) =~= u16_bytes(u16_of(v.volume)));
    lemma_u16_at(s, 36, u16_of(v.volume));
    lemma_i16_roundtrip(v.volume);
    assert(s.subrange(38, 40) =~= u16_bytes(v.reserved1));
    lemma_u16_at(s, 38, v.reserved1);
    assert(s.subrange(40, 48) =~= u64_bytes(v.reserved2));
    lemma_u64_at(s, 40, v.reserved2);
    assert(s.subrange(48, 84) =~= i32x9_bytes(v.matrix));
    lemma_i32x9_at(s, 48, v.matrix);
    assert(s.subrange(84, 108) =~= u32x6_bytes(v.pre_defined));
    lemma_u32x6_at(s, 84, v.pre_defined);
    assert(s.subrange(108, 112) =~= u32_bytes(v.next_track_id));
    lemma_u32_at(s, 108, v.next_track_id);
}

#[verifier::spinoff_prover]
#[verifier::rlimit(100)]
proof fn lemma_movie_header_box_narrow_roundtrip(v: MovieHeaderBox)
    requires
        v.full_header.version != 1,
        MovieHeaderBox::spec_canonical(v),
    ensures
        MovieHeaderBox::spec_parse_body(MovieHeaderBox::spec_serialize_body(v)) == Ok::<MovieHeaderBox, IsoError>(v),
{
    broadcast use vstd::array::group_array_axioms;
    lemma_i32x9_bytes_len(v.matrix);
    lemma_u32x6_bytes_len(v.pre_defined);
    lemma_wide_bytes_len(v.creation_time, 0);
    lemma_wide_bytes_len(v.duration, 0);
    lemma_wide_bytes_len(v.modification_time, 0);
    lemma_wide_bytes_len(v.reserved2, 0);
    let s = MovieHeaderBox::spec_serialize_body(v);
    assert(s[0] == v.full_header.version);
    assert(s.subrange(1, 4) =~= u24_bytes(v.full_header.flags));
    lemma_u24_at(s, 1, v.full_header.flags);
    assert(s.subrange(4, 8) =~= u32_bytes(v.creation_time as u32));
    lemma_u32_at(s, 4, v.creation_time as u32);
    assert(s.subrange(8, 12) =~= u32_bytes(v.modification_time as u32));
    lemma_u32_at(s, 8, v.modification_time as u32);
    assert(s.subrange(12, 16) =~= u32_bytes(v.timescale));
    lemma_u32_at(s, 12, v.timescale);
    assert(s.subrange(16, 20) =~= u32_bytes(v.duration as u32));
    lemma_u32_at(s, 16, v.duration as u32);
    assert(s.subrange(20, 24) =~= u32_bytes(u32_of(v.rate)));
    lemma_u32_at(s, 20, u32_of(v.rate));
    lemma_i32_roundtrip(v.rate);
    assert(s.subrange(24, 26) =~= u16_bytes(u16_of(v.volume)));
    lemma_u16_at(s, 24, u16_of(v.volume));
    lemma_i16_roundtrip(v.volume);
    assert(s.subrange(26, 28) =~= u16_bytes(v.reserved1));
    lemma_u16_at(s, 26, v.reserved1);
    assert(s.subrange(28, 36) =~= u64_bytes(v.reserved2));
    lemma_u64_at(s, 28, v.reserved2);
    assert(s.subrange(36, 72) =~= i32x9_bytes(v.matrix));
    lemma_i32x9_at(s, 36, v.matrix);
    assert(s.subrange(72, 96) =~= u32x6_bytes(v.pre_defined));
    lemma_u32x6_at(s, 72, v.pre_defined);
    assert(s.subrange(96, 100) =~= u32_bytes(v.next_track_id));
    lemma_u32_at(s, 96, v.next_track_id);
}

/// Track header box
///
/// ISO/IEC 14496-12 - 8.3.2
#[derive(Debug, Clone, Copy, PartialEq, Eq)]
pub struct TrackHeaderBox {
    /// The version of the box; version 1 has 64-bit times.
    pub version: u8,
    /// The flags of the box.
    pub flags: u32,
    /// When the presentation was created, in seconds since 1904.
    pub creation_time: u64,
    /// When it was last modified.
    pub modification_time: u64,
    /// The identifier of the track.
    pub track_id: u32,
    /// Reserved, zero.
    pub reserved1: u32,
    /// The length of the track, in the time units of the movie.
    pub duration: u64,
    /// Reserved, zero.
    pub reserved2: u64,
    /// The front-to-back order of video tracks.
    pub layer: i16,
    /// The group of tracks that are alternatives to each other.
    pub alternate_group: i16,
    /// The relative volume of an audio track, as an 8.8 fixed-point number.
    pub volume: i16,
    /// Reserved, zero.
    pub reserved3: u16,
    /// The transformation of the video.
    pub matrix: [i32; 9],
    /// The width of the track, as a 16.16 fixed-point number.
    pub width: u32,
    /// The height of the track, as a 16.16 fixed-point number.
    pub height: u32,
}

impl View for TrackHeaderBox {
    type V = TrackHeaderBox;

    open spec fn view(&self) -> TrackHeaderBox {
        *self
    }
}

impl IsoSized for TrackHeaderBox {
    open spec fn spec_size(&self) -> nat {
        add_header_size(if self.version == 1 { 96 } else { 84 })
    }

    fn size(&self) -> (n: usize) {
        if self.version == 1 {
            add_header_size_exec(96)
        } else {
            add_header_size_exec(84)
        }
    }
}

impl BoxBody for TrackHeaderBox {
    open spec fn spec_box_type() -> [u8; 4] {
        [0x74u8, 0x6bu8, 0x68u8, 0x64u8]
    }

    fn box_type() -> (r: [u8; 4]) {
        [0x74u8, 0x6bu8, 0x68u8, 0x64u8]
    }

    /// The fields in the layout of the version; version 1 has 64-bit times.
    open spec fn spec_parse_body(s: Seq<u8>) -> Result<TrackHeaderBox, IsoError> {
        if s.len() < 1 {
            Err(IsoError::UnexpectedEof)
        } else if s[0] == 1 {
            if s.len() < 96 {
                Err(IsoError::UnexpectedEof)
            } else {
                Ok(TrackHeaderBox {
                    version: s[0],
                    flags: (be_u24_at(s, 1) & 0xf),
                    creation_time: be_u64_at(s, 4),
                    modification_time: be_u64_at(s, 12),
                    track_id: be_u32_at(s, 20),
                    reserved1: be_u32_at(s, 24),
                    duration: be_u64_at(s, 28),
                    reserved2: be_u64_at(s, 36),
                    layer: i16_of(be_u16_at(s, 44)),
                    alternate_group: i16_of(be_u16_at(s, 46)),
                    volume: i16_of(be_u16_at(s, 48)),
                    reserved3: be_u16_at(s, 50),
                    matrix: i32x9_at(s, 52),
                    width: be_u32_at(s, 88),
                    height: be_u32_at(s, 92),
                })
            }
        } else {
            if s.len() < 84 {
                Err(IsoError::UnexpectedEof)
            } else {
                Ok(TrackHeaderBox {
                    version: s[0],
                    flags: (be_u24_at(s, 1) & 0xf),
                    creation_time: (be_u32_at(s, 4) as u64),
                    modification_time: (be_u32_at(s, 8) as u64),
                    track_id: be_u32_at(s, 12),
                    reserved1: be_u32_at(s, 16),
                    duration: (be_u32_at(s, 20) as u64),
                    reserved2: be_u64_at(s, 24),
                    layer: i16_of(be_u16_at(s, 32)),
                    alternate_group: i16_of(be_u16_at(s, 34)),
                    volume: i16_of(be_u16_at(s, 36)),
                    reserved3: be_u16_at(s, 38),
                    matrix: i32x9_at(s, 40),
                    width: be_u32_at(s, 76),
                    height: be_u32_at(s, 80),
                })
            }
        }
    }

    open spec fn spec_writable(v: TrackHeaderBox) -> bool {
        true
    }

    open spec fn spec_serialize_body(v: TrackHeaderBox) -> Seq<u8> {
        if v.version == 1 {
            seq![v.version] + u24_bytes(v.flags) + u64_bytes(v.creation_time) + u64_bytes(v.modification_time) + u32_bytes(v.track_id) + u32_bytes(v.reserved1) + u64_bytes(v.duration) + u64_bytes(v.reserved2) + u16_bytes(u16_of(v.layer)) + u16_bytes(u16_of(v.alternate_group)) + u16_bytes(u16_of(v.volume)) + u16_bytes(v.reserved3) + i32x9_bytes(v.matrix) + u32_bytes(v.width) + u32_bytes(v.height)
        } else {
            seq![v.version] + u24_bytes(v.flags) + u32_bytes(v.creation_time as u32) + u32_bytes(v.modification_time as u32) + u32_bytes(v.track_id) + u32_bytes(v.reserved1) + u32_bytes(v.duration as u32) + u64_bytes(v.reserved2) + u16_bytes(u16_of(v.layer)) + u16_bytes(u16_of(v.alternate_group)) + u16_bytes(u16_of(v.volume)) + u16_bytes(v.reserved3) + i32x9_bytes(v.matrix) + u32_bytes(v.width) + u32_bytes(v.height)
        }
    }

    /// Every field fits its width in the layout of the version.
    open spec fn spec_canonical(v: TrackHeaderBox) -> bool {
        if v.version == 1 {
            v.flags < 16
        } else {
            v.flags < 16 && v.creation_time <= u32::MAX && v.modification_time <= u32::MAX && v.duration <= u32::MAX
        }
    }

    proof fn lemma_box_type() {
        assert(Self::spec_box_type()[0] != spec_uuid_fourcc()[0] || Self::spec_box_type()[1] != spec_uuid_fourcc()[1]);
    }

    proof fn lemma_body_size(x: TrackHeaderBox) {
        broadcast use vstd::array::group_array_axioms;
        lemma_i32x9_bytes_len(x.matrix);
        lemma_wide_bytes_len(x.creation_time, 0);
        lemma_wide_bytes_len(x.duration, 0);
        lemma_wide_bytes_len(x.modification_time, 0);
        lemma_wide_bytes_len(x.reserved2, 0);
    }

    proof fn lemma_body_roundtrip(v: TrackHeaderBox) {
        if v.version == 1 {
            lemma_track_header_box_wide_roundtrip(v);
        } else {
            lemma_track_header_box_narrow_roundtrip(v);
        }
    }

    fn parse_body(d: &[u8]) -> (r: Result<TrackHeaderBox, IsoError>) {
        if d.len() < 1 {
            return Err(IsoError::UnexpectedEof);
        }
        proof {
            reveal(be_u64_at);
        }
        if d[0] == 1 {
            if d.len() < 96 {
                return Err(IsoError::UnexpectedEof);
            }
            let version = d[0];
            let flags = (read_u24_at(d, 1) & 0xf);
            let creation_time = read_u64_at(d, 4);
            let modification_time = read_u64_at(d, 12);
            let track_id = read_u32_at(d, 20);
            let reserved1 = read_u32_at(d, 24);
            let duration = read_u64_at(d, 28);
            let reserved2 = read_u64_at(d, 36);
            let layer = to_i16(read_u16_at(d, 44));
            let alternate_group = to_i16(read_u16_at(d, 46));
            let volume = to_i16(read_u16_at(d, 48));
            let reserved3 = read_u16_at(d, 50);
            let matrix = read_i32x9_at(d, 52);
            let width = read_u32_at(d, 88);
            let height = read_u32_at(d, 92);
            Ok(TrackHeaderBox { version, flags, creation_time, modification_time, track_id, reserved1, duration, reserved2, layer, alternate_group, volume, reserved3, matrix, width, height })
        } else {
            if d.len() < 84 {
                return Err(IsoError::UnexpectedEof);
            }
            let version = d[0];
            let flags = (read_u24_at(d, 1) & 0xf);
            let creation_time = (read_u32_at(d, 4) as u64);
            let modification_time = (read_u32_at(d, 8) as u64);
            let track_id = read_u32_at(d, 12);
            let reserved1 = read_u32_at(d, 16);
            let duration = (read_u32_at(d, 20) as u64);
            let reserved2 = read_u64_at(d, 24);
            let layer = to_i16(read_u16_at(d, 32));
            let alternate_group = to_i16(read_u16_at(d, 34));
            let volume = to_i16(read_u16_at(d, 36));
            let reserved3 = read_u16_at(d, 38);
            let matrix = read_i32x9_at(d, 40);
            let width = read_u32_at(d, 76);
            let height = read_u32_at(d, 80);
            Ok(TrackHeaderBox { version, flags, creation_time, modification_time, track_id, reserved1, duration, reserved2, layer, alternate_group, volume, reserved3, matrix, width, height })
        }
    }

    fn serialize_body(&self, out: &mut Vec<u8>) -> (r: Result<(), IsoError>) {
        let ghost before = out@;
        proof {
            lemma_i32x9_bytes_len(self.matrix);
            lemma_wide_bytes_len(self.creation_time, 0);
            lemma_wide_bytes_len(self.duration, 0);
            lemma_wide_bytes_len(self.modification_time, 0);
            lemma_wide_bytes_len(self.reserved2, 0);
        }
        if self.version == 1 {
            write_u8(out, self.version);
            write_u24(out, self.flags);
            write_u64(out, self.creation_time);
            write_u64(out, self.modification_time);
            write_u32(out, self.track_id);
            write_u32(out, self.reserved1);
            write_u64(out, self.duration);
            write_u64(out, self.reserved2);
            write_u16(out, from_i16(self.layer));
            write_u16(out, from_i16(self.alternate_group));
            write_u16(out, from_i16(self.volume));
            write_u16(out, self.reserved3);
            write_i32x9(out, self.matrix);
            write_u32(out, self.width);
            write_u32(out, self.height);
        } else {
            write_u8(out, self.version);
            write_u24(out, self.flags);
            write_u32(out, self.creation_time as u32);
            write_u32(out, self.modification_time as u32);
            write_u32(out, self.track_id);
            write_u32(out, self.reserved1);
            write_u32(out, self.duration as u32);
            write_u64(out, self.reserved2);
            write_u16(out, from_i16(self.layer));
            write_u16(out, from_i16(self.alternate_group));
            write_u16(out, from_i16(self.volume));
            write_u16(out, self.reserved3);
            write_i32x9(out, self.matrix);
            write_u32(out, self.width);
            write_u32(out, self.height);
        }
        proof {
            assert(out@ =~= before + Self::spec_serialize_body(self@));
            lemma_append_prefix(before, Self::spec_serialize_body(self@));
        }
        Ok(())
    }
}

#[verifier::spinoff_prover]
#[verifier::rlimit(100)]
proof fn lemma_track_header_box_wide_roundtrip(v: TrackHeaderBox)
    requires
        v.version == 1,
        TrackHeaderBox::spec_canonical(v),
    ensures
        TrackHeaderBox::spec_parse_body(TrackHeaderBox::spec_serialize_body(v)) == Ok::<TrackHeaderBox, IsoError>(v),
{
    broadcast use vstd::array::group_array_axioms;
    lemma_i32x9_bytes_len(v.matrix);
    lemma_wide_bytes_len(v.creation_time, 0);
    lemma_wide_bytes_len(v.duration, 0);
    lemma_wide_bytes_len(v.modification_time, 0);
    lemma_wide_bytes_len(v.reserved2, 0);
    let s = TrackHeaderBox::spec_serialize_body(v);
    assert(s[0] == v.version);
    assert(s.subrange(1, 4) =~= u24_bytes(v.flags));
    lemma_u24_at(s, 1, v.flags);
    lemma_low_nibble(v.flags);
    assert(s.subrange(4, 12) =~= u64_bytes(v.creation_time));
    lemma_u64_at(s, 4, v.creation_time);
    assert(s.subrange(12, 20) =~= u64_bytes(v.modification_time));
    lemma_u64_at(s, 12, v.modification_time);
    assert(s.subrange(20, 24) =~= u32_bytes(v.track_id));
    lemma_u32_at(s, 20, v.track_id);
    assert(s.subrange(24, 28) =~= u32_bytes(v.reserved1));
    lemma_u32_at(s, 24, v.reserved1);
    assert(s.subrange(28, 36) =~= u64_bytes(v.duration));
    lemma_u64_at(s, 28, v.duration);
    assert(s.subrange(36, 44) =~= u64_bytes(v.reserved2));
    lemma_u64_at(s, 36, v.reserved2);
    assert(s.subrange(44, 46) =~= u16_bytes(u16_of(v.layer)));
    lemma_u16_at(s, 44, u16_of(v.layer));
    lemma_i16_roundtrip(v.layer);
    assert(s.subrange(46, 48) =~= u16_bytes(u16_of(v.alternate_group)));
    lemma_u16_at(s, 46, u16_of(v.alternate_group));
    lemma_i16_roundtrip(v.alternate_group);
    assert(s.subrange(48, 50) =~= u16_bytes(u16_of(v.volume)));
    lemma_u16_at(s, 48, u16_of(v.volume));
    lemma_i16_roundtrip(v.volume);
    assert(s.subrange(50, 52) =~= u16_bytes(v.reserved3));
    lemma_u16_at(s, 50, v.reserved3);
    assert(s.subrange(52, 88) =~= i32x9_bytes(v.matrix));
    lemma_i32x9_at(s, 52, v.matrix);
    assert(s.subrange(88, 92) =~= u32_bytes(v.width));
    lemma_u32_at(s, 88, v.width);
    assert(s.subrange(92, 96) =~= u32_bytes(v.height));
    lemma_u32_at(s, 92, v.height);
}

#[verifier::spinoff_prover]
#[verifier::rlimit(100)]
proof fn lemma_track_header_box_narrow_roundtrip(v: TrackHeaderBox)
    requires
        v.version != 1,
        TrackHeaderBox::spec_canonical(v),
    ensures
        TrackHeaderBox::spec_parse_body(TrackHeaderBox::spec_serialize_body(v)) == Ok::<TrackHeaderBox, IsoError>(v),
{
    broadcast use vstd::array::group_array_axioms;
    lemma_i32x9_bytes_len(v.matrix);
    lemma_wide_bytes_len(v.creation_time, 0);
    lemma_wide_bytes_len(v.duration, 0);
    lemma_wide_bytes_len(v.modification_time, 0);
    lemma_wide_bytes_len(v.reserved2, 0);
    let s = TrackHeaderBox::spec_serialize_body(v);
    assert(s[0] == v.version);
    assert(s.subrange(1, 4) =~= u24_bytes(v.flags));
    lemma_u24_at(s, 1, v.flags);
    lemma_low_nibble(v.flags);
    assert(s.subrange(4, 8) =~= u32_bytes(v.creation_time as u32));
    lemma_u32_at(s, 4, v.creation_time as u32);
    assert(s.subrange(8, 12) =~= u32_bytes(v.modification_time as u32));
    lemma_u32_at(s, 8, v.modification_time as u32);
    assert(s.subrange(12, 16) =~= u32_bytes(v.track_id));
    lemma_u32_at(s, 12, v.track_id);
    assert(s.subrange(16, 20) =~= u32_bytes(v.reserved1));
    lemma_u32_at(s, 16, v.reserved1);
    assert(s.subrange(20, 24) =~= u32_bytes(v.duration as u32));
    lemma_u32_at(s, 20, v.duration as u32);
    assert(s.subrange(24, 32) =~= u64_bytes(v.reserved2));
    lemma_u64_at(s, 24, v.reserved2);
    assert(s.subrange(32, 34) =~= u16_bytes(u16_of(v.layer)));
    lemma_u16_at(s, 32, u16_of(v.layer));
    lemma_i16_roundtrip(v.layer);
    assert(s.subrange(34, 36) =~= u16_bytes(u16_of(v.alternate_group)));
    lemma_u16_at(s, 34, u16_of(v.alternate_group));
    lemma_i16_roundtrip(v.alternate_group);
    assert(s.subrange(36, 38) =~= u16_bytes(u16_of(v.volume)));
    lemma_u16_at(s, 36, u16_of(v.volume));
    lemma_i16_roundtrip(v.volume);
    assert(s.subrange(38, 40) =~= u16_bytes(v.reserved3));
    lemma_u16_at(s, 38, v.reserved3);
    assert(s.subrange(40, 76) =~= i32x9_bytes(v.matrix));
    lemma_i32x9_at(s, 40, v.matrix);
    assert(s.subrange(76, 80) =~= u32_bytes(v.width));
    lemma_u32_at(s, 76, v.width);
    assert(s.subrange(80, 84) =~= u32_bytes(v.height));
    lemma_u32_at(s, 80, v.height);
}

/// Media header box
///
/// ISO/IEC 14496-12 - 8.4.2
#[derive(Debug, Clone, Copy, PartialEq, Eq)]
pub struct MediaHeaderBox {
    /// The version and flags of the box; version 1 has 64-bit times.
    pub full_header: FullBoxHeader,
    /// When the presentation was created, in seconds since 1904.
    pub creation_time: u64,
    /// When it was last modified.
    pub modification_time: u64,
    /// The number of time units in a second.
    pub timescale: u32,
    /// The length of the media, in those units.
    pub duration: u64,
    /// The language of the media.
    pub language: Langauge,
    /// Zero.
    pub pre_defined: u16,
}

impl View for MediaHeaderBox {
    type V = MediaHeaderBox;

    open spec fn view(&self) -> MediaHeaderBox {
        *self
    }
}

impl IsoSized for MediaHeaderBox {
    open spec fn spec_size(&self) -> nat {
        add_header_size(if self.full_header.version == 1 { 36 } else { 24 })
    }

    fn size(&self) -> (n: usize) {
        if self.full_header.version == 1 {
            add_header_size_exec(36)
        } else {
            add_header_size_exec(24)
        }
    }
}

impl BoxBody for MediaHeaderBox {
    open spec fn spec_box_type() -> [u8; 4] {
        [0x6du8, 0x64u8, 0x68u8, 0x64u8]
    }

    fn box_type() -> (r: [u8; 4]) {
        [0x6du8, 0x64u8, 0x68u8, 0x64u8]
    }

    /// The fields in the layout of the version; version 1 has 64-bit times.
    open spec fn spec_parse_body(s: Seq<u8>) -> Result<MediaHeaderBox, IsoError> {
        if s.len() < 1 {
            Err(IsoError::UnexpectedEof)
        } else if s[0] == 1 {
            if s.len() < 36 {
                Err(IsoError::UnexpectedEof)
            } else {
                Ok(MediaHeaderBox {
                    full_header: FullBoxHeader { version: s[0], flags: be_u24_at(s, 1) },
                    creation_time: be_u64_at(s, 4),
                    modification_time: be_u64_at(s, 12),
                    timescale: be_u32_at(s, 20),
                    duration: be_u64_at(s, 24),
                    language: Langauge(language_from_word(be_u16_at(s, 32))),
                    pre_defined: be_u16_at(s, 34),
                })
            }
        } else {
            if s.len() < 24 {
                Err(IsoError::UnexpectedEof)
            } else {
                Ok(MediaHeaderBox {
                    full_header: FullBoxHeader { version: s[0], flags: be_u24_at(s, 1) },
                    creation_time: (be_u32_at(s, 4) as u64),
                    modification_time: (be_u32_at(s, 8) as u64),
                    timescale: be_u32_at(s, 12),
                    duration: (be_u32_at(s, 16) as u64),
                    language: Langauge(language_from_word(be_u16_at(s, 20))),
                    pre_defined: be_u16_at(s, 22),
                })
            }
        }
    }

    open spec fn spec_writable(v: MediaHeaderBox) -> bool {
        true
    }

    open spec fn spec_serialize_body(v: MediaHeaderBox) -> Seq<u8> {
        if v.full_header.version == 1 {
            seq![v.full_header.version] + u24_bytes(v.full_header.flags) + u64_bytes(v.creation_time) + u64_bytes(v.modification_time) + u32_bytes(v.timescale) + u64_bytes(v.duration) + u16_bytes(language_word(v.language.0)) + u16_bytes(v.pre_defined)
        } else {
            seq![v.full_header.version] + u24_bytes(v.full_header.flags) + u32_bytes(v.creation_time as u32) + u32_bytes(v.modification_time as u32) + u32_bytes(v.timescale) + u32_bytes(v.duration as u32) + u16_bytes(language_word(v.language.0)) + u16_bytes(v.pre_defined)
        }
    }

    /// Every field fits its width in the layout of the version.
    open spec fn spec_canonical(v: MediaHeaderBox) -> bool {
        if v.full_header.version == 1 {
            v.full_header.flags < 0x100_0000 && v.language.0[0] < 32 && v.language.0[1] < 32 && v.language.0[2] < 32
        } else {
            v.full_header.flags < 0x100_0000 && v.creation_time <= u32::MAX && v.modification_time <= u32::MAX && v.duration <= u32::MAX && v.language.0[0] < 32 && v.language.0[1] < 32 && v.language.0[2] < 32
        }
    }

    proof fn lemma_box_type() {
        assert(Self::spec_box_type()[0] != spec_uuid_fourcc()[0] || Self::spec_box_type()[1] != spec_uuid_fourcc()[1]);
    }

    proof fn lemma_body_size(x: MediaHeaderBox) {
        broadcast use vstd::array::group_array_axioms;
        lemma_wide_bytes_len(x.creation_time, 0);
        lemma_wide_bytes_len(x.duration, 0);
        lemma_wide_bytes_len(x.modification_time, 0);
    }

    proof fn lemma_body_roundtrip(v: MediaHeaderBox) {
        if v.full_header.version == 1 {
            lemma_media_header_box_wide_roundtrip(v);
        } else {
            lemma_media_header_box_narrow_roundtrip(v);
        }
    }

    fn parse_body(d: &[u8]) -> (r: Result<MediaHeaderBox, IsoError>) {
        if d.len() < 1 {
            return Err(IsoError::UnexpectedEof);
        }
        proof {
            reveal(be_u64_at);
        }
        if d[0] == 1 {
            if d.len() < 36 {
                return Err(IsoError::UnexpectedEof);
            }
            let full_header = FullBoxHeader { version: d[0], flags: read_u24_at(d, 1) };
            let creation_time = read_u64_at(d, 4);
            let modification_time = read_u64_at(d, 12);
            let timescale = read_u32_at(d, 20);
            let duration = read_u64_at(d, 24);
            let language = read_language_at(d, 32);
            let pre_defined = read_u16_at(d, 34);
            Ok(MediaHeaderBox { full_header, creation_time, modification_time, timescale, duration, language, pre_defined })
        } else {
            if d.len() < 24 {
                return Err(IsoError::UnexpectedEof);
            }
            let full_header = FullBoxHeader { version: d[0], flags: read_u24_at(d, 1) };
            let creation_time = (read_u32_at(d, 4) as u64);
            let modification_time = (read_u32_at(d, 8) as u64);
            let timescale = read_u32_at(d, 12);
            let duration = (read_u32_at(d, 16) as u64);
            let language = read_language_at(d, 20);
            let pre_defined = read_u16_at(d, 22);
            Ok(MediaHeaderBox { full_header, creation_time, modification_time, timescale, duration, language, pre_defined })
        }
    }

    fn serialize_body(&self, out: &mut Vec<u8>) -> (r: Result<(), IsoError>) {
        let ghost before = out@;
        proof {
            lemma_wide_bytes_len(self.creation_time, 0);
            lemma_wide_bytes_len(self.duration, 0);
            lemma_wide_bytes_len(self.modification_time, 0);
        }
        if self.full_header.version == 1 {
            write_u8(out, self.full_header.version);
            write_u24(out, self.full_header.flags);
            write_u64(out, self.creation_time);
            write_u64(out, self.modification_time);
            write_u32(out, self.timescale);
            write_u64(out, self.duration);
            write_language(out, self.language);
            write_u16(out, self.pre_defined);
        } else {
            write_u8(out, self.full_header.version);
            write_u24(out, self.full_header.flags);
            write_u32(out, self.creation_time as u32);
            write_u32(out, self.modification_time as u32);
            write_u32(out, self.timescale);
            write_u32(out, self.duration as u32);
            write_language(out, self.language);
            write_u16(out, self.pre_defined);
        }
        proof {
            assert(out@ =~= before + Self::spec_serialize_body(self@));
            lemma_append_prefix(before, Self::spec_serialize_body(self@));
        }
        Ok(())
    }
}

#[verifier::spinoff_prover]
#[verifier::rlimit(100)]
proof fn lemma_media_header_box_wide_roundtrip(v: MediaHeaderBox)
    requires
        v.full_header.version == 1,
        MediaHeaderBox::spec_canonical(v),
    ensures
        MediaHeaderBox::spec_parse_body(MediaHeaderBox::spec_serialize_body(v)) == Ok::<MediaHeaderBox, IsoError>(v),
{
    broadcast use vstd::array::group_array_axioms;
    lemma_wide_bytes_len(v.creation_time, 0);
    lemma_wide_bytes_len(v.duration, 0);
    lemma_wide_bytes_len(v.modification_time, 0);
    let s = MediaHeaderBox::spec_serialize_body(v);
    assert(s[0] == v.full_header.version);
    assert(s.subrange(1, 4) =~= u24_bytes(v.full_header.flags));
    lemma_u24_at(s, 1, v.full_header.flags);
    assert(s.subrange(4, 12) =~= u64_bytes(v.creation_time));
    lemma_u64_at(s, 4, v.creation_time);
    assert(s.subrange(12, 20) =~= u64_bytes(v.modification_time));
    lemma_u64_at(s, 12, v.modification_time);
    assert(s.subrange(20, 24) =~= u32_bytes(v.timescale));
    lemma_u32_at(s, 20, v.timescale);
    assert(s.subrange(24, 32) =~= u64_bytes(v.duration));
    lemma_u64_at(s, 24, v.duration);
    assert(s.subrange(32, 34) =~= u16_bytes(language_word(v.language.0)));
    lemma_language_at(s, 32, v.language);
    assert(s.subrange(34, 36) =~= u16_bytes(v.pre_defined));
    lemma_u16_at(s, 34, v.pre_defined);
}

#[verifier::spinoff_prover]
#[verifier::rlimit(100)]
proof fn lemma_media_header_box_narrow_roundtrip(v: MediaHeaderBox)
    requires
        v.full_header.version != 1,
        MediaHeaderBox::spec_canonical(v),
    ensures
        MediaHeaderBox::spec_parse_body(MediaHeaderBox::spec_serialize_body(v)) == Ok::<MediaHeaderBox, IsoError>(v),
{
    broadcast use vstd::array::group_array_axioms;
    lemma_wide_bytes_len(v.creation_time, 0);
    lemma_wide_bytes_len(v.duration, 0);
    lemma_wide_bytes_len(v.modification_time, 0);
    let s = MediaHeaderBox::spec_serialize_body(v);
    assert(s[0] == v.full_header.version);
    assert(s.subrange(1, 4) =~= u24_bytes(v.full_header.flags));
    lemma_u24_at(s, 1, v.full_header.flags);
    assert(s.subrange(4, 8) =~= u32_bytes(v.creation_time as u32));
    lemma_u32_at(s, 4, v.creation_time as u32);
    assert(s.subrange(8, 12) =~= u32_bytes(v.modification_time as u32));
    lemma_u32_at(s, 8, v.modification_time as u32);
    assert(s.subrange(12, 16) =~= u32_bytes(v.timescale));
    lemma_u32_at(s, 12, v.timescale);
    assert(s.subrange(16, 20) =~= u32_bytes(v.duration as u32));
    lemma_u32_at(s, 16, v.duration as u32);
    assert(s.subrange(20, 22) =~= u16_bytes(language_word(v.language.0)));
    lemma_language_at(s, 20, v.language);
    assert(s.subrange(22, 24) =~= u16_bytes(v.pre_defined));
    lemma_u16_at(s, 22, v.pre_defined);
}

/// Movie extends header box
///
/// ISO/IEC 14496-12 - 8.8.2
#[derive(Debug, Clone, Copy, PartialEq, Eq)]
pub struct MovieExtendsHeaderBox {
    /// The version and flags of the box; version 1 has 64-bit times.
    pub full_header: FullBoxHeader,
    /// The length of the whole fragmented presentation.
    pub fragment_duration: u64,
}

impl View for MovieExtendsHeaderBox {
    type V = MovieExtendsHeaderBox;

    open spec fn view(&self) -> MovieExtendsHeaderBox {
        *self
    }
}

impl IsoSized for MovieExtendsHeaderBox {
    open spec fn spec_size(&self) -> nat {
        add_header_size(if self.full_header.version == 1 { 12 } else { 8 })
    }

    fn size(&self) -> (n: usize) {
        if self.full_header.version == 1 {
            add_header_size_exec(12)
        } else {
            add_header_size_exec(8)
        }
    }
}

impl BoxBody for MovieExtendsHeaderBox {
    open spec fn spec_box_type() -> [u8; 4] {
        [0x6du8, 0x65u8, 0x68u8, 0x64u8]
    }

    fn box_type() -> (r: [u8; 4]) {
        [0x6du8, 0x65u8, 0x68u8, 0x64u8]
    }

    /// The fields in the layout of the version; version 1 has 64-bit times.
    open spec fn spec_parse_body(s: Seq<u8>) -> Result<MovieExtendsHeaderBox, IsoError> {
        if s.len() < 1 {
            Err(IsoError::UnexpectedEof)
        } else if s[0] == 1 {
            if s.len() < 12 {
                Err(IsoError::UnexpectedEof)
            } else {
                Ok(MovieExtendsHeaderBox {
                    full_header: FullBoxHeader { version: s[0], flags: be_u24_at(s, 1) },
                    fragment_duration: be_u64_at(s, 4),
                })
            }
        } else {
            if s.len() < 8 {
                Err(IsoError::UnexpectedEof)
            } else {
                Ok(MovieExtendsHeaderBox {
                    full_header: FullBoxHeader { version: s[0], flags: be_u24_at(s, 1) },
                    fragment_duration: (be_u32_at(s, 4) as u64),
                })
            }
        }
    }

    open spec fn spec_writable(v: MovieExtendsHeaderBox) -> bool {
        true
    }

    open spec fn spec_serialize_body(v: MovieExtendsHeaderBox) -> Seq<u8> {
        if v.full_header.version == 1 {
            seq![v.full_header.version] + u24_bytes(v.full_header.flags) + u64_bytes(v.fragment_duration)
        } else {
            seq![v.full_header.version] + u24_bytes(v.full_header.flags) + u32_bytes(v.fragment_duration as u32)
        }
    }

    /// Every field fits its width in the layout of the version.
    open spec fn spec_canonical(v: MovieExtendsHeaderBox) -> bool {
        if v.full_header.version == 1 {
            v.full_header.flags < 0x100_0000
        } else {
            v.full_header.flags < 0x100_0000 && v.fragment_duration <= u32::MAX
        }
    }

    proof fn lemma_box_type() {
        assert(Self::spec_box_type()[0] != spec_uuid_fourcc()[0] || Self::spec_box_type()[1] != spec_uuid_fourcc()[1]);
    }

    proof fn lemma_body_size(x: MovieExtendsHeaderBox) {
        broadcast use vstd::array::group_array_axioms;
        lemma_wide_bytes_len(x.fragment_duration, 0);
    }

    proof fn lemma_body_roundtrip(v: MovieExtendsHeaderBox) {
        if v.full_header.version == 1 {
            lemma_movie_extends_header_box_wide_roundtrip(v);
        } else {
            lemma_movie_extends_header_box_narrow_roundtrip(v);
        }
    }

    fn parse_body(d: &[u8]) -> (r: Result<MovieExtendsHeaderBox, IsoError>) {
        if d.len() < 1 {
            return Err(IsoError::UnexpectedEof);
        }
        proof {
            reveal(be_u64_at);
        }
        if d[0] == 1 {
            if d.len() < 12 {
                return Err(IsoError::UnexpectedEof);
            }
            let full_header = FullBoxHeader { version: d[0], flags: read_u24_at(d, 1) };
            let fragment_duration = read_u64_at(d, 4);
            Ok(MovieExtendsHeaderBox { full_header, fragment_duration })
        } else {
            if d.len() < 8 {
                return Err(IsoError::UnexpectedEof);
            }
            let full_header = FullBoxHeader { version: d[0], flags: read_u24_at(d, 1) };
            let fragment_duration = (read_u32_at(d, 4) as u64);
            Ok(MovieExtendsHeaderBox { full_header, fragment_duration })
        }
    }

    fn serialize_body(&self, out: &mut Vec<u8>) -> (r: Result<(), IsoError>) {
        let ghost before = out@;
        proof {
            lemma_wide_bytes_len(self.fragment_duration, 0);
        }
        if self.full_header.version == 1 {
            write_u8(out, self.full_header.version);
            write_u24(out, self.full_header.flags);
            write_u64(out, self.fragment_duration);
        } else {
            write_u8(out, self.full_header.version);
            write_u24(out, self.full_header.flags);
            write_u32(out, self.fragment_duration as u32);
        }
        proof {
            assert(out@ =~= before + Self::spec_serialize_body(self@));
            lemma_append_prefix(before, Self::spec_serialize_body(self@));
        }
        Ok(())
    }
}

#[verifier::spinoff_prover]
#[verifier::rlimit(100)]
proof fn lemma_movie_extends_header_box_wide_roundtrip(v: MovieExtendsHeaderBox)
    requires
        v.full_header.version == 1,
        MovieExtendsHeaderBox::spec_canonical(v),
    ensures
        MovieExtendsHeaderBox::spec_parse_body(MovieExtendsHeaderBox::spec_serialize_body(v)) == Ok::<MovieExtendsHeaderBox, IsoError>(v),
{
    broadcast use vstd::array::group_array_axioms;
    lemma_wide_bytes_len(v.fragment_duration, 0);
    let s = MovieExtendsHeaderBox::spec_serialize_body(v);
    assert(s[0] == v.full_header.version);
    assert(s.subrange(1, 4) =~= u24_bytes(v.full_header.flags));
    lemma_u24_at(s, 1, v.full_header.flags);
    assert(s.subrange(4, 12) =~= u64_bytes(v.fragment_duration));
    lemma_u64_at(s, 4, v.fragment_duration);
}

#[verifier::spinoff_prover]
#[verifier::rlimit(100)]
proof fn lemma_movie_extends_header_box_narrow_roundtrip(v: MovieExtendsHeaderBox)
    requires
        v.full_header.version != 1,
        MovieExtendsHeaderBox::spec_canonical(v),
    ensures
        MovieExtendsHeaderBox::spec_parse_body(MovieExtendsHeaderBox::spec_serialize_body(v)) == Ok::<MovieExtendsHeaderBox, IsoError>(v),
{
    broadcast use vstd::array::group_array_axioms;
    lemma_wide_bytes_len(v.fragment_duration, 0);
    let s = MovieExtendsHeaderBox::spec_serialize_body(v);
    assert(s[0] == v.full_header.version);
    assert(s.subrange(1, 4) =~= u24_bytes(v.full_header.flags));
    lemma_u24_at(s, 1, v.full_header.flags);
    assert(s.subrange(4, 8) =~= u32_bytes(v.fragment_duration as u32));
    lemma_u32_at(s, 4, v.fragment_duration as u32);
}

/// Track fragment decode time box
///
/// ISO/IEC 14496-12 - 8.8.12
#[derive(Debug, Clone, Copy, PartialEq, Eq)]
pub struct TrackFragmentBaseMediaDecodeTimeBox {
    /// The version and flags of the box; version 1 has 64-bit times.
    pub full_header: FullBoxHeader,
    /// The decode time of the first sample of the fragment.
    pub base_media_decode_time: u64,
}

impl View for TrackFragmentBaseMediaDecodeTimeBox {
    type V = TrackFragmentBaseMediaDecodeTimeBox;

    open spec fn view(&self) -> TrackFragmentBaseMediaDecodeTimeBox {
        *self
    }
}

impl IsoSized for TrackFragmentBaseMediaDecodeTimeBox {
    open spec fn spec_size(&self) -> nat {
        add_header_size(if self.full_header.version == 1 { 12 } else { 8 })
    }

    fn size(&self) -> (n: usize) {
        if self.full_header.version == 1 {
            add_header_size_exec(12)
        } else {
            add_header_size_exec(8)
        }
    }
}

impl BoxBody for TrackFragmentBaseMediaDecodeTimeBox {
    open spec fn spec_box_type() -> [u8; 4] {
        [0x74u8, 0x66u8, 0x64u8, 0x74u8]
    }

    fn box_type() -> (r: [u8; 4]) {
        [0x74u8, 0x66u8, 0x64u8, 0x74u8]
    }

    /// The fields in the layout of the version; version 1 has 64-bit times.
    open spec fn spec_parse_body(s: Seq<u8>) -> Result<TrackFragmentBaseMediaDecodeTimeBox, IsoError> {
        if s.len() < 1 {
            Err(IsoError::UnexpectedEof)
        } else if s[0] == 1 {
            if s.len() < 12 {
                Err(IsoError::UnexpectedEof)
            } else {
                Ok(TrackFragmentBaseMediaDecodeTimeBox {
                    full_header: FullBoxHeader { version: s[0], flags: be_u24_at(s, 1) },
                    base_media_decode_time: be_u64_at(s, 4),
                })
            }
        } else {
            if s.len() < 8 {
                Err(IsoError::UnexpectedEof)
            } else {
                Ok(TrackFragmentBaseMediaDecodeTimeBox {
                    full_header: FullBoxHeader { version: s[0], flags: be_u24_at(s, 1) },
                    base_media_decode_time: (be_u32_at(s, 4) as u64),
                })
            }
        }
    }

    open spec fn spec_writable(v: TrackFragmentBaseMediaDecodeTimeBox) -> bool {
        true
    }

    open spec fn spec_serialize_body(v: TrackFragmentBaseMediaDecodeTimeBox) -> Seq<u8> {
        if v.full_header.version == 1 {
            seq![v.full_header.version] + u24_bytes(v.full_header.flags) + u64_bytes(v.base_media_decode_time)
        } else {
            seq![v.full_header.version] + u24_bytes(v.full_header.flags) + u32_bytes(v.base_media_decode_time as u32)
        }
    }

    /// Every field fits its width in the layout of the version.
    open spec fn spec_canonical(v: TrackFragmentBaseMediaDecodeTimeBox) -> bool {
        if v.full_header.version == 1 {
            v.full_header.flags < 0x100_0000
        } else {
            v.full_header.flags < 0x100_0000 && v.base_media_decode_time <= u32::MAX
        }
    }

    proof fn lemma_box_type() {
        assert(Self::spec_box_type()[0] != spec_uuid_fourcc()[0] || Self::spec_box_type()[1] != spec_uuid_fourcc()[1]);
    }

    proof fn lemma_body_size(x: TrackFragmentBaseMediaDecodeTimeBox) {
        broadcast use vstd::array::group_array_axioms;
        lemma_wide_bytes_len(x.base_media_decode_time, 0);
    }

    proof fn lemma_body_roundtrip(v: TrackFragmentBaseMediaDecodeTimeBox) {
        if v.full_header.version == 1 {
            lemma_track_fragment_base_media_decode_time_box_wide_roundtrip(v);
        } else {
            lemma_track_fragment_base_media_decode_time_box_narrow_roundtrip(v);
        }
    }

    fn parse_body(d: &[u8]) -> (r: Result<TrackFragmentBaseMediaDecodeTimeBox, IsoError>) {
        if d.len() < 1 {
            return Err(IsoError::UnexpectedEof);
        }
        proof {
            reveal(be_u64_at);
        }
        if d[0] == 1 {
            if d.len() < 12 {
                return Err(IsoError::UnexpectedEof);
            }
            let full_header = FullBoxHeader { version: d[0], flags: read_u24_at(d, 1) };
            let base_media_decode_time = read_u64_at(d, 4);
            Ok(TrackFragmentBaseMediaDecodeTimeBox { full_header, base_media_decode_time })
        } else {
            if d.len() < 8 {
                return Err(IsoError::UnexpectedEof);
            }
            let full_header = FullBoxHeader { version: d[0], flags: read_u24_at(d, 1) };
            let base_media_decode_time = (read_u32_at(d, 4) as u64);
            Ok(TrackFragmentBaseMediaDecodeTimeBox { full_header, base_media_decode_time })
        }
    }

    fn serialize_body(&self, out: &mut Vec<u8>) -> (r: Result<(), IsoError>) {
        let ghost before = out@;
        proof {
            lemma_wide_bytes_len(self.base_media_decode_time, 0);
        }
        if self.full_header.version == 1 {
            write_u8(out, self.full_header.version);
            write_u24(out, self.full_header.flags);
            write_u64(out, self.base_media_decode_time);
        } else {
            write_u8(out, self.full_header.version);
            write_u24(out, self.full_header.flags);
            write_u32(out, self.base_media_decode_time as u32);
        }
        proof {
            assert(out@ =~= before + Self::spec_serialize_body(self@));
            lemma_append_prefix(before, Self::spec_serialize_body(self@));
        }
        Ok(())
    }
}

#[verifier::spinoff_prover]
#[verifier::rlimit(100)]
proof fn lemma_track_fragment_base_media_decode_time_box_wide_roundtrip(v: TrackFragmentBaseMediaDecodeTimeBox)
    requires
        v.full_header.version == 1,
        TrackFragmentBaseMediaDecodeTimeBox::spec_canonical(v),
    ensures
        TrackFragmentBaseMediaDecodeTimeBox::spec_parse_body(TrackFragmentBaseMediaDecodeTimeBox::spec_serialize_body(v)) == Ok::<TrackFragmentBaseMediaDecodeTimeBox, IsoError>(v),
{
    broadcast use vstd::array::group_array_axioms;
    lemma_wide_bytes_len(v.base_media_decode_time, 0);
    let s = TrackFragmentBaseMediaDecodeTimeBox::spec_serialize_body(v);
    assert(s[0] == v.full_header.version);
    assert(s.subrange(1, 4) =~= u24_bytes(v.full_header.flags));
    lemma_u24_at(s, 1, v.full_header.flags);
    assert(s.subrange(4, 12) =~= u64_bytes(v.base_media_decode_time));
    lemma_u64_at(s, 4, v.base_media_decode_time);
}

#[verifier::spinoff_prover]
#[verifier::rlimit(100)]
proof fn lemma_track_fragment_base_media_decode_time_box_narrow_roundtrip(v: TrackFragmentBaseMediaDecodeTimeBox)
    requires
        v.full_header.version != 1,
        TrackFragmentBaseMediaDecodeTimeBox::spec_canonical(v),
    ensures
        TrackFragmentBaseMediaDecodeTimeBox::spec_parse_body(TrackFragmentBaseMediaDecodeTimeBox::spec_serialize_body(v)) == Ok::<TrackFragmentBaseMediaDecodeTimeBox, IsoError>(v),
{
    broadcast use vstd::array::group_array_axioms;
    lemma_wide_bytes_len(v.base_media_decode_time, 0);
    let s = TrackFragmentBaseMediaDecodeTimeBox::spec_serialize_body(v);
    assert(s[0] == v.full_header.version);
    assert(s.subrange(1, 4) =~= u24_bytes(v.full_header.flags));
    lemma_u24_at(s, 1, v.full_header.flags);
    assert(s.subrange(4, 8) =~= u32_bytes(v.base_media_decode_time as u32));
    lemma_u32_at(s, 4, v.base_media_decode_time as u32);
}


/// The movie header body (ISO/IEC 14496-12 - 8.2.2): after the version byte and three flag bytes, version 1 spells the creation and modification times by eight bytes each (4..12, 12..20), the timescale by four (20..24), the duration by eight (24..32) and the next track id by bytes 108..112; other versions spell the two times by four bytes each (4..8, 8..12), the timescale by 12..16, the duration by 16..20 and the next track id by 96..100.
pub proof fn lemma_movie_header_layout(s: Seq<u8>)
    ensures
        s.len() == 0 ==> MovieHeaderBox::spec_parse_body(s) == Err::<MovieHeaderBox, IsoError>(IsoError::UnexpectedEof),
        s.len() > 0 && s[0] == 1 && s.len() < 112 ==> MovieHeaderBox::spec_parse_body(s) == Err::<MovieHeaderBox, IsoError>(
            IsoError::UnexpectedEof,
        ),
        s.len() > 0 && s[0] != 1 && s.len() < 100 ==> MovieHeaderBox::spec_parse_body(s) == Err::<MovieHeaderBox, IsoError>(
            IsoError::UnexpectedEof,
        ),
        s.len() >= 112 && s[0] == 1 ==> (MovieHeaderBox::spec_parse_body(s) matches Ok(h) && h.creation_time == crate::codec::be_int(s, 4, 8) && h.modification_time == crate::codec::be_int(s, 12, 8) && h.timescale == crate::codec::be_int(s, 20, 4) && h.duration == crate::codec::be_int(s, 24, 8) && h.next_track_id == crate::codec::be_int(s, 108, 4)),
        s.len() >= 100 && s[0] != 1 ==> (MovieHeaderBox::spec_parse_body(s) matches Ok(h) && h.creation_time == crate::codec::be_int(s, 4, 4) && h.modification_time == crate::codec::be_int(s, 8, 4) && h.timescale == crate::codec::be_int(s, 12, 4) && h.duration == crate::codec::be_int(s, 16, 4) && h.next_track_id == crate::codec::be_int(s, 96, 4)),
{
    if s.len() > 0 {
        if s[0] == 1 && s.len() >= 112 {
            crate::codec::lemma_be_int_u64(s, 4);
            crate::codec::lemma_be_int_u64(s, 12);
            crate::codec::lemma_be_int_u32(s, 20);
            crate::codec::lemma_be_int_u64(s, 24);
            crate::codec::lemma_be_int_u32(s, 108);
        } else if s[0] != 1 && s.len() >= 100 {
            crate::codec::lemma_be_int_u32(s, 4);
            crate::codec::lemma_be_int_u32(s, 8);
            crate::codec::lemma_be_int_u32(s, 12);
            crate::codec::lemma_be_int_u32(s, 16);
            crate::codec::lemma_be_int_u32(s, 96);
        }
    }
}

/// The track header body (ISO/IEC 14496-12 - 8.3.2): version 1 spells the creation and modification times by eight bytes each (4..12, 12..20), the track id by 20..24, the duration by eight bytes (28..36), and the width and height by 88..92 and 92..96; other versions spell the times by 4..8 and 8..12, the track id by 12..16, the duration by 20..24, and the width and height by 76..80 and 80..84.
pub proof fn lemma_track_header_layout(s: Seq<u8>)
    ensures
        s.len() == 0 ==> TrackHeaderBox::spec_parse_body(s) == Err::<TrackHeaderBox, IsoError>(IsoError::UnexpectedEof),
        s.len() > 0 && s[0] == 1 && s.len() < 96 ==> TrackHeaderBox::spec_parse_body(s) == Err::<TrackHeaderBox, IsoError>(
            IsoError::UnexpectedEof,
        ),
        s.len() > 0 && s[0] != 1 && s.len() < 84 ==> TrackHeaderBox::spec_parse_body(s) == Err::<TrackHeaderBox, IsoError>(
            IsoError::UnexpectedEof,
        ),
        s.len() >= 96 && s[0] == 1 ==> (TrackHeaderBox::spec_parse_body(s) matches Ok(h) && h.creation_time == crate::codec::be_int(s, 4, 8) && h.modification_time == crate::codec::be_int(s, 12, 8) && h.track_id == crate::codec::be_int(s, 20, 4) && h.duration == crate::codec::be_int(s, 28, 8) && h.width == crate::codec::be_int(s, 88, 4) && h.height == crate::codec::be_int(s, 92, 4)),
        s.len() >= 84 && s[0] != 1 ==> (TrackHeaderBox::spec_parse_body(s) matches Ok(h) && h.creation_time == crate::codec::be_int(s, 4, 4) && h.modification_time == crate::codec::be_int(s, 8, 4) && h.track_id == crate::codec::be_int(s, 12, 4) && h.duration == crate::codec::be_int(s, 20, 4) && h.width == crate::codec::be_int(s, 76, 4) && h.height == crate::codec::be_int(s, 80, 4)),
{
    if s.len() > 0 {
        if s[0] == 1 && s.len() >= 96 {
            crate::codec::lemma_be_int_u64(s, 4);
            crate::codec::lemma_be_int_u64(s, 12);
            crate::codec::lemma_be_int_u32(s, 20);
            crate::codec::lemma_be_int_u64(s, 28);
            crate::codec::lemma_be_int_u32(s, 88);
            crate::codec::lemma_be_int_u32(s, 92);
        } else if s[0] != 1 && s.len() >= 84 {
            crate::codec::lemma_be_int_u32(s, 4);
            crate::codec::lemma_be_int_u32(s, 8);
            crate::codec::lemma_be_int_u32(s, 12);
            crate::codec::lemma_be_int_u32(s, 20);
            crate::codec::lemma_be_int_u32(s, 76);
            crate::codec::lemma_be_int_u32(s, 80);
        }
    }
}

/// The media header body (ISO/IEC 14496-12 - 8.4.2): version 1 spells the creation and modification times by eight bytes each (4..12, 12..20), the timescale by 20..24 and the duration by eight bytes (24..32); other versions spell the times by 4..8 and 8..12, the timescale by 12..16 and the duration by 16..20.
pub proof fn lemma_media_header_layout(s: Seq<u8>)
    ensures
        s.len() == 0 ==> MediaHeaderBox::spec_parse_body(s) == Err::<MediaHeaderBox, IsoError>(IsoError::UnexpectedEof),
        s.len() > 0 && s[0] == 1 && s.len() < 36 ==> MediaHeaderBox::spec_parse_body(s) == Err::<MediaHeaderBox, IsoError>(
            IsoError::UnexpectedEof,
        ),
        s.len() > 0 && s[0] != 1 && s.len() < 24 ==> MediaHeaderBox::spec_parse_body(s) == Err::<MediaHeaderBox, IsoError>(
            IsoError::UnexpectedEof,
        ),
        s.len() >= 36 && s[0] == 1 ==> (MediaHeaderBox::spec_parse_body(s) matches Ok(h) && h.creation_time == crate::codec::be_int(s, 4, 8) && h.modification_time == crate::codec::be_int(s, 12, 8) && h.timescale == crate::codec::be_int(s, 20, 4) && h.duration == crate::codec::be_int(s, 24, 8)),
        s.len() >= 24 && s[0] != 1 ==> (MediaHeaderBox::spec_parse_body(s) matches Ok(h) && h.creation_time == crate::codec::be_int(s, 4, 4) && h.modification_time == crate::codec::be_int(s, 8, 4) && h.timescale == crate::codec::be_int(s, 12, 4) && h.duration == crate::codec::be_int(s, 16, 4)),
{
    if s.len() > 0 {
        if s[0] == 1 && s.len() >= 36 {
            crate::codec::lemma_be_int_u64(s, 4);
            crate::codec::lemma_be_int_u64(s, 12);
            crate::codec::lemma_be_int_u32(s, 20);
            crate::codec::lemma_be_int_u64(s, 24);
        } else if s[0] != 1 && s.len() >= 24 {
            crate::codec::lemma_be_int_u32(s, 4);
            crate::codec::lemma_be_int_u32(s, 8);
            crate::codec::lemma_be_int_u32(s, 12);
            crate::codec::lemma_be_int_u32(s, 16);
        }
    }
}


/// The movie extends header body (ISO/IEC 14496-12 - 8.8.2): after the version byte and three flag bytes, the fragment duration spelled by eight bytes (4..12) in version 1 and by four (4..8) otherwise.
pub proof fn lemma_movie_extends_header_layout(s: Seq<u8>)
    ensures
        s.len() == 0 ==> MovieExtendsHeaderBox::spec_parse_body(s) == Err::<MovieExtendsHeaderBox, IsoError>(IsoError::UnexpectedEof),
        s.len() > 0 && s[0] == 1 && s.len() < 12 ==> MovieExtendsHeaderBox::spec_parse_body(s) == Err::<MovieExtendsHeaderBox, IsoError>(
            IsoError::UnexpectedEof,
        ),
        s.len() > 0 && s[0] != 1 && s.len() < 8 ==> MovieExtendsHeaderBox::spec_parse_body(s) == Err::<MovieExtendsHeaderBox, IsoError>(
            IsoError::UnexpectedEof,
        ),
        s.len() >= 12 && s[0] == 1 ==> (MovieExtendsHeaderBox::spec_parse_body(s) matches Ok(h) && h.fragment_duration == crate::codec::be_int(s, 4, 8)),
        s.len() >= 8 && s[0] != 1 ==> (MovieExtendsHeaderBox::spec_parse_body(s) matches Ok(h) && h.fragment_duration == crate::codec::be_int(s, 4, 4)),
{
    if s.len() > 0 {
        if s[0] == 1 && s.len() >= 12 {
            crate::codec::lemma_be_int_u64(s, 4);
        } else if s[0] != 1 && s.len() >= 8 {
            crate::codec::lemma_be_int_u32(s, 4);
        }
    }
}

/// The track fragment decode time body (ISO/IEC 14496-12 - 8.8.12): after the version byte and three flag bytes, the base media decode time spelled by eight bytes (4..12) in version 1 and by four (4..8) otherwise.
pub proof fn lemma_track_fragment_decode_time_layout(s: Seq<u8>)
    ensures
        s.len() == 0 ==> TrackFragmentBaseMediaDecodeTimeBox::spec_parse_body(s) == Err::<TrackFragmentBaseMediaDecodeTimeBox, IsoError>(IsoError::UnexpectedEof),
        s.len() > 0 && s[0] == 1 && s.len() < 12 ==> TrackFragmentBaseMediaDecodeTimeBox::spec_parse_body(s) == Err::<TrackFragmentBaseMediaDecodeTimeBox, IsoError>(
            IsoError::UnexpectedEof,
        ),
        s.len() > 0 && s[0] != 1 && s.len() < 8 ==> TrackFragmentBaseMediaDecodeTimeBox::spec_parse_body(s) == Err::<TrackFragmentBaseMediaDecodeTimeBox, IsoError>(
            IsoError::UnexpectedEof,
        ),
        s.len() >= 12 && s[0] == 1 ==> (TrackFragmentBaseMediaDecodeTimeBox::spec_parse_body(s) matches Ok(h) && h.base_media_decode_time == crate::codec::be_int(s, 4, 8)),
        s.len() >= 8 && s[0] != 1 ==> (TrackFragmentBaseMediaDecodeTimeBox::spec_parse_body(s) matches Ok(h) && h.base_media_decode_time == crate::codec::be_int(s, 4, 4)),
{
    if s.len() > 0 {
        if s[0] == 1 && s.len() >= 12 {
            crate::codec::lemma_be_int_u64(s, 4);
        } else if s[0] != 1 && s.len() >= 8 {
            crate::codec::lemma_be_int_u32(s, 4);
        }
    }
}


/// The signed fields of the movie header body: the rate is the two's complement word
/// of bytes 32..36 in version 1 and of bytes 20..24 otherwise, and the volume the two's
/// complement of bytes 36..38 in version 1 and of bytes 24..26 otherwise.
pub proof fn lemma_movie_header_signed_layout(s: Seq<u8>)
    ensures
        s.len() >= 112 && s[0] == 1 ==> (MovieHeaderBox::spec_parse_body(s) matches Ok(h) && h.rate
            == crate::codec::be_signed32(s, 32) && h.volume == crate::codec::be_signed16(s, 36)),
        s.len() >= 100 && s[0] != 1 ==> (MovieHeaderBox::spec_parse_body(s) matches Ok(h) && h.rate
            == crate::codec::be_signed32(s, 20) && h.volume == crate::codec::be_signed16(s, 24)),
{
    if s.len() >= 112 && s[0] == 1 {
        crate::codec::lemma_be_signed32(s, 32);
        crate::codec::lemma_be_signed16(s, 36);
    } else if s.len() >= 100 && s[0] != 1 {
        crate::codec::lemma_be_signed32(s, 20);
        crate::codec::lemma_be_signed16(s, 24);
    }
}

/// The signed fields of the track header body: the layer, alternate group and volume
/// are the two's complement numbers of bytes 44..46, 46..48 and 48..50 in version 1
/// and of bytes 32..34, 34..36 and 36..38 otherwise.
pub proof fn lemma_track_header_signed_layout(s: Seq<u8>)
    ensures
        s.len() >= 96 && s[0] == 1 ==> (TrackHeaderBox::spec_parse_body(s) matches Ok(h) && h.layer
            == crate::codec::be_signed16(s, 44) && h.alternate_group == crate::codec::be_signed16(s, 46) && h.volume
            == crate::codec::be_signed16(s, 48)),
        s.len() >= 84 && s[0] != 1 ==> (TrackHeaderBox::spec_parse_body(s) matches Ok(h) && h.layer
            == crate::codec::be_signed16(s, 32) && h.alternate_group == crate::codec::be_signed16(s, 34) && h.volume
            == crate::codec::be_signed16(s, 36)),
{
    if s.len() >= 96 && s[0] == 1 {
        crate::codec::lemma_be_signed16(s, 44);
        crate::codec::lemma_be_signed16(s, 46);
        crate::codec::lemma_be_signed16(s, 48);
    } else if s.len() >= 84 && s[0] != 1 {
        crate::codec::lemma_be_signed16(s, 32);
        crate::codec::lemma_be_signed16(s, 34);
        crate::codec::lemma_be_signed16(s, 36);
    }
}

} // verus!
