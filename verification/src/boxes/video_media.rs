//! Video media boxes (ISO/IEC 14496-12 - 12.1).

use vstd::arithmetic::power2::pow2;
use vstd::prelude::*;

use crate::codec::{
    be_u16_at, be_u32_at, fourcc_at, fourcc_eq, from_i32, i32_of, lemma_append_prefix, lemma_fourcc_at,
    lemma_i32_roundtrip, lemma_u16_at, lemma_u32_at, read_fourcc_at, read_u16_at, read_u32_at, to_i32,
    u16_bytes, u32_bytes, u32_of, write_bytes, write_fourcc, write_u16, write_u32, write_u8, IsoError,
    SpecParse,
};
use crate::frame::{add_header_size, add_header_size_exec, BoxBody};
use crate::header::spec_uuid_fourcc;
use crate::wire::{IsoSized, Wire};

verus! {


/// Clean aperture box
///
/// ISO/IEC 14496-12 - 12.1.4
#[derive(Debug, Clone, Copy, PartialEq, Eq, Structural)]
pub struct CleanApertureBox {
    /// The width of the clean aperture image, as a fraction.
    pub clean_aperture_width_n: u32,
    pub clean_aperture_width_d: u32,
    /// The height of the clean aperture image, as a fraction.
    pub clean_aperture_height_n: u32,
    pub clean_aperture_height_d: u32,
    /// The horizontal offset of the clean aperture centre, as a fraction.
    pub horiz_off_n: u32,
    pub horiz_off_d: u32,
    /// The vertical offset of the clean aperture centre, as a fraction.
    pub vert_off_n: u32,
    pub vert_off_d: u32,
}

impl View for CleanApertureBox {
    type V = CleanApertureBox;

    open spec fn view(&self) -> CleanApertureBox {
        *self
    }
}

impl IsoSized for CleanApertureBox {
    open spec fn spec_size(&self) -> nat {
        add_header_size(32)
    }

    fn size(&self) -> (n: usize) {
        add_header_size_exec(32)
    }
}

impl BoxBody for CleanApertureBox {
    open spec fn spec_box_type() -> [u8; 4] {
        [0x63u8, 0x6cu8, 0x61u8, 0x70u8]
    }

    fn box_type() -> (r: [u8; 4]) {
        [0x63u8, 0x6cu8, 0x61u8, 0x70u8]
    }

    open spec fn spec_parse_body(s: Seq<u8>) -> Result<CleanApertureBox, IsoError> {
        if s.len() < 32 {
            Err(IsoError::UnexpectedEof)
        } else {
            Ok(CleanApertureBox {
                clean_aperture_width_n: be_u32_at(s, 0),
                clean_aperture_width_d: be_u32_at(s, 4),
                clean_aperture_height_n: be_u32_at(s, 8),
                clean_aperture_height_d: be_u32_at(s, 12),
                horiz_off_n: be_u32_at(s, 16),
                horiz_off_d: be_u32_at(s, 20),
                vert_off_n: be_u32_at(s, 24),
                vert_off_d: be_u32_at(s, 28),
            })
        }
    }

    open spec fn spec_writable(v: CleanApertureBox) -> bool {
        true
    }

    open spec fn spec_serialize_body(v: CleanApertureBox) -> Seq<u8> {
        u32_bytes(v.clean_aperture_width_n) + u32_bytes(v.clean_aperture_width_d) + u32_bytes(v.clean_aperture_height_n) + u32_bytes(v.clean_aperture_height_d) + u32_bytes(v.horiz_off_n) + u32_bytes(v.horiz_off_d) + u32_bytes(v.vert_off_n) + u32_bytes(v.vert_off_d)
    }

    open spec fn spec_canonical(v: CleanApertureBox) -> bool {
        true
    }

    proof fn lemma_box_type() {
        assert(Self::spec_box_type()[0] != spec_uuid_fourcc()[0] || Self::spec_box_type()[1] != spec_uuid_fourcc()[1]);
    }

    proof fn lemma_body_size(x: CleanApertureBox) {
    }

    proof fn lemma_body_roundtrip(v: CleanApertureBox) {
        let s = Self::spec_serialize_body(v);
        assert(s.subrange(0, 4) =~= u32_bytes(v.clean_aperture_width_n));
        lemma_u32_at(s, 0, v.clean_aperture_width_n);
        assert(s.subrange(4, 8) =~= u32_bytes(v.clean_aperture_width_d));
        lemma_u32_at(s, 4, v.clean_aperture_width_d);
        assert(s.subrange(8, 12) =~= u32_bytes(v.clean_aperture_height_n));
        lemma_u32_at(s, 8, v.clean_aperture_height_n);
        assert(s.subrange(12, 16) =~= u32_bytes(v.clean_aperture_height_d));
        lemma_u32_at(s, 12, v.clean_aperture_height_d);
        assert(s.subrange(16, 20) =~= u32_bytes(v.horiz_off_n));
        lemma_u32_at(s, 16, v.horiz_off_n);
        assert(s.subrange(20, 24) =~= u32_bytes(v.horiz_off_d));
        lemma_u32_at(s, 20, v.horiz_off_d);
        assert(s.subrange(24, 28) =~= u32_bytes(v.vert_off_n));
        lemma_u32_at(s, 24, v.vert_off_n);
        assert(s.subrange(28, 32) =~= u32_bytes(v.vert_off_d));
        lemma_u32_at(s, 28, v.vert_off_d);
    }

    fn parse_body(d: &[u8]) -> (r: Result<CleanApertureBox, IsoError>) {
        if d.len() < 32 {
            return Err(IsoError::UnexpectedEof);
        }
        let clean_aperture_width_n = read_u32_at(d, 0);
        let clean_aperture_width_d = read_u32_at(d, 4);
        let clean_aperture_height_n = read_u32_at(d, 8);
        let clean_aperture_height_d = read_u32_at(d, 12);
        let horiz_off_n = read_u32_at(d, 16);
        let horiz_off_d = read_u32_at(d, 20);
        let vert_off_n = read_u32_at(d, 24);
        let vert_off_d = read_u32_at(d, 28);
        Ok(CleanApertureBox { clean_aperture_width_n, clean_aperture_width_d, clean_aperture_height_n, clean_aperture_height_d, horiz_off_n, horiz_off_d, vert_off_n, vert_off_d })
    }

    fn serialize_body(&self, out: &mut Vec<u8>) -> (r: Result<(), IsoError>) {
        let ghost before = out@;
        write_u32(out, self.clean_aperture_width_n);
        write_u32(out, self.clean_aperture_width_d);
        write_u32(out, self.clean_aperture_height_n);
        write_u32(out, self.clean_aperture_height_d);
        write_u32(out, self.horiz_off_n);
        write_u32(out, self.horiz_off_d);
        write_u32(out, self.vert_off_n);
        write_u32(out, self.vert_off_d);
        proof {
            assert(out@ =~= before + Self::spec_serialize_body(self@));
            lemma_append_prefix(before, Self::spec_serialize_body(self@));
        }
        Ok(())
    }
}

/// Pixel aspect ratio box
///
/// ISO/IEC 14496-12 - 12.1.4
#[derive(Debug, Clone, Copy, PartialEq, Eq, Structural)]
pub struct PixelAspectRatioBox {
    /// The relative width of a pixel.
    pub h_spacing: u32,
    /// The relative height of a pixel.
    pub v_spacing: u32,
}

impl View for PixelAspectRatioBox {
    type V = PixelAspectRatioBox;

    open spec fn view(&self) -> PixelAspectRatioBox {
        *self
    }
}

impl IsoSized for PixelAspectRatioBox {
    open spec fn spec_size(&self) -> nat {
        add_header_size(8)
    }

    fn size(&self) -> (n: usize) {
        add_header_size_exec(8)
    }
}

impl BoxBody for PixelAspectRatioBox {
    open spec fn spec_box_type() -> [u8; 4] {
        [0x70u8, 0x61u8, 0x73u8, 0x70u8]
    }

    fn box_type() -> (r: [u8; 4]) {
        [0x70u8, 0x61u8, 0x73u8, 0x70u8]
    }

    open spec fn spec_parse_body(s: Seq<u8>) -> Result<PixelAspectRatioBox, IsoError> {
        if s.len() < 8 {
            Err(IsoError::UnexpectedEof)
        } else {
            Ok(PixelAspectRatioBox {
                h_spacing: be_u32_at(s, 0),
                v_spacing: be_u32_at(s, 4),
            })
        }
    }

    open spec fn spec_writable(v: PixelAspectRatioBox) -> bool {
        true
    }

    open spec fn spec_serialize_body(v: PixelAspectRatioBox) -> Seq<u8> {
        u32_bytes(v.h_spacing) + u32_bytes(v.v_spacing)
    }

    open spec fn spec_canonical(v: PixelAspectRatioBox) -> bool {
        true
    }

    proof fn lemma_box_type() {
        assert(Self::spec_box_type()[0] != spec_uuid_fourcc()[0] || Self::spec_box_type()[1] != spec_uuid_fourcc()[1]);
    }

    proof fn lemma_body_size(x: PixelAspectRatioBox) {
    }

    proof fn lemma_body_roundtrip(v: PixelAspectRatioBox) {
        let s = Self::spec_serialize_body(v);
        assert(s.subrange(0, 4) =~= u32_bytes(v.h_spacing));
        lemma_u32_at(s, 0, v.h_spacing);
        assert(s.subrange(4, 8) =~= u32_bytes(v.v_spacing));
        lemma_u32_at(s, 4, v.v_spacing);
    }

    fn parse_body(d: &[u8]) -> (r: Result<PixelAspectRatioBox, IsoError>) {
        if d.len() < 8 {
            return Err(IsoError::UnexpectedEof);
        }
        let h_spacing = read_u32_at(d, 0);
        let v_spacing = read_u32_at(d, 4);
        Ok(PixelAspectRatioBox { h_spacing, v_spacing })
    }

    fn serialize_body(&self, out: &mut Vec<u8>) -> (r: Result<(), IsoError>) {
        let ghost before = out@;
        write_u32(out, self.h_spacing);
        write_u32(out, self.v_spacing);
        proof {
            assert(out@ =~= before + Self::spec_serialize_body(self@));
            lemma_append_prefix(before, Self::spec_serialize_body(self@));
        }
        Ok(())
    }
}

/// Content light level box
///
/// ISO/IEC 14496-12 - 12.1.6
#[derive(Debug, Clone, Copy, PartialEq, Eq, Structural)]
pub struct ContentLightLevelBox {
    /// The largest light level of any pixel, in candelas per square metre.
    pub max_content_light_level: u16,
    /// The largest average light level of a picture.
    pub max_pic_average_light_level: u16,
}

impl View for ContentLightLevelBox {
    type V = ContentLightLevelBox;

    open spec fn view(&self) -> ContentLightLevelBox {
        *self
    }
}

impl IsoSized for ContentLightLevelBox {
    open spec fn spec_size(&self) -> nat {
        add_header_size(4)
    }

    fn size(&self) -> (n: usize) {
        add_header_size_exec(4)
    }
}

impl BoxBody for ContentLightLevelBox {
    open spec fn spec_box_type() -> [u8; 4] {
        [0x63u8, 0x6cu8, 0x6cu8, 0x69u8]
    }

    fn box_type() -> (r: [u8; 4]) {
        [0x63u8, 0x6cu8, 0x6cu8, 0x69u8]
    }

    open spec fn spec_parse_body(s: Seq<u8>) -> Result<ContentLightLevelBox, IsoError> {
        if s.len() < 4 {
            Err(IsoError::UnexpectedEof)
        } else {
            Ok(ContentLightLevelBox {
                max_content_light_level: be_u16_at(s, 0),
                max_pic_average_light_level: be_u16_at(s, 2),
            })
        }
    }

    open spec fn spec_writable(v: ContentLightLevelBox) -> bool {
        true
    }

    open spec fn spec_serialize_body(v: ContentLightLevelBox) -> Seq<u8> {
        u16_bytes(v.max_content_light_level) + u16_bytes(v.max_pic_average_light_level)
    }

    open spec fn spec_canonical(v: ContentLightLevelBox) -> bool {
        true
    }

    proof fn lemma_box_type() {
        assert(Self::spec_box_type()[0] != spec_uuid_fourcc()[0] || Self::spec_box_type()[1] != spec_uuid_fourcc()[1]);
    }

    proof fn lemma_body_size(x: ContentLightLevelBox) {
    }

    proof fn lemma_body_roundtrip(v: ContentLightLevelBox) {
        let s = Self::spec_serialize_body(v);
        assert(s.subrange(0, 2) =~= u16_bytes(v.max_content_light_level));
        lemma_u16_at(s, 0, v.max_content_light_level);
        assert(s.subrange(2, 4) =~= u16_bytes(v.max_pic_average_light_level));
        lemma_u16_at(s, 2, v.max_pic_average_light_level);
    }

    fn parse_body(d: &[u8]) -> (r: Result<ContentLightLevelBox, IsoError>) {
        if d.len() < 4 {
            return Err(IsoError::UnexpectedEof);
        }
        let max_content_light_level = read_u16_at(d, 0);
        let max_pic_average_light_level = read_u16_at(d, 2);
        Ok(ContentLightLevelBox { max_content_light_level, max_pic_average_light_level })
    }

    fn serialize_body(&self, out: &mut Vec<u8>) -> (r: Result<(), IsoError>) {
        let ghost before = out@;
        write_u16(out, self.max_content_light_level);
        write_u16(out, self.max_pic_average_light_level);
        proof {
            assert(out@ =~= before + Self::spec_serialize_body(self@));
            lemma_append_prefix(before, Self::spec_serialize_body(self@));
        }
        Ok(())
    }
}

/// Ambient viewing environment box
///
/// ISO/IEC 14496-12 - 12.1.8
#[derive(Debug, Clone, Copy, PartialEq, Eq, Structural)]
pub struct AmbientViewingEnvironmentBox {
    /// The illuminance of the viewing environment, in units of 0.0001 lux.
    pub ambient_illuminance: u32,
    /// The x chromaticity of the ambient light.
    pub ambient_light_x: u16,
    /// The y chromaticity of the ambient light.
    pub ambient_light_y: u16,
}

impl View for AmbientViewingEnvironmentBox {
    type V = AmbientViewingEnvironmentBox;

    open spec fn view(&self) -> AmbientViewingEnvironmentBox {
        *self
    }
}

impl IsoSized for AmbientViewingEnvironmentBox {
    open spec fn spec_size(&self) -> nat {
        add_header_size(8)
    }

    fn size(&self) -> (n: usize) {
        add_header_size_exec(8)
    }
}

impl BoxBody for AmbientViewingEnvironmentBox {
    open spec fn spec_box_type() -> [u8; 4] {
        [0x61u8, 0x6du8, 0x76u8, 0x65u8]
    }

    fn box_type() -> (r: [u8; 4]) {
        [0x61u8, 0x6du8, 0x76u8, 0x65u8]
    }

    open spec fn spec_parse_body(s: Seq<u8>) -> Result<AmbientViewingEnvironmentBox, IsoError> {
        if s.len() < 8 {
            Err(IsoError::UnexpectedEof)
        } else {
            Ok(AmbientViewingEnvironmentBox {
                ambient_illuminance: be_u32_at(s, 0),
                ambient_light_x: be_u16_at(s, 4),
                ambient_light_y: be_u16_at(s, 6),
            })
        }
    }

    open spec fn spec_writable(v: AmbientViewingEnvironmentBox) -> bool {
        true
    }

    open spec fn spec_serialize_body(v: AmbientViewingEnvironmentBox) -> Seq<u8> {
        u32_bytes(v.ambient_illuminance) + u16_bytes(v.ambient_light_x) + u16_bytes(v.ambient_light_y)
    }

    open spec fn spec_canonical(v: AmbientViewingEnvironmentBox) -> bool {
        true
    }

    proof fn lemma_box_type() {
        assert(Self::spec_box_type()[0] != spec_uuid_fourcc()[0] || Self::spec_box_type()[1] != spec_uuid_fourcc()[1]);
    }

    proof fn lemma_body_size(x: AmbientViewingEnvironmentBox) {
    }

    proof fn lemma_body_roundtrip(v: AmbientViewingEnvironmentBox) {
        let s = Self::spec_serialize_body(v);
        assert(s.subrange(0, 4) =~= u32_bytes(v.ambient_illuminance));
        lemma_u32_at(s, 0, v.ambient_illuminance);
        assert(s.subrange(4, 6) =~= u16_bytes(v.ambient_light_x));
        lemma_u16_at(s, 4, v.ambient_light_x);
        assert(s.subrange(6, 8) =~= u16_bytes(v.ambient_light_y));
        lemma_u16_at(s, 6, v.ambient_light_y);
    }

    fn parse_body(d: &[u8]) -> (r: Result<AmbientViewingEnvironmentBox, IsoError>) {
        if d.len() < 8 {
            return Err(IsoError::UnexpectedEof);
        }
        let ambient_illuminance = read_u32_at(d, 0);
        let ambient_light_x = read_u16_at(d, 4);
        let ambient_light_y = read_u16_at(d, 6);
        Ok(AmbientViewingEnvironmentBox { ambient_illuminance, ambient_light_x, ambient_light_y })
    }

    fn serialize_body(&self, out: &mut Vec<u8>) -> (r: Result<(), IsoError>) {
        let ghost before = out@;
        write_u32(out, self.ambient_illuminance);
        write_u16(out, self.ambient_light_x);
        write_u16(out, self.ambient_light_y);
        proof {
            assert(out@ =~= before + Self::spec_serialize_body(self@));
            lemma_append_prefix(before, Self::spec_serialize_body(self@));
        }
        Ok(())
    }
}

/// Mastering display colour volume box
///
/// ISO/IEC 14496-12 - 12.1.6
#[derive(Debug, Clone, Copy, PartialEq, Eq)]
pub struct MasteringDisplayColourVolumeBox {
    /// The x and y chromaticity of each primary of the mastering display.
    pub display_primaries: [[u16; 2]; 6],
    /// The x chromaticity of the white point.
    pub white_point_x: u16,
    /// The y chromaticity of the white point.
    pub white_point_y: u16,
    /// The largest luminance of the mastering display.
    pub max_display_mastering_luminance: u32,
    /// The smallest luminance of the mastering display.
    pub min_display_mastering_luminance: u32,
}

impl View for MasteringDisplayColourVolumeBox {
    type V = MasteringDisplayColourVolumeBox;

    open spec fn view(&self) -> MasteringDisplayColourVolumeBox {
        *self
    }
}

impl IsoSized for MasteringDisplayColourVolumeBox {
    open spec fn spec_size(&self) -> nat {
        add_header_size(36)
    }

    fn size(&self) -> (n: usize) {
        add_header_size_exec(36)
    }
}

impl BoxBody for MasteringDisplayColourVolumeBox {
    open spec fn spec_box_type() -> [u8; 4] {
        [0x6du8, 0x64u8, 0x63u8, 0x76u8]
    }

    fn box_type() -> (r: [u8; 4]) {
        [0x6du8, 0x64u8, 0x63u8, 0x76u8]
    }

    open spec fn spec_parse_body(s: Seq<u8>) -> Result<MasteringDisplayColourVolumeBox, IsoError> {
        if s.len() < 36 {
            Err(IsoError::UnexpectedEof)
        } else {
            Ok(MasteringDisplayColourVolumeBox {
                display_primaries: [
                    [be_u16_at(s, 0), be_u16_at(s, 2)],
                    [be_u16_at(s, 4), be_u16_at(s, 6)],
                    [be_u16_at(s, 8), be_u16_at(s, 10)],
                    [be_u16_at(s, 12), be_u16_at(s, 14)],
                    [be_u16_at(s, 16), be_u16_at(s, 18)],
                    [be_u16_at(s, 20), be_u16_at(s, 22)],
                ],
                white_point_x: be_u16_at(s, 24),
                white_point_y: be_u16_at(s, 26),
                max_display_mastering_luminance: be_u32_at(s, 28),
                min_display_mastering_luminance: be_u32_at(s, 32),
            })
        }
    }

    open spec fn spec_writable(v: MasteringDisplayColourVolumeBox) -> bool {
        true
    }

    open spec fn spec_serialize_body(v: MasteringDisplayColourVolumeBox) -> Seq<u8> {
        u16_bytes(v.display_primaries[0][0]) + u16_bytes(v.display_primaries[0][1]) + u16_bytes(v.display_primaries[1][0]) + u16_bytes(v.display_primaries[1][1]) + u16_bytes(v.display_primaries[2][0]) + u16_bytes(v.display_primaries[2][1]) + u16_bytes(v.display_primaries[3][0]) + u16_bytes(v.display_primaries[3][1]) + u16_bytes(v.display_primaries[4][0]) + u16_bytes(v.display_primaries[4][1]) + u16_bytes(v.display_primaries[5][0]) + u16_bytes(v.display_primaries[5][1]) + u16_bytes(v.white_point_x) + u16_bytes(v.white_point_y) + u32_bytes(v.max_display_mastering_luminance) + u32_bytes(v.min_display_mastering_luminance)
    }

    open spec fn spec_canonical(v: MasteringDisplayColourVolumeBox) -> bool {
        true
    }

    proof fn lemma_box_type() {
        assert(Self::spec_box_type()[0] != spec_uuid_fourcc()[0]);
    }

    proof fn lemma_body_size(x: MasteringDisplayColourVolumeBox) {
    }

    #[verifier::rlimit(40)]
    proof fn lemma_body_roundtrip(v: MasteringDisplayColourVolumeBox) {
        let s = Self::spec_serialize_body(v);
        assert(s.subrange(0, 2) =~= u16_bytes(v.display_primaries[0][0]));
        lemma_u16_at(s, 0, v.display_primaries[0][0]);
        assert(s.subrange(2, 4) =~= u16_bytes(v.display_primaries[0][1]));
        lemma_u16_at(s, 2, v.display_primaries[0][1]);
        assert(s.subrange(4, 6) =~= u16_bytes(v.display_primaries[1][0]));
        lemma_u16_at(s, 4, v.display_primaries[1][0]);
        assert(s.subrange(6, 8) =~= u16_bytes(v.display_primaries[1][1]));
        lemma_u16_at(s, 6, v.display_primaries[1][1]);
        assert(s.subrange(8, 10) =~= u16_bytes(v.display_primaries[2][0]));
        lemma_u16_at(s, 8, v.display_primaries[2][0]);
        assert(s.subrange(10, 12) =~= u16_bytes(v.display_primaries[2][1]));
        lemma_u16_at(s, 10, v.display_primaries[2][1]);
        assert(s.subrange(12, 14) =~= u16_bytes(v.display_primaries[3][0]));
        lemma_u16_at(s, 12, v.display_primaries[3][0]);
        assert(s.subrange(14, 16) =~= u16_bytes(v.display_primaries[3][1]));
        lemma_u16_at(s, 14, v.display_primaries[3][1]);
        assert(s.subrange(16, 18) =~= u16_bytes(v.display_primaries[4][0]));
        lemma_u16_at(s, 16, v.display_primaries[4][0]);
        assert(s.subrange(18, 20) =~= u16_bytes(v.display_primaries[4][1]));
        lemma_u16_at(s, 18, v.display_primaries[4][1]);
        assert(s.subrange(20, 22) =~= u16_bytes(v.display_primaries[5][0]));
        lemma_u16_at(s, 20, v.display_primaries[5][0]);
        assert(s.subrange(22, 24) =~= u16_bytes(v.display_primaries[5][1]));
        lemma_u16_at(s, 22, v.display_primaries[5][1]);
        assert(s.subrange(24, 26) =~= u16_bytes(v.white_point_x));
        lemma_u16_at(s, 24, v.white_point_x);
        assert(s.subrange(26, 28) =~= u16_bytes(v.white_point_y));
        lemma_u16_at(s, 26, v.white_point_y);
        assert(s.subrange(28, 32) =~= u32_bytes(v.max_display_mastering_luminance));
        lemma_u32_at(s, 28, v.max_display_mastering_luminance);
        assert(s.subrange(32, 36) =~= u32_bytes(v.min_display_mastering_luminance));
        lemma_u32_at(s, 32, v.min_display_mastering_luminance);
        assert(Self::spec_parse_body(s).unwrap().display_primaries[0] =~= v.display_primaries[0]);
        assert(Self::spec_parse_body(s).unwrap().display_primaries[1] =~= v.display_primaries[1]);
        assert(Self::spec_parse_body(s).unwrap().display_primaries[2] =~= v.display_primaries[2]);
        assert(Self::spec_parse_body(s).unwrap().display_primaries[3] =~= v.display_primaries[3]);
        assert(Self::spec_parse_body(s).unwrap().display_primaries[4] =~= v.display_primaries[4]);
        assert(Self::spec_parse_body(s).unwrap().display_primaries[5] =~= v.display_primaries[5]);
        assert(Self::spec_parse_body(s).unwrap().display_primaries =~= v.display_primaries);
    }

    fn parse_body(d: &[u8]) -> (r: Result<MasteringDisplayColourVolumeBox, IsoError>) {
        if d.len() < 36 {
            return Err(IsoError::UnexpectedEof);
        }
        let display_primaries = [
            [read_u16_at(d, 0), read_u16_at(d, 2)],
            [read_u16_at(d, 4), read_u16_at(d, 6)],
            [read_u16_at(d, 8), read_u16_at(d, 10)],
            [read_u16_at(d, 12), read_u16_at(d, 14)],
            [read_u16_at(d, 16), read_u16_at(d, 18)],
            [read_u16_at(d, 20), read_u16_at(d, 22)],
        ];
        let r = MasteringDisplayColourVolumeBox {
            display_primaries,
            white_point_x: read_u16_at(d, 24),
            white_point_y: read_u16_at(d, 26),
            max_display_mastering_luminance: read_u32_at(d, 28),
            min_display_mastering_luminance: read_u32_at(d, 32),
        };
        proof {
            assert(r.display_primaries =~= Self::spec_parse_body(d@).unwrap().display_primaries);
        }
        Ok(r)
    }

    fn serialize_body(&self, out: &mut Vec<u8>) -> (r: Result<(), IsoError>) {
        let ghost before = out@;
        write_u16(out, self.display_primaries[0][0]);
        write_u16(out, self.display_primaries[0][1]);
        write_u16(out, self.display_primaries[1][0]);
        write_u16(out, self.display_primaries[1][1]);
        write_u16(out, self.display_primaries[2][0]);
        write_u16(out, self.display_primaries[2][1]);
        write_u16(out, self.display_primaries[3][0]);
        write_u16(out, self.display_primaries[3][1]);
        write_u16(out, self.display_primaries[4][0]);
        write_u16(out, self.display_primaries[4][1]);
        write_u16(out, self.display_primaries[5][0]);
        write_u16(out, self.display_primaries[5][1]);
        write_u16(out, self.white_point_x);
        write_u16(out, self.white_point_y);
        write_u32(out, self.max_display_mastering_luminance);
        write_u32(out, self.min_display_mastering_luminance);
        proof {
            assert(out@ =~= before + Self::spec_serialize_body(self@));
            lemma_append_prefix(before, Self::spec_serialize_body(self@));
        }
        Ok(())
    }
}


impl Default for PixelAspectRatioBox {
    /// Square pixels.
    fn default() -> (r: PixelAspectRatioBox)
        ensures
            r.h_spacing == 1 && r.v_spacing == 1,
    {
        PixelAspectRatioBox { h_spacing: 1, v_spacing: 1 }
    }
}

/// Colour information of type `nclx`: the colour description of an elementary stream.
///
/// ISO/IEC 14496-12 - 12.1.5
#[derive(Debug, Clone, Copy, PartialEq, Eq, Structural)]
pub struct NclxColourInformation {
    /// The chromaticity of the primaries (ISO/IEC 23091-2).
    pub colour_primaries: u16,
    /// The opto-electronic transfer characteristic (ISO/IEC 23091-2).
    pub transfer_characteristics: u16,
    /// The matrix from RGB to luma and chroma (ISO/IEC 23091-2).
    pub matrix_coefficients: u16,
    /// Whether the samples use the full range of their values.
    pub full_range_flag: bool,
}

impl View for NclxColourInformation {
    type V = NclxColourInformation;

    open spec fn view(&self) -> NclxColourInformation {
        *self
    }
}

impl IsoSized for NclxColourInformation {
    open spec fn spec_size(&self) -> nat {
        7
    }

    fn size(&self) -> (n: usize) {
        2 + 2 + 2 + 1
    }
}

impl Wire for NclxColourInformation {
    /// Three 16-bit codes, then the flag in the top bit of a byte.
    open spec fn spec_parse(s: Seq<u8>) -> SpecParse<NclxColourInformation> {
        if s.len() < 7 {
            Err(IsoError::UnexpectedEof)
        } else {
            Ok((
                NclxColourInformation {
                    colour_primaries: be_u16_at(s, 0),
                    transfer_characteristics: be_u16_at(s, 2),
                    matrix_coefficients: be_u16_at(s, 4),
                    full_range_flag: s[6] >= 0x80,
                },
                7,
            ))
        }
    }

    open spec fn spec_writable(v: NclxColourInformation) -> bool {
        true
    }

    open spec fn spec_serialize(v: NclxColourInformation) -> Seq<u8> {
        u16_bytes(v.colour_primaries) + u16_bytes(v.transfer_characteristics) + u16_bytes(
            v.matrix_coefficients,
        ) + seq![if v.full_range_flag { 0x80u8 } else { 0u8 }]
    }

    open spec fn spec_canonical(v: NclxColourInformation) -> bool {
        true
    }

    proof fn lemma_parse_len(s: Seq<u8>) {
    }

    proof fn lemma_size(x: NclxColourInformation) {
    }

    proof fn lemma_roundtrip(v: NclxColourInformation, rest: Seq<u8>) {
        let s = Self::spec_serialize(v) + rest;
        assert(s.subrange(0, 2) =~= u16_bytes(v.colour_primaries));
        lemma_u16_at(s, 0, v.colour_primaries);
        assert(s.subrange(2, 4) =~= u16_bytes(v.transfer_characteristics));
        lemma_u16_at(s, 2, v.transfer_characteristics);
        assert(s.subrange(4, 6) =~= u16_bytes(v.matrix_coefficients));
        lemma_u16_at(s, 4, v.matrix_coefficients);
        assert(s[6] == (if v.full_range_flag { 0x80u8 } else { 0u8 }));
    }

    fn parse(data: &[u8], pos: usize) -> (r: Result<(NclxColourInformation, usize), IsoError>) {
        if data.len() - pos < 7 {
            return Err(IsoError::UnexpectedEof);
        }
        let colour_primaries = read_u16_at(data, pos);
        let transfer_characteristics = read_u16_at(data, pos + 2);
        let matrix_coefficients = read_u16_at(data, pos + 4);
        let full_range_flag = data[pos + 6] >> 7u8 != 0;
        proof {
            let b = data[pos + 6];
            assert((b >> 7u8 != 0) == (b >= 0x80)) by (bit_vector);
        }
        Ok((
            NclxColourInformation {
                colour_primaries,
                transfer_characteristics,
                matrix_coefficients,
                full_range_flag,
            },
            pos + 7,
        ))
    }

    fn serialize(&self, out: &mut Vec<u8>) -> (r: Result<(), IsoError>) {
        let ghost before = out@;
        write_u16(out, self.colour_primaries);
        write_u16(out, self.transfer_characteristics);
        write_u16(out, self.matrix_coefficients);
        write_u8(out, if self.full_range_flag { 0x80u8 } else { 0u8 });
        proof {
            assert(out@ =~= before + Self::spec_serialize(self@));
            lemma_append_prefix(before, Self::spec_serialize(self@));
        }
        Ok(())
    }
}

/// Content colour volume box
///
/// ISO/IEC 14496-12 - 12.1.7
#[derive(Debug, Clone, Copy, PartialEq, Eq)]
pub struct ContentColourVolumeBox {
    /// Reserved bit.
    pub reserved1: bool,
    /// Reserved bit.
    pub reserved2: bool,
    /// The two reserved low bits of the flag byte.
    pub ccv_reserved_zero_2bits: u8,
    /// The x and y chromaticity of each of the three primaries.
    pub ccv_primaries: Option<[[i32; 2]; 3]>,
    /// The smallest luminance value.
    pub ccv_min_luminance_value: Option<u32>,
    /// The largest luminance value.
    pub ccv_max_luminance_value: Option<u32>,
    /// The average luminance value.
    pub ccv_avg_luminance_value: Option<u32>,
}

impl View for ContentColourVolumeBox {
    type V = ContentColourVolumeBox;

    open spec fn view(&self) -> ContentColourVolumeBox {
        *self
    }
}

/// The flag byte: the two reserved bits, one bit for each optional field, then the
/// two low bits of the reserved field.
pub open spec fn cclv_flags(v: ContentColourVolumeBox) -> u8 {
    ((if v.reserved1 { 0x80int } else { 0 }) + (if v.reserved2 { 0x40int } else { 0 }) + (
    if v.ccv_primaries is Some { 0x20int } else { 0 }) + (if v.ccv_min_luminance_value is Some {
        0x10int
    } else {
        0
    }) + (if v.ccv_max_luminance_value is Some { 0x08int } else { 0 }) + (
    if v.ccv_avg_luminance_value is Some { 0x04int } else { 0 }) + v.ccv_reserved_zero_2bits % 4) as u8
}

/// The bit `k` (0 for the lowest) of a byte.
pub open spec fn bit_of(b: u8, k: nat) -> bool {
    (b as nat / pow2(k)) % 2 == 1
}

/// The six primaries' coordinates read at offset `i`.
pub open spec fn primaries_at(s: Seq<u8>, i: int) -> [[i32; 2]; 3] {
    [
        [i32_of(be_u32_at(s, i)), i32_of(be_u32_at(s, i + 4))],
        [i32_of(be_u32_at(s, i + 8)), i32_of(be_u32_at(s, i + 12))],
        [i32_of(be_u32_at(s, i + 16)), i32_of(be_u32_at(s, i + 20))],
    ]
}

/// The bytes of the six primaries' coordinates.
pub open spec fn primaries_bytes(p: [[i32; 2]; 3]) -> Seq<u8> {
    u32_bytes(u32_of(p[0][0])) + u32_bytes(u32_of(p[0][1])) + u32_bytes(u32_of(p[1][0])) + u32_bytes(
        u32_of(p[1][1]),
    ) + u32_bytes(u32_of(p[2][0])) + u32_bytes(u32_of(p[2][1]))
}

/// An optional 32-bit value at offset `i`, present when `present`.
pub open spec fn opt_u32_at(s: Seq<u8>, i: int, present: bool) -> Option<u32> {
    if present { Some(be_u32_at(s, i)) } else { None }
}

pub open spec fn opt_u32_bytes(v: Option<u32>) -> Seq<u8> {
    match v {
        Some(x) => u32_bytes(x),
        None => Seq::empty(),
    }
}

/// Reading the payload of a content colour volume box.
pub open spec fn cclv_parse(s: Seq<u8>) -> Result<ContentColourVolumeBox, IsoError> {
    if s.len() < 1 {
        Err(IsoError::UnexpectedEof)
    } else {
        let b = s[0];
        let p0: int = 1;
        let p1: int = if bit_of(b, 5) { p0 + 24 } else { p0 };
        let p2: int = if bit_of(b, 4) { p1 + 4 } else { p1 };
        let p3: int = if bit_of(b, 3) { p2 + 4 } else { p2 };
        let p4: int = if bit_of(b, 2) { p3 + 4 } else { p3 };
        if s.len() < p4 {
            Err(IsoError::UnexpectedEof)
        } else {
            Ok(
                ContentColourVolumeBox {
                    reserved1: bit_of(b, 7),
                    reserved2: bit_of(b, 6),
                    ccv_reserved_zero_2bits: b % 4,
                    ccv_primaries: if bit_of(b, 5) { Some(primaries_at(s, p0)) } else { None },
                    ccv_min_luminance_value: opt_u32_at(s, p1, bit_of(b, 4)),
                    ccv_max_luminance_value: opt_u32_at(s, p2, bit_of(b, 3)),
                    ccv_avg_luminance_value: opt_u32_at(s, p3, bit_of(b, 2)),
                },
            )
        }
    }
}

/// The bytes of the payload of a content colour volume box.
pub open spec fn cclv_serialize(v: ContentColourVolumeBox) -> Seq<u8> {
    seq![cclv_flags(v)] + (match v.ccv_primaries {
        Some(p) => primaries_bytes(p),
        None => Seq::empty(),
    }) + opt_u32_bytes(v.ccv_min_luminance_value) + opt_u32_bytes(v.ccv_max_luminance_value)
        + opt_u32_bytes(v.ccv_avg_luminance_value)
}

pub proof fn lemma_cclv_flags(v: ContentColourVolumeBox)
    ensures
        bit_of(cclv_flags(v), 7) == v.reserved1,
        bit_of(cclv_flags(v), 6) == v.reserved2,
        bit_of(cclv_flags(v), 5) == v.ccv_primaries is Some,
        bit_of(cclv_flags(v), 4) == v.ccv_min_luminance_value is Some,
        bit_of(cclv_flags(v), 3) == v.ccv_max_luminance_value is Some,
        bit_of(cclv_flags(v), 2) == v.ccv_avg_luminance_value is Some,
        cclv_flags(v) % 4 == v.ccv_reserved_zero_2bits % 4,
{
    vstd::arithmetic::power2::lemma2_to64();
    let b = cclv_flags(v) as int;
    let r = (v.ccv_reserved_zero_2bits % 4) as int;
    let a: int = if v.reserved1 { 1 } else { 0 };
    let c: int = if v.reserved2 { 1 } else { 0 };
    let d: int = if v.ccv_primaries is Some { 1 } else { 0 };
    let e: int = if v.ccv_min_luminance_value is Some { 1 } else { 0 };
    let f: int = if v.ccv_max_luminance_value is Some { 1 } else { 0 };
    let g: int = if v.ccv_avg_luminance_value is Some { 1 } else { 0 };
    assert(b == a * 128 + c * 64 + d * 32 + e * 16 + f * 8 + g * 4 + r);
}

pub proof fn lemma_primaries(s: Seq<u8>, i: int, p: [[i32; 2]; 3])
    requires
        0 <= i,
        i + 24 <= s.len(),
        s.subrange(i, i + 24) == primaries_bytes(p),
    ensures
        primaries_at(s, i) == p,
{
    let t = s.subrange(i, i + 24);
    assert(t.subrange(0, 4) =~= u32_bytes(u32_of(p[0][0])));
    lemma_u32_at(t, 0, u32_of(p[0][0]));
    assert(t.subrange(4, 8) =~= u32_bytes(u32_of(p[0][1])));
    lemma_u32_at(t, 4, u32_of(p[0][1]));
    assert(t.subrange(8, 12) =~= u32_bytes(u32_of(p[1][0])));
    lemma_u32_at(t, 8, u32_of(p[1][0]));
    assert(t.subrange(12, 16) =~= u32_bytes(u32_of(p[1][1])));
    lemma_u32_at(t, 12, u32_of(p[1][1]));
    assert(t.subrange(16, 20) =~= u32_bytes(u32_of(p[2][0])));
    lemma_u32_at(t, 16, u32_of(p[2][0]));
    assert(t.subrange(20, 24) =~= u32_bytes(u32_of(p[2][1])));
    lemma_u32_at(t, 20, u32_of(p[2][1]));
    lemma_i32_roundtrip(p[0][0]);
    lemma_i32_roundtrip(p[0][1]);
    lemma_i32_roundtrip(p[1][0]);
    lemma_i32_roundtrip(p[1][1]);
    lemma_i32_roundtrip(p[2][0]);
    lemma_i32_roundtrip(p[2][1]);
    assert(be_u32_at(s, i + 4) == be_u32_at(t, 4));
    assert(be_u32_at(s, i + 8) == be_u32_at(t, 8));
    assert(be_u32_at(s, i + 12) == be_u32_at(t, 12));
    assert(be_u32_at(s, i + 16) == be_u32_at(t, 16));
    assert(be_u32_at(s, i + 20) == be_u32_at(t, 20));
    assert(be_u32_at(s, i + 0) == be_u32_at(t, 0));
    assert(primaries_at(s, i)[0] =~= p[0]);
    assert(primaries_at(s, i)[1] =~= p[1]);
    assert(primaries_at(s, i)[2] =~= p[2]);
    assert(primaries_at(s, i) =~= p);
}

pub proof fn lemma_opt_u32(s: Seq<u8>, i: int, v: Option<u32>)
    requires
        0 <= i,
        i + opt_u32_bytes(v).len() <= s.len(),
        s.subrange(i, i + opt_u32_bytes(v).len()) == opt_u32_bytes(v),
    ensures
        opt_u32_at(s, i, v is Some) == v,
{
    if let Some(x) = v {
        lemma_u32_at(s, i, x);
    }
}

impl IsoSized for ContentColourVolumeBox {
    open spec fn spec_size(&self) -> nat {
        add_header_size(
            1 + (if self.ccv_primaries is Some { 24nat } else { 0 }) + (if self.ccv_min_luminance_value is Some {
                4nat
            } else {
                0
            }) + (if self.ccv_max_luminance_value is Some { 4nat } else { 0 }) + (
            if self.ccv_avg_luminance_value is Some { 4nat } else { 0 }),
        )
    }

    fn size(&self) -> (n: usize) {
        let mut size: usize = 1;
        if self.ccv_primaries.is_some() {
            size = size + 24;
        }
        if self.ccv_min_luminance_value.is_some() {
            size = size + 4;
        }
        if self.ccv_max_luminance_value.is_some() {
            size = size + 4;
        }
        if self.ccv_avg_luminance_value.is_some() {
            size = size + 4;
        }
        add_header_size_exec(size)
    }
}

fn read_bit(b: u8, k: u8) -> (r: bool)
    requires
        k < 8,
    ensures
        r == bit_of(b, k as nat),
{
    let r = (b >> k) & 1 == 1;
    proof {
        vstd::arithmetic::power2::lemma2_to64();
        assert(((b >> k) & 1 == 1) == ((b as nat / pow2(k as nat)) % 2 == 1)) by {
            vstd::bits::lemma_u8_shr_is_div(b, k);
            assert((b >> k) & 1 == (b >> k) % 2) by (bit_vector);
        }
    }
    r
}

fn read_opt_u32(data: &[u8], pos: usize, present: bool) -> (r: Option<u32>)
    requires
        present ==> pos + 4 <= data@.len(),
    ensures
        r == opt_u32_at(data@, pos as int, present),
{
    if present {
        Some(read_u32_at(data, pos))
    } else {
        None
    }
}

fn cclv_flag_byte(v: &ContentColourVolumeBox) -> (r: u8)
    ensures
        r == cclv_flags(*v),
{
    let mut flags: u8 = v.ccv_reserved_zero_2bits % 4;
    if v.reserved1 {
        flags = flags + 0x80;
    }
    if v.reserved2 {
        flags = flags + 0x40;
    }
    if v.ccv_primaries.is_some() {
        flags = flags + 0x20;
    }
    if v.ccv_min_luminance_value.is_some() {
        flags = flags + 0x10;
    }
    if v.ccv_max_luminance_value.is_some() {
        flags = flags + 0x08;
    }
    if v.ccv_avg_luminance_value.is_some() {
        flags = flags + 0x04;
    }
    flags
}

fn write_primaries(out: &mut Vec<u8>, p: [[i32; 2]; 3])
    ensures
        final(out)@ == old(out)@ + primaries_bytes(p),
{
    let ghost before = out@;
    write_u32(out, from_i32(p[0][0]));
    write_u32(out, from_i32(p[0][1]));
    write_u32(out, from_i32(p[1][0]));
    write_u32(out, from_i32(p[1][1]));
    write_u32(out, from_i32(p[2][0]));
    write_u32(out, from_i32(p[2][1]));
    assert(out@ =~= before + primaries_bytes(p));
}

fn write_opt_u32(out: &mut Vec<u8>, v: Option<u32>)
    ensures
        final(out)@ == old(out)@ + opt_u32_bytes(v),
{
    match v {
        Some(x) => write_u32(out, x),
        None => {
            assert(out@ =~= out@ + Seq::<u8>::empty());
        },
    }
}

impl BoxBody for ContentColourVolumeBox {
    open spec fn spec_box_type() -> [u8; 4] {
        [0x63u8, 0x63u8, 0x6cu8, 0x76u8]
    }

    fn box_type() -> (r: [u8; 4]) {
        [0x63u8, 0x63u8, 0x6cu8, 0x76u8]
    }

    open spec fn spec_parse_body(s: Seq<u8>) -> Result<ContentColourVolumeBox, IsoError> {
        cclv_parse(s)
    }

    open spec fn spec_writable(v: ContentColourVolumeBox) -> bool {
        true
    }

    open spec fn spec_serialize_body(v: ContentColourVolumeBox) -> Seq<u8> {
        cclv_serialize(v)
    }

    /// The reserved field fits in its two bits.
    open spec fn spec_canonical(v: ContentColourVolumeBox) -> bool {
        v.ccv_reserved_zero_2bits < 4
    }

    proof fn lemma_box_type() {
        assert(Self::spec_box_type()[0] != spec_uuid_fourcc()[0]);
    }

    proof fn lemma_body_size(x: ContentColourVolumeBox) {
    }

    #[verifier::rlimit(80)]
    proof fn lemma_body_roundtrip(v: ContentColourVolumeBox) {
        lemma_cclv_flags(v);
        let pb: Seq<u8> = match v.ccv_primaries {
            Some(p) => primaries_bytes(p),
            None => Seq::empty(),
        };
        let a = opt_u32_bytes(v.ccv_min_luminance_value);
        let b = opt_u32_bytes(v.ccv_max_luminance_value);
        let c = opt_u32_bytes(v.ccv_avg_luminance_value);
        let s = cclv_serialize(v);
        let p1: int = 1 + pb.len() as int;
        let p2: int = p1 + a.len();
        let p3: int = p2 + b.len();
        assert(s =~= seq![cclv_flags(v)] + pb + a + b + c);
        assert(s[0] == cclv_flags(v));
        if let Some(p) = v.ccv_primaries {
            assert(primaries_at(s, 1) == p) by {
                assert(s.subrange(1, 25) =~= primaries_bytes(p));
                lemma_primaries(s, 1, p);
            }
        }
        assert(opt_u32_at(s, p1, v.ccv_min_luminance_value is Some) == v.ccv_min_luminance_value) by {
            assert(s.subrange(p1, p1 + a.len()) =~= a);
            lemma_opt_u32(s, p1, v.ccv_min_luminance_value);
        }
        assert(opt_u32_at(s, p2, v.ccv_max_luminance_value is Some) == v.ccv_max_luminance_value) by {
            assert(s.subrange(p2, p2 + b.len()) =~= b);
            lemma_opt_u32(s, p2, v.ccv_max_luminance_value);
        }
        assert(opt_u32_at(s, p3, v.ccv_avg_luminance_value is Some) == v.ccv_avg_luminance_value) by {
            assert(s.subrange(p3, p3 + c.len()) =~= c);
            lemma_opt_u32(s, p3, v.ccv_avg_luminance_value);
        }
    }

    fn parse_body(d: &[u8]) -> (r: Result<ContentColourVolumeBox, IsoError>) {
        if d.len() < 1 {
            return Err(IsoError::UnexpectedEof);
        }
        let b = d[0];
        let has_primaries = read_bit(b, 5);
        let has_min = read_bit(b, 4);
        let has_max = read_bit(b, 3);
        let has_avg = read_bit(b, 2);
        let p1: usize = if has_primaries { 25 } else { 1 };
        let p2: usize = if has_min { p1 + 4 } else { p1 };
        let p3: usize = if has_max { p2 + 4 } else { p2 };
        let p4: usize = if has_avg { p3 + 4 } else { p3 };
        if d.len() < p4 {
            return Err(IsoError::UnexpectedEof);
        }
        let ccv_primaries = if has_primaries {
            Some(
                [
                    [to_i32(read_u32_at(d, 1)), to_i32(read_u32_at(d, 5))],
                    [to_i32(read_u32_at(d, 9)), to_i32(read_u32_at(d, 13))],
                    [to_i32(read_u32_at(d, 17)), to_i32(read_u32_at(d, 21))],
                ],
            )
        } else {
            None
        };
        let r = ContentColourVolumeBox {
            reserved1: read_bit(b, 7),
            reserved2: read_bit(b, 6),
            ccv_reserved_zero_2bits: b % 4,
            ccv_primaries,
            ccv_min_luminance_value: read_opt_u32(d, p1, has_min),
            ccv_max_luminance_value: read_opt_u32(d, p2, has_max),
            ccv_avg_luminance_value: read_opt_u32(d, p3, has_avg),
        };
        proof {
            if has_primaries {
                assert(ccv_primaries.unwrap() =~= primaries_at(d@, 1));
            }
        }
        Ok(r)
    }

    fn serialize_body(&self, out: &mut Vec<u8>) -> (r: Result<(), IsoError>) {
        let ghost before = out@;
        write_u8(out, cclv_flag_byte(self));
        match self.ccv_primaries {
            Some(p) => write_primaries(out, p),
            None => {},
        }
        write_opt_u32(out, self.ccv_min_luminance_value);
        write_opt_u32(out, self.ccv_max_luminance_value);
        write_opt_u32(out, self.ccv_avg_luminance_value);
        proof {
            assert(out@ =~= before + cclv_serialize(self@));
            lemma_append_prefix(before, cclv_serialize(self@));
        }
        Ok(())
    }
}


/// The colour type of on-screen colour.
pub open spec fn nclx_type() -> [u8; 4] {
    [0x6eu8, 0x63u8, 0x6cu8, 0x78u8]
}

/// The colour type of a restricted ICC profile.
pub open spec fn ricc_type() -> [u8; 4] {
    [0x72u8, 0x49u8, 0x43u8, 0x43u8]
}

/// The colour type of an unrestricted ICC profile.
pub open spec fn prof_type() -> [u8; 4] {
    [0x70u8, 0x72u8, 0x6fu8, 0x66u8]
}

/// Colour information in the [`ColourInformationBox`].
#[derive(Debug)]
pub enum ColourInformation {
    /// On-screen colour.
    Nclx(NclxColourInformation),
    /// Restricted ICC profile.
    RIcc {
        /// The ICC profile.
        icc_profile: Vec<u8>,
    },
    /// Unrestricted ICC profile.
    Prof {
        /// The ICC profile.
        icc_profile: Vec<u8>,
    },
    /// Other colour information.
    Other {
        /// The colour type.
        colour_type: [u8; 4],
        /// The colour info data.
        data: Vec<u8>,
    },
}

/// The model of a [`ColourInformation`].
pub enum ColourInformationModel {
    Nclx(NclxColourInformation),
    RIcc { icc_profile: Seq<u8> },
    Prof { icc_profile: Seq<u8> },
    Other { colour_type: [u8; 4], data: Seq<u8> },
}

impl View for ColourInformation {
    type V = ColourInformationModel;

    open spec fn view(&self) -> ColourInformationModel {
        match self {
            ColourInformation::Nclx(i) => ColourInformationModel::Nclx(*i),
            ColourInformation::RIcc { icc_profile } => ColourInformationModel::RIcc { icc_profile: icc_profile@ },
            ColourInformation::Prof { icc_profile } => ColourInformationModel::Prof { icc_profile: icc_profile@ },
            ColourInformation::Other { colour_type, data } => ColourInformationModel::Other {
                colour_type: *colour_type,
                data: data@,
            },
        }
    }
}

/// Reading colour information that fills `s`: the colour type, then on-screen colour
/// fields for `nclx`, or all the rest of the bytes for any other type.
pub open spec fn colour_parse(s: Seq<u8>) -> Result<ColourInformationModel, IsoError> {
    if s.len() < 4 {
        Err(IsoError::UnexpectedEof)
    } else {
        let t = fourcc_at(s, 0);
        if t == nclx_type() {
            match NclxColourInformation::spec_parse(s.skip(4)) {
                Ok((v, _)) => Ok(ColourInformationModel::Nclx(v)),
                Err(e) => Err(e),
            }
        } else if t == ricc_type() {
            Ok(ColourInformationModel::RIcc { icc_profile: s.skip(4) })
        } else if t == prof_type() {
            Ok(ColourInformationModel::Prof { icc_profile: s.skip(4) })
        } else {
            Ok(ColourInformationModel::Other { colour_type: t, data: s.skip(4) })
        }
    }
}

/// The bytes of colour information: the colour type, then its fields or data.
pub open spec fn colour_bytes(v: ColourInformationModel) -> Seq<u8> {
    match v {
        ColourInformationModel::Nclx(i) => nclx_type()@ + NclxColourInformation::spec_serialize(i),
        ColourInformationModel::RIcc { icc_profile } => ricc_type()@ + icc_profile,
        ColourInformationModel::Prof { icc_profile } => prof_type()@ + icc_profile,
        ColourInformationModel::Other { colour_type, data } => colour_type@ + data,
    }
}

/// Colour information that reads back as itself: on-screen colour whose flag byte
/// holds only the flag, or another type than the three known ones.
pub open spec fn colour_canonical(v: ColourInformationModel) -> bool {
    match v {
        ColourInformationModel::Nclx(i) => NclxColourInformation::spec_canonical(i),
        ColourInformationModel::Other { colour_type, .. } => colour_type != nclx_type() && colour_type
            != ricc_type() && colour_type != prof_type(),
        _ => true,
    }
}

/// The size of colour information.
pub open spec fn colour_size(v: ColourInformationModel) -> nat {
    match v {
        ColourInformationModel::Nclx(_) => 11,
        ColourInformationModel::RIcc { icc_profile } => 4 + icc_profile.len(),
        ColourInformationModel::Prof { icc_profile } => 4 + icc_profile.len(),
        ColourInformationModel::Other { data, .. } => 4 + data.len(),
    }
}

/// Written colour information reads back as itself, and is as long as its size.
pub proof fn lemma_colour_roundtrip(v: ColourInformationModel)
    requires
        colour_canonical(v),
    ensures
        colour_parse(colour_bytes(v)) == Ok::<ColourInformationModel, IsoError>(v),
        colour_bytes(v).len() == colour_size(v),
{
    broadcast use vstd::array::group_array_axioms;
    let s = colour_bytes(v);
    assert(nclx_type() != ricc_type() && nclx_type() != prof_type() && ricc_type() != prof_type()) by {
        assert(nclx_type()[0] != ricc_type()[0]);
        assert(nclx_type()[0] != prof_type()[0]);
        assert(ricc_type()[1] != prof_type()[1]);
    }
    match v {
        ColourInformationModel::Nclx(i) => {
            assert(s.subrange(0, 4) =~= nclx_type()@);
            lemma_fourcc_at(s, 0, nclx_type());
            assert(s.skip(4) =~= NclxColourInformation::spec_serialize(i) + Seq::<u8>::empty());
            NclxColourInformation::lemma_roundtrip(i, Seq::<u8>::empty());
            NclxColourInformation::lemma_size(i);
        },
        ColourInformationModel::RIcc { icc_profile } => {
            assert(s.subrange(0, 4) =~= ricc_type()@);
            lemma_fourcc_at(s, 0, ricc_type());
            assert(s.skip(4) =~= icc_profile);
        },
        ColourInformationModel::Prof { icc_profile } => {
            assert(s.subrange(0, 4) =~= prof_type()@);
            lemma_fourcc_at(s, 0, prof_type());
            assert(s.skip(4) =~= icc_profile);
        },
        ColourInformationModel::Other { colour_type, data } => {
            assert(s.subrange(0, 4) =~= colour_type@);
            lemma_fourcc_at(s, 0, colour_type);
            assert(s.skip(4) =~= data);
        },
    }
}

impl ColourInformation {
    /// Reads colour information that fills `data`.
    pub fn parse(data: &[u8]) -> (r: Result<ColourInformation, IsoError>)
        ensures
            match (colour_parse(data@), r) {
                (Ok(v), Ok(x)) => x@ == v,
                (Err(e), Err(f)) => e == f,
                _ => false,
            },
    {
        if data.len() < 4 {
            return Err(IsoError::UnexpectedEof);
        }
        let t = read_fourcc_at(data, 0);
        if fourcc_eq(t, [0x6eu8, 0x63u8, 0x6cu8, 0x78u8]) {
            let (i, _p) = NclxColourInformation::parse(data, 4)?;
            Ok(ColourInformation::Nclx(i))
        } else {
            let rest = vstd::slice::slice_to_vec(vstd::slice::slice_subrange(data, 4, data.len()));
            proof {
                assert(rest@ =~= data@.skip(4));
            }
            if fourcc_eq(t, [0x72u8, 0x49u8, 0x43u8, 0x43u8]) {
                Ok(ColourInformation::RIcc { icc_profile: rest })
            } else if fourcc_eq(t, [0x70u8, 0x72u8, 0x6fu8, 0x66u8]) {
                Ok(ColourInformation::Prof { icc_profile: rest })
            } else {
                Ok(ColourInformation::Other { colour_type: t, data: rest })
            }
        }
    }

    /// Writes the colour information.
    pub fn serialize(&self, out: &mut Vec<u8>)
        ensures
            final(out)@ == old(out)@ + colour_bytes(self@),
    {
        let ghost before = out@;
        match self {
            ColourInformation::Nclx(i) => {
                write_fourcc(out, [0x6eu8, 0x63u8, 0x6cu8, 0x78u8]);
                let _ = i.serialize(out);
            },
            ColourInformation::RIcc { icc_profile } => {
                write_fourcc(out, [0x72u8, 0x49u8, 0x43u8, 0x43u8]);
                write_bytes(out, icc_profile.as_slice());
            },
            ColourInformation::Prof { icc_profile } => {
                write_fourcc(out, [0x70u8, 0x72u8, 0x6fu8, 0x66u8]);
                write_bytes(out, icc_profile.as_slice());
            },
            ColourInformation::Other { colour_type, data } => {
                write_fourcc(out, *colour_type);
                write_bytes(out, data.as_slice());
            },
        }
        assert(out@ =~= before + colour_bytes(self@));
    }

    /// The size of the colour information.
    pub fn size(&self) -> (n: usize)
        requires
            colour_size(self@) <= usize::MAX,
        ensures
            n == colour_size(self@),
    {
        match self {
            ColourInformation::Nclx(_) => 11,
            ColourInformation::RIcc { icc_profile } => 4 + icc_profile.len(),
            ColourInformation::Prof { icc_profile } => 4 + icc_profile.len(),
            ColourInformation::Other { data, .. } => 4 + data.len(),
        }
    }
}

/// Colour information box
///
/// ISO/IEC 14496-12 - 12.1.5
#[derive(Debug)]
pub struct ColourInformationBox {
    /// The colour information.
    pub colour_info: ColourInformation,
}

impl View for ColourInformationBox {
    type V = ColourInformationModel;

    open spec fn view(&self) -> ColourInformationModel {
        self.colour_info@
    }
}

impl IsoSized for ColourInformationBox {
    open spec fn spec_size(&self) -> nat {
        add_header_size(colour_size(self@))
    }

    fn size(&self) -> (n: usize) {
        add_header_size_exec(self.colour_info.size())
    }
}

impl BoxBody for ColourInformationBox {
    open spec fn spec_box_type() -> [u8; 4] {
        [0x63u8, 0x6fu8, 0x6cu8, 0x72u8]
    }

    fn box_type() -> (r: [u8; 4]) {
        [0x63u8, 0x6fu8, 0x6cu8, 0x72u8]
    }

    /// The colour information.
    open spec fn spec_parse_body(s: Seq<u8>) -> Result<ColourInformationModel, IsoError> {
        colour_parse(s)
    }

    open spec fn spec_writable(v: ColourInformationModel) -> bool {
        true
    }

    open spec fn spec_serialize_body(v: ColourInformationModel) -> Seq<u8> {
        colour_bytes(v)
    }

    open spec fn spec_canonical(v: ColourInformationModel) -> bool {
        colour_canonical(v)
    }

    proof fn lemma_box_type() {
        assert(Self::spec_box_type()[0] != spec_uuid_fourcc()[0]);
    }

    proof fn lemma_body_size(x: ColourInformationBox) {
        lemma_colour_roundtrip(x@);
    }

    proof fn lemma_body_roundtrip(v: ColourInformationModel) {
        lemma_colour_roundtrip(v);
    }

    fn parse_body(d: &[u8]) -> (r: Result<ColourInformationBox, IsoError>) {
        let colour_info = ColourInformation::parse(d)?;
        Ok(ColourInformationBox { colour_info })
    }

    fn serialize_body(&self, out: &mut Vec<u8>) -> (r: Result<(), IsoError>) {
        let ghost before = out@;
        self.colour_info.serialize(out);
        proof {
            lemma_append_prefix(before, colour_bytes(self@));
        }
        Ok(())
    }
}


/// The pixel aspect ratio box body (ISO/IEC 14496-12 - 12.1.4): the horizontal spacing spelled by bytes 0..4, big-endian, then the vertical spacing by bytes 4..8.
pub proof fn lemma_pixel_aspect_ratio_layout(s: Seq<u8>)
    ensures
        s.len() < 8 ==> PixelAspectRatioBox::spec_parse_body(s) == Err::<PixelAspectRatioBox, IsoError>(IsoError::UnexpectedEof),
        s.len() >= 8 ==> (PixelAspectRatioBox::spec_parse_body(s) matches Ok(h) && h.h_spacing == crate::codec::be_int(s, 0, 4) && h.v_spacing == crate::codec::be_int(s, 4, 4)),
{
    if s.len() >= 8 {
        crate::codec::lemma_be_int_u32(s, 0);
        crate::codec::lemma_be_int_u32(s, 4);
    }
}

/// The clean aperture box body (ISO/IEC 14496-12 - 12.1.4): eight big-endian words in the order width numerator, width denominator, height numerator, height denominator, horizontal offset numerator and denominator, vertical offset numerator and denominator.
pub proof fn lemma_clean_aperture_layout(s: Seq<u8>)
    ensures
        s.len() < 32 ==> CleanApertureBox::spec_parse_body(s) == Err::<CleanApertureBox, IsoError>(IsoError::UnexpectedEof),
        s.len() >= 32 ==> (CleanApertureBox::spec_parse_body(s) matches Ok(h) && h.clean_aperture_width_n == crate::codec::be_int(s, 0, 4) && h.clean_aperture_width_d == crate::codec::be_int(s, 4, 4) && h.clean_aperture_height_n == crate::codec::be_int(s, 8, 4) && h.clean_aperture_height_d == crate::codec::be_int(s, 12, 4) && h.horiz_off_n == crate::codec::be_int(s, 16, 4) && h.horiz_off_d == crate::codec::be_int(s, 20, 4) && h.vert_off_n == crate::codec::be_int(s, 24, 4) && h.vert_off_d == crate::codec::be_int(s, 28, 4)),
{
    if s.len() >= 32 {
        crate::codec::lemma_be_int_u32(s, 0);
        crate::codec::lemma_be_int_u32(s, 4);
        crate::codec::lemma_be_int_u32(s, 8);
        crate::codec::lemma_be_int_u32(s, 12);
        crate::codec::lemma_be_int_u32(s, 16);
        crate::codec::lemma_be_int_u32(s, 20);
        crate::codec::lemma_be_int_u32(s, 24);
        crate::codec::lemma_be_int_u32(s, 28);
    }
}

/// The content light level box body: the maximum content light level spelled by bytes 0..2, big-endian, then the maximum picture average light level by bytes 2..4.
pub proof fn lemma_content_light_level_layout(s: Seq<u8>)
    ensures
        s.len() < 4 ==> ContentLightLevelBox::spec_parse_body(s) == Err::<ContentLightLevelBox, IsoError>(IsoError::UnexpectedEof),
        s.len() >= 4 ==> (ContentLightLevelBox::spec_parse_body(s) matches Ok(h) && h.max_content_light_level == crate::codec::be_int(s, 0, 2) && h.max_pic_average_light_level == crate::codec::be_int(s, 2, 2)),
{
    if s.len() >= 4 {
        crate::codec::lemma_be_int_u16(s, 0);
        crate::codec::lemma_be_int_u16(s, 2);
    }
}


/// The nclx colour information (ISO/IEC 14496-12 - 12.1.5) is seven bytes: the colour primaries spelled by bytes 0..2, big-endian, the transfer characteristics by 2..4, the matrix coefficients by 4..6, and the full range flag in the top bit of byte 6.
pub proof fn lemma_nclx_layout(s: Seq<u8>)
    ensures
        s.len() < 7 ==> NclxColourInformation::spec_parse(s) == Err::<(NclxColourInformation, int), IsoError>(IsoError::UnexpectedEof),
        s.len() >= 7 ==> (NclxColourInformation::spec_parse(s) matches Ok((h, n)) && n == 7 && h.colour_primaries == crate::codec::be_int(s, 0, 2) && h.transfer_characteristics == crate::codec::be_int(s, 2, 2) && h.matrix_coefficients == crate::codec::be_int(s, 4, 2) && h.full_range_flag == (s[6] >= 0x80)),
{
    if s.len() >= 7 {
        crate::codec::lemma_be_int_u16(s, 0);
        crate::codec::lemma_be_int_u16(s, 2);
        crate::codec::lemma_be_int_u16(s, 4);
    }
}


/// The mastering display colour volume body: six pairs of display primary coordinates (x then y) spelled by bytes 0..24, two bytes each, then the white point x and y by 24..26 and 26..28, the maximum luminance by 28..32 and the minimum luminance by 32..36.
pub proof fn lemma_mastering_display_layout(s: Seq<u8>)
    ensures
        s.len() < 36 ==> MasteringDisplayColourVolumeBox::spec_parse_body(s) == Err::<MasteringDisplayColourVolumeBox, IsoError>(IsoError::UnexpectedEof),
        s.len() >= 36 ==> (MasteringDisplayColourVolumeBox::spec_parse_body(s) matches Ok(h) && h.white_point_x == crate::codec::be_int(s, 24, 2) && h.white_point_y == crate::codec::be_int(s, 26, 2) && h.max_display_mastering_luminance == crate::codec::be_int(s, 28, 4) && h.min_display_mastering_luminance == crate::codec::be_int(s, 32, 4) && h.display_primaries[0][0] == crate::codec::be_int(s, 0, 2) && h.display_primaries[0][1] == crate::codec::be_int(s, 2, 2) && h.display_primaries[1][0] == crate::codec::be_int(s, 4, 2) && h.display_primaries[1][1] == crate::codec::be_int(s, 6, 2) && h.display_primaries[2][0] == crate::codec::be_int(s, 8, 2) && h.display_primaries[2][1] == crate::codec::be_int(s, 10, 2) && h.display_primaries[3][0] == crate::codec::be_int(s, 12, 2) && h.display_primaries[3][1] == crate::codec::be_int(s, 14, 2) && h.display_primaries[4][0] == crate::codec::be_int(s, 16, 2) && h.display_primaries[4][1] == crate::codec::be_int(s, 18, 2) && h.display_primaries[5][0] == crate::codec::be_int(s, 20, 2) && h.display_primaries[5][1] == crate::codec::be_int(s, 22, 2)),
{
    if s.len() >= 36 {
        crate::codec::lemma_be_int_u16(s, 24);
        crate::codec::lemma_be_int_u16(s, 26);
        crate::codec::lemma_be_int_u32(s, 28);
        crate::codec::lemma_be_int_u32(s, 32);
        crate::codec::lemma_be_int_u16(s, 0);
        crate::codec::lemma_be_int_u16(s, 2);
        crate::codec::lemma_be_int_u16(s, 4);
        crate::codec::lemma_be_int_u16(s, 6);
        crate::codec::lemma_be_int_u16(s, 8);
        crate::codec::lemma_be_int_u16(s, 10);
        crate::codec::lemma_be_int_u16(s, 12);
        crate::codec::lemma_be_int_u16(s, 14);
        crate::codec::lemma_be_int_u16(s, 16);
        crate::codec::lemma_be_int_u16(s, 18);
        crate::codec::lemma_be_int_u16(s, 20);
        crate::codec::lemma_be_int_u16(s, 22);
    }
}

/// The ambient viewing environment body: the ambient illuminance spelled by bytes 0..4, then the ambient light x and y by 4..6 and 6..8.
pub proof fn lemma_ambient_viewing_layout(s: Seq<u8>)
    ensures
        s.len() < 8 ==> AmbientViewingEnvironmentBox::spec_parse_body(s) == Err::<AmbientViewingEnvironmentBox, IsoError>(IsoError::UnexpectedEof),
        s.len() >= 8 ==> (AmbientViewingEnvironmentBox::spec_parse_body(s) matches Ok(h) && h.ambient_illuminance == crate::codec::be_int(s, 0, 4) && h.ambient_light_x == crate::codec::be_int(s, 4, 2) && h.ambient_light_y == crate::codec::be_int(s, 6, 2)),
{
    if s.len() >= 8 {
        crate::codec::lemma_be_int_u32(s, 0);
        crate::codec::lemma_be_int_u16(s, 4);
        crate::codec::lemma_be_int_u16(s, 6);
    }
}

} // verus!
