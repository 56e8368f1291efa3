//! The sample group description box and its entries (ISO/IEC 14496-12 - 8.9.3).

use vstd::prelude::*;

use crate::boxes::sample_groups::{
    alst_parse, alst_serialize, lemma_alst_roundtrip, AlternativeStartupEntry, AlternativeStartupEntryModel,
    AudioPreRollEntry, CleanApertureEntry, PixelAspectRatioEntry, RateShareEntry, RateShareEntryModel,
    RateShareEntryOperationPoint, RollRecoveryEntry, SAPEntry, SampleToMetadataItemEntry,
    SampleToMetadataItemEntryModel, TemporalLevelEntry, VisualDRAPEntry, VisualRandomAccessEntry,
};
use crate::codec::{
    be_u24_at, be_u32_at, fourcc_at, fourcc_eq, lemma_append_prefix, lemma_fourcc_at, lemma_u24_at,
    lemma_u32_at, read_fourcc_at, read_u24_at, read_u32_at, u24_bytes, u32_bytes, write_bytes, write_fourcc,
    write_u24, write_u32, write_u8, IsoError, SpecParse,
};
use crate::frame::{add_header_size, add_header_size_exec, BoxBody};
use crate::header::{spec_uuid_fourcc, FullBoxHeader};
use crate::wire::{size_seq, views, IsoSized, Wire};

verus! {

/// The kind of entry that a grouping type selects: 0 to 10 for the entries that this
/// library reads, 11 for any other type.
pub open spec fn sgpd_kind(gt: [u8; 4]) -> nat {
    if gt == [0x72u8, 0x6fu8, 0x6cu8, 0x6cu8] {
        0
    } else if gt == [0x70u8, 0x72u8, 0x6fu8, 0x6cu8] {
        1
    } else if gt == [0x72u8, 0x61u8, 0x73u8, 0x68u8] {
        2
    } else if gt == [0x61u8, 0x6cu8, 0x73u8, 0x74u8] {
        3
    } else if gt == [0x72u8, 0x61u8, 0x70u8, 0x20u8] {
        4
    } else if gt == [0x74u8, 0x65u8, 0x6cu8, 0x65u8] {
        5
    } else if gt == [0x73u8, 0x61u8, 0x70u8, 0x20u8] {
        6
    } else if gt == [0x73u8, 0x74u8, 0x6du8, 0x69u8] {
        7
    } else if gt == [0x64u8, 0x72u8, 0x61u8, 0x70u8] {
        8
    } else if gt == [0x70u8, 0x61u8, 0x73u8, 0x72u8] {
        9
    } else if gt == [0x63u8, 0x61u8, 0x73u8, 0x67u8] {
        10
    } else {
        11
    }
}

/// The kind of entry that a grouping type selects.
pub fn sgpd_kind_of(gt: [u8; 4]) -> (k: u8)
    ensures
        k == sgpd_kind(gt),
{
    if fourcc_eq(gt, [0x72u8, 0x6fu8, 0x6cu8, 0x6cu8]) {
        0
    } else if fourcc_eq(gt, [0x70u8, 0x72u8, 0x6fu8, 0x6cu8]) {
        1
    } else if fourcc_eq(gt, [0x72u8, 0x61u8, 0x73u8, 0x68u8]) {
        2
    } else if fourcc_eq(gt, [0x61u8, 0x6cu8, 0x73u8, 0x74u8]) {
        3
    } else if fourcc_eq(gt, [0x72u8, 0x61u8, 0x70u8, 0x20u8]) {
        4
    } else if fourcc_eq(gt, [0x74u8, 0x65u8, 0x6cu8, 0x65u8]) {
        5
    } else if fourcc_eq(gt, [0x73u8, 0x61u8, 0x70u8, 0x20u8]) {
        6
    } else if fourcc_eq(gt, [0x73u8, 0x74u8, 0x6du8, 0x69u8]) {
        7
    } else if fourcc_eq(gt, [0x64u8, 0x72u8, 0x61u8, 0x70u8]) {
        8
    } else if fourcc_eq(gt, [0x70u8, 0x61u8, 0x73u8, 0x72u8]) {
        9
    } else if fourcc_eq(gt, [0x63u8, 0x61u8, 0x73u8, 0x67u8]) {
        10
    } else {
        11
    }
}

/// An entry of a sample group description box.
#[derive(Debug)]
pub enum SampleGroupDescriptionEntry {
    /// `roll`
    RollRecovery(RollRecoveryEntry),
    /// `prol`
    AudioPreRoll(AudioPreRollEntry),
    /// `rash`
    RateShare(RateShareEntry),
    /// `alst`
    AlternativeStartup(AlternativeStartupEntry),
    /// `rap `
    VisualRandomAccess(VisualRandomAccessEntry),
    /// `tele`
    TemporalLevel(TemporalLevelEntry),
    /// `sap `
    SAP(SAPEntry),
    /// `stmi`
    SampleToMetadataItem(SampleToMetadataItemEntry),
    /// `drap`
    VisualDRAP(VisualDRAPEntry),
    /// `pasr`
    PixelAspectRatio(PixelAspectRatioEntry),
    /// `casg`
    CleanAperture(CleanApertureEntry),
    /// Unknown entry
    Unknown {
        /// The grouping type of the entry.
        grouping_type: [u8; 4],
        /// The data.
        data: Vec<u8>,
    },
}

/// The model of a [`SampleGroupDescriptionEntry`].
pub enum SampleGroupDescriptionEntryModel {
    RollRecovery(RollRecoveryEntry),
    AudioPreRoll(AudioPreRollEntry),
    RateShare(RateShareEntryModel),
    AlternativeStartup(AlternativeStartupEntryModel),
    VisualRandomAccess(VisualRandomAccessEntry),
    TemporalLevel(TemporalLevelEntry),
    SAP(SAPEntry),
    SampleToMetadataItem(SampleToMetadataItemEntryModel),
    VisualDRAP(VisualDRAPEntry),
    PixelAspectRatio(PixelAspectRatioEntry),
    CleanAperture(CleanApertureEntry),
    Unknown { grouping_type: [u8; 4], data: Seq<u8> },
}

impl View for SampleGroupDescriptionEntry {
    type V = SampleGroupDescriptionEntryModel;

    open spec fn view(&self) -> SampleGroupDescriptionEntryModel {
        match self {
            SampleGroupDescriptionEntry::RollRecovery(e) => SampleGroupDescriptionEntryModel::RollRecovery(*e),
            SampleGroupDescriptionEntry::AudioPreRoll(e) => SampleGroupDescriptionEntryModel::AudioPreRoll(*e),
            SampleGroupDescriptionEntry::RateShare(e) => SampleGroupDescriptionEntryModel::RateShare(e@),
            SampleGroupDescriptionEntry::AlternativeStartup(e) => SampleGroupDescriptionEntryModel::AlternativeStartup(e@),
            SampleGroupDescriptionEntry::VisualRandomAccess(e) => SampleGroupDescriptionEntryModel::VisualRandomAccess(*e),
            SampleGroupDescriptionEntry::TemporalLevel(e) => SampleGroupDescriptionEntryModel::TemporalLevel(*e),
            SampleGroupDescriptionEntry::SAP(e) => SampleGroupDescriptionEntryModel::SAP(*e),
            SampleGroupDescriptionEntry::SampleToMetadataItem(e) => SampleGroupDescriptionEntryModel::SampleToMetadataItem(e@),
            SampleGroupDescriptionEntry::VisualDRAP(e) => SampleGroupDescriptionEntryModel::VisualDRAP(*e),
            SampleGroupDescriptionEntry::PixelAspectRatio(e) => SampleGroupDescriptionEntryModel::PixelAspectRatio(*e),
            SampleGroupDescriptionEntry::CleanAperture(e) => SampleGroupDescriptionEntryModel::CleanAperture(*e),
            SampleGroupDescriptionEntry::Unknown { grouping_type, data } => SampleGroupDescriptionEntryModel::Unknown {
                grouping_type: *grouping_type,
                data: data@,
            },
        }
    }
}

/// The kind of an entry, numbered as by [`sgpd_kind`].
pub open spec fn sgpd_entry_kind(v: SampleGroupDescriptionEntryModel) -> nat {
    match v {
        SampleGroupDescriptionEntryModel::RollRecovery(_) => 0,
        SampleGroupDescriptionEntryModel::AudioPreRoll(_) => 1,
        SampleGroupDescriptionEntryModel::RateShare(_) => 2,
        SampleGroupDescriptionEntryModel::AlternativeStartup(_) => 3,
        SampleGroupDescriptionEntryModel::VisualRandomAccess(_) => 4,
        SampleGroupDescriptionEntryModel::TemporalLevel(_) => 5,
        SampleGroupDescriptionEntryModel::SAP(_) => 6,
        SampleGroupDescriptionEntryModel::SampleToMetadataItem(_) => 7,
        SampleGroupDescriptionEntryModel::VisualDRAP(_) => 8,
        SampleGroupDescriptionEntryModel::PixelAspectRatio(_) => 9,
        SampleGroupDescriptionEntryModel::CleanAperture(_) => 10,
        SampleGroupDescriptionEntryModel::Unknown { .. } => 11,
    }
}

/// Reading an entry of grouping type `gt` from the rest of the box: an entry of a
/// known type reads its own fields whatever the description length says, and an
/// alternative startup entry runs to the end of the box; an entry of another type
/// is the `length` bytes that the length gives, or none without a length.
#[verifier::opaque]
pub open spec fn sgpd_entry_parse(s: Seq<u8>, gt: [u8; 4], length: Option<u32>) -> SpecParse<
    SampleGroupDescriptionEntryModel,
> {
    let k = sgpd_kind(gt);
    if k == 0 {
        match RollRecoveryEntry::spec_parse(s) {
            Ok((v, n)) => Ok((SampleGroupDescriptionEntryModel::RollRecovery(v), n)),
            Err(e) => Err(e),
        }
    } else if k == 1 {
        match AudioPreRollEntry::spec_parse(s) {
            Ok((v, n)) => Ok((SampleGroupDescriptionEntryModel::AudioPreRoll(v), n)),
            Err(e) => Err(e),
        }
    } else if k == 2 {
        match RateShareEntry::spec_parse(s) {
            Ok((v, n)) => Ok((SampleGroupDescriptionEntryModel::RateShare(v), n)),
            Err(e) => Err(e),
        }
    } else if k == 3 {
        match alst_parse(s) {
            Ok(v) => Ok((SampleGroupDescriptionEntryModel::AlternativeStartup(v), s.len() as int)),
            Err(e) => Err(e),
        }
    } else if k == 4 {
        match VisualRandomAccessEntry::spec_parse(s) {
            Ok((v, n)) => Ok((SampleGroupDescriptionEntryModel::VisualRandomAccess(v), n)),
            Err(e) => Err(e),
        }
    } else if k == 5 {
        match TemporalLevelEntry::spec_parse(s) {
            Ok((v, n)) => Ok((SampleGroupDescriptionEntryModel::TemporalLevel(v), n)),
            Err(e) => Err(e),
        }
    } else if k == 6 {
        match SAPEntry::spec_parse(s) {
            Ok((v, n)) => Ok((SampleGroupDescriptionEntryModel::SAP(v), n)),
            Err(e) => Err(e),
        }
    } else if k == 7 {
        match SampleToMetadataItemEntry::spec_parse(s) {
            Ok((v, n)) => Ok((SampleGroupDescriptionEntryModel::SampleToMetadataItem(v), n)),
            Err(e) => Err(e),
        }
    } else if k == 8 {
        match VisualDRAPEntry::spec_parse(s) {
            Ok((v, n)) => Ok((SampleGroupDescriptionEntryModel::VisualDRAP(v), n)),
            Err(e) => Err(e),
        }
    } else if k == 9 {
        match PixelAspectRatioEntry::spec_parse(s) {
            Ok((v, n)) => Ok((SampleGroupDescriptionEntryModel::PixelAspectRatio(v), n)),
            Err(e) => Err(e),
        }
    } else if k == 10 {
        match CleanApertureEntry::spec_parse(s) {
            Ok((v, n)) => Ok((SampleGroupDescriptionEntryModel::CleanAperture(v), n)),
            Err(e) => Err(e),
        }
    } else {
        match length {
            Some(l) => if s.len() < l {
                Err(IsoError::UnexpectedEof)
            } else {
                Ok((SampleGroupDescriptionEntryModel::Unknown { grouping_type: gt, data: s.take(l as int) }, l as int))
            },
            None => Ok((SampleGroupDescriptionEntryModel::Unknown { grouping_type: gt, data: Seq::empty() }, 0)),
        }
    }
}

/// The bytes of an entry; an unknown entry writes its data.
pub open spec fn sgpd_entry_bytes(v: SampleGroupDescriptionEntryModel) -> Seq<u8> {
    match v {
        SampleGroupDescriptionEntryModel::RollRecovery(e) => RollRecoveryEntry::spec_serialize(e),
        SampleGroupDescriptionEntryModel::AudioPreRoll(e) => AudioPreRollEntry::spec_serialize(e),
        SampleGroupDescriptionEntryModel::RateShare(e) => RateShareEntry::spec_serialize(e),
        SampleGroupDescriptionEntryModel::AlternativeStartup(e) => alst_serialize(e),
        SampleGroupDescriptionEntryModel::VisualRandomAccess(e) => VisualRandomAccessEntry::spec_serialize(e),
        SampleGroupDescriptionEntryModel::TemporalLevel(e) => TemporalLevelEntry::spec_serialize(e),
        SampleGroupDescriptionEntryModel::SAP(e) => SAPEntry::spec_serialize(e),
        SampleGroupDescriptionEntryModel::SampleToMetadataItem(e) => SampleToMetadataItemEntry::spec_serialize(e),
        SampleGroupDescriptionEntryModel::VisualDRAP(e) => VisualDRAPEntry::spec_serialize(e),
        SampleGroupDescriptionEntryModel::PixelAspectRatio(e) => PixelAspectRatioEntry::spec_serialize(e),
        SampleGroupDescriptionEntryModel::CleanAperture(e) => CleanApertureEntry::spec_serialize(e),
        SampleGroupDescriptionEntryModel::Unknown { data, .. } => data,
    }
}

/// The size that an entry reports.
pub open spec fn sgpd_entry_size(v: SampleGroupDescriptionEntryModel) -> nat {
    match v {
        SampleGroupDescriptionEntryModel::RollRecovery(_) => 2,
        SampleGroupDescriptionEntryModel::AudioPreRoll(_) => 2,
        SampleGroupDescriptionEntryModel::RateShare(e) => 2 + size_seq::<RateShareEntryOperationPoint>(
            e.operation_points,
        ) + 9,
        SampleGroupDescriptionEntryModel::AlternativeStartup(e) => 4 + 4 * e.sample_offset.len() + 4
            * e.nums.len(),
        SampleGroupDescriptionEntryModel::VisualRandomAccess(_) => 1,
        SampleGroupDescriptionEntryModel::TemporalLevel(_) => 1,
        SampleGroupDescriptionEntryModel::SAP(_) => 1,
        SampleGroupDescriptionEntryModel::SampleToMetadataItem(e) => 8 + 4 * e.item_id.len(),
        SampleGroupDescriptionEntryModel::VisualDRAP(_) => 4,
        SampleGroupDescriptionEntryModel::PixelAspectRatio(_) => 8,
        SampleGroupDescriptionEntryModel::CleanAperture(_) => 32,
        SampleGroupDescriptionEntryModel::Unknown { data, .. } => data.len(),
    }
}

/// Whether an entry can be written: a rate share entry with several operation points
/// needs the bitrate of each.
pub open spec fn sgpd_entry_writable(v: SampleGroupDescriptionEntryModel) -> bool {
    match v {
        SampleGroupDescriptionEntryModel::RateShare(e) => RateShareEntry::spec_writable(e),
        _ => true,
    }
}

/// An entry that reads back as itself: its fields fit their layout, and an
/// alternative startup entry has as many offsets as its count.
pub open spec fn sgpd_entry_canonical(v: SampleGroupDescriptionEntryModel) -> bool {
    match v {
        SampleGroupDescriptionEntryModel::RollRecovery(e) => RollRecoveryEntry::spec_canonical(e),
        SampleGroupDescriptionEntryModel::AudioPreRoll(e) => AudioPreRollEntry::spec_canonical(e),
        SampleGroupDescriptionEntryModel::RateShare(e) => RateShareEntry::spec_canonical(e),
        SampleGroupDescriptionEntryModel::AlternativeStartup(e) => e.roll_count == e.sample_offset.len(),
        SampleGroupDescriptionEntryModel::VisualRandomAccess(e) => VisualRandomAccessEntry::spec_canonical(e),
        SampleGroupDescriptionEntryModel::TemporalLevel(e) => TemporalLevelEntry::spec_canonical(e),
        SampleGroupDescriptionEntryModel::SAP(e) => SAPEntry::spec_canonical(e),
        SampleGroupDescriptionEntryModel::SampleToMetadataItem(e) => SampleToMetadataItemEntry::spec_canonical(e),
        SampleGroupDescriptionEntryModel::VisualDRAP(e) => VisualDRAPEntry::spec_canonical(e),
        SampleGroupDescriptionEntryModel::PixelAspectRatio(e) => PixelAspectRatioEntry::spec_canonical(e),
        SampleGroupDescriptionEntryModel::CleanAperture(e) => CleanApertureEntry::spec_canonical(e),
        SampleGroupDescriptionEntryModel::Unknown { data, .. } => data.len() <= u32::MAX,
    }
}

/// The grouping type of an entry of a known kind, or its own for an unknown one.
pub open spec fn sgpd_entry_matches(v: SampleGroupDescriptionEntryModel, gt: [u8; 4]) -> bool {
    &&& sgpd_entry_kind(v) == sgpd_kind(gt)
    &&& (v matches SampleGroupDescriptionEntryModel::Unknown { grouping_type, .. } ==> grouping_type == gt)
}

/// An entry reads back as itself after the bytes of its grouping type; an alternative
/// startup entry only where nothing follows it, and an unknown entry where the length
/// is its own.
pub proof fn lemma_sgpd_entry_roundtrip(
    v: SampleGroupDescriptionEntryModel,
    gt: [u8; 4],
    length: Option<u32>,
    rest: Seq<u8>,
)
    requires
        sgpd_entry_matches(v, gt),
        sgpd_entry_writable(v),
        sgpd_entry_canonical(v),
        sgpd_entry_kind(v) == 3 ==> rest.len() == 0,
        v matches SampleGroupDescriptionEntryModel::Unknown { data, .. } ==> match length {
            Some(l) => l == data.len(),
            None => data.len() == 0,
        },
    ensures
        sgpd_entry_parse(sgpd_entry_bytes(v) + rest, gt, length) == Ok::<
            (SampleGroupDescriptionEntryModel, int),
            IsoError,
        >((v, sgpd_entry_bytes(v).len() as int)),
{
    match v {
        SampleGroupDescriptionEntryModel::RollRecovery(e) => lemma_sgpd_roll_recovery_roundtrip(e, gt, length, rest),
        SampleGroupDescriptionEntryModel::AudioPreRoll(e) => lemma_sgpd_audio_pre_roll_roundtrip(e, gt, length, rest),
        SampleGroupDescriptionEntryModel::RateShare(e) => lemma_sgpd_rate_share_roundtrip(e, gt, length, rest),
        SampleGroupDescriptionEntryModel::VisualRandomAccess(e) => lemma_sgpd_visual_random_access_roundtrip(e, gt, length, rest),
        SampleGroupDescriptionEntryModel::TemporalLevel(e) => lemma_sgpd_temporal_level_roundtrip(e, gt, length, rest),
        SampleGroupDescriptionEntryModel::SAP(e) => lemma_sgpd_s_a_p_roundtrip(e, gt, length, rest),
        SampleGroupDescriptionEntryModel::SampleToMetadataItem(e) => lemma_sgpd_sample_to_metadata_item_roundtrip(e, gt, length, rest),
        SampleGroupDescriptionEntryModel::VisualDRAP(e) => lemma_sgpd_visual_d_r_a_p_roundtrip(e, gt, length, rest),
        SampleGroupDescriptionEntryModel::PixelAspectRatio(e) => lemma_sgpd_pixel_aspect_ratio_roundtrip(e, gt, length, rest),
        SampleGroupDescriptionEntryModel::CleanAperture(e) => lemma_sgpd_clean_aperture_roundtrip(e, gt, length, rest),
        SampleGroupDescriptionEntryModel::AlternativeStartup(e) => {
            reveal(sgpd_entry_parse);
            assert(alst_serialize(e) + rest =~= alst_serialize(e));
            lemma_alst_roundtrip(e);
        },
        SampleGroupDescriptionEntryModel::Unknown { grouping_type, data } => {
            reveal(sgpd_entry_parse);
            assert((data + rest).take(data.len() as int) =~= data);
            if length is None {
                assert(data =~= Seq::<u8>::empty());
            }
        },
    }
}

proof fn lemma_sgpd_roll_recovery_roundtrip(e: RollRecoveryEntry, gt: [u8; 4], length: Option<u32>, rest: Seq<u8>)
    requires
        sgpd_kind(gt) == 0,
        RollRecoveryEntry::spec_writable(e),
        RollRecoveryEntry::spec_canonical(e),
    ensures
        sgpd_entry_parse(RollRecoveryEntry::spec_serialize(e) + rest, gt, length) == Ok::<
            (SampleGroupDescriptionEntryModel, int),
            IsoError,
        >((SampleGroupDescriptionEntryModel::RollRecovery(e), RollRecoveryEntry::spec_serialize(e).len() as int)),
{
    reveal(sgpd_entry_parse);
    RollRecoveryEntry::lemma_roundtrip(e, rest);
}

proof fn lemma_sgpd_audio_pre_roll_roundtrip(e: AudioPreRollEntry, gt: [u8; 4], length: Option<u32>, rest: Seq<u8>)
    requires
        sgpd_kind(gt) == 1,
        AudioPreRollEntry::spec_writable(e),
        AudioPreRollEntry::spec_canonical(e),
    ensures
        sgpd_entry_parse(AudioPreRollEntry::spec_serialize(e) + rest, gt, length) == Ok::<
            (SampleGroupDescriptionEntryModel, int),
            IsoError,
        >((SampleGroupDescriptionEntryModel::AudioPreRoll(e), AudioPreRollEntry::spec_serialize(e).len() as int)),
{
    reveal(sgpd_entry_parse);
    AudioPreRollEntry::lemma_roundtrip(e, rest);
}

proof fn lemma_sgpd_rate_share_roundtrip(e: RateShareEntryModel, gt: [u8; 4], length: Option<u32>, rest: Seq<u8>)
    requires
        sgpd_kind(gt) == 2,
        RateShareEntry::spec_writable(e),
        RateShareEntry::spec_canonical(e),
    ensures
        sgpd_entry_parse(RateShareEntry::spec_serialize(e) + rest, gt, length) == Ok::<
            (SampleGroupDescriptionEntryModel, int),
            IsoError,
        >((SampleGroupDescriptionEntryModel::RateShare(e), RateShareEntry::spec_serialize(e).len() as int)),
{
    reveal(sgpd_entry_parse);
    RateShareEntry::lemma_roundtrip(e, rest);
}

proof fn lemma_sgpd_visual_random_access_roundtrip(e: VisualRandomAccessEntry, gt: [u8; 4], length: Option<u32>, rest: Seq<u8>)
    requires
        sgpd_kind(gt) == 4,
        VisualRandomAccessEntry::spec_writable(e),
        VisualRandomAccessEntry::spec_canonical(e),
    ensures
        sgpd_entry_parse(VisualRandomAccessEntry::spec_serialize(e) + rest, gt, length) == Ok::<
            (SampleGroupDescriptionEntryModel, int),
            IsoError,
        >((SampleGroupDescriptionEntryModel::VisualRandomAccess(e), VisualRandomAccessEntry::spec_serialize(e).len() as int)),
{
    reveal(sgpd_entry_parse);
    VisualRandomAccessEntry::lemma_roundtrip(e, rest);
}

proof fn lemma_sgpd_temporal_level_roundtrip(e: TemporalLevelEntry, gt: [u8; 4], length: Option<u32>, rest: Seq<u8>)
    requires
        sgpd_kind(gt) == 5,
        TemporalLevelEntry::spec_writable(e),
        TemporalLevelEntry::spec_canonical(e),
    ensures
        sgpd_entry_parse(TemporalLevelEntry::spec_serialize(e) + rest, gt, length) == Ok::<
            (SampleGroupDescriptionEntryModel, int),
            IsoError,
        >((SampleGroupDescriptionEntryModel::TemporalLevel(e), TemporalLevelEntry::spec_serialize(e).len() as int)),
{
    reveal(sgpd_entry_parse);
    TemporalLevelEntry::lemma_roundtrip(e, rest);
}

proof fn lemma_sgpd_s_a_p_roundtrip(e: SAPEntry, gt: [u8; 4], length: Option<u32>, rest: Seq<u8>)
    requires
        sgpd_kind(gt) == 6,
        SAPEntry::spec_writable(e),
        SAPEntry::spec_canonical(e),
    ensures
        sgpd_entry_parse(SAPEntry::spec_serialize(e) + rest, gt, length) == Ok::<
            (SampleGroupDescriptionEntryModel, int),
            IsoError,
        >((SampleGroupDescriptionEntryModel::SAP(e), SAPEntry::spec_serialize(e).len() as int)),
{
    reveal(sgpd_entry_parse);
    SAPEntry::lemma_roundtrip(e, rest);
}

proof fn lemma_sgpd_sample_to_metadata_item_roundtrip(e: SampleToMetadataItemEntryModel, gt: [u8; 4], length: Option<u32>, rest: Seq<u8>)
    requires
        sgpd_kind(gt) == 7,
        SampleToMetadataItemEntry::spec_writable(e),
        SampleToMetadataItemEntry::spec_canonical(e),
    ensures
        sgpd_entry_parse(SampleToMetadataItemEntry::spec_serialize(e) + rest, gt, length) == Ok::<
            (SampleGroupDescriptionEntryModel, int),
            IsoError,
        >((SampleGroupDescriptionEntryModel::SampleToMetadataItem(e), SampleToMetadataItemEntry::spec_serialize(e).len() as int)),
{
    reveal(sgpd_entry_parse);
    SampleToMetadataItemEntry::lemma_roundtrip(e, rest);
}

proof fn lemma_sgpd_visual_d_r_a_p_roundtrip(e: VisualDRAPEntry, gt: [u8; 4], length: Option<u32>, rest: Seq<u8>)
    requires
        sgpd_kind(gt) == 8,
        VisualDRAPEntry::spec_writable(e),
        VisualDRAPEntry::spec_canonical(e),
    ensures
        sgpd_entry_parse(VisualDRAPEntry::spec_serialize(e) + rest, gt, length) == Ok::<
            (SampleGroupDescriptionEntryModel, int),
            IsoError,
        >((SampleGroupDescriptionEntryModel::VisualDRAP(e), VisualDRAPEntry::spec_serialize(e).len() as int)),
{
    reveal(sgpd_entry_parse);
    VisualDRAPEntry::lemma_roundtrip(e, rest);
}

proof fn lemma_sgpd_pixel_aspect_ratio_roundtrip(e: PixelAspectRatioEntry, gt: [u8; 4], length: Option<u32>, rest: Seq<u8>)
    requires
        sgpd_kind(gt) == 9,
        PixelAspectRatioEntry::spec_writable(e),
        PixelAspectRatioEntry::spec_canonical(e),
    ensures
        sgpd_entry_parse(PixelAspectRatioEntry::spec_serialize(e) + rest, gt, length) == Ok::<
            (SampleGroupDescriptionEntryModel, int),
            IsoError,
        >((SampleGroupDescriptionEntryModel::PixelAspectRatio(e), PixelAspectRatioEntry::spec_serialize(e).len() as int)),
{
    reveal(sgpd_entry_parse);
    PixelAspectRatioEntry::lemma_roundtrip(e, rest);
}

proof fn lemma_sgpd_clean_aperture_roundtrip(e: CleanApertureEntry, gt: [u8; 4], length: Option<u32>, rest: Seq<u8>)
    requires
        sgpd_kind(gt) == 10,
        CleanApertureEntry::spec_writable(e),
        CleanApertureEntry::spec_canonical(e),
    ensures
        sgpd_entry_parse(CleanApertureEntry::spec_serialize(e) + rest, gt, length) == Ok::<
            (SampleGroupDescriptionEntryModel, int),
            IsoError,
        >((SampleGroupDescriptionEntryModel::CleanAperture(e), CleanApertureEntry::spec_serialize(e).len() as int)),
{
    reveal(sgpd_entry_parse);
    CleanApertureEntry::lemma_roundtrip(e, rest);
}

/// A writable entry is as long as the size it reports.
pub proof fn lemma_sgpd_entry_len(x: SampleGroupDescriptionEntry)
    requires
        sgpd_entry_writable(x@),
    ensures
        sgpd_entry_bytes(x@).len() == sgpd_entry_size(x@),
{
    match x {
        SampleGroupDescriptionEntry::RollRecovery(e) => RollRecoveryEntry::lemma_size(e),
        SampleGroupDescriptionEntry::AudioPreRoll(e) => AudioPreRollEntry::lemma_size(e),
        SampleGroupDescriptionEntry::RateShare(e) => {
            RateShareEntry::lemma_size(e);
            assert(views(e.operation_points@) =~= e.operation_points@);
        },
        SampleGroupDescriptionEntry::AlternativeStartup(e) => {
            crate::boxes::sample_groups::lemma_alst_len(e@);
        },
        SampleGroupDescriptionEntry::VisualRandomAccess(e) => VisualRandomAccessEntry::lemma_size(e),
        SampleGroupDescriptionEntry::TemporalLevel(e) => TemporalLevelEntry::lemma_size(e),
        SampleGroupDescriptionEntry::SAP(e) => SAPEntry::lemma_size(e),
        SampleGroupDescriptionEntry::SampleToMetadataItem(e) => {
            SampleToMetadataItemEntry::lemma_size(e);
        },
        SampleGroupDescriptionEntry::VisualDRAP(e) => VisualDRAPEntry::lemma_size(e),
        SampleGroupDescriptionEntry::PixelAspectRatio(e) => PixelAspectRatioEntry::lemma_size(e),
        SampleGroupDescriptionEntry::CleanAperture(e) => CleanApertureEntry::lemma_size(e),
        SampleGroupDescriptionEntry::Unknown { .. } => {},
    }
}

impl SampleGroupDescriptionEntry {
    /// Reads an entry of grouping type `gt` at `pos`, with the description length
    /// `length` where the box gives one.
    pub fn parse_for(data: &[u8], pos: usize, gt: [u8; 4], length: Option<u32>) -> (r: Result<
        (SampleGroupDescriptionEntry, usize),
        IsoError,
    >)
        requires
            pos <= data@.len(),
        ensures
            crate::wire::parse_matches(r, sgpd_entry_parse(data@.skip(pos as int), gt, length), pos),
    {
        proof {
            reveal(sgpd_entry_parse);
        }
        let k = sgpd_kind_of(gt);
        if k == 0 {
            let (e, p) = RollRecoveryEntry::parse(data, pos)?;
            Ok((SampleGroupDescriptionEntry::RollRecovery(e), p))
        } else if k == 1 {
            let (e, p) = AudioPreRollEntry::parse(data, pos)?;
            Ok((SampleGroupDescriptionEntry::AudioPreRoll(e), p))
        } else if k == 2 {
            let (e, p) = RateShareEntry::parse(data, pos)?;
            Ok((SampleGroupDescriptionEntry::RateShare(e), p))
        } else if k == 3 {
            let d = vstd::slice::slice_subrange(data, pos, data.len());
            proof {
                assert(d@ =~= data@.skip(pos as int));
            }
            let e = AlternativeStartupEntry::parse(d)?;
            Ok((SampleGroupDescriptionEntry::AlternativeStartup(e), data.len()))
        } else if k == 4 {
            let (e, p) = VisualRandomAccessEntry::parse(data, pos)?;
            Ok((SampleGroupDescriptionEntry::VisualRandomAccess(e), p))
        } else if k == 5 {
            let (e, p) = TemporalLevelEntry::parse(data, pos)?;
            Ok((SampleGroupDescriptionEntry::TemporalLevel(e), p))
        } else if k == 6 {
            let (e, p) = SAPEntry::parse(data, pos)?;
            Ok((SampleGroupDescriptionEntry::SAP(e), p))
        } else if k == 7 {
            let (e, p) = SampleToMetadataItemEntry::parse(data, pos)?;
            Ok((SampleGroupDescriptionEntry::SampleToMetadataItem(e), p))
        } else if k == 8 {
            let (e, p) = VisualDRAPEntry::parse(data, pos)?;
            Ok((SampleGroupDescriptionEntry::VisualDRAP(e), p))
        } else if k == 9 {
            let (e, p) = PixelAspectRatioEntry::parse(data, pos)?;
            Ok((SampleGroupDescriptionEntry::PixelAspectRatio(e), p))
        } else if k == 10 {
            let (e, p) = CleanApertureEntry::parse(data, pos)?;
            Ok((SampleGroupDescriptionEntry::CleanAperture(e), p))
        } else {
            match length {
                Some(l) => {
                    if data.len() - pos < l as usize {
                        return Err(IsoError::UnexpectedEof);
                    }
                    let d = vstd::slice::slice_subrange(data, pos, pos + l as usize);
                    let bytes = vstd::slice::slice_to_vec(d);
                    proof {
                        assert(bytes@ =~= data@.skip(pos as int).take(l as int));
                    }
                    Ok((SampleGroupDescriptionEntry::Unknown { grouping_type: gt, data: bytes }, pos + l as usize))
                },
                None => {
                    let bytes: Vec<u8> = Vec::new();
                    proof {
                        assert(bytes@ =~= Seq::<u8>::empty());
                    }
                    Ok((SampleGroupDescriptionEntry::Unknown { grouping_type: gt, data: bytes }, pos))
                },
            }
        }
    }

    /// Writes the entry.
    pub fn serialize(&self, out: &mut Vec<u8>) -> (r: Result<(), IsoError>)
        ensures
            crate::wire::write_matches(r, sgpd_entry_writable(self@), sgpd_entry_bytes(self@), old(out)@, final(out)@),
    {
        let ghost before = out@;
        match self {
            SampleGroupDescriptionEntry::RollRecovery(e) => e.serialize(out),
            SampleGroupDescriptionEntry::AudioPreRoll(e) => e.serialize(out),
            SampleGroupDescriptionEntry::RateShare(e) => e.serialize(out),
            SampleGroupDescriptionEntry::AlternativeStartup(e) => {
                e.serialize(out);
                proof {
                    lemma_append_prefix(before, alst_serialize(e@));
                }
                Ok(())
            },
            SampleGroupDescriptionEntry::VisualRandomAccess(e) => e.serialize(out),
            SampleGroupDescriptionEntry::TemporalLevel(e) => e.serialize(out),
            SampleGroupDescriptionEntry::SAP(e) => e.serialize(out),
            SampleGroupDescriptionEntry::SampleToMetadataItem(e) => e.serialize(out),
            SampleGroupDescriptionEntry::VisualDRAP(e) => e.serialize(out),
            SampleGroupDescriptionEntry::PixelAspectRatio(e) => e.serialize(out),
            SampleGroupDescriptionEntry::CleanAperture(e) => e.serialize(out),
            SampleGroupDescriptionEntry::Unknown { data, .. } => {
                write_bytes(out, data.as_slice());
                proof {
                    lemma_append_prefix(before, data@);
                }
                Ok(())
            },
        }
    }

    /// The size that the entry reports, computed without overflow.
    pub fn size_wide(&self) -> (n: u128)
        ensures
            n == sgpd_entry_size(self@),
            n <= 0x10_0000_0000_0000_0000,
    {
        match self {
            SampleGroupDescriptionEntry::RollRecovery(_) => 2,
            SampleGroupDescriptionEntry::AudioPreRoll(_) => 2,
            SampleGroupDescriptionEntry::RateShare(e) => {
                let ghost pts = e.operation_points@;
                let mut acc: u128 = 0;
                let mut i: usize = 0;
                assert(pts.take(0) =~= Seq::<RateShareEntryOperationPoint>::empty());
                while i < e.operation_points.len()
                    invariant
                        pts == e.operation_points@,
                        i <= pts.len(),
                        acc == size_seq::<RateShareEntryOperationPoint>(pts.take(i as int)),
                        acc <= 6 * i,
                    decreases pts.len() - i,
                {
                    proof {
                        crate::wire::lemma_size_seq_take::<RateShareEntryOperationPoint>(pts, i as int);
                    }
                    acc = acc + e.operation_points[i].size() as u128;
                    i = i + 1;
                }
                proof {
                    assert(pts.take(i as int) =~= pts);
                    assert(views(pts) =~= pts);
                }
                2 + acc + 9
            },
            SampleGroupDescriptionEntry::AlternativeStartup(e) => 4 + 4 * (e.sample_offset.len() as u128) + 4 * (
            e.nums.len() as u128),
            SampleGroupDescriptionEntry::VisualRandomAccess(_) => 1,
            SampleGroupDescriptionEntry::TemporalLevel(_) => 1,
            SampleGroupDescriptionEntry::SAP(_) => 1,
            SampleGroupDescriptionEntry::SampleToMetadataItem(e) => 8 + 4 * (e.item_id.len() as u128),
            SampleGroupDescriptionEntry::VisualDRAP(_) => 4,
            SampleGroupDescriptionEntry::PixelAspectRatio(_) => 8,
            SampleGroupDescriptionEntry::CleanAperture(_) => 32,
            SampleGroupDescriptionEntry::Unknown { data, .. } => data.len() as u128,
        }
    }
}

/// Reading an entry consumes no more than its input.
pub proof fn lemma_sgpd_entry_parse_len(s: Seq<u8>, gt: [u8; 4], length: Option<u32>)
    ensures
        sgpd_entry_parse(s, gt, length) matches Ok((_, n)) ==> 0 <= n <= s.len(),
{
    reveal(sgpd_entry_parse);
    RollRecoveryEntry::lemma_parse_len(s);
    AudioPreRollEntry::lemma_parse_len(s);
    RateShareEntry::lemma_parse_len(s);
    VisualRandomAccessEntry::lemma_parse_len(s);
    TemporalLevelEntry::lemma_parse_len(s);
    SAPEntry::lemma_parse_len(s);
    SampleToMetadataItemEntry::lemma_parse_len(s);
    VisualDRAPEntry::lemma_parse_len(s);
    PixelAspectRatioEntry::lemma_parse_len(s);
    CleanApertureEntry::lemma_parse_len(s);
}

/// Whether each entry is preceded by its description length: where the default
/// length is zero.
pub open spec fn sgpd_has_lengths(default_length: Option<u32>) -> bool {
    default_length == Some(0u32)
}

/// Reading exactly `count` entries of grouping type `gt`, each preceded by its
/// description length where the default length is zero.
pub open spec fn sgpd_parse_entries(s: Seq<u8>, count: nat, gt: [u8; 4], default_length: Option<u32>) -> SpecParse<
    Seq<SampleGroupDescriptionEntryModel>,
>
    decreases count,
{
    if count == 0 {
        Ok((Seq::empty(), 0))
    } else {
        match sgpd_parse_entries(s, (count - 1) as nat, gt, default_length) {
            Ok((items, k)) => if sgpd_has_lengths(default_length) {
                if s.len() < k + 4 {
                    Err(IsoError::UnexpectedEof)
                } else {
                    match sgpd_entry_parse(s.skip(k + 4), gt, Some(be_u32_at(s, k))) {
                        Ok((v, n)) => Ok((items.push(v), k + 4 + n)),
                        Err(e) => Err(e),
                    }
                }
            } else {
                match sgpd_entry_parse(s.skip(k), gt, default_length) {
                    Ok((v, n)) => Ok((items.push(v), k + n)),
                    Err(e) => Err(e),
                }
            },
            Err(e) => Err(e),
        }
    }
}

/// The bytes of a list of entries, each preceded by its size cut to 32 bits where
/// `lengths` holds.
pub open spec fn sgpd_ser_entries(vs: Seq<SampleGroupDescriptionEntryModel>, lengths: bool) -> Seq<u8>
    decreases vs.len(),
{
    if vs.len() == 0 {
        Seq::empty()
    } else {
        sgpd_ser_entries(vs.drop_last(), lengths) + (if lengths {
            u32_bytes(sgpd_entry_size(vs.last()) as u32)
        } else {
            Seq::empty()
        }) + sgpd_entry_bytes(vs.last())
    }
}

/// The size that a list of entries reports, with four bytes for each description
/// length where `lengths` holds.
pub open spec fn sgpd_seq_size(vs: Seq<SampleGroupDescriptionEntryModel>, lengths: bool) -> nat
    decreases vs.len(),
{
    if vs.len() == 0 {
        0
    } else {
        sgpd_seq_size(vs.drop_last(), lengths) + (if lengths { 4nat } else { 0nat }) + sgpd_entry_size(vs.last())
    }
}

/// An unknown entry is as long as the length it is read with: the default length,
/// or none without one; entries with their own description length always are.
pub open spec fn sgpd_length_fits(v: SampleGroupDescriptionEntryModel, default_length: Option<u32>) -> bool {
    v matches SampleGroupDescriptionEntryModel::Unknown { data, .. } ==> (sgpd_has_lengths(default_length) || match default_length {
        Some(l) => l == data.len(),
        None => data.len() == 0,
    })
}

/// The entries of a list that reads back as itself.
pub open spec fn sgpd_entries_canonical(vs: Seq<SampleGroupDescriptionEntryModel>, gt: [u8; 4], default_length: Option<u32>) -> bool {
    &&& forall|i: int| 0 <= i < vs.len() ==> #[trigger] sgpd_entry_matches(vs[i], gt)
    &&& forall|i: int| 0 <= i < vs.len() ==> #[trigger] sgpd_entry_writable(vs[i])
    &&& forall|i: int| 0 <= i < vs.len() ==> #[trigger] sgpd_entry_canonical(vs[i])
    &&& forall|i: int| 0 <= i < vs.len() ==> #[trigger] sgpd_length_fits(vs[i], default_length)
}

/// A written list of entries reads back as itself; an alternative startup entry,
/// which runs to the end of the box, only alone and last.
#[verifier::spinoff_prover]
#[verifier::rlimit(30)]
pub proof fn lemma_sgpd_entries_roundtrip(
    vs: Seq<SampleGroupDescriptionEntryModel>,
    gt: [u8; 4],
    default_length: Option<u32>,
    rest: Seq<u8>,
)
    requires
        sgpd_entries_canonical(vs, gt, default_length),
        sgpd_kind(gt) == 3 ==> vs.len() == 0 || (vs.len() == 1 && rest.len() == 0),
    ensures
        sgpd_parse_entries(
            sgpd_ser_entries(vs, sgpd_has_lengths(default_length)) + rest,
            vs.len(),
            gt,
            default_length,
        ) == Ok::<(Seq<SampleGroupDescriptionEntryModel>, int), IsoError>(
            (vs, sgpd_ser_entries(vs, sgpd_has_lengths(default_length)).len() as int),
        ),
    decreases vs.len(),
{
    let lengths = sgpd_has_lengths(default_length);
    if vs.len() == 0 {
        assert(vs =~= Seq::<SampleGroupDescriptionEntryModel>::empty());
    } else {
        let init = vs.drop_last();
        let last = vs.last();
        let j = vs.len() - 1;
        assert(sgpd_entry_matches(vs[j], gt));
        assert(sgpd_entry_writable(vs[j]));
        assert(sgpd_entry_canonical(vs[j]));
        assert(sgpd_length_fits(vs[j], default_length));
        assert forall|i: int| 0 <= i < init.len() implies #[trigger] sgpd_entry_matches(init[i], gt) by {
            assert(sgpd_entry_matches(vs[i], gt));
        }
        assert forall|i: int| 0 <= i < init.len() implies #[trigger] sgpd_entry_writable(init[i]) by {
            assert(sgpd_entry_writable(vs[i]));
        }
        assert forall|i: int| 0 <= i < init.len() implies #[trigger] sgpd_entry_canonical(init[i]) by {
            assert(sgpd_entry_canonical(vs[i]));
        }
        assert forall|i: int| 0 <= i < init.len() implies #[trigger] sgpd_length_fits(init[i], default_length) by {
            assert(sgpd_length_fits(vs[i], default_length));
        }
        let pre = if lengths { u32_bytes(sgpd_entry_size(last) as u32) } else { Seq::<u8>::empty() };
        let body = sgpd_entry_bytes(last);
        let tail = pre + body + rest;
        lemma_sgpd_entries_roundtrip(init, gt, default_length, tail);
        let s = sgpd_ser_entries(vs, lengths) + rest;
        let k = sgpd_ser_entries(init, lengths).len() as int;
        assert(sgpd_ser_entries(init, lengths) + tail =~= s);
        assert(s.skip(k) =~= tail);
        if lengths {
            assert(s.subrange(k, k + 4) =~= u32_bytes(sgpd_entry_size(last) as u32));
            lemma_u32_at(s, k, sgpd_entry_size(last) as u32);
            assert(s.skip(k + 4) =~= body + rest);
            if let SampleGroupDescriptionEntryModel::Unknown { data, .. } = last {
                assert((data.len() as u32) as nat == data.len());
            }
            lemma_sgpd_entry_roundtrip(last, gt, Some(be_u32_at(s, k)), rest);
        } else {
            assert(tail =~= body + rest);
            lemma_sgpd_entry_roundtrip(last, gt, default_length, rest);
        }
        assert(init.push(last) =~= vs);
    }
}

/// A list of writable entries is as long as the size it reports.
pub proof fn lemma_sgpd_entries_len(xs: Seq<SampleGroupDescriptionEntry>, lengths: bool)
    requires
        forall|i: int| 0 <= i < xs.len() ==> #[trigger] sgpd_entry_writable(xs[i]@),
    ensures
        sgpd_ser_entries(views(xs), lengths).len() == sgpd_seq_size(views(xs), lengths),
    decreases xs.len(),
{
    if xs.len() > 0 {
        let init = xs.drop_last();
        assert(views(xs).drop_last() =~= views(init));
        assert forall|i: int| 0 <= i < init.len() implies #[trigger] sgpd_entry_writable(init[i]@) by {
            assert(sgpd_entry_writable(xs[i]@));
        }
        lemma_sgpd_entries_len(init, lengths);
        assert(sgpd_entry_writable(xs[xs.len() - 1]@));
        lemma_sgpd_entry_len(xs.last());
    }
}

/// Once reading entries has failed, reading more fails the same way.
pub proof fn lemma_sgpd_parse_entries_err(s: Seq<u8>, i: nat, j: nat, gt: [u8; 4], default_length: Option<u32>)
    requires
        i <= j,
        sgpd_parse_entries(s, i, gt, default_length) is Err,
    ensures
        sgpd_parse_entries(s, j, gt, default_length) == sgpd_parse_entries(s, i, gt, default_length),
    decreases j,
{
    if j > i {
        lemma_sgpd_parse_entries_err(s, i, (j - 1) as nat, gt, default_length);
    }
}

/// Reading entries consumes no more than the input.
pub proof fn lemma_sgpd_parse_entries_len(s: Seq<u8>, count: nat, gt: [u8; 4], default_length: Option<u32>)
    ensures
        sgpd_parse_entries(s, count, gt, default_length) matches Ok((items, k)) ==> items.len() == count && 0 <= k
            <= s.len(),
    decreases count,
{
    if count > 0 {
        lemma_sgpd_parse_entries_len(s, (count - 1) as nat, gt, default_length);
        if let Ok((items, k)) = sgpd_parse_entries(s, (count - 1) as nat, gt, default_length) {
            if sgpd_has_lengths(default_length) {
                if s.len() >= k + 4 {
                    lemma_sgpd_entry_parse_len(s.skip(k + 4), gt, Some(be_u32_at(s, k)));
                }
            } else {
                lemma_sgpd_entry_parse_len(s.skip(k), gt, default_length);
            }
        }
    }
}

/// The sizes of the first entries add up to no more than those of all of them.
pub proof fn lemma_sgpd_seq_size_mono(vs: Seq<SampleGroupDescriptionEntryModel>, lengths: bool, i: int)
    requires
        0 <= i <= vs.len(),
    ensures
        sgpd_seq_size(vs.take(i), lengths) <= sgpd_seq_size(vs, lengths),
    decreases vs.len() - i,
{
    if i < vs.len() {
        assert(vs.take(i + 1).drop_last() =~= vs.take(i));
        lemma_sgpd_seq_size_mono(vs, lengths, i + 1);
    } else {
        assert(vs.take(i) =~= vs);
    }
}

/// The length of the fields before the entries in a box of `version`: the full
/// header, the grouping type, the default length from version 1, the default index
/// from version 2, and the count.
pub open spec fn sgpd_head_len(version: u8) -> int {
    12 + (if version >= 1 { 4int } else { 0int }) + (if version >= 2 { 4int } else { 0int })
}

/// Sample group description box
///
/// ISO/IEC 14496-12 - 8.9.3
#[derive(Debug)]
pub struct SampleGroupDescriptionBox {
    /// The full box header.
    pub full_header: FullBoxHeader,
    /// The grouping type that links the box to its sample to group box.
    pub grouping_type: [u8; 4],
    /// The length of every entry if it is constant, or zero if it varies (version 1 on).
    pub default_length: Option<u32>,
    /// The entry that applies to samples that no sample to group box maps (version 2 on).
    pub default_group_description_index: Option<u32>,
    /// The number of entries.
    pub entry_count: u32,
    /// The entries.
    pub entries: Vec<SampleGroupDescriptionEntry>,
}

/// The model of a [`SampleGroupDescriptionBox`].
pub struct SampleGroupDescriptionBoxModel {
    pub full_header: FullBoxHeader,
    pub grouping_type: [u8; 4],
    pub default_length: Option<u32>,
    pub default_group_description_index: Option<u32>,
    pub entry_count: u32,
    pub entries: Seq<SampleGroupDescriptionEntryModel>,
}

impl View for SampleGroupDescriptionBox {
    type V = SampleGroupDescriptionBoxModel;

    open spec fn view(&self) -> SampleGroupDescriptionBoxModel {
        SampleGroupDescriptionBoxModel {
            full_header: self.full_header,
            grouping_type: self.grouping_type,
            default_length: self.default_length,
            default_group_description_index: self.default_group_description_index,
            entry_count: self.entry_count,
            entries: views(self.entries@),
        }
    }
}

/// Whether a box of `version` with `default_length` writes a description length in
/// front of each entry.
pub open spec fn sgpd_writes_lengths(version: u8, default_length: Option<u32>) -> bool {
    version >= 1 && sgpd_has_lengths(default_length)
}

impl IsoSized for SampleGroupDescriptionBox {
    open spec fn spec_size(&self) -> nat {
        add_header_size(
            (sgpd_head_len(self.full_header.version) + sgpd_seq_size(
                views(self.entries@),
                sgpd_writes_lengths(self.full_header.version, self.default_length),
            )) as nat,
        )
    }

    fn size(&self) -> (n: usize) {
        let version = self.full_header.version;
        let lengths = version >= 1 && match self.default_length {
            Some(l) => l == 0,
            None => false,
        };
        let ghost vs = views(self.entries@);
        let mut total: usize = 0;
        let mut i: usize = 0;
        assert(vs.take(0) =~= Seq::<SampleGroupDescriptionEntryModel>::empty());
        while i < self.entries.len()
            invariant
                vs == views(self.entries@),
                i <= self.entries@.len(),
                lengths == sgpd_writes_lengths(version, self.default_length),
                version == self.full_header.version,
                total == sgpd_seq_size(vs.take(i as int), lengths),
                sgpd_head_len(version) + sgpd_seq_size(vs, lengths) <= usize::MAX,
            decreases self.entries@.len() - i,
        {
            proof {
                assert(vs.take(i + 1).drop_last() =~= vs.take(i as int));
                lemma_sgpd_seq_size_mono(vs, lengths, i + 1);
                assert(vs[i as int] == self.entries@[i as int]@);
            }
            let e = self.entries[i].size_wide() as usize;
            total = total + if lengths { 4 } else { 0 } + e;
            i = i + 1;
        }
        proof {
            assert(vs.take(i as int) =~= vs);
        }
        let head: usize = 12 + if version >= 1 { 4 } else { 0 } + if version >= 2 { 4 } else { 0 };
        add_header_size_exec(head + total)
    }
}

impl BoxBody for SampleGroupDescriptionBox {
    open spec fn spec_box_type() -> [u8; 4] {
        [0x73u8, 0x67u8, 0x70u8, 0x64u8]
    }

    fn box_type() -> (r: [u8; 4]) {
        [0x73u8, 0x67u8, 0x70u8, 0x64u8]
    }

    /// The full header, the grouping type, the default length from version 1, the
    /// default index from version 2, the count, then that many entries.
    open spec fn spec_parse_body(s: Seq<u8>) -> Result<SampleGroupDescriptionBoxModel, IsoError> {
        if s.len() < 4 || s.len() < sgpd_head_len(s[0]) {
            Err(IsoError::UnexpectedEof)
        } else {
            let version = s[0];
            let gt = fourcc_at(s, 4);
            let dl = if version >= 1 { Some(be_u32_at(s, 8)) } else { None };
            let h = sgpd_head_len(version);
            match sgpd_parse_entries(s.skip(h), be_u32_at(s, h - 4) as nat, gt, dl) {
                Ok((items, _)) => Ok(
                    SampleGroupDescriptionBoxModel {
                        full_header: FullBoxHeader { version, flags: be_u24_at(s, 1) },
                        grouping_type: gt,
                        default_length: dl,
                        default_group_description_index: if version >= 2 { Some(be_u32_at(s, 12)) } else { None },
                        entry_count: be_u32_at(s, h - 4),
                        entries: items,
                    },
                ),
                Err(e) => Err(e),
            }
        }
    }

    /// Version 1 on needs a default length, version 2 on a default index, and every
    /// entry must be writable.
    open spec fn spec_writable(v: SampleGroupDescriptionBoxModel) -> bool {
        &&& v.full_header.version >= 1 ==> v.default_length is Some
        &&& v.full_header.version >= 2 ==> v.default_group_description_index is Some
        &&& forall|i: int| 0 <= i < v.entries.len() ==> #[trigger] sgpd_entry_writable(v.entries[i])
    }

    open spec fn spec_serialize_body(v: SampleGroupDescriptionBoxModel) -> Seq<u8> {
        let version = v.full_header.version;
        seq![version] + u24_bytes(v.full_header.flags) + v.grouping_type@ + (if version >= 1 {
            u32_bytes(v.default_length.unwrap())
        } else {
            Seq::empty()
        }) + (if version >= 2 {
            u32_bytes(v.default_group_description_index.unwrap())
        } else {
            Seq::empty()
        }) + u32_bytes(v.entry_count) + sgpd_ser_entries(
            v.entries,
            sgpd_writes_lengths(version, v.default_length),
        )
    }

    /// Only the fields of the version are present, the count is the number of
    /// entries, each entry is of the grouping type and reads back as itself, and an
    /// alternative startup entry, which runs to the end of the box, is alone.
    open spec fn spec_canonical(v: SampleGroupDescriptionBoxModel) -> bool {
        &&& v.full_header.flags < 0x100_0000
        &&& v.full_header.version == 0 ==> v.default_length is None
        &&& v.full_header.version < 2 ==> v.default_group_description_index is None
        &&& v.entries.len() == v.entry_count
        &&& sgpd_entries_canonical(v.entries, v.grouping_type, v.default_length)
        &&& sgpd_kind(v.grouping_type) == 3 ==> v.entries.len() <= 1
    }

    proof fn lemma_box_type() {
        assert(Self::spec_box_type()[0] != spec_uuid_fourcc()[0]);
    }

    proof fn lemma_body_size(x: SampleGroupDescriptionBox) {
        assert forall|i: int| 0 <= i < x.entries@.len() implies #[trigger] sgpd_entry_writable(x.entries@[i]@) by {
            assert(sgpd_entry_writable(x@.entries[i]));
        }
        lemma_sgpd_entries_len(x.entries@, sgpd_writes_lengths(x.full_header.version, x.default_length));
    }

    #[verifier::spinoff_prover]
    proof fn lemma_body_roundtrip(v: SampleGroupDescriptionBoxModel) {
        let version = v.full_header.version;
        let h = sgpd_head_len(version);
        let s = Self::spec_serialize_body(v);
        let lengths = sgpd_writes_lengths(version, v.default_length);
        assert(lengths == sgpd_has_lengths(v.default_length));
        let ents = sgpd_ser_entries(v.entries, lengths);
        assert(s.subrange(1, 4) =~= u24_bytes(v.full_header.flags));
        lemma_u24_at(s, 1, v.full_header.flags);
        assert(s.subrange(4, 8) =~= v.grouping_type@);
        lemma_fourcc_at(s, 4, v.grouping_type);
        if version >= 1 {
            assert(s.subrange(8, 12) =~= u32_bytes(v.default_length.unwrap()));
            lemma_u32_at(s, 8, v.default_length.unwrap());
        }
        if version >= 2 {
            assert(s.subrange(12, 16) =~= u32_bytes(v.default_group_description_index.unwrap()));
            lemma_u32_at(s, 12, v.default_group_description_index.unwrap());
        }
        assert(s.subrange(h - 4, h) =~= u32_bytes(v.entry_count));
        lemma_u32_at(s, h - 4, v.entry_count);
        assert(s.skip(h) =~= ents + Seq::<u8>::empty());
        lemma_sgpd_entries_roundtrip(v.entries, v.grouping_type, v.default_length, Seq::<u8>::empty());
    }

    fn parse_body(d: &[u8]) -> (r: Result<SampleGroupDescriptionBox, IsoError>) {
        if d.len() < 4 {
            return Err(IsoError::UnexpectedEof);
        }
        let version = d[0];
        let h: usize = 12 + if version >= 1 { 4 } else { 0 } + if version >= 2 { 4 } else { 0 };
        if d.len() < h {
            return Err(IsoError::UnexpectedEof);
        }
        let full_header = FullBoxHeader { version, flags: read_u24_at(d, 1) };
        let grouping_type = read_fourcc_at(d, 4);
        let default_length = if version >= 1 { Some(read_u32_at(d, 8)) } else { None };
        let default_group_description_index = if version >= 2 { Some(read_u32_at(d, 12)) } else { None };
        let entry_count = read_u32_at(d, h - 4);
        let lengths = match default_length {
            Some(l) => l == 0,
            None => false,
        };
        let ghost s = d@.skip(h as int);
        let mut entries: Vec<SampleGroupDescriptionEntry> = Vec::new();
        let mut p = h;
        let mut i: u32 = 0;
        assert(views(entries@) =~= Seq::<SampleGroupDescriptionEntryModel>::empty());
        while i < entry_count
            invariant
                s == d@.skip(h as int),
                d@.len() >= 4,
                version == d@[0],
                h == sgpd_head_len(version),
                h <= d@.len(),
                grouping_type == fourcc_at(d@, 4),
                default_length == (if version >= 1 { Some(be_u32_at(d@, 8)) } else { None::<u32> }),
                lengths == sgpd_has_lengths(default_length),
                entry_count == be_u32_at(d@, h - 4),
                h <= p <= d@.len(),
                i <= entry_count,
                sgpd_parse_entries(s, i as nat, grouping_type, default_length) == Ok::<
                    (Seq<SampleGroupDescriptionEntryModel>, int),
                    IsoError,
                >((views(entries@), p - h)),
            decreases entry_count - i,
        {
            proof {
                lemma_sgpd_parse_entries_len(s, i as nat, grouping_type, default_length);
            }
            let mut q = p;
            let mut length = default_length;
            if lengths {
                if d.len() - p < 4 {
                    proof {
                        lemma_sgpd_parse_entries_err(s, (i + 1) as nat, entry_count as nat, grouping_type, default_length);
                    }
                    return Err(IsoError::UnexpectedEof);
                }
                let l = read_u32_at(d, p);
                proof {
                    assert(be_u32_at(s, p - h) == be_u32_at(d@, p as int)) by {
                        assert(s.skip(p - h).take(4) =~= d@.skip(p as int).take(4));
                        assert(s.subrange(p - h, p - h + 4) =~= d@.subrange(p as int, p + 4));
                    }
                }
                length = Some(l);
                q = p + 4;
            }
            proof {
                assert(s.skip(q - h) =~= d@.skip(q as int));
            }
            match SampleGroupDescriptionEntry::parse_for(d, q, grouping_type, length) {
                Ok((e, np)) => {
                    proof {
                        lemma_sgpd_entry_parse_len(d@.skip(q as int), grouping_type, length);
                        crate::wire::lemma_views_push(entries@, e);
                    }
                    entries.push(e);
                    p = np;
                    i = i + 1;
                },
                Err(err) => {
                    proof {
                        lemma_sgpd_parse_entries_err(s, (i + 1) as nat, entry_count as nat, grouping_type, default_length);
                    }
                    return Err(err);
                },
            }
        }
        Ok(
            SampleGroupDescriptionBox {
                full_header,
                grouping_type,
                default_length,
                default_group_description_index,
                entry_count,
                entries,
            },
        )
    }

    fn serialize_body(&self, out: &mut Vec<u8>) -> (r: Result<(), IsoError>) {
        let ghost start = out@;
        let version = self.full_header.version;
        proof {
            assert(out@.subrange(0, out@.len() as int) =~= out@);
        }
        if version >= 1 && self.default_length.is_none() {
            return Err(IsoError::InvalidData);
        }
        if version >= 2 && self.default_group_description_index.is_none() {
            return Err(IsoError::InvalidData);
        }
        write_u8(out, version);
        write_u24(out, self.full_header.flags);
        write_fourcc(out, self.grouping_type);
        if version >= 1 {
            match self.default_length {
                Some(l) => write_u32(out, l),
                None => {},
            }
        }
        if version >= 2 {
            match self.default_group_description_index {
                Some(x) => write_u32(out, x),
                None => {},
            }
        }
        write_u32(out, self.entry_count);
        let lengths = version >= 1 && match self.default_length {
            Some(l) => l == 0,
            None => false,
        };
        let ghost head = out@;
        let ghost vs = views(self.entries@);
        let mut i: usize = 0;
        assert(vs.take(0) =~= Seq::<SampleGroupDescriptionEntryModel>::empty());
        assert(out@ =~= head + sgpd_ser_entries(vs.take(0), lengths));
        proof {
            lemma_append_prefix(start, head.skip(start.len() as int));
            assert(head =~= start + head.skip(start.len() as int));
        }
        while i < self.entries.len()
            invariant
                vs == views(self.entries@),
                start == old(out)@,
                start.len() <= head.len(),
                head.subrange(0, start.len() as int) == start,
                i <= self.entries@.len(),
                out@ == head + sgpd_ser_entries(vs.take(i as int), lengths),
                forall|j: int| 0 <= j < i ==> #[trigger] sgpd_entry_writable(vs[j]),
            decreases self.entries@.len() - i,
        {
            proof {
                assert(vs.take(i + 1).drop_last() =~= vs.take(i as int));
                assert(vs[i as int] == self.entries@[i as int]@);
            }
            let ghost before = out@;
            if lengths {
                let n = self.entries[i].size_wide();
                write_u32(out, n as u32);
            }
            let ghost mid = out@;
            let r = self.entries[i].serialize(out);
            if r.is_err() {
                proof {
                    assert(!sgpd_entry_writable(vs[i as int]));
                    assert forall|k: int| 0 <= k < start.len() implies out@[k] == start[k] by {
                        assert(out@.subrange(0, mid.len() as int)[k] == mid[k]);
                        assert(head.subrange(0, start.len() as int)[k] == start[k]);
                    }
                    assert(out@.subrange(0, start.len() as int) =~= start);
                }
                return Err(IsoError::InvalidData);
            }
            proof {
                assert(out@ =~= head + sgpd_ser_entries(vs.take(i + 1), lengths));
            }
            i = i + 1;
        }
        proof {
            assert(vs.take(i as int) =~= vs);
            assert(out@ =~= start + Self::spec_serialize_body(self@));
            lemma_append_prefix(start, Self::spec_serialize_body(self@));
        }
        Ok(())
    }
}

} // verus!
