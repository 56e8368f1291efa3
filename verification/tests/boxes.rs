use isobmff::boxes::audio_media::{
    AlbumLoudnessInfo, AudioSampleEntry, LoudnessBase, LoudnessBaseBox, LoudnessBaseMeasurement, TrackLoudnessInfo,
};
use isobmff::boxes::loudness::LoudnessBox;
use isobmff::boxes::entity_grouping::{AltrEntityToGroupBox, EntityToGroupBox};
use isobmff::boxes::file_delivery::{
    FDSessionGroupBox, FDSessionGroupBoxSessionGroup, FECReservoirBox, FECReservoirBoxEntry,
    FileReservoirBoxEntry, GroupIdToNameBox, GroupIdToNameBoxEntry,
};
use isobmff::boxes::file_organization::{Brand, TrackTypeBox};
use isobmff::boxes::general::{IdentifiedMediaDataBox, MediaDataBox, ProgressiveDownloadInfoBox, ProgressiveDownloadInfoBoxProperties};
use isobmff::boxes::incomplete_tracks::{CompleteTrackInfoBox, OriginalFormatBox};
use isobmff::boxes::item_properties::{
    ItemPropertyAssociationBox, ItemPropertyAssociationBoxEntry, ItemPropertyAssociationBoxEntryAssociation,
};
use isobmff::boxes::movie_fragments::{
    AlternativeStartupSequencePropertiesBox, AlternativeStartupSequencePropertiesBoxVersion,
    AlternativeStartupSequencePropertiesBoxVersion1Entry, LevelAssignmentBox, LevelAssignmentBoxLevel,
    LevelAssignmentBoxLevelAssignmentType, MovieFragmentHeaderBox, TrackFragmentHeaderBox,
    TrackFragmentRandomAccessBox, TrackFragmentRandomAccessBoxEntry, TrackRunBox, TrackRunBoxSample,
    TR_DATA_OFFSET_PRESENT, TR_SAMPLE_DURATION_PRESENT, TR_SAMPLE_SIZE_PRESENT,
};
use isobmff::boxes::sample_entries::SampleEntry;
use isobmff::boxes::sample_group::{SampleToGroupBox, SampleToGroupBoxEntry};
use isobmff::boxes::segments::SegmentIndexBoxReference;
use isobmff::codec::IsoError;
use isobmff::common_types::Utf8String;
use isobmff::frame::{parse_box, serialize_box, BoxBody};
use isobmff::header::FullBoxHeader;
use isobmff::versioned::VersionedWire;
use isobmff::wire::{IsoSized, Wire};

fn write_box<T: BoxBody>(x: &T) -> Vec<u8> {
    let mut out = Vec::new();
    serialize_box(x, &mut out).unwrap();
    assert_eq!(out.len(), x.size());
    out
}

fn fh(version: u8, flags: u32) -> FullBoxHeader {
    FullBoxHeader { version, flags }
}

#[test]
fn mfhd_roundtrip_and_size() {
    let b = MovieFragmentHeaderBox { full_header: fh(0, 0), sequence_number: 7 };
    let bytes = write_box(&b);
    assert_eq!(bytes, vec![0, 0, 0, 16, b'm', b'f', b'h', b'd', 0, 0, 0, 0, 0, 0, 0, 7]);
    let (back, end): (MovieFragmentHeaderBox, usize) = parse_box(&bytes, 0).unwrap();
    assert_eq!(back, b);
    assert_eq!(end, 16);
}

#[test]
fn truncated_box_is_unexpected_eof() {
    let data = [0u8, 0, 0, 16, b'm', b'f'];
    let r: Result<(MovieFragmentHeaderBox, usize), IsoError> = parse_box(&data, 0);
    assert_eq!(r.unwrap_err(), IsoError::UnexpectedEof);
}

#[test]
fn trun_new_sets_flags_from_first_sample() {
    let samples = vec![
        TrackRunBoxSample { sample_duration: Some(10), sample_size: Some(100), sample_flags: None, sample_composition_time_offset: None },
        TrackRunBoxSample { sample_duration: Some(11), sample_size: Some(101), sample_flags: None, sample_composition_time_offset: None },
    ];
    let b = TrackRunBox::new(samples, None);
    assert_eq!(b.version, 0);
    assert_eq!(b.flags, TR_DATA_OFFSET_PRESENT | TR_SAMPLE_DURATION_PRESENT | TR_SAMPLE_SIZE_PRESENT);
    assert_eq!(b.sample_count, 2);
    assert_eq!(b.data_offset, Some(0));
    let bytes = write_box(&b);
    let (back, _): (TrackRunBox, usize) = parse_box(&bytes, 0).unwrap();
    assert_eq!(back.samples.len(), 2);
    assert_eq!(back.samples[1].sample_size, Some(101));
    assert_eq!(back.data_offset, Some(0));
}

#[test]
fn tfhd_new_roundtrip() {
    let b = TrackFragmentHeaderBox::new(3, Some(0x1_0000_0000), None, Some(512), None, None);
    let bytes = write_box(&b);
    let (back, _): (TrackFragmentHeaderBox, usize) = parse_box(&bytes, 0).unwrap();
    assert_eq!(back, b);
    assert_eq!(bytes.len(), 8 + 4 + 4 + 8 + 4);
}

#[test]
fn reservoir_entries_by_version() {
    let e = FECReservoirBoxEntry { item_id: 5, symbol_count: 9 };
    assert_eq!(e.size(0), 6);
    assert_eq!(e.size(1), 8);
    let f = FileReservoirBoxEntry { item_id: 5, symbol_count: 9 };
    assert_eq!(f.size(0), 6);
    let b = FECReservoirBox { full_header: fh(0, 0), entry_count: 1, entries: vec![e] };
    let bytes = write_box(&b);
    assert_eq!(&bytes[8..], &[0, 0, 0, 0, 0, 1, 0, 5, 0, 0, 0, 9]);
    let (back, _): (FECReservoirBox, usize) = parse_box(&bytes, 0).unwrap();
    assert_eq!(back, b);
    let b1 = FECReservoirBox { full_header: fh(1, 0), entry_count: 1, entries: vec![FECReservoirBoxEntry { item_id: 0x10000, symbol_count: 1 }] };
    let bytes1 = write_box(&b1);
    let (back1, _): (FECReservoirBox, usize) = parse_box(&bytes1, 0).unwrap();
    assert_eq!(back1, b1);
}

#[test]
fn group_names_and_session_groups() {
    let b = GroupIdToNameBox {
        full_header: fh(0, 0),
        entry_count: 1,
        entries: vec![GroupIdToNameBoxEntry { group_id: 4, group_name: Utf8String("news".to_string()) }],
    };
    let bytes = write_box(&b);
    assert_eq!(&bytes[18..], b"news\0");
    let (back, _): (GroupIdToNameBox, usize) = parse_box(&bytes, 0).unwrap();
    assert_eq!(back.entries[0].group_name.0, "news");

    let s = FDSessionGroupBox {
        num_session_groups: 1,
        session_groups: vec![FDSessionGroupBoxSessionGroup {
            entry_count: 2,
            group_id: vec![1, 2],
            num_channels_in_session_group: 2,
            hint_track_id: vec![7, 8],
        }],
    };
    let sb = write_box(&s);
    let (sback, _): (FDSessionGroupBox, usize) = parse_box(&sb, 0).unwrap();
    assert_eq!(sback.session_groups, s.session_groups);
}

#[test]
fn invalid_utf8_name_is_invalid_data() {
    let data = [0u8, 0, 0, 1, 0xff, 0xfe, 0];
    assert_eq!(GroupIdToNameBoxEntry::parse(&data, 0).unwrap_err(), IsoError::InvalidData);
}

#[test]
fn measurement_byte_packs_two_nibbles() {
    let m = LoudnessBaseMeasurement { method_definition: 1, method_value: 2, measurement_system: 3, reliability: 5 };
    let mut out = Vec::new();
    m.serialize(&mut out).unwrap();
    assert_eq!(out, vec![1, 2, 0x35]);
    let (back, n) = LoudnessBaseMeasurement::parse(&out, 0).unwrap();
    assert_eq!(back, m);
    assert_eq!(n, 3);
}

#[test]
fn loudness_info_roundtrip_and_sizes() {
    let base = LoudnessBase {
        eq_set_id: Some(3),
        downmix_id: 100,
        drc_set_id: 60,
        bs_sample_peak_level: 4000,
        bs_true_peak_level: 17,
        measurement_system_for_tp: 9,
        reliability_for_tp: 2,
        measurement_count: 1,
        measurements: vec![LoudnessBaseMeasurement { method_definition: 1, method_value: 2, measurement_system: 3, reliability: 5 }],
    };
    assert_eq!(base.size_v(2), 1 + 7 + 3);
    let bb = LoudnessBaseBox { loudness_info_type: Some(1), loudness_base_count: 1, mae_group_id: Some(77), loudness_bases: vec![base] };
    assert_eq!(bb.size(2), 2 + 11);
    assert_eq!(bb.size(1), 1 + 11);
    assert_eq!(bb.size(0), 11);
    let b = TrackLoudnessInfo { full_header: fh(2, 0), base_box: bb };
    let bytes = write_box(&b);
    let (back, _): (TrackLoudnessInfo, usize) = parse_box(&bytes, 0).unwrap();
    assert_eq!(back.base_box.loudness_info_type, Some(1));
    assert_eq!(back.base_box.mae_group_id, Some(77));
    let lb = &back.base_box.loudness_bases[0];
    assert_eq!(lb.eq_set_id, Some(3));
    assert_eq!(lb.downmix_id, 100);
    assert_eq!(lb.drc_set_id, 60);
    assert_eq!(lb.bs_sample_peak_level, 4000);
    assert_eq!(lb.bs_true_peak_level, 17);
    assert_eq!(lb.measurement_system_for_tp, 9);
    assert_eq!(lb.reliability_for_tp, 2);
}

#[test]
fn loudness_missing_group_is_invalid_data() {
    let bb = LoudnessBaseBox { loudness_info_type: Some(2), loudness_base_count: 0, mae_group_id: None, loudness_bases: vec![] };
    let mut out = Vec::new();
    assert_eq!(bb.serialize_v(&mut out, 2).unwrap_err(), IsoError::InvalidData);
}

#[test]
fn audio_sample_entry_new() {
    let e = AudioSampleEntry::new(SampleEntry::default(), 2, 16, 48000 << 16);
    assert_eq!(e.reserved1, 0);
    assert_eq!(e.pre_defined, 0);
    assert_eq!(e.sample_entry.data_reference_index, 1);
    let mut out = Vec::new();
    e.serialize(&mut out).unwrap();
    assert_eq!(out.len(), e.size());
    let (back, n) = AudioSampleEntry::parse(&out, 0).unwrap();
    assert_eq!(back, e);
    assert_eq!(n, 28);
}

#[test]
fn segment_reference_bits() {
    let r = SegmentIndexBoxReference {
        reference_type: true,
        referenced_size: 0x10,
        subsegment_duration: 5,
        starts_with_sap: true,
        sap_type: 3,
        sap_delta_time: 0x20,
    };
    let mut out = Vec::new();
    r.serialize(&mut out).unwrap();
    assert_eq!(out, vec![0x80, 0, 0, 0x10, 0, 0, 0, 5, 0xB0, 0, 0, 0x20]);
    let (back, _) = SegmentIndexBoxReference::parse(&out, 0).unwrap();
    assert_eq!(back, r);
}

#[test]
fn level_assignment_roundtrip() {
    let l1 = LevelAssignmentBoxLevel {
        track_id: 1,
        padding_flag: true,
        assignment_type: LevelAssignmentBoxLevelAssignmentType::Type1 { grouping_type: *b"roll", grouping_type_parameter: 9 },
    };
    let l2 = LevelAssignmentBoxLevel { track_id: 2, padding_flag: false, assignment_type: LevelAssignmentBoxLevelAssignmentType::Other(9) };
    assert_eq!(l1.assignment_type.assignment_type(), 1);
    assert_eq!(l2.assignment_type.assignment_type(), 9);
    assert_eq!(l1.size(), 13);
    assert_eq!(l2.size(), 5);
    let b = LevelAssignmentBox { full_header: fh(0, 0), level_count: 2, levels: vec![l1, l2] };
    let bytes = write_box(&b);
    assert_eq!(bytes[8 + 5 + 4], 0x81);
    let (back, _): (LevelAssignmentBox, usize) = parse_box(&bytes, 0).unwrap();
    assert_eq!(back.levels, vec![l1, l2]);
}

#[test]
fn tfra_roundtrip_with_lengths() {
    let b = TrackFragmentRandomAccessBox {
        full_header: fh(1, 0),
        track_id: 2,
        length_size_of_traf_num: 0,
        length_size_of_trun_num: 1,
        length_size_of_sample_num: 2,
        number_of_entry: 1,
        entries: vec![TrackFragmentRandomAccessBoxEntry { time: 1 << 40, moof_offset: 77, traf_number: 1, trun_number: 0x102, sample_delta: 0x10203 }],
    };
    assert_eq!(b.entries[0].size(&b), 16 + 1 + 2 + 3);
    let bytes = write_box(&b);
    assert_eq!(bytes.len(), 8 + 16 + 22);
    let (back, _): (TrackFragmentRandomAccessBox, usize) = parse_box(&bytes, 0).unwrap();
    assert_eq!(back, b);
}

#[test]
fn tfra_length_over_two_bits_is_invalid_data() {
    let b = TrackFragmentRandomAccessBox {
        full_header: fh(0, 0),
        track_id: 2,
        length_size_of_traf_num: 4,
        length_size_of_trun_num: 0,
        length_size_of_sample_num: 0,
        number_of_entry: 0,
        entries: vec![],
    };
    let mut out = Vec::new();
    assert_eq!(serialize_box(&b, &mut out).unwrap_err(), IsoError::InvalidData);
}

#[test]
fn sbgp_versions() {
    let b = SampleToGroupBox {
        full_header: fh(1, 0),
        grouping_type: *b"roll",
        grouping_type_parameter: Some(5),
        entry_count: 1,
        entries: vec![SampleToGroupBoxEntry { sample_count: 3, group_description_index: 1 }],
    };
    let bytes = write_box(&b);
    let (back, _): (SampleToGroupBox, usize) = parse_box(&bytes, 0).unwrap();
    assert_eq!(back, b);
    let missing = SampleToGroupBox { grouping_type_parameter: None, ..b };
    let mut out = Vec::new();
    assert_eq!(serialize_box(&missing, &mut out).unwrap_err(), IsoError::InvalidData);
}

#[test]
fn ipma_wide_indexes() {
    let a = ItemPropertyAssociationBoxEntryAssociation { essential: true, property_index: 300 };
    assert_eq!(a.size(1), 2);
    assert_eq!(a.size(0), 1);
    let e = ItemPropertyAssociationBoxEntry { item_id: 70000, association_count: 1, associations: vec![a] };
    assert_eq!(e.size(&fh(1, 1)), 4 + 1 + 2);
    let b = ItemPropertyAssociationBox { full_header: fh(1, 1), entry_count: 1, entries: vec![e] };
    let bytes = write_box(&b);
    assert_eq!(&bytes[bytes.len() - 2..], &[0x81, 0x2C]);
    let (back, _): (ItemPropertyAssociationBox, usize) = parse_box(&bytes, 0).unwrap();
    assert_eq!(back, b);
}

#[test]
fn altr_roundtrip() {
    let b = AltrEntityToGroupBox {
        full_header: fh(0, 0),
        entity_to_group: EntityToGroupBox { group_id: 1, num_entities_in_group: 2, entity_id: vec![10, 11] },
    };
    let bytes = write_box(&b);
    let (back, _): (AltrEntityToGroupBox, usize) = parse_box(&bytes, 0).unwrap();
    assert_eq!(back, b);
}

#[test]
fn cinf_roundtrip_and_missing_format() {
    let b = CompleteTrackInfoBox { original_format: OriginalFormatBox { data_format: *b"avc1" } };
    let bytes = write_box(&b);
    assert_eq!(bytes.len(), 20);
    let (back, _): (CompleteTrackInfoBox, usize) = parse_box(&bytes, 0).unwrap();
    assert_eq!(back, b);
    let empty = [0u8, 0, 0, 8, b'c', b'i', b'n', b'f'];
    let r: Result<(CompleteTrackInfoBox, usize), IsoError> = parse_box(&empty, 0);
    assert_eq!(r.unwrap_err(), IsoError::InvalidData);
}

#[test]
fn assp_version_one_roundtrip() {
    let b = AlternativeStartupSequencePropertiesBox {
        full_header: fh(1, 0),
        version: AlternativeStartupSequencePropertiesBoxVersion::Version1 {
            num_entries: 1,
            entries: vec![AlternativeStartupSequencePropertiesBoxVersion1Entry { grouping_type_parameter: 4, min_initial_alt_startup_offset: -3 }],
        },
    };
    let bytes = write_box(&b);
    let (back, _): (AlternativeStartupSequencePropertiesBox, usize) = parse_box(&bytes, 0).unwrap();
    assert_eq!(back, b);
}

#[test]
fn general_boxes_roundtrip() {
    let m = MediaDataBox::new(vec![1, 2, 3]);
    let mb = write_box(&m);
    assert_eq!(mb.len(), 11);
    let i = IdentifiedMediaDataBox { imda_identifier: 9, data: vec![4, 5] };
    let ib = write_box(&i);
    let (iback, _): (IdentifiedMediaDataBox, usize) = parse_box(&ib, 0).unwrap();
    assert_eq!(iback, i);
    let p = ProgressiveDownloadInfoBox {
        full_header: fh(0, 0),
        properties: vec![ProgressiveDownloadInfoBoxProperties { rate: 1000, initial_delay: 20 }],
    };
    let pb = write_box(&p);
    let (pback, _): (ProgressiveDownloadInfoBox, usize) = parse_box(&pb, 0).unwrap();
    assert_eq!(pback.properties, p.properties);
}

#[test]
fn ttyp_roundtrip() {
    let t = TrackTypeBox { major_brand: Brand(*b"isom"), minor_version: 1, compatible_brands: vec![Brand(*b"iso6")] };
    let tb = write_box(&t);
    let (back, _): (TrackTypeBox, usize) = parse_box(&tb, 0).unwrap();
    assert_eq!(back, t);
}

fn small_base_box() -> LoudnessBaseBox {
    let base = LoudnessBase {
        eq_set_id: None,
        downmix_id: 1,
        drc_set_id: 2,
        bs_sample_peak_level: 3,
        bs_true_peak_level: 4,
        measurement_system_for_tp: 5,
        reliability_for_tp: 6,
        measurement_count: 0,
        measurements: vec![],
    };
    LoudnessBaseBox { loudness_info_type: None, loudness_base_count: 1, mae_group_id: None, loudness_bases: vec![base] }
}

#[test]
fn ludt_holds_track_and_album_loudness() {
    let b = LoudnessBox {
        loudness: vec![TrackLoudnessInfo { full_header: fh(0, 0), base_box: small_base_box() }],
        album_loudness: vec![
            AlbumLoudnessInfo { full_header: fh(0, 0), base_box: small_base_box() },
            AlbumLoudnessInfo { full_header: fh(0, 0), base_box: small_base_box() },
        ],
    };
    let bytes = write_box(&b);
    // header 8, then three boxes of header 8, full header 4 and one base of 7 bytes
    assert_eq!(bytes.len(), 8 + 3 * (8 + 4 + 7));
    assert_eq!(&bytes[4..8], b"ludt");
    assert_eq!(&bytes[12..16], b"tlou");
    assert_eq!(&bytes[31..35], b"alou");
    let (back, end): (LoudnessBox, usize) = parse_box(&bytes, 0).unwrap();
    assert_eq!(end, bytes.len());
    assert_eq!(back.loudness.len(), 1);
    assert_eq!(back.album_loudness.len(), 2);
    assert_eq!(back.album_loudness[1].base_box.loudness_bases[0].drc_set_id, 2);
}
