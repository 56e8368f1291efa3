use isobmff::boxes::edit::EditBox;
use isobmff::boxes::data_reference::{DataInformationBox, DataReferenceBox};
use isobmff::boxes::movie_extends::MovieExtendsBox;
use isobmff::boxes::fragment_random_access::MovieFragmentRandomAccessBox;
use isobmff::boxes::aux_info::{SampleAuxiliaryInformationOffsetsBox, SampleAuxiliaryInformationSizesBox};
use isobmff::boxes::file_delivery::{FilePartitionBox, FilePartitionBoxEntry};
use isobmff::boxes::item_info::{
    ItemInfoBox, ItemInfoEntry, ItemInfoEntryItem, ItemInfoExtension,
};
use isobmff::boxes::item_reference::{ItemReferenceBox, PrimaryItemBox, SingleItemTypeReferenceBox};
use isobmff::boxes::media_headers::{MediaHeaderBox, MovieHeaderBox, TrackHeaderBox};
use isobmff::boxes::sample_entries::{SampleEntry, VisualSampleEntry};
use isobmff::boxes::sample_group_description::{SampleGroupDescriptionBox, SampleGroupDescriptionEntry};
use isobmff::boxes::sample_groups::{AlternativeStartupEntry, AlternativeStartupEntryNums, RollRecoveryEntry};
use isobmff::boxes::schemes::{CompatibleSchemeTypeBox, SchemeTypeBox};
use isobmff::boxes::segments::{
    ProducerReferenceTimeBox, SegmentIndexBox, SegmentIndexBoxReference, SubsegmentIndexBox,
    SubsegmentIndexBoxSubsegment, SubsegmentIndexBoxSubsegmentRange,
};
use isobmff::boxes::sub_samples::{SubSampleInformationBox, SubSampleInformationBoxEntry, SubSampleInformationBoxEntrySubSample};
use isobmff::boxes::track_data_layout::{DataEntryUrlBox, DataEntryUrnBox};
use isobmff::boxes::track_media::{HandlerBox, HandlerType};
use isobmff::boxes::track_time::{
    CompositionOffsetBox, CompositionOffsetBoxEntry, CompositionToDecodeBox, EditListBox, EditListBoxEntry,
};
use isobmff::boxes::video_media::{ColourInformation, ColourInformationBox, NclxColourInformation};
use isobmff::codec::IsoError;
use isobmff::common_types::{Base64String, Utf8String};
use isobmff::frame::{parse_box, serialize_box, BoxBody, UnknownBox};
use isobmff::boxes::sample_table::{DegradationPriorityBox, SampleDescriptionBox};
use isobmff::boxes::track_data_layout::{CompactSampleSizeBox, SampleSizeBox};
use isobmff::boxes::track_media::{
    ExtendedLanguageBox, HintMediaHeaderBox, NullMediaHeaderBox, SubtitleMediaHeaderBox, VideoMediaHeaderBox,
    VolumetricVisualMediaHeaderBox,
};
use isobmff::boxes::sub_tracks::{SubTrackBox, SubTrackDefinitionBox, SubTrackInformationBox, SubTrackSampleGroupBox};
use isobmff::boxes::user_data::{CopyrightBox, KindBox, TrackSelectionBox};
use isobmff::boxes::user_data_box::UserDataBox;
use isobmff::common_types::Langauge;
use isobmff::header::{BoxHeader, BoxSize, BoxType, FullBoxHeader};
use isobmff::wire::{IsoSized, Wire};

fn write_box<T: BoxBody>(x: &T) -> Vec<u8> {
    let mut out = Vec::new();
    serialize_box(x, &mut out).unwrap();
    assert_eq!(out.len(), x.size());
    out
}

fn read_box<T: BoxBody>(bytes: &[u8]) -> T {
    let (x, end): (T, usize) = parse_box(bytes, 0).unwrap();
    assert_eq!(end, bytes.len());
    x
}

fn fh(version: u8, flags: u32) -> FullBoxHeader {
    FullBoxHeader { version, flags }
}

fn s(text: &str) -> Utf8String {
    Utf8String(text.to_string())
}

#[test]
fn mvhd_new_writes_version_0() {
    let b = MovieHeaderBox::new(1, 2, 1000, 5000, 3);
    let bytes = write_box(&b);
    assert_eq!(bytes.len(), 108);
    assert_eq!(&bytes[4..8], b"mvhd");
    let back: MovieHeaderBox = read_box(&bytes);
    assert_eq!(back, b);
}

#[test]
fn mvhd_version_1_has_64_bit_times() {
    let mut b = MovieHeaderBox::new(1, 2, 1000, 0x1_0000_0000, 3);
    b.full_header = fh(1, 0);
    let bytes = write_box(&b);
    assert_eq!(bytes.len(), 120);
    let back: MovieHeaderBox = read_box(&bytes);
    assert_eq!(back.duration, 0x1_0000_0000);
}

#[test]
fn tkhd_new_picks_version_and_flags() {
    let small = TrackHeaderBox::new(1, 2, 7, 100, Some((640, 480)));
    assert_eq!(small.version, 0);
    assert_eq!(small.flags, 3);
    assert_eq!(small.width, 640 << 16);
    let large = TrackHeaderBox::new(1, 2, 7, 0x1_0000_0000, None);
    assert_eq!(large.version, 1);
    let back: TrackHeaderBox = read_box(&write_box(&large));
    assert_eq!(back, large);
    assert_eq!(write_box(&small).len(), 92);
}

#[test]
fn mdhd_new_is_undetermined_language() {
    let b = MediaHeaderBox::new(0, 0, 48000, 96000);
    let bytes = write_box(&b);
    assert_eq!(bytes.len(), 32);
    assert_eq!(&bytes[28..30], &[0x55, 0xc4]);
    assert_eq!(read_box::<MediaHeaderBox>(&bytes), b);
}

#[test]
fn cslg_layouts() {
    let narrow = CompositionToDecodeBox {
        full_header: fh(0, 0),
        composition_to_dt_shift: -1,
        least_decode_to_display_delta: -2,
        greatest_decode_to_display_delta: 3,
        composition_start_time: 4,
        composition_end_time: 5,
    };
    let bytes = write_box(&narrow);
    assert_eq!(bytes.len(), 32);
    assert_eq!(&bytes[12..16], &[0xff, 0xff, 0xff, 0xff]);
    assert_eq!(read_box::<CompositionToDecodeBox>(&bytes), narrow);
    let wide = CompositionToDecodeBox { full_header: fh(1, 0), composition_end_time: 1 << 40, ..narrow };
    let bytes = write_box(&wide);
    assert_eq!(bytes.len(), 52);
    assert_eq!(read_box::<CompositionToDecodeBox>(&bytes), wide);
}

#[test]
fn elst_entries_follow_the_version() {
    let e = EditListBoxEntry { edit_duration: 10, media_time: -1, media_rate: 0x10000 };
    assert_eq!(e.size(0), 12);
    assert_eq!(e.size(1), 20);
    for version in [0u8, 1u8] {
        let b = EditListBox { full_header: fh(version, 0), entry_count: 2, entries: vec![e, e] };
        let bytes = write_box(&b);
        let back: EditListBox = read_box(&bytes);
        assert_eq!(back.entries, vec![e, e]);
        assert_eq!(back.entry_count, 2);
    }
}

#[test]
fn elst_short_entries_are_eof() {
    let bytes = [0u8, 0, 0, 20, b'e', b'l', b's', b't', 0, 0, 0, 0, 0, 0, 0, 1, 0, 0, 0, 5];
    let r: Result<(EditListBox, usize), IsoError> = parse_box(&bytes, 0);
    assert_eq!(r.unwrap_err(), IsoError::UnexpectedEof);
}

fn mime_entry(version: u8, id: u32) -> ItemInfoEntry {
    ItemInfoEntry {
        full_header: fh(version, 0),
        item_id: Some(id),
        item_protection_index: 0,
        item_type: *b"mime",
        item_name: s("a"),
        item: Some(ItemInfoEntryItem::Mime { content_type: s("text/plain"), content_encoding: s("") }),
        extension_type: None,
        extension: None,
    }
}

#[test]
fn infe_version_2_uri_roundtrip() {
    let b = ItemInfoEntry {
        full_header: fh(2, 0),
        item_id: Some(9),
        item_protection_index: 1,
        item_type: *b"uri ",
        item_name: s("name"),
        item: Some(ItemInfoEntryItem::Uri { item_uri_type: s("urn:x") }),
        extension_type: None,
        extension: None,
    };
    let bytes = write_box(&b);
    let back: ItemInfoEntry = read_box(&bytes);
    assert_eq!(back.item_id, Some(9));
    assert_eq!(back.item_type, *b"uri ");
    assert_eq!(back.item_name.0, "name");
    match back.item {
        Some(ItemInfoEntryItem::Uri { item_uri_type }) => assert_eq!(item_uri_type.0, "urn:x"),
        _ => panic!("expected a URI item"),
    }
}

#[test]
fn infe_version_1_fdel_extension_roundtrip() {
    let mut b = mime_entry(1, 4);
    b.extension_type = Some(*b"fdel");
    b.extension = Some(ItemInfoExtension::FDItemInfoExtension {
        current_location: s("http://x"),
        current_md5: s("abc"),
        content_length: 10,
        transfer_length: 20,
        entry_count: 2,
        group_id: vec![7, 8],
    });
    let back: ItemInfoEntry = read_box(&write_box(&b));
    assert_eq!(back.extension_type, Some(*b"fdel"));
    match back.extension {
        Some(ItemInfoExtension::FDItemInfoExtension { content_length, transfer_length, group_id, .. }) => {
            assert_eq!((content_length, transfer_length), (10, 20));
            assert_eq!(group_id, vec![7, 8]);
        },
        _ => panic!("expected file delivery information"),
    }
}

#[test]
fn infe_without_item_id_is_invalid() {
    let mut b = mime_entry(0, 1);
    b.item_id = None;
    let mut out = Vec::new();
    assert_eq!(serialize_box(&b, &mut out).unwrap_err(), IsoError::InvalidData);
}

#[test]
fn iinf_counts_in_16_bits_in_version_0() {
    let b = ItemInfoBox { full_header: fh(0, 0), entry_count: 2, item_infos: vec![mime_entry(0, 1), mime_entry(2, 2)] };
    let bytes = write_box(&b);
    assert_eq!(&bytes[12..14], &[0, 2]);
    let back: ItemInfoBox = read_box(&bytes);
    assert_eq!(back.entry_count, 2);
    assert_eq!(back.item_infos.len(), 2);
    assert_eq!(back.item_infos[1].item_id, Some(2));
}

#[test]
fn sgpd_roll_entries_with_default_length() {
    let b = SampleGroupDescriptionBox {
        full_header: fh(1, 0),
        grouping_type: *b"roll",
        default_length: Some(2),
        default_group_description_index: None,
        entry_count: 2,
        entries: vec![
            SampleGroupDescriptionEntry::RollRecovery(RollRecoveryEntry { roll_distance: -1 }),
            SampleGroupDescriptionEntry::RollRecovery(RollRecoveryEntry { roll_distance: 2 }),
        ],
    };
    let bytes = write_box(&b);
    assert_eq!(bytes.len(), 8 + 16 + 4);
    let back: SampleGroupDescriptionBox = read_box(&bytes);
    match &back.entries[0] {
        SampleGroupDescriptionEntry::RollRecovery(e) => assert_eq!(e.roll_distance, -1),
        _ => panic!("expected a roll entry"),
    }
}

#[test]
fn sgpd_unknown_entries_carry_their_lengths() {
    let b = SampleGroupDescriptionBox {
        full_header: fh(2, 0),
        grouping_type: *b"zzzz",
        default_length: Some(0),
        default_group_description_index: Some(1),
        entry_count: 2,
        entries: vec![
            SampleGroupDescriptionEntry::Unknown { grouping_type: *b"zzzz", data: vec![1, 2, 3] },
            SampleGroupDescriptionEntry::Unknown { grouping_type: *b"zzzz", data: vec![] },
        ],
    };
    let bytes = write_box(&b);
    assert_eq!(&bytes[28..32], &[0, 0, 0, 3]);
    let back: SampleGroupDescriptionBox = read_box(&bytes);
    assert_eq!(back.default_group_description_index, Some(1));
    match &back.entries[0] {
        SampleGroupDescriptionEntry::Unknown { data, .. } => assert_eq!(data, &vec![1, 2, 3]),
        _ => panic!("expected an unknown entry"),
    }
}

#[test]
fn sgpd_alternative_startup_runs_to_the_end() {
    let b = SampleGroupDescriptionBox {
        full_header: fh(1, 0),
        grouping_type: *b"alst",
        default_length: Some(16),
        default_group_description_index: None,
        entry_count: 1,
        entries: vec![SampleGroupDescriptionEntry::AlternativeStartup(AlternativeStartupEntry {
            roll_count: 1,
            first_output_sample: 1,
            sample_offset: vec![5],
            nums: vec![AlternativeStartupEntryNums { num_output_samples: 1, num_total_samples: 2 }],
        })],
    };
    let back: SampleGroupDescriptionBox = read_box(&write_box(&b));
    match &back.entries[0] {
        SampleGroupDescriptionEntry::AlternativeStartup(e) => {
            assert_eq!(e.sample_offset, vec![5]);
            assert_eq!(e.nums.len(), 1);
        },
        _ => panic!("expected an alternative startup entry"),
    }
}

#[test]
fn sgpd_version_1_needs_default_length() {
    let b = SampleGroupDescriptionBox {
        full_header: fh(1, 0),
        grouping_type: *b"roll",
        default_length: None,
        default_group_description_index: None,
        entry_count: 0,
        entries: vec![],
    };
    let mut out = Vec::new();
    assert_eq!(serialize_box(&b, &mut out).unwrap_err(), IsoError::InvalidData);
}

#[test]
fn visual_sample_entry_new_and_roundtrip() {
    let e = VisualSampleEntry::new(SampleEntry { reserved: [0; 6], data_reference_index: 1 }, 1920, 1080, [0; 32]);
    assert_eq!(e.horiz_resolution, 0x0048_0000);
    assert_eq!(e.frame_count, 1);
    assert_eq!(e.depth, 0x18);
    assert_eq!(e.pre_defined4, -1);
    let mut out = Vec::new();
    e.serialize(&mut out).unwrap();
    assert_eq!(out.len(), 78);
    assert_eq!(out.len(), e.size());
    let (back, n) = VisualSampleEntry::parse(&out, 0).unwrap();
    assert_eq!(n, 78);
    assert_eq!(back, e);
}

#[test]
fn saiz_and_saio_roundtrip() {
    let z = SampleAuxiliaryInformationSizesBox {
        full_header: fh(0, 1),
        aux_info_type: Some(0x63656e63),
        aux_info_type_parameter: Some(0),
        default_sample_info_size: 0,
        sample_count: 3,
        sample_info_size: Some(vec![8, 9, 10]),
    };
    let back: SampleAuxiliaryInformationSizesBox = read_box(&write_box(&z));
    assert_eq!(back.sample_info_size, Some(vec![8, 9, 10]));
    assert_eq!(back.aux_info_type, Some(0x63656e63));
    for version in [0u8, 1u8] {
        let o = SampleAuxiliaryInformationOffsetsBox {
            full_header: fh(version, 0),
            aux_info_type: None,
            aux_info_type_parameter: None,
            entry_count: 2,
            offset: vec![100, 200],
        };
        let bytes = write_box(&o);
        assert_eq!(bytes.len(), 16 + if version == 0 { 8 } else { 16 });
        let back: SampleAuxiliaryInformationOffsetsBox = read_box(&bytes);
        assert_eq!(back.offset, vec![100, 200]);
    }
}

#[test]
fn iref_references_follow_the_version() {
    let hdr = BoxHeader { size: BoxSize::Short(16), box_type: BoxType::FourCc(*b"dimg") };
    let r = SingleItemTypeReferenceBox { large: false, header: hdr, from_item_id: 1, reference_count: 2, to_item_id: vec![2, 3] };
    assert_eq!(r.size(), 16);
    let b = ItemReferenceBox { full_header: fh(0, 0), references: vec![r] };
    let back: ItemReferenceBox = read_box(&write_box(&b));
    assert_eq!(back.references.len(), 1);
    assert_eq!(back.references[0].to_item_id, vec![2, 3]);
    assert!(!back.references[0].large);
}

#[test]
fn pitm_width_follows_version() {
    let b = PrimaryItemBox { full_header: fh(0, 0), item_id: 5 };
    assert_eq!(write_box(&b).len(), 14);
    let wide = PrimaryItemBox { full_header: fh(1, 0), item_id: 0x10000 };
    assert_eq!(read_box::<PrimaryItemBox>(&write_box(&wide)), wide);
}

#[test]
fn sidx_prft_ssix_roundtrip() {
    let r = SegmentIndexBoxReference {
        reference_type: false,
        referenced_size: 1000,
        subsegment_duration: 90000,
        starts_with_sap: true,
        sap_type: 1,
        sap_delta_time: 0,
    };
    for version in [0u8, 1u8] {
        let b = SegmentIndexBox {
            header: fh(version, 0),
            reference_id: 1,
            timescale: 90000,
            earliest_presentation_time: 7,
            first_offset: 0,
            reserved: 0,
            reference_count: 1,
            references: vec![r],
        };
        let back: SegmentIndexBox = read_box(&write_box(&b));
        assert_eq!(back.references, vec![r]);
        assert_eq!(back.earliest_presentation_time, 7);
    }
    let p = ProducerReferenceTimeBox { header: fh(1, 0), reference_track_id: 1, ntp_timestamp: 2, media_time: 3 };
    assert_eq!(read_box::<ProducerReferenceTimeBox>(&write_box(&p)), p);
    let x = SubsegmentIndexBox {
        header: fh(0, 0),
        subsegment_count: 1,
        subsegments: vec![SubsegmentIndexBoxSubsegment {
            range_count: 1,
            ranges: vec![SubsegmentIndexBoxSubsegmentRange { level: 1, range_size: 300 }],
        }],
    };
    let back: SubsegmentIndexBox = read_box(&write_box(&x));
    assert_eq!(back.subsegments[0].ranges, vec![SubsegmentIndexBoxSubsegmentRange { level: 1, range_size: 300 }]);
}

#[test]
fn prft_version_0_reads_32_bit_media_time() {
    let p = ProducerReferenceTimeBox { header: fh(0, 0), reference_track_id: 1, ntp_timestamp: 2, media_time: 3 };
    let bytes = write_box(&p);
    assert_eq!(bytes.len(), 32);
    let back: ProducerReferenceTimeBox = read_box(&bytes);
    assert_eq!(back.media_time, 0);
}

#[test]
fn colr_roundtrip() {
    let n = ColourInformationBox {
        colour_info: ColourInformation::Nclx(NclxColourInformation {
            colour_primaries: 1,
            transfer_characteristics: 1,
            matrix_coefficients: 1,
            full_range_flag: true,
        }),
    };
    let bytes = write_box(&n);
    assert_eq!(bytes.len(), 19);
    match read_box::<ColourInformationBox>(&bytes).colour_info {
        ColourInformation::Nclx(i) => assert!(i.full_range_flag),
        _ => panic!("expected nclx"),
    }
    let p = ColourInformationBox { colour_info: ColourInformation::RIcc { icc_profile: vec![1, 2] } };
    match read_box::<ColourInformationBox>(&write_box(&p)).colour_info {
        ColourInformation::RIcc { icc_profile } => assert_eq!(icc_profile, vec![1, 2]),
        _ => panic!("expected rICC"),
    }
}

#[test]
fn schm_uri_follows_flag() {
    let b = SchemeTypeBox { full_header: fh(0, 1), scheme_type: *b"cenc", scheme_version: 0x10000, scheme_uri: Some(s("u")) };
    let back: SchemeTypeBox = read_box(&write_box(&b));
    assert_eq!(back.scheme_uri.map(|u| u.0), Some("u".to_string()));
    let c = CompatibleSchemeTypeBox { header: fh(0, 1), scheme_type: *b"cenc", scheme_version: 1, scheme_uri: None };
    let mut out = Vec::new();
    assert_eq!(serialize_box(&c, &mut out).unwrap_err(), IsoError::InvalidData);
}

#[test]
fn subs_sizes_follow_version() {
    let sub = SubSampleInformationBoxEntrySubSample { subsample_size: 100, subsample_priority: 1, discardable: 0, codec_specific_parameters: 0 };
    assert_eq!(sub.size(0), 8);
    assert_eq!(sub.size(1), 10);
    let b = SubSampleInformationBox {
        full_header: fh(1, 0),
        entry_count: 1,
        entries: vec![SubSampleInformationBoxEntry { sample_delta: 1, subsample_count: 1, subsample_info: vec![sub] }],
    };
    let back: SubSampleInformationBox = read_box(&write_box(&b));
    assert_eq!(back.entries[0].subsample_info, vec![sub]);
}

#[test]
fn fpar_roundtrip_with_base64_info() {
    let b = FilePartitionBox {
        header: fh(0, 0),
        item_id: 3,
        packet_payload_size: 1000,
        reserved: 0,
        fec_encoding_id: 1,
        fec_instance_id: 0,
        max_source_block_length: 10,
        encoding_symbol_length: 20,
        max_number_of_encoding_symbols: 30,
        scheme_specific_info: Base64String(b"hi".to_vec()),
        entry_count: 1,
        entries: vec![FilePartitionBoxEntry { block_count: 2, block_size: 512 }],
    };
    let bytes = write_box(&b);
    assert_eq!(&bytes[26..31], b"aGk=\0");
    let back: FilePartitionBox = read_box(&bytes);
    assert_eq!(back.scheme_specific_info.0, b"hi".to_vec());
    assert_eq!(back.entries, vec![FilePartitionBoxEntry { block_count: 2, block_size: 512 }]);
}

#[test]
fn ctts_entries_roundtrip_with_32_bit_offsets() {
    let empty = CompositionOffsetBox { full_header: fh(0, 0), entry_count: 0, entries: vec![] };
    let back: CompositionOffsetBox = read_box(&write_box(&empty));
    assert_eq!(back.entries, vec![]);
    let one = CompositionOffsetBox {
        full_header: fh(1, 0),
        entry_count: 1,
        entries: vec![CompositionOffsetBoxEntry { sample_count: 1, sample_offset: -2 }],
    };
    let bytes = write_box(&one);
    assert_eq!(bytes.len(), 24);
    assert_eq!(&bytes[20..24], &[0xff, 0xff, 0xff, 0xfe]);
    let back: CompositionOffsetBox = read_box(&bytes);
    assert_eq!(back.entries, one.entries);
    let unsigned = CompositionOffsetBox {
        full_header: fh(0, 0),
        entry_count: 2,
        entries: vec![
            CompositionOffsetBoxEntry { sample_count: 3, sample_offset: 0xffff_fff0 },
            CompositionOffsetBoxEntry { sample_count: 4, sample_offset: 7 },
        ],
    };
    let back: CompositionOffsetBox = read_box(&write_box(&unsigned));
    assert_eq!(back.entries, unsigned.entries);
}

#[test]
fn hdlr_new_and_roundtrip() {
    let b = HandlerBox::new(HandlerType(*b"vide"), s("VideoHandler"));
    assert_eq!(b.pre_defined, 0);
    let bytes = write_box(&b);
    assert_eq!(bytes.len(), 8 + 24 + 13);
    let back: HandlerBox = read_box(&bytes);
    assert_eq!(back.handler_type, HandlerType(*b"vide"));
    assert_eq!(back.name.0, "VideoHandler");
}

#[test]
fn url_and_urn_roundtrip() {
    let local = DataEntryUrlBox { full_header: fh(0, 1), location: None };
    let bytes = write_box(&local);
    assert_eq!(bytes.len(), 12);
    assert!(read_box::<DataEntryUrlBox>(&bytes).location.is_none());
    let urn = DataEntryUrnBox { full_header: fh(0, 0), name: s("n"), location: Some(s("l")) };
    let back: DataEntryUrnBox = read_box(&write_box(&urn));
    assert_eq!(back.name.0, "n");
    assert_eq!(back.location.map(|l| l.0), Some("l".to_string()));
}

fn sample_tfra(track_id: u32) -> isobmff::boxes::movie_fragments::TrackFragmentRandomAccessBox {
    isobmff::boxes::movie_fragments::TrackFragmentRandomAccessBox {
        full_header: fh(0, 0),
        track_id,
        length_size_of_traf_num: 0,
        length_size_of_trun_num: 0,
        length_size_of_sample_num: 0,
        number_of_entry: 1,
        entries: vec![isobmff::boxes::movie_fragments::TrackFragmentRandomAccessBoxEntry {
            time: 10,
            moof_offset: 20,
            traf_number: 1,
            trun_number: 1,
            sample_delta: 1,
        }],
    }
}

fn sample_mfro() -> isobmff::boxes::movie_fragments::MovieFragmentRandomAccessOffsetBox {
    isobmff::boxes::movie_fragments::MovieFragmentRandomAccessOffsetBox { full_header: fh(0, 0), parent_size: 99 }
}

#[test]
fn mfra_roundtrip_keeps_boxes_in_order() {
    let b = MovieFragmentRandomAccessBox { tfra: vec![sample_tfra(1), sample_tfra(2)], mfro: sample_mfro() };
    let bytes = write_box(&b);
    // header, two tfra boxes of 8 + 16 + 11 bytes, an mfro box of 16 bytes
    assert_eq!(bytes.len(), 8 + 2 * (8 + 16 + 11) + 16);
    assert_eq!(&bytes[4..8], b"mfra");
    assert_eq!(&bytes[12..16], b"tfra");
    let back: MovieFragmentRandomAccessBox = read_box(&bytes);
    assert_eq!(back, b);
    assert_eq!(back.tfra[1].track_id, 2);
    assert_eq!(back.mfro.parent_size, 99);
}

#[test]
fn mfra_without_offset_box_is_invalid_data() {
    let mut payload = Vec::new();
    serialize_box(&sample_tfra(1), &mut payload).unwrap();
    let mut bytes = vec![0, 0, 0, (8 + payload.len()) as u8];
    bytes.extend_from_slice(b"mfra");
    bytes.extend_from_slice(&payload);
    let r: Result<(MovieFragmentRandomAccessBox, usize), IsoError> = parse_box(&bytes, 0);
    assert_eq!(r.unwrap_err(), IsoError::InvalidData);
}

#[test]
fn mfra_skips_unknown_boxes_and_trailing_bytes() {
    let mut payload = vec![0, 0, 0, 10];
    payload.extend_from_slice(b"zzzz");
    payload.extend_from_slice(&[7, 7]);
    serialize_box(&sample_mfro(), &mut payload).unwrap();
    payload.extend_from_slice(&[1, 2, 3]);
    let mut bytes = vec![0, 0, 0, (8 + payload.len()) as u8];
    bytes.extend_from_slice(b"mfra");
    bytes.extend_from_slice(&payload);
    let back: MovieFragmentRandomAccessBox = read_box(&bytes);
    assert!(back.tfra.is_empty());
    assert_eq!(back.mfro, sample_mfro());
}

fn sample_trex(track_id: u32) -> isobmff::boxes::movie_fragments::TrackExtendsBox {
    isobmff::boxes::movie_fragments::TrackExtendsBox {
        full_header: fh(0, 0),
        track_id,
        default_sample_description_index: 1,
        default_sample_duration: 1024,
        default_sample_size: 0,
        default_sample_flags: isobmff::boxes::movie_fragments::SampleFlags {
            reserved: 0,
            is_leading: 0,
            sample_depends_on: 2,
            sample_is_depended_on: 0,
            sample_has_redundancy: 0,
            sample_padding_value: 0,
            sample_is_non_sync_sample: false,
            sample_degradation_priority: 0,
        },
    }
}

#[test]
fn mvex_roundtrip_with_header_and_tracks() {
    let b = MovieExtendsBox {
        mehd: Some(isobmff::boxes::media_headers::MovieExtendsHeaderBox { full_header: fh(0, 0), fragment_duration: 500 }),
        trex: vec![sample_trex(1), sample_trex(2)],
        leva: None,
    };
    let bytes = write_box(&b);
    assert_eq!(bytes.len(), 8 + 16 + 2 * 32);
    assert_eq!(&bytes[12..16], b"mehd");
    assert_eq!(&bytes[28..32], b"trex");
    let back: MovieExtendsBox = read_box(&bytes);
    assert_eq!(back, b);
}

#[test]
fn mvex_empty_payload_reads_as_empty() {
    let bytes = vec![0, 0, 0, 8, b'm', b'v', b'e', b'x'];
    let back: MovieExtendsBox = read_box(&bytes);
    assert!(back.mehd.is_none());
    assert!(back.trex.is_empty());
    assert!(back.leva.is_none());
}

#[test]
fn mvex_truncated_child_ends_the_scan() {
    let mut payload = Vec::new();
    serialize_box(&sample_trex(7), &mut payload).unwrap();
    // a trex box that announces 32 bytes but holds only 12 of payload
    payload.extend_from_slice(&[0, 0, 0, 32]);
    payload.extend_from_slice(b"trex");
    payload.extend_from_slice(&[0; 12]);
    let mut bytes = vec![0, 0, 0, (8 + payload.len()) as u8];
    bytes.extend_from_slice(b"mvex");
    bytes.extend_from_slice(&payload);
    let back: MovieExtendsBox = read_box(&bytes);
    assert_eq!(back.trex, vec![sample_trex(7)]);
}

fn sample_dref() -> DataReferenceBox {
    DataReferenceBox {
        full_header: fh(0, 0),
        entry_count: 3,
        url: vec![DataEntryUrlBox { full_header: fh(0, 1), location: None }],
        urn: vec![DataEntryUrnBox { full_header: fh(0, 0), name: s("n"), location: None }],
        imda: vec![],
        snim: vec![],
        unknown_boxes: vec![isobmff::frame::UnknownBox {
            header: BoxHeader { size: BoxSize::Short(10), box_type: BoxType::FourCc(*b"abcd") },
            data: vec![1, 2],
        }],
    }
}

#[test]
fn dref_roundtrip_keeps_entries_and_unknown_boxes() {
    let b = sample_dref();
    let bytes = write_box(&b);
    // header 8, version/flags/count 8, url 12, urn 14, unknown 10
    assert_eq!(bytes.len(), 8 + 8 + 12 + 14 + 10);
    assert_eq!(&bytes[4..8], b"dref");
    assert_eq!(&bytes[20..24], b"url ");
    let back: DataReferenceBox = read_box(&bytes);
    assert_eq!(back.entry_count, 3);
    assert_eq!(back.url.len(), 1);
    assert_eq!(back.url[0].full_header, fh(0, 1));
    assert!(back.url[0].location.is_none());
    assert_eq!(back.urn.len(), 1);
    assert_eq!(back.urn[0].name.0, "n");
    assert_eq!(back.unknown_boxes.len(), 1);
    assert_eq!(back.unknown_boxes[0].header, b.unknown_boxes[0].header);
    assert_eq!(back.unknown_boxes[0].data, vec![1, 2]);
}

#[test]
fn dref_short_payload_is_eof() {
    let bytes = vec![0, 0, 0, 12, b'd', b'r', b'e', b'f', 0, 0, 0, 0];
    let r: Result<(DataReferenceBox, usize), IsoError> = parse_box(&bytes, 0);
    assert_eq!(r.unwrap_err(), IsoError::UnexpectedEof);
}

#[test]
fn dinf_holds_dref() {
    let b = DataInformationBox { dref: sample_dref() };
    let bytes = write_box(&b);
    assert_eq!(bytes.len(), 8 + 8 + 8 + 12 + 14 + 10);
    assert_eq!(&bytes[4..8], b"dinf");
    assert_eq!(&bytes[12..16], b"dref");
    let back: DataInformationBox = read_box(&bytes);
    assert_eq!(back.dref.entry_count, 3);
    assert_eq!(back.dref.url.len(), 1);
    assert_eq!(back.dref.unknown_boxes.len(), 1);
}

#[test]
fn dinf_without_dref_is_invalid_data() {
    let bytes = vec![0, 0, 0, 8, b'd', b'i', b'n', b'f'];
    let r: Result<(DataInformationBox, usize), IsoError> = parse_box(&bytes, 0);
    assert_eq!(r.unwrap_err(), IsoError::InvalidData);
}

#[test]
fn infe_other_extension_reports_what_it_writes() {
    let mut b = mime_entry(1, 4);
    b.extension_type = Some(*b"abcd");
    b.extension = Some(ItemInfoExtension::Other { extension_type: *b"abcd", data: vec![1, 2, 3] });
    match &b.extension {
        Some(e) => assert_eq!(e.size(), 4 + 3),
        None => unreachable!(),
    }
    // write_box checks that the reported size is the number of bytes written
    let bytes = write_box(&b);
    assert_eq!(&bytes[bytes.len() - 11..], b"abcdabcd\x01\x02\x03");
}

#[test]
fn trun_new_announces_first_sample_flags() {
    let flags = isobmff::boxes::movie_fragments::SampleFlags {
        reserved: 0,
        is_leading: 0,
        sample_depends_on: 1,
        sample_is_depended_on: 0,
        sample_has_redundancy: 0,
        sample_padding_value: 0,
        sample_is_non_sync_sample: true,
        sample_degradation_priority: 0,
    };
    let samples = vec![isobmff::boxes::movie_fragments::TrackRunBoxSample {
        sample_duration: Some(10),
        sample_size: None,
        sample_flags: None,
        sample_composition_time_offset: Some(-3),
    }];
    let b = isobmff::boxes::movie_fragments::TrackRunBox::new(samples, Some(flags));
    assert_eq!(b.version, 1);
    assert_ne!(b.flags & isobmff::boxes::movie_fragments::TR_FIRST_SAMPLE_FLAGS_PRESENT, 0);
    let bytes = write_box(&b);
    let back: isobmff::boxes::movie_fragments::TrackRunBox = read_box(&bytes);
    assert_eq!(back.first_sample_flags, Some(flags));
    assert_eq!(back.samples, b.samples);
    assert_eq!(back.flags, b.flags);
}

#[test]
fn edts_holds_an_edit_list() {
    let e = EditListBoxEntry { edit_duration: 100, media_time: -1, media_rate: 0x10000 };
    let b = EditBox { elst: Some(EditListBox { full_header: fh(0, 0), entry_count: 1, entries: vec![e] }) };
    let bytes = write_box(&b);
    assert_eq!(bytes.len(), 8 + 8 + 8 + 12);
    assert_eq!(&bytes[12..16], b"elst");
    let back: EditBox = read_box(&bytes);
    assert_eq!(back, b);
    let empty = EditBox { elst: None };
    assert_eq!(read_box::<EditBox>(&write_box(&empty)), empty);
}

#[test]
fn stsd_keeps_its_entries_as_boxes() {
    let entry = UnknownBox {
        header: BoxHeader { size: BoxSize::Short(12), box_type: BoxType::FourCc(*b"avc1") },
        data: vec![1, 2, 3, 4],
    };
    let b = SampleDescriptionBox::new(vec![entry]);
    assert_eq!(b.entry_count, 1);
    assert_eq!(b.full_header, FullBoxHeader { version: 0, flags: 0 });
    let mut out = Vec::new();
    serialize_box(&b, &mut out).unwrap();
    assert_eq!(out.len(), 8 + 8 + 12);
    assert_eq!(b.size(), out.len());
    assert_eq!(&out[4..8], b"stsd");
    assert_eq!(&out[16..24], &[0, 0, 0, 12, b'a', b'v', b'c', b'1']);
    let (back, end): (SampleDescriptionBox, usize) = parse_box(&out, 0).unwrap();
    assert_eq!(end, out.len());
    assert_eq!(back.entry_count, 1);
    assert_eq!(back.boxes.len(), 1);
    assert_eq!(back.boxes[0].header.box_type, BoxType::FourCc(*b"avc1"));
    assert_eq!(back.boxes[0].data, vec![1, 2, 3, 4]);
}

#[test]
fn stsd_short_payload_is_eof() {
    let bytes = [0, 0, 0, 12, b's', b't', b's', b'd', 0, 0, 0, 0];
    let r: Result<(SampleDescriptionBox, usize), IsoError> = parse_box(&bytes, 0);
    assert_eq!(r.unwrap_err(), IsoError::UnexpectedEof);
}

#[test]
fn stsz_reads_sizes_to_the_end() {
    let b = SampleSizeBox {
        full_header: FullBoxHeader { version: 0, flags: 0 },
        sample_size: 0,
        sample_count: 2,
        entry_size: vec![100, 0x01020304],
    };
    let mut out = Vec::new();
    serialize_box(&b, &mut out).unwrap();
    assert_eq!(out.len(), 8 + 12 + 8);
    assert_eq!(b.size(), out.len());
    assert_eq!(&out[20..28], &[0, 0, 0, 100, 1, 2, 3, 4]);
    let (back, _): (SampleSizeBox, usize) = parse_box(&out, 0).unwrap();
    assert_eq!(back, b);
}

#[test]
fn stz2_keeps_packed_entries() {
    let b = CompactSampleSizeBox {
        full_header: FullBoxHeader { version: 0, flags: 0 },
        reserved: 0,
        field_size: 4,
        sample_count: 3,
        entry_size: vec![0x12, 0x30],
    };
    let mut out = Vec::new();
    serialize_box(&b, &mut out).unwrap();
    assert_eq!(out.len(), 8 + 12 + 2);
    assert_eq!(b.size(), out.len());
    assert_eq!(out[15], 4);
    let (back, _): (CompactSampleSizeBox, usize) = parse_box(&out, 0).unwrap();
    assert_eq!(back, b);
}

#[test]
fn stdp_priorities_roundtrip() {
    let b = DegradationPriorityBox { full_header: FullBoxHeader { version: 0, flags: 0 }, priority: vec![1, 0x0203] };
    let mut out = Vec::new();
    serialize_box(&b, &mut out).unwrap();
    assert_eq!(out, vec![0, 0, 0, 16, b's', b't', b'd', b'p', 0, 0, 0, 0, 0, 1, 2, 3]);
    let (back, _): (DegradationPriorityBox, usize) = parse_box(&out, 0).unwrap();
    assert_eq!(back, b);
}

#[test]
fn nmhd_and_elng_roundtrip() {
    let n = NullMediaHeaderBox { full_header: FullBoxHeader { version: 0, flags: 1 } };
    let mut out = Vec::new();
    serialize_box(&n, &mut out).unwrap();
    assert_eq!(out, vec![0, 0, 0, 12, b'n', b'm', b'h', b'd', 0, 0, 0, 1]);
    let (back, _): (NullMediaHeaderBox, usize) = parse_box(&out, 0).unwrap();
    assert_eq!(back, n);
    let e = ExtendedLanguageBox {
        full_header: FullBoxHeader { version: 0, flags: 0 },
        extended_language: Utf8String("en-US".to_string()),
    };
    let mut out = Vec::new();
    serialize_box(&e, &mut out).unwrap();
    assert_eq!(out.len(), 8 + 4 + 6);
    assert_eq!(e.size(), out.len());
    let (back, _): (ExtendedLanguageBox, usize) = parse_box(&out, 0).unwrap();
    assert_eq!(back.extended_language.0, "en-US");
}

fn sample_user_data() -> UserDataBox {
    UserDataBox {
        cprt: vec![CopyrightBox {
            full_header: FullBoxHeader { version: 0, flags: 0 },
            language: Langauge([5, 14, 7]),
            notice: Utf8String("(c)".to_string()),
        }],
        tsel: Some(TrackSelectionBox {
            full_header: FullBoxHeader { version: 0, flags: 0 },
            switch_group: -2,
            attribute_list: vec![*b"lang"],
        }),
        kind: vec![KindBox {
            full_header: FullBoxHeader { version: 0, flags: 0 },
            scheme_uri: Utf8String("urn:x".to_string()),
            value: Utf8String("main".to_string()),
        }],
        strk: vec![SubTrackBox {
            stri: SubTrackInformationBox {
                full_header: FullBoxHeader { version: 0, flags: 0 },
                switch_group: 1,
                alternate_group: -1,
                sub_track_id: 9,
                attribute_list: vec![],
            },
            strd: Some(SubTrackDefinitionBox {
                stsg: vec![SubTrackSampleGroupBox {
                    full_header: FullBoxHeader { version: 0, flags: 0 },
                    grouping_type: *b"roll",
                    item_count: 1,
                    group_description_index: vec![3],
                }],
            }),
        }],
        ludt: vec![],
        unknown_boxes: vec![UnknownBox {
            header: BoxHeader { size: BoxSize::Short(9), box_type: BoxType::FourCc(*b"xyz1") },
            data: vec![42],
        }],
    }
}

#[test]
fn udta_holds_its_boxes_in_field_order() {
    let b = sample_user_data();
    let mut out = Vec::new();
    serialize_box(&b, &mut out).unwrap();
    // cprt 8+4+2+4, tsel 8+4+4+4, kind 8+4+6+5, strk 8 + stri 8+12 + strd 8 + stsg 8+10+4, other 9
    let cprt = 8 + 4 + 2 + 4;
    let tsel = 8 + 4 + 4 + 4;
    let kind = 8 + 4 + 6 + 5;
    let strk = 8 + (8 + 12) + (8 + (8 + 10 + 4));
    assert_eq!(out.len(), 8 + cprt + tsel + kind + strk + 9);
    assert_eq!(b.size(), out.len());
    assert_eq!(&out[4..8], b"udta");
    assert_eq!(&out[12..16], b"cprt");
    assert_eq!(&out[12 + cprt..16 + cprt], b"tsel");
    assert_eq!(&out[20 + cprt..24 + cprt], &[0xFF, 0xFF, 0xFF, 0xFE]);
    let (back, end): (UserDataBox, usize) = parse_box(&out, 0).unwrap();
    assert_eq!(end, out.len());
    assert_eq!(back.cprt.len(), 1);
    assert_eq!(back.cprt[0].notice.0, "(c)");
    assert_eq!(back.tsel, b.tsel);
    assert_eq!(back.kind[0].value.0, "main");
    assert_eq!(back.strk, b.strk);
    assert!(back.ludt.is_empty());
    assert_eq!(back.unknown_boxes.len(), 1);
    assert_eq!(back.unknown_boxes[0].data, vec![42]);
}

#[test]
fn strk_without_information_is_invalid() {
    // a sub track box that holds only an empty definition box
    let bytes = [0, 0, 0, 16, b's', b't', b'r', b'k', 0, 0, 0, 8, b's', b't', b'r', b'd'];
    let r: Result<(SubTrackBox, usize), IsoError> = parse_box(&bytes, 0);
    assert_eq!(r.unwrap_err(), IsoError::InvalidData);
}

#[test]
fn media_header_boxes_roundtrip() {
    let v = VideoMediaHeaderBox { full_header: FullBoxHeader { version: 0, flags: 1 }, graphicsmode: 0, opcolor: [1, 2, 3] };
    let mut out = Vec::new();
    serialize_box(&v, &mut out).unwrap();
    assert_eq!(out, vec![0, 0, 0, 20, b'v', b'm', b'h', b'd', 0, 0, 0, 1, 0, 0, 0, 1, 0, 2, 0, 3]);
    let (back, _): (VideoMediaHeaderBox, usize) = parse_box(&out, 0).unwrap();
    assert_eq!(back, v);
    let h = HintMediaHeaderBox {
        header: FullBoxHeader { version: 0, flags: 0 },
        max_pdu_size: 1500,
        avg_pdu_size: 1000,
        maxbitrate: 8000,
        avgbitrate: 6000,
        reserved: 0,
    };
    let mut out = Vec::new();
    serialize_box(&h, &mut out).unwrap();
    assert_eq!(out.len(), 28);
    assert_eq!(h.size(), 28);
    let (back, _): (HintMediaHeaderBox, usize) = parse_box(&out, 0).unwrap();
    assert_eq!(back, h);
    let st = SubtitleMediaHeaderBox { full_header: FullBoxHeader { version: 0, flags: 0 } };
    let mut out = Vec::new();
    serialize_box(&st, &mut out).unwrap();
    assert_eq!(&out[4..8], b"sthd");
    let (back, _): (SubtitleMediaHeaderBox, usize) = parse_box(&out, 0).unwrap();
    assert_eq!(back, st);
    let vv = VolumetricVisualMediaHeaderBox { full_header: FullBoxHeader { version: 0, flags: 0 } };
    let mut out = Vec::new();
    serialize_box(&vv, &mut out).unwrap();
    assert_eq!(&out[4..8], b"vvhd");
    let (back, _): (VolumetricVisualMediaHeaderBox, usize) = parse_box(&out, 0).unwrap();
    assert_eq!(back, vv);
}
