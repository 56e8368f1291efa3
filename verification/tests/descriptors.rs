use isobmff::common_types::Base64String;
use isobmff::codec::IsoError;
use isobmff::derive_options::{SkipImpl, SkipImpls};
use isobmff::object_description::{
    read_vlq, write_vlq, BaseDescriptor, DescriptorTag, ProfileLevelIndicationIndexDescriptor, SLConfigDescriptor,
    SLConfigDescriptorCustom, SLConfigDescriptorDuration, SLConfigDescriptorPredefined, SLConfigDescriptorTimeStamps,
};
use isobmff::security::{ApiKey, ApiKeyValue, Http, HttpAuthScheme, OpenIdConnect};
use isobmff::wire::{IsoSized, Wire};
use isobmff::decoder_config::{DecoderConfigDescriptor, ObjectTypeIndication, StreamType, UnknownDescriptor};
use isobmff::es_descriptor::ESDescriptor;

#[test]
fn vlq_sizes_in_seven_bit_groups() {
    let mut out = Vec::new();
    write_vlq(&mut out, 300);
    assert_eq!(out, vec![0x82, 0x2C]);
    assert_eq!(read_vlq(&out, 0).unwrap(), (300, 2));
    let mut big = Vec::new();
    write_vlq(&mut big, u32::MAX);
    assert_eq!(big, vec![0x8F, 0xFF, 0xFF, 0xFF, 0x7F]);
    assert_eq!(read_vlq(&big, 0).unwrap(), (u32::MAX, 5));
    let mut zero = Vec::new();
    write_vlq(&mut zero, 0);
    assert!(zero.is_empty());
    assert_eq!(read_vlq(&[0x80, 0x80], 0).unwrap_err(), IsoError::UnexpectedEof);
}

#[test]
fn base_descriptor_roundtrip() {
    let b = BaseDescriptor { tag: DescriptorTag(3), size_of_instance: 129 };
    assert_eq!(b.size(), 3);
    let mut out = Vec::new();
    b.serialize(&mut out).unwrap();
    assert_eq!(out, vec![3, 0x81, 0x01]);
    let (back, n) = BaseDescriptor::parse(&out, 0).unwrap();
    assert_eq!(back, b);
    assert_eq!(n, 3);
}

#[test]
fn profile_level_descriptor() {
    let d = ProfileLevelIndicationIndexDescriptor { profile_level_indication_index: 9 };
    assert_eq!(d.base_descriptor(), BaseDescriptor { tag: DescriptorTag(0x14), size_of_instance: 1 });
    let mut out = Vec::new();
    d.serialize(&mut out).unwrap();
    assert_eq!(out, vec![0x14, 1, 9]);
    assert_eq!(d.size(), 3);
    let (back, n) = ProfileLevelIndicationIndexDescriptor::parse(&out, 0).unwrap();
    assert_eq!(back, d);
    assert_eq!(n, 3);
    assert_eq!(ProfileLevelIndicationIndexDescriptor::parse(&[0x14, 0], 0).unwrap_err(), IsoError::UnexpectedEof);
}

#[test]
fn sl_config_sizes() {
    let predefined = SLConfigDescriptor { predefined: SLConfigDescriptorPredefined(2), custom: None };
    assert_eq!(predefined.base_descriptor(), BaseDescriptor { tag: DescriptorTag(6), size_of_instance: 1 });
    assert_eq!(predefined.size(), 3);
    let custom = SLConfigDescriptorCustom {
        use_access_unit_start_flag: true,
        use_access_unit_end_flag: false,
        use_random_access_point_flag: false,
        has_random_access_units_only_flag: false,
        use_padding_flag: false,
        use_time_stamps_flag: true,
        use_idle_flag: false,
        duration_flag: true,
        time_stamp_resolution: 1000,
        ocr_resolution: 0,
        time_stamp_length: 32,
        ocr_length: 0,
        au_length: 0,
        instant_bitrate_length: 0,
        degradation_priority_length: 0,
        au_seq_num_length: 0,
        packet_seq_num_length: 0,
        reserved: 0,
        duration: Some(SLConfigDescriptorDuration { time_scale: 1000, access_unit_duration: 40, composition_unit_duration: 40 }),
        time_stamps: Some(SLConfigDescriptorTimeStamps { start_decoding_time_stamp: 0, start_composition_time_stamp: 0 }),
    };
    assert_eq!(custom.size(), 15 + 8 + 8);
    let d = SLConfigDescriptor { predefined: SLConfigDescriptorPredefined(0), custom: Some(custom) };
    assert_eq!(d.base_descriptor().size_of_instance, 32);
    assert_eq!(d.size(), 1 + 1 + 32);
    let mut out = Vec::new();
    d.serialize(&mut out).unwrap();
    assert_eq!(out.len(), d.size());
    let (back, n) = SLConfigDescriptor::parse(&out, 0).unwrap();
    assert_eq!(n, out.len());
    assert_eq!(back, d);
    assert_eq!(SLConfigDescriptorTimeStamps { start_decoding_time_stamp: 1, start_composition_time_stamp: 2 }.size(8), 2);
    assert_eq!(SLConfigDescriptorTimeStamps { start_decoding_time_stamp: 1, start_composition_time_stamp: 2 }.size(33), 9);
}

#[test]
fn base64_text_roundtrip() {
    let b = Base64String(vec![1, 2, 3]);
    let mut out = Vec::new();
    b.serialize(&mut out);
    assert_eq!(out, b"AQID\0".to_vec());
    let (back, n) = Base64String::parse(&out, 0).unwrap();
    assert_eq!(back.0, vec![1, 2, 3]);
    assert_eq!(n, 5);
    assert_eq!(Base64String::parse(b"A*\0", 0).unwrap_err(), IsoError::InvalidData);
}

#[test]
fn security_constructors() {
    let k = ApiKeyValue::new("api_key".to_string());
    assert_eq!(k.name, "api_key");
    assert!(k.description.is_none());
    assert!(k.extensions.is_none());
    let d = ApiKeyValue::with_description("api_key".to_string(), "my api_key token".to_string());
    assert_eq!(d.description.as_deref(), Some("my api_key token"));
    let key = ApiKey::Header(d);
    assert!(matches!(key, ApiKey::Header(_)));
    let h = Http::new(HttpAuthScheme::Bearer);
    assert_eq!(h.scheme, HttpAuthScheme::Bearer);
    assert!(h.bearer_format.is_none());
    assert!(h.extensions.is_none());
    assert_eq!(Http::default().scheme, HttpAuthScheme::Basic);
    let o = OpenIdConnect::with_description("https://localhost/openid".to_string(), "my pet api open id connect".to_string());
    assert_eq!(o.open_id_connect_url, "https://localhost/openid");
    assert_eq!(o.description.as_deref(), Some("my pet api open id connect"));
    let plain = OpenIdConnect::new("https://localhost/openid".to_string());
    assert!(plain.description.is_none());
    assert!(plain.extensions.is_none());
}

#[test]
fn skip_impls() {
    let s = SkipImpls(vec![SkipImpl::Serialize, SkipImpl::Sized]);
    assert!(!s.should_impl(SkipImpl::Serialize));
    assert!(s.should_impl(SkipImpl::DeserializeSeed));
    let all = SkipImpls(vec![SkipImpl::All]);
    assert!(!all.should_impl(SkipImpl::IsoBox));
    assert!(SkipImpls(vec![]).should_impl(SkipImpl::Deserialize));
}

#[test]
fn decoder_config_roundtrip() {
    let d = isobmff::decoder_config::DecoderConfigDescriptor {
        object_type_indication: isobmff::decoder_config::ObjectTypeIndication(0x40),
        stream_type: isobmff::decoder_config::StreamType(5),
        up_stream: false,
        reserved: true,
        buffer_size_db: 0x1234,
        max_bitrate: 128000,
        avg_bitrate: 96000,
        dec_specific_info: Some(isobmff::decoder_config::UnknownDescriptor::new(DescriptorTag(5), vec![0x12, 0x10])),
        profile_level_indication_index_descr: vec![ProfileLevelIndicationIndexDescriptor { profile_level_indication_index: 7 }],
        unknown_descriptors: vec![isobmff::decoder_config::UnknownDescriptor::new(DescriptorTag(0x42), vec![1])],
    };
    let mut out = Vec::new();
    d.serialize(&mut out).unwrap();
    // base 2, fields 13, decoder specific information 4, index descriptor 3, other 3
    assert_eq!(out.len(), 2 + 13 + 4 + 3 + 3);
    assert_eq!(d.size(), out.len());
    assert_eq!(&out[..4], &[0x04, 23, 0x40, (5 << 2) | 1]);
    let (back, n) = isobmff::decoder_config::DecoderConfigDescriptor::parse(&out, 0).unwrap();
    assert_eq!(n, out.len());
    assert_eq!(back.object_type_indication, d.object_type_indication);
    assert_eq!(back.stream_type, d.stream_type);
    assert_eq!((back.up_stream, back.reserved), (false, true));
    assert_eq!((back.buffer_size_db, back.max_bitrate, back.avg_bitrate), (0x1234, 128000, 96000));
    assert_eq!(back.dec_specific_info.unwrap().data, vec![0x12, 0x10]);
    assert_eq!(back.profile_level_indication_index_descr, d.profile_level_indication_index_descr);
    assert_eq!(back.unknown_descriptors.len(), 1);
    assert_eq!(back.unknown_descriptors[0].base_descriptor.tag, DescriptorTag(0x42));
}

#[test]
fn decoder_config_short_payload_is_eof() {
    let r = isobmff::decoder_config::DecoderConfigDescriptor::parse(&[0x04, 2, 0x40, 0x14], 0);
    assert_eq!(r.unwrap_err(), IsoError::UnexpectedEof);
}

#[test]
fn sl_config_time_stamps_pack_their_bits() {
    let custom = SLConfigDescriptorCustom {
        use_access_unit_start_flag: true,
        use_access_unit_end_flag: false,
        use_random_access_point_flag: true,
        has_random_access_units_only_flag: false,
        use_padding_flag: false,
        use_time_stamps_flag: true,
        use_idle_flag: false,
        duration_flag: false,
        time_stamp_resolution: 90000,
        ocr_resolution: 0,
        time_stamp_length: 12,
        ocr_length: 0,
        au_length: 16,
        instant_bitrate_length: 0,
        degradation_priority_length: 3,
        au_seq_num_length: 16,
        packet_seq_num_length: 5,
        reserved: 2,
        duration: None,
        time_stamps: Some(SLConfigDescriptorTimeStamps { start_decoding_time_stamp: 0xabc, start_composition_time_stamp: 0x123 }),
    };
    let d = SLConfigDescriptor { predefined: SLConfigDescriptorPredefined(0), custom: Some(custom) };
    let mut out = Vec::new();
    d.serialize(&mut out).unwrap();
    // tag, size, predefined, 15 bytes of fields, 3 bytes of time stamps
    assert_eq!(out.len(), 2 + 1 + 15 + 3);
    assert_eq!(out[3], 0b1010_0100);
    assert_eq!(&out[out.len() - 3..], &[0xab, 0xc1, 0x23]);
    assert_eq!(d.size(), out.len());
    let (back, _) = SLConfigDescriptor::parse(&out, 0).unwrap();
    assert_eq!(back, d);
    let predefined = SLConfigDescriptor { predefined: SLConfigDescriptorPredefined(2), custom: None };
    let mut out = Vec::new();
    predefined.serialize(&mut out).unwrap();
    assert_eq!(out, vec![0x06, 1, 2]);
    let bad = SLConfigDescriptor { predefined: SLConfigDescriptorPredefined(2), custom: Some(custom) };
    assert_eq!(bad.serialize(&mut Vec::new()).unwrap_err(), IsoError::InvalidData);
    let mut long = out.clone();
    long[2] = 0;
    assert_eq!(SLConfigDescriptor::parse(&long, 0).unwrap_err(), IsoError::UnexpectedEof);
}

#[test]
fn es_descriptor_roundtrip() {
    let d = ESDescriptor {
        es_id: 1,
        stream_priority: 3,
        depends_on_es_id: Some(7),
        url_string: Some("ab".to_string()),
        ocr_es_id: None,
        dec_config_descr: DecoderConfigDescriptor {
            object_type_indication: ObjectTypeIndication(0x40),
            stream_type: StreamType(5),
            up_stream: false,
            reserved: true,
            buffer_size_db: 0,
            max_bitrate: 0,
            avg_bitrate: 0,
            dec_specific_info: None,
            profile_level_indication_index_descr: vec![],
            unknown_descriptors: vec![],
        },
        sl_config_descr: Some(SLConfigDescriptor { predefined: SLConfigDescriptorPredefined(2), custom: None }),
        unknown_descriptors: vec![UnknownDescriptor::new(DescriptorTag(0x0A), vec![9])],
    };
    let mut out = Vec::new();
    d.serialize(&mut out).unwrap();
    // id 2, flags 1, depends on 2, url 3, decoder configuration 15, sync layer 3, other 3
    assert_eq!(out.len(), 2 + 2 + 1 + 2 + 3 + 15 + 3 + 3);
    assert_eq!(d.size(), out.len());
    assert_eq!(&out[..10], &[0x03, 29, 0, 1, 0x80 | 0x40 | 3, 0, 7, 2, b'a', b'b']);
    let (back, n) = ESDescriptor::parse(&out, 0).unwrap();
    assert_eq!(n, out.len());
    assert_eq!((back.es_id, back.stream_priority), (1, 3));
    assert_eq!(back.depends_on_es_id, Some(7));
    assert_eq!(back.url_string.as_deref(), Some("ab"));
    assert_eq!(back.ocr_es_id, None);
    assert_eq!(back.sl_config_descr, d.sl_config_descr);
    assert_eq!(back.unknown_descriptors.len(), 1);
    assert_eq!(back.unknown_descriptors[0].data, vec![9]);
}

#[test]
fn es_descriptor_without_sync_layer_reads_none() {
    let bytes = [0x03, 18, 0, 2, 0, 0x04, 13, 0x40, 0x15, 0, 0, 0, 0, 0, 0, 0, 0, 0, 0, 0];
    let (back, n) = isobmff::es_descriptor::ESDescriptor::parse(&bytes, 0).unwrap();
    assert_eq!(n, 20);
    assert_eq!(back.es_id, 2);
    assert!(back.sl_config_descr.is_none());
    assert!(back.unknown_descriptors.is_empty());
}

#[test]
fn es_descriptor_bad_url_is_invalid_data() {
    let bytes = [0x03, 5, 0, 2, 0x40, 1, 0xFF];
    let r = isobmff::es_descriptor::ESDescriptor::parse(&bytes, 0);
    assert_eq!(r.unwrap_err(), IsoError::InvalidData);
}

#[test]
fn base64_string_writes_padded_standard_base64() {
    let mut out = Vec::new();
    Base64String(b"Man".to_vec()).serialize(&mut out);
    Base64String(b"Ma".to_vec()).serialize(&mut out);
    Base64String(b"M".to_vec()).serialize(&mut out);
    Base64String(vec![0xFB, 0xFF]).serialize(&mut out);
    assert_eq!(out, b"TWFu\0TWE=\0TQ==\0+/8=\0".to_vec());
    assert_eq!(Base64String(b"Ma".to_vec()).size(), 5);
    let (back, n) = Base64String::parse(&out, 5).unwrap();
    assert_eq!(back.0, b"Ma".to_vec());
    assert_eq!(n, 10);
}
