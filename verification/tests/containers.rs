use isobmff::boxes::data_reference::{DataInformationBox, DataReferenceBox};
use isobmff::boxes::file_organization::{Brand, FileTypeBox};
use isobmff::boxes::fragments::{MovieFragmentBox, TrackFragmentBox};
use isobmff::boxes::general::MediaDataBox;
use isobmff::boxes::media::{MediaBox, MediaInformationBox};
use isobmff::boxes::media_headers::{MediaHeaderBox, MovieHeaderBox, TrackHeaderBox};
use isobmff::boxes::meta::{ItemDataBox, MetaBox, XmlBox};
use isobmff::boxes::movie::MovieBox;
use isobmff::boxes::movie_fragments::{MovieFragmentHeaderBox, TrackFragmentHeaderBox, TrackRunBox, TrackRunBoxSample};
use isobmff::boxes::sample_table::SampleDescriptionBox;
use isobmff::boxes::sample_table_box::SampleTableBox;
use isobmff::boxes::track::{TrackBox, TrackReferenceBox};
use isobmff::boxes::track_data_layout::{ChunkOffsetBox, SampleToChunkBox};
use isobmff::boxes::track_media::{HandlerBox, HandlerType, VideoMediaHeaderBox};
use isobmff::boxes::track_time::{TimeToSampleBox, TimeToSampleBoxEntry};
use isobmff::codec::IsoError;
use isobmff::common_types::Utf8String;
use isobmff::file::IsobmffFile;
use isobmff::frame::{parse_box, serialize_box, BoxBody, UnknownBox};
use isobmff::header::{BoxHeader, BoxSize, BoxType, FullBoxHeader};
use isobmff::wire::IsoSized;

fn boxed<T: BoxBody>(x: &T) -> Vec<u8> {
    let mut out = Vec::new();
    serialize_box(x, &mut out).unwrap();
    assert_eq!(out.len(), x.size());
    out
}

fn unboxed<T: BoxBody>(bytes: &[u8]) -> T {
    let (x, end): (T, usize) = parse_box(bytes, 0).unwrap();
    assert_eq!(end, bytes.len());
    x
}

fn full(version: u8, flags: u32) -> FullBoxHeader {
    FullBoxHeader { version, flags }
}

fn empty_dref() -> DataReferenceBox {
    DataReferenceBox {
        full_header: full(0, 0),
        entry_count: 0,
        url: vec![],
        urn: vec![],
        imda: vec![],
        snim: vec![],
        unknown_boxes: vec![],
    }
}

fn sample_table() -> SampleTableBox {
    SampleTableBox {
        stsd: SampleDescriptionBox::new(vec![]),
        stts: TimeToSampleBox {
            full_header: full(0, 0),
            entry_count: 1,
            entries: vec![TimeToSampleBoxEntry { sample_count: 3, sample_delta: 1000 }],
        },
        ctts: None,
        cslg: None,
        stsc: SampleToChunkBox { full_header: full(0, 0), entry_count: 0, entries: vec![] },
        stsz: None,
        stz2: None,
        stco: Some(ChunkOffsetBox { full_header: full(0, 0), entry_count: 2, chunk_offset: vec![48, 96] }),
        co64: None,
        stss: None,
        stsh: None,
        padb: None,
        stdp: None,
        sdtp: None,
        sbgp: vec![],
        sgpd: vec![],
        subs: vec![],
        saiz: vec![],
        saio: vec![],
        csgp: vec![],
    }
}

fn video_track() -> TrackBox {
    TrackBox {
        tkhd: TrackHeaderBox::new(0, 0, 1, 3000, Some((640, 480))),
        tref: None,
        trgr: None,
        edts: None,
        ttyp: None,
        meta: None,
        mdia: MediaBox {
            mdhd: MediaHeaderBox::new(0, 0, 90000, 3000),
            hdlr: HandlerBox::new(HandlerType(*b"vide"), Utf8String("video".to_string())),
            elng: None,
            minf: MediaInformationBox {
                vmhd: None,
                smhd: None,
                hmhd: None,
                sthd: None,
                vvhd: None,
                unknown_boxes: vec![],
                dinf: DataInformationBox {
                    dref: empty_dref(),
                },
                stbl: sample_table(),
            },
            unknown_boxes: vec![],
        },
        unknown_boxes: vec![],
        udta: None,
    }
}

fn fragment() -> MovieFragmentBox {
    let sample = TrackRunBoxSample {
        sample_duration: Some(1000),
        sample_size: Some(512),
        sample_flags: None,
        sample_composition_time_offset: None,
    };
    MovieFragmentBox {
        mfhd: MovieFragmentHeaderBox { full_header: full(0, 0), sequence_number: 1 },
        meta: None,
        traf: vec![TrackFragmentBox {
            tfhd: TrackFragmentHeaderBox::new(1, None, Some(1), None, None, None),
            trun: vec![TrackRunBox::new(vec![sample], None)],
            sbgp: vec![],
            sgpd: vec![],
            subs: vec![],
            saiz: vec![],
            saio: vec![],
            tfdt: None,
            meta: None,
            udta: None,
        }],
        udta: None,
    }
}

fn small_file() -> IsobmffFile {
    IsobmffFile {
        ftyp: Some(FileTypeBox {
            major_brand: Brand(*b"isom"),
            minor_version: 512,
            compatible_brands: vec![Brand(*b"isom"), Brand(*b"iso6")],
        }),
        etyp: vec![],
        otyp: vec![],
        pdin: None,
        moov: Some(MovieBox {
            mvhd: MovieHeaderBox::new(0, 0, 1000, 3000, 2),
            meta: None,
            trak: vec![video_track()],
            mvex: None,
            unknown_boxes: vec![],
            udta: None,
        }),
        moof: vec![fragment()],
        mdat: vec![MediaDataBox { data: vec![7; 16] }],
        imda: vec![],
        meta: None,
        styp: vec![],
        sidx: vec![],
        ssix: vec![],
        prft: vec![],
        unknown_boxes: vec![],
        mfra: None,
    }
}

#[test]
fn file_written_reads_back() {
    let file = small_file();
    let mut out = Vec::new();
    file.serialize(&mut out).unwrap();
    assert_eq!(out.len(), file.size());
    assert_eq!(&out[4..8], b"ftyp");
    let back = IsobmffFile::parse(&out).unwrap();
    let ftyp = back.ftyp.as_ref().unwrap();
    assert_eq!(ftyp.major_brand, Brand(*b"isom"));
    assert_eq!(ftyp.minor_version, 512);
    assert_eq!(ftyp.compatible_brands.len(), 2);
    let moov = back.moov.as_ref().unwrap();
    assert_eq!(moov.mvhd.next_track_id, 2);
    assert_eq!(moov.trak.len(), 1);
    let trak = &moov.trak[0];
    assert_eq!(trak.tkhd.track_id, 1);
    assert_eq!(trak.tkhd.width, 640 << 16);
    assert_eq!(trak.mdia.mdhd.timescale, 90000);
    assert_eq!(trak.mdia.hdlr.handler_type, HandlerType(*b"vide"));
    assert_eq!(trak.mdia.minf.stbl.stts.entries.len(), 1);
    assert_eq!(trak.mdia.minf.stbl.stts.entries[0].sample_delta, 1000);
    assert_eq!(trak.mdia.minf.stbl.stco.as_ref().unwrap().chunk_offset, vec![48, 96]);
    assert!(trak.mdia.minf.stbl.ctts.is_none());
    assert_eq!(back.moof.len(), 1);
    assert_eq!(back.moof[0].mfhd.sequence_number, 1);
    assert_eq!(back.moof[0].traf.len(), 1);
    assert_eq!(back.moof[0].traf[0].tfhd.track_id, 1);
    assert_eq!(back.moof[0].traf[0].trun.len(), 1);
    assert_eq!(back.moof[0].traf[0].trun[0].samples.len(), 1);
    assert_eq!(back.mdat.len(), 1);
    assert_eq!(back.mdat[0].data, vec![7; 16]);
    assert!(back.unknown_boxes.is_empty());
    let mut again = Vec::new();
    back.serialize(&mut again).unwrap();
    assert_eq!(again, out);
}

#[test]
fn file_keeps_boxes_of_other_types() {
    let mut bytes = vec![0, 0, 0, 12, b'f', b'r', b'e', b'e', 1, 2, 3, 4];
    bytes.extend_from_slice(&[0, 0, 0, 10, b'm', b'd', b'a', b't', 9, 9]);
    let file = IsobmffFile::parse(&bytes).unwrap();
    assert_eq!(file.unknown_boxes.len(), 1);
    assert_eq!(file.unknown_boxes[0].header.box_type, BoxType::FourCc(*b"free"));
    assert_eq!(file.unknown_boxes[0].data, vec![1, 2, 3, 4]);
    assert_eq!(file.mdat.len(), 1);
    assert_eq!(file.mdat[0].data, vec![9, 9]);
    assert!(file.moov.is_none());
    assert!(file.ftyp.is_none());
}

#[test]
fn empty_input_is_an_empty_file() {
    let file = IsobmffFile::parse(&[]).unwrap();
    assert!(file.ftyp.is_none());
    assert!(file.moov.is_none());
    assert!(file.mdat.is_empty());
    assert_eq!(file.size(), 0);
}

#[test]
fn movie_without_header_is_invalid_data() {
    let bytes = [0, 0, 0, 8, b'm', b'o', b'o', b'v'];
    let r: Result<(MovieBox, usize), IsoError> = parse_box(&bytes, 0);
    assert!(matches!(r, Err(IsoError::InvalidData)));
    assert!(IsobmffFile::parse(&bytes).is_err());
}

#[test]
fn truncated_last_box_is_cut_short() {
    let file = small_file();
    let mut out = Vec::new();
    file.serialize(&mut out).unwrap();
    out.truncate(out.len() - 1);
    let back = IsobmffFile::parse(&out).unwrap();
    assert!(back.ftyp.is_some());
    assert!(back.moov.is_some());
    assert_eq!(back.moof.len(), 1);
    assert_eq!(back.mdat.len(), 1);
    assert_eq!(back.mdat[0].data, vec![7; 15]);
}

#[test]
fn track_box_reads_back() {
    let trak = video_track();
    let bytes = boxed(&trak);
    assert_eq!(&bytes[4..8], b"trak");
    assert_eq!(&bytes[12..16], b"tkhd");
    let back: TrackBox = unboxed(&bytes);
    assert_eq!(back.tkhd, trak.tkhd);
    assert_eq!(back.mdia.mdhd, trak.mdia.mdhd);
    assert_eq!(boxed(&back), bytes);
}

#[test]
fn track_reference_keeps_its_entries() {
    let tref = TrackReferenceBox {
        track_reference_type: vec![UnknownBox {
            header: BoxHeader { size: BoxSize::Short(12), box_type: BoxType::FourCc(*b"hint") },
            data: vec![0, 0, 0, 1],
        }],
    };
    let bytes = boxed(&tref);
    assert_eq!(bytes.len(), 20);
    assert_eq!(&bytes[4..8], b"tref");
    let back: TrackReferenceBox = unboxed(&bytes);
    assert_eq!(back.track_reference_type.len(), 1);
    assert_eq!(back.track_reference_type[0].data, vec![0, 0, 0, 1]);
}

#[test]
fn meta_box_reads_back() {
    let meta = MetaBox {
        full_header: full(0, 0),
        hdlr: HandlerBox::new(HandlerType(*b"pict"), Utf8String(String::new())),
        dinf: None,
        iloc: None,
        ipro: None,
        iinf: None,
        xml: Some(XmlBox { full_header: full(0, 0), xml: Utf8String("<a/>".to_string()) }),
        bxml: None,
        pitm: None,
        fiin: None,
        idat: Some(ItemDataBox { data: vec![1, 2, 3] }),
        iref: None,
        iprp: None,
        grpl: None,
        unknown_boxes: vec![],
    };
    let bytes = boxed(&meta);
    assert_eq!(&bytes[4..8], b"meta");
    let back: MetaBox = unboxed(&bytes);
    assert_eq!(back.hdlr.handler_type, HandlerType(*b"pict"));
    assert_eq!(back.xml.as_ref().unwrap().xml.0, "<a/>");
    assert_eq!(back.idat.as_ref().unwrap().data, vec![1, 2, 3]);
    assert_eq!(boxed(&back), bytes);
}

#[test]
fn media_information_needs_sample_table() {
    let minf = MediaInformationBox {
        vmhd: Some(VideoMediaHeaderBox { full_header: full(0, 1), graphicsmode: 0, opcolor: [0, 0, 0] }),
        smhd: None,
        hmhd: None,
        sthd: None,
        vvhd: None,
        unknown_boxes: vec![],
        dinf: DataInformationBox {
            dref: empty_dref(),
        },
        stbl: sample_table(),
    };
    let bytes = boxed(&minf);
    let back: MediaInformationBox = unboxed(&bytes);
    assert_eq!(back.vmhd, minf.vmhd);
    assert_eq!(boxed(&back), bytes);
    let only_dinf = boxed(&minf.dinf);
    let mut cut = vec![0, 0, 0, 0, b'm', b'i', b'n', b'f'];
    cut.extend_from_slice(&only_dinf);
    let n = cut.len() as u32;
    cut[0..4].copy_from_slice(&n.to_be_bytes());
    let r: Result<(MediaInformationBox, usize), IsoError> = parse_box(&cut, 0);
    assert!(matches!(r, Err(IsoError::InvalidData)));
}
