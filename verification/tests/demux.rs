use isobmff::boxes::file_organization::{Brand, ExtendedTypeBox, TypeCombinationBox};
use isobmff::boxes::general::MediaDataBox;
use isobmff::frame::parse_box;
use isobmff::header::{BoxHeader, BoxSize};
use isobmff::wire::Wire;

#[test]
fn demux_tyco() {
    let data = [
        0x00, 0x00, 0x00, 0x0C, // size
        b't', b'y', b'c', b'o', // type
        b'i', b's', b'o', b'6', // data
        0x01,
    ];

    let (mdat, _end): (TypeCombinationBox, usize) = parse_box(&data, 0).unwrap();
    assert_eq!(mdat.compatible_brands.len(), 1);
    assert_eq!(mdat.compatible_brands[0], Brand(*b"iso6"));
}

#[test]
fn demux_etyp() {
    let data = [
        0x00, 0x00, 0x00, 44, // size
        b'e', b't', b'y', b'p', // type
        0x00, 0x00, 0x00, 12, // tyco size
        b't', b'y', b'c', b'o', // tyco type
        b'i', b's', b'o', b'm', // data
        0x00, 0x00, 0x00, 12, // tyco size
        b't', b'y', b'c', b'o', // tyco type
        b'i', b's', b'o', b'6', // data
        0x00, 0x00, 0x00, 12, // unknown size
        b'u', b'n', b'k', b'n', // unknown type
        0x42, 0x00, 0x42, 0x00, // data
    ];

    let (mdat, _end): (ExtendedTypeBox, usize) = parse_box(&data, 0).unwrap();

    assert_eq!(mdat.compatible_combinations.len(), 2);

    assert_eq!(mdat.compatible_combinations[0].compatible_brands.len(), 1);
    assert_eq!(mdat.compatible_combinations[0].compatible_brands[0], Brand(*b"isom"));

    assert_eq!(mdat.compatible_combinations[1].compatible_brands.len(), 1);
    assert_eq!(mdat.compatible_combinations[1].compatible_brands[0], Brand(*b"iso6"));

    assert_eq!(mdat.unknown_boxes.len(), 1);
    assert_eq!(mdat.unknown_boxes[0].data.len(), 4);
    assert_eq!(mdat.unknown_boxes[0].data[0], 0x42);
    assert_eq!(mdat.unknown_boxes[0].data[1], 0x00);
    assert_eq!(mdat.unknown_boxes[0].data[2], 0x42);
    assert_eq!(mdat.unknown_boxes[0].data[3], 0x00);
}

#[test]
fn demux_mdat() {
    let data = [
        0x00, 0x00, 0x00, 0x0C, // size
        b'm', b'd', b'a', b't', // type
        0x42, 0x00, 0x42, 0x00, // data
        0x01,
    ];

    let (mdat, _end): (MediaDataBox, usize) = parse_box(&data, 0).unwrap();
    assert_eq!(mdat.data.len(), 4);
    assert_eq!(mdat.data[0], 0x42);
    assert_eq!(mdat.data[1], 0x00);
    assert_eq!(mdat.data[2], 0x42);
    assert_eq!(mdat.data[3], 0x00);
}

#[test]
fn etyp_demux() {
    let data = [
        0x00, 0x00, 0x00, 44, // size
        b'e', b't', b'y', b'p', // type
        0x00, 0x00, 0x00, 12, // tyco size
        b't', b'y', b'c', b'o', // tyco type
        b'i', b's', b'o', b'm', // data
        0x00, 0x00, 0x00, 12, // tyco size
        b't', b'y', b'c', b'o', // tyco type
        b'i', b's', b'o', b'6', // data
        0x00, 0x00, 0x00, 12, // unknown size
        b'u', b'n', b'k', b'n', // unknown type
        0x42, 0x00, 0x42, 0x00, // data
    ];

    let (header, _) = BoxHeader::parse(&data, 0).unwrap();
    assert_eq!(header.size, BoxSize::Short(44));
    assert!(header.box_type.is_four_cc(b"etyp"));
    assert_eq!(header.payload_size(), Some(44 - 8));

    let (mdat, _end): (ExtendedTypeBox, usize) = parse_box(&data, 0).unwrap();
    assert_eq!(mdat.compatible_combinations.len(), 2);

    let (tyco0, _) = BoxHeader::parse(&data, 8).unwrap();
    assert_eq!(tyco0.size, BoxSize::Short(12));
    assert!(tyco0.box_type.is_four_cc(b"tyco"));
    assert_eq!(tyco0.payload_size(), Some(4));
    assert_eq!(mdat.compatible_combinations[0].compatible_brands.len(), 1);
    assert_eq!(mdat.compatible_combinations[0].compatible_brands[0], Brand(*b"isom"));

    let (tyco1, _) = BoxHeader::parse(&data, 20).unwrap();
    assert_eq!(tyco1.size, BoxSize::Short(12));
    assert!(tyco1.box_type.is_four_cc(b"tyco"));
    assert_eq!(tyco1.payload_size(), Some(4));
    assert_eq!(mdat.compatible_combinations[1].compatible_brands.len(), 1);
    assert_eq!(mdat.compatible_combinations[1].compatible_brands[0], Brand(*b"iso6"));

    assert_eq!(mdat.unknown_boxes.len(), 1);
    assert_eq!(mdat.unknown_boxes[0].header.size, BoxSize::Short(12));
    assert!(mdat.unknown_boxes[0].header.box_type.is_four_cc(b"unkn"));
    assert_eq!(mdat.unknown_boxes[0].header.payload_size(), Some(4));
    assert_eq!(mdat.unknown_boxes[0].data.len(), 4);
    assert_eq!(mdat.unknown_boxes[0].data[0], 0x42);
    assert_eq!(mdat.unknown_boxes[0].data[1], 0x00);
    assert_eq!(mdat.unknown_boxes[0].data[2], 0x42);
    assert_eq!(mdat.unknown_boxes[0].data[3], 0x00);
}

#[test]
fn mdat_demux() {
    let data = [
        0x00, 0x00, 0x00, 0x0C, // size
        b'm', b'd', b'a', b't', // type
        0x42, 0x00, 0x42, 0x00, // data
        0x01,
    ];

    let (header, _) = BoxHeader::parse(&data, 0).unwrap();
    assert_eq!(header.size, BoxSize::Short(12));
    assert!(header.box_type.is_four_cc(b"mdat"));
    assert_eq!(header.payload_size(), Some(4));

    let (mdat, _end): (MediaDataBox, usize) = parse_box(&data, 0).unwrap();
    assert_eq!(mdat.data.len(), 4);
    assert_eq!(mdat.data[0], 0x42);
    assert_eq!(mdat.data[1], 0x00);
    assert_eq!(mdat.data[2], 0x42);
    assert_eq!(mdat.data[3], 0x00);
}

#[test]
fn tyco_demux() {
    let data = [
        0x00, 0x00, 0x00, 0x0C, // size
        b't', b'y', b'c', b'o', // type
        b'i', b's', b'o', b'6', // data
        0x01,
    ];

    let (header, _) = BoxHeader::parse(&data, 0).unwrap();
    assert_eq!(header.size, BoxSize::Short(12));
    assert!(header.box_type.is_four_cc(b"tyco"));
    assert_eq!(header.payload_size(), Some(4));

    let (mdat, _end): (TypeCombinationBox, usize) = parse_box(&data, 0).unwrap();
    assert_eq!(mdat.compatible_brands.len(), 1);
    assert_eq!(mdat.compatible_brands[0], Brand(*b"iso6"));
}
