use wadfile::wad::header::{WadHeader, WadType};
use wadfile::wad::WadError;

#[test]
fn header_of_an_initial_archive() {
    let mut bytes = Vec::new();
    bytes.extend_from_slice(b"IWAD");
    bytes.extend_from_slice(&2919i32.to_le_bytes());
    bytes.extend_from_slice(&14557880i32.to_le_bytes());
    let header = WadHeader::new(&bytes).unwrap();
    assert_eq!(header.wad_type, WadType::IWAD);
    assert_eq!(header.lumps_number, 2919);
    assert_eq!(header.directory_offset, 14557880);
}

#[test]
fn header_fields_are_little_endian() {
    let bytes = [b'P', b'W', b'A', b'D', 0x67, 0x0b, 0x00, 0x00, 0xb8, 0x22, 0xde, 0x00];
    assert_eq!(
        WadHeader::new(&bytes).unwrap(),
        WadHeader { wad_type: WadType::PWAD, lumps_number: 2919, directory_offset: 14557880 }
    );
}

#[test]
fn header_fields_are_signed() {
    let bytes = [b'I', b'W', b'A', b'D', 0xff, 0xff, 0xff, 0xff, 0x00, 0x00, 0x00, 0x80];
    assert_eq!(
        WadHeader::new(&bytes).unwrap(),
        WadHeader { wad_type: WadType::IWAD, lumps_number: -1, directory_offset: i32::MIN }
    );
    let bytes = [b'I', b'W', b'A', b'D', 0xff, 0xff, 0xff, 0x7f, 0xfe, 0xff, 0xff, 0xff];
    assert_eq!(
        WadHeader::new(&bytes).unwrap(),
        WadHeader { wad_type: WadType::IWAD, lumps_number: i32::MAX, directory_offset: -2 }
    );
}

#[test]
fn header_reads_only_its_twelve_bytes() {
    let mut bytes = vec![b'I', b'W', b'A', b'D', 1, 0, 0, 0, 12, 0, 0, 0];
    bytes.extend_from_slice(&[0xff; 20]);
    assert_eq!(
        WadHeader::new(&bytes).unwrap(),
        WadHeader { wad_type: WadType::IWAD, lumps_number: 1, directory_offset: 12 }
    );
}

#[test]
fn header_with_an_unknown_magic_is_refused_for_its_kind() {
    let bytes = [0x89, b'P', b'N', b'G', 0x0d, 0x0a, 0x1a, 0x0a, 0, 0, 0, 13];
    assert!(matches!(WadHeader::new(&bytes), Err(WadError::UnkownWadType(_))));
    let bytes = [b'i', b'w', b'a', b'd', 0, 0, 0, 0, 0, 0, 0, 0];
    match WadHeader::new(&bytes) {
        Err(WadError::UnkownWadType(text)) => assert_eq!(text, "iwad"),
        _ => panic!("the magic is case-sensitive"),
    }
}

#[test]
fn header_shorter_than_twelve_bytes_is_truncated_whatever_its_magic() {
    for len in 0..12usize {
        let bytes = [b'X', b'W', b'A', b'D', 0, 0, 0, 0, 0, 0, 0, 0];
        match WadHeader::new(&bytes[..len]) {
            Err(WadError::SliceWithIncorrectLenght { requested, available }) => {
                assert_eq!(requested, 12);
                assert_eq!(available, len);
            }
            _ => panic!("a header of {} bytes is truncated", len),
        }
    }
}

#[test]
fn magic_names_the_two_kinds() {
    assert!(matches!(WadType::try_from(b"IWAD"), Ok(WadType::IWAD)));
    assert!(matches!(WadType::try_from(b"PWAD"), Ok(WadType::PWAD)));
}

#[test]
fn magic_of_another_text_or_length_is_refused_with_its_text() {
    for magic in [&b"IWAX"[..], b"XWAD", b"IXAD", b"IWXD", b"IWA", b"IWADS", b"", b"PWAd"] {
        match WadType::try_from(magic) {
            Err(WadError::UnkownWadType(text)) => {
                assert_eq!(text.as_bytes(), magic);
            }
            _ => panic!("{:?} names no kind", magic),
        }
    }
}

#[test]
fn magic_that_is_not_utf8_is_carried_with_replacement_characters() {
    match WadType::try_from(&[0xff, b'W', 0xc3, b'D']) {
        Err(WadError::UnkownWadType(text)) => assert_eq!(text, "\u{fffd}W\u{fffd}D"),
        _ => panic!("the magic names no kind"),
    }
    match WadType::try_from(&[b'I', 0xc3, 0xa9, b'D']) {
        Err(WadError::UnkownWadType(text)) => assert_eq!(text, "I\u{e9}D"),
        _ => panic!("the magic names no kind"),
    }
}
