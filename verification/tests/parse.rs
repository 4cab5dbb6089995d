use wadfile::wad::header::{WadHeader, WadType};
use wadfile::wad::lump::LumpHeader;
use wadfile::wad::{parse, WadError};

fn header_bytes(magic: &[u8], lumps: i32, offset: i32) -> Vec<u8> {
    let mut bytes = Vec::new();
    bytes.extend_from_slice(magic);
    bytes.extend_from_slice(&lumps.to_le_bytes());
    bytes.extend_from_slice(&offset.to_le_bytes());
    bytes
}

fn entry_bytes(offset: i32, size: i32, name: &[u8]) -> Vec<u8> {
    let mut bytes = Vec::new();
    bytes.extend_from_slice(&offset.to_le_bytes());
    bytes.extend_from_slice(&size.to_le_bytes());
    let mut field = [0u8; 8];
    field[..name.len()].copy_from_slice(name);
    bytes.extend_from_slice(&field);
    bytes
}

/// An archive with the header of the retail DOOM II archive: 2919 lumps, the
/// directory at 14557880, each entry named after its index.
fn doom2_like() -> Vec<u8> {
    let mut bytes = header_bytes(b"IWAD", 2919, 14557880);
    bytes.resize(14557880, 0);
    for i in 0..2919 {
        let name = format!("L{}", i);
        bytes.extend_from_slice(&entry_bytes(12 + i, 4, name.as_bytes()));
    }
    bytes
}

/// The first bytes of a PNG file.
fn png_like() -> Vec<u8> {
    let mut bytes = vec![0x89, b'P', b'N', b'G', 0x0d, 0x0a, 0x1a, 0x0a];
    bytes.extend_from_slice(&[0, 0, 0, 13, b'I', b'H', b'D', b'R', 0, 0, 0, 1, 0, 0, 0, 1]);
    bytes
}

#[test]
fn wad_test_read_wad() {
    let bytes = doom2_like();
    assert!(matches!(
        parse(&bytes),
        Ok((
            WadHeader {
                wad_type: WadType::IWAD,
                lumps_number: 2919,
                directory_offset: 14557880
            },
            _
        ))
    ));
}

#[test]
fn wad_test_read_invalid_wad() {
    let bytes = png_like();
    assert!(matches!(parse(&bytes), Err(WadError::UnkownWadType(_))));
}

#[test]
fn mod_test_read_wad() {
    let bytes = doom2_like();
    let (header, directory) = parse(&bytes).unwrap();
    assert!(matches!(
        header,
        WadHeader {
            wad_type: WadType::IWAD,
            lumps_number: 2919,
            directory_offset: 14557880
        }
    ));
    assert_eq!(directory.len(), 2919);
    assert_eq!(
        directory.get(0).unwrap(),
        LumpHeader { offset: 12, size: 4, name: String::from("L0") }
    );
    assert_eq!(
        directory.get(2918).unwrap(),
        LumpHeader { offset: 2930, size: 4, name: String::from("L2918") }
    );
    assert!(matches!(
        directory.get(2919),
        Err(WadError::SliceWithIncorrectLenght { requested: 16, available: 0 })
    ));
}

#[test]
fn mod_test_read_invalid_wad() {
    let bytes = png_like();
    match parse(&bytes) {
        Err(WadError::UnkownWadType(text)) => assert_eq!(text, "\u{fffd}PNG"),
        _ => panic!("a PNG file is no archive"),
    }
}

#[test]
fn parse_of_a_bare_header_has_an_empty_directory() {
    let bytes = header_bytes(b"PWAD", 0, 12);
    let (header, directory) = parse(&bytes).unwrap();
    assert_eq!(
        header,
        WadHeader { wad_type: WadType::PWAD, lumps_number: 0, directory_offset: 12 }
    );
    assert_eq!(directory.len(), 0);
    assert!(directory.to_vec().is_empty());
}

#[test]
fn parse_keeps_a_declared_count_that_the_directory_does_not_have() {
    let mut bytes = header_bytes(b"PWAD", 5, 12);
    bytes.extend_from_slice(&entry_bytes(0, 0, b"ONLY"));
    let (header, directory) = parse(&bytes).unwrap();
    assert_eq!(header.lumps_number, 5);
    assert_eq!(directory.len(), 1);
}

#[test]
fn parse_with_a_negative_directory_offset_has_an_empty_directory() {
    let mut bytes = header_bytes(b"IWAD", 3, -16);
    bytes.extend_from_slice(&[0u8; 64]);
    let (header, directory) = parse(&bytes).unwrap();
    assert_eq!(header.directory_offset, -16);
    assert_eq!(directory.len(), 0);
}

#[test]
fn parse_with_a_directory_offset_past_the_end_has_an_empty_directory() {
    let mut bytes = header_bytes(b"IWAD", 3, 1000);
    bytes.extend_from_slice(&[0u8; 64]);
    let (_, directory) = parse(&bytes).unwrap();
    assert_eq!(directory.len(), 0);
}

#[test]
fn parse_of_a_truncated_header_is_truncated() {
    let bytes = header_bytes(b"IWAD", 1, 12);
    assert!(matches!(
        parse(&bytes[..11]),
        Err(WadError::SliceWithIncorrectLenght { requested: 12, available: 11 })
    ));
    assert!(matches!(
        parse(&[]),
        Err(WadError::SliceWithIncorrectLenght { requested: 12, available: 0 })
    ));
}

#[test]
fn parse_twice_gives_equal_results() {
    let mut bytes = header_bytes(b"IWAD", 2, 12);
    bytes.extend_from_slice(&entry_bytes(44, 10, b"THINGS"));
    bytes.extend_from_slice(&entry_bytes(54, 8, b"PATCH01"));
    let (first_header, first_directory) = parse(&bytes).unwrap();
    let (second_header, second_directory) = parse(&bytes).unwrap();
    assert_eq!(first_header, second_header);
    assert_eq!(first_directory.to_vec(), second_directory.to_vec());
    assert_eq!(first_directory.to_vec(), first_directory.to_vec());
}
