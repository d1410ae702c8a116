use lspk::cursor::BinaryCursor;
use lspk::error::ArchiveError;
use lspk::header::{
    is_supported, parse_header, PAKHeader, HEADER_SIZE, MAGIC, NEWEST_VERSION,
};

fn header_bytes(tag: [u8; 4], version: u32, table_offset: u64) -> Vec<u8> {
    let mut bytes: Vec<u8> = Vec::new();
    bytes.extend_from_slice(&tag);
    bytes.extend_from_slice(&version.to_le_bytes());
    bytes.extend_from_slice(&table_offset.to_le_bytes());
    bytes
}

#[test]
fn magic_spells_lspk() {
    assert_eq!(&MAGIC, b"LSPK");
    assert_eq!(HEADER_SIZE, 16);
}

#[test]
fn every_version_up_to_the_newest_is_supported() {
    assert_eq!(NEWEST_VERSION, 18);
    for version in 0..=18u32 {
        assert!(is_supported(version));
    }
    assert!(!is_supported(19));
    assert!(!is_supported(1000));
    assert!(!is_supported(u32::MAX));
}

#[test]
fn header_of_every_supported_version_parses() {
    for version in [0u32, 1, 7, 10, 13, 15, 16, 17, 18] {
        let bytes = header_bytes(MAGIC, version, 16);
        let mut cursor = BinaryCursor::new(&bytes);
        assert_eq!(
            parse_header(&mut cursor),
            Ok(PAKHeader { id: MAGIC, version, table_offset: 16 })
        );
    }
}

#[test]
fn header_parses() {
    let bytes = header_bytes(MAGIC, 15, 0x0000_0001_0000_0020);
    let mut cursor = BinaryCursor::new(&bytes);
    assert_eq!(
        parse_header(&mut cursor),
        Ok(PAKHeader { id: MAGIC, version: 15, table_offset: 0x0000_0001_0000_0020 })
    );
    assert_eq!(cursor.position(), 16);
}

#[test]
fn header_parses_from_the_start_wherever_the_cursor_stood() {
    let mut bytes = header_bytes(MAGIC, 16, 24);
    bytes.extend_from_slice(&[0u8; 8]);
    let mut cursor = BinaryCursor::new(&bytes);
    assert_eq!(cursor.seek(20), Ok(()));
    assert_eq!(
        parse_header(&mut cursor),
        Ok(PAKHeader { id: MAGIC, version: 16, table_offset: 24 })
    );
    assert_eq!(cursor.position(), 16);
}

#[test]
fn header_offset_is_not_checked_against_the_length() {
    let bytes = header_bytes(MAGIC, 15, u64::MAX);
    let mut cursor = BinaryCursor::new(&bytes);
    assert_eq!(
        parse_header(&mut cursor),
        Ok(PAKHeader { id: MAGIC, version: 15, table_offset: u64::MAX })
    );
}

#[test]
fn wrong_tag_is_bad_magic() {
    let bytes = header_bytes(*b"LSPX", 15, 16);
    let mut cursor = BinaryCursor::new(&bytes);
    assert_eq!(
        parse_header(&mut cursor),
        Err(ArchiveError::BadMagic { found: *b"LSPX" })
    );
    assert_eq!(cursor.position(), 4);
}

#[test]
fn each_byte_of_the_tag_counts() {
    for i in 0..4usize {
        let mut tag: [u8; 4] = MAGIC;
        tag[i] ^= 0x01;
        let bytes = header_bytes(tag, 15, 16);
        let mut cursor = BinaryCursor::new(&bytes);
        assert_eq!(parse_header(&mut cursor), Err(ArchiveError::BadMagic { found: tag }));
    }
}

#[test]
fn bad_magic_comes_before_the_version_is_looked_at() {
    let bytes = header_bytes(*b"PKLS", 99, 16);
    let mut cursor = BinaryCursor::new(&bytes);
    assert_eq!(
        parse_header(&mut cursor),
        Err(ArchiveError::BadMagic { found: *b"PKLS" })
    );
}

#[test]
fn unknown_version_is_unsupported_and_reported() {
    let bytes = header_bytes(MAGIC, 19, 16);
    let mut cursor = BinaryCursor::new(&bytes);
    assert_eq!(
        parse_header(&mut cursor),
        Err(ArchiveError::UnsupportedVersion { version: 19 })
    );
    assert_eq!(cursor.position(), 8);
    let bytes = header_bytes(MAGIC, 0xffff_fffe, 16);
    let mut cursor = BinaryCursor::new(&bytes);
    assert_eq!(
        parse_header(&mut cursor),
        Err(ArchiveError::UnsupportedVersion { version: 0xffff_fffe })
    );
}

#[test]
fn short_header_is_truncated_at_the_field_that_is_missing() {
    let whole = header_bytes(MAGIC, 15, 16);
    let mut cursor = BinaryCursor::new(&whole[..0]);
    assert_eq!(
        parse_header(&mut cursor),
        Err(ArchiveError::Truncated { offset: 0, wanted: 4, available: 0 })
    );
    let mut cursor = BinaryCursor::new(&whole[..3]);
    assert_eq!(
        parse_header(&mut cursor),
        Err(ArchiveError::Truncated { offset: 0, wanted: 4, available: 3 })
    );
    assert_eq!(cursor.position(), 0);
    let mut cursor = BinaryCursor::new(&whole[..7]);
    assert_eq!(
        parse_header(&mut cursor),
        Err(ArchiveError::Truncated { offset: 4, wanted: 4, available: 3 })
    );
    assert_eq!(cursor.position(), 4);
    let mut cursor = BinaryCursor::new(&whole[..15]);
    assert_eq!(
        parse_header(&mut cursor),
        Err(ArchiveError::Truncated { offset: 8, wanted: 8, available: 7 })
    );
    assert_eq!(cursor.position(), 8);
}
