use lspk::crc::checksum;
use lspk::error::{ArchiveError, TableFault};
use lspk::header::MAGIC;
use lspk::payload::Method;
use lspk::reader::{extract_entry, verify_checksum, ArchiveReader};
use lspk::table::PAKFile;

struct RunLength;

impl Method for RunLength {
    fn unpack(&self, raw: &[u8], limit: usize) -> Vec<u8> {
        let mut out: Vec<u8> = Vec::new();
        for pair in raw.chunks(2) {
            if pair.len() < 2 {
                break;
            }
            for _ in 0..pair[0] {
                if out.len() == limit {
                    return out;
                }
                out.push(pair[1]);
            }
        }
        out
    }
}

struct Forbidden;

impl Method for Forbidden {
    fn unpack(&self, _raw: &[u8], _limit: usize) -> Vec<u8> {
        panic!("the method was asked")
    }
}

fn pack(content: &[u8]) -> Vec<u8> {
    let mut out: Vec<u8> = Vec::new();
    let mut i: usize = 0;
    while i < content.len() {
        let mut n: usize = 1;
        while i + n < content.len() && content[i + n] == content[i] && n < 255 {
            n += 1;
        }
        out.push(n as u8);
        out.push(content[i]);
        i += n;
    }
    out
}

struct Item {
    name: &'static str,
    packed: Vec<u8>,
    size: u64,
    crc: u32,
}

fn stored(name: &'static str, content: &[u8]) -> Item {
    Item { name, packed: content.to_vec(), size: content.len() as u64, crc: checksum(content) }
}

fn packed(name: &'static str, content: &[u8]) -> Item {
    Item { name, packed: pack(content), size: content.len() as u64, crc: checksum(content) }
}

fn record(item: &Item, offset: u64) -> Vec<u8> {
    let mut r: Vec<u8> = vec![0u8; 296];
    r[..item.name.len()].copy_from_slice(item.name.as_bytes());
    r[256..264].copy_from_slice(&offset.to_le_bytes());
    r[264..272].copy_from_slice(&(item.packed.len() as u64).to_le_bytes());
    r[272..280].copy_from_slice(&item.size.to_le_bytes());
    r[280..288].copy_from_slice(&0x0000_0007_0000_0001u64.to_le_bytes());
    r[288..292].copy_from_slice(&item.crc.to_le_bytes());
    r[292..296].copy_from_slice(&0x0000_0009u32.to_le_bytes());
    r
}

/// Header, payloads, table; the table packed where `pack_table` says so.
fn archive(items: &[Item], pack_table: bool) -> Vec<u8> {
    let mut payloads: Vec<u8> = Vec::new();
    let mut table: Vec<u8> = Vec::new();
    for item in items {
        table.extend(record(item, 16 + payloads.len() as u64));
        payloads.extend_from_slice(&item.packed);
    }
    let in_file: Vec<u8> = if pack_table { pack(&table) } else { table };
    let mut bytes: Vec<u8> = Vec::new();
    bytes.extend_from_slice(&MAGIC);
    bytes.extend_from_slice(&16u32.to_le_bytes());
    bytes.extend_from_slice(&(16 + payloads.len() as u64).to_le_bytes());
    bytes.extend_from_slice(&payloads);
    bytes.extend_from_slice(&(items.len() as u32).to_le_bytes());
    bytes.extend_from_slice(&(in_file.len() as u32).to_le_bytes());
    bytes.extend_from_slice(&in_file);
    bytes
}

fn sample() -> Vec<Item> {
    vec![
        stored("Mods/readme.txt", b"hello"),
        packed("Public/map.bin", &[7u8; 300]),
        stored("empty", b""),
        packed("Public/mixed.bin", b"aaaaabbbbbbbbbbcccccccccccccccddddd"),
    ]
}

const CEILING: u64 = 1 << 20;

#[test]
fn open_lists_the_entries_of_the_table_in_order() {
    let reader = ArchiveReader::open(archive(&sample(), false), &Forbidden, CEILING).unwrap();
    assert!(reader.is_open());
    let list: &[PAKFile] = reader.list_entries().unwrap();
    assert_eq!(list.len(), 4);
    assert_eq!(
        list[0],
        PAKFile {
            name: "Mods/readme.txt".to_string(),
            offset: 16,
            zsize: 5,
            size: 5,
            d1: 0x0000_0007_0000_0001,
            crc: 0x3610_A686,
            d2: 9,
        }
    );
    assert_eq!(list[1].name, "Public/map.bin");
    assert_eq!(list[1].offset, 21);
    assert_eq!(list[1].size, 300);
    assert_eq!(list[2].name, "empty");
    assert_eq!(list[3].name, "Public/mixed.bin");
    assert_eq!(reader.list_entries().unwrap(), list);
}

#[test]
fn open_reads_a_packed_table_through_the_method() {
    let reader = ArchiveReader::open(archive(&sample(), true), &RunLength, CEILING).unwrap();
    assert_eq!(reader.list_entries().unwrap().len(), 4);
    assert_eq!(reader.lookup("empty").unwrap().size, 0);
}

#[test]
fn every_listed_entry_extracts_with_its_recorded_checksum() {
    let reader = ArchiveReader::open(archive(&sample(), true), &RunLength, CEILING).unwrap();
    let list: Vec<PAKFile> = reader.list_entries().unwrap().to_vec();
    assert_eq!(list.len(), 4);
    for entry in &list {
        let content: Vec<u8> = reader.extract(&entry.name, &RunLength).unwrap();
        assert_eq!(checksum(&content), entry.crc);
        assert_eq!(content.len() as u64, entry.size);
    }
}

#[test]
fn stored_entry_is_extracted_as_it_lies_in_the_archive() {
    let bytes = archive(&sample(), false);
    let reader = ArchiveReader::open(bytes.clone(), &Forbidden, CEILING).unwrap();
    let content: Vec<u8> = reader.extract("Mods/readme.txt", &Forbidden).unwrap();
    assert_eq!(content, b"hello".to_vec());
    assert_eq!(content, bytes[16..21].to_vec());
    assert_eq!(reader.extract("empty", &Forbidden), Ok(Vec::new()));
}

#[test]
fn packed_entry_is_extracted_through_the_method() {
    let reader = ArchiveReader::open(archive(&sample(), false), &Forbidden, CEILING).unwrap();
    assert_eq!(reader.extract("Public/map.bin", &RunLength), Ok(vec![7u8; 300]));
    assert_eq!(
        reader.extract("Public/mixed.bin", &RunLength),
        Ok(b"aaaaabbbbbbbbbbcccccccccccccccddddd".to_vec())
    );
}

#[test]
fn lookup_gives_the_entry_or_not_found() {
    let reader = ArchiveReader::open(archive(&sample(), false), &Forbidden, CEILING).unwrap();
    assert_eq!(reader.lookup("Public/map.bin").unwrap().offset, 21);
    assert_eq!(
        reader.lookup("Public/map"),
        Err(ArchiveError::NotFound { name: "Public/map".to_string() })
    );
}

#[test]
fn extract_of_an_absent_name_is_not_found() {
    let reader = ArchiveReader::open(archive(&sample(), false), &Forbidden, CEILING).unwrap();
    assert_eq!(
        reader.extract("does/not/exist", &Forbidden),
        Err(ArchiveError::NotFound { name: "does/not/exist".to_string() })
    );
    assert_eq!(reader.extract("Mods/readme.txt", &Forbidden), Ok(b"hello".to_vec()));
}

#[test]
fn closed_reader_refuses_everything() {
    let mut reader = ArchiveReader::open(archive(&sample(), false), &Forbidden, CEILING).unwrap();
    reader.close();
    assert!(!reader.is_open());
    assert_eq!(reader.lookup("Mods/readme.txt"), Err(ArchiveError::Closed));
    assert_eq!(reader.extract("Mods/readme.txt", &Forbidden), Err(ArchiveError::Closed));
    assert_eq!(reader.extract("does/not/exist", &Forbidden), Err(ArchiveError::Closed));
    assert_eq!(reader.list_entries(), Err(ArchiveError::Closed));
    reader.close();
    assert!(!reader.is_open());
    assert_eq!(reader.lookup("Mods/readme.txt"), Err(ArchiveError::Closed));
}

#[test]
fn wrong_checksum_is_reported_with_both_values() {
    let mut items = sample();
    items[0].crc = 0x1234_5678;
    let reader = ArchiveReader::open(archive(&items, false), &Forbidden, CEILING).unwrap();
    assert_eq!(
        reader.extract("Mods/readme.txt", &Forbidden),
        Err(ArchiveError::ChecksumMismatch {
            name: "Mods/readme.txt".to_string(),
            expected: 0x1234_5678,
            observed: 0x3610_A686,
        })
    );
}

#[test]
fn a_flipped_payload_byte_is_a_checksum_mismatch() {
    let mut bytes = archive(&sample(), false);
    bytes[17] ^= 0x20;
    let reader = ArchiveReader::open(bytes, &Forbidden, CEILING).unwrap();
    assert_eq!(
        reader.extract("Mods/readme.txt", &Forbidden),
        Err(ArchiveError::ChecksumMismatch {
            name: "Mods/readme.txt".to_string(),
            expected: 0x3610_A686,
            observed: checksum(b"hEllo"),
        })
    );
}

#[test]
fn a_failed_extraction_leaves_the_reader_and_the_other_entries_alone() {
    let mut items = sample();
    items[0].crc = 0;
    items[1].size = 301;
    let reader = ArchiveReader::open(archive(&items, false), &Forbidden, CEILING).unwrap();
    assert!(reader.extract("Mods/readme.txt", &RunLength).is_err());
    assert_eq!(
        reader.extract("Public/map.bin", &RunLength),
        Err(ArchiveError::SizeMismatch { expected: 301, observed: 300 })
    );
    assert!(reader.is_open());
    assert_eq!(
        reader.extract("Public/mixed.bin", &RunLength),
        Ok(b"aaaaabbbbbbbbbbcccccccccccccccddddd".to_vec())
    );
}

#[test]
fn entry_that_declares_too_much_is_refused_before_the_method_is_asked() {
    let mut items = sample();
    items[1].size = u64::MAX;
    items[3].size = CEILING + 1;
    let reader = ArchiveReader::open(archive(&items, false), &Forbidden, CEILING).unwrap();
    assert_eq!(
        reader.extract("Public/map.bin", &Forbidden),
        Err(ArchiveError::SizeTooLarge { declared: u64::MAX, ceiling: CEILING })
    );
    assert_eq!(
        reader.extract("Public/mixed.bin", &Forbidden),
        Err(ArchiveError::SizeTooLarge { declared: CEILING + 1, ceiling: CEILING })
    );
}

#[test]
fn stored_entry_above_the_ceiling_is_refused() {
    let items = vec![stored("big", &[1u8; 400])];
    let reader = ArchiveReader::open(archive(&items, false), &Forbidden, 399).unwrap();
    assert_eq!(
        reader.extract("big", &Forbidden),
        Err(ArchiveError::SizeTooLarge { declared: 400, ceiling: 399 })
    );
    let reader = ArchiveReader::open(archive(&items, false), &Forbidden, 400).unwrap();
    assert_eq!(reader.extract("big", &Forbidden), Ok(vec![1u8; 400]));
}

#[test]
fn entry_outside_the_archive_fails_at_the_read() {
    let items = vec![stored("a", b"hello")];
    let mut bytes = archive(&items, false);
    let length: u64 = bytes.len() as u64;
    let table: usize = 21 + 8;
    bytes[table + 256..table + 264].copy_from_slice(&(length + 1).to_le_bytes());
    let reader = ArchiveReader::open(bytes.clone(), &Forbidden, CEILING).unwrap();
    assert_eq!(
        reader.extract("a", &Forbidden),
        Err(ArchiveError::OutOfBounds { offset: length + 1, length })
    );
    bytes[table + 256..table + 264].copy_from_slice(&(length - 3).to_le_bytes());
    let reader = ArchiveReader::open(bytes.clone(), &Forbidden, CEILING).unwrap();
    assert_eq!(
        reader.extract("a", &Forbidden),
        Err(ArchiveError::Truncated { offset: length - 3, wanted: 5, available: 3 })
    );
    bytes[table + 256..table + 264].copy_from_slice(&16u64.to_le_bytes());
    bytes[table + 264..table + 272].copy_from_slice(&u64::MAX.to_le_bytes());
    let reader = ArchiveReader::open(bytes, &Forbidden, CEILING).unwrap();
    assert_eq!(
        reader.extract("a", &RunLength),
        Err(ArchiveError::Truncated { offset: 16, wanted: u64::MAX, available: length - 16 })
    );
}

#[test]
fn archive_cut_before_the_end_of_the_table_head_is_truncated() {
    let bytes = archive(&sample(), false);
    let table_offset: usize = 16 + 5 + pack(&[7u8; 300]).len()
        + pack(b"aaaaabbbbbbbbbbcccccccccccccccddddd").len();
    for cut in table_offset..table_offset + 8 {
        let r = ArchiveReader::open(bytes[..cut].to_vec(), &Forbidden, CEILING);
        assert!(matches!(r, Err(ArchiveError::Truncated { .. })));
    }
    for cut in 0..16usize {
        let r = ArchiveReader::open(bytes[..cut].to_vec(), &Forbidden, CEILING);
        assert!(matches!(r, Err(ArchiveError::Truncated { .. })));
    }
    assert!(ArchiveReader::open(bytes, &Forbidden, CEILING).is_ok());
}

#[test]
fn archive_cut_before_its_table_is_out_of_bounds() {
    let bytes = archive(&sample(), false);
    let r = ArchiveReader::open(bytes[..18].to_vec(), &Forbidden, CEILING);
    assert!(matches!(r, Err(ArchiveError::OutOfBounds { length: 18, .. })));
}

#[test]
fn archive_with_a_corrupt_tag_is_bad_magic() {
    for i in 0..4usize {
        let mut bytes = archive(&sample(), false);
        bytes[i] = !bytes[i];
        let mut found: [u8; 4] = MAGIC;
        found[i] = !found[i];
        let r = ArchiveReader::open(bytes, &Forbidden, CEILING);
        assert_eq!(r.err(), Some(ArchiveError::BadMagic { found }));
    }
}

#[test]
fn archive_with_two_entries_of_one_name_is_a_duplicate() {
    let items = vec![stored("a", b"1"), stored("b", b"2"), stored("a", b"3")];
    let r = ArchiveReader::open(archive(&items, false), &Forbidden, CEILING);
    assert_eq!(r.err(), Some(ArchiveError::DuplicateEntry { name: "a".to_string() }));
    let r = ArchiveReader::open(archive(&items, true), &RunLength, CEILING);
    assert_eq!(r.err(), Some(ArchiveError::DuplicateEntry { name: "a".to_string() }));
}

#[test]
fn archive_with_a_nameless_entry_does_not_open() {
    let items = vec![stored("a", b"1"), stored("", b"2")];
    let r = ArchiveReader::open(archive(&items, false), &Forbidden, CEILING);
    assert_eq!(
        r.err(),
        Some(ArchiveError::MalformedTable { fault: TableFault::NameEmpty { record: 1 } })
    );
}

#[test]
fn archive_whose_table_exceeds_the_ceiling_does_not_open() {
    let r = ArchiveReader::open(archive(&sample(), false), &Forbidden, 4 * 296 - 1);
    assert_eq!(
        r.err(),
        Some(ArchiveError::SizeTooLarge { declared: 4 * 296, ceiling: 4 * 296 - 1 })
    );
    assert!(ArchiveReader::open(archive(&sample(), false), &Forbidden, 4 * 296).is_ok());
}

#[test]
fn verify_checksum_accepts_only_the_recorded_value() {
    let entry = PAKFile {
        name: "a".to_string(),
        offset: 0,
        zsize: 9,
        size: 9,
        d1: 0,
        crc: 0xCBF4_3926,
        d2: 0,
    };
    assert_eq!(verify_checksum(b"123456789".to_vec(), &entry), Ok(b"123456789".to_vec()));
    assert_eq!(
        verify_checksum(b"123456780".to_vec(), &entry),
        Err(ArchiveError::ChecksumMismatch {
            name: "a".to_string(),
            expected: 0xCBF4_3926,
            observed: checksum(b"123456780"),
        })
    );
}

#[test]
fn extract_entry_reads_unpacks_and_verifies() {
    let source: Vec<u8> = vec![0xee, 0xee, 4, b'x', 2, b'y', 0xee];
    let entry = PAKFile {
        name: "a".to_string(),
        offset: 2,
        zsize: 4,
        size: 6,
        d1: 0,
        crc: checksum(b"xxxxyy"),
        d2: 0,
    };
    assert_eq!(extract_entry(&source, &entry, &RunLength, 6), Ok(b"xxxxyy".to_vec()));
    assert_eq!(
        extract_entry(&source, &entry, &RunLength, 5),
        Err(ArchiveError::SizeTooLarge { declared: 6, ceiling: 5 })
    );
    let stored = PAKFile { size: 4, crc: checksum(&[4, b'x', 2, b'y']), ..entry.clone() };
    assert_eq!(extract_entry(&source, &stored, &Forbidden, 6), Ok(vec![4, b'x', 2, b'y']));
}

#[test]
fn archives_that_differ_only_in_packing_give_the_same_entries_and_content() {
    let content: Vec<u8> = b"aaaaaaaabbbbbbbbbbbbcc".to_vec();
    let whole_runs = packed("data.bin", &content);
    let mut split_runs = packed("data.bin", &content);
    split_runs.packed = vec![3, b'a', 5, b'a', 12, b'b', 1, b'c', 1, b'c'];
    let as_it_is = stored("data.bin", &content);
    let mut contents: Vec<Vec<u8>> = Vec::new();
    let mut packed_sizes: Vec<u64> = Vec::new();
    for (item, pack_table) in [(whole_runs, false), (split_runs, true), (as_it_is, true)] {
        let reader = ArchiveReader::open(archive(&[item], pack_table), &RunLength, CEILING).unwrap();
        let list: &[PAKFile] = reader.list_entries().unwrap();
        assert_eq!(list.len(), 1);
        assert_eq!(list[0].name, "data.bin");
        assert_eq!(list[0].size, 22);
        assert_eq!(list[0].crc, checksum(&content));
        packed_sizes.push(list[0].zsize);
        contents.push(reader.extract("data.bin", &RunLength).unwrap());
    }
    assert_eq!(packed_sizes, vec![6, 10, 22]);
    assert_eq!(contents, vec![content.clone(), content.clone(), content]);
}
