use lspk::index::ArchiveIndex;
use lspk::table::PAKFile;
use lspk::text::same_text;

fn entry(name: &str, offset: u64) -> PAKFile {
    PAKFile { name: name.to_string(), offset, zsize: 1, size: 1, d1: 0, crc: 0, d2: 0 }
}

#[test]
fn same_text_compares_every_character() {
    assert!(same_text("", ""));
    assert!(same_text("a/b.txt", "a/b.txt"));
    assert!(!same_text("a/b.txt", "a/b.txT"));
    assert!(!same_text("a", "ab"));
    assert!(!same_text("ab", "a"));
    assert!(same_text("h\u{e9}llo", "h\u{e9}llo"));
    assert!(!same_text("h\u{e9}llo", "hello"));
}

#[test]
fn lookup_finds_each_entry_under_its_name() {
    let index = ArchiveIndex::build(vec![entry("a", 1), entry("b/c", 2), entry("d", 3)]);
    assert_eq!(index.len(), 3);
    assert_eq!(index.lookup("a"), Some(&entry("a", 1)));
    assert_eq!(index.lookup("b/c"), Some(&entry("b/c", 2)));
    assert_eq!(index.lookup("d"), Some(&entry("d", 3)));
}

#[test]
fn lookup_of_an_absent_name_is_none() {
    let index = ArchiveIndex::build(vec![entry("a", 1), entry("b/c", 2)]);
    assert_eq!(index.lookup("b"), None);
    assert_eq!(index.lookup("b/c/"), None);
    assert_eq!(index.lookup(""), None);
    assert_eq!(index.lookup("A"), None);
}

#[test]
fn lookup_in_an_empty_index_is_none() {
    let index = ArchiveIndex::build(Vec::new());
    assert_eq!(index.len(), 0);
    assert_eq!(index.lookup("a"), None);
    assert_eq!(index.list(), Vec::<String>::new());
}

#[test]
fn lookup_takes_the_first_of_equal_names() {
    let index = ArchiveIndex::build(vec![entry("a", 1), entry("a", 2)]);
    assert_eq!(index.lookup("a"), Some(&entry("a", 1)));
}

#[test]
fn list_gives_the_names_in_table_order_each_time() {
    let index = ArchiveIndex::build(vec![entry("z", 1), entry("a", 2), entry("m", 3)]);
    let names: Vec<String> = vec!["z".to_string(), "a".to_string(), "m".to_string()];
    assert_eq!(index.list(), names);
    assert_eq!(index.list(), names);
}

#[test]
fn entries_are_kept_as_built() {
    let built: Vec<PAKFile> = vec![entry("z", 1), entry("a", 2)];
    let index = ArchiveIndex::build(built.clone());
    assert_eq!(index.entries(), &built[..]);
}
