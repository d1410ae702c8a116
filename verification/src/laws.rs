//! What holds of every archive and of every reader, proved from the
//! definitions of the outcomes.

use crate::crc::crc32;
use crate::error::ErrorModel;
use crate::header::{header_outcome, MAGIC};
use crate::index::{find_entry, lemma_find_entry};
use crate::payload::too_large;
use crate::reader::{extract_outcome, lookup_outcome, packed_bytes, payload_outcome};
use crate::table::{
    blob_outcome, distinct_names, entries_outcome, first_repeat, flat_outcome,
    lemma_entries_well_named, lemma_first_repeat_none, packed_table, pak_outcome,
    records_outcome, repeats, well_named, EntryModel, PakModel, RECORD_SIZE,
};
use vstd::prelude::*;

verus! {

/// Whether the packed bytes of `entry` lie within an archive of the bytes
/// `source`.
pub open spec fn in_bounds(source: Seq<u8>, entry: EntryModel) -> bool {
    entry.offset + entry.zsize <= source.len()
}

/// The content of `entry`: its packed bytes where it is stored, and otherwise
/// `unpacked`, what the method makes of them.
pub open spec fn content_of(source: Seq<u8>, entry: EntryModel, unpacked: Seq<u8>) -> Seq<u8> {
    if entry.zsize == entry.size {
        packed_bytes(source, entry)
    } else {
        unpacked
    }
}

/// Whether `entry` is as a valid archive has it: its packed bytes lie within
/// the archive, its declared size is within the ceiling, and its content has
/// the declared size and the recorded checksum.
pub open spec fn sound_entry(
    source: Seq<u8>,
    entry: EntryModel,
    ceiling: u64,
    unpacked: Seq<u8>,
) -> bool {
    &&& in_bounds(source, entry)
    &&& !too_large(entry.size, ceiling)
    &&& content_of(source, entry, unpacked).len() == entry.size
    &&& crc32(content_of(source, entry, unpacked)) == entry.crc
}

/// An archive that decodes has as many entries as its table declares; each
/// has a name, and no two have the same.
pub proof fn law_decoded_entries_well_named(bytes: Seq<u8>, ceiling: u64, unpacked: Seq<u8>)
    requires
        pak_outcome(bytes, ceiling, unpacked) is Ok,
    ensures
        pak_outcome(bytes, ceiling, unpacked)->Ok_0.archives.len() == pak_outcome(
            bytes,
            ceiling,
            unpacked,
        )->Ok_0.files,
        well_named(pak_outcome(bytes, ceiling, unpacked)->Ok_0.archives),
{
    let header = header_outcome(bytes)->Ok_0;
    let blob = blob_outcome(bytes, header)->Ok_0;
    let flat = flat_outcome(blob, ceiling, unpacked)->Ok_0;
    lemma_entries_well_named(flat, blob.files);
}

/// Among entries with distinct names, each is the one found under its name.
pub proof fn law_entry_found_by_name(entries: Seq<EntryModel>, i: int)
    requires
        distinct_names(entries),
        0 <= i < entries.len(),
    ensures
        find_entry(entries, entries[i].name) == Some(entries[i]),
{
    let name = entries[i].name;
    lemma_find_entry(entries, name);
    let found = find_entry(entries, name)->Some_0;
    let k = choose|k: int| 0 <= k < entries.len() && entries[k] == found;
    if k < i {
        assert(entries[k].name != entries[i].name);
    } else if i < k {
        assert(entries[i].name != entries[k].name);
    }
}

/// Content that is extracted has the size and the checksum that its entry
/// records, whatever the method returned.
pub proof fn law_extracted_content_verified(
    source: Seq<u8>,
    entry: EntryModel,
    ceiling: u64,
    unpacked: Seq<u8>,
)
    requires
        payload_outcome(source, entry, ceiling, unpacked) is Ok,
    ensures
        payload_outcome(source, entry, ceiling, unpacked)->Ok_0 == content_of(
            source,
            entry,
            unpacked,
        ),
        payload_outcome(source, entry, ceiling, unpacked)->Ok_0.len() == entry.size,
        crc32(payload_outcome(source, entry, ceiling, unpacked)->Ok_0) == entry.crc,
{
}

/// In an archive that decodes, every listed entry that is sound is extracted
/// under its name, and the content has the checksum that the entry records.
pub proof fn law_valid_archive_extracts(
    bytes: Seq<u8>,
    ceiling: u64,
    table_unpacked: Seq<u8>,
    i: int,
    unpacked: Seq<u8>,
)
    requires
        pak_outcome(bytes, ceiling, table_unpacked) is Ok,
        0 <= i < pak_outcome(bytes, ceiling, table_unpacked)->Ok_0.archives.len(),
        sound_entry(
            bytes,
            pak_outcome(bytes, ceiling, table_unpacked)->Ok_0.archives[i],
            ceiling,
            unpacked,
        ),
    ensures
        ({
            let entries = pak_outcome(bytes, ceiling, table_unpacked)->Ok_0.archives;
            let content = content_of(bytes, entries[i], unpacked);
            &&& extract_outcome(true, bytes, entries, ceiling, entries[i].name, unpacked) == Ok::<
                Seq<u8>,
                ErrorModel,
            >(content)
            &&& crc32(content) == entries[i].crc
        }),
{
    let entries = pak_outcome(bytes, ceiling, table_unpacked)->Ok_0.archives;
    law_decoded_entries_well_named(bytes, ceiling, table_unpacked);
    law_entry_found_by_name(entries, i);
}

/// A stored entry is extracted without the method: the outcome is the same
/// whatever the method would return, and content that is extracted is the
/// packed bytes as they lie in the archive.
pub proof fn law_stored_entry_verbatim(
    source: Seq<u8>,
    entry: EntryModel,
    ceiling: u64,
    unpacked: Seq<u8>,
    other: Seq<u8>,
)
    requires
        entry.zsize == entry.size,
    ensures
        payload_outcome(source, entry, ceiling, unpacked) == payload_outcome(
            source,
            entry,
            ceiling,
            other,
        ),
        payload_outcome(source, entry, ceiling, unpacked) is Ok ==> {
            &&& payload_outcome(source, entry, ceiling, unpacked)->Ok_0 == packed_bytes(
                source,
                entry,
            )
            &&& payload_outcome(source, entry, ceiling, unpacked)->Ok_0.len() == entry.zsize
        },
{
}

/// How a table is packed does not matter, only what it unpacks to: two
/// archives whose tables declare as many records and unpack to the same bytes
/// decode to the same entries, or fail with the same error. Nothing is said
/// of packing content again: the library never does so.
pub proof fn law_table_packing_does_not_matter(
    first: Seq<u8>,
    second: Seq<u8>,
    ceiling: u64,
    unpacked_first: Seq<u8>,
    unpacked_second: Seq<u8>,
)
    requires
        header_outcome(first) is Ok,
        header_outcome(second) is Ok,
        blob_outcome(first, header_outcome(first)->Ok_0) is Ok,
        blob_outcome(second, header_outcome(second)->Ok_0) is Ok,
        packed_table(first).files == packed_table(second).files,
        flat_outcome(packed_table(first), ceiling, unpacked_first) is Ok,
        flat_outcome(packed_table(second), ceiling, unpacked_second) == flat_outcome(
            packed_table(first),
            ceiling,
            unpacked_first,
        ),
    ensures
        pak_outcome(first, ceiling, unpacked_first) is Ok <==> pak_outcome(
            second,
            ceiling,
            unpacked_second,
        ) is Ok,
        pak_outcome(first, ceiling, unpacked_first) is Ok ==> pak_outcome(
            first,
            ceiling,
            unpacked_first,
        )->Ok_0.archives == pak_outcome(second, ceiling, unpacked_second)->Ok_0.archives,
        pak_outcome(first, ceiling, unpacked_first) is Err ==> pak_outcome(
            first,
            ceiling,
            unpacked_first,
        )->Err_0 == pak_outcome(second, ceiling, unpacked_second)->Err_0,
{
}

/// How an entry is packed does not matter, only what it unpacks to: two
/// entries of one name that record the same size and checksum, lie within
/// their archives and have the same content are extracted alike, whatever
/// their packed bytes are and wherever they lie.
pub proof fn law_entry_packing_does_not_matter(
    first_source: Seq<u8>,
    first: EntryModel,
    first_unpacked: Seq<u8>,
    second_source: Seq<u8>,
    second: EntryModel,
    second_unpacked: Seq<u8>,
    ceiling: u64,
)
    requires
        in_bounds(first_source, first),
        in_bounds(second_source, second),
        first.name == second.name,
        first.size == second.size,
        first.crc == second.crc,
        content_of(first_source, first, first_unpacked) == content_of(
            second_source,
            second,
            second_unpacked,
        ),
    ensures
        payload_outcome(first_source, first, ceiling, first_unpacked) == payload_outcome(
            second_source,
            second,
            ceiling,
            second_unpacked,
        ),
{
}

/// An archive with a sound header that is cut off within the eight bytes
/// that open its table, or within its header, fails to decode with
/// `Truncated`. A cut between the header and the table is left out: there the
/// table offset lies past the end, and the seek to it fails.
pub proof fn law_cut_archive_truncated(
    whole: Seq<u8>,
    n: int,
    ceiling: u64,
    unpacked: Seq<u8>,
)
    requires
        header_outcome(whole) is Ok,
        0 <= n <= whole.len(),
        n < header_outcome(whole)->Ok_0.table_offset + 8,
        n < 16 || header_outcome(whole)->Ok_0.table_offset <= n,
    ensures
        pak_outcome(whole.take(n), ceiling, unpacked) is Err,
        pak_outcome(whole.take(n), ceiling, unpacked)->Err_0 is Truncated,
{
    let cut = whole.take(n);
    if n >= 4 {
        assert(cut.subrange(0, 4) == whole.subrange(0, 4));
    }
    if n >= 8 {
        assert(cut.subrange(4, 8) == whole.subrange(4, 8));
    }
    if n >= 16 {
        assert(cut.subrange(8, 16) == whole.subrange(8, 16));
        assert(header_outcome(cut) == header_outcome(whole));
    }
}

/// An archive whose first four bytes are not the tag fails to decode with
/// `BadMagic`, which reports the four bytes found.
pub proof fn law_wrong_tag_bad_magic(bytes: Seq<u8>, ceiling: u64, unpacked: Seq<u8>)
    requires
        bytes.len() >= 4,
        bytes.subrange(0, 4) != MAGIC@,
    ensures
        pak_outcome(bytes, ceiling, unpacked) == Err::<PakModel, ErrorModel>(
            ErrorModel::BadMagic { found: bytes.subrange(0, 4) },
        ),
{
}

/// A table whose records all decode and two of which have the same name
/// fails to decode with `DuplicateEntry`, which reports a name that an
/// earlier record has too.
pub proof fn law_repeated_name_duplicate(flat: Seq<u8>, files: u32, i: int, j: int)
    requires
        flat.len() == files * RECORD_SIZE,
        records_outcome(flat, files as nat) is Ok,
        0 <= i < j < records_outcome(flat, files as nat)->Ok_0.len(),
        records_outcome(flat, files as nat)->Ok_0[i].name == records_outcome(
            flat,
            files as nat,
        )->Ok_0[j].name,
    ensures
        entries_outcome(flat, files) is Err,
        entries_outcome(flat, files)->Err_0 is DuplicateEntry,
        ({
            let entries = records_outcome(flat, files as nat)->Ok_0;
            let name = entries_outcome(flat, files)->Err_0->DuplicateEntry_name;
            exists|a: int, b: int|
                0 <= a < b < entries.len() && (#[trigger] entries[a]).name == name && (
                #[trigger] entries[b]).name == name
        }),
{
    let entries = records_outcome(flat, files as nat)->Ok_0;
    lemma_first_repeat_none(entries, entries.len());
    assert(entries.take(entries.len() as int) == entries);
    assert(first_repeat(entries, entries.len()) is Some);
    lemma_first_repeat_is_repeat(entries, entries.len());
    let b = first_repeat(entries, entries.len())->Some_0;
    let a = choose|a: int| 0 <= a < b && (#[trigger] entries[a]).name == entries[b].name;
    assert(entries[a].name == entries[b].name);
}

/// The first repeat among the first `n` entries is one of them and has the
/// name of an entry before it.
proof fn lemma_first_repeat_is_repeat(entries: Seq<EntryModel>, n: nat)
    requires
        first_repeat(entries, n) is Some,
    ensures
        0 <= first_repeat(entries, n)->Some_0 < n,
        repeats(entries, first_repeat(entries, n)->Some_0),
    decreases n,
{
    if n > 0 && first_repeat(entries, (n - 1) as nat) is Some {
        lemma_first_repeat_is_repeat(entries, (n - 1) as nat);
    }
}

/// An archive whose table decodes up to a repeated name fails to open with
/// `DuplicateEntry`.
pub proof fn law_duplicate_fails_archive(
    bytes: Seq<u8>,
    ceiling: u64,
    unpacked: Seq<u8>,
    i: int,
    j: int,
)
    requires
        header_outcome(bytes) is Ok,
        blob_outcome(bytes, header_outcome(bytes)->Ok_0) is Ok,
        flat_outcome(blob_outcome(bytes, header_outcome(bytes)->Ok_0)->Ok_0, ceiling, unpacked)
            is Ok,
        ({
            let blob = blob_outcome(bytes, header_outcome(bytes)->Ok_0)->Ok_0;
            let flat = flat_outcome(blob, ceiling, unpacked)->Ok_0;
            &&& records_outcome(flat, blob.files as nat) is Ok
            &&& 0 <= i < j < records_outcome(flat, blob.files as nat)->Ok_0.len()
            &&& records_outcome(flat, blob.files as nat)->Ok_0[i].name == records_outcome(
                flat,
                blob.files as nat,
            )->Ok_0[j].name
        }),
    ensures
        pak_outcome(bytes, ceiling, unpacked) is Err,
        pak_outcome(bytes, ceiling, unpacked)->Err_0 is DuplicateEntry,
{
    let blob = blob_outcome(bytes, header_outcome(bytes)->Ok_0)->Ok_0;
    let flat = flat_outcome(blob, ceiling, unpacked)->Ok_0;
    law_repeated_name_duplicate(flat, blob.files, i, j);
}

/// A name that no entry has is not found, whatever the archive holds: the
/// outcome depends on nothing but the names.
pub proof fn law_absent_name_not_found(
    source: Seq<u8>,
    entries: Seq<EntryModel>,
    ceiling: u64,
    name: Seq<char>,
    unpacked: Seq<u8>,
)
    requires
        forall|i: int| 0 <= i < entries.len() ==> (#[trigger] entries[i]).name != name,
    ensures
        lookup_outcome(true, entries, name) == Err::<EntryModel, ErrorModel>(
            ErrorModel::NotFound { name },
        ),
        extract_outcome(true, source, entries, ceiling, name, unpacked) == Err::<
            Seq<u8>,
            ErrorModel,
        >(ErrorModel::NotFound { name }),
{
    lemma_find_entry(entries, name);
}

/// A reader that is closed answers every lookup and every extraction with
/// `Closed`.
pub proof fn law_closed_reader_refuses(
    source: Seq<u8>,
    entries: Seq<EntryModel>,
    ceiling: u64,
    name: Seq<char>,
    unpacked: Seq<u8>,
)
    ensures
        lookup_outcome(false, entries, name) == Err::<EntryModel, ErrorModel>(ErrorModel::Closed),
        extract_outcome(false, source, entries, ceiling, name, unpacked) == Err::<
            Seq<u8>,
            ErrorModel,
        >(ErrorModel::Closed),
{
}

/// An entry that declares more content than the ceiling allows, and whose
/// packed bytes lie within the archive, fails to extract with `SizeTooLarge`
/// whatever the method would return. An entry whose packed bytes do not lie
/// within the archive is left out: reading them fails first.
pub proof fn law_oversized_entry_refused(
    source: Seq<u8>,
    entry: EntryModel,
    ceiling: u64,
    unpacked: Seq<u8>,
)
    requires
        in_bounds(source, entry),
        entry.size > ceiling,
    ensures
        payload_outcome(source, entry, ceiling, unpacked) == Err::<Seq<u8>, ErrorModel>(
            ErrorModel::SizeTooLarge { declared: entry.size, ceiling },
        ),
{
}

} // verus!
