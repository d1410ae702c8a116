//! The entry table: where it lies in the archive, how it is unpacked, and how
//! its records decode into entries.

use crate::cursor::BinaryCursor;
use crate::error::{ArchiveError, ErrorModel, TableFault};
use crate::header::{header_outcome, parse_header, u32_at, u64_at, PAKHeader};
use crate::payload::{asks, bytes_outcome, decompress, settle, unpacked_by, Method};
use crate::text::{same_text, text_from_utf8};
use vstd::prelude::*;
use vstd::slice::{slice_subrange, slice_to_vec};
use vstd::utf8::{decode_utf8, valid_utf8};

verus! {

/// The width of the name field that opens each record. The name ends at the
/// first zero byte of the field, and the field must hold one.
pub const NAME_SPAN: usize = 256;

/// The length of one record of the table: the name field, four 64-bit numbers
/// and two 32-bit numbers.
pub const RECORD_SIZE: usize = 296;

/// One file of the archive, as its record in the table describes it.
#[derive(Clone, Debug, PartialEq, Eq)]
pub struct PAKFile {
    /// The path of the file within the archive; never empty.
    pub name: String,
    /// Where the packed bytes start, in bytes from the start of the archive.
    pub offset: u64,
    /// The number of packed bytes.
    pub zsize: u64,
    /// The number of bytes of content. Where it equals `zsize` the bytes are
    /// stored as they are.
    pub size: u64,
    /// Reserved by the format; kept as read.
    pub d1: u64,
    /// The CRC-32 of the content.
    pub crc: u32,
    /// Reserved by the format; kept as read.
    pub d2: u32,
}

/// A decoded archive: its header, the two numbers that open the table, and
/// the entries.
#[derive(Clone, Debug, PartialEq, Eq)]
pub struct PAK {
    pub header: PAKHeader,
    /// The number of entries.
    pub files: u32,
    /// The number of bytes that the packed table takes in the archive.
    pub table_zsize: u32,
    /// The entries, in the order of the table.
    pub archives: Vec<PAKFile>,
}

/// A `PAKFile` with its name as a sequence of characters.
pub struct EntryModel {
    pub name: Seq<char>,
    pub offset: u64,
    pub zsize: u64,
    pub size: u64,
    pub d1: u64,
    pub crc: u32,
    pub d2: u32,
}

/// A `PAK` with its entries as models.
pub struct PakModel {
    pub header: PAKHeader,
    pub files: u32,
    pub table_zsize: u32,
    pub archives: Seq<EntryModel>,
}

impl View for PAKFile {
    type V = EntryModel;

    open spec fn view(&self) -> EntryModel {
        EntryModel {
            name: self.name@,
            offset: self.offset,
            zsize: self.zsize,
            size: self.size,
            d1: self.d1,
            crc: self.crc,
            d2: self.d2,
        }
    }
}

/// The models of a run of entries.
pub open spec fn entry_models(entries: Seq<PAKFile>) -> Seq<EntryModel> {
    Seq::new(entries.len(), |i: int| entries[i]@)
}

impl View for PAK {
    type V = PakModel;

    open spec fn view(&self) -> PakModel {
        PakModel {
            header: self.header,
            files: self.files,
            table_zsize: self.table_zsize,
            archives: entry_models(self.archives@),
        }
    }
}

/// The result of decoding one record, as a model.
pub open spec fn entry_result(r: Result<PAKFile, ArchiveError>) -> Result<EntryModel, ErrorModel> {
    match r {
        Ok(entry) => Ok(entry@),
        Err(e) => Err(e@),
    }
}

/// The result of decoding a run of records, as models.
pub open spec fn entries_result(r: Result<Vec<PAKFile>, ArchiveError>) -> Result<
    Seq<EntryModel>,
    ErrorModel,
> {
    match r {
        Ok(entries) => Ok(entry_models(entries@)),
        Err(e) => Err(e@),
    }
}

/// The result of decoding an archive, as a model.
pub open spec fn pak_result(r: Result<PAK, ArchiveError>) -> Result<PakModel, ErrorModel> {
    match r {
        Ok(pak) => Ok(pak@),
        Err(e) => Err(e@),
    }
}

/// The index of the first zero byte of `field`, or its length where it holds
/// none.
pub open spec fn first_zero(field: Seq<u8>) -> int
    decreases field.len(),
{
    if field.len() == 0 || field[0] == 0 {
        0
    } else {
        1 + first_zero(field.skip(1))
    }
}

/// The bytes of the name in a record: its name field up to the first zero.
pub open spec fn name_bytes(record: Seq<u8>) -> Seq<u8> {
    record.subrange(0, first_zero(record.subrange(0, NAME_SPAN as int)))
}

/// A table fault as the error that reports it.
pub open spec fn malformed(fault: TableFault) -> ErrorModel {
    ErrorModel::MalformedTable { fault }
}

/// What decoding the record of number `index` comes to. A record of another
/// length than `RECORD_SIZE` is refused. The name must end within its field,
/// must not be empty and must be UTF-8; the numbers follow the name field in
/// the order of the fields of `PAKFile`.
pub open spec fn record_outcome(record: Seq<u8>, index: u32) -> Result<EntryModel, ErrorModel> {
    if record.len() != RECORD_SIZE {
        Err(
            malformed(
                TableFault::Length { expected: RECORD_SIZE as u64, observed: record.len() as u64 },
            ),
        )
    } else if name_bytes(record).len() >= NAME_SPAN {
        Err(malformed(TableFault::NameUnterminated { record: index }))
    } else if name_bytes(record).len() == 0 {
        Err(malformed(TableFault::NameEmpty { record: index }))
    } else if !valid_utf8(name_bytes(record)) {
        Err(malformed(TableFault::NameNotText { record: index }))
    } else {
        Ok(
            EntryModel {
                name: decode_utf8(name_bytes(record)),
                offset: u64_at(record, 256),
                zsize: u64_at(record, 264),
                size: u64_at(record, 272),
                d1: u64_at(record, 280),
                crc: u32_at(record, 288),
                d2: u32_at(record, 292),
            },
        )
    }
}

/// The bytes of the record of number `i` in an unpacked table.
pub open spec fn record_at(flat: Seq<u8>, i: int) -> Seq<u8> {
    flat.subrange(i * RECORD_SIZE, i * RECORD_SIZE + RECORD_SIZE)
}

/// What decoding the first `n` records of an unpacked table comes to: the
/// entries in their order, or the error of the first record that has one.
pub open spec fn records_outcome(flat: Seq<u8>, n: nat) -> Result<Seq<EntryModel>, ErrorModel>
    decreases n,
{
    if n == 0 {
        Ok(Seq::empty())
    } else {
        match records_outcome(flat, (n - 1) as nat) {
            Err(e) => Err(e),
            Ok(before) => match record_outcome(record_at(flat, n - 1), (n - 1) as u32) {
                Err(e) => Err(e),
                Ok(entry) => Ok(before.push(entry)),
            },
        }
    }
}

/// Whether the entry of number `j` has the name of an entry before it.
pub open spec fn repeats(entries: Seq<EntryModel>, j: int) -> bool {
    exists|i: int| 0 <= i < j && (#[trigger] entries[i]).name == entries[j].name
}

/// The number of the first entry among the first `n` that has the name of an
/// entry before it.
pub open spec fn first_repeat(entries: Seq<EntryModel>, n: nat) -> Option<int>
    decreases n,
{
    if n == 0 {
        None
    } else {
        match first_repeat(entries, (n - 1) as nat) {
            Some(j) => Some(j),
            None => if repeats(entries, n - 1) {
                Some(n - 1)
            } else {
                None
            },
        }
    }
}

/// Whether no two entries have the same name.
pub open spec fn distinct_names(entries: Seq<EntryModel>) -> bool {
    forall|i: int, j: int|
        0 <= i < j < entries.len() ==> (#[trigger] entries[i]).name != (#[trigger] entries[j]).name
}

/// Whether every entry has a name and no two have the same.
pub open spec fn well_named(entries: Seq<EntryModel>) -> bool {
    &&& distinct_names(entries)
    &&& forall|i: int| 0 <= i < entries.len() ==> (#[trigger] entries[i]).name.len() > 0
}

/// The length of an unpacked table of `files` records.
pub open spec fn table_size(files: u32) -> u64 {
    (files * RECORD_SIZE) as u64
}

/// What decoding an unpacked table of `files` records comes to. The table
/// must be exactly as long as its records; every record must decode; and no
/// name may occur twice, where the error names the first entry that repeats
/// an earlier one.
pub open spec fn entries_outcome(flat: Seq<u8>, files: u32) -> Result<Seq<EntryModel>, ErrorModel> {
    if flat.len() != table_size(files) {
        Err(
            malformed(
                TableFault::Length { expected: table_size(files), observed: flat.len() as u64 },
            ),
        )
    } else {
        match records_outcome(flat, files as nat) {
            Err(e) => Err(e),
            Ok(entries) => match first_repeat(entries, entries.len()) {
                Some(j) => Err(ErrorModel::DuplicateEntry { name: entries[j].name }),
                None => Ok(entries),
            },
        }
    }
}

/// The table as it lies in the archive, before it is unpacked.
#[derive(Clone, Debug, PartialEq, Eq)]
pub struct PackedTable {
    /// The number of entries that the table declares.
    pub files: u32,
    /// The number of bytes that the packed table takes; `packed` is as long.
    pub zsize: u32,
    /// The packed bytes.
    pub packed: Vec<u8>,
}

/// A `PackedTable` with its bytes as a sequence.
pub struct TableBlob {
    pub files: u32,
    pub zsize: u32,
    pub packed: Seq<u8>,
}

impl View for PackedTable {
    type V = TableBlob;

    open spec fn view(&self) -> TableBlob {
        TableBlob { files: self.files, zsize: self.zsize, packed: self.packed@ }
    }
}

/// The result of reading the packed table, as a model.
pub open spec fn table_result(r: Result<PackedTable, ArchiveError>) -> Result<
    TableBlob,
    ErrorModel,
> {
    match r {
        Ok(table) => Ok(table@),
        Err(e) => Err(e@),
    }
}

/// What reading the packed table comes to. The cursor seeks to the offset
/// that the header gives, and reads the number of entries, the packed size
/// and as many bytes.
pub open spec fn blob_outcome(bytes: Seq<u8>, header: PAKHeader) -> Result<TableBlob, ErrorModel> {
    let at = header.table_offset as int;
    let left = bytes.len() - at;
    if left < 0 {
        Err(ErrorModel::OutOfBounds { offset: header.table_offset, length: bytes.len() as u64 })
    } else if left < 4 {
        Err(ErrorModel::Truncated { offset: at as u64, wanted: 4, available: left as u64 })
    } else if left < 8 {
        Err(
            ErrorModel::Truncated {
                offset: (at + 4) as u64,
                wanted: 4,
                available: (left - 4) as u64,
            },
        )
    } else if left - 8 < u32_at(bytes, at + 4) {
        Err(
            ErrorModel::Truncated {
                offset: (at + 8) as u64,
                wanted: u32_at(bytes, at + 4) as u64,
                available: (left - 8) as u64,
            },
        )
    } else {
        Ok(
            TableBlob {
                files: u32_at(bytes, at),
                zsize: u32_at(bytes, at + 4),
                packed: bytes.subrange(at + 8, at + 8 + u32_at(bytes, at + 4)),
            },
        )
    }
}

/// What unpacking the table comes to, where `unpacked` is what the method
/// makes of the packed bytes if it is asked. A table that takes as many bytes
/// as its records is stored; any other is unpacked, and what comes out must be
/// as long as the records.
pub open spec fn flat_outcome(blob: TableBlob, ceiling: u64, unpacked: Seq<u8>) -> Result<
    Seq<u8>,
    ErrorModel,
> {
    match settle(
        blob.packed,
        table_size(blob.files),
        blob.zsize == table_size(blob.files),
        ceiling,
        unpacked,
    ) {
        Err(ErrorModel::SizeMismatch { expected, observed }) => Err(
            malformed(TableFault::Length { expected, observed }),
        ),
        Err(e) => Err(e),
        Ok(flat) => Ok(flat),
    }
}

/// Whether unpacking the table asks the method.
pub open spec fn table_asks(blob: TableBlob, ceiling: u64) -> bool {
    asks(table_size(blob.files), blob.zsize == table_size(blob.files), ceiling)
}

/// What reading the table of an archive comes to: the packed table is read,
/// unpacked and decoded, and the first of these steps that fails decides.
pub open spec fn table_outcome(
    bytes: Seq<u8>,
    header: PAKHeader,
    ceiling: u64,
    unpacked: Seq<u8>,
) -> Result<PakModel, ErrorModel> {
    match blob_outcome(bytes, header) {
        Err(e) => Err(e),
        Ok(blob) => match flat_outcome(blob, ceiling, unpacked) {
            Err(e) => Err(e),
            Ok(flat) => match entries_outcome(flat, blob.files) {
                Err(e) => Err(e),
                Ok(archives) => Ok(
                    PakModel { header, files: blob.files, table_zsize: blob.zsize, archives },
                ),
            },
        },
    }
}

/// Where a cursor that stood at `start` stands after the table was read:
/// behind the last part that could be read.
pub open spec fn table_stop(bytes: Seq<u8>, start: nat, header: PAKHeader) -> nat {
    let at = header.table_offset as int;
    let left = bytes.len() - at;
    if left < 0 {
        start
    } else if left < 4 {
        at as nat
    } else if left < 8 {
        (at + 4) as nat
    } else if left - 8 < u32_at(bytes, at + 4) {
        (at + 8) as nat
    } else {
        (at + 8 + u32_at(bytes, at + 4)) as nat
    }
}

/// Whether reading the table that `header` points to asks the method.
pub open spec fn parse_asks(bytes: Seq<u8>, header: PAKHeader, ceiling: u64) -> bool {
    blob_outcome(bytes, header) is Ok && table_asks(blob_outcome(bytes, header)->Ok_0, ceiling)
}

/// Whether decoding an archive asks the method.
pub open spec fn pak_asks(bytes: Seq<u8>, ceiling: u64) -> bool {
    header_outcome(bytes) is Ok && parse_asks(bytes, header_outcome(bytes)->Ok_0, ceiling)
}

/// The packed table of an archive whose header and table head can be read.
pub open spec fn packed_table(bytes: Seq<u8>) -> TableBlob {
    blob_outcome(bytes, header_outcome(bytes)->Ok_0)->Ok_0
}

/// What decoding an archive comes to: its header, then its table.
pub open spec fn pak_outcome(bytes: Seq<u8>, ceiling: u64, unpacked: Seq<u8>) -> Result<
    PakModel,
    ErrorModel,
> {
    match header_outcome(bytes) {
        Err(e) => Err(e),
        Ok(header) => table_outcome(bytes, header, ceiling, unpacked),
    }
}

/// Entries among which no name is repeated have distinct names, and the
/// other way round.
pub proof fn lemma_first_repeat_none(entries: Seq<EntryModel>, n: nat)
    requires
        n <= entries.len(),
    ensures
        first_repeat(entries, n) is None <==> distinct_names(entries.take(n as int)),
    decreases n,
{
    if n > 0 {
        let shorter = entries.take(n - 1);
        let longer = entries.take(n as int);
        lemma_first_repeat_none(entries, (n - 1) as nat);
        if first_repeat(entries, (n - 1) as nat) is Some {
            let (i, j) = choose|i: int, j: int|
                0 <= i < j < shorter.len() && (#[trigger] shorter[i]).name == (
                #[trigger] shorter[j]).name;
            assert(longer[i].name == longer[j].name);
        } else if repeats(entries, n - 1) {
            let i = choose|i: int| 0 <= i < n - 1 && (#[trigger] entries[i]).name == entries[n - 1].name;
            assert(longer[i].name == longer[n - 1].name);
        } else {
            assert forall|i: int, j: int| 0 <= i < j < longer.len() implies (#[trigger] longer[i]).name
                != (#[trigger] longer[j]).name by {
                if j < n - 1 {
                    assert(shorter[i].name != shorter[j].name);
                } else {
                    assert(entries[i].name != entries[n - 1].name);
                }
            }
        }
    }
}

/// The first `n` records of a table, where they all decode, are `n` entries
/// that each have a name.
pub proof fn lemma_records_named(flat: Seq<u8>, n: nat)
    requires
        records_outcome(flat, n) is Ok,
    ensures
        records_outcome(flat, n)->Ok_0.len() == n,
        forall|i: int|
            0 <= i < n ==> (#[trigger] records_outcome(flat, n)->Ok_0[i]).name.len() > 0,
    decreases n,
{
    if n > 0 {
        lemma_records_named(flat, (n - 1) as nat);
        let record = record_at(flat, n - 1);
        assert(decode_utf8(name_bytes(record)).len() > 0);
    }
}

/// A table that decodes has as many entries as it declares, each with a name
/// and no two with the same.
pub proof fn lemma_entries_well_named(flat: Seq<u8>, files: u32)
    requires
        entries_outcome(flat, files) is Ok,
    ensures
        entries_outcome(flat, files)->Ok_0.len() == files,
        well_named(entries_outcome(flat, files)->Ok_0),
{
    let entries = records_outcome(flat, files as nat)->Ok_0;
    lemma_records_named(flat, files as nat);
    lemma_first_repeat_none(entries, entries.len());
    assert(entries.take(entries.len() as int) == entries);
}

/// A field without a zero before `end`, and with one at `end` or ending
/// there, has its first zero at `end`.
proof fn lemma_first_zero(field: Seq<u8>, end: int)
    requires
        0 <= end <= field.len(),
        forall|j: int| 0 <= j < end ==> field[j] != 0,
        end == field.len() || field[end] == 0,
    ensures
        first_zero(field) == end,
    decreases end,
{
    if end > 0 {
        lemma_first_zero(field.skip(1), end - 1);
    }
}

/// Decodes one record. See `record_outcome`.
pub fn decode_record(record: &[u8], index: u32) -> (r: Result<PAKFile, ArchiveError>)
    ensures
        entry_result(r) == record_outcome(record@, index),
{
    if record.len() != RECORD_SIZE {
        return Err(
            ArchiveError::MalformedTable {
                fault: TableFault::Length {
                    expected: RECORD_SIZE as u64,
                    observed: record.len() as u64,
                },
            },
        );
    }
    let mut end: usize = 0;
    while end < NAME_SPAN && record[end] != 0
        invariant
            end <= NAME_SPAN,
            record@.len() == RECORD_SIZE,
            forall|j: int| 0 <= j < end ==> record@[j] != 0,
        decreases NAME_SPAN - end,
    {
        end = end + 1;
    }
    proof {
        lemma_first_zero(record@.subrange(0, NAME_SPAN as int), end as int);
    }
    if end == NAME_SPAN {
        return Err(
            ArchiveError::MalformedTable { fault: TableFault::NameUnterminated { record: index } },
        );
    }
    if end == 0 {
        return Err(ArchiveError::MalformedTable { fault: TableFault::NameEmpty { record: index } });
    }
    let text: Vec<u8> = slice_to_vec(slice_subrange(record, 0, end));
    assert(text@ == name_bytes(record@));
    let name: String = match text_from_utf8(text) {
        Some(name) => name,
        None => {
            return Err(
                ArchiveError::MalformedTable { fault: TableFault::NameNotText { record: index } },
            );
        },
    };
    let mut fields = BinaryCursor::new(record);
    let _ = fields.seek(NAME_SPAN as u64);
    let offset: u64 = match fields.read_u64() {
        Ok(v) => v,
        Err(e) => {
            return Err(e);
        },
    };
    let zsize: u64 = match fields.read_u64() {
        Ok(v) => v,
        Err(e) => {
            return Err(e);
        },
    };
    let size: u64 = match fields.read_u64() {
        Ok(v) => v,
        Err(e) => {
            return Err(e);
        },
    };
    let d1: u64 = match fields.read_u64() {
        Ok(v) => v,
        Err(e) => {
            return Err(e);
        },
    };
    let crc: u32 = match fields.read_u32() {
        Ok(v) => v,
        Err(e) => {
            return Err(e);
        },
    };
    let d2: u32 = match fields.read_u32() {
        Ok(v) => v,
        Err(e) => {
            return Err(e);
        },
    };
    Ok(PAKFile { name, offset, zsize, size, d1, crc, d2 })
}

/// Reads the next record from the cursor and decodes it. A cursor with less
/// than a record left stays where it is.
pub fn read_record(cursor: &mut BinaryCursor, index: u32) -> (r: Result<PAKFile, ArchiveError>)
    ensures
        final(cursor).bytes() == old(cursor).bytes(),
        old(cursor).left() < RECORD_SIZE ==> final(cursor).pos() == old(cursor).pos() && r == Err::<
            PAKFile,
            ArchiveError,
        >(
            ArchiveError::Truncated {
                offset: old(cursor).pos() as u64,
                wanted: RECORD_SIZE as u64,
                available: old(cursor).left() as u64,
            },
        ),
        old(cursor).left() >= RECORD_SIZE ==> final(cursor).pos() == old(cursor).pos() + RECORD_SIZE
            && entry_result(r) == record_outcome(old(cursor).window(RECORD_SIZE as nat), index),
{
    match cursor.read_bytes(RECORD_SIZE as u64) {
        Ok(record) => decode_record(record.as_slice(), index),
        Err(e) => Err(e),
    }
}

/// Finds the first entry that has the name of an entry before it.
pub fn find_repeat(entries: &Vec<PAKFile>) -> (r: Option<usize>)
    ensures
        match r {
            Some(j) => first_repeat(entry_models(entries@), entries@.len()) == Some(j as int)
                && j < entries@.len(),
            None => first_repeat(entry_models(entries@), entries@.len()) is None,
        },
{
    let ghost models = entry_models(entries@);
    let mut j: usize = 0;
    while j < entries.len()
        invariant
            j <= entries@.len(),
            models == entry_models(entries@),
            first_repeat(models, j as nat) is None,
        decreases entries@.len() - j,
    {
        let mut i: usize = 0;
        while i < j
            invariant
                i <= j < entries@.len(),
                models == entry_models(entries@),
                first_repeat(models, j as nat) is None,
                forall|k: int| 0 <= k < i ==> (#[trigger] models[k]).name != models[j as int].name,
            decreases j - i,
        {
            if same_text(entries[i].name.as_str(), entries[j].name.as_str()) {
                assert(models[i as int].name == models[j as int].name);
                assert(repeats(models, j as int));
                assert(first_repeat(models, (j + 1) as nat) == Some(j as int));
                proof {
                    lemma_first_repeat_stays(models, (j + 1) as nat, entries@.len());
                }
                return Some(j);
            }
            i = i + 1;
        }
        assert(!repeats(models, j as int));
        j = j + 1;
    }
    None
}

/// A repeat found among the first `n` entries is the first among any more.
proof fn lemma_first_repeat_stays(entries: Seq<EntryModel>, n: nat, m: nat)
    requires
        n <= m,
        first_repeat(entries, n) is Some,
    ensures
        first_repeat(entries, m) == first_repeat(entries, n),
    decreases m,
{
    if n < m {
        lemma_first_repeat_stays(entries, n, (m - 1) as nat);
    }
}

/// Decodes an unpacked table of `files` records. See `entries_outcome`.
pub fn decode_table(flat: &[u8], files: u32) -> (r: Result<Vec<PAKFile>, ArchiveError>)
    ensures
        entries_result(r) == entries_outcome(flat@, files),
        r is Ok ==> r->Ok_0@.len() == files && well_named(entry_models(r->Ok_0@)),
{
    proof {
        if entries_outcome(flat@, files) is Ok {
            lemma_entries_well_named(flat@, files);
        }
    }
    let expected: u64 = files as u64 * RECORD_SIZE as u64;
    if flat.len() as u64 != expected {
        return Err(
            ArchiveError::MalformedTable {
                fault: TableFault::Length { expected, observed: flat.len() as u64 },
            },
        );
    }
    let mut records = BinaryCursor::new(flat);
    let mut entries: Vec<PAKFile> = Vec::new();
    let mut i: u32 = 0;
    assert(entry_models(entries@) == Seq::<EntryModel>::empty());
    while i < files
        invariant
            i <= files,
            flat@.len() == files * RECORD_SIZE,
            records.bytes() == flat@,
            records.pos() == i * RECORD_SIZE,
            entries@.len() == i,
            records_outcome(flat@, i as nat) == Ok::<Seq<EntryModel>, ErrorModel>(
                entry_models(entries@),
            ),
        decreases files - i,
    {
        let ghost before = entry_models(entries@);
        assert(records.window(RECORD_SIZE as nat) == record_at(flat@, i as int));
        match read_record(&mut records, i) {
            Ok(entry) => {
                entries.push(entry);
                assert(entry_models(entries@) == before.push(entry@));
            },
            Err(e) => {
                proof {
                    lemma_records_fail(flat@, (i + 1) as nat, files as nat);
                }
                return Err(e);
            },
        }
        i = i + 1;
    }
    match find_repeat(&entries) {
        Some(j) => Err(ArchiveError::DuplicateEntry { name: entries[j].name.clone() }),
        None => Ok(entries),
    }
}

/// A record that fails among the first `n` fails the whole table with the
/// same error.
proof fn lemma_records_fail(flat: Seq<u8>, n: nat, m: nat)
    requires
        n <= m,
        records_outcome(flat, n) is Err,
    ensures
        records_outcome(flat, m) == records_outcome(flat, n),
    decreases m,
{
    if n < m {
        lemma_records_fail(flat, n, (m - 1) as nat);
    }
}

/// Reads the packed table that `header` points to: seeks to its offset, and
/// reads the number of entries, the packed size and as many bytes.
pub fn read_table(cursor: &mut BinaryCursor, header: &PAKHeader) -> (r: Result<
    PackedTable,
    ArchiveError,
>)
    ensures
        final(cursor).bytes() == old(cursor).bytes(),
        final(cursor).pos() == table_stop(old(cursor).bytes(), old(cursor).pos(), *header),
        table_result(r) == blob_outcome(old(cursor).bytes(), *header),
{
    match cursor.seek(header.table_offset) {
        Ok(()) => {},
        Err(e) => {
            return Err(e);
        },
    }
    let files: u32 = match cursor.read_u32() {
        Ok(v) => v,
        Err(e) => {
            return Err(e);
        },
    };
    let zsize: u32 = match cursor.read_u32() {
        Ok(v) => v,
        Err(e) => {
            return Err(e);
        },
    };
    match cursor.read_bytes(zsize as u64) {
        Ok(packed) => Ok(PackedTable { files, zsize, packed }),
        Err(e) => Err(e),
    }
}

/// Unpacks a table into the bytes of its records. A table that takes as many
/// bytes as its records is stored and is copied as it is; any other is
/// unpacked by `method`, unless its records would take more than `ceiling`
/// bytes. The method is handed the packed bytes and the length of the
/// records, and the result is that of `flat_outcome` for what it returned.
pub fn unpack_table<M: Method>(table: &PackedTable, method: &M, ceiling: u64) -> (r: Result<
    Vec<u8>,
    ArchiveError,
>)
    ensures
        exists|unpacked: Seq<u8>| bytes_outcome(r) == flat_outcome(table@, ceiling, unpacked),
        !table_asks(table@, ceiling) ==> bytes_outcome(r) == flat_outcome(
            table@,
            ceiling,
            Seq::empty(),
        ),
        table_asks(table@, ceiling) ==> exists|unpacked: Seq<u8>|
            #[trigger] unpacked_by(method, table.packed@, table_size(table.files), unpacked)
                && bytes_outcome(r) == flat_outcome(table@, ceiling, unpacked),
{
    let expected: u64 = table.files as u64 * RECORD_SIZE as u64;
    let stored: bool = table.zsize as u64 == expected;
    let recovered = if stored {
        decompress::<M>(table.packed.as_slice(), expected, None, ceiling)
    } else {
        decompress(table.packed.as_slice(), expected, Some(method), ceiling)
    };
    let ghost witness = if asks(expected, stored, ceiling) {
        choose|unpacked: Seq<u8>|
            #[trigger] unpacked_by(method, table.packed@, expected, unpacked) && bytes_outcome(
                recovered,
            ) == settle(table.packed@, expected, stored, ceiling, unpacked)
    } else {
        Seq::<u8>::empty()
    };
    assert(bytes_outcome(recovered) == settle(table.packed@, expected, stored, ceiling, witness));
    let r = match recovered {
        Ok(flat) => Ok(flat),
        Err(ArchiveError::SizeMismatch { expected, observed }) => Err(
            ArchiveError::MalformedTable { fault: TableFault::Length { expected, observed } },
        ),
        Err(e) => Err(e),
    };
    assert(bytes_outcome(r) == flat_outcome(table@, ceiling, witness));
    r
}

/// Reads the table that `header` points to, unpacks it and decodes its
/// records. The method, where it is asked, is handed the packed table, and
/// the result is that of `table_outcome` for what it returned.
pub fn parse_table<M: Method>(
    cursor: &mut BinaryCursor,
    header: &PAKHeader,
    method: &M,
    ceiling: u64,
) -> (r: Result<PAK, ArchiveError>)
    ensures
        final(cursor).bytes() == old(cursor).bytes(),
        final(cursor).pos() == table_stop(old(cursor).bytes(), old(cursor).pos(), *header),
        exists|unpacked: Seq<u8>|
            pak_result(r) == table_outcome(old(cursor).bytes(), *header, ceiling, unpacked),
        !parse_asks(old(cursor).bytes(), *header, ceiling) ==> pak_result(r) == table_outcome(
            old(cursor).bytes(),
            *header,
            ceiling,
            Seq::empty(),
        ),
        parse_asks(old(cursor).bytes(), *header, ceiling) ==> exists|unpacked: Seq<u8>|
            #[trigger] unpacked_by(
                method,
                blob_outcome(old(cursor).bytes(), *header)->Ok_0.packed,
                table_size(blob_outcome(old(cursor).bytes(), *header)->Ok_0.files),
                unpacked,
            ) && pak_result(r) == table_outcome(old(cursor).bytes(), *header, ceiling, unpacked),
        r is Ok ==> r->Ok_0@.archives.len() == r->Ok_0.files && well_named(r->Ok_0@.archives),
{
    let ghost bytes = cursor.bytes();
    let table: PackedTable = match read_table(cursor, header) {
        Ok(table) => table,
        Err(e) => {
            assert(pak_result(Err(e)) == table_outcome(bytes, *header, ceiling, Seq::empty()));
            return Err(e);
        },
    };
    let unpacked = unpack_table(&table, method, ceiling);
    let ghost witness = if table_asks(table@, ceiling) {
        choose|w: Seq<u8>|
            #[trigger] unpacked_by(method, table.packed@, table_size(table.files), w)
                && bytes_outcome(unpacked) == flat_outcome(table@, ceiling, w)
    } else {
        Seq::<u8>::empty()
    };
    let flat: Vec<u8> = match unpacked {
        Ok(flat) => flat,
        Err(e) => {
            assert(pak_result(Err(e)) == table_outcome(bytes, *header, ceiling, witness));
            return Err(e);
        },
    };
    let r = match decode_table(flat.as_slice(), table.files) {
        Ok(archives) => Ok(
            PAK { header: *header, files: table.files, table_zsize: table.zsize, archives },
        ),
        Err(e) => Err(e),
    };
    assert(pak_result(r) == table_outcome(bytes, *header, ceiling, witness));
    r
}

/// Decodes an archive held in memory: its header, then its table. The
/// method, where it is asked, is handed the packed table, and the result is
/// that of `pak_outcome` for what it returned.
pub fn read_pak<M: Method>(data: &[u8], method: &M, ceiling: u64) -> (r: Result<PAK, ArchiveError>)
    ensures
        exists|unpacked: Seq<u8>| pak_result(r) == pak_outcome(data@, ceiling, unpacked),
        !pak_asks(data@, ceiling) ==> pak_result(r) == pak_outcome(data@, ceiling, Seq::empty()),
        pak_asks(data@, ceiling) ==> exists|unpacked: Seq<u8>|
            #[trigger] unpacked_by(
                method,
                packed_table(data@).packed,
                table_size(packed_table(data@).files),
                unpacked,
            ) && pak_result(r) == pak_outcome(data@, ceiling, unpacked),
        r is Ok ==> r->Ok_0@.archives.len() == r->Ok_0.files && well_named(r->Ok_0@.archives),
{
    let mut cursor = BinaryCursor::new(data);
    let header: PAKHeader = match parse_header(&mut cursor) {
        Ok(header) => header,
        Err(e) => {
            assert(pak_result(Err(e)) == pak_outcome(data@, ceiling, Seq::empty()));
            return Err(e);
        },
    };
    let r = parse_table(&mut cursor, &header, method, ceiling);
    let ghost witness = if parse_asks(data@, header, ceiling) {
        choose|unpacked: Seq<u8>|
            #[trigger] unpacked_by(
                method,
                blob_outcome(data@, header)->Ok_0.packed,
                table_size(blob_outcome(data@, header)->Ok_0.files),
                unpacked,
            ) && pak_result(r) == table_outcome(data@, header, ceiling, unpacked)
    } else {
        Seq::<u8>::empty()
    };
    assert(header_outcome(data@) == Ok::<PAKHeader, ErrorModel>(header));
    assert(pak_result(r) == pak_outcome(data@, ceiling, witness));
    assert(pak_asks(data@, ceiling) ==> unpacked_by(
        method,
        packed_table(data@).packed,
        table_size(packed_table(data@).files),
        witness,
    ));
    r
}

} // verus!
