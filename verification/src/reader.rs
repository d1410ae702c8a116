//! The reader: an archive is opened once, and is then listed and extracted
//! from until it is closed. An archive that fails to open yields no reader.

use crate::crc::{checksum, crc32};
use crate::cursor::BinaryCursor;
use crate::error::{ArchiveError, ErrorModel};
use crate::index::{find_entry, ArchiveIndex};
use crate::payload::{asks, bytes_outcome, decompress, settle, unpacked_by, Method};
use crate::table::{
    entry_models, packed_table, pak_asks, pak_outcome, pak_result, read_pak, table_size,
    well_named, EntryModel, PAKFile, PakModel,
};
use vstd::prelude::*;

verus! {

/// `content` if it has the checksum that `entry` records, the mismatch
/// otherwise.
pub open spec fn sealed(content: Seq<u8>, entry: EntryModel) -> Result<Seq<u8>, ErrorModel> {
    if crc32(content) == entry.crc {
        Ok(content)
    } else {
        Err(
            ErrorModel::ChecksumMismatch {
                name: entry.name,
                expected: entry.crc,
                observed: crc32(content),
            },
        )
    }
}

/// The packed bytes of `entry` in an archive of the bytes `source`.
pub open spec fn packed_bytes(source: Seq<u8>, entry: EntryModel) -> Seq<u8> {
    source.subrange(entry.offset as int, entry.offset + entry.zsize)
}

/// What extracting `entry` from an archive of the bytes `source` comes to,
/// where `unpacked` is what the method makes of the packed bytes if it is
/// asked. The packed bytes must lie within the archive; an entry whose two
/// sizes agree is stored, any other is unpacked; the content must have the
/// declared size, which must not be above the ceiling, and the recorded
/// checksum.
pub open spec fn payload_outcome(
    source: Seq<u8>,
    entry: EntryModel,
    ceiling: u64,
    unpacked: Seq<u8>,
) -> Result<Seq<u8>, ErrorModel> {
    let left = source.len() - entry.offset;
    if left < 0 {
        Err(ErrorModel::OutOfBounds { offset: entry.offset, length: source.len() as u64 })
    } else if left < entry.zsize {
        Err(
            ErrorModel::Truncated {
                offset: entry.offset,
                wanted: entry.zsize,
                available: left as u64,
            },
        )
    } else {
        match settle(
            packed_bytes(source, entry),
            entry.size,
            entry.zsize == entry.size,
            ceiling,
            unpacked,
        ) {
            Err(e) => Err(e),
            Ok(content) => sealed(content, entry),
        }
    }
}

/// Whether extracting `entry` asks the method: its packed bytes lie within
/// the archive, its two sizes differ, and its declared size is not refused.
pub open spec fn payload_asks(source: Seq<u8>, entry: EntryModel, ceiling: u64) -> bool {
    entry.offset + entry.zsize <= source.len() && asks(
        entry.size,
        entry.zsize == entry.size,
        ceiling,
    )
}

/// What looking up `name` comes to in a reader of these entries.
pub open spec fn lookup_outcome(live: bool, entries: Seq<EntryModel>, name: Seq<char>) -> Result<
    EntryModel,
    ErrorModel,
> {
    if !live {
        Err(ErrorModel::Closed)
    } else {
        match find_entry(entries, name) {
            None => Err(ErrorModel::NotFound { name }),
            Some(entry) => Ok(entry),
        }
    }
}

/// What extracting the entry of the name `name` comes to in a reader of this
/// source and these entries.
pub open spec fn extract_outcome(
    live: bool,
    source: Seq<u8>,
    entries: Seq<EntryModel>,
    ceiling: u64,
    name: Seq<char>,
    unpacked: Seq<u8>,
) -> Result<Seq<u8>, ErrorModel> {
    match lookup_outcome(live, entries, name) {
        Err(e) => Err(e),
        Ok(entry) => payload_outcome(source, entry, ceiling, unpacked),
    }
}

/// Whether extracting the entry of the name `name` asks the method.
pub open spec fn extract_asks(
    live: bool,
    source: Seq<u8>,
    entries: Seq<EntryModel>,
    ceiling: u64,
    name: Seq<char>,
) -> bool {
    lookup_outcome(live, entries, name) is Ok && payload_asks(
        source,
        lookup_outcome(live, entries, name)->Ok_0,
        ceiling,
    )
}

/// Accepts `content` if it has the checksum that `entry` records.
pub fn verify_checksum(content: Vec<u8>, entry: &PAKFile) -> (r: Result<Vec<u8>, ArchiveError>)
    ensures
        bytes_outcome(r) == sealed(content@, entry@),
{
    let observed: u32 = checksum(content.as_slice());
    if observed == entry.crc {
        Ok(content)
    } else {
        Err(
            ArchiveError::ChecksumMismatch {
                name: entry.name.clone(),
                expected: entry.crc,
                observed,
            },
        )
    }
}

/// Extracts `entry` from the archive `source`: reads its packed bytes,
/// recovers the content and verifies size and checksum. The method is asked
/// only for an entry whose two sizes differ; it is handed the packed bytes
/// and the declared size, and the result is that of `payload_outcome` for
/// what it returned.
pub fn extract_entry<M: Method>(source: &[u8], entry: &PAKFile, method: &M, ceiling: u64) -> (r:
    Result<Vec<u8>, ArchiveError>)
    ensures
        exists|unpacked: Seq<u8>|
            bytes_outcome(r) == payload_outcome(source@, entry@, ceiling, unpacked),
        !payload_asks(source@, entry@, ceiling) ==> bytes_outcome(r) == payload_outcome(
            source@,
            entry@,
            ceiling,
            Seq::empty(),
        ),
        payload_asks(source@, entry@, ceiling) ==> exists|unpacked: Seq<u8>|
            #[trigger] unpacked_by(method, packed_bytes(source@, entry@), entry.size, unpacked)
                && bytes_outcome(r) == payload_outcome(source@, entry@, ceiling, unpacked),
{
    let mut cursor = BinaryCursor::new(source);
    match cursor.seek(entry.offset) {
        Ok(()) => {},
        Err(e) => {
            assert(bytes_outcome(Err(e)) == payload_outcome(
                source@,
                entry@,
                ceiling,
                Seq::empty(),
            ));
            return Err(e);
        },
    }
    let raw: Vec<u8> = match cursor.read_bytes(entry.zsize) {
        Ok(raw) => raw,
        Err(e) => {
            assert(bytes_outcome(Err(e)) == payload_outcome(
                source@,
                entry@,
                ceiling,
                Seq::empty(),
            ));
            return Err(e);
        },
    };
    let stored: bool = entry.zsize == entry.size;
    let recovered = if stored {
        decompress::<M>(raw.as_slice(), entry.size, None, ceiling)
    } else {
        decompress(raw.as_slice(), entry.size, Some(method), ceiling)
    };
    let ghost witness = if asks(entry.size, stored, ceiling) {
        choose|unpacked: Seq<u8>|
            #[trigger] unpacked_by(method, raw@, entry.size, unpacked) && bytes_outcome(recovered)
                == settle(raw@, entry.size, stored, ceiling, unpacked)
    } else {
        Seq::<u8>::empty()
    };
    assert(bytes_outcome(recovered) == settle(raw@, entry.size, stored, ceiling, witness));
    let r = match recovered {
        Ok(content) => verify_checksum(content, entry),
        Err(e) => Err(e),
    };
    assert(bytes_outcome(r) == payload_outcome(source@, entry@, ceiling, witness));
    r
}

/// An archive held in memory, with its entries indexed by name.
pub struct ArchiveReader {
    source: Vec<u8>,
    index: ArchiveIndex,
    ceiling: u64,
    live: bool,
}

/// Whether `r` is what opening an archive gives, where decoding the archive
/// comes to `outcome`: a reader of the decoded entries over the whole source,
/// or the error as it is.
pub open spec fn opened_as(
    r: Result<ArchiveReader, ArchiveError>,
    outcome: Result<PakModel, ErrorModel>,
    source: Seq<u8>,
    ceiling: u64,
) -> bool {
    match outcome {
        Ok(pak) => r is Ok && r->Ok_0.live() && r->Ok_0.source() == source && r->Ok_0.entries()
            == pak.archives && r->Ok_0.ceiling() == ceiling,
        Err(e) => r is Err && r->Err_0@ == e,
    }
}

impl ArchiveReader {
    /// Whether the reader is open.
    pub closed spec fn live(&self) -> bool {
        self.live
    }

    /// The bytes of the archive; none once the reader is closed.
    pub closed spec fn source(&self) -> Seq<u8> {
        self.source@
    }

    /// The entries of the archive in the order of its table; none once the
    /// reader is closed.
    pub closed spec fn entries(&self) -> Seq<EntryModel> {
        self.index@
    }

    /// The largest declared size of content that the reader extracts.
    pub closed spec fn ceiling(&self) -> u64 {
        self.ceiling
    }

    #[verifier::type_invariant]
    spec fn sound(&self) -> bool {
        &&& well_named(self.index@)
        &&& !self.live ==> self.source@.len() == 0 && self.index@.len() == 0
    }

    /// Opens the archive `source`: decodes its header and its table and
    /// indexes the entries. A table that is packed is unpacked by `method`,
    /// which is handed the packed table as it lies in the archive;
    /// `ceiling` bounds the declared size of the unpacked table and, later, of
    /// each entry extracted. Any failure is returned as it is, and no reader
    /// then exists.
    pub fn open<M: Method>(source: Vec<u8>, method: &M, ceiling: u64) -> (r: Result<
        ArchiveReader,
        ArchiveError,
    >)
        ensures
            exists|unpacked: Seq<u8>|
                opened_as(r, pak_outcome(source@, ceiling, unpacked), source@, ceiling),
            !pak_asks(source@, ceiling) ==> opened_as(
                r,
                pak_outcome(source@, ceiling, Seq::empty()),
                source@,
                ceiling,
            ),
            pak_asks(source@, ceiling) ==> exists|unpacked: Seq<u8>|
                #[trigger] unpacked_by(
                    method,
                    packed_table(source@).packed,
                    table_size(packed_table(source@).files),
                    unpacked,
                ) && opened_as(r, pak_outcome(source@, ceiling, unpacked), source@, ceiling),
            r is Ok ==> well_named(r->Ok_0.entries()),
    {
        let decoded = read_pak(source.as_slice(), method, ceiling);
        let ghost witness = if pak_asks(source@, ceiling) {
            choose|unpacked: Seq<u8>|
                #[trigger] unpacked_by(
                    method,
                    packed_table(source@).packed,
                    table_size(packed_table(source@).files),
                    unpacked,
                ) && pak_result(decoded) == pak_outcome(source@, ceiling, unpacked)
        } else {
            Seq::<u8>::empty()
        };
        let r = match decoded {
            Ok(pak) => Ok(
                ArchiveReader { source, index: ArchiveIndex::build(pak.archives), ceiling, live: true },
            ),
            Err(e) => Err(e),
        };
        assert(opened_as(r, pak_outcome(source@, ceiling, witness), source@, ceiling));
        r
    }

    /// Tells whether the reader is open.
    pub fn is_open(&self) -> (live: bool)
        ensures
            live == self.live(),
    {
        self.live
    }

    /// The entries of the archive, in the order of its table.
    pub fn list_entries(&self) -> (r: Result<&[PAKFile], ArchiveError>)
        ensures
            match r {
                Ok(list) => self.live() && entry_models(list@) == self.entries(),
                Err(e) => !self.live() && e == ArchiveError::Closed,
            },
            well_named(self.entries()),
    {
        proof {
            use_type_invariant(self);
        }
        if !self.live {
            return Err(ArchiveError::Closed);
        }
        Ok(self.index.entries())
    }

    /// The entry of the name `name`.
    pub fn lookup(&self, name: &str) -> (r: Result<&PAKFile, ArchiveError>)
        ensures
            match r {
                Ok(entry) => lookup_outcome(self.live(), self.entries(), name@) == Ok::<
                    EntryModel,
                    ErrorModel,
                >(entry@),
                Err(e) => lookup_outcome(self.live(), self.entries(), name@) == Err::<
                    EntryModel,
                    ErrorModel,
                >(e@),
            },
    {
        if !self.live {
            return Err(ArchiveError::Closed);
        }
        match self.index.lookup(name) {
            Some(entry) => Ok(entry),
            None => Err(ArchiveError::NotFound { name: name.to_owned() }),
        }
    }

    /// Extracts the content of the entry of the name `name`, with its size and
    /// its checksum verified. The method is asked only for an entry whose two
    /// sizes differ; it is handed the entry's packed bytes and declared size,
    /// and the result is that of `extract_outcome` for what it returned.
    pub fn extract<M: Method>(&self, name: &str, method: &M) -> (r: Result<Vec<u8>, ArchiveError>)
        ensures
            exists|unpacked: Seq<u8>|
                bytes_outcome(r) == extract_outcome(
                    self.live(),
                    self.source(),
                    self.entries(),
                    self.ceiling(),
                    name@,
                    unpacked,
                ),
            !extract_asks(self.live(), self.source(), self.entries(), self.ceiling(), name@)
                ==> bytes_outcome(r) == extract_outcome(
                self.live(),
                self.source(),
                self.entries(),
                self.ceiling(),
                name@,
                Seq::empty(),
            ),
            extract_asks(self.live(), self.source(), self.entries(), self.ceiling(), name@)
                ==> exists|unpacked: Seq<u8>|
                #[trigger] unpacked_by(
                    method,
                    packed_bytes(
                        self.source(),
                        lookup_outcome(self.live(), self.entries(), name@)->Ok_0,
                    ),
                    lookup_outcome(self.live(), self.entries(), name@)->Ok_0.size,
                    unpacked,
                ) && bytes_outcome(r) == extract_outcome(
                    self.live(),
                    self.source(),
                    self.entries(),
                    self.ceiling(),
                    name@,
                    unpacked,
                ),
    {
        match self.lookup(name) {
            Err(e) => {
                assert(bytes_outcome(Err(e)) == extract_outcome(
                    self.live(),
                    self.source(),
                    self.entries(),
                    self.ceiling(),
                    name@,
                    Seq::empty(),
                ));
                Err(e)
            },
            Ok(entry) => {
                let r = extract_entry(self.source.as_slice(), entry, method, self.ceiling);
                let ghost witness = if payload_asks(self.source(), entry@, self.ceiling()) {
                    choose|unpacked: Seq<u8>|
                        #[trigger] unpacked_by(
                            method,
                            packed_bytes(self.source(), entry@),
                            entry.size,
                            unpacked,
                        ) && bytes_outcome(r) == payload_outcome(
                            self.source(),
                            entry@,
                            self.ceiling(),
                            unpacked,
                        )
                } else {
                    Seq::<u8>::empty()
                };
                assert(bytes_outcome(r) == extract_outcome(
                    self.live(),
                    self.source(),
                    self.entries(),
                    self.ceiling(),
                    name@,
                    witness,
                ));
                r
            },
        }
    }

    /// Closes the reader and lets go of the archive's bytes and entries. Every
    /// later operation fails with `Closed`; closing again changes nothing.
    pub fn close(&mut self)
        ensures
            !final(self).live(),
            final(self).source() == Seq::<u8>::empty(),
            final(self).entries() == Seq::<EntryModel>::empty(),
            final(self).ceiling() == old(self).ceiling(),
    {
        let ceiling: u64 = self.ceiling;
        *self = ArchiveReader {
            source: Vec::new(),
            index: ArchiveIndex::build(Vec::new()),
            ceiling,
            live: false,
        };
    }
}

} // verus!
