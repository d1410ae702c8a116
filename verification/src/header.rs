//! The fixed header at the start of an archive: a four-byte tag, the format
//! version, and the offset of the entry table.

use crate::cursor::BinaryCursor;
use crate::endian::le_value;
use crate::error::{lift, ArchiveError, ErrorModel};
use vstd::prelude::*;

verus! {

/// The tag that opens every archive: the letters `LSPK`.
pub const MAGIC: [u8; 4] = [0x4c, 0x53, 0x50, 0x4b];

/// The newest format version that this library recognises. Every version up
/// to it is read; a later one may lay its header and table out otherwise and
/// is refused.
pub const NEWEST_VERSION: u32 = 18;

/// The length of the header in bytes.
pub const HEADER_SIZE: u64 = 16;

/// The header of an archive.
#[derive(Clone, Copy, Debug, PartialEq, Eq)]
pub struct PAKHeader {
    /// The tag; in a parsed header it is always `MAGIC`.
    pub id: [u8; 4],
    /// The format version; in a parsed header it is always a supported one.
    pub version: u32,
    /// Where the entry table starts, in bytes from the start of the archive.
    pub table_offset: u64,
}

/// Whether this library reads archives of format version `version`.
pub open spec fn supported_version(version: u32) -> bool {
    version <= NEWEST_VERSION
}

/// The little-endian number in the four bytes of `bytes` from `at`.
pub open spec fn u32_at(bytes: Seq<u8>, at: int) -> u32 {
    le_value(bytes.subrange(at, at + 4)) as u32
}

/// The little-endian number in the eight bytes of `bytes` from `at`.
pub open spec fn u64_at(bytes: Seq<u8>, at: int) -> u64 {
    le_value(bytes.subrange(at, at + 8)) as u64
}

/// What parsing the header of an archive of these bytes comes to. The fields
/// are taken in their order, and the first that is missing or wrong decides.
pub open spec fn header_outcome(bytes: Seq<u8>) -> Result<PAKHeader, ErrorModel> {
    if bytes.len() < 4 {
        Err(ErrorModel::Truncated { offset: 0, wanted: 4, available: bytes.len() as u64 })
    } else if bytes.subrange(0, 4) != MAGIC@ {
        Err(ErrorModel::BadMagic { found: bytes.subrange(0, 4) })
    } else if bytes.len() < 8 {
        Err(ErrorModel::Truncated { offset: 4, wanted: 4, available: (bytes.len() - 4) as u64 })
    } else if !supported_version(u32_at(bytes, 4)) {
        Err(ErrorModel::UnsupportedVersion { version: u32_at(bytes, 4) })
    } else if bytes.len() < 16 {
        Err(ErrorModel::Truncated { offset: 8, wanted: 8, available: (bytes.len() - 8) as u64 })
    } else {
        Ok(PAKHeader { id: MAGIC, version: u32_at(bytes, 4), table_offset: u64_at(bytes, 8) })
    }
}

/// Where a cursor stands after the header was parsed: behind the last field
/// that could be read.
pub open spec fn header_stop(bytes: Seq<u8>) -> nat {
    if bytes.len() < 4 {
        0
    } else if bytes.subrange(0, 4) != MAGIC@ || bytes.len() < 8 {
        4
    } else if !supported_version(u32_at(bytes, 4)) || bytes.len() < 16 {
        8
    } else {
        16
    }
}

/// Tells whether this library reads archives of format version `version`.
pub fn is_supported(version: u32) -> (b: bool)
    ensures
        b == supported_version(version),
{
    version <= NEWEST_VERSION
}

/// Parses the header at the start of the cursor's source. The table offset is
/// returned as the archive declares it: it is checked against the length of
/// the archive when the table is read.
pub fn parse_header(cursor: &mut BinaryCursor) -> (r: Result<PAKHeader, ArchiveError>)
    ensures
        final(cursor).bytes() == old(cursor).bytes(),
        final(cursor).pos() == header_stop(old(cursor).bytes()),
        lift(r) == header_outcome(old(cursor).bytes()),
{
    let ghost bytes = cursor.bytes();
    let _ = cursor.seek(0);
    let tag: Vec<u8> = match cursor.read_bytes(4) {
        Ok(tag) => tag,
        Err(e) => {
            return Err(e);
        },
    };
    assert(tag@ == bytes.subrange(0, 4));
    if tag[0] != MAGIC[0] || tag[1] != MAGIC[1] || tag[2] != MAGIC[2] || tag[3] != MAGIC[3] {
        let found: [u8; 4] = [tag[0], tag[1], tag[2], tag[3]];
        assert(found@ == tag@);
        assert(tag@ != MAGIC@);
        return Err(ArchiveError::BadMagic { found });
    }
    assert(tag@ == MAGIC@);
    let version: u32 = match cursor.read_u32() {
        Ok(version) => version,
        Err(e) => {
            return Err(e);
        },
    };
    if !is_supported(version) {
        return Err(ArchiveError::UnsupportedVersion { version });
    }
    let table_offset: u64 = match cursor.read_u64() {
        Ok(offset) => offset,
        Err(e) => {
            return Err(e);
        },
    };
    Ok(PAKHeader { id: MAGIC, version, table_offset })
}

} // verus!
