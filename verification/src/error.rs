//! The failures that reading an archive can end in.

use vstd::prelude::*;

verus! {

/// What is wrong with an entry table.
#[allow(inconsistent_fields)]
#[derive(Clone, Copy, Debug, PartialEq, Eq)]
pub enum TableFault {
    /// The unpacked table is not as long as its declared number of records.
    Length { expected: u64, observed: u64 },
    /// The name field of a record has no terminating zero byte.
    NameUnterminated { record: u32 },
    /// The name of a record is not UTF-8 text.
    NameNotText { record: u32 },
    /// The name of a record is empty.
    NameEmpty { record: u32 },
}

/// Why an archive, or one entry of it, could not be read.
#[allow(inconsistent_fields)]
#[derive(Clone, Debug, PartialEq, Eq)]
pub enum ArchiveError {
    /// The first four bytes are not the archive tag.
    BadMagic { found: [u8; 4] },
    /// The header names a version that this library does not read.
    UnsupportedVersion { version: u32 },
    /// A read of `wanted` bytes at `offset` found only `available` bytes left.
    Truncated { offset: u64, wanted: u64, available: u64 },
    /// A seek to `offset` in a source of `length` bytes.
    OutOfBounds { offset: u64, length: u64 },
    /// The entry table does not decode.
    MalformedTable { fault: TableFault },
    /// Two records of the table carry this name.
    DuplicateEntry { name: String },
    /// Unpacked content is `observed` bytes long where `expected` were declared.
    SizeMismatch { expected: u64, observed: u64 },
    /// The declared unpacked size is above the ceiling in force.
    SizeTooLarge { declared: u64, ceiling: u64 },
    /// The content of the named entry does not have the checksum the table records.
    ChecksumMismatch { name: String, expected: u32, observed: u32 },
    /// The archive has no entry of this name.
    NotFound { name: String },
    /// The reader has been closed.
    Closed,
}

/// An `ArchiveError` with its text and bytes as sequences.
#[allow(inconsistent_fields)]
pub enum ErrorModel {
    BadMagic { found: Seq<u8> },
    UnsupportedVersion { version: u32 },
    Truncated { offset: u64, wanted: u64, available: u64 },
    OutOfBounds { offset: u64, length: u64 },
    MalformedTable { fault: TableFault },
    DuplicateEntry { name: Seq<char> },
    SizeMismatch { expected: u64, observed: u64 },
    SizeTooLarge { declared: u64, ceiling: u64 },
    ChecksumMismatch { name: Seq<char>, expected: u32, observed: u32 },
    NotFound { name: Seq<char> },
    Closed,
}

impl View for ArchiveError {
    type V = ErrorModel;

    open spec fn view(&self) -> ErrorModel {
        match *self {
            ArchiveError::BadMagic { found } => ErrorModel::BadMagic { found: found@ },
            ArchiveError::UnsupportedVersion { version } => ErrorModel::UnsupportedVersion {
                version,
            },
            ArchiveError::Truncated { offset, wanted, available } => ErrorModel::Truncated {
                offset,
                wanted,
                available,
            },
            ArchiveError::OutOfBounds { offset, length } => ErrorModel::OutOfBounds {
                offset,
                length,
            },
            ArchiveError::MalformedTable { fault } => ErrorModel::MalformedTable { fault },
            ArchiveError::DuplicateEntry { name } => ErrorModel::DuplicateEntry { name: name@ },
            ArchiveError::SizeMismatch { expected, observed } => ErrorModel::SizeMismatch {
                expected,
                observed,
            },
            ArchiveError::SizeTooLarge { declared, ceiling } => ErrorModel::SizeTooLarge {
                declared,
                ceiling,
            },
            ArchiveError::ChecksumMismatch { name, expected, observed } => {
                ErrorModel::ChecksumMismatch { name: name@, expected, observed }
            },
            ArchiveError::NotFound { name } => ErrorModel::NotFound { name: name@ },
            ArchiveError::Closed => ErrorModel::Closed,
        }
    }
}

/// A result with its error as a model; the value is left as it is.
pub open spec fn lift<T>(r: Result<T, ArchiveError>) -> Result<T, ErrorModel> {
    match r {
        Ok(v) => Ok(v),
        Err(e) => Err(e@),
    }
}

} // verus!
