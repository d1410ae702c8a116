//! Reader for LSPK game archives.
//!
//! An archive is one file: a fixed header, a table of entries that may be
//! packed, and the entries' payloads. This crate validates the header, decodes
//! the table, and extracts single entries with their size and checksum
//! verified. It works on bytes already in memory and never trusts an offset or
//! a size that the archive declares.
//!
//! The modules, from the bytes up: `endian` and `cursor` read numbers and
//! runs of bytes; `header` and `table` decode the archive's directory;
//! `payload` and `crc` recover and verify content; `index` and `reader` hold
//! an open archive; `laws` states what holds of all of them.

pub mod endian;
pub mod error;
pub mod cursor;
pub mod crc;
pub mod payload;
pub mod header;
pub mod text;
pub mod table;
pub mod index;
pub mod reader;
pub mod laws;
