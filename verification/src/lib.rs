//! Reading SEGA File Archive (FARC) containers.
//!
//! An archive is a small big-endian header followed by a table of entries;
//! every entry names a file and points at its bytes inside the archive.
//! The parsers here work directly on the archive's bytes and are proved
//! against a byte-level model of the format in `read`.

pub mod archive;
pub mod entry;
pub mod read;
