//! A ZIP/ZIP64 archive decoder over an in-memory byte buffer.
//!
//! The decoder locates the archive's end-of-central-directory structures,
//! walks the central directory lazily, hands out zero-copy slices of each
//! entry's compressed payload, and decompresses them under a declared size
//! cap with an incremental CRC-32 integrity check.

use vstd::prelude::*;

pub mod archive;
pub mod compress;
pub mod decode;
pub mod locate;
pub mod records;
pub mod system;
pub mod util;

pub use archive::{ZipArchive, ZipEntries, Zip64Archive, Zip64Entries};
pub use records::{
    EocdRecord, Zip64EocdRecord, Zip64EocdLocator, CentralFileHeader, LocalFileHeader,
};
pub use util::{Eof, take, read_u16, read_u32, read_u64};

verus! {

/// The failure conditions of the decoder.
#[derive(Clone, Copy, Debug, PartialEq, Eq, Structural)]
pub enum Error {
    /// Fewer bytes remain than a field or a declared length requires.
    Eof,
    /// The end-of-central-directory signature is missing or malformed.
    BadEocdr,
    /// The Zip64 end-of-central-directory locator signature is malformed.
    BadZip64Eocdl,
    /// A central file header signature is malformed.
    BadCfh,
    /// A local file header signature is malformed.
    BadLfh,
    /// The archive layout is out of scope (multi-disk).
    Unsupported,
    /// A stored offset or size does not fit the addressable range.
    OffsetOverflow,
    /// The entry's compression method has no registered decompressor.
    UnsupportedMethod,
    /// The compressed payload could not be decoded.
    BadData,
    /// The decompressed bytes do not match the stored CRC-32.
    IntegrityFailure,
}

} // verus!
