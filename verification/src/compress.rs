//! Compression method codes stored in ZIP file headers.

use vstd::prelude::*;

verus! {

/// Identity pass-through: the payload is stored uncompressed.
pub const STORE: u16 = 0;

/// The DEFLATE compressed data format.
pub const DEFLATE: u16 = 8;

/// The Zstandard compressed data format.
pub const ZSTD: u16 = 93;

} // verus!
