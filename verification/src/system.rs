//! Originating-system codes stored in the version-made-by field.

use vstd::prelude::*;

verus! {

/// MS-DOS and OS/2 (FAT-family attribute semantics).
pub const DOS: u16 = 0;

/// UNIX (mode bits in the external attributes).
pub const UNIX: u16 = 3;

} // verus!
