//! Byte-cursor primitives: slice-splitting reads of fixed-width
//! little-endian integers and fixed-length byte ranges.

use vstd::prelude::*;
use crate::Error;
use vstd::slice::slice_subrange;
use vstd::bytes::{
    spec_u16_from_le_bytes, spec_u32_from_le_bytes, spec_u64_from_le_bytes,
    u16_from_le_bytes, u32_from_le_bytes, u64_from_le_bytes,
};

verus! {

/// End-of-buffer condition: the input held fewer bytes than requested.
pub struct Eof;

impl From<Eof> for Error {
    fn from(_err: Eof) -> (r: Error) {
        Error::Eof
    }
}

impl vstd::std_specs::convert::FromSpecImpl<Eof> for Error {
    open spec fn obeys_from_spec() -> bool {
        true
    }

    open spec fn from_spec(t: Eof) -> Error {
        Error::Eof
    }
}

/// Taking `n` bytes after skipping `a` is the subrange `[a, a + n)`.
pub proof fn lemma_skip_take(s: Seq<u8>, a: int, n: int)
    requires
        0 <= a,
        0 <= n,
        a + n <= s.len(),
    ensures
        s.skip(a).take(n) == s.subrange(a, a + n),
{
    assert(s.skip(a).take(n) =~= s.subrange(a, a + n));
}

/// Skipping `a` bytes and then `b` more is skipping `a + b` at once.
pub proof fn lemma_skip_skip(s: Seq<u8>, a: int, b: int)
    requires
        0 <= a,
        0 <= b,
        a + b <= s.len(),
    ensures
        s.skip(a).skip(b) == s.skip(a + b),
{
    assert(s.skip(a).skip(b) =~= s.skip(a + b));
}

/// Splits off the first `n` bytes of `input`, returning the remaining
/// suffix and the consumed prefix, or `Eof` if fewer than `n` bytes remain.
pub fn take<'a>(input: &'a [u8], n: usize) -> (r: Result<(&'a [u8], &'a [u8]), Eof>)
    ensures
        r is Ok <==> n <= input@.len(),
        r matches Ok((suffix, prefix)) ==> {
            &&& suffix@ == input@.skip(n as int)
            &&& prefix@ == input@.take(n as int)
        },
{
    if n <= input.len() {
        let suffix = slice_subrange(input, n, input.len());
        let prefix = slice_subrange(input, 0, n);
        assert(suffix@ == input@.skip(n as int));
        assert(prefix@ == input@.take(n as int));
        Ok((suffix, prefix))
    } else {
        Err(Eof)
    }
}

/// Reads a little-endian `u16` from the front of `input`.
pub fn read_u16<'a>(input: &'a [u8]) -> (r: Result<(&'a [u8], u16), Eof>)
    ensures
        r is Ok <==> 2 <= input@.len(),
        r matches Ok((rest, v)) ==> {
            &&& rest@ == input@.skip(2)
            &&& v == spec_u16_from_le_bytes(input@.take(2))
        },
{
    match take(input, 2) {
        Ok((rest, prefix)) => Ok((rest, u16_from_le_bytes(prefix))),
        Err(e) => Err(e),
    }
}

/// Reads a little-endian `u32` from the front of `input`.
pub fn read_u32<'a>(input: &'a [u8]) -> (r: Result<(&'a [u8], u32), Eof>)
    ensures
        r is Ok <==> 4 <= input@.len(),
        r matches Ok((rest, v)) ==> {
            &&& rest@ == input@.skip(4)
            &&& v == spec_u32_from_le_bytes(input@.take(4))
        },
{
    match take(input, 4) {
        Ok((rest, prefix)) => Ok((rest, u32_from_le_bytes(prefix))),
        Err(e) => Err(e),
    }
}

/// Reads a little-endian `u64` from the front of `input`.
pub fn read_u64<'a>(input: &'a [u8]) -> (r: Result<(&'a [u8], u64), Eof>)
    ensures
        r is Ok <==> 8 <= input@.len(),
        r matches Ok((rest, v)) ==> {
            &&& rest@ == input@.skip(8)
            &&& v == spec_u64_from_le_bytes(input@.take(8))
        },
{
    match take(input, 8) {
        Ok((rest, prefix)) => Ok((rest, u64_from_le_bytes(prefix))),
        Err(e) => Err(e),
    }
}

} // verus!
