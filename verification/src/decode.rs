//! Decode pipeline: a compression-method-specific decompressor bounded by
//! the declared uncompressed size, with a CRC-32 integrity check over the
//! produced bytes.

use vstd::prelude::*;
use vstd::slice::{slice_subrange, slice_index_get, slice_to_vec};
use crate::Error;
use crate::compress;

verus! {

/// The reversed CRC-32 polynomial (IEEE 802.3).
pub const CRC32_POLY: u32 = 0xEDB88320;

/// One bit step of the CRC-32 shift register.
pub open spec fn crc32_shift_bit(acc: u32) -> u32 {
    if acc & 1 == 1 {
        (acc >> 1) ^ CRC32_POLY
    } else {
        acc >> 1
    }
}

/// `n` bit steps of the CRC-32 shift register.
pub open spec fn crc32_bits(acc: u32, n: nat) -> u32
    decreases n,
{
    if n == 0 {
        acc
    } else {
        crc32_bits(crc32_shift_bit(acc), (n - 1) as nat)
    }
}

/// Folding one byte into the CRC-32 accumulator.
pub open spec fn crc32_byte(acc: u32, b: u8) -> u32 {
    crc32_bits(acc ^ (b as u32), 8)
}

/// Folding a byte sequence into the CRC-32 accumulator, front to back.
pub open spec fn crc32_acc(acc: u32, s: Seq<u8>) -> u32
    decreases s.len(),
{
    if s.len() == 0 {
        acc
    } else {
        crc32_acc(crc32_byte(acc, s[0]), s.skip(1))
    }
}

/// The CRC-32 checksum of `s`: accumulator seeded with all ones, folded
/// over `s`, and complemented.
pub open spec fn spec_crc32(s: Seq<u8>) -> u32 {
    !crc32_acc(0xFFFFFFFFu32, s)
}

/// Peeling a bit step off the back: `n + 1` steps are one step after `n`.
proof fn lemma_crc32_bits_step(acc: u32, n: nat)
    ensures
        crc32_bits(acc, n + 1) == crc32_shift_bit(crc32_bits(acc, n)),
    decreases n,
{
    if n == 0 {
        assert(crc32_bits(acc, 1) == crc32_bits(crc32_shift_bit(acc), 0));
    } else {
        lemma_crc32_bits_step(crc32_shift_bit(acc), (n - 1) as nat);
        assert(crc32_bits(acc, n + 1) == crc32_bits(crc32_shift_bit(acc), n));
        assert(crc32_bits(acc, n) == crc32_bits(crc32_shift_bit(acc), (n - 1) as nat));
    }
}

/// Folding one more byte on the right extends the accumulator by one
/// byte step.
proof fn lemma_crc32_acc_push(acc: u32, s: Seq<u8>, b: u8)
    ensures
        crc32_acc(acc, s.push(b)) == crc32_byte(crc32_acc(acc, s), b),
    decreases s.len(),
{
    if s.len() == 0 {
        assert(s.push(b)[0] == b);
        assert(s.push(b).skip(1) =~= Seq::<u8>::empty());
        assert(crc32_acc(crc32_byte(acc, b), Seq::<u8>::empty()) == crc32_byte(acc, b));
        assert(crc32_acc(acc, s) == acc);
    } else {
        assert(s.push(b)[0] == s[0]);
        assert(s.push(b).skip(1) =~= s.skip(1).push(b));
        lemma_crc32_acc_push(crc32_byte(acc, s[0]), s.skip(1), b);
        assert(crc32_acc(acc, s.push(b)) == crc32_acc(crc32_byte(acc, s[0]), s.skip(1).push(b)));
        assert(crc32_acc(acc, s) == crc32_acc(crc32_byte(acc, s[0]), s.skip(1)));
    }
}

/// Folds one byte into the CRC-32 accumulator, bit by bit.
fn crc32_update_byte(acc: u32, b: u8) -> (r: u32)
    ensures
        r == crc32_byte(acc, b),
{
    let mut a: u32 = acc ^ (b as u32);
    let mut k: usize = 0;
    while k < 8
        invariant
            k <= 8,
            a == crc32_bits(acc ^ (b as u32), k as nat),
        decreases 8 - k,
    {
        proof {
            lemma_crc32_bits_step(acc ^ (b as u32), k as nat);
        }
        a = if a & 1 == 1 {
            (a >> 1u32) ^ CRC32_POLY
        } else {
            a >> 1u32
        };
        k += 1;
    }
    a
}

/// Computes the CRC-32 checksum of `data`.
pub fn crc32(data: &[u8]) -> (r: u32)
    ensures
        r == spec_crc32(data@),
{
    let mut acc: u32 = 0xFFFFFFFF;
    let mut i: usize = 0;
    while i < data.len()
        invariant
            i <= data@.len(),
            acc == crc32_acc(0xFFFFFFFFu32, data@.take(i as int)),
        decreases data@.len() - i,
    {
        let b = *slice_index_get(data, i);
        proof {
            assert(data@.take(i as int).push(b) =~= data@.take(i + 1 as int));
            lemma_crc32_acc_push(0xFFFFFFFFu32, data@.take(i as int), b);
        }
        acc = crc32_update_byte(acc, b);
        i += 1;
    }
    proof {
        assert(data@.take(data@.len() as int) =~= data@);
    }
    !acc
}

/// What the identity pass-through produces under the size cap: the whole
/// payload, truncated to at most `cap` bytes.
pub open spec fn store_output(s: Seq<u8>, cap: int) -> Seq<u8> {
    if cap <= s.len() {
        s.take(cap)
    } else {
        s
    }
}

/// What DEFLATE decompression of `s` produces under a cap of `cap`
/// bytes, or `None` if the stream is malformed.
pub uninterp spec fn inflate_capped(s: Seq<u8>, cap: nat) -> Option<Seq<u8>>;

/// What DEFLATE decompression of the whole stream `s` produces, with no
/// cap, or `None` if the stream is malformed.
pub uninterp spec fn inflate_full(s: Seq<u8>) -> Option<Seq<u8>>;

/// Relies on `flate2::bufread::DeflateDecoder` wrapped in std's
/// `Read::take(cap)`: reading to end yields the raw-DEFLATE
/// decompression of `data` truncated to at most `cap` bytes, or an error
/// for a malformed stream; the outcome is a function of `data` and `cap`
/// alone. When the whole stream is valid, the capped read succeeds and
/// produces exactly the first `min(cap, full length)` bytes of the full
/// decompression: production stops at the cap, never beyond it.
#[verifier::external_body]
fn inflate_limited(data: &[u8], cap: u64) -> (r: Result<Vec<u8>, ()>)
    ensures
        r matches Ok(v) ==> {
            &&& v@.len() <= cap
            &&& inflate_capped(data@, cap as nat) == Some(v@)
        },
        r is Err ==> inflate_capped(data@, cap as nat) is None,
        r matches Ok(v) ==> (inflate_full(data@) matches Some(f) ==> v@ == (if f.len() >= cap {
            f.take(cap as int)
        } else {
            f
        })),
        r is Err ==> inflate_full(data@) is None,
{
    let mut out = Vec::new();
    let mut rd = std::io::Read::take(flate2::bufread::DeflateDecoder::new(data), cap);
    match std::io::Read::read_to_end(&mut rd, &mut out) {
        Ok(_) => Ok(out),
        Err(_) => Err(()),
    }
}

/// What Zstandard decompression of `s` produces under a cap of `cap`
/// bytes, or `None` if the stream is malformed.
pub uninterp spec fn zstd_capped(s: Seq<u8>, cap: nat) -> Option<Seq<u8>>;

/// What Zstandard decompression of the whole stream `s` produces, with
/// no cap, or `None` if the stream is malformed.
pub uninterp spec fn zstd_full(s: Seq<u8>) -> Option<Seq<u8>>;

/// Relies on `zstd::stream::read::Decoder` wrapped in std's
/// `Read::take(cap)`: reading to end yields the Zstandard decompression
/// of `data` truncated to at most `cap` bytes, or an error for a
/// malformed stream; the outcome is a function of `data` and `cap`
/// alone. When the whole stream is valid, the capped read succeeds and
/// produces exactly the first `min(cap, full length)` bytes of the full
/// decompression: production stops at the cap, never beyond it.
#[verifier::external_body]
fn zstd_limited(data: &[u8], cap: u64) -> (r: Result<Vec<u8>, ()>)
    ensures
        r matches Ok(v) ==> {
            &&& v@.len() <= cap
            &&& zstd_capped(data@, cap as nat) == Some(v@)
        },
        r is Err ==> zstd_capped(data@, cap as nat) is None,
        r matches Ok(v) ==> (zstd_full(data@) matches Some(f) ==> v@ == (if f.len() >= cap {
            f.take(cap as int)
        } else {
            f
        })),
        r is Err ==> zstd_full(data@) is None,
{
    let dec = match zstd::stream::read::Decoder::with_buffer(data) {
        Ok(d) => d,
        Err(_) => return Err(()),
    };
    let mut out = Vec::new();
    let mut rd = std::io::Read::take(dec, cap);
    match std::io::Read::read_to_end(&mut rd, &mut out) {
        Ok(_) => Ok(out),
        Err(_) => Err(()),
    }
}

/// Decompresses one entry's payload and verifies its integrity.
///
/// The decompressor is selected by `method`; production stops exactly at
/// `uncomp_size` bytes, whatever the stream's true decompressed size (the
/// zip-bomb defense: for a valid stream the output is precisely the
/// `uncomp_size`-byte prefix of the full decompression, and never more);
/// and the result is returned only if its CRC-32 checksum equals
/// `expected_crc`.
pub fn decode_entry(data: &[u8], method: u16, uncomp_size: u32, expected_crc: u32) -> (r: Result<
    Vec<u8>,
    Error,
>)
    ensures
        r matches Ok(v) ==> {
            &&& v@.len() <= uncomp_size
            &&& spec_crc32(v@) == expected_crc
        },
        method == compress::STORE ==> {
            &&& (r is Ok <==> spec_crc32(store_output(data@, uncomp_size as int)) == expected_crc)
            &&& (r matches Ok(v) ==> v@ == store_output(data@, uncomp_size as int))
            &&& (r is Err ==> r == Err::<Vec<u8>, Error>(Error::IntegrityFailure))
        },
        method == compress::DEFLATE ==> {
            &&& (r is Ok <==> (inflate_capped(data@, uncomp_size as nat) matches Some(o)
                && spec_crc32(o) == expected_crc))
            &&& (r matches Ok(v) ==> inflate_capped(data@, uncomp_size as nat) == Some(v@))
            &&& (inflate_capped(data@, uncomp_size as nat) is None ==> r == Err::<Vec<u8>, Error>(
                Error::BadData,
            ))
            &&& (inflate_capped(data@, uncomp_size as nat) matches Some(o) && spec_crc32(o)
                != expected_crc ==> r == Err::<Vec<u8>, Error>(Error::IntegrityFailure))
            &&& (r matches Ok(v) ==> (inflate_full(data@) matches Some(f) ==> v@ == (
            if f.len() >= uncomp_size {
                f.take(uncomp_size as int)
            } else {
                f
            })))
            &&& (inflate_full(data@) is Some ==> r != Err::<Vec<u8>, Error>(Error::BadData))
        },
        method == compress::ZSTD ==> {
            &&& (r is Ok <==> (zstd_capped(data@, uncomp_size as nat) matches Some(o)
                && spec_crc32(o) == expected_crc))
            &&& (r matches Ok(v) ==> zstd_capped(data@, uncomp_size as nat) == Some(v@))
            &&& (zstd_capped(data@, uncomp_size as nat) is None ==> r == Err::<Vec<u8>, Error>(
                Error::BadData,
            ))
            &&& (zstd_capped(data@, uncomp_size as nat) matches Some(o) && spec_crc32(o)
                != expected_crc ==> r == Err::<Vec<u8>, Error>(Error::IntegrityFailure))
            &&& (r matches Ok(v) ==> (zstd_full(data@) matches Some(f) ==> v@ == (
            if f.len() >= uncomp_size {
                f.take(uncomp_size as int)
            } else {
                f
            })))
            &&& (zstd_full(data@) is Some ==> r != Err::<Vec<u8>, Error>(Error::BadData))
        },
        method != compress::STORE && method != compress::DEFLATE && method != compress::ZSTD ==> r
            == Err::<Vec<u8>, Error>(Error::UnsupportedMethod),
{
    let out: Vec<u8> = if method == compress::STORE {
        let n: usize = if (uncomp_size as u64) <= data.len() as u64 {
            uncomp_size as usize
        } else {
            data.len()
        };
        let v = slice_to_vec(slice_subrange(data, 0, n));
        proof {
            if (uncomp_size as int) > data@.len() {
                assert(data@.subrange(0, data@.len() as int) =~= data@);
            }
            assert(v@ == store_output(data@, uncomp_size as int));
        }
        v
    } else if method == compress::DEFLATE {
        match inflate_limited(data, uncomp_size as u64) {
            Ok(v) => v,
            Err(_) => { return Err(Error::BadData) },
        }
    } else if method == compress::ZSTD {
        match zstd_limited(data, uncomp_size as u64) {
            Ok(v) => v,
            Err(_) => { return Err(Error::BadData) },
        }
    } else {
        return Err(Error::UnsupportedMethod);
    };
    let computed = crc32(out.as_slice());
    if computed != expected_crc {
        return Err(Error::IntegrityFailure);
    }
    Ok(out)
}

/// Round trip: an identity-stored payload whose declared size covers it
/// is reproduced exactly by the pass-through stage.
pub proof fn lemma_store_roundtrip(s: Seq<u8>, cap: int)
    requires
        s.len() <= cap,
    ensures
        store_output(s, cap) == s,
{
    if cap <= s.len() {
        assert(s.take(cap) =~= s);
    }
}

} // verus!

