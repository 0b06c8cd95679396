//! Archive locator: finds the end-of-central-directory record by scanning
//! a bounded window at the tail of the buffer, right-to-left, for the
//! EOCD magic.

use vstd::prelude::*;
use vstd::slice::slice_subrange;
use crate::Error;
use crate::records::{EocdRecord, spec_eocd, eocd_ok, eocd_err, eocd_len, sig_at};

verus! {

/// Relies on `memchr::memmem::rfind`: returns the starting index of the
/// last occurrence of `needle` in `haystack`, or `None` if `needle` does
/// not occur.
#[verifier::external_body]
fn rfind_bytes(haystack: &[u8], needle: &[u8]) -> (r: Option<usize>)
    ensures
        r matches Some(i) ==> {
            &&& i + needle@.len() <= haystack@.len()
            &&& haystack@.subrange(i as int, i + needle@.len()) == needle@
            &&& forall|j: int|
                i < j && j + needle@.len() <= haystack@.len() ==> #[trigger] haystack@.subrange(
                    j,
                    j + needle@.len(),
                ) != needle@
        },
        r is None ==> forall|j: int|
            0 <= j && j + needle@.len() <= haystack@.len() ==> #[trigger] haystack@.subrange(
                j,
                j + needle@.len(),
            ) != needle@,
{
    memchr::memmem::rfind(haystack, needle)
}

/// Start of the tail window searched for the EOCD magic: the last
/// 128 KiB of the buffer, or the whole buffer if it is shorter.
pub open spec fn eocd_window_start(s: Seq<u8>) -> int {
    if s.len() >= 131072 {
        s.len() - 131072
    } else {
        0
    }
}

/// The EOCD magic occurs somewhere in the tail window of `s`.
pub open spec fn eocd_sig_in_window(s: Seq<u8>) -> bool {
    exists|j: int| eocd_window_start(s) <= j && sig_at(s, j, 5u8, 6u8)
}

/// `j` is the offset of the last EOCD magic in the tail window of `s`.
pub open spec fn is_last_eocd_sig(s: Seq<u8>, j: int) -> bool {
    &&& eocd_window_start(s) <= j
    &&& sig_at(s, j, 5u8, 6u8)
    &&& forall|k: int| j < k ==> !sig_at(s, k, 5u8, 6u8)
}

/// At most one offset is the last EOCD magic.
pub proof fn lemma_last_eocd_sig_unique(s: Seq<u8>, j1: int, j2: int)
    requires
        is_last_eocd_sig(s, j1),
        is_last_eocd_sig(s, j2),
    ensures
        j1 == j2,
{
    if j1 < j2 {
        assert(!sig_at(s, j2, 5u8, 6u8));
    } else if j2 < j1 {
        assert(!sig_at(s, j1, 5u8, 6u8));
    }
}

impl<'a> EocdRecord<'a> {
    /// Finds the absolute offset of the last EOCD magic within the tail
    /// window of `buf` (the last 128 KiB, handling trailing comments of
    /// arbitrary content that may contain the magic earlier).
    pub fn find_sig_offset(buf: &[u8]) -> (r: Result<usize, Error>)
        ensures
            r is Ok <==> eocd_sig_in_window(buf@),
            r matches Ok(off) ==> is_last_eocd_sig(buf@, off as int),
            r matches Err(e) ==> e == Error::BadEocdr,
    {
        let ghost s = buf@;
        let search_offset: usize = if buf.len() >= 131072 {
            buf.len() - 131072
        } else {
            0
        };
        assert(search_offset as int == eocd_window_start(s));
        let window = slice_subrange(buf, search_offset, buf.len());
        let sig: [u8; 4] = [80u8, 75u8, 5u8, 6u8];
        let r = rfind_bytes(window, sig.as_slice());
        proof {
            assert(sig@ =~= seq![80u8, 75u8, 5u8, 6u8]);
        }
        match r {
            Some(i) => {
                let off = search_offset + i;
                proof {
                    let ws = search_offset as int;
                    assert(window@.subrange(i as int, i + 4) == sig@);
                    assert forall|k: int| 0 <= k < 4 implies s[ws + i + k] == sig@[k] by {
                        assert(window@.subrange(i as int, i + 4)[k] == sig@[k]);
                    }
                    assert(sig_at(s, off as int, 5u8, 6u8));
                    assert forall|k: int| off < k implies !sig_at(s, k, 5u8, 6u8) by {
                        if sig_at(s, k, 5u8, 6u8) {
                            let kw = k - ws;
                            assert(window@.subrange(kw, kw + 4) =~= sig@);
                        }
                    }
                }
                Ok(off)
            },
            None => {
                proof {
                    let ws = search_offset as int;
                    assert forall|j: int| ws <= j implies !sig_at(s, j, 5u8, 6u8) by {
                        if sig_at(s, j, 5u8, 6u8) {
                            let jw = j - ws;
                            assert(window@.subrange(jw, jw + 4) =~= sig@);
                        }
                    }
                }
                Err(Error::BadEocdr)
            },
        }
    }

    /// Finds and decodes the EOCD record nearest the tail of `buf`,
    /// returning its absolute offset together with the record.
    pub fn find(buf: &'a [u8]) -> (r: Result<(usize, EocdRecord<'a>), Error>)
        ensures
            r is Ok <==> exists|j: int| is_last_eocd_sig(buf@, j) && eocd_ok(buf@.skip(j)),
            r matches Ok((off, rec)) ==> {
                &&& is_last_eocd_sig(buf@, off as int)
                &&& eocd_ok(buf@.skip(off as int))
                &&& rec@ == spec_eocd(buf@.skip(off as int))
            },
            r matches Err(e) ==> (if !eocd_sig_in_window(buf@) {
                e == Error::BadEocdr
            } else {
                exists|j: int| is_last_eocd_sig(buf@, j) && e == eocd_err(buf@.skip(j))
            }),
    {
        let offset = match Self::find_sig_offset(buf) {
            Ok(off) => off,
            Err(e) => { return Err(e) },
        };
        let tail = slice_subrange(buf, offset, buf.len());
        match EocdRecord::parse(tail) {
            Ok((_, record)) => {
                proof {
                    assert forall|j: int|
                        is_last_eocd_sig(buf@, j) implies eocd_ok(buf@.skip(j)) by {
                        lemma_last_eocd_sig_unique(buf@, j, offset as int);
                    }
                }
                Ok((offset, record))
            },
            Err(e) => {
                proof {
                    assert forall|j: int|
                        is_last_eocd_sig(buf@, j) && eocd_ok(buf@.skip(j)) implies false by {
                        lemma_last_eocd_sig_unique(buf@, j, offset as int);
                    }
                }
                Err(e)
            },
        }
    }
}

} // verus!
