//! Record decoders for the five ZIP directory structures: the
//! end-of-central-directory record, the Zip64 locator and record, and the
//! central and local file headers.
//!
//! Each decoder is a pure function over an immutable byte slice: it checks
//! a four-byte magic signature, consumes fixed-width little-endian fields
//! in specification order, then the variable-length trailing byte ranges,
//! and returns the remaining suffix together with a zero-copy record.

use vstd::prelude::*;
use vstd::bytes::{spec_u16_from_le_bytes, spec_u32_from_le_bytes, spec_u64_from_le_bytes};
use crate::Error;
use crate::util::{take, read_u16, read_u32, read_u64, lemma_skip_take, lemma_skip_skip};

verus! {

/// The little-endian `u16` stored at byte offset `i` of `s`.
pub open spec fn u16_at(s: Seq<u8>, i: int) -> u16
    recommends
        0 <= i,
        i + 2 <= s.len(),
{
    spec_u16_from_le_bytes(s.subrange(i, i + 2))
}

/// The little-endian `u32` stored at byte offset `i` of `s`.
pub open spec fn u32_at(s: Seq<u8>, i: int) -> u32
    recommends
        0 <= i,
        i + 4 <= s.len(),
{
    spec_u32_from_le_bytes(s.subrange(i, i + 4))
}

/// The little-endian `u64` stored at byte offset `i` of `s`.
pub open spec fn u64_at(s: Seq<u8>, i: int) -> u64
    recommends
        0 <= i,
        i + 8 <= s.len(),
{
    spec_u64_from_le_bytes(s.subrange(i, i + 8))
}

/// Holds when the four-byte signature `PK` `b2` `b3` stands at offset `i`.
pub open spec fn sig_at(s: Seq<u8>, i: int, b2: u8, b3: u8) -> bool {
    &&& 0 <= i
    &&& i + 4 <= s.len()
    &&& s[i] == 80u8
    &&& s[i + 1] == 75u8
    &&& s[i + 2] == b2
    &&& s[i + 3] == b3
}

/// End-of-central-directory record: the archive's root structure.
pub struct EocdRecord<'a> {
    pub disk_nbr: u16,
    pub cd_start_disk: u16,
    pub disk_cd_entries: u16,
    pub cd_entries: u16,
    pub cd_size: u32,
    pub cd_offset: u32,
    pub comment: &'a [u8],
}

/// Mathematical model of an [`EocdRecord`].
#[verifier::ext_equal]
pub ghost struct EocdModel {
    pub disk_nbr: u16,
    pub cd_start_disk: u16,
    pub disk_cd_entries: u16,
    pub cd_entries: u16,
    pub cd_size: u32,
    pub cd_offset: u32,
    pub comment: Seq<u8>,
}

impl View for EocdRecord<'_> {
    type V = EocdModel;

    open spec fn view(&self) -> EocdModel {
        EocdModel {
            disk_nbr: self.disk_nbr,
            cd_start_disk: self.cd_start_disk,
            disk_cd_entries: self.disk_cd_entries,
            cd_entries: self.cd_entries,
            cd_size: self.cd_size,
            cd_offset: self.cd_offset,
            comment: self.comment@,
        }
    }
}

/// The EOCD signature `PK\x05\x06` stands at the front of `s`.
pub open spec fn eocd_magic(s: Seq<u8>) -> bool {
    sig_at(s, 0, 5u8, 6u8)
}

/// Total length of the EOCD record at the front of `s`: 22 fixed bytes
/// plus the declared comment length.
pub open spec fn eocd_len(s: Seq<u8>) -> int
    recommends
        s.len() >= 22,
{
    22 + u16_at(s, 20)
}

/// An EOCD record decodes successfully from the front of `s`.
pub open spec fn eocd_ok(s: Seq<u8>) -> bool {
    &&& eocd_magic(s)
    &&& s.len() >= 22
    &&& s.len() >= eocd_len(s)
}

/// The model of the EOCD record at the front of `s`.
pub open spec fn spec_eocd(s: Seq<u8>) -> EocdModel
    recommends
        eocd_ok(s),
{
    EocdModel {
        disk_nbr: u16_at(s, 4),
        cd_start_disk: u16_at(s, 6),
        disk_cd_entries: u16_at(s, 8),
        cd_entries: u16_at(s, 10),
        cd_size: u32_at(s, 12),
        cd_offset: u32_at(s, 16),
        comment: s.subrange(22, eocd_len(s)),
    }
}

/// The error an EOCD decode reports when `!eocd_ok(s)`.
pub open spec fn eocd_err(s: Seq<u8>) -> Error {
    if s.len() >= 4 && !eocd_magic(s) {
        Error::BadEocdr
    } else {
        Error::Eof
    }
}

impl<'a> EocdRecord<'a> {
    /// Decodes an EOCD record from the front of `buf`, returning the
    /// remaining suffix and the record.
    pub fn parse(buf: &'a [u8]) -> (r: Result<(&'a [u8], EocdRecord<'a>), Error>)
        ensures
            r is Ok <==> eocd_ok(buf@),
            r matches Ok((rest, rec)) ==> {
                &&& rec@ == spec_eocd(buf@)
                &&& rest@ == buf@.skip(eocd_len(buf@))
            },
            r matches Err(e) ==> e == eocd_err(buf@),
    {
        let ghost s = buf@;
        let (buf1, sig) = match take(buf, 4) {
            Ok(v) => v,
            Err(_) => { return Err(Error::Eof) },
        };
        if !(sig[0] == 80 && sig[1] == 75 && sig[2] == 5 && sig[3] == 6) {
            return Err(Error::BadEocdr);
        }
        assert(eocd_magic(s));
        let (buf2, disk_nbr) = match read_u16(buf1) {
            Ok(v) => v,
            Err(_) => { return Err(Error::Eof) },
        };
        let (buf3, cd_start_disk) = match read_u16(buf2) {
            Ok(v) => v,
            Err(_) => { return Err(Error::Eof) },
        };
        let (buf4, disk_cd_entries) = match read_u16(buf3) {
            Ok(v) => v,
            Err(_) => { return Err(Error::Eof) },
        };
        let (buf5, cd_entries) = match read_u16(buf4) {
            Ok(v) => v,
            Err(_) => { return Err(Error::Eof) },
        };
        let (buf6, cd_size) = match read_u32(buf5) {
            Ok(v) => v,
            Err(_) => { return Err(Error::Eof) },
        };
        let (buf7, cd_offset) = match read_u32(buf6) {
            Ok(v) => v,
            Err(_) => { return Err(Error::Eof) },
        };
        let (buf8, comment_len) = match read_u16(buf7) {
            Ok(v) => v,
            Err(_) => { return Err(Error::Eof) },
        };
        proof {
            lemma_skip_skip(s, 4, 2);
            lemma_skip_skip(s, 6, 2);
            lemma_skip_skip(s, 8, 2);
            lemma_skip_skip(s, 10, 2);
            lemma_skip_skip(s, 12, 4);
            lemma_skip_skip(s, 16, 4);
            lemma_skip_skip(s, 20, 2);
            lemma_skip_take(s, 4, 2);
            lemma_skip_take(s, 6, 2);
            lemma_skip_take(s, 8, 2);
            lemma_skip_take(s, 10, 2);
            lemma_skip_take(s, 12, 4);
            lemma_skip_take(s, 16, 4);
            lemma_skip_take(s, 20, 2);
        }
        assert(buf8@ == s.skip(22));
        assert(comment_len == u16_at(s, 20));
        let (buf9, comment) = match take(buf8, comment_len as usize) {
            Ok(v) => v,
            Err(_) => { return Err(Error::Eof) },
        };
        proof {
            lemma_skip_take(s, 22, comment_len as int);
            lemma_skip_skip(s, 22, comment_len as int);
        }
        let rec = EocdRecord {
            disk_nbr,
            cd_start_disk,
            disk_cd_entries,
            cd_entries,
            cd_size,
            cd_offset,
            comment,
        };
        assert(rec@ =~= spec_eocd(s));
        Ok((buf9, rec))
    }
}

/// Zip64 end-of-central-directory record: 64-bit entry counts and
/// central-directory coordinates.
pub struct Zip64EocdRecord<'a> {
    pub version_by: u16,
    pub version_needed: u16,
    pub disk_nbr: u32,
    pub cd_start_disk: u32,
    pub disk_cd_entries: u64,
    pub cd_entries: u64,
    pub cd_size: u64,
    pub cd_offset: u64,
    pub extra_data: &'a [u8],
}

/// Mathematical model of a [`Zip64EocdRecord`].
#[verifier::ext_equal]
pub ghost struct Zip64EocdModel {
    pub version_by: u16,
    pub version_needed: u16,
    pub disk_nbr: u32,
    pub cd_start_disk: u32,
    pub disk_cd_entries: u64,
    pub cd_entries: u64,
    pub cd_size: u64,
    pub cd_offset: u64,
    pub extra_data: Seq<u8>,
}

impl View for Zip64EocdRecord<'_> {
    type V = Zip64EocdModel;

    open spec fn view(&self) -> Zip64EocdModel {
        Zip64EocdModel {
            version_by: self.version_by,
            version_needed: self.version_needed,
            disk_nbr: self.disk_nbr,
            cd_start_disk: self.cd_start_disk,
            disk_cd_entries: self.disk_cd_entries,
            cd_entries: self.cd_entries,
            cd_size: self.cd_size,
            cd_offset: self.cd_offset,
            extra_data: self.extra_data@,
        }
    }
}

/// The Zip64 EOCD signature `PK\x06\x06` stands at the front of `s`.
pub open spec fn z64_eocd_magic(s: Seq<u8>) -> bool {
    sig_at(s, 0, 6u8, 6u8)
}

/// The declared size field of the Zip64 EOCD record at the front of `s`.
pub open spec fn z64_eocd_size(s: Seq<u8>) -> u64
    recommends
        s.len() >= 12,
{
    u64_at(s, 4)
}

/// Total length of the Zip64 EOCD record at the front of `s`: 56 fixed
/// bytes plus the extensible data, whose length is the declared size less
/// the 44 fixed bytes that the size field counts.
pub open spec fn z64_eocd_len(s: Seq<u8>) -> int
    recommends
        s.len() >= 12,
{
    12 + z64_eocd_size(s)
}

/// A Zip64 EOCD record decodes successfully from the front of `s`.
pub open spec fn z64_eocd_ok(s: Seq<u8>) -> bool {
    &&& z64_eocd_magic(s)
    &&& s.len() >= 12
    &&& z64_eocd_size(s) >= 44
    &&& z64_eocd_size(s) - 44 <= usize::MAX
    &&& s.len() >= z64_eocd_len(s)
}

/// The model of the Zip64 EOCD record at the front of `s`.
pub open spec fn spec_z64_eocd(s: Seq<u8>) -> Zip64EocdModel
    recommends
        z64_eocd_ok(s),
{
    Zip64EocdModel {
        version_by: u16_at(s, 12),
        version_needed: u16_at(s, 14),
        disk_nbr: u32_at(s, 16),
        cd_start_disk: u32_at(s, 20),
        disk_cd_entries: u64_at(s, 24),
        cd_entries: u64_at(s, 32),
        cd_size: u64_at(s, 40),
        cd_offset: u64_at(s, 48),
        extra_data: s.subrange(56, z64_eocd_len(s)),
    }
}

/// The error a Zip64 EOCD decode reports when `!z64_eocd_ok(s)`: a
/// declared size below the 44 fixed bytes is malformed, while an
/// extensible-data length that does not fit the addressable range is an
/// offset overflow.
pub open spec fn z64_eocd_err(s: Seq<u8>) -> Error {
    if s.len() < 4 {
        Error::Eof
    } else if !z64_eocd_magic(s) {
        Error::BadEocdr
    } else if s.len() < 12 {
        Error::Eof
    } else if z64_eocd_size(s) < 44 {
        Error::BadEocdr
    } else if z64_eocd_size(s) - 44 > usize::MAX {
        Error::OffsetOverflow
    } else {
        Error::Eof
    }
}

impl<'a> Zip64EocdRecord<'a> {
    /// Decodes a Zip64 EOCD record from the front of `buf`, returning the
    /// remaining suffix and the record.
    pub fn parse(buf: &'a [u8]) -> (r: Result<(&'a [u8], Zip64EocdRecord<'a>), Error>)
        ensures
            r is Ok <==> z64_eocd_ok(buf@),
            r matches Ok((rest, rec)) ==> {
                &&& rec@ == spec_z64_eocd(buf@)
                &&& rest@ == buf@.skip(z64_eocd_len(buf@))
            },
            r matches Err(e) ==> e == z64_eocd_err(buf@),
    {
        let ghost s = buf@;
        let (buf1, sig) = match take(buf, 4) {
            Ok(v) => v,
            Err(_) => { return Err(Error::Eof) },
        };
        if !(sig[0] == 80 && sig[1] == 75 && sig[2] == 6 && sig[3] == 6) {
            return Err(Error::BadEocdr);
        }
        assert(z64_eocd_magic(s));
        let (buf2, size) = match read_u64(buf1) {
            Ok(v) => v,
            Err(_) => { return Err(Error::Eof) },
        };
        proof {
            lemma_skip_take(s, 4, 8);
            lemma_skip_skip(s, 4, 8);
        }
        if size < 44 {
            return Err(Error::BadEocdr);
        }
        let extra64: u64 = size - 44;
        if extra64 > usize::MAX as u64 {
            return Err(Error::OffsetOverflow);
        }
        let extra_len: usize = extra64 as usize;
        let (buf3, version_by) = match read_u16(buf2) {
            Ok(v) => v,
            Err(_) => { return Err(Error::Eof) },
        };
        let (buf4, version_needed) = match read_u16(buf3) {
            Ok(v) => v,
            Err(_) => { return Err(Error::Eof) },
        };
        let (buf5, disk_nbr) = match read_u32(buf4) {
            Ok(v) => v,
            Err(_) => { return Err(Error::Eof) },
        };
        let (buf6, cd_start_disk) = match read_u32(buf5) {
            Ok(v) => v,
            Err(_) => { return Err(Error::Eof) },
        };
        let (buf7, disk_cd_entries) = match read_u64(buf6) {
            Ok(v) => v,
            Err(_) => { return Err(Error::Eof) },
        };
        let (buf8, cd_entries) = match read_u64(buf7) {
            Ok(v) => v,
            Err(_) => { return Err(Error::Eof) },
        };
        let (buf9, cd_size) = match read_u64(buf8) {
            Ok(v) => v,
            Err(_) => { return Err(Error::Eof) },
        };
        let (buf10, cd_offset) = match read_u64(buf9) {
            Ok(v) => v,
            Err(_) => { return Err(Error::Eof) },
        };
        proof {
            lemma_skip_take(s, 12, 2);
            lemma_skip_skip(s, 12, 2);
            lemma_skip_take(s, 14, 2);
            lemma_skip_skip(s, 14, 2);
            lemma_skip_take(s, 16, 4);
            lemma_skip_skip(s, 16, 4);
            lemma_skip_take(s, 20, 4);
            lemma_skip_skip(s, 20, 4);
            lemma_skip_take(s, 24, 8);
            lemma_skip_skip(s, 24, 8);
            lemma_skip_take(s, 32, 8);
            lemma_skip_skip(s, 32, 8);
            lemma_skip_take(s, 40, 8);
            lemma_skip_skip(s, 40, 8);
            lemma_skip_take(s, 48, 8);
            lemma_skip_skip(s, 48, 8);
        }
        assert(buf10@ == s.skip(56));
        let (buf11, extra_data) = match take(buf10, extra_len) {
            Ok(v) => v,
            Err(_) => { return Err(Error::Eof) },
        };
        proof {
            lemma_skip_take(s, 56, extra_len as int);
            lemma_skip_skip(s, 56, extra_len as int);
        }
        let rec = Zip64EocdRecord {
            version_by,
            version_needed,
            disk_nbr,
            cd_start_disk,
            disk_cd_entries,
            cd_entries,
            cd_size,
            cd_offset,
            extra_data,
        };
        assert(rec@ =~= spec_z64_eocd(s));
        Ok((buf11, rec))
    }
}

/// Zip64 end-of-central-directory locator: a fixed 20-byte record that
/// stands immediately before the EOCD record and points at the Zip64
/// EOCD record.
#[derive(Clone, Copy, Debug, PartialEq, Eq, Structural)]
pub struct Zip64EocdLocator {
    pub cd_start_disk: u32,
    pub offset: u64,
    pub num_disks: u32,
}

/// The Zip64 locator signature `PK\x06\x07` stands at the front of `s`.
pub open spec fn z64_loc_magic(s: Seq<u8>) -> bool {
    sig_at(s, 0, 6u8, 7u8)
}

/// A Zip64 locator decodes successfully from the front of `s`.
pub open spec fn z64_loc_ok(s: Seq<u8>) -> bool {
    &&& z64_loc_magic(s)
    &&& s.len() >= 20
}

/// The locator stored at the front of `s`.
pub open spec fn spec_z64_loc(s: Seq<u8>) -> Zip64EocdLocator
    recommends
        z64_loc_ok(s),
{
    Zip64EocdLocator {
        cd_start_disk: u32_at(s, 4),
        offset: u64_at(s, 8),
        num_disks: u32_at(s, 16),
    }
}

/// The error a Zip64 locator decode reports when `!z64_loc_ok(s)`.
pub open spec fn z64_loc_err(s: Seq<u8>) -> Error {
    if s.len() >= 4 && !z64_loc_magic(s) {
        Error::BadZip64Eocdl
    } else {
        Error::Eof
    }
}

/// The 20-byte window immediately before offset `off` of `s`, where the
/// Zip64 locator is expected.
pub open spec fn z64_loc_window(s: Seq<u8>, off: int) -> Seq<u8>
    recommends
        20 <= off <= s.len(),
{
    s.subrange(off - 20, off)
}

impl Zip64EocdLocator {
    /// Decodes a Zip64 locator from the fixed 20-byte window immediately
    /// preceding the EOCD record found at `eocdr_offset`.
    pub fn find(buf: &[u8], eocdr_offset: usize) -> (r: Result<Zip64EocdLocator, Error>)
        requires
            eocdr_offset <= buf@.len(),
        ensures
            r is Ok <==> eocdr_offset >= 20 && z64_loc_ok(
                z64_loc_window(buf@, eocdr_offset as int),
            ),
            r matches Ok(rec) ==> rec == spec_z64_loc(z64_loc_window(buf@, eocdr_offset as int)),
            r matches Err(e) ==> e == (if eocdr_offset < 20 {
                Error::BadZip64Eocdl
            } else {
                z64_loc_err(z64_loc_window(buf@, eocdr_offset as int))
            }),
    {
        if eocdr_offset < 20 {
            return Err(Error::BadZip64Eocdl);
        }
        let window = vstd::slice::slice_subrange(buf, eocdr_offset - 20, eocdr_offset);
        match Self::parse(window) {
            Ok((_, rec)) => Ok(rec),
            Err(e) => Err(e),
        }
    }

    /// Decodes a Zip64 locator from the front of `buf`, returning the
    /// remaining suffix and the record.
    pub fn parse(buf: &[u8]) -> (r: Result<(&[u8], Zip64EocdLocator), Error>)
        ensures
            r is Ok <==> z64_loc_ok(buf@),
            r matches Ok((rest, rec)) ==> {
                &&& rec == spec_z64_loc(buf@)
                &&& rest@ == buf@.skip(20)
            },
            r matches Err(e) ==> e == z64_loc_err(buf@),
    {
        let ghost s = buf@;
        let (buf1, sig) = match take(buf, 4) {
            Ok(v) => v,
            Err(_) => { return Err(Error::Eof) },
        };
        if !(sig[0] == 80 && sig[1] == 75 && sig[2] == 6 && sig[3] == 7) {
            return Err(Error::BadZip64Eocdl);
        }
        assert(z64_loc_magic(s));
        let (buf2, cd_start_disk) = match read_u32(buf1) {
            Ok(v) => v,
            Err(_) => { return Err(Error::Eof) },
        };
        let (buf3, offset) = match read_u64(buf2) {
            Ok(v) => v,
            Err(_) => { return Err(Error::Eof) },
        };
        let (buf4, num_disks) = match read_u32(buf3) {
            Ok(v) => v,
            Err(_) => { return Err(Error::Eof) },
        };
        proof {
            lemma_skip_take(s, 4, 4);
            lemma_skip_skip(s, 4, 4);
            lemma_skip_take(s, 8, 8);
            lemma_skip_skip(s, 8, 8);
            lemma_skip_take(s, 16, 4);
            lemma_skip_skip(s, 16, 4);
        }
        let rec = Zip64EocdLocator { cd_start_disk, offset, num_disks };
        Ok((buf4, rec))
    }
}

/// Central file header: the per-entry metadata record stored in the
/// central directory.
pub struct CentralFileHeader<'a> {
    pub made_by_ver: u16,
    pub extract_ver: u16,
    pub gp_flag: u16,
    pub method: u16,
    pub mod_time: u16,
    pub mod_date: u16,
    pub crc32: u32,
    pub comp_size: u32,
    pub uncomp_size: u32,
    pub disk_nbr_start: u16,
    pub int_attrs: u16,
    pub ext_attrs: u32,
    pub lfh_offset: u32,
    pub name: &'a [u8],
    pub extra: &'a [u8],
    pub comment: &'a [u8],
}

/// Mathematical model of a [`CentralFileHeader`].
#[verifier::ext_equal]
pub ghost struct CfhModel {
    pub made_by_ver: u16,
    pub extract_ver: u16,
    pub gp_flag: u16,
    pub method: u16,
    pub mod_time: u16,
    pub mod_date: u16,
    pub crc32: u32,
    pub comp_size: u32,
    pub uncomp_size: u32,
    pub disk_nbr_start: u16,
    pub int_attrs: u16,
    pub ext_attrs: u32,
    pub lfh_offset: u32,
    pub name: Seq<u8>,
    pub extra: Seq<u8>,
    pub comment: Seq<u8>,
}

impl View for CentralFileHeader<'_> {
    type V = CfhModel;

    open spec fn view(&self) -> CfhModel {
        CfhModel {
            made_by_ver: self.made_by_ver,
            extract_ver: self.extract_ver,
            gp_flag: self.gp_flag,
            method: self.method,
            mod_time: self.mod_time,
            mod_date: self.mod_date,
            crc32: self.crc32,
            comp_size: self.comp_size,
            uncomp_size: self.uncomp_size,
            disk_nbr_start: self.disk_nbr_start,
            int_attrs: self.int_attrs,
            ext_attrs: self.ext_attrs,
            lfh_offset: self.lfh_offset,
            name: self.name@,
            extra: self.extra@,
            comment: self.comment@,
        }
    }
}

/// The central-file-header signature `PK\x01\x02` stands at the front of `s`.
pub open spec fn cfh_magic(s: Seq<u8>) -> bool {
    sig_at(s, 0, 1u8, 2u8)
}

/// Total length of the central file header at the front of `s`: 46 fixed
/// bytes plus the declared name, extra and comment lengths.
pub open spec fn cfh_len(s: Seq<u8>) -> int
    recommends
        s.len() >= 46,
{
    46 + u16_at(s, 28) + u16_at(s, 30) + u16_at(s, 32)
}

/// A central file header decodes successfully from the front of `s`.
pub open spec fn cfh_ok(s: Seq<u8>) -> bool {
    &&& cfh_magic(s)
    &&& s.len() >= 46
    &&& s.len() >= cfh_len(s)
}

/// The model of the central file header at the front of `s`.
pub open spec fn spec_cfh(s: Seq<u8>) -> CfhModel
    recommends
        cfh_ok(s),
{
    let name_end = 46 + u16_at(s, 28);
    let extra_end = name_end + u16_at(s, 30);
    CfhModel {
        made_by_ver: u16_at(s, 4),
        extract_ver: u16_at(s, 6),
        gp_flag: u16_at(s, 8),
        method: u16_at(s, 10),
        mod_time: u16_at(s, 12),
        mod_date: u16_at(s, 14),
        crc32: u32_at(s, 16),
        comp_size: u32_at(s, 20),
        uncomp_size: u32_at(s, 24),
        disk_nbr_start: u16_at(s, 34),
        int_attrs: u16_at(s, 36),
        ext_attrs: u32_at(s, 38),
        lfh_offset: u32_at(s, 42),
        name: s.subrange(46, name_end),
        extra: s.subrange(name_end, extra_end),
        comment: s.subrange(extra_end, cfh_len(s)),
    }
}

/// The error a central-file-header decode reports when `!cfh_ok(s)`.
pub open spec fn cfh_err(s: Seq<u8>) -> Error {
    if s.len() >= 4 && !cfh_magic(s) {
        Error::BadCfh
    } else {
        Error::Eof
    }
}

impl<'a> CentralFileHeader<'a> {
    /// Decodes a central file header from the front of `buf`, returning
    /// the remaining suffix and the record.
    pub fn parse(buf: &'a [u8]) -> (r: Result<(&'a [u8], CentralFileHeader<'a>), Error>)
        ensures
            r is Ok <==> cfh_ok(buf@),
            r matches Ok((rest, rec)) ==> {
                &&& rec@ == spec_cfh(buf@)
                &&& rest@ == buf@.skip(cfh_len(buf@))
            },
            r matches Err(e) ==> e == cfh_err(buf@),
    {
        let ghost s = buf@;
        let (buf1, sig) = match take(buf, 4) {
            Ok(v) => v,
            Err(_) => { return Err(Error::Eof) },
        };
        if !(sig[0] == 80 && sig[1] == 75 && sig[2] == 1 && sig[3] == 2) {
            return Err(Error::BadCfh);
        }
        assert(cfh_magic(s));
        let (buf2, made_by_ver) = match read_u16(buf1) {
            Ok(v) => v,
            Err(_) => { return Err(Error::Eof) },
        };
        let (buf3, extract_ver) = match read_u16(buf2) {
            Ok(v) => v,
            Err(_) => { return Err(Error::Eof) },
        };
        let (buf4, gp_flag) = match read_u16(buf3) {
            Ok(v) => v,
            Err(_) => { return Err(Error::Eof) },
        };
        let (buf5, method) = match read_u16(buf4) {
            Ok(v) => v,
            Err(_) => { return Err(Error::Eof) },
        };
        let (buf6, mod_time) = match read_u16(buf5) {
            Ok(v) => v,
            Err(_) => { return Err(Error::Eof) },
        };
        let (buf7, mod_date) = match read_u16(buf6) {
            Ok(v) => v,
            Err(_) => { return Err(Error::Eof) },
        };
        let (buf8, crc32) = match read_u32(buf7) {
            Ok(v) => v,
            Err(_) => { return Err(Error::Eof) },
        };
        let (buf9, comp_size) = match read_u32(buf8) {
            Ok(v) => v,
            Err(_) => { return Err(Error::Eof) },
        };
        let (buf10, uncomp_size) = match read_u32(buf9) {
            Ok(v) => v,
            Err(_) => { return Err(Error::Eof) },
        };
        let (buf11, name_len) = match read_u16(buf10) {
            Ok(v) => v,
            Err(_) => { return Err(Error::Eof) },
        };
        let (buf12, extra_len) = match read_u16(buf11) {
            Ok(v) => v,
            Err(_) => { return Err(Error::Eof) },
        };
        let (buf13, comment_len) = match read_u16(buf12) {
            Ok(v) => v,
            Err(_) => { return Err(Error::Eof) },
        };
        let (buf14, disk_nbr_start) = match read_u16(buf13) {
            Ok(v) => v,
            Err(_) => { return Err(Error::Eof) },
        };
        let (buf15, int_attrs) = match read_u16(buf14) {
            Ok(v) => v,
            Err(_) => { return Err(Error::Eof) },
        };
        let (buf16, ext_attrs) = match read_u32(buf15) {
            Ok(v) => v,
            Err(_) => { return Err(Error::Eof) },
        };
        let (buf17, lfh_offset) = match read_u32(buf16) {
            Ok(v) => v,
            Err(_) => { return Err(Error::Eof) },
        };
        proof {
            lemma_skip_take(s, 4, 2);
            lemma_skip_skip(s, 4, 2);
            lemma_skip_take(s, 6, 2);
            lemma_skip_skip(s, 6, 2);
            lemma_skip_take(s, 8, 2);
            lemma_skip_skip(s, 8, 2);
            lemma_skip_take(s, 10, 2);
            lemma_skip_skip(s, 10, 2);
            lemma_skip_take(s, 12, 2);
            lemma_skip_skip(s, 12, 2);
            lemma_skip_take(s, 14, 2);
            lemma_skip_skip(s, 14, 2);
            lemma_skip_take(s, 16, 4);
            lemma_skip_skip(s, 16, 4);
            lemma_skip_take(s, 20, 4);
            lemma_skip_skip(s, 20, 4);
            lemma_skip_take(s, 24, 4);
            lemma_skip_skip(s, 24, 4);
            lemma_skip_take(s, 28, 2);
            lemma_skip_skip(s, 28, 2);
            lemma_skip_take(s, 30, 2);
            lemma_skip_skip(s, 30, 2);
            lemma_skip_take(s, 32, 2);
            lemma_skip_skip(s, 32, 2);
            lemma_skip_take(s, 34, 2);
            lemma_skip_skip(s, 34, 2);
            lemma_skip_take(s, 36, 2);
            lemma_skip_skip(s, 36, 2);
            lemma_skip_take(s, 38, 4);
            lemma_skip_skip(s, 38, 4);
            lemma_skip_take(s, 42, 4);
            lemma_skip_skip(s, 42, 4);
        }
        assert(buf17@ == s.skip(46));
        let (buf18, name) = match take(buf17, name_len as usize) {
            Ok(v) => v,
            Err(_) => { return Err(Error::Eof) },
        };
        proof {
            lemma_skip_take(s, 46, name_len as int);
            lemma_skip_skip(s, 46, name_len as int);
        }
        let (buf19, extra) = match take(buf18, extra_len as usize) {
            Ok(v) => v,
            Err(_) => { return Err(Error::Eof) },
        };
        proof {
            lemma_skip_take(s, 46 + name_len as int, extra_len as int);
            lemma_skip_skip(s, 46 + name_len as int, extra_len as int);
        }
        let (buf20, comment) = match take(buf19, comment_len as usize) {
            Ok(v) => v,
            Err(_) => { return Err(Error::Eof) },
        };
        proof {
            lemma_skip_take(s, 46 + name_len as int + extra_len as int, comment_len as int);
            lemma_skip_skip(s, 46 + name_len as int + extra_len as int, comment_len as int);
        }
        let rec = CentralFileHeader {
            made_by_ver,
            extract_ver,
            gp_flag,
            method,
            mod_time,
            mod_date,
            crc32,
            comp_size,
            uncomp_size,
            disk_nbr_start,
            int_attrs,
            ext_attrs,
            lfh_offset,
            name,
            extra,
            comment,
        };
        assert(rec@ =~= spec_cfh(s));
        Ok((buf20, rec))
    }
}

/// Local file header: the per-entry metadata record stored immediately
/// before that entry's compressed data.
pub struct LocalFileHeader<'a> {
    pub extract_ver: u16,
    pub gp_flag: u16,
    pub method: u16,
    pub mod_time: u16,
    pub mod_date: u16,
    pub crc32: u32,
    pub comp_size: u32,
    pub uncomp_size: u32,
    pub name: &'a [u8],
    pub extra: &'a [u8],
}

/// Mathematical model of a [`LocalFileHeader`].
#[verifier::ext_equal]
pub ghost struct LfhModel {
    pub extract_ver: u16,
    pub gp_flag: u16,
    pub method: u16,
    pub mod_time: u16,
    pub mod_date: u16,
    pub crc32: u32,
    pub comp_size: u32,
    pub uncomp_size: u32,
    pub name: Seq<u8>,
    pub extra: Seq<u8>,
}

impl View for LocalFileHeader<'_> {
    type V = LfhModel;

    open spec fn view(&self) -> LfhModel {
        LfhModel {
            extract_ver: self.extract_ver,
            gp_flag: self.gp_flag,
            method: self.method,
            mod_time: self.mod_time,
            mod_date: self.mod_date,
            crc32: self.crc32,
            comp_size: self.comp_size,
            uncomp_size: self.uncomp_size,
            name: self.name@,
            extra: self.extra@,
        }
    }
}

/// The local-file-header signature `PK\x03\x04` stands at the front of `s`.
pub open spec fn lfh_magic(s: Seq<u8>) -> bool {
    sig_at(s, 0, 3u8, 4u8)
}

/// Total length of the local file header at the front of `s`: 30 fixed
/// bytes plus the declared name and extra lengths.
pub open spec fn lfh_len(s: Seq<u8>) -> int
    recommends
        s.len() >= 30,
{
    30 + u16_at(s, 26) + u16_at(s, 28)
}

/// A local file header decodes successfully from the front of `s`.
pub open spec fn lfh_ok(s: Seq<u8>) -> bool {
    &&& lfh_magic(s)
    &&& s.len() >= 30
    &&& s.len() >= lfh_len(s)
}

/// The model of the local file header at the front of `s`.
pub open spec fn spec_lfh(s: Seq<u8>) -> LfhModel
    recommends
        lfh_ok(s),
{
    let name_end = 30 + u16_at(s, 26);
    LfhModel {
        extract_ver: u16_at(s, 4),
        gp_flag: u16_at(s, 6),
        method: u16_at(s, 8),
        mod_time: u16_at(s, 10),
        mod_date: u16_at(s, 12),
        crc32: u32_at(s, 14),
        comp_size: u32_at(s, 18),
        uncomp_size: u32_at(s, 22),
        name: s.subrange(30, name_end),
        extra: s.subrange(name_end, lfh_len(s)),
    }
}

/// The error a local-file-header decode reports when `!lfh_ok(s)`.
pub open spec fn lfh_err(s: Seq<u8>) -> Error {
    if s.len() >= 4 && !lfh_magic(s) {
        Error::BadLfh
    } else {
        Error::Eof
    }
}

impl<'a> LocalFileHeader<'a> {
    /// Decodes a local file header from the front of `buf`, returning the
    /// remaining suffix and the record.
    pub fn parse(buf: &'a [u8]) -> (r: Result<(&'a [u8], LocalFileHeader<'a>), Error>)
        ensures
            r is Ok <==> lfh_ok(buf@),
            r matches Ok((rest, rec)) ==> {
                &&& rec@ == spec_lfh(buf@)
                &&& rest@ == buf@.skip(lfh_len(buf@))
            },
            r matches Err(e) ==> e == lfh_err(buf@),
    {
        let ghost s = buf@;
        let (buf1, sig) = match take(buf, 4) {
            Ok(v) => v,
            Err(_) => { return Err(Error::Eof) },
        };
        if !(sig[0] == 80 && sig[1] == 75 && sig[2] == 3 && sig[3] == 4) {
            return Err(Error::BadLfh);
        }
        assert(lfh_magic(s));
        let (buf2, extract_ver) = match read_u16(buf1) {
            Ok(v) => v,
            Err(_) => { return Err(Error::Eof) },
        };
        let (buf3, gp_flag) = match read_u16(buf2) {
            Ok(v) => v,
            Err(_) => { return Err(Error::Eof) },
        };
        let (buf4, method) = match read_u16(buf3) {
            Ok(v) => v,
            Err(_) => { return Err(Error::Eof) },
        };
        let (buf5, mod_time) = match read_u16(buf4) {
            Ok(v) => v,
            Err(_) => { return Err(Error::Eof) },
        };
        let (buf6, mod_date) = match read_u16(buf5) {
            Ok(v) => v,
            Err(_) => { return Err(Error::Eof) },
        };
        let (buf7, crc32) = match read_u32(buf6) {
            Ok(v) => v,
            Err(_) => { return Err(Error::Eof) },
        };
        let (buf8, comp_size) = match read_u32(buf7) {
            Ok(v) => v,
            Err(_) => { return Err(Error::Eof) },
        };
        let (buf9, uncomp_size) = match read_u32(buf8) {
            Ok(v) => v,
            Err(_) => { return Err(Error::Eof) },
        };
        let (buf10, name_len) = match read_u16(buf9) {
            Ok(v) => v,
            Err(_) => { return Err(Error::Eof) },
        };
        let (buf11, extra_len) = match read_u16(buf10) {
            Ok(v) => v,
            Err(_) => { return Err(Error::Eof) },
        };
        proof {
            lemma_skip_take(s, 4, 2);
            lemma_skip_skip(s, 4, 2);
            lemma_skip_take(s, 6, 2);
            lemma_skip_skip(s, 6, 2);
            lemma_skip_take(s, 8, 2);
            lemma_skip_skip(s, 8, 2);
            lemma_skip_take(s, 10, 2);
            lemma_skip_skip(s, 10, 2);
            lemma_skip_take(s, 12, 2);
            lemma_skip_skip(s, 12, 2);
            lemma_skip_take(s, 14, 4);
            lemma_skip_skip(s, 14, 4);
            lemma_skip_take(s, 18, 4);
            lemma_skip_skip(s, 18, 4);
            lemma_skip_take(s, 22, 4);
            lemma_skip_skip(s, 22, 4);
            lemma_skip_take(s, 26, 2);
            lemma_skip_skip(s, 26, 2);
            lemma_skip_take(s, 28, 2);
            lemma_skip_skip(s, 28, 2);
        }
        assert(buf11@ == s.skip(30));
        let (buf12, name) = match take(buf11, name_len as usize) {
            Ok(v) => v,
            Err(_) => { return Err(Error::Eof) },
        };
        proof {
            lemma_skip_take(s, 30, name_len as int);
            lemma_skip_skip(s, 30, name_len as int);
        }
        let (buf13, extra) = match take(buf12, extra_len as usize) {
            Ok(v) => v,
            Err(_) => { return Err(Error::Eof) },
        };
        proof {
            lemma_skip_take(s, 30 + name_len as int, extra_len as int);
            lemma_skip_skip(s, 30 + name_len as int, extra_len as int);
        }
        let rec = LocalFileHeader {
            extract_ver,
            gp_flag,
            method,
            mod_time,
            mod_date,
            crc32,
            comp_size,
            uncomp_size,
            name,
            extra,
        };
        assert(rec@ =~= spec_lfh(s));
        Ok((buf13, rec))
    }
}

} // verus!


