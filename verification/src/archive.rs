//! Archive types: EOCD-rooted coordinates, lazy central-directory
//! iteration, and zero-copy access to each entry's compressed payload.

use vstd::prelude::*;
use vstd::slice::slice_subrange;
use crate::Error;
use crate::records::{
    EocdRecord, EocdModel, spec_eocd, eocd_ok, eocd_err,
    Zip64EocdRecord, Zip64EocdModel, spec_z64_eocd, z64_eocd_ok, z64_eocd_err,
    Zip64EocdLocator, spec_z64_loc, z64_loc_ok, z64_loc_err, z64_loc_window,
    CentralFileHeader, CfhModel, spec_cfh, cfh_ok, cfh_err, cfh_len,
    LocalFileHeader, spec_lfh, lfh_ok, lfh_err, lfh_len,
};
use crate::locate::{is_last_eocd_sig, eocd_sig_in_window, lemma_last_eocd_sig_unique};

verus! {

/// The archive is laid out on a single disk: disk number zero, central
/// directory starting on disk zero, and the per-disk entry count equal to
/// the total. Anything else is out of scope and rejected.
pub open spec fn single_disk(e: EocdModel) -> bool {
    &&& e.disk_nbr == 0
    &&& e.cd_start_disk == 0
    &&& e.disk_cd_entries == e.cd_entries
}

/// The first `n` records of a central directory at the front of `s` are
/// well formed: `n` consecutive central file headers decode successfully.
pub open spec fn cd_wf(s: Seq<u8>, n: nat) -> bool
    decreases n,
{
    n == 0 || (cfh_ok(s) && cd_wf(s.skip(cfh_len(s)), (n - 1) as nat))
}

/// The models of the first `n` central file headers at the front of `s`.
pub open spec fn cd_records(s: Seq<u8>, n: nat) -> Seq<CfhModel>
    decreases n,
{
    if n == 0 {
        Seq::empty()
    } else {
        seq![spec_cfh(s)] + cd_records(s.skip(cfh_len(s)), (n - 1) as nat)
    }
}

/// Reading an entry succeeds: its stored local-header offset lands in the
/// buffer, a local file header decodes there, and the declared compressed
/// size fits in what follows it.
pub open spec fn read_ok(s: Seq<u8>, c: CfhModel) -> bool {
    &&& c.lfh_offset <= s.len()
    &&& lfh_ok(s.skip(c.lfh_offset as int))
    &&& c.comp_size <= s.skip(c.lfh_offset as int).skip(
        lfh_len(s.skip(c.lfh_offset as int)),
    ).len()
}

/// The compressed payload of the entry described by `c`: exactly
/// `comp_size` bytes immediately after its local file header.
pub open spec fn entry_data(s: Seq<u8>, c: CfhModel) -> Seq<u8>
    recommends
        read_ok(s, c),
{
    let t = s.skip(c.lfh_offset as int);
    t.skip(lfh_len(t)).take(c.comp_size as int)
}

/// The error an entry read reports when `!read_ok(s, c)`.
pub open spec fn read_err(s: Seq<u8>, c: CfhModel) -> Error {
    if c.lfh_offset > s.len() {
        Error::OffsetOverflow
    } else if !lfh_ok(s.skip(c.lfh_offset as int)) {
        lfh_err(s.skip(c.lfh_offset as int))
    } else {
        Error::Eof
    }
}

/// A non-Zip64 archive: the backing buffer together with its decoded
/// EOCD record.
pub struct ZipArchive<'a> {
    buf: &'a [u8],
    eocdr: EocdRecord<'a>,
}

/// Mathematical model of a [`ZipArchive`].
#[verifier::ext_equal]
pub ghost struct ZipArchiveModel {
    pub buf: Seq<u8>,
    pub eocdr: EocdModel,
}

impl View for ZipArchive<'_> {
    type V = ZipArchiveModel;

    closed spec fn view(&self) -> ZipArchiveModel {
        ZipArchiveModel { buf: self.buf@, eocdr: self.eocdr@ }
    }
}

impl<'a> ZipArchive<'a> {
    /// Locates and decodes the EOCD record of `buf` and rejects
    /// multi-disk layouts.
    pub fn parse(buf: &'a [u8]) -> (r: Result<ZipArchive<'a>, Error>)
        ensures
            r is Ok <==> exists|j: int|
                is_last_eocd_sig(buf@, j) && eocd_ok(buf@.skip(j)) && single_disk(
                    spec_eocd(buf@.skip(j)),
                ),
            r matches Ok(a) ==> {
                &&& a@.buf == buf@
                &&& single_disk(a@.eocdr)
                &&& exists|j: int|
                    is_last_eocd_sig(buf@, j) && eocd_ok(buf@.skip(j)) && a@.eocdr == spec_eocd(
                        buf@.skip(j),
                    )
            },
            r matches Err(e) ==> (if !eocd_sig_in_window(buf@) {
                e == Error::BadEocdr
            } else {
                exists|j: int|
                    is_last_eocd_sig(buf@, j) && e == (if !eocd_ok(buf@.skip(j)) {
                        eocd_err(buf@.skip(j))
                    } else {
                        Error::Unsupported
                    })
            }),
    {
        let (offset, eocdr) = match EocdRecord::find(buf) {
            Ok(v) => v,
            Err(e) => {
                proof {
                    if eocd_sig_in_window(buf@) {
                        assert forall|j: int|
                            is_last_eocd_sig(buf@, j) implies e == eocd_err(buf@.skip(j)) by {
                            assert(!(exists|k: int|
                                is_last_eocd_sig(buf@, k) && eocd_ok(buf@.skip(k))));
                        }
                    }
                }
                return Err(e);
            },
        };
        if eocdr.disk_nbr != 0 || eocdr.cd_start_disk != 0 || eocdr.disk_cd_entries
            != eocdr.cd_entries {
            proof {
                assert forall|j: int| is_last_eocd_sig(buf@, j) implies !single_disk(
                    spec_eocd(buf@.skip(j)),
                ) && eocd_ok(buf@.skip(j)) by {
                    lemma_last_eocd_sig_unique(buf@, j, offset as int);
                }
            }
            return Err(Error::Unsupported);
        }
        Ok(ZipArchive { buf, eocdr })
    }

    /// The decoded EOCD record.
    pub fn eocdr(&self) -> (r: &EocdRecord<'a>)
        ensures
            r@ == self@.eocdr,
    {
        &self.eocdr
    }

    /// Starts lazy iteration over the central directory: the remaining
    /// slice begins at the stored central-directory offset and the
    /// iteration count is the EOCD record's entry count.
    pub fn entries(&self) -> (r: Result<ZipEntries<'a>, Error>)
        ensures
            r is Ok <==> self@.eocdr.cd_offset <= self@.buf.len(),
            r matches Ok(en) ==> {
                &&& en@.buf == self@.buf.skip(self@.eocdr.cd_offset as int)
                &&& en@.count == self@.eocdr.cd_entries
            },
            r matches Err(e) ==> e == Error::OffsetOverflow,
    {
        let offset = self.eocdr.cd_offset as usize;
        if offset > self.buf.len() {
            return Err(Error::OffsetOverflow);
        }
        let buf = slice_subrange(self.buf, offset, self.buf.len());
        Ok(ZipEntries { buf, count: self.eocdr.cd_entries })
    }

    /// Follows a central file header's stored offset to its local file
    /// header and returns it with a zero-copy slice of exactly
    /// `comp_size` bytes of compressed payload.
    pub fn read(&self, cfh: &CentralFileHeader) -> (r: Result<
        (LocalFileHeader<'a>, &'a [u8]),
        Error,
    >)
        ensures
            r is Ok <==> read_ok(self@.buf, cfh@),
            r matches Ok((lfh, data)) ==> {
                &&& lfh@ == spec_lfh(self@.buf.skip(cfh@.lfh_offset as int))
                &&& data@ == entry_data(self@.buf, cfh@)
            },
            r matches Err(e) ==> e == read_err(self@.buf, cfh@),
    {
        read_entry(self.buf, cfh)
    }
}

/// Shared entry-reader step for both archive flavours.
fn read_entry<'a>(buf: &'a [u8], cfh: &CentralFileHeader) -> (r: Result<
    (LocalFileHeader<'a>, &'a [u8]),
    Error,
>)
    ensures
        r is Ok <==> read_ok(buf@, cfh@),
        r matches Ok((lfh, data)) ==> {
            &&& lfh@ == spec_lfh(buf@.skip(cfh@.lfh_offset as int))
            &&& data@ == entry_data(buf@, cfh@)
        },
        r matches Err(e) ==> e == read_err(buf@, cfh@),
{
    let offset = cfh.lfh_offset as usize;
    if offset > buf.len() {
        return Err(Error::OffsetOverflow);
    }
    let tail = slice_subrange(buf, offset, buf.len());
    let (input, lfh) = match LocalFileHeader::parse(tail) {
        Ok(v) => v,
        Err(e) => { return Err(e) },
    };
    let size = cfh.comp_size as usize;
    let (_, data) = match crate::util::take(input, size) {
        Ok(v) => v,
        Err(_) => { return Err(Error::Eof) },
    };
    Ok((lfh, data))
}

/// Lazy iterator state over a non-Zip64 central directory.
pub struct ZipEntries<'a> {
    buf: &'a [u8],
    count: u16,
}

/// Mathematical model of a [`ZipEntries`] state.
#[verifier::ext_equal]
pub ghost struct ZipEntriesModel {
    pub buf: Seq<u8>,
    pub count: u16,
}

impl View for ZipEntries<'_> {
    type V = ZipEntriesModel;

    closed spec fn view(&self) -> ZipEntriesModel {
        ZipEntriesModel { buf: self.buf@, count: self.count }
    }
}

impl<'a> ZipEntries<'a> {
    /// Decodes the next central file header, or `None` once the declared
    /// entry count is exhausted. A decode failure is yielded as the
    /// sequence's final item: the count drops to zero, so later calls
    /// yield nothing further.
    pub fn next(&mut self) -> (r: Option<Result<CentralFileHeader<'a>, Error>>)
        ensures
            r is None <==> old(self)@.count == 0,
            old(self)@.count == 0 ==> final(self)@ == old(self)@,
            old(self)@.count > 0 && cfh_ok(old(self)@.buf) ==> {
                &&& r matches Some(Ok(cfh)) && cfh@ == spec_cfh(old(self)@.buf)
                &&& final(self)@.buf == old(self)@.buf.skip(cfh_len(old(self)@.buf))
                &&& final(self)@.count == old(self)@.count - 1
            },
            old(self)@.count > 0 && !cfh_ok(old(self)@.buf) ==> {
                &&& r matches Some(Err(e)) && e == cfh_err(old(self)@.buf)
                &&& final(self)@.buf == old(self)@.buf
                &&& final(self)@.count == 0
            },
    {
        if self.count == 0 {
            return None;
        }
        let new_count = self.count - 1;
        match CentralFileHeader::parse(self.buf) {
            Ok((input, cfh)) => {
                self.buf = input;
                self.count = new_count;
                Some(Ok(cfh))
            },
            Err(err) => {
                self.count = 0;
                Some(Err(err))
            },
        }
    }

    /// Decodes all remaining central file headers. A well-formed
    /// directory of `count` remaining entries yields exactly `count`
    /// records, in on-disk order; the first malformed header aborts with
    /// its error.
    pub fn collect(&mut self) -> (r: Result<Vec<CentralFileHeader<'a>>, Error>)
        ensures
            r is Ok <==> cd_wf(old(self)@.buf, old(self)@.count as nat),
            r matches Ok(v) ==> {
                &&& v@.len() == old(self)@.count
                &&& v@.map_values(|c: CentralFileHeader<'a>| c@) == cd_records(
                    old(self)@.buf,
                    old(self)@.count as nat,
                )
                &&& final(self)@.count == 0
            },
    {
        let ghost s0 = self@.buf;
        let ghost n0 = self@.count;
        let mut out: Vec<CentralFileHeader<'a>> = Vec::new();
        while self.count > 0
            invariant
                s0 == old(self)@.buf,
                n0 == old(self)@.count,
                self@.count <= n0,
                out@.len() == n0 - self@.count,
                cd_wf(s0, n0 as nat) <==> cd_wf(self@.buf, self@.count as nat),
                cd_wf(self@.buf, self@.count as nat) ==> cd_records(s0, n0 as nat) == out@
                    .map_values(|c: CentralFileHeader<'a>| c@) + cd_records(
                    self@.buf,
                    self@.count as nat,
                ),
            decreases self@.count,
        {
            let ghost pre = self@;
            let ghost out_pre = out@;
            match self.next() {
                Some(Ok(c)) => {
                    out.push(c);
                    proof {
                        assert(out@.map_values(|c: CentralFileHeader<'a>| c@) =~= out_pre
                            .map_values(|c: CentralFileHeader<'a>| c@).push(spec_cfh(pre.buf)));
                        if cd_wf(self@.buf, self@.count as nat) {
                            assert(cd_wf(pre.buf, pre.count as nat));
                            assert(cd_records(pre.buf, pre.count as nat) == seq![
                                spec_cfh(pre.buf),
                            ] + cd_records(self@.buf, self@.count as nat));
                            assert(out_pre.map_values(|c: CentralFileHeader<'a>| c@) + cd_records(
                                pre.buf,
                                pre.count as nat,
                            ) =~= out@.map_values(|c: CentralFileHeader<'a>| c@) + cd_records(
                                self@.buf,
                                self@.count as nat,
                            ));
                        }
                    }
                },
                Some(Err(e)) => {
                    proof {
                        assert(!cd_wf(pre.buf, pre.count as nat));
                    }
                    return Err(e);
                },
                None => {
                    proof {
                        assert(false);
                    }
                },
            }
        }
        proof {
            assert(cd_wf(self@.buf, self@.count as nat));
            assert(cd_records(self@.buf, self@.count as nat) =~= Seq::<CfhModel>::empty());
            assert(out@.map_values(|c: CentralFileHeader<'a>| c@) + Seq::<CfhModel>::empty() =~= out@
                .map_values(|c: CentralFileHeader<'a>| c@));
        }
        Ok(out)
    }
}

/// The whole Zip64 discovery chain succeeds for the EOCD record at
/// offset `j`: the EOCD record parses and is single-disk, the fixed
/// 20-byte locator immediately before it parses, the locator's absolute
/// offset lands in the buffer, and a Zip64 EOCD record parses there.
pub open spec fn z64_chain_ok(s: Seq<u8>, j: int) -> bool {
    &&& eocd_ok(s.skip(j))
    &&& single_disk(spec_eocd(s.skip(j)))
    &&& j >= 20
    &&& z64_loc_ok(z64_loc_window(s, j))
    &&& spec_z64_loc(z64_loc_window(s, j)).offset <= s.len()
    &&& z64_eocd_ok(s.skip(spec_z64_loc(z64_loc_window(s, j)).offset as int))
}

/// The error the Zip64 discovery chain reports for the EOCD record at
/// offset `j` when `!z64_chain_ok(s, j)`.
pub open spec fn z64_parse_err(s: Seq<u8>, j: int) -> Error {
    if !eocd_ok(s.skip(j)) {
        eocd_err(s.skip(j))
    } else if !single_disk(spec_eocd(s.skip(j))) {
        Error::Unsupported
    } else if j < 20 {
        Error::BadZip64Eocdl
    } else if !z64_loc_ok(z64_loc_window(s, j)) {
        z64_loc_err(z64_loc_window(s, j))
    } else if spec_z64_loc(z64_loc_window(s, j)).offset > s.len() {
        Error::OffsetOverflow
    } else {
        z64_eocd_err(s.skip(spec_z64_loc(z64_loc_window(s, j)).offset as int))
    }
}

/// A Zip64 archive: the backing buffer together with its decoded EOCD
/// record and the Zip64 EOCD record that supplies the 64-bit
/// central-directory coordinates.
pub struct Zip64Archive<'a> {
    buf: &'a [u8],
    eocdr: EocdRecord<'a>,
    zip64_eocdr: Zip64EocdRecord<'a>,
}

/// Mathematical model of a [`Zip64Archive`].
#[verifier::ext_equal]
pub ghost struct Zip64ArchiveModel {
    pub buf: Seq<u8>,
    pub eocdr: EocdModel,
    pub z64: Zip64EocdModel,
}

impl View for Zip64Archive<'_> {
    type V = Zip64ArchiveModel;

    closed spec fn view(&self) -> Zip64ArchiveModel {
        Zip64ArchiveModel { buf: self.buf@, eocdr: self.eocdr@, z64: self.zip64_eocdr@ }
    }
}

/// The model of the Zip64 archive rooted at the EOCD record at offset `j`.
pub open spec fn spec_z64_archive(s: Seq<u8>, j: int) -> Zip64ArchiveModel
    recommends
        z64_chain_ok(s, j),
{
    Zip64ArchiveModel {
        buf: s,
        eocdr: spec_eocd(s.skip(j)),
        z64: spec_z64_eocd(s.skip(spec_z64_loc(z64_loc_window(s, j)).offset as int)),
    }
}

impl<'a> Zip64Archive<'a> {
    /// Locates the EOCD record of `buf`, rejects multi-disk layouts, and
    /// chains through the Zip64 locator to the Zip64 EOCD record.
    pub fn parse(buf: &'a [u8]) -> (r: Result<Zip64Archive<'a>, Error>)
        ensures
            r is Ok <==> exists|j: int| is_last_eocd_sig(buf@, j) && z64_chain_ok(buf@, j),
            r matches Ok(a) ==> exists|j: int|
                is_last_eocd_sig(buf@, j) && z64_chain_ok(buf@, j) && a@ == spec_z64_archive(
                    buf@,
                    j,
                ),
            r matches Err(e) ==> (if !eocd_sig_in_window(buf@) {
                e == Error::BadEocdr
            } else {
                exists|j: int| is_last_eocd_sig(buf@, j) && e == z64_parse_err(buf@, j)
            }),
    {
        let ghost s = buf@;
        let (eocdr_offset, eocdr) = match EocdRecord::find(buf) {
            Ok(v) => v,
            Err(e) => {
                proof {
                    if eocd_sig_in_window(s) {
                        assert forall|j: int|
                            is_last_eocd_sig(s, j) implies e == z64_parse_err(s, j)
                            && !z64_chain_ok(s, j) by {
                            assert(!(exists|k: int| is_last_eocd_sig(s, k) && eocd_ok(s.skip(k))));
                        }
                    }
                }
                return Err(e);
            },
        };
        let ghost j = eocdr_offset as int;
        proof {
            assert forall|k: int| is_last_eocd_sig(s, k) implies k == j by {
                lemma_last_eocd_sig_unique(s, k, j);
            }
        }
        if eocdr.disk_nbr != 0 || eocdr.cd_start_disk != 0 || eocdr.disk_cd_entries
            != eocdr.cd_entries {
            return Err(Error::Unsupported);
        }
        let zip64_eocdl = match Zip64EocdLocator::find(buf, eocdr_offset) {
            Ok(v) => v,
            Err(e) => { return Err(e) },
        };
        if zip64_eocdl.offset > buf.len() as u64 {
            return Err(Error::OffsetOverflow);
        }
        let zip64_eocdr_offset: usize = zip64_eocdl.offset as usize;
        let tail = slice_subrange(buf, zip64_eocdr_offset, buf.len());
        let zip64_eocdr = match Zip64EocdRecord::parse(tail) {
            Ok((_, rec)) => rec,
            Err(e) => { return Err(e) },
        };
        let a = Zip64Archive { buf, eocdr, zip64_eocdr };
        proof {
            assert(z64_chain_ok(s, j));
            assert(a@ =~= spec_z64_archive(s, j));
        }
        Ok(a)
    }

    /// The decoded EOCD record.
    pub fn eocdr(&self) -> (r: &EocdRecord<'a>)
        ensures
            r@ == self@.eocdr,
    {
        &self.eocdr
    }

    /// Starts lazy iteration over the central directory at the Zip64
    /// EOCD record's 64-bit offset, for its 64-bit entry count.
    pub fn entries(&self) -> (r: Result<Zip64Entries<'a>, Error>)
        ensures
            r is Ok <==> self@.z64.cd_offset <= self@.buf.len(),
            r matches Ok(en) ==> {
                &&& en@.buf == self@.buf.skip(self@.z64.cd_offset as int)
                &&& en@.count == self@.z64.cd_entries
            },
            r matches Err(e) ==> e == Error::OffsetOverflow,
    {
        if self.zip64_eocdr.cd_offset > self.buf.len() as u64 {
            return Err(Error::OffsetOverflow);
        }
        let offset = self.zip64_eocdr.cd_offset as usize;
        let buf = slice_subrange(self.buf, offset, self.buf.len());
        Ok(Zip64Entries { buf, count: self.zip64_eocdr.cd_entries })
    }

    /// Follows a central file header's stored offset to its local file
    /// header and returns it with a zero-copy slice of exactly
    /// `comp_size` bytes of compressed payload.
    pub fn read(&self, cfh: &CentralFileHeader) -> (r: Result<
        (LocalFileHeader<'a>, &'a [u8]),
        Error,
    >)
        ensures
            r is Ok <==> read_ok(self@.buf, cfh@),
            r matches Ok((lfh, data)) ==> {
                &&& lfh@ == spec_lfh(self@.buf.skip(cfh@.lfh_offset as int))
                &&& data@ == entry_data(self@.buf, cfh@)
            },
            r matches Err(e) ==> e == read_err(self@.buf, cfh@),
    {
        read_entry(self.buf, cfh)
    }
}

/// Lazy iterator state over a Zip64 central directory.
pub struct Zip64Entries<'a> {
    buf: &'a [u8],
    count: u64,
}

/// Mathematical model of a [`Zip64Entries`] state.
#[verifier::ext_equal]
pub ghost struct Zip64EntriesModel {
    pub buf: Seq<u8>,
    pub count: u64,
}

impl View for Zip64Entries<'_> {
    type V = Zip64EntriesModel;

    closed spec fn view(&self) -> Zip64EntriesModel {
        Zip64EntriesModel { buf: self.buf@, count: self.count }
    }
}

impl<'a> Zip64Entries<'a> {
    /// Decodes the next central file header, or `None` once the declared
    /// 64-bit entry count is exhausted. A decode failure is yielded as
    /// the sequence's final item: the count drops to zero, so later
    /// calls yield nothing further.
    pub fn next(&mut self) -> (r: Option<Result<CentralFileHeader<'a>, Error>>)
        ensures
            r is None <==> old(self)@.count == 0,
            old(self)@.count == 0 ==> final(self)@ == old(self)@,
            old(self)@.count > 0 && cfh_ok(old(self)@.buf) ==> {
                &&& r matches Some(Ok(cfh)) && cfh@ == spec_cfh(old(self)@.buf)
                &&& final(self)@.buf == old(self)@.buf.skip(cfh_len(old(self)@.buf))
                &&& final(self)@.count == old(self)@.count - 1
            },
            old(self)@.count > 0 && !cfh_ok(old(self)@.buf) ==> {
                &&& r matches Some(Err(e)) && e == cfh_err(old(self)@.buf)
                &&& final(self)@.buf == old(self)@.buf
                &&& final(self)@.count == 0
            },
    {
        if self.count == 0 {
            return None;
        }
        let new_count = self.count - 1;
        match CentralFileHeader::parse(self.buf) {
            Ok((input, cfh)) => {
                self.buf = input;
                self.count = new_count;
                Some(Ok(cfh))
            },
            Err(err) => {
                self.count = 0;
                Some(Err(err))
            },
        }
    }

    /// Decodes all remaining central file headers. A well-formed
    /// directory of `count` remaining entries yields exactly `count`
    /// records, in on-disk order, even when the count exceeds the 16-bit
    /// limit of the plain EOCD record; the first malformed header aborts
    /// with its error.
    pub fn collect(&mut self) -> (r: Result<Vec<CentralFileHeader<'a>>, Error>)
        ensures
            r is Ok <==> cd_wf(old(self)@.buf, old(self)@.count as nat),
            r matches Ok(v) ==> {
                &&& v@.len() == old(self)@.count
                &&& v@.map_values(|c: CentralFileHeader<'a>| c@) == cd_records(
                    old(self)@.buf,
                    old(self)@.count as nat,
                )
                &&& final(self)@.count == 0
            },
    {
        let ghost s0 = self@.buf;
        let ghost n0 = self@.count;
        let mut out: Vec<CentralFileHeader<'a>> = Vec::new();
        while self.count > 0
            invariant
                s0 == old(self)@.buf,
                n0 == old(self)@.count,
                self@.count <= n0,
                out@.len() == n0 - self@.count,
                cd_wf(s0, n0 as nat) <==> cd_wf(self@.buf, self@.count as nat),
                cd_wf(self@.buf, self@.count as nat) ==> cd_records(s0, n0 as nat) == out@
                    .map_values(|c: CentralFileHeader<'a>| c@) + cd_records(
                    self@.buf,
                    self@.count as nat,
                ),
            decreases self@.count,
        {
            let ghost pre = self@;
            let ghost out_pre = out@;
            match self.next() {
                Some(Ok(c)) => {
                    out.push(c);
                    proof {
                        assert(out@.map_values(|c: CentralFileHeader<'a>| c@) =~= out_pre
                            .map_values(|c: CentralFileHeader<'a>| c@).push(spec_cfh(pre.buf)));
                        if cd_wf(self@.buf, self@.count as nat) {
                            assert(cd_wf(pre.buf, pre.count as nat));
                            assert(cd_records(pre.buf, pre.count as nat) == seq![
                                spec_cfh(pre.buf),
                            ] + cd_records(self@.buf, self@.count as nat));
                            assert(out_pre.map_values(|c: CentralFileHeader<'a>| c@) + cd_records(
                                pre.buf,
                                pre.count as nat,
                            ) =~= out@.map_values(|c: CentralFileHeader<'a>| c@) + cd_records(
                                self@.buf,
                                self@.count as nat,
                            ));
                        }
                    }
                },
                Some(Err(e)) => {
                    proof {
                        assert(!cd_wf(pre.buf, pre.count as nat));
                    }
                    return Err(e);
                },
                None => {
                    proof {
                        assert(false);
                    }
                },
            }
        }
        proof {
            assert(cd_wf(self@.buf, self@.count as nat));
            assert(cd_records(self@.buf, self@.count as nat) =~= Seq::<CfhModel>::empty());
            assert(out@.map_values(|c: CentralFileHeader<'a>| c@) + Seq::<CfhModel>::empty() =~= out@
                .map_values(|c: CentralFileHeader<'a>| c@));
        }
        Ok(out)
    }
}

} // verus!


