//! Tests for the byte cursor, the record decoders, the archive locator
//! and the entry iterators.

use zip_parser::{
    take, read_u16, read_u32, read_u64, CentralFileHeader, EocdRecord, LocalFileHeader,
    Zip64EocdLocator, Zip64EocdRecord, ZipArchive, Error,
};

fn le16(out: &mut Vec<u8>, v: u16) {
    out.extend_from_slice(&v.to_le_bytes());
}

fn le32(out: &mut Vec<u8>, v: u32) {
    out.extend_from_slice(&v.to_le_bytes());
}

fn le64(out: &mut Vec<u8>, v: u64) {
    out.extend_from_slice(&v.to_le_bytes());
}

fn build_eocd(
    disk_nbr: u16,
    cd_start_disk: u16,
    disk_cd_entries: u16,
    cd_entries: u16,
    cd_size: u32,
    cd_offset: u32,
    comment: &[u8],
) -> Vec<u8> {
    let mut out = vec![b'P', b'K', 5, 6];
    le16(&mut out, disk_nbr);
    le16(&mut out, cd_start_disk);
    le16(&mut out, disk_cd_entries);
    le16(&mut out, cd_entries);
    le32(&mut out, cd_size);
    le32(&mut out, cd_offset);
    le16(&mut out, comment.len() as u16);
    out.extend_from_slice(comment);
    out
}

fn build_cfh(
    method: u16,
    crc32: u32,
    comp_size: u32,
    uncomp_size: u32,
    lfh_offset: u32,
    name: &[u8],
) -> Vec<u8> {
    let mut out = vec![b'P', b'K', 1, 2];
    le16(&mut out, 20); // made by
    le16(&mut out, 20); // extract
    le16(&mut out, 0); // gp flag
    le16(&mut out, method);
    le16(&mut out, 0); // time
    le16(&mut out, 0); // date
    le32(&mut out, crc32);
    le32(&mut out, comp_size);
    le32(&mut out, uncomp_size);
    le16(&mut out, name.len() as u16);
    le16(&mut out, 0); // extra len
    le16(&mut out, 0); // comment len
    le16(&mut out, 0); // disk nbr start
    le16(&mut out, 0); // int attrs
    le32(&mut out, 0); // ext attrs
    le32(&mut out, lfh_offset);
    out.extend_from_slice(name);
    out
}

fn build_lfh(
    method: u16,
    crc32: u32,
    comp_size: u32,
    uncomp_size: u32,
    name: &[u8],
) -> Vec<u8> {
    let mut out = vec![b'P', b'K', 3, 4];
    le16(&mut out, 20); // extract
    le16(&mut out, 0); // gp flag
    le16(&mut out, method);
    le16(&mut out, 0); // time
    le16(&mut out, 0); // date
    le32(&mut out, crc32);
    le32(&mut out, comp_size);
    le32(&mut out, uncomp_size);
    le16(&mut out, name.len() as u16);
    le16(&mut out, 0); // extra len
    out.extend_from_slice(name);
    out
}

/// A single-disk, non-Zip64 archive with stored (identity) entries.
fn build_store_archive(files: &[(&[u8], &[u8])]) -> Vec<u8> {
    let mut buf = Vec::new();
    let mut offsets = Vec::new();
    for (name, data) in files {
        offsets.push(buf.len() as u32);
        let crc = zip_parser::decode::crc32(data);
        buf.extend_from_slice(&build_lfh(0, crc, data.len() as u32, data.len() as u32, name));
        buf.extend_from_slice(data);
    }
    let cd_offset = buf.len() as u32;
    for (i, (name, data)) in files.iter().enumerate() {
        let crc = zip_parser::decode::crc32(data);
        buf.extend_from_slice(&build_cfh(
            0,
            crc,
            data.len() as u32,
            data.len() as u32,
            offsets[i],
            name,
        ));
    }
    let cd_size = buf.len() as u32 - cd_offset;
    let n = files.len() as u16;
    buf.extend_from_slice(&build_eocd(0, 0, n, n, cd_size, cd_offset, b""));
    buf
}

#[test]
fn take_splits_prefix_and_suffix() {
    let data = [1u8, 2, 3, 4, 5];
    let (suffix, prefix) = take(&data, 2).ok().unwrap();
    assert_eq!(prefix, &[1, 2]);
    assert_eq!(suffix, &[3, 4, 5]);
    let (suffix, prefix) = take(&data, 5).ok().unwrap();
    assert_eq!(prefix, &[1, 2, 3, 4, 5]);
    assert_eq!(suffix, &[] as &[u8]);
    assert!(take(&data, 6).is_err());
}

#[test]
fn read_fixed_width_little_endian() {
    let data = [0x34u8, 0x12, 0xff];
    let (rest, v) = read_u16(&data).ok().unwrap();
    assert_eq!(v, 0x1234);
    assert_eq!(rest, &[0xff]);

    let data = [0x78u8, 0x56, 0x34, 0x12, 0xaa];
    let (rest, v) = read_u32(&data).ok().unwrap();
    assert_eq!(v, 0x12345678);
    assert_eq!(rest, &[0xaa]);

    let data = [0xefu8, 0xcd, 0xab, 0x89, 0x67, 0x45, 0x23, 0x01, 0x00];
    let (rest, v) = read_u64(&data).ok().unwrap();
    assert_eq!(v, 0x0123456789abcdef);
    assert_eq!(rest, &[0x00]);

    assert!(read_u16(&[1u8]).is_err());
    assert!(read_u32(&[1u8, 2, 3]).is_err());
    assert!(read_u64(&[1u8, 2, 3, 4, 5, 6, 7]).is_err());
}

#[test]
fn eocd_parse_decodes_fields() {
    let bytes = build_eocd(0, 0, 3, 3, 100, 200, b"hi");
    let (rest, rec) = EocdRecord::parse(&bytes).ok().unwrap();
    assert_eq!(rec.disk_nbr, 0);
    assert_eq!(rec.cd_start_disk, 0);
    assert_eq!(rec.disk_cd_entries, 3);
    assert_eq!(rec.cd_entries, 3);
    assert_eq!(rec.cd_size, 100);
    assert_eq!(rec.cd_offset, 200);
    assert_eq!(rec.comment, b"hi");
    assert!(rest.is_empty());
}

#[test]
fn eocd_parse_rejects_bad_magic() {
    let mut bytes = build_eocd(0, 0, 1, 1, 0, 0, b"");
    bytes[3] = 7;
    assert!(matches!(EocdRecord::parse(&bytes), Err(Error::BadEocdr)));
}

#[test]
fn eocd_parse_rejects_truncation() {
    let bytes = build_eocd(0, 0, 1, 1, 0, 0, b"comment");
    assert!(matches!(EocdRecord::parse(&bytes[..10]), Err(Error::Eof)));
    assert!(matches!(EocdRecord::parse(&bytes[..25]), Err(Error::Eof)));
    assert!(matches!(EocdRecord::parse(&bytes[..2]), Err(Error::Eof)));
}

fn build_zip64_eocd(
    disk_nbr: u32,
    cd_start_disk: u32,
    disk_cd_entries: u64,
    cd_entries: u64,
    cd_size: u64,
    cd_offset: u64,
    extra: &[u8],
) -> Vec<u8> {
    let mut out = vec![b'P', b'K', 6, 6];
    le64(&mut out, 44 + extra.len() as u64);
    le16(&mut out, 45);
    le16(&mut out, 45);
    le32(&mut out, disk_nbr);
    le32(&mut out, cd_start_disk);
    le64(&mut out, disk_cd_entries);
    le64(&mut out, cd_entries);
    le64(&mut out, cd_size);
    le64(&mut out, cd_offset);
    out.extend_from_slice(extra);
    out
}

fn build_zip64_locator(offset: u64) -> Vec<u8> {
    let mut out = vec![b'P', b'K', 6, 7];
    le32(&mut out, 0);
    le64(&mut out, offset);
    le32(&mut out, 1);
    out
}

#[test]
fn zip64_eocd_parse_decodes_fields() {
    let bytes = build_zip64_eocd(0, 0, 9, 9, 414, 1000, b"xx");
    let (rest, rec) = Zip64EocdRecord::parse(&bytes).ok().unwrap();
    assert_eq!(rec.version_by, 45);
    assert_eq!(rec.version_needed, 45);
    assert_eq!(rec.disk_nbr, 0);
    assert_eq!(rec.cd_start_disk, 0);
    assert_eq!(rec.disk_cd_entries, 9);
    assert_eq!(rec.cd_entries, 9);
    assert_eq!(rec.cd_size, 414);
    assert_eq!(rec.cd_offset, 1000);
    assert_eq!(rec.extra_data, b"xx");
    assert!(rest.is_empty());
}

#[test]
fn zip64_eocd_parse_rejects_small_size() {
    let mut bytes = build_zip64_eocd(0, 0, 1, 1, 0, 0, b"");
    // Declared size smaller than the 44 fixed bytes it must cover.
    bytes[4..12].copy_from_slice(&43u64.to_le_bytes());
    assert!(matches!(Zip64EocdRecord::parse(&bytes), Err(Error::BadEocdr)));
}

#[test]
fn zip64_locator_parse_decodes_fields() {
    let bytes = build_zip64_locator(0x1122334455);
    let (rest, rec) = Zip64EocdLocator::parse(&bytes).ok().unwrap();
    assert_eq!(rec.cd_start_disk, 0);
    assert_eq!(rec.offset, 0x1122334455);
    assert_eq!(rec.num_disks, 1);
    assert!(rest.is_empty());
}

#[test]
fn zip64_locator_find_reads_window_before_eocd() {
    let mut buf = vec![0u8; 7];
    buf.extend_from_slice(&build_zip64_locator(7));
    let eocdr_offset = buf.len();
    buf.extend_from_slice(&build_eocd(0, 0, 1, 1, 0, 0, b""));
    let rec = Zip64EocdLocator::find(&buf, eocdr_offset).ok().unwrap();
    assert_eq!(rec.offset, 7);
    // Too close to the front for a 20-byte locator to fit before it.
    assert!(matches!(
        Zip64EocdLocator::find(&buf, 10),
        Err(Error::BadZip64Eocdl)
    ));
}

#[test]
fn cfh_parse_decodes_fields() {
    let bytes = build_cfh(8, 0xdeadbeef, 10, 20, 30, b"a.txt");
    let (rest, rec) = CentralFileHeader::parse(&bytes).ok().unwrap();
    assert_eq!(rec.method, 8);
    assert_eq!(rec.crc32, 0xdeadbeef);
    assert_eq!(rec.comp_size, 10);
    assert_eq!(rec.uncomp_size, 20);
    assert_eq!(rec.lfh_offset, 30);
    assert_eq!(rec.name, b"a.txt");
    assert_eq!(rec.extra, b"");
    assert_eq!(rec.comment, b"");
    assert!(rest.is_empty());
}

#[test]
fn cfh_parse_rejects_bad_magic() {
    let mut bytes = build_cfh(0, 0, 0, 0, 0, b"x");
    bytes[2] = 9;
    assert!(matches!(CentralFileHeader::parse(&bytes), Err(Error::BadCfh)));
}

#[test]
fn lfh_parse_decodes_fields() {
    let bytes = build_lfh(93, 0xcafebabe, 5, 6, b"b.bin");
    let (rest, rec) = LocalFileHeader::parse(&bytes).ok().unwrap();
    assert_eq!(rec.method, 93);
    assert_eq!(rec.crc32, 0xcafebabe);
    assert_eq!(rec.comp_size, 5);
    assert_eq!(rec.uncomp_size, 6);
    assert_eq!(rec.name, b"b.bin");
    assert_eq!(rec.extra, b"");
    assert!(rest.is_empty());
}

#[test]
fn lfh_parse_rejects_bad_magic() {
    let mut bytes = build_lfh(0, 0, 0, 0, b"x");
    bytes[3] = 9;
    assert!(matches!(LocalFileHeader::parse(&bytes), Err(Error::BadLfh)));
}

#[test]
fn find_sig_offset_takes_last_match() {
    let mut buf = vec![0u8; 50];
    buf[10..14].copy_from_slice(&[b'P', b'K', 5, 6]);
    buf[30..34].copy_from_slice(&[b'P', b'K', 5, 6]);
    assert_eq!(EocdRecord::find_sig_offset(&buf).ok().unwrap(), 30);
}

#[test]
fn find_sig_offset_window_boundary() {
    // The scan window is the last 128 KiB: max(0, len - 131072).
    let len = 200_000;
    let mut buf = vec![0u8; len];
    let start = len - 131072;
    buf[start..start + 4].copy_from_slice(&[b'P', b'K', 5, 6]);
    assert_eq!(EocdRecord::find_sig_offset(&buf).ok().unwrap(), start);

    // One byte before the window start: out of reach, a deterministic error.
    let mut buf = vec![0u8; len];
    buf[start - 1..start + 3].copy_from_slice(&[b'P', b'K', 5, 6]);
    assert!(matches!(EocdRecord::find_sig_offset(&buf), Err(Error::BadEocdr)));
}

#[test]
fn find_sig_offset_empty_and_missing() {
    assert!(matches!(EocdRecord::find_sig_offset(&[]), Err(Error::BadEocdr)));
    let buf = vec![0u8; 1000];
    assert!(matches!(EocdRecord::find_sig_offset(&buf), Err(Error::BadEocdr)));
}

#[test]
fn archive_with_max_comment_located() {
    // The largest declarable trailing comment (65535 bytes of arbitrary
    // content) still leaves the EOCD record inside the scan window.
    let comment = vec![0xabu8; 65535];
    let mut buf = build_store_archive(&[(b"a", b"data")]);
    // Rebuild the EOCD with the big comment appended.
    buf.truncate(buf.len() - 22);
    let cd_offset = build_lfh(0, 0, 4, 4, b"a").len() as u32 + 4;
    let cd_size = build_cfh(0, 0, 4, 4, 0, b"a").len() as u32;
    buf.extend_from_slice(&build_eocd(0, 0, 1, 1, cd_size, cd_offset, &comment));
    let zip = ZipArchive::parse(&buf).ok().unwrap();
    assert_eq!(zip.eocdr().cd_entries, 1);
    assert_eq!(zip.eocdr().comment.len(), 65535);
}

#[test]
fn archive_iterates_exactly_n_entries() {
    let files: [(&[u8], &[u8]); 3] = [
        (b"one", b"first file"),
        (b"two", b"second file"),
        (b"three", b"third file"),
    ];
    let buf = build_store_archive(&files);
    let zip = ZipArchive::parse(&buf).ok().unwrap();
    assert_eq!(zip.eocdr().cd_entries, 3);
    let mut entries = zip.entries().ok().unwrap();
    for i in 0..3 {
        let cfh = entries.next().unwrap().ok().unwrap();
        assert_eq!(cfh.name, files[i].0);
    }
    assert!(entries.next().is_none());
    assert!(entries.next().is_none());
}

#[test]
fn archive_collect_yields_all() {
    let files: [(&[u8], &[u8]); 2] = [(b"x", b"xx"), (b"y", b"yyy")];
    let buf = build_store_archive(&files);
    let zip = ZipArchive::parse(&buf).ok().unwrap();
    let all = zip.entries().ok().unwrap().collect().ok().unwrap();
    assert_eq!(all.len(), 2);
    assert_eq!(all[0].name, b"x");
    assert_eq!(all[1].name, b"y");
}

#[test]
fn iterator_yields_error_on_corrupt_header() {
    let files: [(&[u8], &[u8]); 2] = [(b"x", b"xx"), (b"y", b"yyy")];
    let mut buf = build_store_archive(&files);
    // Corrupt the second central file header's magic.
    let cd_offset = {
        let zip = ZipArchive::parse(&buf).ok().unwrap();
        zip.eocdr().cd_offset as usize
    };
    let second = cd_offset + build_cfh(0, 0, 2, 2, 0, b"x").len();
    buf[second] = 0;
    let zip = ZipArchive::parse(&buf).ok().unwrap();
    let mut entries = zip.entries().ok().unwrap();
    assert!(entries.next().unwrap().is_ok());
    assert!(matches!(entries.next(), Some(Err(Error::BadCfh))));
    // The failure is the sequence's final item: nothing further follows.
    assert!(entries.next().is_none());
    assert!(entries.next().is_none());
    let zip = ZipArchive::parse(&buf).ok().unwrap();
    assert!(matches!(
        zip.entries().ok().unwrap().collect(),
        Err(Error::BadCfh)
    ));
}

#[test]
fn multi_disk_archives_rejected() {
    let mut buf = vec![0u8; 10];
    buf.extend_from_slice(&build_eocd(1, 0, 1, 1, 0, 0, b""));
    assert!(matches!(ZipArchive::parse(&buf), Err(Error::Unsupported)));

    let mut buf = vec![0u8; 10];
    buf.extend_from_slice(&build_eocd(0, 2, 1, 1, 0, 0, b""));
    assert!(matches!(ZipArchive::parse(&buf), Err(Error::Unsupported)));

    let mut buf = vec![0u8; 10];
    buf.extend_from_slice(&build_eocd(0, 0, 1, 2, 0, 0, b""));
    assert!(matches!(ZipArchive::parse(&buf), Err(Error::Unsupported)));
}

#[test]
fn entries_rejects_cd_offset_past_buffer() {
    let mut buf = vec![0u8; 10];
    buf.extend_from_slice(&build_eocd(0, 0, 1, 1, 10, 0xFFFF_FF00, b""));
    let zip = ZipArchive::parse(&buf).ok().unwrap();
    assert!(matches!(zip.entries(), Err(Error::OffsetOverflow)));
}

#[test]
fn read_rejects_lfh_offset_past_buffer() {
    let buf = build_store_archive(&[(b"a", b"data")]);
    let zip = ZipArchive::parse(&buf).ok().unwrap();
    let mut entries = zip.entries().ok().unwrap();
    let mut cfh = entries.next().unwrap().ok().unwrap();
    cfh.lfh_offset = 0xFFFF_FFFF;
    assert!(matches!(zip.read(&cfh), Err(Error::OffsetOverflow)));
}

#[test]
fn read_returns_exact_payload() {
    let files: [(&[u8], &[u8]); 2] = [(b"one", b"first file"), (b"two", b"second file")];
    let buf = build_store_archive(&files);
    let zip = ZipArchive::parse(&buf).ok().unwrap();
    let all = zip.entries().ok().unwrap().collect().ok().unwrap();
    for (i, cfh) in all.iter().enumerate() {
        let (lfh, data) = zip.read(cfh).ok().unwrap();
        assert_eq!(lfh.name, files[i].0);
        assert_eq!(data, files[i].1);
    }
}

#[test]
fn read_rejects_truncated_payload() {
    let files: [(&[u8], &[u8]); 1] = [(b"a", b"data")];
    let buf = build_store_archive(&files);
    let zip = ZipArchive::parse(&buf).ok().unwrap();
    let mut cfh = zip.entries().ok().unwrap().next().unwrap().ok().unwrap();
    // Claim far more payload than the buffer holds after the local header.
    cfh.comp_size = 1_000_000;
    assert!(matches!(zip.read(&cfh), Err(Error::Eof)));
}

#[test]
fn stray_magic_in_entry_data_ignored() {
    // Payload bytes that happen to contain the EOCD magic earlier in the
    // window: the scan selects the last match, the true record.
    let payload: &[u8] = &[b'P', b'K', 5, 6, b'P', b'K', 5, 6, 1, 2, 3];
    let files: [(&[u8], &[u8]); 1] = [(b"decoy", payload)];
    let buf = build_store_archive(&files);
    let zip = ZipArchive::parse(&buf).ok().unwrap();
    assert_eq!(zip.eocdr().cd_entries, 1);
    let cfh = zip.entries().ok().unwrap().next().unwrap().ok().unwrap();
    let (_, data) = zip.read(&cfh).ok().unwrap();
    assert_eq!(data, payload);
}

#[test]
fn eof_converts_to_error() {
    let e: Error = Error::from(zip_parser::Eof);
    assert_eq!(e, Error::Eof);
}
