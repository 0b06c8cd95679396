//! Tests for the Zip64 discovery chain and the decode pipeline: CRC-32,
//! method dispatch, the size cap and integrity checking.

use std::io::Write;
use zip_parser::{Error, Zip64Archive, compress};
use zip_parser::decode::{crc32, decode_entry};

fn le16(out: &mut Vec<u8>, v: u16) {
    out.extend_from_slice(&v.to_le_bytes());
}

fn le32(out: &mut Vec<u8>, v: u32) {
    out.extend_from_slice(&v.to_le_bytes());
}

fn le64(out: &mut Vec<u8>, v: u64) {
    out.extend_from_slice(&v.to_le_bytes());
}

fn build_cfh(method: u16, crc: u32, comp_size: u32, uncomp_size: u32, lfh_offset: u32, name: &[u8]) -> Vec<u8> {
    let mut out = vec![b'P', b'K', 1, 2];
    le16(&mut out, 45);
    le16(&mut out, 45);
    le16(&mut out, 0);
    le16(&mut out, method);
    le16(&mut out, 0);
    le16(&mut out, 0);
    le32(&mut out, crc);
    le32(&mut out, comp_size);
    le32(&mut out, uncomp_size);
    le16(&mut out, name.len() as u16);
    le16(&mut out, 0);
    le16(&mut out, 0);
    le16(&mut out, 0);
    le16(&mut out, 0);
    le32(&mut out, 0);
    le32(&mut out, lfh_offset);
    out.extend_from_slice(name);
    out
}

fn build_lfh(method: u16, crc: u32, comp_size: u32, uncomp_size: u32, name: &[u8]) -> Vec<u8> {
    let mut out = vec![b'P', b'K', 3, 4];
    le16(&mut out, 45);
    le16(&mut out, 0);
    le16(&mut out, method);
    le16(&mut out, 0);
    le16(&mut out, 0);
    le32(&mut out, crc);
    le32(&mut out, comp_size);
    le32(&mut out, uncomp_size);
    le16(&mut out, name.len() as u16);
    le16(&mut out, 0);
    out.extend_from_slice(name);
    out
}

/// A Zip64 archive: local headers and payloads, the central directory,
/// the Zip64 EOCD record, its locator, and the plain EOCD record.
fn build_zip64_archive(files: &[(&[u8], &[u8])]) -> Vec<u8> {
    let mut buf = Vec::new();
    let mut offsets = Vec::new();
    for (name, data) in files {
        offsets.push(buf.len() as u32);
        let crc = crc32(data);
        buf.extend_from_slice(&build_lfh(0, crc, data.len() as u32, data.len() as u32, name));
        buf.extend_from_slice(data);
    }
    let cd_offset = buf.len() as u64;
    for (i, (name, data)) in files.iter().enumerate() {
        let crc = crc32(data);
        buf.extend_from_slice(&build_cfh(0, crc, data.len() as u32, data.len() as u32, offsets[i], name));
    }
    let cd_size = buf.len() as u64 - cd_offset;
    let z64_offset = buf.len() as u64;
    let n = files.len() as u64;
    // Zip64 EOCD record.
    buf.extend_from_slice(&[b'P', b'K', 6, 6]);
    le64(&mut buf, 44);
    le16(&mut buf, 45);
    le16(&mut buf, 45);
    le32(&mut buf, 0);
    le32(&mut buf, 0);
    le64(&mut buf, n);
    le64(&mut buf, n);
    le64(&mut buf, cd_size);
    le64(&mut buf, cd_offset);
    // Zip64 EOCD locator.
    buf.extend_from_slice(&[b'P', b'K', 6, 7]);
    le32(&mut buf, 0);
    le64(&mut buf, z64_offset);
    le32(&mut buf, 1);
    // Plain EOCD record with sentinel-ish 16/32-bit fields.
    let n16 = if files.len() > 0xFFFF { 0xFFFF } else { files.len() as u16 };
    buf.extend_from_slice(&[b'P', b'K', 5, 6]);
    le16(&mut buf, 0);
    le16(&mut buf, 0);
    le16(&mut buf, n16);
    le16(&mut buf, n16);
    le32(&mut buf, cd_size as u32);
    le32(&mut buf, 0xFFFF_FFFF);
    le16(&mut buf, 0);
    buf
}

#[test]
fn zip64_archive_parses_and_reads() {
    let files: [(&[u8], &[u8]); 2] = [(b"first", b"some data"), (b"second", b"more data")];
    let buf = build_zip64_archive(&files);
    let zip = Zip64Archive::parse(&buf).ok().unwrap();
    assert_eq!(zip.eocdr().disk_nbr, 0);
    let all = zip.entries().ok().unwrap().collect().ok().unwrap();
    assert_eq!(all.len(), 2);
    for (i, cfh) in all.iter().enumerate() {
        assert_eq!(cfh.name, files[i].0);
        let (lfh, data) = zip.read(cfh).ok().unwrap();
        assert_eq!(lfh.name, files[i].0);
        assert_eq!(data, files[i].1);
    }
}

#[test]
fn zip64_count_exceeds_16bit_limit() {
    // More entries than the plain EOCD record's 16-bit count can hold:
    // the Zip64 EOCD record's 64-bit count governs the iteration.
    let n: usize = 0x10001;
    let mut buf = Vec::new();
    let cd_offset = 0u64;
    for _ in 0..n {
        buf.extend_from_slice(&build_cfh(0, 0, 0, 0, 0, b"e"));
    }
    let cd_size = buf.len() as u64;
    let z64_offset = buf.len() as u64;
    buf.extend_from_slice(&[b'P', b'K', 6, 6]);
    le64(&mut buf, 44);
    le16(&mut buf, 45);
    le16(&mut buf, 45);
    le32(&mut buf, 0);
    le32(&mut buf, 0);
    le64(&mut buf, n as u64);
    le64(&mut buf, n as u64);
    le64(&mut buf, cd_size);
    le64(&mut buf, cd_offset);
    buf.extend_from_slice(&[b'P', b'K', 6, 7]);
    le32(&mut buf, 0);
    le64(&mut buf, z64_offset);
    le32(&mut buf, 1);
    buf.extend_from_slice(&[b'P', b'K', 5, 6]);
    le16(&mut buf, 0);
    le16(&mut buf, 0);
    le16(&mut buf, 0xFFFF);
    le16(&mut buf, 0xFFFF);
    le32(&mut buf, cd_size as u32);
    le32(&mut buf, 0);
    le16(&mut buf, 0);
    let zip = Zip64Archive::parse(&buf).ok().unwrap();
    let mut entries = zip.entries().ok().unwrap();
    let mut yielded: usize = 0;
    while let Some(item) = entries.next() {
        assert!(item.is_ok());
        yielded += 1;
    }
    assert_eq!(yielded, n);
}

#[test]
fn zip64_rejects_locator_offset_past_buffer() {
    let files: [(&[u8], &[u8]); 1] = [(b"a", b"data")];
    let mut buf = build_zip64_archive(&files);
    // Point the locator's 64-bit offset far past the end of the buffer.
    let loc_offset_pos = buf.len() - 22 - 20 + 8;
    buf[loc_offset_pos..loc_offset_pos + 8].copy_from_slice(&u64::MAX.to_le_bytes());
    assert!(matches!(Zip64Archive::parse(&buf), Err(Error::OffsetOverflow)));
}

#[test]
fn crc32_known_vectors() {
    assert_eq!(crc32(b""), 0);
    assert_eq!(crc32(b"123456789"), 0xCBF43926);
    assert_eq!(crc32(b"hello"), 0x3610A686);
}

#[test]
fn decode_store_roundtrip() {
    let data = b"the quick brown fox jumps over the lazy dog";
    let out = decode_entry(data, compress::STORE, data.len() as u32, crc32(data))
        .ok()
        .unwrap();
    assert_eq!(out, data);
}

#[test]
fn decode_store_detects_corruption() {
    let data = b"the quick brown fox jumps over the lazy dog";
    let crc = crc32(data);
    let mut corrupted = data.to_vec();
    corrupted[5] ^= 0x01;
    assert!(matches!(
        decode_entry(&corrupted, compress::STORE, data.len() as u32, crc),
        Err(Error::IntegrityFailure)
    ));
}

fn deflate_compress(data: &[u8]) -> Vec<u8> {
    let mut enc = flate2::write::DeflateEncoder::new(Vec::new(), flate2::Compression::default());
    enc.write_all(data).unwrap();
    enc.finish().unwrap()
}

#[test]
fn decode_deflate_roundtrip() {
    let data: Vec<u8> = (0..1000u32).map(|i| (i % 251) as u8).collect();
    let compressed = deflate_compress(&data);
    let out = decode_entry(&compressed, compress::DEFLATE, data.len() as u32, crc32(&data))
        .ok()
        .unwrap();
    assert_eq!(out, data);
}

#[test]
fn decode_deflate_detects_corruption() {
    let data: Vec<u8> = (0..1000u32).map(|i| (i % 251) as u8).collect();
    let crc = crc32(&data);
    let compressed = deflate_compress(&data);
    // Flip one bit of the compressed payload, sizes and CRC unchanged:
    // the pipeline must fail, never silently return wrong bytes.
    for pos in [0, compressed.len() / 2, compressed.len() - 1] {
        let mut corrupted = compressed.clone();
        corrupted[pos] ^= 0x10;
        let r = decode_entry(&corrupted, compress::DEFLATE, data.len() as u32, crc);
        match r {
            Ok(out) => assert_eq!(out, data),
            Err(e) => assert!(matches!(e, Error::BadData | Error::IntegrityFailure)),
        }
    }
}

#[test]
fn decode_zstd_roundtrip() {
    let data: Vec<u8> = (0..1000u32).map(|i| (i % 13) as u8).collect();
    let compressed = zstd::stream::encode_all(&data[..], 3).unwrap();
    let out = decode_entry(&compressed, compress::ZSTD, data.len() as u32, crc32(&data))
        .ok()
        .unwrap();
    assert_eq!(out, data);
}

#[test]
fn decode_caps_zip_bomb_deflate() {
    // A stream whose true decompressed size far exceeds the declared
    // uncompressed size: output stops exactly at the declared size.
    let huge = vec![0u8; 4_000_000];
    let compressed = deflate_compress(&huge);
    let declared: u32 = 100;
    let expected = crc32(&huge[..declared as usize]);
    let out = decode_entry(&compressed, compress::DEFLATE, declared, expected)
        .ok()
        .unwrap();
    assert_eq!(out.len(), declared as usize);
    assert_eq!(out, &huge[..declared as usize]);

    // With a checksum for the full stream the capped read cannot match.
    let r = decode_entry(&compressed, compress::DEFLATE, declared, crc32(&huge));
    assert!(matches!(r, Err(Error::IntegrityFailure)));
}

#[test]
fn decode_caps_zip_bomb_zstd() {
    let huge = vec![7u8; 4_000_000];
    let compressed = zstd::stream::encode_all(&huge[..], 3).unwrap();
    let declared: u32 = 64;
    let expected = crc32(&huge[..declared as usize]);
    let out = decode_entry(&compressed, compress::ZSTD, declared, expected)
        .ok()
        .unwrap();
    assert_eq!(out.len(), declared as usize);
}

#[test]
fn decode_rejects_unknown_method() {
    let data = b"abc";
    assert!(matches!(
        decode_entry(data, 99, 3, crc32(data)),
        Err(Error::UnsupportedMethod)
    ));
}

#[test]
fn decode_rejects_malformed_deflate() {
    // Not a valid DEFLATE stream at all.
    let garbage = [0xffu8; 64];
    let r = decode_entry(&garbage, compress::DEFLATE, 1000, 0);
    assert!(matches!(r, Err(Error::BadData) | Err(Error::IntegrityFailure)));
}

#[test]
fn decode_store_truncates_to_declared_size() {
    let data = b"0123456789";
    let declared: u32 = 4;
    let expected = crc32(b"0123");
    let out = decode_entry(data, compress::STORE, declared, expected).ok().unwrap();
    assert_eq!(out, b"0123");
}
