use std::io::Write;

use qcow::{
    load_from_memory, DynamicQcow, Error, FeatureKind, HeaderExt, HeaderExtKind, ParseError,
    Qcow2, SeekFrom,
};

const C: usize = 0x10000;
const COPIED: u64 = 1 << 63;
const COMPRESSED: u64 = 1 << 62;

fn put_u32(img: &mut Vec<u8>, at: usize, v: u32) {
    if img.len() < at + 4 {
        img.resize(at + 4, 0);
    }
    img[at..at + 4].copy_from_slice(&v.to_be_bytes());
}

fn put_u64(img: &mut Vec<u8>, at: usize, v: u64) {
    if img.len() < at + 8 {
        img.resize(at + 8, 0);
    }
    img[at..at + 8].copy_from_slice(&v.to_be_bytes());
}

fn put_bytes(img: &mut Vec<u8>, at: usize, b: &[u8]) {
    if img.len() < at + b.len() {
        img.resize(at + b.len(), 0);
    }
    img[at..at + b.len()].copy_from_slice(b);
}

/// A version 3 header with 64 KiB clusters, one L1 entry at 0x10000 and an empty extension area.
fn v3_header(size: u64) -> Vec<u8> {
    let mut img = vec![0u8; 0x10008];
    put_u32(&mut img, 0, 0x514649fb);
    put_u32(&mut img, 4, 3);
    put_u32(&mut img, 20, 16);
    put_u64(&mut img, 24, size);
    put_u32(&mut img, 36, 1);
    put_u64(&mut img, 40, 0x10000);
    put_u32(&mut img, 96, 4);
    put_u32(&mut img, 100, 104);
    img
}

fn zlib(data: &[u8]) -> Vec<u8> {
    let mut e = flate2::write::ZlibEncoder::new(Vec::new(), flate2::Compression::default());
    e.write_all(data).unwrap();
    e.finish().unwrap()
}

fn compressed_cluster() -> Vec<u8> {
    let mut c = vec![0u8; C];
    c[..4].copy_from_slice(&[0xCA, 0xFE, 0xBA, 0xBE]);
    c[C - 4..].copy_from_slice(&[0x11, 0x22, 0x33, 0x44]);
    c
}

fn standard_cluster() -> Vec<u8> {
    let mut c: Vec<u8> = (0..C).map(|i| (i % 251) as u8).collect();
    c[0x100..0x110].copy_from_slice(&[
        0xDE, 0xAD, 0xBE, 0xEF, 0x00, 0x01, 0x02, 0x03, 0x04, 0x05, 0x06, 0x07, 0x08, 0x09, 0x0A,
        0x0B,
    ]);
    c
}

/// Disk of three clusters: cluster 0 standard at 0x40000, cluster 1 with the ZERO bit,
/// cluster 2 compressed with zlib at 0x80000.
fn three_cluster_image() -> Vec<u8> {
    let mut img = v3_header(0x30000);
    put_u64(&mut img, 0x10000, COPIED | 0x20000);
    put_u64(&mut img, 0x20000, COPIED | 0x40000);
    put_u64(&mut img, 0x20008, 0x50000 | 1);
    put_u64(&mut img, 0x20010, COMPRESSED | (0x80000 << 8));
    img.resize(0x30000, 0);
    put_bytes(&mut img, 0x40000, &standard_cluster());
    put_bytes(&mut img, 0x50000, &vec![0x77u8; C]);
    let z = zlib(&compressed_cluster());
    assert!(z.len() <= 0x200);
    put_bytes(&mut img, 0x80000, &z);
    img
}

fn qcow2(img: &[u8]) -> Qcow2 {
    load_from_memory(img).unwrap().unwrap_qcow2()
}

fn read_at(q: &Qcow2, img: &[u8], pos: u64, n: usize) -> (usize, Vec<u8>) {
    let mut r = q.reader(img);
    r.seek(SeekFrom::Start(pos)).unwrap();
    let mut buf = vec![0xEEu8; n];
    let got = r.read(&mut buf).unwrap();
    (got, buf)
}

#[test]
fn minimal_v3_zero_cluster() {
    let img = v3_header(0x10000);
    let q = qcow2(&img);
    assert_eq!(q.header.version, 3);
    assert_eq!(q.l1_table.len(), 1);
    assert_eq!(q.l1_table[0].l2_offset(), 0);
    let (n, b) = read_at(&q, &img, 0, 16);
    assert_eq!(n, 16);
    assert_eq!(b, vec![0u8; 16]);
    let (n, b) = read_at(&q, &img, 0xFFF0, 16);
    assert_eq!(n, 16);
    assert_eq!(b, vec![0u8; 16]);
    let (n, _) = read_at(&q, &img, 0x10000, 16);
    assert_eq!(n, 0);
}

#[test]
fn standard_cluster_read() {
    let img = three_cluster_image();
    let q = qcow2(&img);
    let (n, b) = read_at(&q, &img, 0x100, 16);
    assert_eq!(n, 16);
    assert_eq!(
        b,
        vec![
            0xDE, 0xAD, 0xBE, 0xEF, 0x00, 0x01, 0x02, 0x03, 0x04, 0x05, 0x06, 0x07, 0x08, 0x09,
            0x0A, 0x0B
        ]
    );
}

#[test]
fn zero_bit_cluster() {
    let img = three_cluster_image();
    let q = qcow2(&img);
    let (n, b) = read_at(&q, &img, 0x10000, 8);
    assert_eq!(n, 8);
    assert_eq!(b, vec![0u8; 8]);
}

#[test]
fn compressed_zlib_cluster() {
    let img = three_cluster_image();
    let q = qcow2(&img);
    let (n, b) = read_at(&q, &img, 0x20000, 4);
    assert_eq!(n, 4);
    assert_eq!(b, vec![0xCA, 0xFE, 0xBA, 0xBE]);
    let (n, b) = read_at(&q, &img, 0x2FFFC, 4);
    assert_eq!(n, 4);
    assert_eq!(b, vec![0x11, 0x22, 0x33, 0x44]);
}

#[test]
fn compressed_entry_decoding() {
    let e = qcow::L2Entry(COMPRESSED | (0x80000 << 8));
    assert!(e.is_compressed());
    assert_eq!(e.compressed_range(16), (0x80000, 0x200));
    let e = qcow::L2Entry(COMPRESSED | (0x80123 << 8) | 3);
    assert_eq!(e.compressed_range(16), (0x80123, 4 * 512 - 0x123));
}

#[test]
fn cross_boundary_read() {
    let img = three_cluster_image();
    let q = qcow2(&img);
    let (n, b) = read_at(&q, &img, 0xFFF8, 16);
    assert_eq!(n, 16);
    assert_eq!(&b[..8], &standard_cluster()[C - 8..]);
    assert_eq!(&b[8..], &[0u8; 8]);
}

#[test]
fn unknown_incompatible_bit_fails() {
    let mut img = v3_header(0x10000);
    put_u64(&mut img, 72, 1 << 5);
    match load_from_memory(&img) {
        Err(Error::ParseError(ParseError::UnknownIncompatibleFeatures(b))) => assert_eq!(b, 1 << 5),
        other => panic!("unexpected: {:?}", other),
    }
}

#[test]
fn known_incompatible_bits_parse() {
    for bit in 0..5u32 {
        let mut img = v3_header(0x10000);
        put_u64(&mut img, 72, 1 << bit);
        let q = qcow2(&img);
        let f = q.header.v3_header.as_ref().unwrap().incompatible_features;
        assert_eq!(f.bits(), 1 << bit);
        assert_eq!(f.dirty(), bit == 0);
        assert_eq!(f.corrupt(), bit == 1);
        assert_eq!(f.external_data_file(), bit == 2);
        assert_eq!(f.has_compression_type(), bit == 3);
        assert_eq!(f.extended_l2(), bit == 4);
        assert_eq!(f.unknown_bits(), 0);
    }
}

#[test]
fn read_at_size_returns_nothing() {
    let img = three_cluster_image();
    let q = qcow2(&img);
    let (n, b) = read_at(&q, &img, 0x30000, 8);
    assert_eq!(n, 0);
    assert_eq!(b, vec![0xEE; 8]);
    let (n, _) = read_at(&q, &img, 0x40000, 8);
    assert_eq!(n, 0);
}

#[test]
fn read_spanning_end() {
    let img = three_cluster_image();
    let q = qcow2(&img);
    let mut r = q.reader(&img);
    assert_eq!(r.seek(SeekFrom::End(-4)).unwrap(), 0x2FFFC);
    let mut buf = [0u8; 10];
    assert_eq!(r.read(&mut buf).unwrap(), 4);
    assert_eq!(&buf[..4], &[0x11, 0x22, 0x33, 0x44]);
    assert_eq!(r.position(), 0x30000);
    assert_eq!(r.read(&mut buf).unwrap(), 0);
}

#[test]
fn encrypted_image_parses_but_reads_fail() {
    let mut img = three_cluster_image();
    put_u32(&mut img, 32, 1);
    let q = qcow2(&img);
    assert_eq!(q.header.crypt_method, qcow::EncryptionMethod::Aes);
    let mut r = q.reader(&img);
    let mut buf = [0u8; 4];
    assert!(matches!(
        r.read(&mut buf),
        Err(Error::ParseError(ParseError::EncryptedCluster))
    ));
    assert_eq!(r.position(), 0);
    r.seek(SeekFrom::Start(0x10000)).unwrap();
    assert_eq!(r.read(&mut buf).unwrap(), 4);
    assert_eq!(buf, [0; 4]);
    r.seek(SeekFrom::Start(0x20000)).unwrap();
    assert!(matches!(
        r.read(&mut buf),
        Err(Error::ParseError(ParseError::EncryptedCluster))
    ));
}

#[test]
fn unallocated_entry_reads_zero() {
    let mut img = three_cluster_image();
    put_u64(&mut img, 0x20000, COPIED);
    let q = qcow2(&img);
    let (n, b) = read_at(&q, &img, 0x100, 32);
    assert_eq!(n, 32);
    assert_eq!(b, vec![0u8; 32]);
}

#[test]
fn repeated_reads_agree() {
    let img = three_cluster_image();
    let q = qcow2(&img);
    let mut r = q.reader(&img);
    let mut a = vec![0u8; 0x30000];
    let mut b = vec![0u8; 0x30000];
    assert_eq!(r.read(&mut a).unwrap(), 0x30000);
    r.seek(SeekFrom::Start(0)).unwrap();
    assert_eq!(r.read(&mut b).unwrap(), 0x30000);
    assert_eq!(a, b);
    assert_eq!(&a[..C], &standard_cluster()[..]);
    assert_eq!(&a[2 * C..], &compressed_cluster()[..]);
}

#[test]
fn seek_read_order_does_not_matter() {
    let img = three_cluster_image();
    let q = qcow2(&img);
    let mut r = q.reader(&img);
    let (p, q_pos) = (0x1F000u64, 0x180u64);
    let mut x1 = [0u8; 0x2000];
    let mut y1 = [0u8; 0x100];
    r.seek(SeekFrom::Start(p)).unwrap();
    r.read(&mut x1).unwrap();
    r.seek(SeekFrom::Start(q_pos)).unwrap();
    r.read(&mut y1).unwrap();
    let mut x2 = [0u8; 0x2000];
    let mut y2 = [0u8; 0x100];
    let q2 = qcow2(&img);
    let mut r = q2.reader(&img);
    r.seek(SeekFrom::Start(q_pos)).unwrap();
    r.read(&mut y2).unwrap();
    r.seek(SeekFrom::Start(p)).unwrap();
    r.read(&mut x2).unwrap();
    assert_eq!(x1, x2);
    assert_eq!(y1, y2);
}

#[test]
fn cluster_boundary_split() {
    let img = three_cluster_image();
    let q = qcow2(&img);
    let (n, whole) = read_at(&q, &img, 0x1FF00, 0x300);
    assert_eq!(n, 0x300);
    let (n1, first) = read_at(&q, &img, 0x1FF00, 0x100);
    let (n2, second) = read_at(&q, &img, 0x20000, 0x200);
    assert_eq!((n1, n2), (0x100, 0x200));
    assert_eq!(&whole[..0x100], &first[..]);
    assert_eq!(&whole[0x100..], &second[..]);
    assert_eq!(&whole[0x100..0x104], &[0xCA, 0xFE, 0xBA, 0xBE]);
}

#[test]
fn compressed_cluster_read_twice() {
    let img = three_cluster_image();
    let q = qcow2(&img);
    let mut r = q.reader(&img);
    let mut a = vec![0u8; C];
    let mut b = vec![0u8; C];
    r.seek(SeekFrom::Start(0x20000)).unwrap();
    r.read(&mut a).unwrap();
    r.seek(SeekFrom::Start(0x20000)).unwrap();
    r.read(&mut b).unwrap();
    assert_eq!(a, b);
    assert_eq!(a, compressed_cluster());
}

#[test]
fn corrupt_compressed_cluster_fails() {
    let mut img = three_cluster_image();
    put_bytes(&mut img, 0x80000, &[0xFF; 16]);
    let q = qcow2(&img);
    let mut r = q.reader(&img);
    r.seek(SeekFrom::Start(0x20000)).unwrap();
    let mut buf = [0u8; 4];
    assert!(matches!(
        r.read(&mut buf),
        Err(Error::ParseError(ParseError::DecompressionFailed))
    ));
    assert_eq!(r.position(), 0x20000);
}

#[test]
fn truncated_standard_cluster_fails() {
    let mut img = three_cluster_image();
    put_u64(&mut img, 0x20000, COPIED | 0x100000);
    let q = qcow2(&img);
    let mut r = q.reader(&img);
    let mut buf = [0u8; 4];
    assert!(matches!(
        r.read(&mut buf),
        Err(Error::ParseError(ParseError::Truncated))
    ));
}

#[test]
fn zstd_compressed_cluster() {
    let mut img = three_cluster_image();
    put_u32(&mut img, 100, 112);
    put_u64(&mut img, 72, 1 << 3);
    img[104] = 1;
    let z = zstd::bulk::compress(&compressed_cluster(), 3).unwrap();
    img.truncate(0x80000);
    put_bytes(&mut img, 0x80000, &z);
    let q = qcow2(&img);
    assert_eq!(
        q.header.v3_header.as_ref().unwrap().compression_type,
        qcow::CompressionType::Zstd
    );
    let (n, b) = read_at(&q, &img, 0x2FFFC, 4);
    assert_eq!(n, 4);
    assert_eq!(b, vec![0x11, 0x22, 0x33, 0x44]);
}

#[test]
fn seek_rejects_negative_position() {
    let img = three_cluster_image();
    let q = qcow2(&img);
    let mut r = q.reader(&img);
    assert_eq!(r.seek(SeekFrom::Current(0x40)).unwrap(), 0x40);
    assert!(matches!(
        r.seek(SeekFrom::Current(-0x41)),
        Err(Error::ParseError(ParseError::InvalidSeek))
    ));
    assert_eq!(r.position(), 0x40);
    assert_eq!(r.seek(SeekFrom::End(0x10)).unwrap(), 0x30010);
}

#[test]
fn parse() {
    let img = three_cluster_image();
    let qcow = load_from_memory(&img).unwrap();
    assert_eq!(qcow.snapshots().len(), 0);
    let qcow = qcow.unwrap_qcow2();
    let l2 = qcow.l1_table[0].read_l2(&img, qcow.header.cluster_bits).unwrap().unwrap();
    assert_eq!(l2.len(), C / 8);
    assert_eq!(l2[0].host_offset(), 0x40000);
    assert!(l2[0].copied());
    assert!(l2[1].is_zero());

    let mut reader = qcow.reader(&img);
    let mut buf = [0; 0x100];
    assert_eq!(reader.read(&mut buf).unwrap(), 0x100);

    let mut buf2 = [0; 0x80];
    let pos = reader.seek(SeekFrom::Current(-0x80)).unwrap();
    assert_eq!(pos, 0x80);
    reader.read(&mut buf2).unwrap();
    assert_eq!(buf2, &buf[0x80..]);

    let pos = reader.seek(SeekFrom::Start(0)).unwrap();
    assert_eq!(pos, 0);
    reader.read(&mut buf2).unwrap();
    assert_eq!(buf2, &buf[..0x80]);
}

#[test]
fn header_errors() {
    let good = v3_header(0x10000);
    assert!(matches!(
        load_from_memory(&good[..3]),
        Err(Error::ParseError(ParseError::Truncated))
    ));
    let mut bad = good.clone();
    bad[0] = 0;
    assert!(matches!(
        load_from_memory(&bad),
        Err(Error::ParseError(ParseError::BadMagic))
    ));
    let mut bad = good.clone();
    put_u32(&mut bad, 4, 4);
    assert!(matches!(
        load_from_memory(&bad),
        Err(Error::ParseError(ParseError::UnsupportedVersion(4)))
    ));
    let mut bad = good.clone();
    put_u32(&mut bad, 20, 8);
    assert!(matches!(
        load_from_memory(&bad),
        Err(Error::ParseError(ParseError::InvalidClusterBits(8)))
    ));
    let mut bad = good.clone();
    put_u32(&mut bad, 32, 7);
    assert!(matches!(
        load_from_memory(&bad),
        Err(Error::ParseError(ParseError::UnknownEncryptionMethod(7)))
    ));
    let mut bad = good.clone();
    put_u32(&mut bad, 100, 112);
    put_u64(&mut bad, 72, 1 << 3);
    bad[104] = 9;
    assert!(matches!(
        load_from_memory(&bad),
        Err(Error::ParseError(ParseError::UnknownCompressionType(9)))
    ));
    assert!(matches!(
        load_from_memory(&good[..80]),
        Err(Error::ParseError(ParseError::Truncated))
    ));
    let mut bad = good.clone();
    put_u32(&mut bad, 36, 2);
    assert!(matches!(
        load_from_memory(&bad),
        Err(Error::ParseError(ParseError::Truncated))
    ));
}

#[test]
fn version2_header() {
    let mut img = v3_header(0x10000);
    put_u32(&mut img, 4, 2);
    put_u32(&mut img, 72, 0);
    let q = qcow2(&img);
    assert_eq!(q.header.version, 2);
    assert!(q.header.v3_header.is_none());
    assert_eq!(q.header.cluster_size(), 0x10000);
    assert_eq!(q.cluster_size(), 0x10000);
    assert_eq!(q.header.compression_type(), qcow::CompressionType::Zlib);
}

#[test]
fn extensions_and_backing_file() {
    let mut img = v3_header(0x10000);
    put_u64(&mut img, 8, 0x800);
    put_u32(&mut img, 16, 6);
    put_bytes(&mut img, 0x800, b"base\xff\0");
    let mut at = 104;
    put_u32(&mut img, at, 0xe2792aca);
    put_u32(&mut img, at + 4, 5);
    put_bytes(&mut img, at + 8, b"qcow2");
    at += 8 + 8;
    put_u32(&mut img, at, 0x6803f857);
    put_u32(&mut img, at + 4, 96);
    put_bytes(&mut img, at + 8, &[0, 0]);
    put_bytes(&mut img, at + 10, b"dirty bit");
    put_bytes(&mut img, at + 56, &[2, 1]);
    put_bytes(&mut img, at + 58, b"raw external");
    at += 8 + 96;
    put_u32(&mut img, at, 0x12345678);
    put_u32(&mut img, at + 4, 3);
    put_bytes(&mut img, at + 8, &[1, 2, 3]);
    at += 8 + 8;
    put_u32(&mut img, at, 0);
    let d = load_from_memory(&img).unwrap();
    assert_eq!(d.backing_file(), Some("base\u{fffd}".to_string()));
    assert_eq!(d.version(), 3);
    assert_eq!(d.cluster_size(), 0x10000);
    let q = d.unwrap_qcow2();
    let ext = &q.header.extensions;
    assert_eq!(ext.len(), 3);
    assert!(matches!(&ext[0], HeaderExt::BackingFileFormat(s) if s == "qcow2"));
    match &ext[1] {
        HeaderExt::FeatureNameTable(names) => {
            assert_eq!(names.len(), 2);
            assert_eq!(names[0].kind, FeatureKind::IncompatibleFeature);
            assert_eq!(names[0].bit_number, 0);
            assert_eq!(names[0].feature_name, "dirty bit");
            assert_eq!(names[1].kind, FeatureKind::AutoClearFeatures);
            assert_eq!(names[1].bit_number, 1);
            assert_eq!(names[1].feature_name, "raw external");
        }
        other => panic!("unexpected: {:?}", other),
    }
    match &ext[2] {
        HeaderExt::Unparsed { kind, data } => {
            assert_eq!(*kind, HeaderExtKind::Other(0x12345678));
            assert_eq!(data, &vec![1, 2, 3]);
        }
        other => panic!("unexpected: {:?}", other),
    }
    assert!(!ext[0].is_end());
}

#[test]
fn unknown_feature_kind_fails() {
    let mut img = v3_header(0x10000);
    put_u32(&mut img, 104, 0x6803f857);
    put_u32(&mut img, 108, 48);
    put_bytes(&mut img, 112, &[7, 0]);
    assert!(matches!(
        load_from_memory(&img),
        Err(Error::ParseError(ParseError::UnknownFeatureKind(7)))
    ));
}

#[test]
fn snapshots_are_parsed() {
    let mut img = v3_header(0x10000);
    put_u32(&mut img, 60, 2);
    put_u64(&mut img, 64, 0x1000);
    let mut at = 0x1000;
    put_u64(&mut img, at, 0x3000);
    put_u32(&mut img, at + 8, 1);
    img[at + 13] = 1;
    img[at + 15] = 5;
    put_u32(&mut img, at + 16, 1000);
    put_u32(&mut img, at + 20, 7);
    put_u64(&mut img, at + 24, 99);
    put_u32(&mut img, at + 32, 4096);
    put_u32(&mut img, at + 36, 0);
    put_bytes(&mut img, at + 40, b"1first");
    at += 48;
    put_u64(&mut img, at, 0x4000);
    img[at + 13] = 2;
    img[at + 15] = 3;
    put_u32(&mut img, at + 36, 8);
    put_bytes(&mut img, at + 40, &[9; 8]);
    put_bytes(&mut img, at + 48, b"10two");
    let d = load_from_memory(&img).unwrap();
    let s = d.snapshots();
    assert_eq!(s.len(), 2);
    assert_eq!(s[0].unique_id, "1");
    assert_eq!(s[0].name, "first");
    assert_eq!(s[0].l1_table_offset, 0x3000);
    assert_eq!(s[0].l1_size, 1);
    assert_eq!(s[0].date_seconds, 1000);
    assert_eq!(s[0].date_nanoseconds, 7);
    assert_eq!(s[0].vm_clock_nanoseconds, 99);
    assert_eq!(s[0].vm_state_size, 4096);
    assert_eq!(s[1].unique_id, "10");
    assert_eq!(s[1].name, "two");
    assert_eq!(s[1].extra_data, vec![9; 8]);
    let q = d.unwrap_qcow2();
    assert_eq!(q.snapshots.len() as u32, q.header.nb_snapshots);
    assert_eq!(q.l1_table.len() as u32, q.header.l1_size);
}

#[test]
fn version1_header() {
    let mut img = vec![0u8; 48];
    put_u32(&mut img, 0, 0x514649fb);
    put_u32(&mut img, 4, 1);
    put_u32(&mut img, 20, 1234);
    put_u64(&mut img, 24, 1 << 30);
    img[32] = 12;
    img[33] = 9;
    put_u32(&mut img, 36, 0);
    put_u64(&mut img, 40, 0x200);
    let d = load_from_memory(&img).unwrap();
    assert!(matches!(d, DynamicQcow::Qcow1(_)));
    assert_eq!(d.version(), 1);
    assert_eq!(d.cluster_size(), 4096);
    assert_eq!(d.backing_file(), None);
    assert_eq!(d.snapshots().len(), 0);
    let q = d.unwrap_qcow1();
    assert_eq!(q.header.mtime, 1234);
    assert_eq!(q.header.size, 1 << 30);
    assert_eq!(q.header.l2_bits, 9);
    assert_eq!(q.header.l1_table_offset, 0x200);
    assert_eq!(q.cluster_size(), 4096);
    assert!(matches!(
        load_from_memory(&img[..40]),
        Err(Error::ParseError(ParseError::Truncated))
    ));
}

#[test]
fn feature_bytes_are_reversed() {
    let b = [1, 2, 3, 4, 5, 6, 7, 8];
    assert_eq!(qcow::reverse(b), [8, 7, 6, 5, 4, 3, 2, 1]);
    let f = qcow::IncompatibleFeatures::from_bytes([0, 0, 0, 0, 0, 0, 0, 0x21]);
    assert!(f.dirty());
    assert_eq!(f.unknown_bits(), 0x20);
    let c = qcow::CompatibleFeatures::from_bytes([0, 0, 0, 0, 0, 0, 0, 1]);
    assert!(c.lazy_refcount());
    let a = qcow::AutoClearFeatures::from_bytes([0, 0, 0, 0, 0, 0, 0, 2]);
    assert!(!a.bitmap_extension());
    assert!(a.raw_external_data());
}
