use std::io::Write;

use turbine::embed::{archive_entries, has_embedded_app, tar_entries, TarKind};

#[test]
fn test_has_embedded_app() {
    // Without the embed feature, no app is embedded
    assert!(!has_embedded_app());
}

fn header(name: &str, size_field: &[u8], flag: u8) -> Vec<u8> {
    let mut h = vec![0u8; 512];
    h[..name.len()].copy_from_slice(name.as_bytes());
    h[124..124 + size_field.len()].copy_from_slice(size_field);
    h[156] = flag;
    h
}

fn sample_archive() -> Vec<u8> {
    let mut a = Vec::new();
    a.extend(header("hello.txt", b"00000000005\0", b'0'));
    let mut data = b"hello".to_vec();
    data.resize(512, 0);
    a.extend(data);
    a.extend(header("dir/", b"00000000000\0", b'5'));
    a.extend(header("link", b"00000000000\0", b'2'));
    a.extend(header(".", b"00000000000\0", b'5'));
    a.extend(vec![0u8; 1024]);
    a
}

#[test]
fn tar_entries_in_order() {
    let a = sample_archive();
    let es = tar_entries(&a);
    assert_eq!(es.len(), 3);
    assert_eq!(es[0].name, "hello.txt");
    assert_eq!(es[0].kind, TarKind::File);
    assert_eq!(es[0].data_start, 512);
    assert_eq!(es[0].size, 5);
    assert!(es[0].complete);
    assert_eq!(&a[es[0].data_start..es[0].data_start + es[0].size], b"hello");
    assert_eq!(es[1].name, "dir/");
    assert_eq!(es[1].kind, TarKind::Directory);
    assert_eq!(es[1].data_start, 1536);
    assert_eq!(es[2].name, "link");
    assert_eq!(es[2].kind, TarKind::Other);
}

#[test]
fn truncated_file_is_incomplete() {
    let mut a = header("big.bin", b"00000001000\0", 0);
    a.extend(vec![7u8; 100]);
    let es = tar_entries(&a);
    assert_eq!(es.len(), 1);
    assert_eq!(es[0].size, 512);
    assert!(!es[0].complete);
}

#[test]
fn bad_size_field_reads_as_zero() {
    let a = header("x", b"zz", b'0');
    let es = tar_entries(&a);
    assert_eq!(es[0].size, 0);
    let a = header("y", b" 17\0", b'0');
    assert_eq!(tar_entries(&a)[0].size, 15);
}

#[test]
fn gzipped_archive_entries() {
    let raw = sample_archive();
    let mut enc = flate2::write::GzEncoder::new(Vec::new(), flate2::Compression::default());
    enc.write_all(&raw).unwrap();
    let gz = enc.finish().unwrap();
    let (unpacked, es) = archive_entries(&gz).unwrap();
    assert_eq!(unpacked, raw);
    assert_eq!(es.len(), 3);
    assert!(archive_entries(b"not gzip").is_none());
}
