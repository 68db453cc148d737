use std::io::Read;

use turbine::compression::{
    brotli_compress, choose_encoding, gzip_compress, is_compressible_content_type,
    negotiate_compression, zstd_compress,
};

#[test]
fn content_type_detection() {
    assert!(is_compressible_content_type("text/html"));
    assert!(is_compressible_content_type("application/json"));
    assert!(is_compressible_content_type("image/svg+xml"));
    assert!(!is_compressible_content_type("image/png"));
    assert!(!is_compressible_content_type("application/octet-stream"));
}

#[test]
fn gzip_roundtrip() {
    let input = b"hello ".repeat(100);
    let compressed = gzip_compress(&input, 6);
    assert!(compressed.len() < input.len());
    let mut decoder = flate2::read::GzDecoder::new(&compressed[..]);
    let mut decoded = Vec::new();
    decoder.read_to_end(&mut decoded).unwrap();
    assert_eq!(decoded, input);
}

#[test]
fn negotiate_prefers_server_order() {
    let prefs = vec!["br".into(), "gzip".into()];
    let (enc, _) = negotiate_compression("gzip, br", &prefs, b"data", 3).unwrap();
    assert_eq!(enc, "br");
}

#[test]
fn negotiate_returns_none_when_no_overlap() {
    let prefs = vec!["zstd".into()];
    assert!(negotiate_compression("gzip", &prefs, b"data", 3).is_none());
}

// ───── further cases ─────

#[test]
fn gzip_level_above_ten_still_compresses() {
    let input = b"abcabcabc".repeat(50);
    let out = gzip_compress(&input, 15);
    let mut decoder = flate2::read::GzDecoder::new(&out[..]);
    let mut decoded = Vec::new();
    decoder.read_to_end(&mut decoded).unwrap();
    assert_eq!(decoded, input);
}

#[test]
fn brotli_and_zstd_roundtrip() {
    let input = b"turbine ".repeat(64);
    let b = brotli_compress(&input, 20);
    assert!(b.len() < input.len());
    let mut dec = brotli::Decompressor::new(&b[..], 4096);
    let mut back = Vec::new();
    dec.read_to_end(&mut back).unwrap();
    assert_eq!(back, input);
    let z = zstd_compress(&input, 30);
    assert_eq!(zstd::bulk::decompress(&z, input.len()).unwrap(), input);
}

#[test]
fn encoding_choice_is_case_insensitive_and_skips_unknown() {
    let prefs: Vec<String> = vec!["deflate".into(), "ZSTD".into(), "zstd".into(), "gzip".into()];
    assert_eq!(choose_encoding("GZIP, Zstd", &prefs), Some("zstd"));
    assert_eq!(choose_encoding("", &prefs), None);
}

#[test]
fn negotiated_gzip_output_decodes() {
    let prefs = vec!["gzip".into()];
    let data = b"xyz".repeat(40);
    let (enc, out) = negotiate_compression("gzip", &prefs, &data, 9).unwrap();
    assert_eq!(enc, "gzip");
    let mut decoder = flate2::read::GzDecoder::new(&out[..]);
    let mut decoded = Vec::new();
    decoder.read_to_end(&mut decoded).unwrap();
    assert_eq!(decoded, data);
}

#[test]
fn gzip_levels_past_a_byte_act_as_level_one() {
    let data = b"hello hello hello hello hello hello hello hello".repeat(20);
    assert_eq!(turbine::compression::gzip_compress(&data, 300), turbine::compression::gzip_compress(&data, 1));
    assert_eq!(turbine::compression::gzip_compress(&data, 50), turbine::compression::gzip_compress(&data, 10));
}
