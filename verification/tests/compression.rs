use std::io::Read;

use open_web_server::compression::{accepts_gzip, maybe_gzip, COMPRESSION_MIN_SIZE};

fn gunzip(data: &[u8]) -> Vec<u8> {
    let mut out = Vec::new();
    flate2::read::GzDecoder::new(data).read_to_end(&mut out).unwrap();
    out
}

#[test]
fn compresses_large_repetitive_body_when_client_accepts_gzip() {
    let body = "hello world ".repeat(100).into_bytes();
    let (out, compressed) = maybe_gzip(Some("gzip, deflate"), false, body.clone());
    assert!(compressed);
    assert!(out.len() < body.len());
    assert_eq!(gunzip(&out), body);
}

#[test]
fn does_not_compress_when_client_omits_gzip() {
    let body = "hello world ".repeat(100).into_bytes();
    let (out, compressed) = maybe_gzip(Some("br"), false, body.clone());
    assert!(!compressed);
    assert_eq!(out, body);
    assert!(!maybe_gzip(None, false, body.clone()).1);
}

#[test]
fn does_not_compress_small_bodies_even_when_client_accepts_gzip() {
    let body = vec![b'a'; COMPRESSION_MIN_SIZE - 1];
    let (out, compressed) = maybe_gzip(Some("gzip"), false, body.clone());
    assert!(!compressed);
    assert_eq!(out, body);
    assert!(maybe_gzip(Some("gzip"), false, vec![b'a'; COMPRESSION_MIN_SIZE]).1);
}

#[test]
fn does_not_double_compress_a_response_that_already_has_content_encoding() {
    let body = "hello world ".repeat(100).into_bytes();
    let (out, compressed) = maybe_gzip(Some("gzip"), true, body.clone());
    assert!(!compressed);
    assert_eq!(out, body);
}

#[test]
fn accept_encoding_parts_are_trimmed() {
    assert!(accepts_gzip(Some("deflate,  gzip;q=0.5")));
    assert!(!accepts_gzip(Some("x-gzip")));
    assert!(!accepts_gzip(Some("")));
}
