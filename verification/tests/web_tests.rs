use std::io::Read;

use netwatch::encode::{choose_encoding, encode_body, ContentEncoding};
use netwatch::tls::{default_certs, default_keys};
use netwatch::upgrade::{websocket_accept, UpgradeRequest};

fn upgrade_request() -> UpgradeRequest {
    UpgradeRequest {
        key: Some(b"dGhlIHNhbXBsZSBub25jZQ==".to_vec()),
        method_is_get: true,
        version_at_least_11: true,
        connection: Some(b"keep-alive, Upgrade".to_vec()),
        upgrade: Some(b"websocket".to_vec()),
        version: Some(b"13".to_vec()),
    }
}

#[test]
fn upgrade_answers_the_rfc_accept_token() {
    let accept = websocket_accept(&upgrade_request()).expect("upgrade expected");
    assert_eq!(accept, "s3pPLMBiTxaQ9kYGzzhZRbK+xOo=");
}

#[test]
fn upgrade_header_checks_are_case_insensitive() {
    let mut req = upgrade_request();
    req.connection = Some(b"UPGRADE".to_vec());
    req.upgrade = Some(b"WebSocket".to_vec());
    assert!(websocket_accept(&req).is_some());
}

#[test]
fn upgrade_needs_the_upgrade_token_as_a_piece() {
    let mut req = upgrade_request();
    req.connection = Some(b"no-upgrade".to_vec());
    assert!(websocket_accept(&req).is_none());
    req.connection = Some(b"close,upgrade".to_vec());
    assert!(websocket_accept(&req).is_some());
}

#[test]
fn upgrade_rejects_incomplete_requests() {
    let mut req = upgrade_request();
    req.key = None;
    assert!(websocket_accept(&req).is_none());

    let mut req = upgrade_request();
    req.method_is_get = false;
    assert!(websocket_accept(&req).is_none());

    let mut req = upgrade_request();
    req.version_at_least_11 = false;
    assert!(websocket_accept(&req).is_none());

    let mut req = upgrade_request();
    req.version = Some(b"8".to_vec());
    assert!(websocket_accept(&req).is_none());

    let mut req = upgrade_request();
    req.upgrade = None;
    assert!(websocket_accept(&req).is_none());
}

#[test]
fn encoding_choice_follows_the_header() {
    let pick = |s: &[u8]| choose_encoding(Some(&s.to_vec()));
    assert_eq!(
        pick(b"gzip, deflate"),
        ContentEncoding::Gzip { capitalized: false }
    );
    assert_eq!(pick(b"x-Gzip"), ContentEncoding::Gzip { capitalized: true });
    assert_eq!(
        pick(b"deflate"),
        ContentEncoding::Deflate { capitalized: false }
    );
    assert_eq!(
        pick(b"Deflate"),
        ContentEncoding::Deflate { capitalized: true }
    );
    assert_eq!(pick(b"br, zstd"), ContentEncoding::Identity);
    assert_eq!(choose_encoding(None), ContentEncoding::Identity);
}

#[test]
fn gzip_body_round_trips() {
    let data = b"a page of dashboard html, repeated enough to compress well. \
                 a page of dashboard html, repeated enough to compress well.";
    let (body, encoding) = encode_body(data, Some(&b"gzip".to_vec()));
    assert_eq!(encoding, ContentEncoding::Gzip { capitalized: false });
    assert_ne!(body, data.to_vec(), "the body must actually be compressed");
    let mut decoder = flate2::read::GzDecoder::new(body.as_slice());
    let mut plain = Vec::new();
    decoder.read_to_end(&mut plain).unwrap();
    assert_eq!(plain, data.to_vec());
}

#[test]
fn deflate_body_round_trips() {
    let data = b"deflate me, deflate me, deflate me, deflate me, deflate me";
    let (body, encoding) = encode_body(data, Some(&b"Deflate".to_vec()));
    assert_eq!(encoding, ContentEncoding::Deflate { capitalized: true });
    let mut decoder = flate2::read::DeflateDecoder::new(body.as_slice());
    let mut plain = Vec::new();
    decoder.read_to_end(&mut plain).unwrap();
    assert_eq!(plain, data.to_vec());
}

#[test]
fn identity_body_passes_through() {
    let data = b"untouched";
    let (body, encoding) = encode_body(data, None);
    assert_eq!(encoding, ContentEncoding::Identity);
    assert_eq!(body, data.to_vec());
}

#[test]
fn no_tls_material_is_built_in() {
    assert!(default_certs().is_none());
    assert!(default_keys().is_none());
}
