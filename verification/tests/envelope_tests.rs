use wnfs_bridge::c_types::{
    rust_result_bytes_free, rust_result_string_free, BoundaryError, Empty, RustBytes, RustResult,
    RustString, RustVoid,
};

#[test]
fn bytes_round_trip() {
    let data = vec![1u8, 2, 3, 255, 0, 42];
    let env = RustBytes::encode(&data);
    assert_eq!(env.decode(), data);
}

#[test]
fn bytes_round_trip_empty() {
    let data: Vec<u8> = Vec::new();
    let env = RustBytes::encode(&data);
    assert_eq!(env.decode(), data);
}

#[test]
fn bytes_null_decodes_empty() {
    let env = <RustBytes as Empty>::empty();
    assert_eq!(env.decode(), Vec::<u8>::new());
    let env = RustBytes::Null;
    assert_eq!(env.decode(), Vec::<u8>::new());
}

#[test]
fn bytes_free_is_safe_on_null() {
    let mut env = RustBytes::Null;
    env.free();
    env.free();
}

#[test]
fn string_round_trip() {
    let env = RustString::encode("Hello, World!");
    assert_eq!(env.decode().unwrap(), "Hello, World!");
}

#[test]
fn string_round_trip_empty() {
    let env = RustString::encode("");
    assert_eq!(env.decode().unwrap(), "");
}

#[test]
fn string_round_trip_multibyte() {
    let env = RustString::encode("p\u{e8}re no\u{eb}l \u{1f384}");
    assert_eq!(env.decode().unwrap(), "p\u{e8}re no\u{eb}l \u{1f384}");
}

#[test]
fn string_null_decodes_empty() {
    let env = RustString::Null;
    assert_eq!(env.decode().unwrap(), "");
}

#[test]
fn string_invalid_bytes_decode_fails() {
    let env = RustString::Live(vec![0xff, 0xfe, 0x41]);
    let err = env.decode().unwrap_err();
    assert!(matches!(err, BoundaryError::InvalidEncoding));
    assert_eq!(err.message(), "invalid text encoding");
}

#[test]
fn string_with_nul_falls_back_to_null_envelope() {
    let env = RustString::encode_or_empty("bad\u{0}text");
    assert!(matches!(env, RustString::Null));
    assert_eq!(env.decode().unwrap(), "");
}

#[test]
fn string_without_nul_encodes_normally() {
    let env = RustString::encode_or_empty("good text");
    assert_eq!(env.decode().unwrap(), "good text");
}

#[test]
fn result_error_is_not_ok_and_payload_is_empty() {
    let msg = RustString::encode("it broke");
    let r: RustResult<RustString> = RustResult::error(msg);
    assert!(!r.is_ok());
    assert!(matches!(r.result, RustString::Null));
    assert_eq!(r.err.decode().unwrap(), "it broke");

    let r2: RustResult<RustBytes> = RustResult::error(RustString::encode("no"));
    assert!(!r2.is_ok());
    assert!(matches!(r2.result, RustBytes::Null));
}

#[test]
fn result_ok_keeps_payload() {
    let payload = RustBytes::encode(&vec![9u8, 8, 7]);
    let r = RustResult::ok(payload);
    assert!(r.is_ok());
    assert!(matches!(r.err, RustString::Null));
    assert_eq!(r.unwrap_payload().decode(), vec![9u8, 8, 7]);

    let r2 = RustResult::ok(RustVoid::empty());
    assert!(r2.is_ok());
}

#[test]
fn result_unwrap_error_returns_message() {
    let r: RustResult<RustVoid> = RustResult::error(RustString::encode("boom"));
    let err = r.unwrap_error();
    assert_eq!(err.decode().unwrap(), "boom");
}

#[test]
fn result_free_releases_both_slots() {
    let mut r: RustResult<RustString> = RustResult::error(RustString::encode("gone"));
    rust_result_string_free(&mut r);
    assert!(matches!(r.err, RustString::Released));
    assert!(matches!(r.result, RustString::Null));

    let mut r2 = RustResult::ok(RustBytes::encode(&vec![1u8]));
    rust_result_bytes_free(&mut r2);
    assert!(matches!(r2.result, RustBytes::Released));
    assert!(matches!(r2.err, RustString::Null));
}
