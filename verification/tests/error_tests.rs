use trtx::error::Error;
use trtx::error::TRTX_ERROR_CUDA_ERROR;
use trtx::error::TRTX_ERROR_INVALID_ARGUMENT;
use trtx::error::TRTX_ERROR_OUT_OF_MEMORY;
use trtx::error::TRTX_ERROR_RUNTIME_ERROR;
use trtx::error::TRTX_SUCCESS;

#[test]
fn test_constants() {
    // Verify error codes are defined
    assert_eq!(TRTX_SUCCESS, 0);
    assert_ne!(TRTX_ERROR_INVALID_ARGUMENT, TRTX_SUCCESS);
}

#[test]
fn test_error_display() {
    let err = Error::InvalidArgument("test".to_string());
    assert_eq!(err.describe(), "Invalid argument: test");
}

#[test]
fn test_parse_error_msg() {
    let msg = b"test error\0".map(|b| b as i8);
    let parsed = Error::parse_error_msg(&msg);
    assert_eq!(parsed, "test error");
}

#[test]
fn test_from_ffi() {
    let msg = b"test\0".map(|b| b as i8);
    let err = Error::from_ffi(TRTX_ERROR_INVALID_ARGUMENT, &msg);
    match err {
        Error::InvalidArgument(s) => assert_eq!(s, "test"),
        _ => panic!("Wrong error type"),
    }
}

#[test]
fn test_from_ffi_every_code() {
    let msg = b"m\0".map(|b| b as i8);
    assert!(matches!(
        Error::from_ffi(TRTX_ERROR_OUT_OF_MEMORY, &msg),
        Error::OutOfMemory(_)
    ));
    assert!(matches!(
        Error::from_ffi(TRTX_ERROR_RUNTIME_ERROR, &msg),
        Error::Runtime(_)
    ));
    assert!(matches!(
        Error::from_ffi(TRTX_ERROR_CUDA_ERROR, &msg),
        Error::Cuda(_)
    ));
    assert!(matches!(Error::from_ffi(99, &msg), Error::Unknown(_)));
    assert!(matches!(Error::from_ffi(TRTX_SUCCESS, &msg), Error::Unknown(_)));
}

#[test]
fn test_from_ffi_deterministic() {
    let msg = b"same input\0".map(|b| b as i8);
    let a = Error::from_ffi(TRTX_ERROR_CUDA_ERROR, &msg);
    let b = Error::from_ffi(TRTX_ERROR_CUDA_ERROR, &msg);
    match (a, b) {
        (Error::Cuda(x), Error::Cuda(y)) => assert_eq!(x, y),
        _ => panic!("Wrong error types"),
    }
}

#[test]
fn test_parse_error_msg_without_terminator() {
    // A buffer with no null byte is decoded in full.
    let msg = b"no terminator".map(|b| b as i8);
    let parsed = Error::parse_error_msg(&msg);
    assert_eq!(parsed, "no terminator");
}

#[test]
fn test_parse_error_msg_empty_and_leading_null() {
    let empty: [i8; 0] = [];
    assert_eq!(Error::parse_error_msg(&empty), "");
    let msg = b"\0hidden".map(|b| b as i8);
    assert_eq!(Error::parse_error_msg(&msg), "");
}

#[test]
fn test_parse_error_msg_invalid_utf8() {
    // An invalid byte is replaced, decoding never fails.
    let msg = [0xffu8 as i8, b'A' as i8, 0];
    assert_eq!(Error::parse_error_msg(&msg), "\u{fffd}A");
}

#[test]
fn test_parse_error_msg_truncated_sequence() {
    // An unterminated buffer ending in a truncated four-byte encoding is
    // one maximal subpart: a single replacement character.
    let msg = [0xf0u8 as i8, 0x90u8 as i8, 0x80u8 as i8];
    assert_eq!(Error::parse_error_msg(&msg), "\u{fffd}");
}

#[test]
fn test_parse_error_msg_multibyte() {
    let mut buf: Vec<i8> = "héllo ✓".bytes().map(|b| b as i8).collect();
    buf.push(0);
    buf.push(b'x' as i8);
    assert_eq!(Error::parse_error_msg(&buf), "héllo ✓");
}

#[test]
fn test_describe_every_variant() {
    assert_eq!(
        Error::OutOfMemory("m".to_string()).describe(),
        "Out of memory: m"
    );
    assert_eq!(Error::Runtime("m".to_string()).describe(), "Runtime error: m");
    assert_eq!(Error::Cuda("m".to_string()).describe(), "CUDA error: m");
    assert_eq!(Error::Unknown("m".to_string()).describe(), "Unknown error: m");
    assert_eq!(
        Error::StringConversion("m".to_string()).describe(),
        "String conversion error: m"
    );
    assert_eq!(
        Error::Utf8("m".to_string()).describe(),
        "UTF-8 conversion error: m"
    );
    assert_eq!(Error::Io("m".to_string()).describe(), "IO error: m");
}
