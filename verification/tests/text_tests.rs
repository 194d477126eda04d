use trtx::text::utf8_lossy;
use trtx::text::utf8_valid;

#[test]
fn test_utf8_valid_accepts_well_formed() {
    assert!(utf8_valid(b"plain ascii"));
    assert!(utf8_valid("héllo ✓ 𝄞".as_bytes()));
    assert!(utf8_valid(b""));
}

#[test]
fn test_utf8_valid_rejects_malformed() {
    assert!(!utf8_valid(&[0xff]));
    // A truncated three-byte encoding.
    assert!(!utf8_valid(&[0xe2, 0x82]));
    // An overlong two-byte encoding of an ASCII value.
    assert!(!utf8_valid(&[0xc0, 0x80]));
    // A surrogate encoding.
    assert!(!utf8_valid(&[0xed, 0xa0, 0x80]));
}

#[test]
fn test_utf8_lossy_preserves_valid_text() {
    assert_eq!(utf8_lossy(b"plain ascii"), "plain ascii");
    assert_eq!(utf8_lossy("héllo ✓ 𝄞".as_bytes()), "héllo ✓ 𝄞");
    assert_eq!(utf8_lossy(b""), "");
}

#[test]
fn test_utf8_lossy_replaces_invalid_bytes() {
    assert_eq!(utf8_lossy(&[b'A', 0xff, b'B']), "A\u{fffd}B");
    // 0xc0 cannot lead a well-formed encoding, so it and the stray
    // continuation byte are each a maximal subpart of their own.
    assert_eq!(utf8_lossy(&[0xc0, 0x80]), "\u{fffd}\u{fffd}");
    // A truncated three-byte encoding is one maximal subpart.
    assert_eq!(utf8_lossy(&[b'x', 0xe2, 0x82]), "x\u{fffd}");
}

#[test]
fn test_utf8_lossy_agrees_with_std() {
    // The permissive decoding computes exactly what the standard
    // library's lossy decoding computes: every two-byte buffer, and a
    // structured sweep of three- and four-byte buffers around the lead
    // and continuation boundaries.
    let probes: [u8; 14] = [
        0x00, 0x41, 0x7f, 0x80, 0x8f, 0x90, 0x9f, 0xa0, 0xbf, 0xc0, 0xe0, 0xed, 0xf4, 0xff,
    ];
    for b0 in 0..=255u8 {
        for b1 in 0..=255u8 {
            let buf = [b0, b1];
            assert_eq!(utf8_lossy(&buf), String::from_utf8_lossy(&buf));
        }
    }
    for b0 in 0..=255u8 {
        for &b1 in &probes {
            for &b2 in &probes {
                let buf = [b0, b1, b2];
                assert_eq!(utf8_lossy(&buf), String::from_utf8_lossy(&buf));
            }
        }
    }
    for b0 in 0xc0..=255u8 {
        for &b1 in &probes {
            for &b2 in &probes {
                for &b3 in &probes {
                    let buf = [b0, b1, b2, b3];
                    assert_eq!(utf8_lossy(&buf), String::from_utf8_lossy(&buf));
                }
            }
        }
    }
}

#[test]
fn test_utf8_lossy_maximal_subparts() {
    // A truncated four-byte encoding before more text is one maximal
    // subpart and yields a single replacement character.
    assert_eq!(utf8_lossy(b"Hello \xF0\x90\x80World"), "Hello \u{fffd}World");
    // The same truncated encoding at the end of the buffer.
    assert_eq!(utf8_lossy(&[0xf0, 0x90, 0x80]), "\u{fffd}");
    // A surrogate encoding fails at its second byte: three subparts.
    assert_eq!(utf8_lossy(&[0xed, 0xa0, 0x80]), "\u{fffd}\u{fffd}\u{fffd}");
    // An overlong three-byte encoding fails at its second byte too.
    assert_eq!(utf8_lossy(&[0xe0, 0x9f, 0x80]), "\u{fffd}\u{fffd}\u{fffd}");
    // A two-byte encoding broken off by an ASCII byte: one subpart, then
    // the ASCII byte decodes normally.
    assert_eq!(utf8_lossy(&[0xc3, b'Z']), "\u{fffd}Z");
}
