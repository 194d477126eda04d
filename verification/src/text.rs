//! Permissive UTF-8 decoding for byte buffers that cross the native
//! boundary.
//!
//! Diagnostic buffers and tensor names arrive as raw bytes. [`utf8_lossy`]
//! decodes such bytes permissively: every position that begins a
//! well-formed scalar encoding contributes its character, and every
//! maximal subpart of an ill-formed sequence — the longest prefix that
//! could still begin a well-formed encoding, or a single byte when none
//! can — is replaced by one U+FFFD, so decoding never fails. This is the
//! substitution that `String::from_utf8_lossy` performs. [`utf8_valid`]
//! decides whether a buffer is strictly valid UTF-8; on valid buffers the
//! permissive decoding agrees with the strict one
//! ([`lemma_decode_lossy_of_valid`]).

use vstd::prelude::*;
use vstd::utf8::*;

verus! {

/// Character substituted for a maximal subpart of an ill-formed UTF-8
/// sequence.
pub const REPLACEMENT_CHAR: char = '\u{fffd}';

/// The byte values that may stand second in a well-formed encoding led by
/// `b0`, for leads whose second byte is restricted (Unicode's well-formed
/// byte ranges): overlong encodings, surrogates and values past U+10FFFF
/// are already excluded at the second byte.
pub open spec fn valid_second_byte(b0: u8, b1: u8) -> bool {
    if b0 == 0xe0 {
        0xa0 <= b1 <= 0xbf
    } else if b0 == 0xed {
        0x80 <= b1 <= 0x9f
    } else if 0xe1 <= b0 <= 0xef {
        0x80 <= b1 <= 0xbf
    } else if b0 == 0xf0 {
        0x90 <= b1 <= 0xbf
    } else if b0 == 0xf4 {
        0x80 <= b1 <= 0x8f
    } else if 0xf1 <= b0 <= 0xf3 {
        0x80 <= b1 <= 0xbf
    } else {
        false
    }
}

/// Number of bytes one replacement character stands for when the bytes do
/// not begin a well-formed scalar encoding: the maximal prefix that could
/// still begin a well-formed encoding (the "maximal subpart"), or a
/// single byte when no well-formed encoding can start here.
pub open spec fn replaced_len(bytes: Seq<u8>) -> int
    recommends
        bytes.len() > 0,
        !valid_first_scalar(bytes),
{
    let b0 = bytes[0];
    if 0xe0 <= b0 <= 0xef {
        if bytes.len() >= 2 && valid_second_byte(b0, bytes[1]) {
            2
        } else {
            1
        }
    } else if 0xf0 <= b0 <= 0xf4 {
        if bytes.len() >= 2 && valid_second_byte(b0, bytes[1]) {
            if bytes.len() >= 3 && is_continuation_byte(bytes[2]) {
                3
            } else {
                2
            }
        } else {
            1
        }
    } else {
        1
    }
}

/// A maximal subpart takes between one and three bytes of the sequence.
pub proof fn lemma_replaced_len_bounds(bytes: Seq<u8>)
    requires
        bytes.len() > 0,
    ensures
        1 <= replaced_len(bytes) <= 3,
        replaced_len(bytes) <= bytes.len(),
{
}

/// The permissive decoding of a byte sequence: each well-formed scalar
/// encoding yields its character, each maximal subpart of an ill-formed
/// sequence yields one U+FFFD.
pub open spec fn decode_lossy(bytes: Seq<u8>) -> Seq<char>
    decreases bytes.len(),
    via decode_lossy_decreases
{
    if bytes.len() == 0 {
        seq![]
    } else if valid_first_scalar(bytes) {
        seq![decode_first_scalar(bytes) as char] + decode_lossy(pop_first_scalar(bytes))
    } else {
        seq![REPLACEMENT_CHAR] + decode_lossy(bytes.skip(replaced_len(bytes)))
    }
}

/// A well-formed first scalar takes between one and four bytes of the
/// sequence, so removing it shortens the sequence.
pub proof fn lemma_pop_first_scalar_shorter(bytes: Seq<u8>)
    requires
        valid_first_scalar(bytes),
    ensures
        1 <= length_of_first_scalar(bytes) <= bytes.len(),
        pop_first_scalar(bytes).len() == bytes.len() - length_of_first_scalar(bytes),
{
    assert(valid_leading_and_continuation_bytes_first_codepoint(bytes));
}

#[via_fn]
proof fn decode_lossy_decreases(bytes: Seq<u8>) {
    if bytes.len() != 0 {
        if valid_first_scalar(bytes) {
            lemma_pop_first_scalar_shorter(bytes);
        } else {
            lemma_replaced_len_bounds(bytes);
        }
    }
}

/// On strictly valid UTF-8 the permissive decoding is the strict decoding.
pub proof fn lemma_decode_lossy_of_valid(bytes: Seq<u8>)
    requires
        valid_utf8(bytes),
    ensures
        decode_lossy(bytes) == decode_utf8(bytes),
    decreases bytes.len(),
{
    if bytes.len() != 0 {
        lemma_pop_first_scalar_shorter(bytes);
        lemma_decode_lossy_of_valid(pop_first_scalar(bytes));
    }
}

/// Relies on char::from_u32: it returns `Some` exactly for the valid
/// Unicode scalar values (everything up to 0x10FFFF except the surrogate
/// range), and the returned character carries the given scalar value.
#[verifier::external_body]
fn char_from_u32(v: u32) -> (r: Option<char>)
    ensures
        r is Some <==> (v < 0xD800 || (0xE000 <= v && v <= 0x10FFFF)),
        r matches Some(c) ==> c as u32 == v,
{
    char::from_u32(v)
}

/// Relies on String::push: it appends exactly the given character.
#[verifier::external_body]
pub(crate) fn push_char(s: &mut String, c: char)
    ensures
        final(s)@ == old(s)@.push(c),
{
    s.push(c);
}

/// Relies on String::push_str: it appends exactly the given string slice.
#[verifier::external_body]
pub(crate) fn append_str(s: &mut String, t: &str)
    ensures
        final(s)@ == old(s)@ + t@,
{
    s.push_str(t);
}

/// Reads the encoding that starts at position `i`: the decoded character
/// and its width when the bytes there form a well-formed scalar encoding,
/// and no character together with the width of the maximal subpart
/// otherwise.
fn next_scalar(bytes: &[u8], i: usize) -> (r: (Option<char>, usize))
    requires
        i < bytes@.len(),
    ensures
        ({
            let s = bytes@.skip(i as int);
            &&& (valid_first_scalar(s) ==> (r.0 matches Some(c) && c == decode_first_scalar(s)
                as char && r.1 == length_of_first_scalar(s)))
            &&& (!valid_first_scalar(s) ==> r.0 is None && r.1 == replaced_len(s))
            &&& 1 <= r.1 <= 4
            &&& i + r.1 <= bytes@.len()
        }),
{
    let ghost s = bytes@.skip(i as int);
    let n = bytes.len();
    let b0 = bytes[i];
    assert(s[0] == bytes@[i as int]);
    if b0 < 0x80 {
        // One-byte encoding: the byte is the scalar.
        assert(codepoint_width_1(b0) == b0 as u32) by (bit_vector)
            requires b0 < 0x80;
        let c = match char_from_u32(b0 as u32) {
            Some(c) => c,
            None => {
                proof {
                    assert(false) by (bit_vector) requires !(b0 < 0x80 ==> (b0 as u32) < 0xD800);
                }
                return (None, 1);
            },
        };
        proof {
            char_u32_cast(c, decode_first_scalar(s));
        }
        (Some(c), 1)
    } else if b0 < 0xc0 {
        // A continuation byte cannot lead an encoding.
        assert(!valid_leading_and_continuation_bytes_first_codepoint(s));
        (None, 1)
    } else if b0 < 0xc2 {
        // 0xc0 and 0xc1 could only lead overlong two-byte encodings.
        proof {
            if s.len() >= 2 && is_continuation_byte(s[1]) {
                let ghost b1g = s[1];
                let ghost v2 = codepoint_width_2(b0, b1g);
                assert(v2 < 0x80) by (bit_vector)
                    requires
                        0xc0 <= b0 < 0xc2,
                        v2 == (((b0 & 0x1f) as u32) << 6) | ((b1g & 0x3f) as u32),
                ;
                assert(!not_overlong_encoding(
                    decode_first_codepoint(s),
                    length_of_first_codepoint(s),
                ));
            } else {
                assert(!valid_leading_and_continuation_bytes_first_codepoint(s));
            }
        }
        (None, 1)
    } else if b0 < 0xe0 {
        // Two-byte encoding, lead 0xc2..=0xdf.
        if n - i < 2 {
            assert(!valid_leading_and_continuation_bytes_first_codepoint(s));
            return (None, 1);
        }
        let b1 = bytes[i + 1];
        assert(s[1] == bytes@[i + 1]);
        if !(0x80 <= b1 && b1 < 0xc0) {
            assert(!valid_leading_and_continuation_bytes_first_codepoint(s));
            return (None, 1);
        }
        let v: u32 = (((b0 & 0x1f) as u32) << 6) | ((b1 & 0x3f) as u32);
        assert(v == codepoint_width_2(b0, b1));
        proof {
            assert(0x80 <= v && v <= 0x7FF) by (bit_vector)
                requires
                    0xc2 <= b0 < 0xe0,
                    0x80 <= b1 < 0xc0,
                    v == (((b0 & 0x1f) as u32) << 6) | ((b1 & 0x3f) as u32),
            ;
        }
        let c = match char_from_u32(v) {
            Some(c) => c,
            None => {
                proof {
                    assert(false);
                }
                return (None, 1);
            },
        };
        proof {
            char_u32_cast(c, decode_first_scalar(s));
        }
        (Some(c), 2)
    } else if b0 < 0xf0 {
        // Three-byte encoding, lead 0xe0..=0xef.
        if n - i < 2 {
            assert(!valid_leading_and_continuation_bytes_first_codepoint(s));
            return (None, 1);
        }
        let b1 = bytes[i + 1];
        assert(s[1] == bytes@[i + 1]);
        let second_ok: bool = if b0 == 0xe0 {
            0xa0 <= b1 && b1 <= 0xbf
        } else if b0 == 0xed {
            0x80 <= b1 && b1 <= 0x9f
        } else {
            0x80 <= b1 && b1 <= 0xbf
        };
        if !second_ok {
            // The lead stands alone: whatever follows, no well-formed
            // encoding starts here.
            proof {
                assert(!valid_second_byte(b0, b1));
                if s.len() >= 3 && is_continuation_byte(s[1]) && is_continuation_byte(s[2]) {
                    let ghost b2g = s[2];
                    let ghost v3 = codepoint_width_3(b0, b1, b2g);
                    assert((b0 == 0xe0 && b1 < 0xa0) ==> v3 < 0x800) by (bit_vector)
                        requires
                            0xe0 <= b0 < 0xf0,
                            0x80 <= b1 < 0xc0,
                            0x80 <= b2g < 0xc0,
                            v3 == (((b0 & 0x0f) as u32) << 12) | (((b1 & 0x3f) as u32) << 6) | ((
                            b2g & 0x3f) as u32),
                    ;
                    assert((b0 == 0xed && b1 > 0x9f) ==> (0xD800 <= v3 && v3 <= 0xDFFF))
                        by (bit_vector)
                        requires
                            0xe0 <= b0 < 0xf0,
                            0x80 <= b1 < 0xc0,
                            0x80 <= b2g < 0xc0,
                            v3 == (((b0 & 0x0f) as u32) << 12) | (((b1 & 0x3f) as u32) << 6) | ((
                            b2g & 0x3f) as u32),
                    ;
                    assert(!valid_first_scalar(s));
                } else {
                    assert(!valid_leading_and_continuation_bytes_first_codepoint(s));
                }
            }
            return (None, 1);
        }
        if n - i < 3 {
            assert(!valid_leading_and_continuation_bytes_first_codepoint(s));
            return (None, 2);
        }
        let b2 = bytes[i + 2];
        assert(s[2] == bytes@[i + 2]);
        if !(0x80 <= b2 && b2 < 0xc0) {
            assert(!valid_leading_and_continuation_bytes_first_codepoint(s));
            return (None, 2);
        }
        let v: u32 = (((b0 & 0x0f) as u32) << 12) | (((b1 & 0x3f) as u32) << 6) | ((b2 & 0x3f)
            as u32);
        assert(v == codepoint_width_3(b0, b1, b2));
        proof {
            assert(0x800 <= v && v <= 0xFFFF && !(0xD800 <= v && v <= 0xDFFF)) by (bit_vector)
                requires
                    0xe0 <= b0 < 0xf0,
                    0x80 <= b1 < 0xc0,
                    0x80 <= b2 < 0xc0,
                    b0 == 0xe0 ==> 0xa0 <= b1,
                    b0 == 0xed ==> b1 <= 0x9f,
                    v == (((b0 & 0x0f) as u32) << 12) | (((b1 & 0x3f) as u32) << 6) | ((b2 & 0x3f)
                    as u32),
            ;
        }
        let c = match char_from_u32(v) {
            Some(c) => c,
            None => {
                proof {
                    assert(false);
                }
                return (None, 1);
            },
        };
        proof {
            char_u32_cast(c, decode_first_scalar(s));
        }
        (Some(c), 3)
    } else if b0 < 0xf5 {
        // Four-byte encoding, lead 0xf0..=0xf4.
        if n - i < 2 {
            assert(!valid_leading_and_continuation_bytes_first_codepoint(s));
            return (None, 1);
        }
        let b1 = bytes[i + 1];
        assert(s[1] == bytes@[i + 1]);
        let second_ok: bool = if b0 == 0xf0 {
            0x90 <= b1 && b1 <= 0xbf
        } else if b0 == 0xf4 {
            0x80 <= b1 && b1 <= 0x8f
        } else {
            0x80 <= b1 && b1 <= 0xbf
        };
        if !second_ok {
            proof {
                assert(!valid_second_byte(b0, b1));
                if s.len() >= 4 && is_continuation_byte(s[1]) && is_continuation_byte(s[2])
                    && is_continuation_byte(s[3]) {
                    let ghost b2g = s[2];
                    let ghost b3g = s[3];
                    let ghost v4 = codepoint_width_4(b0, b1, b2g, b3g);
                    assert((b0 == 0xf0 && b1 < 0x90) ==> v4 < 0x10000) by (bit_vector)
                        requires
                            0xf0 <= b0 < 0xf5,
                            0x80 <= b1 < 0xc0,
                            0x80 <= b2g < 0xc0,
                            0x80 <= b3g < 0xc0,
                            v4 == (((b0 & 0x07) as u32) << 18) | (((b1 & 0x3f) as u32) << 12) | (((
                            b2g & 0x3f) as u32) << 6) | ((b3g & 0x3f) as u32),
                    ;
                    assert((b0 == 0xf4 && b1 > 0x8f) ==> v4 > 0x10FFFF) by (bit_vector)
                        requires
                            0xf0 <= b0 < 0xf5,
                            0x80 <= b1 < 0xc0,
                            0x80 <= b2g < 0xc0,
                            0x80 <= b3g < 0xc0,
                            v4 == (((b0 & 0x07) as u32) << 18) | (((b1 & 0x3f) as u32) << 12) | (((
                            b2g & 0x3f) as u32) << 6) | ((b3g & 0x3f) as u32),
                    ;
                    assert(!valid_first_scalar(s));
                } else {
                    assert(!valid_leading_and_continuation_bytes_first_codepoint(s));
                }
            }
            return (None, 1);
        }
        if n - i < 3 {
            assert(!valid_leading_and_continuation_bytes_first_codepoint(s));
            return (None, 2);
        }
        let b2 = bytes[i + 2];
        assert(s[2] == bytes@[i + 2]);
        if !(0x80 <= b2 && b2 < 0xc0) {
            assert(!valid_leading_and_continuation_bytes_first_codepoint(s));
            return (None, 2);
        }
        if n - i < 4 {
            assert(!valid_leading_and_continuation_bytes_first_codepoint(s));
            return (None, 3);
        }
        let b3 = bytes[i + 3];
        assert(s[3] == bytes@[i + 3]);
        if !(0x80 <= b3 && b3 < 0xc0) {
            assert(!valid_leading_and_continuation_bytes_first_codepoint(s));
            return (None, 3);
        }
        let v: u32 = (((b0 & 0x07) as u32) << 18) | (((b1 & 0x3f) as u32) << 12) | (((b2 & 0x3f)
            as u32) << 6) | ((b3 & 0x3f) as u32);
        assert(v == codepoint_width_4(b0, b1, b2, b3));
        proof {
            assert(0x10000 <= v && v <= 0x10FFFF) by (bit_vector)
                requires
                    0xf0 <= b0 < 0xf5,
                    0x80 <= b1 < 0xc0,
                    0x80 <= b2 < 0xc0,
                    0x80 <= b3 < 0xc0,
                    b0 == 0xf0 ==> 0x90 <= b1,
                    b0 == 0xf4 ==> b1 <= 0x8f,
                    v == (((b0 & 0x07) as u32) << 18) | (((b1 & 0x3f) as u32) << 12) | (((b2
                    & 0x3f) as u32) << 6) | ((b3 & 0x3f) as u32),
            ;
        }
        let c = match char_from_u32(v) {
            Some(c) => c,
            None => {
                proof {
                    assert(false);
                }
                return (None, 1);
            },
        };
        proof {
            char_u32_cast(c, decode_first_scalar(s));
        }
        (Some(c), 4)
    } else {
        // 0xf5..=0xff never leads a well-formed encoding: either not a
        // lead byte at all, or every value it could encode lies past
        // U+10FFFF.
        proof {
            if s.len() >= 4 && is_continuation_byte(s[1]) && is_continuation_byte(s[2])
                && is_continuation_byte(s[3]) {
                if b0 < 0xf8 {
                    let ghost b1g = s[1];
                    let ghost b2g = s[2];
                    let ghost b3g = s[3];
                    let ghost v4 = codepoint_width_4(b0, b1g, b2g, b3g);
                    assert(v4 > 0x10FFFF) by (bit_vector)
                        requires
                            0xf5 <= b0 < 0xf8,
                            0x80 <= b1g < 0xc0,
                            0x80 <= b2g < 0xc0,
                            0x80 <= b3g < 0xc0,
                            v4 == (((b0 & 0x07) as u32) << 18) | (((b1g & 0x3f) as u32) << 12) | (((
                            b2g & 0x3f) as u32) << 6) | ((b3g & 0x3f) as u32),
                    ;
                    assert(!valid_first_scalar(s));
                } else {
                    assert(!valid_leading_and_continuation_bytes_first_codepoint(s));
                }
            } else {
                if b0 >= 0xf8 {
                    assert(!valid_leading_and_continuation_bytes_first_codepoint(s));
                } else {
                    assert(!valid_leading_and_continuation_bytes_first_codepoint(s));
                }
            }
        }
        (None, 1)
    }
}

/// Decodes a byte buffer permissively: well-formed scalar encodings become
/// their characters, every maximal subpart of an ill-formed sequence
/// becomes one U+FFFD. Never fails.
pub fn utf8_lossy(bytes: &[u8]) -> (s: String)
    ensures
        s@ == decode_lossy(bytes@),
{
    let mut s = String::new();
    let mut i: usize = 0;
    let n = bytes.len();
    proof {
        assert(bytes@.skip(0) =~= bytes@);
        assert(s@ + decode_lossy(bytes@) =~= decode_lossy(bytes@));
    }
    while i < n
        invariant
            i <= n,
            n == bytes@.len(),
            decode_lossy(bytes@) == s@ + decode_lossy(bytes@.skip(i as int)),
        decreases n - i,
    {
        let ghost rest = bytes@.skip(i as int);
        let (copt, w) = next_scalar(bytes, i);
        match copt {
            Some(c) => {
                proof {
                    lemma_pop_first_scalar_shorter(rest);
                    assert(pop_first_scalar(rest) =~= bytes@.skip(i + w));
                    assert(s@ + (seq![c] + decode_lossy(bytes@.skip(i + w))) =~= s@.push(c)
                        + decode_lossy(bytes@.skip(i + w)));
                }
                push_char(&mut s, c);
            },
            None => {
                proof {
                    assert(rest.skip(replaced_len(rest)) =~= bytes@.skip(i + w));
                    assert(s@ + (seq![REPLACEMENT_CHAR] + decode_lossy(bytes@.skip(i + w)))
                        =~= s@.push(REPLACEMENT_CHAR) + decode_lossy(bytes@.skip(i + w)));
                }
                push_char(&mut s, REPLACEMENT_CHAR);
            },
        }
        i = i + w;
    }
    proof {
        assert(bytes@.skip(n as int) =~= Seq::<u8>::empty());
        assert(s@ + decode_lossy(Seq::<u8>::empty()) =~= s@);
    }
    s
}

/// Decides whether a byte buffer is strictly valid UTF-8.
pub fn utf8_valid(bytes: &[u8]) -> (b: bool)
    ensures
        b == valid_utf8(bytes@),
{
    let mut i: usize = 0;
    let n = bytes.len();
    proof {
        assert(bytes@.skip(0) =~= bytes@);
    }
    while i < n
        invariant
            i <= n,
            n == bytes@.len(),
            valid_utf8(bytes@) <==> valid_utf8(bytes@.skip(i as int)),
        decreases n - i,
    {
        let ghost rest = bytes@.skip(i as int);
        let (copt, w) = next_scalar(bytes, i);
        match copt {
            Some(_) => {
                proof {
                    lemma_pop_first_scalar_shorter(rest);
                    assert(pop_first_scalar(rest) =~= bytes@.skip(i + w));
                }
                i = i + w;
            },
            None => {
                assert(!valid_utf8(rest));
                return false;
            },
        }
    }
    proof {
        assert(bytes@.skip(n as int) =~= Seq::<u8>::empty());
    }
    true
}

} // verus!
