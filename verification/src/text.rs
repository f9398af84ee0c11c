//! Text reads: turning a file's raw bytes into a UTF-8 string.
//!
//! The host layer reads the bytes; deciding whether they are a valid UTF-8
//! encoding is verified here, byte for byte, against the UTF-8 model in
//! `vstd::utf8`. Invalid content is reported as `InvalidEncoding`, never
//! silently replaced or truncated.

use vstd::prelude::*;
use vstd::utf8::*;
use crate::errors::FsError;

verus! {

/// An invalid first scalar sinks the whole sequence.
proof fn lemma_invalid_at(bytes: Seq<u8>, i: int)
    requires
        partial_valid_utf8(bytes, i),
        i < bytes.len(),
        !valid_first_scalar(bytes.subrange(i, bytes.len() as int)),
    ensures
        !valid_utf8(bytes),
{
    let rest = bytes.subrange(i, bytes.len() as int);
    assert(rest.len() > 0);
    assert(!valid_utf8(rest));
    partial_valid_partial_invalid_utf8(bytes, i);
}

/// Decides whether `bytes` is a valid UTF-8 encoding.
pub fn is_valid_utf8_bytes(bytes: &Vec<u8>) -> (b: bool)
    ensures
        b == valid_utf8(bytes@),
{
    let n = bytes.len();
    let mut i: usize = 0;
    while i < n
        invariant
            n == bytes@.len(),
            partial_valid_utf8(bytes@, i as int),
        decreases n - i,
    {
        let ghost rest = bytes@.subrange(i as int, n as int);
        let b0 = bytes[i];
        proof {
            assert(rest[0] == bytes@[i as int]);
        }
        if b0 <= 0x7f {
            proof {
                assert(((b0 & 0x7f) as u32) < 0xd800) by (bit_vector);
                assert(length_of_first_scalar(rest) == 1);
                assert(valid_first_scalar(rest));
                partial_valid_utf8_extend(bytes@, i as int);
            }
            i += 1;
        } else if 0xc0 <= b0 && b0 <= 0xdf {
            if i + 1 >= n {
                proof {
                    assert(rest.len() == 1);
                    assert(!valid_first_scalar(rest));
                    lemma_invalid_at(bytes@, i as int);
                }
                return false;
            }
            let b1 = bytes[i + 1];
            proof {
                assert(rest[1] == bytes@[i + 1]);
                assert(codepoint_width_2(b0, b1) == (((b0 & 0x1f) as u32) << 6) | ((b1
                    & 0x3f) as u32));
                assert((0xc0 <= b0 && b0 <= 0xc1 && 0x80 <= b1 && b1 <= 0xbf) ==> ((((b0
                    & 0x1f) as u32) << 6) | ((b1 & 0x3f) as u32)) < 0x80) by (bit_vector);
                assert((0xc2 <= b0 && b0 <= 0xdf && 0x80 <= b1 && b1 <= 0xbf) ==> 0x80 <= ((((b0
                    & 0x1f) as u32) << 6) | ((b1 & 0x3f) as u32)) && ((((b0 & 0x1f) as u32) << 6)
                    | ((b1 & 0x3f) as u32)) < 0xd800) by (bit_vector);
            }
            if !(0x80 <= b1 && b1 <= 0xbf) || b0 <= 0xc1 {
                proof {
                    assert(!valid_first_scalar(rest));
                    lemma_invalid_at(bytes@, i as int);
                }
                return false;
            }
            proof {
                assert(length_of_first_scalar(rest) == 2);
                assert(valid_first_scalar(rest));
                partial_valid_utf8_extend(bytes@, i as int);
            }
            i += 2;
        } else if 0xe0 <= b0 && b0 <= 0xef {
            if i + 1 >= n {
                proof {
                    assert(rest.len() == 1);
                    assert(!valid_first_scalar(rest));
                    lemma_invalid_at(bytes@, i as int);
                }
                return false;
            }
            if i + 2 >= n {
                proof {
                    assert(rest.len() == 2);
                    assert(rest[1] == bytes@[i + 1]);
                    assert(!valid_first_scalar(rest));
                    lemma_invalid_at(bytes@, i as int);
                }
                return false;
            }
            let b1 = bytes[i + 1];
            let b2 = bytes[i + 2];
            proof {
                assert(rest[1] == bytes@[i + 1] && rest[2] == bytes@[i + 2]);
                assert(codepoint_width_3(b0, b1, b2) == (((b0 & 0x0f) as u32) << 12) | (((b1
                    & 0x3f) as u32) << 6) | ((b2 & 0x3f) as u32));
                assert((b0 == 0xe0 && 0x80 <= b1 && b1 <= 0x9f) ==> ((((b0 & 0x0f) as u32) << 12)
                    | (((b1 & 0x3f) as u32) << 6) | ((b2 & 0x3f) as u32)) < 0x800) by (bit_vector);
                assert((b0 == 0xed && 0xa0 <= b1 && b1 <= 0xbf) ==> 0xd800 <= ((((b0
                    & 0x0f) as u32) << 12) | (((b1 & 0x3f) as u32) << 6) | ((b2 & 0x3f) as u32))
                    && ((((b0 & 0x0f) as u32) << 12) | (((b1 & 0x3f) as u32) << 6) | ((b2
                    & 0x3f) as u32)) <= 0xdfff) by (bit_vector);
                assert((0xe0 <= b0 && b0 <= 0xef && 0x80 <= b1 && b1 <= 0xbf && (b0 != 0xe0 || 0xa0
                    <= b1) && (b0 != 0xed || b1 <= 0x9f)) ==> 0x800 <= ((((b0 & 0x0f) as u32) << 12)
                    | (((b1 & 0x3f) as u32) << 6) | ((b2 & 0x3f) as u32)) && !(0xd800 <= ((((b0
                    & 0x0f) as u32) << 12) | (((b1 & 0x3f) as u32) << 6) | ((b2 & 0x3f) as u32))
                    && ((((b0 & 0x0f) as u32) << 12) | (((b1 & 0x3f) as u32) << 6) | ((b2
                    & 0x3f) as u32)) <= 0xdfff)) by (bit_vector);
            }
            if !(0x80 <= b1 && b1 <= 0xbf) || !(0x80 <= b2 && b2 <= 0xbf) || (b0 == 0xe0 && b1
                <= 0x9f) || (b0 == 0xed && b1 >= 0xa0) {
                proof {
                    assert(!valid_first_scalar(rest));
                    lemma_invalid_at(bytes@, i as int);
                }
                return false;
            }
            proof {
                assert(length_of_first_scalar(rest) == 3);
                assert(valid_first_scalar(rest));
                partial_valid_utf8_extend(bytes@, i as int);
            }
            i += 3;
        } else if 0xf0 <= b0 && b0 <= 0xf7 {
            if i + 1 >= n {
                proof {
                    assert(rest.len() == 1);
                    assert(!valid_first_scalar(rest));
                    lemma_invalid_at(bytes@, i as int);
                }
                return false;
            }
            if i + 2 >= n {
                proof {
                    assert(rest.len() == 2);
                    assert(rest[1] == bytes@[i + 1]);
                    assert(!valid_first_scalar(rest));
                    lemma_invalid_at(bytes@, i as int);
                }
                return false;
            }
            if i + 3 >= n {
                proof {
                    assert(rest.len() == 3);
                    assert(rest[1] == bytes@[i + 1] && rest[2] == bytes@[i + 2]);
                    assert(!valid_first_scalar(rest));
                    lemma_invalid_at(bytes@, i as int);
                }
                return false;
            }
            let b1 = bytes[i + 1];
            let b2 = bytes[i + 2];
            let b3 = bytes[i + 3];
            proof {
                assert(rest[1] == bytes@[i + 1] && rest[2] == bytes@[i + 2] && rest[3] == bytes@[i
                    + 3]);
                assert(codepoint_width_4(b0, b1, b2, b3) == (((b0 & 0x07) as u32) << 18) | (((b1
                    & 0x3f) as u32) << 12) | (((b2 & 0x3f) as u32) << 6) | ((b3 & 0x3f) as u32));
                assert((b0 == 0xf0 && 0x80 <= b1 && b1 <= 0x8f) ==> ((((b0 & 0x07) as u32) << 18)
                    | (((b1 & 0x3f) as u32) << 12) | (((b2 & 0x3f) as u32) << 6) | ((b3
                    & 0x3f) as u32)) < 0x10000) by (bit_vector);
                assert((0xf5 <= b0 && b0 <= 0xf7) ==> ((((b0 & 0x07) as u32) << 18) | (((b1
                    & 0x3f) as u32) << 12) | (((b2 & 0x3f) as u32) << 6) | ((b3 & 0x3f) as u32))
                    > 0x10ffff) by (bit_vector);
                assert((b0 == 0xf4 && 0x90 <= b1 && b1 <= 0xbf) ==> ((((b0 & 0x07) as u32) << 18)
                    | (((b1 & 0x3f) as u32) << 12) | (((b2 & 0x3f) as u32) << 6) | ((b3
                    & 0x3f) as u32)) > 0x10ffff) by (bit_vector);
                assert((0xf0 <= b0 && b0 <= 0xf4 && 0x80 <= b1 && b1 <= 0xbf && (b0 != 0xf0 || 0x90
                    <= b1) && (b0 != 0xf4 || b1 <= 0x8f)) ==> 0x10000 <= ((((b0 & 0x07) as u32)
                    << 18) | (((b1 & 0x3f) as u32) << 12) | (((b2 & 0x3f) as u32) << 6) | ((b3
                    & 0x3f) as u32)) && ((((b0 & 0x07) as u32) << 18) | (((b1 & 0x3f) as u32) << 12)
                    | (((b2 & 0x3f) as u32) << 6) | ((b3 & 0x3f) as u32)) <= 0x10ffff) by (
                bit_vector);
            }
            if !(0x80 <= b1 && b1 <= 0xbf) || !(0x80 <= b2 && b2 <= 0xbf) || !(0x80 <= b3 && b3
                <= 0xbf) || b0 >= 0xf5 || (b0 == 0xf0 && b1 <= 0x8f) || (b0 == 0xf4 && b1 >= 0x90) {
                proof {
                    assert(!valid_first_scalar(rest));
                    lemma_invalid_at(bytes@, i as int);
                }
                return false;
            }
            proof {
                assert(length_of_first_scalar(rest) == 4);
                assert(valid_first_scalar(rest));
                partial_valid_utf8_extend(bytes@, i as int);
            }
            i += 4;
        } else {
            proof {
                assert(!valid_first_scalar(rest));
                lemma_invalid_at(bytes@, i as int);
            }
            return false;
        }
    }
    proof {
        assert(bytes@.subrange(0, n as int) =~= bytes@);
    }
    true
}

/// Relies on String::from_utf8: on bytes that are a valid UTF-8 encoding
/// it returns (the Ok of) the string spelled by exactly those bytes.
#[verifier::external_body]
fn string_from_valid_utf8(bytes: Vec<u8>) -> (r: String)
    requires
        valid_utf8(bytes@),
    ensures
        encode_utf8(r@) == bytes@,
{
    match String::from_utf8(bytes) {
        Ok(s) => s,
        Err(_) => String::new(),
    }
}

/// Decodes a file's content into text.
///
/// Succeeds exactly when the bytes are a valid UTF-8 encoding, and then
/// returns the decoded text unchanged — the result's own encoding is the
/// input, byte for byte. Anything else is `InvalidEncoding`.
pub fn decode_text(bytes: Vec<u8>) -> (r: Result<String, FsError>)
    ensures
        r is Ok <==> valid_utf8(bytes@),
        r matches Ok(s) ==> s@ == decode_utf8(bytes@) && encode_utf8(s@) == bytes@,
        r matches Err(e) ==> e == FsError::InvalidEncoding,
{
    if is_valid_utf8_bytes(&bytes) {
        let ghost b = bytes@;
        let s = string_from_valid_utf8(bytes);
        proof {
            encode_utf8_decode_utf8(s@);
        }
        Ok(s)
    } else {
        Err(FsError::InvalidEncoding)
    }
}

/// Law: reading text is the identity on any file whose bytes spell a valid
/// UTF-8 string `s`: those bytes are a valid encoding, and they decode back
/// to exactly `s`.
pub proof fn lemma_text_round_trip(s: Seq<char>)
    ensures
        valid_utf8(encode_utf8(s)),
        decode_utf8(encode_utf8(s)) == s,
{
    encode_utf8_valid_utf8(s);
    encode_utf8_decode_utf8(s);
}

} // verus!
