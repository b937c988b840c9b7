//! A decision procedure for UTF-8 validity.
//!
//! The non-printing escape falls back to the untouched line whenever the
//! escaped byte sequence would not decode as text again. This module
//! provides the check: an executable validator proved equivalent to
//! `vstd::utf8::valid_utf8`, the mathematical definition of a well-formed
//! UTF-8 encoding.

use vstd::prelude::*;
use vstd::utf8::*;

verus! {

/// Decides whether `bytes` is a valid UTF-8 encoding, in the sense of
/// `vstd::utf8::valid_utf8`: every scalar is encoded with the correct
/// leading and continuation byte patterns, without overlong encodings and
/// without surrogate values.
pub fn check_utf8(bytes: &Vec<u8>) -> (r: bool)
    ensures
        r == valid_utf8(bytes@),
{
    let n = bytes.len();
    let mut i: usize = 0;
    proof {
        assert(bytes@.skip(0) =~= bytes@);
    }
    while i < n
        invariant
            i <= n,
            n == bytes@.len(),
            valid_utf8(bytes@) <==> valid_utf8(bytes@.skip(i as int)),
        decreases n - i,
    {
        let ghost rest = bytes@.skip(i as int);
        proof {
            assert(rest.len() == n - i);
            assert(forall|k: int| 0 <= k < rest.len() ==> rest[k] == bytes@[i + k]);
        }
        let b0 = bytes[i];
        let width: usize;
        let cp: u32;
        if b0 < 0x80 {
            width = 1;
            cp = (b0 & 0x7f) as u32;
        } else if b0 < 0xc0 {
            // A continuation byte cannot lead a scalar.
            proof {
                assert(!valid_leading_and_continuation_bytes_first_codepoint(rest));
                assert(!valid_utf8(rest));
            }
            return false;
        } else if b0 < 0xe0 {
            if n - i < 2 || !is_continuation(bytes[i + 1]) {
                proof {
                    assert(!valid_leading_and_continuation_bytes_first_codepoint(rest));
                    assert(!valid_utf8(rest));
                }
                return false;
            }
            let b1 = bytes[i + 1];
            width = 2;
            cp = (((b0 & 0x1f) as u32) << 6u32) | ((b1 & 0x3f) as u32);
            proof {
                assert(!is_leading_byte_width_1(rest[0]));
                assert(cp == codepoint_width_2(b0, b1));
            }
        } else if b0 < 0xf0 {
            if n - i < 3 || !is_continuation(bytes[i + 1]) || !is_continuation(bytes[i + 2]) {
                proof {
                    assert(!valid_leading_and_continuation_bytes_first_codepoint(rest));
                    assert(!valid_utf8(rest));
                }
                return false;
            }
            let b1 = bytes[i + 1];
            let b2 = bytes[i + 2];
            width = 3;
            cp = (((b0 & 0x0f) as u32) << 12u32) | (((b1 & 0x3f) as u32) << 6u32) | ((b2
                & 0x3f) as u32);
            proof {
                assert(!is_leading_byte_width_1(rest[0]));
                assert(!is_leading_byte_width_2(rest[0]));
                assert(cp == codepoint_width_3(b0, b1, b2));
            }
        } else if b0 < 0xf8 {
            if n - i < 4 || !is_continuation(bytes[i + 1]) || !is_continuation(bytes[i + 2])
                || !is_continuation(bytes[i + 3]) {
                proof {
                    assert(!valid_leading_and_continuation_bytes_first_codepoint(rest));
                    assert(!valid_utf8(rest));
                }
                return false;
            }
            let b1 = bytes[i + 1];
            let b2 = bytes[i + 2];
            let b3 = bytes[i + 3];
            width = 4;
            cp = (((b0 & 0x07) as u32) << 18u32) | (((b1 & 0x3f) as u32) << 12u32) | (((b2
                & 0x3f) as u32) << 6u32) | ((b3 & 0x3f) as u32);
            proof {
                assert(!is_leading_byte_width_1(rest[0]));
                assert(!is_leading_byte_width_2(rest[0]));
                assert(!is_leading_byte_width_3(rest[0]));
                assert(cp == codepoint_width_4(b0, b1, b2, b3));
            }
        } else {
            // 0xf8 and above fits no leading-byte pattern.
            proof {
                assert(!valid_leading_and_continuation_bytes_first_codepoint(rest));
                assert(!valid_utf8(rest));
            }
            return false;
        }
        proof {
            assert(valid_leading_and_continuation_bytes_first_codepoint(rest));
            assert(length_of_first_codepoint(rest) == width);
            assert(decode_first_codepoint(rest) == cp);
        }
        if width == 2 && cp < 0x80 {
            proof {
                assert(!not_overlong_encoding(cp, 2));
                assert(!valid_utf8(rest));
            }
            return false;
        }
        if width == 3 && cp < 0x800 {
            proof {
                assert(!not_overlong_encoding(cp, 3));
                assert(!valid_utf8(rest));
            }
            return false;
        }
        if width == 4 && (cp < 0x10000 || cp > 0x10ffff) {
            proof {
                assert(!not_overlong_encoding(cp, 4));
                assert(!valid_utf8(rest));
            }
            return false;
        }
        if 0xd800 <= cp && cp <= 0xdfff {
            proof {
                assert(!not_surrogate(cp));
                assert(!valid_utf8(rest));
            }
            return false;
        }
        proof {
            assert(valid_first_scalar(rest));
            assert(length_of_first_scalar(rest) == width);
            assert(pop_first_scalar(rest) =~= bytes@.skip(i + width));
            assert(valid_utf8(rest) <==> valid_utf8(bytes@.skip(i + width)));
        }
        i = i + width;
    }
    proof {
        assert(bytes@.skip(n as int) =~= Seq::<u8>::empty());
        assert(valid_utf8(Seq::<u8>::empty()));
    }
    true
}

/// True when `b` has the `10xxxxxx` pattern of a UTF-8 continuation byte.
fn is_continuation(b: u8) -> (r: bool)
    ensures
        r == is_continuation_byte(b),
{
    0x80 <= b && b <= 0xbf
}

/// A sequence of plain ASCII bytes is always valid UTF-8: each byte is a
/// complete one-byte scalar.
pub proof fn lemma_ascii_valid_utf8(s: Seq<u8>)
    requires
        forall|j: int| 0 <= j < s.len() ==> s[j] < 128,
    ensures
        valid_utf8(s),
    decreases s.len(),
{
    if s.len() > 0 {
        let b = s[0];
        assert(is_leading_byte_width_1(b));
        assert(valid_leading_and_continuation_bytes_first_codepoint(s));
        assert(decode_first_codepoint(s) == (b & 0x7f) as u32);
        assert(b & 0x7f < 0x80) by (bit_vector);
        assert(valid_first_scalar(s));
        assert(pop_first_scalar(s) =~= s.skip(1));
        lemma_ascii_valid_utf8(s.skip(1));
    }
}

} // verus!
