//! Turning received bytes into text.
//!
//! The listener reads a raw byte stream from its one connection and reports
//! it as text. [`decode_text`] is a UTF-8 decoder verified against vstd's
//! UTF-8 specification: it returns the decoded characters exactly when the
//! bytes are valid UTF-8. [`received_text`] is the best-effort form the
//! listener uses: invalid bytes are silently discarded and yield the empty
//! string.

use vstd::prelude::*;
use vstd::utf8::*;

verus! {

/// Relies on `char::from_u32`: it returns `Some` exactly when the value is a
/// Unicode scalar (at most 0x10FFFF and not a surrogate), and the returned
/// character has the given value as its code point.
#[verifier::external_body]
fn char_from_u32(v: u32) -> (r: Option<char>)
    ensures
        r is Some <==> is_scalar(v),
        (r matches Some(c) ==> c as u32 == v),
{
    char::from_u32(v)
}

/// Relies on `String::push`: it appends the given character to the end of
/// the string.
#[verifier::external_body]
fn push_char(s: &mut String, c: char)
    ensures
        final(s)@ == old(s)@ + seq![c],
{
    s.push(c);
}

/// Reads the UTF-8 encoding of a single Unicode scalar at position `i` of
/// `bytes`. Returns the decoded character and the width of its encoding, or
/// `None` when no well-formed scalar encoding starts at `i`.
fn decode_step(bytes: &Vec<u8>, i: usize) -> (r: Option<(char, usize)>)
    requires
        i < bytes@.len(),
    ensures
        r is Some <==> valid_first_scalar(bytes@.subrange(i as int, bytes@.len() as int)),
        (r matches Some(cw) ==> {
            let s = bytes@.subrange(i as int, bytes@.len() as int);
            &&& cw.1 == length_of_first_scalar(s)
            &&& i + cw.1 <= bytes@.len()
            &&& cw.0 as u32 == decode_first_scalar(s)
            &&& cw.0 == (decode_first_scalar(s) as char)
        }),
{
    let ghost s = bytes@.subrange(i as int, bytes@.len() as int);
    let n = bytes.len();
    let rem = n - i;
    let b0 = bytes[i];
    if b0 < 0x80 {
        // Width 1: 0xxxxxxx.
        let cp: u32 = (b0 & 0x7F) as u32;
        assert(cp == b0 as u32 && cp <= 0x7F) by (bit_vector)
            requires
                b0 < 0x80 && cp == (b0 & 0x7F) as u32,
        ;
        assert(decode_first_codepoint(s) == cp);
        assert(valid_first_scalar(s) && length_of_first_scalar(s) == 1);
        let c = char_from_u32(cp).unwrap();
        proof {
            char_u32_cast(c, cp);
        }
        Some((c, 1))
    } else if b0 < 0xC0 {
        // A continuation byte cannot lead a scalar encoding.
        assert(!valid_first_scalar(s));
        None
    } else if b0 < 0xE0 {
        // Width 2: 110xxxxx 10xxxxxx.
        if rem < 2 {
            assert(!valid_first_scalar(s));
            return None;
        }
        let b1 = bytes[i + 1];
        if !(0x80 <= b1 && b1 < 0xC0) {
            assert(!valid_first_scalar(s));
            return None;
        }
        let cp: u32 = (((b0 & 0x1F) as u32) << 6) | ((b1 & 0x3F) as u32);
        assert(decode_first_codepoint(s) == cp);
        if cp < 0x80 {
            // Overlong encoding.
            assert(!valid_first_scalar(s));
            return None;
        }
        assert(cp <= 0x7FF) by (bit_vector)
            requires
                cp == (((b0 & 0x1F) as u32) << 6) | ((b1 & 0x3F) as u32),
        ;
        assert(valid_first_scalar(s) && length_of_first_scalar(s) == 2);
        let c = char_from_u32(cp).unwrap();
        proof {
            char_u32_cast(c, cp);
        }
        Some((c, 2))
    } else if b0 < 0xF0 {
        // Width 3: 1110xxxx 10xxxxxx 10xxxxxx.
        if rem < 3 {
            assert(!valid_first_scalar(s));
            return None;
        }
        let b1 = bytes[i + 1];
        let b2 = bytes[i + 2];
        if !(0x80 <= b1 && b1 < 0xC0) || !(0x80 <= b2 && b2 < 0xC0) {
            assert(!valid_first_scalar(s));
            return None;
        }
        let cp: u32 = (((b0 & 0x0F) as u32) << 12) | (((b1 & 0x3F) as u32) << 6) | ((b2
            & 0x3F) as u32);
        assert(decode_first_codepoint(s) == cp);
        if cp < 0x800 {
            // Overlong encoding.
            assert(!valid_first_scalar(s));
            return None;
        }
        if 0xD800 <= cp && cp <= 0xDFFF {
            // Surrogate range.
            assert(!valid_first_scalar(s));
            return None;
        }
        assert(cp <= 0xFFFF) by (bit_vector)
            requires
                cp == (((b0 & 0x0F) as u32) << 12) | (((b1 & 0x3F) as u32) << 6) | ((b2
                    & 0x3F) as u32),
        ;
        assert(valid_first_scalar(s) && length_of_first_scalar(s) == 3);
        let c = char_from_u32(cp).unwrap();
        proof {
            char_u32_cast(c, cp);
        }
        Some((c, 3))
    } else if b0 < 0xF8 {
        // Width 4: 11110xxx 10xxxxxx 10xxxxxx 10xxxxxx.
        if rem < 4 {
            assert(!valid_first_scalar(s));
            return None;
        }
        let b1 = bytes[i + 1];
        let b2 = bytes[i + 2];
        let b3 = bytes[i + 3];
        if !(0x80 <= b1 && b1 < 0xC0) || !(0x80 <= b2 && b2 < 0xC0) || !(0x80 <= b3 && b3
            < 0xC0) {
            assert(!valid_first_scalar(s));
            return None;
        }
        let cp: u32 = (((b0 & 0x07) as u32) << 18) | (((b1 & 0x3F) as u32) << 12) | (((b2
            & 0x3F) as u32) << 6) | ((b3 & 0x3F) as u32);
        assert(decode_first_codepoint(s) == cp);
        if cp < 0x10000 || cp > 0x10FFFF {
            // Overlong encoding or beyond the last Unicode scalar.
            assert(!valid_first_scalar(s));
            return None;
        }
        assert(valid_first_scalar(s) && length_of_first_scalar(s) == 4);
        let c = char_from_u32(cp).unwrap();
        proof {
            char_u32_cast(c, cp);
        }
        Some((c, 4))
    } else {
        // 0xF8 and above lead no UTF-8 encoding.
        assert(!valid_first_scalar(s));
        None
    }
}

/// Decodes the received bytes as UTF-8 text. Returns the decoded characters
/// exactly when the bytes are a valid UTF-8 encoding, and `None` otherwise.
pub fn decode_text(bytes: &Vec<u8>) -> (r: Option<String>)
    ensures
        r is Some <==> valid_utf8(bytes@),
        (r matches Some(t) ==> t@ == decode_utf8(bytes@)),
{
    let n = bytes.len();
    let mut out = String::new();
    let mut i: usize = 0;
    while i < n
        invariant
            i <= n,
            n == bytes@.len(),
            partial_valid_utf8(bytes@, i as int),
            out@ == decode_utf8(bytes@.subrange(0, i as int)),
        decreases n - i,
    {
        match decode_step(bytes, i) {
            None => {
                proof {
                    let s = bytes@.subrange(i as int, n as int);
                    assert(!valid_utf8(s));
                    partial_valid_partial_invalid_utf8(bytes@, i as int);
                }
                return None;
            },
            Some((c, w)) => {
                proof {
                    let i0 = i as int;
                    let j = i0 + w as int;
                    let s = bytes@.subrange(i0, n as int);
                    partial_valid_utf8_extend(bytes@, i0);
                    let p = bytes@.subrange(0, j);
                    is_char_boundary_iff_not_is_continuation_byte(p, i0);
                    valid_utf8_split(p, i0);
                    decode_utf8_split(p, i0);
                    assert(p.subrange(0, i0) =~= bytes@.subrange(0, i0));
                    let t = p.subrange(i0, j);
                    assert(forall|k: int| 0 <= k < w ==> t[k] == s[k]);
                    assert(length_of_first_scalar(t) == w as int);
                    assert(decode_first_scalar(t) == decode_first_scalar(s));
                    assert(pop_first_scalar(t) =~= Seq::<u8>::empty());
                    assert(decode_utf8(pop_first_scalar(t)) == Seq::<char>::empty());
                    assert(decode_utf8(t) =~= seq![c]);
                    assert(decode_utf8(p) =~= decode_utf8(bytes@.subrange(0, i0)) + seq![c]);
                }
                push_char(&mut out, c);
                i = i + w;
            },
        }
    }
    proof {
        assert(bytes@.subrange(0, n as int) =~= bytes@);
    }
    Some(out)
}

/// The text the listener reports for the received bytes: the decoded UTF-8
/// text when the bytes are valid UTF-8, and the empty string otherwise.
/// Decoding trouble is deliberately discarded, so a stream that was not
/// valid text yields an empty report rather than an error.
pub fn received_text(bytes: &Vec<u8>) -> (r: String)
    ensures
        valid_utf8(bytes@) ==> r@ == decode_utf8(bytes@),
        !valid_utf8(bytes@) ==> r@ == Seq::<char>::empty(),
{
    match decode_text(bytes) {
        Some(t) => t,
        None => String::new(),
    }
}

} // verus!
