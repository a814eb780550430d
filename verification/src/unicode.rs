//! Unicode character classes needed by the parsers, decoded from UTF-8 bytes.
use vstd::prelude::*;
use vstd::utf8::*;
use crate::lexical::{is_ascii_ws};

verus! {

/// Name for the result of std `char::is_alphanumeric` (Unicode `Alphabetic`
/// or `Numeric`), which depends on the character alone.
pub uninterp spec fn is_alphanumeric(c: char) -> bool;

/// An ASCII letter or decimal digit.
pub open spec fn is_ascii_letter_or_digit(c: char) -> bool {
    ('a' <= c && c <= 'z') || ('A' <= c && c <= 'Z') || ('0' <= c && c <= '9')
}

/// Calls std `char::is_alphanumeric`. The contract names its result and
/// states the documented fact that ASCII letters and digits are
/// alphanumeric; which other characters are is left to the name (it takes
/// the Unicode tables to say).
#[verifier::external_body]
fn char_is_alphanumeric(c: char) -> (r: bool)
    ensures
        r == is_alphanumeric(c),
        is_ascii_letter_or_digit(c) ==> r,
{
    c.is_alphanumeric()
}

/// Calls std `char::from_u32`, which is documented to return `Some(c)` with
/// `c as u32 == v` exactly when `v` is a Unicode scalar value, else `None`.
#[verifier::external_body]
fn char_from_u32(v: u32) -> (r: Option<char>)
    ensures
        (r is Some) == is_scalar(v),
        r matches Some(c) ==> c as u32 == v,
{
    char::from_u32(v)
}

/// Every character encoded in `[i, e)` is alphanumeric or ASCII whitespace
/// (the test `chars().all(|c| c.is_alphanumeric() || c.is_ascii_whitespace())`).
/// A character whose encoding runs past `e`, or that does not decode to a
/// scalar value, fails the test.
pub open spec fn chars_alnum_or_ws(b: Seq<u8>, i: int, e: int) -> bool
    decreases e - i,
{
    if i >= e {
        true
    } else {
        let w = length_of_first_codepoint(b.subrange(i, e));
        let cp = decode_first_codepoint(b.subrange(i, e));
        if i + w > e {
            false
        } else {
            &&& is_scalar(cp)
            &&& (is_alphanumeric(cp as char) || (cp < 128 && is_ascii_ws(cp as u8)))
            &&& chars_alnum_or_ws(b, i + w, e)
        }
    }
}

fn decode_at(b: &[u8], i: usize, e: usize) -> (r: Option<(u32, usize)>)
    requires
        i < e <= b@.len(),
    ensures
        match r {
            Some((cp, w)) => {
                &&& w == length_of_first_codepoint(b@.subrange(i as int, e as int))
                &&& cp == decode_first_codepoint(b@.subrange(i as int, e as int))
                &&& i + w <= e
            },
            None => i + length_of_first_codepoint(b@.subrange(i as int, e as int)) > e,
        },
{
    let ghost s = b@.subrange(i as int, e as int);
    let c0 = b[i];
    assert(s[0] == c0);
    if c0 <= 0x7f {
        Some(((c0 & 0x7F) as u32, 1))
    } else if 0xc0 <= c0 && c0 <= 0xdf {
        if e - i < 2 {
            return None;
        }
        let c1 = b[i + 1];
        assert(s[1] == c1);
        Some(((((c0 & 0x1F) as u32) << 6) | ((c1 & 0x3f) as u32), 2))
    } else if 0xe0 <= c0 && c0 <= 0xef {
        if e - i < 3 {
            return None;
        }
        let c1 = b[i + 1];
        let c2 = b[i + 2];
        assert(s[1] == c1 && s[2] == c2);
        Some(
            (((((c0 & 0x0F) as u32) << 12) | (((c1 & 0x3f) as u32) << 6)) | ((c2 & 0x3f) as u32), 3),
        )
    } else {
        if e - i < 4 {
            return None;
        }
        let c1 = b[i + 1];
        let c2 = b[i + 2];
        let c3 = b[i + 3];
        assert(s[1] == c1 && s[2] == c2 && s[3] == c3);
        Some(
            (((((c0 & 0x07) as u32) << 18) | (((c1 & 0x3f) as u32) << 12) | (((c2 & 0x3f) as u32)
                << 6)) | ((c3 & 0x3f) as u32), 4),
        )
    }
}

/// Whether every character in `[s, e)` is alphanumeric or ASCII whitespace.
pub fn chars_alnum_or_ws_exec(b: &[u8], s: usize, e: usize) -> (r: bool)
    requires
        s <= e <= b@.len(),
    ensures
        r == chars_alnum_or_ws(b@, s as int, e as int),
{
    let mut i = s;
    while i < e
        invariant
            s <= i <= e <= b@.len(),
            chars_alnum_or_ws(b@, s as int, e as int) == chars_alnum_or_ws(b@, i as int, e as int),
        decreases e - i,
    {
        match decode_at(b, i, e) {
            None => return false,
            Some((cp, w)) => {
                let ok = match char_from_u32(cp) {
                    None => false,
                    Some(c) => {
                        proof {
                            vstd::utf8::char_u32_cast(c, cp);
                        }
                        char_is_alphanumeric(c) || (cp < 128 && (cp == 0x20 || cp == 0x09 || cp
                            == 0x0A || cp == 0x0C || cp == 0x0D))
                    },
                };
                if !ok {
                    return false;
                }
                i = i + w;
            },
        }
    }
    true
}

} // verus!
