//! UTF-8 scanning: extracting one Unicode scalar at a time from a byte
//! sequence, with the exact tolerance the tokenizer shows at end of input
//! (bytes of a truncated final scalar are consumed and treated as end of
//! input, while four bytes that never complete a scalar are malformed).

use vstd::prelude::*;
use vstd::string::StringSliceAdditionalSpecFns;
use vstd::utf8::*;

verus! {

/// Outcome of scanning for one scalar at a position in a byte sequence.
pub enum CharScan {
    /// A scalar was decoded; the second component is its width in bytes.
    Found(char, int),
    /// End of input; the component counts trailing bytes that were consumed
    /// without completing a scalar.
    Ended(int),
    /// Four bytes in a row cannot begin a scalar.
    Malformed,
}

/// What scanning at position `i` of `bytes` yields: the first scalar of the
/// remainder when one is well formed there, end of input when fewer than four
/// bytes remain and no scalar can be completed, and malformed input otherwise.
pub open spec fn scan_spec(bytes: Seq<u8>, i: int) -> CharScan
    recommends
        0 <= i <= bytes.len(),
{
    let rest = bytes.subrange(i, bytes.len() as int);
    if rest.len() == 0 {
        CharScan::Ended(0)
    } else if valid_first_scalar(rest) {
        CharScan::Found((decode_first_scalar(rest) as char), length_of_first_scalar(rest))
    } else if rest.len() >= 4 {
        CharScan::Malformed
    } else {
        CharScan::Ended(rest.len() as int)
    }
}

/// Exec-level mirror of [`CharScan`].
pub enum Scanned {
    Found { c: char, width: usize },
    Ended { trailing: usize },
    Malformed,
}

/// Relies on char::from_u32: `Some` exactly when the value is a Unicode
/// scalar (below the surrogate range, or above it and at most 0x10FFFF),
/// and the returned character casts back to the argument.
#[verifier::external_body]
fn char_from_u32(v: u32) -> (r: Option<char>)
    ensures
        r is Some <==> (v < 0xD800 || (0xE000 <= v && v <= 0x10FFFF)),
        r is Some ==> r.unwrap() as u32 == v,
{
    char::from_u32(v)
}

/// Decides [`scan_spec`] at position `i`: decodes the first scalar of
/// `bytes[i..]` or reports how the input ends.
pub fn scan_char(bytes: &[u8], i: usize) -> (r: Scanned)
    requires
        i <= bytes@.len(),
    ensures
        ({
            let s = scan_spec(bytes@, i as int);
            match s {
                CharScan::Found(c, w) => r == (Scanned::Found { c, width: w as usize }),
                CharScan::Ended(k) => r == (Scanned::Ended { trailing: k as usize }),
                CharScan::Malformed => r == Scanned::Malformed,
            }
        }),
{
    broadcast use group_utf8_lib;

    let n = bytes.len();
    let ghost rest = bytes@.subrange(i as int, bytes@.len() as int);
    if i >= n {
        return Scanned::Ended { trailing: 0 };
    }
    let b0 = bytes[i];
    let width: usize = if b0 < 0x80 {
        1
    } else if 0xc0 <= b0 && b0 <= 0xdf {
        2
    } else if 0xe0 <= b0 && b0 <= 0xef {
        3
    } else if 0xf0 <= b0 && b0 <= 0xf7 {
        4
    } else {
        0
    };
    if width >= 1 && n - i >= width {
        let b1: u8 = if width >= 2 { bytes[i + 1] } else { 0 };
        let b2: u8 = if width >= 3 { bytes[i + 2] } else { 0 };
        let b3: u8 = if width >= 4 { bytes[i + 3] } else { 0 };
        let conts_ok = (width < 2 || (0x80 <= b1 && b1 <= 0xbf)) && (width < 3 || (0x80 <= b2 && b2
            <= 0xbf)) && (width < 4 || (0x80 <= b3 && b3 <= 0xbf));
        if conts_ok {
            assert(valid_leading_and_continuation_bytes_first_codepoint(rest));
            assert(length_of_first_codepoint(rest) == width);
            assert((((b0 & 0x1f) as u32) << 6u32) | ((b1 & 0x3f) as u32) <= 0x7ff) by (bit_vector);
            assert((((b0 & 0x0f) as u32) << 12u32) | (((b1 & 0x3f) as u32) << 6u32) | ((b2
                & 0x3f) as u32) <= 0xffff) by (bit_vector);
            assert((((b0 & 0x07) as u32) << 18u32) | (((b1 & 0x3f) as u32) << 12u32) | (((b2
                & 0x3f) as u32) << 6u32) | ((b3 & 0x3f) as u32) <= 0x1fffff) by (bit_vector);
            let cp: u32 = if width == 1 {
                (b0 & 0x7f) as u32
            } else if width == 2 {
                (((b0 & 0x1f) as u32) << 6u32) | ((b1 & 0x3f) as u32)
            } else if width == 3 {
                (((b0 & 0x0f) as u32) << 12u32) | (((b1 & 0x3f) as u32) << 6u32) | ((b2
                    & 0x3f) as u32)
            } else {
                (((b0 & 0x07) as u32) << 18u32) | (((b1 & 0x3f) as u32) << 12u32) | (((b2
                    & 0x3f) as u32) << 6u32) | ((b3 & 0x3f) as u32)
            };
            assert(cp == decode_first_codepoint(rest));
            let overlong = (width == 2 && cp < 0x80) || (width == 3 && cp < 0x800) || (width == 4
                && cp < 0x10000);
            if !overlong {
                if let Some(c) = char_from_u32(cp) {
                    assert(valid_first_scalar(rest));
                    proof {
                        char_u32_cast(c, cp);
                    }
                    return Scanned::Found { c, width };
                }
            }
        }
    }
    assert(!valid_first_scalar(rest));
    if n - i >= 4 {
        Scanned::Malformed
    } else {
        Scanned::Ended { trailing: n - i }
    }
}

/// Relies on String::push: appends the given character to the string.
#[verifier::external_body]
pub(crate) fn push_char(s: &mut String, c: char)
    ensures
        final(s)@ == old(s)@.push(c),
{
    s.push(c);
}

/// Builds the string holding exactly the given characters.
pub fn chars_to_string(cs: &[char]) -> (r: String)
    ensures
        r@ == cs@,
{
    let mut r = String::new();
    let mut i: usize = 0;
    while i < cs.len()
        invariant
            i <= cs@.len(),
            r@ =~= cs@.subrange(0, i as int),
        decreases cs@.len() - i,
    {
        push_char(&mut r, cs[i]);
        i = i + 1;
    }
    assert(r@ =~= cs@);
    r
}

/// The characters of a string slice, in order.
pub fn str_chars(s: &str) -> (r: Vec<char>)
    ensures
        r@ == s@,
{
    broadcast use group_utf8_lib;

    let bytes = s.as_bytes();
    let ghost all = bytes@;
    let n = bytes.len();
    let mut r: Vec<char> = Vec::new();
    let mut i: usize = 0;
    proof {
        assert(all.subrange(0, n as int) =~= all);
    }
    while i < n
        invariant
            i <= n,
            n == all.len(),
            bytes@ == all,
            all == encode_utf8(s@),
            valid_utf8(all.subrange(i as int, n as int)),
            r@ + decode_utf8(all.subrange(i as int, n as int)) =~= s@,
        decreases n - i,
    {
        let ghost tail = all.subrange(i as int, n as int);
        let sc = scan_char(bytes, i);
        match sc {
            Scanned::Found { c, width } => {
                proof {
                    assert(pop_first_scalar(tail) =~= all.subrange(
                        i as int + width as int,
                        n as int,
                    ));
                }
                r.push(c);
                i = i + width;
            },
            _ => {
                proof {
                    assert(valid_first_scalar(tail));
                }
                assert(false);
            },
        }
    }
    proof {
        assert(all.subrange(n as int, n as int) =~= Seq::<u8>::empty());
        assert(r@ =~= s@);
    }
    r
}

/// Whether two string slices hold the same characters.
pub fn str_eq(a: &str, b: &str) -> (r: bool)
    ensures
        r == (a@ == b@),
{
    broadcast use group_utf8_lib;

    let ab = a.as_bytes();
    let bb = b.as_bytes();
    if ab.len() != bb.len() {
        return false;
    }
    let n = ab.len();
    let mut i: usize = 0;
    while i < n
        invariant
            i <= n,
            n == ab@.len() == bb@.len(),
            ab@ == a.spec_bytes(),
            bb@ == b.spec_bytes(),
            ab@.subrange(0, i as int) =~= bb@.subrange(0, i as int),
        decreases n - i,
    {
        if ab[i] != bb[i] {
            proof {
                assert(encode_utf8(a@)[i as int] != encode_utf8(b@)[i as int]);
            }
            return false;
        }
        proof {
            assert(ab@.subrange(0, i + 1 as int) =~= bb@.subrange(0, i + 1 as int));
        }
        i = i + 1;
    }
    proof {
        assert(ab@ =~= ab@.subrange(0, n as int));
        assert(bb@ =~= bb@.subrange(0, n as int));
        assert(encode_utf8(a@) == encode_utf8(b@));
        assert(decode_utf8(encode_utf8(a@)) == decode_utf8(encode_utf8(b@)));
    }
    true
}

} // verus!
