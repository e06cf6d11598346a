//! Decimal and hexadecimal renderings of numbers, used by diagnostics.

use vstd::prelude::*;

verus! {

/// The decimal digit character for a value below ten.
pub open spec fn dec_digit(d: nat) -> char
    recommends
        d < 10,
{
    ((d + 48) as char)
}

/// The decimal rendering of a natural number, most significant digit
/// first and without leading zeroes (a lone zero for zero itself).
pub open spec fn dec_str(n: nat) -> Seq<char>
    decreases n,
{
    if n < 10 {
        seq![dec_digit(n)]
    } else {
        dec_str(n / 10).push(dec_digit(n % 10))
    }
}

/// The hexadecimal digit character for a value below sixteen, lower case.
pub open spec fn hex_digit(d: nat) -> char
    recommends
        d < 16,
{
    if d < 10 {
        ((d + 48) as char)
    } else {
        ((d + 87) as char)
    }
}

/// The two-digit hexadecimal rendering of a byte, lower case.
pub open spec fn hex_byte(b: u8) -> Seq<char> {
    seq![hex_digit((b / 16) as nat), hex_digit((b % 16) as nat)]
}

fn dec_digit_char(d: usize) -> (r: char)
    requires
        d < 10,
    ensures
        r == dec_digit(d as nat),
{
    match d {
        0 => '0',
        1 => '1',
        2 => '2',
        3 => '3',
        4 => '4',
        5 => '5',
        6 => '6',
        7 => '7',
        8 => '8',
        _ => '9',
    }
}

fn hex_digit_char(d: u8) -> (r: char)
    requires
        d < 16,
    ensures
        r == hex_digit(d as nat),
{
    match d {
        0 => '0',
        1 => '1',
        2 => '2',
        3 => '3',
        4 => '4',
        5 => '5',
        6 => '6',
        7 => '7',
        8 => '8',
        9 => '9',
        10 => 'a',
        11 => 'b',
        12 => 'c',
        13 => 'd',
        14 => 'e',
        _ => 'f',
    }
}

/// The decimal digits of `n`, most significant first.
pub fn dec_chars(n: usize) -> (r: Vec<char>)
    ensures
        r@ == dec_str(n as nat),
{
    let mut rev: Vec<char> = Vec::new();
    let mut m: usize = n;
    if m == 0 {
        let mut r: Vec<char> = Vec::new();
        r.push('0');
        assert(r@ =~= dec_str(0));
        return r;
    }
    while m > 0
        invariant
            m > 0 ==> dec_str(n as nat) =~= dec_str(m as nat) + rev@.reverse(),
            m == 0 ==> dec_str(n as nat) =~= rev@.reverse(),
        decreases m,
    {
        let ghost rev0 = rev@;
        let d = m % 10;
        rev.push(dec_digit_char(d));
        proof {
            assert(rev@.reverse() =~= seq![dec_digit(d as nat)] + rev0.reverse());
        }
        m = m / 10;
    }
    let n_digits = rev.len();
    let mut r: Vec<char> = Vec::new();
    let mut i: usize = 0;
    while i < n_digits
        invariant
            i <= n_digits,
            n_digits == rev@.len(),
            dec_str(n as nat) =~= rev@.reverse(),
            r@ =~= rev@.reverse().subrange(0, i as int),
        decreases n_digits - i,
    {
        r.push(rev[n_digits - 1 - i]);
        i = i + 1;
    }
    assert(r@ =~= rev@.reverse());
    r
}

/// The two hexadecimal digits of a byte, appended to `out`.
pub fn push_hex_byte(out: &mut Vec<char>, b: u8)
    ensures
        final(out)@ == old(out)@ + hex_byte(b),
{
    let ghost o0 = out@;
    out.push(hex_digit_char(b / 16));
    out.push(hex_digit_char(b % 16));
    assert(out@ =~= o0 + hex_byte(b));
}

} // verus!
