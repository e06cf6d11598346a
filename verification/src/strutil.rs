//! Character-sequence utilities the field-value grammars are built on:
//! substring search, splitting, trimming, and decimal parsing, each
//! stated over sequence specifications.

use crate::literal::char_white;
use vstd::prelude::*;

verus! {

/// Relies on char::is_whitespace: the Unicode white-space property of
/// the character alone.
#[verifier::external_body]
pub(crate) fn is_whitespace_char(c: char) -> (r: bool)
    ensures
        r == char_white(c),
{
    c.is_whitespace()
}

/// The separator occurs in `s` at index `i`.
pub open spec fn has_sep_at(s: Seq<char>, sep: Seq<char>, i: int) -> bool {
    0 <= i && i + sep.len() <= s.len() && s.subrange(i, i + sep.len()) == sep
}

/// The index of the first occurrence of `sep` in `s`, if any.
pub open spec fn find_sep(s: Seq<char>, sep: Seq<char>) -> Option<int>
    decreases s.len(),
{
    if sep.len() == 0 {
        None
    } else if s.len() < sep.len() {
        None
    } else if s.subrange(0, sep.len() as int) == sep {
        Some(0)
    } else {
        match find_sep(s.subrange(1, s.len() as int), sep) {
            Some(i) => Some(i + 1),
            None => None,
        }
    }
}

/// `find_sep` returns the least occurrence index, or rules them all out.
pub proof fn lemma_find_sep(s: Seq<char>, sep: Seq<char>)
    requires
        sep.len() >= 1,
    ensures
        match find_sep(s, sep) {
            Some(i) => has_sep_at(s, sep, i) && forall|j: int|
                0 <= j < i ==> !has_sep_at(s, sep, j),
            None => forall|j: int| !has_sep_at(s, sep, j),
        },
    decreases s.len(),
{
    if s.len() < sep.len() {
        assert forall|j: int| !has_sep_at(s, sep, j) by {}
    } else if s.subrange(0, sep.len() as int) == sep {
        assert(has_sep_at(s, sep, 0));
    } else {
        let tail = s.subrange(1, s.len() as int);
        lemma_find_sep(tail, sep);
        assert forall|j: int| 1 <= j implies (has_sep_at(s, sep, j) == has_sep_at(
            tail,
            sep,
            j - 1,
        )) by {
            if 0 <= j - 1 && j - 1 + sep.len() <= tail.len() {
                assert(s.subrange(j, j + sep.len() as int) =~= tail.subrange(
                    j - 1,
                    j - 1 + sep.len() as int,
                ));
            }
        }
        assert(!has_sep_at(s, sep, 0));
    }
}

/// Splits `s` at every occurrence of `sep`, left to right.
pub open spec fn split_seq(s: Seq<char>, sep: Seq<char>) -> Seq<Seq<char>>
    decreases s.len(),
        when sep.len() >= 1
{
    match find_sep(s, sep) {
        Some(i) => {
            if 0 <= i && 1 <= sep.len() && i + sep.len() <= s.len() {
                seq![s.subrange(0, i)] + split_seq(
                    s.subrange(i + sep.len(), s.len() as int),
                    sep,
                )
            } else {
                seq![s]
            }
        },
        None => seq![s],
    }
}

/// Splits `s` at occurrences of `sep` into at most `n` pieces; the last
/// piece keeps any further separators.
pub open spec fn splitn_seq(s: Seq<char>, sep: Seq<char>, n: nat) -> Seq<Seq<char>>
    decreases s.len(),
        when sep.len() >= 1
{
    if n == 0 {
        Seq::empty()
    } else if n == 1 {
        seq![s]
    } else {
        match find_sep(s, sep) {
            Some(i) => {
                if 0 <= i && 1 <= sep.len() && i + sep.len() <= s.len() {
                    seq![s.subrange(0, i)] + splitn_seq(
                        s.subrange(i + sep.len(), s.len() as int),
                        sep,
                        (n - 1) as nat,
                    )
                } else {
                    seq![s]
                }
            },
            None => seq![s],
        }
    }
}

/// Whether `sep` occurs at position `i` of `s`.
pub fn match_at(s: &[char], sep: &[char], i: usize) -> (r: bool)
    requires
        i + sep@.len() <= s@.len(),
    ensures
        r == has_sep_at(s@, sep@, i as int),
{
    let n = s.len();
    let m = sep.len();
    let mut j: usize = 0;
    while j < m
        invariant
            j <= m,
            m == sep@.len(),
            n == s@.len(),
            i + m <= n,
            forall|k: int| 0 <= k < j ==> s@[i + k] == sep@[k],
        decreases m - j,
    {
        if s[i + j] != sep[j] {
            proof {
                assert(s@.subrange(i as int, i + m as int)[j as int] != sep@[j as int]);
            }
            return false;
        }
        j = j + 1;
    }
    proof {
        assert(s@.subrange(i as int, i + m as int) =~= sep@);
    }
    true
}

/// The first occurrence of `sep` in `s` at or after `from`.
pub fn find_from(s: &[char], sep: &[char], from: usize) -> (r: Option<usize>)
    requires
        sep@.len() >= 1,
        from <= s@.len(),
    ensures
        ({
            let rest = s@.subrange(from as int, s@.len() as int);
            match find_sep(rest, sep@) {
                Some(i) => r == Some((from + i) as usize),
                None => r is None,
            }
        }),
{
    let ghost rest = s@.subrange(from as int, s@.len() as int);
    proof {
        lemma_find_sep(rest, sep@);
    }
    let n = s.len();
    let m = sep.len();
    if n - from < m {
        proof {
            assert forall|j: int| !has_sep_at(rest, sep@, j) by {}
            assert(find_sep(rest, sep@) is None);
        }
        return None;
    }
    let mut i: usize = from;
    while i <= n - m
        invariant
            from <= i,
            i <= n,
            from + m <= n,
            n == s@.len(),
            m == sep@.len(),
            1 <= m,
            rest == s@.subrange(from as int, s@.len() as int),
            forall|j: int| 0 <= j < i - from ==> !has_sep_at(rest, sep@, j),
        decreases n - i,
    {
        let hit = match_at(s, sep, i);
        proof {
            lemma_find_sep(rest, sep@);
            assert(s@.subrange(i as int, i + m as int) =~= rest.subrange(
                i - from,
                i - from + m as int,
            ));
            assert(has_sep_at(s@, sep@, i as int) == has_sep_at(rest, sep@, i - from));
        }
        if hit {
            proof {
                match find_sep(rest, sep@) {
                    Some(k) => {
                        if k < i - from {
                            assert(has_sep_at(rest, sep@, k));
                            assert(false);
                        }
                        if k > i - from {
                            assert(!has_sep_at(rest, sep@, i - from));
                            assert(false);
                        }
                    },
                    None => {
                        assert(!has_sep_at(rest, sep@, i - from));
                        assert(false);
                    },
                }
            }
            return Some(i);
        }
        i = i + 1;
    }
    proof {
        lemma_find_sep(rest, sep@);
        assert forall|j: int| !has_sep_at(rest, sep@, j) by {
            if 0 <= j && j + m <= rest.len() {
                assert(j < i - from);
            }
        }
        assert(find_sep(rest, sep@) is None);
    }
    None
}

/// The characters of `s` between `from` and `to`.
pub fn sub_chars(s: &[char], from: usize, to: usize) -> (r: Vec<char>)
    requires
        from <= to <= s@.len(),
    ensures
        r@ == s@.subrange(from as int, to as int),
{
    let mut r: Vec<char> = Vec::new();
    let mut i: usize = from;
    while i < to
        invariant
            from <= i <= to <= s@.len(),
            r@ =~= s@.subrange(from as int, i as int),
        decreases to - i,
    {
        r.push(s[i]);
        proof {
            assert(r@ =~= s@.subrange(from as int, i + 1 as int));
        }
        i = i + 1;
    }
    r
}

/// Splits `s` at every occurrence of `sep`.
pub fn split_chars(s: &[char], sep: &[char]) -> (r: Vec<Vec<char>>)
    requires
        sep@.len() >= 1,
    ensures
        r.deep_view() == split_seq(s@, sep@),
{
    let mut r: Vec<Vec<char>> = Vec::new();
    let mut start: usize = 0;
    let n = s.len();
    proof {
        assert(r.deep_view() =~= Seq::<Seq<char>>::empty());
        assert(s@.subrange(0, n as int) =~= s@);
        assert(Seq::<Seq<char>>::empty() + split_seq(s@, sep@) =~= split_seq(s@, sep@));
    }
    loop
        invariant
            start <= n,
            n == s@.len(),
            sep@.len() >= 1,
            split_seq(s@, sep@) == r.deep_view() + split_seq(
                s@.subrange(start as int, n as int),
                sep@,
            ),
        decreases n - start,
    {
        let ghost rem = s@.subrange(start as int, n as int);
        let ghost dv0 = r.deep_view();
        let ghost o0 = r@;
        proof {
            assert forall|j: int| 0 <= j < o0.len() implies dv0[j] == o0[j].deep_view() by {}
        }
        match find_from(s, sep, start) {
            Some(i) => {
                proof {
                    lemma_find_sep(rem, sep@);
                }
                let piece = sub_chars(s, start, i);
                proof {
                    assert(piece@ =~= rem.subrange(0, i - start));
                }
                r.push(piece);
                proof {
                    lemma_deep_view_push_chars(dv0, o0, r, piece);
                    assert(s@.subrange((i + sep.len()) as int, n as int) =~= rem.subrange(
                        i - start + sep@.len() as int,
                        rem.len() as int,
                    ));
                    assert((dv0 + seq![piece@]) + split_seq(
                        rem.subrange(i - start + sep@.len() as int, rem.len() as int),
                        sep@,
                    ) =~= dv0 + (seq![piece@] + split_seq(
                        rem.subrange(i - start + sep@.len() as int, rem.len() as int),
                        sep@,
                    )));
                }
                start = i + sep.len();
            },
            None => {
                let piece = sub_chars(s, start, n);
                proof {
                    assert(piece@ =~= rem);
                }
                r.push(piece);
                proof {
                    lemma_deep_view_push_chars(dv0, o0, r, piece);
                    assert(split_seq(rem, sep@) =~= seq![rem]);
                    assert(dv0 + seq![piece@] =~= dv0 + split_seq(rem, sep@));
                }
                return r;
            },
        }
    }
}

/// Splits `s` at occurrences of `sep` into at most `limit` pieces.
pub fn splitn_chars(s: &[char], sep: &[char], limit: usize) -> (r: Vec<Vec<char>>)
    requires
        sep@.len() >= 1,
        limit >= 1,
    ensures
        r.deep_view() == splitn_seq(s@, sep@, limit as nat),
{
    let mut r: Vec<Vec<char>> = Vec::new();
    let mut start: usize = 0;
    let mut left: usize = limit;
    let n = s.len();
    proof {
        assert(r.deep_view() =~= Seq::<Seq<char>>::empty());
        assert(s@.subrange(0, n as int) =~= s@);
        assert(Seq::<Seq<char>>::empty() + splitn_seq(s@, sep@, limit as nat) =~= splitn_seq(
            s@,
            sep@,
            limit as nat,
        ));
    }
    loop
        invariant
            start <= n,
            n == s@.len(),
            sep@.len() >= 1,
            left >= 1,
            splitn_seq(s@, sep@, limit as nat) == r.deep_view() + splitn_seq(
                s@.subrange(start as int, n as int),
                sep@,
                left as nat,
            ),
        decreases n - start + left,
    {
        let ghost rem = s@.subrange(start as int, n as int);
        let ghost dv0 = r.deep_view();
        let ghost o0 = r@;
        proof {
            assert forall|j: int| 0 <= j < o0.len() implies dv0[j] == o0[j].deep_view() by {}
        }
        if left == 1 {
            let piece = sub_chars(s, start, n);
            proof {
                assert(piece@ =~= rem);
            }
            r.push(piece);
            proof {
                lemma_deep_view_push_chars(dv0, o0, r, piece);
                assert(splitn_seq(rem, sep@, 1nat) =~= seq![rem]);
                assert(dv0 + seq![piece@] =~= dv0 + splitn_seq(rem, sep@, left as nat));
            }
            return r;
        }
        match find_from(s, sep, start) {
            Some(i) => {
                proof {
                    lemma_find_sep(rem, sep@);
                }
                let piece = sub_chars(s, start, i);
                proof {
                    assert(piece@ =~= rem.subrange(0, i - start));
                }
                r.push(piece);
                proof {
                    lemma_deep_view_push_chars(dv0, o0, r, piece);
                    assert(s@.subrange((i + sep.len()) as int, n as int) =~= rem.subrange(
                        i - start + sep@.len() as int,
                        rem.len() as int,
                    ));
                    assert((dv0 + seq![piece@]) + splitn_seq(
                        rem.subrange(i - start + sep@.len() as int, rem.len() as int),
                        sep@,
                        (left - 1) as nat,
                    ) =~= dv0 + (seq![piece@] + splitn_seq(
                        rem.subrange(i - start + sep@.len() as int, rem.len() as int),
                        sep@,
                        (left - 1) as nat,
                    )));
                }
                start = i + sep.len();
                left = left - 1;
            },
            None => {
                let piece = sub_chars(s, start, n);
                proof {
                    assert(piece@ =~= rem);
                }
                r.push(piece);
                proof {
                    lemma_deep_view_push_chars(dv0, o0, r, piece);
                    assert(splitn_seq(rem, sep@, left as nat) =~= seq![rem]);
                    assert(dv0 + seq![piece@] =~= dv0 + splitn_seq(rem, sep@, left as nat));
                }
                return r;
            },
        }
    }
}

/// Pushing one piece extends the deep view by its characters.
proof fn lemma_deep_view_push_chars(
    dv0: Seq<Seq<char>>,
    o0: Seq<Vec<char>>,
    r: Vec<Vec<char>>,
    piece: Vec<char>,
)
    requires
        r@ == o0.push(piece),
        dv0.len() == o0.len(),
        forall|j: int| 0 <= j < o0.len() ==> dv0[j] == #[trigger] o0[j].deep_view(),
    ensures
        r.deep_view() =~~= dv0 + seq![piece@],
        r.deep_view() == dv0 + seq![piece@],
{
    assert(piece.deep_view() =~= piece@);
    assert forall|j: int| 0 <= j < r@.len() implies r.deep_view()[j] =~= (dv0 + seq![piece@])[j] by {
        assert(r.deep_view()[j] == r@[j].deep_view());
        if j < o0.len() {
            assert(r@[j] == o0[j]);
        } else {
            assert(r@[j] == piece);
        }
    }
    assert(r.deep_view() =~~= dv0 + seq![piece@]);
}

/// Whitespace stripped from the front.
pub open spec fn trim_start_spec(s: Seq<char>) -> Seq<char>
    decreases s.len(),
{
    if s.len() > 0 && char_white(s[0]) {
        trim_start_spec(s.drop_first())
    } else {
        s
    }
}

/// Whitespace stripped from the back.
pub open spec fn trim_end_spec(s: Seq<char>) -> Seq<char>
    decreases s.len(),
{
    if s.len() > 0 && char_white(s.last()) {
        trim_end_spec(s.drop_last())
    } else {
        s
    }
}

/// Whitespace stripped from both ends.
pub open spec fn trim_spec(s: Seq<char>) -> Seq<char> {
    trim_end_spec(trim_start_spec(s))
}

proof fn lemma_trim_start(s: Seq<char>, i: int)
    requires
        0 <= i <= s.len(),
        forall|k: int| 0 <= k < i ==> char_white(s[k]),
        i == s.len() || !char_white(s[i]),
    ensures
        trim_start_spec(s) =~= s.subrange(i, s.len() as int),
    decreases i,
{
    if i == 0 {
        if s.len() == 0 || !char_white(s[0]) {
            assert(trim_start_spec(s) == s);
        }
    } else {
        assert(char_white(s[0]));
        let t = s.drop_first();
        lemma_trim_start(t, i - 1);
        assert(t.subrange(i - 1, t.len() as int) =~= s.subrange(i, s.len() as int));
    }
}

proof fn lemma_trim_end(s: Seq<char>, j: int)
    requires
        0 <= j <= s.len(),
        forall|k: int| j <= k < s.len() ==> char_white(s[k]),
        j == 0 || !char_white(s[j - 1]),
    ensures
        trim_end_spec(s) =~= s.subrange(0, j),
    decreases s.len() - j,
{
    if j == s.len() {
        if s.len() == 0 || !char_white(s.last()) {
            assert(trim_end_spec(s) == s);
            assert(s.subrange(0, j) =~= s);
        }
    } else {
        assert(char_white(s.last()));
        let t = s.drop_last();
        lemma_trim_end(t, j);
        assert(t.subrange(0, j) =~= s.subrange(0, j));
    }
}

/// The slice of `s` with leading and trailing whitespace removed.
pub fn trim_chars(s: &[char]) -> (r: Vec<char>)
    ensures
        r@ == trim_spec(s@),
{
    let n = s.len();
    let mut i: usize = 0;
    while i < n && is_whitespace_char(s[i])
        invariant
            i <= n,
            n == s@.len(),
            forall|k: int| 0 <= k < i ==> char_white(s@[k]),
        decreases n - i,
    {
        i = i + 1;
    }
    proof {
        lemma_trim_start(s@, i as int);
    }
    let ghost mid = trim_start_spec(s@);
    if i == n {
        proof {
            assert(mid =~= Seq::<char>::empty());
            assert(trim_end_spec(mid) =~= Seq::<char>::empty());
        }
        let r: Vec<char> = Vec::new();
        return r;
    }
    let mut j: usize = n;
    while j > i && is_whitespace_char(s[j - 1])
        invariant
            i <= j <= n,
            n == s@.len(),
            forall|k: int| j <= k < n ==> char_white(s@[k]),
        decreases j,
    {
        j = j - 1;
    }
    proof {
        assert(mid == s@.subrange(i as int, n as int));
        if j == i {
            assert(!char_white(s@[i as int]));
            assert(false);
        }
        assert(!char_white(s@[j - 1]));
        assert forall|k: int| j - i <= k < mid.len() implies char_white(mid[k]) by {
            assert(mid[k] == s@[i + k]);
        }
        assert(!char_white(mid[j - i - 1]));
        lemma_trim_end(mid, j - i as int);
        assert(mid.subrange(0, j - i as int) =~= s@.subrange(i as int, j as int));
    }
    sub_chars(s, i, j)
}

/// A diagnostic of the shape `{prefix}{val}'`: the prefix ends with an
/// opening quote, the value is echoed, and the closing quote follows.
pub fn quoted_msg(prefix: &str, val: &[char]) -> (r: String)
    ensures
        r@ == prefix@ + val@ + "'"@,
{
    let mut out = crate::chars::str_chars(prefix);
    let mut mid = sub_chars(val, 0, val.len());
    out.append(&mut mid);
    let mut quote = crate::chars::str_chars("'");
    out.append(&mut quote);
    proof {
        assert(out@ =~= prefix@ + val@ + "'"@);
    }
    crate::chars::chars_to_string(out.as_slice())
}

/// An ASCII decimal digit.
pub open spec fn is_dec_digit(c: char) -> bool {
    '0' <= c && c <= '9'
}

/// A nonempty sequence of ASCII decimal digits.
pub open spec fn all_digits(s: Seq<char>) -> bool {
    s.len() > 0 && forall|i: int| 0 <= i < s.len() ==> is_dec_digit(#[trigger] s[i])
}

/// The value of a sequence of decimal digits.
pub open spec fn dec_val(s: Seq<char>) -> nat
    decreases s.len(),
{
    if s.len() == 0 {
        0
    } else {
        dec_val(s.drop_last()) * 10 + ((s.last() as int - 48) as nat)
    }
}

/// What `str::parse` yields for an unsigned integer, before any range
/// check: an optional `+`, then decimal digits.
pub open spec fn parse_uint_spec(s: Seq<char>) -> Option<nat> {
    let body = if s.len() > 0 && s[0] == '+' {
        s.drop_first()
    } else {
        s
    };
    if all_digits(body) {
        Some(dec_val(body))
    } else {
        None
    }
}

/// What `str::parse::<u32>` yields.
pub open spec fn parse_u32_spec(s: Seq<char>) -> Option<u32> {
    match parse_uint_spec(s) {
        Some(v) => if v <= 0xffff_ffff {
            Some(v as u32)
        } else {
            None
        },
        None => None,
    }
}

/// What `str::parse::<u8>` yields.
pub open spec fn parse_u8_spec(s: Seq<char>) -> Option<u8> {
    match parse_uint_spec(s) {
        Some(v) => if v <= 255 {
            Some(v as u8)
        } else {
            None
        },
        None => None,
    }
}

/// What `str::parse::<i32>` yields: an optional sign, then digits, in
/// the two's-complement range.
pub open spec fn parse_i32_spec(s: Seq<char>) -> Option<i32> {
    if s.len() > 0 && s[0] == '-' {
        let body = s.drop_first();
        if all_digits(body) && dec_val(body) <= 0x8000_0000 {
            Some((0 - dec_val(body) as int) as i32)
        } else {
            None
        }
    } else {
        let body = if s.len() > 0 && s[0] == '+' {
            s.drop_first()
        } else {
            s
        };
        if all_digits(body) && dec_val(body) <= 0x7fff_ffff {
            Some(dec_val(body) as i32)
        } else {
            None
        }
    }
}

/// Appending a digit multiplies the value by ten and adds the digit.
proof fn lemma_dec_val_push(p: Seq<char>, c: char)
    ensures
        dec_val(p.push(c)) == dec_val(p) * 10 + ((c as int - 48) as nat),
{
    assert(p.push(c).drop_last() =~= p);
    assert(p.push(c).last() == c);
}

/// Outcome of scanning a digit run: not all digits, an exact value, or
/// a value beyond the 32-bit range.
pub enum DigitScan {
    NotDigits,
    Val(u64),
    Huge,
}

/// Scans `s` from `from` to the end as a decimal digit run.
pub fn scan_digits(s: &[char], from: usize) -> (r: DigitScan)
    requires
        from <= s@.len(),
    ensures
        ({
            let body = s@.subrange(from as int, s@.len() as int);
            match r {
                DigitScan::NotDigits => !all_digits(body),
                DigitScan::Val(v) => all_digits(body) && v == dec_val(body) && v
                    <= 0xffff_ffff,
                DigitScan::Huge => all_digits(body) && dec_val(body) > 0xffff_ffff,
            }
        }),
{
    let ghost body = s@.subrange(from as int, s@.len() as int);
    let n = s.len();
    if from == n {
        proof {
            assert(body.len() == 0);
        }
        return DigitScan::NotDigits;
    }
    let mut acc: u64 = 0;
    let mut over = false;
    let mut i: usize = from;
    while i < n
        invariant
            from <= i <= n,
            n == s@.len(),
            body == s@.subrange(from as int, s@.len() as int),
            forall|k: int| from <= k < i ==> is_dec_digit(#[trigger] s@[k]),
            !over ==> acc == dec_val(s@.subrange(from as int, i as int)) && acc <= 0xffff_ffff,
            over ==> dec_val(s@.subrange(from as int, i as int)) > 0xffff_ffff,
        decreases n - i,
    {
        let c = s[i];
        if !(c >= '0' && c <= '9') {
            proof {
                assert(!is_dec_digit(body[i - from]));
            }
            return DigitScan::NotDigits;
        }
        let ghost pre = s@.subrange(from as int, i as int);
        let ghost post = s@.subrange(from as int, i + 1 as int);
        proof {
            assert(post =~= pre.push(s@[i as int]));
            lemma_dec_val_push(pre, s@[i as int]);
        }
        let d: u64 = (c as u32 - 48) as u64;
        if !over {
            let next = acc * 10 + d;
            if next > 0xffff_ffff {
                over = true;
            } else {
                acc = next;
            }
        } else {
            proof {
                assert(dec_val(post) == dec_val(pre) * 10 + ((s@[i as int] as int - 48) as nat));
                assert(dec_val(pre) * 10 >= dec_val(pre)) by (nonlinear_arith)
                    requires
                        dec_val(pre) >= 0,
                ;
            }
        }
        i = i + 1;
    }
    proof {
        assert(body =~= s@.subrange(from as int, n as int));
        assert(all_digits(body));
    }
    if over {
        DigitScan::Huge
    } else {
        DigitScan::Val(acc)
    }
}

/// Decides `parse_u32_spec` on a character slice.
pub fn parse_u32_chars(s: &[char]) -> (r: Option<u32>)
    ensures
        r == parse_u32_spec(s@),
{
    let n = s.len();
    let from: usize = if n > 0 && s[0] == '+' {
        1
    } else {
        0
    };
    proof {
        if from == 1 {
            assert(s@.subrange(1, n as int) =~= s@.drop_first());
        } else {
            assert(s@.subrange(0, n as int) =~= s@);
        }
    }
    match scan_digits(s, from) {
        DigitScan::NotDigits => None,
        DigitScan::Huge => None,
        DigitScan::Val(v) => if v <= 0xffff_ffff {
            Some(v as u32)
        } else {
            None
        },
    }
}

/// Decides `parse_u8_spec` on a character slice.
pub fn parse_u8_chars(s: &[char]) -> (r: Option<u8>)
    ensures
        r == parse_u8_spec(s@),
{
    let n = s.len();
    let from: usize = if n > 0 && s[0] == '+' {
        1
    } else {
        0
    };
    proof {
        if from == 1 {
            assert(s@.subrange(1, n as int) =~= s@.drop_first());
        } else {
            assert(s@.subrange(0, n as int) =~= s@);
        }
    }
    match scan_digits(s, from) {
        DigitScan::NotDigits => None,
        DigitScan::Huge => None,
        DigitScan::Val(v) => if v <= 255 {
            Some(v as u8)
        } else {
            None
        },
    }
}

/// Decides `parse_i32_spec` on a character slice.
pub fn parse_i32_chars(s: &[char]) -> (r: Option<i32>)
    ensures
        r == parse_i32_spec(s@),
{
    let n = s.len();
    let negative = n > 0 && s[0] == '-';
    let from: usize = if n > 0 && (s[0] == '+' || s[0] == '-') {
        1
    } else {
        0
    };
    proof {
        if from == 1 {
            assert(s@.subrange(1, n as int) =~= s@.drop_first());
        } else {
            assert(s@.subrange(0, n as int) =~= s@);
        }
    }
    match scan_digits(s, from) {
        DigitScan::NotDigits => None,
        DigitScan::Huge => None,
        DigitScan::Val(v) => {
            if negative {
                if v <= 0x8000_0000 {
                    Some((-(v as i64)) as i32)
                } else {
                    None
                }
            } else {
                if v <= 0x7fff_ffff {
                    Some(v as i32)
                } else {
                    None
                }
            }
        },
    }
}

} // verus!
