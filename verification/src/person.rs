//! People lists: names separated by ` and `, each either `Last, First
//! [Middles...]` or a full name kept verbatim. The part after the comma
//! splits into name tokens at spaces, tildes and dots.

use crate::chars::{chars_to_string, str_chars};
use crate::strutil::{splitn_chars, splitn_seq, sub_chars};
use vstd::prelude::*;

verus! {

/// One person of a person-list field.
#[derive(Debug)]
pub enum Person {
    FirstLast { first_name: String, last_name: String },
    FirstMiddleLast { first_name: String, middle_names: Vec<String>, last_name: String },
    FullName(String),
}

/// Spec-level image of a person.
pub enum PersonV {
    FirstLast { first_name: Seq<char>, last_name: Seq<char> },
    FirstMiddleLast {
        first_name: Seq<char>,
        middle_names: Seq<Seq<char>>,
        last_name: Seq<char>,
    },
    FullName(Seq<char>),
}

impl View for Person {
    type V = PersonV;

    open spec fn view(&self) -> PersonV {
        match self {
            Person::FirstLast { first_name, last_name } => PersonV::FirstLast {
                first_name: first_name@,
                last_name: last_name@,
            },
            Person::FirstMiddleLast { first_name, middle_names, last_name } => (
            PersonV::FirstMiddleLast {
                first_name: first_name@,
                middle_names: middle_names.deep_view(),
                last_name: last_name@,
            }),
            Person::FullName(s) => PersonV::FullName(s@),
        }
    }
}

impl DeepView for Person {
    type V = PersonV;

    open spec fn deep_view(&self) -> PersonV {
        self.view()
    }
}

/// Whether two string lists hold the same characters.
fn strings_eq(a: &Vec<String>, b: &Vec<String>) -> (r: bool)
    ensures
        r == (a.deep_view() == b.deep_view()),
{
    if a.len() != b.len() {
        proof {
            assert(a.deep_view().len() != b.deep_view().len());
        }
        return false;
    }
    let n = a.len();
    let mut i: usize = 0;
    while i < n
        invariant
            i <= n,
            n == a@.len() == b@.len(),
            forall|j: int| 0 <= j < i ==> a@[j]@ == b@[j]@,
        decreases n - i,
    {
        if !crate::chars::str_eq(a[i].as_str(), b[i].as_str()) {
            proof {
                assert(a.deep_view()[i as int] != b.deep_view()[i as int]);
            }
            return false;
        }
        i = i + 1;
    }
    proof {
        assert forall|j: int| 0 <= j < n implies a.deep_view()[j] == b.deep_view()[j] by {
            assert(a@[j]@ == b@[j]@);
        }
        assert(a.deep_view() =~= b.deep_view());
    }
    true
}

impl PartialEq for Person {
    fn eq(&self, other: &Self) -> (r: bool) {
        match (self, other) {
            (
                Person::FirstLast { first_name: a, last_name: b },
                Person::FirstLast { first_name: c, last_name: d },
            ) => *a == *c && *b == *d,
            (
                Person::FirstMiddleLast { first_name: a, middle_names: m1, last_name: b },
                Person::FirstMiddleLast { first_name: c, middle_names: m2, last_name: d },
            ) => *a == *c && *b == *d && strings_eq(m1, m2),
            (Person::FullName(a), Person::FullName(b)) => *a == *b,
            _ => false,
        }
    }
}

impl vstd::std_specs::cmp::PartialEqSpecImpl for Person {
    open spec fn obeys_eq_spec() -> bool {
        true
    }

    open spec fn eq_spec(&self, other: &Self) -> bool {
        self@ == other@
    }
}

/// A character that separates name tokens.
pub open spec fn is_name_sep(c: char) -> bool {
    c == ' ' || c == '~' || c == '.'
}

/// The first separator character's index, if any.
pub open spec fn find_name_sep(s: Seq<char>) -> Option<int>
    decreases s.len(),
{
    if s.len() == 0 {
        None
    } else if is_name_sep(s[0]) {
        Some(0)
    } else {
        match find_name_sep(s.drop_first()) {
            Some(i) => Some(i + 1),
            None => None,
        }
    }
}

/// `find_name_sep` returns the least separator index, or rules them out.
proof fn lemma_find_name_sep(s: Seq<char>)
    ensures
        match find_name_sep(s) {
            Some(i) => 0 <= i < s.len() && is_name_sep(s[i]) && forall|j: int|
                0 <= j < i ==> !is_name_sep(#[trigger] s[j]),
            None => forall|j: int| 0 <= j < s.len() ==> !is_name_sep(#[trigger] s[j]),
        },
    decreases s.len(),
{
    if s.len() == 0 {
    } else if is_name_sep(s[0]) {
    } else {
        let t = s.drop_first();
        lemma_find_name_sep(t);
        match find_name_sep(t) {
            Some(k) => {
                assert(t[k] == s[k + 1]);
                assert forall|j: int| 0 <= j < k + 1 implies !is_name_sep(#[trigger] s[j]) by {
                    if j >= 1 {
                        assert(t[j - 1] == s[j]);
                        assert(!is_name_sep(t[j - 1]));
                    }
                }
            },
            None => {
                assert forall|j: int| 0 <= j < s.len() implies !is_name_sep(#[trigger] s[j]) by {
                    if j >= 1 {
                        assert(t[j - 1] == s[j]);
                        assert(!is_name_sep(t[j - 1]));
                    }
                }
            },
        }
    }
}

/// Splits at every separator character.
pub open spec fn split_class_seq(s: Seq<char>) -> Seq<Seq<char>>
    decreases s.len(),
{
    match find_name_sep(s) {
        Some(i) => {
            if 0 <= i < s.len() {
                seq![s.subrange(0, i)] + split_class_seq(s.subrange(i + 1, s.len() as int))
            } else {
                seq![s]
            }
        },
        None => seq![s],
    }
}

/// The nonempty name tokens of the part after the comma.
pub open spec fn name_tokens(s: Seq<char>) -> Seq<Seq<char>> {
    split_class_seq(s).filter(|p: Seq<char>| p.len() > 0)
}

/// The first name and the middle names: the first token and the rest;
/// with no tokens at all, the whole text and no middle names.
pub open spec fn fm_spec(s: Seq<char>) -> (Seq<char>, Seq<Seq<char>>) {
    let toks = name_tokens(s);
    if toks.len() == 0 {
        (s, Seq::empty())
    } else {
        (toks[0], toks.drop_first())
    }
}

/// What one person substring denotes: split once at `, `; without a
/// comma the whole text is a full name; otherwise the part before it is
/// the last name and the part after it gives first and middle names.
pub open spec fn person_spec(s: Seq<char>) -> PersonV {
    let parts = splitn_seq(s, ", "@, 2);
    if parts.len() < 2 {
        PersonV::FullName(s)
    } else {
        let fm = fm_spec(parts[1]);
        if fm.1.len() == 0 {
            PersonV::FirstLast { first_name: fm.0, last_name: parts[0] }
        } else {
            PersonV::FirstMiddleLast {
                first_name: fm.0,
                middle_names: fm.1,
                last_name: parts[0],
            }
        }
    }
}

/// What a person-list value denotes: empty input gives no people, any
/// other input splits at ` and ` into at most one hundred people.
pub open spec fn people_spec(s: Seq<char>) -> Seq<PersonV> {
    if s.len() == 0 {
        Seq::empty()
    } else {
        splitn_seq(s, " and "@, 100).map_values(|p: Seq<char>| person_spec(p))
    }
}

/// The first separator character's index at or after `from`.
fn find_name_sep_from(s: &[char], from: usize) -> (r: Option<usize>)
    requires
        from <= s@.len(),
    ensures
        ({
            let rest = s@.subrange(from as int, s@.len() as int);
            match find_name_sep(rest) {
                Some(i) => r == Some((from + i) as usize),
                None => r is None,
            }
        }),
{
    let ghost rest = s@.subrange(from as int, s@.len() as int);
    let n = s.len();
    let mut i: usize = from;
    while i < n
        invariant
            from <= i <= n,
            n == s@.len(),
            rest == s@.subrange(from as int, s@.len() as int),
            forall|j: int| 0 <= j < i - from ==> !is_name_sep(#[trigger] rest[j]),
        decreases n - i,
    {
        let c = s[i];
        if c == ' ' || c == '~' || c == '.' {
            proof {
                lemma_find_name_sep(rest);
                assert(rest[i - from] == s@[i as int]);
                match find_name_sep(rest) {
                    Some(k) => {
                        if k < i - from {
                            assert(!is_name_sep(rest[k]));
                            assert(false);
                        }
                        if k > i - from {
                            assert(!is_name_sep(rest[i - from]));
                            assert(false);
                        }
                    },
                    None => {
                        assert(!is_name_sep(rest[i - from]));
                        assert(false);
                    },
                }
            }
            return Some(i);
        }
        proof {
            assert(rest[i - from] == s@[i as int]);
        }
        i = i + 1;
    }
    proof {
        lemma_find_name_sep(rest);
        if find_name_sep(rest) is Some {
            let k = find_name_sep(rest)->Some_0;
            assert(!is_name_sep(rest[k]));
            assert(false);
        }
    }
    None
}

/// The nonempty name tokens of a character sequence.
fn name_tokens_of(s: &[char]) -> (r: Vec<Vec<char>>)
    ensures
        r.deep_view() == name_tokens(s@),
{
    let mut out: Vec<Vec<char>> = Vec::new();
    let mut start: usize = 0;
    let n = s.len();
    proof {
        reveal(Seq::filter);
        assert(out.deep_view() =~= Seq::<Seq<char>>::empty());
        assert(s@.subrange(0, n as int) =~= s@);
        assert(Seq::<Seq<char>>::empty() + name_tokens(s@) =~= name_tokens(s@));
    }
    loop
        invariant
            start <= n,
            n == s@.len(),
            name_tokens(s@) == out.deep_view() + name_tokens(
                s@.subrange(start as int, n as int),
            ),
        decreases n - start,
    {
        let ghost rem = s@.subrange(start as int, n as int);
        let ghost dv0 = out.deep_view();
        let ghost o0 = out@;
        match find_name_sep_from(s, start) {
            Some(i) => {
                proof {
                    lemma_find_name_sep(rem);
                }
                let piece = sub_chars(s, start, i);
                proof {
                    assert(piece@ =~= rem.subrange(0, i - start));
                }
                if piece.len() > 0 {
                    out.push(piece);
                }
                proof {
                    let tail = rem.subrange(i - start + 1, rem.len() as int);
                    assert(s@.subrange(i + 1 as int, n as int) =~= tail);
                    lemma_name_tokens_cons(rem, i - start);
                    if rem.subrange(0, i - start).len() > 0 {
                        assert(out@ == o0.push(out@[o0.len() as int]));
                        assert forall|j: int| 0 <= j < out@.len() implies out.deep_view()[j] == (
                        dv0 + seq![rem.subrange(0, i - start)])[j] by {
                            if j < o0.len() {
                                assert(out@[j] == o0[j]);
                                assert(dv0[j] == o0[j].deep_view());
                            }
                        }
                        assert(out.deep_view() =~= dv0 + seq![rem.subrange(0, i - start)]);
                    }
                }
                start = i + 1;
            },
            None => {
                let piece = sub_chars(s, start, n);
                proof {
                    assert(piece@ =~= rem);
                    lemma_name_tokens_whole(rem);
                }
                if piece.len() > 0 {
                    out.push(piece);
                    proof {
                        assert(out@ == o0.push(out@[o0.len() as int]));
                        assert forall|j: int| 0 <= j < out@.len() implies out.deep_view()[j] == (
                        dv0 + seq![rem])[j] by {
                            if j < o0.len() {
                                assert(out@[j] == o0[j]);
                                assert(dv0[j] == o0[j].deep_view());
                            }
                        }
                        assert(out.deep_view() =~= dv0 + seq![rem]);
                    }
                } else {
                    proof {
                        assert(dv0 + Seq::<Seq<char>>::empty() =~= dv0);
                    }
                }
                return out;
            },
        }
    }
}

/// With a separator at `i`, the tokens are the piece before it (when
/// nonempty) followed by the tokens after it.
proof fn lemma_name_tokens_cons(s: Seq<char>, i: int)
    requires
        0 <= i < s.len(),
        find_name_sep(s) == Some(i),
    ensures
        name_tokens(s) =~= (if s.subrange(0, i).len() > 0 {
            seq![s.subrange(0, i)]
        } else {
            Seq::<Seq<char>>::empty()
        }) + name_tokens(s.subrange(i + 1, s.len() as int)),
{
    let head = s.subrange(0, i);
    let tail = s.subrange(i + 1, s.len() as int);
    assert(split_class_seq(s) == seq![head] + split_class_seq(tail));
    lemma_filter_prepend(head, split_class_seq(tail));
}

/// Without separators, the only token is the whole text when nonempty.
proof fn lemma_name_tokens_whole(s: Seq<char>)
    requires
        find_name_sep(s) is None,
    ensures
        name_tokens(s) =~= (if s.len() > 0 {
            seq![s]
        } else {
            Seq::<Seq<char>>::empty()
        }),
{
    reveal_with_fuel(Seq::filter, 3);
    assert(split_class_seq(s) == seq![s]);
    assert(seq![s].drop_last() =~= Seq::<Seq<char>>::empty());
    assert(seq![s].last() == s);
}

/// Filtering a list with one piece prepended keeps the piece exactly
/// when it is nonempty.
proof fn lemma_filter_prepend(head: Seq<char>, rest: Seq<Seq<char>>)
    ensures
        (seq![head] + rest).filter(|p: Seq<char>| p.len() > 0) =~= (if head.len() > 0 {
            seq![head]
        } else {
            Seq::<Seq<char>>::empty()
        }) + rest.filter(|p: Seq<char>| p.len() > 0),
    decreases rest.len(),
{
    reveal(Seq::filter);
    let pred = |p: Seq<char>| p.len() > 0;
    if rest.len() == 0 {
        assert((seq![head] + rest) =~= seq![head]);
        assert(seq![head].drop_last() =~= Seq::<Seq<char>>::empty());
        assert(seq![head].last() == head);
        assert(Seq::<Seq<char>>::empty().filter(pred) =~= Seq::<Seq<char>>::empty());
    } else {
        let whole = seq![head] + rest;
        assert(whole.drop_last() =~= seq![head] + rest.drop_last());
        assert(whole.last() == rest.last());
        lemma_filter_prepend(head, rest.drop_last());
    }
}

impl Person {
    /// Reads a person-list value; empty input gives no people, anything
    /// else always succeeds.
    pub fn people_from_str(s: &str) -> (r: Result<Vec<Person>, String>)
        ensures
            r matches Ok(people) && people.deep_view() == people_spec(s@),
    {
        if s.is_empty() {
            let r: Vec<Person> = Vec::new();
            proof {
                assert(r.deep_view() =~= Seq::<PersonV>::empty());
            }
            return Ok(r);
        }
        let cs = str_chars(s);
        let sep = str_chars(" and ");
        proof {
            reveal_strlit(" and ");
        }
        let pieces = splitn_chars(cs.as_slice(), sep.as_slice(), 100);
        let n = pieces.len();
        let mut out: Vec<Person> = Vec::new();
        let mut i: usize = 0;
        let ghost people = splitn_seq(s@, " and "@, 100).map_values(
            |p: Seq<char>| person_spec(p),
        );
        proof {
            assert(out.deep_view() =~= people.subrange(0, 0));
        }
        while i < n
            invariant
                i <= n,
                n == pieces@.len(),
                out@.len() == i,
                " and "@.len() == 5,
                pieces.deep_view() == splitn_seq(s@, " and "@, 100),
                people == splitn_seq(s@, " and "@, 100).map_values(
                    |p: Seq<char>| person_spec(p),
                ),
                n == people.len(),
                out.deep_view() =~= people.subrange(0, i as int),
            decreases n - i,
        {
            let ghost dv0 = out.deep_view();
            let ghost o0 = out@;
            proof {
                assert(pieces.deep_view()[i as int] == pieces@[i as int].deep_view());
                assert(pieces@[i as int]@ =~= pieces@[i as int].deep_view());
            }
            let ps = chars_to_string(pieces[i].as_slice());
            let person = match Self::person_from_str(ps.as_str()) {
                Ok(p) => p,
                Err(_) => {
                    proof {
                        assert(false);
                    }
                    Person::FullName(ps)
                },
            };
            out.push(person);
            proof {
                assert(out@ == o0.push(person));
                assert forall|j: int| 0 <= j < out@.len() implies out.deep_view()[j]
                    == people.subrange(0, i + 1 as int)[j] by {
                    if j < o0.len() {
                        assert(out@[j] == o0[j]);
                        assert(dv0[j] == o0[j].deep_view());
                    } else {
                        assert(out@[j] == person);
                        assert(people[j] == person_spec(pieces.deep_view()[j]));
                    }
                }
                assert(out.deep_view() =~= people.subrange(0, i + 1 as int));
            }
            i = i + 1;
        }
        proof {
            assert(people.subrange(0, n as int) =~= people);
        }
        Ok(out)
    }

    /// Reads one person substring; always succeeds.
    pub fn person_from_str(s: &str) -> (r: Result<Person, String>)
        ensures
            r matches Ok(p) && p@ == person_spec(s@),
    {
        let cs = str_chars(s);
        let sep = str_chars(", ");
        proof {
            reveal_strlit(", ");
        }
        let parts = splitn_chars(cs.as_slice(), sep.as_slice(), 2);
        proof {
            assert(parts.deep_view().len() >= 1);
        }
        if parts.len() < 2 {
            return Ok(Person::FullName(s.to_owned()));
        }
        proof {
            assert(parts.deep_view()[0] == parts@[0].deep_view());
            assert(parts.deep_view()[1] == parts@[1].deep_view());
            assert(parts@[0]@ =~= parts@[0].deep_view());
            assert(parts@[1]@ =~= parts@[1].deep_view());
        }
        let rest = chars_to_string(parts[1].as_slice());
        let fm = Self::first_or_first_and_middle(rest.as_str());
        let last = chars_to_string(parts[0].as_slice());
        if fm.1.len() == 0 {
            proof {
                assert(fm.1.deep_view() =~= Seq::<Seq<char>>::empty());
            }
            Ok(Person::FirstLast { first_name: fm.0, last_name: last })
        } else {
            proof {
                assert(fm.1.deep_view().len() > 0);
            }
            Ok(
                Person::FirstMiddleLast {
                    first_name: fm.0,
                    middle_names: fm.1,
                    last_name: last,
                },
            )
        }
    }

    /// The first name and the middle names of the part after the comma.
    pub fn first_or_first_and_middle(s: &str) -> (r: (String, Vec<String>))
        ensures
            r.0@ == fm_spec(s@).0,
            r.1.deep_view() == fm_spec(s@).1,
    {
        let cs = str_chars(s);
        let toks = name_tokens_of(cs.as_slice());
        if toks.len() == 0 {
            let empty: Vec<String> = Vec::new();
            proof {
                assert(empty.deep_view() =~= Seq::<Seq<char>>::empty());
            }
            return (s.to_owned(), empty);
        }
        proof {
            assert(toks.deep_view()[0] == toks@[0].deep_view());
            assert(toks@[0]@ =~= toks@[0].deep_view());
        }
        let first = chars_to_string(toks[0].as_slice());
        let n = toks.len();
        let mut middles: Vec<String> = Vec::new();
        let mut i: usize = 1;
        let ghost mids = name_tokens(s@).drop_first();
        proof {
            assert(middles.deep_view() =~= mids.subrange(0, 0));
        }
        while i < n
            invariant
                1 <= i <= n,
                n == toks@.len(),
                middles@.len() == i - 1,
                toks.deep_view() == name_tokens(s@),
                n >= 1,
                mids == name_tokens(s@).drop_first(),
                middles.deep_view() =~= mids.subrange(0, i - 1),
            decreases n - i,
        {
            let ghost dv0 = middles.deep_view();
            let ghost o0 = middles@;
            proof {
                assert(toks.deep_view()[i as int] == toks@[i as int].deep_view());
                assert(toks@[i as int]@ =~= toks@[i as int].deep_view());
                assert(mids[i - 1] == name_tokens(s@)[i as int]);
            }
            let m = chars_to_string(toks[i].as_slice());
            middles.push(m);
            proof {
                assert(middles@ == o0.push(m));
                assert forall|j: int| 0 <= j < middles@.len() implies middles.deep_view()[j]
                    == mids.subrange(0, i as int)[j] by {
                    if j < o0.len() {
                        assert(middles@[j] == o0[j]);
                        assert(dv0[j] == o0[j].deep_view());
                    } else {
                        assert(middles@[j] == m);
                    }
                }
                assert(middles.deep_view() =~= mids.subrange(0, i as int));
            }
            i = i + 1;
        }
        proof {
            assert(mids.subrange(0, n - 1) =~= mids);
        }
        (first, middles)
    }
}

} // verus!
