//! Page values: comma-separated segments, each a single page or a range
//! cut at a hyphen, en dash or em dash (repeated hyphens and surrounding
//! whitespace included).

use crate::chars::{chars_to_string, str_chars};
use crate::strutil::{
    find_from, find_sep, parse_u32_chars, parse_u32_spec, split_chars, split_seq, trim_chars,
    trim_spec,
};
use vstd::prelude::*;

verus! {

/// One page: a number, or the raw text.
#[derive(Debug)]
pub enum Page {
    Numeric(u32),
    Literal(String),
}

/// A pages segment: one page, or a range between two.
#[derive(Debug)]
pub enum Pages {
    Single(Page),
    Range(Page, Page),
}

/// Spec-level image of a page.
pub enum PageV {
    Numeric(u32),
    Literal(Seq<char>),
}

/// Spec-level image of a pages segment.
pub enum PagesV {
    Single(PageV),
    Range(PageV, PageV),
}

impl View for Page {
    type V = PageV;

    open spec fn view(&self) -> PageV {
        match self {
            Page::Numeric(n) => PageV::Numeric(*n),
            Page::Literal(s) => PageV::Literal(s@),
        }
    }
}

impl DeepView for Page {
    type V = PageV;

    open spec fn deep_view(&self) -> PageV {
        self.view()
    }
}

impl View for Pages {
    type V = PagesV;

    open spec fn view(&self) -> PagesV {
        match self {
            Pages::Single(p) => PagesV::Single(p@),
            Pages::Range(a, b) => PagesV::Range(a@, b@),
        }
    }
}

impl DeepView for Pages {
    type V = PagesV;

    open spec fn deep_view(&self) -> PagesV {
        self.view()
    }
}

impl PartialEq for Page {
    fn eq(&self, other: &Self) -> (r: bool) {
        match (self, other) {
            (Page::Numeric(a), Page::Numeric(b)) => *a == *b,
            (Page::Literal(a), Page::Literal(b)) => *a == *b,
            _ => false,
        }
    }
}

impl vstd::std_specs::cmp::PartialEqSpecImpl for Page {
    open spec fn obeys_eq_spec() -> bool {
        true
    }

    open spec fn eq_spec(&self, other: &Self) -> bool {
        self@ == other@
    }
}

impl PartialEq for Pages {
    fn eq(&self, other: &Self) -> (r: bool) {
        match (self, other) {
            (Pages::Single(a), Pages::Single(b)) => a == b,
            (Pages::Range(a, b), Pages::Range(c, d)) => a == c && b == d,
            _ => false,
        }
    }
}

impl vstd::std_specs::cmp::PartialEqSpecImpl for Pages {
    open spec fn obeys_eq_spec() -> bool {
        true
    }

    open spec fn eq_spec(&self, other: &Self) -> bool {
        self@ == other@
    }
}

/// What one page reads as: a number if it parses, else the text.
pub open spec fn page_spec(s: Seq<char>) -> PageV {
    match parse_u32_spec(s) {
        Some(n) => PageV::Numeric(n),
        None => PageV::Literal(s),
    }
}

/// The nonempty pieces of a piece list, each trimmed.
pub open spec fn pieces_ft(l: Seq<Seq<char>>) -> Seq<Seq<char>> {
    l.filter(|p: Seq<char>| p.len() > 0).map_values(|p: Seq<char>| trim_spec(p))
}

/// The pieces a separator cuts a segment into, when it occurs at all:
/// the nonempty pieces of the split, trimmed.
pub open spec fn range_pieces(s: Seq<char>, sep: Seq<char>) -> Seq<Seq<char>> {
    if find_sep(s, sep) is Some {
        pieces_ft(split_seq(s, sep))
    } else {
        Seq::empty()
    }
}

/// All range pieces of a segment, over the three separators in order:
/// hyphen, en dash, em dash.
pub open spec fn split_range_spec(s: Seq<char>) -> Seq<Seq<char>> {
    range_pieces(s, seq!['-']) + range_pieces(s, seq!['\u{2013}']) + range_pieces(
        s,
        seq!['\u{2014}'],
    )
}

/// What one segment reads as: a range exactly when the separators cut
/// it into two pieces, a single page otherwise.
pub open spec fn single_or_range_spec(s: Seq<char>) -> PagesV {
    let sr = split_range_spec(s);
    if sr.len() == 2 {
        PagesV::Range(page_spec(sr[0]), page_spec(sr[1]))
    } else {
        PagesV::Single(page_spec(s))
    }
}

/// What a pages value reads as: its comma-separated segments, trimmed.
pub open spec fn pages_map(l: Seq<Seq<char>>) -> Seq<PagesV> {
    l.map_values(|p: Seq<char>| single_or_range_spec(trim_spec(p)))
}

/// What a pages value reads as.
pub open spec fn pages_spec(s: Seq<char>) -> Seq<PagesV> {
    pages_map(split_seq(s, seq![',']))
}

/// One more piece extends the filtered, trimmed piece list by the piece
/// itself when nonempty.
proof fn lemma_pieces_ft_push(l: Seq<Seq<char>>, x: Seq<char>)
    ensures
        pieces_ft(l.push(x)) =~= pieces_ft(l) + (if x.len() > 0 {
            seq![trim_spec(x)]
        } else {
            Seq::<Seq<char>>::empty()
        }),
{
    reveal(Seq::filter);
    let pred = |p: Seq<char>| p.len() > 0;
    assert(l.push(x).drop_last() =~= l);
    assert(l.push(x).last() == x);
    assert(l.push(x).filter(pred) == if pred(x) {
        l.filter(pred).push(x)
    } else {
        l.filter(pred)
    });
}

impl Pages {
    /// Reads one page.
    pub fn page_from_str(s: &str) -> (r: Page)
        ensures
            r@ == page_spec(s@),
    {
        let cs = str_chars(s);
        match parse_u32_chars(cs.as_slice()) {
            Some(n) => Page::Numeric(n),
            None => Page::Literal(s.to_owned()),
        }
    }

    /// The range pieces a segment is cut into, over all separators that
    /// occur in it.
    pub fn split_range(s: &str) -> (r: Vec<String>)
        ensures
            r.deep_view() == split_range_spec(s@),
    {
        let cs = str_chars(s);
        let mut out: Vec<String> = Vec::new();
        proof {
            assert(out.deep_view() =~= Seq::<Seq<char>>::empty());
        }
        let hyphen: Vec<char> = vec!['-'];
        let en_dash: Vec<char> = vec!['\u{2013}'];
        let em_dash: Vec<char> = vec!['\u{2014}'];
        proof {
            assert(hyphen@ =~= seq!['-']);
            assert(en_dash@ =~= seq!['\u{2013}']);
            assert(em_dash@ =~= seq!['\u{2014}']);
        }
        Self::push_range_pieces(&mut out, cs.as_slice(), hyphen.as_slice());
        Self::push_range_pieces(&mut out, cs.as_slice(), en_dash.as_slice());
        Self::push_range_pieces(&mut out, cs.as_slice(), em_dash.as_slice());
        proof {
            assert(out.deep_view() =~= split_range_spec(s@));
        }
        out
    }

    /// Appends the range pieces for one separator, when it occurs.
    fn push_range_pieces(out: &mut Vec<String>, cs: &[char], sep: &[char])
        requires
            sep@.len() >= 1,
        ensures
            final(out).deep_view() =~= old(out).deep_view() + range_pieces(cs@, sep@),
    {
        let ghost base = out.deep_view();
        match find_from(cs, sep, 0) {
            None => {
                proof {
                    crate::strutil::lemma_find_sep(cs@, sep@);
                    assert(cs@.subrange(0, cs@.len() as int) =~= cs@);
                    assert(range_pieces(cs@, sep@) =~= Seq::<Seq<char>>::empty());
                    assert(base + Seq::<Seq<char>>::empty() =~= base);
                }
            },
            Some(_) => {
                proof {
                    assert(cs@.subrange(0, cs@.len() as int) =~= cs@);
                    assert(find_sep(cs@, sep@) is Some);
                }
                let pieces = split_chars(cs, sep);
                let n = pieces.len();
                let mut i: usize = 0;
                proof {
                    reveal(Seq::filter);
                    assert(split_seq(cs@, sep@).subrange(0, 0) =~= Seq::<Seq<char>>::empty());
                    assert(pieces_ft(Seq::<Seq<char>>::empty()) =~= Seq::<Seq<char>>::empty());
                    assert(base + Seq::<Seq<char>>::empty() =~= base);
                }
                while i < n
                    invariant
                        i <= n,
                        n == pieces@.len(),
                        out@.len() == out.deep_view().len(),
                        pieces.deep_view() == split_seq(cs@, sep@),
                        out.deep_view() =~= base + pieces_ft(
                            split_seq(cs@, sep@).subrange(0, i as int),
                        ),
                    decreases n - i,
                {
                    let ghost pre = split_seq(cs@, sep@).subrange(0, i as int);
                    let ghost post = split_seq(cs@, sep@).subrange(0, i + 1 as int);
                    let ghost dv0 = out.deep_view();
                    let ghost o0 = out@;
                    proof {
                        assert(post =~= pre.push(split_seq(cs@, sep@)[i as int]));
                        lemma_pieces_ft_push(pre, split_seq(cs@, sep@)[i as int]);
                        assert(pieces.deep_view()[i as int] == pieces@[i as int].deep_view());
                        assert(pieces@[i as int]@ =~= pieces@[i as int].deep_view());
                    }
                    if pieces[i].len() > 0 {
                        let t = trim_chars(pieces[i].as_slice());
                        let ts = chars_to_string(t.as_slice());
                        out.push(ts);
                        proof {
                            assert(out@ == o0.push(ts));
                            assert forall|j: int| 0 <= j < out@.len() implies out.deep_view()[j]
                                == (dv0 + seq![trim_spec(split_seq(cs@, sep@)[i as int])])[j] by {
                                if j < o0.len() {
                                    assert(out@[j] == o0[j]);
                                    assert(dv0[j] == o0[j].deep_view());
                                } else {
                                    assert(out@[j] == ts);
                                }
                            }
                            assert(out.deep_view() =~= dv0 + seq![trim_spec(
                                split_seq(cs@, sep@)[i as int],
                            )]);
                            assert(out.deep_view() =~= base + pieces_ft(post));
                        }
                    } else {
                        proof {
                            assert(split_seq(cs@, sep@)[i as int].len() == 0);
                            assert(out.deep_view() =~= base + pieces_ft(post));
                        }
                    }
                    i = i + 1;
                }
                proof {
                    assert(split_seq(cs@, sep@).subrange(0, n as int) =~= split_seq(cs@, sep@));
                }
            },
        }
    }

    /// Reads one segment: a range exactly when the separators cut it
    /// into two pieces.
    pub fn single_or_range_from_str(s: &str) -> (r: Pages)
        ensures
            r@ == single_or_range_spec(s@),
    {
        let sr = Self::split_range(s);
        if sr.len() == 2 {
            proof {
                assert(sr.deep_view()[0] == sr@[0]@);
                assert(sr.deep_view()[1] == sr@[1]@);
            }
            let a = Self::page_from_str(sr[0].as_str());
            let b = Self::page_from_str(sr[1].as_str());
            Pages::Range(a, b)
        } else {
            Pages::Single(Self::page_from_str(s))
        }
    }

    /// Reads a pages value: its comma-separated segments, trimmed.
    pub fn pages_from_str(s: &str) -> (r: Vec<Pages>)
        ensures
            r.deep_view() == pages_spec(s@),
    {
        let cs = str_chars(s);
        let comma: Vec<char> = vec![','];
        proof {
            assert(comma@ =~= seq![',']);
        }
        let pieces = split_chars(cs.as_slice(), comma.as_slice());
        let n = pieces.len();
        let mut out: Vec<Pages> = Vec::new();
        let mut i: usize = 0;
        proof {
            assert(out.deep_view() =~= pages_map(split_seq(s@, seq![',']).subrange(0, 0)));
        }
        while i < n
            invariant
                i <= n,
                n == pieces@.len(),
                out@.len() == i,
                pieces.deep_view() == split_seq(s@, seq![',']),
                out.deep_view() =~= pages_map(split_seq(s@, seq![',']).subrange(0, i as int)),
            decreases n - i,
        {
            let ghost pre = split_seq(s@, seq![',']).subrange(0, i as int);
            let ghost post = split_seq(s@, seq![',']).subrange(0, i + 1 as int);
            let ghost dv0 = out.deep_view();
            let ghost o0 = out@;
            proof {
                assert(post =~= pre.push(split_seq(s@, seq![','])[i as int]));
                assert(pieces.deep_view()[i as int] == pieces@[i as int].deep_view());
                assert(pieces@[i as int]@ =~= pieces@[i as int].deep_view());
            }
            let t = trim_chars(pieces[i].as_slice());
            let ts = chars_to_string(t.as_slice());
            let seg = Self::single_or_range_from_str(ts.as_str());
            out.push(seg);
            proof {
                assert(out@ == o0.push(seg));
                assert forall|j: int| 0 <= j < out@.len() implies out.deep_view()[j] == pages_map(
                    post,
                )[j] by {
                    assert(post.len() == i + 1);
                    if j < o0.len() {
                        assert(out@[j] == o0[j]);
                        assert(dv0[j] == o0[j].deep_view());
                        assert(post[j] == pre[j]);
                        assert(pages_map(pre)[j] == pages_map(post)[j]);
                    } else {
                        assert(out@[j] == seg);
                        assert(pages_map(post)[j] == single_or_range_spec(trim_spec(post[j])));
                    }
                }
                assert(out.deep_view() =~= pages_map(post));
            }
            i = i + 1;
        }
        proof {
            assert(split_seq(s@, seq![',']).subrange(0, n as int) =~= split_seq(s@, seq![',']));
        }
        out
    }
}

} // verus!
