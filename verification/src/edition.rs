//! The edition of a work: numeric when the value (with at most one
//! trailing dot) reads as an unsigned integer, literal otherwise.

use crate::chars::{chars_to_string, str_chars};
use crate::strutil::{parse_u32_chars, parse_u32_spec, sub_chars};
use vstd::prelude::*;

verus! {

/// An edition: a number, or the raw text.
#[derive(Debug)]
pub enum Edition {
    Numeric(u32),
    Literal(String),
}

/// Spec-level image of an edition.
pub enum EditionV {
    Numeric(u32),
    Literal(Seq<char>),
}

impl View for Edition {
    type V = EditionV;

    open spec fn view(&self) -> EditionV {
        match self {
            Edition::Numeric(n) => EditionV::Numeric(*n),
            Edition::Literal(s) => EditionV::Literal(s@),
        }
    }
}

impl DeepView for Edition {
    type V = EditionV;

    open spec fn deep_view(&self) -> EditionV {
        self.view()
    }
}

impl PartialEq for Edition {
    fn eq(&self, other: &Self) -> (r: bool) {
        match (self, other) {
            (Edition::Numeric(a), Edition::Numeric(b)) => *a == *b,
            (Edition::Literal(a), Edition::Literal(b)) => *a == *b,
            _ => false,
        }
    }
}

impl vstd::std_specs::cmp::PartialEqSpecImpl for Edition {
    open spec fn obeys_eq_spec() -> bool {
        true
    }

    open spec fn eq_spec(&self, other: &Self) -> bool {
        self@ == other@
    }
}

/// What parsing an edition yields: at most one trailing dot is
/// stripped, then a number if the rest is one, else the rest verbatim.
pub open spec fn edition_spec(s: Seq<char>) -> EditionV {
    let t = if s.len() > 0 && s.last() == '.' {
        s.drop_last()
    } else {
        s
    };
    match parse_u32_spec(t) {
        Some(n) => EditionV::Numeric(n),
        None => EditionV::Literal(t),
    }
}

impl Edition {
    /// Parses an edition value.
    pub fn parse(s: &str) -> (r: Edition)
        ensures
            r@ == edition_spec(s@),
    {
        let cs = str_chars(s);
        let n = cs.len();
        let end: usize = if n > 0 && cs[n - 1] == '.' {
            n - 1
        } else {
            n
        };
        let t = sub_chars(cs.as_slice(), 0, end);
        proof {
            if end < n {
                assert(t@ =~= s@.drop_last());
            } else {
                assert(t@ =~= s@);
            }
        }
        match parse_u32_chars(t.as_slice()) {
            Some(v) => Edition::Numeric(v),
            None => Edition::Literal(chars_to_string(t.as_slice())),
        }
    }
}

} // verus!
