//! Dates: a year, a year and month, a full date, or a bare month. The
//! textual forms are split on `-`; a month reads as a 1-to-12 number or
//! as an English month name, which chrono recognizes.

use crate::chars::{chars_to_string, str_chars};
use crate::numfmt::dec_str;
use crate::strutil::{
    parse_i32_chars, parse_i32_spec, parse_u8_chars, parse_u8_spec, quoted_msg, split_chars,
    split_seq,
};
use vstd::prelude::*;
use vstd::string::StringExecFns;

verus! {

/// A date, as far as the source gives one.
#[derive(PartialEq, Eq, Structural, Debug, Copy, Clone)]
pub enum Date {
    YearMonthDay(i32, u8, u8),
    YearMonth(i32, u8),
    Year(i32),
    Month(u8),
}

pub uninterp spec fn month_name_num(s: Seq<char>) -> Option<u8>;

/// Relies on chrono's `Month::from_str`, which recognizes English month
/// names (full or three-letter, ASCII-case-insensitive) and nothing
/// else, and on `Month::number_from_month`, which returns the month's
/// number between 1 and 12: together a function of the characters alone.
#[verifier::external_body]
fn month_from_name(s: &str) -> (r: Option<u8>)
    ensures
        r == month_name_num(s@),
        r is Some ==> 1 <= r.unwrap() <= 12,
{
    s.parse::<chrono::Month>().ok().map(|m| m.number_from_month() as u8)
}

/// A month given as a number: the value when it lies between 1 and 12.
pub open spec fn month_num_spec(s: Seq<char>) -> Option<u8> {
    match parse_u8_spec(s) {
        Some(n) => if 1 <= n && n <= 12 {
            Some(n)
        } else {
            None
        },
        None => None,
    }
}

/// A month segment: a 1-to-12 number, or an English month name.
pub open spec fn spec_month(s: Seq<char>) -> Option<u8> {
    match month_num_spec(s) {
        Some(n) => Some(n),
        None => month_name_num(s),
    }
}

/// The year a segment denotes, or the diagnostic for it.
pub open spec fn year_res(y: Seq<char>) -> Result<i32, Seq<char>> {
    match parse_i32_spec(y) {
        Some(v) => Ok(v),
        None => Err("Could not parse Year from '"@ + y + "'"@),
    }
}

/// The month a segment denotes, or the diagnostic for it.
pub open spec fn month_res(m: Seq<char>) -> Result<u8, Seq<char>> {
    match spec_month(m) {
        Some(v) => Ok(v),
        None => Err("Could not parse Month from '"@ + m + "'"@),
    }
}

/// The day a segment denotes: an unsigned number of at most 31, or the
/// diagnostic for it.
pub open spec fn day_res(d: Seq<char>) -> Result<u8, Seq<char>> {
    match parse_u8_spec(d) {
        Some(v) => if v > 31 {
            Err("Day must be at most 31, but was "@ + dec_str(v as nat))
        } else {
            Ok(v)
        },
        None => Err("Could not parse Day from '"@ + d + "'"@),
    }
}

/// A year and a month combined, or the first diagnostic.
pub open spec fn ym_res(y: Seq<char>, m: Seq<char>) -> Result<Date, Seq<char>> {
    match year_res(y) {
        Err(e) => Err(e),
        Ok(yy) => match month_res(m) {
            Err(e) => Err(e),
            Ok(mm) => Ok(Date::YearMonth(yy, mm)),
        },
    }
}

/// A full date combined, or the first diagnostic.
pub open spec fn ymd_res(y: Seq<char>, m: Seq<char>, d: Seq<char>) -> Result<Date, Seq<char>> {
    match ym_res(y, m) {
        Err(e) => Err(e),
        Ok(Date::YearMonth(yy, mm)) => match day_res(d) {
            Err(e) => Err(e),
            Ok(dd) => Ok(Date::YearMonthDay(yy, mm, dd)),
        },
        Ok(_) => Err(Seq::empty()),
    }
}

/// What a date value denotes: its `-`-separated segments read as a
/// year, a year and month, or a full date.
pub open spec fn date_spec(s: Seq<char>) -> Result<Date, Seq<char>> {
    let secs = split_seq(s, seq!['-']);
    if secs.len() == 1 {
        match year_res(secs[0]) {
            Ok(y) => Ok(Date::Year(y)),
            Err(e) => Err(e),
        }
    } else if secs.len() == 2 {
        ym_res(secs[0], secs[1])
    } else if secs.len() == 3 {
        ymd_res(secs[0], secs[1], secs[2])
    } else {
        Err("Could not parse Date from '"@ + s + "'"@)
    }
}

impl Date {
    /// Parses a month segment.
    pub fn parse_month_from_str(s: &str) -> (r: Result<Date, String>)
        ensures
            match month_res(s@) {
                Ok(m) => r == Ok::<Date, String>(Date::Month(m)),
                Err(e) => r matches Err(msg) && msg@ == e,
            },
    {
        let cs = str_chars(s);
        let by_number = match parse_u8_chars(cs.as_slice()) {
            Some(n) => if 1 <= n && n <= 12 {
                Some(n)
            } else {
                None
            },
            None => None,
        };
        match by_number {
            Some(n) => Ok(Date::Month(n)),
            None => match month_from_name(s) {
                Some(n) => Ok(Date::Month(n)),
                None => Err(quoted_msg("Could not parse Month from '", cs.as_slice())),
            },
        }
    }

    /// Parses a year segment.
    pub fn parse_year_from_str(s: &str) -> (r: Result<Date, String>)
        ensures
            match year_res(s@) {
                Ok(y) => r == Ok::<Date, String>(Date::Year(y)),
                Err(e) => r matches Err(msg) && msg@ == e,
            },
    {
        let cs = str_chars(s);
        match parse_i32_chars(cs.as_slice()) {
            Some(y) => Ok(Date::Year(y)),
            None => Err(quoted_msg("Could not parse Year from '", cs.as_slice())),
        }
    }

    /// Parses a year and a month segment.
    pub fn parse_year_month_from_str(year: &str, month: &str) -> (r: Result<Date, String>)
        ensures
            match ym_res(year@, month@) {
                Ok(d) => r == Ok::<Date, String>(d),
                Err(e) => r matches Err(msg) && msg@ == e,
            },
    {
        let parsed_year = match Self::parse_year_from_str(year) {
            Ok(Date::Year(y)) => y,
            Ok(_) => {
                proof {
                    assert(false);
                }
                0
            },
            Err(e) => {
                return Err(e);
            },
        };
        let parsed_month = match Self::parse_month_from_str(month) {
            Ok(Date::Month(m)) => m,
            Ok(_) => {
                proof {
                    assert(false);
                }
                1
            },
            Err(e) => {
                return Err(e);
            },
        };
        Ok(Date::YearMonth(parsed_year, parsed_month))
    }

    /// Parses a year, a month and a day segment; the day must be at
    /// most 31.
    pub fn parse_year_month_day_from_str(year: &str, month: &str, day: &str) -> (r: Result<
        Date,
        String,
    >)
        ensures
            match ymd_res(year@, month@, day@) {
                Ok(d) => r == Ok::<Date, String>(d),
                Err(e) => r matches Err(msg) && msg@ == e,
            },
    {
        let (parsed_year, parsed_month) = match Self::parse_year_month_from_str(year, month) {
            Ok(Date::YearMonth(y, m)) => (y, m),
            Ok(_) => {
                proof {
                    assert(false);
                }
                (0, 1)
            },
            Err(e) => {
                return Err(e);
            },
        };
        let dcs = str_chars(day);
        let parsed_day = match parse_u8_chars(dcs.as_slice()) {
            Some(d) => d,
            None => {
                return Err(quoted_msg("Could not parse Day from '", dcs.as_slice()));
            },
        };
        if parsed_day > 31 {
            let mut out = str_chars("Day must be at most 31, but was ");
            let mut digits = crate::numfmt::dec_chars(parsed_day as usize);
            out.append(&mut digits);
            Err(chars_to_string(out.as_slice()))
        } else {
            Ok(Date::YearMonthDay(parsed_year, parsed_month, parsed_day))
        }
    }

    /// Parses a date value: one, two or three `-`-separated segments.
    pub fn parse_date_from_str(s: &str) -> (r: Result<Date, String>)
        ensures
            match date_spec(s@) {
                Ok(d) => r == Ok::<Date, String>(d),
                Err(e) => r matches Err(msg) && msg@ == e,
            },
    {
        let cs = str_chars(s);
        let dash: Vec<char> = vec!['-'];
        proof {
            assert(dash@ =~= seq!['-']);
        }
        let sections = split_chars(cs.as_slice(), dash.as_slice());
        proof {
            assert(sections.deep_view() == split_seq(s@, seq!['-']));
        }
        if sections.len() == 1 {
            let y = chars_to_string(sections[0].as_slice());
            proof {
                assert(y@ =~= sections.deep_view()[0]);
            }
            Self::parse_year_from_str(y.as_str())
        } else if sections.len() == 2 {
            let y = chars_to_string(sections[0].as_slice());
            let m = chars_to_string(sections[1].as_slice());
            proof {
                assert(y@ =~= sections.deep_view()[0]);
                assert(m@ =~= sections.deep_view()[1]);
            }
            Self::parse_year_month_from_str(y.as_str(), m.as_str())
        } else if sections.len() == 3 {
            let y = chars_to_string(sections[0].as_slice());
            let m = chars_to_string(sections[1].as_slice());
            let d = chars_to_string(sections[2].as_slice());
            proof {
                assert(y@ =~= sections.deep_view()[0]);
                assert(m@ =~= sections.deep_view()[1]);
                assert(d@ =~= sections.deep_view()[2]);
            }
            Self::parse_year_month_day_from_str(y.as_str(), m.as_str(), d.as_str())
        } else {
            Err(quoted_msg("Could not parse Date from '", cs.as_slice()))
        }
    }

    /// Combines two partial dates: a year and a month join; otherwise
    /// the more specific one wins, the first taking precedence.
    pub fn merge(date1: Date, date2: Date) -> (r: Date)
        ensures
            r == merge_spec(date1, date2),
    {
        match date1 {
            Date::Year(y1) => match date2 {
                Date::Month(m2) => Date::YearMonth(y1, m2),
                _ => date2,
            },
            Date::Month(m1) => match date2 {
                Date::Year(y2) => Date::YearMonth(y2, m1),
                _ => date2,
            },
            _ => date1,
        }
    }
}

/// What merging two partial dates yields.
pub open spec fn merge_spec(date1: Date, date2: Date) -> Date {
    match date1 {
        Date::Year(y1) => match date2 {
            Date::Month(m2) => Date::YearMonth(y1, m2),
            _ => date2,
        },
        Date::Month(m1) => match date2 {
            Date::Year(y2) => Date::YearMonth(y2, m1),
            _ => date2,
        },
        _ => date1,
    }
}

} // verus!
