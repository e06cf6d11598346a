//! Classification of input characters into literal categories: the
//! structural delimiters of an entry, whitespace, and Unicode-aware
//! letter / digit / other classes.

use vstd::prelude::*;

verus! {

/// The category of one character of input, or the end of the input.
#[derive(Debug, Clone, Copy, PartialEq, Eq, Structural)]
pub enum EntryLiteral {
    AtSign,
    LeftBrace,
    RightBrace,
    Comma,
    DoubleQuote,
    Hash,
    Equals,
    Whitespace,
    Newline,
    Alphabetic(char),
    Numeric(char),
    Other(char),
    EndOfFile,
}

pub uninterp spec fn char_alphabetic(c: char) -> bool;

pub uninterp spec fn char_numeric(c: char) -> bool;

pub uninterp spec fn lower_char(c: char) -> char;

pub uninterp spec fn char_white(c: char) -> bool;

/// Relies on char::is_alphabetic: a property of the character alone;
/// within ASCII exactly the letters have it.
#[verifier::external_body]
fn is_alphabetic_char(c: char) -> (r: bool)
    ensures
        r == char_alphabetic(c),
        ('a' <= c && c <= 'z') || ('A' <= c && c <= 'Z') ==> r,
        (c as u32) < 128 && !(('a' <= c && c <= 'z') || ('A' <= c && c <= 'Z')) ==> !r,
{
    c.is_alphabetic()
}

/// Relies on char::is_numeric: a property of the character alone; within
/// ASCII exactly the digits have it.
#[verifier::external_body]
fn is_numeric_char(c: char) -> (r: bool)
    ensures
        r == char_numeric(c),
        ('0' <= c && c <= '9') ==> r,
        (c as u32) < 128 && !('0' <= c && c <= '9') ==> !r,
{
    c.is_numeric()
}

/// Relies on char::to_lowercase: its first character depends on the
/// character alone; an ASCII capital maps to the letter 32 above it and
/// every other ASCII character to itself. The iterator always yields at
/// least one character, so unwrapping its head cannot panic.
#[verifier::external_body]
pub(crate) fn lowercase_char(c: char) -> (r: char)
    ensures
        r == lower_char(c),
        ('A' <= c && c <= 'Z') ==> r as u32 == c as u32 + 32,
        (c as u32) < 128 && !('A' <= c && c <= 'Z') ==> r == c,
{
    c.to_lowercase().next().unwrap()
}

/// The literal category of a character: structural delimiters first, then
/// whitespace, then the Unicode letter and digit classes, then everything
/// else.
pub open spec fn classify_spec(c: char) -> EntryLiteral {
    if c == '@' {
        EntryLiteral::AtSign
    } else if c == '{' {
        EntryLiteral::LeftBrace
    } else if c == '}' {
        EntryLiteral::RightBrace
    } else if c == ',' {
        EntryLiteral::Comma
    } else if c == '"' {
        EntryLiteral::DoubleQuote
    } else if c == '#' {
        EntryLiteral::Hash
    } else if c == '=' {
        EntryLiteral::Equals
    } else if c == ' ' || c == '\t' || c == '\r' {
        EntryLiteral::Whitespace
    } else if c == '\n' {
        EntryLiteral::Newline
    } else if char_alphabetic(c) {
        EntryLiteral::Alphabetic(c)
    } else if char_numeric(c) {
        EntryLiteral::Numeric(c)
    } else {
        EntryLiteral::Other(c)
    }
}

/// The character a literal stands for, used when a literal is appended to
/// a value under construction or shown in a diagnostic. End of input is
/// rendered as '%'.
pub open spec fn to_char_spec(l: EntryLiteral) -> char {
    match l {
        EntryLiteral::AtSign => '@',
        EntryLiteral::LeftBrace => '{',
        EntryLiteral::RightBrace => '}',
        EntryLiteral::Comma => ',',
        EntryLiteral::DoubleQuote => '"',
        EntryLiteral::Hash => '#',
        EntryLiteral::Equals => '=',
        EntryLiteral::Whitespace => ' ',
        EntryLiteral::Newline => '\n',
        EntryLiteral::Other(c) => c,
        EntryLiteral::Alphabetic(c) => c,
        EntryLiteral::Numeric(c) => c,
        EntryLiteral::EndOfFile => '%',
    }
}

impl EntryLiteral {
    /// Classifies one character.
    pub fn from_char(c: char) -> (r: EntryLiteral)
        ensures
            r == classify_spec(c),
    {
        if c == '@' {
            EntryLiteral::AtSign
        } else if c == '{' {
            EntryLiteral::LeftBrace
        } else if c == '}' {
            EntryLiteral::RightBrace
        } else if c == ',' {
            EntryLiteral::Comma
        } else if c == '"' {
            EntryLiteral::DoubleQuote
        } else if c == '#' {
            EntryLiteral::Hash
        } else if c == '=' {
            EntryLiteral::Equals
        } else if c == ' ' || c == '\t' || c == '\r' {
            EntryLiteral::Whitespace
        } else if c == '\n' {
            EntryLiteral::Newline
        } else if is_alphabetic_char(c) {
            EntryLiteral::Alphabetic(c)
        } else if is_numeric_char(c) {
            EntryLiteral::Numeric(c)
        } else {
            EntryLiteral::Other(c)
        }
    }

    /// The character this literal stands for.
    pub fn to_char(self) -> (r: char)
        ensures
            r == to_char_spec(self),
    {
        match self {
            EntryLiteral::AtSign => '@',
            EntryLiteral::LeftBrace => '{',
            EntryLiteral::RightBrace => '}',
            EntryLiteral::Comma => ',',
            EntryLiteral::DoubleQuote => '"',
            EntryLiteral::Hash => '#',
            EntryLiteral::Equals => '=',
            EntryLiteral::Whitespace => ' ',
            EntryLiteral::Newline => '\n',
            EntryLiteral::Other(c) => c,
            EntryLiteral::Alphabetic(c) => c,
            EntryLiteral::Numeric(c) => c,
            EntryLiteral::EndOfFile => '%',
        }
    }
}

} // verus!
