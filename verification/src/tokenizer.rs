//! The tokenizer: a single pass over the decoded character stream with an
//! explicit state variable and a buffer accumulating the text of whichever
//! token is under construction. Its whole behaviour is stated by the spec
//! machine [`step_spec`] / [`run_spec`] over the input bytes.

use crate::chars::{chars_to_string, push_char, scan_char, scan_spec, CharScan, Scanned};
use crate::literal::{classify_spec, lowercase_char, to_char_spec, EntryLiteral};
use crate::numfmt::{dec_chars, dec_str, hex_byte, push_hex_byte};
use vstd::prelude::*;
use vstd::string::StringExecFns;

verus! {

/// A token of an entry, in the order the grammar produces them:
/// entry type, citation key, field name, field value.
#[derive(Debug)]
pub enum EntryToken {
    Type(String),
    Symbol(String),
    FieldName(String),
    Value(String),
}

/// Spec-level image of a token, over character sequences.
pub enum TokenV {
    Type(Seq<char>),
    Symbol(Seq<char>),
    FieldName(Seq<char>),
    Value(Seq<char>),
}

impl View for EntryToken {
    type V = TokenV;

    open spec fn view(&self) -> TokenV {
        match self {
            EntryToken::Type(s) => TokenV::Type(s@),
            EntryToken::Symbol(s) => TokenV::Symbol(s@),
            EntryToken::FieldName(s) => TokenV::FieldName(s@),
            EntryToken::Value(s) => TokenV::Value(s@),
        }
    }
}

impl DeepView for EntryToken {
    type V = TokenV;

    open spec fn deep_view(&self) -> TokenV {
        self.view()
    }
}

impl PartialEq for EntryToken {
    fn eq(&self, other: &Self) -> (r: bool) {
        match (self, other) {
            (EntryToken::Type(a), EntryToken::Type(b)) => *a == *b,
            (EntryToken::Symbol(a), EntryToken::Symbol(b)) => *a == *b,
            (EntryToken::FieldName(a), EntryToken::FieldName(b)) => *a == *b,
            (EntryToken::Value(a), EntryToken::Value(b)) => *a == *b,
            _ => false,
        }
    }
}

impl vstd::std_specs::cmp::PartialEqSpecImpl for EntryToken {
    open spec fn obeys_eq_spec() -> bool {
        true
    }

    open spec fn eq_spec(&self, other: &Self) -> bool {
        self@ == other@
    }
}

impl EntryToken {
    /// A copy of this token holding the same text.
    pub fn duplicate(&self) -> (r: EntryToken)
        ensures
            r@ == self@,
    {
        match self {
            EntryToken::Type(s) => EntryToken::Type(s.clone()),
            EntryToken::Symbol(s) => EntryToken::Symbol(s.clone()),
            EntryToken::FieldName(s) => EntryToken::FieldName(s.clone()),
            EntryToken::Value(s) => EntryToken::Value(s.clone()),
        }
    }
}

/// A point in the input: 1-based byte offset of the last consumed byte,
/// 1-based line, and the column, which is 0 right after a newline and
/// grows with each consumed character.
#[derive(Debug, Clone, Copy, PartialEq, Eq, Structural)]
pub struct Position {
    pub byte: usize,
    pub line: usize,
    pub column: usize,
}

/// The submode while a field value is read: bare text, inside a quoted
/// region, or inside a brace group at the given nesting depth.
#[derive(Debug, Clone, Copy, PartialEq, Eq, Structural)]
pub enum TokenizerReadValueMode {
    Normal,
    DoubleQuoted,
    Braced(i32),
}

/// The state of the tokenizer between characters.
#[derive(Debug, Clone, Copy, PartialEq, Eq, Structural)]
pub enum TokenizerState {
    Idle,
    ReadType,
    ReadSymbol,
    ReadPropertyName,
    ReadValue(TokenizerReadValueMode),
}

/// A tokenization error. End of input while the machine is mid-entry is
/// an error; end of input between entries is the normal completion signal
/// `FileEnded`, which the driving loop translates into success.
#[derive(Debug)]
pub enum TokenizerError {
    FileEnded,
    InvalidEncoding { bytes: Vec<u8> },
    InvalidToken { literal: EntryLiteral, position: Position },
    UnexpectedEof { position: Position },
}

/// Spec-level image of a tokenization error.
pub enum ErrV {
    FileEnded,
    InvalidEncoding(Seq<u8>),
    InvalidToken(EntryLiteral, Position),
    UnexpectedEof(Position),
}

impl View for TokenizerError {
    type V = ErrV;

    open spec fn view(&self) -> ErrV {
        match self {
            TokenizerError::FileEnded => ErrV::FileEnded,
            TokenizerError::InvalidEncoding { bytes } => ErrV::InvalidEncoding(bytes@),
            TokenizerError::InvalidToken { literal, position } => ErrV::InvalidToken(
                *literal,
                *position,
            ),
            TokenizerError::UnexpectedEof { position } => ErrV::UnexpectedEof(*position),
        }
    }
}

/// The tokenizer's whole configuration, as spec values.
#[verifier::ext_equal]
pub struct TkView {
    pub input: Seq<u8>,
    pub position: Position,
    pub state: TokenizerState,
    pub buf: Seq<char>,
    pub tokens: Seq<TokenV>,
}

/// The position after consuming one character of the given byte width.
pub open spec fn advance_pos(p: Position, c: char, w: int) -> Position {
    if c == '\n' {
        Position { byte: (p.byte + w) as usize, line: (p.line + 1) as usize, column: 0 }
    } else {
        Position {
            byte: (p.byte + w) as usize,
            line: p.line,
            column: (p.column + 1) as usize,
        }
    }
}

/// What reading one literal yields: a literal category, or four bytes
/// that are not UTF-8.
pub enum LitScan {
    Lit(EntryLiteral),
    BadBytes(Seq<u8>),
}

/// Consumes one literal: decodes the next scalar (or end of input) at the
/// cursor, advances the position, and classifies the character.
pub open spec fn consume_spec(v: TkView) -> (TkView, LitScan) {
    match scan_spec(v.input, v.position.byte as int) {
        CharScan::Ended(k) => (
            TkView { position: Position { byte: (v.position.byte + k) as usize, ..v.position }, ..v },
            LitScan::Lit(EntryLiteral::EndOfFile),
        ),
        CharScan::Found(c, w) => (
            TkView { position: advance_pos(v.position, c, w), ..v },
            LitScan::Lit(classify_spec(c)),
        ),
        CharScan::Malformed => (
            TkView { position: Position { byte: (v.position.byte + 4) as usize, ..v.position }, ..v },
            LitScan::BadBytes(
                v.input.subrange(v.position.byte as int, v.position.byte as int + 4),
            ),
        ),
    }
}

/// Outcome of one machine step: continue in a new configuration, normal
/// completion, or an error.
pub enum StepOut {
    Cont(TkView),
    Finish(TkView),
    Fail(TkView, ErrV),
}

/// The configuration with one character appended to the token buffer.
pub open spec fn with_push(v: TkView, c: char) -> TkView {
    TkView { buf: v.buf.push(c), ..v }
}

/// The configuration after flushing the buffer as a token and moving to a
/// new state with an empty buffer.
pub open spec fn flushed(v: TkView, t: TokenV, st: TokenizerState) -> TkView {
    TkView { tokens: v.tokens.push(t), buf: Seq::empty(), state: st, ..v }
}

/// The configuration after a transition that discards the buffer.
pub open spec fn moved(v: TkView, st: TokenizerState) -> TkView {
    TkView { buf: Seq::empty(), state: st, ..v }
}

/// The configuration after a mode change that keeps the buffer.
pub open spec fn kept(v: TkView, st: TokenizerState) -> TkView {
    TkView { state: st, ..v }
}

/// Between entries: `@` opens an entry, whitespace is skipped, end of
/// input completes tokenization, anything else is an invalid token.
pub open spec fn dispatch_idle(v: TkView, l: EntryLiteral) -> StepOut {
    match l {
        EntryLiteral::AtSign => StepOut::Cont(moved(v, TokenizerState::ReadType)),
        EntryLiteral::Whitespace => StepOut::Cont(v),
        EntryLiteral::Newline => StepOut::Cont(v),
        EntryLiteral::EndOfFile => StepOut::Finish(v),
        _ => StepOut::Fail(v, ErrV::InvalidToken(l, v.position)),
    }
}

/// Reading the entry type: letters are lowercased and accumulated, `{`
/// flushes the type token and begins the citation key.
pub open spec fn dispatch_read_type(v: TkView, l: EntryLiteral) -> StepOut {
    match l {
        EntryLiteral::Alphabetic(c) => StepOut::Cont(
            with_push(v, crate::literal::lower_char(c)),
        ),
        EntryLiteral::LeftBrace => StepOut::Cont(
            flushed(v, TokenV::Type(v.buf), TokenizerState::ReadSymbol),
        ),
        EntryLiteral::Whitespace => StepOut::Cont(v),
        EntryLiteral::Newline => StepOut::Cont(v),
        EntryLiteral::EndOfFile => StepOut::Fail(v, ErrV::UnexpectedEof(v.position)),
        _ => StepOut::Fail(v, ErrV::InvalidToken(l, v.position)),
    }
}

/// Reading the citation key: letters, digits and other characters are
/// accumulated verbatim, `,` flushes the symbol token.
pub open spec fn dispatch_read_symbol(v: TkView, l: EntryLiteral) -> StepOut {
    match l {
        EntryLiteral::Alphabetic(c) => StepOut::Cont(with_push(v, c)),
        EntryLiteral::Numeric(c) => StepOut::Cont(with_push(v, c)),
        EntryLiteral::Other(c) => StepOut::Cont(with_push(v, c)),
        EntryLiteral::Comma => StepOut::Cont(
            flushed(v, TokenV::Symbol(v.buf), TokenizerState::ReadPropertyName),
        ),
        EntryLiteral::Whitespace => StepOut::Cont(v),
        EntryLiteral::Newline => StepOut::Cont(v),
        EntryLiteral::EndOfFile => StepOut::Fail(v, ErrV::UnexpectedEof(v.position)),
        _ => StepOut::Fail(v, ErrV::InvalidToken(l, v.position)),
    }
}

/// Reading a field name: letters accumulate, `=` flushes the name and
/// starts a value, `}` closes the entry.
pub open spec fn dispatch_read_field_name(v: TkView, l: EntryLiteral) -> StepOut {
    match l {
        EntryLiteral::Alphabetic(c) => StepOut::Cont(with_push(v, c)),
        EntryLiteral::Equals => StepOut::Cont(
            flushed(
                v,
                TokenV::FieldName(v.buf),
                TokenizerState::ReadValue(TokenizerReadValueMode::Normal),
            ),
        ),
        EntryLiteral::RightBrace => StepOut::Cont(moved(v, TokenizerState::Idle)),
        EntryLiteral::Whitespace => StepOut::Cont(v),
        EntryLiteral::Newline => StepOut::Cont(v),
        EntryLiteral::EndOfFile => StepOut::Fail(v, ErrV::UnexpectedEof(v.position)),
        _ => StepOut::Fail(v, ErrV::InvalidToken(l, v.position)),
    }
}

/// Reading a bare value: letters and digits accumulate, a quote or brace
/// enters the corresponding submode keeping the buffer, `,` flushes the
/// value and returns to field names, `}` flushes it and closes the entry.
pub open spec fn dispatch_read_value(v: TkView, l: EntryLiteral) -> StepOut {
    match l {
        EntryLiteral::Alphabetic(c) => StepOut::Cont(with_push(v, c)),
        EntryLiteral::Numeric(c) => StepOut::Cont(with_push(v, c)),
        EntryLiteral::DoubleQuote => StepOut::Cont(
            kept(v, TokenizerState::ReadValue(TokenizerReadValueMode::DoubleQuoted)),
        ),
        EntryLiteral::LeftBrace => StepOut::Cont(
            kept(v, TokenizerState::ReadValue(TokenizerReadValueMode::Braced(0))),
        ),
        EntryLiteral::Comma => StepOut::Cont(
            flushed(v, TokenV::Value(v.buf), TokenizerState::ReadPropertyName),
        ),
        EntryLiteral::RightBrace => StepOut::Cont(
            flushed(v, TokenV::Value(v.buf), TokenizerState::Idle),
        ),
        EntryLiteral::Whitespace => StepOut::Cont(v),
        EntryLiteral::Newline => StepOut::Cont(v),
        EntryLiteral::EndOfFile => StepOut::Fail(v, ErrV::UnexpectedEof(v.position)),
        _ => StepOut::Fail(v, ErrV::InvalidToken(l, v.position)),
    }
}

/// Inside a quoted value: everything but the closing quote is appended
/// using the literal's textual representation.
pub open spec fn dispatch_read_value_quoted(v: TkView, l: EntryLiteral) -> StepOut {
    match l {
        EntryLiteral::DoubleQuote => StepOut::Cont(
            kept(v, TokenizerState::ReadValue(TokenizerReadValueMode::Normal)),
        ),
        EntryLiteral::EndOfFile => StepOut::Fail(v, ErrV::UnexpectedEof(v.position)),
        _ => StepOut::Cont(with_push(v, to_char_spec(l))),
    }
}

/// The submode after a closing brace at the given depth: one group less,
/// or back to the bare value when the outermost group closes.
pub open spec fn right_brace_mode_spec(brace_level: i32) -> TokenizerReadValueMode {
    if brace_level > 0 {
        TokenizerReadValueMode::Braced((brace_level - 1) as i32)
    } else {
        TokenizerReadValueMode::Normal
    }
}

/// Inside a brace group: braces only adjust the depth, everything else is
/// appended using the literal's textual representation.
pub open spec fn dispatch_read_value_braced(v: TkView, l: EntryLiteral) -> StepOut {
    let brace_level: i32 = match v.state {
        TokenizerState::ReadValue(TokenizerReadValueMode::Braced(i)) => i,
        _ => 0,
    };
    match l {
        EntryLiteral::RightBrace => StepOut::Cont(
            kept(v, TokenizerState::ReadValue(right_brace_mode_spec(brace_level))),
        ),
        EntryLiteral::LeftBrace => StepOut::Cont(
            kept(
                v,
                TokenizerState::ReadValue(
                    TokenizerReadValueMode::Braced((brace_level + 1) as i32),
                ),
            ),
        ),
        EntryLiteral::EndOfFile => StepOut::Fail(v, ErrV::UnexpectedEof(v.position)),
        _ => StepOut::Cont(with_push(v, to_char_spec(l))),
    }
}

/// The dispatch table: which handler the current state selects.
pub open spec fn dispatch_spec(v: TkView, l: EntryLiteral) -> StepOut {
    match v.state {
        TokenizerState::Idle => dispatch_idle(v, l),
        TokenizerState::ReadType => dispatch_read_type(v, l),
        TokenizerState::ReadSymbol => dispatch_read_symbol(v, l),
        TokenizerState::ReadPropertyName => dispatch_read_field_name(v, l),
        TokenizerState::ReadValue(TokenizerReadValueMode::Normal) => dispatch_read_value(v, l),
        TokenizerState::ReadValue(TokenizerReadValueMode::DoubleQuoted) => (
        dispatch_read_value_quoted(v, l)),
        TokenizerState::ReadValue(TokenizerReadValueMode::Braced(_)) => (
        dispatch_read_value_braced(v, l)),
    }
}

/// One full machine step: consume a literal, then dispatch on it.
pub open spec fn step_spec(v: TkView) -> StepOut {
    let t = consume_spec(v);
    match t.1 {
        LitScan::Lit(l) => dispatch_spec(t.0, l),
        LitScan::BadBytes(bs) => StepOut::Fail(t.0, ErrV::InvalidEncoding(bs)),
    }
}

/// Runs the machine to completion: the final configuration, and either
/// the collected tokens or the first error.
pub open spec fn run_spec(v: TkView) -> (TkView, Result<Seq<TokenV>, ErrV>)
    decreases v.input.len() - v.position.byte,
        when v.input.len() < 0x8000_0000
{
    match step_spec(v) {
        StepOut::Cont(v2) => {
            if v2.input == v.input && v.position.byte < v2.position.byte && v2.position.byte
                <= v2.input.len() {
                run_spec(v2)
            } else {
                (v2, Result::Err(ErrV::FileEnded))
            }
        },
        StepOut::Finish(v2) => (v2, Result::Ok(v2.tokens)),
        StepOut::Fail(v2, e) => (v2, Result::Err(e)),
    }
}

/// The rendering of a position in diagnostics.
pub open spec fn pos_str_spec(p: Position) -> Seq<char> {
    "byte: "@ + dec_str(p.byte as nat) + " (line "@ + dec_str(p.line as nat) + ", column "@
        + dec_str(p.column as nat) + ")"@
}

/// The bytes of a malformed sequence rendered in hex, space-separated.
pub open spec fn hex_join(bs: Seq<u8>) -> Seq<char>
    decreases bs.len(),
{
    if bs.len() == 0 {
        Seq::empty()
    } else if bs.len() == 1 {
        hex_byte(bs[0])
    } else {
        hex_byte(bs[0]) + seq![' '] + hex_join(bs.drop_first())
    }
}

/// The message of a tokenization error.
pub open spec fn err_msg_spec(e: ErrV) -> Seq<char> {
    match e {
        ErrV::FileEnded => "File ended"@,
        ErrV::InvalidToken(l, p) => "Unexpected token: '"@ + seq![to_char_spec(l)]
            + "'. Position: "@ + pos_str_spec(p),
        ErrV::UnexpectedEof(p) => "Unexpected EOF. Position: "@ + pos_str_spec(p),
        ErrV::InvalidEncoding(bs) => "Cannot decode bytes to UTF-8. Bytes: ["@ + hex_join(bs)
            + "]"@,
    }
}

/// Appends the characters of a string slice to a character vector.
fn push_str_chars(out: &mut Vec<char>, s: &str)
    ensures
        final(out)@ == old(out)@ + s@,
{
    let mut cs = crate::chars::str_chars(s);
    out.append(&mut cs);
}

/// Appends the decimal rendering of a number to a character vector.
fn push_dec(out: &mut Vec<char>, n: usize)
    ensures
        final(out)@ == old(out)@ + dec_str(n as nat),
{
    let mut cs = dec_chars(n);
    out.append(&mut cs);
}

impl TokenizerError {
    /// The diagnostic message of this error.
    pub fn message(&self) -> (r: String)
        ensures
            r@ == err_msg_spec(self@),
    {
        match self {
            TokenizerError::FileEnded => {
                let mut out: Vec<char> = Vec::new();
                push_str_chars(&mut out, "File ended");
                proof {
                    assert(out@ =~= err_msg_spec(self@));
                }
                chars_to_string(out.as_slice())
            },
            TokenizerError::InvalidToken { literal, position } => {
                let mut out: Vec<char> = Vec::new();
                push_str_chars(&mut out, "Unexpected token: '");
                out.push(literal.to_char());
                push_str_chars(&mut out, "'. Position: ");
                push_pos_str(&mut out, *position);
                proof {
                    assert(out@ =~= err_msg_spec(self@));
                }
                chars_to_string(out.as_slice())
            },
            TokenizerError::UnexpectedEof { position } => {
                let mut out: Vec<char> = Vec::new();
                push_str_chars(&mut out, "Unexpected EOF. Position: ");
                push_pos_str(&mut out, *position);
                proof {
                    assert(out@ =~= err_msg_spec(self@));
                }
                chars_to_string(out.as_slice())
            },
            TokenizerError::InvalidEncoding { bytes } => {
                let mut out: Vec<char> = Vec::new();
                push_str_chars(&mut out, "Cannot decode bytes to UTF-8. Bytes: [");
                let mut i: usize = 0;
                let n = bytes.len();
                while i < n
                    invariant
                        i <= n,
                        n == bytes@.len(),
                        out@ =~= "Cannot decode bytes to UTF-8. Bytes: ["@ + hex_join(
                            bytes@.subrange(0, i as int),
                        ) + (if 0 < i < n {
                            seq![' ']
                        } else {
                            Seq::<char>::empty()
                        }),
                    decreases n - i,
                {
                    push_hex_byte(&mut out, bytes[i]);
                    if i + 1 < n {
                        out.push(' ');
                    }
                    proof {
                        lemma_hex_join_snoc(bytes@, i as int);
                    }
                    i = i + 1;
                }
                push_str_chars(&mut out, "]");
                proof {
                    assert(bytes@.subrange(0, n as int) =~= bytes@);
                    assert(out@ =~= err_msg_spec(self@));
                }
                chars_to_string(out.as_slice())
            },
        }
    }
}

/// One more byte extends the hex rendering by a separator and two digits.
proof fn lemma_hex_join_snoc(bs: Seq<u8>, i: int)
    requires
        0 <= i < bs.len(),
    ensures
        i > 0 ==> hex_join(bs.subrange(0, i + 1)) =~= hex_join(bs.subrange(0, i)) + seq![' ']
            + hex_byte(bs[i]),
        i + 1 < bs.len() ==> hex_join(bs.subrange(0, i + 1)) + seq![' '] =~= hex_join(
            bs.subrange(0, i),
        ) + (if i > 0 {
            seq![' ']
        } else {
            Seq::<char>::empty()
        }) + hex_byte(bs[i]) + seq![' '],
        hex_join(bs.subrange(0, i + 1)) =~= hex_join(bs.subrange(0, i)) + (if i > 0 {
            seq![' ']
        } else {
            Seq::<char>::empty()
        }) + hex_byte(bs[i]),
    decreases i,
{
    let pre = bs.subrange(0, i);
    let post = bs.subrange(0, i + 1);
    if i == 0 {
        assert(post =~= seq![bs[0]]);
        assert(hex_join(post) == hex_byte(bs[0]));
        assert(pre =~= Seq::<u8>::empty());
    } else {
        lemma_hex_join_snoc(bs.subrange(1, bs.len() as int), i - 1);
        assert(pre.drop_first() =~= bs.subrange(1, bs.len() as int).subrange(0, i - 1));
        assert(post.drop_first() =~= bs.subrange(1, bs.len() as int).subrange(0, i));
        assert(hex_join(post) == hex_byte(post[0]) + seq![' '] + hex_join(post.drop_first()));
        assert(hex_join(pre) == if i == 1 {
            hex_byte(pre[0])
        } else {
            hex_byte(pre[0]) + seq![' '] + hex_join(pre.drop_first())
        });
    }
}

/// Appends the rendering of a position to a character vector.
fn push_pos_str(out: &mut Vec<char>, p: Position)
    ensures
        final(out)@ == old(out)@ + pos_str_spec(p),
{
    push_str_chars(out, "byte: ");
    push_dec(out, p.byte);
    push_str_chars(out, " (line ");
    push_dec(out, p.line);
    push_str_chars(out, ", column ");
    push_dec(out, p.column);
    push_str_chars(out, ")");
    assert(out@ =~= old(out)@ + pos_str_spec(p));
}

/// What one handler method guarantees: one literal is consumed and the
/// given dispatch function decides the result and the new configuration.
pub open spec fn step_post(
    pre: TkView,
    post: TkView,
    r: Result<(), TokenizerError>,
    d: spec_fn(TkView, EntryLiteral) -> StepOut,
) -> bool {
    let t = consume_spec(pre);
    match t.1 {
        LitScan::BadBytes(bs) => post == t.0 && (r matches Err(e) && e@ == ErrV::InvalidEncoding(
            bs,
        )),
        LitScan::Lit(l) => match d(t.0, l) {
            StepOut::Cont(v3) => r == Ok::<(), TokenizerError>(()) && post == v3,
            StepOut::Finish(v3) => post == v3 && (r matches Err(e) && e@ == ErrV::FileEnded),
            StepOut::Fail(v3, ev) => post == v3 && (r matches Err(e) && e@ == ev),
        },
    }
}

/// The tokenizer over a byte input it owns.
pub struct Tokenizer {
    pub input: Vec<u8>,
    pub current_token_value: String,
    pub tokens: Vec<EntryToken>,
    pub state: TokenizerState,
    pub position: Position,
}

impl View for Tokenizer {
    type V = TkView;

    open spec fn view(&self) -> TkView {
        TkView {
            input: self.input@,
            position: self.position,
            state: self.state,
            buf: self.current_token_value@,
            tokens: self.tokens.deep_view(),
        }
    }
}

impl Tokenizer {
    /// Well-formedness: the cursor stays within an input short enough for
    /// the counters, line and column are bounded by the consumed bytes,
    /// and a brace depth is smaller than the number of consumed bytes.
    pub open spec fn wf(self) -> bool {
        &&& self.input@.len() < 0x7fff_ffff
        &&& self.position.byte <= self.input@.len()
        &&& 1 <= self.position.line
        &&& self.position.line <= 1 + self.position.byte
        &&& self.position.column <= self.position.byte
        &&& match self.state {
            TokenizerState::ReadValue(TokenizerReadValueMode::Braced(k)) => 0 <= k
                <= self.position.byte,
            _ => true,
        }
    }

    /// A fresh tokenizer over the given input, idle at the origin.
    pub fn new(input: Vec<u8>) -> (r: Tokenizer)
        requires
            input@.len() < 0x7fff_ffff,
        ensures
            r.wf(),
            r@.input == input@,
            r@.position == (Position { byte: 0, line: 1, column: 0 }),
            r@.state == TokenizerState::Idle,
            r@.buf == Seq::<char>::empty(),
            r@.tokens == Seq::<TokenV>::empty(),
    {
        let t = Tokenizer {
            input,
            current_token_value: String::new(),
            tokens: Vec::new(),
            state: TokenizerState::Idle,
            position: Position { byte: 0, line: 1, column: 0 },
        };
        proof {
            assert(t@.tokens =~= Seq::<TokenV>::empty());
        }
        t
    }

    /// Counts one consumed byte.
    pub fn advance_byte(&mut self)
        requires
            old(self).position.byte < usize::MAX,
        ensures
            final(self)@ == (TkView {
                position: (Position {
                    byte: (old(self).position.byte + 1) as usize,
                    ..old(self).position
                }),
                ..old(self)@
            }),
    {
        self.position.byte = self.position.byte + 1;
    }

    /// Updates line and column for one consumed character.
    pub fn advance(&mut self, c: char)
        requires
            old(self).position.line < usize::MAX,
            old(self).position.column < usize::MAX,
        ensures
            final(self)@ == (TkView {
                position: (if c == '\n' {
                    Position {
                        byte: old(self).position.byte,
                        line: (old(self).position.line + 1) as usize,
                        column: 0,
                    }
                } else {
                    Position {
                        byte: old(self).position.byte,
                        line: old(self).position.line,
                        column: (old(self).position.column + 1) as usize,
                    }
                }),
                ..old(self)@
            }),
    {
        if c == '\n' {
            self.advance_newline()
        } else {
            self.position.column = self.position.column + 1;
        }
    }

    /// Starts a new line: the line counter grows, the column resets.
    pub fn advance_newline(&mut self)
        requires
            old(self).position.line < usize::MAX,
        ensures
            final(self)@ == (TkView {
                position: (Position {
                    byte: old(self).position.byte,
                    line: (old(self).position.line + 1) as usize,
                    column: 0,
                }),
                ..old(self)@
            }),
    {
        self.position.column = 0;
        self.position.line = self.position.line + 1;
    }

    /// Moves to a new state, discarding the token buffer.
    pub fn transition(&mut self, new_state: TokenizerState)
        ensures
            final(self)@ == moved(old(self)@, new_state),
    {
        self.current_token_value = String::new();
        self.state = new_state;
    }

    /// Moves to a new state, keeping the buffer.
    pub fn transition_keep_value(&mut self, new_state: TokenizerState)
        ensures
            final(self)@ == kept(old(self)@, new_state),
    {
        self.state = new_state;
    }

    /// Appends a finished token.
    pub fn add_token(&mut self, token: EntryToken)
        ensures
            final(self)@ == (TkView { tokens: old(self)@.tokens.push(token@), ..old(self)@ }),
    {
        self.tokens.push(token);
        proof {
            assert(self.tokens.deep_view() =~= old(self).tokens.deep_view().push(
                self.tokens@[old(self).tokens@.len() as int]@,
            ));
        }
    }

    /// The rendering of the current position for diagnostics.
    pub fn position_str(&self) -> (r: String)
        ensures
            r@ == pos_str_spec(self.position),
    {
        let mut out: Vec<char> = Vec::new();
        push_pos_str(&mut out, self.position);
        chars_to_string(out.as_slice())
    }

    /// The unexpected-end-of-input failure at the current position.
    pub fn unexpected_eof(&self) -> (r: Result<(), TokenizerError>)
        ensures
            r matches Err(e) && e@ == ErrV::UnexpectedEof(self.position),
    {
        Err(TokenizerError::UnexpectedEof { position: self.position })
    }

    /// The invalid-token failure at the current position.
    pub fn invalid_token(&self, l: EntryLiteral) -> (r: Result<(), TokenizerError>)
        ensures
            r matches Err(e) && e@ == ErrV::InvalidToken(l, self.position),
    {
        Err(TokenizerError::InvalidToken { literal: l, position: self.position })
    }

    /// Decodes the next character: the byte counter grows by every
    /// consumed byte, line and column follow the decoded character.
    pub fn next_char(&mut self) -> (r: Result<Option<char>, TokenizerError>)
        requires
            old(self).wf(),
        ensures
            final(self).wf(),
            ({
                let v = old(self)@;
                match scan_spec(v.input, v.position.byte as int) {
                    CharScan::Ended(k) => r == Ok::<Option<char>, TokenizerError>(None)
                        && final(self)@ == (TkView {
                        position: (Position {
                            byte: (v.position.byte + k) as usize,
                            ..v.position
                        }),
                        ..v
                    }),
                    CharScan::Found(c, w) => r == Ok::<Option<char>, TokenizerError>(Some(c))
                        && final(self)@ == (TkView { position: advance_pos(v.position, c, w), ..v }),
                    CharScan::Malformed => (r matches Err(e) && e@ == ErrV::InvalidEncoding(
                        v.input.subrange(v.position.byte as int, v.position.byte as int + 4),
                    )) && final(self)@ == (TkView {
                        position: (Position {
                            byte: (v.position.byte + 4) as usize,
                            ..v.position
                        }),
                        ..v
                    }),
                }
            }),
    {
        let ghost v0 = self@;
        let start = self.position.byte;
        let sc = scan_char(self.input.as_slice(), start);
        match sc {
            Scanned::Found { c, width } => {
                let mut j: usize = 0;
                while j < width
                    invariant
                        j <= width,
                        1 <= width <= 4,
                        v0.position.byte + width <= v0.input.len() < 0x8000_0000,
                        self@ == (TkView {
                            position: (Position {
                                byte: (v0.position.byte + j) as usize,
                                ..v0.position
                            }),
                            ..v0
                        }),
                    decreases width - j,
                {
                    self.advance_byte();
                    j = j + 1;
                }
                self.advance(c);
                Ok(Some(c))
            },
            Scanned::Ended { trailing } => {
                let mut j: usize = 0;
                while j < trailing
                    invariant
                        j <= trailing,
                        trailing <= 4,
                        v0.position.byte + trailing <= v0.input.len() < 0x8000_0000,
                        self@ == (TkView {
                            position: (Position {
                                byte: (v0.position.byte + j) as usize,
                                ..v0.position
                            }),
                            ..v0
                        }),
                    decreases trailing - j,
                {
                    self.advance_byte();
                    j = j + 1;
                }
                Ok(None)
            },
            Scanned::Malformed => {
                let mut bs: Vec<u8> = Vec::new();
                bs.push(self.input[start]);
                bs.push(self.input[start + 1]);
                bs.push(self.input[start + 2]);
                bs.push(self.input[start + 3]);
                let mut j: usize = 0;
                while j < 4
                    invariant
                        j <= 4,
                        v0.position.byte + 4 <= v0.input.len() < 0x8000_0000,
                        self@ == (TkView {
                            position: (Position {
                                byte: (v0.position.byte + j) as usize,
                                ..v0.position
                            }),
                            ..v0
                        }),
                    decreases 4 - j,
                {
                    self.advance_byte();
                    j = j + 1;
                }
                proof {
                    assert(bs@ =~= v0.input.subrange(
                        v0.position.byte as int,
                        v0.position.byte as int + 4,
                    ));
                }
                Err(TokenizerError::InvalidEncoding { bytes: bs })
            },
        }
    }

    /// Reads and classifies the next literal.
    pub fn next_literal(&mut self) -> (r: Result<EntryLiteral, TokenizerError>)
        requires
            old(self).wf(),
        ensures
            final(self).wf(),
            ({
                let t = consume_spec(old(self)@);
                match t.1 {
                    LitScan::Lit(l) => r == Ok::<EntryLiteral, TokenizerError>(l) && final(self)@
                        == t.0,
                    LitScan::BadBytes(bs) => (r matches Err(e) && e@ == ErrV::InvalidEncoding(bs))
                        && final(self)@ == t.0,
                }
            }),
    {
        match self.next_char() {
            Ok(Some(c)) => Ok(EntryLiteral::from_char(c)),
            Ok(None) => Ok(EntryLiteral::EndOfFile),
            Err(e) => Err(e),
        }
    }

    /// Handles one literal between entries.
    pub fn idle(&mut self) -> (r: Result<(), TokenizerError>)
        requires
            old(self).wf(),
        ensures
            final(self).wf(),
            step_post(old(self)@, final(self)@, r, |v: TkView, l: EntryLiteral| dispatch_idle(v, l)),
    {
        let literal = match self.next_literal() {
            Ok(l) => l,
            Err(e) => return Err(e),
        };
        match literal {
            EntryLiteral::AtSign => {
                self.transition(TokenizerState::ReadType);
                Ok(())
            },
            EntryLiteral::Whitespace | EntryLiteral::Newline => Ok(()),
            EntryLiteral::EndOfFile => Err(TokenizerError::FileEnded),
            l => self.invalid_token(l),
        }
    }

    /// Handles one literal while the entry type is read.
    pub fn read_type(&mut self) -> (r: Result<(), TokenizerError>)
        requires
            old(self).wf(),
        ensures
            final(self).wf(),
            step_post(
                old(self)@,
                final(self)@,
                r,
                |v: TkView, l: EntryLiteral| dispatch_read_type(v, l),
            ),
    {
        let literal = match self.next_literal() {
            Ok(l) => l,
            Err(e) => return Err(e),
        };
        match literal {
            EntryLiteral::Alphabetic(c) => {
                let cl = lowercase_char(c);
                push_char(&mut self.current_token_value, cl);
                Ok(())
            },
            EntryLiteral::LeftBrace => {
                let t = EntryToken::Type(self.current_token_value.clone());
                self.add_token(t);
                self.transition(TokenizerState::ReadSymbol);
                Ok(())
            },
            EntryLiteral::Whitespace | EntryLiteral::Newline => Ok(()),
            EntryLiteral::EndOfFile => self.unexpected_eof(),
            l => self.invalid_token(l),
        }
    }

    /// Handles one literal while the citation key is read.
    pub fn read_symbol(&mut self) -> (r: Result<(), TokenizerError>)
        requires
            old(self).wf(),
        ensures
            final(self).wf(),
            step_post(
                old(self)@,
                final(self)@,
                r,
                |v: TkView, l: EntryLiteral| dispatch_read_symbol(v, l),
            ),
    {
        let literal = match self.next_literal() {
            Ok(l) => l,
            Err(e) => return Err(e),
        };
        match literal {
            EntryLiteral::Alphabetic(c) | EntryLiteral::Numeric(c) | EntryLiteral::Other(c) => {
                push_char(&mut self.current_token_value, c);
                Ok(())
            },
            EntryLiteral::Comma => {
                let t = EntryToken::Symbol(self.current_token_value.clone());
                self.add_token(t);
                self.transition(TokenizerState::ReadPropertyName);
                Ok(())
            },
            EntryLiteral::Whitespace | EntryLiteral::Newline => Ok(()),
            EntryLiteral::EndOfFile => self.unexpected_eof(),
            l => self.invalid_token(l),
        }
    }

    /// Handles one literal while a field name is read.
    pub fn read_field_name(&mut self) -> (r: Result<(), TokenizerError>)
        requires
            old(self).wf(),
        ensures
            final(self).wf(),
            step_post(
                old(self)@,
                final(self)@,
                r,
                |v: TkView, l: EntryLiteral| dispatch_read_field_name(v, l),
            ),
    {
        let literal = match self.next_literal() {
            Ok(l) => l,
            Err(e) => return Err(e),
        };
        match literal {
            EntryLiteral::Alphabetic(c) => {
                push_char(&mut self.current_token_value, c);
                Ok(())
            },
            EntryLiteral::Equals => {
                let t = EntryToken::FieldName(self.current_token_value.clone());
                self.add_token(t);
                self.transition(TokenizerState::ReadValue(TokenizerReadValueMode::Normal));
                Ok(())
            },
            EntryLiteral::RightBrace => {
                self.transition(TokenizerState::Idle);
                Ok(())
            },
            EntryLiteral::Whitespace | EntryLiteral::Newline => Ok(()),
            EntryLiteral::EndOfFile => self.unexpected_eof(),
            l => self.invalid_token(l),
        }
    }

    /// Handles one literal while a bare value is read.
    pub fn read_value(&mut self) -> (r: Result<(), TokenizerError>)
        requires
            old(self).wf(),
        ensures
            final(self).wf(),
            step_post(
                old(self)@,
                final(self)@,
                r,
                |v: TkView, l: EntryLiteral| dispatch_read_value(v, l),
            ),
    {
        let literal = match self.next_literal() {
            Ok(l) => l,
            Err(e) => return Err(e),
        };
        match literal {
            EntryLiteral::Alphabetic(c) | EntryLiteral::Numeric(c) => {
                push_char(&mut self.current_token_value, c);
                Ok(())
            },
            EntryLiteral::DoubleQuote => {
                self.transition_keep_value(
                    TokenizerState::ReadValue(TokenizerReadValueMode::DoubleQuoted),
                );
                Ok(())
            },
            EntryLiteral::LeftBrace => {
                self.transition_keep_value(
                    TokenizerState::ReadValue(TokenizerReadValueMode::Braced(0)),
                );
                Ok(())
            },
            EntryLiteral::Comma => {
                let t = EntryToken::Value(self.current_token_value.clone());
                self.add_token(t);
                self.transition(TokenizerState::ReadPropertyName);
                Ok(())
            },
            EntryLiteral::RightBrace => {
                let t = EntryToken::Value(self.current_token_value.clone());
                self.add_token(t);
                self.transition(TokenizerState::Idle);
                Ok(())
            },
            EntryLiteral::Whitespace | EntryLiteral::Newline => Ok(()),
            EntryLiteral::EndOfFile => self.unexpected_eof(),
            l => self.invalid_token(l),
        }
    }

    /// Handles one literal inside a quoted value.
    pub fn read_value_quoted(&mut self) -> (r: Result<(), TokenizerError>)
        requires
            old(self).wf(),
        ensures
            final(self).wf(),
            step_post(
                old(self)@,
                final(self)@,
                r,
                |v: TkView, l: EntryLiteral| dispatch_read_value_quoted(v, l),
            ),
    {
        let literal = match self.next_literal() {
            Ok(l) => l,
            Err(e) => return Err(e),
        };
        match literal {
            EntryLiteral::DoubleQuote => {
                self.transition_keep_value(
                    TokenizerState::ReadValue(TokenizerReadValueMode::Normal),
                );
                Ok(())
            },
            EntryLiteral::EndOfFile => self.unexpected_eof(),
            l => {
                let ch = l.to_char();
                push_char(&mut self.current_token_value, ch);
                Ok(())
            },
        }
    }

    /// Handles one literal inside a brace group.
    pub fn read_value_braced(&mut self) -> (r: Result<(), TokenizerError>)
        requires
            old(self).wf(),
        ensures
            final(self).wf(),
            step_post(
                old(self)@,
                final(self)@,
                r,
                |v: TkView, l: EntryLiteral| dispatch_read_value_braced(v, l),
            ),
    {
        let literal = match self.next_literal() {
            Ok(l) => l,
            Err(e) => return Err(e),
        };
        let brace_level: i32 = match self.state {
            TokenizerState::ReadValue(TokenizerReadValueMode::Braced(i)) => i,
            _ => 0,
        };
        match literal {
            EntryLiteral::RightBrace => {
                self.transition_keep_value(
                    TokenizerState::ReadValue(Self::right_brace_mode(brace_level)),
                );
                Ok(())
            },
            EntryLiteral::LeftBrace => {
                self.transition_keep_value(
                    TokenizerState::ReadValue(TokenizerReadValueMode::Braced(brace_level + 1)),
                );
                Ok(())
            },
            EntryLiteral::EndOfFile => self.unexpected_eof(),
            l => {
                let ch = l.to_char();
                push_char(&mut self.current_token_value, ch);
                Ok(())
            },
        }
    }

    /// The submode after a closing brace at the given depth.
    pub fn right_brace_mode(brace_level: i32) -> (r: TokenizerReadValueMode)
        ensures
            r == right_brace_mode_spec(brace_level),
    {
        if brace_level > 0 {
            TokenizerReadValueMode::Braced(brace_level - 1)
        } else {
            TokenizerReadValueMode::Normal
        }
    }

    /// Runs the machine over the whole input: the token list, or the
    /// first error's diagnostic.
    pub fn tokenize(&mut self) -> (r: Result<Vec<EntryToken>, String>)
        requires
            old(self).wf(),
        ensures
            final(self).wf(),
            ({
                let ret = run_spec(old(self)@);
                final(self)@ == ret.0 && match ret.1 {
                    Ok(toks) => r matches Ok(ts) && ts.deep_view() == toks,
                    Err(e) => r matches Err(m) && m@ == "Tokenization error: "@ + err_msg_spec(e),
                }
            }),
    {
        loop
            invariant
                self.wf(),
                run_spec(self@) == run_spec(old(self)@),
            decreases self@.input.len() - self@.position.byte,
        {
            let ghost vpre = self@;
            let result = match self.state {
                TokenizerState::Idle => self.idle(),
                TokenizerState::ReadType => self.read_type(),
                TokenizerState::ReadSymbol => self.read_symbol(),
                TokenizerState::ReadPropertyName => self.read_field_name(),
                TokenizerState::ReadValue(TokenizerReadValueMode::Normal) => self.read_value(),
                TokenizerState::ReadValue(TokenizerReadValueMode::DoubleQuoted) => (
                self.read_value_quoted()),
                TokenizerState::ReadValue(TokenizerReadValueMode::Braced(_)) => (
                self.read_value_braced()),
            };
            match result {
                Ok(()) => {
                    proof {
                        assert(consume_spec(vpre).0.state == vpre.state);
                        assert(step_spec(vpre) == StepOut::Cont(self@));
                        lemma_cont_advances(vpre, self@);
                    }
                },
                Err(e) => {
                    match e {
                        TokenizerError::FileEnded => {
                            proof {
                                assert(step_spec(vpre) == StepOut::Finish(self@));
                                assert(run_spec(vpre) == (
                                    self@,
                                    Result::<Seq<TokenV>, ErrV>::Ok(self@.tokens),
                                ));
                            }
                            let ghost vfin = self@;
                            let n = self.tokens.len();
                            let mut out: Vec<EntryToken> = Vec::new();
                            let mut i: usize = 0;
                            while i < n
                                invariant
                                    i <= n,
                                    self@ == vfin,
                                    n == self.tokens@.len(),
                                    out@.len() == i,
                                    out.deep_view() =~= vfin.tokens.subrange(0, i as int),
                                decreases n - i,
                            {
                                let ghost dv0 = out.deep_view();
                                let ghost o0 = out@;
                                let t = self.tokens[i].duplicate();
                                out.push(t);
                                proof {
                                    assert(out@ == o0.push(t));
                                    assert(out@.len() == i + 1);
                                    assert(out.deep_view().len() == i + 1);
                                    assert(out@[i as int] == t);
                                    assert(out.deep_view()[i as int] == t.deep_view());
                                    assert forall|j: int| 0 <= j < i + 1 implies out.deep_view()[j]
                                        == vfin.tokens.subrange(0, i + 1 as int)[j] by {
                                        if j < i as int {
                                            assert(out@[j] == o0[j]);
                                            assert(out.deep_view()[j] == out@[j].deep_view());
                                            assert(dv0[j] == o0[j].deep_view());
                                        } else {
                                            assert(out.deep_view()[j] == t@);
                                            assert(vfin.tokens[j] == self.tokens@[j].deep_view());
                                        }
                                    }
                                    assert(out.deep_view() =~= vfin.tokens.subrange(
                                        0,
                                        i + 1 as int,
                                    ));
                                }
                                i = i + 1;
                            }
                            proof {
                                assert(out.deep_view() =~= vfin.tokens);
                            }
                            return Ok(out);
                        },
                        other => {
                            let ghost ev = other@;
                            proof {
                                assert(step_spec(vpre) == StepOut::Fail(self@, ev));
                                assert(run_spec(vpre) == (
                                    self@,
                                    Result::<Seq<TokenV>, ErrV>::Err(ev),
                                ));
                            }
                            let m = other.message();
                            let prefix = <String as StringExecFns>::from_str(
                                "Tokenization error: ",
                            );
                            return Err(prefix.concat(m.as_str()));
                        },
                    }
                },
            }
        }
    }
}

/// Dispatch never moves the cursor, never changes the input, and never
/// continues past the end of the input.
proof fn lemma_dispatch_keeps(v: TkView, l: EntryLiteral)
    ensures
        match dispatch_spec(v, l) {
            StepOut::Cont(v3) => v3.position == v.position && v3.input == v.input,
            StepOut::Finish(v3) => v3 == v,
            StepOut::Fail(v3, e) => v3 == v,
        },
        l == EntryLiteral::EndOfFile ==> !(dispatch_spec(v, l) is Cont),
{
    match v.state {
        TokenizerState::Idle => {
            assert(dispatch_spec(v, l) == dispatch_idle(v, l));
        },
        TokenizerState::ReadType => {
            assert(dispatch_spec(v, l) == dispatch_read_type(v, l));
        },
        TokenizerState::ReadSymbol => {
            assert(dispatch_spec(v, l) == dispatch_read_symbol(v, l));
        },
        TokenizerState::ReadPropertyName => {
            assert(dispatch_spec(v, l) == dispatch_read_field_name(v, l));
        },
        TokenizerState::ReadValue(TokenizerReadValueMode::Normal) => {
            assert(dispatch_spec(v, l) == dispatch_read_value(v, l));
        },
        TokenizerState::ReadValue(TokenizerReadValueMode::DoubleQuoted) => {
            assert(dispatch_spec(v, l) == dispatch_read_value_quoted(v, l));
        },
        TokenizerState::ReadValue(TokenizerReadValueMode::Braced(_)) => {
            assert(dispatch_spec(v, l) == dispatch_read_value_braced(v, l));
        },
    }
}

/// A continuing step stays inside the same input and consumes at least
/// one byte.
pub proof fn lemma_cont_advances(pre: TkView, post: TkView)
    requires
        pre.position.byte <= pre.input.len(),
        pre.input.len() < 0x8000_0000,
        step_spec(pre) == StepOut::Cont(post),
    ensures
        post.input == pre.input,
        pre.position.byte < post.position.byte,
        post.position.byte <= pre.input.len(),
{
    let t = consume_spec(pre);
    match t.1 {
        LitScan::Lit(l) => {
            lemma_dispatch_keeps(t.0, l);
        },
        LitScan::BadBytes(_) => {
            assert(false);
        },
    }
    match scan_spec(pre.input, pre.position.byte as int) {
        CharScan::Ended(k) => {
            assert(t.1 == LitScan::Lit(EntryLiteral::EndOfFile));
            assert(false);
        },
        CharScan::Found(c, w) => {
            assert(1 <= w <= 4);
            assert(pre.position.byte + w <= pre.input.len());
            assert(post.position == t.0.position);
        },
        CharScan::Malformed => {
            assert(false);
        },
    }
}

} // verus!
