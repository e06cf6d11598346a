//! The library's laws: properties of the tokenizer's dispatch machine
//! and of the assembler that hold for every input, each proved once and
//! for all here.

use crate::chars::scan_spec;
use crate::chars::CharScan;
use crate::entry::{asm_run, asm_step, assemble_spec, AsmState, EntryV};
use crate::entry_field::coerce_spec;
use crate::entry_type::classify_type;
use crate::literal::{classify_spec, lower_char, to_char_spec, EntryLiteral};
use crate::tokenizer::{
    dispatch_spec, step_spec, StepOut, TkView, TokenV, TokenizerReadValueMode, TokenizerState,
};
use vstd::prelude::*;
use vstd::utf8::*;

verus! {

/// The dispatch machine run over a sequence of already-classified
/// literals: positions aside, this is exactly what the tokenizer does
/// with the corresponding characters.
pub open spec fn dispatch_run(v: TkView, ls: Seq<EntryLiteral>) -> StepOut
    decreases ls.len(),
{
    if ls.len() == 0 {
        StepOut::Cont(v)
    } else {
        match dispatch_spec(v, ls[0]) {
            StepOut::Cont(v2) => dispatch_run(v2, ls.drop_first()),
            StepOut::Finish(v2) => StepOut::Finish(v2),
            StepOut::Fail(v2, e) => StepOut::Fail(v2, e),
        }
    }
}

/// The literals of a character sequence.
pub open spec fn char_lits(cs: Seq<char>) -> Seq<EntryLiteral> {
    cs.map_values(|c: char| classify_spec(c))
}

/// Rendering a literal back to a character restores the character
/// itself, except that tab and carriage return render as a space.
pub proof fn lemma_literal_renders_char(c: char)
    requires
        c != '\t',
        c != '\r',
    ensures
        to_char_spec(classify_spec(c)) == c,
{
}

/// Position monotonicity: every continuing step of the machine consumes
/// at least one byte, so the byte coordinate strictly increases across
/// a tokenization.
pub proof fn lemma_position_monotonic(pre: TkView, post: TkView)
    requires
        pre.position.byte <= pre.input.len(),
        pre.input.len() < 0x8000_0000,
        step_spec(pre) == StepOut::Cont(post),
    ensures
        pre.position.byte < post.position.byte,
        post.position.byte <= pre.input.len(),
{
    crate::tokenizer::lemma_cont_advances(pre, post);
}

/// A scalar decodes from its own UTF-8 encoding: scanning a byte
/// sequence that starts with the encoding of `c` yields `c` back, with
/// exactly the encoding's width consumed.
pub proof fn lemma_scan_of_encoded(c: char, rest: Seq<u8>)
    ensures
        ({
            let bytes = encode_utf8(seq![c]) + rest;
            &&& scan_spec(bytes, 0) matches CharScan::Found(c2, w) && c2 == c && w
                == encode_scalar(c as u32).len()
        }),
{
    let enc = encode_utf8(seq![c]);
    let bytes = enc + rest;
    encode_utf8_first_scalar(seq![c]);
    char_is_scalar(c);
    assert(seq![c].drop_first() =~= Seq::<char>::empty());
    assert(seq![c][0] == c);
    assert(encode_utf8(seq![c].drop_first()).len() == 0);
    assert(enc == encode_scalar(c as u32) + encode_utf8(seq![c].drop_first()));
    assert(enc =~= encode_scalar(c as u32));
    assert(1 <= enc.len() <= 4);
    assert forall|j: int| 0 <= j < enc.len() implies bytes[j] == enc[j] by {}
    assert(valid_first_scalar(enc));
    assert(valid_leading_and_continuation_bytes_first_codepoint(bytes));
    assert(length_of_first_codepoint(bytes) == length_of_first_codepoint(enc));
    assert(decode_first_codepoint(bytes) == decode_first_codepoint(enc));
    assert(valid_first_scalar(bytes));
    assert(bytes.subrange(0, bytes.len() as int) =~= bytes);
    char_u32_cast(c, decode_first_scalar(bytes));
}

/// Inside a quoted value, every scalar other than the closing quote is
/// appended to the value under construction (tab and carriage return
/// appearing as a space); nothing is lost.
pub proof fn lemma_quoted_scalar_kept(v: TkView, c: char)
    requires
        v.state == TokenizerState::ReadValue(TokenizerReadValueMode::DoubleQuoted),
        c != '"',
    ensures
        dispatch_spec(v, classify_spec(c)) == StepOut::Cont(
            TkView { buf: v.buf.push(to_char_spec(classify_spec(c))), ..v },
        ),
        c != '\t' && c != '\r' ==> dispatch_spec(v, classify_spec(c)) == StepOut::Cont(
            TkView { buf: v.buf.push(c), ..v },
        ),
{
    if c != '\t' && c != '\r' {
        lemma_literal_renders_char(c);
    }
}

/// The citation key is accumulated verbatim: while the key is read,
/// characters that are letters, digits or other non-structural marks
/// each extend the buffer with exactly themselves.
pub proof fn lemma_symbol_verbatim(v: TkView, cs: Seq<char>)
    requires
        v.state == TokenizerState::ReadSymbol,
        forall|j: int|
            0 <= j < cs.len() ==> match #[trigger] classify_spec(cs[j]) {
                EntryLiteral::Alphabetic(_) => true,
                EntryLiteral::Numeric(_) => true,
                EntryLiteral::Other(_) => true,
                _ => false,
            },
    ensures
        dispatch_run(v, char_lits(cs)) == StepOut::Cont(TkView { buf: v.buf + cs, ..v }),
    decreases cs.len(),
{
    if cs.len() == 0 {
        assert(char_lits(cs).len() == 0);
        assert(v.buf + cs =~= v.buf);
        assert(TkView { buf: v.buf + cs, ..v } =~= v);
    } else {
        let c = cs[0];
        let ls = char_lits(cs);
        assert(ls[0] == classify_spec(c));
        let v2 = TkView { buf: v.buf.push(c), ..v };
        assert(dispatch_spec(v, ls[0]) == StepOut::Cont(v2));
        assert(ls.drop_first() =~= char_lits(cs.drop_first()));
        lemma_symbol_verbatim(v2, cs.drop_first());
        assert(v2.buf + cs.drop_first() =~= v.buf + cs);
        assert(TkView { buf: v2.buf + cs.drop_first(), ..v2 } =~= TkView { buf: v.buf + cs, ..v });
    }
}

/// Case-insensitive entry type: while the type is read, two letter
/// sequences whose characters lowercase alike drive the machine to the
/// same configuration, so type names that differ only in letter case
/// yield identical type tokens.
pub proof fn lemma_type_case_insensitive(v: TkView, n1: Seq<char>, n2: Seq<char>)
    requires
        v.state == TokenizerState::ReadType,
        n1.len() == n2.len(),
        forall|j: int|
            0 <= j < n1.len() ==> (#[trigger] classify_spec(n1[j])) matches
                EntryLiteral::Alphabetic(_),
        forall|j: int|
            0 <= j < n2.len() ==> (#[trigger] classify_spec(n2[j])) matches
                EntryLiteral::Alphabetic(_),
        forall|j: int| 0 <= j < n1.len() ==> lower_char(#[trigger] n1[j]) == lower_char(n2[j]),
    ensures
        dispatch_run(v, char_lits(n1)) == dispatch_run(v, char_lits(n2)),
    decreases n1.len(),
{
    if n1.len() == 0 {
        assert(char_lits(n1).len() == 0);
        assert(char_lits(n2).len() == 0);
    } else {
        let c1 = n1[0];
        let c2 = n2[0];
        assert(char_lits(n1)[0] == classify_spec(c1));
        assert(char_lits(n2)[0] == classify_spec(c2));
        assert(classify_spec(c1) == EntryLiteral::Alphabetic(c1));
        assert(classify_spec(c2) == EntryLiteral::Alphabetic(c2));
        let v2 = TkView { buf: v.buf.push(lower_char(c1)), ..v };
        assert(dispatch_spec(v, classify_spec(c1)) == StepOut::Cont(v2));
        assert(dispatch_spec(v, classify_spec(c2)) == StepOut::Cont(v2));
        assert(char_lits(n1).drop_first() =~= char_lits(n1.drop_first()));
        assert(char_lits(n2).drop_first() =~= char_lits(n2.drop_first()));
        lemma_type_case_insensitive(v2, n1.drop_first(), n2.drop_first());
    }
}

/// A prefix of a value's source counted for braces: how many groups
/// more were opened than closed.
pub open spec fn open_minus_close(cs: Seq<char>) -> int
    decreases cs.len(),
{
    if cs.len() == 0 {
        0
    } else {
        (if cs[0] == '{' {
            1int
        } else if cs[0] == '}' {
            -1int
        } else {
            0int
        }) + open_minus_close(cs.drop_first())
    }
}

/// A balanced-brace string: every prefix has at least as many opening
/// as closing braces, and the whole has equally many.
pub open spec fn balanced(cs: Seq<char>) -> bool {
    &&& open_minus_close(cs) == 0
    &&& forall|i: int| 0 <= i <= cs.len() ==> open_minus_close(#[trigger] cs.subrange(0, i)) >= 0
}

/// The characters a braced region contributes to the value: braces
/// vanish, everything else renders as its literal's character.
pub open spec fn rendered(cs: Seq<char>) -> Seq<char>
    decreases cs.len(),
{
    if cs.len() == 0 {
        Seq::empty()
    } else if cs[0] == '{' || cs[0] == '}' {
        rendered(cs.drop_first())
    } else {
        seq![to_char_spec(classify_spec(cs[0]))] + rendered(cs.drop_first())
    }
}

/// Consuming characters inside a brace group: the depth follows the
/// brace count and everything else lands in the buffer.
proof fn lemma_braced_consumes(v: TkView, cs: Seq<char>, d: int)
    requires
        v.state == TokenizerState::ReadValue(
            TokenizerReadValueMode::Braced(d as i32),
        ),
        0 <= d,
        d + cs.len() < 0x7fff_ffff,
        forall|i: int| 0 <= i <= cs.len() ==> d + open_minus_close(#[trigger] cs.subrange(0, i))
            >= 0,
    ensures
        dispatch_run(v, char_lits(cs)) == StepOut::Cont(
            TkView {
                buf: v.buf + rendered(cs),
                state: TokenizerState::ReadValue(
                    TokenizerReadValueMode::Braced((d + open_minus_close(cs)) as i32),
                ),
                ..v
            },
        ),
    decreases cs.len(),
{
    lemma_omc_bounds(cs);
    if cs.len() == 0 {
        assert(v.buf + rendered(cs) =~= v.buf);
        assert(TkView {
            buf: v.buf + rendered(cs),
            state: TokenizerState::ReadValue(
                TokenizerReadValueMode::Braced((d + open_minus_close(cs)) as i32),
            ),
            ..v
        } =~= v);
    } else {
        let c = cs[0];
        let tail = cs.drop_first();
        assert(char_lits(cs)[0] == classify_spec(c));
        assert(char_lits(cs).drop_first() =~= char_lits(tail));
        assert forall|i: int| 0 <= i <= tail.len() implies d + head_delta(c) + open_minus_close(
            #[trigger] tail.subrange(0, i),
        ) >= 0 by {
            assert(cs.subrange(0, i + 1).drop_first() =~= tail.subrange(0, i));
            assert(open_minus_close(cs.subrange(0, i + 1)) == head_delta(c) + open_minus_close(
                tail.subrange(0, i),
            ));
        }
        let sub1 = cs.subrange(0, 1);
        assert(sub1.len() == 1);
        assert(sub1[0] == c);
        assert(sub1.drop_first() =~= Seq::<char>::empty());
        assert(open_minus_close(sub1.drop_first()) == 0);
        assert(open_minus_close(sub1) == head_delta(c) + open_minus_close(sub1.drop_first()));
        assert(d + head_delta(c) >= 0);
        lemma_omc_bounds(cs);
        lemma_omc_bounds(tail);
        if c == '{' {
            let v2 = TkView {
                state: TokenizerState::ReadValue(
                    TokenizerReadValueMode::Braced((d + 1) as i32),
                ),
                ..v
            };
            assert(dispatch_spec(v, classify_spec(c)) == StepOut::Cont(v2));
            lemma_braced_consumes(v2, tail, d + 1);
            assert(open_minus_close(cs) == 1 + open_minus_close(tail));
            assert(rendered(cs) == rendered(tail));
        } else if c == '}' {
            let v2 = TkView {
                state: TokenizerState::ReadValue(
                    TokenizerReadValueMode::Braced((d - 1) as i32),
                ),
                ..v
            };
            assert(dispatch_spec(v, classify_spec(c)) == StepOut::Cont(v2));
            lemma_braced_consumes(v2, tail, d - 1);
            assert(open_minus_close(cs) == -1 + open_minus_close(tail));
            assert(rendered(cs) == rendered(tail));
        } else {
            let v2 = TkView { buf: v.buf.push(to_char_spec(classify_spec(c))), ..v };
            assert(!(classify_spec(c) is LeftBrace));
            assert(!(classify_spec(c) is RightBrace));
            assert(!(classify_spec(c) is EndOfFile));
            assert(dispatch_spec(v, classify_spec(c)) == StepOut::Cont(v2));
            lemma_braced_consumes(v2, tail, d);
            assert(v2.buf + rendered(tail) =~= v.buf + rendered(cs));
        }
    }
}

/// The brace contribution of one character.
pub open spec fn head_delta(c: char) -> int {
    if c == '{' {
        1int
    } else if c == '}' {
        -1int
    } else {
        0int
    }
}

/// Running the machine over a concatenation: the second part runs from
/// wherever the first part continues to.
proof fn lemma_dispatch_run_append(v: TkView, a: Seq<EntryLiteral>, b: Seq<EntryLiteral>)
    ensures
        dispatch_run(v, a + b) == (match dispatch_run(v, a) {
            StepOut::Cont(v2) => dispatch_run(v2, b),
            StepOut::Finish(v2) => StepOut::Finish(v2),
            StepOut::Fail(v2, e) => StepOut::Fail(v2, e),
        }),
    decreases a.len(),
{
    if a.len() == 0 {
        assert(a + b =~= b);
    } else {
        assert((a + b)[0] == a[0]);
        assert((a + b).drop_first() =~= a.drop_first() + b);
        match dispatch_spec(v, a[0]) {
            StepOut::Cont(v2) => {
                lemma_dispatch_run_append(v2, a.drop_first(), b);
            },
            _ => {},
        }
    }
}

/// Balanced-brace invariance: a value written `{X}` with X balanced
/// leaves the machine back in the bare value mode, with the value
/// extended by X at each layer stripped of its braces (every other
/// character rendered as its literal's character).
pub proof fn lemma_balanced_braces(v: TkView, x: Seq<char>)
    requires
        v.state == TokenizerState::ReadValue(TokenizerReadValueMode::Normal),
        balanced(x),
        x.len() < 0x7fff_fffe,
    ensures
        dispatch_run(v, char_lits(seq!['{'] + x + seq!['}'])) == StepOut::Cont(
            TkView { buf: v.buf + rendered(x), ..v },
        ),
{
    let whole = seq!['{'] + x + seq!['}'];
    let head = seq!['{'];
    let tail = seq!['}'];
    assert(char_lits(whole) =~= char_lits(head) + (char_lits(x) + char_lits(tail)));
    assert(classify_spec('{') == EntryLiteral::LeftBrace);
    assert(classify_spec('}') == EntryLiteral::RightBrace);
    let v1 = TkView {
        state: TokenizerState::ReadValue(TokenizerReadValueMode::Braced(0)),
        ..v
    };
    assert(char_lits(head)[0] == classify_spec('{'));
    assert(dispatch_spec(v, classify_spec('{')) == StepOut::Cont(v1));
    let ghost none: Seq<EntryLiteral> = char_lits(head).drop_first();
    assert(none.len() == 0);
    assert(dispatch_run(v1, none) == StepOut::Cont(v1));
    assert(dispatch_run(v, char_lits(head)) == StepOut::Cont(v1));
    assert forall|i: int| 0 <= i <= x.len() implies 0 + open_minus_close(
        #[trigger] x.subrange(0, i),
    ) >= 0 by {}
    lemma_braced_consumes(v1, x, 0);
    let v2 = TkView {
        buf: v.buf + rendered(x),
        state: TokenizerState::ReadValue(TokenizerReadValueMode::Braced(0)),
        ..v
    };
    assert(x.subrange(0, x.len() as int) =~= x);
    assert(dispatch_run(v1, char_lits(x)) == StepOut::Cont(v2));
    let v3 = TkView { buf: v.buf + rendered(x), ..v };
    assert(char_lits(tail)[0] == classify_spec('}'));
    assert(dispatch_spec(v2, classify_spec('}')) == StepOut::Cont(v3)) by {
        assert(crate::tokenizer::right_brace_mode_spec(0) == TokenizerReadValueMode::Normal);
    }
    let ghost none2: Seq<EntryLiteral> = char_lits(tail).drop_first();
    assert(none2.len() == 0);
    assert(dispatch_run(v3, none2) == StepOut::Cont(v3));
    assert(dispatch_run(v2, char_lits(tail)) == StepOut::Cont(v3));
    lemma_dispatch_run_append(v1, char_lits(x), char_lits(tail));
    lemma_dispatch_run_append(v, char_lits(head), char_lits(x) + char_lits(tail));
}

/// The brace count of a string is bounded by its length.
proof fn lemma_omc_bounds(cs: Seq<char>)
    ensures
        -cs.len() <= open_minus_close(cs) <= cs.len(),
    decreases cs.len(),
{
    if cs.len() > 0 {
        lemma_omc_bounds(cs.drop_first());
    }
}

/// The brace count of a concatenation is the sum of the counts.
proof fn lemma_omc_append(a: Seq<char>, b: Seq<char>)
    ensures
        open_minus_close(a + b) == open_minus_close(a) + open_minus_close(b),
    decreases a.len(),
{
    if a.len() == 0 {
        assert(a + b =~= b);
    } else {
        assert((a + b).drop_first() =~= a.drop_first() + b);
        lemma_omc_append(a.drop_first(), b);
    }
}

/// The rendering of a concatenation is the concatenation of the
/// renderings.
proof fn lemma_rendered_append(a: Seq<char>, b: Seq<char>)
    ensures
        rendered(a + b) =~= rendered(a) + rendered(b),
    decreases a.len(),
{
    if a.len() == 0 {
        assert(a + b =~= b);
        assert(rendered(a) + rendered(b) =~= rendered(b));
    } else {
        assert((a + b).drop_first() =~= a.drop_first() + b);
        lemma_rendered_append(a.drop_first(), b);
    }
}

/// The field tokens of a name-value pair list, in source order.
pub open spec fn field_tokens(pairs: Seq<(Seq<char>, Seq<char>)>) -> Seq<TokenV>
    decreases pairs.len(),
{
    if pairs.len() == 0 {
        Seq::empty()
    } else {
        seq![TokenV::FieldName(pairs[0].0), TokenV::Value(pairs[0].1)] + field_tokens(
            pairs.drop_first(),
        )
    }
}

/// The classified fields of a pair list whose coercions all succeed.
pub open spec fn coerced_fields(pairs: Seq<(Seq<char>, Seq<char>)>) -> Seq<
    crate::entry_field::EntryFieldV,
> {
    pairs.map_values(|p: (Seq<char>, Seq<char>)| coerce_spec(p.0, p.1)->Ok_0)
}

/// Running the assembler over field tokens with an entry in flight
/// appends exactly the coerced fields, in order.
proof fn lemma_fields_run(st: AsmState, pairs: Seq<(Seq<char>, Seq<char>)>)
    requires
        st.field_name is None,
        forall|j: int| 0 <= j < pairs.len() ==> (#[trigger] coerce_spec(
            pairs[j].0,
            pairs[j].1,
        )) is Ok,
    ensures
        asm_run(st, field_tokens(pairs)) == Ok::<AsmState, Seq<char>>(
            AsmState { fields: st.fields + coerced_fields(pairs), ..st },
        ),
    decreases pairs.len(),
{
    if pairs.len() == 0 {
        assert(coerced_fields(pairs).len() == 0);
        assert(field_tokens(pairs) =~= Seq::<TokenV>::empty());
        assert(asm_run(st, field_tokens(pairs)) == Ok::<AsmState, Seq<char>>(st));
        assert(st.fields + coerced_fields(pairs) =~= st.fields);
        assert(AsmState { fields: st.fields + coerced_fields(pairs), ..st } =~= st);
    } else {
        let p = pairs[0];
        let toks = field_tokens(pairs);
        assert(toks[0] == TokenV::FieldName(p.0));
        let st1 = AsmState { field_name: Some(p.0), ..st };
        assert(asm_step(st, toks[0]) == Ok::<AsmState, Seq<char>>(st1));
        assert(toks.drop_first()[0] == TokenV::Value(p.1));
        let ef = coerce_spec(p.0, p.1)->Ok_0;
        let st2 = AsmState { field_name: None, fields: st.fields.push(ef), ..st1 };
        assert(asm_step(st1, TokenV::Value(p.1)) == Ok::<AsmState, Seq<char>>(st2));
        assert(toks.drop_first().drop_first() =~= field_tokens(pairs.drop_first()));
        lemma_fields_run(st2, pairs.drop_first());
        assert(st2.fields + coerced_fields(pairs.drop_first()) =~= st.fields + coerced_fields(
            pairs,
        )) by {
            assert(coerced_fields(pairs)[0] == ef);
            assert(coerced_fields(pairs).drop_first() =~= coerced_fields(pairs.drop_first()));
        }
        assert(AsmState {
            fields: st2.fields + coerced_fields(pairs.drop_first()),
            ..st2
        } =~= AsmState { fields: st.fields + coerced_fields(pairs), ..st });
        assert(asm_run(st, toks) == asm_run(st1, toks.drop_first()));
        assert(asm_run(st1, toks.drop_first()) == asm_run(
            st2,
            toks.drop_first().drop_first(),
        ));
        assert(asm_run(st2, toks.drop_first().drop_first()) == asm_run(
            st2,
            field_tokens(pairs.drop_first()),
        ));
    }
}

/// Field order and symbol preservation: assembling one entry's tokens
/// yields exactly one entry whose citation key is the symbol verbatim
/// and whose fields stand in the order of the name-value pairs.
pub proof fn lemma_entry_order_and_symbol(
    t: Seq<char>,
    sym: Seq<char>,
    pairs: Seq<(Seq<char>, Seq<char>)>,
)
    requires
        forall|j: int| 0 <= j < pairs.len() ==> (#[trigger] coerce_spec(
            pairs[j].0,
            pairs[j].1,
        )) is Ok,
    ensures
        assemble_spec(seq![TokenV::Type(t), TokenV::Symbol(sym)] + field_tokens(pairs))
            == Ok::<Seq<EntryV>, Seq<char>>(
            seq![
                EntryV {
                    entry_type: classify_type(t),
                    symbol: sym,
                    fields: coerced_fields(pairs),
                },
            ],
        ),
{
    let toks = seq![TokenV::Type(t), TokenV::Symbol(sym)] + field_tokens(pairs);
    let st0 = crate::entry::asm_init();
    assert(toks[0] == TokenV::Type(t));
    let st1 = AsmState { entry_type: Some(classify_type(t)), ..st0 };
    assert(asm_step(st0, toks[0]) == Ok::<AsmState, Seq<char>>(st1));
    assert(toks.drop_first()[0] == TokenV::Symbol(sym));
    let st2 = AsmState { symbol: Some(sym), ..st1 };
    assert(asm_step(st1, TokenV::Symbol(sym)) == Ok::<AsmState, Seq<char>>(st2));
    assert(toks.drop_first().drop_first() =~= field_tokens(pairs));
    lemma_fields_run(st2, pairs);
    let st3 = AsmState { fields: st2.fields + coerced_fields(pairs), ..st2 };
    assert(st2.fields + coerced_fields(pairs) =~= coerced_fields(pairs));
    assert(asm_run(st0, toks) == asm_run(st1, toks.drop_first()));
    assert(asm_run(st1, toks.drop_first()) == asm_run(st2, toks.drop_first().drop_first()));
    assert(asm_run(st2, toks.drop_first().drop_first()) == asm_run(st2, field_tokens(pairs)));
    assert(asm_run(st2, field_tokens(pairs)) == Ok::<AsmState, Seq<char>>(st3));
    assert(st3.fields =~= coerced_fields(pairs));
    assert(crate::entry::asm_finish(st3) =~= seq![
        EntryV { entry_type: classify_type(t), symbol: sym, fields: coerced_fields(pairs) },
    ]) by {
        assert(st3.entries.push(
            EntryV {
                entry_type: classify_type(t),
                symbol: sym,
                fields: st3.fields,
            },
        ) =~= seq![
            EntryV {
                entry_type: classify_type(t),
                symbol: sym,
                fields: coerced_fields(pairs),
            },
        ]);
    }
}

} // verus!
