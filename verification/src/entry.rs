//! The token-to-entry assembler: one forward pass over the token list,
//! carrying the entry under construction and emitting it at each entry
//! boundary.

use crate::entry_field::{coerce_spec, EntryField, EntryFieldV};
use crate::entry_type::{EntryType, EntryTypeV};
use crate::strutil::quoted_msg;
use crate::tokenizer::{err_msg_spec, run_spec, EntryToken, TokenV, Tokenizer};
use vstd::prelude::*;
use vstd::string::StringExecFns;

verus! {

/// One bibliographic record: its kind, its citation key, and its fields
/// in source order.
#[derive(Debug)]
pub struct Entry {
    pub entry_type: EntryType,
    pub symbol: String,
    pub fields: Vec<EntryField>,
}

/// Spec-level image of an entry.
#[verifier::ext_equal]
pub struct EntryV {
    pub entry_type: EntryTypeV,
    pub symbol: Seq<char>,
    pub fields: Seq<EntryFieldV>,
}

impl View for Entry {
    type V = EntryV;

    open spec fn view(&self) -> EntryV {
        EntryV {
            entry_type: self.entry_type@,
            symbol: self.symbol@,
            fields: self.fields.deep_view(),
        }
    }
}

impl DeepView for Entry {
    type V = EntryV;

    open spec fn deep_view(&self) -> EntryV {
        self.view()
    }
}

/// Whether two field lists hold the same fields.
fn fields_eq(a: &Vec<EntryField>, b: &Vec<EntryField>) -> (r: bool)
    ensures
        r == (a.deep_view() == b.deep_view()),
{
    if a.len() != b.len() {
        proof {
            assert(a.deep_view().len() != b.deep_view().len());
        }
        return false;
    }
    let n = a.len();
    let mut i: usize = 0;
    while i < n
        invariant
            i <= n,
            n == a@.len() == b@.len(),
            forall|j: int| 0 <= j < i ==> a@[j]@ == b@[j]@,
        decreases n - i,
    {
        if !(a[i] == b[i]) {
            proof {
                assert(a.deep_view()[i as int] != b.deep_view()[i as int]);
            }
            return false;
        }
        i = i + 1;
    }
    proof {
        assert forall|j: int| 0 <= j < n implies a.deep_view()[j] == b.deep_view()[j] by {
            assert(a@[j]@ == b@[j]@);
        }
        assert(a.deep_view() =~= b.deep_view());
    }
    true
}

impl PartialEq for Entry {
    fn eq(&self, other: &Self) -> (r: bool) {
        self.entry_type == other.entry_type && self.symbol == other.symbol && fields_eq(
            &self.fields,
            &other.fields,
        )
    }
}

impl vstd::std_specs::cmp::PartialEqSpecImpl for Entry {
    open spec fn obeys_eq_spec() -> bool {
        true
    }

    open spec fn eq_spec(&self, other: &Self) -> bool {
        self@ == other@
    }
}

impl Entry {
    /// An entry from its parts.
    pub fn new(t: EntryType, symbol: String, fields: Vec<EntryField>) -> (r: Entry)
        ensures
            r@ == (EntryV { entry_type: t@, symbol: symbol@, fields: fields.deep_view() }),
    {
        Entry { entry_type: t, symbol, fields }
    }
}

/// The assembler's in-flight state.
#[verifier::ext_equal]
pub struct AsmState {
    pub entry_type: Option<EntryTypeV>,
    pub symbol: Option<Seq<char>>,
    pub field_name: Option<Seq<char>>,
    pub fields: Seq<EntryFieldV>,
    pub entries: Seq<EntryV>,
}

/// The assembler's starting state: nothing in flight.
pub open spec fn asm_init() -> AsmState {
    AsmState {
        entry_type: None,
        symbol: None,
        field_name: None,
        fields: Seq::empty(),
        entries: Seq::empty(),
    }
}

/// One assembler step on one token.
pub open spec fn asm_step(st: AsmState, tok: TokenV) -> Result<AsmState, Seq<char>> {
    match tok {
        TokenV::Type(t) => match st.entry_type {
            None => Ok(
                AsmState { entry_type: Some(crate::entry_type::classify_type(t)), ..st },
            ),
            Some(prev) => match st.symbol {
                None => Err("Symbol was missing from Entry"@),
                Some(sym) => Ok(
                    AsmState {
                        entry_type: Some(crate::entry_type::classify_type(t)),
                        symbol: None,
                        fields: Seq::empty(),
                        entries: st.entries.push(
                            EntryV { entry_type: prev, symbol: sym, fields: st.fields },
                        ),
                        ..st
                    },
                ),
            },
        },
        TokenV::Symbol(s) => match st.symbol {
            None => Ok(AsmState { symbol: Some(s), ..st }),
            Some(_) => Err(
                "Symbol was duplicated in a single Entry or Type is missing in another Entry"@,
            ),
        },
        TokenV::FieldName(f) => match st.field_name {
            None => Ok(AsmState { field_name: Some(f), ..st }),
            Some(old_name) => Err(
                "Field Name occurred twice in a row in an Entry - Value was missing for '"@
                    + old_name + "'"@,
            ),
        },
        TokenV::Value(v) => match st.field_name {
            Some(f) => match coerce_spec(f, v) {
                Ok(ef) => Ok(AsmState { field_name: None, fields: st.fields.push(ef), ..st }),
                Err(e) => Err(e),
            },
            None => Err(
                "Value does not have a preceding Field Name in an Entry - Field Name was missing for '"@
                    + v + "'"@,
            ),
        },
    }
}

/// Runs the assembler over a token list.
pub open spec fn asm_run(st: AsmState, toks: Seq<TokenV>) -> Result<AsmState, Seq<char>>
    decreases toks.len(),
{
    if toks.len() == 0 {
        Ok(st)
    } else {
        match asm_step(st, toks[0]) {
            Ok(st2) => asm_run(st2, toks.drop_first()),
            Err(e) => Err(e),
        }
    }
}

/// At stream end an entry in flight with a symbol is emitted; one
/// without a symbol is dropped cleanly.
pub open spec fn asm_finish(st: AsmState) -> Seq<EntryV> {
    match st.entry_type {
        Some(t) => match st.symbol {
            Some(sym) => st.entries.push(
                EntryV { entry_type: t, symbol: sym, fields: st.fields },
            ),
            None => st.entries,
        },
        None => st.entries,
    }
}

/// What assembling a token list yields: the entries, or the first
/// diagnostic.
pub open spec fn assemble_spec(toks: Seq<TokenV>) -> Result<Seq<EntryV>, Seq<char>> {
    match asm_run(asm_init(), toks) {
        Ok(st) => Ok(asm_finish(st)),
        Err(e) => Err(e),
    }
}

/// The spec image of the assembler's exec state.
pub open spec fn st_view(
    entry_type: Option<EntryType>,
    symbol: Option<String>,
    field_name: Option<String>,
    fields: Seq<EntryFieldV>,
    entries: Seq<EntryV>,
) -> AsmState {
    AsmState {
        entry_type: match entry_type {
            Some(t) => Some(t@),
            None => None,
        },
        symbol: match symbol {
            Some(s) => Some(s@),
            None => None,
        },
        field_name: match field_name {
            Some(s) => Some(s@),
            None => None,
        },
        fields,
        entries,
    }
}

/// The parser: tokenization composed with assembly.
pub struct Parser {
    pub tokenizer: Tokenizer,
}

impl Parser {
    /// A parser over the given tokenizer.
    pub fn new(tokenizer: Tokenizer) -> (r: Parser)
        ensures
            r.tokenizer == tokenizer,
    {
        Parser { tokenizer }
    }

    /// Tokenizes the whole input and assembles the entries: the entry
    /// list, or the first diagnostic from either stage.
    pub fn parse(&mut self) -> (r: Result<Vec<Entry>, String>)
        requires
            old(self).tokenizer.wf(),
        ensures
            final(self).tokenizer.wf(),
            ({
                let tk = run_spec(old(self).tokenizer@);
                final(self).tokenizer@ == tk.0 && match tk.1 {
                    Err(e) => r matches Err(m) && m@ == "Tokenization error: "@ + err_msg_spec(e),
                    Ok(toks) => match assemble_spec(toks) {
                        Ok(es) => r matches Ok(v) && v.deep_view() == es,
                        Err(msg) => r matches Err(m) && m@ == msg,
                    },
                }
            }),
    {
        let tokens = match self.tokenizer.tokenize() {
            Ok(t) => t,
            Err(e) => {
                return Err(e);
            },
        };
        let ghost toks = tokens.deep_view();
        let n = tokens.len();
        let mut entries: Vec<Entry> = Vec::new();
        let mut entry_type: Option<EntryType> = None;
        let mut symbol: Option<String> = None;
        let mut fields: Vec<EntryField> = Vec::new();
        let mut field_name: Option<String> = None;
        let mut i: usize = 0;
        proof {
            assert(entries.deep_view() =~= Seq::<EntryV>::empty());
            assert(fields.deep_view() =~= Seq::<EntryFieldV>::empty());
            assert(st_view(None, None, None, fields.deep_view(), entries.deep_view())
                =~= asm_init());
            assert(toks.subrange(0, n as int) =~= toks);
        }
        while i < n
            invariant
                i <= n,
                n == tokens@.len(),
                tokens.deep_view() == toks,
                old(self).tokenizer.wf(),
                self.tokenizer.wf(),
                self.tokenizer@ == run_spec(old(self).tokenizer@).0,
                run_spec(old(self).tokenizer@).1 == Result::<
                    Seq<TokenV>,
                    crate::tokenizer::ErrV,
                >::Ok(toks),
                asm_run(asm_init(), toks) == asm_run(
                    st_view(
                        entry_type,
                        symbol,
                        field_name,
                        fields.deep_view(),
                        entries.deep_view(),
                    ),
                    toks.subrange(i as int, n as int),
                ),
            decreases n - i,
        {
            let ghost st0 = st_view(
                entry_type,
                symbol,
                field_name,
                fields.deep_view(),
                entries.deep_view(),
            );
            let ghost rem = toks.subrange(i as int, n as int);
            proof {
                assert(rem[0] == toks[i as int]);
                assert(toks[i as int] == tokens@[i as int]@);
                assert(rem.drop_first() =~= toks.subrange(i + 1 as int, n as int));
            }
            match &tokens[i] {
                EntryToken::Type(t) => {
                    let et_taken = entry_type;
                    match et_taken {
                        None => {
                            entry_type = Some(EntryType::from_str(t.as_str()));
                        },
                        Some(previous) => {
                            let sym_taken = symbol;
                            match sym_taken {
                                None => {
                                    proof {
                                        assert(asm_run(asm_init(), toks) == asm_run(st0, rem));
                                    }
                                    return Err(
                                        <String as StringExecFns>::from_str(
                                            "Symbol was missing from Entry",
                                        ),
                                    );
                                },
                                Some(s) => {
                                    let done_fields = fields;
                                    fields = Vec::new();
                                    let ghost e0 = entries.deep_view();
                                    let ghost o0 = entries@;
                                    let finished = Entry::new(previous, s, done_fields);
                                    entries.push(finished);
                                    entry_type = Some(EntryType::from_str(t.as_str()));
                                    symbol = None;
                                    proof {
                                        assert(entries@ == o0.push(finished));
                                        assert forall|j: int|
                                            0 <= j < entries@.len() implies entries.deep_view()[j]
                                            == e0.push(finished@)[j] by {
                                            if j < o0.len() {
                                                assert(entries@[j] == o0[j]);
                                                assert(e0[j] == o0[j].deep_view());
                                            } else {
                                                assert(entries@[j] == finished);
                                            }
                                        }
                                        assert(entries.deep_view() =~= e0.push(finished@));
                                        assert(fields.deep_view()
                                            =~= Seq::<EntryFieldV>::empty());
                                    }
                                },
                            }
                        },
                    }
                },
                EntryToken::Symbol(s) => {
                    match &symbol {
                        None => {
                            symbol = Some(s.clone());
                        },
                        Some(_) => {
                            proof {
                                assert(asm_run(asm_init(), toks) == asm_run(st0, rem));
                            }
                            return Err(
                                <String as StringExecFns>::from_str(
                                    "Symbol was duplicated in a single Entry or Type is missing in another Entry",
                                ),
                            );
                        },
                    }
                },
                EntryToken::FieldName(f) => {
                    match &field_name {
                        None => {
                            field_name = Some(f.clone());
                        },
                        Some(old_name) => {
                            proof {
                                assert(asm_run(asm_init(), toks) == asm_run(st0, rem));
                            }
                            let old_chars = crate::chars::str_chars(old_name.as_str());
                            return Err(
                                quoted_msg(
                                    "Field Name occurred twice in a row in an Entry - Value was missing for '",
                                    old_chars.as_slice(),
                                ),
                            );
                        },
                    }
                },
                EntryToken::Value(v) => {
                    let fn_taken = field_name;
                    match fn_taken {
                        Some(f) => {
                            match EntryField::from_field_name_and_value(f.as_str(), v.as_str()) {
                                Ok(ef) => {
                                    let ghost f0 = fields.deep_view();
                                    let ghost o0 = fields@;
                                    fields.push(ef);
                                    field_name = None;
                                    proof {
                                        let ghost last = fields@[o0.len() as int];
                                        assert(fields@ == o0.push(last));
                                        assert forall|j: int|
                                            0 <= j < fields@.len() implies fields.deep_view()[j]
                                            == f0.push(last@)[j] by {
                                            if j < o0.len() {
                                                assert(fields@[j] == o0[j]);
                                                assert(f0[j] == o0[j].deep_view());
                                            } else {
                                                assert(fields@[j] == last);
                                            }
                                        }
                                        assert(fields.deep_view() =~= f0.push(last@));
                                    }
                                },
                                Err(e) => {
                                    proof {
                                        assert(asm_run(asm_init(), toks) == asm_run(st0, rem));
                                    }
                                    return Err(e);
                                },
                            }
                        },
                        None => {
                            proof {
                                assert(asm_run(asm_init(), toks) == asm_run(st0, rem));
                            }
                            let val_chars = crate::chars::str_chars(v.as_str());
                            return Err(
                                quoted_msg(
                                    "Value does not have a preceding Field Name in an Entry - Field Name was missing for '",
                                    val_chars.as_slice(),
                                ),
                            );
                        },
                    }
                },
            }
            proof {
                let st1 = st_view(
                    entry_type,
                    symbol,
                    field_name,
                    fields.deep_view(),
                    entries.deep_view(),
                );
                assert(asm_step(st0, rem[0]) == Ok::<AsmState, Seq<char>>(st1));
                assert(asm_run(st0, rem) == asm_run(st1, rem.drop_first()));
            }
            i = i + 1;
        }
        proof {
            assert(toks.subrange(n as int, n as int) =~= Seq::<TokenV>::empty());
        }
        let et_taken = entry_type;
        let sym_taken = symbol;
        let ghost st_end = st_view(
            et_taken,
            sym_taken,
            field_name,
            fields.deep_view(),
            entries.deep_view(),
        );
        if let Some(t) = et_taken {
            if let Some(s) = sym_taken {
                let ghost e0 = entries.deep_view();
                let ghost o0 = entries@;
                let finished = Entry::new(t, s, fields);
                entries.push(finished);
                proof {
                    assert(entries@ == o0.push(finished));
                    assert forall|j: int| 0 <= j < entries@.len() implies entries.deep_view()[j]
                        == e0.push(finished@)[j] by {
                        if j < o0.len() {
                            assert(entries@[j] == o0[j]);
                            assert(e0[j] == o0[j].deep_view());
                        } else {
                            assert(entries@[j] == finished);
                        }
                    }
                    assert(entries.deep_view() =~= e0.push(finished@));
                    assert(entries.deep_view() =~= asm_finish(st_end));
                }
                return Ok(entries);
            }
        }
        proof {
            assert(entries.deep_view() =~= asm_finish(st_end));
        }
        Ok(entries)
    }
}

/// A parser over the given input bytes.
pub fn parser_for_reader(input: Vec<u8>) -> (r: Parser)
    requires
        input@.len() < 0x7fff_ffff,
    ensures
        r.tokenizer.wf(),
        r.tokenizer@.input == input@,
        r.tokenizer@.state == crate::tokenizer::TokenizerState::Idle,
        r.tokenizer@.tokens == Seq::<TokenV>::empty(),
        r.tokenizer@.buf == Seq::<char>::empty(),
        r.tokenizer@.position == (crate::tokenizer::Position { byte: 0, line: 1, column: 0 }),
{
    let tokenizer = Tokenizer::new(input);
    Parser::new(tokenizer)
}

} // verus!
