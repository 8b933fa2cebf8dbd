//! Parsing of definitions: method signatures, their parameters and types.
use vstd::prelude::*;
use crate::error::{Error, ErrorDetails, error_of};
use crate::names::{ConstName, ConstNameV, const_name_view, method_firstname};
use crate::parser::Parser;
use crate::ast::{AstMethodSignature, Param};
use crate::parser::base::{LexV, expected_text, lemma_skip_to, lemma_skip_ws_to, lex_step, lex_v, skip_to, skip_ws_to};
use crate::parser::lexer::{CharType, Cursor, LexerState, ctype_at, law_symbol_token_text, scan_end, spec_read, symbol_text};
use crate::parser::expression_parser::fuel_at;
use crate::parser::token::{Token, TokenV, token_debug, token_debug_text};
use crate::strs::{concat, copy_string, strings_view, to_owned};

verus! {

/// How reading a type ends: with the type (the list of types, for type arguments), with an error
/// at a place, or not at all within the steps allowed
pub enum TypOutcome {
    Parsed(ConstNameV),
    ParsedArgs(Seq<ConstNameV>),
    Failed(Seq<char>, Cursor),
    Stuck,
}

/// The text of the error for a token where a type should be
pub open spec fn invalid_typ_text(token: TokenV) -> Seq<char> {
    "invalid token as type: "@ + token_debug_text(token)
}

/// The text of the error for a token in type arguments
pub open spec fn invalid_typ_args_text(token: TokenV) -> Seq<char> {
    "invalid token in type args: "@ + token_debug_text(token)
}

/// The type written `name` (its names joined by `::`) with the type arguments `args`
pub open spec fn typ_v(name: Seq<char>, args: Seq<ConstNameV>) -> ConstNameV {
    ConstNameV { names: seq![name], args }
}

/// Reading a type from the lexer `v`, having read `name` so far: its names and `::` are joined,
/// and `<` begins its type arguments; another token ends it, or is an error where no name was
/// read
pub open spec fn spec_typ(src: Seq<char>, v: LexV, name: Seq<char>, n: nat) -> (TypOutcome, LexV)
    decreases n, 0nat,
{
    if n == 0 {
        (TypOutcome::Stuck, v)
    } else {
        match v.tok {
            TokenV::UpperWord(s) => {
                let w = lex_step(src, v);
                if fuel_at(src, w) < n {
                    spec_typ(src, w, name + s, fuel_at(src, w))
                } else {
                    (TypOutcome::Stuck, v)
                }
            },
            TokenV::ColonColon => {
                let w = lex_step(src, v);
                if fuel_at(src, w) < n {
                    spec_typ(src, w, name + "::"@, fuel_at(src, w))
                } else {
                    (TypOutcome::Stuck, v)
                }
            },
            TokenV::LessThan => {
                let w = lex_step(src, v);
                if fuel_at(src, w) < n {
                    let (o, w2) = spec_typ_args(src, w, Seq::empty(), fuel_at(src, w));
                    match o {
                        TypOutcome::ParsedArgs(args) => (TypOutcome::Parsed(typ_v(name, args)), w2),
                        TypOutcome::Failed(m, at) => (TypOutcome::Failed(m, at), w2),
                        _ => (TypOutcome::Stuck, w2),
                    }
                } else {
                    (TypOutcome::Stuck, v)
                }
            },
            _ => {
                if name.len() == 0 {
                    (TypOutcome::Failed(invalid_typ_text(v.tok), v.cur), v)
                } else {
                    (TypOutcome::Parsed(typ_v(name, Seq::empty())), v)
                }
            },
        }
    }
}

/// Reading type arguments from the lexer `v`, after `<` and the arguments `args`: each is a type,
/// with spaces and separators around it, followed by `,` or by the closing `>`
pub open spec fn spec_typ_args(src: Seq<char>, v: LexV, args: Seq<ConstNameV>, n: nat) -> (TypOutcome, LexV)
    decreases n, 1nat,
{
    let w = skip_to(src, v);
    if n == 0 || fuel_at(src, w) > n {
        (TypOutcome::Stuck, v)
    } else {
        let (o, w2) = spec_typ(src, w, Seq::empty(), fuel_at(src, w));
        match o {
            TypOutcome::Parsed(t) => {
                let w3 = skip_to(src, w2);
                match w3.tok {
                    TokenV::Comma => {
                        let w4 = lex_step(src, w3);
                        if fuel_at(src, w4) < n {
                            spec_typ_args(src, w4, args.push(t), fuel_at(src, w4))
                        } else {
                            (TypOutcome::Stuck, v)
                        }
                    },
                    TokenV::GraterThan => (TypOutcome::ParsedArgs(args.push(t)), lex_step(src, w3)),
                    _ => (TypOutcome::Failed(invalid_typ_args_text(w3.tok), w3.cur), w3),
                }
            },
            TypOutcome::Failed(m, at) => (TypOutcome::Failed(m, at), w2),
            _ => (TypOutcome::Stuck, w2),
        }
    }
}

/// What reading a type returns, as the outcome `o` says
pub open spec fn typ_result(r: Result<ConstName, Error>, o: TypOutcome) -> bool {
    match o {
        TypOutcome::Parsed(c) => r matches Ok(x) && const_name_view(x) == c,
        TypOutcome::Failed(msg, at) => r matches Err(e) && error_of(e, msg, ErrorDetails::ParseError { location: at }),
        _ => false,
    }
}

/// What reading type arguments returns, as the outcome `o` says
pub open spec fn typ_args_result(r: Result<Vec<ConstName>, Error>, o: TypOutcome) -> bool {
    match o {
        TypOutcome::ParsedArgs(cs) => r matches Ok(x) && Seq::new(x@.len(), |i: int| const_name_view(x@[i])) == cs,
        TypOutcome::Failed(msg, at) => r matches Err(e) && error_of(e, msg, ErrorDetails::ParseError { location: at }),
        _ => false,
    }
}

/// A parameter viewed: its name and type
pub type ParamV = (Seq<char>, ConstNameV);

/// The view of a parameter written `name: Type`
pub open spec fn param_v(p: Param) -> ParamV {
    (p.name@, const_name_view(p.typ))
}

/// The views of parameters
pub open spec fn params_v(ps: Seq<Param>) -> Seq<ParamV> {
    Seq::new(ps.len(), |i: int| param_v(ps[i]))
}

/// How reading parameters ends: with them, with an error at a place, or not at all within the
/// steps allowed
pub enum ParamsOutcome {
    Parsed(Seq<ParamV>),
    Failed(Seq<char>, Cursor),
    Stuck,
}

/// The text of the error for a token where a parameter should be
pub open spec fn invalid_param_text(token: TokenV) -> Seq<char> {
    "invalid token as method param: "@ + token_debug_text(token)
}

/// The text of the error for a token in the parameters of a method
pub open spec fn invalid_params_text(token: TokenV) -> Seq<char> {
    "invalid token in method arguments: "@ + token_debug_text(token)
}

/// Reading a parameter `name: Type` from the lexer `v`, with spaces around `:`
#[verifier::opaque]
pub open spec fn spec_param(src: Seq<char>, v: LexV) -> (ParamsOutcome, LexV) {
    match v.tok {
        TokenV::LowerWord(name) => {
            let w = skip_ws_to(src, lex_step(src, v));
            if w.tok == TokenV::Colon {
                let w2 = skip_ws_to(src, lex_step(src, w));
                let (o, w3) = spec_typ(src, w2, Seq::empty(), fuel_at(src, w2));
                match o {
                    TypOutcome::Parsed(t) => (ParamsOutcome::Parsed(seq![(name, t)]), w3),
                    TypOutcome::Failed(m, at) => (ParamsOutcome::Failed(m, at), w3),
                    _ => (ParamsOutcome::Stuck, w3),
                }
            } else {
                (ParamsOutcome::Failed(expected_text(TokenV::Colon, w.tok), w.cur), w)
            }
        },
        _ => (ParamsOutcome::Failed(invalid_param_text(v.tok), v.cur), v),
    }
}

/// Reading parameters from the lexer `v`, after `(` and the parameters `ps`: each is followed by
/// `,` or by the closing `)`; spaces and separators are skipped after each
pub open spec fn spec_params(src: Seq<char>, v: LexV, ps: Seq<ParamV>, n: nat) -> (ParamsOutcome, LexV)
    decreases n,
{
    if n == 0 {
        (ParamsOutcome::Stuck, v)
    } else {
        match v.tok {
            TokenV::LowerWord(_) => {
                let (o, w) = spec_param(src, v);
                match o {
                    ParamsOutcome::Parsed(p) => {
                        let w2 = skip_to(src, w);
                        match w2.tok {
                            TokenV::Comma => {
                                let w3 = skip_to(src, lex_step(src, w2));
                                if fuel_at(src, w3) < n {
                                    spec_params(src, w3, ps + p, fuel_at(src, w3))
                                } else {
                                    (ParamsOutcome::Stuck, v)
                                }
                            },
                            TokenV::RParen => (ParamsOutcome::Parsed(ps + p), lex_step(src, w2)),
                            _ => (ParamsOutcome::Failed(invalid_params_text(w2.tok), w2.cur), w2),
                        }
                    },
                    _ => (o, w),
                }
            },
            TokenV::RParen => (ParamsOutcome::Parsed(ps), lex_step(src, v)),
            _ => (ParamsOutcome::Failed(invalid_params_text(v.tok), v.cur), v),
        }
    }
}

/// What reading parameters returns, as the outcome `o` says
pub open spec fn params_result(r: Result<Vec<Param>, Error>, o: ParamsOutcome) -> bool {
    match o {
        ParamsOutcome::Parsed(ps) => r matches Ok(x) && params_v(x@) == ps && forall|i: int|
            0 <= i < x@.len() ==> !(#[trigger] x@[i]).is_iparam,
        ParamsOutcome::Failed(msg, at) => r matches Err(e) && error_of(e, msg, ErrorDetails::ParseError { location: at }),
        ParamsOutcome::Stuck => false,
    }
}

impl<'a> Parser<'a> {
    /// Parse a type, eg. `Array<Int>`; its names stay joined by `::`
    pub fn parse_typ(&mut self) -> (r: Result<ConstName, Error>)
        requires
            old(self).ok(),
        ensures
            old(self).moved_to(
                *final(self),
                spec_typ(old(self).lexer.chars@, lex_v(old(self).lexer), Seq::empty(), fuel_at(old(self).lexer.chars@, lex_v(old(self).lexer))).1,
            ),
            typ_result(
                r,
                spec_typ(old(self).lexer.chars@, lex_v(old(self).lexer), Seq::empty(), fuel_at(old(self).lexer.chars@, lex_v(old(self).lexer))).0,
            ),
            final(self).lexer.cur.idx >= old(self).lexer.cur.idx,
            r is Ok ==> final(self).lexer.cur.idx > old(self).lexer.cur.idx,
        decreases old(self).lexer.chars@.len() - old(self).lexer.cur.idx, 0nat,
    {
        let ghost src = self.lexer.chars@;
        let ghost v0 = lex_v(self.lexer);
        let mut name = String::new();
        assert(name@ =~= Seq::<char>::empty());
        loop
            invariant
                self.ok(),
                self.lv == old(self).lv,
                self.lexer.src == old(self).lexer.src,
                self.lexer.chars == old(self).lexer.chars,
                src == self.lexer.chars@,
                v0 == lex_v(old(self).lexer),
                self.lexer.cur.idx >= old(self).lexer.cur.idx,
                name@.len() > 0 ==> self.lexer.cur.idx > old(self).lexer.cur.idx,
                spec_typ(src, v0, Seq::empty(), fuel_at(src, v0)) == spec_typ(
                    src,
                    lex_v(self.lexer),
                    name@,
                    fuel_at(src, lex_v(self.lexer)),
                ),
            decreases src.len() - self.lexer.cur.idx,
        {
            let ghost v = lex_v(self.lexer);
            assert(fuel_at(src, v) > 0);
            match self.current_token() {
                Token::UpperWord(s) => {
                    name.append(s.as_str());
                    proof { crate::parser::base::law_consume_moves_forward(*self); }
                    self.consume_token();
                },
                Token::ColonColon => {
                    name.append("::");
                    proof { crate::parser::base::law_consume_moves_forward(*self); }
                    self.consume_token();
                },
                Token::LessThan => {
                    proof { crate::parser::base::law_consume_moves_forward(*self); }
                    self.consume_token();
                    let typ_args = self.parse_typ_args();
                    match typ_args {
                        Ok(args) => {
                            let mut names: Vec<String> = Vec::new();
                            names.push(name);
                            let r = ConstName { names, args };
                            assert(strings_view(r.names@) =~= seq![r.names@[0]@]);
                            assert(const_name_view(r).args =~= Seq::new(r.args@.len(), |i: int| const_name_view(r.args@[i])));
                            return Ok(r);
                        },
                        Err(e) => {
                            return Err(e);
                        },
                    }
                },
                token => {
                    if name.as_str().is_empty() {
                        let msg = concat("invalid token as type: ", token_debug(token).as_str());
                        return Err(self.parseerror(msg.as_str()));
                    } else {
                        let mut names: Vec<String> = Vec::new();
                        names.push(name);
                        let r = ConstName { names, args: Vec::new() };
                        assert(strings_view(r.names@) =~= seq![r.names@[0]@]);
                        assert(const_name_view(r).args =~= Seq::<ConstNameV>::empty());
                        return Ok(r);
                    }
                },
            }
        }
    }

    /// Parse type arguments; the `<` should be consumed beforehand
    fn parse_typ_args(&mut self) -> (r: Result<Vec<ConstName>, Error>)
        requires
            old(self).ok(),
        ensures
            old(self).moved_to(
                *final(self),
                spec_typ_args(old(self).lexer.chars@, lex_v(old(self).lexer), Seq::empty(), fuel_at(old(self).lexer.chars@, lex_v(old(self).lexer))).1,
            ),
            typ_args_result(
                r,
                spec_typ_args(old(self).lexer.chars@, lex_v(old(self).lexer), Seq::empty(), fuel_at(old(self).lexer.chars@, lex_v(old(self).lexer))).0,
            ),
            final(self).lexer.cur.idx >= old(self).lexer.cur.idx,
        decreases old(self).lexer.chars@.len() - old(self).lexer.cur.idx, 1nat,
    {
        let ghost src = self.lexer.chars@;
        let ghost v0 = lex_v(self.lexer);
        let mut typ_args: Vec<ConstName> = Vec::new();
        assert(Seq::new(typ_args@.len(), |i: int| const_name_view(typ_args@[i])) =~= Seq::<ConstNameV>::empty());
        loop
            invariant
                self.ok(),
                self.lv == old(self).lv,
                self.lexer.src == old(self).lexer.src,
                self.lexer.chars == old(self).lexer.chars,
                src == self.lexer.chars@,
                v0 == lex_v(old(self).lexer),
                self.lexer.cur.idx >= old(self).lexer.cur.idx,
                spec_typ_args(src, v0, Seq::empty(), fuel_at(src, v0)) == spec_typ_args(
                    src,
                    lex_v(self.lexer),
                    Seq::new(typ_args@.len(), |i: int| const_name_view(typ_args@[i])),
                    fuel_at(src, lex_v(self.lexer)),
                ),
            decreases src.len() - self.lexer.cur.idx,
        {
            let ghost v = lex_v(self.lexer);
            let ghost av = Seq::new(typ_args@.len(), |i: int| const_name_view(typ_args@[i]));
            assert(fuel_at(src, v) > 0);
            self.skip_wsn();
            proof { lemma_skip_to(src, v, lex_v(self.lexer)); }
            let t = match self.parse_typ() {
                Ok(t) => t,
                Err(e) => {
                    return Err(e);
                },
            };
            let ghost tv = const_name_view(t);
            typ_args.push(t);
            assert(Seq::new(typ_args@.len(), |i: int| const_name_view(typ_args@[i])) =~= av.push(tv));
            let ghost w2 = lex_v(self.lexer);
            self.skip_wsn();
            proof { lemma_skip_to(src, w2, lex_v(self.lexer)); }
            match self.current_token() {
                Token::Comma => {
                    proof { crate::parser::base::law_consume_moves_forward(*self); }
                    self.consume_token();
                },
                Token::GraterThan => {
                    proof { crate::parser::base::law_consume_moves_forward(*self); }
                    self.consume_token();
                    return Ok(typ_args);
                },
                token => {
                    let msg = concat("invalid token in type args: ", token_debug(token).as_str());
                    return Err(self.parseerror(msg.as_str()));
                },
            }
        }
    }
}

impl<'a> Parser<'a> {
    /// Parse a parameter `name: Type`
    fn parse_param(&mut self) -> (r: Result<Param, Error>)
        requires
            old(self).ok(),
        ensures
            old(self).moved_to(*final(self), spec_param(old(self).lexer.chars@, lex_v(old(self).lexer)).1),
            match spec_param(old(self).lexer.chars@, lex_v(old(self).lexer)).0 {
                ParamsOutcome::Parsed(ps) => r matches Ok(p) && ps == seq![param_v(p)] && !p.is_iparam,
                ParamsOutcome::Failed(msg, at) => r matches Err(e) && error_of(e, msg, ErrorDetails::ParseError { location: at }),
                ParamsOutcome::Stuck => false,
            },
            final(self).lexer.cur.idx >= old(self).lexer.cur.idx,
            r is Ok ==> final(self).lexer.cur.idx > old(self).lexer.cur.idx,
    {
        let ghost src = self.lexer.chars@;
        let ghost v0 = lex_v(self.lexer);
        proof { reveal(spec_param); }
        // Name
        let name = match self.current_token() {
            Token::LowerWord(s) => copy_string(s),
            token => {
                let msg = concat("invalid token as method param: ", token_debug(token).as_str());
                return Err(self.parseerror(msg.as_str()));
            },
        };
        proof { crate::parser::base::law_consume_moves_forward(*self); }
        self.consume_token();
        let ghost u = lex_v(self.lexer);
        self.skip_ws();
        proof { lemma_skip_ws_to(src, u, lex_v(self.lexer)); }
        // `:'
        match self.expect(Token::Colon) {
            Ok(_) => {},
            Err(e) => {
                return Err(e);
            },
        }
        let ghost u2 = lex_v(self.lexer);
        self.skip_ws();
        proof { lemma_skip_ws_to(src, u2, lex_v(self.lexer)); }
        // Type
        let typ = match self.parse_typ() {
            Ok(t) => t,
            Err(e) => {
                return Err(e);
            },
        };
        let p = Param { name, typ, is_iparam: false };
        assert(seq![param_v(p)] =~= seq![(p.name@, const_name_view(p.typ))]);
        Ok(p)
    }

    /// Parse parameters; the `(` should be consumed beforehand
    pub fn parse_params(&mut self) -> (r: Result<Vec<Param>, Error>)
        requires
            old(self).ok(),
        ensures
            old(self).moved_to(
                *final(self),
                spec_params(old(self).lexer.chars@, lex_v(old(self).lexer), Seq::empty(), fuel_at(old(self).lexer.chars@, lex_v(old(self).lexer))).1,
            ),
            params_result(
                r,
                spec_params(old(self).lexer.chars@, lex_v(old(self).lexer), Seq::empty(), fuel_at(old(self).lexer.chars@, lex_v(old(self).lexer))).0,
            ),
            final(self).lexer.cur.idx >= old(self).lexer.cur.idx,
    {
        let ghost src = self.lexer.chars@;
        let ghost v0 = lex_v(self.lexer);
        let mut params: Vec<Param> = Vec::new();
        assert(params_v(params@) =~= Seq::<ParamV>::empty());
        loop
            invariant
                self.ok(),
                self.lv == old(self).lv,
                self.lexer.src == old(self).lexer.src,
                self.lexer.chars == old(self).lexer.chars,
                src == self.lexer.chars@,
                v0 == lex_v(old(self).lexer),
                self.lexer.cur.idx >= old(self).lexer.cur.idx,
                forall|i: int| 0 <= i < params@.len() ==> !(#[trigger] params@[i]).is_iparam,
                spec_params(src, v0, Seq::empty(), fuel_at(src, v0)) == spec_params(
                    src,
                    lex_v(self.lexer),
                    params_v(params@),
                    fuel_at(src, lex_v(self.lexer)),
                ),
            decreases src.len() - self.lexer.cur.idx,
        {
            let ghost v = lex_v(self.lexer);
            let ghost pv = params_v(params@);
            assert(fuel_at(src, v) > 0);
            // Param
            let is_word = match self.current_token() {
                Token::LowerWord(_) => true,
                _ => false,
            };
            if is_word {
                let p = match self.parse_param() {
                    Ok(p) => p,
                    Err(e) => {
                        return Err(e);
                    },
                };
                let ghost one = seq![param_v(p)];
                params.push(p);
                assert(params_v(params@) =~= pv + one);
            } else {
                match self.current_token() {
                    Token::RParen => {
                        proof { crate::parser::base::law_consume_moves_forward(*self); }
                        self.consume_token();
                        return Ok(params);
                    },
                    token => {
                        let msg = concat("invalid token in method arguments: ", token_debug(token).as_str());
                        return Err(self.parseerror(msg.as_str()));
                    },
                }
            }
            let ghost w = lex_v(self.lexer);
            self.skip_wsn();
            proof { lemma_skip_to(src, w, lex_v(self.lexer)); }
            match self.current_token() {
                Token::Comma => {
                    proof { crate::parser::base::law_consume_moves_forward(*self); }
                    self.consume_token();
                    let ghost w3 = lex_v(self.lexer);
                    self.skip_wsn();
                    proof { lemma_skip_to(src, w3, lex_v(self.lexer)); }
                },
                Token::RParen => {
                    proof { crate::parser::base::law_consume_moves_forward(*self); }
                    self.consume_token();
                    return Ok(params);
                },
                token => {
                    let msg = concat("invalid token in method arguments: ", token_debug(token).as_str());
                    return Err(self.parseerror(msg.as_str()));
                },
            }
        }
    }
}

/// The name of a method written as the token `tok`, if it can be one
pub open spec fn method_name_of(tok: TokenV) -> Option<Seq<char>> {
    match tok {
        TokenV::LowerWord(s) => Some(s),
        TokenV::BinaryPlus => Some("+"@),
        TokenV::BinaryMinus => Some("-"@),
        TokenV::Mul => Some("*"@),
        TokenV::Div => Some("/"@),
        TokenV::Mod => Some("%"@),
        TokenV::And => Some("&"@),
        TokenV::Or => Some("|"@),
        TokenV::Xor => Some("^"@),
        TokenV::LShift => Some("<<"@),
        TokenV::RShift => Some(">>"@),
        TokenV::LessThan => Some("<"@),
        TokenV::LessEq => Some("<="@),
        TokenV::GraterThan => Some(">"@),
        TokenV::GraterEq => Some(">="@),
        TokenV::EqEq => Some("=="@),
        TokenV::NotEq => Some("!="@),
        _ => None,
    }
}

/// The name of a method written with an operator token is the operator's text, the text that
/// the lexer reads the token from: distinct operators name distinct methods.
pub proof fn law_operator_method_name(t: TokenV)
    requires
        !(t is LowerWord),
        method_name_of(t) is Some,
    ensures
        method_name_of(t) == symbol_text(t),
{
    reveal_strlit("+");
    reveal_strlit("-");
    reveal_strlit("*");
    reveal_strlit("/");
    reveal_strlit("%");
    reveal_strlit("&");
    reveal_strlit("|");
    reveal_strlit("^");
    reveal_strlit("<<");
    reveal_strlit(">>");
    reveal_strlit("<");
    reveal_strlit("<=");
    reveal_strlit(">");
    reveal_strlit(">=");
    reveal_strlit("==");
    reveal_strlit("!=");
    assert("+"@ =~= seq!['+']);
    assert("-"@ =~= seq!['-']);
    assert("*"@ =~= seq!['*']);
    assert("/"@ =~= seq!['/']);
    assert("%"@ =~= seq!['%']);
    assert("&"@ =~= seq!['&']);
    assert("|"@ =~= seq!['|']);
    assert("^"@ =~= seq!['^']);
    assert("<<"@ =~= seq!['<', '<']);
    assert(">>"@ =~= seq!['>', '>']);
    assert("<"@ =~= seq!['<']);
    assert("<="@ =~= seq!['<', '=']);
    assert(">"@ =~= seq!['>']);
    assert(">="@ =~= seq!['>', '=']);
    assert("=="@ =~= seq!['=', '=']);
    assert("!="@ =~= seq!['!', '=']);
}

/// A method name read from the source at an operator is the text of the source there: the
/// name has the characters of the source from `pos` to the end of the token.
pub proof fn law_operator_method_name_from_source(src: Seq<char>, pos: int, state: LexerState, prev_space: bool)
    requires
        0 <= pos < src.len(),
        ctype_at(src, pos) == CharType::Symbol,
        method_name_of(spec_read(src, pos, state, prev_space).0) is Some,
    ensures
        method_name_of(spec_read(src, pos, state, prev_space).0) == Some(
            src.subrange(pos, scan_end(src, pos).unwrap()),
        ),
{
    law_symbol_token_text(src, pos, state, prev_space);
    law_operator_method_name(spec_read(src, pos, state, prev_space).0);
}

/// The text of the error for a token where the name of a method should be
pub open spec fn invalid_method_name_text(token: TokenV) -> Seq<char> {
    "invalid method name "@ + token_debug_text(token)
}

/// How reading a method signature ends: with its name, parameters, return type (if written)
/// and whether it is of a class method; with an error at a place; or not at all
pub enum SigOutcome {
    Parsed(Seq<char>, Seq<ParamV>, Option<ConstNameV>, bool),
    Failed(Seq<char>, Cursor),
    Stuck,
}

/// How reading the return type of a method ends: with it (if written), with an error at a
/// place, or not at all
pub enum RetOutcome {
    Parsed(Option<ConstNameV>),
    Failed(Seq<char>, Cursor),
    Stuck,
}

/// Reading `self.` or `self` from the lexer `v`: whether the method is a class method, the
/// name `self` if that is the method's name, and the lexer after them
pub open spec fn spec_sig_head(src: Seq<char>, v: LexV) -> (bool, Option<Seq<char>>, LexV) {
    if v.tok == TokenV::KwSelf {
        let v1 = lex_step(src, v);
        if v1.tok == TokenV::Dot {
            (true, None, lex_step(src, v1))
        } else {
            (false, Some("self"@), v1)
        }
    } else {
        (false, None, v)
    }
}

/// Reading the parameters of a method, if `(` follows its name and spaces
pub open spec fn spec_sig_params(src: Seq<char>, v: LexV) -> (ParamsOutcome, LexV) {
    let w = skip_ws_to(src, v);
    if w.tok == TokenV::LParen {
        let w2 = skip_to(src, lex_step(src, w));
        spec_params(src, w2, Seq::empty(), fuel_at(src, w2))
    } else {
        (ParamsOutcome::Parsed(Seq::empty()), w)
    }
}

/// Reading the return type of a method, if `->` follows its parameters and spaces
pub open spec fn spec_sig_ret(src: Seq<char>, v: LexV) -> (RetOutcome, LexV) {
    let w = skip_ws_to(src, v);
    if w.tok == TokenV::RightArrow {
        let w2 = skip_ws_to(src, lex_step(src, w));
        let (o, w3) = spec_typ(src, w2, Seq::empty(), fuel_at(src, w2));
        match o {
            TypOutcome::Parsed(t) => (RetOutcome::Parsed(Some(t)), w3),
            TypOutcome::Failed(m, at) => (RetOutcome::Failed(m, at), w3),
            _ => (RetOutcome::Stuck, w3),
        }
    } else {
        (RetOutcome::Parsed(None), skip_ws_to(src, w))
    }
}

/// Reading a method signature from the lexer `v`: `self.` for a class method, the name, the
/// parameters in `(` .. `)` if any, and `-> Type` if any, with spaces between them
pub open spec fn spec_method_signature(src: Seq<char>, v: LexV) -> (SigOutcome, LexV) {
    let (cm, self_name, v2) = spec_sig_head(src, v);
    let (name, v3) = match self_name {
        Some(n) => (Some(n), v2),
        None => match method_name_of(v2.tok) {
            Some(n) => (Some(n), lex_step(src, v2)),
            None => (None, v2),
        },
    };
    match name {
        None => (SigOutcome::Failed(invalid_method_name_text(v2.tok), v2.cur), v2),
        Some(name) => {
            let (po, v4) = spec_sig_params(src, v3);
            match po {
                ParamsOutcome::Parsed(ps) => {
                    let (ro, v5) = spec_sig_ret(src, v4);
                    match ro {
                        RetOutcome::Parsed(ret) => (SigOutcome::Parsed(name, ps, ret, cm), v5),
                        RetOutcome::Failed(m, at) => (SigOutcome::Failed(m, at), v5),
                        RetOutcome::Stuck => (SigOutcome::Stuck, v5),
                    }
                },
                ParamsOutcome::Failed(m, at) => (SigOutcome::Failed(m, at), v4),
                ParamsOutcome::Stuck => (SigOutcome::Stuck, v4),
            }
        },
    }
}

/// The view of a return type as written, if any
pub open spec fn ret_typ_v(t: Option<ConstName>) -> Option<ConstNameV> {
    match t {
        Some(c) => Some(const_name_view(c)),
        None => None,
    }
}

impl<'a> Parser<'a> {
    /// The name of the method that the current token writes
    fn get_method_name(&self) -> (r: Result<String, Error>)
        ensures
            match method_name_of(self.lexer.current_token@) {
                Some(n) => r matches Ok(s) && s@ == n,
                None => r matches Err(e) && error_of(
                    e,
                    invalid_method_name_text(self.lexer.current_token@),
                    ErrorDetails::ParseError { location: self.lexer.cur },
                ),
            },
    {
        let name = match self.current_token() {
            Token::LowerWord(s) => copy_string(s),
            Token::BinaryPlus => to_owned("+"),
            Token::BinaryMinus => to_owned("-"),
            Token::Mul => to_owned("*"),
            Token::Div => to_owned("/"),
            Token::Mod => to_owned("%"),
            Token::And => to_owned("&"),
            Token::Or => to_owned("|"),
            Token::Xor => to_owned("^"),
            Token::LShift => to_owned("<<"),
            Token::RShift => to_owned(">>"),
            Token::LessThan => to_owned("<"),
            Token::LessEq => to_owned("<="),
            Token::GraterThan => to_owned(">"),
            Token::GraterEq => to_owned(">="),
            Token::EqEq => to_owned("=="),
            Token::NotEq => to_owned("!="),
            token => {
                let msg = concat("invalid method name ", token_debug(token).as_str());
                return Err(self.parseerror(msg.as_str()));
            },
        };
        Ok(name)
    }

    /// Parse the parameters of a method, if `(` follows
    fn parse_sig_params(&mut self) -> (r: Result<Vec<Param>, Error>)
        requires
            old(self).ok(),
        ensures
            old(self).moved_to(*final(self), spec_sig_params(old(self).lexer.chars@, lex_v(old(self).lexer)).1),
            params_result(r, spec_sig_params(old(self).lexer.chars@, lex_v(old(self).lexer)).0),
    {
        let ghost src = self.lexer.chars@;
        let ghost v = lex_v(self.lexer);
        self.skip_ws();
        proof { lemma_skip_ws_to(src, v, lex_v(self.lexer)); }
        let has_params = match self.current_token() {
            Token::LParen => true,
            _ => false,
        };
        if has_params {
            proof { crate::parser::base::law_consume_moves_forward(*self); }
            self.consume_token();
            let ghost w = lex_v(self.lexer);
            self.skip_wsn();
            proof { lemma_skip_to(src, w, lex_v(self.lexer)); }
            self.parse_params()
        } else {
            let params: Vec<Param> = Vec::new();
            assert(params_v(params@) =~= Seq::<ParamV>::empty());
            Ok(params)
        }
    }

    /// Parse the return type of a method, if `->` follows
    fn parse_sig_ret(&mut self) -> (r: Result<Option<ConstName>, Error>)
        requires
            old(self).ok(),
        ensures
            old(self).moved_to(*final(self), spec_sig_ret(old(self).lexer.chars@, lex_v(old(self).lexer)).1),
            match spec_sig_ret(old(self).lexer.chars@, lex_v(old(self).lexer)).0 {
                RetOutcome::Parsed(t) => r matches Ok(x) && ret_typ_v(x) == t,
                RetOutcome::Failed(msg, at) => r matches Err(e) && error_of(e, msg, ErrorDetails::ParseError { location: at }),
                RetOutcome::Stuck => false,
            },
    {
        let ghost src = self.lexer.chars@;
        let ghost v = lex_v(self.lexer);
        self.skip_ws();
        proof { lemma_skip_ws_to(src, v, lex_v(self.lexer)); }
        let has_ret = match self.current_token() {
            Token::RightArrow => true,
            _ => false,
        };
        if has_ret {
            proof { crate::parser::base::law_consume_moves_forward(*self); }
            self.consume_token();
            let ghost w = lex_v(self.lexer);
            self.skip_ws();
            proof { lemma_skip_ws_to(src, w, lex_v(self.lexer)); }
            match self.parse_typ() {
                Ok(t) => Ok(Some(t)),
                Err(e) => Err(e),
            }
        } else {
            let ghost w = lex_v(self.lexer);
            self.skip_ws();
            proof { lemma_skip_ws_to(src, w, lex_v(self.lexer)); }
            Ok(None)
        }
    }

    /// Parse a method signature: `self.` for a class method, the name, the parameters if any
    /// and the return type if any. Returns the signature and whether it is of a class method.
    pub fn parse_method_signature(&mut self) -> (r: Result<(AstMethodSignature, bool), Error>)
        requires
            old(self).ok(),
        ensures
            old(self).moved_to(*final(self), spec_method_signature(old(self).lexer.chars@, lex_v(old(self).lexer)).1),
            match spec_method_signature(old(self).lexer.chars@, lex_v(old(self).lexer)).0 {
                SigOutcome::Parsed(name, ps, ret, cm) => r matches Ok((sig, is_class_method)) && sig.name@ == name
                    && params_v(sig.params@) == ps && (forall|i: int|
                    0 <= i < sig.params@.len() ==> !(#[trigger] sig.params@[i]).is_iparam) && sig.typarams@.len() == 0
                    && ret_typ_v(sig.ret_typ) == ret && is_class_method == cm,
                SigOutcome::Failed(msg, at) => r matches Err(e) && error_of(e, msg, ErrorDetails::ParseError { location: at }),
                SigOutcome::Stuck => false,
            },
    {
        let ghost src = self.lexer.chars@;
        let ghost v = lex_v(self.lexer);
        let mut name: Option<String> = None;
        let mut is_class_method = false;
        // `self.` (Optional)
        if self.consume(Token::KwSelf) {
            if self.current_token_is(Token::Dot) {
                is_class_method = true;
                self.consume_token();
            } else {
                // Defining a method named `self`
                name = Some(to_owned("self"));
            }
        }
        // Method name
        let name = match name {
            Some(n) => n,
            None => {
                let n = match self.get_method_name() {
                    Ok(n) => n,
                    Err(e) => {
                        return Err(e);
                    },
                };
                proof { crate::parser::base::law_consume_moves_forward(*self); }
                self.consume_token();
                n
            },
        };
        // Params (optional)
        let params = match self.parse_sig_params() {
            Ok(ps) => ps,
            Err(e) => {
                return Err(e);
            },
        };
        // Return type (optional)
        let ret_typ = match self.parse_sig_ret() {
            Ok(t) => t,
            Err(e) => {
                return Err(e);
            },
        };
        let sig = AstMethodSignature { name: method_firstname(name.as_str()), typarams: Vec::new(), params, ret_typ };
        Ok((sig, is_class_method))
    }
}

} // verus!
