//! Parsing of expressions: constant names with type arguments.
use vstd::prelude::*;
use crate::ast;
use crate::ast::AstExpression;
use crate::error::{Error, ErrorDetails, error_of};
use crate::names::{ConstName, ConstNameV, const_name_view};
use crate::parser::Parser;
use crate::parser::base::{LexV, lemma_skip_to, lex_step, lex_v, skip_to};
use crate::parser::lexer::Cursor;
use crate::parser::token::{Token, TokenV};
use crate::parser::unexpected_token_text;
use crate::strs::{copy_string, strings_view};

verus! {

/// How reading a constant name ends: with the name, with an error at a place, or not at all
/// within the steps allowed
pub enum SpecializeOutcome {
    Parsed(ConstNameV),
    Failed(Seq<char>, Cursor),
    Stuck,
}

/// The number of steps allowed from the lexer `v`: one more than the characters left
pub open spec fn fuel_at(src: Seq<char>, v: LexV) -> nat {
    if v.cur.idx <= src.len() {
        (src.len() - v.cur.idx + 1) as nat
    } else {
        0
    }
}

/// The text of the error for `::` after the type arguments have begun
pub open spec fn colon_colon_text() -> Seq<char> {
    "unexpected `::'"@
}

/// Reading a constant name from the lexer `v`, having read the names `names` so far, and the
/// type arguments `args` if `seen` (a `<` was read): `A::B` adds a name, `<` begins the type
/// arguments, each of which is a constant name itself, separated by `,` and ended by `>`. Before
/// `<`, the name ends at any other token; after it, another token is an error. Spaces and
/// separators are skipped after `<`, `,` and each type argument. Each step moves forward,
/// within `n` steps.
pub open spec fn spec_specialize(
    src: Seq<char>,
    v: LexV,
    names: Seq<Seq<char>>,
    seen: bool,
    args: Seq<ConstNameV>,
    n: nat,
) -> (SpecializeOutcome, LexV)
    decreases n,
{
    if n == 0 {
        (SpecializeOutcome::Stuck, v)
    } else {
        match v.tok {
            TokenV::ColonColon => {
                if seen {
                    (SpecializeOutcome::Failed(colon_colon_text(), v.cur), v)
                } else {
                    let w = lex_step(src, v);
                    if fuel_at(src, w) < n {
                        spec_specialize(src, w, names, seen, args, fuel_at(src, w))
                    } else {
                        (SpecializeOutcome::Stuck, v)
                    }
                }
            },
            TokenV::LessThan => {
                let w = skip_to(src, lex_step(src, v));
                if fuel_at(src, w) < n {
                    spec_specialize(src, w, names, true, args, fuel_at(src, w))
                } else {
                    (SpecializeOutcome::Stuck, v)
                }
            },
            TokenV::GraterThan => {
                if seen {
                    (SpecializeOutcome::Parsed(ConstNameV { names, args }), lex_step(src, v))
                } else {
                    (SpecializeOutcome::Parsed(ConstNameV { names, args }), v)
                }
            },
            TokenV::Comma => {
                if seen {
                    let w = skip_to(src, lex_step(src, v));
                    if fuel_at(src, w) < n {
                        spec_specialize(src, w, names, seen, args, fuel_at(src, w))
                    } else {
                        (SpecializeOutcome::Stuck, v)
                    }
                } else {
                    (SpecializeOutcome::Parsed(ConstNameV { names, args }), v)
                }
            },
            TokenV::UpperWord(s) => {
                let w = lex_step(src, v);
                if fuel_at(src, w) < n {
                    if seen {
                        let (inner, w2) = spec_specialize(src, w, seq![s], false, Seq::empty(), fuel_at(src, w));
                        match inner {
                            SpecializeOutcome::Parsed(c) => {
                                let w3 = skip_to(src, w2);
                                if fuel_at(src, w3) < n {
                                    spec_specialize(src, w3, names, seen, args.push(c), fuel_at(src, w3))
                                } else {
                                    (SpecializeOutcome::Stuck, v)
                                }
                            },
                            _ => (inner, w2),
                        }
                    } else {
                        spec_specialize(src, w, names.push(s), seen, args, fuel_at(src, w))
                    }
                } else {
                    (SpecializeOutcome::Stuck, v)
                }
            },
            _ => {
                if seen {
                    (SpecializeOutcome::Failed(unexpected_token_text(v.tok), v.cur), v)
                } else {
                    (SpecializeOutcome::Parsed(ConstNameV { names, args }), v)
                }
            },
        }
    }
}

/// Reading a constant name whose first name `s` was read, from the lexer `v`
pub open spec fn specialized(src: Seq<char>, v: LexV, s: Seq<char>) -> (SpecializeOutcome, LexV) {
    spec_specialize(src, v, seq![s], false, Seq::empty(), fuel_at(src, v))
}

/// What reading a constant name returns, as the outcome `o` says
pub open spec fn specialize_result(r: Result<ConstName, Error>, o: SpecializeOutcome) -> bool {
    match o {
        SpecializeOutcome::Parsed(c) => r matches Ok(x) && const_name_view(x) == c,
        SpecializeOutcome::Failed(msg, at) => r matches Err(e) && error_of(
            e,
            msg,
            ErrorDetails::ParseError { location: at },
        ),
        SpecializeOutcome::Stuck => false,
    }
}

/// The constant name `names` with the type arguments `args`
fn const_name_of(names: Vec<String>, args: Vec<ConstName>) -> (r: ConstName)
    ensures
        const_name_view(r) == (ConstNameV { names: strings_view(names@), args: Seq::new(args@.len(), |i: int| const_name_view(args@[i])) }),
{
    let r = ConstName { names, args };
    assert(const_name_view(r).args =~= Seq::new(r.args@.len(), |i: int| const_name_view(r.args@[i])));
    r
}

impl<'a> Parser<'a> {
    /// Read the rest of a constant name whose first name `s` was consumed: more names after
    /// `::`, then type arguments in `<` .. `>`
    fn parse_specialized_name(&mut self, s: String) -> (r: Result<ConstName, Error>)
        requires
            old(self).ok(),
        ensures
            old(self).moved_to(*final(self), specialized(old(self).lexer.chars@, lex_v(old(self).lexer), s@).1),
            specialize_result(r, specialized(old(self).lexer.chars@, lex_v(old(self).lexer), s@).0),
            final(self).lexer.cur.idx >= old(self).lexer.cur.idx,
        decreases old(self).lexer.chars@.len() - old(self).lexer.cur.idx,
    {
        let ghost src = self.lexer.chars@;
        let ghost v0 = lex_v(self.lexer);
        let ghost s0 = s@;
        let mut names: Vec<String> = Vec::new();
        names.push(copy_string(&s));
        let mut lessthan_seen = false;
        let mut args: Vec<ConstName> = Vec::new();
        assert(strings_view(names@) =~= seq![s0]);
        assert(Seq::new(args@.len(), |i: int| const_name_view(args@[i])) =~= Seq::<ConstNameV>::empty());
        loop
            invariant_except_break
                spec_specialize(src, v0, seq![s0], false, Seq::empty(), fuel_at(src, v0)) == spec_specialize(
                    src,
                    lex_v(self.lexer),
                    strings_view(names@),
                    lessthan_seen,
                    Seq::new(args@.len(), |i: int| const_name_view(args@[i])),
                    fuel_at(src, lex_v(self.lexer)),
                ),
            invariant
                self.ok(),
                self.lv == old(self).lv,
                self.lexer.src == old(self).lexer.src,
                self.lexer.chars == old(self).lexer.chars,
                src == self.lexer.chars@,
                v0 == lex_v(old(self).lexer),
                s0 == s@,
                self.lexer.cur.idx >= old(self).lexer.cur.idx,
            ensures
                spec_specialize(src, v0, seq![s0], false, Seq::empty(), fuel_at(src, v0)) == (
                    SpecializeOutcome::Parsed(
                        ConstNameV {
                            names: strings_view(names@),
                            args: Seq::new(args@.len(), |i: int| const_name_view(args@[i])),
                        },
                    ),
                    lex_v(self.lexer),
                ),
            decreases src.len() - self.lexer.cur.idx,
        {
            let ghost v = lex_v(self.lexer);
            let ghost nv = strings_view(names@);
            let ghost av = Seq::new(args@.len(), |i: int| const_name_view(args@[i]));
            assert(fuel_at(src, v) > 0);
            match self.current_token() {
                Token::ColonColon => {
                    // `A::B`
                    if lessthan_seen {
                        return Err(self.parseerror("unexpected `::'"));
                    }
                    proof { crate::parser::base::law_consume_moves_forward(*self); }
                    self.consume_token();
                },
                Token::LessThan => {
                    // `A<B>`
                    lessthan_seen = true;
                    proof { crate::parser::base::law_consume_moves_forward(*self); }
                    self.consume_token();
                    let ghost u = lex_v(self.lexer);
                    self.skip_wsn();
                    proof {
                        lemma_skip_to(src, u, lex_v(self.lexer));
                    }
                },
                Token::GraterThan => {
                    // `A<B>`
                    if lessthan_seen {
                        proof { crate::parser::base::law_consume_moves_forward(*self); }
                        self.consume_token();
                    }
                    break;
                },
                Token::Comma => {
                    // `A<B, C>`
                    if lessthan_seen {
                        proof { crate::parser::base::law_consume_moves_forward(*self); }
                        self.consume_token();
                        let ghost u = lex_v(self.lexer);
                        self.skip_wsn();
                        proof {
                            lemma_skip_to(src, u, lex_v(self.lexer));
                        }
                    } else {
                        break;
                    }
                },
                Token::UpperWord(word) => {
                    let name = copy_string(word);
                    let ghost wv = name@;
                    proof { crate::parser::base::law_consume_moves_forward(*self); }
                    self.consume_token();
                    if lessthan_seen {
                        let inner = self.parse_specialized_name(name);
                        match inner {
                            Ok(c) => {
                                let ghost cv = const_name_view(c);
                                args.push(c);
                                let ghost u = lex_v(self.lexer);
                                self.skip_wsn();
                                proof {
                                    lemma_skip_to(src, u, lex_v(self.lexer));
                                    assert(Seq::new(args@.len(), |i: int| const_name_view(args@[i])) =~= av.push(cv));
                                }
                            },
                            Err(e) => {
                                return Err(e);
                            },
                        }
                    } else {
                        names.push(name);
                        assert(strings_view(names@) =~= nv.push(wv));
                    }
                },
                token => {
                    if lessthan_seen {
                        return Err(self.parseerror(crate::parser::unexpected_token_message(token).as_str()));
                    } else {
                        break;
                    }
                },
            }
        }
        Ok(const_name_of(names, args))
    }

    /// Parse a constant name, possibly with type arguments, whose first name `s` was consumed:
    /// `A`, `A::B`, `A<B, C<D>>`
    pub fn _parse_specialize_expr(&mut self, s: String) -> (r: Result<AstExpression, Error>)
        requires
            old(self).ok(),
        ensures
            old(self).moved_to(*final(self), specialized(old(self).lexer.chars@, lex_v(old(self).lexer), s@).1),
            ({
                match specialized(old(self).lexer.chars@, lex_v(old(self).lexer), s@).0 {
                    SpecializeOutcome::Parsed(c) => r matches Ok(x) && x.primary && (x.body matches ast::AstExpressionBody::ConstRef(n) && const_name_view(n) == c),
                    SpecializeOutcome::Failed(msg, at) => r matches Err(e) && error_of(e, msg, ErrorDetails::ParseError { location: at }),
                    SpecializeOutcome::Stuck => false,
                }
            }),
    {
        match self.parse_specialized_name(s) {
            Ok(name) => Ok(ast::const_ref(name)),
            Err(e) => Err(e),
        }
    }
}

} // verus!
