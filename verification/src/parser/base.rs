//! Utilities of the parser: reading, consuming and skipping tokens.
use vstd::prelude::*;
use crate::error::{Error, ErrorDetails, error_of};
use crate::parser::Parser;
use crate::parser::lexer::{Cursor, Lexer, LexerState, advance, cursor_ok, scan_end, spec_read, state_after};
use crate::parser::token::{Token, TokenV, token_debug, token_debug_text};
use crate::strs::concat;

verus! {

/// Whether the tokens of `src` from position `p` on can all be read: each ends after it starts,
/// within `src`
pub open spec fn lexes_from(src: Seq<char>, p: int) -> bool
    decreases src.len() - p,
{
    match scan_end(src, p) {
        Some(e) => p >= src.len() || (p < e <= src.len() && lexes_from(src, e)),
        None => false,
    }
}

/// What parsing moves in a lexer: its cursor, the cursor after the current token, its state,
/// whether the previous token is a space, and the current token
pub struct LexV {
    pub cur: Cursor,
    pub next_cur: Option<Cursor>,
    pub state: LexerState,
    pub space_seen: bool,
    pub tok: TokenV,
}

/// A lexer, viewed
pub open spec fn lex_v(l: Lexer) -> LexV {
    LexV { cur: l.cur, next_cur: l.next_cur, state: l.state, space_seen: l.space_seen, tok: l.current_token@ }
}

/// The lexer after consuming its current token
pub open spec fn lex_step(src: Seq<char>, v: LexV) -> LexV {
    let nc = v.next_cur.unwrap();
    let (t, s) = spec_read(src, nc.idx as int, v.state, v.tok == TokenV::Space);
    LexV {
        cur: nc,
        next_cur: Some(advance(src, nc, scan_end(src, nc.idx as int).unwrap())),
        state: state_after(v.state, s),
        space_seen: v.tok == TokenV::Space,
        tok: t,
    }
}

/// Whether `tok` is skipped: a space, or also a separator if `newlines`
pub open spec fn skippable(tok: TokenV, newlines: bool) -> bool {
    tok == TokenV::Space || (newlines && tok == TokenV::Separator)
}

/// The lexer after `n` steps that each consume the current token if it is skipped
pub open spec fn skip_run(src: Seq<char>, v: LexV, newlines: bool, n: nat) -> LexV
    decreases n,
{
    if n == 0 {
        v
    } else {
        let w = skip_run(src, v, newlines, (n - 1) as nat);
        if skippable(w.tok, newlines) {
            lex_step(src, w)
        } else {
            w
        }
    }
}

/// The lexer after skipping the tokens that are skipped: the first state of the run whose token
/// is not skipped
pub open spec fn skipped(src: Seq<char>, v: LexV, w: LexV, newlines: bool) -> bool {
    &&& exists|n: nat| w == skip_run(src, v, newlines, n)
    &&& !skippable(w.tok, newlines)
}

/// The lexer after skipping the spaces and separators from `v`
pub open spec fn skip_to(src: Seq<char>, v: LexV) -> LexV {
    choose|w: LexV| skipped(src, v, w, true)
}

/// Once a run of skips reaches a token that is not skipped, it stays there.
proof fn lemma_skip_run_stays(src: Seq<char>, v: LexV, newlines: bool, n: nat, m: nat)
    requires
        n <= m,
        !skippable(skip_run(src, v, newlines, n).tok, newlines),
    ensures
        skip_run(src, v, newlines, m) == skip_run(src, v, newlines, n),
    decreases m,
{
    if m > n {
        lemma_skip_run_stays(src, v, newlines, n, (m - 1) as nat);
    }
}

/// The lexer after skipping the spaces from `v`
pub open spec fn skip_ws_to(src: Seq<char>, v: LexV) -> LexV {
    choose|w: LexV| skipped(src, v, w, false)
}

/// Skipping stops at one place.
proof fn lemma_skipped_unique(src: Seq<char>, v: LexV, w: LexV, u: LexV, newlines: bool)
    requires
        skipped(src, v, w, newlines),
        skipped(src, v, u, newlines),
    ensures
        u == w,
{
    let n1 = choose|n: nat| w == skip_run(src, v, newlines, n);
    let n2 = choose|n: nat| u == skip_run(src, v, newlines, n);
    if n1 <= n2 {
        lemma_skip_run_stays(src, v, newlines, n1, n2);
    } else {
        lemma_skip_run_stays(src, v, newlines, n2, n1);
    }
}

/// Skipping spaces and separators stops at one place: `skip_to` gives it.
pub proof fn lemma_skip_to(src: Seq<char>, v: LexV, w: LexV)
    requires
        skipped(src, v, w, true),
    ensures
        skip_to(src, v) == w,
{
    lemma_skipped_unique(src, v, w, skip_to(src, v), true);
}

/// Skipping spaces stops at one place: `skip_ws_to` gives it.
pub proof fn lemma_skip_ws_to(src: Seq<char>, v: LexV, w: LexV)
    requires
        skipped(src, v, w, false),
    ensures
        skip_ws_to(src, v) == w,
{
    lemma_skipped_unique(src, v, w, skip_ws_to(src, v), false);
}

/// From a position where the tokens can be read, the next token can be read too.
pub proof fn lemma_lexes_next(src: Seq<char>, p: int)
    requires
        0 <= p,
        lexes_from(src, p),
    ensures
        scan_end(src, p) matches Some(e) && lexes_from(src, e) && (p < src.len() ==> p < e <= src.len()) && (p
            >= src.len() ==> e == p),
{
}

/// A token other than the end is read within the source.
pub proof fn lemma_read_within(src: Seq<char>, p: int, state: LexerState, prev_space: bool)
    requires
        0 <= p,
        spec_read(src, p, state, prev_space).0 != TokenV::Eof,
    ensures
        p < src.len(),
{
}

/// Consuming a token other than the end of the input moves the parser forward, so that a
/// loop that consumes a token in each turn ends.
pub proof fn law_consume_moves_forward(p: Parser)
    requires
        p.ok(),
        p.lexer.current_token@ != TokenV::Eof,
    ensures
        lex_step(p.lexer.chars@, lex_v(p.lexer)).cur.idx > p.lexer.cur.idx,
{
    lemma_lexes_next(p.lexer.chars@, p.lexer.cur.idx as int);
}

/// The text of the error for a token other than the expected one
pub open spec fn expected_text(expected: TokenV, got: TokenV) -> Seq<char> {
    "expected "@ + token_debug_text(expected) + " but got "@ + token_debug_text(got)
}

/// The error message for a token other than the expected one
fn expected_message(expected: &Token, got: &Token) -> (r: String)
    ensures
        r@ == expected_text(expected@, got@),
{
    let s1 = concat("expected ", token_debug(expected).as_str());
    let s2 = concat(s1.as_str(), " but got ");
    concat(s2.as_str(), token_debug(got).as_str())
}

/// The text of the error for a token where a separator should be
pub open spec fn separator_expected_text(got: TokenV) -> Seq<char> {
    "expected separator but got "@ + token_debug_text(got)
}

/// The error message for a token where a separator should be
fn separator_expected_message(got: &Token) -> (r: String)
    ensures
        r@ == separator_expected_text(got@),
{
    concat("expected separator but got ", token_debug(got).as_str())
}

impl<'a> Parser<'a> {
    /// The lexer has read its current token, and every token from there on can be read
    pub open spec fn ok(&self) -> bool {
        &&& self.lexer.wf()
        &&& lexes_from(self.lexer.chars@, self.lexer.cur.idx as int)
        &&& (self.lexer.current_token@ != TokenV::Eof ==> self.lexer.cur.idx < self.lexer.chars@.len())
    }

    /// `p` is `self` with the lexer in the state `v`
    pub open spec fn moved_to(&self, p: Parser<'a>, v: LexV) -> bool {
        &&& p.ok()
        &&& p.lv == self.lv
        &&& p.lexer.src == self.lexer.src
        &&& p.lexer.chars == self.lexer.chars
        &&& lex_v(p.lexer) == v
    }

    /// Consume the current token and return it
    pub fn consume_token(&mut self) -> (r: Token)
        requires
            old(self).ok(),
        ensures
            r@ == old(self).lexer.current_token@,
            old(self).moved_to(*final(self), lex_step(old(self).lexer.chars@, lex_v(old(self).lexer))),
    {
        proof {
            lemma_lexes_next(self.lexer.chars@, self.lexer.cur.idx as int);
        }
        let ghost src = self.lexer.chars@;
        let ghost np = self.lexer.next_pos();
        let tok = self.lexer.consume_token();
        proof {
            if self.lexer.current_token@ != TokenV::Eof {
                lemma_read_within(
                    src,
                    np,
                    old(self).lexer.state,
                    old(self).lexer.current_token@ == TokenV::Space,
                );
            }
        }
        tok
    }

    /// Consume the current token if it equals to `token`.
    /// Return whether matched and consumed
    pub fn consume(&mut self, token: Token) -> (r: bool)
        requires
            old(self).ok(),
        ensures
            r == (old(self).lexer.current_token@ == token@),
            r ==> old(self).moved_to(*final(self), lex_step(old(self).lexer.chars@, lex_v(old(self).lexer))),
            !r ==> *final(self) == *old(self),
    {
        if self.current_token_is(token) {
            self.consume_token();
            true
        } else {
            false
        }
    }

    /// Return true if the current token is `token`
    ///
    /// Note: Takes `Token` rather than `&Token` for convenience.
    pub fn current_token_is(&mut self, token: Token) -> (r: bool)
        ensures
            r == (old(self).lexer.current_token@ == token@),
            *final(self) == *old(self),
    {
        *self.current_token() == token
    }

    /// The current token
    pub fn current_token(&self) -> (r: &Token)
        ensures
            *r == self.lexer.current_token,
    {
        &self.lexer.current_token
    }

    /// Skip spaces and separators
    pub fn skip_wsn(&mut self)
        requires
            old(self).ok(),
        ensures
            exists|v: LexV|
                old(self).moved_to(*final(self), v) && skipped(old(self).lexer.chars@, lex_v(old(self).lexer), v, true),
            final(self).lexer.cur.idx >= old(self).lexer.cur.idx,
    {
        self.skip(true)
    }

    /// Skip spaces
    pub fn skip_ws(&mut self)
        requires
            old(self).ok(),
        ensures
            exists|v: LexV|
                old(self).moved_to(*final(self), v) && skipped(old(self).lexer.chars@, lex_v(old(self).lexer), v, false),
            final(self).lexer.cur.idx >= old(self).lexer.cur.idx,
    {
        self.skip(false)
    }

    /// Skip spaces, and separators too if `newlines`
    fn skip(&mut self, newlines: bool)
        requires
            old(self).ok(),
        ensures
            exists|v: LexV|
                old(self).moved_to(*final(self), v) && skipped(old(self).lexer.chars@, lex_v(old(self).lexer), v, newlines),
            final(self).lexer.cur.idx >= old(self).lexer.cur.idx,
    {
        let ghost src = self.lexer.chars@;
        let ghost v0 = lex_v(self.lexer);
        let ghost mut k: nat = 0;
        loop
            invariant
                self.ok(),
                self.lv == old(self).lv,
                self.lexer.src == old(self).lexer.src,
                self.lexer.chars == old(self).lexer.chars,
                src == self.lexer.chars@,
                v0 == lex_v(old(self).lexer),
                lex_v(self.lexer) == skip_run(src, v0, newlines, k),
                self.lexer.cur.idx >= old(self).lexer.cur.idx,
            decreases src.len() - self.lexer.cur.idx,
        {
            let skip = match self.current_token() {
                Token::Space => true,
                Token::Separator => newlines,
                _ => false,
            };
            if !skip {
                assert(old(self).moved_to(*self, lex_v(self.lexer)));
                return;
            }
            proof {
                lemma_lexes_next(src, self.lexer.cur.idx as int);
            }
            self.consume_token();
            proof {
                k = k + 1;
            }
        }
    }

    /// Generates error if the current token does not equal to `token`.
    ///
    /// Note: Takes `Token` rather than `&Token` for convenience.
    pub fn expect(&mut self, token: Token) -> (r: Result<Token, Error>)
        requires
            old(self).ok(),
        ensures
            old(self).lexer.current_token@ == token@ ==> (r matches Ok(t) && t@ == token@ && old(self).moved_to(
                *final(self),
                lex_step(old(self).lexer.chars@, lex_v(old(self).lexer)),
            )),
            old(self).lexer.current_token@ != token@ ==> (*final(self) == *old(self) && (r matches Err(e)
                && error_of(
                e,
                expected_text(token@, old(self).lexer.current_token@),
                ErrorDetails::ParseError { location: old(self).lexer.cur },
            ))),
    {
        if *self.current_token() == token {
            Ok(self.consume_token())
        } else {
            let msg = expected_message(&token, self.current_token());
            Err(self.parseerror(msg.as_str()))
        }
    }

    /// Consume a separator and its surrounding spaces
    pub fn expect_sep(&mut self) -> (r: Result<(), Error>)
        requires
            old(self).ok(),
        ensures
            old(self).lexer.current_token@ == TokenV::Separator ==> r is Ok && exists|v: LexV|
                old(self).moved_to(*final(self), v) && skipped(
                    old(self).lexer.chars@,
                    lex_step(old(self).lexer.chars@, lex_v(old(self).lexer)),
                    v,
                    true,
                ),
            old(self).lexer.current_token@ == TokenV::Eof ==> r is Ok && exists|v: LexV|
                old(self).moved_to(*final(self), v) && skipped(old(self).lexer.chars@, lex_v(old(self).lexer), v, true),
            old(self).lexer.current_token@ != TokenV::Separator && old(self).lexer.current_token@ != TokenV::Eof
                ==> (*final(self) == *old(self) && (r matches Err(e) && error_of(
                e,
                separator_expected_text(old(self).lexer.current_token@),
                ErrorDetails::ParseError { location: old(self).lexer.cur },
            ))),
    {
        match self.current_token() {
            Token::Separator => {
                self.consume_token();
            },
            Token::Eof => {},
            token => {
                let msg = separator_expected_message(token);
                return Err(self.parseerror(msg.as_str()));
            },
        }
        let ghost mid = *self;
        self.skip_wsn();
        proof {
            let v = choose|v: LexV| mid.moved_to(*self, v) && skipped(mid.lexer.chars@, lex_v(mid.lexer), v, true);
            assert(old(self).moved_to(*self, v));
        }
        Ok(())
    }

    /// Return next token
    pub fn peek_next_token(&mut self) -> (r: Token)
        requires
            old(self).ok(),
        ensures
            *final(self) == *old(self),
            r@ == lex_step(old(self).lexer.chars@, lex_v(old(self).lexer)).tok,
    {
        proof {
            lemma_lexes_next(self.lexer.chars@, self.lexer.cur.idx as int);
        }
        self.lexer.peek_next()
    }

    /// Return next token which is not `Token::Space`
    /// Note: newlines are not skipped. (i.e. this function may return Token::Newline)
    pub fn next_nonspace_token(&mut self) -> (r: Token)
        requires
            old(self).ok(),
        ensures
            *final(self) == *old(self),
            old(self).lexer.current_token@ == TokenV::Space ==> r@ == lex_step(
                old(self).lexer.chars@,
                lex_v(old(self).lexer),
            ).tok,
            old(self).lexer.current_token@ != TokenV::Space ==> r@ == old(self).lexer.current_token@,
    {
        if self.current_token_is(Token::Space) {
            self.peek_next_token()
        } else {
            self.current_token().copy()
        }
    }

    /// Get the lexer position
    pub fn current_position(&self) -> (r: Cursor)
        ensures
            r == self.lexer.cur,
    {
        self.lexer.cur
    }

    /// Rewind lexer position (backtrack)
    pub fn rewind_to(&mut self, cur: Cursor)
        requires
            old(self).ok(),
            cursor_ok(old(self).lexer.chars@, cur),
            lexes_from(old(self).lexer.chars@, cur.idx as int),
        ensures
            final(self).ok(),
            final(self).lv == old(self).lv,
            final(self).lexer.src == old(self).lexer.src,
            final(self).lexer.chars == old(self).lexer.chars,
            final(self).lexer.cur == cur,
            final(self).lexer.space_seen == (old(self).lexer.current_token@ == TokenV::Space),
            final(self).lexer.current_token@ == spec_read(
                old(self).lexer.chars@,
                cur.idx as int,
                old(self).lexer.state,
                old(self).lexer.current_token@ == TokenV::Space,
            ).0,
            final(self).lexer.state == state_after(
                old(self).lexer.state,
                spec_read(
                    old(self).lexer.chars@,
                    cur.idx as int,
                    old(self).lexer.state,
                    old(self).lexer.current_token@ == TokenV::Space,
                ).1,
            ),
    {
        let ghost src = self.lexer.chars@;
        self.lexer.set_position(cur);
        proof {
            if self.lexer.current_token@ != TokenV::Eof {
                lemma_read_within(
                    src,
                    cur.idx as int,
                    old(self).lexer.state,
                    old(self).lexer.current_token@ == TokenV::Space,
                );
            }
        }
    }

    /// Set the state of the lexer, which decides how the next tokens are read
    pub fn set_lexer_state(&mut self, state: LexerState)
        requires
            old(self).ok(),
        ensures
            old(self).moved_to(*final(self), LexV { state, ..lex_v(old(self).lexer) }),
    {
        self.lexer.set_state(state);
    }
}

} // verus!
