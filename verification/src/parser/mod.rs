//! Parser
pub mod base;
pub mod definition_parser;
pub mod expression_parser;
pub mod lexer;
pub mod token;

use vstd::prelude::*;
use crate::error::{Error, ErrorDetails, error_of};
use crate::parser::lexer::{Cursor, Lexer, LexerState, byte_len, scan_end, spec_read, state_after};
use crate::parser::token::{Token, TokenV, token_debug, token_debug_text};
use crate::strs::{concat, to_owned};

verus! {

/// A parser of Shiika source code, reading the tokens of its lexer
pub struct Parser<'a> {
    pub lexer: Lexer<'a>,
    /// For debug print
    pub lv: usize,
}

/// The text of the error for a token where the input should end
pub open spec fn unexpected_token_text(token: TokenV) -> Seq<char> {
    "unexpected token: "@ + token_debug_text(token)
}

/// The error message for a token where the input should end
pub(crate) fn unexpected_token_message(token: &Token) -> (r: String)
    ensures
        r@ == unexpected_token_text(token@),
{
    concat("unexpected token: ", token_debug(token).as_str())
}

impl<'a> Parser<'a> {
    /// A parser at the beginning of `src`, with its first token read
    pub fn new(src: &'a str) -> (r: Parser<'a>)
        requires
            src@.len() < usize::MAX,
            byte_len(src@) < usize::MAX,
            scan_end(src@, 0) is Some,
        ensures
            r.lv == 0,
            r.lexer.wf(),
            base::lexes_from(src@, 0) ==> r.ok(),
            r.lexer.src == src,
            r.lexer.cur == (Cursor { line: 0, col: 0, pos: 0, idx: 0 }),
            r.lexer.current_token@ == spec_read(src@, 0, LexerState::ExprBegin, false).0,
            r.lexer.state == state_after(LexerState::ExprBegin, spec_read(src@, 0, LexerState::ExprBegin, false).1),
    {
        Parser { lexer: Lexer::new(src), lv: 0 }
    }

    /// An error of parsing at the current position
    pub fn parseerror(&self, msg: &str) -> (r: Error)
        ensures
            error_of(r, msg@, ErrorDetails::ParseError { location: self.lexer.cur }),
    {
        Error { msg: to_owned(msg), details: ErrorDetails::ParseError { location: self.lexer.cur } }
    }

    /// Succeeds at the end of the input; any other token is an error
    pub fn expect_eof(&self) -> (r: Result<(), Error>)
        ensures
            self.lexer.current_token@ == TokenV::Eof ==> r is Ok,
            self.lexer.current_token@ != TokenV::Eof ==> (r matches Err(e) && error_of(
                e,
                unexpected_token_text(self.lexer.current_token@),
                ErrorDetails::ParseError { location: self.lexer.cur },
            )),
    {
        match &self.lexer.current_token {
            Token::Eof => Ok(()),
            token => {
                let msg = unexpected_token_message(token);
                Err(self.parseerror(msg.as_str()))
            },
        }
    }
}

} // verus!
