//! Tokens produced by the lexer.
use vstd::prelude::*;
use crate::strs::to_owned;

verus! {

/// A token of Shiika source code
#[derive(Debug)]
pub enum Token {
    Bof,
    Eof,
    Space,
    /// Newline, `;` or comment
    Separator,
    UpperWord(String),
    LowerWord(String),
    Number(String),
    Str(String),
    // Symbols
    /// `(`
    LParen,
    /// `)`
    RParen,
    /// `[`
    LSqBracket,
    /// `]`
    RSqBracket,
    /// `{`
    LBrace,
    /// `}`
    RBrace,
    /// `+a`
    UnaryPlus,
    /// `a + b`
    BinaryPlus,
    /// `->`
    RightArrow,
    /// `-a`
    UnaryMinus,
    /// `a - b`
    BinaryMinus,
    /// `*`
    Mul,
    /// `/`
    Div,
    /// `%`
    Mod,
    /// `==`
    EqEq,
    /// `!=`
    NotEq,
    /// `<`
    LessThan,
    /// `>`
    GraterThan,
    /// `<=`
    LessEq,
    /// `>=`
    GraterEq,
    /// `<<`
    LShift,
    /// `>>`
    RShift,
    /// `=`
    Equal,
    /// `!`
    Bang,
    /// `.`
    Dot,
    /// `@`
    At,
    /// `~`
    Tilde,
    /// `?`
    Question,
    /// `,`
    Comma,
    /// `:`
    Colon,
    /// `::`
    ColonColon,
    /// `&`
    And,
    /// `&&`
    AndAnd,
    /// `|`
    Or,
    /// `||`
    OrOr,
    /// `^`
    Xor,
    // Keywords
    KwClass,
    KwEnd,
    KwDef,
    KwVar,
    KwAnd,
    KwOr,
    KwNot,
    KwIf,
    KwUnless,
    KwWhile,
    KwBreak,
    KwThen,
    KwElse,
    KwSelf,
    KwTrue,
    KwFalse,
}

/// The abstract value of a token: its text is a sequence of characters
pub enum TokenV {
    Bof,
    Eof,
    Space,
    Separator,
    UpperWord(Seq<char>),
    LowerWord(Seq<char>),
    Number(Seq<char>),
    Str(Seq<char>),
    LParen,
    RParen,
    LSqBracket,
    RSqBracket,
    LBrace,
    RBrace,
    UnaryPlus,
    BinaryPlus,
    RightArrow,
    UnaryMinus,
    BinaryMinus,
    Mul,
    Div,
    Mod,
    EqEq,
    NotEq,
    LessThan,
    GraterThan,
    LessEq,
    GraterEq,
    LShift,
    RShift,
    Equal,
    Bang,
    Dot,
    At,
    Tilde,
    Question,
    Comma,
    Colon,
    ColonColon,
    And,
    AndAnd,
    Or,
    OrOr,
    Xor,
    KwClass,
    KwEnd,
    KwDef,
    KwVar,
    KwAnd,
    KwOr,
    KwNot,
    KwIf,
    KwUnless,
    KwWhile,
    KwBreak,
    KwThen,
    KwElse,
    KwSelf,
    KwTrue,
    KwFalse,
}

impl View for Token {
    type V = TokenV;

    open spec fn view(&self) -> TokenV {
        match self {
            Token::Bof => TokenV::Bof,
            Token::Eof => TokenV::Eof,
            Token::Space => TokenV::Space,
            Token::Separator => TokenV::Separator,
            Token::UpperWord(x) => TokenV::UpperWord(x@),
            Token::LowerWord(x) => TokenV::LowerWord(x@),
            Token::Number(x) => TokenV::Number(x@),
            Token::Str(x) => TokenV::Str(x@),
            Token::LParen => TokenV::LParen,
            Token::RParen => TokenV::RParen,
            Token::LSqBracket => TokenV::LSqBracket,
            Token::RSqBracket => TokenV::RSqBracket,
            Token::LBrace => TokenV::LBrace,
            Token::RBrace => TokenV::RBrace,
            Token::UnaryPlus => TokenV::UnaryPlus,
            Token::BinaryPlus => TokenV::BinaryPlus,
            Token::RightArrow => TokenV::RightArrow,
            Token::UnaryMinus => TokenV::UnaryMinus,
            Token::BinaryMinus => TokenV::BinaryMinus,
            Token::Mul => TokenV::Mul,
            Token::Div => TokenV::Div,
            Token::Mod => TokenV::Mod,
            Token::EqEq => TokenV::EqEq,
            Token::NotEq => TokenV::NotEq,
            Token::LessThan => TokenV::LessThan,
            Token::GraterThan => TokenV::GraterThan,
            Token::LessEq => TokenV::LessEq,
            Token::GraterEq => TokenV::GraterEq,
            Token::LShift => TokenV::LShift,
            Token::RShift => TokenV::RShift,
            Token::Equal => TokenV::Equal,
            Token::Bang => TokenV::Bang,
            Token::Dot => TokenV::Dot,
            Token::At => TokenV::At,
            Token::Tilde => TokenV::Tilde,
            Token::Question => TokenV::Question,
            Token::Comma => TokenV::Comma,
            Token::Colon => TokenV::Colon,
            Token::ColonColon => TokenV::ColonColon,
            Token::And => TokenV::And,
            Token::AndAnd => TokenV::AndAnd,
            Token::Or => TokenV::Or,
            Token::OrOr => TokenV::OrOr,
            Token::Xor => TokenV::Xor,
            Token::KwClass => TokenV::KwClass,
            Token::KwEnd => TokenV::KwEnd,
            Token::KwDef => TokenV::KwDef,
            Token::KwVar => TokenV::KwVar,
            Token::KwAnd => TokenV::KwAnd,
            Token::KwOr => TokenV::KwOr,
            Token::KwNot => TokenV::KwNot,
            Token::KwIf => TokenV::KwIf,
            Token::KwUnless => TokenV::KwUnless,
            Token::KwWhile => TokenV::KwWhile,
            Token::KwBreak => TokenV::KwBreak,
            Token::KwThen => TokenV::KwThen,
            Token::KwElse => TokenV::KwElse,
            Token::KwSelf => TokenV::KwSelf,
            Token::KwTrue => TokenV::KwTrue,
            Token::KwFalse => TokenV::KwFalse,
        }
    }
}

/// Whether a value may start with this (abstract) token; not defined on `Space`
pub open spec fn spec_value_starts(t: TokenV) -> bool {
    match t {
        TokenV::Bof => false,
        TokenV::Eof => false,
        TokenV::Separator => false,
        TokenV::UpperWord(_) => true,
        TokenV::LowerWord(_) => true,
        TokenV::Number(_) => true,
        TokenV::Str(_) => true,
        TokenV::LParen => true,
        TokenV::RParen => false,
        TokenV::LSqBracket => false,
        TokenV::RSqBracket => false,
        TokenV::LBrace => false,
        TokenV::RBrace => false,
        TokenV::UnaryPlus => true,
        TokenV::BinaryPlus => false,
        TokenV::RightArrow => false,
        TokenV::UnaryMinus => true,
        TokenV::BinaryMinus => false,
        TokenV::Mul => true,
        TokenV::Div => true,
        TokenV::Mod => false,
        TokenV::EqEq => false,
        TokenV::NotEq => false,
        TokenV::LessThan => false,
        TokenV::GraterThan => false,
        TokenV::LessEq => false,
        TokenV::GraterEq => false,
        TokenV::LShift => false,
        TokenV::RShift => false,
        TokenV::Equal => false,
        TokenV::Bang => true,
        TokenV::Dot => false,
        TokenV::At => true,
        TokenV::Tilde => true,
        TokenV::Question => false,
        TokenV::Comma => false,
        TokenV::Colon => true,
        TokenV::ColonColon => true,
        TokenV::And => true,
        TokenV::AndAnd => false,
        TokenV::Or => false,
        TokenV::OrOr => false,
        TokenV::Xor => false,
        TokenV::KwClass => false,
        TokenV::KwEnd => false,
        TokenV::KwDef => false,
        TokenV::KwVar => false,
        TokenV::KwAnd => false,
        TokenV::KwOr => false,
        TokenV::KwNot => true,
        TokenV::KwIf => true,
        TokenV::KwUnless => true,
        TokenV::KwWhile => true,
        TokenV::KwBreak => true,
        TokenV::KwThen => false,
        TokenV::KwElse => false,
        TokenV::KwSelf => true,
        TokenV::KwTrue => true,
        TokenV::KwFalse => true,
        TokenV::Space => false,
    }
}

impl PartialEq for Token {
    fn eq(&self, other: &Self) -> (r: bool) {
        match (self, other) {
            (Token::Bof, Token::Bof) => true,
            (Token::Eof, Token::Eof) => true,
            (Token::Space, Token::Space) => true,
            (Token::Separator, Token::Separator) => true,
            (Token::UpperWord(a), Token::UpperWord(b)) => *a == *b,
            (Token::LowerWord(a), Token::LowerWord(b)) => *a == *b,
            (Token::Number(a), Token::Number(b)) => *a == *b,
            (Token::Str(a), Token::Str(b)) => *a == *b,
            (Token::LParen, Token::LParen) => true,
            (Token::RParen, Token::RParen) => true,
            (Token::LSqBracket, Token::LSqBracket) => true,
            (Token::RSqBracket, Token::RSqBracket) => true,
            (Token::LBrace, Token::LBrace) => true,
            (Token::RBrace, Token::RBrace) => true,
            (Token::UnaryPlus, Token::UnaryPlus) => true,
            (Token::BinaryPlus, Token::BinaryPlus) => true,
            (Token::RightArrow, Token::RightArrow) => true,
            (Token::UnaryMinus, Token::UnaryMinus) => true,
            (Token::BinaryMinus, Token::BinaryMinus) => true,
            (Token::Mul, Token::Mul) => true,
            (Token::Div, Token::Div) => true,
            (Token::Mod, Token::Mod) => true,
            (Token::EqEq, Token::EqEq) => true,
            (Token::NotEq, Token::NotEq) => true,
            (Token::LessThan, Token::LessThan) => true,
            (Token::GraterThan, Token::GraterThan) => true,
            (Token::LessEq, Token::LessEq) => true,
            (Token::GraterEq, Token::GraterEq) => true,
            (Token::LShift, Token::LShift) => true,
            (Token::RShift, Token::RShift) => true,
            (Token::Equal, Token::Equal) => true,
            (Token::Bang, Token::Bang) => true,
            (Token::Dot, Token::Dot) => true,
            (Token::At, Token::At) => true,
            (Token::Tilde, Token::Tilde) => true,
            (Token::Question, Token::Question) => true,
            (Token::Comma, Token::Comma) => true,
            (Token::Colon, Token::Colon) => true,
            (Token::ColonColon, Token::ColonColon) => true,
            (Token::And, Token::And) => true,
            (Token::AndAnd, Token::AndAnd) => true,
            (Token::Or, Token::Or) => true,
            (Token::OrOr, Token::OrOr) => true,
            (Token::Xor, Token::Xor) => true,
            (Token::KwClass, Token::KwClass) => true,
            (Token::KwEnd, Token::KwEnd) => true,
            (Token::KwDef, Token::KwDef) => true,
            (Token::KwVar, Token::KwVar) => true,
            (Token::KwAnd, Token::KwAnd) => true,
            (Token::KwOr, Token::KwOr) => true,
            (Token::KwNot, Token::KwNot) => true,
            (Token::KwIf, Token::KwIf) => true,
            (Token::KwUnless, Token::KwUnless) => true,
            (Token::KwWhile, Token::KwWhile) => true,
            (Token::KwBreak, Token::KwBreak) => true,
            (Token::KwThen, Token::KwThen) => true,
            (Token::KwElse, Token::KwElse) => true,
            (Token::KwSelf, Token::KwSelf) => true,
            (Token::KwTrue, Token::KwTrue) => true,
            (Token::KwFalse, Token::KwFalse) => true,
            _ => false,
        }
    }
}

impl vstd::std_specs::cmp::PartialEqSpecImpl for Token {
    open spec fn obeys_eq_spec() -> bool {
        true
    }

    open spec fn eq_spec(&self, other: &Self) -> bool {
        self@ == other@
    }
}

impl Token {
    pub fn upper_word(s: &str) -> (r: Token)
        ensures
            r@ == TokenV::UpperWord(s@),
    {
        Token::UpperWord(to_owned(s))
    }

    pub fn lower_word(s: &str) -> (r: Token)
        ensures
            r@ == TokenV::LowerWord(s@),
    {
        Token::LowerWord(to_owned(s))
    }

    pub fn number(s: &str) -> (r: Token)
        ensures
            r@ == TokenV::Number(s@),
    {
        Token::Number(to_owned(s))
    }

    /// Whether this is `Token::Space`
    pub fn is_space(&self) -> (r: bool)
        ensures
            r == (self@ == TokenV::Space),
    {
        match self {
            Token::Space => true,
            _ => false,
        }
    }

    /// A copy of this token
    pub fn copy(&self) -> (r: Token)
        ensures
            r@ == self@,
    {
        match self {
            Token::Bof => Token::Bof,
            Token::Eof => Token::Eof,
            Token::Space => Token::Space,
            Token::Separator => Token::Separator,
            Token::UpperWord(x) => Token::UpperWord(crate::strs::copy_string(x)),
            Token::LowerWord(x) => Token::LowerWord(crate::strs::copy_string(x)),
            Token::Number(x) => Token::Number(crate::strs::copy_string(x)),
            Token::Str(x) => Token::Str(crate::strs::copy_string(x)),
            Token::LParen => Token::LParen,
            Token::RParen => Token::RParen,
            Token::LSqBracket => Token::LSqBracket,
            Token::RSqBracket => Token::RSqBracket,
            Token::LBrace => Token::LBrace,
            Token::RBrace => Token::RBrace,
            Token::UnaryPlus => Token::UnaryPlus,
            Token::BinaryPlus => Token::BinaryPlus,
            Token::RightArrow => Token::RightArrow,
            Token::UnaryMinus => Token::UnaryMinus,
            Token::BinaryMinus => Token::BinaryMinus,
            Token::Mul => Token::Mul,
            Token::Div => Token::Div,
            Token::Mod => Token::Mod,
            Token::EqEq => Token::EqEq,
            Token::NotEq => Token::NotEq,
            Token::LessThan => Token::LessThan,
            Token::GraterThan => Token::GraterThan,
            Token::LessEq => Token::LessEq,
            Token::GraterEq => Token::GraterEq,
            Token::LShift => Token::LShift,
            Token::RShift => Token::RShift,
            Token::Equal => Token::Equal,
            Token::Bang => Token::Bang,
            Token::Dot => Token::Dot,
            Token::At => Token::At,
            Token::Tilde => Token::Tilde,
            Token::Question => Token::Question,
            Token::Comma => Token::Comma,
            Token::Colon => Token::Colon,
            Token::ColonColon => Token::ColonColon,
            Token::And => Token::And,
            Token::AndAnd => Token::AndAnd,
            Token::Or => Token::Or,
            Token::OrOr => Token::OrOr,
            Token::Xor => Token::Xor,
            Token::KwClass => Token::KwClass,
            Token::KwEnd => Token::KwEnd,
            Token::KwDef => Token::KwDef,
            Token::KwVar => Token::KwVar,
            Token::KwAnd => Token::KwAnd,
            Token::KwOr => Token::KwOr,
            Token::KwNot => Token::KwNot,
            Token::KwIf => Token::KwIf,
            Token::KwUnless => Token::KwUnless,
            Token::KwWhile => Token::KwWhile,
            Token::KwBreak => Token::KwBreak,
            Token::KwThen => Token::KwThen,
            Token::KwElse => Token::KwElse,
            Token::KwSelf => Token::KwSelf,
            Token::KwTrue => Token::KwTrue,
            Token::KwFalse => Token::KwFalse,
        }
    }

    /// Return true if a value may start with this token
    ///
    /// Must not be called on `Token::Space`
    pub fn value_starts(&self) -> (r: bool)
        requires
            self@ != TokenV::Space,
        ensures
            r == spec_value_starts(self@),
    {
        match self {
            Token::Bof => false,
            Token::Eof => false,
            Token::Separator => false,
            Token::UpperWord(_) => true,
            Token::LowerWord(_) => true,
            Token::Number(_) => true,
            Token::Str(_) => true,
            Token::LParen => true,
            Token::RParen => false,
            Token::LSqBracket => false,
            Token::RSqBracket => false,
            Token::LBrace => false,
            Token::RBrace => false,
            Token::UnaryPlus => true,
            Token::BinaryPlus => false,
            Token::RightArrow => false,
            Token::UnaryMinus => true,
            Token::BinaryMinus => false,
            Token::Mul => true,
            Token::Div => true,
            Token::Mod => false,
            Token::EqEq => false,
            Token::NotEq => false,
            Token::LessThan => false,
            Token::GraterThan => false,
            Token::LessEq => false,
            Token::GraterEq => false,
            Token::LShift => false,
            Token::RShift => false,
            Token::Equal => false,
            Token::Bang => true,
            Token::Dot => false,
            Token::At => true,
            Token::Tilde => true,
            Token::Question => false,
            Token::Comma => false,
            Token::Colon => true,
            Token::ColonColon => true,
            Token::And => true,
            Token::AndAnd => false,
            Token::Or => false,
            Token::OrOr => false,
            Token::Xor => false,
            Token::KwClass => false,
            Token::KwEnd => false,
            Token::KwDef => false,
            Token::KwVar => false,
            Token::KwAnd => false,
            Token::KwOr => false,
            Token::KwNot => true,
            Token::KwIf => true,
            Token::KwUnless => true,
            Token::KwWhile => true,
            Token::KwBreak => true,
            Token::KwThen => false,
            Token::KwElse => false,
            Token::KwSelf => true,
            Token::KwTrue => true,
            Token::KwFalse => true,
            Token::Space => false,
        }
    }
}

/// The `Debug` form of a token
pub uninterp spec fn token_debug_text(token: TokenV) -> Seq<char>;

/// `format!("{:?}", token)`: the derived `Debug` form of a token, a function of the token
#[verifier::external_body]
pub(crate) fn token_debug(token: &Token) -> (r: String)
    ensures
        r@ == token_debug_text(token@),
{
    format!("{:?}", token)
}

} // verus!
