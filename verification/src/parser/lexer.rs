//! The lexer: splits Shiika source code into tokens, one at a time.
use vstd::prelude::*;
use crate::parser::token::{Token, TokenV, token_debug, token_debug_text};
use crate::strs::{concat, str_eq, to_owned};

verus! {

/// Flags to decide a `-`, `+`, etc. is unary or binary.
///
/// - `p(-x)`  # unary minus             ExprBegin
/// - `p(- x)` # unary minus             ExprBegin
/// - `p( - x)`# unary minus             ExprBegin
/// - `p- x`   # binary minus (unusual)  ExprEnd
/// - `p-x`    # binary minus            ExprEnd
/// - `p - x`  # binary minus            ExprArg
/// - `p -x`   # unary minus             ExprArg
/// - `1 -2`   # binary minus (unusual)  ExprArg
#[derive(Debug, Clone, Copy, PartialEq, Eq, Structural)]
pub enum LexerState {
    /// A new expression begins here
    /// `+`/`-` is always unary
    ExprBegin,
    /// End of an expression
    /// `+`/`-` is always binary
    ExprEnd,
    /// Beginning of a (possible) first paren-less arg of a method call.
    /// `+`/`-` is unary, if with space before it and no space after it (`p -x`)
    ExprArg,
}

/// A position in the source code
#[derive(Debug, Clone, Copy, PartialEq, Eq, Structural)]
pub struct Cursor {
    pub line: usize,
    pub col: usize,
    /// Number of bytes from the beginning of the file
    pub pos: usize,
    /// Number of characters from the beginning of the file
    pub idx: usize,
}

/// The kind of a character, which decides the kind of the token that starts with it
#[derive(Debug, Clone, Copy, PartialEq, Eq, Structural)]
pub enum CharType {
    Space,
    /// Newline or ';'
    Separator,
    /// From '#' to the next newline
    Comment,
    /// identifier which starts with upper-case letter
    UpperWord,
    /// Keyword or identifier which starts with lower-case letter
    LowerWord,
    /// '+', '(', etc.
    Symbol,
    /// '0'~'9'
    Number,
    /// '"'
    Str,
    Eof,
}

/// A lexer over `src`. `chars` holds the characters of `src`; positions are character indices.
pub struct Lexer<'a> {
    pub src: &'a str,
    pub chars: Vec<char>,
    pub cur: Cursor,
    pub state: LexerState,
    /// true if the last token is a space
    pub space_seen: bool,
    pub current_token: Token,
    pub next_cur: Option<Cursor>,
}

// ------------------------------------------------------------------ specification

pub open spec fn is_symbol_char(c: char) -> bool {
    c == '(' || c == ')' || c == '[' || c == ']' || c == '<' || c == '>' || c == '{' || c == '}'
        || c == '+' || c == '-' || c == '*' || c == '/' || c == '%' || c == '=' || c == '!' || c
        == '.' || c == '@' || c == '~' || c == '?' || c == ',' || c == ':' || c == '|' || c == '&'
}

pub open spec fn spec_char_type(cc: Option<char>) -> CharType {
    match cc {
        None => CharType::Eof,
        Some(c) => if c == ' ' || c == '\t' {
            CharType::Space
        } else if c == '\n' || c == ';' {
            CharType::Separator
        } else if c == '#' {
            CharType::Comment
        } else if c == '"' {
            CharType::Str
        } else if '0' <= c <= '9' {
            CharType::Number
        } else if is_symbol_char(c) {
            CharType::Symbol
        } else if 'A' <= c <= 'Z' {
            CharType::UpperWord
        } else {
            CharType::LowerWord
        },
    }
}

/// The character at `pos`, if any
pub open spec fn char_at(src: Seq<char>, pos: int) -> Option<char> {
    if 0 <= pos < src.len() {
        Some(src[pos])
    } else {
        None
    }
}

pub open spec fn ctype_at(src: Seq<char>, pos: int) -> CharType {
    spec_char_type(char_at(src, pos))
}

/// End of the run of spaces starting at `pos`
pub open spec fn space_end(src: Seq<char>, pos: int) -> int
    decreases src.len() - pos,
{
    if 0 <= pos < src.len() && ctype_at(src, pos) == CharType::Space {
        space_end(src, pos + 1)
    } else {
        pos
    }
}

/// End of the run of spaces and separators starting at `pos`
pub open spec fn separator_end(src: Seq<char>, pos: int) -> int
    decreases src.len() - pos,
{
    if 0 <= pos < src.len() && (ctype_at(src, pos) == CharType::Space || ctype_at(src, pos)
        == CharType::Separator) {
        separator_end(src, pos + 1)
    } else {
        pos
    }
}

pub open spec fn is_word_char_type(t: CharType) -> bool {
    t == CharType::UpperWord || t == CharType::LowerWord || t == CharType::Number
}

/// End of the identifier starting at `pos`
pub open spec fn word_end(src: Seq<char>, pos: int) -> int
    decreases src.len() - pos,
{
    if 0 <= pos < src.len() && is_word_char_type(ctype_at(src, pos)) {
        word_end(src, pos + 1)
    } else {
        pos
    }
}

/// The position just after the first newline at or after `pos`; None if there is none
pub open spec fn line_end(src: Seq<char>, pos: int) -> Option<int>
    decreases src.len() - pos,
{
    if pos < 0 || pos >= src.len() {
        None
    } else if src[pos] == '\n' {
        Some(pos + 1)
    } else {
        line_end(src, pos + 1)
    }
}

/// The position just after the first `"` at or after `pos`; None if there is none
pub open spec fn quote_end(src: Seq<char>, pos: int) -> Option<int>
    decreases src.len() - pos,
{
    if pos < 0 || pos >= src.len() {
        None
    } else if src[pos] == '"' {
        Some(pos + 1)
    } else {
        quote_end(src, pos + 1)
    }
}

/// End of the number starting at `pos` (digits, and a `.` followed by a digit);
/// None if a letter follows the digits
pub open spec fn number_end(src: Seq<char>, pos: int) -> Option<int>
    decreases src.len() - pos,
{
    if pos < 0 || pos >= src.len() {
        Some(pos)
    } else if ctype_at(src, pos) == CharType::Number {
        number_end(src, pos + 1)
    } else if ctype_at(src, pos) == CharType::UpperWord || ctype_at(src, pos)
        == CharType::LowerWord {
        None
    } else if src[pos] == '.' && ctype_at(src, pos + 1) == CharType::Number {
        number_end(src, pos + 2)
    } else {
        Some(pos)
    }
}

/// Whether the symbol at `pos` is made of two characters (`->`, `==`, `::`, etc.)
pub open spec fn is_two_char_symbol(src: Seq<char>, pos: int) -> bool {
    let c1 = src[pos];
    let c2 = char_at(src, pos + 1);
    (c1 == '-' && c2 == Some('>')) || (c1 == '=' && c2 == Some('=')) || (c1 == '!' && c2 == Some(
        '=',
    )) || (c1 == '<' && (c2 == Some('=') || c2 == Some('<'))) || (c1 == '>' && (c2 == Some('=')
        || c2 == Some('>'))) || (c1 == ':' && c2 == Some(':')) || (c1 == '&' && c2 == Some('&'))
        || (c1 == '|' && c2 == Some('|'))
}

/// End of the token starting at `pos`; None where reading it fails (a comment without a
/// newline after it, a letter right after a number, an unterminated string)
pub open spec fn scan_end(src: Seq<char>, pos: int) -> Option<int> {
    match ctype_at(src, pos) {
        CharType::Space => Some(space_end(src, pos)),
        CharType::Separator => Some(separator_end(src, pos)),
        CharType::Comment => line_end(src, pos + 1),
        CharType::UpperWord => Some(word_end(src, pos)),
        CharType::LowerWord => Some(word_end(src, pos)),
        CharType::Symbol => Some(
            if is_two_char_symbol(src, pos) {
                pos + 2
            } else {
                pos + 1
            },
        ),
        CharType::Number => number_end(src, pos),
        CharType::Str => quote_end(src, pos + 1),
        CharType::Eof => Some(pos),
    }
}

/// Whether a `+`/`-` is unary, from the lexer state, whether the previous token is a space,
/// and the character after the sign
pub open spec fn spec_is_unary(state: LexerState, prev_space: bool, c2: Option<char>) -> bool {
    match state {
        LexerState::ExprBegin => true,
        LexerState::ExprEnd => false,
        LexerState::ExprArg => prev_space && c2 != Some(' '),
    }
}

/// The token and the new state for a symbol at `pos`
pub open spec fn spec_symbol(src: Seq<char>, pos: int, state: LexerState, prev_space: bool) -> (
    TokenV,
    LexerState,
) {
    let c1 = src[pos];
    let c2 = char_at(src, pos + 1);
    let b = LexerState::ExprBegin;
    if c1 == '(' {
        (TokenV::LParen, b)
    } else if c1 == ')' {
        (TokenV::RParen, LexerState::ExprEnd)
    } else if c1 == '[' {
        (TokenV::LSqBracket, b)
    } else if c1 == ']' {
        (TokenV::RSqBracket, LexerState::ExprEnd)
    } else if c1 == '{' {
        (TokenV::LBrace, b)
    } else if c1 == '}' {
        (TokenV::RBrace, LexerState::ExprEnd)
    } else if c1 == '+' {
        (
            if spec_is_unary(state, prev_space, c2) {
                TokenV::UnaryPlus
            } else {
                TokenV::BinaryPlus
            },
            b,
        )
    } else if c1 == '-' {
        (
            if c2 == Some('>') {
                TokenV::RightArrow
            } else if spec_is_unary(state, prev_space, c2) {
                TokenV::UnaryMinus
            } else {
                TokenV::BinaryMinus
            },
            b,
        )
    } else if c1 == '*' {
        (TokenV::Mul, b)
    } else if c1 == '/' {
        (TokenV::Div, b)
    } else if c1 == '%' {
        (TokenV::Mod, b)
    } else if c1 == '=' {
        (
            if c2 == Some('=') {
                TokenV::EqEq
            } else {
                TokenV::Equal
            },
            b,
        )
    } else if c1 == '!' {
        (
            if c2 == Some('=') {
                TokenV::NotEq
            } else {
                TokenV::Bang
            },
            b,
        )
    } else if c1 == '<' {
        (
            if c2 == Some('=') {
                TokenV::LessEq
            } else if c2 == Some('<') {
                TokenV::LShift
            } else {
                TokenV::LessThan
            },
            b,
        )
    } else if c1 == '>' {
        (
            if c2 == Some('=') {
                TokenV::GraterEq
            } else if c2 == Some('>') {
                TokenV::RShift
            } else {
                TokenV::GraterThan
            },
            b,
        )
    } else if c1 == '.' {
        (TokenV::Dot, b)
    } else if c1 == '@' {
        (TokenV::At, b)
    } else if c1 == '~' {
        (TokenV::Tilde, b)
    } else if c1 == '?' {
        (TokenV::Question, b)
    } else if c1 == ',' {
        (TokenV::Comma, b)
    } else if c1 == ':' {
        (
            if c2 == Some(':') {
                TokenV::ColonColon
            } else {
                TokenV::Colon
            },
            b,
        )
    } else if c1 == '&' {
        (
            if c2 == Some('&') {
                TokenV::AndAnd
            } else {
                TokenV::And
            },
            b,
        )
    } else {
        // '|'
        (
            if c2 == Some('|') {
                TokenV::OrOr
            } else {
                TokenV::Or
            },
            b,
        )
    }
}

/// The token and the new state for a word that starts with a lower-case letter
pub open spec fn spec_lower_word(s: Seq<char>) -> (TokenV, LexerState) {
    let b = LexerState::ExprBegin;
    let e = LexerState::ExprEnd;
    if s == "class"@ {
        (TokenV::KwClass, b)
    } else if s == "end"@ {
        (TokenV::KwEnd, e)
    } else if s == "def"@ {
        (TokenV::KwDef, b)
    } else if s == "var"@ {
        (TokenV::KwVar, b)
    } else if s == "and"@ {
        (TokenV::KwAnd, b)
    } else if s == "or"@ {
        (TokenV::KwOr, b)
    } else if s == "not"@ {
        (TokenV::KwNot, b)
    } else if s == "if"@ {
        (TokenV::KwIf, b)
    } else if s == "unless"@ {
        (TokenV::KwUnless, b)
    } else if s == "while"@ {
        (TokenV::KwWhile, b)
    } else if s == "break"@ {
        (TokenV::KwBreak, e)
    } else if s == "then"@ {
        (TokenV::KwThen, b)
    } else if s == "else"@ {
        (TokenV::KwElse, b)
    } else if s == "self"@ {
        (TokenV::KwSelf, e)
    } else if s == "true"@ {
        (TokenV::KwTrue, e)
    } else if s == "false"@ {
        (TokenV::KwFalse, e)
    } else {
        (TokenV::LowerWord(s), e)
    }
}

/// The text that a symbol token is written as
pub open spec fn symbol_text(t: TokenV) -> Option<Seq<char>> {
    match t {
        TokenV::LParen => Some(seq!['(']),
        TokenV::RParen => Some(seq![')']),
        TokenV::LSqBracket => Some(seq!['[']),
        TokenV::RSqBracket => Some(seq![']']),
        TokenV::LBrace => Some(seq!['{']),
        TokenV::RBrace => Some(seq!['}']),
        TokenV::UnaryPlus => Some(seq!['+']),
        TokenV::BinaryPlus => Some(seq!['+']),
        TokenV::RightArrow => Some(seq!['-', '>']),
        TokenV::UnaryMinus => Some(seq!['-']),
        TokenV::BinaryMinus => Some(seq!['-']),
        TokenV::Mul => Some(seq!['*']),
        TokenV::Div => Some(seq!['/']),
        TokenV::Mod => Some(seq!['%']),
        TokenV::EqEq => Some(seq!['=', '=']),
        TokenV::NotEq => Some(seq!['!', '=']),
        TokenV::LessThan => Some(seq!['<']),
        TokenV::GraterThan => Some(seq!['>']),
        TokenV::LessEq => Some(seq!['<', '=']),
        TokenV::GraterEq => Some(seq!['>', '=']),
        TokenV::LShift => Some(seq!['<', '<']),
        TokenV::RShift => Some(seq!['>', '>']),
        TokenV::Equal => Some(seq!['=']),
        TokenV::Bang => Some(seq!['!']),
        TokenV::Dot => Some(seq!['.']),
        TokenV::At => Some(seq!['@']),
        TokenV::Tilde => Some(seq!['~']),
        TokenV::Question => Some(seq!['?']),
        TokenV::Comma => Some(seq![',']),
        TokenV::Colon => Some(seq![':']),
        TokenV::ColonColon => Some(seq![':', ':']),
        TokenV::And => Some(seq!['&']),
        TokenV::AndAnd => Some(seq!['&', '&']),
        TokenV::Or => Some(seq!['|']),
        TokenV::OrOr => Some(seq!['|', '|']),
        TokenV::Xor => Some(seq!['^']),
        _ => None,
    }
}

/// A symbol token is written as the characters it is read from: the token read at a symbol
/// character has the text of the source from there to the end of the token, so each operator
/// text (`>=`, `<=`, `->`, `==`, ..) is read as its own token.
pub proof fn law_symbol_token_text(src: Seq<char>, pos: int, state: LexerState, prev_space: bool)
    requires
        0 <= pos < src.len(),
        ctype_at(src, pos) == CharType::Symbol,
    ensures
        spec_read(src, pos, state, prev_space).0 == spec_symbol(src, pos, state, prev_space).0,
        symbol_text(spec_symbol(src, pos, state, prev_space).0) == Some(
            src.subrange(pos, scan_end(src, pos).unwrap()),
        ),
{
    let e = scan_end(src, pos).unwrap();
    let t = spec_symbol(src, pos, state, prev_space).0;
    if is_two_char_symbol(src, pos) {
        assert(e == pos + 2);
        assert(src.subrange(pos, e) =~= seq![src[pos], src[pos + 1]]);
    } else {
        assert(e == pos + 1);
        assert(src.subrange(pos, e) =~= seq![src[pos]]);
    }
}

/// The token read at `pos` and the state it sets (None: the state is kept), given the
/// lexer state and whether the previous token is a space
pub open spec fn spec_read(src: Seq<char>, pos: int, state: LexerState, prev_space: bool) -> (
    TokenV,
    Option<LexerState>,
) {
    let e = scan_end(src, pos).unwrap();
    match ctype_at(src, pos) {
        CharType::Space => (TokenV::Space, None),
        CharType::Separator => (TokenV::Separator, None),
        CharType::Comment => (TokenV::Separator, None),
        CharType::UpperWord => (TokenV::UpperWord(src.subrange(pos, e)), Some(LexerState::ExprEnd)),
        CharType::LowerWord => {
            let (t, s) = spec_lower_word(src.subrange(pos, e));
            (t, Some(s))
        },
        CharType::Symbol => {
            let (t, s) = spec_symbol(src, pos, state, prev_space);
            (t, Some(s))
        },
        CharType::Number => (TokenV::Number(src.subrange(pos, e)), Some(LexerState::ExprEnd)),
        CharType::Str => (TokenV::Str(src.subrange(pos + 1, e - 1)), None),
        CharType::Eof => (TokenV::Eof, None),
    }
}

/// The state after reading a token that sets `new` (None keeps `old`)
pub open spec fn state_after(old: LexerState, new: Option<LexerState>) -> LexerState {
    match new {
        Some(s) => s,
        None => old,
    }
}

/// The cursor after consuming the character under `c`
pub open spec fn step(src: Seq<char>, c: Cursor) -> Cursor {
    if src[c.idx as int] == '\n' {
        Cursor {
            line: (c.line + 1) as usize,
            col: 0,
            pos: (c.pos + len_utf8(src[c.idx as int])) as usize,
            idx: (c.idx + 1) as usize,
        }
    } else {
        Cursor {
            line: c.line,
            col: (c.col + 1) as usize,
            pos: (c.pos + len_utf8(src[c.idx as int])) as usize,
            idx: (c.idx + 1) as usize,
        }
    }
}

/// The cursor after consuming the characters from `start.idx` up to `to`
pub open spec fn advance(src: Seq<char>, start: Cursor, to: int) -> Cursor
    decreases to - start.idx,
{
    if to <= start.idx {
        start
    } else {
        step(src, advance(src, start, to - 1))
    }
}

/// The number of bytes of the UTF-8 encoding of `c` (as `char::len_utf8`)
pub open spec fn len_utf8(c: char) -> nat {
    if c <= '\u{7f}' {
        1
    } else if c <= '\u{7ff}' {
        2
    } else if c <= '\u{ffff}' {
        3
    } else {
        4
    }
}

/// The number of bytes of the UTF-8 encoding of `s`
pub open spec fn byte_len(s: Seq<char>) -> nat
    decreases s.len(),
{
    if s.len() == 0 {
        0
    } else {
        byte_len(s.drop_last()) + len_utf8(s.last())
    }
}

/// The bytes before character `i + 1` are those before character `i` and those of that
/// character.
pub proof fn lemma_byte_len_take_step(s: Seq<char>, i: int)
    requires
        0 <= i < s.len(),
    ensures
        byte_len(s.take(i + 1)) == byte_len(s.take(i)) + len_utf8(s[i]),
{
    assert(s.take(i + 1).drop_last() =~= s.take(i));
}

/// A prefix has no more bytes than the whole.
pub proof fn lemma_byte_len_take_le(s: Seq<char>, i: int)
    requires
        0 <= i <= s.len(),
    ensures
        byte_len(s.take(i)) <= byte_len(s),
    decreases s.len() - i,
{
    if i < s.len() {
        lemma_byte_len_take_step(s, i);
        lemma_byte_len_take_le(s, i + 1);
    } else {
        assert(s.take(i) =~= s);
    }
}

/// A cursor within `src` whose line and column do not exceed its character index, and whose
/// position is the number of bytes before that character
pub open spec fn cursor_ok(src: Seq<char>, c: Cursor) -> bool {
    &&& c.idx <= src.len()
    &&& c.line <= c.idx
    &&& c.col <= c.idx
    &&& c.pos == byte_len(src.take(c.idx as int))
}

/// Consuming one more character extends an advance by one step.
pub proof fn lemma_advance_step(src: Seq<char>, start: Cursor, c: Cursor)
    requires
        start.idx <= c.idx,
        c == advance(src, start, c.idx as int),
    ensures
        step(src, c) == advance(src, start, c.idx + 1),
{
}

/// Advancing to the start position does not move.
pub proof fn lemma_advance_none(src: Seq<char>, start: Cursor)
    ensures
        advance(src, start, start.idx as int) == start,
{
}

// ------------------------------------------------------------------ cursors

impl Cursor {
    pub fn new() -> (r: Cursor)
        ensures
            r == (Cursor { line: 0, col: 0, pos: 0, idx: 0 }),
    {
        Cursor { line: 0, col: 0, pos: 0, idx: 0 }
    }

    /// Return the current char (None if eof)
    pub fn peek(&self, src: &str) -> (r: Option<char>)
        requires
            self.idx <= src@.len(),
        ensures
            r == char_at(src@, self.idx as int),
    {
        if self.idx < src.unicode_len() {
            Some(src.get_char(self.idx))
        } else {
            None
        }
    }

    /// Peek the second next character.
    /// Must not be called on EOF
    pub fn peek2(&self, src: &str) -> (r: Option<char>)
        requires
            self.idx < src@.len(),
        ensures
            r == char_at(src@, self.idx + 1),
    {
        let n = src.unicode_len();
        let pos = self.idx + 1;
        if pos < n {
            Some(src.get_char(pos))
        } else {
            None
        }
    }

    /// Consume the current char and return it
    pub fn proceed(&mut self, src: &str) -> (r: char)
        requires
            old(self).idx < src@.len(),
            cursor_ok(src@, *old(self)),
            byte_len(src@) < usize::MAX,
        ensures
            r == src@[old(self).idx as int],
            *final(self) == step(src@, *old(self)),
            final(self).pos == old(self).pos + len_utf8(r),
            cursor_ok(src@, *final(self)),
    {
        let _n = src.unicode_len();
        let c = src.get_char(self.idx);
        proof {
            lemma_byte_len_take_step(src@, self.idx as int);
            lemma_byte_len_take_le(src@, self.idx + 1);
        }
        if c == '\n' {
            self.line = self.line + 1;
            self.col = 0;
        } else {
            self.col = self.col + 1;
        }
        self.pos = self.pos + char_len_utf8(c);
        self.idx = self.idx + 1;
        c
    }
}

/// The number of bytes of the UTF-8 encoding of `c`
fn char_len_utf8(c: char) -> (r: usize)
    ensures
        r == len_utf8(c),
{
    if c <= '\u{7f}' {
        1
    } else if c <= '\u{7ff}' {
        2
    } else if c <= '\u{ffff}' {
        3
    } else {
        4
    }
}

/// The character at `pos` of `chars`, if any
fn char_at_vec(chars: &Vec<char>, pos: usize) -> (r: Option<char>)
    ensures
        r == char_at(chars@, pos as int),
{
    if pos < chars.len() {
        Some(chars[pos])
    } else {
        None
    }
}

/// Consume the character under `c`
fn proceed_vec(chars: &Vec<char>, c: &mut Cursor) -> (r: char)
    requires
        old(c).idx < chars@.len(),
        byte_len(chars@) < usize::MAX,
        cursor_ok(chars@, *old(c)),
    ensures
        r == chars@[old(c).idx as int],
        *final(c) == step(chars@, *old(c)),
        cursor_ok(chars@, *final(c)),
{
    let _n = chars.len();
    let ch = chars[c.idx];
    proof {
        lemma_byte_len_take_step(chars@, c.idx as int);
        lemma_byte_len_take_le(chars@, c.idx + 1);
    }
    if ch == '\n' {
        c.line = c.line + 1;
        c.col = 0;
    } else {
        c.col = c.col + 1;
    }
    c.pos = c.pos + char_len_utf8(ch);
    c.idx = c.idx + 1;
    ch
}

/// Consume the character under `c`, which `start` has been advanced to
fn proceed_from(chars: &Vec<char>, c: &mut Cursor, Ghost(start): Ghost<Cursor>) -> (r: char)
    requires
        chars@.len() < usize::MAX,
        byte_len(chars@) < usize::MAX,
        old(c).idx < chars@.len(),
        cursor_ok(chars@, *old(c)),
        start.idx <= old(c).idx,
        *old(c) == advance(chars@, start, old(c).idx as int),
    ensures
        r == chars@[old(c).idx as int],
        *final(c) == step(chars@, *old(c)),
        final(c).idx == old(c).idx + 1,
        cursor_ok(chars@, *final(c)),
        *final(c) == advance(chars@, start, final(c).idx as int),
{
    proof { lemma_advance_step(chars@, start, *c); }
    proceed_vec(chars, c)
}

fn char_type(cc: Option<char>) -> (r: CharType)
    ensures
        r == spec_char_type(cc),
{
    match cc {
        None => CharType::Eof,
        Some(c) => {
            if c == ' ' || c == '\t' {
                CharType::Space
            } else if c == '\n' || c == ';' {
                CharType::Separator
            } else if c == '#' {
                CharType::Comment
            } else if c == '"' {
                CharType::Str
            } else if '0' <= c && c <= '9' {
                CharType::Number
            } else if c == '(' || c == ')' || c == '[' || c == ']' || c == '<' || c == '>' || c
                == '{' || c == '}' || c == '+' || c == '-' || c == '*' || c == '/' || c == '%' || c
                == '=' || c == '!' || c == '.' || c == '@' || c == '~' || c == '?' || c == ','
                || c == ':' || c == '|' || c == '&' {
                CharType::Symbol
            } else if 'A' <= c && c <= 'Z' {
                CharType::UpperWord
            } else {
                CharType::LowerWord
            }
        },
    }
}

// ------------------------------------------------------------------ the lexer

impl<'a> Lexer<'a> {
    /// The lexer's characters are those of its source, and its cursors are valid
    pub open spec fn chars_ok(&self) -> bool {
        &&& self.chars@ == self.src@
        &&& self.chars@.len() < usize::MAX
        &&& byte_len(self.chars@) < usize::MAX
        &&& cursor_ok(self.chars@, self.cur)
    }

    /// The current token has been read: `next_cur` is the cursor after it
    pub open spec fn wf(&self) -> bool {
        &&& self.chars_ok()
        &&& scan_end(self.chars@, self.cur.idx as int) is Some
        &&& self.next_cur == Some(
            advance(self.chars@, self.cur, scan_end(self.chars@, self.cur.idx as int).unwrap()),
        )
        &&& cursor_ok(self.chars@, self.next_cur.unwrap())
        &&& self.next_cur.unwrap().idx == scan_end(self.chars@, self.cur.idx as int).unwrap()
    }

    /// Position just after the current token
    pub open spec fn next_pos(&self) -> int {
        self.next_cur.unwrap().idx as int
    }

    /// Create lexer and get the first token
    pub fn new(src: &'a str) -> (r: Lexer<'a>)
        requires
            src@.len() < usize::MAX,
            byte_len(src@) < usize::MAX,
            scan_end(src@, 0) is Some,
        ensures
            r.wf(),
            r.src == src,
            r.cur == (Cursor { line: 0, col: 0, pos: 0, idx: 0 }),
            r.current_token@ == spec_read(src@, 0, LexerState::ExprBegin, false).0,
            r.state == state_after(LexerState::ExprBegin, spec_read(src@, 0, LexerState::ExprBegin, false).1),
            r.space_seen == false,
    {
        let n = src.unicode_len();
        let mut chars: Vec<char> = Vec::new();
        let mut i: usize = 0;
        while i < n
            invariant
                n == src@.len(),
                0 <= i <= n,
                chars@ == src@.take(i as int),
            decreases n - i,
        {
            chars.push(src.get_char(i));
            i += 1;
            assert(chars@ =~= src@.take(i as int));
        }
        assert(chars@ =~= src@);
        let mut lexer = Lexer {
            src: src,
            chars,
            cur: Cursor::new(),
            state: LexerState::ExprBegin,
            space_seen: false,
            next_cur: None,
            current_token: Token::Bof,
        };
        assert(src@.take(0) =~= Seq::<char>::empty());
        lexer.read_token();
        lexer
    }

    pub fn set_state(&mut self, state: LexerState)
        ensures
            final(self).state == state,
            final(self).src == old(self).src,
            final(self).chars == old(self).chars,
            final(self).cur == old(self).cur,
            final(self).space_seen == old(self).space_seen,
            final(self).current_token == old(self).current_token,
            final(self).next_cur == old(self).next_cur,
    {
        self.state = state;
    }

    fn set_current_token(&mut self, token: Token)
        ensures
            final(self).space_seen == (old(self).current_token@ == TokenV::Space),
            final(self).current_token == token,
            final(self).src == old(self).src,
            final(self).chars == old(self).chars,
            final(self).cur == old(self).cur,
            final(self).state == old(self).state,
            final(self).next_cur == old(self).next_cur,
    {
        self.space_seen = self.current_token.is_space();
        self.current_token = token;
    }

    /// A text describing the current token and state, for debugging
    pub fn debug_info(&self) -> (r: String)
        ensures
            r@ == debug_info_text(self.current_token@, self.state),
    {
        debug_text(&self.current_token, &self.state)
    }

    /// Remove the current token and read next
    pub fn consume_token(&mut self) -> (r: Token)
        requires
            old(self).wf(),
            scan_end(old(self).chars@, old(self).next_pos()) is Some,
        ensures
            r@ == old(self).current_token@,
            final(self).wf(),
            final(self).src == old(self).src,
            final(self).chars == old(self).chars,
            final(self).cur == old(self).next_cur.unwrap(),
            final(self).space_seen == (old(self).current_token@ == TokenV::Space),
            final(self).current_token@ == spec_read(
                old(self).chars@,
                old(self).next_pos(),
                old(self).state,
                old(self).current_token@ == TokenV::Space,
            ).0,
            final(self).state == state_after(
                old(self).state,
                spec_read(
                    old(self).chars@,
                    old(self).next_pos(),
                    old(self).state,
                    old(self).current_token@ == TokenV::Space,
                ).1,
            ),
    {
        let next = self.next_cur.unwrap();
        self.cur = next;
        let tok = self.current_token.copy();
        self.read_token();
        tok
    }

    /// Move lexer position to `cur`
    pub fn set_position(&mut self, cur: Cursor)
        requires
            old(self).chars_ok(),
            cursor_ok(old(self).chars@, cur),
            scan_end(old(self).chars@, cur.idx as int) is Some,
        ensures
            final(self).wf(),
            final(self).src == old(self).src,
            final(self).chars == old(self).chars,
            final(self).cur == cur,
            final(self).space_seen == (old(self).current_token@ == TokenV::Space),
            final(self).current_token@ == spec_read(
                old(self).chars@,
                cur.idx as int,
                old(self).state,
                old(self).current_token@ == TokenV::Space,
            ).0,
            final(self).state == state_after(
                old(self).state,
                spec_read(
                    old(self).chars@,
                    cur.idx as int,
                    old(self).state,
                    old(self).current_token@ == TokenV::Space,
                ).1,
            ),
    {
        self.cur = cur;
        self.read_token();
    }

    /// Return the next token while keeping the current one
    pub fn peek_next(&mut self) -> (r: Token)
        requires
            old(self).wf(),
            scan_end(old(self).chars@, old(self).next_pos()) is Some,
        ensures
            *final(self) == *old(self),
            r@ == spec_read(
                old(self).chars@,
                old(self).next_pos(),
                old(self).state,
                old(self).current_token@ == TokenV::Space,
            ).0,
    {
        let next_cur = self.next_cur.unwrap();
        let mut next_next_cur = next_cur;
        let (token, _) = self.read_at(next_cur.idx, &mut next_next_cur);
        token
    }

    /// Read a token and set it to `current_token`
    fn read_token(&mut self)
        requires
            old(self).chars_ok(),
            scan_end(old(self).chars@, old(self).cur.idx as int) is Some,
        ensures
            final(self).wf(),
            final(self).src == old(self).src,
            final(self).chars == old(self).chars,
            final(self).cur == old(self).cur,
            final(self).space_seen == (old(self).current_token@ == TokenV::Space),
            final(self).current_token@ == spec_read(
                old(self).chars@,
                old(self).cur.idx as int,
                old(self).state,
                old(self).current_token@ == TokenV::Space,
            ).0,
            final(self).state == state_after(
                old(self).state,
                spec_read(
                    old(self).chars@,
                    old(self).cur.idx as int,
                    old(self).state,
                    old(self).current_token@ == TokenV::Space,
                ).1,
            ),
    {
        let mut next_cur = self.cur;
        let (token, new_state) = self.read_at(self.cur.idx, &mut next_cur);
        self.set_current_token(token);
        if let Some(state) = new_state {
            self.state = state;
        }
        self.next_cur = Some(next_cur);
    }

    /// Read the token at `begin`, moving `next_cur` (which is at `begin`) just after it
    fn read_at(&self, begin: usize, next_cur: &mut Cursor) -> (r: (Token, Option<LexerState>))
        requires
            self.chars_ok(),
            cursor_ok(self.chars@, *old(next_cur)),
            old(next_cur).idx == begin,
            scan_end(self.chars@, begin as int) is Some,
        ensures
            cursor_ok(self.chars@, *final(next_cur)),
            final(next_cur).idx == scan_end(self.chars@, begin as int).unwrap(),
            *final(next_cur) == advance(self.chars@, *old(next_cur), final(next_cur).idx as int),
            r.0@ == spec_read(self.chars@, begin as int, self.state, self.current_token@ == TokenV::Space).0,
            r.1 == spec_read(self.chars@, begin as int, self.state, self.current_token@ == TokenV::Space).1,
    {
        let c = char_at_vec(&self.chars, begin);
        match char_type(c) {
            CharType::Space => (self.read_space(next_cur), None),
            CharType::Separator => (self.read_separator(next_cur), None),
            CharType::Comment => (self.read_comment(next_cur), None),
            CharType::UpperWord => (self.read_upper_word(next_cur, begin), Some(LexerState::ExprEnd)),
            CharType::LowerWord => {
                let (t, s) = self.read_lower_word(next_cur, begin);
                (t, Some(s))
            },
            CharType::Symbol => {
                let (t, s) = self.read_symbol(next_cur);
                (t, Some(s))
            },
            CharType::Number => (self.read_number(next_cur, begin), Some(LexerState::ExprEnd)),
            CharType::Str => (self.read_str(next_cur, begin), None),
            CharType::Eof => (self.read_eof(), None),
        }
    }

    fn read_space(&self, next_cur: &mut Cursor) -> (r: Token)
        requires
            self.chars_ok(),
            cursor_ok(self.chars@, *old(next_cur)),
        ensures
            r@ == TokenV::Space,
            cursor_ok(self.chars@, *final(next_cur)),
            final(next_cur).idx == space_end(self.chars@, old(next_cur).idx as int),
            *final(next_cur) == advance(self.chars@, *old(next_cur), final(next_cur).idx as int),
    {
        let ghost start = *next_cur;
        proof { lemma_advance_none(self.chars@, start); }
        loop
            invariant
                self.chars_ok(),
                cursor_ok(self.chars@, *next_cur),
                start.idx <= next_cur.idx,
                space_end(self.chars@, start.idx as int) == space_end(self.chars@, next_cur.idx as int),
                *next_cur == advance(self.chars@, start, next_cur.idx as int),
            ensures
                cursor_ok(self.chars@, *next_cur),
                next_cur.idx == space_end(self.chars@, start.idx as int),
                *next_cur == advance(self.chars@, start, next_cur.idx as int),
            decreases self.chars@.len() - next_cur.idx,
        {
            match char_type(char_at_vec(&self.chars, next_cur.idx)) {
                CharType::Space => {
                    proceed_from(&self.chars, next_cur, Ghost(start));
                },
                _ => break,
            }
        }
        Token::Space
    }

    fn read_separator(&self, next_cur: &mut Cursor) -> (r: Token)
        requires
            self.chars_ok(),
            cursor_ok(self.chars@, *old(next_cur)),
        ensures
            r@ == TokenV::Separator,
            cursor_ok(self.chars@, *final(next_cur)),
            final(next_cur).idx == separator_end(self.chars@, old(next_cur).idx as int),
            *final(next_cur) == advance(self.chars@, *old(next_cur), final(next_cur).idx as int),
    {
        let ghost start = *next_cur;
        proof { lemma_advance_none(self.chars@, start); }
        loop
            invariant
                self.chars_ok(),
                cursor_ok(self.chars@, *next_cur),
                start.idx <= next_cur.idx,
                separator_end(self.chars@, start.idx as int) == separator_end(
                    self.chars@,
                    next_cur.idx as int,
                ),
                *next_cur == advance(self.chars@, start, next_cur.idx as int),
            ensures
                cursor_ok(self.chars@, *next_cur),
                next_cur.idx == separator_end(self.chars@, start.idx as int),
                *next_cur == advance(self.chars@, start, next_cur.idx as int),
            decreases self.chars@.len() - next_cur.idx,
        {
            match char_type(char_at_vec(&self.chars, next_cur.idx)) {
                CharType::Space | CharType::Separator => {
                    proceed_from(&self.chars, next_cur, Ghost(start));
                },
                _ => break,
            }
        }
        Token::Separator
    }

    fn read_comment(&self, next_cur: &mut Cursor) -> (r: Token)
        requires
            self.chars_ok(),
            cursor_ok(self.chars@, *old(next_cur)),
            old(next_cur).idx < self.chars@.len(),
            line_end(self.chars@, old(next_cur).idx + 1) is Some,
        ensures
            r@ == TokenV::Separator,
            cursor_ok(self.chars@, *final(next_cur)),
            final(next_cur).idx == line_end(self.chars@, old(next_cur).idx + 1).unwrap(),
            *final(next_cur) == advance(self.chars@, *old(next_cur), final(next_cur).idx as int),
    {
        let ghost start = *next_cur;
        proof { lemma_advance_none(self.chars@, start); }
        proceed_from(&self.chars, next_cur, Ghost(start));  // Skip the `#'
        loop
            invariant_except_break
                line_end(self.chars@, start.idx + 1) == line_end(self.chars@, next_cur.idx as int),
            invariant
                self.chars_ok(),
                cursor_ok(self.chars@, *next_cur),
                start.idx < next_cur.idx,
                line_end(self.chars@, start.idx + 1) is Some,
                *next_cur == advance(self.chars@, start, next_cur.idx as int),
            ensures
                cursor_ok(self.chars@, *next_cur),
                next_cur.idx == line_end(self.chars@, start.idx + 1).unwrap(),
                *next_cur == advance(self.chars@, start, next_cur.idx as int),
            decreases self.chars@.len() - next_cur.idx,
        {
            let c = proceed_from(&self.chars, next_cur, Ghost(start));
            if c == '\n' {
                break;
            }
        }
        Token::Separator
    }

    /// Consume the characters of an identifier
    fn skip_word(&self, next_cur: &mut Cursor)
        requires
            self.chars_ok(),
            cursor_ok(self.chars@, *old(next_cur)),
        ensures
            cursor_ok(self.chars@, *final(next_cur)),
            final(next_cur).idx == word_end(self.chars@, old(next_cur).idx as int),
            *final(next_cur) == advance(self.chars@, *old(next_cur), final(next_cur).idx as int),
    {
        let ghost start = *next_cur;
        proof { lemma_advance_none(self.chars@, start); }
        loop
            invariant
                self.chars_ok(),
                cursor_ok(self.chars@, *next_cur),
                start.idx <= next_cur.idx,
                word_end(self.chars@, start.idx as int) == word_end(self.chars@, next_cur.idx as int),
                *next_cur == advance(self.chars@, start, next_cur.idx as int),
            ensures
                cursor_ok(self.chars@, *next_cur),
                next_cur.idx == word_end(self.chars@, start.idx as int),
                *next_cur == advance(self.chars@, start, next_cur.idx as int),
            decreases self.chars@.len() - next_cur.idx,
        {
            match char_type(char_at_vec(&self.chars, next_cur.idx)) {
                CharType::UpperWord | CharType::LowerWord | CharType::Number => {
                    proceed_from(&self.chars, next_cur, Ghost(start));
                },
                _ => break,
            }
        }
    }

    /// The source text from `begin` up to `end`
    fn text(&self, begin: usize, end: usize) -> (r: String)
        requires
            self.chars_ok(),
            begin <= end <= self.chars@.len(),
        ensures
            r@ == self.chars@.subrange(begin as int, end as int),
    {
        to_owned(self.src.substring_char(begin, end))
    }

    fn read_upper_word(&self, next_cur: &mut Cursor, begin: usize) -> (r: Token)
        requires
            self.chars_ok(),
            cursor_ok(self.chars@, *old(next_cur)),
            old(next_cur).idx == begin,
        ensures
            cursor_ok(self.chars@, *final(next_cur)),
            final(next_cur).idx == word_end(self.chars@, begin as int),
            *final(next_cur) == advance(self.chars@, *old(next_cur), final(next_cur).idx as int),
            r@ == TokenV::UpperWord(self.chars@.subrange(begin as int, final(next_cur).idx as int)),
    {
        self.skip_word(next_cur);
        Token::UpperWord(self.text(begin, next_cur.idx))
    }

    fn read_lower_word(&self, next_cur: &mut Cursor, begin: usize) -> (r: (Token, LexerState))
        requires
            self.chars_ok(),
            cursor_ok(self.chars@, *old(next_cur)),
            old(next_cur).idx == begin,
        ensures
            cursor_ok(self.chars@, *final(next_cur)),
            final(next_cur).idx == word_end(self.chars@, begin as int),
            *final(next_cur) == advance(self.chars@, *old(next_cur), final(next_cur).idx as int),
            (r.0@, r.1) == spec_lower_word(self.chars@.subrange(begin as int, final(next_cur).idx as int)),
    {
        self.skip_word(next_cur);
        let s = self.text(begin, next_cur.idx);
        let w = s.as_str();
        if str_eq(w, "class") {
            (Token::KwClass, LexerState::ExprBegin)
        } else if str_eq(w, "end") {
            (Token::KwEnd, LexerState::ExprEnd)
        } else if str_eq(w, "def") {
            (Token::KwDef, LexerState::ExprBegin)
        } else if str_eq(w, "var") {
            (Token::KwVar, LexerState::ExprBegin)
        } else if str_eq(w, "and") {
            (Token::KwAnd, LexerState::ExprBegin)
        } else if str_eq(w, "or") {
            (Token::KwOr, LexerState::ExprBegin)
        } else if str_eq(w, "not") {
            (Token::KwNot, LexerState::ExprBegin)
        } else if str_eq(w, "if") {
            (Token::KwIf, LexerState::ExprBegin)
        } else if str_eq(w, "unless") {
            (Token::KwUnless, LexerState::ExprBegin)
        } else if str_eq(w, "while") {
            (Token::KwWhile, LexerState::ExprBegin)
        } else if str_eq(w, "break") {
            (Token::KwBreak, LexerState::ExprEnd)
        } else if str_eq(w, "then") {
            (Token::KwThen, LexerState::ExprBegin)
        } else if str_eq(w, "else") {
            (Token::KwElse, LexerState::ExprBegin)
        } else if str_eq(w, "self") {
            (Token::KwSelf, LexerState::ExprEnd)
        } else if str_eq(w, "true") {
            (Token::KwTrue, LexerState::ExprEnd)
        } else if str_eq(w, "false") {
            (Token::KwFalse, LexerState::ExprEnd)
        } else {
            (Token::LowerWord(s), LexerState::ExprEnd)
        }
    }

    fn read_symbol(&self, next_cur: &mut Cursor) -> (r: (Token, LexerState))
        requires
            self.chars_ok(),
            cursor_ok(self.chars@, *old(next_cur)),
            ctype_at(self.chars@, old(next_cur).idx as int) == CharType::Symbol,
        ensures
            cursor_ok(self.chars@, *final(next_cur)),
            final(next_cur).idx == (if is_two_char_symbol(self.chars@, old(next_cur).idx as int) {
                old(next_cur).idx + 2
            } else {
                old(next_cur).idx + 1
            }),
            *final(next_cur) == advance(self.chars@, *old(next_cur), final(next_cur).idx as int),
            (r.0@, r.1) == spec_symbol(
                self.chars@,
                old(next_cur).idx as int,
                self.state,
                self.current_token@ == TokenV::Space,
            ),
    {
        let ghost start = *next_cur;
        proof { lemma_advance_none(self.chars@, start); }
        let c1 = proceed_from(&self.chars, next_cur, Ghost(start));
        let c2 = char_at_vec(&self.chars, next_cur.idx);
        let b = LexerState::ExprBegin;
        if c1 == '(' {
            (Token::LParen, b)
        } else if c1 == ')' {
            (Token::RParen, LexerState::ExprEnd)
        } else if c1 == '[' {
            (Token::LSqBracket, b)
        } else if c1 == ']' {
            (Token::RSqBracket, LexerState::ExprEnd)
        } else if c1 == '{' {
            (Token::LBrace, b)
        } else if c1 == '}' {
            (Token::RBrace, LexerState::ExprEnd)
        } else if c1 == '+' {
            if self.is_unary(c2) {
                (Token::UnaryPlus, b)
            } else {
                (Token::BinaryPlus, b)
            }
        } else if c1 == '-' {
            if c2 == Some('>') {
                proceed_from(&self.chars, next_cur, Ghost(start));
                (Token::RightArrow, b)
            } else if self.is_unary(c2) {
                (Token::UnaryMinus, b)
            } else {
                (Token::BinaryMinus, b)
            }
        } else if c1 == '*' {
            (Token::Mul, b)
        } else if c1 == '/' {
            (Token::Div, b)
        } else if c1 == '%' {
            (Token::Mod, b)
        } else if c1 == '=' {
            if c2 == Some('=') {
                proceed_from(&self.chars, next_cur, Ghost(start));
                (Token::EqEq, b)
            } else {
                (Token::Equal, b)
            }
        } else if c1 == '!' {
            if c2 == Some('=') {
                proceed_from(&self.chars, next_cur, Ghost(start));
                (Token::NotEq, b)
            } else {
                (Token::Bang, b)
            }
        } else if c1 == '<' {
            if c2 == Some('=') {
                proceed_from(&self.chars, next_cur, Ghost(start));
                (Token::LessEq, b)
            } else if c2 == Some('<') {
                proceed_from(&self.chars, next_cur, Ghost(start));
                (Token::LShift, b)
            } else {
                (Token::LessThan, b)
            }
        } else if c1 == '>' {
            if c2 == Some('=') {
                proceed_from(&self.chars, next_cur, Ghost(start));
                (Token::GraterEq, b)
            } else if c2 == Some('>') {
                proceed_from(&self.chars, next_cur, Ghost(start));
                (Token::RShift, b)
            } else {
                (Token::GraterThan, b)
            }
        } else if c1 == '.' {
            (Token::Dot, b)
        } else if c1 == '@' {
            (Token::At, b)
        } else if c1 == '~' {
            (Token::Tilde, b)
        } else if c1 == '?' {
            (Token::Question, b)
        } else if c1 == ',' {
            (Token::Comma, b)
        } else if c1 == ':' {
            if c2 == Some(':') {
                proceed_from(&self.chars, next_cur, Ghost(start));
                (Token::ColonColon, b)
            } else {
                (Token::Colon, b)
            }
        } else if c1 == '&' {
            if c2 == Some('&') {
                proceed_from(&self.chars, next_cur, Ghost(start));
                (Token::AndAnd, b)
            } else {
                (Token::And, b)
            }
        } else {
            if c2 == Some('|') {
                proceed_from(&self.chars, next_cur, Ghost(start));
                (Token::OrOr, b)
            } else {
                (Token::Or, b)
            }
        }
    }

    fn is_unary(&self, next_char: Option<char>) -> (r: bool)
        ensures
            r == spec_is_unary(self.state, self.current_token@ == TokenV::Space, next_char),
    {
        match self.state {
            LexerState::ExprBegin => true,
            LexerState::ExprEnd => false,
            LexerState::ExprArg => self.current_token.is_space() && next_char != Some(' '),
        }
    }

    fn read_number(&self, next_cur: &mut Cursor, begin: usize) -> (r: Token)
        requires
            self.chars_ok(),
            cursor_ok(self.chars@, *old(next_cur)),
            old(next_cur).idx == begin,
            number_end(self.chars@, begin as int) is Some,
        ensures
            cursor_ok(self.chars@, *final(next_cur)),
            final(next_cur).idx == number_end(self.chars@, begin as int).unwrap(),
            *final(next_cur) == advance(self.chars@, *old(next_cur), final(next_cur).idx as int),
            r@ == TokenV::Number(self.chars@.subrange(begin as int, final(next_cur).idx as int)),
    {
        let ghost start = *next_cur;
        proof { lemma_advance_none(self.chars@, start); }
        loop
            invariant
                self.chars_ok(),
                cursor_ok(self.chars@, *next_cur),
                start.idx <= next_cur.idx,
                number_end(self.chars@, start.idx as int) is Some,
                number_end(self.chars@, start.idx as int) == number_end(self.chars@, next_cur.idx as int),
                *next_cur == advance(self.chars@, start, next_cur.idx as int),
            ensures
                cursor_ok(self.chars@, *next_cur),
                next_cur.idx == number_end(self.chars@, start.idx as int).unwrap(),
                *next_cur == advance(self.chars@, start, next_cur.idx as int),
            decreases self.chars@.len() - next_cur.idx,
        {
            let c = char_at_vec(&self.chars, next_cur.idx);
            match char_type(c) {
                CharType::Number => {
                    proceed_from(&self.chars, next_cur, Ghost(start));
                },
                CharType::Symbol => {
                    if c == Some('.') {
                        let c2 = char_at_vec(&self.chars, next_cur.idx + 1);
                        if char_type(c2) == CharType::Number {
                            proceed_from(&self.chars, next_cur, Ghost(start));
                            proceed_from(&self.chars, next_cur, Ghost(start));
                        } else {
                            break;
                        }
                    } else {
                        break;
                    }
                },
                _ => break,
            }
        }
        Token::Number(self.text(begin, next_cur.idx))
    }

    fn read_str(&self, next_cur: &mut Cursor, begin: usize) -> (r: Token)
        requires
            self.chars_ok(),
            cursor_ok(self.chars@, *old(next_cur)),
            old(next_cur).idx == begin,
            begin < self.chars@.len(),
            quote_end(self.chars@, begin + 1) is Some,
        ensures
            cursor_ok(self.chars@, *final(next_cur)),
            final(next_cur).idx == quote_end(self.chars@, begin + 1).unwrap(),
            *final(next_cur) == advance(self.chars@, *old(next_cur), final(next_cur).idx as int),
            r@ == TokenV::Str(self.chars@.subrange(begin + 1, final(next_cur).idx - 1)),
    {
        let ghost start = *next_cur;
        proof { lemma_advance_none(self.chars@, start); }
        proceed_from(&self.chars, next_cur, Ghost(start));
        loop
            invariant_except_break
                quote_end(self.chars@, start.idx + 1) == quote_end(self.chars@, next_cur.idx as int),
            invariant
                self.chars_ok(),
                cursor_ok(self.chars@, *next_cur),
                start.idx < next_cur.idx,
                begin == start.idx,
                quote_end(self.chars@, start.idx + 1) is Some,
                *next_cur == advance(self.chars@, start, next_cur.idx as int),
            ensures
                cursor_ok(self.chars@, *next_cur),
                next_cur.idx == quote_end(self.chars@, start.idx + 1).unwrap(),
                begin + 1 < next_cur.idx,
                *next_cur == advance(self.chars@, start, next_cur.idx as int),
            decreases self.chars@.len() - next_cur.idx,
        {
            let c = proceed_from(&self.chars, next_cur, Ghost(start));
            if c == '"' {
                break;
            }
        }
        Token::Str(self.text(begin + 1, next_cur.idx - 1))
    }

    fn read_eof(&self) -> (r: Token)
        ensures
            r@ == TokenV::Eof,
    {
        Token::Eof
    }
}

/// The `Debug` form of a lexer state: the name of its variant
pub open spec fn lexer_state_debug_text(state: LexerState) -> Seq<char> {
    match state {
        LexerState::ExprBegin => "ExprBegin"@,
        LexerState::ExprEnd => "ExprEnd"@,
        LexerState::ExprArg => "ExprArg"@,
    }
}

/// The `Debug` form of a lexer state
fn lexer_state_debug(state: &LexerState) -> (r: String)
    ensures
        r@ == lexer_state_debug_text(*state),
{
    match state {
        LexerState::ExprBegin => to_owned("ExprBegin"),
        LexerState::ExprEnd => to_owned("ExprEnd"),
        LexerState::ExprArg => to_owned("ExprArg"),
    }
}

/// The `Debug` forms of a token and of a lexer state, with a space between
pub open spec fn debug_info_text(token: TokenV, state: LexerState) -> Seq<char> {
    token_debug_text(token) + " "@ + lexer_state_debug_text(state)
}

/// The `Debug` forms of a token and of a lexer state, with a space between
fn debug_text(token: &Token, state: &LexerState) -> (r: String)
    ensures
        r@ == debug_info_text(token@, *state),
{
    let t = token_debug(token);
    let s = concat(t.as_str(), " ");
    concat(s.as_str(), lexer_state_debug(state).as_str())
}

} // verus!
