use shiika::parser::lexer::{Cursor, Lexer, LexerState};
use shiika::parser::token::Token;

#[test]
fn consume_token_reads_the_next_token() {
    let src = "  1";
    let mut lexer = Lexer::new(src);
    assert_eq!(lexer.current_token, Token::Space);
    let t = lexer.consume_token();
    assert_eq!(t, Token::Space);
    assert_eq!(lexer.current_token, Token::number("1"));
}

#[test]
fn set_position_rewinds() {
    let src = "1+2";
    let mut lexer = Lexer::new(src);
    lexer.consume_token();
    let cur = lexer.cur;
    lexer.consume_token();
    lexer.set_position(cur);
    assert_eq!(lexer.current_token, Token::BinaryPlus);
}

#[test]
fn peek_next_keeps_the_current_token() {
    let src = "@1";
    let mut lexer = Lexer::new(src);
    assert_eq!(lexer.peek_next(), Token::number("1"));
    assert_eq!(lexer.current_token, Token::At);
    // what peek_next saw is what consume_token moves to
    lexer.consume_token();
    assert_eq!(lexer.current_token, Token::number("1"));
    lexer.consume_token();
    assert_eq!(lexer.current_token, Token::Eof);
    // at the end, the end stays
    lexer.consume_token();
    assert_eq!(lexer.current_token, Token::Eof);
}

#[test]
fn words_and_keywords() {
    let mut lexer = Lexer::new("class Foo end");
    assert_eq!(lexer.current_token, Token::KwClass);
    lexer.consume_token();
    assert_eq!(lexer.current_token, Token::Space);
    lexer.consume_token();
    assert_eq!(lexer.current_token, Token::upper_word("Foo"));
    lexer.consume_token();
    lexer.consume_token();
    assert_eq!(lexer.current_token, Token::KwEnd);
}

#[test]
fn unary_and_binary_minus() {
    // `p -x`: unary minus after a space, before a paren-less argument
    let mut lexer = Lexer::new("p -x");
    assert_eq!(lexer.current_token, Token::lower_word("p"));
    lexer.set_state(LexerState::ExprArg);
    lexer.consume_token();
    lexer.consume_token();
    assert_eq!(lexer.current_token, Token::UnaryMinus);
    // `p - x`: binary minus
    let mut lexer = Lexer::new("p - x");
    lexer.set_state(LexerState::ExprArg);
    lexer.consume_token();
    lexer.consume_token();
    assert_eq!(lexer.current_token, Token::BinaryMinus);
    // a word ends an expression: `p -x` is binary without the argument state
    let mut lexer = Lexer::new("p -x");
    lexer.consume_token();
    lexer.consume_token();
    assert_eq!(lexer.current_token, Token::BinaryMinus);
    // `p-x`: binary minus
    let mut lexer = Lexer::new("p-x");
    lexer.consume_token();
    assert_eq!(lexer.current_token, Token::BinaryMinus);
    // at the beginning of an expression, minus is unary
    let lexer = Lexer::new("-x");
    assert_eq!(lexer.current_token, Token::UnaryMinus);
}

#[test]
fn separators_and_comments() {
    let mut lexer = Lexer::new("a\n#c\nb");
    assert_eq!(lexer.current_token, Token::lower_word("a"));
    lexer.consume_token();
    assert_eq!(lexer.current_token, Token::Separator);
    lexer.consume_token();
    assert_eq!(lexer.current_token, Token::Separator);
}

#[test]
fn two_char_symbols() {
    let mut lexer = Lexer::new("a == b");
    lexer.consume_token();
    lexer.consume_token();
    assert_eq!(lexer.current_token, Token::EqEq);
    let mut lexer = Lexer::new("A::B");
    lexer.consume_token();
    assert_eq!(lexer.current_token, Token::ColonColon);
}

#[test]
fn cursor_moves_by_lines_and_columns() {
    let mut lexer = Lexer::new("a\nbc");
    lexer.consume_token();
    lexer.consume_token();
    assert_eq!(lexer.cur, Cursor { line: 1, col: 0, pos: 2, idx: 2 });
    assert_eq!(lexer.current_token, Token::lower_word("bc"));
}

#[test]
fn cursor_peek_and_proceed() {
    let src = "ab";
    let mut c = Cursor::new();
    assert_eq!(c.peek(src), Some('a'));
    assert_eq!(c.peek2(src), Some('b'));
    assert_eq!(c.proceed(src), 'a');
    assert_eq!(c, Cursor { line: 0, col: 1, pos: 1, idx: 1 });
    c.proceed(src);
    assert_eq!(c.peek(src), None);
}

#[test]
fn set_state_is_kept() {
    let mut lexer = Lexer::new("x");
    lexer.set_state(LexerState::ExprArg);
    assert_eq!(lexer.state, LexerState::ExprArg);
}

#[test]
fn debug_info_shows_token_and_state() {
    let lexer = Lexer::new("1");
    let s = lexer.debug_info();
    assert!(s.contains("Number"));
}

#[test]
fn value_starts_of_tokens() {
    assert!(Token::number("1").value_starts());
    assert!(Token::KwBreak.value_starts());
    assert!(!Token::LShift.value_starts());
    assert!(!Token::KwEnd.value_starts());
}

#[test]
fn cursor_position_counts_bytes() {
    let src = "é€a";
    let mut c = Cursor::new();
    assert_eq!(c.proceed(src), 'é');
    assert_eq!(c, Cursor { line: 0, col: 1, pos: 2, idx: 1 });
    assert_eq!(c.proceed(src), '€');
    assert_eq!(c, Cursor { line: 0, col: 2, pos: 5, idx: 2 });
    assert_eq!(c.peek(src), Some('a'));
}

#[test]
fn lexer_positions_are_byte_offsets() {
    let mut lexer = Lexer::new("\"é\" x");
    lexer.consume_token();
    assert_eq!(lexer.cur, Cursor { line: 0, col: 3, pos: 4, idx: 3 });
    assert_eq!(lexer.current_token, Token::Space);
}
