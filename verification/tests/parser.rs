use shiika::error::ErrorDetails;
use shiika::parser::lexer::{Cursor, Lexer, LexerState};
use shiika::parser::token::Token;
use shiika::parser::Parser;

#[test]
fn new_parser_starts_at_the_beginning() {
    let parser = Parser::new("class A");
    assert_eq!(parser.lv, 0);
    assert_eq!(parser.lexer.cur, Cursor { line: 0, col: 0, pos: 0, idx: 0 });
}

#[test]
fn expect_eof_accepts_the_end() {
    let parser = Parser::new("");
    assert!(parser.expect_eof().is_ok());
}

#[test]
fn expect_eof_rejects_a_token() {
    let parser = Parser::new("class");
    let e = parser.expect_eof().err().unwrap();
    assert_eq!(e.msg, "unexpected token: KwClass");
    assert_eq!(e.details, ErrorDetails::ParseError { location: Cursor { line: 0, col: 0, pos: 0, idx: 0 } });
}

#[test]
fn parseerror_is_at_the_current_position() {
    let mut parser = Parser::new("a b");
    parser.lexer.consume_token();
    parser.lexer.consume_token();
    let e = parser.parseerror("oops");
    assert_eq!(e.msg, "oops");
    assert_eq!(e.details, ErrorDetails::ParseError { location: Cursor { line: 0, col: 2, pos: 2, idx: 2 } });
}

#[test]
fn debug_info_of_an_empty_source() {
    let lexer = Lexer::new("");
    assert_eq!(lexer.debug_info(), "Eof ExprBegin");
}

fn lower(s: &str) -> Token {
    Token::LowerWord(s.to_string())
}

#[test]
fn consume_token_moves_to_the_next() {
    let mut p = Parser::new("a b");
    assert_eq!(p.consume_token(), lower("a"));
    assert_eq!(*p.current_token(), Token::Space);
    p.consume_token();
    assert_eq!(*p.current_token(), lower("b"));
    p.consume_token();
    assert_eq!(*p.current_token(), Token::Eof);
    // Consuming the end stays at the end
    p.consume_token();
    assert_eq!(*p.current_token(), Token::Eof);
}

#[test]
fn skip_ws_stops_at_a_newline() {
    let mut p = Parser::new("   \n a");
    p.skip_ws();
    assert_eq!(*p.current_token(), Token::Separator);
    p.skip_wsn();
    assert_eq!(*p.current_token(), lower("a"));
    // Nothing to skip
    p.skip_wsn();
    assert_eq!(*p.current_token(), lower("a"));
}

#[test]
fn consume_only_the_given_token() {
    let mut p = Parser::new("a b");
    assert!(!p.consume(lower("b")));
    assert_eq!(*p.current_token(), lower("a"));
    assert!(p.consume(lower("a")));
    assert!(p.current_token_is(Token::Space));
}

#[test]
fn expect_a_token() {
    let mut p = Parser::new("a end");
    assert_eq!(p.expect(lower("a")).unwrap(), lower("a"));
    let e = p.expect(Token::KwEnd).err().unwrap();
    assert_eq!(e.msg, "expected KwEnd but got Space");
    assert_eq!(e.details, ErrorDetails::ParseError { location: Cursor { line: 0, col: 1, pos: 1, idx: 1 } });
}

#[test]
fn expect_sep_consumes_a_separator_and_spaces() {
    let mut p = Parser::new("\n  \n b");
    assert!(p.expect_sep().is_ok());
    assert_eq!(*p.current_token(), lower("b"));
    let e = p.expect_sep().err().unwrap();
    assert_eq!(e.msg, "expected separator but got LowerWord(\"b\")");
    p.consume_token();
    // The end of the input is as good as a separator
    assert!(p.expect_sep().is_ok());
}

#[test]
fn peek_and_next_nonspace() {
    let mut p = Parser::new(" x");
    assert_eq!(p.peek_next_token(), lower("x"));
    assert_eq!(p.next_nonspace_token(), lower("x"));
    assert_eq!(*p.current_token(), Token::Space);
    p.consume_token();
    assert_eq!(p.next_nonspace_token(), lower("x"));
}

#[test]
fn rewind_to_a_position() {
    let mut p = Parser::new("a b");
    let start = p.current_position();
    p.consume_token();
    p.consume_token();
    assert_eq!(*p.current_token(), lower("b"));
    p.rewind_to(start);
    assert_eq!(*p.current_token(), lower("a"));
    assert_eq!(p.current_position(), Cursor { line: 0, col: 0, pos: 0, idx: 0 });
}

#[test]
fn lexer_state_decides_unary_minus() {
    // After `p` (an identifier) the state is ExprEnd: `-` is binary
    let mut p = Parser::new("p -x");
    p.consume_token();
    p.consume_token();
    assert_eq!(*p.current_token(), Token::BinaryMinus);
    // In ExprBegin `-` is unary
    let mut q = Parser::new("p -x");
    q.consume_token();
    q.set_lexer_state(LexerState::ExprBegin);
    q.consume_token();
    assert_eq!(*q.current_token(), Token::UnaryMinus);
}

fn const_name_of_expr(e: &shiika::ast::AstExpression) -> &shiika::names::ConstName {
    match &e.body {
        shiika::ast::AstExpressionBody::ConstRef(c) => c,
        _ => panic!("not a constant reference"),
    }
}

fn names_of(c: &shiika::names::ConstName) -> Vec<&str> {
    c.names.iter().map(|s| s.as_str()).collect()
}

#[test]
fn parse_specialize_expr_reads_type_arguments() {
    let mut parser = Parser::new("Foo<Bar, Baz<Int> > x");
    assert_eq!(parser.consume_token(), Token::UpperWord("Foo".to_string()));
    let e = parser._parse_specialize_expr("Foo".to_string()).unwrap();
    assert!(e.primary);
    let c = const_name_of_expr(&e);
    assert_eq!(names_of(c), vec!["Foo"]);
    assert_eq!(c.args.len(), 2);
    assert_eq!(names_of(&c.args[0]), vec!["Bar"]);
    assert_eq!(c.args[0].args.len(), 0);
    assert_eq!(names_of(&c.args[1]), vec!["Baz"]);
    assert_eq!(names_of(&c.args[1].args[0]), vec!["Int"]);
    // the closing `>` is consumed
    assert_eq!(parser.lexer.current_token, Token::Space);
}

#[test]
fn parse_specialize_expr_reads_a_path() {
    let mut parser = Parser::new("A::B::C + 1");
    parser.consume_token();
    let e = parser._parse_specialize_expr("A".to_string()).unwrap();
    let c = const_name_of_expr(&e);
    assert_eq!(names_of(c), vec!["A", "B", "C"]);
    assert_eq!(c.args.len(), 0);
    // the name ends at the first other token, which is not consumed
    assert_eq!(parser.lexer.current_token, Token::Space);
}

#[test]
fn parse_specialize_expr_allows_newlines_in_type_arguments() {
    let mut parser = Parser::new("Pair<\n  A,\n  B::C\n>");
    parser.consume_token();
    let e = parser._parse_specialize_expr("Pair".to_string()).unwrap();
    let c = const_name_of_expr(&e);
    assert_eq!(c.args.len(), 2);
    assert_eq!(names_of(&c.args[1]), vec!["B", "C"]);
    assert_eq!(parser.lexer.current_token, Token::Eof);
}

#[test]
fn parse_specialize_expr_rejects_colon_colon_in_type_arguments() {
    let mut parser = Parser::new("A<::B>");
    parser.consume_token();
    let e = parser._parse_specialize_expr("A".to_string()).err().unwrap();
    assert_eq!(e.msg, "unexpected `::'");
    assert_eq!(e.details, ErrorDetails::ParseError { location: Cursor { line: 0, col: 2, pos: 2, idx: 2 } });
}

#[test]
fn parse_specialize_expr_rejects_other_tokens_in_type_arguments() {
    let mut parser = Parser::new("A<1>");
    parser.consume_token();
    let e = parser._parse_specialize_expr("A".to_string()).err().unwrap();
    assert_eq!(e.msg, "unexpected token: Number(\"1\")");
    assert_eq!(e.details, ErrorDetails::ParseError { location: Cursor { line: 0, col: 2, pos: 2, idx: 2 } });
}

fn sig_of(src: &str) -> (shiika::ast::AstMethodSignature, bool) {
    let mut parser = Parser::new(src);
    parser.parse_method_signature().unwrap()
}

fn sig_error(src: &str) -> shiika::error::Error {
    let mut parser = Parser::new(src);
    parser.parse_method_signature().err().unwrap()
}

#[test]
fn parse_method_signature_with_params_and_return_type() {
    let (sig, is_class_method) = sig_of("foo(a: Int, b: Array<String>) -> Bool");
    assert!(!is_class_method);
    assert_eq!(sig.name.0, "foo");
    assert_eq!(sig.typarams.len(), 0);
    assert_eq!(sig.params.len(), 2);
    assert_eq!(sig.params[0].name, "a");
    assert_eq!(names_of(&sig.params[0].typ), vec!["Int"]);
    assert!(!sig.params[0].is_iparam);
    assert_eq!(sig.params[1].name, "b");
    assert_eq!(names_of(&sig.params[1].typ), vec!["Array"]);
    assert_eq!(names_of(&sig.params[1].typ.args[0]), vec!["String"]);
    assert_eq!(names_of(sig.ret_typ.as_ref().unwrap()), vec!["Bool"]);
}

#[test]
fn parse_method_signature_of_a_class_method() {
    let (sig, is_class_method) = sig_of("self.create -> Foo::Bar");
    assert!(is_class_method);
    assert_eq!(sig.name.0, "create");
    assert_eq!(sig.params.len(), 0);
    // the names of a type stay joined
    assert_eq!(names_of(sig.ret_typ.as_ref().unwrap()), vec!["Foo::Bar"]);
}

#[test]
fn parse_method_signature_named_self() {
    let (sig, is_class_method) = sig_of("self");
    assert!(!is_class_method);
    assert_eq!(sig.name.0, "self");
    assert!(sig.ret_typ.is_none());
}

#[test]
fn parse_method_signature_without_return_type() {
    let (sig, _) = sig_of("bar");
    assert_eq!(sig.name.0, "bar");
    assert_eq!(sig.params.len(), 0);
    assert!(sig.ret_typ.is_none());
}

#[test]
fn parse_method_signature_of_an_operator() {
    let (sig, _) = sig_of("==(other: Int) -> Bool");
    assert_eq!(sig.name.0, "==");
    assert_eq!(sig.params.len(), 1);
}

#[test]
fn parse_method_signature_with_params_on_lines() {
    let (sig, _) = sig_of("foo(\n  a: Int,\n  b: Int\n)");
    assert_eq!(sig.params.len(), 2);
    assert_eq!(sig.params[1].name, "b");
}

#[test]
fn parse_method_signature_rejects_a_bad_name() {
    let e = sig_error("123");
    assert_eq!(e.msg, "invalid method name Number(\"123\")");
    assert_eq!(e.details, ErrorDetails::ParseError { location: Cursor { line: 0, col: 0, pos: 0, idx: 0 } });
}

#[test]
fn parse_method_signature_wants_a_colon() {
    let e = sig_error("foo(a Int)");
    assert_eq!(e.msg, "expected Colon but got UpperWord(\"Int\")");
    assert_eq!(e.details, ErrorDetails::ParseError { location: Cursor { line: 0, col: 6, pos: 6, idx: 6 } });
}

#[test]
fn parse_method_signature_rejects_a_bad_param() {
    let e = sig_error("foo(1)");
    assert_eq!(e.msg, "invalid token in method arguments: Number(\"1\")");
}

#[test]
fn parse_typ_reads_type_arguments() {
    let mut parser = Parser::new("Pair<A, B::C<D> >");
    let t = parser.parse_typ().unwrap();
    assert_eq!(names_of(&t), vec!["Pair"]);
    assert_eq!(t.args.len(), 2);
    assert_eq!(names_of(&t.args[1]), vec!["B::C"]);
    assert_eq!(names_of(&t.args[1].args[0]), vec!["D"]);
}

#[test]
fn parse_typ_rejects_a_missing_type() {
    let mut parser = Parser::new("(");
    let e = parser.parse_typ().err().unwrap();
    assert_eq!(e.msg, "invalid token as type: LParen");
}

#[test]
fn parse_typ_rejects_unclosed_type_arguments() {
    let mut parser = Parser::new("Array<Int");
    let e = parser.parse_typ().err().unwrap();
    assert_eq!(e.msg, "invalid token in type args: Eof");
}
