use shiika::ast;
use shiika::ast::{AstExpressionBody, AstMethodSignature, Definition};
use shiika::names::{const_name, method_firstname};
use shiika::parser::token::Token;

#[test]
fn expressions_are_primary_or_not() {
    let a = ast::bare_name("a");
    assert!(a.primary);
    assert!(a.may_have_paren_wo_args());
    assert!(a.is_lhs());
    let n = ast::logical_not(ast::decimal_literal(1));
    assert!(!n.primary);
    assert!(!n.is_lhs());
    assert!(ast::ivar_ref("@a".to_string()).is_lhs());
    assert!(ast::const_ref(const_name(vec!["A".to_string()])).is_lhs());
    assert!(!ast::string_literal("s".to_string()).is_lhs());
    assert!(ast::float_literal(1.5f64.to_bits()).primary);
    assert!(ast::pseudo_variable(Token::KwSelf).primary);
}

#[test]
fn assignments() {
    let e = ast::assignment(ast::bare_name("a"), ast::decimal_literal(1));
    assert!(matches!(e.body, AstExpressionBody::LVarAssign { ref name, is_var: false, .. } if name == "a"));
    let e = ast::assignment(ast::ivar_ref("@a".to_string()), ast::decimal_literal(1));
    assert!(matches!(e.body, AstExpressionBody::IVarAssign { is_var: false, .. }));
    let e = ast::assignment(ast::const_ref(const_name(vec!["A".to_string()])), ast::decimal_literal(1));
    assert!(matches!(e.body, AstExpressionBody::ConstAssign { .. }));
    // `a.b = 1` calls `b=`
    let call = ast::method_call(Some(ast::bare_name("a")), "b", vec![], vec![], false, true);
    let e = ast::assignment(call, ast::decimal_literal(1));
    match e.body {
        AstExpressionBody::MethodCall { method_name, arg_exprs, may_have_paren_wo_args, .. } => {
            assert_eq!(method_name.0, "b=");
            assert_eq!(arg_exprs.len(), 1);
            assert!(!may_have_paren_wo_args);
        }
        _ => panic!("must be a method call"),
    }
    assert!(matches!(ast::lvar_decl("x".to_string(), ast::decimal_literal(1)).body,
        AstExpressionBody::LVarAssign { is_var: true, .. }));
    assert!(matches!(ast::ivar_decl("@x".to_string(), ast::decimal_literal(1)).body,
        AstExpressionBody::IVarAssign { is_var: true, .. }));
    assert!(matches!(ast::ivar_assign("@x".to_string(), ast::decimal_literal(1)).body,
        AstExpressionBody::IVarAssign { is_var: false, .. }));
}

#[test]
fn method_calls() {
    let e = ast::bin_op_expr(ast::decimal_literal(1), "+", ast::decimal_literal(2));
    assert!(!e.primary);
    match e.body {
        AstExpressionBody::MethodCall { method_name, arg_exprs, receiver_expr, .. } => {
            assert_eq!(method_name.0, "+");
            assert_eq!(arg_exprs.len(), 1);
            assert!(receiver_expr.is_some());
        }
        _ => panic!(),
    }
    let u = ast::unary_expr(ast::decimal_literal(1), "-@");
    assert!(u.primary);
    // `foo` extended to `foo 1`
    let e = ast::set_method_call_args(ast::bare_name("foo"), vec![ast::decimal_literal(1)]);
    match e.body {
        AstExpressionBody::MethodCall { method_name, arg_exprs, receiver_expr, .. } => {
            assert_eq!(method_name.0, "foo");
            assert_eq!(arg_exprs.len(), 1);
            assert!(receiver_expr.is_none());
        }
        _ => panic!(),
    }
    let c = ast::method_call(None, "bar", vec![], vec![], true, true);
    let e = ast::set_method_call_args(c, vec![ast::decimal_literal(1), ast::decimal_literal(2)]);
    assert!(!e.primary);
    assert!(!e.may_have_paren_wo_args());
}

#[test]
fn control_expressions() {
    assert!(!ast::break_expr().primary);
    assert!(matches!(ast::return_expr(None).body, AstExpressionBody::Return { arg: None }));
    assert!(matches!(ast::if_expr(ast::bare_name("c"), vec![], None).body, AstExpressionBody::If { .. }));
    assert!(matches!(ast::while_expr(ast::bare_name("c"), vec![]).body, AstExpressionBody::While { .. }));
    assert!(ast::lambda_expr(vec![], vec![], true).primary);
    assert!(ast::array_literal(vec![]).primary);
    assert!(!ast::logical_and(ast::bare_name("a"), ast::bare_name("b")).primary);
    assert!(!ast::logical_or(ast::bare_name("a"), ast::bare_name("b")).primary);
}

#[test]
fn initializers() {
    let sig = AstMethodSignature { name: method_firstname("initialize"), typarams: vec![], params: vec![], ret_typ: None };
    assert!(Definition::InstanceMethodDefinition { sig, body_exprs: vec![] }.is_initializer());
    let sig = AstMethodSignature { name: method_firstname("initialize"), typarams: vec![], params: vec![], ret_typ: None };
    assert!(!Definition::ClassMethodDefinition { sig, body_exprs: vec![] }.is_initializer());
}

#[test]
fn bin_op_method_names() {
    assert_eq!(ast::BinOp::Add.method_name().0, "+");
    assert_eq!(ast::BinOp::Mod.method_name().0, "%");
}
