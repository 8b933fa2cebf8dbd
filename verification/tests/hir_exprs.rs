use shiika::hir::signature::MethodParam;
use shiika::hir::{Hir, HirExpressionBase, HirExpressions};
use shiika::names::{const_name, ConstFullname};
use shiika::strs::decimal;
use shiika::ty;

#[test]
fn decimal_notation() {
    assert_eq!(decimal(0), "0");
    assert_eq!(decimal(7), "7");
    assert_eq!(decimal(10), "10");
    assert_eq!(decimal(1234), "1234");
}

#[test]
fn empty_expressions_are_void() {
    let e = HirExpressions::new(vec![]);
    assert_eq!(e.exprs.len(), 1);
    assert!(e.ty.same_as(&ty::raw("Void")));
    match &e.exprs[0].node {
        HirExpressionBase::HirConstRef { name } => assert_eq!(name.names, vec!["Void".to_string()]),
        _ => panic!("not a constant reference"),
    }
}

#[test]
fn expressions_have_the_type_of_the_last() {
    let e = Hir::expressions(vec![Hir::boolean_literal(true), Hir::decimal_literal(1)]);
    assert_eq!(e.exprs.len(), 2);
    assert!(e.ty.same_as(&ty::raw("Int")));
}

#[test]
fn voidify_appends_void() {
    let mut e = Hir::expressions(vec![Hir::decimal_literal(1)]);
    e.voidify();
    assert_eq!(e.exprs.len(), 2);
    assert!(e.ty.same_as(&ty::raw("Void")));
}

#[test]
fn lambda_expr_is_named_and_typed() {
    let params = vec![MethodParam { name: "x".to_string(), ty: ty::raw("Int") }];
    let body = Hir::expressions(vec![Hir::boolean_literal(false)]);
    let l = Hir::lambda_expr(12, params, body, vec![], vec![]);
    assert!(l.ty.same_as(&ty::spe("Fn1", vec![ty::raw("Int"), ty::raw("Bool")])));
    match &l.node {
        HirExpressionBase::HirLambdaExpr { name, params, .. } => {
            assert_eq!(name, "lambda_12");
            assert_eq!(params.len(), 2);
            assert_eq!(params[1].name, "(captures)");
            assert!(params[1].ty.same_as(&ty::ary(ty::raw("Object"))));
        }
        _ => panic!("not a lambda"),
    }
}

#[test]
fn assignments_have_the_type_of_the_value() {
    let a = Hir::assign_lvar("a", Hir::string_literal(0));
    assert!(a.ty.same_as(&ty::raw("String")));
    let c = Hir::assign_const(ConstFullname("::A".to_string()), Hir::decimal_literal(1));
    assert!(c.ty.same_as(&ty::raw("Int")));
    let w = Hir::lambda_capture_write(1, 0, Hir::boolean_literal(true));
    assert!(w.ty.same_as(&ty::raw("Bool")));
}

#[test]
fn logical_and_control_expressions() {
    assert!(Hir::logical_not(Hir::boolean_literal(true)).ty.same_as(&ty::raw("Bool")));
    assert!(Hir::while_expression(Hir::boolean_literal(true), Hir::expressions(vec![]))
        .ty
        .same_as(&ty::raw("Void")));
    assert!(Hir::break_expression().ty.same_as(&ty::raw("Never")));
    assert!(Hir::float_literal(0x3ff0000000000000).ty.same_as(&ty::raw("Float")));
}

#[test]
fn class_literal_is_typed_as_its_metaclass() {
    let name = const_name(vec!["A".to_string(), "B".to_string()]);
    let e = Hir::class_literal(&name, 3);
    assert!(e.ty.same_as(&ty::meta("A::B")));
    match &e.node {
        HirExpressionBase::HirClassLiteral { fullname, str_literal_idx } => {
            assert_eq!(fullname.0, "A::B");
            assert_eq!(*str_literal_idx, 3);
        }
        _ => panic!("not a class literal"),
    }
}
