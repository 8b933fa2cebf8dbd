use shiika::error::ErrorDetails;
use shiika::hir::convert_exprs::{find_var, LVarInfo};
use shiika::hir::ctx_stack::CtxStack;
use shiika::hir::hir_maker_context::{HirMakerContext, LambdaCaptureDetail};
use shiika::hir::signature::{MethodParam, MethodSignature};
use shiika::names::{class_firstname, class_fullname, method_fullname, Namespace};
use shiika::ty;

fn method_ctx(class: &str, name: &str, params: Vec<MethodParam>, typarams: Vec<String>) -> HirMakerContext {
    let sig = MethodSignature {
        fullname: method_fullname(&class_fullname(class), name),
        ret_ty: ty::raw("Void"),
        params,
        typarams,
    };
    HirMakerContext::method(sig, None)
}

fn param(name: &str, t: &str) -> MethodParam {
    MethodParam { name: name.to_string(), ty: ty::raw(t) }
}

fn class_ctx(name: &str, typarams: Vec<String>) -> HirMakerContext {
    HirMakerContext::class(Namespace::root().add(&class_firstname(name)), typarams)
}

#[test]
fn describe_and_self_ty() {
    let mut s = CtxStack::new(vec![HirMakerContext::toplevel()]);
    assert_eq!(s.describe_current_place(), "toplevel");
    assert!(s.self_ty().same_as(&ty::raw("Object")));
    s.push(class_ctx("A", vec![]));
    assert_eq!(s.describe_current_place(), "A");
    assert!(s.self_ty().same_as(&ty::meta("A")));
    s.push(method_ctx("A", "foo", vec![], vec![]));
    assert_eq!(s.describe_current_place(), "A#foo");
    assert!(s.self_ty().same_as(&ty::raw("A")));
    s.push(HirMakerContext::lambda(true, vec![]));
    assert_eq!(s.describe_current_place(), "A#foo");
    assert!(!s.in_initializer());
    let m = s.pop_lambda_ctx();
    assert!(m.is_fn);
    let m = s.pop_method_ctx();
    assert_eq!(m.signature.fullname.full_name, "A#foo");
    assert_eq!(s.len(), 2);
}

#[test]
fn typarams_in_scope() {
    let mut s = CtxStack::new(vec![HirMakerContext::toplevel()]);
    s.push(class_ctx("A", vec!["T".to_string()]));
    assert!(s.lookup_typaram("T").is_none());
    s.push(method_ctx("A", "foo", vec![], vec!["U".to_string()]));
    assert_eq!(s.current_class_typarams(), vec!["T".to_string()]);
    assert_eq!(s.current_method_typarams(), vec!["U".to_string()]);
    let t = s.lookup_typaram("T").unwrap();
    assert!(t.same_as(&ty::typaram("T", ty::TyParamKind::Class, 0)));
    let u = s.lookup_typaram("U").unwrap();
    assert!(u.same_as(&ty::typaram("U", ty::TyParamKind::Method, 0)));
    assert!(s.lookup_typaram("V").is_none());
}

#[test]
fn const_scopes_go_out_to_the_toplevel() {
    let mut s = CtxStack::new(vec![HirMakerContext::toplevel()]);
    s.push(class_ctx("A", vec![]));
    s.push(method_ctx("A", "foo", vec![], vec![]));
    let mut it = s.const_scopes();
    assert_eq!(it.next().unwrap().string(), "A");
    assert_eq!(it.next().unwrap().string(), "");
    assert!(it.next().is_none());
}

#[test]
fn find_var_in_the_current_scope() {
    let mut s = CtxStack::new(vec![HirMakerContext::toplevel()]);
    s.push(method_ctx("A", "foo", vec![param("a", "Int")], vec![]));
    s.declare_lvar("x", ty::raw("Bool"), true);
    match find_var(&mut s, "x", false) {
        Ok(Some(LVarInfo::CurrentScope { ty, name })) => {
            assert!(ty.same_as(&ty::raw("Bool")));
            assert_eq!(name, "x");
        }
        _ => panic!("x not found"),
    }
    match find_var(&mut s, "a", false) {
        Ok(Some(LVarInfo::Argument { ty, idx })) => {
            assert!(ty.same_as(&ty::raw("Int")));
            assert_eq!(idx, 0);
        }
        _ => panic!("a not found"),
    }
    assert!(matches!(find_var(&mut s, "nothing", false), Ok(None)));
}

#[test]
fn find_var_errors_on_updates() {
    let mut s = CtxStack::new(vec![HirMakerContext::toplevel()]);
    s.push(method_ctx("A", "foo", vec![param("a", "Int")], vec![]));
    s.declare_lvar("x", ty::raw("Bool"), true);
    match find_var(&mut s, "x", true) {
        Err(e) => {
            assert_eq!(e.details, ErrorDetails::ProgramError);
            assert_eq!(e.msg, "cannot reassign to `x' (Hint: declare it with `var')");
        }
        _ => panic!("must be an error"),
    }
    match find_var(&mut s, "a", true) {
        Err(e) => assert_eq!(e.msg, "you cannot reassign to argument `a'"),
        _ => panic!("must be an error"),
    }
    s.declare_lvar("y", ty::raw("Int"), false);
    assert!(matches!(find_var(&mut s, "y", true), Ok(Some(LVarInfo::CurrentScope { .. }))));
}

#[test]
fn find_var_captures_outer_variables() {
    let mut s = CtxStack::new(vec![HirMakerContext::toplevel()]);
    s.push(method_ctx("A", "foo", vec![param("a", "Int")], vec![]));
    s.declare_lvar("x", ty::raw("Bool"), false);
    s.push(HirMakerContext::lambda(true, vec![param("b", "Int")]));
    // the lambda's own argument
    assert!(matches!(find_var(&mut s, "b", false), Ok(Some(LVarInfo::Argument { idx: 0, .. }))));
    // an outer local variable is captured
    match find_var(&mut s, "x", false) {
        Ok(Some(LVarInfo::OuterScope { ty, cidx, readonly })) => {
            assert!(ty.same_as(&ty::raw("Bool")));
            assert_eq!(cidx, 0);
            assert!(!readonly);
        }
        _ => panic!("x must be captured"),
    }
    // an outer argument is captured, readonly, as the next capture
    match find_var(&mut s, "a", false) {
        Ok(Some(LVarInfo::OuterScope { cidx, readonly, .. })) => {
            assert_eq!(cidx, 1);
            assert!(readonly);
        }
        _ => panic!("a must be captured"),
    }
    let l = s.lambda_ctx().unwrap();
    assert_eq!(l.captures.len(), 2);
    assert_eq!(l.captures[0].ctx_depth, -1);
    assert!(matches!(&l.captures[0].detail, LambdaCaptureDetail::CapLVar { name } if name == "x"));
    assert!(matches!(l.captures[1].detail, LambdaCaptureDetail::CapFnArg { idx: 0 }));
}
