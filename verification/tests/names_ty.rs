use shiika::names::{
    class_firstname, class_fullname, const_firstname, const_fullname, const_name, metaclass_fullname,
    method_firstname, method_fullname, ConstName, Namespace,
};
use shiika::ty;
use shiika::ty::TyParamKind;

#[test]
fn class_names() {
    assert_eq!(class_firstname("B").add_namespace("").0, "B");
    assert_eq!(class_firstname("B").add_namespace("A").0, "A::B");
    assert_eq!(metaclass_fullname("Int").0, "Meta:Int");
    // `Class` is its own metaclass
    assert_eq!(metaclass_fullname("Class").0, "Class");
    assert_eq!(class_fullname("Class").meta_name().0, "Class");
    assert_eq!(class_fullname("Foo").meta_name().0, "Meta:Foo");
    assert!(class_fullname("Meta:Foo").is_meta());
    assert!(!class_fullname("Foo").is_meta());
}

#[test]
fn class_name_to_type() {
    let t = class_fullname("Meta:Foo").to_ty();
    assert_eq!(t.fullname.0, "Meta:Foo");
    assert!(t.same_as(&ty::meta("Foo")));
    assert!(class_fullname("Foo").to_ty().same_as(&ty::raw("Foo")));
    assert!(class_fullname("Foo").class_ty().same_as(&ty::meta("Foo")));
    assert!(class_fullname("Class").class_ty().same_as(&ty::class()));
}

#[test]
fn method_names() {
    let f = method_fullname(&class_fullname("Foo"), "bar");
    assert_eq!(f.full_name, "Foo#bar");
    assert_eq!(f.first_name.0, "bar");
    assert!(!f.is_class_method());
    assert!(method_fullname(&class_fullname("Meta:Foo"), "new").is_class_method());
    assert!(method_fullname(&class_fullname("Fn1"), "call").is_fn_x_call());
    assert!(!method_fullname(&class_fullname("Fn"), "call").is_fn_x_call());
    assert_eq!(method_firstname("foo").append("=").0, "foo=");
}

#[test]
fn const_names() {
    assert_eq!(const_firstname("A").add_namespace("B").0, "::B::A");
    assert_eq!(const_fullname("::A").0, "::A");
    let c = const_name(vec!["A".to_string(), "B".to_string()]);
    assert_eq!(c.string(), "A::B");
    assert_eq!(c.fullname(), "::A::B");
    assert_eq!(c.under_namespace("").0, "::A::B");
    assert_eq!(c.under_namespace("X").0, "::X::A::B");
    assert_eq!(c.to_const_fullname().0, "::A::B");
    assert_eq!(c.to_class_fullname().0, "A::B");
    let g = ConstName {
        names: vec!["Pair".to_string()],
        args: vec![const_name(vec!["Int".to_string()]), const_name(vec!["T".to_string()])],
    };
    assert_eq!(g.string(), "Pair<Int,T>");
    let t = g.to_ty(&["T".to_string()], &[]);
    assert_eq!(t.fullname.0, "Pair<Int,T>");
    assert!(t.same_as(&ty::spe("Pair", vec![ty::raw("Int"), ty::typaram("T", TyParamKind::Class, 0)])));
}

#[test]
fn namespaces() {
    let ns = Namespace::root();
    assert_eq!(ns.string(), "");
    let ns = ns.add(&class_firstname("A")).add(&class_firstname("B"));
    assert_eq!(ns.string(), "A::B");
    assert_eq!(ns.class_fullname(&class_firstname("C")).0, "A::B::C");
    assert_eq!(Namespace::root().class_fullname(&class_firstname("C")).0, "C");
}

#[test]
fn type_names() {
    assert_eq!(ty::raw("Int").fullname.0, "Int");
    assert_eq!(ty::meta("Int").fullname.0, "Meta:Int");
    assert_eq!(ty::meta("Class").fullname.0, "Class");
    assert_eq!(ty::ary(ty::raw("Int")).fullname.0, "Array<Int>");
    let p = ty::spe("Pair", vec![ty::raw("Int"), ty::ary(ty::raw("Bool"))]);
    assert_eq!(p.fullname.0, "Pair<Int,Array<Bool>>");
    assert_eq!(p.meta_ty().fullname.0, "Meta:Pair<Int,Array<Bool>>");
    assert_eq!(p.erasure().0, "Pair");
    assert_eq!(p.meta_ty().erasure().0, "Meta:Pair");
    assert_eq!(p.tyargs().len(), 2);
    assert!(ty::raw("Int").meta_ty().same_as(&ty::meta("Int")));
}

#[test]
fn substitution() {
    let t = ty::spe("Pair", vec![ty::typaram("S", TyParamKind::Class, 0), ty::typaram("U", TyParamKind::Method, 0)]);
    let s = t.substitute(&[ty::raw("Int")], &[ty::raw("Bool")]);
    assert_eq!(s.fullname.0, "Pair<Int,Bool>");
    // a parameter without an argument is kept
    let s2 = t.substitute(&[ty::raw("Int")], &[]);
    assert_eq!(s2.fullname.0, "Pair<Int,U>");
    // substituting nothing changes nothing
    let s3 = t.substitute(&[], &[]);
    assert!(s3.same_as(&t));
}

#[test]
fn type_predicates() {
    assert!(ty::raw("Never").is_never_type());
    assert!(ty::raw("Void").is_void_type());
    assert!(!ty::raw("Int").is_void_type());
    let f = ty::spe("Fn1", vec![ty::raw("Int"), ty::raw("Bool")]);
    assert!(f.fn_x_info().unwrap().same_as(&ty::raw("Bool")));
    assert!(ty::ary(ty::raw("Int")).fn_x_info().is_none());
    assert!(ty::raw("Int").equals_to(&ty::raw("Int")));
    assert!(ty::ary(ty::raw("Int")).same_base(&ty::ary(ty::raw("Bool"))));
    assert!(!ty::ary(ty::raw("Int")).equals_to(&ty::ary(ty::raw("Bool"))));
    assert!(ty::ary(ty::raw("Int")) == ty::ary(ty::raw("Int")));
    assert!(ty::ary(ty::raw("Int")) != ty::ary(ty::raw("Bool")));
}
