use shiika::ast::{AstMethodSignature, Param};
use shiika::hir::signature::{
    convert_params, convert_typ, create_signature, find_param, signature_of_initialize, signature_of_new, MethodParam,
    MethodSignature,
};
use shiika::hir::sk_class::SkClass;
use shiika::hir::superclass::Superclass;
use shiika::names::{class_fullname, const_name, method_firstname, method_fullname, ConstName};
use shiika::str_map::StrMap;
use shiika::ty;
use shiika::ty::{TyParam, TyParamKind};

fn cn(s: &str) -> ConstName {
    const_name(vec![s.to_string()])
}

#[test]
fn convert_written_types() {
    let t = convert_typ(&cn("T"), &["T".to_string()], &["T".to_string()]);
    // class type parameters come first
    assert!(t.same_as(&ty::typaram("T", TyParamKind::Class, 0)));
    let u = convert_typ(&cn("U"), &[], &["X".to_string(), "U".to_string()]);
    assert!(u.same_as(&ty::typaram("U", TyParamKind::Method, 1)));
    let a = convert_typ(&ConstName { names: vec!["Array".to_string()], args: vec![cn("Int")] }, &[], &[]);
    assert!(a.same_as(&ty::ary(ty::raw("Int"))));
    let n = convert_typ(&const_name(vec!["A".to_string(), "B".to_string()]), &[], &[]);
    assert!(n.same_as(&ty::raw("A::B")));
}

#[test]
fn create_signatures() {
    let sig = AstMethodSignature {
        name: method_firstname("foo"),
        typarams: vec!["U".to_string()],
        params: vec![Param { name: "a".to_string(), typ: cn("T"), is_iparam: false }],
        ret_typ: Some(cn("U")),
    };
    let s = create_signature(&class_fullname("A"), &sig, &["T".to_string()]);
    assert_eq!(s.fullname.full_name, "A#foo");
    assert_eq!(s.first_name().0, "foo");
    assert!(s.ret_ty.same_as(&ty::typaram("U", TyParamKind::Method, 0)));
    assert!(s.params[0].ty.same_as(&ty::typaram("T", TyParamKind::Class, 0)));
    // specialize the class and method type parameters
    let sp = s.specialize(&[ty::raw("Int")], &[ty::raw("Bool")]);
    assert!(sp.ret_ty.same_as(&ty::raw("Bool")));
    assert!(sp.params[0].ty.same_as(&ty::raw("Int")));
    // the default return type is Void
    let sig2 = AstMethodSignature { name: method_firstname("bar"), typarams: vec![], params: vec![], ret_typ: None };
    assert!(create_signature(&class_fullname("A"), &sig2, &[]).ret_ty.same_as(&ty::raw("Void")));
    let ps = convert_params(&sig.params, &[], &[]);
    assert!(ps[0].ty.same_as(&ty::raw("T")));
}

#[test]
fn new_and_initialize() {
    let params = vec![MethodParam { name: "x".to_string(), ty: ty::raw("Int") }];
    let n = signature_of_new(&class_fullname("Meta:A"), params, &ty::raw("A"));
    assert_eq!(n.fullname.full_name, "Meta:A#new");
    assert!(n.ret_ty.same_as(&ty::raw("A")));
    let i = signature_of_initialize(&class_fullname("A"), vec![]);
    assert_eq!(i.fullname.full_name, "A#initialize");
    assert!(i.ret_ty.same_as(&ty::raw("Void")));
    let ps = vec![
        MethodParam { name: "a".to_string(), ty: ty::raw("Int") },
        MethodParam { name: "b".to_string(), ty: ty::raw("Bool") },
    ];
    let (idx, p) = find_param(&ps, "b").unwrap();
    assert_eq!(idx, 1);
    assert!(p.ty.same_as(&ty::raw("Bool")));
    assert!(find_param(&ps, "c").is_none());
}

#[test]
fn superclasses() {
    assert!(Superclass::default().ty().same_as(&ty::raw("Object")));
    assert!(Superclass::simple("A").ty().same_as(&ty::raw("A")));
    let s = Superclass::new(ty::spe("Array", vec![ty::typaram("T", TyParamKind::Class, 0)]));
    let t = s.substitute(&[ty::raw("Int")]);
    assert_eq!(t.ty().fullname.0, "Array<Int>");
    let f = Superclass::from_const_name(&ConstName { names: vec!["Array".to_string()], args: vec![cn("T")] }, &["T".to_string()]);
    assert!(f.ty().same_as(s.ty()));
}

fn sig(class: &str, name: &str) -> MethodSignature {
    MethodSignature {
        fullname: method_fullname(&class_fullname(class), name),
        ret_ty: ty::typaram("T", TyParamKind::Class, 0),
        params: vec![],
        typarams: vec![],
    }
}

#[test]
fn classes() {
    let mut method_sigs = StrMap::new();
    method_sigs.insert("b".to_string(), sig("Meta:Box", "b"));
    method_sigs.insert("a".to_string(), sig("Meta:Box", "a"));
    let c = SkClass {
        fullname: class_fullname("Meta:Box"),
        typarams: vec![TyParam { name: "T".to_string() }],
        superclass: Some(Superclass::simple("Class")),
        instance_ty: ty::meta("Box"),
        ivars: StrMap::new(),
        method_sigs,
        is_final: None,
        const_is_obj: false,
        foreign: false,
    };
    let names: Vec<String> = c.method_names().iter().map(|n| n.full_name.clone()).collect();
    assert_eq!(names, vec!["Meta:Box#a", "Meta:Box#b"]);
    assert!(c.class_ty().same_as(&ty::class()));
    let m = c.specialized_meta(&[ty::raw("Int")]);
    assert_eq!(m.fullname.0, "Meta:Box<Int>");
    assert!(m.method_sigs.get("a").unwrap().ret_ty.same_as(&ty::raw("Int")));
}

#[test]
fn string_maps() {
    let mut m: StrMap<i32> = StrMap::new();
    m.insert("a".to_string(), 1);
    m.insert("b".to_string(), 2);
    m.insert("a".to_string(), 3);
    assert_eq!(m.len(), 2);
    assert_eq!(m.get("a"), Some(&3));
    assert!(m.contains_key("b"));
    assert!(!m.contains_key("c"));
    *m.get_mut("b").unwrap() = 5;
    assert_eq!(m.get("b"), Some(&5));
    let mut o: StrMap<i32> = StrMap::new();
    o.insert("c".to_string(), 7);
    o.insert("a".to_string(), 8);
    m.extend(o);
    assert_eq!(m.get("a"), Some(&8));
    assert_eq!(m.get("c"), Some(&7));
    assert_eq!(m.key_at(0), "a");
    assert_eq!(*m.value_at(2), 7);
}
