use shiika::ast::{Definition, Program, TopLevelItem};
use shiika::hir::class_dict;
use shiika::hir::class_dict::ClassDict;
use shiika::hir::sk_class::{SkClass, SkClasses};
use shiika::hir::superclass::Superclass;
use shiika::names::{class_firstname, class_fullname, ConstName};
use shiika::str_map::StrMap;
use shiika::ty;
use shiika::ty::TermTy;

/// `class name<typarams> : superclass; end`
fn class(name: &str, typarams: &[&str], superclass: Option<ConstName>) -> Definition {
    Definition::ClassDefinition {
        name: class_firstname(name),
        typarams: typarams.iter().map(|s| s.to_string()).collect(),
        superclass,
        defs: vec![],
    }
}

/// The superclass written as `name<args..>`
fn sup(name: &str, args: &[&str], _typarams: &[&str]) -> ConstName {
    ConstName {
        names: vec![name.to_string()],
        args: args
            .iter()
            .map(|a| ConstName { names: vec![a.to_string()], args: vec![] })
            .collect(),
    }
}

/// The classes the tests import: the core library, and `Fn`, the superclass of the function
/// classes, which the builtin library defines
fn core_classes() -> SkClasses {
    let mut m = shiika::corelib::create().sk_classes;
    let f = SkClass {
        fullname: class_fullname("Fn"),
        typarams: vec![],
        superclass: None,
        instance_ty: ty::raw("Fn"),
        ivars: StrMap::new(),
        method_sigs: StrMap::new(),
        is_final: Some(false),
        const_is_obj: false,
        foreign: true,
    };
    m.insert("Fn".to_string(), f);
    m
}

/// Index the class definitions `program` and query the class dictionary made from them
fn test_class_dict<F>(program: Vec<Definition>, f: F)
where
    F: FnOnce(ClassDict),
{
    let core_lib = core_classes();
    let ast = Program { toplevel_items: program.into_iter().map(TopLevelItem::Def).collect() };
    let class_dict = class_dict::create(&ast, StrMap::new(), &core_lib).unwrap();
    f(class_dict);
}

fn ty_eq(a: &Option<TermTy>, b: &Option<TermTy>) -> bool {
    match (a, b) {
        (Some(x), Some(y)) => x.same_as(y),
        (None, None) => true,
        _ => false,
    }
}

#[test]
fn test_supertype_default() {
    test_class_dict(vec![], |class_dict| {
        assert!(ty_eq(
            &class_dict.supertype(&ty::ary(ty::raw("Int"))),
            &Some(ty::raw("Object"))
        ))
    })
}

#[test]
fn test_supertype_gen() {
    // class A<S, T> : Array<T>
    let a = class("A", &["S", "T"], Some(sup("Array", &["T"], &["S", "T"])));
    test_class_dict(vec![a], |class_dict| {
        assert!(ty_eq(
            &class_dict.supertype(&ty::spe("A", vec![ty::raw("Int"), ty::raw("Bool")])),
            &Some(ty::ary(ty::raw("Bool")))
        ))
    })
}

#[test]
fn test_is_descendant_simple() {
    // class A; end
    let a = class("A", &[], None);
    test_class_dict(vec![a], |class_dict| {
        assert!(class_dict.is_descendant(&ty::raw("A"), &ty::raw("Object")));
    })
}

#[test]
fn test_is_descendant_simple_inheritance() {
    // class A; end
    // class B : A; end
    let a = class("A", &[], None);
    let b = class("B", &[], Some(sup("A", &[], &[])));
    test_class_dict(vec![a, b], |class_dict| {
        assert!(class_dict.is_descendant(&ty::raw("B"), &ty::raw("A")));
        assert!(class_dict.is_descendant(&ty::raw("B"), &ty::raw("Object")));
    })
}

#[test]
fn test_is_descendant_inherit_spe() {
    // class A : Array<Int>; end
    let a = class("A", &[], Some(sup("Array", &["Int"], &[])));
    test_class_dict(vec![a], |class_dict| {
        assert!(class_dict.is_descendant(&ty::raw("A"), &ty::ary(ty::raw("Int"))));
        assert!(class_dict.is_descendant(&ty::raw("A"), &ty::raw("Object")));
    })
}

#[test]
fn test_is_descendant_inherit_gen() {
    // class MyMaybe<T>; end
    // class MySome<T> : MyMaybe<T>; end
    let maybe = class("MyMaybe", &["T"], None);
    let some = class("MySome", &["T"], Some(sup("MyMaybe", &["T"], &["T"])));
    test_class_dict(vec![maybe, some], |class_dict| {
        let some_int = ty::spe("MySome", vec![ty::raw("Int")]);
        let maybe_int = ty::spe("MyMaybe", vec![ty::raw("Int")]);
        assert!(class_dict.is_descendant(&some_int, &maybe_int));
    })
}

#[test]
fn test_is_descendant_invariant() {
    // class A<T>; end
    let a = class("A", &["T"], None);
    test_class_dict(vec![a], |class_dict| {
        let a_int = ty::spe("A", vec![ty::raw("Int")]);
        let a_obj = ty::spe("A", vec![ty::raw("Object")]);
        assert!(!class_dict.is_descendant(&a_int, &a_obj));
    })
}

#[test]
fn test_conforms_some() {
    // class MyMaybe<T>; end
    // class MySome<T> : MyMaybe<T>; end
    let maybe = class("MyMaybe", &["T"], None);
    let some = class("MySome", &["T"], Some(sup("MyMaybe", &["T"], &["T"])));
    test_class_dict(vec![maybe, some], |class_dict| {
        let some_int = ty::spe("MySome", vec![ty::raw("Int")]);
        let maybe_int = ty::spe("MyMaybe", vec![ty::raw("Int")]);
        assert!(class_dict.conforms(&some_int, &maybe_int));
    })
}

#[test]
fn test_conforms_none() {
    // class MyMaybe<T>; end
    // class MyNone : MyMaybe<Never>; end
    let maybe = class("MyMaybe", &["T"], None);
    let none = class("MyNone", &[], Some(sup("MyMaybe", &["Never"], &[])));
    test_class_dict(vec![maybe, none], |class_dict| {
        let none = ty::raw("MyNone");
        let maybe_int = ty::spe("MyMaybe", vec![ty::raw("Int")]);
        assert!(class_dict.conforms(&none, &maybe_int));
    })
}

#[test]
fn test_conforms_invalid() {
    test_class_dict(vec![], |class_dict| {
        let a = ty::raw("Int");
        let b = ty::raw("Bool");
        assert!(!class_dict.conforms(&a, &b));
    })
}

#[test]
fn test_conforms_not() {
    // class A : Array<Int>; end
    // class B : Array<Bool>; end
    let a = class("A", &[], Some(sup("Array", &["Int"], &[])));
    let b = class("B", &[], Some(sup("Array", &["Bool"], &[])));
    test_class_dict(vec![a, b], |class_dict| {
        let a = ty::raw("A");
        let b = ty::raw("B");
        assert!(!class_dict.conforms(&a, &b));
    })
}

#[test]
fn test_conforms_void_func() {
    test_class_dict(vec![], |class_dict| {
        let a = ty::spe("Fn0", vec![ty::raw("Int")]);
        let b = ty::spe("Fn0", vec![ty::raw("Void")]);
        assert!(class_dict.conforms(&a, &b));
    })
}
