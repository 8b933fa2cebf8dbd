use shiika::ast::{AstMethodSignature, Definition, Program, TopLevelItem, Param};
use shiika::error::ErrorDetails;
use shiika::hir::class_dict;
use shiika::hir::class_dict::ClassDict;
use shiika::hir::signature::{MethodParam, MethodSignature};
use shiika::hir::sk_class::{SkClass, SkClasses};
use shiika::hir::superclass::Superclass;
use shiika::hir::SkIVar;
use shiika::names::{class_firstname, class_fullname, const_name, method_firstname, method_fullname, ConstName};
use shiika::str_map::StrMap;
use shiika::ty;

fn msig(name: &str, params: Vec<Param>) -> AstMethodSignature {
    AstMethodSignature { name: method_firstname(name), typarams: vec![], params, ret_typ: None }
}

fn param(name: &str, t: &str) -> Param {
    Param { name: name.to_string(), typ: const_name(vec![t.to_string()]), is_iparam: false }
}

fn imethod(name: &str, params: Vec<Param>) -> Definition {
    Definition::InstanceMethodDefinition { sig: msig(name, params), body_exprs: vec![] }
}

fn cmethod(name: &str) -> Definition {
    Definition::ClassMethodDefinition { sig: msig(name, vec![]), body_exprs: vec![] }
}

fn class_def(name: &str, typarams: &[&str], superclass: Option<ConstName>, defs: Vec<Definition>) -> Definition {
    Definition::ClassDefinition {
        name: class_firstname(name),
        typarams: typarams.iter().map(|s| s.to_string()).collect(),
        superclass,
        defs,
    }
}

fn program(defs: Vec<Definition>) -> Program {
    Program { toplevel_items: defs.into_iter().map(TopLevelItem::Def).collect() }
}

/// `Object` (with `#initialize(x: Int)`), `Class` (with one instance variable) and `Int`
fn core_classes() -> SkClasses {
    let mut object = SkClass {
        fullname: class_fullname("Object"),
        typarams: vec![],
        superclass: None,
        instance_ty: ty::raw("Object"),
        ivars: StrMap::new(),
        method_sigs: StrMap::new(),
        is_final: Some(false),
        const_is_obj: false,
        foreign: true,
    };
    object.method_sigs.insert(
        "initialize".to_string(),
        MethodSignature {
            fullname: method_fullname(&class_fullname("Object"), "initialize"),
            ret_ty: ty::raw("Void"),
            params: vec![MethodParam { name: "x".to_string(), ty: ty::raw("Int") }],
            typarams: vec![],
        },
    );
    let mut class = SkClass {
        fullname: class_fullname("Class"),
        typarams: vec![],
        superclass: Some(Superclass::default()),
        instance_ty: ty::raw("Class"),
        ivars: StrMap::new(),
        method_sigs: StrMap::new(),
        is_final: Some(false),
        const_is_obj: false,
        foreign: true,
    };
    class.ivars.insert(
        "@name".to_string(),
        SkIVar { idx: 0, name: "@name".to_string(), ty: ty::raw("String"), readonly: true },
    );
    let int = SkClass {
        fullname: class_fullname("Int"),
        typarams: vec![],
        superclass: Some(Superclass::default()),
        instance_ty: ty::raw("Int"),
        ivars: StrMap::new(),
        method_sigs: StrMap::new(),
        is_final: Some(true),
        const_is_obj: false,
        foreign: true,
    };
    let mut m = StrMap::new();
    m.insert("Object".to_string(), object);
    m.insert("Class".to_string(), class);
    m.insert("Int".to_string(), int);
    m
}

fn new_sig<'a>(dict: &'a ClassDict, class: &str) -> &'a MethodSignature {
    dict.find_method(&class_fullname(class), &method_firstname("new")).unwrap()
}

#[test]
fn create_indexes_a_class_and_its_metaclass() {
    let imported = core_classes();
    let ast = program(vec![class_def("A", &[], None, vec![imethod("foo", vec![]), cmethod("bar")])]);
    let dict = class_dict::create(&ast, StrMap::new(), &imported).unwrap();
    let a = dict.get_class(&class_fullname("A"));
    assert!(a.superclass.as_ref().unwrap().ty().same_as(&ty::raw("Object")));
    assert!(a.instance_ty.same_as(&ty::raw("A")));
    assert_eq!(a.is_final, Some(false));
    assert!(dict.find_method(&class_fullname("A"), &method_firstname("foo")).is_some());
    let meta = dict.get_class(&class_fullname("Meta:A"));
    assert!(meta.superclass.as_ref().unwrap().ty().same_as(&ty::raw("Class")));
    assert!(meta.instance_ty.same_as(&ty::meta("A")));
    // The metaclass has the instance variables of `Class`
    assert!(meta.ivars.get("@name").is_some());
    assert_eq!(meta.is_final, None);
    assert_eq!(
        dict.find_method(&class_fullname("Meta:A"), &method_firstname("bar")).unwrap().fullname.full_name,
        "Meta:A#bar"
    );
    // `.new` takes the parameters of the inherited `#initialize`
    let new = new_sig(&dict, "Meta:A");
    assert_eq!(new.fullname.full_name, "Meta:A#new");
    assert_eq!(new.params.len(), 1);
    assert_eq!(new.params[0].name, "x");
    assert!(new.ret_ty.same_as(&ty::raw("A")));
}

#[test]
fn create_uses_an_explicit_initializer() {
    let imported = core_classes();
    let ast = program(vec![class_def(
        "A",
        &[],
        None,
        vec![imethod("initialize", vec![param("a", "Int"), param("b", "Int")])],
    )]);
    let dict = class_dict::create(&ast, StrMap::new(), &imported).unwrap();
    let new = new_sig(&dict, "Meta:A");
    assert_eq!(new.params.len(), 2);
    assert_eq!(new.params[0].name, "a");
    assert_eq!(new.params[1].name, "b");
}

#[test]
fn create_generic_class_new_returns_specialized() {
    let imported = core_classes();
    let ast = program(vec![class_def("Box", &["T"], None, vec![imethod("initialize", vec![param("v", "T")])])]);
    let dict = class_dict::create(&ast, StrMap::new(), &imported).unwrap();
    let new = new_sig(&dict, "Meta:Box");
    assert!(new.params[0].ty.same_as(&ty::typaram("T", ty::TyParamKind::Class, 0)));
    assert!(new.ret_ty.same_as(&ty::spe("Box", vec![ty::typaram("T", ty::TyParamKind::Class, 0)])));
    assert_eq!(dict.get_class(&class_fullname("Box")).typarams.len(), 1);
}

#[test]
fn create_indexes_nested_classes() {
    let imported = core_classes();
    let inner = class_def("B", &[], None, vec![imethod("baz", vec![])]);
    let ast = program(vec![class_def("A", &[], None, vec![inner, imethod("foo", vec![])])]);
    let dict = class_dict::create(&ast, StrMap::new(), &imported).unwrap();
    assert!(dict.class_exists("A::B"));
    assert!(dict.class_exists("Meta:A::B"));
    assert!(dict.find_method(&class_fullname("A::B"), &method_firstname("baz")).is_some());
    // Methods of the inner class are not the outer one's
    assert!(dict.find_method(&class_fullname("A"), &method_firstname("baz")).is_none());
}

#[test]
fn create_merges_a_reopened_class() {
    let imported = core_classes();
    let ast = program(vec![
        class_def("A", &[], None, vec![imethod("foo", vec![])]),
        class_def("A", &[], None, vec![imethod("bar", vec![]), cmethod("baz")]),
    ]);
    let dict = class_dict::create(&ast, StrMap::new(), &imported).unwrap();
    assert!(dict.find_method(&class_fullname("A"), &method_firstname("foo")).is_some());
    assert!(dict.find_method(&class_fullname("A"), &method_firstname("bar")).is_some());
    assert!(dict.find_method(&class_fullname("Meta:A"), &method_firstname("baz")).is_some());
    assert!(dict.find_method(&class_fullname("Meta:A"), &method_firstname("new")).is_some());
}

#[test]
fn create_with_a_subclass_of_an_indexed_class() {
    let imported = core_classes();
    let ast = program(vec![
        class_def("A", &[], None, vec![imethod("initialize", vec![param("s", "Int")])]),
        class_def("B", &[], Some(const_name(vec!["A".to_string()])), vec![]),
    ]);
    let dict = class_dict::create(&ast, StrMap::new(), &imported).unwrap();
    let b = dict.get_class(&class_fullname("B"));
    assert!(b.superclass.as_ref().unwrap().ty().same_as(&ty::raw("A")));
    // `B.new` takes the parameters of `A#initialize`
    let new = new_sig(&dict, "Meta:B");
    assert_eq!(new.params.len(), 1);
    assert_eq!(new.params[0].name, "s");
}

#[test]
fn create_rejects_an_unknown_superclass() {
    let imported = core_classes();
    let ast = program(vec![class_def("A", &[], Some(const_name(vec!["Nope".to_string()])), vec![
        imethod("initialize", vec![]),
    ])]);
    let e = class_dict::create(&ast, StrMap::new(), &imported).err().unwrap();
    assert_eq!(e.details, ErrorDetails::NameError);
    assert_eq!(e.msg, "unknown superclass: ClassFullname(\"Nope\")");
}

#[test]
fn create_rejects_a_toplevel_method() {
    let imported = core_classes();
    let ast = program(vec![imethod("foo", vec![])]);
    let e = class_dict::create(&ast, StrMap::new(), &imported).err().unwrap();
    assert_eq!(e.details, ErrorDetails::SyntaxError);
    assert!(e.msg.starts_with("must not be toplevel: InstanceMethodDefinition"));
}

#[test]
fn index_program_skips_constants() {
    let imported = core_classes();
    let mut dict = ClassDict { sk_classes: StrMap::new(), imported_classes: &imported };
    let c = Definition::ConstDefinition { name: "X".to_string(), expr: shiika::ast::decimal_literal(1) };
    let a = class_def("A", &[], None, vec![]);
    assert!(dict.index_program(&[&c, &a]).is_ok());
    assert!(dict.class_exists("A"));
    assert!(!dict.class_exists("X"));
}

#[test]
fn create_specializes_an_inherited_initializer() {
    let imported = core_classes();
    let int_arg = ConstName { names: vec!["Int".to_string()], args: vec![] };
    let sup = ConstName { names: vec!["Box".to_string()], args: vec![int_arg] };
    let ast = program(vec![
        class_def("Box", &["T"], None, vec![imethod("initialize", vec![param("v", "T")])]),
        class_def("IntBox", &[], Some(sup), vec![]),
    ]);
    let dict = class_dict::create(&ast, StrMap::new(), &imported).unwrap();
    let new = new_sig(&dict, "Meta:IntBox");
    assert_eq!(new.params.len(), 1);
    assert_eq!(new.params[0].name, "v");
    assert!(new.params[0].ty.same_as(&ty::raw("Int")));
    assert!(new.ret_ty.same_as(&ty::raw("IntBox")));
}

fn cname(name: &str, args: &[&str]) -> ConstName {
    ConstName {
        names: vec![name.to_string()],
        args: args.iter().map(|a| ConstName { names: vec![a.to_string()], args: vec![] }).collect(),
    }
}

#[test]
fn create_then_query_generic_inheritance() {
    // class MyMaybe<T>; end
    // class MySome<T> : MyMaybe<T>; end
    let ast = program(vec![
        class_def("MyMaybe", &["T"], None, vec![]),
        class_def("MySome", &["T"], Some(cname("MyMaybe", &["T"])), vec![]),
    ]);
    let imported = core_classes();
    let dict = class_dict::create(&ast, StrMap::new(), &imported).unwrap();
    let some_int = ty::spe("MySome", vec![ty::raw("Int")]);
    let maybe_int = ty::spe("MyMaybe", vec![ty::raw("Int")]);
    assert!(dict.is_descendant(&some_int, &maybe_int));
    assert!(dict.is_descendant(&some_int, &ty::raw("Object")));
    assert!(!dict.is_descendant(&maybe_int, &some_int));
    assert!(dict.conforms(&some_int, &maybe_int));
    assert!(!dict.conforms(&maybe_int, &some_int));
    assert!(dict.supertype(&some_int).unwrap().same_as(&maybe_int));
}

#[test]
fn create_then_nearest_common_ancestor() {
    // class A; end
    // class B : A; end
    // class C : A; end
    let ast = program(vec![
        class_def("A", &[], None, vec![]),
        class_def("B", &[], Some(cname("A", &[])), vec![]),
        class_def("C", &[], Some(cname("A", &[])), vec![]),
    ]);
    let imported = core_classes();
    let dict = class_dict::create(&ast, StrMap::new(), &imported).unwrap();
    let b = ty::raw("B");
    let c = ty::raw("C");
    assert!(dict.nearest_common_ancestor(&b, &c).same_as(&ty::raw("A")));
    assert!(dict.nearest_common_ancestor(&c, &b).same_as(&ty::raw("A")));
    assert!(dict.nearest_common_ancestor(&b, &b).same_as(&b));
    assert!(dict.nearest_common_ancestor(&b, &ty::raw("Int")).same_as(&ty::raw("Object")));
}

#[test]
fn find_class_sees_only_the_indexed_classes() {
    let ast = program(vec![class_def("A", &[], None, vec![])]);
    let imported = core_classes();
    let dict = class_dict::create(&ast, StrMap::new(), &imported).unwrap();
    assert_eq!(dict.find_class(&class_fullname("A")).unwrap().fullname.0, "A");
    assert!(dict.find_class(&class_fullname("Meta:A")).is_some());
    assert!(dict.find_class(&class_fullname("Int")).is_none());
    assert!(dict.lookup_class(&class_fullname("Int")).is_some());
}
