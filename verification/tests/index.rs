use shiika::ast::{AstMethodSignature, Definition, EnumCase, Param};
use shiika::error::ErrorDetails;
use shiika::hir::class_dict::class_index;
use shiika::hir::index::Index;
use shiika::hir::sk_class::SkClasses;
use shiika::names::{class_firstname, class_fullname, const_name, method_firstname};
use shiika::str_map::StrMap;
use shiika::ty;

fn msig(name: &str, params: Vec<Param>) -> AstMethodSignature {
    AstMethodSignature { name: method_firstname(name), typarams: vec![], params, ret_typ: None }
}

fn param(name: &str, t: &str) -> Param {
    Param { name: name.to_string(), typ: const_name(vec![t.to_string()]), is_iparam: false }
}

fn imethod(name: &str, params: Vec<Param>) -> Definition {
    Definition::InstanceMethodDefinition { sig: msig(name, params), body_exprs: vec![] }
}

fn cmethod(name: &str) -> Definition {
    Definition::ClassMethodDefinition { sig: msig(name, vec![]), body_exprs: vec![] }
}

fn class_def(name: &str, typarams: &[&str], defs: Vec<Definition>) -> Definition {
    Definition::ClassDefinition {
        name: class_firstname(name),
        typarams: typarams.iter().map(|s| s.to_string()).collect(),
        superclass: None,
        defs,
    }
}

#[test]
fn index_a_new_class() {
    let mut idx = Index::new();
    let defs = vec![class_def(
        "A",
        &[],
        vec![imethod("initialize", vec![param("x", "Int")]), imethod("foo", vec![]), cmethod("bar")],
    )];
    assert!(idx.index_program(&defs).is_ok());
    let a = idx.find_class(&class_fullname("A")).unwrap();
    assert_eq!(a.superclass_fullname.as_ref().unwrap().0, "Object");
    assert!(a.instance_ty.same_as(&ty::raw("A")));
    let foo = idx.find_method(&class_fullname("A"), &method_firstname("foo")).unwrap();
    assert_eq!(foo.fullname.full_name, "A#foo");
    assert!(foo.ret_ty.same_as(&ty::raw("Void")));
    let bar = idx.find_method(&class_fullname("Meta:A"), &method_firstname("bar")).unwrap();
    assert_eq!(bar.fullname.full_name, "Meta:A#bar");
    // `.new` takes the parameters of `#initialize`
    let new = idx.find_method(&class_fullname("Meta:A"), &method_firstname("new")).unwrap();
    assert_eq!(new.fullname.full_name, "Meta:A#new");
    assert_eq!(new.params.len(), 1);
    assert_eq!(new.params[0].name, "x");
    assert!(new.params[0].ty.same_as(&ty::raw("Int")));
    assert!(new.ret_ty.same_as(&ty::raw("A")));
    assert!(idx.class_exists("Meta:A"));
    assert!(!idx.class_exists("B"));
}

#[test]
fn object_has_no_superclass() {
    let mut idx = Index::new();
    assert!(idx.index_program(&vec![class_def("Object", &[], vec![])]).is_ok());
    assert!(idx.find_class(&class_fullname("Object")).unwrap().superclass_fullname.is_none());
}

#[test]
fn reopening_a_class_merges_methods() {
    let mut idx = Index::new();
    let defs = vec![
        class_def("A", &[], vec![imethod("foo", vec![])]),
        class_def("A", &[], vec![imethod("baz", vec![]), cmethod("new")]),
    ];
    assert!(idx.index_program(&defs).is_ok());
    assert!(idx.find_method(&class_fullname("A"), &method_firstname("foo")).is_some());
    assert!(idx.find_method(&class_fullname("A"), &method_firstname("baz")).is_some());
    assert_eq!(idx.classes.len(), 2);
}

#[test]
fn methods_cannot_be_at_the_toplevel() {
    let mut idx = Index::new();
    let defs = vec![class_def("A", &[], vec![]), imethod("foo", vec![]), class_def("B", &[], vec![])];
    match idx.index_program(&defs) {
        Err(e) => {
            assert_eq!(e.details, ErrorDetails::SyntaxError);
            assert!(e.msg.starts_with("must not be toplevel: InstanceMethodDefinition"));
        }
        Ok(_) => panic!("must be an error"),
    }
    // indexing stopped at the method
    assert!(idx.class_exists("A"));
    assert!(!idx.class_exists("B"));
}

#[test]
fn class_index_collects_nested_classes_and_enums() {
    let inner = class_def("B", &["T"], vec![]);
    let e = Definition::EnumDefinition {
        name: class_firstname("E"),
        typarams: vec!["U".to_string()],
        cases: vec![EnumCase { name: class_firstname("C"), typarams: vec![], params: vec![] }],
    };
    let defs = vec![class_def("A", &[], vec![inner, e])];
    let core: SkClasses = StrMap::new();
    let cindex = class_index::create(&defs, &core, &core);
    assert!(cindex.get("A").unwrap().is_empty());
    assert_eq!(cindex.get("A::B").unwrap()[0].name, "T");
    assert_eq!(cindex.get("A::E").unwrap()[0].name, "U");
    assert_eq!(cindex.get("A::E::C").unwrap()[0].name, "U");
    assert!(cindex.get("B").is_none());
}
