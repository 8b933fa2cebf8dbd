use shiika::hir::signature::MethodSignature;
use shiika::hir::sk_class::{SkClass, SkClasses};
use shiika::hir::superclass::Superclass;
use shiika::mir::vtable::{VTable, VTables};
use shiika::names::{class_fullname, method_firstname, method_fullname};
use shiika::str_map::StrMap;
use shiika::ty;

fn sig(class: &str, name: &str) -> MethodSignature {
    MethodSignature {
        fullname: method_fullname(&class_fullname(class), name),
        ret_ty: ty::raw("Void"),
        params: vec![],
        typarams: vec![],
    }
}

fn class(name: &str, superclass: Option<&str>, methods: &[&str]) -> SkClass {
    let mut method_sigs = StrMap::new();
    for m in methods {
        method_sigs.insert(m.to_string(), sig(name, m));
    }
    SkClass {
        fullname: class_fullname(name),
        typarams: vec![],
        superclass: superclass.map(Superclass::simple),
        instance_ty: ty::raw(name),
        ivars: StrMap::new(),
        method_sigs,
        is_final: Some(false),
        const_is_obj: false,
        foreign: false,
    }
}

fn names(v: &VTable) -> Vec<String> {
    v.to_vec().iter().map(|n| n.full_name.clone()).collect()
}

#[test]
fn build_sorts_the_methods_of_a_root_class() {
    let c = class("Object", None, &["zoo", "bar", "foo"]);
    let v = VTable::build(&VTable::null(), &c);
    assert_eq!(names(&v), vec!["Object#bar", "Object#foo", "Object#zoo"]);
    assert_eq!(*v.get(&method_firstname("bar")), 0);
    assert_eq!(*v.get(&method_firstname("zoo")), 2);
}

#[test]
fn build_keeps_the_slots_of_the_superclass() {
    let a = class("A", None, &["foo", "bar"]);
    let va = VTable::build(&VTable::null(), &a);
    let b = class("B", Some("A"), &["foo", "baz", "aaa"]);
    let vb = VTable::build(&va, &b);
    // `bar` and `foo` keep their slots; `foo` is overridden; new ones come after, sorted
    assert_eq!(names(&vb), vec!["A#bar", "B#foo", "B#aaa", "B#baz"]);
    assert_eq!(*vb.get(&method_firstname("foo")), *va.get(&method_firstname("foo")));
    assert_eq!(*vb.get(&method_firstname("bar")), *va.get(&method_firstname("bar")));
    assert_eq!(*vb.get(&method_firstname("aaa")), 2);
    assert_eq!(*vb.get(&method_firstname("baz")), 3);
}

#[test]
fn vtables_of_a_hierarchy() {
    let mut classes: SkClasses = StrMap::new();
    // a subclass listed before its superclass
    classes.insert("B".to_string(), class("B", Some("A"), &["m2", "m1"]));
    classes.insert("A".to_string(), class("A", Some("Object"), &["m1"]));
    classes.insert("Object".to_string(), class("Object", None, &["inspect"]));
    let vts = VTables::build(&classes);
    assert_eq!(vts.iter().len(), 3);
    let obj = ty::raw("Object");
    let a = ty::raw("A");
    let b = ty::raw("B");
    assert_eq!(*vts.method_idx(&obj, &method_firstname("inspect")), 0);
    assert_eq!(*vts.method_idx(&a, &method_firstname("inspect")), 0);
    assert_eq!(*vts.method_idx(&a, &method_firstname("m1")), 1);
    assert_eq!(*vts.method_idx(&b, &method_firstname("inspect")), 0);
    assert_eq!(*vts.method_idx(&b, &method_firstname("m1")), 1);
    assert_eq!(*vts.method_idx(&b, &method_firstname("m2")), 2);
}

#[test]
fn build_on_null_lists_method_names() {
    let c = class("A", None, &["m", "c", "x", "a"]);
    let v = VTable::build(&VTable::null(), &c);
    let listed: Vec<String> = c.method_names().iter().map(|n| n.full_name.clone()).collect();
    assert_eq!(names(&v), listed);
    for (i, n) in v.to_vec().iter().enumerate() {
        assert_eq!(*v.get(&n.first_name), i);
    }
}
