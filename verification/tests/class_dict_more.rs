use shiika::error::ErrorDetails;
use shiika::hir::class_dict::ClassDict;
use shiika::hir::signature::{MethodParam, MethodSignature};
use shiika::hir::sk_class::{SkClass, SkClasses};
use shiika::hir::superclass::Superclass;
use shiika::hir::SkIVar;
use shiika::names::{class_fullname, method_firstname, method_fullname, ConstName};
use shiika::str_map::StrMap;
use shiika::ty;
use shiika::ty::{TyParam, TyParamKind};

fn class(name: &str, typarams: &[&str], superclass: Option<Superclass>) -> SkClass {
    SkClass {
        fullname: class_fullname(name),
        typarams: typarams.iter().map(|s| TyParam { name: s.to_string() }).collect(),
        superclass,
        instance_ty: ty::raw(name),
        ivars: StrMap::new(),
        method_sigs: StrMap::new(),
        is_final: Some(false),
        const_is_obj: false,
        foreign: false,
    }
}

fn sig(class: &str, name: &str, params: Vec<MethodParam>, ret: ty::TermTy) -> MethodSignature {
    MethodSignature {
        fullname: method_fullname(&class_fullname(class), name),
        ret_ty: ret,
        params,
        typarams: vec![],
    }
}

fn ivar(idx: usize, name: &str, t: ty::TermTy) -> SkIVar {
    SkIVar { idx, name: name.to_string(), ty: t, readonly: true }
}

/// Object, Int, and `Box<T>` with `#get -> T` and the ivar `@v: T`
fn core_classes() -> SkClasses {
    let mut m = StrMap::new();
    let mut object = class("Object", &[], None);
    object.method_sigs.insert(
        "initialize".to_string(),
        sig("Object", "initialize", vec![], ty::raw("Void")),
    );
    m.insert("Object".to_string(), object);
    m.insert("Int".to_string(), class("Int", &[], Some(Superclass::default())));
    let mut b = class("Box", &["T"], Some(Superclass::default()));
    b.method_sigs.insert(
        "get".to_string(),
        sig("Box", "get", vec![], ty::typaram("T", TyParamKind::Class, 0)),
    );
    b.ivars.insert("v".to_string(), ivar(0, "v", ty::typaram("T", TyParamKind::Class, 0)));
    m.insert("Box".to_string(), b);
    let mut meta_int = class("Meta:Int", &[], Some(Superclass::simple("Object")));
    meta_int.instance_ty = ty::meta("Int");
    m.insert("Meta:Int".to_string(), meta_int);
    m
}

/// `class IntBox : Box<Int>` with `#put(x: Int)`
fn program() -> SkClasses {
    let mut m = StrMap::new();
    let sup = ConstName {
        names: vec!["Box".to_string()],
        args: vec![ConstName { names: vec!["Int".to_string()], args: vec![] }],
    };
    let mut c = class("IntBox", &[], Some(Superclass::from_const_name(&sup, &[])));
    c.method_sigs.insert(
        "put".to_string(),
        sig("IntBox", "put", vec![MethodParam { name: "x".to_string(), ty: ty::raw("Int") }], ty::raw("Void")),
    );
    c.const_is_obj = true;
    m.insert("IntBox".to_string(), c);
    m
}

#[test]
fn lookup_method_finds_own_and_inherited_methods() {
    let core_lib = core_classes();
    let dict = ClassDict { sk_classes: program(), imported_classes: &core_lib };
    let intbox = ty::raw("IntBox");
    let (s, c) = dict.lookup_method(&intbox, &method_firstname("put"), &[]).ok().unwrap();
    assert_eq!(s.fullname.full_name, "IntBox#put");
    assert_eq!(c.0, "IntBox");
    // inherited from Box<Int>: specialized by the superclass' type arguments
    let (s, c) = dict.lookup_method(&intbox, &method_firstname("get"), &[]).ok().unwrap();
    assert_eq!(c.0, "Box");
    assert!(s.ret_ty.same_as(&ty::raw("Int")));
    // from a specialized type
    let (s, _) = dict.lookup_method(&ty::spe("Box", vec![ty::raw("Object")]), &method_firstname("get"), &[]).ok().unwrap();
    assert!(s.ret_ty.same_as(&ty::raw("Object")));
    // up to Object
    let (_, c) = dict.lookup_method(&intbox, &method_firstname("initialize"), &[]).ok().unwrap();
    assert_eq!(c.0, "Object");
    // a type parameter is looked up on Object
    let p = ty::typaram("T", TyParamKind::Class, 0);
    let (_, c) = dict.lookup_method(&p, &method_firstname("initialize"), &[]).ok().unwrap();
    assert_eq!(c.0, "Object");
}

#[test]
fn lookup_method_reports_a_missing_method() {
    let core_lib = core_classes();
    let dict = ClassDict { sk_classes: program(), imported_classes: &core_lib };
    match dict.lookup_method(&ty::raw("IntBox"), &method_firstname("nope"), &[]) {
        Err(e) => {
            assert_eq!(e.details, ErrorDetails::ProgramError);
            assert_eq!(e.msg, "method MethodFirstname(\"nope\") not found on ClassFullname(\"IntBox\")");
        }
        Ok(_) => panic!("must not be found"),
    }
}

#[test]
fn find_and_lookup_classes() {
    let core_lib = core_classes();
    let dict = ClassDict { sk_classes: program(), imported_classes: &core_lib };
    assert!(dict.find_method(&class_fullname("IntBox"), &method_firstname("put")).is_some());
    assert!(dict.find_method(&class_fullname("IntBox"), &method_firstname("get")).is_none());
    assert!(dict.find_method(&class_fullname("Nope"), &method_firstname("get")).is_none());
    assert!(dict.class_exists("Box"));
    assert!(dict.class_exists("IntBox"));
    assert!(!dict.class_exists("Nope"));
    assert_eq!(dict.get_class(&class_fullname("Int")).fullname.0, "Int");
    assert_eq!(dict.get_superclass(&class_fullname("IntBox")).unwrap().fullname.0, "Box");
    assert!(dict.get_superclass(&class_fullname("Object")).is_none());
    assert!(dict.supertype(&ty::raw("Object")).is_none());
}

#[test]
fn ivars_are_inherited_with_type_arguments() {
    let core_lib = core_classes();
    let mut dict = ClassDict { sk_classes: program(), imported_classes: &core_lib };
    let sup = dict.superclass_ivars(&class_fullname("IntBox")).unwrap();
    assert!(sup.get("v").unwrap().ty.same_as(&ty::raw("Int")));
    let mut own = StrMap::new();
    own.insert("w".to_string(), ivar(1, "w", ty::raw("Int")));
    assert!(dict.define_ivars(&class_fullname("IntBox"), own).is_ok());
    let v = dict.find_ivar(&class_fullname("IntBox"), "v").unwrap();
    assert!(v.ty.same_as(&ty::raw("Int")));
    assert_eq!(dict.find_ivar(&class_fullname("IntBox"), "w").unwrap().idx, 1);
    assert!(dict.find_ivar(&class_fullname("IntBox"), "z").is_none());
}

#[test]
fn nearest_common_ancestor_of_two_types() {
    let core_lib = core_classes();
    let dict = ClassDict { sk_classes: program(), imported_classes: &core_lib };
    let t = dict.nearest_common_ancestor(&ty::raw("IntBox"), &ty::spe("Box", vec![ty::raw("Int")]));
    assert_eq!(t.fullname.0, "Box<Int>");
    let t = dict.nearest_common_ancestor(&ty::raw("IntBox"), &ty::raw("Int"));
    assert_eq!(t.fullname.0, "Object");
}

#[test]
fn conforms_with_type_parameters() {
    let core_lib = core_classes();
    let dict = ClassDict { sk_classes: program(), imported_classes: &core_lib };
    let t = ty::typaram("T", TyParamKind::Class, 0);
    let u = ty::typaram("U", TyParamKind::Class, 1);
    assert!(dict.conforms(&t, &ty::raw("Object")));
    assert!(!dict.conforms(&t, &ty::raw("Int")));
    assert!(!dict.conforms(&t, &u));
    assert!(!dict.conforms(&ty::raw("Int"), &t));
    assert!(dict.conforms(&ty::raw("Never"), &ty::raw("Int")));
    assert!(dict.conforms(&ty::raw("IntBox"), &ty::spe("Box", vec![ty::raw("Int")])));
}

#[test]
fn adding_classes_and_methods() {
    let core_lib = core_classes();
    let mut dict = ClassDict { sk_classes: StrMap::new(), imported_classes: &core_lib };
    dict.index_corelib(program());
    assert!(dict.class_exists("IntBox"));
    dict.add_class(class("Foo", &[], Some(Superclass::default())));
    dict.add_method(&class_fullname("Foo"), sig("Foo", "bar", vec![], ty::raw("Int")));
    assert!(dict.find_method(&class_fullname("Foo"), &method_firstname("bar")).is_some());
    let consts = dict.constant_list();
    assert_eq!(consts, vec![("IntBox".to_string(), true), ("Foo".to_string(), false)]);
    // a metaclass is no constant
    dict.add_class(class("Meta:Foo", &[], None));
    assert_eq!(dict.constant_list().len(), 2);
    let c = dict.get_class_mut(&class_fullname("Foo"));
    c.const_is_obj = true;
    assert_eq!(dict.constant_list()[1], ("Foo".to_string(), true));
}
