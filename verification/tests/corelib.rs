use shiika::corelib::{class, fn_x, lambda, make_classes, string, ClassItem};
use shiika::hir::signature::MethodSignature;
use shiika::hir::superclass::Superclass;
use shiika::names::{class_fullname, method_fullname};
use shiika::str_map::StrMap;
use shiika::ty;

fn sig(class: &str, name: &str) -> MethodSignature {
    MethodSignature {
        fullname: method_fullname(&class_fullname(class), name),
        ret_ty: ty::raw("Void"),
        params: vec![],
        typarams: vec![],
    }
}

#[test]
fn class_ivars_are_name_and_vtable() {
    let iv = class::ivars();
    assert_eq!(iv.len(), 2);
    let name = iv.get("@name").unwrap();
    assert_eq!(name.idx, 0);
    assert!(name.ty.same_as(&ty::raw("String")));
    assert!(name.readonly);
    let vtable = iv.get("@vtable").unwrap();
    assert_eq!(vtable.idx, 1);
    assert!(vtable.ty.same_as(&ty::raw("Shiika::Internal::Ptr")));
}

#[test]
fn lambda_ivars_are_func_and_freevars() {
    let iv = lambda::ivars();
    assert_eq!(iv.len(), 2);
    assert_eq!(iv.get("@func").unwrap().idx, 0);
    let fv = iv.get("@freevars").unwrap();
    assert_eq!(fv.idx, 1);
    assert!(fv.ty.same_as(&ty::spe("Array", vec![ty::raw("Shiika::Internal::Ptr")])));
}

#[test]
fn string_ivars_are_ptr_and_bytesize() {
    let iv = string::ivars();
    assert_eq!(iv.len(), 2);
    assert_eq!(iv.get("@ptr").unwrap().idx, 0);
    let bs = iv.get("@bytesize").unwrap();
    assert_eq!(bs.idx, 1);
    assert!(bs.ty.same_as(&ty::raw("Int")));
}

#[test]
fn make_classes_adds_metaclasses_but_for_class() {
    let items: Vec<ClassItem> = vec![
        ("Class".to_string(), Some(Superclass::simple("Object")), vec![], vec![], class::ivars(), vec![]),
        ("Object".to_string(), None, vec![sig("Object", "hash")], vec![], StrMap::new(), vec![]),
        (
            "Array".to_string(),
            Some(Superclass::simple("Object")),
            vec![sig("Array", "first")],
            vec![sig("Meta:Array", "new")],
            StrMap::new(),
            vec!["T".to_string()],
        ),
        ("Void".to_string(), Some(Superclass::simple("Object")), vec![], vec![], StrMap::new(), vec![]),
    ];
    let classes = make_classes(items);
    // Class, Object, Meta:Object, Array, Meta:Array, Void, Meta:Void
    assert_eq!(classes.len(), 7);
    assert!(classes.get("Meta:Class").is_none());
    let object = classes.get("Object").unwrap();
    assert!(object.superclass.is_none());
    assert!(object.method_sigs.get("hash").is_some());
    let meta_object = classes.get("Meta:Object").unwrap();
    assert!(meta_object.superclass.as_ref().unwrap().ty().same_as(&ty::raw("Class")));
    assert!(meta_object.instance_ty.same_as(&ty::meta("Object")));
    assert!(meta_object.ivars.get("@name").is_some());
    let array = classes.get("Array").unwrap();
    assert_eq!(array.typarams.len(), 1);
    assert_eq!(array.typarams[0].name, "T");
    assert!(!array.const_is_obj);
    let meta_array = classes.get("Meta:Array").unwrap();
    assert_eq!(meta_array.typarams.len(), 1);
    assert!(meta_array.method_sigs.get("new").is_some());
    // `Void` is an instance, not the class
    assert!(classes.get("Void").unwrap().const_is_obj);
    assert!(!classes.get("Meta:Void").unwrap().const_is_obj);
}

#[test]
fn fn_x_ivars() {
    let iv = fn_x::ivars();
    assert_eq!(iv.len(), 4);
    assert_eq!(iv.get("@func").unwrap().idx, 0);
    assert!(iv.get("@the_self").unwrap().ty.same_as(&ty::raw("Object")));
    assert!(iv.get("@captures").unwrap().ty.same_as(&ty::ary(ty::raw("Shiika::Internal::Ptr"))));
    let es = iv.get("@exit_status").unwrap();
    assert_eq!(es.idx, 3);
    assert!(!es.readonly);
}

#[test]
fn rust_body_items_lists_the_core_classes_in_order() {
    let items = shiika::corelib::rust_body_items();
    let names: Vec<&str> = items.iter().map(|it| it.0.as_str()).collect();
    assert_eq!(
        names,
        vec![
            "Class", "Array", "Bool", "Float", "Int", "Object", "Void", "Shiika::Internal::Ptr", "Math", "Shiika",
            "Shiika::Internal", "Shiika::Internal::Memory", "Fn0", "Fn1", "Fn2", "Fn3", "Fn4", "Fn5", "Fn6",
            "Fn7", "Fn8", "Fn9",
        ]
    );
    // Object has no superclass; the others inherit Object, but the function classes inherit Fn
    assert!(items[5].1.is_none());
    assert!(items[4].1.as_ref().unwrap().ty().same_as(&ty::raw("Object")));
    assert!(items[15].1.as_ref().unwrap().ty().same_as(&ty::raw("Fn")));
    assert_eq!(items[1].5, vec!["T".to_string()]);
    assert_eq!(items[15].5, vec!["S1".to_string(), "S2".to_string(), "S3".to_string(), "T".to_string()]);
    assert_eq!(items[0].4.len(), 2);
    assert_eq!(items[12].4.len(), 4);
}

#[test]
fn int_methods_are_the_operators_and_conversions() {
    let items = shiika::corelib::rust_body_items();
    let int = &items[4];
    assert_eq!(int.2.len(), 18);
    let lt = &int.2[2];
    assert_eq!(lt.fullname.full_name, "Int#<");
    assert_eq!(lt.params.len(), 1);
    assert_eq!(lt.params[0].name, "other");
    assert!(lt.params[0].ty.same_as(&ty::raw("Int")));
    assert!(lt.ret_ty.same_as(&ty::raw("Bool")));
    assert_eq!(int.2[10].fullname.full_name, "Int#reminder");
    assert!(int.2[16].ret_ty.same_as(&ty::raw("Float")));
    assert_eq!(int.2[17].fullname.first_name.0, "-@");
}

#[test]
fn fn_call_takes_the_class_type_parameters() {
    let items = shiika::corelib::rust_body_items();
    let fn2 = &items[14];
    assert_eq!(fn2.0, "Fn2");
    let call = &fn2.2[0];
    assert_eq!(call.fullname.full_name, "Fn2#call");
    assert_eq!(call.params.len(), 2);
    assert_eq!(call.params[1].name, "arg2");
    assert!(call.params[1].ty.same_as(&ty::typaram("S2", ty::TyParamKind::Class, 1)));
    assert!(call.ret_ty.same_as(&ty::typaram("T", ty::TyParamKind::Class, 2)));
    assert_eq!(items[12].2[0].params.len(), 0);
}

#[test]
fn create_makes_the_classes_and_their_metaclasses() {
    let corelib = shiika::corelib::create();
    let classes = &corelib.sk_classes;
    // 22 classes, and a metaclass for each but `Class`
    assert_eq!(classes.len(), 43);
    assert!(classes.contains_key("Int"));
    assert!(classes.contains_key("Meta:Int"));
    assert!(!classes.contains_key("Meta:Class"));
    let math = classes.get("Meta:Math").unwrap();
    let sin = math.method_sigs.get("sin").unwrap();
    assert_eq!(sin.fullname.full_name, "Meta:Math#sin");
    assert!(sin.ret_ty.same_as(&ty::raw("Float")));
    assert!(classes.get("Void").unwrap().const_is_obj);
    assert!(!classes.get("Int").unwrap().const_is_obj);
    let ptr = classes.get("Shiika::Internal::Ptr").unwrap();
    assert!(ptr.method_sigs.get("store").unwrap().ret_ty.same_as(&ty::raw("Void")));
    let memory = classes.get("Meta:Shiika::Internal::Memory").unwrap();
    assert_eq!(memory.method_sigs.get("memcpy").unwrap().params.len(), 3);
    assert!(classes.get("Fn1").unwrap().superclass.as_ref().unwrap().ty().same_as(&ty::raw("Fn")));
}
