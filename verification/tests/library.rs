use shiika::hir::signature::MethodSignature;
use shiika::hir::sk_class::SkClass;
use shiika::hir::superclass::Superclass;
use shiika::hir::{Hir, SkIVar};
use shiika::library::LibraryExports;
use shiika::names::{class_fullname, method_fullname};
use shiika::str_map::StrMap;
use shiika::ty;
use shiika::ty::TyParam;

fn class(name: &str, typarams: &[&str], superclass: Option<&str>) -> SkClass {
    let mut method_sigs = StrMap::new();
    method_sigs.insert(
        "foo".to_string(),
        MethodSignature {
            fullname: method_fullname(&class_fullname(name), "foo"),
            ret_ty: ty::raw("Int"),
            params: vec![],
            typarams: vec![],
        },
    );
    let mut ivars = StrMap::new();
    ivars.insert("@a".to_string(), SkIVar { idx: 0, name: "@a".to_string(), ty: ty::raw("Int"), readonly: true });
    SkClass {
        fullname: class_fullname(name),
        typarams: typarams.iter().map(|s| TyParam { name: s.to_string() }).collect(),
        superclass: superclass.map(Superclass::simple),
        instance_ty: ty::raw(name),
        ivars,
        method_sigs,
        is_final: Some(false),
        const_is_obj: false,
        foreign: false,
    }
}

#[test]
fn exports_become_imported_classes() {
    let mut sk_classes = StrMap::new();
    sk_classes.insert("A".to_string(), class("A", &[], Some("Object")));
    sk_classes.insert("Box".to_string(), class("Box", &["T"], Some("Object")));
    let mut constants = StrMap::new();
    constants.insert("::A".to_string(), ty::meta("A"));
    let hir = Hir {
        sk_classes,
        constants,
        str_literals: vec![],
        const_inits: vec![],
        main_exprs: Hir::expressions(vec![]),
        main_lvars: vec![],
    };
    let exports = LibraryExports::new(&hir);
    assert_eq!(exports.classes.len(), 2);
    assert_eq!(exports.classes[1].name.0, "Box");
    assert_eq!(exports.classes[1].typarams.len(), 1);
    let items = exports.into_imported_items();
    let a = items.sk_classes.get("A").unwrap();
    assert!(a.foreign);
    // Instance variables are not exported
    assert_eq!(a.ivars.len(), 0);
    assert!(a.method_sigs.get("foo").unwrap().ret_ty.same_as(&ty::raw("Int")));
    assert!(a.superclass.as_ref().unwrap().ty().same_as(&ty::raw("Object")));
    assert!(items.constants.get("::A").unwrap().same_as(&ty::meta("A")));
    // The same classes, under the same names
    assert_eq!(items.sk_classes.len(), 2);
    assert!(items.sk_classes.contains_key("Box"));
    assert_eq!(items.sk_classes.get("Box").unwrap().fullname.0, "Box");
}
