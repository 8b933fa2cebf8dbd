use shiika::hir::signature::MethodSignature;
use shiika::hir::sk_class::SkClass;
use shiika::hir::superclass::Superclass;
use shiika::hir::Hir;
use shiika::mir;
use shiika::names::{class_fullname, method_firstname, method_fullname};
use shiika::str_map::StrMap;
use shiika::ty;

fn class(name: &str, superclass: Option<&str>, methods: &[&str], foreign: bool) -> SkClass {
    let mut method_sigs = StrMap::new();
    for m in methods {
        method_sigs.insert(
            m.to_string(),
            MethodSignature {
                fullname: method_fullname(&class_fullname(name), m),
                ret_ty: ty::raw("Void"),
                params: vec![],
                typarams: vec![],
            },
        );
    }
    SkClass {
        fullname: class_fullname(name),
        typarams: vec![],
        superclass: superclass.map(Superclass::simple),
        instance_ty: ty::raw(name),
        ivars: StrMap::new(),
        method_sigs,
        is_final: Some(false),
        const_is_obj: false,
        foreign,
    }
}

#[test]
fn build_takes_out_the_imported_classes() {
    let mut sk_classes = StrMap::new();
    sk_classes.insert("Object".to_string(), class("Object", None, &["hash"], true));
    sk_classes.insert("A".to_string(), class("A", Some("Object"), &["foo"], false));
    sk_classes.insert("B".to_string(), class("B", Some("A"), &["hash"], false));
    let hir = Hir {
        sk_classes,
        constants: StrMap::new(),
        str_literals: vec!["x".to_string()],
        const_inits: vec![],
        main_exprs: Hir::expressions(vec![]),
        main_lvars: vec![],
    };
    let mir = mir::build(hir);
    assert_eq!(mir.hir.sk_classes.len(), 2);
    assert!(mir.hir.sk_classes.get("Object").is_none());
    assert!(mir.hir.sk_classes.get("A").is_some());
    assert_eq!(mir.imported_classes.len(), 1);
    assert_eq!(mir.imported_classes[0].fullname.0, "Object");
    assert_eq!(mir.hir.str_literals, vec!["x".to_string()]);
    // Every class, imported or not, has a vtable
    assert_eq!(mir.vtables.contents.len(), 3);
    let b = mir.vtables.contents.get("B").unwrap();
    // `B#hash` overrides `Object#hash` in its slot
    assert_eq!(*b.get(&method_firstname("hash")), 0);
    assert_eq!(*b.get(&method_firstname("foo")), 1);
}
