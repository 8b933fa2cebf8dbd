//! The classes of the core library.
//!
//! The bodies of the core methods are generators of LLVM code; the library holds their
//! signatures.
pub mod class;
pub mod float;
pub mod fn_x;
pub mod integer;
pub mod lambda;
pub mod math;
pub mod object;
pub mod shiika_internal_memory;
pub mod shiika_internal_ptr;
pub mod string;

use vstd::prelude::*;
use crate::corelib::class::class_ivars_v;
use crate::hir::class_dict::class_index::typarams_of;
use crate::hir::class_dict::indexing::{ClassesV, lemma_own_update};
use crate::hir::class_dict::views::{ClassV, class_view, classes_view};
use crate::hir::index::{ivars_map, lemma_sigs_map_insert, sigs_map};
use crate::hir::signature::{MethodParam, MethodSignature, SigV, params_view};
use crate::hir::sk_class::{SkClass, SkClasses, SkIVars};
use crate::hir::superclass::Superclass;
use crate::names::{
    class_fullname, class_word, lemma_strlits, metaclass_fullname, method_fullname, spec_metaclass_fullname,
    spec_method_fullname,
};
use crate::str_map::StrMap;
use crate::strs::{copy_string, str_eq, strings_view, to_owned};
use crate::ty;
use crate::ty::{TermTy, TyV, spec_meta, spec_raw};

verus! {

/// The classes of the core library
pub struct Corelib {
    pub sk_classes: SkClasses,
}

/// The classes of the core library, with their metaclasses
pub fn create() -> (r: Corelib)
    ensures
        classes_view(r.sk_classes) == core_classes_v(core_items_v()),
{
    let items = rust_body_items();
    let sk_classes = make_classes(items);
    Corelib { sk_classes }
}

/// A class of the core library: its name, superclass, instance methods, class methods,
/// instance variables and type parameters
pub type ClassItem = (String, Option<Superclass>, Vec<MethodSignature>, Vec<MethodSignature>, SkIVars, Vec<String>);

/// The signatures of a sequence of methods
pub open spec fn sigs_view(s: Seq<MethodSignature>) -> Seq<SigV> {
    Seq::new(s.len(), |i: int| s[i]@)
}

/// The signature of the method `name` of the class `class` with the parameters `params`,
/// returning `ret`
pub open spec fn spec_sig(class: Seq<char>, name: Seq<char>, params: Seq<(Seq<char>, TyV)>, ret: TyV) -> SigV {
    SigV { fullname: spec_method_fullname(class, name), ret_ty: ret, params, typarams: Seq::empty() }
}

/// The signature of the core method `name` of the class `class_name`
pub fn create_method(class_name: &str, name: &str, params: Vec<MethodParam>, ret_ty: TermTy) -> (r: MethodSignature)
    ensures
        r@ == spec_sig(class_name@, name@, params_view(params@), ret_ty@),
{
    let r = MethodSignature {
        fullname: method_fullname(&class_fullname(class_name), name),
        ret_ty,
        params,
        typarams: Vec::new(),
    };
    assert(strings_view(r.typarams@) =~= Seq::<Seq<char>>::empty());
    r
}

/// A parameter `name` of the type `ty`
pub fn param(name: &str, ty: TermTy) -> (r: MethodParam)
    ensures
        r@ == (name@, ty@),
{
    MethodParam { name: to_owned(name), ty }
}

/// No parameters
pub fn no_params() -> (r: Vec<MethodParam>)
    ensures
        params_view(r@) == Seq::<(Seq<char>, TyV)>::empty(),
{
    let r: Vec<MethodParam> = Vec::new();
    assert(params_view(r@) =~= Seq::<(Seq<char>, TyV)>::empty());
    r
}

/// One parameter
pub fn one_param(a: &str, ta: TermTy) -> (r: Vec<MethodParam>)
    ensures
        params_view(r@) == seq![(a@, ta@)],
{
    let r = vec![param(a, ta)];
    assert(params_view(r@) =~= seq![(a@, ta@)]);
    r
}

/// Two parameters
pub fn two_params(a: &str, ta: TermTy, b: &str, tb: TermTy) -> (r: Vec<MethodParam>)
    ensures
        params_view(r@) == seq![(a@, ta@), (b@, tb@)],
{
    let r = vec![param(a, ta), param(b, tb)];
    assert(params_view(r@) =~= seq![(a@, ta@), (b@, tb@)]);
    r
}

/// Three parameters
pub fn three_params(a: &str, ta: TermTy, b: &str, tb: TermTy, c: &str, tc: TermTy) -> (r: Vec<MethodParam>)
    ensures
        params_view(r@) == seq![(a@, ta@), (b@, tb@), (c@, tc@)],
{
    let r = vec![param(a, ta), param(b, tb), param(c, tc)];
    assert(params_view(r@) =~= seq![(a@, ta@), (b@, tb@), (c@, tc@)]);
    r
}

/// A class item viewed: name, superclass, instance methods, class methods, instance variables
/// and type parameters
pub type ItemV = (
    Seq<char>,
    Option<TyV>,
    Seq<SigV>,
    Seq<SigV>,
    Map<Seq<char>, (usize, Seq<char>, TyV, bool)>,
    Seq<Seq<char>>,
);

/// The view of a class item
pub open spec fn item_v(it: ClassItem) -> ItemV {
    (
        it.0@,
        match it.1 {
            Some(s) => Some(s@),
            None => None,
        },
        sigs_view(it.2@),
        sigs_view(it.3@),
        ivars_map(it.4),
        strings_view(it.5@),
    )
}

/// The views of class items
pub open spec fn items_v(items: Seq<ClassItem>) -> Seq<ItemV> {
    Seq::new(items.len(), |i: int| item_v(items[i]))
}

/// A class of the core library viewed: a subclass of `Object` with the instance methods
/// `imethods`, the class methods `cmethods`, no instance variables and no type parameters
pub open spec fn plain_item_v(name: Seq<char>, imethods: Seq<SigV>, cmethods: Seq<SigV>) -> ItemV {
    (name, Some(spec_raw("Object"@)), imethods, cmethods, Map::empty(), seq![])
}

/// The classes of the core library viewed, in the order they are made
pub open spec fn core_items_v() -> Seq<ItemV> {
    seq![
        ("Class"@, Some(spec_raw("Object"@)), seq![], seq![], class_ivars_v(), seq![]),
        ("Array"@, Some(spec_raw("Object"@)), seq![], seq![], Map::empty(), seq!["T"@]),
        plain_item_v("Bool"@, seq![], seq![]),
        plain_item_v("Float"@, float::methods_v(), seq![]),
        plain_item_v("Int"@, integer::methods_v(), seq![]),
        ("Object"@, None, object::methods_v(), seq![], Map::empty(), seq![]),
        plain_item_v("Void"@, seq![], seq![]),
        plain_item_v("Shiika::Internal::Ptr"@, shiika_internal_ptr::methods_v(), seq![]),
        plain_item_v("Math"@, seq![], math::class_methods_v()),
        plain_item_v("Shiika"@, seq![], seq![]),
        plain_item_v("Shiika::Internal"@, seq![], seq![]),
        plain_item_v("Shiika::Internal::Memory"@, seq![], shiika_internal_memory::class_methods_v()),
    ] + fn_x::fn_items_v()
}

/// A subclass of `Object` with the instance methods `imethods` and the class methods
/// `cmethods`, no instance variables and no type parameters
fn plain_item(name: &str, imethods: Vec<MethodSignature>, cmethods: Vec<MethodSignature>) -> (r: ClassItem)
    ensures
        item_v(r) == plain_item_v(name@, sigs_view(imethods@), sigs_view(cmethods@)),
{
    let r: ClassItem = (to_owned(name), Some(Superclass::simple("Object")), imethods, cmethods, StrMap::new(), Vec::new());
    assert(ivars_map(r.4) =~= Map::empty());
    assert(strings_view(r.5@) =~= Seq::<Seq<char>>::empty());
    r
}

/// No methods
fn no_methods() -> (r: Vec<MethodSignature>)
    ensures
        sigs_view(r@) == Seq::<SigV>::empty(),
{
    let r: Vec<MethodSignature> = Vec::new();
    assert(sigs_view(r@) =~= Seq::<SigV>::empty());
    r
}

/// The classes of the core library, in the order they are made: each with its superclass,
/// the signatures of its methods, its instance variables and its type parameters
pub fn rust_body_items() -> (r: Vec<ClassItem>)
    ensures
        items_v(r@) == core_items_v(),
{
    let mut ret: Vec<ClassItem> = Vec::new();
    // `Class` must be created before loading builtin/* because `Meta::XX` inherits `Class`.
    let class_item: ClassItem = (to_owned("Class"), Some(Superclass::simple("Object")), no_methods(), no_methods(), class::ivars(), Vec::new());
    assert(strings_view(class_item.5@) =~= Seq::<Seq<char>>::empty());
    ret.push(class_item);
    let mut array_typarams: Vec<String> = Vec::new();
    array_typarams.push(to_owned("T"));
    let array_item: ClassItem = (to_owned("Array"), Some(Superclass::simple("Object")), no_methods(), no_methods(), StrMap::new(), array_typarams);
    assert(ivars_map(array_item.4) =~= Map::empty());
    assert(strings_view(array_item.5@) =~= seq!["T"@]);
    ret.push(array_item);
    ret.push(plain_item("Bool", no_methods(), no_methods()));
    ret.push(plain_item("Float", float::create_methods(), no_methods()));
    ret.push(plain_item("Int", integer::create_methods(), no_methods()));
    let object_item: ClassItem = (to_owned("Object"), None, object::create_methods(), no_methods(), StrMap::new(), Vec::new());
    assert(ivars_map(object_item.4) =~= Map::empty());
    assert(strings_view(object_item.5@) =~= Seq::<Seq<char>>::empty());
    ret.push(object_item);
    ret.push(plain_item("Void", no_methods(), no_methods()));
    ret.push(plain_item("Shiika::Internal::Ptr", shiika_internal_ptr::create_methods(), no_methods()));
    // Modules
    ret.push(plain_item("Math", no_methods(), math::create_class_methods()));
    ret.push(plain_item("Shiika", no_methods(), no_methods()));
    ret.push(plain_item("Shiika::Internal", no_methods(), no_methods()));
    ret.push(plain_item("Shiika::Internal::Memory", no_methods(), shiika_internal_memory::create_class_methods()));
    let ghost head = ret@;
    assert(items_v(head) =~= core_items_v().take(12));
    let mut fns = fn_x::fn_items();
    let ghost fv = fns@;
    ret.append(&mut fns);
    assert(ret@ =~= head + fv);
    assert(items_v(ret@) =~= items_v(head) + items_v(fv));
    assert(core_items_v() =~= core_items_v().take(12) + fn_x::fn_items_v());
    ret
}

/// The signatures `sigs` by first name; a later one replaces an earlier one of the same name
pub open spec fn sigs_by_name(sigs: Seq<SigV>) -> Map<Seq<char>, SigV>
    decreases sigs.len(),
{
    if sigs.len() == 0 {
        Map::empty()
    } else {
        sigs_by_name(sigs.drop_last()).insert(sigs.last().fullname.1, sigs.last())
    }
}

/// The class that the item `it` describes
pub open spec fn item_class_v(it: ItemV) -> ClassV {
    ClassV {
        fullname: it.0,
        typarams: it.5,
        superclass: it.1,
        instance_ty: spec_raw(it.0),
        ivars: it.4,
        methods: sigs_by_name(it.2),
        is_final: Some(false),
        const_is_obj: it.0 == "Void"@,
        foreign: false,
    }
}

/// The metaclass of the class that the item `it` describes: a subclass of `Class` with its
/// instance variables
pub open spec fn item_meta_v(it: ItemV) -> ClassV {
    ClassV {
        fullname: spec_metaclass_fullname(it.0),
        typarams: it.5,
        superclass: Some(spec_raw(class_word())),
        instance_ty: spec_meta(it.0),
        ivars: class_ivars_v(),
        methods: sigs_by_name(it.3),
        is_final: None,
        const_is_obj: false,
        foreign: false,
    }
}

/// The classes that `items` describe, with their metaclasses; a later item replaces an earlier
/// one of the same name
pub open spec fn core_classes_v(items: Seq<ItemV>) -> ClassesV
    decreases items.len(),
{
    if items.len() == 0 {
        Map::empty()
    } else {
        let it = items.last();
        let st = core_classes_v(items.drop_last()).insert(it.0, item_class_v(it));
        if it.0 == class_word() {
            // The class of `Class` is `Class` itself
            st
        } else {
            st.insert(spec_metaclass_fullname(it.0), item_meta_v(it))
        }
    }
}

/// The signatures `sigs` by first name
fn sigs_by_first_name(sigs: Vec<MethodSignature>) -> (r: StrMap<MethodSignature>)
    ensures
        sigs_map(r) == sigs_by_name(sigs_view(sigs@)),
{
    let ghost orig = sigs@;
    let mut r: StrMap<MethodSignature> = StrMap::new();
    let mut sigs = sigs;
    let ghost mut i: int = 0;
    assert(sigs_map(r) =~= Map::<Seq<char>, SigV>::empty());
    assert(orig.skip(0) =~= orig);
    while sigs.len() > 0
        invariant
            0 <= i <= orig.len(),
            sigs@ == orig.skip(i),
            sigs_map(r) == sigs_by_name(sigs_view(orig.take(i))),
        decreases sigs.len(),
    {
        assert(sigs@.len() == orig.len() - i);
        let s = sigs.remove(0);
        proof {
            assert(orig.skip(i)[0] == orig[i]);
            assert(orig.skip(i).drop_first() =~= orig.skip(i + 1));
            assert(orig.take(i + 1).drop_last() =~= orig.take(i));
            assert(orig.take(i + 1).last() == orig[i]);
            assert(sigs_view(orig.take(i + 1)) =~= sigs_view(orig.take(i)).push(orig[i]@));
        }
        let ghost before = r;
        let ghost sv = s;
        r.insert(copy_string(&s.fullname.first_name.0), s);
        proof {
            lemma_sigs_map_insert(before, r, sv.fullname.first_name@, sv);
            let nv = sigs_view(orig.take(i + 1));
            assert(nv.drop_last() =~= sigs_view(orig.take(i)));
            assert(nv.last() == sv@);
            assert(sigs_by_name(nv) == sigs_by_name(sigs_view(orig.take(i))).insert(sv.fullname.first_name@, sv@));
            i = i + 1;
        }
    }
    assert(orig.take(orig.len() as int) =~= orig);
    r
}

/// The classes that `items` describe, with their metaclasses
pub fn make_classes(items: Vec<ClassItem>) -> (r: SkClasses)
    ensures
        classes_view(r) == core_classes_v(items_v(items@)),
{
    let ghost orig = items@;
    let mut sk_classes: SkClasses = StrMap::new();
    assert(classes_view(sk_classes) =~= Map::<Seq<char>, ClassV>::empty());
    let mut items = items;
    let ghost mut i: int = 0;
    assert(orig.skip(0) =~= orig);
    while items.len() > 0
        invariant
            0 <= i <= orig.len(),
            items@ == orig.skip(i),
            classes_view(sk_classes) == core_classes_v(items_v(orig.take(i))),
        decreases items.len(),
    {
        assert(items@.len() == orig.len() - i);
        let ghost it = items@[0];
        let (name, superclass, imethods, cmethods, ivars, typarams) = items.remove(0);
        proof {
            assert(orig.skip(i)[0] == orig[i]);
            assert(orig.skip(i).drop_first() =~= orig.skip(i + 1));
            assert(orig.take(i + 1).drop_last() =~= orig.take(i));
            assert(orig.take(i + 1).last() == orig[i]);
            assert(items_v(orig.take(i + 1)) =~= items_v(orig.take(i)).push(item_v(orig[i])));
            reveal_strlit("Void");
            lemma_strlits();
        }
        let class = SkClass {
            fullname: class_fullname(name.as_str()),
            typarams: typarams_of(&typarams),
            superclass,
            instance_ty: ty::raw(name.as_str()),
            ivars,
            method_sigs: sigs_by_first_name(imethods),
            is_final: Some(false),
            const_is_obj: str_eq(name.as_str(), "Void"),
            foreign: false,
        };
        let ghost cv = class;
        let ghost a = sk_classes;
        sk_classes.insert(copy_string(&name), class);
        proof {
            lemma_own_update(a, sk_classes, name@, cv);
            assert(class_view(cv) =~= item_class_v(item_v(it)));
        }
        if !str_eq(name.as_str(), "Class") {
            let meta = SkClass {
                fullname: metaclass_fullname(name.as_str()),
                typarams: typarams_of(&typarams),
                superclass: Some(Superclass::simple("Class")),
                instance_ty: ty::meta(name.as_str()),
                // `Meta::XX` inherits `Class`
                ivars: class::ivars(),
                method_sigs: sigs_by_first_name(cmethods),
                is_final: None,
                const_is_obj: false,
                foreign: false,
            };
            let ghost mv = meta;
            let ghost b = sk_classes;
            let meta_name = metaclass_fullname(name.as_str());
            sk_classes.insert(meta_name.0, meta);
            proof {
                lemma_own_update(b, sk_classes, spec_metaclass_fullname(name@), mv);
                assert(class_view(mv) =~= item_meta_v(item_v(it)));
            }
        }
        proof {
            let nv = items_v(orig.take(i + 1));
            assert(nv.drop_last() =~= items_v(orig.take(i)));
            assert(nv.last() == item_v(it));
            i = i + 1;
        }
    }
    assert(orig.take(orig.len() as int) =~= orig);
    sk_classes
}

} // verus!
