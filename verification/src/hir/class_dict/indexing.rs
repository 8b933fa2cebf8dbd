//! Registering classes and methods in the class dictionary.
use vstd::prelude::*;
use crate::ast::{Definition, TopLevelItem};
use crate::error::{Error, ErrorDetails, error_of, name_error, syntax_error};
use crate::hir::class_dict::ClassDict;
use crate::hir::class_dict::class_index::{typaram_names, typarams_of};
use crate::hir::class_dict::specialized_initialize;
use crate::hir::class_dict::views::{ClassV, class_view, classes_view, vclass, vcan_lookup, vlookup};
use crate::hir::index::{
    collect_methods, defs_methods, first_initializer, initializer_params, lemma_sigs_map_extend, lemma_sigs_map_insert,
    new_word, not_toplevel_message, not_toplevel_text, sigs_map,
};
use crate::hir::signature::{
    MethodParam, MethodSignature, SigV, convert_params, initialize_word, params_view, signature_of_new, spec_convert_params,
    spec_specialize,
};
use crate::hir::sk_class::{SkClass, SkClasses, copy_ivars, ivars_view};
use crate::hir::superclass::{Superclass, is_superclass_ty};
use crate::names::{
    ClassFullname, ConstName, class_fullname, class_word, lemma_strlits, method_firstname, object_word, sep2,
    spec_const_to_ty, spec_metaclass_fullname, spec_method_fullname,
};
use crate::str_map::{StrMap, lemma_lookup_same_views, lookup, unique_keys};
use crate::strs::{copy_string, strings_view};
use crate::ty;
use crate::ty::{TermTy, TyV, new_ret_ty, spec_erasure, spec_meta, spec_raw, spec_tyargs, views_of};

verus! {

/// Classes by name, viewed
pub type ClassesV = Map<Seq<char>, ClassV>;

/// The superclass that a class definition names, as a type (`Object` when it names none)
pub open spec fn superclass_ty(sc: Option<ConstName>, typarams: Seq<Seq<char>>) -> TyV {
    match sc {
        Some(n) => spec_const_to_ty(n@, typarams, Seq::empty()),
        None => spec_raw(object_word()),
    }
}

/// The full name of the class `name` defined inside the class `ns` (at the toplevel if `ns` is
/// empty)
pub open spec fn inner_fullname(ns: Seq<char>, name: Seq<char>) -> Seq<char> {
    if ns.len() == 0 {
        name
    } else {
        ns + sep2() + name
    }
}

/// The parameters of `.new` of a class whose body is `defs`: those of its own `#initialize`, or
/// else those of the `#initialize` that the superclass `sup` has, with the type arguments of
/// `sup` put in
pub open spec fn init_params_v(own: ClassesV, imp: ClassesV, typarams: Seq<Seq<char>>, sup: TyV, defs: Seq<Definition>) -> Seq<
    (Seq<char>, TyV),
> {
    match first_initializer(defs) {
        Some(ps) => spec_convert_params(ps, typarams, Seq::empty()),
        None => spec_specialize(
            vlookup(own, imp, sup, initialize_word(), Seq::empty()).unwrap().0,
            spec_tyargs(sup),
            Seq::empty(),
        ).params,
    }
}

/// The signature of `.new` of the class `c`
pub open spec fn new_sig_of(c: Seq<char>, typarams: Seq<Seq<char>>, params: Seq<(Seq<char>, TyV)>) -> SigV {
    SigV {
        fullname: spec_method_fullname(spec_metaclass_fullname(c), new_word()),
        ret_ty: new_ret_ty(c, typarams),
        params,
        typarams: Seq::empty(),
    }
}

/// `st` with the new class `c` (with the type parameters `tps`, the superclass `sup` and the
/// instance methods `inst`) and its metaclass, a subclass of `Class` that has the instance
/// variables of `Class` and the class methods `cls`
pub open spec fn with_new_class(
    st: ClassesV,
    imp: ClassesV,
    c: Seq<char>,
    tps: Seq<Seq<char>>,
    sup: TyV,
    inst: Map<Seq<char>, SigV>,
    cls: Map<Seq<char>, SigV>,
) -> ClassesV {
    let k = ClassV {
        fullname: c,
        typarams: tps,
        superclass: Some(sup),
        instance_ty: spec_raw(c),
        ivars: Map::empty(),
        methods: inst,
        is_final: Some(false),
        const_is_obj: false,
        foreign: false,
    };
    let st1 = st.insert(c, k);
    let mk = ClassV {
        fullname: spec_metaclass_fullname(c),
        typarams: tps,
        superclass: Some(spec_raw(class_word())),
        instance_ty: spec_meta(c),
        ivars: vclass(st1, imp, class_word()).unwrap().ivars,
        methods: cls,
        is_final: None,
        const_is_obj: false,
        foreign: false,
    };
    st1.insert(spec_metaclass_fullname(c), mk)
}

/// The classes after indexing the class `c` (with the type parameters `tps`, the superclass
/// `sup` and the body `defs`), and the name of the unknown superclass that stopped it, if any.
/// The classes defined inside come first; then a known class gets the methods (and its
/// metaclass `.new` if it has none), and an unknown one is added with its metaclass.
pub open spec fn v_index_class(
    own: ClassesV,
    imp: ClassesV,
    c: Seq<char>,
    tps: Seq<Seq<char>>,
    sup: TyV,
    defs: Seq<Definition>,
) -> (ClassesV, Option<Seq<char>>)
    decreases defs, 1nat, 0nat,
{
    let m = spec_metaclass_fullname(c);
    let new_sig = new_sig_of(c, tps, init_params_v(own, imp, tps, sup, defs));
    let (st, err) = v_index_defs(own, imp, c, defs, defs.len());
    let inst = defs_methods(defs, c, tps, true);
    let cls = defs_methods(defs, m, tps, false);
    if err is Some {
        (st, err)
    } else if st.contains_key(c) {
        let st1 = st.insert(c, ClassV { methods: st[c].methods.union_prefer_right(inst), ..st[c] });
        let mm = st1[m].methods.union_prefer_right(cls);
        let mm2 = if mm.contains_key(new_word()) {
            mm
        } else {
            mm.insert(new_word(), new_sig)
        };
        (st1.insert(m, ClassV { methods: mm2, ..st1[m] }), None)
    } else if vclass(st, imp, spec_erasure(sup)) is None {
        (st, Some(spec_erasure(sup)))
    } else {
        (with_new_class(st, imp, c, tps, sup, inst, cls.insert(new_word(), new_sig)), None)
    }
}

/// The classes after indexing the classes defined among the first `n` definitions of `defs`
/// (inside the class `ns`), and the name of the unknown superclass that stopped it, if any
pub open spec fn v_index_defs(own: ClassesV, imp: ClassesV, ns: Seq<char>, defs: Seq<Definition>, n: nat) -> (
    ClassesV,
    Option<Seq<char>>,
)
    decreases defs, 0nat, n,
{
    if n == 0 || n > defs.len() {
        (own, None)
    } else {
        let (st, err) = v_index_defs(own, imp, ns, defs, (n - 1) as nat);
        if err is Some {
            (st, err)
        } else {
            match defs[n - 1] {
                Definition::ClassDefinition { name, typarams, superclass, defs: body } => {
                    proof {
                        assert(decreases_to!(defs => defs[n - 1]));
                    }
                    v_index_class(
                        st,
                        imp,
                        inner_fullname(ns, name@),
                        strings_view(typarams@),
                        superclass_ty(superclass, strings_view(typarams@)),
                        body@,
                    )
                },
                _ => (st, None),
            }
        }
    }
}

/// Indexing a class keeps every class known before; unless it stops at an unknown
/// superclass, the class and its metaclass are known after it.
pub proof fn law_index_class_defines(
    own: ClassesV,
    imp: ClassesV,
    c: Seq<char>,
    tps: Seq<Seq<char>>,
    sup: TyV,
    defs: Seq<Definition>,
    k: Seq<char>,
)
    ensures
        own.contains_key(k) ==> v_index_class(own, imp, c, tps, sup, defs).0.contains_key(k),
        v_index_class(own, imp, c, tps, sup, defs).1 is None ==> {
            &&& v_index_class(own, imp, c, tps, sup, defs).0.contains_key(c)
            &&& v_index_class(own, imp, c, tps, sup, defs).0.contains_key(spec_metaclass_fullname(c))
        },
    decreases defs, 1nat, 0nat,
{
    lemma_index_defs_keeps(own, imp, c, defs, defs.len(), k);
}

/// Indexing the classes defined among definitions keeps every class known before.
proof fn lemma_index_defs_keeps(own: ClassesV, imp: ClassesV, ns: Seq<char>, defs: Seq<Definition>, n: nat, k: Seq<char>)
    ensures
        own.contains_key(k) ==> v_index_defs(own, imp, ns, defs, n).0.contains_key(k),
    decreases defs, 0nat, n,
{
    if n > 0 && n <= defs.len() {
        lemma_index_defs_keeps(own, imp, ns, defs, (n - 1) as nat, k);
        let (st, err) = v_index_defs(own, imp, ns, defs, (n - 1) as nat);
        if err is None {
            match defs[n - 1] {
                Definition::ClassDefinition { name, typarams, superclass, defs: body } => {
                    assert(decreases_to!(defs => defs[n - 1]));
                    law_index_class_defines(
                        st,
                        imp,
                        inner_fullname(ns, name@),
                        strings_view(typarams@),
                        superclass_ty(superclass, strings_view(typarams@)),
                        body@,
                        k,
                    );
                },
                _ => {},
            }
        }
    }
}

/// What indexing the class `c` needs: the `#initialize` that the superclass gives where the
/// body defines none, what the classes defined inside need, the metaclass of a known class,
/// and `Class` (whose instance variables a new metaclass gets)
pub open spec fn v_index_class_ok(
    own: ClassesV,
    imp: ClassesV,
    c: Seq<char>,
    tps: Seq<Seq<char>>,
    sup: TyV,
    defs: Seq<Definition>,
) -> bool
    decreases defs, 1nat, 0nat,
{
    let (st, err) = v_index_defs(own, imp, c, defs, defs.len());
    &&& first_initializer(defs) is None ==> vcan_lookup(own, imp, sup, initialize_word()) && vlookup(
        own,
        imp,
        sup,
        initialize_word(),
        Seq::empty(),
    ) is Some
    &&& v_index_defs_ok(own, imp, c, defs, defs.len())
    &&& (err is None && st.contains_key(c)) ==> st.contains_key(spec_metaclass_fullname(c))
    &&& (err is None && !st.contains_key(c)) ==> (c == class_word() || vclass(st, imp, class_word()) is Some)
}

/// What indexing the classes defined among the first `n` definitions of `defs` needs: each
/// names a class (or a specialized one) as its superclass, and what indexing it needs holds
/// when its turn comes
pub open spec fn v_index_defs_ok(own: ClassesV, imp: ClassesV, ns: Seq<char>, defs: Seq<Definition>, n: nat) -> bool
    decreases defs, 0nat, n,
{
    if n == 0 || n > defs.len() {
        true
    } else {
        let (st, err) = v_index_defs(own, imp, ns, defs, (n - 1) as nat);
        &&& v_index_defs_ok(own, imp, ns, defs, (n - 1) as nat)
        &&& err is None ==> match defs[n - 1] {
            Definition::ClassDefinition { name, typarams, superclass, defs: body } => {
                proof {
                    assert(decreases_to!(defs => defs[n - 1]));
                }
                &&& is_superclass_ty(superclass_ty(superclass, strings_view(typarams@)))
                &&& v_index_class_ok(
                    st,
                    imp,
                    inner_fullname(ns, name@),
                    strings_view(typarams@),
                    superclass_ty(superclass, strings_view(typarams@)),
                    body@,
                )
            },
            _ => true,
        }
    }
}

/// What the classes defined among the first `n` definitions need holds of fewer of them.
proof fn lemma_defs_ok_prefix(own: ClassesV, imp: ClassesV, ns: Seq<char>, defs: Seq<Definition>, k: nat, n: nat)
    requires
        k <= n <= defs.len(),
        v_index_defs_ok(own, imp, ns, defs, n),
    ensures
        v_index_defs_ok(own, imp, ns, defs, k),
    decreases n - k,
{
    if k < n {
        lemma_defs_ok_prefix(own, imp, ns, defs, k, (n - 1) as nat);
    }
}

/// Once indexing the definitions stops at an unknown superclass, later definitions change
/// nothing.
proof fn lemma_defs_err_sticks(own: ClassesV, imp: ClassesV, ns: Seq<char>, defs: Seq<Definition>, k: nat, n: nat)
    requires
        k <= n <= defs.len(),
        v_index_defs(own, imp, ns, defs, k).1 is Some,
    ensures
        v_index_defs(own, imp, ns, defs, n) == v_index_defs(own, imp, ns, defs, k),
    decreases n - k,
{
    if k < n {
        lemma_defs_err_sticks(own, imp, ns, defs, k, (n - 1) as nat);
    }
}

/// The text of the error for a superclass that is not known
pub open spec fn unknown_superclass_text(name: Seq<char>) -> Seq<char> {
    "unknown superclass: "@ + crate::names::class_fullname_debug_text(name)
}

/// The error message for a superclass that is not known
fn unknown_superclass_message(name: &ClassFullname) -> (r: String)
    ensures
        r@ == unknown_superclass_text(name@),
{
    crate::strs::concat("unknown superclass: ", crate::names::class_fullname_debug(name).as_str())
}

/// The indexed classes, viewed, after the class `name` is set to `c`.
pub(crate) proof fn lemma_own_update(a: SkClasses, b: SkClasses, name: Seq<char>, c: SkClass)
    requires
        forall|k: Seq<char>|
            #[trigger] b.spec_get(k) == (if k == name {
                Some(c)
            } else {
                a.spec_get(k)
            }),
    ensures
        classes_view(b) == classes_view(a).insert(name, class_view(c)),
{
    assert forall|k: Seq<char>| #[trigger] classes_view(b).contains_key(k) == classes_view(a).insert(name, class_view(c)).contains_key(k) by {
        assert(b.spec_get(k) == (if k == name { Some(c) } else { a.spec_get(k) }));
    }
    assert forall|k: Seq<char>| #[trigger] classes_view(b).contains_key(k) implies classes_view(b)[k] == classes_view(a).insert(name, class_view(c))[k] by {
        assert(b.spec_get(k) == (if k == name { Some(c) } else { a.spec_get(k) }));
    }
    assert(classes_view(b) =~= classes_view(a).insert(name, class_view(c)));
}

/// The last class of `cs` named `k`, if any
pub open spec fn last_named(cs: Seq<(String, SkClass)>, k: Seq<char>) -> Option<SkClass>
    decreases cs.len(),
{
    if cs.len() == 0 {
        None
    } else if cs.last().1.fullname@ == k {
        Some(cs.last().1)
    } else {
        last_named(cs.drop_last(), k)
    }
}

/// `b` is `a` with the method `sig` added (replacing one of the same first name)
pub open spec fn with_method(a: SkClass, b: SkClass, sig: MethodSignature) -> bool {
    &&& b.fullname == a.fullname
    &&& b.typarams == a.typarams
    &&& b.superclass == a.superclass
    &&& b.instance_ty == a.instance_ty
    &&& b.ivars == a.ivars
    &&& b.is_final == a.is_final
    &&& b.const_is_obj == a.const_is_obj
    &&& b.foreign == a.foreign
    &&& forall|m: Seq<char>|
        #[trigger] b.method_sigs.spec_get(m) == (if m == sig.fullname.first_name@ {
            Some(sig)
        } else {
            a.method_sigs.spec_get(m)
        })
}

/// What stops indexing a program: a definition that cannot be at the toplevel, or the name of
/// an unknown superclass
pub enum IndexErrV {
    NotToplevel(Definition),
    UnknownSuperclass(Seq<char>),
}

/// `e` is the error that `err` is reported as
pub open spec fn index_error_of(e: Error, err: IndexErrV) -> bool {
    match err {
        IndexErrV::NotToplevel(d) => error_of(e, not_toplevel_text(d), ErrorDetails::SyntaxError),
        IndexErrV::UnknownSuperclass(n) => error_of(e, unknown_superclass_text(n), ErrorDetails::NameError),
    }
}

/// The classes after indexing the toplevel definitions `defs` (classes are indexed, constants
/// skipped), and what stops it, if anything
pub open spec fn v_index_program(own: ClassesV, imp: ClassesV, defs: Seq<Definition>) -> (ClassesV, Option<IndexErrV>)
    decreases defs.len(),
{
    if defs.len() == 0 {
        (own, None)
    } else {
        match defs[0] {
            Definition::ClassDefinition { name, typarams, superclass, defs: body } => {
                let (st, err) = v_index_class(
                    own,
                    imp,
                    name@,
                    strings_view(typarams@),
                    superclass_ty(superclass, strings_view(typarams@)),
                    body@,
                );
                match err {
                    Some(n) => (st, Some(IndexErrV::UnknownSuperclass(n))),
                    None => v_index_program(st, imp, defs.drop_first()),
                }
            },
            Definition::ConstDefinition { .. } => v_index_program(own, imp, defs.drop_first()),
            _ => (own, Some(IndexErrV::NotToplevel(defs[0]))),
        }
    }
}

/// What indexing the toplevel definitions `defs` needs, for each class when its turn comes
pub open spec fn v_index_program_ok(own: ClassesV, imp: ClassesV, defs: Seq<Definition>) -> bool
    decreases defs.len(),
{
    if defs.len() == 0 {
        true
    } else {
        match defs[0] {
            Definition::ClassDefinition { name, typarams, superclass, defs: body } => {
                let tps = strings_view(typarams@);
                let sup = superclass_ty(superclass, tps);
                let (st, err) = v_index_class(own, imp, name@, tps, sup, body@);
                &&& is_superclass_ty(sup)
                &&& v_index_class_ok(own, imp, name@, tps, sup, body@)
                &&& err is None ==> v_index_program_ok(st, imp, defs.drop_first())
            },
            Definition::ConstDefinition { .. } => v_index_program_ok(own, imp, defs.drop_first()),
            _ => true,
        }
    }
}

/// The definitions among the toplevel items `items`, in order
pub open spec fn program_defs(items: Seq<TopLevelItem>) -> Seq<Definition>
    decreases items.len(),
{
    if items.len() == 0 {
        Seq::empty()
    } else {
        let rest = program_defs(items.drop_last());
        match items.last() {
            TopLevelItem::Def(d) => rest.push(d),
            TopLevelItem::Expr(_) => rest,
        }
    }
}

/// The definitions that references point to
pub open spec fn derefs(v: Seq<&Definition>) -> Seq<Definition> {
    Seq::new(v.len(), |i: int| *v[i])
}

impl<'hir_maker> ClassDict<'hir_maker> {
    /// Add `methods` to the methods of the indexed class `name`
    fn extend_methods(&mut self, name: &ClassFullname, methods: StrMap<MethodSignature>)
        requires
            old(self).own_v().contains_key(name@),
            unique_keys(methods.entries@),
        ensures
            final(self).imported_classes == old(self).imported_classes,
            old(self).sk_classes.wf() ==> final(self).sk_classes.wf(),
            final(self).own_v() == old(self).own_v().insert(
                name@,
                ClassV {
                    methods: old(self).own_v()[name@].methods.union_prefer_right(sigs_map(methods)),
                    ..old(self).own_v()[name@]
                },
            ),
    {
        let ghost a = self.sk_classes;
        let ghost ms = methods;
        let class = self.get_class_mut(name);
        let ghost old_class = *class;
        class.method_sigs.extend(methods);
        proof {
            lemma_sigs_map_extend(old_class.method_sigs, class.method_sigs, ms);
        }
        let ghost nc = *class;
        proof {
            lemma_own_update(a, self.sk_classes, name@, nc);
            assert(class_view(nc) =~= ClassV {
                methods: classes_view(a)[name@].methods.union_prefer_right(sigs_map(ms)),
                ..classes_view(a)[name@]
            });
        }
    }

    /// Add `new_sig` as `new` to the methods of the indexed class `name`, unless it has `new`
    fn add_new_if_absent(&mut self, name: &ClassFullname, new_sig: MethodSignature)
        requires
            old(self).own_v().contains_key(name@),
            new_sig.fullname.first_name@ == new_word(),
        ensures
            final(self).imported_classes == old(self).imported_classes,
            old(self).sk_classes.wf() ==> final(self).sk_classes.wf(),
            final(self).own_v() == (if old(self).own_v()[name@].methods.contains_key(new_word()) {
                old(self).own_v()
            } else {
                old(self).own_v().insert(
                    name@,
                    ClassV {
                        methods: old(self).own_v()[name@].methods.insert(new_word(), new_sig@),
                        ..old(self).own_v()[name@]
                    },
                )
            }),
    {
        let ghost a = self.sk_classes;
        proof {
            reveal_strlit("new");
            assert("new"@ =~= new_word());
        }
        let class = self.get_class_mut(name);
        let ghost old_class = *class;
        if !class.method_sigs.contains_key("new") {
            let ghost ns = new_sig;
            class.method_sigs.insert(copy_string(&new_sig.fullname.first_name.0), new_sig);
            proof {
                lemma_sigs_map_insert(old_class.method_sigs, class.method_sigs, new_word(), ns);
            }
            let ghost nc = *class;
            proof {
                lemma_own_update(a, self.sk_classes, name@, nc);
                assert(class_view(nc) =~= ClassV {
                    methods: classes_view(a)[name@].methods.insert(new_word(), ns@),
                    ..classes_view(a)[name@]
                });
            }
        } else {
            let ghost nc = *class;
            proof {
                lemma_own_update(a, self.sk_classes, name@, nc);
                assert(classes_view(self.sk_classes) =~= classes_view(a));
            }
        }
    }

    /// Return parameters of `initialize` which is defined by
    /// - `#initialize` in `defs` (if any) or,
    /// - `#initialize` inherited from ancestors.
    fn initializer_params(&self, typarams: &[String], superclass: &Superclass, defs: &Vec<Definition>) -> (r: Vec<
        MethodParam,
    >)
        requires
            first_initializer(defs@) is None ==> vcan_lookup(self.own_v(), self.imp_v(), superclass@, initialize_word())
                && vlookup(self.own_v(), self.imp_v(), superclass@, initialize_word(), Seq::empty()) is Some,
        ensures
            params_view(r@) == init_params_v(self.own_v(), self.imp_v(), strings_view(typarams@), superclass@, defs@),
    {
        let none: &[String] = &[];
        assert(strings_view(none@) =~= Seq::<Seq<char>>::empty());
        match initializer_params(defs) {
            // Has explicit initializer definition
            Some(ps) => convert_params(ps.as_slice(), typarams, none),
            None => {
                // Inherit #initialize from superclass
                proof {
                    self.lemma_lookup_method_view(superclass@, initialize_word(), Seq::empty());
                    reveal_strlit("initialize");
                    assert("initialize"@ =~= initialize_word());
                }
                let no_tyargs: &[TermTy] = &[];
                assert(views_of(no_tyargs@) =~= Seq::<TyV>::empty());
                match self.lookup_method(superclass.ty(), &method_firstname("initialize"), no_tyargs) {
                    Ok((sig, _)) => specialized_initialize(&sig, superclass).params,
                    Err(_) => vstd::pervasive::unreached(),
                }
            },
        }
    }

    /// Add the new class `fullname` and its metaclass (which gets `.new`), unless its
    /// superclass is unknown; a class of the same name, and its metaclass, are replaced
    fn add_new_class(
        &mut self,
        fullname: &ClassFullname,
        typarams: &Vec<String>,
        superclass: Superclass,
        new_sig: MethodSignature,
        instance_methods: StrMap<MethodSignature>,
        class_methods: StrMap<MethodSignature>,
    ) -> (r: Result<(), Error>)
        requires
            new_sig.fullname.first_name@ == new_word(),
            vclass(old(self).own_v(), old(self).imp_v(), spec_erasure(superclass@)) is Some ==> (fullname@
                == class_word() || vclass(old(self).own_v(), old(self).imp_v(), class_word()) is Some),
        ensures
            final(self).imported_classes == old(self).imported_classes,
            old(self).sk_classes.wf() ==> final(self).sk_classes.wf(),
            vclass(old(self).own_v(), old(self).imp_v(), spec_erasure(superclass@)) is None ==> {
                &&& final(self).own_v() == old(self).own_v()
                &&& r matches Err(e) && error_of(e, unknown_superclass_text(spec_erasure(superclass@)), ErrorDetails::NameError)
            },
            vclass(old(self).own_v(), old(self).imp_v(), spec_erasure(superclass@)) is Some ==> {
                &&& r is Ok
                &&& final(self).own_v() == with_new_class(
                    old(self).own_v(),
                    old(self).imp_v(),
                    fullname@,
                    strings_view(typarams@),
                    superclass@,
                    sigs_map(instance_methods),
                    sigs_map(class_methods).insert(new_word(), new_sig@),
                )
            },
    {
        let ghost st = self.own_v();
        let ghost imp = self.imp_v();
        // Add `.new` to the metaclass
        let mut class_methods = class_methods;
        let ghost before = class_methods;
        let ghost ns = new_sig;
        class_methods.insert(copy_string(&new_sig.fullname.first_name.0), new_sig);
        proof {
            lemma_sigs_map_insert(before, class_methods, new_word(), ns);
        }
        let super_name = superclass.ty().erasure();
        proof {
            self.lemma_class_views(super_name@);
        }
        if !self.class_exists(super_name.0.as_str()) {
            let msg = unknown_superclass_message(&super_name);
            return Err(name_error(msg.as_str()));
        }
        let ghost sup = superclass@;
        let class = SkClass {
            fullname: fullname.copy(),
            typarams: typarams_of(typarams),
            superclass: Some(superclass),
            instance_ty: ty::raw(fullname.0.as_str()),
            ivars: StrMap::new(),
            method_sigs: instance_methods,
            is_final: Some(false),
            const_is_obj: false,
            foreign: false,
        };
        let ghost cv = class;
        let ghost a = self.sk_classes;
        self.add_class(class);
        proof {
            lemma_own_update(a, self.sk_classes, fullname@, cv);
            lemma_strlits();
            self.lemma_class_views(class_word());
        }
        let ghost st1 = self.own_v();
        // Create metaclass (which is a subclass of `Class`)
        let the_class = self.get_class(&class_fullname("Class"));
        let meta_ivars = copy_ivars(&the_class.ivars);
        proof {
            let x = meta_ivars.entries@;
            let y = the_class.ivars.entries@;
            assert(ivars_view(meta_ivars).len() == x.len());
            assert forall|i: int| 0 <= i < x.len() implies (#[trigger] x[i]).0@ == y[i].0@ && x[i].1@ == y[i].1@ by {
                assert(ivars_view(meta_ivars)[i] == ivars_view(the_class.ivars)[i]);
            }
            assert forall|k: Seq<char>| #![auto] lookup(x, k) is Some == lookup(y, k) is Some && (lookup(x, k) is Some
                ==> lookup(x, k).unwrap()@ == lookup(y, k).unwrap()@) by {
                lemma_lookup_same_views(x, y, k);
            }
            assert(class_view(SkClass { ivars: meta_ivars, ..*the_class }).ivars =~= class_view(*the_class).ivars);
        }
        let meta = SkClass {
            fullname: fullname.meta_name(),
            typarams: typarams_of(typarams),
            superclass: Some(Superclass::simple("Class")),
            instance_ty: ty::meta(fullname.0.as_str()),
            ivars: meta_ivars,
            method_sigs: class_methods,
            is_final: None,
            const_is_obj: false,
            foreign: false,
        };
        let ghost mv = meta;
        let ghost a1 = self.sk_classes;
        self.add_class(meta);
        proof {
            lemma_own_update(a1, self.sk_classes, spec_metaclass_fullname(fullname@), mv);
            assert(cv.ivars.entries@.len() == 0);
            assert(class_view(cv).ivars =~= Map::empty());
            assert(class_view(cv).typarams == strings_view(typarams@));
            assert(class_view(cv).instance_ty == spec_raw(fullname@));
            assert(class_view(cv).superclass == Some(sup));
            assert(class_view(cv) =~= ClassV {
                fullname: fullname@,
                typarams: strings_view(typarams@),
                superclass: Some(sup),
                instance_ty: spec_raw(fullname@),
                ivars: Map::empty(),
                methods: sigs_map(instance_methods),
                is_final: Some(false),
                const_is_obj: false,
                foreign: false,
            });
            assert(class_view(mv).ivars == vclass(st1, imp, class_word()).unwrap().ivars);
            assert(self.own_v() =~= with_new_class(
                st,
                imp,
                fullname@,
                strings_view(typarams@),
                sup,
                sigs_map(instance_methods),
                sigs_map(before).insert(new_word(), ns@),
            ));
        }
        Ok(())
    }

    /// Index the class `fullname` (with the type parameters `typarams`, the superclass
    /// `superclass` and the body `defs`), with the classes defined inside it
    fn index_class(
        &mut self,
        fullname: &ClassFullname,
        typarams: &Vec<String>,
        superclass: Superclass,
        defs: &Vec<Definition>,
    ) -> (r: Result<(), Error>)
        requires
            v_index_class_ok(old(self).own_v(), old(self).imp_v(), fullname@, strings_view(typarams@), superclass@, defs@),
        ensures
            final(self).imported_classes == old(self).imported_classes,
            old(self).sk_classes.wf() ==> final(self).sk_classes.wf(),
            final(self).own_v() == v_index_class(
                old(self).own_v(),
                old(self).imp_v(),
                fullname@,
                strings_view(typarams@),
                superclass@,
                defs@,
            ).0,
            match v_index_class(old(self).own_v(), old(self).imp_v(), fullname@, strings_view(typarams@), superclass@, defs@).1 {
                Some(n) => r matches Err(e) && error_of(e, unknown_superclass_text(n), ErrorDetails::NameError),
                None => r is Ok,
            },
        decreases defs@, 1nat, 0nat,
    {
        let ghost own0 = self.own_v();
        let ghost imp = self.imp_v();
        let ghost tps = strings_view(typarams@);
        let metaclass_fullname = fullname.meta_name();
        let params = self.initializer_params(typarams.as_slice(), &superclass, defs);
        let new_sig = signature_of_new(&metaclass_fullname, params, &ty::return_type_of_new(fullname, typarams.as_slice()));
        assert(new_sig@ == new_sig_of(fullname@, tps, init_params_v(own0, imp, tps, superclass@, defs@)));
        match self.index_defs_in_class(fullname, defs) {
            Err(e) => return Err(e),
            Ok(()) => {},
        }
        let (instance_methods, class_methods) = collect_methods(fullname, &metaclass_fullname, typarams.as_slice(), defs);
        if self.sk_classes.contains_key(fullname.0.as_str()) {
            // Merge methods to existing class (Class is reopened)
            self.extend_methods(fullname, instance_methods);
            self.extend_methods(&metaclass_fullname, class_methods);
            // Add `.new` to the metaclass
            proof {
                reveal_strlit("new");
                assert("new"@ =~= new_word());
            }
            self.add_new_if_absent(&metaclass_fullname, new_sig);
            Ok(())
        } else {
            proof {
                reveal_strlit("new");
                assert("new"@ =~= new_word());
            }
            self.add_new_class(fullname, typarams, superclass, new_sig, instance_methods, class_methods)
        }
    }

    /// Index the classes defined in the body `defs` of the class `fullname`
    fn index_defs_in_class(&mut self, fullname: &ClassFullname, defs: &Vec<Definition>) -> (r: Result<(), Error>)
        requires
            v_index_defs_ok(old(self).own_v(), old(self).imp_v(), fullname@, defs@, defs@.len()),
        ensures
            final(self).imported_classes == old(self).imported_classes,
            old(self).sk_classes.wf() ==> final(self).sk_classes.wf(),
            final(self).own_v() == v_index_defs(old(self).own_v(), old(self).imp_v(), fullname@, defs@, defs@.len()).0,
            match v_index_defs(old(self).own_v(), old(self).imp_v(), fullname@, defs@, defs@.len()).1 {
                Some(n) => r matches Err(e) && error_of(e, unknown_superclass_text(n), ErrorDetails::NameError),
                None => r is Ok,
            },
        decreases defs@, 0nat, 0nat,
    {
        let ghost own0 = self.own_v();
        let ghost imp = self.imp_v();
        let ghost d = defs@;
        let mut i: usize = 0;
        while i < defs.len()
            invariant
                d == defs@,
                0 <= i <= d.len(),
                self.imported_classes == old(self).imported_classes,
                old(self).sk_classes.wf() ==> self.sk_classes.wf(),
                own0 == old(self).own_v(),
                imp == self.imp_v(),
                v_index_defs_ok(own0, imp, fullname@, d, d.len()),
                v_index_defs(own0, imp, fullname@, d, i as nat).1 is None,
                self.own_v() == v_index_defs(own0, imp, fullname@, d, i as nat).0,
            decreases defs.len() - i,
        {
            proof {
                lemma_defs_ok_prefix(own0, imp, fullname@, d, (i + 1) as nat, d.len());
            }
            match &defs[i] {
                Definition::ClassDefinition { name, typarams, superclass, defs: body } => {
                    let full = name.add_namespace(fullname.0.as_str());
                    let sc = match superclass {
                        Some(n) => Superclass::from_const_name(n, typarams.as_slice()),
                        None => Superclass::default(),
                    };
                    proof {
                        assert(decreases_to!(d => d[i as int]));
                    }
                    match self.index_class(&full, typarams, sc, body) {
                        Err(e) => {
                            proof {
                                lemma_defs_err_sticks(own0, imp, fullname@, d, (i + 1) as nat, d.len());
                            }
                            return Err(e);
                        },
                        Ok(()) => {},
                    }
                },
                _ => {},
            }
            i += 1;
        }
        Ok(())
    }

    /// Index the toplevel definitions: classes are indexed, constants skipped, and anything else
    /// is an error
    pub fn index_program(&mut self, toplevel_defs: &[&Definition]) -> (r: Result<(), Error>)
        requires
            v_index_program_ok(old(self).own_v(), old(self).imp_v(), derefs(toplevel_defs@)),
        ensures
            final(self).imported_classes == old(self).imported_classes,
            old(self).sk_classes.wf() ==> final(self).sk_classes.wf(),
            final(self).own_v() == v_index_program(old(self).own_v(), old(self).imp_v(), derefs(toplevel_defs@)).0,
            match v_index_program(old(self).own_v(), old(self).imp_v(), derefs(toplevel_defs@)).1 {
                Some(err) => r matches Err(e) && index_error_of(e, err),
                None => r is Ok,
            },
    {
        let ghost d = derefs(toplevel_defs@);
        let ghost own0 = self.own_v();
        let ghost imp = self.imp_v();
        let mut i: usize = 0;
        assert(d.skip(0) =~= d);
        while i < toplevel_defs.len()
            invariant
                d == derefs(toplevel_defs@),
                own0 == old(self).own_v(),
                imp == self.imp_v(),
                self.imported_classes == old(self).imported_classes,
                old(self).sk_classes.wf() ==> self.sk_classes.wf(),
                0 <= i <= d.len(),
                v_index_program_ok(self.own_v(), imp, d.skip(i as int)),
                v_index_program(own0, imp, d) == v_index_program(self.own_v(), imp, d.skip(i as int)),
            decreases toplevel_defs.len() - i,
        {
            assert(d.skip(i as int)[0] == d[i as int]);
            assert(d.skip(i as int).drop_first() =~= d.skip(i + 1));
            let def: &Definition = toplevel_defs[i];
            match def {
                Definition::ClassDefinition { name, typarams, superclass, defs } => {
                    proof {
                        reveal_strlit("");
                    }
                    let full = name.add_namespace("");
                    let sc = match superclass {
                        Some(n) => Superclass::from_const_name(n, typarams.as_slice()),
                        None => Superclass::default(),
                    };
                    match self.index_class(&full, typarams, sc, defs) {
                        Err(e) => return Err(e),
                        Ok(()) => {},
                    }
                },
                Definition::ConstDefinition { .. } => {},
                _ => {
                    let msg = not_toplevel_message(def);
                    return Err(syntax_error(msg.as_str()));
                },
            }
            i += 1;
        }
        assert(d.skip(d.len() as int) =~= Seq::<Definition>::empty());
        Ok(())
    }

    /// Register a class
    pub fn add_class(&mut self, class: SkClass)
        ensures
            final(self).imported_classes == old(self).imported_classes,
            old(self).sk_classes.wf() ==> final(self).sk_classes.wf(),
            forall|k: Seq<char>|
                #[trigger] final(self).sk_classes.spec_get(k) == (if k == class.fullname@ {
                    Some(class)
                } else {
                    old(self).sk_classes.spec_get(k)
                }),
    {
        let name = copy_string(&class.fullname.0);
        self.sk_classes.insert(name, class);
    }

    /// Add a method
    /// Used to add auto-defined accessors
    pub fn add_method(&mut self, clsname: &ClassFullname, sig: MethodSignature)
        requires
            old(self).sk_classes.spec_contains(clsname@),
        ensures
            final(self).imported_classes == old(self).imported_classes,
            old(self).sk_classes.wf() ==> final(self).sk_classes.wf(),
            final(self).sk_classes.spec_get(clsname@) matches Some(c) && with_method(
                old(self).sk_classes.spec_get(clsname@).unwrap(),
                c,
                sig,
            ),
            forall|k: Seq<char>|
                k != clsname@ ==> #[trigger] final(self).sk_classes.spec_get(k) == old(
                    self,
                ).sk_classes.spec_get(k),
    {
        let sk_class = self.sk_classes.get_mut(clsname.0.as_str()).unwrap();
        let name = copy_string(&sig.fullname.first_name.0);
        sk_class.method_sigs.insert(name, sig);
    }

    /// Register the classes of the core library
    pub fn index_corelib(&mut self, corelib: SkClasses)
        ensures
            final(self).imported_classes == old(self).imported_classes,
            old(self).sk_classes.wf() ==> final(self).sk_classes.wf(),
            forall|k: Seq<char>|
                #[trigger] final(self).sk_classes.spec_get(k) == (match last_named(corelib.entries@, k) {
                    Some(c) => Some(c),
                    None => old(self).sk_classes.spec_get(k),
                }),
    {
        let ghost orig = corelib.entries@;
        let ghost start = self.sk_classes;
        let mut es = corelib.entries;
        let ghost mut i: int = 0;
        assert(orig.skip(0) =~= orig);
        while es.len() > 0
            invariant
                0 <= i <= orig.len(),
                es@ == orig.skip(i),
                self.imported_classes == old(self).imported_classes,
                old(self).sk_classes.wf() ==> self.sk_classes.wf(),
                start == old(self).sk_classes,
                forall|k: Seq<char>|
                    #[trigger] self.sk_classes.spec_get(k) == (match last_named(orig.take(i), k) {
                        Some(c) => Some(c),
                        None => start.spec_get(k),
                    }),
            decreases es.len(),
        {
            assert(es@.len() == orig.len() - i);
            let (_, c) = es.remove(0);
            proof {
                assert(orig.skip(i)[0] == orig[i]);
                assert(orig.skip(i).drop_first() =~= orig.skip(i + 1));
                assert(orig.take(i + 1).drop_last() =~= orig.take(i));
                assert(orig.take(i + 1).last() == orig[i]);
            }
            self.add_class(c);
            proof { i = i + 1; }
        }
        assert(orig.take(orig.len() as int) =~= orig);
    }
}

} // verus!
