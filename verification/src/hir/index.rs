//! Index of all the classes and method signatures
//!
//! Note: `MethodSignature` contained in `Index` is "as is" and
//! may be wrong (eg. its return type does not exist).
//! It is checked in `HirMaker`.
use vstd::prelude::*;
use crate::ast;
use crate::ast::Definition;
use crate::error::{Error, ErrorDetails, error_of, syntax_error};
use crate::hir::SkIVar;
use crate::hir::signature::{
    MethodSignature, SigV, convert_params, create_signature, params_view, signature_of_new,
    spec_convert_params, spec_create_signature,
};
use crate::hir::sk_class::SkClasses;
use crate::names::{
    ClassFirstname, ClassFullname, MethodFirstname, class_fullname, lemma_strlits, object_word,
    spec_method_fullname,
};
use crate::str_map::{StrMap, lemma_lookup_last_unique, lookup_last, unique_keys};
use crate::strs::{copy_string, str_eq, strings_view, to_owned};
use crate::ty;
use crate::ty::{TermTy, TyV, spec_erasure, spec_meta, spec_raw};

verus! {

/// A class as the index knows it
#[derive(Debug)]
pub struct IdxClass {
    pub fullname: ClassFullname,
    pub superclass_fullname: Option<ClassFullname>,
    pub instance_ty: TermTy,
    pub ivars: StrMap<SkIVar>,
    pub method_sigs: StrMap<MethodSignature>,
}

/// The abstract value of an indexed class
pub struct IdxClassV {
    pub fullname: Seq<char>,
    pub superclass_fullname: Option<Seq<char>>,
    pub instance_ty: TyV,
    pub ivars: Map<Seq<char>, (usize, Seq<char>, TyV, bool)>,
    pub methods: Map<Seq<char>, SigV>,
}

/// The signatures of a map of signatures, by name
pub open spec fn sigs_map(m: StrMap<MethodSignature>) -> Map<Seq<char>, SigV> {
    Map::new(|k: Seq<char>| m.spec_contains(k), |k: Seq<char>| m.spec_get(k).unwrap()@)
}

/// The instance variables of a map of them, by name
pub open spec fn ivars_map(m: StrMap<SkIVar>) -> Map<Seq<char>, (usize, Seq<char>, TyV, bool)> {
    Map::new(|k: Seq<char>| m.spec_contains(k), |k: Seq<char>| m.spec_get(k).unwrap()@)
}

impl View for IdxClass {
    type V = IdxClassV;

    open spec fn view(&self) -> IdxClassV {
        IdxClassV {
            fullname: self.fullname@,
            superclass_fullname: match self.superclass_fullname {
                Some(s) => Some(s@),
                None => None,
            },
            instance_ty: self.instance_ty@,
            ivars: ivars_map(self.ivars),
            methods: sigs_map(self.method_sigs),
        }
    }
}

/// Index of all the classes and method signatures
#[derive(Debug)]
pub struct Index {
    pub classes: StrMap<IdxClass>,
}

impl View for Index {
    type V = Map<Seq<char>, IdxClassV>;

    open spec fn view(&self) -> Map<Seq<char>, IdxClassV> {
        Map::new(|k: Seq<char>| self.classes.spec_contains(k), |k: Seq<char>| self.classes.spec_get(k).unwrap()@)
    }
}

/// The methods that `defs` define for the class `cls` with the type parameters `typarams`: the
/// instance methods (`instance`) or the class methods; a later definition of a name replaces an
/// earlier one
pub open spec fn defs_methods(defs: Seq<Definition>, cls: Seq<char>, typarams: Seq<Seq<char>>, instance: bool) -> Map<
    Seq<char>,
    SigV,
>
    decreases defs.len(),
{
    if defs.len() == 0 {
        Map::empty()
    } else {
        let m = defs_methods(defs.drop_last(), cls, typarams, instance);
        match defs.last() {
            Definition::InstanceMethodDefinition { sig, .. } => if instance {
                m.insert(sig.name@, spec_create_signature(cls, sig, typarams))
            } else {
                m
            },
            Definition::ClassMethodDefinition { sig, .. } => if !instance {
                m.insert(sig.name@, spec_create_signature(cls, sig, typarams))
            } else {
                m
            },
            _ => m,
        }
    }
}

/// The parameters of the first `#initialize` defined in `defs`, if any
pub open spec fn first_initializer(defs: Seq<Definition>) -> Option<Seq<ast::Param>>
    decreases defs.len(),
{
    if defs.len() == 0 {
        None
    } else if ast::spec_is_initializer(defs[0]) {
        match defs[0] {
            Definition::InstanceMethodDefinition { sig, .. } => Some(sig.params@),
            _ => None,
        }
    } else {
        first_initializer(defs.drop_first())
    }
}

/// `"new"`
pub open spec fn new_word() -> Seq<char> {
    seq!['n', 'e', 'w']
}

/// The name of the metaclass of the class `c`
pub open spec fn meta_of(c: Seq<char>) -> Seq<char> {
    spec_meta(c).fullname
}

/// The signature of `.new` of the class `c` whose body is `defs`: it takes the parameters of
/// `#initialize` (none if it is not defined) and returns an instance
pub open spec fn new_sig_v(c: Seq<char>, defs: Seq<Definition>) -> SigV {
    SigV {
        fullname: spec_method_fullname(meta_of(c), new_word()),
        ret_ty: spec_raw(c),
        params: match first_initializer(defs) {
            Some(ps) => spec_convert_params(ps, Seq::empty(), Seq::empty()),
            None => Seq::empty(),
        },
        typarams: Seq::empty(),
    }
}

/// Whether the body of a class holds only method and constant definitions
pub open spec fn only_methods(defs: Seq<Definition>) -> bool {
    forall|i: int| 0 <= i < defs.len() ==> !(#[trigger] defs[i] is ClassDefinition) && !(defs[i] is EnumDefinition)
}

/// The index after indexing the class `c` whose body is `defs`: a known class gets the methods
/// (and its metaclass `.new` if it has none), an unknown one is added with its metaclass
pub open spec fn index_class_v(st: Map<Seq<char>, IdxClassV>, c: Seq<char>, defs: Seq<Definition>) -> Map<
    Seq<char>,
    IdxClassV,
> {
    let m = meta_of(c);
    let inst = defs_methods(defs, c, Seq::empty(), true);
    let cls = defs_methods(defs, m, Seq::empty(), false);
    if st.contains_key(c) {
        let st1 = st.insert(c, IdxClassV { methods: st[c].methods.union_prefer_right(inst), ..st[c] });
        let mm = st1[m].methods.union_prefer_right(cls);
        let mm2 = if mm.contains_key(new_word()) {
            mm
        } else {
            mm.insert(new_word(), new_sig_v(c, defs))
        };
        st1.insert(m, IdxClassV { methods: mm2, ..st1[m] })
    } else {
        let k = IdxClassV {
            fullname: c,
            superclass_fullname: if c == object_word() {
                None
            } else {
                Some(object_word())
            },
            instance_ty: spec_raw(c),
            ivars: Map::empty(),
            methods: inst,
        };
        let mk = IdxClassV {
            fullname: m,
            superclass_fullname: Some(object_word()),
            instance_ty: spec_meta(c),
            ivars: Map::empty(),
            methods: cls.insert(new_word(), new_sig_v(c, defs)),
        };
        st.insert(c, k).insert(m, mk)
    }
}

/// Indexing a class changes only that class and its metaclass.
pub proof fn law_index_class_keeps_others(st: Map<Seq<char>, IdxClassV>, c: Seq<char>, defs: Seq<Definition>, k: Seq<char>)
    requires
        k != c,
        k != meta_of(c),
    ensures
        index_class_v(st, c, defs).contains_key(k) == st.contains_key(k),
        st.contains_key(k) ==> index_class_v(st, c, defs)[k] == st[k],
{
}

/// What indexing the class `c` needs: a body of methods and constants, and the metaclass of
/// `c` if `c` is known
pub open spec fn index_class_ok(st: Map<Seq<char>, IdxClassV>, c: Seq<char>, defs: Seq<Definition>) -> bool {
    &&& only_methods(defs)
    &&& st.contains_key(c) ==> st.contains_key(meta_of(c))
}

/// The index after indexing the toplevel definitions `defs`, and the first one that cannot be
/// at the toplevel (a method or an enum), where indexing stops
pub open spec fn index_program_v(st: Map<Seq<char>, IdxClassV>, defs: Seq<Definition>) -> (Map<
    Seq<char>,
    IdxClassV,
>, Option<Definition>)
    decreases defs.len(),
{
    if defs.len() == 0 {
        (st, None)
    } else {
        match defs[0] {
            Definition::ClassDefinition { name, defs: body, .. } => index_program_v(
                index_class_v(st, name@, body@),
                defs.drop_first(),
            ),
            Definition::ConstDefinition { .. } => index_program_v(st, defs.drop_first()),
            _ => (st, Some(defs[0])),
        }
    }
}

/// What indexing the toplevel definitions `defs` needs, for each class before the first
/// definition that cannot be at the toplevel
pub open spec fn index_program_ok(st: Map<Seq<char>, IdxClassV>, defs: Seq<Definition>) -> bool
    decreases defs.len(),
{
    if defs.len() == 0 {
        true
    } else {
        match defs[0] {
            Definition::ClassDefinition { name, defs: body, .. } => index_class_ok(st, name@, body@)
                && index_program_ok(index_class_v(st, name@, body@), defs.drop_first()),
            Definition::ConstDefinition { .. } => index_program_ok(st, defs.drop_first()),
            _ => true,
        }
    }
}

/// The text of the error for a definition that cannot be at the toplevel
pub open spec fn not_toplevel_text(d: Definition) -> Seq<char> {
    "must not be toplevel: "@ + ast::definition_debug_text(d)
}

/// The error message for a definition that cannot be at the toplevel
pub(crate) fn not_toplevel_message(def: &Definition) -> (r: String)
    ensures
        r@ == not_toplevel_text(*def),
{
    crate::strs::concat("must not be toplevel: ", ast::definition_debug(def).as_str())
}

/// A map of signatures after an insertion, by name.
pub(crate) proof fn lemma_sigs_map_insert(a: StrMap<MethodSignature>, b: StrMap<MethodSignature>, k: Seq<char>, v: MethodSignature)
    requires
        forall|key: Seq<char>| #[trigger] b.spec_get(key) == (if key == k { Some(v) } else { a.spec_get(key) }),
    ensures
        sigs_map(b) == sigs_map(a).insert(k, v@),
{
    assert forall|key: Seq<char>| #[trigger] sigs_map(b).contains_key(key) == sigs_map(a).insert(k, v@).contains_key(key) by {
        assert(b.spec_get(key) == (if key == k { Some(v) } else { a.spec_get(key) }));
    }
    assert forall|key: Seq<char>| #[trigger] sigs_map(b).contains_key(key) implies sigs_map(b)[key] == sigs_map(a).insert(k, v@)[key] by {
        assert(b.spec_get(key) == (if key == k { Some(v) } else { a.spec_get(key) }));
    }
    assert(sigs_map(b) =~= sigs_map(a).insert(k, v@));
}

/// A map of signatures after inserting all of another one with unique keys, by name.
pub(crate) proof fn lemma_sigs_map_extend(a: StrMap<MethodSignature>, b: StrMap<MethodSignature>, o: StrMap<MethodSignature>)
    requires
        unique_keys(o.entries@),
        forall|key: Seq<char>|
            #[trigger] b.spec_get(key) == (match lookup_last(o.entries@, key) {
                Some(v) => Some(v),
                None => a.spec_get(key),
            }),
    ensures
        sigs_map(b) == sigs_map(a).union_prefer_right(sigs_map(o)),
{
    assert forall|key: Seq<char>| #[trigger] sigs_map(b).contains_key(key) == sigs_map(a).union_prefer_right(sigs_map(o)).contains_key(key) by {
        lemma_lookup_last_unique(o.entries@, key);
        assert(b.spec_get(key) == (match lookup_last(o.entries@, key) { Some(v) => Some(v), None => a.spec_get(key) }));
    }
    assert forall|key: Seq<char>| #[trigger] sigs_map(b).contains_key(key) implies sigs_map(b)[key] == sigs_map(a).union_prefer_right(sigs_map(o))[key] by {
        lemma_lookup_last_unique(o.entries@, key);
        assert(b.spec_get(key) == (match lookup_last(o.entries@, key) { Some(v) => Some(v), None => a.spec_get(key) }));
    }
    assert(sigs_map(b) =~= sigs_map(a).union_prefer_right(sigs_map(o)));
}

/// Return parameters of `initialize`
pub(crate) fn initializer_params(defs: &Vec<Definition>) -> (r: Option<&Vec<ast::Param>>)
    ensures
        match first_initializer(defs@) {
            Some(ps) => r matches Some(v) && v@ == ps,
            None => r is None,
        },
{
    let ghost d = defs@;
    let mut i: usize = 0;
    assert(d.skip(0) =~= d);
    while i < defs.len()
        invariant
            d == defs@,
            0 <= i <= d.len(),
            first_initializer(d) == first_initializer(d.skip(i as int)),
        decreases defs.len() - i,
    {
        assert(d.skip(i as int)[0] == d[i as int]);
        assert(d.skip(i as int).drop_first() =~= d.skip(i + 1));
        if defs[i].is_initializer() {
            return match &defs[i] {
                Definition::InstanceMethodDefinition { sig, .. } => Some(&sig.params),
                // `initialize` takes no args
                _ => None,
            };
        }
        i += 1;
    }
    None
}

/// The instance methods and the class methods that `defs` define for the class `class_name`
/// (whose type parameters are `class_typarams`) and its metaclass `meta_name`
pub(crate) fn collect_methods(
    class_name: &ClassFullname,
    meta_name: &ClassFullname,
    class_typarams: &[String],
    defs: &Vec<Definition>,
) -> (r: (StrMap<MethodSignature>, StrMap<MethodSignature>))
    ensures
        unique_keys(r.0.entries@),
        unique_keys(r.1.entries@),
        sigs_map(r.0) == defs_methods(defs@, class_name@, strings_view(class_typarams@), true),
        sigs_map(r.1) == defs_methods(defs@, meta_name@, strings_view(class_typarams@), false),
{
    let ghost tps = strings_view(class_typarams@);
    let mut instance_methods: StrMap<MethodSignature> = StrMap::new();
    let mut class_methods: StrMap<MethodSignature> = StrMap::new();
    let ghost d = defs@;
    proof {
        assert(sigs_map(instance_methods) =~= Map::<Seq<char>, SigV>::empty());
        assert(sigs_map(class_methods) =~= Map::<Seq<char>, SigV>::empty());
        assert(d.take(0) =~= Seq::<Definition>::empty());
    }
    let mut i: usize = 0;
    while i < defs.len()
        invariant
            d == defs@,
            tps == strings_view(class_typarams@),
            0 <= i <= d.len(),
            unique_keys(instance_methods.entries@),
            unique_keys(class_methods.entries@),
            sigs_map(instance_methods) == defs_methods(d.take(i as int), class_name@, tps, true),
            sigs_map(class_methods) == defs_methods(d.take(i as int), meta_name@, tps, false),
        decreases defs.len() - i,
    {
        proof {
            assert(d.take(i + 1).drop_last() =~= d.take(i as int));
            assert(d.take(i + 1).last() == d[i as int]);
        }
        match &defs[i] {
            Definition::InstanceMethodDefinition { sig, .. } => {
                let hir_sig = create_signature(class_name, sig, class_typarams);
                let ghost before = instance_methods;
                let ghost hs = hir_sig;
                instance_methods.insert(copy_string(&sig.name.0), hir_sig);
                proof { lemma_sigs_map_insert(before, instance_methods, sig.name@, hs); }
            },
            Definition::ClassMethodDefinition { sig, .. } => {
                let hir_sig = create_signature(meta_name, sig, class_typarams);
                let ghost before = class_methods;
                let ghost hs = hir_sig;
                class_methods.insert(copy_string(&sig.name.0), hir_sig);
                proof { lemma_sigs_map_insert(before, class_methods, sig.name@, hs); }
            },
            _ => {},
        }
        i += 1;
    }
    assert(d.take(d.len() as int) =~= d);
    (instance_methods, class_methods)
}

/// The view of an index after the class `name` in it is changed in place to `c`.
proof fn lemma_view_update(a: Index, b: Index, name: Seq<char>, c: IdxClass)
    requires
        forall|k: Seq<char>|
            #[trigger] b.classes.spec_get(k) == (if k == name {
                Some(c)
            } else {
                a.classes.spec_get(k)
            }),
    ensures
        b@ == a@.insert(name, c@),
{
    assert forall|k: Seq<char>| #[trigger] b@.contains_key(k) == a@.insert(name, c@).contains_key(k) by {
        assert(b.classes.spec_get(k) == (if k == name { Some(c) } else { a.classes.spec_get(k) }));
    }
    assert forall|k: Seq<char>| #[trigger] b@.contains_key(k) implies b@[k] == a@.insert(name, c@)[k] by {
        assert(b.classes.spec_get(k) == (if k == name { Some(c) } else { a.classes.spec_get(k) }));
    }
    assert(b@ =~= a@.insert(name, c@));
}

impl Index {
    pub fn new() -> (r: Index)
        ensures
            r@ == Map::<Seq<char>, IdxClassV>::empty(),
    {
        let r = Index { classes: StrMap::new() };
        assert(r@ =~= Map::<Seq<char>, IdxClassV>::empty());
        r
    }

    /// Find a method from class name and first name
    pub fn find_method(&self, class_fullname: &ClassFullname, method_name: &MethodFirstname) -> (r: Option<
        &MethodSignature,
    >)
        ensures
            match r {
                Some(s) => self@.contains_key(class_fullname@) && self@[class_fullname@].methods.contains_key(
                    method_name@,
                ) && self@[class_fullname@].methods[method_name@] == s@,
                None => !(self@.contains_key(class_fullname@) && self@[class_fullname@].methods.contains_key(
                    method_name@,
                )),
            },
    {
        match self.classes.get(class_fullname.0.as_str()) {
            Some(class) => class.method_sigs.get(method_name.0.as_str()),
            None => None,
        }
    }

    /// Find a class
    pub fn find_class(&self, class_fullname: &ClassFullname) -> (r: Option<&IdxClass>)
        ensures
            match r {
                Some(c) => self@.contains_key(class_fullname@) && self@[class_fullname@] == c@,
                None => !self@.contains_key(class_fullname@),
            },
    {
        self.classes.get(class_fullname.0.as_str())
    }

    /// Return true if there is a class of the name
    pub fn class_exists(&self, class_fullname: &str) -> (r: bool)
        ensures
            r == self@.contains_key(class_fullname@),
    {
        self.classes.contains_key(class_fullname)
    }

    /// Register a class
    fn add_class(&mut self, class: IdxClass)
        ensures
            final(self)@ == old(self)@.insert(class.fullname@, class@),
    {
        let ghost c = class;
        let name = copy_string(&class.fullname.0);
        self.classes.insert(name, class);
        proof {
            assert forall|k: Seq<char>| #[trigger] self@.contains_key(k) == old(self)@.insert(c.fullname@, c@).contains_key(k) by {
                assert(self.classes.spec_get(k) == (if k == c.fullname@ { Some(c) } else { old(self).classes.spec_get(k) }));
            }
            assert forall|k: Seq<char>| #[trigger] self@.contains_key(k) implies self@[k] == old(self)@.insert(c.fullname@, c@)[k] by {
                assert(self.classes.spec_get(k) == (if k == c.fullname@ { Some(c) } else { old(self).classes.spec_get(k) }));
            }
            assert(self@ =~= old(self)@.insert(c.fullname@, c@));
        }
    }

    /// Index the toplevel definitions: classes are indexed, constants skipped, and anything else
    /// is an error
    pub fn index_program(&mut self, toplevel_defs: &Vec<Definition>) -> (r: Result<(), Error>)
        requires
            index_program_ok(old(self)@, toplevel_defs@),
        ensures
            final(self)@ == index_program_v(old(self)@, toplevel_defs@).0,
            match index_program_v(old(self)@, toplevel_defs@).1 {
                Some(d) => r matches Err(e) && error_of(e, not_toplevel_text(d), ErrorDetails::SyntaxError),
                None => r is Ok,
            },
    {
        let ghost d = toplevel_defs@;
        let ghost st0 = self@;
        let mut i: usize = 0;
        assert(d.skip(0) =~= d);
        while i < toplevel_defs.len()
            invariant
                d == toplevel_defs@,
                st0 == old(self)@,
                0 <= i <= d.len(),
                index_program_ok(self@, d.skip(i as int)),
                index_program_v(st0, d) == index_program_v(self@, d.skip(i as int)),
            decreases toplevel_defs.len() - i,
        {
            assert(d.skip(i as int)[0] == d[i as int]);
            assert(d.skip(i as int).drop_first() =~= d.skip(i + 1));
            match &toplevel_defs[i] {
                Definition::ClassDefinition { name, defs, .. } => {
                    self.index_class(name, defs);
                },
                Definition::ConstDefinition { .. } => {},
                def => {
                    assert(index_program_v(self@, d.skip(i as int)) == (self@, Some(d[i as int])));
                    let msg = not_toplevel_message(def);
                    return Err(syntax_error(msg.as_str()));
                },
            }
            i += 1;
        }
        assert(d.skip(d.len() as int) =~= Seq::<Definition>::empty());
        Ok(())
    }

    /// Add `methods` to the methods of the class `name`
    fn extend_methods(&mut self, name: &str, methods: StrMap<MethodSignature>)
        requires
            old(self)@.contains_key(name@),
            unique_keys(methods.entries@),
        ensures
            final(self)@ == old(self)@.insert(
                name@,
                IdxClassV {
                    methods: old(self)@[name@].methods.union_prefer_right(sigs_map(methods)),
                    ..old(self)@[name@]
                },
            ),
    {
        let ghost st = self@;
        let ghost a = *self;
        let ghost ms = methods;
        let class = self.classes.get_mut(name).unwrap();
        let ghost old_class = *class;
        class.method_sigs.extend(methods);
        proof {
            lemma_sigs_map_extend(old_class.method_sigs, class.method_sigs, ms);
        }
        let ghost nc = *class;
        proof { lemma_view_update(a, *self, name@, nc); }
        assert(nc@ == IdxClassV { methods: st[name@].methods.union_prefer_right(sigs_map(ms)), ..st[name@] });
        assert(self@ =~= st.insert(
            name@,
            IdxClassV { methods: st[name@].methods.union_prefer_right(sigs_map(ms)), ..st[name@] },
        ));
    }

    /// Add `new_sig` as `new` to the methods of the class `name`, unless it has `new`
    fn add_new_if_absent(&mut self, name: &str, new_sig: MethodSignature)
        requires
            old(self)@.contains_key(name@),
            new_sig.fullname.first_name@ == new_word(),
        ensures
            final(self)@ == (if old(self)@[name@].methods.contains_key(new_word()) {
                old(self)@
            } else {
                old(self)@.insert(
                    name@,
                    IdxClassV { methods: old(self)@[name@].methods.insert(new_word(), new_sig@), ..old(self)@[name@] },
                )
            }),
    {
        let ghost st = self@;
        let ghost a = *self;
        proof {
            reveal_strlit("new");
            assert("new"@ =~= new_word());
        }
        let class = self.classes.get_mut(name).unwrap();
        let ghost old_class = *class;
        assert(st[name@] == old_class@);
        if !class.method_sigs.contains_key("new") {
            let ghost ns = new_sig;
            class.method_sigs.insert(copy_string(&new_sig.fullname.first_name.0), new_sig);
            proof {
                lemma_sigs_map_insert(old_class.method_sigs, class.method_sigs, new_word(), ns);
            }
            let ghost nc = *class;
            proof { lemma_view_update(a, *self, name@, nc); }
            assert(nc@ == IdxClassV { methods: st[name@].methods.insert(new_word(), ns@), ..st[name@] });
            assert(self@ =~= st.insert(
                name@,
                IdxClassV { methods: st[name@].methods.insert(new_word(), ns@), ..st[name@] },
            ));
        } else {
            let ghost nc = *class;
            proof { lemma_view_update(a, *self, name@, nc); }
            assert(self@ =~= st);
        }
    }

    fn index_class(&mut self, name: &ClassFirstname, defs: &Vec<Definition>)
        requires
            index_class_ok(old(self)@, name@, defs@),
        ensures
            final(self)@ == index_class_v(old(self)@, name@, defs@),
    {
        proof {
            reveal_strlit("");
            lemma_strlits();
        }
        let class_fullname = name.add_namespace("");
        let instance_ty = ty::raw(class_fullname.0.as_str());
        let class_ty = instance_ty.meta_ty();
        let metaclass_fullname = class_ty.fullname.copy();
        let none: &[String] = &[];
        assert(crate::strs::strings_view(none@) =~= Seq::<Seq<char>>::empty());
        let init_params = match initializer_params(defs) {
            Some(ps) => convert_params(ps.as_slice(), none, none),
            None => {
                let v: Vec<crate::hir::signature::MethodParam> = Vec::new();
                assert(params_view(v@) =~= Seq::<(Seq<char>, TyV)>::empty());
                v
            },
        };
        let new_sig = signature_of_new(&metaclass_fullname, init_params, &instance_ty);
        assert(new_sig@.params == new_sig_v(name@, defs@).params);
        assert(new_sig@.fullname == new_sig_v(name@, defs@).fullname);
        assert(new_sig@.ret_ty == new_sig_v(name@, defs@).ret_ty);
        assert(new_sig@.typarams == new_sig_v(name@, defs@).typarams);
        assert(new_sig@ == new_sig_v(name@, defs@));
        let (instance_methods, mut class_methods) = collect_methods(&class_fullname, &metaclass_fullname, none, defs);
        let ghost st = self@;
        let ghost c = name@;
        let ghost m = meta_of(name@);
        let ghost inst = instance_methods;
        let ghost cls = class_methods;
        if self.classes.contains_key(class_fullname.0.as_str()) {
            // Merge methods to existing class (Class is reopened)
            self.extend_methods(class_fullname.0.as_str(), instance_methods);
            self.extend_methods(metaclass_fullname.0.as_str(), class_methods);
            // Add `.new` to the metaclass
            self.add_new_if_absent(metaclass_fullname.0.as_str(), new_sig);
            assert(self@ =~= index_class_v(st, c, defs@));
        } else {
            // Add `.new` to the metaclass
            let ghost before = class_methods;
            let ghost ns = new_sig;
            class_methods.insert(copy_string(&new_sig.fullname.first_name.0), new_sig);
            proof {
                reveal_strlit("new");
                assert(ns.fullname.first_name@ == new_word());
                lemma_sigs_map_insert(before, class_methods, new_word(), ns);
            }
            let superclass_fullname = if str_eq(name.0.as_str(), "Object") {
                None
            } else {
                Some(crate::names::class_fullname("Object"))
            };
            let ivars: StrMap<SkIVar> = StrMap::new();
            let meta_ivars: StrMap<SkIVar> = StrMap::new();
            let class = IdxClass {
                fullname: class_fullname,
                superclass_fullname,
                instance_ty,
                ivars,
                method_sigs: instance_methods,
            };
            assert(class@.ivars =~= Map::<Seq<char>, (usize, Seq<char>, TyV, bool)>::empty());
            self.add_class(class);
            let metaclass = IdxClass {
                fullname: metaclass_fullname,
                superclass_fullname: Some(crate::names::class_fullname("Object")),
                instance_ty: class_ty,
                ivars: meta_ivars,
                method_sigs: class_methods,
            };
            assert(metaclass@.ivars =~= Map::<Seq<char>, (usize, Seq<char>, TyV, bool)>::empty());
            self.add_class(metaclass);
            assert(self@ =~= index_class_v(st, c, defs@));
        }
    }

    /// Register the classes of the core library
    pub fn index_corelib(&mut self, corelib: SkClasses)
        ensures
            forall|k: Seq<char>|
                #[trigger] final(self)@.contains_key(k) == (old(self)@.contains_key(k)
                    || crate::hir::class_dict::indexing::last_named(corelib.entries@, k) is Some),
    {
        let ghost orig = corelib.entries@;
        let ghost start = self@;
        let mut es = corelib.entries;
        let ghost mut i: int = 0;
        assert(orig.skip(0) =~= orig);
        while es.len() > 0
            invariant
                0 <= i <= orig.len(),
                es@ == orig.skip(i),
                forall|k: Seq<char>|
                    #[trigger] self@.contains_key(k) == (start.contains_key(k)
                        || crate::hir::class_dict::indexing::last_named(orig.take(i), k) is Some),
            decreases es.len(),
        {
            assert(es@.len() == orig.len() - i);
            let (_, c) = es.remove(0);
            proof {
                assert(orig.skip(i)[0] == orig[i]);
                assert(orig.skip(i).drop_first() =~= orig.skip(i + 1));
                assert(orig.take(i + 1).drop_last() =~= orig.take(i));
                assert(orig.take(i + 1).last() == orig[i]);
            }
            let superclass_fullname = match &c.superclass {
                Some(s) => Some(s.ty().erasure()),
                None => None,
            };
            self.add_class(
                IdxClass {
                    fullname: c.fullname,
                    superclass_fullname,
                    instance_ty: c.instance_ty,
                    ivars: c.ivars,
                    method_sigs: c.method_sigs,
                },
            );
            proof { i = i + 1; }
        }
        assert(orig.take(orig.len() as int) =~= orig);
    }
}

} // verus!
