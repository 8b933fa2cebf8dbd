//! The dictionary of the classes known while making HIR.
pub mod class_index;
pub mod indexing;
pub mod query;
pub mod views;

use vstd::prelude::*;
use crate::ast;
use crate::error::Error;
use crate::hir::class_dict::indexing::{derefs, index_error_of, program_defs, v_index_program, v_index_program_ok};
use crate::hir::class_dict::views::classes_view;
use crate::hir::SkIVar;
use crate::hir::signature::{MethodSignature, SigV, spec_specialize};
use crate::hir::sk_class::{SkClass, SkClasses, SkIVars};
use crate::names::{ClassFullname, meta_prefix, object_word, seq_starts_with};
use crate::str_map::{StrMap, lookup, lookup_last};
use crate::strs::copy_string;
use crate::hir::superclass::Superclass;
use crate::ty::{TermTy, TyBodyV, TyV, never_word, spec_erasure, spec_raw, spec_substitute, spec_tyargs, views_of};

verus! {

/// The indexed classes, and the imported ones
pub struct ClassDict<'hir_maker> {
    /// Indexed classes.
    /// Note that .ivars are empty at first (because their types cannot be decided
    /// while indexing)
    pub sk_classes: SkClasses,
    /// Imported classes
    pub imported_classes: &'hir_maker SkClasses,
}

/// Create the class dictionary of a program: the initial classes (those of the core library),
/// with the classes that the toplevel definitions of `ast` define
pub fn create<'hir_maker>(
    ast: &ast::Program,
    initial_sk_classes: SkClasses,
    imported_classes: &'hir_maker SkClasses,
) -> (r: Result<ClassDict<'hir_maker>, Error>)
    requires
        v_index_program_ok(
            classes_view(initial_sk_classes),
            classes_view(*imported_classes),
            program_defs(ast.toplevel_items@),
        ),
    ensures
        match v_index_program(
            classes_view(initial_sk_classes),
            classes_view(*imported_classes),
            program_defs(ast.toplevel_items@),
        ) {
            (st, Some(err)) => r matches Err(e) && index_error_of(e, err),
            (st, None) => r matches Ok(d) && d.own_v() == st && d.imported_classes == imported_classes,
        },
        initial_sk_classes.wf() ==> (r matches Ok(d) ==> d.sk_classes.wf()),
{
    let mut dict = ClassDict { sk_classes: initial_sk_classes, imported_classes };
    let mut defs: Vec<&ast::Definition> = Vec::new();
    let ghost items = ast.toplevel_items@;
    let mut i: usize = 0;
    assert(items.take(0) =~= Seq::<ast::TopLevelItem>::empty());
    assert(derefs(defs@) =~= Seq::<ast::Definition>::empty());
    while i < ast.toplevel_items.len()
        invariant
            items == ast.toplevel_items@,
            0 <= i <= items.len(),
            derefs(defs@) == program_defs(items.take(i as int)),
        decreases ast.toplevel_items.len() - i,
    {
        assert(items.take(i + 1).drop_last() =~= items.take(i as int));
        assert(items.take(i + 1).last() == items[i as int]);
        match &ast.toplevel_items[i] {
            ast::TopLevelItem::Def(x) => {
                let ghost before = defs@;
                defs.push(x);
                assert(derefs(defs@) =~= derefs(before).push(*x));
            },
            ast::TopLevelItem::Expr(_) => {},
        }
        i += 1;
    }
    assert(items.take(items.len() as int) =~= items);
    match dict.index_program(defs.as_slice()) {
        Ok(()) => Ok(dict),
        Err(e) => Err(e),
    }
}

/// The first of `ts` that is of the same class as `t`, if any
pub open spec fn first_same_base(ts: Seq<TyV>, t: TyV) -> Option<TyV>
    decreases ts.len(),
{
    if ts.len() == 0 {
        None
    } else if spec_erasure(ts[0]) == spec_erasure(t) {
        Some(ts[0])
    } else {
        first_same_base(ts.drop_first(), t)
    }
}

/// The first of `ts` whose full name is `name`, if any
pub open spec fn first_named(ts: Seq<TyV>, name: Seq<char>) -> Option<TyV>
    decreases ts.len(),
{
    if ts.len() == 0 {
        None
    } else if ts[0].fullname == name {
        Some(ts[0])
    } else {
        first_named(ts.drop_first(), name)
    }
}

/// The first of `a1` named as some member of `a2`, trying the members of `a2` in order
pub open spec fn common_ancestor(a1: Seq<TyV>, a2: Seq<TyV>) -> Option<TyV>
    decreases a2.len(),
{
    if a2.len() == 0 {
        None
    } else {
        match first_named(a1, a2[0].fullname) {
            Some(t) => Some(t),
            None => common_ancestor(a1, a2.drop_first()),
        }
    }
}

/// `first_named` gives the first member of `ts` of the name, and nothing where no member has it
pub proof fn lemma_first_named(ts: Seq<TyV>, name: Seq<char>)
    ensures
        match first_named(ts, name) {
            Some(t) => exists|i: int|
                0 <= i < ts.len() && ts[i] == t && t.fullname == name && forall|k: int|
                    0 <= k < i ==> (#[trigger] ts[k]).fullname != name,
            None => forall|k: int| 0 <= k < ts.len() ==> (#[trigger] ts[k]).fullname != name,
        },
    decreases ts.len(),
{
    if ts.len() > 0 && ts[0].fullname != name {
        let tail = ts.drop_first();
        lemma_first_named(tail, name);
        match first_named(tail, name) {
            Some(t) => {
                let i = choose|i: int|
                    0 <= i < tail.len() && tail[i] == t && t.fullname == name && forall|k: int|
                        0 <= k < i ==> (#[trigger] tail[k]).fullname != name;
                assert forall|k: int| 0 <= k < i + 1 implies (#[trigger] ts[k]).fullname != name by {
                    if k > 0 {
                        assert(ts[k] == tail[k - 1]);
                    }
                }
                assert(ts[i + 1] == t);
            },
            None => {
                assert forall|k: int| 0 <= k < ts.len() implies (#[trigger] ts[k]).fullname != name by {
                    if k > 0 {
                        assert(ts[k] == tail[k - 1]);
                    }
                }
            },
        }
    }
}

/// The common ancestor of `a1` and `a2` is a member of `a1` named as a member of `a2`, and no
/// earlier member of `a2` is named as any member of `a1`
pub proof fn lemma_common_ancestor(a1: Seq<TyV>, a2: Seq<TyV>)
    requires
        common_ancestor(a1, a2) is Some,
    ensures
        a1.contains(common_ancestor(a1, a2)->0),
        exists|j: int|
            0 <= j < a2.len() && a2[j].fullname == (common_ancestor(a1, a2)->0).fullname && forall|k: int, i: int|
                0 <= k < j && 0 <= i < a1.len() ==> (#[trigger] a1[i]).fullname != (#[trigger] a2[k]).fullname,
    decreases a2.len(),
{
    let r = common_ancestor(a1, a2)->0;
    lemma_first_named(a1, a2[0].fullname);
    match first_named(a1, a2[0].fullname) {
        Some(t) => {
            assert(a2[0].fullname == r.fullname);
        },
        None => {
            let tail = a2.drop_first();
            lemma_common_ancestor(a1, tail);
            let j = choose|j: int|
                0 <= j < tail.len() && tail[j].fullname == r.fullname && forall|k: int, i: int|
                    0 <= k < j && 0 <= i < a1.len() ==> (#[trigger] a1[i]).fullname != (#[trigger] tail[k]).fullname;
            assert forall|k: int, i: int| 0 <= k < j + 1 && 0 <= i < a1.len() implies
                (#[trigger] a1[i]).fullname != (#[trigger] a2[k]).fullname by {
                if k > 0 {
                    assert(a2[k] == tail[k - 1]);
                }
            }
            assert(a2[j + 1] == tail[j]);
        },
    }
}

/// Where some member of `a1` is named as some member of `a2`, they have a common ancestor
pub proof fn lemma_common_ancestor_some(a1: Seq<TyV>, a2: Seq<TyV>, i: int, j: int)
    requires
        0 <= i < a1.len(),
        0 <= j < a2.len(),
        a1[i].fullname == a2[j].fullname,
    ensures
        common_ancestor(a1, a2) is Some,
    decreases a2.len(),
{
    lemma_first_named(a1, a2[0].fullname);
    if first_named(a1, a2[0].fullname) is None {
        if j == 0 {
            assert(a1[i].fullname != a2[0].fullname);
        } else {
            let tail = a2.drop_first();
            assert(tail[j - 1] == a2[j]);
            lemma_common_ancestor_some(a1, tail, i, j - 1);
        }
    }
}

/// `first_same_base` gives a member of `ts` of the class of `t`
pub proof fn lemma_first_same_base(ts: Seq<TyV>, t: TyV)
    ensures
        first_same_base(ts, t) matches Some(a) ==> exists|i: int|
            0 <= i < ts.len() && ts[i] == a && spec_erasure(a) == spec_erasure(t),
        ts.len() > 0 && spec_erasure(ts[0]) == spec_erasure(t) ==> first_same_base(ts, t) == Some(ts[0]),
    decreases ts.len(),
{
    if ts.len() > 0 && spec_erasure(ts[0]) != spec_erasure(t) {
        let tail = ts.drop_first();
        lemma_first_same_base(tail, t);
        if first_same_base(tail, t) is Some {
            let a = first_same_base(tail, t).unwrap();
            let i = choose|i: int| 0 <= i < tail.len() && tail[i] == a && spec_erasure(a) == spec_erasure(t);
            assert(ts[i + 1] == a);
        }
    }
}

/// Whether every type of `ts` is `Never`
pub open spec fn all_never(ts: Seq<TyV>) -> bool {
    forall|i: int| 0 <= i < ts.len() ==> #[trigger] ts[i].fullname == never_word()
}

/// The name of a type parameter reference
pub open spec fn param_name(t: TyV) -> Seq<char> {
    match t.body {
        TyBodyV::Param { name, .. } => name,
        _ => Seq::empty(),
    }
}

impl<'hir_maker> ClassDict<'hir_maker> {
    /// The class named `name`: an indexed one, or else an imported one
    pub open spec fn class_of(&self, name: Seq<char>) -> Option<SkClass> {
        match self.sk_classes.spec_get(name) {
            Some(c) => Some(c),
            None => self.imported_classes.spec_get(name),
        }
    }

    /// Whether a class of the name is known
    pub open spec fn has_class(&self, name: Seq<char>) -> bool {
        self.class_of(name) is Some
    }

    /// The method `method_name` of the class `class_name` itself (not inherited)
    pub open spec fn spec_find_method(&self, class_name: Seq<char>, method_name: Seq<char>) -> Option<
        MethodSignature,
    > {
        match self.class_of(class_name) {
            Some(c) => c.method_sigs.spec_get(method_name),
            None => None,
        }
    }

    /// The type of the superclass of the class of `t`, with the type arguments of `t` put in
    pub open spec fn spec_supertype(&self, t: TyV) -> Option<TyV> {
        match self.class_of(spec_erasure(t)) {
            Some(c) => match c.superclass {
                Some(s) => Some(spec_substitute(s@, spec_tyargs(t), Seq::empty())),
                None => None,
            },
            None => None,
        }
    }

    /// The chain of supertypes from `t` has at most `n` links and each class on it is known
    pub open spec fn chain_ok(&self, t: TyV, n: nat) -> bool
        decreases n,
    {
        &&& self.has_class(spec_erasure(t))
        &&& match self.spec_supertype(t) {
            Some(u) => n > 0 && self.chain_ok(u, (n - 1) as nat),
            None => true,
        }
    }

    /// The chain of supertypes from `t` ends, and each class on it is known
    pub open spec fn has_ancestry(&self, t: TyV) -> bool {
        exists|n: nat| self.chain_ok(t, n)
    }

    /// A bound of the length of the chain of supertypes from `t`
    pub open spec fn ancestry_len(&self, t: TyV) -> nat {
        choose|n: nat| self.chain_ok(t, n)
    }

    /// `t` and its supertypes, following at most `n` links
    pub open spec fn ancestors_n(&self, t: TyV, n: nat) -> Seq<TyV>
        decreases n,
    {
        seq![t] + match self.spec_supertype(t) {
            Some(u) => if n > 0 {
                self.ancestors_n(u, (n - 1) as nat)
            } else {
                Seq::empty()
            },
            None => Seq::empty(),
        }
    }

    /// `t` and all its supertypes, nearest first
    pub open spec fn ancestors(&self, t: TyV) -> Seq<TyV> {
        self.ancestors_n(t, self.ancestry_len(t))
    }

    /// Whether `t1` conforms to `t2`: `Never` conforms to all, a type to the types of the same
    /// name, a type parameter to those of the same name and to `Object`; otherwise the nearest
    /// ancestor of `t1` of the class of `t2` must be `t2`, or have only `Never` as type
    /// arguments, or `t2` must be a function type returning `Void`
    pub open spec fn spec_conforms(&self, t1: TyV, t2: TyV) -> bool {
        if t1.fullname == never_word() {
            true
        } else if t1.fullname == t2.fullname {
            true
        } else if t1.body is Param {
            if t2.body is Param {
                param_name(t1) == param_name(t2)
            } else {
                t2 == spec_raw(object_word())
            }
        } else if t2.body is Param {
            false
        } else {
            match first_same_base(self.ancestors(t1), t2) {
                Some(a) => a.fullname == t2.fullname || all_never(spec_tyargs(a)) || is_void_fn(t2),
                None => false,
            }
        }
    }

    /// What `conforms` needs: the ancestry of `t1` where it is consulted
    pub open spec fn conforms_needs(&self, t1: TyV, t2: TyV) -> bool {
        (t1.fullname != never_word() && t1.fullname != t2.fullname && !(t1.body is Param) && !(
        t2.body is Param)) ==> self.has_ancestry(t1)
    }

    /// Where the methods for a receiver of type `t` are found, and the type arguments given
    /// to that class: the generic class of a specialized type, `Object` for a type parameter
    pub open spec fn method_holder(&self, t: TyV) -> (TyV, Seq<TyV>) {
        match t.body {
            TyBodyV::Spe { .. } => (self.class_of(spec_erasure(t)).unwrap().instance_ty@, spec_tyargs(t)),
            TyBodyV::SpeMeta { .. } => (
                self.class_of(spec_erasure(t)).unwrap().instance_ty@,
                spec_tyargs(t),
            ),
            TyBodyV::Param { .. } => (spec_raw(object_word()), Seq::empty()),
            _ => (t, Seq::empty()),
        }
    }

    /// The search of `method_name` from `t` upwards ends within `n` superclasses, and
    /// each class it visits is known
    pub open spec fn lookup_ok(&self, t: TyV, method_name: Seq<char>, n: nat) -> bool
        decreases n,
    {
        let c = self.method_holder(t).0;
        &&& ((t.body is Spe || t.body is SpeMeta) ==> self.has_class(spec_erasure(t)))
        &&& (self.spec_find_method(c.fullname, method_name) is None ==> {
            &&& self.has_class(spec_erasure(c))
            &&& match self.class_of(spec_erasure(c)).unwrap().superclass {
                Some(s) => n > 0 && self.lookup_ok(s@, method_name, (n - 1) as nat),
                None => true,
            }
        })
    }

    /// The search of `method_name` from `t` upwards ends, and each class it visits is known
    pub open spec fn can_lookup(&self, t: TyV, method_name: Seq<char>) -> bool {
        exists|n: nat| self.lookup_ok(t, method_name, n)
    }

    /// The method found from `t` upwards within `n` superclasses, specialized, and the name of
    /// the class that defines it
    pub open spec fn lookup_n(&self, t: TyV, method_name: Seq<char>, method_tyargs: Seq<TyV>, n: nat) -> Option<
        (SigV, Seq<char>),
    >
        decreases n,
    {
        let (c, class_tyargs) = self.method_holder(t);
        match self.spec_find_method(c.fullname, method_name) {
            Some(sig) => Some((spec_specialize(sig@, class_tyargs, method_tyargs), c.fullname)),
            None => match self.class_of(spec_erasure(c)) {
                Some(k) => match k.superclass {
                    Some(s) => if n > 0 {
                        self.lookup_n(s@, method_name, method_tyargs, (n - 1) as nat)
                    } else {
                        None
                    },
                    None => None,
                },
                None => None,
            },
        }
    }

    /// The method `method_name` for a receiver of type `t`: the nearest definition from the
    /// class of `t` upwards, specialized, and the name of the class that defines it
    pub open spec fn spec_lookup_method(&self, t: TyV, method_name: Seq<char>, method_tyargs: Seq<TyV>) -> Option<
        (SigV, Seq<char>),
    > {
        self.lookup_n(t, method_name, method_tyargs, choose|n: nat| self.lookup_ok(t, method_name, n))
    }
}

/// An instance variable as seen from a subclass that gives the type arguments `tyargs`
pub open spec fn subst_ivar(v: SkIVar, tyargs: Seq<TyV>) -> (usize, Seq<char>, TyV, bool) {
    (v.idx, v.name@, spec_substitute(v.ty@, tyargs, Seq::empty()), v.readonly)
}

/// The entries of a map of instance variables as seen from a subclass that gives `tyargs`
pub open spec fn subst_ivars_view(m: SkIVars, tyargs: Seq<TyV>) -> Seq<(Seq<char>, (usize, Seq<char>, TyV, bool))> {
    Seq::new(m.entries@.len(), |i: int| (m.entries@[i].0@, subst_ivar(m.entries@[i].1, tyargs)))
}

/// The instance variable `k` of `m`, viewed
pub open spec fn ivar_at(m: SkIVars, k: Seq<char>) -> Option<(usize, Seq<char>, TyV, bool)> {
    match m.spec_get(k) {
        Some(v) => Some(v@),
        None => None,
    }
}

/// The instance variable `k` of `m` as seen from a subclass that gives `tyargs`
pub open spec fn subst_ivar_at(m: SkIVars, tyargs: Seq<TyV>, k: Seq<char>) -> Option<(usize, Seq<char>, TyV, bool)> {
    match m.spec_get(k) {
        Some(v) => Some(subst_ivar(v, tyargs)),
        None => None,
    }
}

/// Looking up in entries made by substituting each instance variable.
pub proof fn lemma_lookup_subst(e1: Seq<(String, SkIVar)>, e2: Seq<(String, SkIVar)>, tyargs: Seq<TyV>, k: Seq<char>)
    requires
        e1.len() == e2.len(),
        forall|i: int| 0 <= i < e1.len() ==> #[trigger] e2[i].0@ == e1[i].0@ && e2[i].1@ == subst_ivar(e1[i].1, tyargs),
    ensures
        match lookup(e1, k) {
            Some(v) => lookup(e2, k) matches Some(w) && w@ == subst_ivar(v, tyargs),
            None => lookup(e2, k) is None,
        },
    decreases e1.len(),
{
    if e1.len() > 0 {
        assert(e2[0].0@ == e1[0].0@);
        lemma_lookup_subst(e1.drop_first(), e2.drop_first(), tyargs, k);
    }
}

/// The classes to be constants: the name and whether the constant is an instance, for each
/// entry that is not a metaclass, in order
pub open spec fn constants(e: Seq<(String, SkClass)>) -> Seq<(Seq<char>, bool)>
    decreases e.len(),
{
    if e.len() == 0 {
        Seq::empty()
    } else if seq_starts_with(e.last().0@, meta_prefix()) {
        constants(e.drop_last())
    } else {
        constants(e.drop_last()).push((e.last().0@, e.last().1.const_is_obj))
    }
}

/// With no key twice, the constants name no class twice, and each is named by a key
pub proof fn lemma_constants_distinct(e: Seq<(String, SkClass)>)
    requires
        crate::str_map::unique_keys(e),
    ensures
        forall|i: int, j: int|
            0 <= i < j < constants(e).len() ==> (#[trigger] constants(e)[i]).0 != (#[trigger] constants(e)[j]).0,
        forall|i: int|
            0 <= i < constants(e).len() ==> exists|k: int| 0 <= k < e.len() && #[trigger] constants(e)[i].0 == e[k].0@,
    decreases e.len(),
{
    if e.len() > 0 {
        let d = e.drop_last();
        assert(crate::str_map::unique_keys(d)) by {
            assert forall|i: int, j: int| 0 <= i < j < d.len() implies (#[trigger] d[i]).0@ != (#[trigger] d[j]).0@ by {
                assert(d[i] == e[i] && d[j] == e[j]);
            }
        }
        lemma_constants_distinct(d);
        let c = constants(d);
        assert forall|i: int| 0 <= i < c.len() implies (#[trigger] c[i]).0 != e.last().0@ by {
            let k = choose|k: int| 0 <= k < d.len() && #[trigger] c[i].0 == d[k].0@;
            assert(e[k] == d[k]);
            assert(e[k].0@ != e[e.len() - 1].0@);
        }
        assert forall|i: int| 0 <= i < constants(e).len() implies exists|k: int|
            0 <= k < e.len() && #[trigger] constants(e)[i].0 == e[k].0@ by {
            if i < c.len() {
                let k = choose|k: int| 0 <= k < d.len() && #[trigger] c[i].0 == d[k].0@;
                assert(e[k] == d[k]);
                assert(constants(e)[i] == c[i]);
            } else {
                assert(constants(e)[i].0 == e[e.len() - 1].0@);
            }
        }
    }
}

/// `b` is `a` with the instance variables replaced
pub open spec fn with_ivars(a: SkClass, b: SkClass) -> bool {
    &&& b.fullname == a.fullname
    &&& b.typarams == a.typarams
    &&& b.superclass == a.superclass
    &&& b.instance_ty == a.instance_ty
    &&& b.method_sigs == a.method_sigs
    &&& b.is_final == a.is_final
    &&& b.const_is_obj == a.const_is_obj
    &&& b.foreign == a.foreign
}

impl<'hir_maker> ClassDict<'hir_maker> {
    /// The class `name` is known, and so is its superclass, if it has one
    pub open spec fn super_known(&self, name: Seq<char>) -> bool {
        &&& self.has_class(name)
        &&& match self.class_of(name).unwrap().superclass {
            Some(s) => self.has_class(spec_erasure(s@)),
            None => true,
        }
    }

    /// The instance variable `k` inherited by the class `name`
    pub open spec fn inherited_ivar(&self, name: Seq<char>, k: Seq<char>) -> Option<(usize, Seq<char>, TyV, bool)> {
        match self.class_of(name).unwrap().superclass {
            Some(s) => subst_ivar_at(self.class_of(spec_erasure(s@)).unwrap().ivars, spec_tyargs(s@), k),
            None => None,
        }
    }

    /// Returns information for creating class constants
    pub fn constant_list(&self) -> (r: Vec<(String, bool)>)
        ensures
            r@.len() == constants(self.sk_classes.entries@).len(),
            forall|i: int|
                0 <= i < r@.len() ==> (#[trigger] r@[i]).0@ == constants(self.sk_classes.entries@)[i].0
                    && r@[i].1 == constants(self.sk_classes.entries@)[i].1,
            self.sk_classes.wf() ==> forall|i: int, j: int|
                0 <= i < j < r@.len() ==> (#[trigger] r@[i]).0@ != (#[trigger] r@[j]).0@,
    {
        proof {
            if self.sk_classes.wf() {
                lemma_constants_distinct(self.sk_classes.entries@);
            }
        }
        let ghost e = self.sk_classes.entries@;
        let mut r: Vec<(String, bool)> = Vec::new();
        let mut i: usize = 0;
        while i < self.sk_classes.entries.len()
            invariant
                e == self.sk_classes.entries@,
                0 <= i <= e.len(),
                r@.len() == constants(e.take(i as int)).len(),
                forall|j: int|
                    0 <= j < r@.len() ==> (#[trigger] r@[j]).0@ == constants(e.take(i as int))[j].0
                        && r@[j].1 == constants(e.take(i as int))[j].1,
            decreases e.len() - i,
        {
            proof {
                assert(e.take(i + 1).drop_last() =~= e.take(i as int));
                assert(e.take(i + 1).last() == e[i as int]);
            }
            let name = &self.sk_classes.entries[i].0;
            let class = &self.sk_classes.entries[i].1;
            let cf = ClassFullname(copy_string(name));
            if !cf.is_meta() {
                r.push((cf.0, class.const_is_obj));
            }
            i += 1;
        }
        assert(e.take(e.len() as int) =~= e);
        r
    }

    /// Define ivars of a class: those of its superclass, then its own ones
    pub fn define_ivars(&mut self, classname: &ClassFullname, own_ivars: SkIVars) -> (r: Result<(), Error>)
        requires
            old(self).sk_classes.spec_contains(classname@),
            old(self).super_known(classname@),
        ensures
            r is Ok,
            final(self).imported_classes == old(self).imported_classes,
            old(self).sk_classes.wf() ==> final(self).sk_classes.wf(),
            final(self).sk_classes.spec_get(classname@) matches Some(c) && with_ivars(
                old(self).sk_classes.spec_get(classname@).unwrap(),
                c,
            ) && forall|k: Seq<char>|
                #[trigger] ivar_at(c.ivars, k) == match lookup_last(own_ivars.entries@, k) {
                    Some(v) => Some(v@),
                    None => old(self).inherited_ivar(classname@, k),
                },
            forall|k: Seq<char>|
                k != classname@ ==> #[trigger] final(self).sk_classes.spec_get(k) == old(
                    self,
                ).sk_classes.spec_get(k),
    {
        let ghost d = *self;
        let ghost own = own_ivars;
        let ivars = match self.superclass_ivars(classname) {
            Some(iv) => iv,
            None => StrMap::new(),
        };
        let ghost base = ivars;
        let class = self.get_class_mut(classname);
        class.ivars = ivars;
        class.ivars.extend(own_ivars);
        proof {
            assert forall|k: Seq<char>|
                #[trigger] ivar_at(class.ivars, k) == match lookup_last(own.entries@, k) {
                    Some(v) => Some(v@),
                    None => d.inherited_ivar(classname@, k),
                } by {
                assert(ivar_at(base, k) == d.inherited_ivar(classname@, k));
            }
        }
        Ok(())
    }
}

impl<'hir_maker> ClassDict<'hir_maker> {
    /// A longer bound of a chain of supertypes gives the same ancestors.
    pub proof fn lemma_chain_mono(&self, t: TyV, n: nat, m: nat)
        requires
            self.chain_ok(t, n),
            n <= m,
        ensures
            self.chain_ok(t, m),
            self.ancestors_n(t, n) == self.ancestors_n(t, m),
        decreases n,
    {
        match self.spec_supertype(t) {
            Some(u) => {
                self.lemma_chain_mono(u, (n - 1) as nat, (m - 1) as nat);
            },
            None => {},
        }
    }

    /// Any bound of the chain of supertypes gives the same ancestors.
    pub proof fn lemma_chain_unique(&self, t: TyV, n: nat, m: nat)
        requires
            self.chain_ok(t, n),
            self.chain_ok(t, m),
        ensures
            self.ancestors_n(t, n) == self.ancestors_n(t, m),
    {
        if n <= m {
            self.lemma_chain_mono(t, n, m);
        } else {
            self.lemma_chain_mono(t, m, n);
        }
    }

    /// The ancestors of the `j`-th ancestor of `t` are those of `t` from the `j`-th on.
    pub proof fn lemma_ancestors_skip(&self, t: TyV, n: nat, j: int) -> (k: nat)
        requires
            self.chain_ok(t, n),
            0 <= j < self.ancestors_n(t, n).len(),
        ensures
            self.chain_ok(self.ancestors_n(t, n)[j], k),
            self.ancestors_n(self.ancestors_n(t, n)[j], k) == self.ancestors_n(t, n).skip(j),
        decreases j,
    {
        let a = self.ancestors_n(t, n);
        if j == 0 {
            assert(a.skip(0) =~= a);
            n
        } else {
            let u = self.spec_supertype(t).unwrap();
            let rest = self.ancestors_n(u, (n - 1) as nat);
            assert(a == seq![t] + rest);
            assert(a[j] == rest[j - 1]);
            let k = self.lemma_ancestors_skip(u, (n - 1) as nat, j - 1);
            assert(a.skip(j) =~= rest.skip(j - 1));
            k
        }
    }

    /// The ancestors of `t` begin with `t` itself.
    pub proof fn law_ancestors_include_self(&self, t: TyV)
        requires
            self.has_ancestry(t),
        ensures
            self.ancestors(t).len() > 0,
            self.ancestors(t)[0] == t,
    {
    }

    /// Being an ancestor is transitive: an ancestor of an ancestor of `t` is an ancestor of `t`.
    pub proof fn law_ancestors_transitive(&self, t: TyV, u: TyV, w: TyV)
        requires
            self.has_ancestry(t),
            self.ancestors(t).contains(u),
            self.ancestors(u).contains(w),
        ensures
            self.has_ancestry(u),
            self.ancestors(t).contains(w),
    {
        let n = self.ancestry_len(t);
        let a = self.ancestors(t);
        let j = choose|j: int| 0 <= j < a.len() && a[j] == u;
        let k = self.lemma_ancestors_skip(t, n, j);
        assert(self.chain_ok(u, k));
        self.lemma_chain_unique(u, k, self.ancestry_len(u));
        let b = self.ancestors(u);
        assert(b == a.skip(j));
        let i = choose|i: int| 0 <= i < b.len() && b[i] == w;
        assert(a[j + i] == w);
    }

    /// The nearest common ancestor of `t1` and `t2` lies in both ancestor chains: it is an
    /// ancestor of `t1` named as an ancestor of `t2`, and no nearer ancestor of `t2` is named as
    /// any ancestor of `t1`.
    pub proof fn law_common_ancestor_in_both(&self, t1: TyV, t2: TyV)
        requires
            common_ancestor(self.ancestors(t1), self.ancestors(t2)) is Some,
        ensures
            ({
                let a1 = self.ancestors(t1);
                let a2 = self.ancestors(t2);
                let r = common_ancestor(a1, a2)->0;
                &&& a1.contains(r)
                &&& exists|j: int|
                    0 <= j < a2.len() && a2[j].fullname == r.fullname && forall|k: int, i: int|
                        0 <= k < j && 0 <= i < a1.len() ==> (#[trigger] a1[i]).fullname != (#[trigger] a2[k]).fullname
            }),
    {
        lemma_common_ancestor(self.ancestors(t1), self.ancestors(t2));
    }

    /// The nearest common ancestor of a type and itself is that type.
    pub proof fn law_common_ancestor_self(&self, t: TyV)
        requires
            self.has_ancestry(t),
        ensures
            common_ancestor(self.ancestors(t), self.ancestors(t)) == Some(t),
    {
        let a = self.ancestors(t);
        assert(a[0] == t);
        assert(first_named(a, t.fullname) == Some(t));
    }

    /// A member of the ancestors of `t` has as ancestors the rest of them from there on.
    pub proof fn lemma_ancestors_of_member(&self, t: TyV, j: int)
        requires
            self.has_ancestry(t),
            0 <= j < self.ancestors(t).len(),
        ensures
            self.has_ancestry(self.ancestors(t)[j]),
            self.ancestors(self.ancestors(t)[j]) == self.ancestors(t).skip(j),
    {
        let n = self.ancestry_len(t);
        let u = self.ancestors(t)[j];
        let k = self.lemma_ancestors_skip(t, n, j);
        assert(self.chain_ok(u, k));
        self.lemma_chain_unique(u, k, self.ancestry_len(u));
    }

    /// A type occurs once among the ancestors of `t`.
    pub proof fn lemma_ancestors_distinct(&self, t: TyV, i: int, m: int)
        requires
            self.has_ancestry(t),
            0 <= i < m < self.ancestors(t).len(),
        ensures
            self.ancestors(t)[i] != self.ancestors(t)[m],
    {
        let a = self.ancestors(t);
        self.lemma_ancestors_of_member(t, i);
        self.lemma_ancestors_of_member(t, m);
        if a[i] == a[m] {
            assert(a.skip(i).len() != a.skip(m).len());
        }
    }

    /// The nearest common ancestor is symmetric: that of `t2` and `t1` is that of `t1` and
    /// `t2`, where the ancestors of the two that have the same name are the same type.
    pub proof fn law_common_ancestor_symmetric(&self, t1: TyV, t2: TyV)
        requires
            self.has_ancestry(t1),
            self.has_ancestry(t2),
            common_ancestor(self.ancestors(t1), self.ancestors(t2)) is Some,
            forall|i: int, j: int|
                0 <= i < self.ancestors(t1).len() && 0 <= j < self.ancestors(t2).len() && (#[trigger] self.ancestors(
                    t1,
                )[i]).fullname == (#[trigger] self.ancestors(t2)[j]).fullname ==> self.ancestors(t1)[i]
                    == self.ancestors(t2)[j],
        ensures
            common_ancestor(self.ancestors(t2), self.ancestors(t1)) == common_ancestor(
                self.ancestors(t1),
                self.ancestors(t2),
            ),
    {
        let a1 = self.ancestors(t1);
        let a2 = self.ancestors(t2);
        lemma_common_ancestor(a1, a2);
        let r12 = common_ancestor(a1, a2)->0;
        let j = choose|j: int|
            0 <= j < a2.len() && a2[j].fullname == r12.fullname && forall|k: int, i: int|
                0 <= k < j && 0 <= i < a1.len() ==> (#[trigger] a1[i]).fullname != (#[trigger] a2[k]).fullname;
        let p = choose|p: int| 0 <= p < a1.len() && a1[p] == r12;
        assert(a1[p].fullname == a2[j].fullname);
        assert(a1[p] == a2[j]);
        lemma_common_ancestor_some(a2, a1, j, p);
        lemma_common_ancestor(a2, a1);
        let r21 = common_ancestor(a2, a1)->0;
        let i = choose|i: int|
            0 <= i < a1.len() && a1[i].fullname == r21.fullname && forall|k: int, m: int|
                0 <= k < i && 0 <= m < a2.len() ==> (#[trigger] a2[m]).fullname != (#[trigger] a1[k]).fullname;
        let q = choose|q: int| 0 <= q < a2.len() && a2[q] == r21;
        assert(a1[i].fullname == a2[q].fullname);
        assert(a1[i] == a2[q]);
        // the first members named in the other chain come no later than these
        assert(i <= p) by {
            if p < i {
                assert(a2[j].fullname != a1[p].fullname);
            }
        }
        assert(j <= q) by {
            if q < j {
                assert(a1[i].fullname != a2[q].fullname);
            }
        }
        // from `a1[p] == a2[j]` on, the chains agree
        self.lemma_ancestors_of_member(t1, p);
        self.lemma_ancestors_of_member(t2, j);
        assert(a1.skip(p) == a2.skip(j));
        let m = p + q - j;
        assert(a2.skip(j)[q - j] == a2[q]);
        assert(a1.skip(p)[q - j] == a1[m]);
        assert(a1[i] == a1[m]);
        if i < m {
            self.lemma_ancestors_distinct(t1, i, m);
        }
        assert(i == p && q == j);
    }

    /// A type that is neither `Never` nor a type parameter conforms to a different type `t2`
    /// that is no type parameter and no function type returning `Void` only through an ancestor
    /// of the class of `t2` that is `t2` itself or has only `Never` as type arguments: the
    /// type arguments must match, so `Array<Int>` does not conform to `Array<Bool>`.
    pub proof fn law_conforms_needs_ancestor(&self, t1: TyV, t2: TyV)
        requires
            self.spec_conforms(t1, t2),
            t1.fullname != never_word(),
            t1.fullname != t2.fullname,
            !(t1.body is Param),
            !(t2.body is Param),
            !is_void_fn(t2),
        ensures
            exists|i: int|
                0 <= i < self.ancestors(t1).len() && spec_erasure(#[trigger] self.ancestors(t1)[i]) == spec_erasure(t2)
                    && (self.ancestors(t1)[i].fullname == t2.fullname || all_never(spec_tyargs(self.ancestors(t1)[i]))),
    {
        lemma_first_same_base(self.ancestors(t1), t2);
    }

    /// A type of a class conforms to a different type of the same class only where its type
    /// arguments are all `Never`, or the other type is a function type returning `Void`.
    pub proof fn law_conforms_same_class(&self, t1: TyV, t2: TyV)
        requires
            self.has_ancestry(t1),
            spec_erasure(t1) == spec_erasure(t2),
            t1.fullname != never_word(),
            t1.fullname != t2.fullname,
            !(t1.body is Param),
            !(t2.body is Param),
        ensures
            self.spec_conforms(t1, t2) == (all_never(spec_tyargs(t1)) || is_void_fn(t2)),
    {
        self.law_ancestors_include_self(t1);
        lemma_first_same_base(self.ancestors(t1), t2);
    }

    /// `Never` conforms to every type.
    pub proof fn law_never_conforms(&self, t1: TyV, t2: TyV)
        requires
            t1.fullname == never_word(),
        ensures
            self.spec_conforms(t1, t2),
    {
    }

    /// Every type conforms to itself.
    pub proof fn law_conforms_reflexive(&self, t: TyV)
        ensures
            self.spec_conforms(t, t),
    {
    }

    /// A longer bound of the search of a method gives the same result.
    pub proof fn lemma_lookup_mono(&self, t: TyV, name: Seq<char>, tyargs: Seq<TyV>, n: nat, m: nat)
        requires
            self.lookup_ok(t, name, n),
            n <= m,
        ensures
            self.lookup_ok(t, name, m),
            self.lookup_n(t, name, tyargs, n) == self.lookup_n(t, name, tyargs, m),
        decreases n,
    {
        let c = self.method_holder(t).0;
        if self.spec_find_method(c.fullname, name) is None {
            match self.class_of(spec_erasure(c)).unwrap().superclass {
                Some(s) => {
                    self.lemma_lookup_mono(s@, name, tyargs, (n - 1) as nat, (m - 1) as nat);
                },
                None => {},
            }
        }
    }

    /// A method is searched first in the class of the receiver; one not defined there is the
    /// one found from the superclass on (and there is none if there is no superclass).
    pub proof fn law_lookup_inherits(&self, t: TyV, name: Seq<char>, tyargs: Seq<TyV>)
        requires
            self.can_lookup(t, name),
        ensures
            ({
                let (c, class_tyargs) = self.method_holder(t);
                match self.spec_find_method(c.fullname, name) {
                    Some(sig) => self.spec_lookup_method(t, name, tyargs) == Some(
                        (spec_specialize(sig@, class_tyargs, tyargs), c.fullname),
                    ),
                    None => match self.class_of(spec_erasure(c)).unwrap().superclass {
                        Some(s) => self.can_lookup(s@, name) && self.spec_lookup_method(t, name, tyargs)
                            == self.spec_lookup_method(s@, name, tyargs),
                        None => self.spec_lookup_method(t, name, tyargs) is None,
                    },
                }
            }),
    {
        let n = choose|n: nat| self.lookup_ok(t, name, n);
        let c = self.method_holder(t).0;
        if self.spec_find_method(c.fullname, name) is None {
            match self.class_of(spec_erasure(c)).unwrap().superclass {
                Some(s) => {
                    assert(self.lookup_ok(s@, name, (n - 1) as nat));
                    let m = choose|m: nat| self.lookup_ok(s@, name, m);
                    if m <= (n - 1) as nat {
                        self.lemma_lookup_mono(s@, name, tyargs, m, (n - 1) as nat);
                    } else {
                        self.lemma_lookup_mono(s@, name, tyargs, (n - 1) as nat, m);
                    }
                },
                None => {},
            }
        }
    }
}

/// Whether `t` is a function type that returns `Void`
pub open spec fn is_void_fn(t: TyV) -> bool {
    match crate::ty::spec_fn_x_info(t) {
        Some(r) => r.fullname == crate::ty::void_word(),
        None => false,
    }
}

/// Returns signature of `#initialize` inherited from generic class
/// eg.
///   class Foo<A>
///     def initialize(a: A) ...
///   class Bar<S, T> : Foo<Array<T>>
///     # no explicit initialize
/// Foo will have `#initialize(a: Array<T>)`
pub(crate) fn specialized_initialize(sig: &MethodSignature, superclass: &Superclass) -> (r: MethodSignature)
    ensures
        r@ == spec_specialize(sig@, spec_tyargs(superclass@), Seq::empty()),
{
    let none: &[TermTy] = &[];
    assert(views_of(none@) =~= Seq::<TyV>::empty());
    sig.specialize(superclass.ty().tyargs(), none)
}

} // verus!
