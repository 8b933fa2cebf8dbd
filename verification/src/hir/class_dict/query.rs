//! Queries on the class dictionary.
use vstd::prelude::*;
use crate::error::{Error, ErrorDetails, error_of, program_error};
use crate::hir::class_dict::{
    ClassDict, all_never, common_ancestor, first_named, first_same_base, ivar_at, lemma_lookup_subst,
    subst_ivar, subst_ivar_at, subst_ivars_view,
};
use crate::hir::SkIVar;
use crate::hir::sk_class::{SkIVars, ivars_view};
use crate::str_map::StrMap;
use crate::strs::copy_string;
use crate::hir::signature::MethodSignature;
use crate::hir::sk_class::SkClass;
use crate::names::{ClassFullname, MethodFirstname, class_fullname, lemma_strlits, object_word};
use crate::strs::str_eq;
use crate::ty;
use crate::ty::{
    TermTy, TyBody, TyV, lemma_args_view, lemma_views_push, never_word, spec_erasure, spec_raw,
    spec_tyargs, views_of,
};

verus! {

/// The text of the error for a method `method_name` missing on `class_name`
pub open spec fn method_not_found_text(method_name: Seq<char>, class_name: Seq<char>) -> Seq<char> {
    "method "@ + crate::names::method_firstname_debug_text(method_name) + " not found on "@
        + crate::names::class_fullname_debug_text(class_name)
}

/// The error message for a method `method_name` missing on `class_name`
fn method_not_found_message(method_name: &MethodFirstname, class_name: &ClassFullname) -> (r: String)
    ensures
        r@ == method_not_found_text(method_name@, class_name@),
{
    let s1 = crate::strs::concat("method ", crate::names::method_firstname_debug(method_name).as_str());
    let s2 = crate::strs::concat(s1.as_str(), " not found on ");
    crate::strs::concat(s2.as_str(), crate::names::class_fullname_debug(class_name).as_str())
}

/// `seq![a] + s` contains `x` iff `a` is `x` or `s` contains it.
proof fn lemma_contains_cons(a: TyV, s: Seq<TyV>, x: TyV)
    ensures
        (seq![a] + s).contains(x) == (a == x || s.contains(x)),
{
    let t = seq![a] + s;
    if s.contains(x) {
        let j = choose|j: int| 0 <= j < s.len() && s[j] == x;
        assert(t[j + 1] == x);
    }
    if t.contains(x) {
        let j = choose|j: int| 0 <= j < t.len() && t[j] == x;
        if j > 0 {
            assert(s[j - 1] == x);
        }
    }
    assert(t[0] == a);
}

impl<'hir_maker> ClassDict<'hir_maker> {
    /// Find a method from class name and first name
    pub fn find_method(&self, class_fullname: &ClassFullname, method_name: &MethodFirstname) -> (r: Option<
        &MethodSignature,
    >)
        ensures
            match self.spec_find_method(class_fullname@, method_name@) {
                Some(s) => r == Some(&s),
                None => r is None,
            },
    {
        match self.lookup_class(class_fullname) {
            Some(class) => class.method_sigs.get(method_name.0.as_str()),
            None => None,
        }
    }

    /// Similar to find_method, but lookup into superclass if not in the class.
    /// Returns Err if not found.
    pub fn lookup_method(&self, receiver_class: &TermTy, method_name: &MethodFirstname, method_tyargs: &[TermTy]) -> (r:
        Result<(MethodSignature, ClassFullname), Error>)
        requires
            self.can_lookup(receiver_class@, method_name@),
        ensures
            match self.spec_lookup_method(receiver_class@, method_name@, views_of(method_tyargs@)) {
                Some(found) => r matches Ok(p) && p.0@ == found.0 && p.1@ == found.1,
                None => r matches Err(e) && error_of(
                    e,
                    method_not_found_text(method_name@, receiver_class@.fullname),
                    ErrorDetails::ProgramError,
                ),
            },
    {
        let ghost n = choose|n: nat| self.lookup_ok(receiver_class@, method_name@, n);
        self.lookup_method_(receiver_class, receiver_class, method_name, method_tyargs, Ghost(n))
    }

    fn lookup_method_(
        &self,
        receiver_class: &TermTy,
        class: &TermTy,
        method_name: &MethodFirstname,
        method_tyargs: &[TermTy],
        Ghost(n): Ghost<nat>,
    ) -> (r: Result<(MethodSignature, ClassFullname), Error>)
        requires
            self.lookup_ok(class@, method_name@, n),
        ensures
            match self.lookup_n(class@, method_name@, views_of(method_tyargs@), n) {
                Some(found) => r matches Ok(p) && p.0@ == found.0 && p.1@ == found.1,
                None => r matches Err(e) && error_of(
                    e,
                    method_not_found_text(method_name@, receiver_class@.fullname),
                    ErrorDetails::ProgramError,
                ),
            },
        decreases n,
    {
        proof {
            lemma_strlits();
            lemma_args_view(*class);
        }
        let ty_obj = ty::raw("Object");
        let none: &[TermTy] = &[];
        assert(views_of(none@) =~= Seq::<TyV>::empty());
        let (cls, class_tyargs): (&TermTy, &[TermTy]) = match &class.body {
            TyBody::TySpe { type_args, .. } => {
                let base_cls = &self.get_class(&class.base_class_name()).instance_ty;
                (base_cls, type_args.as_slice())
            },
            TyBody::TySpeMeta { type_args, .. } => {
                let base_cls = &self.get_class(&class.base_class_name()).instance_ty;
                (base_cls, type_args.as_slice())
            },
            TyBody::TyParamRef { .. } => (&ty_obj, none),
            _ => (class, none),
        };
        assert(cls@ == self.method_holder(class@).0);
        assert(views_of(class_tyargs@) == self.method_holder(class@).1);
        if let Some(sig) = self.find_method(&cls.fullname, method_name) {
            Ok((sig.specialize(class_tyargs, method_tyargs), cls.fullname.copy()))
        } else {
            // Look up in superclass
            let sk_class = self.get_class(&cls.erasure());
            match &sk_class.superclass {
                Some(superclass) => self.lookup_method_(
                    receiver_class,
                    superclass.ty(),
                    method_name,
                    method_tyargs,
                    Ghost((n - 1) as nat),
                ),
                None => {
                    let msg = method_not_found_message(method_name, &receiver_class.fullname);
                    Err(program_error(msg.as_str()))
                },
            }
        }
    }

    /// Find an indexed class of the specified name
    pub fn find_class(&self, class_fullname: &ClassFullname) -> (r: Option<&SkClass>)
        ensures
            match self.sk_classes.spec_get(class_fullname@) {
                Some(c) => r == Some(&c),
                None => r is None,
            },
    {
        self.sk_classes.get(class_fullname.0.as_str())
    }

    /// Return the class of the specified name, if any
    pub fn lookup_class(&self, class_fullname: &ClassFullname) -> (r: Option<&SkClass>)
        ensures
            match self.class_of(class_fullname@) {
                Some(c) => r == Some(&c),
                None => r is None,
            },
    {
        match self.sk_classes.get(class_fullname.0.as_str()) {
            Some(c) => Some(c),
            None => self.imported_classes.get(class_fullname.0.as_str()),
        }
    }

    /// Find a class, which must be there
    pub fn get_class(&self, class_fullname: &ClassFullname) -> (r: &SkClass)
        requires
            self.has_class(class_fullname@),
        ensures
            self.class_of(class_fullname@) == Some(*r),
    {
        self.lookup_class(class_fullname).unwrap()
    }

    /// Find an indexed class to change it in place; it must be there
    pub fn get_class_mut(&mut self, class_fullname: &ClassFullname) -> (r: &mut SkClass)
        requires
            old(self).sk_classes.spec_contains(class_fullname@),
        ensures
            old(self).sk_classes.spec_get(class_fullname@) == Some(*r),
            final(self).imported_classes == old(self).imported_classes,
            old(self).sk_classes.wf() ==> final(self).sk_classes.wf(),
            forall|k: Seq<char>|
                #[trigger] final(self).sk_classes.spec_get(k) == (if k == class_fullname@ {
                    Some(*final(r))
                } else {
                    old(self).sk_classes.spec_get(k)
                }),
    {
        self.sk_classes.get_mut(class_fullname.0.as_str()).unwrap()
    }

    /// Return true if there is a class of the name
    pub fn class_exists(&self, fullname: &str) -> (r: bool)
        ensures
            r == self.has_class(fullname@),
    {
        self.lookup_class(&class_fullname(fullname)).is_some()
    }

    /// Returns supertype of `ty` (except it is `Object`)
    pub fn supertype(&self, ty: &TermTy) -> (r: Option<TermTy>)
        requires
            self.has_class(spec_erasure(ty@)),
        ensures
            match self.spec_supertype(ty@) {
                Some(u) => r matches Some(t) && t@ == u,
                None => r is None,
            },
    {
        let c = self.get_class(&ty.erasure());
        match &c.superclass {
            Some(scls) => {
                let none: &[TermTy] = &[];
                assert(views_of(none@) =~= Seq::<TyV>::empty());
                Some(scls.ty().substitute(ty.tyargs(), none))
            },
            None => None,
        }
    }

    /// Return ancestor types of `ty`, including itself.
    fn ancestor_types(&self, ty: &TermTy) -> (r: Vec<TermTy>)
        requires
            self.has_ancestry(ty@),
        ensures
            views_of(r@) == self.ancestors(ty@),
    {
        let ghost all = self.ancestors(ty@);
        let mut v: Vec<TermTy> = Vec::new();
        let mut t: Option<TermTy> = Some(ty.copy());
        let ghost mut k: nat = self.ancestry_len(ty@);
        assert(views_of(v@) + self.ancestors_n(ty@, k) =~= all);
        loop
            invariant
                all == self.ancestors(ty@),
                match t {
                    Some(tt) => self.chain_ok(tt@, k) && views_of(v@) + self.ancestors_n(tt@, k) == all,
                    None => views_of(v@) == all,
                },
            ensures
                views_of(v@) == all,
            decreases (if t is Some {
                k + 1
            } else {
                0
            }),
        {
            match t {
                None => break,
                Some(tt) => {
                    let next = self.supertype(&tt);
                    proof {
                        let rest = match self.spec_supertype(tt@) {
                            Some(u) => if k > 0 {
                                self.ancestors_n(u, (k - 1) as nat)
                            } else {
                                Seq::empty()
                            },
                            None => Seq::empty(),
                        };
                        assert(self.ancestors_n(tt@, k) == seq![tt@] + rest);
                        lemma_views_push(v@, tt);
                        assert(views_of(v@) + (seq![tt@] + rest) =~= views_of(v@).push(tt@) + rest);
                        if next is Some {
                            k = (k - 1) as nat;
                        } else {
                            assert(rest =~= Seq::<TyV>::empty());
                            assert(views_of(v@).push(tt@) + rest =~= views_of(v@).push(tt@));
                        }
                    }
                    v.push(tt);
                    t = next;
                },
            }
        }
        v
    }

    /// Return the nearest common ancestor of the classes
    pub fn nearest_common_ancestor(&self, ty1: &TermTy, ty2: &TermTy) -> (r: TermTy)
        requires
            self.has_ancestry(ty1@),
            self.has_ancestry(ty2@),
            common_ancestor(self.ancestors(ty1@), self.ancestors(ty2@)) is Some,
        ensures
            common_ancestor(self.ancestors(ty1@), self.ancestors(ty2@)) == Some(r@),
    {
        let ancestors1 = self.ancestor_types(ty1);
        let ancestors2 = self.ancestor_types(ty2);
        let ghost a1 = views_of(ancestors1@);
        let ghost a2 = views_of(ancestors2@);
        let mut i: usize = 0;
        assert(a2.skip(0) =~= a2);
        while i < ancestors2.len()
            invariant
                a1 == views_of(ancestors1@),
                a2 == views_of(ancestors2@),
                a1 == self.ancestors(ty1@),
                a2 == self.ancestors(ty2@),
                0 <= i <= a2.len(),
                common_ancestor(a1, a2) == common_ancestor(a1, a2.skip(i as int)),
                common_ancestor(a1, a2) is Some,
            decreases ancestors2.len() - i,
        {
            assert(a2.skip(i as int)[0] == a2[i as int]);
            assert(a2.skip(i as int).drop_first() =~= a2.skip(i + 1));
            assert(a2[i as int] == ancestors2@[i as int]@);
            if let Some(eq) = find_named(&ancestors1, &ancestors2[i]) {
                assert(first_named(a1, a2.skip(i as int)[0].fullname) == Some(eq@));
                assert(common_ancestor(a1, a2.skip(i as int)) == Some(eq@));
                return eq.copy();
            }
            i += 1;
        }
        vstd::pervasive::unreached()
    }

    /// Return true if ty1 is an descendant of ty2
    /// Return value is unspecified when ty1 == ty2
    pub fn is_descendant(&self, ty1: &TermTy, ty2: &TermTy) -> (r: bool)
        requires
            self.has_ancestry(ty1@),
        ensures
            r == self.ancestors(ty1@).contains(ty2@),
    {
        let ghost goal = self.ancestors(ty1@).contains(ty2@);
        let mut t: Option<TermTy> = Some(ty1.copy());
        let ghost mut k: nat = self.ancestry_len(ty1@);
        loop
            invariant
                goal == self.ancestors(ty1@).contains(ty2@),
                match t {
                    Some(tt) => self.chain_ok(tt@, k) && goal == self.ancestors_n(tt@, k).contains(ty2@),
                    None => !goal,
                },
            decreases (if t is Some {
                k + 1
            } else {
                0
            }),
        {
            match t {
                None => return false,
                Some(tt) => {
                    let rest = Ghost(
                        match self.spec_supertype(tt@) {
                            Some(u) => if k > 0 {
                                self.ancestors_n(u, (k - 1) as nat)
                            } else {
                                Seq::empty()
                            },
                            None => Seq::empty(),
                        },
                    );
                    proof {
                        assert(self.ancestors_n(tt@, k) == seq![tt@] + rest@);
                        lemma_contains_cons(tt@, rest@, ty2@);
                    }
                    if tt.same_as(ty2) {
                        return true;
                    }
                    let next = self.supertype(&tt);
                    proof {
                        if next is Some {
                            k = (k - 1) as nat;
                        } else {
                            assert(!rest@.contains(ty2@));
                        }
                    }
                    t = next;
                },
            }
        }
    }

    /// Return true if `ty1` conforms to `ty2` i.e.
    /// an object of the type `ty1` is included in the set of objects represented by the type `ty2`
    pub fn conforms(&self, ty1: &TermTy, ty2: &TermTy) -> (r: bool)
        requires
            self.conforms_needs(ty1@, ty2@),
        ensures
            r == self.spec_conforms(ty1@, ty2@),
    {
        // `Never` is bottom type (i.e. subclass of any class)
        if ty1.is_never_type() {
            true
        } else if ty1.equals_to(ty2) {
            true
        } else if let TyBody::TyParamRef { name, .. } = &ty1.body {
            if let TyBody::TyParamRef { name: name2, .. } = &ty2.body {
                str_eq(name.as_str(), name2.as_str())
            } else {
                proof { lemma_strlits(); }
                let obj = ty::raw("Object");
                ty2.same_as(&obj)  // The upper bound

            }
        } else if let TyBody::TyParamRef { .. } = &ty2.body {
            false
        } else {
            let is_void_fn = if let Some(ret_ty) = ty2.fn_x_info() {
                ret_ty.is_void_type()
            } else {
                false
            };
            let ancestors = self.ancestor_types(ty1);
            if let Some(t1) = find_same_base(&ancestors, ty2) {
                if t1.equals_to(ty2) {
                    true
                } else if all_never_types(t1.tyargs()) {
                    true
                } else {
                    // Special care for void funcs
                    is_void_fn
                }
            } else {
                false
            }
        }
    }

    /// The class of the superclass of `classname`, if it has one
    pub fn get_superclass(&self, classname: &ClassFullname) -> (r: Option<&SkClass>)
        requires
            self.super_known(classname@),
        ensures
            match self.class_of(classname@).unwrap().superclass {
                Some(s) => r matches Some(c) && self.class_of(spec_erasure(s@)) == Some(*c),
                None => r is None,
            },
    {
        let cls = self.get_class(classname);
        match &cls.superclass {
            Some(scls) => Some(self.get_class(&scls.ty().erasure())),
            None => None,
        }
    }

    /// Returns instance variables of the superclass of `classname`, as seen from it
    pub fn superclass_ivars(&self, classname: &ClassFullname) -> (r: Option<SkIVars>)
        requires
            self.super_known(classname@),
        ensures
            match self.class_of(classname@).unwrap().superclass {
                Some(s) => r matches Some(iv) && ivars_view(iv) == subst_ivars_view(
                    self.class_of(spec_erasure(s@)).unwrap().ivars,
                    spec_tyargs(s@),
                ) && forall|k: Seq<char>| #[trigger] ivar_at(iv, k) == self.inherited_ivar(classname@, k),
                None => r is None,
            },
    {
        let cls = self.get_class(classname);
        match &cls.superclass {
            Some(scls) => {
                let ty = scls.ty();
                let ivars = &self.get_class(&ty.erasure()).ivars;
                let tyargs = ty.tyargs();
                let ghost e1 = ivars.entries@;
                let ghost ta = views_of(tyargs@);
                let mut entries: Vec<(String, SkIVar)> = Vec::new();
                let mut i: usize = 0;
                while i < ivars.entries.len()
                    invariant
                        e1 == ivars.entries@,
                        ta == views_of(tyargs@),
                        0 <= i <= e1.len(),
                        entries@.len() == i,
                        forall|j: int|
                            0 <= j < i ==> #[trigger] entries@[j].0@ == e1[j].0@ && entries@[j].1@
                                == subst_ivar(e1[j].1, ta),
                    decreases e1.len() - i,
                {
                    let name = copy_string(&ivars.entries[i].0);
                    let ivar = ivars.entries[i].1.substitute(tyargs);
                    entries.push((name, ivar));
                    i += 1;
                }
                let r = StrMap { entries };
                proof {
                    assert(ivars_view(r) =~= subst_ivars_view(*ivars, ta));
                    assert forall|k: Seq<char>| #[trigger] ivar_at(r, k) == subst_ivar_at(*ivars, ta, k) by {
                        lemma_lookup_subst(e1, r.entries@, ta, k);
                    }
                }
                Some(r)
            },
            None => None,
        }
    }

    /// The instance variable `ivar_name` of the indexed class `classname`, if any
    pub fn find_ivar(&self, classname: &ClassFullname, ivar_name: &str) -> (r: Option<&crate::hir::SkIVar>)
        requires
            self.sk_classes.spec_contains(classname@),
        ensures
            match self.sk_classes.spec_get(classname@).unwrap().ivars.spec_get(ivar_name@) {
                Some(v) => r == Some(&v),
                None => r is None,
            },
    {
        let class = self.sk_classes.get(classname.0.as_str()).unwrap();
        class.ivars.get(ivar_name)
    }
}

/// The first of `v` of the same class as `t`, if any
fn find_same_base<'a>(v: &'a Vec<TermTy>, t: &TermTy) -> (r: Option<&'a TermTy>)
    ensures
        match first_same_base(views_of(v@), t@) {
            Some(x) => r matches Some(y) && y@ == x,
            None => r is None,
        },
{
    let ghost s = views_of(v@);
    let mut i: usize = 0;
    assert(s.skip(0) =~= s);
    while i < v.len()
        invariant
            s == views_of(v@),
            0 <= i <= s.len(),
            first_same_base(s, t@) == first_same_base(s.skip(i as int), t@),
        decreases v.len() - i,
    {
        assert(s.skip(i as int)[0] == s[i as int]);
        assert(s.skip(i as int).drop_first() =~= s.skip(i + 1));
        if v[i].same_base(t) {
            return Some(&v[i]);
        }
        i += 1;
    }
    None
}

/// The first of `v` of the same full name as `t`, if any
fn find_named<'a>(v: &'a Vec<TermTy>, t: &TermTy) -> (r: Option<&'a TermTy>)
    ensures
        match first_named(views_of(v@), t@.fullname) {
            Some(x) => r matches Some(y) && y@ == x,
            None => r is None,
        },
{
    let ghost s = views_of(v@);
    let mut i: usize = 0;
    assert(s.skip(0) =~= s);
    while i < v.len()
        invariant
            s == views_of(v@),
            0 <= i <= s.len(),
            first_named(s, t@.fullname) == first_named(s.skip(i as int), t@.fullname),
        decreases v.len() - i,
    {
        assert(s.skip(i as int)[0] == s[i as int]);
        assert(s.skip(i as int).drop_first() =~= s.skip(i + 1));
        if v[i].equals_to(t) {
            return Some(&v[i]);
        }
        i += 1;
    }
    None
}

/// Whether all of `ts` are `Never`
fn all_never_types(ts: &[TermTy]) -> (r: bool)
    ensures
        r == all_never(views_of(ts@)),
{
    let mut i: usize = 0;
    while i < ts.len()
        invariant
            0 <= i <= ts@.len(),
            forall|j: int| 0 <= j < i ==> #[trigger] views_of(ts@)[j].fullname == never_word(),
        decreases ts.len() - i,
    {
        if !ts[i].is_never_type() {
            assert(views_of(ts@)[i as int].fullname != never_word());
            return false;
        }
        i += 1;
    }
    true
}

} // verus!
