//! Superclasses, which can be specialized generic classes.
use vstd::prelude::*;
use crate::names::{ConstName, lemma_strlits, spec_const_to_ty};
use crate::strs::strings_view;
use crate::ty;
use crate::ty::{TermTy, TyBodyV, TyV, spec_substitute, views_of};

verus! {

/// Whether a type can be a superclass: a plain or a specialized class
pub open spec fn is_superclass_ty(t: TyV) -> bool {
    t.body is Raw || t.body is Spe
}

/// Note that superclass can have type parameters eg.
/// `class Foo<S, T> : Pair<S, Array<T>>`
#[derive(Debug)]
pub struct Superclass(pub TermTy);

impl View for Superclass {
    type V = TyV;

    open spec fn view(&self) -> TyV {
        self.0@
    }
}

impl Superclass {
    /// Create a `Superclass`
    pub fn new(t: TermTy) -> (r: Superclass)
        requires
            is_superclass_ty(t@),
        ensures
            r@ == t@,
    {
        Superclass(t)
    }

    /// Shortcut from a class name
    pub fn simple(s: &str) -> (r: Superclass)
        ensures
            r@ == ty::spec_raw(s@),
    {
        Superclass(ty::raw(s))
    }

    /// Default superclass (= Object)
    pub fn default() -> (r: Superclass)
        ensures
            r@ == ty::spec_raw(seq!['O', 'b', 'j', 'e', 'c', 't']),
    {
        proof { lemma_strlits(); }
        Superclass::simple("Object")
    }

    /// The superclass written as `name` in a class with the type parameters `typarams`
    pub fn from_const_name(name: &ConstName, typarams: &[String]) -> (r: Superclass)
        requires
            is_superclass_ty(spec_const_to_ty(name@, strings_view(typarams@), Seq::empty())),
        ensures
            r@ == spec_const_to_ty(name@, strings_view(typarams@), Seq::empty()),
    {
        let none: &[String] = &[];
        assert(strings_view(none@) =~= Seq::<Seq<char>>::empty());
        Superclass::new(name.to_ty(typarams, none))
    }

    pub fn ty(&self) -> (r: &TermTy)
        ensures
            *r == self.0,
    {
        &self.0
    }

    /// A copy of this superclass
    pub fn copy(&self) -> (r: Superclass)
        ensures
            r@ == self@,
    {
        Superclass(self.0.copy())
    }

    /// Create concrete superclass of a generic class
    pub fn substitute(&self, tyargs: &[TermTy]) -> (r: Superclass)
        requires
            is_superclass_ty(self@),
        ensures
            r@ == spec_substitute(self@, views_of(tyargs@), Seq::empty()),
            is_superclass_ty(r@),
    {
        let none: &[TermTy] = &[];
        assert(views_of(none@) =~= Seq::<TyV>::empty());
        let t = self.0.substitute(tyargs, none);
        Superclass::new(t)
    }
}

} // verus!
