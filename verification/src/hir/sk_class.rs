//! Classes.
use vstd::prelude::*;
use crate::hir::SkIVar;
use crate::hir::signature::{MethodSignature, SigV, spec_specialize};
use crate::hir::superclass::{Superclass, is_superclass_ty};
use crate::names::{ClassFullname, MethodFirstname, MethodFullname};
use crate::str_map::StrMap;
use crate::strs::copy_string;
use crate::ty;
use crate::ty::{TermTy, TyBody, TyParam, TyV, spec_substitute, views_of};

verus! {

/// A Shiika class, possibly generic
#[derive(Debug)]
pub struct SkClass {
    pub fullname: ClassFullname,
    pub typarams: Vec<TyParam>,
    pub superclass: Option<Superclass>,
    pub instance_ty: TermTy,
    pub ivars: StrMap<SkIVar>,
    pub method_sigs: StrMap<MethodSignature>,
    /// true if this class cannot be a explicit superclass.
    /// None if not applicable (eg. metaclasses cannot be a explicit superclass because there is no
    /// such syntax)
    pub is_final: Option<bool>,
    /// eg. `Void` is an instance, not the class
    pub const_is_obj: bool,
    /// true if this class is an imported one
    pub foreign: bool,
}

/// Classes by full name
pub type SkClasses = StrMap<SkClass>;

/// Instance variables by name
pub type SkIVars = StrMap<SkIVar>;

// ------------------------------------------------------------------ string order

/// Lexicographic order of strings (as `String`'s `Ord`): `a` comes strictly before `b`
pub open spec fn seq_lt(a: Seq<char>, b: Seq<char>) -> bool
    decreases a.len(),
{
    if a.len() == 0 {
        b.len() > 0
    } else if b.len() == 0 {
        false
    } else if a[0] != b[0] {
        a[0] < b[0]
    } else {
        seq_lt(a.drop_first(), b.drop_first())
    }
}

pub proof fn lemma_seq_lt_transitive(a: Seq<char>, b: Seq<char>, c: Seq<char>)
    requires
        seq_lt(a, b),
        seq_lt(b, c),
    ensures
        seq_lt(a, c),
    decreases a.len(),
{
    if a.len() > 0 && b.len() > 0 && c.len() > 0 && a[0] == b[0] && b[0] == c[0] {
        lemma_seq_lt_transitive(a.drop_first(), b.drop_first(), c.drop_first());
    }
}

/// Whether `a` comes strictly before `b`
pub fn str_lt(a: &str, b: &str) -> (r: bool)
    ensures
        r == seq_lt(a@, b@),
{
    let n = a.unicode_len();
    let m = b.unicode_len();
    let mut i: usize = 0;
    assert(a@.skip(0) =~= a@);
    assert(b@.skip(0) =~= b@);
    while i < n && i < m
        invariant
            n == a@.len(),
            m == b@.len(),
            0 <= i <= n,
            i <= m,
            seq_lt(a@, b@) == seq_lt(a@.skip(i as int), b@.skip(i as int)),
        decreases n - i,
    {
        let x = a.get_char(i);
        let y = b.get_char(i);
        if x != y {
            return x < y;
        }
        assert(a@.skip(i as int).drop_first() =~= a@.skip(i + 1));
        assert(b@.skip(i as int).drop_first() =~= b@.skip(i + 1));
        i += 1;
    }
    i == n && i < m
}

// ------------------------------------------------------------------ views of maps

/// The entries of a map of instance variables, viewed
pub open spec fn ivars_view(m: StrMap<SkIVar>) -> Seq<(Seq<char>, (usize, Seq<char>, TyV, bool))> {
    Seq::new(m.entries@.len(), |i: int| (m.entries@[i].0@, m.entries@[i].1@))
}

/// The entries of a map of signatures, viewed
pub open spec fn sigs_view(m: StrMap<MethodSignature>) -> Seq<(Seq<char>, SigV)> {
    Seq::new(m.entries@.len(), |i: int| (m.entries@[i].0@, m.entries@[i].1@))
}

/// A copy of a map of instance variables
pub fn copy_ivars(m: &StrMap<SkIVar>) -> (r: StrMap<SkIVar>)
    ensures
        ivars_view(r) == ivars_view(*m),
{
    let mut r: StrMap<SkIVar> = StrMap { entries: Vec::new() };
    let mut i: usize = 0;
    while i < m.entries.len()
        invariant
            0 <= i <= m.entries@.len(),
            ivars_view(r) =~= ivars_view(*m).take(i as int),
        decreases m.entries.len() - i,
    {
        let e = (copy_string(&m.entries[i].0), m.entries[i].1.copy());
        let ghost before = r.entries@;
        r.entries.push(e);
        proof {
            assert(r.entries@ == before.push(e));
            assert(ivars_view(*m).take(i + 1) =~= ivars_view(*m).take(i as int).push(ivars_view(*m)[i as int]));
            assert(ivars_view(r) =~= ivars_view(*m).take(i + 1));
        }
        i += 1;
    }
    assert(ivars_view(*m).take(m.entries@.len() as int) =~= ivars_view(*m));
    r
}

/// Copies of the type parameters of `v`
pub fn copy_typarams(v: &Vec<TyParam>) -> (r: Vec<TyParam>)
    ensures
        r@.len() == v@.len(),
        forall|i: int| 0 <= i < v@.len() ==> #[trigger] r@[i]@ == v@[i]@,
{
    let mut r: Vec<TyParam> = Vec::new();
    let mut i: usize = 0;
    while i < v.len()
        invariant
            0 <= i <= v@.len(),
            r@.len() == i,
            forall|j: int| 0 <= j < i ==> #[trigger] r@[j]@ == v@[j]@,
        decreases v.len() - i,
    {
        r.push(v[i].copy());
        i += 1;
    }
    r
}

/// The full names of the methods of a class
pub open spec fn method_fullnames(c: SkClass) -> Seq<(Seq<char>, Seq<char>)> {
    Seq::new(c.method_sigs.entries@.len(), |i: int| c.method_sigs.entries@[i].1.fullname@)
}

/// The views of a sequence of method full names
pub open spec fn fullnames_view(v: Seq<MethodFullname>) -> Seq<(Seq<char>, Seq<char>)> {
    Seq::new(v.len(), |i: int| v[i]@)
}

pub proof fn lemma_seq_lt_irreflexive(a: Seq<char>)
    ensures
        !seq_lt(a, a),
    decreases a.len(),
{
    if a.len() > 0 {
        lemma_seq_lt_irreflexive(a.drop_first());
    }
}

/// Every one of the first `k` names occurs in `v`
pub open spec fn covers(v: Seq<(Seq<char>, Seq<char>)>, names: Seq<(Seq<char>, Seq<char>)>, k: int) -> bool {
    forall|j: int| 0 <= j < k ==> occurs(v, #[trigger] names[j])
}

/// Whether `x` occurs in `v`
pub open spec fn occurs(v: Seq<(Seq<char>, Seq<char>)>, x: (Seq<char>, Seq<char>)) -> bool {
    exists|i: int| 0 <= i < v.len() && v[i] == x
}

/// Method full names sorted by their first names
pub open spec fn sorted_by_first_name(v: Seq<(Seq<char>, Seq<char>)>) -> bool {
    forall|i: int, j: int| 0 <= i < j < v.len() ==> !seq_lt(#[trigger] v[j].1, #[trigger] v[i].1)
}

impl SkClass {
    pub fn class_ty(&self) -> (r: TermTy)
        ensures
            r@ == ty::spec_meta_ty(self.instance_ty@),
    {
        self.instance_ty.meta_ty()
    }

    /// List of method names, alphabetic order
    pub fn method_names(&self) -> (r: Vec<MethodFullname>)
        ensures
            r@.len() == self.method_sigs.entries@.len(),
            sorted_by_first_name(fullnames_view(r@)),
            covers(fullnames_view(r@), method_fullnames(*self), r@.len() as int),
            fullnames_view(r@).to_multiset() == method_fullnames(*self).to_multiset(),
    {
        let ghost names = method_fullnames(*self);
        assert(fullnames_view(Seq::<MethodFullname>::empty()) =~= names.take(0));
        let mut v: Vec<MethodFullname> = Vec::new();
        let mut k: usize = 0;
        while k < self.method_sigs.entries.len()
            invariant
                0 <= k <= self.method_sigs.entries@.len(),
                names == method_fullnames(*self),
                v@.len() == k,
                sorted_by_first_name(fullnames_view(v@)),
                covers(fullnames_view(v@), names, k as int),
                fullnames_view(v@).to_multiset() == names.take(k as int).to_multiset(),
            decreases self.method_sigs.entries.len() - k,
        {
            let x = self.method_sigs.entries[k].1.fullname.copy();
            // Sort by first name
            let mut p: usize = 0;
            while p < v.len()
                invariant
                    0 <= p <= v@.len(),
                    forall|i: int| 0 <= i < p ==> !seq_lt(x@.1, #[trigger] fullnames_view(v@)[i].1),
                ensures
                    0 <= p <= v@.len(),
                    forall|i: int| 0 <= i < p ==> !seq_lt(x@.1, #[trigger] fullnames_view(v@)[i].1),
                    p < v@.len() ==> seq_lt(x@.1, fullnames_view(v@)[p as int].1),
                decreases v.len() - p,
            {
                if str_lt(x.first_name.0.as_str(), v[p].first_name.0.as_str()) {
                    break;
                }
                p += 1;
            }
            let ghost old_v = fullnames_view(v@);
            let ghost xv = x@;
            v.insert(p, x);
            proof {
                let nv = fullnames_view(v@);
                assert(nv =~= old_v.insert(p as int, xv));
                vstd::seq_lib::to_multiset_insert(old_v, p as int, xv);
                assert(names.take(k + 1) =~= names.take(k as int).push(names[k as int]));
                vstd::seq_lib::to_multiset_build(names.take(k as int), names[k as int]);
                assert(xv == names[k as int]);
                assert forall|i: int, j: int| 0 <= i < j < nv.len() implies !seq_lt(
                    #[trigger] nv[j].1,
                    #[trigger] nv[i].1,
                ) by {
                    if i < p && j < p {
                        assert(!seq_lt(old_v[j].1, old_v[i].1));
                    } else if i < p && j == p {
                        assert(!seq_lt(xv.1, old_v[i].1));
                    } else if i < p {
                        assert(!seq_lt(old_v[j - 1].1, old_v[i].1));
                    } else if i == p {
                        if seq_lt(old_v[j - 1].1, xv.1) {
                            lemma_seq_lt_transitive(old_v[j - 1].1, xv.1, old_v[p as int].1);
                            if j - 1 == p {
                                lemma_seq_lt_irreflexive(old_v[p as int].1);
                            } else {
                                assert(!seq_lt(old_v[j - 1].1, old_v[p as int].1));
                            }
                        }
                    } else {
                        assert(!seq_lt(old_v[j - 1].1, old_v[i - 1].1));
                    }
                }
                assert(covers(nv, names, k + 1)) by {
                    assert forall|j: int| 0 <= j < k + 1 implies occurs(nv, #[trigger] names[j]) by {
                        if j == k {
                            assert(nv[p as int] == names[j]);
                        } else {
                            let i0 = choose|i: int| 0 <= i < old_v.len() && old_v[i] == names[j];
                            if i0 < p {
                                assert(nv[i0] == names[j]);
                            } else {
                                assert(nv[i0 + 1] == names[j]);
                            }
                        }
                    }
                    }
            }
            k += 1;
        }
        assert(names.take(k as int) =~= names);
        v
    }

    /// Create a specialized metaclass of a generic metaclass
    /// eg. create `Meta:Array<Int>` from `Meta:Array`
    pub fn specialized_meta(&self, tyargs: &[TermTy]) -> (r: SkClass)
        requires
            self.typarams@.len() == tyargs@.len(),
            self.instance_ty.body is TyMeta,
            self.superclass matches Some(sc) ==> is_superclass_ty(sc@),
        ensures
            r.instance_ty@ == ty::spec_spe_meta(
                self.instance_ty.body->base_fullname@,
                views_of(tyargs@),
            ),
            r.fullname@ == r.instance_ty@.fullname,
            r.typarams@.len() == 0,
            match self.superclass {
                Some(sc) => r.superclass matches Some(rsc) && rsc@ == spec_substitute(
                    sc@,
                    views_of(tyargs@),
                    Seq::empty(),
                ),
                None => r.superclass is None,
            },
            ivars_view(r.ivars) == ivars_view(self.ivars),
            r.method_sigs.entries@.len() == self.method_sigs.entries@.len(),
            forall|i: int|
                0 <= i < self.method_sigs.entries@.len() ==> (#[trigger] r.method_sigs.entries@[i]).0@
                    == self.method_sigs.entries@[i].0@ && r.method_sigs.entries@[i].1@
                    == spec_specialize(self.method_sigs.entries@[i].1@, views_of(tyargs@), Seq::empty()),
            r.is_final is None,
            r.const_is_obj == self.const_is_obj,
            r.foreign == false,
    {
        let base_name = match &self.instance_ty.body {
            TyBody::TyMeta { base_fullname } => base_fullname,
            _ => {
                assert(false);
                &self.instance_ty.fullname.0
            },
        };
        let instance_ty = ty::spe_meta(base_name.as_str(), ty::copy_all(tyargs));
        let none: &[TermTy] = &[];
        assert(views_of(none@) =~= Seq::<TyV>::empty());
        let mut method_sigs: StrMap<MethodSignature> = StrMap { entries: Vec::new() };
        let mut i: usize = 0;
        while i < self.method_sigs.entries.len()
            invariant
                0 <= i <= self.method_sigs.entries@.len(),
                views_of(none@) == Seq::<TyV>::empty(),
                method_sigs.entries@.len() == i,
                forall|j: int|
                    0 <= j < i ==> (#[trigger] method_sigs.entries@[j]).0@
                        == self.method_sigs.entries@[j].0@ && method_sigs.entries@[j].1@
                        == spec_specialize(self.method_sigs.entries@[j].1@, views_of(tyargs@), Seq::empty()),
            decreases self.method_sigs.entries.len() - i,
        {
            let name = copy_string(&self.method_sigs.entries[i].0);
            let sig = self.method_sigs.entries[i].1.specialize(tyargs, none);
            method_sigs.entries.push((name, sig));
            i += 1;
        }
        let superclass = match &self.superclass {
            Some(sc) => Some(sc.substitute(tyargs)),
            None => None,
        };
        let fullname = instance_ty.fullname.copy();
        SkClass {
            fullname,
            typarams: Vec::new(),
            superclass,
            instance_ty,
            ivars: copy_ivars(&self.ivars),
            method_sigs,
            is_final: None,
            const_is_obj: self.const_is_obj,
            foreign: false,
        }
    }
}

} // verus!
