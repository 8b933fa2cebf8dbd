//! Tables of the methods of classes, for dynamic dispatch.
use vstd::prelude::*;
use crate::hir::sk_class::{
    SkClass, SkClasses, covers, fullnames_view, method_fullnames, seq_lt, sorted_by_first_name,
};
use crate::names::{MethodFirstname, MethodFullname};
use crate::str_map::StrMap;
use crate::strs::{copy_string, to_owned};
use crate::ty::{TermTy, spec_erasure};

verus! {

/// A method's full name viewed: (full name, first name)
pub type NameV = (Seq<char>, Seq<char>);

/// Whether some name in `v` has the first name `k`
pub open spec fn has_first(v: Seq<NameV>, k: Seq<char>) -> bool {
    exists|i: int| 0 <= i < v.len() && v[i].1 == k
}

/// The slot of the first name `k` in `v`
pub open spec fn slot_of(v: Seq<NameV>, k: Seq<char>) -> int {
    choose|i: int| 0 <= i < v.len() && v[i].1 == k
}

/// Put the method `n` in the slot of its first name, or in a new slot at the end
pub open spec fn add_name(v: Seq<NameV>, n: NameV) -> Seq<NameV> {
    if has_first(v, n.1) {
        v.update(slot_of(v, n.1), n)
    } else {
        v.push(n)
    }
}

/// Put the methods `ns` one by one
pub open spec fn add_names(v: Seq<NameV>, ns: Seq<NameV>) -> Seq<NameV>
    decreases ns.len(),
{
    if ns.len() == 0 {
        v
    } else {
        add_name(add_names(v, ns.drop_last()), ns.last())
    }
}

/// `ns` lists the methods of `class` (each as many times as the class has it), sorted by
/// their first names
pub open spec fn method_listing(class: SkClass, ns: Seq<NameV>) -> bool {
    &&& ns.len() == class.method_sigs.entries@.len()
    &&& sorted_by_first_name(ns)
    &&& covers(ns, method_fullnames(class), ns.len() as int)
    &&& ns.to_multiset() == method_fullnames(class).to_multiset()
}

/// No two names of `v` have the same first name
pub open spec fn distinct_firsts(v: Seq<NameV>) -> bool {
    forall|i: int, j: int| 0 <= i < j < v.len() ==> (#[trigger] v[i]).1 != (#[trigger] v[j]).1
}

/// Methods with distinct first names put one by one into an empty table take the slots
/// 0, 1, .. in their order: a table built on the empty one lists them as they are.
pub proof fn law_build_on_empty(ns: Seq<NameV>)
    requires
        distinct_firsts(ns),
    ensures
        add_names(Seq::empty(), ns) == ns,
    decreases ns.len(),
{
    if ns.len() > 0 {
        let d = ns.drop_last();
        assert(distinct_firsts(d));
        law_build_on_empty(d);
        if has_first(d, ns.last().1) {
            let i = choose|i: int| 0 <= i < d.len() && d[i].1 == ns.last().1;
            assert(ns[i].1 == ns[ns.len() - 1].1);
        }
        assert(d.push(ns.last()) =~= ns);
    }
}

/// The method of `ns` with the first name of `n`, where `ns` has one; `n` itself otherwise
pub open spec fn override_slot(n: NameV, ns: Seq<NameV>) -> NameV {
    if has_first(ns, n.1) {
        ns[slot_of(ns, n.1)]
    } else {
        n
    }
}

/// The slots `v`, each taken by the method of `ns` of the same first name where `ns` has one
pub open spec fn overridden(v: Seq<NameV>, ns: Seq<NameV>) -> Seq<NameV> {
    Seq::new(v.len(), |i: int| override_slot(v[i], ns))
}

/// The methods of `ns` whose first names are not in `v`, in their order
pub open spec fn new_names(v: Seq<NameV>, ns: Seq<NameV>) -> Seq<NameV>
    decreases ns.len(),
{
    if ns.len() == 0 {
        Seq::empty()
    } else {
        let rest = new_names(v, ns.drop_last());
        if has_first(v, ns.last().1) {
            rest
        } else {
            rest.push(ns.last())
        }
    }
}

/// A first name other than that of the last method of `ns` is found in `ns` where it is found
/// without that method, at the same method
proof fn lemma_has_first_drop_last(ns: Seq<NameV>, k: Seq<char>)
    requires
        ns.len() > 0,
        distinct_firsts(ns),
        k != ns.last().1,
    ensures
        has_first(ns, k) == has_first(ns.drop_last(), k),
        has_first(ns, k) ==> ns[slot_of(ns, k)] == ns.drop_last()[slot_of(ns.drop_last(), k)],
{
    let d = ns.drop_last();
    if has_first(ns, k) {
        let i = slot_of(ns, k);
        assert(i < d.len());
        assert(d[i].1 == k);
        let j = slot_of(d, k);
        assert(ns[j].1 == k);
        assert(i == j);
    }
    if has_first(d, k) {
        let j = slot_of(d, k);
        assert(ns[j].1 == k);
    }
}

/// The new methods are methods of `ns` whose first names are not in `v`; they keep the order
/// of `ns`
pub proof fn lemma_new_names(v: Seq<NameV>, ns: Seq<NameV>)
    ensures
        forall|i: int|
            0 <= i < new_names(v, ns).len() ==> exists|j: int|
                0 <= j < ns.len() && #[trigger] new_names(v, ns)[i] == ns[j] && !has_first(v, ns[j].1),
        sorted_by_first_name(ns) ==> sorted_by_first_name(new_names(v, ns)),
    decreases ns.len(),
{
    if ns.len() > 0 {
        let d = ns.drop_last();
        lemma_new_names(v, d);
        let rest = new_names(v, d);
        let w = new_names(v, ns);
        assert forall|i: int| 0 <= i < w.len() implies exists|j: int|
            0 <= j < ns.len() && #[trigger] w[i] == ns[j] && !has_first(v, ns[j].1) by {
            if i < rest.len() {
                let j = choose|j: int| 0 <= j < d.len() && #[trigger] rest[i] == d[j] && !has_first(v, d[j].1);
                assert(w[i] == ns[j]);
            } else {
                assert(w[i] == ns[ns.len() - 1]);
            }
        }
        if sorted_by_first_name(ns) {
            assert(sorted_by_first_name(d));
            assert forall|i: int, j: int| 0 <= i < j < w.len() implies !seq_lt(#[trigger] w[j].1, #[trigger] w[i].1) by {
                if j >= rest.len() {
                    let m = choose|m: int| 0 <= m < d.len() && #[trigger] rest[i] == d[m] && !has_first(v, d[m].1);
                    assert(w[i] == ns[m]);
                    assert(w[j] == ns[ns.len() - 1]);
                } else {
                    assert(w[i] == rest[i] && w[j] == rest[j]);
                }
            }
        }
    }
}

/// Putting methods with distinct first names one by one into slots with distinct first names
/// keeps every slot, holding there the method of the same first name where there is one, and
/// appends the other methods in their order.
pub proof fn law_add_names_slots(v: Seq<NameV>, ns: Seq<NameV>)
    requires
        distinct_firsts(v),
        distinct_firsts(ns),
    ensures
        add_names(v, ns) == overridden(v, ns) + new_names(v, ns),
    decreases ns.len(),
{
    if ns.len() == 0 {
        assert(overridden(v, ns) =~= v);
        assert(overridden(v, ns) + new_names(v, ns) =~= v);
    } else {
        let d = ns.drop_last();
        let x = ns.last();
        assert(distinct_firsts(d));
        law_add_names_slots(v, d);
        lemma_new_names(v, d);
        let o = overridden(v, d);
        let nn = new_names(v, d);
        let w = o + nn;
        assert(w == add_names(v, d));
        // the first names of `w`: those of `v`, then new ones
        assert forall|i: int| 0 <= i < v.len() implies (#[trigger] w[i]).1 == v[i].1 by {
            assert(w[i] == override_slot(v[i], d));
        }
        assert forall|i: int| v.len() <= i < w.len() implies !has_first(v, (#[trigger] w[i]).1) && (
        #[trigger] w[i]).1 != x.1 by {
            let j = choose|j: int| 0 <= j < d.len() && #[trigger] nn[i - v.len()] == d[j] && !has_first(v, d[j].1);
            assert(w[i] == d[j]);
            assert(ns[j] == d[j]);
        }
        // the slots other than that of `x` are overridden as without `x`
        assert forall|i: int| 0 <= i < v.len() && v[i].1 != x.1 implies #[trigger] override_slot(v[i], ns)
            == override_slot(v[i], d) by {
            lemma_has_first_drop_last(ns, v[i].1);
        }
        if has_first(v, x.1) {
            let p = slot_of(v, x.1);
            assert(w[p].1 == x.1);
            assert(has_first(w, x.1));
            let q = slot_of(w, x.1);
            assert(q == p) by {
                if q >= v.len() {
                    assert(!has_first(v, w[q].1));
                } else {
                    assert(v[q].1 == x.1);
                }
            }
            let last = ns.len() - 1;
            assert(has_first(ns, x.1)) by {
                assert(ns[last].1 == x.1);
            }
            assert(slot_of(ns, x.1) == last) by {
                let m = slot_of(ns, x.1);
                if m != last {
                    assert(ns[m].1 == ns[last].1);
                }
            }
            assert(new_names(v, ns) == nn);
            assert(w.update(p, x) =~= overridden(v, ns) + nn) by {
                assert forall|i: int| 0 <= i < v.len() && i != p implies v[i].1 != x.1 by {}
            }
        } else {
            assert(!has_first(w, x.1)) by {
                if has_first(w, x.1) {
                    let q = slot_of(w, x.1);
                    if q < v.len() {
                        assert(v[q].1 == x.1);
                    }
                }
            }
            assert(new_names(v, ns) == nn.push(x));
            assert forall|i: int| 0 <= i < v.len() implies v[i].1 != x.1 by {}
            assert(overridden(v, ns) =~= o);
            assert(w.push(x) =~= overridden(v, ns) + nn.push(x));
        }
    }
}

/// Whether `o` is the slot `i`
pub open spec fn at_slot(o: Option<usize>, i: int) -> bool {
    o matches Some(j) && j == i
}

/// A table of methods of a class
#[derive(Debug)]
pub struct VTable {
    /// List of methods, ordered by index
    pub fullnames: Vec<MethodFullname>,
    /// Mapping from firstname to index
    pub index: StrMap<usize>,
}

impl VTable {
    /// The methods, by slot
    pub open spec fn names(&self) -> Seq<NameV> {
        fullnames_view(self.fullnames@)
    }

    /// The index maps each first name in the list to its slot, and nothing else
    pub open spec fn wf(&self) -> bool {
        &&& forall|i: int|
            0 <= i < self.fullnames@.len() ==> at_slot(#[trigger] self.index.spec_get(self.fullnames@[i].first_name@), i)
        &&& forall|k: Seq<char>|
            #[trigger] self.index.spec_get(k) is Some ==> self.index.spec_get(k).unwrap() < self.fullnames@.len()
                && self.fullnames@[self.index.spec_get(k).unwrap() as int].first_name@ == k
    }

    /// In a well-formed table, a first name is in the list iff the index has it, at its slot.
    pub proof fn lemma_index(&self, k: Seq<char>)
        requires
            self.wf(),
        ensures
            has_first(self.names(), k) == self.index.spec_get(k) is Some,
            has_first(self.names(), k) ==> slot_of(self.names(), k) == self.index.spec_get(k).unwrap() as int,
    {
        let v = self.names();
        if has_first(v, k) {
            let i = slot_of(v, k);
            assert(self.fullnames@[i].first_name@ == k);
        }
        if self.index.spec_get(k) is Some {
            let j = self.index.spec_get(k).unwrap() as int;
            assert(v[j].1 == k);
        }
    }

    /// Create an empty VTable
    pub fn null() -> (r: VTable)
        ensures
            r.wf(),
            r.names() == Seq::<NameV>::empty(),
    {
        let r = VTable { fullnames: Vec::new(), index: StrMap::new() };
        assert(r.names() =~= Seq::<NameV>::empty());
        r
    }

    /// A copy of this table
    fn copy(&self) -> (r: VTable)
        ensures
            r.names() == self.names(),
            forall|k: Seq<char>| #[trigger] r.index.spec_get(k) == self.index.spec_get(k),
            self.wf() ==> r.wf(),
    {
        let mut fullnames: Vec<MethodFullname> = Vec::new();
        let mut i: usize = 0;
        while i < self.fullnames.len()
            invariant
                0 <= i <= self.fullnames@.len(),
                fullnames@.len() == i,
                forall|j: int| 0 <= j < i ==> #[trigger] fullnames@[j]@ == self.fullnames@[j]@,
            decreases self.fullnames.len() - i,
        {
            fullnames.push(self.fullnames[i].copy());
            i += 1;
        }
        let mut entries: Vec<(String, usize)> = Vec::new();
        let mut j: usize = 0;
        while j < self.index.entries.len()
            invariant
                0 <= j <= self.index.entries@.len(),
                entries@.len() == j,
                forall|m: int|
                    0 <= m < j ==> #[trigger] entries@[m].0@ == self.index.entries@[m].0@ && entries@[m].1
                        == self.index.entries@[m].1,
            decreases self.index.entries.len() - j,
        {
            entries.push((copy_string(&self.index.entries[j].0), self.index.entries[j].1));
            j += 1;
        }
        let r = VTable { fullnames, index: StrMap { entries } };
        proof {
            assert(r.names() =~= self.names());
            assert forall|k: Seq<char>| #[trigger] r.index.spec_get(k) == self.index.spec_get(k) by {
                lemma_lookup_same_keys(r.index.entries@, self.index.entries@, k);
            }
            assert forall|m: int| 0 <= m < r.fullnames@.len() implies #[trigger] r.fullnames@[m].first_name@
                == self.fullnames@[m].first_name@ by {
                assert(r.fullnames@[m]@ == self.fullnames@[m]@);
            }
            if self.wf() {
                assert forall|m: int| 0 <= m < r.fullnames@.len() implies at_slot(#[trigger] r.index.spec_get(r.fullnames@[m].first_name@), m) by {
                    assert(r.fullnames@[m].first_name@ == self.fullnames@[m].first_name@);
                    assert(self.index.spec_get(self.fullnames@[m].first_name@) is Some);
                }
                assert forall|k: Seq<char>| #[trigger] r.index.spec_get(k) is Some implies r.index.spec_get(
                    k,
                ).unwrap() < r.fullnames@.len() && r.fullnames@[r.index.spec_get(k).unwrap() as int].first_name@
                    == k by {
                    assert(self.index.spec_get(k) is Some);
                    let j = self.index.spec_get(k).unwrap() as int;
                    assert(r.fullnames@[j].first_name@ == self.fullnames@[j].first_name@);
                }
            }
        }
        r
    }

    fn contains(&self, name: &MethodFirstname) -> (r: bool)
        requires
            self.wf(),
        ensures
            r == has_first(self.names(), name@),
    {
        proof { self.lemma_index(name@); }
        self.index.contains_key(name.0.as_str())
    }

    /// Put `name` in the slot of its first name, which must be in the table
    fn update(&mut self, name: MethodFullname)
        requires
            old(self).wf(),
            has_first(old(self).names(), name.first_name@),
        ensures
            final(self).wf(),
            final(self).names() == old(self).names().update(
                slot_of(old(self).names(), name.first_name@),
                name@,
            ),
            final(self).index == old(self).index,
    {
        proof { self.lemma_index(name.first_name@); }
        let i = *self.index.get(name.first_name.0.as_str()).unwrap();
        let ghost nv = name@;
        let ghost before = self.fullnames@;
        self.fullnames.set(i, name);
        proof {
            assert(self.names() =~= fullnames_view(before).update(i as int, nv));
            assert forall|m: int| 0 <= m < self.fullnames@.len() implies #[trigger] self.fullnames@[m].first_name@
                == before[m].first_name@ by {}
        }
    }

    /// Put `name` in a new slot at the end; its first name must not be in the table
    fn push(&mut self, name: MethodFullname)
        requires
            old(self).wf(),
            !has_first(old(self).names(), name.first_name@),
        ensures
            final(self).wf(),
            final(self).names() == old(self).names().push(name@),
            forall|k: Seq<char>|
                old(self).index.spec_get(k) is Some ==> #[trigger] final(self).index.spec_get(k) == old(
                    self,
                ).index.spec_get(k),
    {
        proof { self.lemma_index(name.first_name@); }
        let ghost before = self.fullnames@;
        let ghost k0 = name.first_name@;
        let ghost nv = name@;
        let i = self.fullnames.len();
        self.index.insert(copy_string(&name.first_name.0), i);
        self.fullnames.push(name);
        proof {
            assert(self.names() =~= fullnames_view(before).push(nv));
            assert forall|m: int| 0 <= m < self.fullnames@.len() implies #[trigger] self.index.spec_get(
                self.fullnames@[m].first_name@,
            ) == Some(m as usize) by {
                if m < before.len() {
                    assert(self.fullnames@[m] == before[m]);
                    assert(before[m].first_name@ != k0) by {
                        if before[m].first_name@ == k0 {
                            assert(fullnames_view(before)[m].1 == k0);
                        }
                    }
                }
            }
        }
    }

    /// Returns the index of the method, which must be in the table
    pub fn get(&self, name: &MethodFirstname) -> (r: &usize)
        requires
            self.wf(),
            self.index.spec_contains(name@),
        ensures
            self.index.spec_get(name@) == Some(*r),
            *r < self.names().len(),
            self.names()[*r as int].1 == name@,
    {
        self.index.get(name.0.as_str()).unwrap()
    }

    /// Returns the list of method names, ordered by the index.
    pub fn to_vec(&self) -> (r: &Vec<MethodFullname>)
        ensures
            r@ == self.fullnames@,
    {
        &self.fullnames
    }

    /// Build a VTable of a class: the slots of the superclass, overridden by the methods of the
    /// class of the same first names, then the other methods of the class in new slots
    pub fn build(super_vtable: &VTable, class: &SkClass) -> (r: VTable)
        requires
            super_vtable.wf(),
        ensures
            r.wf(),
            exists|ns: Seq<NameV>|
                method_listing(*class, ns) && r.names() == add_names(super_vtable.names(), ns),
            r.names().len() >= super_vtable.names().len(),
            forall|i: int|
                0 <= i < super_vtable.names().len() ==> (#[trigger] r.names()[i]).1
                    == super_vtable.names()[i].1,
            forall|k: Seq<char>|
                super_vtable.index.spec_get(k) is Some ==> #[trigger] r.index.spec_get(k)
                    == super_vtable.index.spec_get(k),
    {
        let mut vtable = super_vtable.copy();
        let names = class.method_names();
        let ghost ns = fullnames_view(names@);
        let ghost base = super_vtable.names();
        let mut i: usize = 0;
        assert(ns.take(0) =~= Seq::<NameV>::empty());
        while i < names.len()
            invariant
                ns == fullnames_view(names@),
                base == super_vtable.names(),
                0 <= i <= names@.len(),
                vtable.wf(),
                vtable.names() == add_names(base, ns.take(i as int)),
                vtable.names().len() >= base.len(),
                forall|m: int| 0 <= m < base.len() ==> (#[trigger] vtable.names()[m]).1 == base[m].1,
                forall|k: Seq<char>|
                    super_vtable.index.spec_get(k) is Some ==> #[trigger] vtable.index.spec_get(k)
                        == super_vtable.index.spec_get(k),
            decreases names.len() - i,
        {
            let name = names[i].copy();
            proof {
                assert(ns.take(i + 1).drop_last() =~= ns.take(i as int));
                assert(ns.take(i + 1).last() == ns[i as int]);
                assert(ns[i as int] == name@);
            }
            if vtable.contains(&name.first_name) {
                vtable.update(name);
            } else {
                vtable.push(name);
            }
            i += 1;
        }
        assert(ns.take(names@.len() as int) =~= ns);
        assert(method_listing(*class, ns));
        vtable
    }
}

/// The chain of superclasses from the class `name` of `m` has at most `n` links, and each class
/// on it is in `m`
pub open spec fn chain_in(m: SkClasses, name: Seq<char>, n: nat) -> bool
    decreases n,
{
    &&& m.spec_contains(name)
    &&& match m.spec_get(name).unwrap().superclass {
        Some(s) => n > 0 && chain_in(m, spec_erasure(s@), (n - 1) as nat),
        None => true,
    }
}

/// Every class of `m` has a finite chain of superclasses in `m`
pub open spec fn chains_in(m: SkClasses) -> bool {
    forall|k: Seq<char>| #[trigger] m.spec_contains(k) ==> exists|n: nat| chain_in(m, k, n)
}

/// The name of the superclass of the class `name` of `m`, if any
pub open spec fn super_name(m: SkClasses, name: Seq<char>) -> Option<Seq<char>> {
    match m.spec_get(name).unwrap().superclass {
        Some(s) => Some(spec_erasure(s@)),
        None => None,
    }
}

/// `vt` is the table built on the methods `sup` of the superclass for `class`
pub open spec fn built_on(vt: VTable, sup: Seq<NameV>, class: SkClass) -> bool {
    &&& vt.wf()
    &&& exists|ns: Seq<NameV>| method_listing(class, ns) && vt.names() == add_names(sup, ns)
}

/// A listing of the methods of a class whose first names are distinct has distinct first names
pub proof fn lemma_listing_distinct(class: SkClass, ns: Seq<NameV>)
    requires
        method_listing(class, ns),
        distinct_firsts(method_fullnames(class)),
    ensures
        distinct_firsts(ns),
{
    let names = method_fullnames(class);
    assert(names.no_duplicates()) by {
        assert forall|i: int, j: int| 0 <= i < names.len() && 0 <= j < names.len() && i != j implies names[i]
            != names[j] by {
            if i < j {
                assert(names[i].1 != names[j].1);
            } else {
                assert(names[j].1 != names[i].1);
            }
        }
    }
    names.lemma_multiset_has_no_duplicates();
    ns.lemma_multiset_has_no_duplicates_conv();
    assert forall|i: int, j: int| 0 <= i < j < ns.len() implies (#[trigger] ns[i]).1 != (#[trigger] ns[j]).1 by {
        if ns[i].1 == ns[j].1 {
            assert(ns[i] != ns[j]);
            vstd::seq_lib::to_multiset_contains(ns, ns[i]);
            vstd::seq_lib::to_multiset_contains(ns, ns[j]);
            vstd::seq_lib::to_multiset_contains(names, ns[i]);
            vstd::seq_lib::to_multiset_contains(names, ns[j]);
            assert(ns.contains(ns[i]));
            assert(ns.contains(ns[j]));
            let p = choose|p: int| 0 <= p < names.len() && names[p] == ns[i];
            let q = choose|q: int| 0 <= q < names.len() && names[q] == ns[j];
            if p < q {
                assert(names[p].1 != names[q].1);
            } else {
                assert(names[q].1 != names[p].1);
            }
        }
    }
}

/// A table built for `class` on the slots `sup` of its superclass, where neither repeats a
/// first name, keeps every slot of `sup`: it holds there the class's method of that first name
/// where the class has one and the superclass's method otherwise. The class's other methods
/// follow, in alphabetical order of their first names.
pub proof fn law_build_slots(vt: VTable, sup: Seq<NameV>, class: SkClass)
    requires
        built_on(vt, sup, class),
        distinct_firsts(sup),
        distinct_firsts(method_fullnames(class)),
    ensures
        exists|ns: Seq<NameV>|
            #![trigger method_listing(class, ns)]
            method_listing(class, ns) && vt.names() == overridden(sup, ns) + new_names(sup, ns)
                && sorted_by_first_name(new_names(sup, ns)),
{
    let ns = choose|ns: Seq<NameV>| method_listing(class, ns) && vt.names() == add_names(sup, ns);
    lemma_listing_distinct(class, ns);
    law_add_names_slots(sup, ns);
    lemma_new_names(sup, ns);
}

/// A table built for `class` on the null table, where the class repeats no first name, lists
/// the class's methods in alphabetical order of their first names, and its index gives each
/// method's slot.
pub proof fn law_build_on_null(vt: VTable, class: SkClass)
    requires
        built_on(vt, Seq::empty(), class),
        distinct_firsts(method_fullnames(class)),
    ensures
        method_listing(class, vt.names()),
        forall|i: int|
            0 <= i < vt.names().len() ==> #[trigger] vt.index.spec_get(vt.names()[i].1) == Some(i as usize),
{
    let ns = choose|ns: Seq<NameV>| method_listing(class, ns) && vt.names() == add_names(Seq::empty(), ns);
    lemma_listing_distinct(class, ns);
    law_build_on_empty(ns);
    assert forall|i: int| 0 <= i < vt.names().len() implies #[trigger] vt.index.spec_get(vt.names()[i].1)
        == Some(i as usize) by {
        assert(vt.names()[i].1 == vt.fullnames@[i].first_name@);
        assert(at_slot(vt.index.spec_get(vt.fullnames@[i].first_name@), i));
    }
}

/// The table of the class `k` in `c` is built on that of its superclass in `c` (or on the
/// empty table), for the class `k` of `m`
pub open spec fn entry_ok(c: StrMap<VTable>, m: SkClasses, k: Seq<char>) -> bool {
    &&& m.spec_contains(k)
    &&& match super_name(m, k) {
        Some(p) => c.spec_contains(p) && built_on(
            c.spec_get(k).unwrap(),
            c.spec_get(p).unwrap().names(),
            m.spec_get(k).unwrap(),
        ),
        None => built_on(c.spec_get(k).unwrap(), Seq::empty(), m.spec_get(k).unwrap()),
    }
}

/// Every table in `c` is built as `entry_ok` says
pub open spec fn tables_ok(c: StrMap<VTable>, m: SkClasses) -> bool {
    forall|k: Seq<char>| #[trigger] c.spec_contains(k) ==> entry_ok(c, m, k)
}

/// The tables of all classes
#[derive(Debug)]
pub struct VTables {
    pub contents: StrMap<VTable>,
}

impl VTables {
    /// The tables of all classes of `sk_classes`, each built on that of its superclass
    pub fn build(sk_classes: &SkClasses) -> (r: VTables)
        requires
            chains_in(*sk_classes),
        ensures
            tables_ok(r.contents, *sk_classes),
            forall|k: Seq<char>| #[trigger] sk_classes.spec_contains(k) == r.contents.spec_contains(k),
    {
        let mut contents: StrMap<VTable> = StrMap::new();
        let mut i: usize = 0;
        while i < sk_classes.entries.len()
            invariant
                chains_in(*sk_classes),
                0 <= i <= sk_classes.entries@.len(),
                tables_ok(contents, *sk_classes),
                forall|k: Seq<char>| #[trigger] contents.spec_contains(k) ==> sk_classes.spec_contains(k),
                forall|j: int| 0 <= j < i ==> contents.spec_contains(#[trigger] sk_classes.entries@[j].0@),
            decreases sk_classes.entries.len() - i,
        {
            let name = &sk_classes.entries[i].0;
            proof {
                crate::str_map::lemma_index_of(sk_classes.entries@, name@);
                assert(sk_classes.spec_contains(name@));
            }
            let ghost n = choose|n: nat| chain_in(*sk_classes, name@, n);
            let ghost before = contents;
            build_into(&mut contents, sk_classes, name.as_str(), Ghost(n));
            proof {
                assert forall|j: int| 0 <= j < i + 1 implies contents.spec_contains(
                    #[trigger] sk_classes.entries@[j].0@,
                ) by {
                    if j < i {
                        assert(before.spec_contains(sk_classes.entries@[j].0@));
                        assert(contents.spec_get(sk_classes.entries@[j].0@) == before.spec_get(
                            sk_classes.entries@[j].0@,
                        ));
                    }
                }
            }
            i += 1;
        }
        proof {
            assert forall|k: Seq<char>| #[trigger] sk_classes.spec_contains(k) implies contents.spec_contains(k) by {
                crate::str_map::lemma_index_of(sk_classes.entries@, k);
                let j = crate::str_map::index_of(sk_classes.entries@, k).unwrap();
                assert(contents.spec_contains(sk_classes.entries@[j].0@));
            }
        }
        VTables { contents }
    }

    // Return the index of the method when invoking it on the object
    pub fn method_idx(&self, obj_ty: &TermTy, method_name: &MethodFirstname) -> (r: &usize)
        requires
            self.contents.spec_get(obj_ty@.fullname) matches Some(vt) && vt.wf()
                && vt.index.spec_contains(method_name@),
        ensures
            self.contents.spec_get(obj_ty@.fullname).unwrap().index.spec_get(method_name@) == Some(*r),
    {
        let vtable = self.contents.get(obj_ty.fullname.0.as_str()).unwrap();
        vtable.get(method_name)
    }

    /// The tables, with the names of their classes
    pub fn iter(&self) -> (r: &Vec<(String, VTable)>)
        ensures
            r@ == self.contents.entries@,
    {
        &self.contents.entries
    }
}

/// Make sure that `contents` has the table of the class `name`, and those of its ancestors
fn build_into(contents: &mut StrMap<VTable>, sk_classes: &SkClasses, name: &str, Ghost(n): Ghost<nat>)
    requires
        chain_in(*sk_classes, name@, n),
        tables_ok(*old(contents), *sk_classes),
        forall|k: Seq<char>| #[trigger] old(contents).spec_contains(k) ==> sk_classes.spec_contains(k),
    ensures
        final(contents).spec_contains(name@),
        tables_ok(*final(contents), *sk_classes),
        forall|k: Seq<char>| #[trigger] final(contents).spec_contains(k) ==> sk_classes.spec_contains(k),
        forall|k: Seq<char>|
            old(contents).spec_contains(k) ==> #[trigger] final(contents).spec_get(k) == old(contents).spec_get(k),
    decreases n,
{
    if contents.contains_key(name) {
        return;
    }
    let class = sk_classes.get(name).unwrap();
    let vtable = match &class.superclass {
        Some(scls) => {
            let super_name = scls.ty().erasure();
            build_into(contents, sk_classes, super_name.0.as_str(), Ghost((n - 1) as nat));
            let super_vtable = contents.get(super_name.0.as_str()).unwrap();
            proof { assert(entry_ok(*contents, *sk_classes, super_name@)); }
            VTable::build(super_vtable, class)
        },
        None => {
            // The class Object does not have a superclass.
            let null_vtable = VTable::null();
            VTable::build(&null_vtable, class)
        },
    };
    if contents.contains_key(name) {
        return;
    }
    let ghost before = *contents;
    contents.insert(to_owned(name), vtable);
    proof {
        assert forall|k: Seq<char>| #[trigger] contents.spec_contains(k) implies entry_ok(*contents, *sk_classes, k) by {
            if k != name@ {
                assert(contents.spec_get(k) is Some);
                assert(before.spec_get(k) == contents.spec_get(k));
                assert(before.spec_contains(k));
                assert(entry_ok(before, *sk_classes, k));
                match super_name(*sk_classes, k) {
                    Some(p) => {
                        assert(before.spec_contains(p));
                        assert(p != name@);
                    },
                    None => {},
                }
            }
        }
    }
}

/// Putting methods keeps the slots that were there: their first names stay.
pub proof fn lemma_add_names_keeps_slots(v: Seq<NameV>, ns: Seq<NameV>)
    ensures
        add_names(v, ns).len() >= v.len(),
        forall|i: int| 0 <= i < v.len() ==> (#[trigger] add_names(v, ns)[i]).1 == v[i].1,
    decreases ns.len(),
{
    if ns.len() > 0 {
        lemma_add_names_keeps_slots(v, ns.drop_last());
        let w = add_names(v, ns.drop_last());
        let n = ns.last();
        if has_first(w, n.1) {
            let j = slot_of(w, n.1);
            assert(w[j].1 == n.1);
            assert forall|i: int| 0 <= i < v.len() implies (#[trigger] add_names(v, ns)[i]).1 == v[i].1 by {
                assert(add_names(v, ns) == w.update(j, n));
                if i == j {
                    assert(w[i].1 == v[i].1);
                } else {
                    assert(w.update(j, n)[i] == w[i]);
                }
            }
        } else {
            assert forall|i: int| 0 <= i < v.len() implies (#[trigger] add_names(v, ns)[i]).1 == v[i].1 by {
                assert(add_names(v, ns) == w.push(n));
                assert(w.push(n)[i] == w[i]);
            }
        }
    }
}

/// A method keeps its slot in the tables of subclasses: where the table of the superclass of
/// a class has a method, the table of the class has it at the same index.
pub proof fn law_slots_inherited(c: StrMap<VTable>, m: SkClasses, k: Seq<char>, meth: Seq<char>)
    requires
        tables_ok(c, m),
        c.spec_contains(k),
        super_name(m, k) is Some,
        c.spec_contains(super_name(m, k).unwrap()),
        c.spec_get(super_name(m, k).unwrap()).unwrap().index.spec_contains(meth),
    ensures
        c.spec_get(k).unwrap().index.spec_get(meth) == c.spec_get(super_name(m, k).unwrap()).unwrap().index.spec_get(
            meth,
        ),
{
    let p = super_name(m, k).unwrap();
    let vk = c.spec_get(k).unwrap();
    let vp = c.spec_get(p).unwrap();
    assert(entry_ok(c, m, k));
    assert(entry_ok(c, m, p));
    assert(vp.wf());
    assert(vk.wf());
    let ns = choose|ns: Seq<NameV>| method_listing(m.spec_get(k).unwrap(), ns) && vk.names() == add_names(vp.names(), ns);
    lemma_add_names_keeps_slots(vp.names(), ns);
    let j = vp.index.spec_get(meth).unwrap() as int;
    assert(vp.fullnames@[j].first_name@ == meth);
    assert(vp.names()[j].1 == meth);
    assert(vk.names()[j].1 == meth);
    assert(vk.fullnames@[j].first_name@ == meth);
    assert(at_slot(vk.index.spec_get(vk.fullnames@[j].first_name@), j));
}

/// Looking up in entries with the same keys and values.
proof fn lemma_lookup_same_keys(e1: Seq<(String, usize)>, e2: Seq<(String, usize)>, k: Seq<char>)
    requires
        e1.len() == e2.len(),
        forall|m: int| 0 <= m < e1.len() ==> #[trigger] e1[m].0@ == e2[m].0@ && e1[m].1 == e2[m].1,
    ensures
        crate::str_map::lookup(e1, k) == crate::str_map::lookup(e2, k),
    decreases e1.len(),
{
    if e1.len() > 0 {
        assert(e1[0].0@ == e2[0].0@);
        lemma_lookup_same_keys(e1.drop_first(), e2.drop_first(), k);
    }
}

} // verus!
