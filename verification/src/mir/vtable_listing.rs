//! The slots of tables built for classes: on the null table, and on a superclass's table.
use vstd::prelude::*;
use crate::hir::sk_class::{SkClass, lemma_seq_lt_irreflexive, lemma_seq_lt_transitive, method_fullnames, seq_lt, sorted_by_first_name};
use crate::mir::vtable::{
    NameV, VTable, add_names, built_on, distinct_firsts, has_first, law_add_names_slots, law_build_on_null,
    lemma_listing_distinct, lemma_new_names, method_listing, new_names, override_slot, overridden,
};

verus! {

/// Two different strings are ordered one way or the other
proof fn lemma_seq_lt_total(a: Seq<char>, b: Seq<char>)
    requires
        a != b,
    ensures
        seq_lt(a, b) || seq_lt(b, a),
    decreases a.len(),
{
    if a.len() == 0 && b.len() == 0 {
        assert(a =~= b);
    }
    if a.len() > 0 && b.len() > 0 && a[0] == b[0] {
        if a.drop_first() =~= b.drop_first() {
            assert(a =~= seq![a[0]] + a.drop_first());
            assert(b =~= seq![b[0]] + b.drop_first());
        } else {
            lemma_seq_lt_total(a.drop_first(), b.drop_first());
        }
    }
}

/// Two listings of the same methods, sorted by first name with no first name twice, are the
/// same
proof fn lemma_sorted_listing_unique(a: Seq<NameV>, b: Seq<NameV>)
    requires
        a.to_multiset() == b.to_multiset(),
        sorted_by_first_name(a),
        sorted_by_first_name(b),
        distinct_firsts(a),
        distinct_firsts(b),
    ensures
        a == b,
    decreases a.len(),
{
    broadcast use vstd::multiset::group_multiset_axioms;
    vstd::seq_lib::to_multiset_len(a);
    vstd::seq_lib::to_multiset_len(b);
    if a.len() > 0 {
        let n = a.len() - 1;
        let x = a.last();
        let y = b.last();
        vstd::seq_lib::to_multiset_contains(a, y);
        vstd::seq_lib::to_multiset_contains(b, x);
        vstd::seq_lib::to_multiset_contains(a, x);
        vstd::seq_lib::to_multiset_contains(b, y);
        assert(a.contains(x)) by {
            assert(a[n] == x);
        }
        assert(b.contains(y)) by {
            assert(b[n] == y);
        }
        if x != y {
            let j = choose|j: int| 0 <= j < b.len() && b[j] == x;
            let k = choose|k: int| 0 <= k < a.len() && a[k] == y;
            assert(b.len() == n + 1);
            assert(j != n && k != n);
            assert(b[j].1 != b[n].1);
            assert(a[k].1 != a[n].1);
            lemma_seq_lt_total(b[j].1, b[n].1);
            lemma_seq_lt_total(a[k].1, a[n].1);
            assert(seq_lt(x.1, y.1));
            assert(seq_lt(y.1, x.1));
            lemma_seq_lt_transitive(x.1, y.1, x.1);
            lemma_seq_lt_irreflexive(x.1);
        }
        let a2 = a.drop_last();
        let b2 = b.drop_last();
        assert(a2.push(x) =~= a);
        assert(b2.push(x) =~= b);
        vstd::seq_lib::to_multiset_build(a2, x);
        vstd::seq_lib::to_multiset_build(b2, x);
        assert(a2.to_multiset() =~= b2.to_multiset()) by {
            assert forall|e: NameV| a2.to_multiset().count(e) == b2.to_multiset().count(e) by {
                assert(a.to_multiset().count(e) == b.to_multiset().count(e));
            }
        }
        lemma_sorted_listing_unique(a2, b2);
    }
}

/// A table built on the null table for a class that repeats no first name lists the methods
/// exactly as any listing of the class's methods sorted by first name does, such as the one
/// `SkClass::method_names` returns.
pub proof fn law_build_on_null_lists_method_names(vt: VTable, class: SkClass, names: Seq<NameV>)
    requires
        built_on(vt, Seq::empty(), class),
        distinct_firsts(method_fullnames(class)),
        method_listing(class, names),
    ensures
        vt.names() == names,
{
    law_build_on_null(vt, class);
    lemma_listing_distinct(class, names);
    lemma_listing_distinct(class, vt.names());
    lemma_sorted_listing_unique(vt.names(), names);
}

/// Each method of `ns` whose first name is not in `v` is among the new methods
proof fn lemma_new_names_complete(v: Seq<NameV>, ns: Seq<NameV>)
    ensures
        forall|j: int|
            0 <= j < ns.len() && !has_first(v, ns[j].1) ==> exists|i: int|
                0 <= i < new_names(v, ns).len() && #[trigger] new_names(v, ns)[i] == ns[j],
    decreases ns.len(),
{
    if ns.len() > 0 {
        let d = ns.drop_last();
        lemma_new_names_complete(v, d);
        let rest = new_names(v, d);
        let w = new_names(v, ns);
        assert forall|j: int| 0 <= j < ns.len() && !has_first(v, ns[j].1) implies exists|i: int|
            0 <= i < w.len() && #[trigger] w[i] == ns[j] by {
            if j < d.len() {
                assert(ns[j] == d[j]);
                let i = choose|i: int| 0 <= i < rest.len() && #[trigger] rest[i] == d[j];
                assert(w[i] == rest[i]);
            } else {
                assert(w[w.len() - 1] == ns[j]);
            }
        }
    }
}

/// Each new method is a method of `ns` whose first name is not in `sup`
#[verifier::opaque]
pub open spec fn new_from_unlisted(sup: Seq<NameV>, ns: Seq<NameV>) -> bool {
    forall|i: int|
        0 <= i < new_names(sup, ns).len() ==> exists|j: int|
            0 <= j < ns.len() && #[trigger] new_names(sup, ns)[i] == ns[j] && !has_first(sup, ns[j].1)
}

/// Each method of `ns` whose first name is not in `sup` is a new method
#[verifier::opaque]
pub open spec fn unlisted_are_new(sup: Seq<NameV>, ns: Seq<NameV>) -> bool {
    forall|j: int|
        0 <= j < ns.len() && !has_first(sup, ns[j].1) ==> exists|i: int|
            0 <= i < new_names(sup, ns).len() && #[trigger] new_names(sup, ns)[i] == ns[j]
}

/// The slots `names` of a table built on the slots `sup` for a class whose methods `ns` lists:
/// a slot for each slot of `sup` and for each method of `ns` whose first name is not in `sup`.
/// Slot `i` of `sup` holds the method of `ns` of that first name where there is one, and
/// `sup[i]` otherwise. The later slots hold exactly the other methods of `ns`, sorted by first
/// name.
pub open spec fn slots_of_build(names: Seq<NameV>, sup: Seq<NameV>, ns: Seq<NameV>) -> bool {
    let new = new_names(sup, ns);
    &&& names.len() == sup.len() + new.len()
    &&& forall|i: int| 0 <= i < sup.len() ==> #[trigger] names[i] == override_slot(sup[i], ns)
    &&& names.skip(sup.len() as int) == new
    &&& new_from_unlisted(sup, ns)
    &&& unlisted_are_new(sup, ns)
    &&& sorted_by_first_name(new)
}

/// Putting sorted methods with distinct first names into slots with distinct first names gives
/// the slots that `slots_of_build` says
proof fn lemma_slots_of_build(sup: Seq<NameV>, ns: Seq<NameV>)
    requires
        distinct_firsts(sup),
        distinct_firsts(ns),
        sorted_by_first_name(ns),
    ensures
        slots_of_build(add_names(sup, ns), sup, ns),
{
    lemma_slots_a(sup, ns);
    assert(sorted_by_first_name(new_names(sup, ns))) by {
        lemma_new_names(sup, ns);
    }
    assert(new_from_unlisted(sup, ns)) by {
        reveal(new_from_unlisted);
        lemma_new_names(sup, ns);
    }
    assert(unlisted_are_new(sup, ns)) by {
        reveal(unlisted_are_new);
        lemma_new_names_complete(sup, ns);
    }
}

/// The slots of `sup` overridden, then the new ones
proof fn lemma_slots_a(sup: Seq<NameV>, ns: Seq<NameV>)
    requires
        distinct_firsts(sup),
        distinct_firsts(ns),
    ensures
        add_names(sup, ns).len() == sup.len() + new_names(sup, ns).len(),
        forall|i: int| 0 <= i < sup.len() ==> #[trigger] add_names(sup, ns)[i] == override_slot(sup[i], ns),
        add_names(sup, ns).skip(sup.len() as int) == new_names(sup, ns),
{
    let o = overridden(sup, ns);
    let new = new_names(sup, ns);
    law_add_names_slots(sup, ns);
    let names = add_names(sup, ns);
    assert forall|i: int| 0 <= i < sup.len() implies #[trigger] names[i] == override_slot(sup[i], ns) by {
        assert(names[i] == o[i]);
    }
    assert(names.skip(sup.len() as int) =~= new);
}

/// A table built for `class` on the slots `sup` of its superclass, where neither repeats a
/// first name, is well formed, and its slots are as `slots_of_build` says for the class's
/// methods sorted by first name.
pub proof fn law_build(vt: VTable, sup: Seq<NameV>, class: SkClass)
    requires
        built_on(vt, sup, class),
        distinct_firsts(sup),
        distinct_firsts(method_fullnames(class)),
    ensures
        vt.wf(),
        exists|ns: Seq<NameV>| #[trigger] method_listing(class, ns) && slots_of_build(vt.names(), sup, ns),
{
    let ns = choose|ns: Seq<NameV>| method_listing(class, ns) && vt.names() == add_names(sup, ns);
    lemma_listing_distinct(class, ns);
    lemma_slots_of_build(sup, ns);
}

} // verus!
