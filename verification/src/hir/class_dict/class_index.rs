//! The names of all the classes of a program, with their type parameters.
use vstd::prelude::*;
use crate::ast;
use crate::ast::Definition;
use crate::hir::sk_class::SkClasses;
use crate::names::{ClassFirstname, Namespace, sep2};
use crate::str_map::{StrMap, lookup_last};
use crate::strs::{copy_string, seq_join, strings_view};
use crate::ty::TyParam;

verus! {

/// Set of pair of class name and its typaram names
pub type ClassIndex = StrMap<Vec<TyParam>>;

/// The names of type parameters
pub open spec fn typaram_names(v: Seq<TyParam>) -> Seq<Seq<char>> {
    Seq::new(v.len(), |i: int| v[i]@)
}

/// A class index, viewed: the type parameter names of each class
pub open spec fn cindex_view(c: ClassIndex) -> Map<Seq<char>, Seq<Seq<char>>> {
    Map::new(|k: Seq<char>| c.spec_contains(k), |k: Seq<char>| typaram_names(c.spec_get(k).unwrap()@))
}

/// The full name of the class `name` in the namespace `ns`
pub open spec fn ns_fullname(ns: Seq<Seq<char>>, name: Seq<char>) -> Seq<char> {
    if ns.len() == 0 {
        name
    } else {
        seq_join(ns, sep2()) + sep2() + name
    }
}

/// The classes of `m`, each with its type parameters (of its last entry)
pub open spec fn classes_index(m: SkClasses) -> Map<Seq<char>, Seq<Seq<char>>> {
    Map::new(
        |k: Seq<char>| m.spec_contains(k),
        |k: Seq<char>| typaram_names(lookup_last(m.entries@, k).unwrap().typarams@),
    )
}

/// `st` with the enum `name` of the namespace `ns` and its cases, all with the type
/// parameters `tps`
pub open spec fn enum_index(
    st: Map<Seq<char>, Seq<Seq<char>>>,
    ns: Seq<Seq<char>>,
    name: Seq<char>,
    tps: Seq<Seq<char>>,
    cases: Seq<ast::EnumCase>,
) -> Map<Seq<char>, Seq<Seq<char>>>
    decreases cases.len(),
{
    if cases.len() == 0 {
        st.insert(ns_fullname(ns, name), tps)
    } else {
        enum_index(st, ns, name, tps, cases.drop_last()).insert(ns_fullname(ns.push(name), cases.last().name@), tps)
    }
}

/// `st` with the classes and enums that `defs[i..]` define in the namespace `ns`, nested ones
/// included, each with its type parameters
pub open spec fn defs_index(st: Map<Seq<char>, Seq<Seq<char>>>, ns: Seq<Seq<char>>, defs: Seq<Definition>, i: int) -> Map<
    Seq<char>,
    Seq<Seq<char>>,
>
    decreases defs, defs.len() - i,
{
    if i < 0 || i >= defs.len() {
        st
    } else {
        let st1 = match defs[i] {
            Definition::ClassDefinition { name, typarams, defs: inner, .. } => {
                proof {
                    assert(decreases_to!(defs => defs[i]));
                    assert(decreases_to!(defs[i] => inner));
                    assert(decreases_to!(inner => inner@));
                }
                defs_index(st.insert(ns_fullname(ns, name@), strings_view(typarams@)), ns.push(name@), inner@, 0)
            },
            Definition::EnumDefinition { name, typarams, cases } => enum_index(
                st,
                ns,
                name@,
                strings_view(typarams@),
                cases@,
            ),
            _ => st,
        };
        defs_index(st1, ns, defs, i + 1)
    }
}

/// Type parameters named as `names`
pub(crate) fn typarams_of(names: &Vec<String>) -> (r: Vec<TyParam>)
    ensures
        typaram_names(r@) == strings_view(names@),
{
    let mut r: Vec<TyParam> = Vec::new();
    let mut i: usize = 0;
    while i < names.len()
        invariant
            0 <= i <= names@.len(),
            typaram_names(r@) =~= strings_view(names@).take(i as int),
        decreases names.len() - i,
    {
        r.push(TyParam { name: copy_string(&names[i]) });
        proof {
            assert(strings_view(names@).take(i + 1) =~= strings_view(names@).take(i as int).push(names@[i as int]@));
        }
        i += 1;
    }
    assert(strings_view(names@).take(names@.len() as int) =~= strings_view(names@));
    r
}

/// Copies of type parameters
fn copy_typarams(v: &Vec<TyParam>) -> (r: Vec<TyParam>)
    ensures
        typaram_names(r@) == typaram_names(v@),
{
    let mut r: Vec<TyParam> = Vec::new();
    let mut i: usize = 0;
    while i < v.len()
        invariant
            0 <= i <= v@.len(),
            typaram_names(r@) =~= typaram_names(v@).take(i as int),
        decreases v.len() - i,
    {
        r.push(v[i].copy());
        proof {
            assert(typaram_names(v@).take(i + 1) =~= typaram_names(v@).take(i as int).push(v@[i as int]@));
        }
        i += 1;
    }
    assert(typaram_names(v@).take(v@.len() as int) =~= typaram_names(v@));
    r
}

/// Set the type parameters of `name`
fn put(cindex: &mut ClassIndex, name: String, typarams: Vec<TyParam>)
    ensures
        cindex_view(*final(cindex)) == cindex_view(*old(cindex)).insert(name@, typaram_names(typarams@)),
{
    let ghost n = name@;
    let ghost t = typarams;
    cindex.insert(name, typarams);
    proof {
        assert forall|k: Seq<char>| #[trigger] cindex_view(*cindex).contains_key(k) == cindex_view(
            *old(cindex),
        ).insert(n, typaram_names(t@)).contains_key(k) by {
            assert(cindex.spec_get(k) == (if k == n { Some(t) } else { old(cindex).spec_get(k) }));
        }
        assert forall|k: Seq<char>| #[trigger] cindex_view(*cindex).contains_key(k) implies cindex_view(*cindex)[k]
            == cindex_view(*old(cindex)).insert(n, typaram_names(t@))[k] by {
            assert(cindex.spec_get(k) == (if k == n { Some(t) } else { old(cindex).spec_get(k) }));
        }
        assert(cindex_view(*cindex) =~= cindex_view(*old(cindex)).insert(n, typaram_names(t@)));
    }
}

/// Collect class names in the program
pub fn create(toplevel_defs: &Vec<Definition>, initial_sk_classes: &SkClasses, imported_classes: &SkClasses) -> (r:
    ClassIndex)
    ensures
        cindex_view(r) == defs_index(
            classes_index(*initial_sk_classes).union_prefer_right(classes_index(*imported_classes)),
            Seq::empty(),
            toplevel_defs@,
            0,
        ),
{
    let mut cindex: ClassIndex = StrMap::new();
    assert(cindex_view(cindex) =~= Map::<Seq<char>, Seq<Seq<char>>>::empty());
    index_sk_classes(&mut cindex, initial_sk_classes);
    assert(cindex_view(cindex) =~= classes_index(*initial_sk_classes));
    index_sk_classes(&mut cindex, imported_classes);
    index_toplevel_defs(&mut cindex, toplevel_defs);
    cindex
}

fn index_sk_classes(cindex: &mut ClassIndex, sk_classes: &SkClasses)
    ensures
        cindex_view(*final(cindex)) == cindex_view(*old(cindex)).union_prefer_right(classes_index(*sk_classes)),
{
    let ghost e = sk_classes.entries@;
    let ghost start = cindex_view(*cindex);
    let mut i: usize = 0;
    proof {
        assert(start.union_prefer_right(Map::new(
            |k: Seq<char>| lookup_last(e.take(0), k) is Some,
            |k: Seq<char>| typaram_names(lookup_last(e.take(0), k).unwrap().typarams@),
        )) =~= start);
    }
    while i < sk_classes.entries.len()
        invariant
            e == sk_classes.entries@,
            0 <= i <= e.len(),
            start == cindex_view(*old(cindex)),
            cindex_view(*cindex) == start.union_prefer_right(
                Map::new(
                    |k: Seq<char>| lookup_last(e.take(i as int), k) is Some,
                    |k: Seq<char>| typaram_names(lookup_last(e.take(i as int), k).unwrap().typarams@),
                ),
            ),
        decreases e.len() - i,
    {
        let name = copy_string(&sk_classes.entries[i].0);
        let tps = copy_typarams(&sk_classes.entries[i].1.typarams);
        let ghost before = cindex_view(*cindex);
        put(cindex, name, tps);
        proof {
            let t = e.take(i + 1);
            assert(t.drop_last() =~= e.take(i as int));
            assert(t.last() == e[i as int]);
            assert(cindex_view(*cindex) =~= start.union_prefer_right(
                Map::new(
                    |k: Seq<char>| lookup_last(t, k) is Some,
                    |k: Seq<char>| typaram_names(lookup_last(t, k).unwrap().typarams@),
                ),
            ));
        }
        i += 1;
    }
    proof {
        assert(e.take(e.len() as int) =~= e);
        assert forall|k: Seq<char>| #[trigger] sk_classes.spec_contains(k) == (lookup_last(e, k) is Some) by {
            crate::str_map::lemma_index_of(e, k);
            lemma_lookup_last_some(e, k);
        }
        assert(cindex_view(*cindex) =~= start.union_prefer_right(classes_index(*sk_classes)));
    }
}

/// Some entry has the key iff the last one with it exists.
proof fn lemma_lookup_last_some<V>(e: Seq<(String, V)>, k: Seq<char>)
    ensures
        (lookup_last(e, k) is Some) == (exists|j: int| 0 <= j < e.len() && e[j].0@ == k),
    decreases e.len(),
{
    if e.len() > 0 {
        lemma_lookup_last_some(e.drop_last(), k);
        if lookup_last(e, k) is Some && e.last().0@ != k {
            let j = choose|j: int| 0 <= j < e.drop_last().len() && e.drop_last()[j].0@ == k;
            assert(e[j] == e.drop_last()[j]);
        }
        if e.last().0@ == k {
            assert(e[e.len() - 1] == e.last());
        } else if exists|j: int| 0 <= j < e.len() && e[j].0@ == k {
            let j = choose|j: int| 0 <= j < e.len() && e[j].0@ == k;
            assert(j != e.len() - 1);
            assert(e.drop_last()[j] == e[j]);
        }
    }
}

fn index_toplevel_defs(cindex: &mut ClassIndex, toplevel_defs: &Vec<Definition>)
    ensures
        cindex_view(*final(cindex)) == defs_index(cindex_view(*old(cindex)), Seq::empty(), toplevel_defs@, 0),
{
    let namespace = Namespace::root();
    assert(namespace@ =~= Seq::<Seq<char>>::empty());
    index_defs(cindex, &namespace, toplevel_defs);
}

/// Index the classes and enums of `defs`, in the namespace `namespace`
fn index_defs(cindex: &mut ClassIndex, namespace: &Namespace, defs: &Vec<Definition>)
    ensures
        cindex_view(*final(cindex)) == defs_index(cindex_view(*old(cindex)), namespace@, defs@, 0),
    decreases defs@, 1nat,
{
    let ghost d = defs@;
    let ghost start = cindex_view(*cindex);
    let mut i: usize = 0;
    while i < defs.len()
        invariant
            d == defs@,
            0 <= i <= d.len(),
            start == cindex_view(*old(cindex)),
            defs_index(start, namespace@, d, 0) == defs_index(cindex_view(*cindex), namespace@, d, i as int),
        decreases d.len() - i,
    {
        proof {
            assert(decreases_to!(defs@ => defs@[i as int]));
        }
        match &defs[i] {
            Definition::ClassDefinition { name, typarams, defs: inner, .. } => {
                proof {
                    assert(decreases_to!(defs@[i as int] => *inner));
                    assert(decreases_to!(*inner => inner@));
                }
                index_class(cindex, namespace, name, typarams, inner);
            },
            Definition::EnumDefinition { name, typarams, cases, .. } => {
                index_enum(cindex, namespace, name, typarams, cases);
            },
            _ => {},
        }
        i += 1;
    }
}

fn index_class(
    cindex: &mut ClassIndex,
    namespace: &Namespace,
    firstname: &ClassFirstname,
    typarams: &Vec<String>,
    defs: &Vec<Definition>,
)
    ensures
        cindex_view(*final(cindex)) == defs_index(
            cindex_view(*old(cindex)).insert(ns_fullname(namespace@, firstname@), strings_view(typarams@)),
            namespace@.push(firstname@),
            defs@,
            0,
        ),
    decreases defs@, 2nat,
{
    let fullname = namespace.class_fullname(firstname);
    put(cindex, fullname.0, typarams_of(typarams));
    let inner_namespace = namespace.add(firstname);
    index_defs(cindex, &inner_namespace, defs);
}

fn index_enum(
    cindex: &mut ClassIndex,
    namespace: &Namespace,
    firstname: &ClassFirstname,
    typarams: &Vec<String>,
    cases: &Vec<ast::EnumCase>,
)
    ensures
        cindex_view(*final(cindex)) == enum_index(
            cindex_view(*old(cindex)),
            namespace@,
            firstname@,
            strings_view(typarams@),
            cases@,
        ),
{
    let fullname = namespace.class_fullname(firstname);
    put(cindex, fullname.0, typarams_of(typarams));
    let inner_namespace = namespace.add(firstname);
    let mut i: usize = 0;
    let ghost st = cindex_view(*old(cindex));
    assert(cases@.take(0) =~= Seq::<ast::EnumCase>::empty());
    while i < cases.len()
        invariant
            0 <= i <= cases@.len(),
            st == cindex_view(*old(cindex)),
            inner_namespace@ == namespace@.push(firstname@),
            cindex_view(*cindex) == enum_index(st, namespace@, firstname@, strings_view(typarams@), cases@.take(i as int)),
        decreases cases.len() - i,
    {
        let case_fullname = inner_namespace.class_fullname(&cases[i].name);
        put(cindex, case_fullname.0, typarams_of(typarams));
        proof {
            assert(cases@.take(i + 1).drop_last() =~= cases@.take(i as int));
            assert(cases@.take(i + 1).last() == cases@[i as int]);
        }
        i += 1;
    }
    assert(cases@.take(cases@.len() as int) =~= cases@);
}

} // verus!
