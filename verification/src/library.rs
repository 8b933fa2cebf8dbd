//! What a library exports to the programs that use it.
use vstd::prelude::*;
use crate::hir::Hir;
use crate::hir::class_dict::class_index::typaram_names;
use crate::hir::class_dict::indexing::{ClassesV, lemma_own_update};
use crate::hir::class_dict::views::{ClassV, class_view, classes_view};
use crate::hir::index::sigs_map;
use crate::hir::signature::{MethodSignature, SigV};
use crate::hir::sk_class::{SkClass, SkClasses, copy_typarams};
use crate::hir::superclass::Superclass;
use crate::names::ClassFullname;
use crate::str_map::{StrMap, lemma_lookup_last_unique, lemma_lookup_same_views, lookup, lookup_last, unique_keys};
use crate::strs::copy_string;
use crate::ty::{TermTy, TyParam, TyV};

verus! {

/// The items that a program imports from a library: its classes and constants
pub struct ImportedItems {
    pub sk_classes: SkClasses,
    pub constants: StrMap<TermTy>,
}

/// What a library exports: its classes and constants
#[derive(Debug)]
pub struct LibraryExports {
    pub classes: Vec<ClassInfo>,
    pub constants: StrMap<TermTy>,
}

/// What a library exports of a class
#[derive(Debug)]
pub struct ClassInfo {
    pub name: ClassFullname,
    pub typarams: Vec<TyParam>,
    pub superclass: Option<Superclass>,
    pub instance_ty: TermTy,
    pub method_sigs: StrMap<MethodSignature>,
    pub is_final: Option<bool>,
    pub const_is_obj: bool,
}

/// The types of a map of types, by name
pub open spec fn tys_map(m: StrMap<TermTy>) -> Map<Seq<char>, TyV> {
    Map::new(|k: Seq<char>| m.spec_contains(k), |k: Seq<char>| m.spec_get(k).unwrap()@)
}

/// `i` describes the class `c`
pub open spec fn info_of(i: ClassInfo, c: SkClass) -> bool {
    &&& i.name@ == c.fullname@
    &&& typaram_names(i.typarams@) == typaram_names(c.typarams@)
    &&& match (i.superclass, c.superclass) {
        (Some(a), Some(b)) => a@ == b@,
        (None, None) => true,
        _ => false,
    }
    &&& i.instance_ty@ == c.instance_ty@
    &&& sigs_map(i.method_sigs) == sigs_map(c.method_sigs)
    &&& i.is_final == c.is_final
    &&& i.const_is_obj == c.const_is_obj
}

/// The class that `i` describes, as an imported one: it has no instance variables
pub open spec fn extracted_v(i: ClassInfo) -> ClassV {
    ClassV {
        fullname: i.name@,
        typarams: typaram_names(i.typarams@),
        superclass: match i.superclass {
            Some(s) => Some(s@),
            None => None,
        },
        instance_ty: i.instance_ty@,
        ivars: Map::empty(),
        methods: sigs_map(i.method_sigs),
        is_final: i.is_final,
        const_is_obj: i.const_is_obj,
        foreign: true,
    }
}

/// The classes that `infos` describe, by name; a later one replaces an earlier one of the
/// same name
pub open spec fn imported_v(infos: Seq<ClassInfo>) -> ClassesV
    decreases infos.len(),
{
    if infos.len() == 0 {
        Map::empty()
    } else {
        imported_v(infos.drop_last()).insert(infos.last().name@, extracted_v(infos.last()))
    }
}

/// What a library exports of a class, imported again, is that class without its instance
/// variables, marked as imported.
pub proof fn law_export_then_import(i: ClassInfo, c: SkClass)
    requires
        info_of(i, c),
    ensures
        extracted_v(i) == as_imported(class_view(c)),
{
    assert(extracted_v(i).methods =~= class_view(c).methods);
}

/// The class `c` as a program that imports it sees it: without instance variables, marked as
/// imported
pub open spec fn as_imported(c: ClassV) -> ClassV {
    ClassV { ivars: Map::empty(), foreign: true, ..c }
}

/// Classes described one by one, each filed under its own name, are imported under the names
/// of their last entries, as those classes seen from outside
proof fn lemma_imported_entries(infos: Seq<ClassInfo>, e: Seq<(String, SkClass)>)
    requires
        infos.len() == e.len(),
        forall|i: int| 0 <= i < infos.len() ==> info_of(#[trigger] infos[i], e[i].1),
        forall|i: int| 0 <= i < e.len() ==> (#[trigger] e[i]).0@ == e[i].1.fullname@,
    ensures
        forall|k: Seq<char>| #[trigger] imported_v(infos).contains_key(k) == (lookup_last(e, k) is Some),
        forall|k: Seq<char>|
            #[trigger] imported_v(infos).contains_key(k) ==> imported_v(infos)[k] == as_imported(
                class_view(lookup_last(e, k).unwrap()),
            ),
    decreases infos.len(),
{
    if infos.len() > 0 {
        let d = infos.drop_last();
        let de = e.drop_last();
        assert forall|i: int| 0 <= i < d.len() implies info_of(#[trigger] d[i], de[i].1) by {
            assert(info_of(infos[i], e[i].1));
        }
        assert forall|i: int| 0 <= i < de.len() implies (#[trigger] de[i]).0@ == de[i].1.fullname@ by {
            assert(e[i].0@ == e[i].1.fullname@);
        }
        lemma_imported_entries(d, de);
        let last = infos.len() - 1;
        assert(info_of(infos[last], e[last].1));
        law_export_then_import(infos[last], e[last].1);
        assert(e.last().0@ == infos.last().name@);
    }
}

/// Importing what a program exports gives back its classes under the same names, each
/// without its instance variables and marked as imported, where each class is filed under its
/// own name and no name is filed twice.
pub proof fn law_import_exported_classes(infos: Seq<ClassInfo>, m: SkClasses)
    requires
        infos.len() == m.entries@.len(),
        forall|i: int| 0 <= i < infos.len() ==> info_of(#[trigger] infos[i], m.entries@[i].1),
        forall|i: int| 0 <= i < m.entries@.len() ==> (#[trigger] m.entries@[i]).0@ == m.entries@[i].1.fullname@,
        m.wf(),
    ensures
        imported_v(infos).dom() == classes_view(m).dom(),
        forall|k: Seq<char>|
            #[trigger] classes_view(m).contains_key(k) ==> imported_v(infos)[k] == as_imported(classes_view(m)[k]),
{
    lemma_imported_entries(infos, m.entries@);
    assert forall|k: Seq<char>| #[trigger] imported_v(infos).contains_key(k) == classes_view(m).contains_key(k) by {
        lemma_lookup_last_unique(m.entries@, k);
    }
    assert(imported_v(infos).dom() =~= classes_view(m).dom());
    assert forall|k: Seq<char>| #[trigger] classes_view(m).contains_key(k) implies imported_v(infos)[k]
        == as_imported(classes_view(m)[k]) by {
        lemma_lookup_last_unique(m.entries@, k);
    }
}

/// A copy of a map of signatures
fn copy_sigs(m: &StrMap<MethodSignature>) -> (r: StrMap<MethodSignature>)
    ensures
        sigs_map(r) == sigs_map(*m),
{
    let mut r: StrMap<MethodSignature> = StrMap { entries: Vec::new() };
    let mut i: usize = 0;
    while i < m.entries.len()
        invariant
            0 <= i <= m.entries@.len(),
            r.entries@.len() == i,
            forall|j: int| 0 <= j < i ==> (#[trigger] r.entries@[j]).0@ == m.entries@[j].0@ && r.entries@[j].1@ == m.entries@[j].1@,
        decreases m.entries.len() - i,
    {
        r.entries.push((copy_string(&m.entries[i].0), m.entries[i].1.copy()));
        i += 1;
    }
    proof {
        assert forall|k: Seq<char>| #![auto] lookup(r.entries@, k) is Some == lookup(m.entries@, k) is Some && (lookup(
            r.entries@,
            k,
        ) is Some ==> lookup(r.entries@, k).unwrap()@ == lookup(m.entries@, k).unwrap()@) by {
            lemma_lookup_same_views(r.entries@, m.entries@, k);
        }
        assert(sigs_map(r) =~= sigs_map(*m));
    }
    r
}

/// A copy of a map of types
fn copy_tys(m: &StrMap<TermTy>) -> (r: StrMap<TermTy>)
    ensures
        tys_map(r) == tys_map(*m),
{
    let mut r: StrMap<TermTy> = StrMap { entries: Vec::new() };
    let mut i: usize = 0;
    while i < m.entries.len()
        invariant
            0 <= i <= m.entries@.len(),
            r.entries@.len() == i,
            forall|j: int| 0 <= j < i ==> (#[trigger] r.entries@[j]).0@ == m.entries@[j].0@ && r.entries@[j].1@ == m.entries@[j].1@,
        decreases m.entries.len() - i,
    {
        r.entries.push((copy_string(&m.entries[i].0), m.entries[i].1.copy()));
        i += 1;
    }
    proof {
        assert forall|k: Seq<char>| #![auto] lookup(r.entries@, k) is Some == lookup(m.entries@, k) is Some && (lookup(
            r.entries@,
            k,
        ) is Some ==> lookup(r.entries@, k).unwrap()@ == lookup(m.entries@, k).unwrap()@) by {
            lemma_lookup_same_views(r.entries@, m.entries@, k);
        }
        assert(tys_map(r) =~= tys_map(*m));
    }
    r
}

impl LibraryExports {
    /// What the program `hir` exports: each of its classes, in order, and its constants
    pub fn new(hir: &Hir) -> (r: LibraryExports)
        ensures
            r.classes@.len() == hir.sk_classes.entries@.len(),
            forall|i: int| 0 <= i < r.classes@.len() ==> info_of(#[trigger] r.classes@[i], hir.sk_classes.entries@[i].1),
            tys_map(r.constants) == tys_map(hir.constants),
    {
        let mut classes: Vec<ClassInfo> = Vec::new();
        let mut i: usize = 0;
        while i < hir.sk_classes.entries.len()
            invariant
                0 <= i <= hir.sk_classes.entries@.len(),
                classes@.len() == i,
                forall|j: int| 0 <= j < i ==> info_of(#[trigger] classes@[j], hir.sk_classes.entries@[j].1),
            decreases hir.sk_classes.entries.len() - i,
        {
            classes.push(ClassInfo::new(&hir.sk_classes.entries[i].1));
            i += 1;
        }
        LibraryExports { classes, constants: copy_tys(&hir.constants) }
    }

    /// The items that a program imports from this library
    pub fn into_imported_items(self) -> (r: ImportedItems)
        ensures
            classes_view(r.sk_classes) == imported_v(self.classes@),
            r.constants == self.constants,
    {
        let ghost orig = self.classes@;
        let LibraryExports { classes, constants } = self;
        let mut sk_classes: SkClasses = StrMap::new();
        assert(classes_view(sk_classes) =~= Map::<Seq<char>, ClassV>::empty());
        let mut classes = classes;
        let ghost mut i: int = 0;
        assert(orig.skip(0) =~= orig);
        while classes.len() > 0
            invariant
                0 <= i <= orig.len(),
                classes@ == orig.skip(i),
                classes_view(sk_classes) == imported_v(orig.take(i)),
            decreases classes.len(),
        {
            assert(classes@.len() == orig.len() - i);
            let cls_info = classes.remove(0);
            proof {
                assert(orig.skip(i)[0] == orig[i]);
                assert(orig.skip(i).drop_first() =~= orig.skip(i + 1));
                assert(orig.take(i + 1).drop_last() =~= orig.take(i));
                assert(orig.take(i + 1).last() == orig[i]);
            }
            let ghost info = cls_info;
            let class = cls_info.extract();
            let ghost cv = class;
            let ghost a = sk_classes;
            let name = copy_string(&class.fullname.0);
            sk_classes.insert(name, class);
            proof {
                lemma_own_update(a, sk_classes, info.name@, cv);
                i = i + 1;
            }
        }
        assert(orig.take(orig.len() as int) =~= orig);
        ImportedItems { sk_classes, constants }
    }
}

impl ClassInfo {
    /// What a library exports of the class `sk_class`
    pub fn new(sk_class: &SkClass) -> (r: ClassInfo)
        ensures
            info_of(r, *sk_class),
    {
        let typarams = copy_typarams(&sk_class.typarams);
        assert(typaram_names(typarams@) =~= typaram_names(sk_class.typarams@));
        ClassInfo {
            name: sk_class.fullname.copy(),
            typarams,
            superclass: match &sk_class.superclass {
                Some(s) => Some(s.copy()),
                None => None,
            },
            instance_ty: sk_class.instance_ty.copy(),
            method_sigs: copy_sigs(&sk_class.method_sigs),
            is_final: sk_class.is_final,
            const_is_obj: sk_class.const_is_obj,
        }
    }

    /// The class, as an imported one
    pub fn extract(self) -> (r: SkClass)
        ensures
            class_view(r) == extracted_v(self),
    {
        let r = SkClass {
            fullname: self.name,
            typarams: self.typarams,
            superclass: self.superclass,
            instance_ty: self.instance_ty,
            ivars: StrMap::new(),
            method_sigs: self.method_sigs,
            is_final: self.is_final,
            const_is_obj: self.const_is_obj,
            foreign: true,
        };
        assert(class_view(r).ivars =~= Map::empty());
        assert(class_view(r) =~= extracted_v(self));
        r
    }
}

} // verus!
