//! MIR: the program in HIR with the vtables of its classes.
pub mod vtable;
pub mod vtable_listing;

use vstd::prelude::*;
use crate::hir::Hir;
use crate::hir::sk_class::{SkClass, SkClasses};
use crate::mir::vtable::{VTables, chains_in, tables_ok};
use crate::str_map::StrMap;

verus! {

/// A program ready for code generation: its HIR (without the imported classes), the vtables
/// of all its classes, and the imported classes
#[derive(Debug)]
pub struct Mir {
    pub hir: Hir,
    pub vtables: VTables,
    pub imported_classes: Vec<SkClass>,
}

/// The entries of `e` whose classes are not imported ones, in order
pub open spec fn own_entries(e: Seq<(String, SkClass)>) -> Seq<(String, SkClass)>
    decreases e.len(),
{
    if e.len() == 0 {
        Seq::empty()
    } else if e.last().1.foreign {
        own_entries(e.drop_last())
    } else {
        own_entries(e.drop_last()).push(e.last())
    }
}

/// The imported classes of the entries `e`, in order
pub open spec fn imported_of(e: Seq<(String, SkClass)>) -> Seq<SkClass>
    decreases e.len(),
{
    if e.len() == 0 {
        Seq::empty()
    } else if e.last().1.foreign {
        imported_of(e.drop_last()).push(e.last().1)
    } else {
        imported_of(e.drop_last())
    }
}

/// Each class of a program is either one of its own or an imported one.
pub proof fn law_classes_partitioned(e: Seq<(String, SkClass)>)
    ensures
        own_entries(e).len() + imported_of(e).len() == e.len(),
    decreases e.len(),
{
    if e.len() > 0 {
        law_classes_partitioned(e.drop_last());
    }
}

/// Build the MIR of a program: the vtables of all its classes, and the imported classes taken
/// out of its HIR
pub fn build(orig_hir: Hir) -> (r: Mir)
    requires
        chains_in(orig_hir.sk_classes),
    ensures
        tables_ok(r.vtables.contents, orig_hir.sk_classes),
        forall|k: Seq<char>|
            #[trigger] orig_hir.sk_classes.spec_contains(k) == r.vtables.contents.spec_contains(k),
        r.hir.sk_classes.entries@ == own_entries(orig_hir.sk_classes.entries@),
        r.imported_classes@ == imported_of(orig_hir.sk_classes.entries@),
        r.hir == (Hir { sk_classes: r.hir.sk_classes, ..orig_hir }),
{
    let vtables = VTables::build(&orig_hir.sk_classes);
    let (hir, imported_classes) = extract_imported_classes(orig_hir);
    Mir { hir, vtables, imported_classes }
}

/// Remove imported classes from hir.sk_classes
fn extract_imported_classes(hir: Hir) -> (r: (Hir, Vec<SkClass>))
    ensures
        r.0.sk_classes.entries@ == own_entries(hir.sk_classes.entries@),
        r.1@ == imported_of(hir.sk_classes.entries@),
        r.0 == (Hir { sk_classes: r.0.sk_classes, ..hir }),
{
    let Hir { sk_classes: orig, constants, str_literals, const_inits, main_exprs, main_lvars } = hir;
    let ghost e = orig.entries@;
    let mut entries = orig.entries;
    let mut sk_classes: SkClasses = StrMap { entries: Vec::new() };
    let mut imported_classes: Vec<SkClass> = Vec::new();
    let ghost mut i: int = 0;
    assert(e.skip(0) =~= e);
    assert(e.take(0) =~= Seq::<(String, SkClass)>::empty());
    while entries.len() > 0
        invariant
            0 <= i <= e.len(),
            entries@ == e.skip(i),
            sk_classes.entries@ == own_entries(e.take(i)),
            imported_classes@ == imported_of(e.take(i)),
        decreases entries.len(),
    {
        assert(entries@.len() == e.len() - i);
        let (name, class) = entries.remove(0);
        proof {
            assert(e.skip(i)[0] == e[i]);
            assert(e.skip(i).drop_first() =~= e.skip(i + 1));
            assert(e.take(i + 1).drop_last() =~= e.take(i));
            assert(e.take(i + 1).last() == e[i]);
        }
        if class.foreign {
            imported_classes.push(class);
        } else {
            sk_classes.entries.push((name, class));
        }
        proof {
            i = i + 1;
        }
    }
    assert(e.take(e.len() as int) =~= e);
    (Hir { sk_classes, constants, str_literals, const_inits, main_exprs, main_lvars }, imported_classes)
}

} // verus!
