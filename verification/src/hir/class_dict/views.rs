//! The class dictionary as maps of abstract classes, and the method search over them.
use vstd::prelude::*;
use crate::hir::class_dict::ClassDict;
use crate::hir::class_dict::class_index::typaram_names;
use crate::hir::signature::{SigV, spec_specialize};
use crate::hir::sk_class::{SkClass, SkClasses};
use crate::names::object_word;
use crate::ty::{TyBodyV, TyV, spec_erasure, spec_raw, spec_tyargs};

verus! {

/// An instance variable, viewed: (index, name, type, readonly)
pub type IVarV = (usize, Seq<char>, TyV, bool);

/// The abstract value of a class
pub struct ClassV {
    pub fullname: Seq<char>,
    pub typarams: Seq<Seq<char>>,
    pub superclass: Option<TyV>,
    pub instance_ty: TyV,
    pub ivars: Map<Seq<char>, IVarV>,
    pub methods: Map<Seq<char>, SigV>,
    pub is_final: Option<bool>,
    pub const_is_obj: bool,
    pub foreign: bool,
}

/// A class, viewed
pub open spec fn class_view(c: SkClass) -> ClassV {
    ClassV {
        fullname: c.fullname@,
        typarams: typaram_names(c.typarams@),
        superclass: match c.superclass {
            Some(s) => Some(s@),
            None => None,
        },
        instance_ty: c.instance_ty@,
        ivars: Map::new(|k: Seq<char>| c.ivars.spec_contains(k), |k: Seq<char>| c.ivars.spec_get(k).unwrap()@),
        methods: Map::new(
            |k: Seq<char>| c.method_sigs.spec_contains(k),
            |k: Seq<char>| c.method_sigs.spec_get(k).unwrap()@,
        ),
        is_final: c.is_final,
        const_is_obj: c.const_is_obj,
        foreign: c.foreign,
    }
}

/// Classes by name, viewed
pub open spec fn classes_view(m: SkClasses) -> Map<Seq<char>, ClassV> {
    Map::new(|k: Seq<char>| m.spec_contains(k), |k: Seq<char>| class_view(m.spec_get(k).unwrap()))
}

/// The class `name`: an indexed one (`own`), or else an imported one (`imp`)
pub open spec fn vclass(own: Map<Seq<char>, ClassV>, imp: Map<Seq<char>, ClassV>, name: Seq<char>) -> Option<ClassV> {
    if own.contains_key(name) {
        Some(own[name])
    } else if imp.contains_key(name) {
        Some(imp[name])
    } else {
        None
    }
}

/// The method `m` of the class `name` itself
pub open spec fn vfind(own: Map<Seq<char>, ClassV>, imp: Map<Seq<char>, ClassV>, name: Seq<char>, m: Seq<char>) -> Option<SigV> {
    match vclass(own, imp, name) {
        Some(c) => if c.methods.contains_key(m) {
            Some(c.methods[m])
        } else {
            None
        },
        None => None,
    }
}

/// Where the methods for a receiver of type `t` are found, and the type arguments given
pub open spec fn vholder(own: Map<Seq<char>, ClassV>, imp: Map<Seq<char>, ClassV>, t: TyV) -> (TyV, Seq<TyV>) {
    match t.body {
        TyBodyV::Spe { .. } => (vclass(own, imp, spec_erasure(t)).unwrap().instance_ty, spec_tyargs(t)),
        TyBodyV::SpeMeta { .. } => (vclass(own, imp, spec_erasure(t)).unwrap().instance_ty, spec_tyargs(t)),
        TyBodyV::Param { .. } => (spec_raw(object_word()), Seq::empty()),
        _ => (t, Seq::empty()),
    }
}

/// The search of `m` from `t` upwards ends within `n` superclasses, on known classes
pub open spec fn vlookup_ok(own: Map<Seq<char>, ClassV>, imp: Map<Seq<char>, ClassV>, t: TyV, m: Seq<char>, n: nat) -> bool
    decreases n,
{
    let c = vholder(own, imp, t).0;
    &&& ((t.body is Spe || t.body is SpeMeta) ==> vclass(own, imp, spec_erasure(t)) is Some)
    &&& (vfind(own, imp, c.fullname, m) is None ==> {
        &&& vclass(own, imp, spec_erasure(c)) is Some
        &&& match vclass(own, imp, spec_erasure(c)).unwrap().superclass {
            Some(s) => n > 0 && vlookup_ok(own, imp, s, m, (n - 1) as nat),
            None => true,
        }
    })
}

/// The method `m` found from `t` upwards within `n` superclasses, specialized, and where
pub open spec fn vlookup_n(
    own: Map<Seq<char>, ClassV>,
    imp: Map<Seq<char>, ClassV>,
    t: TyV,
    m: Seq<char>,
    tyargs: Seq<TyV>,
    n: nat,
) -> Option<(SigV, Seq<char>)>
    decreases n,
{
    let (c, class_tyargs) = vholder(own, imp, t);
    match vfind(own, imp, c.fullname, m) {
        Some(sig) => Some((spec_specialize(sig, class_tyargs, tyargs), c.fullname)),
        None => match vclass(own, imp, spec_erasure(c)) {
            Some(k) => match k.superclass {
                Some(s) => if n > 0 {
                    vlookup_n(own, imp, s, m, tyargs, (n - 1) as nat)
                } else {
                    None
                },
                None => None,
            },
            None => None,
        },
    }
}

/// The search of `m` from `t` upwards ends, on known classes
pub open spec fn vcan_lookup(own: Map<Seq<char>, ClassV>, imp: Map<Seq<char>, ClassV>, t: TyV, m: Seq<char>) -> bool {
    exists|n: nat| vlookup_ok(own, imp, t, m, n)
}

/// The method `m` for a receiver of type `t`, specialized, and the class that defines it
pub open spec fn vlookup(own: Map<Seq<char>, ClassV>, imp: Map<Seq<char>, ClassV>, t: TyV, m: Seq<char>, tyargs: Seq<TyV>) -> Option<
    (SigV, Seq<char>),
> {
    vlookup_n(own, imp, t, m, tyargs, choose|n: nat| vlookup_ok(own, imp, t, m, n))
}

impl<'hir_maker> ClassDict<'hir_maker> {
    /// The method search of the dictionary is the one of its view.
    pub proof fn lemma_lookup_method_view(&self, t: TyV, m: Seq<char>, tyargs: Seq<TyV>)
        requires
            vcan_lookup(self.own_v(), self.imp_v(), t, m),
        ensures
            self.can_lookup(t, m),
            self.spec_lookup_method(t, m, tyargs) == vlookup(self.own_v(), self.imp_v(), t, m, tyargs),
    {
        let n2 = choose|n: nat| vlookup_ok(self.own_v(), self.imp_v(), t, m, n);
        self.lemma_lookup_views(t, m, tyargs, n2);
        assert(self.lookup_ok(t, m, n2));
        let n1 = choose|n: nat| self.lookup_ok(t, m, n);
        if n1 <= n2 {
            self.lemma_lookup_mono(t, m, tyargs, n1, n2);
        } else {
            self.lemma_lookup_mono(t, m, tyargs, n2, n1);
        }
    }

    /// The indexed classes, viewed
    pub open spec fn own_v(&self) -> Map<Seq<char>, ClassV> {
        classes_view(self.sk_classes)
    }

    /// The imported classes, viewed
    pub open spec fn imp_v(&self) -> Map<Seq<char>, ClassV> {
        classes_view(*self.imported_classes)
    }

    /// The classes of the dictionary and of its view agree.
    pub proof fn lemma_class_views(&self, name: Seq<char>)
        ensures
            self.class_of(name) is Some == vclass(self.own_v(), self.imp_v(), name) is Some,
            self.class_of(name) is Some ==> vclass(self.own_v(), self.imp_v(), name).unwrap() == class_view(
                self.class_of(name).unwrap(),
            ),
    {
    }

    /// The method search on the dictionary and on its view agree.
    pub proof fn lemma_lookup_views(&self, t: TyV, m: Seq<char>, tyargs: Seq<TyV>, n: nat)
        ensures
            self.lookup_ok(t, m, n) == vlookup_ok(self.own_v(), self.imp_v(), t, m, n),
            self.lookup_ok(t, m, n) ==> self.lookup_n(t, m, tyargs, n) == vlookup_n(
                self.own_v(),
                self.imp_v(),
                t,
                m,
                tyargs,
                n,
            ),
        decreases n,
    {
        let own = self.own_v();
        let imp = self.imp_v();
        self.lemma_class_views(spec_erasure(t));
        if !((t.body is Spe || t.body is SpeMeta) && self.class_of(spec_erasure(t)) is None) {
            assert(self.method_holder(t) == vholder(own, imp, t));
            let c = self.method_holder(t).0;
            self.lemma_class_views(c.fullname);
            self.lemma_class_views(spec_erasure(c));
            match self.spec_find_method(c.fullname, m) {
                Some(sig) => {
                    assert(vfind(own, imp, c.fullname, m) == Some(sig@));
                },
                None => {
                    assert(vfind(own, imp, c.fullname, m) is None);
                    match self.class_of(spec_erasure(c)) {
                        Some(k) => match k.superclass {
                            Some(s) => {
                                if n > 0 {
                                    self.lemma_lookup_views(s@, m, tyargs, (n - 1) as nat);
                                }
                            },
                            None => {},
                        },
                        None => {},
                    }
                },
            }
        }
    }
}

} // verus!
