//! The class `Class`.
use vstd::prelude::*;
use crate::hir::SkIVar;
use crate::hir::index::ivars_map;
use crate::hir::sk_class::SkIVars;
use crate::str_map::StrMap;
use crate::strs::to_owned;
use crate::ty;
use crate::ty::spec_raw;

verus! {

/// The instance variables of `Class`, viewed
pub open spec fn class_ivars_v() -> Map<Seq<char>, (usize, Seq<char>, ty::TyV, bool)> {
    map![
        "@name"@ => (0usize, "@name"@, spec_raw("String"@), true),
        "@vtable"@ => (1usize, "@vtable"@, spec_raw("Shiika::Internal::Ptr"@), true),
    ]
}

/// The instance variables of `Class` (which every metaclass inherits)
pub fn ivars() -> (r: SkIVars)
    ensures
        ivars_map(r) == class_ivars_v(),
{
    proof {
        reveal_strlit("@name");
        reveal_strlit("@vtable");
        assert("@name"@.len() == 5);
        assert("@vtable"@.len() == 7);
        assert("@name"@ != "@vtable"@);
    }
    let mut ivars: SkIVars = StrMap::new();
    assert(forall|k: Seq<char>| #[trigger] ivars.spec_get(k) is None);
    let v = SkIVar { name: to_owned("@name"), idx: 0, ty: ty::raw("String"), readonly: true };
    assert(v@ == (0usize, "@name"@, spec_raw("String"@), true));
    ivars.insert(to_owned("@name"), v);
    let w = SkIVar { name: to_owned("@vtable"), idx: 1, ty: ty::raw("Shiika::Internal::Ptr"), readonly: true };
    assert(w@ == (1usize, "@vtable"@, spec_raw("Shiika::Internal::Ptr"@), true));
    ivars.insert(to_owned("@vtable"), w);
    assert forall|k: Seq<char>| #[trigger] ivars_map(ivars).contains_key(k) == (k == "@name"@ || k == "@vtable"@) by {
        assert(ivars.spec_get(k) is Some == (k == "@name"@ || k == "@vtable"@));
    }
    assert(ivars_map(ivars) =~= class_ivars_v());
    ivars
}

} // verus!
