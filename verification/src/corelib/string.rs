//! Strings.
use vstd::prelude::*;
use crate::hir::SkIVar;
use crate::hir::index::ivars_map;
use crate::hir::sk_class::SkIVars;
use crate::str_map::StrMap;
use crate::strs::to_owned;
use crate::ty;
use crate::ty::spec_raw;

verus! {

/// The instance variables of a string
pub fn ivars() -> (r: SkIVars)
    ensures
        ivars_map(r) == map![
            "@ptr"@ => (0usize, "@ptr"@, spec_raw("Shiika::Internal::Ptr"@), true),
            "@bytesize"@ => (1usize, "@bytesize"@, spec_raw("Int"@), true),
        ],
{
    proof {
        reveal_strlit("@ptr");
        reveal_strlit("@bytesize");
        assert("@ptr"@.len() == 4);
        assert("@bytesize"@.len() == 9);
        assert("@ptr"@ != "@bytesize"@);
    }
    let mut ivars: SkIVars = StrMap::new();
    assert(forall|k: Seq<char>| #[trigger] ivars.spec_get(k) is None);
    let v = SkIVar { name: to_owned("@ptr"), idx: 0, ty: ty::raw("Shiika::Internal::Ptr"), readonly: true };
    assert(v@ == (0usize, "@ptr"@, spec_raw("Shiika::Internal::Ptr"@), true));
    ivars.insert(to_owned("@ptr"), v);
    let w = SkIVar { name: to_owned("@bytesize"), idx: 1, ty: ty::raw("Int"), readonly: true };
    assert(w@ == (1usize, "@bytesize"@, spec_raw("Int"@), true));
    ivars.insert(to_owned("@bytesize"), w);
    assert forall|k: Seq<char>| #[trigger] ivars_map(ivars).contains_key(k) == (k == "@ptr"@ || k == "@bytesize"@) by {
        assert(ivars.spec_get(k) is Some == (k == "@ptr"@ || k == "@bytesize"@));
    }
    assert(ivars_map(ivars) =~= map![
        "@ptr"@ => (0usize, "@ptr"@, spec_raw("Shiika::Internal::Ptr"@), true),
        "@bytesize"@ => (1usize, "@bytesize"@, spec_raw("Int"@), true),
    ]);
    ivars
}

} // verus!
