//! Lambdas.
use vstd::prelude::*;
use crate::hir::SkIVar;
use crate::hir::index::ivars_map;
use crate::hir::sk_class::SkIVars;
use crate::str_map::StrMap;
use crate::strs::to_owned;
use crate::ty;
use crate::ty::{spec_raw, spec_spe};

verus! {

/// The instance variables of a lambda
pub fn ivars() -> (r: SkIVars)
    ensures
        ivars_map(r) == map![
            "@func"@ => (0usize, "@func"@, spec_raw("Shiika::Internal::Ptr"@), true),
            "@freevars"@ => (
                1usize,
                "@freevars"@,
                spec_spe("Array"@, seq![spec_raw("Shiika::Internal::Ptr"@)]),
                true,
            ),
        ],
{
    proof {
        reveal_strlit("@func");
        reveal_strlit("@freevars");
        assert("@func"@.len() == 5);
        assert("@freevars"@.len() == 9);
        assert("@func"@ != "@freevars"@);
    }
    let mut ivars: SkIVars = StrMap::new();
    assert(forall|k: Seq<char>| #[trigger] ivars.spec_get(k) is None);
    let v = SkIVar { name: to_owned("@func"), idx: 0, ty: ty::raw("Shiika::Internal::Ptr"), readonly: true };
    assert(v@ == (0usize, "@func"@, spec_raw("Shiika::Internal::Ptr"@), true));
    ivars.insert(to_owned("@func"), v);
    let ptr = ty::raw("Shiika::Internal::Ptr");
    let ghost pv = ptr@;
    let args = vec![ptr];
    assert(ty::views_of(args@) =~= seq![pv]);
    let w = SkIVar { name: to_owned("@freevars"), idx: 1, ty: ty::spe("Array", args), readonly: true };
    assert(w@ == (1usize, "@freevars"@, spec_spe("Array"@, seq![spec_raw("Shiika::Internal::Ptr"@)]), true));
    ivars.insert(to_owned("@freevars"), w);
    assert forall|k: Seq<char>| #[trigger] ivars_map(ivars).contains_key(k) == (k == "@func"@ || k == "@freevars"@) by {
        assert(ivars.spec_get(k) is Some == (k == "@func"@ || k == "@freevars"@));
    }
    assert(ivars_map(ivars) =~= map![
        "@func"@ => (0usize, "@func"@, spec_raw("Shiika::Internal::Ptr"@), true),
        "@freevars"@ => (1usize, "@freevars"@, spec_spe("Array"@, seq![spec_raw("Shiika::Internal::Ptr"@)]), true),
    ]);
    ivars
}

} // verus!
