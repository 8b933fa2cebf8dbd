//! The methods of `Shiika::Internal::Ptr`.
//!
//! Their bodies generate LLVM code; the library holds their signatures.
use vstd::prelude::*;
use crate::corelib::{create_method, no_params, one_param, sigs_view, spec_sig, three_params, two_params};
use crate::hir::signature::{MethodSignature, SigV};
use crate::ty;
use crate::ty::spec_raw;

verus! {

/// The signatures of the methods of `Shiika::Internal::Ptr`
pub open spec fn methods_v() -> Seq<SigV> {
    seq![
        spec_sig("Shiika::Internal::Ptr"@, "+"@, seq![("n_bytes"@, spec_raw("Int"@))], spec_raw("Shiika::Internal::Ptr"@)),
        spec_sig("Shiika::Internal::Ptr"@, "store"@, seq![("value"@, spec_raw("Object"@))], spec_raw("Void"@)),
        spec_sig("Shiika::Internal::Ptr"@, "load"@, seq![], spec_raw("Object"@)),
    ]
}

/// The signatures of the methods of `Shiika::Internal::Ptr`
pub fn create_methods() -> (r: Vec<MethodSignature>)
    ensures
        sigs_view(r@) == methods_v(),
{
    let mut v: Vec<MethodSignature> = Vec::new();
    v.push(create_method("Shiika::Internal::Ptr", "+", one_param("n_bytes", ty::raw("Int")), ty::raw("Shiika::Internal::Ptr")));
    v.push(create_method("Shiika::Internal::Ptr", "store", one_param("value", ty::raw("Object")), ty::raw("Void")));
    v.push(create_method("Shiika::Internal::Ptr", "load", no_params(), ty::raw("Object")));
    assert(sigs_view(v@) =~= methods_v());
    v
}

} // verus!
