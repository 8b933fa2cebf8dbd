//! The class methods of `Shiika::Internal::Memory`.
//!
//! Their bodies generate LLVM code; the library holds their signatures.
use vstd::prelude::*;
use crate::corelib::{create_method, no_params, one_param, sigs_view, spec_sig, three_params, two_params};
use crate::hir::signature::{MethodSignature, SigV};
use crate::ty;
use crate::ty::spec_raw;

verus! {

/// The signatures of the class methods of `Shiika::Internal::Memory`
pub open spec fn class_methods_v() -> Seq<SigV> {
    seq![
        spec_sig("Meta:Shiika::Internal::Memory"@, "gc_malloc"@, seq![("n_bytes"@, spec_raw("Int"@))], spec_raw("Shiika::Internal::Ptr"@)),
        spec_sig("Meta:Shiika::Internal::Memory"@, "gc_realloc"@, seq![("ptr"@, spec_raw("Shiika::Internal::Ptr"@)), ("n_bytes"@, spec_raw("Int"@))], spec_raw("Shiika::Internal::Ptr"@)),
        spec_sig("Meta:Shiika::Internal::Memory"@, "memcpy"@, seq![("dst"@, spec_raw("Shiika::Internal::Ptr"@)), ("src"@, spec_raw("Shiika::Internal::Ptr"@)), ("n_bytes"@, spec_raw("Int"@))], spec_raw("Void"@)),
    ]
}

/// The signatures of the class methods of `Shiika::Internal::Memory`
pub fn create_class_methods() -> (r: Vec<MethodSignature>)
    ensures
        sigs_view(r@) == class_methods_v(),
{
    let mut v: Vec<MethodSignature> = Vec::new();
    v.push(create_method("Meta:Shiika::Internal::Memory", "gc_malloc", one_param("n_bytes", ty::raw("Int")), ty::raw("Shiika::Internal::Ptr")));
    v.push(create_method("Meta:Shiika::Internal::Memory", "gc_realloc", two_params("ptr", ty::raw("Shiika::Internal::Ptr"), "n_bytes", ty::raw("Int")), ty::raw("Shiika::Internal::Ptr")));
    v.push(create_method("Meta:Shiika::Internal::Memory", "memcpy", three_params("dst", ty::raw("Shiika::Internal::Ptr"), "src", ty::raw("Shiika::Internal::Ptr"), "n_bytes", ty::raw("Int")), ty::raw("Void")));
    assert(sigs_view(v@) =~= class_methods_v());
    v
}

} // verus!
