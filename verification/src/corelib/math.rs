//! The class methods of `Math`.
//!
//! Their bodies generate LLVM code; the library holds their signatures.
use vstd::prelude::*;
use crate::corelib::{create_method, no_params, one_param, sigs_view, spec_sig, three_params, two_params};
use crate::hir::signature::{MethodSignature, SigV};
use crate::ty;
use crate::ty::spec_raw;

verus! {

/// The signatures of the class methods of `Math`
pub open spec fn class_methods_v() -> Seq<SigV> {
    seq![
        spec_sig("Meta:Math"@, "sin"@, seq![("x"@, spec_raw("Float"@))], spec_raw("Float"@)),
        spec_sig("Meta:Math"@, "cos"@, seq![("x"@, spec_raw("Float"@))], spec_raw("Float"@)),
        spec_sig("Meta:Math"@, "sqrt"@, seq![("x"@, spec_raw("Float"@))], spec_raw("Float"@)),
    ]
}

/// The signatures of the class methods of `Math`
pub fn create_class_methods() -> (r: Vec<MethodSignature>)
    ensures
        sigs_view(r@) == class_methods_v(),
{
    let mut v: Vec<MethodSignature> = Vec::new();
    v.push(create_method("Meta:Math", "sin", one_param("x", ty::raw("Float")), ty::raw("Float")));
    v.push(create_method("Meta:Math", "cos", one_param("x", ty::raw("Float")), ty::raw("Float")));
    v.push(create_method("Meta:Math", "sqrt", one_param("x", ty::raw("Float")), ty::raw("Float")));
    assert(sigs_view(v@) =~= class_methods_v());
    v
}

} // verus!
