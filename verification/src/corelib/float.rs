//! The methods of `Float`.
//!
//! Their bodies generate LLVM code; the library holds their signatures.
use vstd::prelude::*;
use crate::corelib::{create_method, no_params, one_param, sigs_view, spec_sig, three_params, two_params};
use crate::hir::signature::{MethodSignature, SigV};
use crate::ty;
use crate::ty::spec_raw;

verus! {

/// The signatures of the methods of `Float`
pub open spec fn methods_v() -> Seq<SigV> {
    seq![
        spec_sig("Float"@, "=="@, seq![("other"@, spec_raw("Float"@))], spec_raw("Bool"@)),
        spec_sig("Float"@, "!="@, seq![("other"@, spec_raw("Float"@))], spec_raw("Bool"@)),
        spec_sig("Float"@, "<"@, seq![("other"@, spec_raw("Float"@))], spec_raw("Bool"@)),
        spec_sig("Float"@, ">"@, seq![("other"@, spec_raw("Float"@))], spec_raw("Bool"@)),
        spec_sig("Float"@, "<="@, seq![("other"@, spec_raw("Float"@))], spec_raw("Bool"@)),
        spec_sig("Float"@, ">="@, seq![("other"@, spec_raw("Float"@))], spec_raw("Bool"@)),
        spec_sig("Float"@, "+"@, seq![("other"@, spec_raw("Float"@))], spec_raw("Float"@)),
        spec_sig("Float"@, "-"@, seq![("other"@, spec_raw("Float"@))], spec_raw("Float"@)),
        spec_sig("Float"@, "*"@, seq![("other"@, spec_raw("Float"@))], spec_raw("Float"@)),
        spec_sig("Float"@, "/"@, seq![("other"@, spec_raw("Float"@))], spec_raw("Float"@)),
        spec_sig("Float"@, "abs"@, seq![], spec_raw("Float"@)),
        spec_sig("Float"@, "floor"@, seq![], spec_raw("Float"@)),
        spec_sig("Float"@, "to_i"@, seq![], spec_raw("Int"@)),
        spec_sig("Float"@, "-@"@, seq![], spec_raw("Float"@)),
    ]
}

/// The signatures of the methods of `Float`
pub fn create_methods() -> (r: Vec<MethodSignature>)
    ensures
        sigs_view(r@) == methods_v(),
{
    let mut v: Vec<MethodSignature> = Vec::new();
    v.push(create_method("Float", "==", one_param("other", ty::raw("Float")), ty::raw("Bool")));
    v.push(create_method("Float", "!=", one_param("other", ty::raw("Float")), ty::raw("Bool")));
    v.push(create_method("Float", "<", one_param("other", ty::raw("Float")), ty::raw("Bool")));
    v.push(create_method("Float", ">", one_param("other", ty::raw("Float")), ty::raw("Bool")));
    v.push(create_method("Float", "<=", one_param("other", ty::raw("Float")), ty::raw("Bool")));
    v.push(create_method("Float", ">=", one_param("other", ty::raw("Float")), ty::raw("Bool")));
    v.push(create_method("Float", "+", one_param("other", ty::raw("Float")), ty::raw("Float")));
    v.push(create_method("Float", "-", one_param("other", ty::raw("Float")), ty::raw("Float")));
    v.push(create_method("Float", "*", one_param("other", ty::raw("Float")), ty::raw("Float")));
    v.push(create_method("Float", "/", one_param("other", ty::raw("Float")), ty::raw("Float")));
    v.push(create_method("Float", "abs", no_params(), ty::raw("Float")));
    v.push(create_method("Float", "floor", no_params(), ty::raw("Float")));
    v.push(create_method("Float", "to_i", no_params(), ty::raw("Int")));
    v.push(create_method("Float", "-@", no_params(), ty::raw("Float")));
    assert(sigs_view(v@) =~= methods_v());
    v
}

} // verus!
