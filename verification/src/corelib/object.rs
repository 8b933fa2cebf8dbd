//! The methods of `Object`.
//!
//! Their bodies generate LLVM code; the library holds their signatures.
use vstd::prelude::*;
use crate::corelib::{create_method, no_params, one_param, sigs_view, spec_sig, three_params, two_params};
use crate::hir::signature::{MethodSignature, SigV};
use crate::ty;
use crate::ty::spec_raw;

verus! {

/// The signatures of the methods of `Object`
pub open spec fn methods_v() -> Seq<SigV> {
    seq![
        spec_sig("Object"@, "initialize"@, seq![], spec_raw("Void"@)),
        spec_sig("Object"@, "putchar"@, seq![("ord"@, spec_raw("Int"@))], spec_raw("Void"@)),
        spec_sig("Object"@, "putd"@, seq![("n"@, spec_raw("Int"@))], spec_raw("Void"@)),
        spec_sig("Object"@, "putf"@, seq![("n"@, spec_raw("Float"@))], spec_raw("Void"@)),
        spec_sig("Object"@, "puts"@, seq![("s"@, spec_raw("String"@))], spec_raw("Void"@)),
        spec_sig("Object"@, "exit"@, seq![("status"@, spec_raw("Int"@))], spec_raw("Void"@)),
    ]
}

/// The signatures of the methods of `Object`
pub fn create_methods() -> (r: Vec<MethodSignature>)
    ensures
        sigs_view(r@) == methods_v(),
{
    let mut v: Vec<MethodSignature> = Vec::new();
    v.push(create_method("Object", "initialize", no_params(), ty::raw("Void")));
    v.push(create_method("Object", "putchar", one_param("ord", ty::raw("Int")), ty::raw("Void")));
    v.push(create_method("Object", "putd", one_param("n", ty::raw("Int")), ty::raw("Void")));
    v.push(create_method("Object", "putf", one_param("n", ty::raw("Float")), ty::raw("Void")));
    v.push(create_method("Object", "puts", one_param("s", ty::raw("String")), ty::raw("Void")));
    v.push(create_method("Object", "exit", one_param("status", ty::raw("Int")), ty::raw("Void")));
    assert(sigs_view(v@) =~= methods_v());
    v
}

} // verus!
