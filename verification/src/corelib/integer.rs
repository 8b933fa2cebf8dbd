//! The methods of `Int`.
//!
//! Their bodies generate LLVM code; the library holds their signatures.
use vstd::prelude::*;
use crate::corelib::{create_method, no_params, one_param, sigs_view, spec_sig};
use crate::hir::signature::{MethodSignature, SigV};
use crate::ty;
use crate::ty::spec_raw;

verus! {

/// `<op>(other: Int) -> Bool`
pub open spec fn comparison_v(op: Seq<char>) -> SigV {
    spec_sig("Int"@, op, seq![("other"@, spec_raw("Int"@))], spec_raw("Bool"@))
}

/// `<op>(other: Int) -> Int`
pub open spec fn arithmetic_v(op: Seq<char>) -> SigV {
    spec_sig("Int"@, op, seq![("other"@, spec_raw("Int"@))], spec_raw("Int"@))
}

/// The signatures of the methods of `Int`
pub open spec fn methods_v() -> Seq<SigV> {
    seq![
        comparison_v("=="@),
        comparison_v("!="@),
        comparison_v("<"@),
        comparison_v(">"@),
        comparison_v("<="@),
        comparison_v(">="@),
        arithmetic_v("+"@),
        arithmetic_v("-"@),
        arithmetic_v("*"@),
        arithmetic_v("/"@),
        arithmetic_v("reminder"@),
        arithmetic_v("&"@),
        arithmetic_v("|"@),
        arithmetic_v("^"@),
        arithmetic_v("<<"@),
        arithmetic_v(">>"@),
        spec_sig("Int"@, "to_f"@, seq![], spec_raw("Float"@)),
        spec_sig("Int"@, "-@"@, seq![], spec_raw("Int"@)),
    ]
}

fn comparison(op: &str) -> (r: MethodSignature)
    ensures
        r@ == comparison_v(op@),
{
    create_method("Int", op, one_param("other", ty::raw("Int")), ty::raw("Bool"))
}

fn arithmetic(op: &str) -> (r: MethodSignature)
    ensures
        r@ == arithmetic_v(op@),
{
    create_method("Int", op, one_param("other", ty::raw("Int")), ty::raw("Int"))
}

/// The signatures of the methods of `Int`
pub fn create_methods() -> (r: Vec<MethodSignature>)
    ensures
        sigs_view(r@) == methods_v(),
{
    let mut v: Vec<MethodSignature> = Vec::new();
    v.push(comparison("=="));
    v.push(comparison("!="));
    v.push(comparison("<"));
    v.push(comparison(">"));
    v.push(comparison("<="));
    v.push(comparison(">="));
    v.push(arithmetic("+"));
    v.push(arithmetic("-"));
    v.push(arithmetic("*"));
    v.push(arithmetic("/"));
    v.push(arithmetic("reminder"));
    v.push(arithmetic("&"));
    v.push(arithmetic("|"));
    v.push(arithmetic("^"));
    v.push(arithmetic("<<"));
    v.push(arithmetic(">>"));
    v.push(create_method("Int", "to_f", no_params(), ty::raw("Float")));
    v.push(create_method("Int", "-@", no_params(), ty::raw("Int")));
    assert(sigs_view(v@) =~= methods_v());
    v
}

} // verus!
