//! The function classes `Fn0` .. `Fn9`.
use vstd::prelude::*;
use crate::hir::SkIVar;
use crate::hir::index::ivars_map;
use crate::hir::sk_class::SkIVars;
use crate::str_map::StrMap;
use crate::strs::to_owned;
use crate::ty;
use crate::ty::{TyParamKind, TyV, spec_ary, spec_raw, spec_typaram};
use crate::corelib::{ClassItem, ItemV, create_method, item_v, items_v, sigs_view, spec_sig};
use crate::hir::signature::{MethodParam, MethodSignature, SigV, params_view};
use crate::hir::superclass::Superclass;
use crate::strs::{concat, decimal, spec_decimal, strings_view};

verus! {

/// The instance variables of a function object, viewed
pub open spec fn ivars_v() -> Map<Seq<char>, (usize, Seq<char>, TyV, bool)> {
    map![
        "@func"@ => (0usize, "@func"@, spec_raw("Shiika::Internal::Ptr"@), true),
        "@the_self"@ => (1usize, "@the_self"@, spec_raw("Object"@), true),
        "@captures"@ => (2usize, "@captures"@, spec_ary(spec_raw("Shiika::Internal::Ptr"@)), true),
        "@exit_status"@ => (3usize, "@exit_status"@, spec_raw("Int"@), false),
    ]
}

/// The instance variables of a function object
pub fn ivars() -> (r: SkIVars)
    ensures
        ivars_map(r) == ivars_v(),
{
    proof {
        reveal_strlit("@func");
        reveal_strlit("@the_self");
        reveal_strlit("@captures");
        reveal_strlit("@exit_status");
        assert("@func"@.len() == 5);
        assert("@the_self"@.len() == 9);
        assert("@captures"@.len() == 9);
        assert("@exit_status"@.len() == 12);
        assert("@the_self"@[1] != "@captures"@[1]);
    }
    let mut ivars: SkIVars = StrMap::new();
    assert(forall|k: Seq<char>| #[trigger] ivars.spec_get(k) is None);
    let v0 = SkIVar { name: to_owned("@func"), idx: 0, ty: ty::raw("Shiika::Internal::Ptr"), readonly: true };
    assert(v0@ == (0usize, "@func"@, spec_raw("Shiika::Internal::Ptr"@), true));
    ivars.insert(to_owned("@func"), v0);
    let v1 = SkIVar { name: to_owned("@the_self"), idx: 1, ty: ty::raw("Object"), readonly: true };
    assert(v1@ == (1usize, "@the_self"@, spec_raw("Object"@), true));
    ivars.insert(to_owned("@the_self"), v1);
    let v2 = SkIVar {
        name: to_owned("@captures"),
        idx: 2,
        ty: ty::ary(ty::raw("Shiika::Internal::Ptr")),
        readonly: true,
    };
    assert(v2@ == (2usize, "@captures"@, spec_ary(spec_raw("Shiika::Internal::Ptr"@)), true));
    ivars.insert(to_owned("@captures"), v2);
    let v3 = SkIVar { name: to_owned("@exit_status"), idx: 3, ty: ty::raw("Int"), readonly: false };
    assert(v3@ == (3usize, "@exit_status"@, spec_raw("Int"@), false));
    ivars.insert(to_owned("@exit_status"), v3);
    assert forall|k: Seq<char>| #[trigger] ivars_map(ivars).contains_key(k) == (k == "@func"@ || k == "@the_self"@
        || k == "@captures"@ || k == "@exit_status"@) by {
        assert(ivars.spec_get(k) is Some == (k == "@func"@ || k == "@the_self"@ || k == "@captures"@ || k
            == "@exit_status"@));
    }
    assert(ivars_map(ivars) =~= map![
        "@func"@ => (0usize, "@func"@, spec_raw("Shiika::Internal::Ptr"@), true),
        "@the_self"@ => (1usize, "@the_self"@, spec_raw("Object"@), true),
        "@captures"@ => (2usize, "@captures"@, spec_ary(spec_raw("Shiika::Internal::Ptr"@)), true),
        "@exit_status"@ => (3usize, "@exit_status"@, spec_raw("Int"@), false),
    ]);
    ivars
}

/// The name of the class of functions of `n` parameters: `Fn<n>`
pub open spec fn fn_name(n: nat) -> Seq<char> {
    "Fn"@ + spec_decimal(n)
}

/// The type parameters of the class `Fn<n>`: `S1`, .. `S<n>`, then `T`
pub open spec fn fn_typarams(n: nat) -> Seq<Seq<char>> {
    Seq::new(n, |i: int| "S"@ + spec_decimal((i + 1) as nat)).push("T"@)
}

/// The parameters of `Fn<n>#call`: `arg1: S1`, .. `arg<n>: S<n>`
pub open spec fn call_params(n: nat) -> Seq<(Seq<char>, TyV)> {
    Seq::new(
        n,
        |i: int|
            ("arg"@ + spec_decimal((i + 1) as nat), spec_typaram("S"@ + spec_decimal((i + 1) as nat), TyParamKind::Class, i as nat)),
    )
}

/// `Fn<n>#call(arg1: S1, .., arg<n>: S<n>) -> T`
pub open spec fn call_v(n: nat) -> SigV {
    spec_sig(fn_name(n), "call"@, call_params(n), spec_typaram("T"@, TyParamKind::Class, n))
}

/// The class `Fn<n>`: a subclass of `Fn` with the method `call`
pub open spec fn fn_item_v(n: nat) -> ItemV {
    (fn_name(n), Some(spec_raw("Fn"@)), seq![call_v(n)], seq![], ivars_v(), fn_typarams(n))
}

/// The classes `Fn0` .. `Fn9`
pub open spec fn fn_items_v() -> Seq<ItemV> {
    Seq::new(10, |i: int| fn_item_v(i as nat))
}

/// The method `call` of `Fn<n>`
fn create_fn_call(n: usize) -> (r: MethodSignature)
    requires
        n < 10,
    ensures
        r@ == call_v(n as nat),
{
    let mut params: Vec<MethodParam> = Vec::new();
    let mut k: usize = 0;
    while k < n
        invariant
            k <= n < 10,
            params_view(params@) == call_params(n as nat).take(k as int),
        decreases n - k,
    {
        let d = decimal(k + 1);
        let arg = concat("arg", d.as_str());
        let s = concat("S", d.as_str());
        let p = MethodParam { name: arg, ty: ty::typaram(s.as_str(), TyParamKind::Class, k) };
        let ghost before = params@;
        params.push(p);
        proof {
            assert(params_view(params@) =~= params_view(before).push(p@));
            assert(call_params(n as nat).take(k + 1) =~= call_params(n as nat).take(k as int).push(
                call_params(n as nat)[k as int],
            ));
        }
        k += 1;
    }
    assert(call_params(n as nat).take(n as int) =~= call_params(n as nat));
    let name = concat("Fn", decimal(n).as_str());
    create_method(name.as_str(), "call", params, ty::typaram("T", TyParamKind::Class, n))
}

/// The class `Fn<n>`
fn fn_item(n: usize) -> (r: ClassItem)
    requires
        n < 10,
    ensures
        item_v(r) == fn_item_v(n as nat),
{
    let mut typarams: Vec<String> = Vec::new();
    let mut k: usize = 0;
    while k < n
        invariant
            k <= n < 10,
            strings_view(typarams@) == Seq::new(n as nat, |i: int| "S"@ + spec_decimal((i + 1) as nat)).take(k as int),
        decreases n - k,
    {
        let d = decimal(k + 1);
        let s = concat("S", d.as_str());
        let ghost before = typarams@;
        let ghost sv = s@;
        typarams.push(s);
        proof {
            assert(strings_view(typarams@) =~= strings_view(before).push(sv));
        }
        k += 1;
    }
    let ghost ss = typarams@;
    typarams.push(crate::strs::to_owned("T"));
    assert(strings_view(typarams@) =~= fn_typarams(n as nat)) by {
        assert(strings_view(ss) =~= Seq::new(n as nat, |i: int| "S"@ + spec_decimal((i + 1) as nat)));
    }
    let call = create_fn_call(n);
    let mut imethods: Vec<MethodSignature> = Vec::new();
    imethods.push(call);
    let cmethods: Vec<MethodSignature> = Vec::new();
    let name = concat("Fn", decimal(n).as_str());
    let r: ClassItem = (name, Some(Superclass::simple("Fn")), imethods, cmethods, ivars(), typarams);
    assert(sigs_view(r.2@) =~= seq![call_v(n as nat)]);
    assert(sigs_view(r.3@) =~= Seq::<SigV>::empty());
    r
}

/// The classes `Fn0` .. `Fn9`
pub fn fn_items() -> (r: Vec<ClassItem>)
    ensures
        items_v(r@) == fn_items_v(),
{
    let mut r: Vec<ClassItem> = Vec::new();
    let mut n: usize = 0;
    while n < 10
        invariant
            n <= 10,
            r@.len() == n,
            forall|i: int| 0 <= i < n ==> item_v(#[trigger] r@[i]) == fn_item_v(i as nat),
        decreases 10 - n,
    {
        r.push(fn_item(n));
        n += 1;
    }
    assert(items_v(r@) =~= fn_items_v());
    r
}

} // verus!
