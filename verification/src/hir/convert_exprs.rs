//! Resolving the names of local variables and arguments while converting expressions.
use vstd::prelude::*;
use crate::error::{Error, ErrorDetails, error_of, program_error};
use crate::hir::ctx_stack::{
    CtxKind, CtxStack, kind, kind_of, lambda_of, last_of_kind, last_with_lvars, lemma_last_of_kind,
    lemma_last_with_lvars,
};
use crate::hir::hir_maker_context::{
    CtxLVar, HirMakerContext, LambdaCapture, LambdaCaptureDetail, ctx_lvars,
};
use crate::hir::signature::{MethodParam, find_param, params_view, spec_find_param};
use crate::strs::{concat, to_owned};
use crate::ty::{TermTy, TyV};

verus! {

/// Where a variable was found
#[derive(Debug)]
pub enum LVarInfo {
    /// Found in the current scope
    CurrentScope { ty: TermTy, name: String },
    /// Found in the current method/lambda argument
    Argument { ty: TermTy, idx: usize },
    /// Found in outer scope
    OuterScope {
        ty: TermTy,
        /// Index of the lvar in `captures`
        cidx: usize,
        readonly: bool,
    },
}

/// The type of the variable that `info` describes
pub open spec fn info_ty(info: LVarInfo) -> TyV {
    match info {
        LVarInfo::CurrentScope { ty, .. } => ty@,
        LVarInfo::Argument { ty, .. } => ty@,
        LVarInfo::OuterScope { ty, .. } => ty@,
    }
}

impl LVarInfo {
    /// The type of the lvar
    pub fn ty(&self) -> (r: &TermTy)
        ensures
            r@ == info_ty(*self),
    {
        match self {
            LVarInfo::CurrentScope { ty, .. } => ty,
            LVarInfo::Argument { ty, .. } => ty,
            LVarInfo::OuterScope { ty, .. } => ty,
        }
    }
}

/// The parameters that the scope of a context has
pub open spec fn scope_params(c: HirMakerContext) -> Seq<MethodParam> {
    match c {
        HirMakerContext::Method(m) => m.signature.params@,
        HirMakerContext::Lambda(l) => l.params@,
        _ => Seq::empty(),
    }
}

/// Whether the scope of `c` has `name` as a local variable
pub open spec fn has_lvar(c: HirMakerContext, name: Seq<char>) -> bool {
    ctx_lvars(c).unwrap().spec_contains(name)
}

/// Whether the scope of `c` has `name` as a local variable or as a parameter
pub open spec fn has_var(c: HirMakerContext, name: Seq<char>) -> bool {
    has_lvar(c, name) || spec_find_param(params_view(scope_params(c)), name) is Some
}

/// Whether the scope of `c` is followed by the enclosing ones (lambdas and match clauses)
pub open spec fn is_inner_scope(c: HirMakerContext) -> bool {
    kind_of(c) == CtxKind::Lambda || kind_of(c) == CtxKind::MatchClause
}

/// The index of the context whose scope has `name`, looking from the scope `cur` outwards
pub open spec fn var_scope(s: Seq<HirMakerContext>, cur: int, name: Seq<char>) -> Option<int>
    decreases cur + 1,
{
    if cur < 0 || cur >= s.len() || kind_of(s[cur]) == CtxKind::While {
        None
    } else if has_var(s[cur], name) {
        Some(cur)
    } else if is_inner_scope(s[cur]) {
        var_scope(s, cur - 1, name)
    } else {
        None
    }
}

/// The search of `name` from the scope `cur` outwards steps on no `while` context and does not
/// step out of the stack
pub open spec fn var_reach_ok(s: Seq<HirMakerContext>, cur: int, name: Seq<char>) -> bool
    decreases cur + 1,
{
    &&& 0 <= cur < s.len()
    &&& kind_of(s[cur]) != CtxKind::While
    &&& is_inner_scope(s[cur]) ==> cur > 0
    &&& (!has_var(s[cur], name) && is_inner_scope(s[cur])) ==> var_reach_ok(s, cur - 1, name)
}

/// The depth that the scope of the context `j` is reported with: its index for a lambda, -1
/// otherwise
pub open spec fn scope_depth(s: Seq<HirMakerContext>, j: int) -> isize {
    if kind_of(s[j]) == CtxKind::Lambda {
        j as isize
    } else {
        -1isize
    }
}

/// The index a new capture gets: the number of captures of the lambda on the top, or 0
pub open spec fn capture_index(s: Seq<HirMakerContext>) -> usize {
    if s.len() > 0 && kind_of(s.last()) == CtxKind::Lambda {
        lambda_of(s[last_of_kind(s, CtxKind::Lambda).unwrap()]).captures@.len() as usize
    } else {
        0
    }
}

/// `new` is `old` with one capture added to the innermost lambda, made by `ok`
pub open spec fn pushed_capture(
    old: Seq<HirMakerContext>,
    new: Seq<HirMakerContext>,
    depth: isize,
    ty: TyV,
    detail: spec_fn(LambdaCaptureDetail) -> bool,
) -> bool {
    let i = last_of_kind(old, CtxKind::Lambda).unwrap();
    let l = lambda_of(old[i]);
    let n = lambda_of(new[i]);
    &&& new.len() == old.len()
    &&& kind_of(new[i]) == CtxKind::Lambda
    &&& forall|j: int| 0 <= j < old.len() && j != i ==> new[j] == old[j]
    &&& n.lvars == l.lvars && n.params == l.params && n.is_fn == l.is_fn && n.has_break == l.has_break
    &&& n.captures@.len() == l.captures@.len() + 1
    &&& forall|j: int| 0 <= j < l.captures@.len() ==> n.captures@[j] == l.captures@[j]
    &&& n.captures@.last().ctx_depth == depth
    &&& n.captures@.last().ty@ == ty
    &&& detail(n.captures@.last().detail)
}

/// The error text for assigning to a variable declared without `var`
pub open spec fn readonly_lvar_text(name: Seq<char>) -> Seq<char> {
    "cannot reassign to `"@ + name + "' (Hint: declare it with `var')"@
}

/// The error text for assigning to an argument
pub open spec fn argument_text(name: Seq<char>) -> Seq<char> {
    "you cannot reassign to argument `"@ + name + "'"@
}

/// Whether updating `name`, found in the scope `c`, is refused: it is a variable declared
/// without `var`, or an argument
pub open spec fn update_refused(c: HirMakerContext, name: Seq<char>, updating: bool) -> bool {
    updating && (has_lvar(c, name) ==> ctx_lvars(c).unwrap().spec_get(name).unwrap().readonly)
}

/// Find the variable or argument `name` in the scopes from the current one outwards.
/// One found in an outer scope is captured by the innermost lambda.
/// An error if it is to be updated but it is an argument or a variable without `var`.
pub fn find_var(ctx_stack: &mut CtxStack, name: &str, updating: bool) -> (r: Result<Option<LVarInfo>, Error>)
    requires
        last_with_lvars(old(ctx_stack).0@) matches Some(cur0) ==> var_reach_ok(old(ctx_stack).0@, cur0, name@),
        last_with_lvars(old(ctx_stack).0@) matches Some(cur0) ==> (var_scope(old(ctx_stack).0@, cur0, name@)
            matches Some(j) && j != cur0 && !update_refused(old(ctx_stack).0@[j], name@, updating)
            ==> last_of_kind(old(ctx_stack).0@, CtxKind::Lambda) is Some),
    ensures
        ({
            let s = old(ctx_stack).0@;
            match last_with_lvars(s) {
                None => r matches Ok(None) && *final(ctx_stack) == *old(ctx_stack),
                Some(cur0) => match var_scope(s, cur0, name@) {
                    None => r matches Ok(None) && *final(ctx_stack) == *old(ctx_stack),
                    Some(j) => if has_lvar(s[j], name@) {
                        let v = ctx_lvars(s[j]).unwrap().spec_get(name@).unwrap();
                        if updating && v.readonly {
                            &&& r matches Err(e) && error_of(e, readonly_lvar_text(name@), ErrorDetails::ProgramError)
                            &&& *final(ctx_stack) == *old(ctx_stack)
                        } else if j == cur0 {
                            &&& r matches Ok(Some(LVarInfo::CurrentScope { ty, name: n })) && ty@ == v.ty@ && n@ == name@
                            &&& *final(ctx_stack) == *old(ctx_stack)
                        } else {
                            &&& r matches Ok(Some(LVarInfo::OuterScope { ty, cidx, readonly })) && ty@ == v.ty@
                                && cidx == capture_index(s) && !readonly
                            &&& pushed_capture(
                                s,
                                final(ctx_stack).0@,
                                scope_depth(s, j),
                                v.ty@,
                                |d: LambdaCaptureDetail| d matches LambdaCaptureDetail::CapLVar { name: n } && n@ == name@,
                            )
                        }
                    } else {
                        let idx = spec_find_param(params_view(scope_params(s[j])), name@).unwrap();
                        let p = scope_params(s[j])[idx];
                        if updating {
                            &&& r matches Err(e) && error_of(e, argument_text(name@), ErrorDetails::ProgramError)
                            &&& *final(ctx_stack) == *old(ctx_stack)
                        } else if j == cur0 {
                            &&& r matches Ok(Some(LVarInfo::Argument { ty, idx: i })) && ty@ == p.ty@ && i == idx
                            &&& *final(ctx_stack) == *old(ctx_stack)
                        } else {
                            &&& r matches Ok(Some(LVarInfo::OuterScope { ty, cidx, readonly })) && ty@ == p.ty@
                                && cidx == capture_index(s) && readonly
                            &&& pushed_capture(
                                s,
                                final(ctx_stack).0@,
                                scope_depth(s, j),
                                p.ty@,
                                |d: LambdaCaptureDetail| d matches LambdaCaptureDetail::CapFnArg { idx: i } && i == idx,
                            )
                        }
                    },
                },
            }
        }),
{
    let ghost s = ctx_stack.0@;
    let ghost start = last_with_lvars(s);
    proof {
        lemma_last_of_kind(s, CtxKind::Lambda);
        lemma_last_with_lvars(s);
    }
    let n = ctx_stack.len();
    let cidx: usize = if n > 0 && kind(ctx_stack.get(n - 1)) == CtxKind::Lambda {
        ctx_stack.lambda_ctx().unwrap().captures.len()
    } else {
        0  // this value is never used

    };
    let mut first = true;
    let mut cap: Option<LambdaCapture> = None;
    let mut ret: Option<LVarInfo> = None;
    let mut scopes = ctx_stack.lvar_scopes();
    loop
        invariant_except_break
            scopes.ctx_stack.0@ == s,
            s == old(ctx_stack).0@,
            start == last_with_lvars(s),
            cap is None,
            ret is None,
            !scopes.finished ==> (start matches Some(cur0) && var_reach_ok(s, scopes.cur as int, name@)
                && var_scope(s, cur0, name@) == var_scope(s, scopes.cur as int, name@) && first == (scopes.cur
                == cur0) && scopes.cur <= cur0),
            scopes.finished ==> (start matches Some(cur0) ==> var_scope(s, cur0, name@) is None),
        ensures
            scopes.ctx_stack.0@ == s,
            start matches Some(cur0) ==> match var_scope(s, cur0, name@) {
                None => cap is None && ret is None,
                Some(j) => {
                    let c = s[j];
                    if has_lvar(c, name@) {
                        let v = ctx_lvars(c).unwrap().spec_get(name@).unwrap();
                        &&& !(updating && v.readonly)
                        &&& if j == cur0 {
                            cap is None && (ret matches Some(LVarInfo::CurrentScope { ty, name: nm }) && ty@ == v.ty@
                                && nm@ == name@)
                        } else {
                            &&& ret matches Some(LVarInfo::OuterScope { ty, cidx: ci, readonly }) && ty@ == v.ty@
                                && ci == cidx && !readonly
                            &&& cap matches Some(cp) && cp.ctx_depth == scope_depth(s, j) && cp.ty@ == v.ty@
                                && (cp.detail matches LambdaCaptureDetail::CapLVar { name: nm } && nm@ == name@)
                        }
                    } else {
                        let idx = spec_find_param(params_view(scope_params(c)), name@).unwrap();
                        let p = scope_params(c)[idx];
                        &&& !updating
                        &&& if j == cur0 {
                            cap is None && (ret matches Some(LVarInfo::Argument { ty, idx: i }) && ty@ == p.ty@ && i
                                == idx)
                        } else {
                            &&& ret matches Some(LVarInfo::OuterScope { ty, cidx: ci, readonly }) && ty@ == p.ty@
                                && ci == cidx && readonly
                            &&& cap matches Some(cp) && cp.ctx_depth == scope_depth(s, j) && cp.ty@ == p.ty@
                                && (cp.detail matches LambdaCaptureDetail::CapFnArg { idx: i } && i == idx)
                        }
                    }
                },
            },
            start is None ==> cap is None && ret is None,
        decreases (if scopes.finished {
            0int
        } else {
            scopes.cur + 1
        }),
    {
        let ghost cur = scopes.cur as int;
        let ghost was_finished = scopes.finished;
        let item = scopes.next();
        match item {
            None => break,
            Some((lvars, params, depth)) => {
                proof {
                    assert(!was_finished);
                    assert(*lvars == ctx_lvars(s[cur]).unwrap());
                    assert(params@ == scope_params(s[cur]));
                }
                // Local
                if let Some(lvar) = lvars.get(name) {
                    proof {
                        assert(has_lvar(s[cur], name@));
                        assert(var_scope(s, cur, name@) == Some(cur));
                    }
                    if updating && lvar.readonly {
                        let msg = concat(concat("cannot reassign to `", name).as_str(), "' (Hint: declare it with `var')");
                        proof {
                            reveal_strlit("cannot reassign to `");
                            reveal_strlit("' (Hint: declare it with `var')");
                        }
                        return Err(program_error(msg.as_str()));
                    }
                    if first {
                        ret = Some(LVarInfo::CurrentScope { ty: lvar.ty.copy(), name: to_owned(name) });
                        break;
                    } else {
                        // !first == there are more than one scope == we're in a lambda
                        // and capturing outer lvar
                        cap = Some(
                            LambdaCapture {
                                ctx_depth: depth,
                                ty: lvar.ty.copy(),
                                detail: LambdaCaptureDetail::CapLVar { name: to_owned(name) },
                            },
                        );
                        ret = Some(LVarInfo::OuterScope { ty: lvar.ty.copy(), cidx, readonly: false });
                        break;
                    }
                }
                // Arg
                if let Some((idx, param)) = find_param(params, name) {
                    proof {
                        assert(!has_lvar(s[cur], name@));
                        assert(var_scope(s, cur, name@) == Some(cur));
                    }
                    if updating {
                        let msg = concat(concat("you cannot reassign to argument `", name).as_str(), "'");
                        proof {
                            reveal_strlit("you cannot reassign to argument `");
                            reveal_strlit("'");
                        }
                        return Err(program_error(msg.as_str()));
                    }
                    if first {
                        return Ok(Some(LVarInfo::Argument { ty: param.ty.copy(), idx }));
                    } else {
                        // !first == there are more than one scope == we're in a lambda
                        // and capturing the outer arg
                        cap = Some(
                            LambdaCapture {
                                ctx_depth: depth,
                                ty: param.ty.copy(),
                                detail: LambdaCaptureDetail::CapFnArg { idx },
                            },
                        );
                        ret = Some(LVarInfo::OuterScope { ty: param.ty.copy(), cidx, readonly: true });
                        break;
                    }
                }
                proof {
                    assert(!has_var(s[cur], name@));
                }
                first = false;
            },
        }
    }
    if let Some(c) = cap {
        ctx_stack.push_lambda_capture(c);
    }
    Ok(ret)
}

} // verus!
