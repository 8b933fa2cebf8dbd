//! The contexts that the HIR maker keeps while walking a program.
use vstd::prelude::*;
use crate::hir::SkIVar;
use crate::hir::signature::{MethodParam, MethodSignature};
use crate::names::Namespace;
use crate::str_map::StrMap;
use crate::ty::TermTy;

verus! {

#[derive(Debug)]
pub enum HirMakerContext {
    Toplevel(ToplevelCtx),
    Class(ClassCtx),
    Method(MethodCtx),
    Lambda(LambdaCtx),
    While(WhileCtx),
    MatchClause(MatchClauseCtx),
}

#[derive(Debug)]
pub struct ToplevelCtx {
    /// Current local variables
    pub lvars: CtxLVars,
}

#[derive(Debug)]
pub struct ClassCtx {
    /// Current namespace
    pub namespace: Namespace,
    /// Names of class type parameters
    pub typarams: Vec<String>,
    /// Current local variables
    pub lvars: CtxLVars,
}

#[derive(Debug)]
pub struct MethodCtx {
    /// Signature of the current method
    pub signature: MethodSignature,
    /// Current local variables
    pub lvars: CtxLVars,
    /// List of instance variables in an initializer found so far.
    /// Empty if the method is not `#initialize`
    pub iivars: StrMap<SkIVar>,
    /// List of inherited ivars
    /// Empty if the method is not `#initialize`
    pub super_ivars: StrMap<SkIVar>,
}

#[derive(Debug)]
pub struct LambdaCtx {
    /// true if this lambda is `fn(){}`. false if it is a block (`do..end`,`{...}`)
    pub is_fn: bool,
    /// Parameters of the lambda
    pub params: Vec<MethodParam>,
    /// Current local variables
    pub lvars: CtxLVars,
    /// List of free variables captured in this context
    pub captures: Vec<LambdaCapture>,
    /// true if this lambda has `break`
    pub has_break: bool,
}

/// Indicates we're in a while expr
#[derive(Debug)]
pub struct WhileCtx {}

/// Each clause of match expression has its own lvars
#[derive(Debug)]
pub struct MatchClauseCtx {
    /// Local variables introduced when matched
    pub lvars: CtxLVars,
}

/// A local variable
#[derive(Debug)]
pub struct CtxLVar {
    pub name: String,
    pub ty: TermTy,
    pub readonly: bool,
}

/// Local variables by name
pub type CtxLVars = StrMap<CtxLVar>;

#[derive(Debug)]
pub struct LambdaCapture {
    /// The index of `self.ctx.lambdas` where this lvar is captured.
    /// -1 if it is captured in `self.ctx.method` or `self.ctx.toplevel`
    pub ctx_depth: isize,
    pub ty: TermTy,
    pub detail: LambdaCaptureDetail,
}

#[derive(Debug)]
pub enum LambdaCaptureDetail {
    CapLVar { name: String },
    CapFnArg { idx: usize },
}

/// The local variables of a context (a `while` has none of its own)
pub open spec fn ctx_lvars(c: HirMakerContext) -> Option<CtxLVars> {
    match c {
        HirMakerContext::Toplevel(x) => Some(x.lvars),
        HirMakerContext::Class(x) => Some(x.lvars),
        HirMakerContext::Method(x) => Some(x.lvars),
        HirMakerContext::Lambda(x) => Some(x.lvars),
        HirMakerContext::MatchClause(x) => Some(x.lvars),
        HirMakerContext::While(_) => None,
    }
}

/// The context `c` with its local variables replaced by `l`
pub open spec fn with_lvars(c: HirMakerContext, l: CtxLVars) -> HirMakerContext {
    match c {
        HirMakerContext::Toplevel(x) => HirMakerContext::Toplevel(ToplevelCtx { lvars: l, ..x }),
        HirMakerContext::Class(x) => HirMakerContext::Class(ClassCtx { lvars: l, ..x }),
        HirMakerContext::Method(x) => HirMakerContext::Method(MethodCtx { lvars: l, ..x }),
        HirMakerContext::Lambda(x) => HirMakerContext::Lambda(LambdaCtx { lvars: l, ..x }),
        HirMakerContext::MatchClause(x) => HirMakerContext::MatchClause(MatchClauseCtx { lvars: l, ..x }),
        HirMakerContext::While(x) => HirMakerContext::While(x),
    }
}

impl HirMakerContext {
    /// Get the hashmap of local variables
    pub fn opt_lvars(&mut self) -> (r: Option<&mut CtxLVars>)
        ensures
            match ctx_lvars(*old(self)) {
                Some(l) => r is Some && *r->0 == l && *final(self) == with_lvars(*old(self), *final(r->0)),
                None => r is None && *final(self) == *old(self),
            },
    {
        match self {
            HirMakerContext::Toplevel(c) => Some(&mut c.lvars),
            HirMakerContext::Class(c) => Some(&mut c.lvars),
            HirMakerContext::Method(c) => Some(&mut c.lvars),
            HirMakerContext::Lambda(c) => Some(&mut c.lvars),
            HirMakerContext::MatchClause(c) => Some(&mut c.lvars),
            HirMakerContext::While(_) => None,
        }
    }

    pub fn toplevel() -> (r: HirMakerContext)
        ensures
            r matches HirMakerContext::Toplevel(c) && c.lvars.entries@.len() == 0,
    {
        HirMakerContext::Toplevel(ToplevelCtx { lvars: StrMap::new() })
    }

    pub fn class(namespace: Namespace, typarams: Vec<String>) -> (r: HirMakerContext)
        ensures
            r matches HirMakerContext::Class(c) && c.namespace == namespace && c.typarams == typarams
                && c.lvars.entries@.len() == 0,
    {
        HirMakerContext::Class(ClassCtx { namespace, typarams, lvars: StrMap::new() })
    }

    pub fn method(signature: MethodSignature, super_ivars: Option<StrMap<SkIVar>>) -> (r: HirMakerContext)
        ensures
            r matches HirMakerContext::Method(c) && c.signature == signature && c.lvars.entries@.len() == 0
                && c.iivars.entries@.len() == 0 && match super_ivars {
                Some(s) => c.super_ivars == s,
                None => c.super_ivars.entries@.len() == 0,
            },
    {
        let super_ivars = match super_ivars {
            Some(s) => s,
            None => StrMap::new(),
        };
        HirMakerContext::Method(MethodCtx { signature, lvars: StrMap::new(), iivars: StrMap::new(), super_ivars })
    }

    pub fn lambda(is_fn: bool, params: Vec<MethodParam>) -> (r: HirMakerContext)
        ensures
            r matches HirMakerContext::Lambda(c) && c.is_fn == is_fn && c.params == params
                && c.lvars.entries@.len() == 0 && c.captures@.len() == 0 && !c.has_break,
    {
        HirMakerContext::Lambda(LambdaCtx {
            is_fn,
            params,
            lvars: StrMap::new(),
            captures: Vec::new(),
            has_break: false,
        })
    }

    // `while' is Rust's keyword
    pub fn while_ctx() -> (r: HirMakerContext)
        ensures
            r is While,
    {
        HirMakerContext::While(WhileCtx {})
    }

    pub fn match_clause() -> (r: HirMakerContext)
        ensures
            r matches HirMakerContext::MatchClause(c) && c.lvars.entries@.len() == 0,
    {
        HirMakerContext::MatchClause(MatchClauseCtx { lvars: StrMap::new() })
    }
}

} // verus!
