pub mod class_dict;
pub mod convert_exprs;
pub mod ctx_stack;
pub mod hir_maker_context;
pub mod index;
pub mod signature;
pub mod sk_class;
pub mod superclass;

use vstd::prelude::*;
use crate::hir::signature::{MethodParam, params_view};
use crate::hir::sk_class::SkClasses;
use crate::names::{ClassFullname, ConstFullname, ConstName, ConstNameV, MethodFullname, const_name, const_name_string};
use crate::str_map::StrMap;
use crate::strs::{concat, copy_string, decimal, spec_decimal, to_owned};
use crate::ty;
use crate::ty::{TermTy, TyV, spec_ary, spec_meta, spec_raw, spec_spe, views_of, spec_substitute};

verus! {

/// An instance variable of a class
#[derive(Debug)]
pub struct SkIVar {
    pub idx: usize,
    /// Without `@`
    pub name: String,
    pub ty: TermTy,
    pub readonly: bool,
}

/// The abstract value of an instance variable: (index, name, type, readonly)
impl View for SkIVar {
    type V = (usize, Seq<char>, TyV, bool);

    open spec fn view(&self) -> (usize, Seq<char>, TyV, bool) {
        (self.idx, self.name@, self.ty@, self.readonly)
    }
}

impl SkIVar {
    /// A copy of this instance variable
    pub fn copy(&self) -> (r: SkIVar)
        ensures
            r@ == self@,
    {
        SkIVar { idx: self.idx, name: copy_string(&self.name), ty: self.ty.copy(), readonly: self.readonly }
    }

    /// This instance variable as seen from a subclass that gives the type arguments `tyargs`
    pub fn substitute(&self, tyargs: &[TermTy]) -> (r: SkIVar)
        ensures
            r@ == (self.idx, self.name@, spec_substitute(self.ty@, views_of(tyargs@), Seq::empty()), self.readonly),
    {
        let none: &[TermTy] = &[];
        assert(views_of(none@) =~= Seq::<TyV>::empty());
        SkIVar {
            idx: self.idx,
            name: copy_string(&self.name),
            ty: self.ty.substitute(tyargs, none),
            readonly: self.readonly,
        }
    }
}

/// Denotes which variable to include in the `captures`
#[derive(Debug)]
pub enum HirLambdaCapture {
    /// Local variable
    CaptureLVar { name: String },
    /// Method/Function argument
    CaptureArg { idx: usize },
    /// Variable in the current `captures`
    /// `ty` is needed for bitcast
    CaptureFwd { cidx: usize, ty: TermTy },
}

/// Local variables, with their types
pub type HirLVars = Vec<(String, TermTy)>;

/// A program in HIR: its classes, constants, string literals, the initializers of its constants
/// and its toplevel expressions. (The bodies of the methods of the core library are generators
/// of LLVM code, which stay with the code generator.)
#[derive(Debug)]
pub struct Hir {
    pub sk_classes: SkClasses,
    pub constants: StrMap<TermTy>,
    pub str_literals: Vec<String>,
    pub const_inits: Vec<HirExpression>,
    pub main_exprs: HirExpressions,
    /// Local variables in `main_exprs`
    pub main_lvars: HirLVars,
}

/// A sequence of expressions, and the type of its value (that of the last one)
#[derive(Debug)]
pub struct HirExpressions {
    pub ty: TermTy,
    pub exprs: Vec<HirExpression>,
}

/// An expression of HIR, with its type
#[derive(Debug)]
pub struct HirExpression {
    pub ty: TermTy,
    pub node: HirExpressionBase,
}

/// The kinds of expressions of HIR
#[derive(Debug)]
pub enum HirExpressionBase {
    HirLogicalNot { expr: Box<HirExpression> },
    HirLogicalAnd { left: Box<HirExpression>, right: Box<HirExpression> },
    HirLogicalOr { left: Box<HirExpression>, right: Box<HirExpression> },
    HirIfExpression {
        cond_expr: Box<HirExpression>,
        then_exprs: Box<HirExpressions>,
        /// may be a dummy expression
        else_exprs: Box<HirExpressions>,
    },
    HirWhileExpression { cond_expr: Box<HirExpression>, body_exprs: Box<HirExpressions> },
    HirBreakExpression,
    HirLVarAssign { name: String, rhs: Box<HirExpression> },
    HirIVarAssign { name: String, idx: usize, rhs: Box<HirExpression>, writable: bool },
    HirConstAssign { fullname: ConstFullname, rhs: Box<HirExpression> },
    HirMethodCall {
        receiver_expr: Box<HirExpression>,
        method_fullname: MethodFullname,
        arg_exprs: Vec<HirExpression>,
    },
    HirArgRef { idx: usize },
    HirLVarRef { name: String },
    HirIVarRef { name: String, idx: usize },
    HirConstRef { name: ConstName },
    HirLambdaExpr {
        name: String,
        params: Vec<MethodParam>,
        exprs: HirExpressions,
        captures: Vec<HirLambdaCapture>,
        lvars: HirLVars,
    },
    HirSelfExpression,
    HirArrayLiteral { exprs: Vec<HirExpression> },
    /// A float literal, by the bits of its IEEE 754 double
    HirFloatLiteral { value_bits: u64 },
    HirDecimalLiteral { value: i64 },
    /// A string literal. Its body is stored in str_literals
    HirStringLiteral { idx: usize },
    HirBooleanLiteral { value: bool },
    //
    // Special opecodes (does not appear in a source program directly)
    //
    /// Refer a variable in `captures`
    HirLambdaCaptureRef {
        idx: usize,
        /// Whether this capture is a readonly one (i.e. passed by value)
        readonly: bool,
    },
    /// Reassign to a variable in `captures`
    HirLambdaCaptureWrite { arity: usize, cidx: usize, rhs: Box<HirExpression> },
    /// Represents bitcast of an object
    HirBitCast { expr: Box<HirExpression> },
    /// A special expression that evaluates to a class
    /// (eg. `class A; end; A = 1` shadows A, but this special expr
    /// is never be shadowed)
    HirClassLiteral { fullname: ClassFullname, str_literal_idx: usize },
}

/// Whether `e` refers to the constant `::Void`
pub open spec fn is_void_const_ref(e: HirExpression) -> bool {
    &&& e.ty@ == spec_raw("Void"@)
    &&& e.node matches HirExpressionBase::HirConstRef { name } && name@ == (ConstNameV {
        names: seq!["Void"@],
        args: Seq::empty(),
    })
}

/// Make a HirExpression to refer `::Void`
fn void_const_ref() -> (r: HirExpression)
    ensures
        is_void_const_ref(r),
{
    let name = const_name(vec![to_owned("Void")]);
    assert(name@.names =~= seq!["Void"@]);
    assert(name@.args =~= Seq::<ConstNameV>::empty());
    Hir::const_ref(ty::raw("Void"), name)
}

impl HirExpressions {
    /// The expressions `exprs` (`::Void` if there are none), typed as the last one
    pub fn new(exprs: Vec<HirExpression>) -> (r: HirExpressions)
        ensures
            exprs@.len() > 0 ==> r.exprs@ == exprs@ && r.ty@ == exprs@.last().ty@,
            exprs@.len() == 0 ==> r.exprs@.len() == 1 && is_void_const_ref(r.exprs@[0]) && r.ty@ == spec_raw(
                "Void"@,
            ),
    {
        let mut exprs = exprs;
        if exprs.len() == 0 {
            exprs.push(void_const_ref());
        }
        let ty = exprs[exprs.len() - 1].ty.copy();
        HirExpressions { ty, exprs }
    }

    /// Change the type of `self` to `Void`
    pub fn voidify(&mut self)
        ensures
            final(self).exprs@.len() == old(self).exprs@.len() + 1,
            final(self).exprs@.take(old(self).exprs@.len() as int) == old(self).exprs@,
            is_void_const_ref(final(self).exprs@.last()),
            final(self).ty@ == spec_raw("Void"@),
    {
        self.exprs.push(void_const_ref());
        self.ty = ty::raw("Void");
        assert(self.exprs@.take(old(self).exprs@.len() as int) =~= old(self).exprs@);
    }
}

/// The type of a lambda with the parameters `params` that returns `ret`: `FnN<..params, ret>`
pub open spec fn lambda_ty_v(params: Seq<(Seq<char>, TyV)>, ret: TyV) -> TyV {
    spec_spe("Fn"@ + spec_decimal(params.len()), Seq::new(params.len(), |i: int| params[i].1).push(ret))
}

/// The type of a lambda with the parameters `params` that returns `ret_ty`
fn lambda_ty(params: &Vec<MethodParam>, ret_ty: &TermTy) -> (r: TermTy)
    ensures
        r@ == lambda_ty_v(params_view(params@), ret_ty@),
{
    let ghost ps = params_view(params@);
    let mut tyargs: Vec<TermTy> = Vec::new();
    let mut i: usize = 0;
    while i < params.len()
        invariant
            0 <= i <= params@.len(),
            ps == params_view(params@),
            views_of(tyargs@) =~= Seq::new(i as nat, |j: int| ps[j].1),
        decreases params.len() - i,
    {
        let t = params[i].ty.copy();
        proof {
            ty::lemma_views_push(tyargs@, t);
        }
        tyargs.push(t);
        i += 1;
    }
    let r = ret_ty.copy();
    proof {
        ty::lemma_views_push(tyargs@, r);
    }
    tyargs.push(r);
    let name = concat("Fn", decimal(params.len()).as_str());
    proof {
        reveal_strlit("Fn");
    }
    ty::spe(name.as_str(), tyargs)
}

impl Hir {
    pub fn expressions(exprs: Vec<HirExpression>) -> (r: HirExpressions)
        ensures
            exprs@.len() > 0 ==> r.exprs@ == exprs@ && r.ty@ == exprs@.last().ty@,
            exprs@.len() == 0 ==> r.exprs@.len() == 1 && is_void_const_ref(r.exprs@[0]) && r.ty@ == spec_raw(
                "Void"@,
            ),
    {
        HirExpressions::new(exprs)
    }

    pub fn logical_not(expr_hir: HirExpression) -> (r: HirExpression)
        ensures
            r.ty@ == spec_raw("Bool"@),
            r.node == (HirExpressionBase::HirLogicalNot { expr: Box::new(expr_hir) }),
    {
        HirExpression { ty: ty::raw("Bool"), node: HirExpressionBase::HirLogicalNot { expr: Box::new(expr_hir) } }
    }

    pub fn logical_and(left_hir: HirExpression, right_hir: HirExpression) -> (r: HirExpression)
        ensures
            r.ty@ == spec_raw("Bool"@),
            r.node == (HirExpressionBase::HirLogicalAnd { left: Box::new(left_hir), right: Box::new(right_hir) }),
    {
        HirExpression {
            ty: ty::raw("Bool"),
            node: HirExpressionBase::HirLogicalAnd { left: Box::new(left_hir), right: Box::new(right_hir) },
        }
    }

    pub fn logical_or(left_hir: HirExpression, right_hir: HirExpression) -> (r: HirExpression)
        ensures
            r.ty@ == spec_raw("Bool"@),
            r.node == (HirExpressionBase::HirLogicalOr { left: Box::new(left_hir), right: Box::new(right_hir) }),
    {
        HirExpression {
            ty: ty::raw("Bool"),
            node: HirExpressionBase::HirLogicalOr { left: Box::new(left_hir), right: Box::new(right_hir) },
        }
    }

    pub fn if_expression(ty: TermTy, cond_hir: HirExpression, then_hir: HirExpressions, else_hir: HirExpressions) -> (r:
        HirExpression)
        ensures
            r.ty == ty,
            r.node == (HirExpressionBase::HirIfExpression {
                cond_expr: Box::new(cond_hir),
                then_exprs: Box::new(then_hir),
                else_exprs: Box::new(else_hir),
            }),
    {
        HirExpression {
            ty,
            node: HirExpressionBase::HirIfExpression {
                cond_expr: Box::new(cond_hir),
                then_exprs: Box::new(then_hir),
                else_exprs: Box::new(else_hir),
            },
        }
    }

    pub fn while_expression(cond_hir: HirExpression, body_hirs: HirExpressions) -> (r: HirExpression)
        ensures
            r.ty@ == spec_raw("Void"@),
            r.node == (HirExpressionBase::HirWhileExpression {
                cond_expr: Box::new(cond_hir),
                body_exprs: Box::new(body_hirs),
            }),
    {
        HirExpression {
            ty: ty::raw("Void"),
            node: HirExpressionBase::HirWhileExpression { cond_expr: Box::new(cond_hir), body_exprs: Box::new(body_hirs) },
        }
    }

    pub fn break_expression() -> (r: HirExpression)
        ensures
            r.ty@ == spec_raw("Never"@),
            r.node is HirBreakExpression,
    {
        HirExpression { ty: ty::raw("Never"), node: HirExpressionBase::HirBreakExpression }
    }

    pub fn assign_lvar(name: &str, rhs: HirExpression) -> (r: HirExpression)
        ensures
            r.ty@ == rhs.ty@,
            r.node matches HirExpressionBase::HirLVarAssign { name: n, rhs: e } && n@ == name@ && *e == rhs,
    {
        HirExpression {
            ty: rhs.ty.copy(),
            node: HirExpressionBase::HirLVarAssign { name: to_owned(name), rhs: Box::new(rhs) },
        }
    }

    pub fn assign_ivar(name: &str, idx: usize, rhs: HirExpression, writable: bool) -> (r: HirExpression)
        ensures
            r.ty@ == rhs.ty@,
            r.node matches HirExpressionBase::HirIVarAssign { name: n, idx: i, rhs: e, writable: w } && n@ == name@
                && i == idx && *e == rhs && w == writable,
    {
        HirExpression {
            ty: rhs.ty.copy(),
            node: HirExpressionBase::HirIVarAssign { name: to_owned(name), idx, rhs: Box::new(rhs), writable },
        }
    }

    pub fn assign_const(fullname: ConstFullname, rhs: HirExpression) -> (r: HirExpression)
        ensures
            r.ty@ == rhs.ty@,
            r.node == (HirExpressionBase::HirConstAssign { fullname, rhs: Box::new(rhs) }),
    {
        HirExpression { ty: rhs.ty.copy(), node: HirExpressionBase::HirConstAssign { fullname, rhs: Box::new(rhs) } }
    }

    pub fn method_call(
        result_ty: TermTy,
        receiver_hir: HirExpression,
        method_fullname: MethodFullname,
        arg_hirs: Vec<HirExpression>,
    ) -> (r: HirExpression)
        ensures
            r.ty == result_ty,
            r.node == (HirExpressionBase::HirMethodCall {
                receiver_expr: Box::new(receiver_hir),
                method_fullname,
                arg_exprs: arg_hirs,
            }),
    {
        HirExpression {
            ty: result_ty,
            node: HirExpressionBase::HirMethodCall {
                receiver_expr: Box::new(receiver_hir),
                method_fullname,
                arg_exprs: arg_hirs,
            },
        }
    }

    pub fn hir_arg_ref(ty: TermTy, idx: usize) -> (r: HirExpression)
        ensures
            r.ty == ty,
            r.node == (HirExpressionBase::HirArgRef { idx }),
    {
        HirExpression { ty, node: HirExpressionBase::HirArgRef { idx } }
    }

    pub fn lvar_ref(ty: TermTy, name: String) -> (r: HirExpression)
        ensures
            r.ty == ty,
            r.node == (HirExpressionBase::HirLVarRef { name }),
    {
        HirExpression { ty, node: HirExpressionBase::HirLVarRef { name } }
    }

    pub fn ivar_ref(ty: TermTy, name: String, idx: usize) -> (r: HirExpression)
        ensures
            r.ty == ty,
            r.node == (HirExpressionBase::HirIVarRef { name, idx }),
    {
        HirExpression { ty, node: HirExpressionBase::HirIVarRef { name, idx } }
    }

    pub fn const_ref(ty: TermTy, name: ConstName) -> (r: HirExpression)
        ensures
            r.ty == ty,
            r.node == (HirExpressionBase::HirConstRef { name }),
    {
        HirExpression { ty, node: HirExpressionBase::HirConstRef { name } }
    }

    /// The `n`th lambda: named `lambda_n`, of the type `FnN<..params, type of exprs>`; it takes
    /// the captured variables as an extra last parameter
    pub fn lambda_expr(
        n: usize,
        params: Vec<MethodParam>,
        exprs: HirExpressions,
        captures: Vec<HirLambdaCapture>,
        lvars: HirLVars,
    ) -> (r: HirExpression)
        ensures
            r.ty@ == lambda_ty_v(params_view(params@), exprs.ty@),
            r.node matches HirExpressionBase::HirLambdaExpr { name, params: ps, exprs: e, captures: c, lvars: l } && {
                &&& name@ == "lambda_"@ + spec_decimal(n as nat)
                &&& ps@.len() == params@.len() + 1
                &&& ps@.take(params@.len() as int) == params@
                &&& ps@.last()@ == ("(captures)"@, spec_ary(spec_raw("Object"@)))
                &&& e == exprs
                &&& c == captures
                &&& l == lvars
            },
    {
        let name = concat("lambda_", decimal(n).as_str());
        let ty = lambda_ty(&params, &exprs.ty);
        let mut params = params;
        let ghost before = params@;
        params.push(MethodParam { name: to_owned("(captures)"), ty: ty::ary(ty::raw("Object")) });
        assert(params@.take(before.len() as int) =~= before);
        HirExpression { ty, node: HirExpressionBase::HirLambdaExpr { name, params, exprs, captures, lvars } }
    }

    pub fn self_expression(ty: TermTy) -> (r: HirExpression)
        ensures
            r.ty == ty,
            r.node is HirSelfExpression,
    {
        HirExpression { ty, node: HirExpressionBase::HirSelfExpression }
    }

    pub fn array_literal(exprs: Vec<HirExpression>, ty: TermTy) -> (r: HirExpression)
        ensures
            r.ty == ty,
            r.node == (HirExpressionBase::HirArrayLiteral { exprs }),
    {
        HirExpression { ty, node: HirExpressionBase::HirArrayLiteral { exprs } }
    }

    /// A float literal, given by the bits of its IEEE 754 double
    pub fn float_literal(value_bits: u64) -> (r: HirExpression)
        ensures
            r.ty@ == spec_raw("Float"@),
            r.node == (HirExpressionBase::HirFloatLiteral { value_bits }),
    {
        HirExpression { ty: ty::raw("Float"), node: HirExpressionBase::HirFloatLiteral { value_bits } }
    }

    pub fn decimal_literal(value: i64) -> (r: HirExpression)
        ensures
            r.ty@ == spec_raw("Int"@),
            r.node == (HirExpressionBase::HirDecimalLiteral { value }),
    {
        HirExpression { ty: ty::raw("Int"), node: HirExpressionBase::HirDecimalLiteral { value } }
    }

    pub fn string_literal(idx: usize) -> (r: HirExpression)
        ensures
            r.ty@ == spec_raw("String"@),
            r.node == (HirExpressionBase::HirStringLiteral { idx }),
    {
        HirExpression { ty: ty::raw("String"), node: HirExpressionBase::HirStringLiteral { idx } }
    }

    pub fn boolean_literal(value: bool) -> (r: HirExpression)
        ensures
            r.ty@ == spec_raw("Bool"@),
            r.node == (HirExpressionBase::HirBooleanLiteral { value }),
    {
        HirExpression { ty: ty::raw("Bool"), node: HirExpressionBase::HirBooleanLiteral { value } }
    }

    pub fn bit_cast(ty: TermTy, expr: HirExpression) -> (r: HirExpression)
        ensures
            r.ty == ty,
            r.node == (HirExpressionBase::HirBitCast { expr: Box::new(expr) }),
    {
        HirExpression { ty, node: HirExpressionBase::HirBitCast { expr: Box::new(expr) } }
    }

    /// The class `name` itself, whose name is the string literal `str_literal_idx`
    pub fn class_literal(name: &ConstName, str_literal_idx: usize) -> (r: HirExpression)
        ensures
            r.ty@ == spec_meta(const_name_string(name@)),
            r.node matches HirExpressionBase::HirClassLiteral { fullname, str_literal_idx: i } && fullname@
                == const_name_string(name@) && i == str_literal_idx,
    {
        let fullname = name.to_class_fullname();
        HirExpression {
            ty: fullname.class_ty(),
            node: HirExpressionBase::HirClassLiteral { fullname, str_literal_idx },
        }
    }

    pub fn lambda_capture_ref(ty: TermTy, idx: usize, readonly: bool) -> (r: HirExpression)
        ensures
            r.ty == ty,
            r.node == (HirExpressionBase::HirLambdaCaptureRef { idx, readonly }),
    {
        HirExpression { ty, node: HirExpressionBase::HirLambdaCaptureRef { idx, readonly } }
    }

    pub fn lambda_capture_write(arity: usize, cidx: usize, rhs: HirExpression) -> (r: HirExpression)
        ensures
            r.ty@ == rhs.ty@,
            r.node == (HirExpressionBase::HirLambdaCaptureWrite { arity, cidx, rhs: Box::new(rhs) }),
    {
        HirExpression {
            ty: rhs.ty.copy(),
            node: HirExpressionBase::HirLambdaCaptureWrite { arity, cidx, rhs: Box::new(rhs) },
        }
    }
}

} // verus!
