//! The syntax tree of Shiika programs.
use vstd::prelude::*;
use crate::names::{ClassFirstname, ConstName, MethodFirstname, method_firstname};
use crate::parser::token::Token;
use crate::strs::{str_eq, to_owned};

verus! {

/// A whole program
#[derive(Debug)]
pub struct Program {
    pub toplevel_items: Vec<TopLevelItem>,
}

/// A definition or an expression at the toplevel
#[derive(Debug)]
pub enum TopLevelItem {
    Def(Definition),
    Expr(AstExpression),
}

/// A definition of a class, an enum, a method or a constant
#[derive(Debug)]
pub enum Definition {
    ClassDefinition {
        name: ClassFirstname,
        typarams: Vec<String>,
        superclass: Option<ConstName>,
        defs: Vec<Definition>,
    },
    EnumDefinition { name: ClassFirstname, typarams: Vec<String>, cases: Vec<EnumCase> },
    InstanceMethodDefinition { sig: AstMethodSignature, body_exprs: Vec<AstExpression> },
    ClassMethodDefinition { sig: AstMethodSignature, body_exprs: Vec<AstExpression> },
    ConstDefinition { name: String, expr: AstExpression },
}

/// An expression, and whether it is primary (needs no parentheses to be a receiver)
#[derive(Debug)]
pub struct AstExpression {
    pub body: AstExpressionBody,
    pub primary: bool,
}

/// The kinds of expressions
#[derive(Debug)]
pub enum AstExpressionBody {
    LogicalNot { expr: Box<AstExpression> },
    LogicalAnd { left: Box<AstExpression>, right: Box<AstExpression> },
    LogicalOr { left: Box<AstExpression>, right: Box<AstExpression> },
    If {
        cond_expr: Box<AstExpression>,
        then_exprs: Vec<AstExpression>,
        else_exprs: Option<Vec<AstExpression>>,
    },
    While { cond_expr: Box<AstExpression>, body_exprs: Vec<AstExpression> },
    Break,
    Return { arg: Option<Box<AstExpression>> },
    LVarAssign {
        name: String,
        rhs: Box<AstExpression>,
        /// Whether declared with `var`
        is_var: bool,
    },
    IVarAssign {
        name: String,
        rhs: Box<AstExpression>,
        /// Whether declared with `var`
        is_var: bool,
    },
    ConstAssign { names: Vec<String>, rhs: Box<AstExpression> },
    MethodCall {
        receiver_expr: Option<Box<AstExpression>>,
        method_name: MethodFirstname,
        arg_exprs: Vec<AstExpression>,
        type_args: Vec<ConstName>,
        may_have_paren_wo_args: bool,
    },
    LambdaExpr {
        params: Vec<Param>,
        exprs: Vec<AstExpression>,
        /// true if this is from `fn(){}`. false if this is a block (do-end/{})
        is_fn: bool,
    },
    /// Local variable reference or method call with implicit receiver(self)
    BareName(String),
    IVarRef(String),
    ConstRef(ConstName),
    PseudoVariable(Token),
    ArrayLiteral(Vec<AstExpression>),
    /// A float literal, kept as the bits of its `f64` value
    FloatLiteral { value_bits: u64 },
    DecimalLiteral { value: i64 },
    StringLiteral { content: String },
}

/// A case of an enum definition
#[derive(Debug)]
pub struct EnumCase {
    pub name: ClassFirstname,
    pub typarams: Vec<String>,
    pub params: Vec<Param>,
}

/// The signature of a method as written
#[derive(Debug)]
pub struct AstMethodSignature {
    pub name: MethodFirstname,
    pub typarams: Vec<String>,
    pub params: Vec<Param>,
    /// None if the return type is omitted
    pub ret_typ: Option<ConstName>,
}

/// A parameter of a method as written
#[derive(Debug)]
pub struct Param {
    pub name: String,
    pub typ: ConstName,
    /// eg. `def initialize(@a: Int)`
    pub is_iparam: bool,
}

/// A type as written, eg. `Array<Int>`
#[derive(Debug)]
pub struct Typ {
    pub name: String,
    pub typ_args: Vec<Typ>,
}

/// Binary operators
#[derive(Debug, Clone, Copy, PartialEq, Eq, Structural)]
pub enum BinOp {
    Add,
    Sub,
    Mul,
    Div,
    Mod,
}

/// The name of the method that a binary operator calls
pub open spec fn spec_bin_op_method_name(op: BinOp) -> Seq<char> {
    match op {
        BinOp::Add => seq!['+'],
        BinOp::Sub => seq!['-'],
        BinOp::Mul => seq!['*'],
        BinOp::Div => seq!['/'],
        BinOp::Mod => seq!['%'],
    }
}

impl BinOp {
    /// The name of the method that this operator calls
    pub fn method_name(&self) -> (r: MethodFirstname)
        ensures
            r@ == spec_bin_op_method_name(*self),
    {
        proof {
            reveal_strlit("+");
            reveal_strlit("-");
            reveal_strlit("*");
            reveal_strlit("/");
            reveal_strlit("%");
        }
        let r = match self {
            BinOp::Add => method_firstname("+"),
            BinOp::Sub => method_firstname("-"),
            BinOp::Mul => method_firstname("*"),
            BinOp::Div => method_firstname("/"),
            BinOp::Mod => method_firstname("%"),
        };
        assert(r@ =~= spec_bin_op_method_name(*self));
        r
    }
}

/// `"initialize"`
pub open spec fn initialize_name() -> Seq<char> {
    seq!['i', 'n', 'i', 't', 'i', 'a', 'l', 'i', 'z', 'e']
}

/// Whether a definition is that of the instance method `initialize`
pub open spec fn spec_is_initializer(d: Definition) -> bool {
    match d {
        Definition::InstanceMethodDefinition { sig, .. } => sig.name@ == initialize_name(),
        _ => false,
    }
}

impl Definition {
    /// Whether this is the definition of `#initialize`
    pub fn is_initializer(&self) -> (r: bool)
        ensures
            r == spec_is_initializer(*self),
    {
        match self {
            Definition::InstanceMethodDefinition { sig, .. } => {
                proof {
                    reveal_strlit("initialize");
                    assert("initialize"@ =~= initialize_name());
                }
                str_eq(sig.name.0.as_str(), "initialize")
            },
            _ => false,
        }
    }
}

/// Whether an expression may be followed by arguments without parentheses
pub open spec fn spec_may_have_paren_wo_args(e: AstExpression) -> bool {
    match e.body {
        AstExpressionBody::MethodCall { may_have_paren_wo_args, .. } => may_have_paren_wo_args,
        AstExpressionBody::BareName(_) => true,
        _ => false,
    }
}

/// Whether an expression can be the left hand side of an assignment
pub open spec fn spec_is_lhs(e: AstExpression) -> bool {
    spec_may_have_paren_wo_args(e) || match e.body {
        AstExpressionBody::IVarRef(_) => true,
        AstExpressionBody::ConstRef(_) => true,
        AstExpressionBody::MethodCall { method_name, .. } => method_name@ == seq!['[', ']'],
        _ => false,
    }
}

impl AstExpression {
    /// Whether this may be followed by arguments without parentheses
    pub fn may_have_paren_wo_args(&self) -> (r: bool)
        ensures
            r == spec_may_have_paren_wo_args(*self),
    {
        match &self.body {
            AstExpressionBody::MethodCall { may_have_paren_wo_args, .. } => *may_have_paren_wo_args,
            AstExpressionBody::BareName(_) => true,
            _ => false,
        }
    }

    /// True if this can be the left hand side of an assignment
    pub fn is_lhs(&self) -> (r: bool)
        ensures
            r == spec_is_lhs(*self),
    {
        if self.may_have_paren_wo_args() {
            return true;
        }
        match &self.body {
            AstExpressionBody::IVarRef(_) => true,
            AstExpressionBody::ConstRef(_) => true,
            AstExpressionBody::MethodCall { method_name, .. } => {
                proof {
                    reveal_strlit("[]");
                    assert("[]"@ =~= seq!['[', ']']);
                }
                str_eq(method_name.0.as_str(), "[]")
            },
            _ => false,
        }
    }
}

pub fn logical_not(expr: AstExpression) -> (r: AstExpression)
    ensures
        r == non_primary(AstExpressionBody::LogicalNot { expr: Box::new(expr) }),
{
    non_primary_expression(AstExpressionBody::LogicalNot { expr: Box::new(expr) })
}

pub fn logical_and(left: AstExpression, right: AstExpression) -> (r: AstExpression)
    ensures
        r == non_primary(AstExpressionBody::LogicalAnd { left: Box::new(left), right: Box::new(right) }),
{
    non_primary_expression(AstExpressionBody::LogicalAnd { left: Box::new(left), right: Box::new(right) })
}

pub fn logical_or(left: AstExpression, right: AstExpression) -> (r: AstExpression)
    ensures
        r == non_primary(AstExpressionBody::LogicalOr { left: Box::new(left), right: Box::new(right) }),
{
    non_primary_expression(AstExpressionBody::LogicalOr { left: Box::new(left), right: Box::new(right) })
}

pub fn if_expr(cond_expr: AstExpression, then_exprs: Vec<AstExpression>, else_exprs: Option<Vec<AstExpression>>) -> (r:
    AstExpression)
    ensures
        r == non_primary(AstExpressionBody::If { cond_expr: Box::new(cond_expr), then_exprs, else_exprs }),
{
    non_primary_expression(AstExpressionBody::If { cond_expr: Box::new(cond_expr), then_exprs, else_exprs })
}

pub fn while_expr(cond_expr: AstExpression, body_exprs: Vec<AstExpression>) -> (r: AstExpression)
    ensures
        r == non_primary(AstExpressionBody::While { cond_expr: Box::new(cond_expr), body_exprs }),
{
    non_primary_expression(AstExpressionBody::While { cond_expr: Box::new(cond_expr), body_exprs })
}

pub fn break_expr() -> (r: AstExpression)
    ensures
        r == non_primary(AstExpressionBody::Break),
{
    non_primary_expression(AstExpressionBody::Break)
}

pub fn return_expr(arg: Option<AstExpression>) -> (r: AstExpression)
    ensures
        r == non_primary(
            AstExpressionBody::Return {
                arg: match arg {
                    Some(a) => Some(Box::new(a)),
                    None => None,
                },
            },
        ),
{
    let arg = match arg {
        Some(a) => Some(Box::new(a)),
        None => None,
    };
    non_primary_expression(AstExpressionBody::Return { arg })
}

/// Whether an expression can be assigned to by `assignment`
pub open spec fn is_assignable(e: AstExpression) -> bool {
    match e.body {
        AstExpressionBody::BareName(_) => true,
        AstExpressionBody::IVarRef(_) => true,
        AstExpressionBody::ConstRef(_) => true,
        AstExpressionBody::MethodCall { .. } => true,
        _ => false,
    }
}

/// Create an expression for an assigment
pub fn assignment(lhs: AstExpression, rhs: AstExpression) -> (r: AstExpression)
    requires
        is_assignable(lhs),
    ensures
        !r.primary,
        match lhs.body {
            AstExpressionBody::BareName(s) => r.body == AstExpressionBody::LVarAssign {
                name: s,
                rhs: Box::new(rhs),
                is_var: false,
            },
            AstExpressionBody::IVarRef(name) => r.body == AstExpressionBody::IVarAssign {
                name,
                rhs: Box::new(rhs),
                is_var: false,
            },
            AstExpressionBody::ConstRef(c) => r.body == AstExpressionBody::ConstAssign {
                names: c.names,
                rhs: Box::new(rhs),
            },
            AstExpressionBody::MethodCall { receiver_expr, method_name, arg_exprs, .. } => match r.body {
                AstExpressionBody::MethodCall {
                    receiver_expr: re,
                    method_name: mn,
                    arg_exprs: args,
                    type_args,
                    may_have_paren_wo_args,
                } => re == receiver_expr && mn@ == method_name@ + seq!['='] && args@ == arg_exprs@.push(rhs)
                    && type_args@.len() == 0 && !may_have_paren_wo_args,
                _ => false,
            },
            _ => false,
        },
{
    let body = match lhs.body {
        AstExpressionBody::BareName(s) => AstExpressionBody::LVarAssign {
            name: s,
            rhs: Box::new(rhs),
            is_var: false,
        },
        AstExpressionBody::IVarRef(name) => AstExpressionBody::IVarAssign {
            name,
            rhs: Box::new(rhs),
            is_var: false,
        },
        AstExpressionBody::ConstRef(const_name) => AstExpressionBody::ConstAssign {
            names: const_name.names,
            rhs: Box::new(rhs),
        },
        AstExpressionBody::MethodCall { receiver_expr, method_name, mut arg_exprs, .. } => {
            arg_exprs.push(rhs);
            proof { reveal_strlit("="); }
            AstExpressionBody::MethodCall {
                receiver_expr,
                method_name: method_name.append("="),
                arg_exprs,
                type_args: Vec::new(),
                may_have_paren_wo_args: false,
            }
        },
        _ => vstd::pervasive::unreached(),
    };
    non_primary_expression(body)
}

pub fn lvar_decl(name: String, rhs: AstExpression) -> (r: AstExpression)
    ensures
        r == non_primary(AstExpressionBody::LVarAssign { name, rhs: Box::new(rhs), is_var: true }),
{
    non_primary_expression(AstExpressionBody::LVarAssign { name, rhs: Box::new(rhs), is_var: true })
}

pub fn ivar_decl(name: String, rhs: AstExpression) -> (r: AstExpression)
    ensures
        r == non_primary(AstExpressionBody::IVarAssign { name, rhs: Box::new(rhs), is_var: true }),
{
    non_primary_expression(AstExpressionBody::IVarAssign { name, rhs: Box::new(rhs), is_var: true })
}

pub fn ivar_assign(name: String, rhs: AstExpression) -> (r: AstExpression)
    ensures
        r == non_primary(AstExpressionBody::IVarAssign { name, rhs: Box::new(rhs), is_var: false }),
{
    non_primary_expression(AstExpressionBody::IVarAssign { name, rhs: Box::new(rhs), is_var: false })
}

pub fn method_call(
    receiver_expr: Option<AstExpression>,
    method_name: &str,
    arg_exprs: Vec<AstExpression>,
    type_args: Vec<ConstName>,
    primary: bool,
    may_have_paren_wo_args: bool,
) -> (r: AstExpression)
    ensures
        r.primary == primary,
        match r.body {
            AstExpressionBody::MethodCall {
                receiver_expr: re,
                method_name: mn,
                arg_exprs: args,
                type_args: ta,
                may_have_paren_wo_args: m,
            } => re == (match receiver_expr {
                Some(e) => Some(Box::new(e)),
                None => None,
            }) && mn@ == method_name@ && args == arg_exprs && ta == type_args && m == may_have_paren_wo_args,
            _ => false,
        },
{
    let receiver_expr = match receiver_expr {
        Some(e) => Some(Box::new(e)),
        None => None,
    };
    AstExpression {
        primary,
        body: AstExpressionBody::MethodCall {
            receiver_expr,
            method_name: method_firstname(method_name),
            arg_exprs,
            type_args,
            may_have_paren_wo_args,
        },
    }
}

pub fn bare_name(name: &str) -> (r: AstExpression)
    ensures
        r.primary,
        r.body matches AstExpressionBody::BareName(s) && s@ == name@,
{
    primary_expression(AstExpressionBody::BareName(to_owned(name)))
}

pub fn ivar_ref(name: String) -> (r: AstExpression)
    ensures
        r == primary(AstExpressionBody::IVarRef(name)),
{
    primary_expression(AstExpressionBody::IVarRef(name))
}

pub fn const_ref(name: ConstName) -> (r: AstExpression)
    ensures
        r == primary(AstExpressionBody::ConstRef(name)),
{
    primary_expression(AstExpressionBody::ConstRef(name))
}

/// The call of the method `op` on `expr`, with no arguments
pub fn unary_expr(expr: AstExpression, op: &str) -> (r: AstExpression)
    ensures
        r.primary,
        match r.body {
            AstExpressionBody::MethodCall { receiver_expr, method_name, arg_exprs, type_args, may_have_paren_wo_args } =>
                receiver_expr == Some(Box::new(expr)) && method_name@ == op@ && arg_exprs@.len() == 0
                && type_args@.len() == 0 && !may_have_paren_wo_args,
            _ => false,
        },
{
    primary_expression(
        AstExpressionBody::MethodCall {
            receiver_expr: Some(Box::new(expr)),
            method_name: method_firstname(op),
            arg_exprs: Vec::new(),
            type_args: Vec::new(),
            may_have_paren_wo_args: false,
        },
    )
}

/// The call of the method `op` on `left` with the argument `right`
pub fn bin_op_expr(left: AstExpression, op: &str, right: AstExpression) -> (r: AstExpression)
    ensures
        !r.primary,
        match r.body {
            AstExpressionBody::MethodCall { receiver_expr, method_name, arg_exprs, type_args, may_have_paren_wo_args } =>
                receiver_expr == Some(Box::new(left)) && method_name@ == op@ && arg_exprs@ == seq![right]
                && type_args@.len() == 0 && !may_have_paren_wo_args,
            _ => false,
        },
{
    let mut args: Vec<AstExpression> = Vec::new();
    args.push(right);
    non_primary_expression(
        AstExpressionBody::MethodCall {
            receiver_expr: Some(Box::new(left)),
            method_name: method_firstname(op),
            arg_exprs: args,
            type_args: Vec::new(),
            may_have_paren_wo_args: false,
        },
    )
}

pub fn lambda_expr(params: Vec<Param>, exprs: Vec<AstExpression>, is_fn: bool) -> (r: AstExpression)
    ensures
        r == primary(AstExpressionBody::LambdaExpr { params, exprs, is_fn }),
{
    primary_expression(AstExpressionBody::LambdaExpr { params, exprs, is_fn })
}

pub fn pseudo_variable(token: Token) -> (r: AstExpression)
    ensures
        r == primary(AstExpressionBody::PseudoVariable(token)),
{
    primary_expression(AstExpressionBody::PseudoVariable(token))
}

pub fn array_literal(exprs: Vec<AstExpression>) -> (r: AstExpression)
    ensures
        r == primary(AstExpressionBody::ArrayLiteral(exprs)),
{
    primary_expression(AstExpressionBody::ArrayLiteral(exprs))
}

/// A float literal; the value is given as the bits of an `f64`
pub fn float_literal(value_bits: u64) -> (r: AstExpression)
    ensures
        r == primary(AstExpressionBody::FloatLiteral { value_bits }),
{
    primary_expression(AstExpressionBody::FloatLiteral { value_bits })
}

pub fn decimal_literal(value: i64) -> (r: AstExpression)
    ensures
        r == primary(AstExpressionBody::DecimalLiteral { value }),
{
    primary_expression(AstExpressionBody::DecimalLiteral { value })
}

pub fn string_literal(content: String) -> (r: AstExpression)
    ensures
        r == primary(AstExpressionBody::StringLiteral { content }),
{
    primary_expression(AstExpressionBody::StringLiteral { content })
}

/// A primary expression of the given body
pub open spec fn primary(body: AstExpressionBody) -> AstExpression {
    AstExpression { primary: true, body }
}

/// A non-primary expression of the given body
pub open spec fn non_primary(body: AstExpressionBody) -> AstExpression {
    AstExpression { primary: false, body }
}

pub fn primary_expression(body: AstExpressionBody) -> (r: AstExpression)
    ensures
        r == primary(body),
{
    AstExpression { primary: true, body }
}

pub fn non_primary_expression(body: AstExpressionBody) -> (r: AstExpression)
    ensures
        r == non_primary(body),
{
    AstExpression { primary: false, body }
}

/// Whether `set_method_call_args` can extend an expression: a method call without arguments,
/// or a bare name
pub open spec fn is_extendable(e: AstExpression) -> bool {
    match e.body {
        AstExpressionBody::MethodCall { arg_exprs, .. } => arg_exprs@.len() == 0,
        AstExpressionBody::BareName(_) => true,
        _ => false,
    }
}

/// Extend `foo.bar` to `foo.bar args`
/// (expr must be a MethodCall or a BareName)
pub fn set_method_call_args(expr: AstExpression, args: Vec<AstExpression>) -> (r: AstExpression)
    requires
        is_extendable(expr),
    ensures
        !r.primary,
        match expr.body {
            AstExpressionBody::MethodCall { receiver_expr, method_name, type_args, .. } => r.body
                == AstExpressionBody::MethodCall {
                receiver_expr,
                method_name,
                arg_exprs: args,
                type_args,
                may_have_paren_wo_args: false,
            },
            AstExpressionBody::BareName(s) => match r.body {
                AstExpressionBody::MethodCall {
                    receiver_expr,
                    method_name,
                    arg_exprs,
                    type_args,
                    may_have_paren_wo_args,
                } => receiver_expr is None && method_name@ == s@ && arg_exprs == args && type_args@.len() == 0
                    && !may_have_paren_wo_args,
                _ => false,
            },
            _ => false,
        },
{
    match expr.body {
        AstExpressionBody::MethodCall { receiver_expr, method_name, arg_exprs, type_args, .. } => {
            AstExpression {
                primary: false,
                body: AstExpressionBody::MethodCall {
                    receiver_expr,
                    method_name,
                    arg_exprs: args,
                    type_args,
                    may_have_paren_wo_args: false,
                },
            }
        },
        AstExpressionBody::BareName(s) => AstExpression {
            primary: false,
            body: AstExpressionBody::MethodCall {
                receiver_expr: None,
                method_name: method_firstname(s.as_str()),
                arg_exprs: args,
                type_args: Vec::new(),
                may_have_paren_wo_args: false,
            },
        },
        _ => vstd::pervasive::unreached(),
    }
}

/// The `Debug` form of a definition
pub uninterp spec fn definition_debug_text(d: Definition) -> Seq<char>;

/// `format!("{:?}", d)`: the derived `Debug` form of a definition, a function of the definition
#[verifier::external_body]
pub(crate) fn definition_debug(d: &Definition) -> (r: String)
    ensures
        r@ == definition_debug_text(*d),
{
    format!("{:?}", d)
}

} // verus!
