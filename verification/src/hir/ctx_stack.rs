//! The stack of contexts of the HIR maker.
use vstd::prelude::*;
use crate::hir::hir_maker_context::{
    ctx_lvars, with_lvars, ClassCtx, CtxLVar, CtxLVars, HirMakerContext, LambdaCapture, LambdaCtx,
    MethodCtx, ToplevelCtx,
};
use crate::hir::signature::{copy_strings, MethodParam, initialize_word};
use crate::names::{lemma_strlits, meta_prefix, position, position_of, seq_starts_with, sep2, Namespace};
use crate::strs::{copy_string, seq_join, str_eq, strings_view, to_owned};
use crate::ty;
use crate::ty::{TermTy, TyBodyV, TyParamKind, TyV};

verus! {

/// The kinds of contexts
#[derive(Debug, Clone, Copy, PartialEq, Eq, Structural)]
pub enum CtxKind {
    Toplevel,
    Class,
    Method,
    Lambda,
    While,
    MatchClause,
}

pub open spec fn kind_of(c: HirMakerContext) -> CtxKind {
    match c {
        HirMakerContext::Toplevel(_) => CtxKind::Toplevel,
        HirMakerContext::Class(_) => CtxKind::Class,
        HirMakerContext::Method(_) => CtxKind::Method,
        HirMakerContext::Lambda(_) => CtxKind::Lambda,
        HirMakerContext::While(_) => CtxKind::While,
        HirMakerContext::MatchClause(_) => CtxKind::MatchClause,
    }
}

/// Whether a context has local variables of its own
pub open spec fn has_lvars(k: CtxKind) -> bool {
    k != CtxKind::While
}

/// Whether a context makes a constant scope
pub open spec fn is_namespace_kind(k: CtxKind) -> bool {
    k == CtxKind::Toplevel || k == CtxKind::Class
}

/// The index of the topmost context of kind `k`, if any
pub open spec fn last_of_kind(s: Seq<HirMakerContext>, k: CtxKind) -> Option<int>
    decreases s.len(),
{
    if s.len() == 0 {
        None
    } else if kind_of(s.last()) == k {
        Some(s.len() - 1)
    } else {
        last_of_kind(s.drop_last(), k)
    }
}

/// The index of the topmost context that has local variables, if any
pub open spec fn last_with_lvars(s: Seq<HirMakerContext>) -> Option<int>
    decreases s.len(),
{
    if s.len() == 0 {
        None
    } else if has_lvars(kind_of(s.last())) {
        Some(s.len() - 1)
    } else {
        last_with_lvars(s.drop_last())
    }
}

/// The index of the topmost context at or below `cur` that makes a constant scope, if any
pub open spec fn last_namespace_upto(s: Seq<HirMakerContext>, cur: int) -> Option<int>
    decreases cur + 1,
{
    if cur < 0 || cur >= s.len() {
        None
    } else if is_namespace_kind(kind_of(s[cur])) {
        Some(cur)
    } else {
        last_namespace_upto(s, cur - 1)
    }
}

pub open spec fn class_of(c: HirMakerContext) -> ClassCtx {
    match c {
        HirMakerContext::Class(x) => x,
        _ => arbitrary(),
    }
}

pub open spec fn method_of(c: HirMakerContext) -> MethodCtx {
    match c {
        HirMakerContext::Method(x) => x,
        _ => arbitrary(),
    }
}

pub open spec fn lambda_of(c: HirMakerContext) -> LambdaCtx {
    match c {
        HirMakerContext::Lambda(x) => x,
        _ => arbitrary(),
    }
}

/// Whether a method of this full name is a class method
pub open spec fn is_class_method_name(fullname: Seq<char>) -> bool {
    seq_starts_with(fullname, meta_prefix())
}

/// A description of the current place: the enclosing method, or else the top context
pub open spec fn spec_describe(s: Seq<HirMakerContext>) -> Seq<char> {
    match last_of_kind(s, CtxKind::Method) {
        Some(i) => method_of(s[i]).signature.fullname.full_name@,
        None => match s.last() {
            HirMakerContext::Toplevel(_) => "toplevel"@,
            HirMakerContext::Class(c) => seq_join(c.namespace@, sep2()),
            HirMakerContext::Method(c) => c.signature.fullname.full_name@,
            HirMakerContext::Lambda(_) => "lambda"@,
            HirMakerContext::While(_) => "while"@,
            HirMakerContext::MatchClause(_) => "match clause"@,
        },
    }
}

/// The type of `self`: the instances of the enclosing class inside a method, the class object
/// outside methods, and `Object` outside classes
pub open spec fn spec_self_ty(s: Seq<HirMakerContext>) -> TyV {
    match last_of_kind(s, CtxKind::Class) {
        Some(ci) => {
            let name = seq_join(class_of(s[ci]).namespace@, sep2());
            if last_of_kind(s, CtxKind::Method) is Some {
                ty::spec_raw(name)
            } else {
                ty::spec_meta(name)
            }
        },
        None => ty::spec_raw(seq!['O', 'b', 'j', 'e', 'c', 't']),
    }
}

/// The type parameter named `name` visible in the enclosing method, if any
pub open spec fn spec_lookup_typaram(s: Seq<HirMakerContext>, name: Seq<char>) -> Option<TyV> {
    match last_of_kind(s, CtxKind::Method) {
        None => None,
        Some(mi) => {
            let m = method_of(s[mi]);
            match position_of(strings_view(m.signature.typarams@), name) {
                Some(i) => Some(ty::spec_typaram(name, TyParamKind::Method, i as nat)),
                None => match last_of_kind(s, CtxKind::Class) {
                    None => None,
                    Some(ci) => if is_class_method_name(m.signature.fullname.full_name@) {
                        None
                    } else {
                        match position_of(strings_view(class_of(s[ci]).typarams@), name) {
                            Some(i) => Some(ty::spec_typaram(name, TyParamKind::Class, i as nat)),
                            None => None,
                        }
                    },
                },
            }
        },
    }
}

/// Inside a method, a type parameter of the method named `name` is found as that method type
/// parameter, with the index of the first of the method's type parameters of that name.
pub proof fn law_lookup_typaram_of_method(s: Seq<HirMakerContext>, name: Seq<char>)
    requires
        last_of_kind(s, CtxKind::Method) is Some,
        strings_view(method_of(s[last_of_kind(s, CtxKind::Method).unwrap()]).signature.typarams@).contains(name),
    ensures
        ({
            let tps = strings_view(method_of(s[last_of_kind(s, CtxKind::Method).unwrap()]).signature.typarams@);
            spec_lookup_typaram(s, name) matches Some(t) && t.fullname == name && (t.body matches TyBodyV::Param {
                kind,
                name: n,
                idx,
            } && kind == TyParamKind::Method && n == name && idx < tps.len() && tps[idx as int] == name
                && forall|j: int| 0 <= j < idx ==> tps[j] != name)
        }),
{
    let tps = strings_view(method_of(s[last_of_kind(s, CtxKind::Method).unwrap()]).signature.typarams@);
    crate::names::lemma_position_from(tps, name, 0);
    let k = choose|k: int| 0 <= k < tps.len() && tps[k] == name;
}

/// Inside an instance method, a type parameter of the enclosing class named `name`, which the
/// method does not have, is found as that class type parameter, with the index of the first of
/// the class's type parameters of that name.
pub proof fn law_lookup_typaram_of_class(s: Seq<HirMakerContext>, name: Seq<char>)
    requires
        last_of_kind(s, CtxKind::Method) is Some,
        last_of_kind(s, CtxKind::Class) is Some,
        !strings_view(method_of(s[last_of_kind(s, CtxKind::Method).unwrap()]).signature.typarams@).contains(name),
        !is_class_method_name(method_of(s[last_of_kind(s, CtxKind::Method).unwrap()]).signature.fullname.full_name@),
        strings_view(class_of(s[last_of_kind(s, CtxKind::Class).unwrap()]).typarams@).contains(name),
    ensures
        ({
            let tps = strings_view(class_of(s[last_of_kind(s, CtxKind::Class).unwrap()]).typarams@);
            spec_lookup_typaram(s, name) matches Some(t) && t.fullname == name && (t.body matches TyBodyV::Param {
                kind,
                name: n,
                idx,
            } && kind == TyParamKind::Class && n == name && idx < tps.len() && tps[idx as int] == name
                && forall|j: int| 0 <= j < idx ==> tps[j] != name)
        }),
{
    let mtps = strings_view(method_of(s[last_of_kind(s, CtxKind::Method).unwrap()]).signature.typarams@);
    let tps = strings_view(class_of(s[last_of_kind(s, CtxKind::Class).unwrap()]).typarams@);
    crate::names::lemma_position_from(mtps, name, 0);
    crate::names::lemma_position_from(tps, name, 0);
    let k = choose|k: int| 0 <= k < tps.len() && tps[k] == name;
    if position_of(mtps, name) is Some {
        let i = position_of(mtps, name).unwrap();
        assert(mtps.contains(name)) by {
            assert(mtps[i] == name);
        }
    }
}

#[derive(Debug)]
pub struct CtxStack(pub Vec<HirMakerContext>);

impl CtxStack {
    /// Create a CtxStack
    pub fn new(v: Vec<HirMakerContext>) -> (r: CtxStack)
        ensures
            r.0 == v,
    {
        CtxStack(v)
    }

    /// Returns length of stack
    pub fn len(&self) -> (r: usize)
        ensures
            r == self.0@.len(),
    {
        self.0.len()
    }

    /// Returns nth item
    pub fn get(&self, idx: usize) -> (r: &HirMakerContext)
        requires
            idx < self.0@.len(),
        ensures
            *r == self.0@[idx as int],
    {
        &self.0[idx]
    }

    /// Push a ctx
    pub fn push(&mut self, c: HirMakerContext)
        ensures
            final(self).0@ == old(self).0@.push(c),
    {
        self.0.push(c);
    }

    /// Pop a ctx
    pub fn pop(&mut self) -> (r: HirMakerContext)
        requires
            old(self).0@.len() > 0,
        ensures
            r == old(self).0@.last(),
            final(self).0@ == old(self).0@.drop_last(),
    {
        self.0.pop().unwrap()
    }

    /// Pop the ToplevelCtx on the stack top
    pub fn pop_toplevel_ctx(&mut self) -> (r: ToplevelCtx)
        requires
            old(self).0@.len() > 0,
            old(self).0@.last() is Toplevel,
        ensures
            old(self).0@.last() == HirMakerContext::Toplevel(r),
            final(self).0@ == old(self).0@.drop_last(),
    {
        match self.pop() {
            HirMakerContext::Toplevel(toplevel_ctx) => toplevel_ctx,
            _ => vstd::pervasive::unreached(),
        }
    }

    /// Pop the MethodCtx on the stack top
    pub fn pop_method_ctx(&mut self) -> (r: MethodCtx)
        requires
            old(self).0@.len() > 0,
            old(self).0@.last() is Method,
        ensures
            old(self).0@.last() == HirMakerContext::Method(r),
            final(self).0@ == old(self).0@.drop_last(),
    {
        let c = self.pop();
        match c {
            HirMakerContext::Method(method_ctx) => method_ctx,
            _ => vstd::pervasive::unreached(),
        }
    }

    /// Pop the LambdaCtx on the stack top
    pub fn pop_lambda_ctx(&mut self) -> (r: LambdaCtx)
        requires
            old(self).0@.len() > 0,
            old(self).0@.last() is Lambda,
        ensures
            old(self).0@.last() == HirMakerContext::Lambda(r),
            final(self).0@ == old(self).0@.drop_last(),
    {
        let c = self.pop();
        match c {
            HirMakerContext::Lambda(lambda_ctx) => lambda_ctx,
            _ => vstd::pervasive::unreached(),
        }
    }

    /// Returns the ctx on the top of the stack
    pub fn top(&self) -> (r: &HirMakerContext)
        requires
            self.0@.len() > 0,
        ensures
            *r == self.0@.last(),
    {
        // ctx_stack will not be empty because toplevel ctx is always there
        let n = self.0.len();
        &self.0[n - 1]
    }

    /// Returns the ctx on the top of the stack
    pub fn top_mut(&mut self) -> (r: &mut HirMakerContext)
        requires
            old(self).0@.len() > 0,
        ensures
            *r == old(self).0@.last(),
            final(self).0@ == old(self).0@.update(old(self).0@.len() - 1, *final(r)),
    {
        let n = self.0.len();
        &mut self.0[n - 1]
    }

    /// The index of the topmost context of kind `k`, if any
    pub fn last_index_of_kind(&self, k: CtxKind) -> (r: Option<usize>)
        ensures
            match last_of_kind(self.0@, k) {
                Some(i) => r matches Some(j) && j == i,
                None => r is None,
            },
    {
        let ghost s = self.0@;
        let mut i = self.0.len();
        assert(s.take(i as int) =~= s);
        while i > 0
            invariant
                s == self.0@,
                0 <= i <= s.len(),
                last_of_kind(s, k) == last_of_kind(s.take(i as int), k),
            decreases i,
        {
            i -= 1;
            assert(s.take(i + 1).drop_last() =~= s.take(i as int));
            if kind(&self.0[i]) == k {
                return Some(i);
            }
        }
        None
    }

    /// The index of the topmost context that has local variables, if any
    pub fn last_index_with_lvars(&self) -> (r: Option<usize>)
        ensures
            match last_with_lvars(self.0@) {
                Some(i) => r matches Some(j) && j == i,
                None => r is None,
            },
    {
        let ghost s = self.0@;
        let mut i = self.0.len();
        assert(s.take(i as int) =~= s);
        while i > 0
            invariant
                s == self.0@,
                0 <= i <= s.len(),
                last_with_lvars(s) == last_with_lvars(s.take(i as int)),
            decreases i,
        {
            i -= 1;
            assert(s.take(i + 1).drop_last() =~= s.take(i as int));
            if kind(&self.0[i]) != CtxKind::While {
                return Some(i);
            }
        }
        None
    }

    /// Return nearest enclosing class ctx, if any
    pub fn class_ctx(&self) -> (r: Option<&ClassCtx>)
        ensures
            match last_of_kind(self.0@, CtxKind::Class) {
                Some(i) => r matches Some(c) && self.0@[i] == HirMakerContext::Class(*c),
                None => r is None,
            },
    {
        proof { lemma_last_of_kind(self.0@, CtxKind::Class); }
        match self.last_index_of_kind(CtxKind::Class) {
            Some(i) => match self.get(i) {
                HirMakerContext::Class(c) => Some(c),
                _ => None,
            },
            None => None,
        }
    }

    /// Return enclosing method ctx, if any
    pub fn method_ctx(&self) -> (r: Option<&MethodCtx>)
        ensures
            match last_of_kind(self.0@, CtxKind::Method) {
                Some(i) => r matches Some(c) && self.0@[i] == HirMakerContext::Method(*c),
                None => r is None,
            },
    {
        proof { lemma_last_of_kind(self.0@, CtxKind::Method); }
        match self.last_index_of_kind(CtxKind::Method) {
            Some(i) => match self.get(i) {
                HirMakerContext::Method(c) => Some(c),
                _ => None,
            },
            None => None,
        }
    }

    /// Return enclosing method ctx, if any
    pub fn method_ctx_mut(&mut self) -> (r: Option<&mut MethodCtx>)
        ensures
            match last_of_kind(old(self).0@, CtxKind::Method) {
                Some(i) => r is Some && old(self).0@[i] == HirMakerContext::Method(*r->0)
                    && final(self).0@ == old(self).0@.update(i, HirMakerContext::Method(*final(r->0))),
                None => r is None && *final(self) == *old(self),
            },
    {
        proof { lemma_last_of_kind(self.0@, CtxKind::Method); }
        match self.last_index_of_kind(CtxKind::Method) {
            Some(i) => match &mut self.0[i] {
                HirMakerContext::Method(c) => Some(c),
                _ => None,
            },
            None => None,
        }
    }

    /// Return ctx of nearest enclosing lambda, if any
    pub fn lambda_ctx(&self) -> (r: Option<&LambdaCtx>)
        ensures
            match last_of_kind(self.0@, CtxKind::Lambda) {
                Some(i) => r matches Some(c) && self.0@[i] == HirMakerContext::Lambda(*c),
                None => r is None,
            },
    {
        proof { lemma_last_of_kind(self.0@, CtxKind::Lambda); }
        match self.last_index_of_kind(CtxKind::Lambda) {
            Some(i) => match self.get(i) {
                HirMakerContext::Lambda(c) => Some(c),
                _ => None,
            },
            None => None,
        }
    }

    /// Return ctx of nearest enclosing lambda, if any
    pub fn lambda_ctx_mut(&mut self) -> (r: Option<&mut LambdaCtx>)
        ensures
            match last_of_kind(old(self).0@, CtxKind::Lambda) {
                Some(i) => r is Some && old(self).0@[i] == HirMakerContext::Lambda(*r->0)
                    && final(self).0@ == old(self).0@.update(i, HirMakerContext::Lambda(*final(r->0))),
                None => r is None && *final(self) == *old(self),
            },
    {
        proof { lemma_last_of_kind(self.0@, CtxKind::Lambda); }
        match self.last_index_of_kind(CtxKind::Lambda) {
            Some(i) => match &mut self.0[i] {
                HirMakerContext::Lambda(c) => Some(c),
                _ => None,
            },
            None => None,
        }
    }

    /// Returns a debugging string like "toplevel", "Class1", "Class1#method1", etc.
    pub fn describe_current_place(&self) -> (r: String)
        requires
            self.0@.len() > 0,
        ensures
            r@ == spec_describe(self.0@),
    {
        if let Some(method_ctx) = self.method_ctx() {
            copy_string(&method_ctx.signature.fullname.full_name)
        } else {
            match self.top() {
                HirMakerContext::Toplevel(_) => to_owned("toplevel"),
                HirMakerContext::Class(class_ctx) => class_ctx.namespace.string(),
                HirMakerContext::Method(method_ctx) => copy_string(&method_ctx.signature.fullname.full_name),
                HirMakerContext::Lambda(_) => to_owned("lambda"),
                HirMakerContext::While(_) => to_owned("while"),
                HirMakerContext::MatchClause(_) => to_owned("match clause"),
            }
        }
    }

    /// The type of `self` in the current scope
    pub fn self_ty(&self) -> (r: TermTy)
        ensures
            r@ == spec_self_ty(self.0@),
    {
        if let Some(class_ctx) = self.class_ctx() {
            let name = class_ctx.namespace.string();
            if let Some(_) = self.method_ctx() {
                ty::raw(name.as_str())
            } else {
                ty::meta(name.as_str())
            }
        } else {
            // This lambda is on the toplevel
            proof { lemma_strlits(); }
            ty::raw("Object")
        }
    }

    /// Add a local variable to current context
    pub fn declare_lvar(&mut self, name: &str, ty: TermTy, readonly: bool)
        requires
            last_with_lvars(old(self).0@) is Some,
        ensures
            ({
                let i = last_with_lvars(old(self).0@).unwrap();
                let l = ctx_lvars(old(self).0@[i]).unwrap();
                exists|nl: CtxLVars|
                    #![trigger with_lvars(old(self).0@[i], nl)]
                    final(self).0@ == old(self).0@.update(i, with_lvars(old(self).0@[i], nl))
                        && (nl.spec_get(name@) matches Some(v) && v.name@ == name@ && v.ty == ty
                        && v.readonly == readonly) && forall|k: Seq<char>|
                        k != name@ ==> #[trigger] nl.spec_get(k) == l.spec_get(k)
            }),
    {
        let lvars = self.current_lvars_mut();
        let k = to_owned(name);
        let v = CtxLVar { name: to_owned(name), ty, readonly };
        lvars.insert(k, v);
    }

    /// Returns if we're in an `#initialize`
    pub fn in_initializer(&self) -> (r: bool)
        ensures
            r == (match last_of_kind(self.0@, CtxKind::Method) {
                Some(i) => method_of(self.0@[i]).signature.fullname.first_name@ == initialize_word(),
                None => false,
            }),
    {
        if let Some(method_ctx) = self.method_ctx() {
            proof {
                reveal_strlit("initialize");
                assert("initialize"@ =~= initialize_word());
            }
            str_eq(method_ctx.signature.fullname.first_name.0.as_str(), "initialize")
        } else {
            false
        }
    }

    /// Push a LambdaCapture to captures
    pub fn push_lambda_capture(&mut self, cap: LambdaCapture) -> (r: usize)
        requires
            last_of_kind(old(self).0@, CtxKind::Lambda) is Some,
        ensures
            ({
                let i = last_of_kind(old(self).0@, CtxKind::Lambda).unwrap();
                let l = lambda_of(old(self).0@[i]);
                &&& r == l.captures@.len()
                &&& final(self).0@.len() == old(self).0@.len()
                &&& kind_of(final(self).0@[i]) == CtxKind::Lambda
                &&& lambda_of(final(self).0@[i]).captures@ == l.captures@.push(cap)
                &&& lambda_of(final(self).0@[i]).lvars == l.lvars
                &&& lambda_of(final(self).0@[i]).params == l.params
                &&& lambda_of(final(self).0@[i]).is_fn == l.is_fn
                &&& lambda_of(final(self).0@[i]).has_break == l.has_break
                &&& forall|j: int| 0 <= j < old(self).0@.len() && j != i ==> final(self).0@[j] == old(self).0@[j]
            }),
    {
        proof { lemma_last_of_kind(self.0@, CtxKind::Lambda); }
        let lambda_ctx = self.lambda_ctx_mut().unwrap();
        lambda_ctx.captures.push(cap);
        lambda_ctx.captures.len() - 1
    }

    /// Returns type parameter of the current class
    pub fn current_class_typarams(&self) -> (r: Vec<String>)
        ensures
            strings_view(r@) == (match (last_of_kind(self.0@, CtxKind::Class), last_of_kind(self.0@, CtxKind::Method)) {
                (Some(ci), Some(mi)) => if !is_class_method_name(method_of(self.0@[mi]).signature.fullname.full_name@) {
                    strings_view(class_of(self.0@[ci]).typarams@)
                } else {
                    Seq::empty()
                },
                _ => Seq::empty(),
            }),
    {
        if let Some(class_ctx) = self.class_ctx() {
            if let Some(method_ctx) = self.method_ctx() {
                if !method_ctx.signature.fullname.is_class_method() {
                    return copy_strings(&class_ctx.typarams);
                }
            }
        }
        let r: Vec<String> = Vec::new();
        assert(strings_view(r@) =~= Seq::<Seq<char>>::empty());
        r
    }

    /// Returns type parameter of the current method
    pub fn current_method_typarams(&self) -> (r: Vec<String>)
        ensures
            strings_view(r@) == (match last_of_kind(self.0@, CtxKind::Method) {
                Some(mi) => strings_view(method_of(self.0@[mi]).signature.typarams@),
                None => Seq::empty(),
            }),
    {
        if let Some(method_ctx) = self.method_ctx() {
            copy_strings(&method_ctx.signature.typarams)
        } else {
            let r: Vec<String> = Vec::new();
            assert(strings_view(r@) =~= Seq::<Seq<char>>::empty());
            r
        }
    }

    /// If there is a method or class typaram named `name`, returns its type
    pub fn lookup_typaram(&self, name: &str) -> (r: Option<TermTy>)
        ensures
            match spec_lookup_typaram(self.0@, name@) {
                Some(t) => r matches Some(x) && x@ == t,
                None => r is None,
            },
    {
        if let Some(method_ctx) = self.method_ctx() {
            let typarams = method_ctx.signature.typarams.as_slice();
            if let Some(i) = position(typarams, name) {
                return Some(ty::typaram(name, TyParamKind::Method, i));
            }
            if let Some(class_ctx) = self.class_ctx() {
                if method_ctx.signature.fullname.is_class_method() {
                    return None;
                }
                let typarams = class_ctx.typarams.as_slice();
                if let Some(i) = position(typarams, name) {
                    return Some(ty::typaram(name, TyParamKind::Class, i));
                }
            }
        }
        // No typarams are accessible outside methods
        None
    }

    /// Iterates over lvar scopes starting from the current scope
    pub fn lvar_scopes(&self) -> (r: LVarIter<'_>)
        ensures
            r.ctx_stack == self,
            match last_with_lvars(self.0@) {
                Some(i) => r.cur == i && !r.finished,
                None => r.finished,
            },
    {
        LVarIter::new(self)
    }

    /// The local variables of the current scope
    pub fn current_lvars_mut(&mut self) -> (r: &mut CtxLVars)
        requires
            last_with_lvars(old(self).0@) is Some,
        ensures
            ({
                let i = last_with_lvars(old(self).0@).unwrap();
                &&& *r == ctx_lvars(old(self).0@[i]).unwrap()
                &&& final(self).0@ == old(self).0@.update(i, with_lvars(old(self).0@[i], *final(r)))
            }),
    {
        let i = self.last_index_with_lvars().unwrap();
        proof { lemma_last_with_lvars(self.0@); }
        let c = &mut self.0[i];
        c.opt_lvars().unwrap()
    }

    /// Iterates over constant scopes starting from the current one
    pub fn const_scopes(&self) -> (r: NamespaceIter<'_>)
        ensures
            r.ctx_stack == self,
            match last_namespace_upto(self.0@, self.0@.len() - 1) {
                Some(i) => r.cur == i && !r.finished,
                None => r.finished,
            },
    {
        NamespaceIter::new(self)
    }
}

/// Popping right after pushing gives back the pushed context and the stack as it was.
pub proof fn law_push_then_pop(s: Seq<HirMakerContext>, c: HirMakerContext)
    ensures
        s.push(c).len() > 0,
        s.push(c).last() == c,
        s.push(c).drop_last() == s,
{
    assert(s.push(c).drop_last() =~= s);
}

/// The topmost context of a kind is in the stack and is of that kind.
pub proof fn lemma_last_of_kind(s: Seq<HirMakerContext>, k: CtxKind)
    ensures
        match last_of_kind(s, k) {
            Some(i) => 0 <= i < s.len() && kind_of(s[i]) == k,
            None => forall|j: int| 0 <= j < s.len() ==> kind_of(#[trigger] s[j]) != k,
        },
    decreases s.len(),
{
    if s.len() > 0 && kind_of(s.last()) != k {
        lemma_last_of_kind(s.drop_last(), k);
        if last_of_kind(s, k) is None {
            assert forall|j: int| 0 <= j < s.len() implies kind_of(#[trigger] s[j]) != k by {
                if j < s.len() - 1 {
                    assert(s[j] == s.drop_last()[j]);
                }
            }
        }
    }
}

/// The topmost constant scope at or below `cur` is in the stack and makes a constant scope.
pub proof fn lemma_last_namespace_upto(s: Seq<HirMakerContext>, cur: int)
    ensures
        match last_namespace_upto(s, cur) {
            Some(i) => 0 <= i <= cur && i < s.len() && is_namespace_kind(kind_of(s[i])),
            None => true,
        },
    decreases cur + 1,
{
    if 0 <= cur < s.len() && !is_namespace_kind(kind_of(s[cur])) {
        lemma_last_namespace_upto(s, cur - 1);
    }
}

/// The topmost context with local variables is in the stack and has them.
pub proof fn lemma_last_with_lvars(s: Seq<HirMakerContext>)
    ensures
        match last_with_lvars(s) {
            Some(i) => 0 <= i < s.len() && has_lvars(kind_of(s[i])) && ctx_lvars(s[i]) is Some,
            None => true,
        },
    decreases s.len(),
{
    if s.len() > 0 && !has_lvars(kind_of(s.last())) {
        lemma_last_with_lvars(s.drop_last());
    }
}

/// The kind of a context
pub fn kind(c: &HirMakerContext) -> (r: CtxKind)
    ensures
        r == kind_of(*c),
{
    match c {
        HirMakerContext::Toplevel(_) => CtxKind::Toplevel,
        HirMakerContext::Class(_) => CtxKind::Class,
        HirMakerContext::Method(_) => CtxKind::Method,
        HirMakerContext::Lambda(_) => CtxKind::Lambda,
        HirMakerContext::While(_) => CtxKind::While,
        HirMakerContext::MatchClause(_) => CtxKind::MatchClause,
    }
}

/// Iterates over each lvar scope.
pub struct LVarIter<'hir_maker> {
    pub ctx_stack: &'hir_maker CtxStack,
    pub cur: usize,
    pub finished: bool,
}

impl<'hir_maker> LVarIter<'hir_maker> {
    fn new(ctx_stack: &'hir_maker CtxStack) -> (r: LVarIter<'hir_maker>)
        ensures
            r.ctx_stack == ctx_stack,
            match last_with_lvars(ctx_stack.0@) {
                Some(i) => r.cur == i && !r.finished,
                None => r.finished,
            },
    {
        match ctx_stack.last_index_with_lvars() {
            Some(cur) => LVarIter { ctx_stack, cur, finished: false },
            None => LVarIter { ctx_stack, cur: 0, finished: true },
        }
    }

    /// Whether `next` can be called: the current context is not a `while`, and a lambda or a
    /// match clause is not at the bottom of the stack
    pub open spec fn can_step(&self) -> bool {
        !self.finished ==> {
            &&& self.cur < self.ctx_stack.0@.len()
            &&& kind_of(self.ctx_stack.0@[self.cur as int]) != CtxKind::While
            &&& (kind_of(self.ctx_stack.0@[self.cur as int]) == CtxKind::Lambda || kind_of(
                self.ctx_stack.0@[self.cur as int],
            ) == CtxKind::MatchClause) ==> self.cur > 0
        }
    }

    /// Yields `(lvars, params, depth)`: lambdas and match clauses are followed by their
    /// enclosing scopes; a toplevel, class or method scope is the last one
    pub fn next(&mut self) -> (r: Option<(&'hir_maker CtxLVars, &'hir_maker [MethodParam], isize)>)
        requires
            old(self).can_step(),
        ensures
            final(self).ctx_stack == old(self).ctx_stack,
            old(self).finished ==> r is None && final(self).finished,
            !old(self).finished ==> ({
                let c = old(self).ctx_stack.0@[old(self).cur as int];
                &&& r matches Some(item)
                &&& *item.0 == ctx_lvars(c).unwrap()
                &&& match c {
                    HirMakerContext::Toplevel(_) => item.1@.len() == 0 && item.2 == -1 && final(self).finished,
                    HirMakerContext::Class(_) => item.1@.len() == 0 && item.2 == -1 && final(self).finished,
                    HirMakerContext::Method(m) => item.1@ == m.signature.params@ && item.2 == -1 && final(self).finished,
                    HirMakerContext::Lambda(l) => item.1@ == l.params@ && item.2 == old(self).cur as isize
                        && !final(self).finished && final(self).cur == old(self).cur - 1,
                    HirMakerContext::MatchClause(_) => item.1@.len() == 0 && item.2 == -1
                        && !final(self).finished && final(self).cur == old(self).cur - 1,
                    HirMakerContext::While(_) => false,
                }
            }),
    {
        if self.finished {
            return None;
        }
        let stack: &'hir_maker CtxStack = self.ctx_stack;
        let none: &'hir_maker [MethodParam] = &[];
        match stack.get(self.cur) {
            // Toplevel -> end.
            HirMakerContext::Toplevel(toplevel_ctx) => {
                self.finished = true;
                Some((&toplevel_ctx.lvars, none, -1))
            },
            // Classes -> end.
            HirMakerContext::Class(class_ctx) => {
                self.finished = true;
                Some((&class_ctx.lvars, none, -1))
            },
            // Method -> end.
            HirMakerContext::Method(method_ctx) => {
                self.finished = true;
                Some((&method_ctx.lvars, method_ctx.signature.params.as_slice(), -1))
            },
            // Lambdas -> (Method or Class or Toplevel)
            HirMakerContext::Lambda(lambda_ctx) => {
                let orig_idx = self.cur;
                self.cur = self.cur - 1;
                Some((&lambda_ctx.lvars, lambda_ctx.params.as_slice(), orig_idx as isize))
            },
            HirMakerContext::MatchClause(match_ctx) => {
                self.cur = self.cur - 1;
                Some((&match_ctx.lvars, none, -1))
            },
            // ::new() never sets `While` to .cur
            HirMakerContext::While(_) => {
                assert(false);
                None
            },
        }
    }
}

/// Iterates over each constant scope.
pub struct NamespaceIter<'hir_maker> {
    pub ctx_stack: &'hir_maker CtxStack,
    pub cur: usize,
    pub finished: bool,
}

impl<'hir_maker> NamespaceIter<'hir_maker> {
    fn new(ctx_stack: &'hir_maker CtxStack) -> (r: NamespaceIter<'hir_maker>)
        ensures
            r.ctx_stack == ctx_stack,
            match last_namespace_upto(ctx_stack.0@, ctx_stack.0@.len() - 1) {
                Some(i) => r.cur == i && !r.finished,
                None => r.finished,
            },
    {
        let ghost s = ctx_stack.0@;
        let mut cur = ctx_stack.len();
        loop
            invariant
                s == ctx_stack.0@,
                0 <= cur <= s.len(),
                last_namespace_upto(s, s.len() - 1) == last_namespace_upto(s, cur - 1),
            decreases cur,
        {
            if cur == 0 {
                return NamespaceIter { ctx_stack, cur: 0, finished: true };
            }
            cur -= 1;
            if is_namespace_ctx(ctx_stack.get(cur)) {
                return NamespaceIter { ctx_stack, cur, finished: false };
            }
        }
    }

    /// Whether `next` can be called: a constant scope is found at or below `cur`, and it is
    /// not a class at the bottom of the stack
    pub open spec fn can_step(&self) -> bool {
        !self.finished ==> {
            &&& self.cur < self.ctx_stack.0@.len()
            &&& last_namespace_upto(self.ctx_stack.0@, self.cur as int) matches Some(i)
                && (kind_of(self.ctx_stack.0@[i]) == CtxKind::Class ==> self.cur > 0)
        }
    }

    /// Yields the namespace of the topmost constant scope at or below `cur`; the toplevel is the
    /// last one
    pub fn next(&mut self) -> (r: Option<Namespace>)
        requires
            old(self).can_step(),
        ensures
            final(self).ctx_stack == old(self).ctx_stack,
            old(self).finished ==> r is None && final(self).finished,
            !old(self).finished ==> ({
                let i = last_namespace_upto(old(self).ctx_stack.0@, old(self).cur as int).unwrap();
                let c = old(self).ctx_stack.0@[i];
                &&& r matches Some(ns)
                &&& match c {
                    HirMakerContext::Toplevel(_) => ns@.len() == 0 && final(self).finished,
                    HirMakerContext::Class(cc) => ns@ == cc.namespace@ && !final(self).finished
                        && final(self).cur == old(self).cur - 1,
                    _ => false,
                }
            }),
    {
        if self.finished {
            return None;
        }
        let ghost s = self.ctx_stack.0@;
        let mut idx = self.cur;
        proof { lemma_last_namespace_upto(s, self.cur as int); }
        loop
            invariant
                s == self.ctx_stack.0@,
                self.ctx_stack == old(self).ctx_stack,
                self.cur == old(self).cur,
                !self.finished,
                !old(self).finished,
                self.can_step(),
                idx <= self.cur,
                last_namespace_upto(s, self.cur as int) == last_namespace_upto(s, idx as int),
            decreases idx,
        {
            match self.ctx_stack.get(idx) {
                HirMakerContext::Toplevel(_) => {
                    self.finished = true;
                    return Some(Namespace::root());
                },
                HirMakerContext::Class(class_ctx) => {
                    self.cur = self.cur - 1;
                    return Some(class_ctx.namespace.copy());
                },
                _ => {},  // Skip this ctx
            }
            proof { lemma_last_namespace_upto(s, idx - 1); }
            idx = idx - 1;
        }
    }
}

/// Whether a context makes a constant scope
fn is_namespace_ctx(c: &HirMakerContext) -> (r: bool)
    ensures
        r == is_namespace_kind(kind_of(*c)),
{
    match c {
        HirMakerContext::Toplevel(_) | HirMakerContext::Class(_) => true,
        _ => false,
    }
}

} // verus!
