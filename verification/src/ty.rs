//! Types of Shiika values (`TermTy`) and their abstract model (`TyV`).
use vstd::prelude::*;
use crate::names::{lemma_strlits, class_fullname, class_word, meta_prefix, ClassFullname};
use crate::strs::{concat, copy_string, is_empty_str, join, seq_join, starts_with, str_eq, strings_view, to_owned};

verus! {

/// Whether a type parameter belongs to a class or to a method
#[derive(Debug, Clone, Copy, PartialEq, Eq, Structural)]
pub enum TyParamKind {
    Class,
    Method,
}

/// A type parameter of a class, eg. `T` of `Array<T>`
#[derive(Debug)]
pub struct TyParam {
    pub name: String,
}

impl View for TyParam {
    type V = Seq<char>;

    open spec fn view(&self) -> Seq<char> {
        self.name@
    }
}

impl TyParam {
    /// A copy of this type parameter
    pub fn copy(&self) -> (r: TyParam)
        ensures
            r@ == self@,
    {
        TyParam { name: copy_string(&self.name) }
    }
}

/// A type, eg. `Int`, `Meta:Int`, `Array<Int>`, `T`
#[derive(Debug)]
pub struct TermTy {
    pub fullname: ClassFullname,
    pub body: TyBody,
}

#[derive(Debug)]
pub enum TyBody {
    /// A non-generic class, eg. `Int`
    TyRaw,
    /// The class object of a non-generic class, eg. `Meta:Int`
    TyMeta { base_fullname: String },
    /// The class `Class`
    TyClass,
    /// A specialized generic class, eg. `Array<Int>`
    TySpe { base_name: String, type_args: Vec<TermTy> },
    /// The class object of a specialized generic class, eg. `Meta:Array<Int>`
    TySpeMeta { base_name: String, type_args: Vec<TermTy> },
    /// A reference to a type parameter
    TyParamRef { kind: TyParamKind, name: String, idx: usize },
}

/// The abstract value of a type
pub struct TyV {
    pub fullname: Seq<char>,
    pub body: TyBodyV,
}

pub enum TyBodyV {
    Raw,
    Meta { base: Seq<char> },
    Class,
    Spe { base: Seq<char>, args: Seq<TyV> },
    SpeMeta { base: Seq<char>, args: Seq<TyV> },
    Param { kind: TyParamKind, name: Seq<char>, idx: nat },
}

pub open spec fn ty_view(t: TermTy) -> TyV
    decreases t,
{
    TyV {
        fullname: t.fullname@,
        body: match t.body {
            TyBody::TyRaw => TyBodyV::Raw,
            TyBody::TyMeta { base_fullname } => TyBodyV::Meta { base: base_fullname@ },
            TyBody::TyClass => TyBodyV::Class,
            TyBody::TySpe { base_name, type_args } => TyBodyV::Spe {
                base: base_name@,
                args: Seq::new(
                    type_args@.len(),
                    |i: int|
                        if 0 <= i < type_args@.len() {
                            ty_view(type_args@[i])
                        } else {
                            spec_raw(Seq::empty())
                        },
                ),
            },
            TyBody::TySpeMeta { base_name, type_args } => TyBodyV::SpeMeta {
                base: base_name@,
                args: Seq::new(
                    type_args@.len(),
                    |i: int|
                        if 0 <= i < type_args@.len() {
                            ty_view(type_args@[i])
                        } else {
                            spec_raw(Seq::empty())
                        },
                ),
            },
            TyBody::TyParamRef { kind, name, idx } => TyBodyV::Param { kind, name: name@, idx: idx as nat },
        },
    }
}

impl View for TermTy {
    type V = TyV;

    open spec fn view(&self) -> TyV {
        ty_view(*self)
    }
}

/// The views of a sequence of types
pub open spec fn views_of(v: Seq<TermTy>) -> Seq<TyV> {
    Seq::new(v.len(), |i: int| ty_view(v[i]))
}

/// Appending a type appends its view.
pub proof fn lemma_views_push(v: Seq<TermTy>, x: TermTy)
    ensures
        views_of(v.push(x)) == views_of(v).push(ty_view(x)),
{
    assert(views_of(v.push(x)) =~= views_of(v).push(ty_view(x)));
}

/// The views of the type arguments stored in a specialized type.
pub proof fn lemma_args_view(t: TermTy)
    ensures
        match t.body {
            TyBody::TySpe { type_args, .. } => spec_tyargs(ty_view(t)) == views_of(type_args@),
            TyBody::TySpeMeta { type_args, .. } => spec_tyargs(ty_view(t)) == views_of(type_args@),
            _ => spec_tyargs(ty_view(t)) == Seq::<TyV>::empty(),
        },
{
    match t.body {
        TyBody::TySpe { type_args, .. } => {
            assert(spec_tyargs(ty_view(t)) =~= views_of(type_args@));
        },
        TyBody::TySpeMeta { type_args, .. } => {
            assert(spec_tyargs(ty_view(t)) =~= views_of(type_args@));
        },
        _ => {},
    }
}

/// The full names of a sequence of types
pub open spec fn fullnames_of(v: Seq<TyV>) -> Seq<Seq<char>> {
    Seq::new(v.len(), |i: int| v[i].fullname)
}

pub open spec fn spec_raw(name: Seq<char>) -> TyV {
    TyV { fullname: name, body: TyBodyV::Raw }
}

pub open spec fn spec_class() -> TyV {
    TyV { fullname: class_word(), body: TyBodyV::Class }
}

pub open spec fn spec_meta(base: Seq<char>) -> TyV {
    if base == class_word() {
        spec_class()
    } else {
        TyV { fullname: meta_prefix() + base, body: TyBodyV::Meta { base } }
    }
}

/// `Base<A,B>`
pub open spec fn spe_fullname(base: Seq<char>, args: Seq<TyV>) -> Seq<char> {
    base + seq!['<'] + seq_join(fullnames_of(args), seq![',']) + seq!['>']
}

pub open spec fn spec_spe(base: Seq<char>, args: Seq<TyV>) -> TyV {
    TyV { fullname: spe_fullname(base, args), body: TyBodyV::Spe { base, args } }
}

pub open spec fn spec_spe_meta(base: Seq<char>, args: Seq<TyV>) -> TyV {
    TyV { fullname: meta_prefix() + spe_fullname(base, args), body: TyBodyV::SpeMeta { base, args } }
}

pub open spec fn spec_typaram(name: Seq<char>, kind: TyParamKind, idx: nat) -> TyV {
    TyV { fullname: name, body: TyBodyV::Param { kind, name, idx } }
}

/// `Array<t>`
pub open spec fn spec_ary(t: TyV) -> TyV {
    spec_spe(seq!['A', 'r', 'r', 'a', 'y'], seq![t])
}

/// The type of the class object of a type
pub open spec fn spec_meta_ty(t: TyV) -> TyV {
    match t.body {
        TyBodyV::Raw => spec_meta(t.fullname),
        TyBodyV::Spe { base, args } => spec_spe_meta(base, args),
        _ => spec_class(),
    }
}

/// The name of the class of a type with its type arguments removed
pub open spec fn spec_erasure(t: TyV) -> Seq<char> {
    match t.body {
        TyBodyV::Spe { base, .. } => base,
        TyBodyV::SpeMeta { base, .. } => meta_prefix() + base,
        _ => t.fullname,
    }
}

/// The type arguments of a type (empty unless it is specialized)
pub open spec fn spec_tyargs(t: TyV) -> Seq<TyV> {
    match t.body {
        TyBodyV::Spe { args, .. } => args,
        TyBodyV::SpeMeta { args, .. } => args,
        _ => Seq::empty(),
    }
}

/// Replace type parameters by type arguments; a parameter whose index is out of the given
/// arguments (eg. no arguments are given for its kind) is kept as is
pub open spec fn spec_substitute(t: TyV, class_tyargs: Seq<TyV>, method_tyargs: Seq<TyV>) -> TyV
    decreases t,
{
    match t.body {
        TyBodyV::Param { kind, idx, .. } => {
            let tyargs = if kind == TyParamKind::Class {
                class_tyargs
            } else {
                method_tyargs
            };
            if idx < tyargs.len() {
                tyargs[idx as int]
            } else {
                t
            }
        },
        TyBodyV::Spe { base, args } => spec_spe(
            base,
            Seq::new(
                args.len(),
                |i: int|
                    if 0 <= i < args.len() {
                        spec_substitute(args[i], class_tyargs, method_tyargs)
                    } else {
                        spec_raw(Seq::empty())
                    },
            ),
        ),
        TyBodyV::SpeMeta { base, args } => spec_spe_meta(
            base,
            Seq::new(
                args.len(),
                |i: int|
                    if 0 <= i < args.len() {
                        spec_substitute(args[i], class_tyargs, method_tyargs)
                    } else {
                        spec_raw(Seq::empty())
                    },
            ),
        ),
        _ => t,
    }
}

/// A type whose full name is the one its structure gives, and so are those of its type
/// arguments
pub open spec fn ty_wf(t: TyV) -> bool
    decreases t, 1nat,
{
    match t.body {
        TyBodyV::Spe { base, args } => t.fullname == spe_fullname(base, args) && args_wf(args),
        TyBodyV::SpeMeta { base, args } => t.fullname == meta_prefix() + spe_fullname(base, args) && args_wf(args),
        _ => true,
    }
}

/// Every type of `args` is well-formed
pub open spec fn args_wf(args: Seq<TyV>) -> bool
    decreases args, 0nat,
{
    if args.len() == 0 {
        true
    } else {
        ty_wf(args.last()) && args_wf(args.drop_last())
    }
}

/// The members of well-formed arguments are well-formed.
pub proof fn lemma_args_wf(args: Seq<TyV>, i: int)
    requires
        args_wf(args),
        0 <= i < args.len(),
    ensures
        ty_wf(args[i]),
    decreases args.len(),
{
    if i < args.len() - 1 {
        lemma_args_wf(args.drop_last(), i);
    }
}

/// Substituting no type arguments leaves a type as it is.
pub proof fn law_substitute_nothing(t: TyV)
    requires
        ty_wf(t),
    ensures
        spec_substitute(t, Seq::empty(), Seq::empty()) == t,
    decreases t,
{
    let st = spec_substitute(t, Seq::empty(), Seq::empty());
    match t.body {
        TyBodyV::Spe { base, args } => {
            let a2 = spec_tyargs(st);
            assert(a2.len() == args.len());
            assert forall|i: int| 0 <= i < args.len() implies a2[i] == args[i] by {
                assert(decreases_to!(t => t.body));
                assert(decreases_to!(t.body => args));
                assert(decreases_to!(args => args[i]));
                lemma_args_wf(args, i);
                law_substitute_nothing(args[i]);
            }
            assert(a2 =~= args);
        },
        TyBodyV::SpeMeta { base, args } => {
            let a2 = spec_tyargs(st);
            assert(a2.len() == args.len());
            assert forall|i: int| 0 <= i < args.len() implies a2[i] == args[i] by {
                assert(decreases_to!(t => t.body));
                assert(decreases_to!(t.body => args));
                assert(decreases_to!(args => args[i]));
                lemma_args_wf(args, i);
                law_substitute_nothing(args[i]);
            }
            assert(a2 =~= args);
        },
        _ => {},
    }
}

/// The class type parameters named `typarams`, as types
pub open spec fn class_typaram_tys(typarams: Seq<Seq<char>>) -> Seq<TyV> {
    Seq::new(typarams.len(), |i: int| spec_typaram(typarams[i], TyParamKind::Class, i as nat))
}

/// The type that `.new` of the class `fullname` returns: its instances, with its own type
/// parameters as type arguments if it is generic
pub open spec fn new_ret_ty(fullname: Seq<char>, typarams: Seq<Seq<char>>) -> TyV {
    if typarams.len() == 0 {
        spec_raw(fullname)
    } else {
        spec_spe(fullname, class_typaram_tys(typarams))
    }
}

/// `Never`
pub open spec fn never_word() -> Seq<char> {
    seq!['N', 'e', 'v', 'e', 'r']
}

/// `Void`
pub open spec fn void_word() -> Seq<char> {
    seq!['V', 'o', 'i', 'd']
}

/// Whether `base` is one of `Fn0`, ..., `Fn9`
pub open spec fn is_fn_x_base(base: Seq<char>) -> bool {
    base.len() == 3 && base[0] == 'F' && base[1] == 'n' && '0' <= base[2] <= '9'
}

/// The return type of a function type `FnN<..., R>`, if `t` is one
pub open spec fn spec_fn_x_info(t: TyV) -> Option<TyV> {
    match t.body {
        TyBodyV::Spe { base, args } => if is_fn_x_base(base) && args.len() > 0 {
            Some(args.last())
        } else {
            None
        },
        _ => None,
    }
}

/// The type that `.new` of the class `fullname` with the type parameters `typarams` returns
pub fn return_type_of_new(fullname: &ClassFullname, typarams: &[String]) -> (r: TermTy)
    ensures
        r@ == new_ret_ty(fullname@, strings_view(typarams@)),
{
    if typarams.len() == 0 {
        raw(fullname.0.as_str())
    } else {
        let mut args: Vec<TermTy> = Vec::new();
        let mut i: usize = 0;
        while i < typarams.len()
            invariant
                0 <= i <= typarams@.len(),
                args@.len() == i,
                forall|j: int|
                    0 <= j < i ==> #[trigger] ty_view(args@[j]) == spec_typaram(
                        typarams@[j]@,
                        TyParamKind::Class,
                        j as nat,
                    ),
            decreases typarams.len() - i,
        {
            args.push(typaram(typarams[i].as_str(), TyParamKind::Class, i));
            i += 1;
        }
        assert(views_of(args@) =~= class_typaram_tys(strings_view(typarams@)));
        spe(fullname.0.as_str(), args)
    }
}

/// The type of instances of the class `fullname`
pub fn raw(fullname: &str) -> (r: TermTy)
    ensures
        r@ == spec_raw(fullname@),
{
    TermTy { fullname: class_fullname(fullname), body: TyBody::TyRaw }
}

/// The type `Class`
pub fn class() -> (r: TermTy)
    ensures
        r@ == spec_class(),
{
    proof { lemma_strlits(); }
    TermTy { fullname: class_fullname("Class"), body: TyBody::TyClass }
}

/// The type of the class object of the class `base_fullname`
pub fn meta(base_fullname: &str) -> (r: TermTy)
    ensures
        r@ == spec_meta(base_fullname@),
{
    proof { lemma_strlits(); }
    if str_eq(base_fullname, "Class") {
        class()
    } else {
        TermTy {
            fullname: ClassFullname(concat("Meta:", base_fullname)),
            body: TyBody::TyMeta { base_fullname: to_owned(base_fullname) },
        }
    }
}

/// `base<A,B,...>` from the full names of the type arguments
fn spe_name(base: &str, type_args: &Vec<TermTy>) -> (r: String)
    ensures
        r@ == spe_fullname(base@, views_of(type_args@)),
{
    proof { lemma_strlits(); }
    let mut s = concat(base, "<");
    let ghost names = fullnames_of(views_of(type_args@));
    let mut i: usize = 0;
    while i < type_args.len()
        invariant
            0 <= i <= type_args@.len(),
            names == fullnames_of(views_of(type_args@)),
            s@ == base@ + seq!['<'] + seq_join(names.take(i as int), seq![',']),
        decreases type_args.len() - i,
    {
        let ghost s0 = s@;
        proof { lemma_strlits(); }
        if i > 0 {
            s.append(",");
        }
        s.append(type_args[i].fullname.0.as_str());
        proof {
            let after = names.take(i + 1);
            assert(after.drop_last() =~= names.take(i as int));
            assert(views_of(type_args@)[i as int] == ty_view(type_args@[i as int]));
            assert(after.last() == type_args@[i as int].fullname@);
            if i == 0 {
                assert(after.len() == 1);
                assert(s@ =~= base@ + seq!['<'] + seq_join(after, seq![',']));
            } else {
                assert(seq_join(after, seq![',']) == seq_join(after.drop_last(), seq![',']) + seq![',']
                    + after.last());
                assert(s0 == base@ + seq!['<'] + seq_join(names.take(i as int), seq![',']));
                assert(s@ == s0 + seq![','] + type_args@[i as int].fullname@);
                assert(s@ =~= base@ + seq!['<'] + seq_join(after, seq![',']));
            }
        }
        i += 1;
    }
    assert(names.take(type_args.len() as int) =~= names);
    s.append(">");
    s
}

/// A specialized generic type, eg. `Array<Int>`
pub fn spe(base_name: &str, type_args: Vec<TermTy>) -> (r: TermTy)
    ensures
        r@ == spec_spe(base_name@, views_of(type_args@)),
{
    let name = spe_name(base_name, &type_args);
    let r = TermTy {
        fullname: ClassFullname(name),
        body: TyBody::TySpe { base_name: to_owned(base_name), type_args },
    };
    assert(spec_tyargs(ty_view(r)) =~= views_of(type_args@));
    r
}

/// The class object of a specialized generic type, eg. `Meta:Array<Int>`
pub fn spe_meta(base_name: &str, type_args: Vec<TermTy>) -> (r: TermTy)
    ensures
        r@ == spec_spe_meta(base_name@, views_of(type_args@)),
{
    proof { lemma_strlits(); }
    let name = spe_name(base_name, &type_args);
    let mut full = to_owned("Meta:");
    full.append(name.as_str());
    let r = TermTy {
        fullname: ClassFullname(full),
        body: TyBody::TySpeMeta { base_name: to_owned(base_name), type_args },
    };
    assert(spec_tyargs(ty_view(r)) =~= views_of(type_args@));
    r
}

/// A reference to a type parameter
pub fn typaram(name: &str, kind: TyParamKind, idx: usize) -> (r: TermTy)
    ensures
        r@ == spec_typaram(name@, kind, idx as nat),
{
    TermTy { fullname: class_fullname(name), body: TyBody::TyParamRef { kind, name: to_owned(name), idx } }
}

/// `Array<type_arg>`
pub fn ary(type_arg: TermTy) -> (r: TermTy)
    ensures
        r@ == spec_ary(type_arg@),
{
    proof { lemma_strlits(); }
    let v = vec![type_arg];
    let r = spe("Array", v);
    assert(views_of(v@) =~= seq![type_arg@]);
    r
}

/// Copies of the types of `v`
pub fn copy_all(v: &[TermTy]) -> (r: Vec<TermTy>)
    ensures
        views_of(r@) == views_of(v@),
{
    let mut r: Vec<TermTy> = Vec::new();
    let mut i: usize = 0;
    while i < v.len()
        invariant
            0 <= i <= v@.len(),
            views_of(r@) =~= views_of(v@).take(i as int),
        decreases v.len() - i,
    {
        let c = v[i].copy();
        proof {
            lemma_views_push(r@, c);
            assert(views_of(v@).take(i + 1) =~= views_of(v@).take(i as int).push(ty_view(v@[i as int])));
        }
        r.push(c);
        i += 1;
    }
    assert(views_of(v@).take(v@.len() as int) =~= views_of(v@));
    r
}

/// Whether `a` is the vector of type arguments of `outer`
pub open spec fn holds_args(outer: TermTy, a: Vec<TermTy>) -> bool {
    match outer.body {
        TyBody::TySpe { type_args, .. } => type_args == a,
        TyBody::TySpeMeta { type_args, .. } => type_args == a,
        _ => false,
    }
}

impl PartialEq for TermTy {
    fn eq(&self, other: &Self) -> (r: bool) {
        self.same_as(other)
    }
}

impl vstd::std_specs::cmp::PartialEqSpecImpl for TermTy {
    open spec fn obeys_eq_spec() -> bool {
        true
    }

    open spec fn eq_spec(&self, other: &Self) -> bool {
        self@ == other@
    }
}

impl TermTy {
    /// A deep copy of this type
    pub fn copy(&self) -> (r: TermTy)
        ensures
            r@ == self@,
        decreases self,
    {
        let fullname = self.fullname.copy();
        match &self.body {
            TyBody::TyRaw => TermTy { fullname, body: TyBody::TyRaw },
            TyBody::TyMeta { base_fullname } => TermTy {
                fullname,
                body: TyBody::TyMeta { base_fullname: copy_string(base_fullname) },
            },
            TyBody::TyClass => TermTy { fullname, body: TyBody::TyClass },
            TyBody::TySpe { base_name, type_args } => {
                let args = Self::copy_args(self, type_args);
                let r = TermTy {
                    fullname,
                    body: TyBody::TySpe { base_name: copy_string(base_name), type_args: args },
                };
                proof {
                    lemma_args_view(r);
                    lemma_args_view(*self);
                }
                r
            },
            TyBody::TySpeMeta { base_name, type_args } => {
                let args = Self::copy_args(self, type_args);
                let r = TermTy {
                    fullname,
                    body: TyBody::TySpeMeta { base_name: copy_string(base_name), type_args: args },
                };
                proof {
                    lemma_args_view(r);
                    lemma_args_view(*self);
                }
                r
            },
            TyBody::TyParamRef { kind, name, idx } => TermTy {
                fullname,
                body: TyBody::TyParamRef { kind: *kind, name: copy_string(name), idx: *idx },
            },
        }
    }

    fn copy_args(outer: &TermTy, type_args: &Vec<TermTy>) -> (r: Vec<TermTy>)
        requires
            holds_args(*outer, *type_args),
        ensures
            views_of(r@) == views_of(type_args@),
        decreases outer, 0nat,
    {
        let mut r: Vec<TermTy> = Vec::new();
        let mut i: usize = 0;
        while i < type_args.len()
            invariant
                0 <= i <= type_args@.len(),
                holds_args(*outer, *type_args),
                views_of(r@) =~= views_of(type_args@).take(i as int),
            decreases type_args.len() - i,
        {
            proof {
                assert(decreases_to!(*outer => outer.body));
                assert(decreases_to!(outer.body => *type_args));
                assert(decreases_to!(*type_args => type_args@));
                assert(decreases_to!(type_args@ => type_args@[i as int]));
            }
            let c = type_args[i].copy();
            proof {
                lemma_views_push(r@, c);
                assert(views_of(type_args@).take(i + 1) =~= views_of(type_args@).take(i as int).push(
                    ty_view(type_args@[i as int]),
                ));
            }
            r.push(c);
            i += 1;
        }
        assert(views_of(type_args@).take(type_args@.len() as int) =~= views_of(type_args@));
        r
    }

    /// Whether the two types are the same (structurally)
    pub fn same_as(&self, other: &TermTy) -> (r: bool)
        ensures
            r == (self@ == other@),
        decreases self,
    {
        if self.fullname.0 != other.fullname.0 {
            return false;
        }
        match &self.body {
            TyBody::TyRaw => match &other.body {
                TyBody::TyRaw => true,
                _ => false,
            },
            TyBody::TyMeta { base_fullname: b1 } => match &other.body {
                TyBody::TyMeta { base_fullname: b2 } => *b1 == *b2,
                _ => false,
            },
            TyBody::TyClass => match &other.body {
                TyBody::TyClass => true,
                _ => false,
            },
            TyBody::TySpe { base_name: n1, type_args: a1 } => match &other.body {
                TyBody::TySpe { base_name: n2, type_args: a2 } => {
                    if *n1 != *n2 {
                        return false;
                    }
                    let r = Self::args_same(self, a1, a2);
                    proof {
                        lemma_args_view(*self);
                        lemma_args_view(*other);
                    }
                    r
                },
                _ => false,
            },
            TyBody::TySpeMeta { base_name: n1, type_args: a1 } => match &other.body {
                TyBody::TySpeMeta { base_name: n2, type_args: a2 } => {
                    if *n1 != *n2 {
                        return false;
                    }
                    let r = Self::args_same(self, a1, a2);
                    proof {
                        lemma_args_view(*self);
                        lemma_args_view(*other);
                    }
                    r
                },
                _ => false,
            },
            TyBody::TyParamRef { kind: k1, name: n1, idx: i1 } => match &other.body {
                TyBody::TyParamRef { kind: k2, name: n2, idx: i2 } => *k1 == *k2 && *n1 == *n2 && *i1
                    == *i2,
                _ => false,
            },
        }
    }

    fn args_same(outer: &TermTy, a1: &Vec<TermTy>, a2: &Vec<TermTy>) -> (r: bool)
        requires
            holds_args(*outer, *a1),
        ensures
            r == (views_of(a1@) == views_of(a2@)),
        decreases outer, 0nat,
    {
        if a1.len() != a2.len() {
            assert(views_of(a1@).len() != views_of(a2@).len());
            return false;
        }
        let mut i: usize = 0;
        while i < a1.len()
            invariant
                0 <= i <= a1@.len(),
                a1@.len() == a2@.len(),
                holds_args(*outer, *a1),
                forall|j: int| 0 <= j < i ==> ty_view(a1@[j]) == ty_view(a2@[j]),
            decreases a1.len() - i,
        {
            proof {
                assert(decreases_to!(*outer => outer.body));
                assert(decreases_to!(outer.body => *a1));
                assert(decreases_to!(*a1 => a1@));
                assert(decreases_to!(a1@ => a1@[i as int]));
            }
            if !a1[i].same_as(&a2[i]) {
                assert(views_of(a1@)[i as int] != views_of(a2@)[i as int]);
                return false;
            }
            i += 1;
        }
        assert(views_of(a1@) =~= views_of(a2@));
        true
    }

    /// The type of the class object of this type
    pub fn meta_ty(&self) -> (r: TermTy)
        ensures
            r@ == spec_meta_ty(self@),
    {
        match &self.body {
            TyBody::TyRaw => meta(self.fullname.0.as_str()),
            TyBody::TySpe { base_name, type_args } => {
                let args = copy_all(type_args.as_slice());
                proof { lemma_args_view(*self); }
                spe_meta(base_name.as_str(), args)
            },
            _ => class(),
        }
    }

    /// The class name of this type without type arguments, eg. `Array` for `Array<Int>`
    pub fn erasure(&self) -> (r: ClassFullname)
        ensures
            r@ == spec_erasure(self@),
    {
        match &self.body {
            TyBody::TySpe { base_name, .. } => ClassFullname(copy_string(base_name)),
            TyBody::TySpeMeta { base_name, .. } => {
                proof { lemma_strlits(); }
                ClassFullname(concat("Meta:", base_name.as_str()))
            },
            _ => self.fullname.copy(),
        }
    }

    /// The name of the (generic) class of this type
    pub fn base_class_name(&self) -> (r: ClassFullname)
        ensures
            r@ == spec_erasure(self@),
    {
        self.erasure()
    }

    /// Type arguments of this type (empty unless it is specialized)
    pub fn tyargs(&self) -> (r: &[TermTy])
        ensures
            views_of(r@) == spec_tyargs(self@),
    {
        match &self.body {
            TyBody::TySpe { type_args, .. } => {
                assert(views_of(type_args@) =~= spec_tyargs(self@));
                type_args.as_slice()
            },
            TyBody::TySpeMeta { type_args, .. } => {
                assert(views_of(type_args@) =~= spec_tyargs(self@));
                type_args.as_slice()
            },
            _ => {
                let e: &[TermTy] = &[];
                assert(views_of(e@) =~= spec_tyargs(self@));
                e
            },
        }
    }

    /// Replace type parameters with the given type arguments
    pub fn substitute(&self, class_tyargs: &[TermTy], method_tyargs: &[TermTy]) -> (r: TermTy)
        ensures
            r@ == spec_substitute(self@, views_of(class_tyargs@), views_of(method_tyargs@)),
        decreases self,
    {
        match &self.body {
            TyBody::TyParamRef { kind, idx, .. } => {
                let tyargs = match kind {
                    TyParamKind::Class => class_tyargs,
                    TyParamKind::Method => method_tyargs,
                };
                if *idx < tyargs.len() {
                    tyargs[*idx].copy()
                } else {
                    self.copy()
                }
            },
            TyBody::TySpe { base_name, type_args } => {
                let args = Self::substitute_args(self, type_args, class_tyargs, method_tyargs);
                proof {
                    lemma_args_view(*self);
                    let st = spec_substitute(self@, views_of(class_tyargs@), views_of(method_tyargs@));
                    assert(views_of(args@) =~= spec_tyargs(st));
                }
                spe(base_name.as_str(), args)
            },
            TyBody::TySpeMeta { base_name, type_args } => {
                let args = Self::substitute_args(self, type_args, class_tyargs, method_tyargs);
                proof {
                    lemma_args_view(*self);
                    let st = spec_substitute(self@, views_of(class_tyargs@), views_of(method_tyargs@));
                    assert(views_of(args@) =~= spec_tyargs(st));
                }
                spe_meta(base_name.as_str(), args)
            },
            _ => self.copy(),
        }
    }

    fn substitute_args(
        outer: &TermTy,
        type_args: &Vec<TermTy>,
        class_tyargs: &[TermTy],
        method_tyargs: &[TermTy],
    ) -> (r: Vec<TermTy>)
        requires
            holds_args(*outer, *type_args),
        ensures
            r@.len() == type_args@.len(),
            forall|i: int|
                0 <= i < r@.len() ==> #[trigger] ty_view(r@[i]) == spec_substitute(
                    ty_view(type_args@[i]),
                    views_of(class_tyargs@),
                    views_of(method_tyargs@),
                ),
        decreases outer, 0nat,
    {
        let mut r: Vec<TermTy> = Vec::new();
        let mut i: usize = 0;
        while i < type_args.len()
            invariant
                0 <= i <= type_args@.len(),
                holds_args(*outer, *type_args),
                r@.len() == i,
                forall|j: int|
                    0 <= j < i ==> #[trigger] ty_view(r@[j]) == spec_substitute(
                        ty_view(type_args@[j]),
                        views_of(class_tyargs@),
                        views_of(method_tyargs@),
                    ),
            decreases type_args.len() - i,
        {
            proof {
                assert(decreases_to!(*outer => outer.body));
                assert(decreases_to!(outer.body => *type_args));
                assert(decreases_to!(*type_args => type_args@));
                assert(decreases_to!(type_args@ => type_args@[i as int]));
            }
            r.push(type_args[i].substitute(class_tyargs, method_tyargs));
            i += 1;
        }
        r
    }

    /// Whether the two types have the same full name
    pub fn equals_to(&self, other: &TermTy) -> (r: bool)
        ensures
            r == (self@.fullname == other@.fullname),
    {
        self.fullname.0 == other.fullname.0
    }

    /// Whether the two types are of the same class, ignoring type arguments
    pub fn same_base(&self, other: &TermTy) -> (r: bool)
        ensures
            r == (spec_erasure(self@) == spec_erasure(other@)),
    {
        let a = self.erasure();
        let b = other.erasure();
        a.0 == b.0
    }

    /// Whether this is the bottom type `Never`
    pub fn is_never_type(&self) -> (r: bool)
        ensures
            r == (self@.fullname == never_word()),
    {
        proof { lemma_strlits(); }
        str_eq(self.fullname.0.as_str(), "Never")
    }

    /// Whether this is `Void`
    pub fn is_void_type(&self) -> (r: bool)
        ensures
            r == (self@.fullname == void_word()),
    {
        proof { lemma_strlits(); }
        str_eq(self.fullname.0.as_str(), "Void")
    }

    /// If this is a function type `FnN<..., R>`, its return type `R`
    pub fn fn_x_info(&self) -> (r: Option<&TermTy>)
        ensures
            match r {
                Some(t) => spec_fn_x_info(self@) == Some(t@),
                None => spec_fn_x_info(self@) is None,
            },
    {
        match &self.body {
            TyBody::TySpe { base_name, type_args } => {
                let b = base_name.as_str();
                if b.unicode_len() == 3 && type_args.len() > 0 {
                    let d = b.get_char(2);
                    if b.get_char(0) == 'F' && b.get_char(1) == 'n' && '0' <= d && d <= '9' {
                        let n = type_args.len();
                        return Some(&type_args[n - 1]);
                    }
                }
                None
            },
            _ => None,
        }
    }
}

} // verus!
