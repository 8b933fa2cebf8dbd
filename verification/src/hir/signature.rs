//! Method signatures.
use vstd::prelude::*;
use crate::ast;
use crate::names::{
    const_name_view, lemma_strlits, method_fullname, position, position_of, sep2,
    spec_method_fullname, ClassFullname, ConstName, ConstNameV, MethodFirstname, MethodFullname,
};
use crate::strs::{copy_string, join, seq_join, str_eq, strings_view};
use crate::ty;
use crate::ty::{ty_view, views_of, spec_substitute, TermTy, TyParamKind, TyV};

verus! {

/// The signature of a method
#[derive(Debug)]
pub struct MethodSignature {
    pub fullname: MethodFullname,
    pub ret_ty: TermTy,
    pub params: Vec<MethodParam>,
    pub typarams: Vec<String>,
}

/// A parameter of a method
#[derive(Debug)]
pub struct MethodParam {
    pub name: String,
    pub ty: TermTy,
}

/// The abstract value of a parameter: (name, type)
impl View for MethodParam {
    type V = (Seq<char>, TyV);

    open spec fn view(&self) -> (Seq<char>, TyV) {
        (self.name@, self.ty@)
    }
}

pub open spec fn params_view(p: Seq<MethodParam>) -> Seq<(Seq<char>, TyV)> {
    Seq::new(p.len(), |i: int| p[i]@)
}

/// The abstract value of a signature
pub struct SigV {
    pub fullname: (Seq<char>, Seq<char>),
    pub ret_ty: TyV,
    pub params: Seq<(Seq<char>, TyV)>,
    pub typarams: Seq<Seq<char>>,
}

impl View for MethodSignature {
    type V = SigV;

    open spec fn view(&self) -> SigV {
        SigV {
            fullname: self.fullname@,
            ret_ty: self.ret_ty@,
            params: params_view(self.params@),
            typarams: strings_view(self.typarams@),
        }
    }
}

/// A parameter with type parameters replaced by type arguments
pub open spec fn spec_param_substitute(p: (Seq<char>, TyV), class_tyargs: Seq<TyV>, method_tyargs: Seq<TyV>) -> (
    Seq<char>,
    TyV,
) {
    (p.0, spec_substitute(p.1, class_tyargs, method_tyargs))
}

/// A signature with type parameters replaced by type arguments (its own type parameters are kept)
pub open spec fn spec_specialize(s: SigV, class_tyargs: Seq<TyV>, method_tyargs: Seq<TyV>) -> SigV {
    SigV {
        fullname: s.fullname,
        ret_ty: spec_substitute(s.ret_ty, class_tyargs, method_tyargs),
        params: Seq::new(
            s.params.len(),
            |i: int| spec_param_substitute(s.params[i], class_tyargs, method_tyargs),
        ),
        typarams: s.typarams,
    }
}

/// Copies of the strings of `v`
pub fn copy_strings(v: &Vec<String>) -> (r: Vec<String>)
    ensures
        strings_view(r@) == strings_view(v@),
{
    let mut r: Vec<String> = Vec::new();
    let mut i: usize = 0;
    while i < v.len()
        invariant
            0 <= i <= v@.len(),
            strings_view(r@) =~= strings_view(v@).take(i as int),
        decreases v.len() - i,
    {
        let c = copy_string(&v[i]);
        proof {
            assert(strings_view(r@.push(c)) =~= strings_view(r@).push(c@));
            assert(strings_view(v@).take(i + 1) =~= strings_view(v@).take(i as int).push(v@[i as int]@));
        }
        r.push(c);
        i += 1;
    }
    assert(strings_view(v@).take(v@.len() as int) =~= strings_view(v@));
    r
}

/// Copies of the parameters of `v`
pub fn copy_params(v: &[MethodParam]) -> (r: Vec<MethodParam>)
    ensures
        params_view(r@) == params_view(v@),
{
    let mut r: Vec<MethodParam> = Vec::new();
    let mut i: usize = 0;
    while i < v.len()
        invariant
            0 <= i <= v@.len(),
            params_view(r@) =~= params_view(v@).take(i as int),
        decreases v.len() - i,
    {
        let c = v[i].copy();
        proof {
            assert(params_view(r@.push(c)) =~= params_view(r@).push(c@));
            assert(params_view(v@).take(i + 1) =~= params_view(v@).take(i as int).push(v@[i as int]@));
        }
        r.push(c);
        i += 1;
    }
    assert(params_view(v@).take(v@.len() as int) =~= params_view(v@));
    r
}

impl MethodSignature {
    /// A copy of this signature
    pub fn copy(&self) -> (r: MethodSignature)
        ensures
            r@ == self@,
    {
        MethodSignature {
            fullname: self.fullname.copy(),
            ret_ty: self.ret_ty.copy(),
            params: copy_params(self.params.as_slice()),
            typarams: copy_strings(&self.typarams),
        }
    }

    pub fn first_name(&self) -> (r: &MethodFirstname)
        ensures
            *r == self.fullname.first_name,
    {
        &self.fullname.first_name
    }

    /// Substitute type parameters with type arguments
    pub fn specialize(&self, class_tyargs: &[TermTy], method_tyargs: &[TermTy]) -> (r: MethodSignature)
        ensures
            r@ == spec_specialize(self@, views_of(class_tyargs@), views_of(method_tyargs@)),
    {
        let mut params: Vec<MethodParam> = Vec::new();
        let mut i: usize = 0;
        while i < self.params.len()
            invariant
                0 <= i <= self.params@.len(),
                params@.len() == i,
                forall|j: int|
                    0 <= j < i ==> #[trigger] params@[j]@ == spec_param_substitute(
                        self.params@[j]@,
                        views_of(class_tyargs@),
                        views_of(method_tyargs@),
                    ),
            decreases self.params.len() - i,
        {
            params.push(self.params[i].substitute(class_tyargs, method_tyargs));
            i += 1;
        }
        let r = MethodSignature {
            fullname: self.fullname.copy(),
            ret_ty: self.ret_ty.substitute(class_tyargs, method_tyargs),
            params,
            // eg. Array<T>#map<U>(f: Fn1<T, U>) -> Array<Int>#map<U>(f: Fn1<Int, U>)
            typarams: copy_strings(&self.typarams),
        };
        assert(r@.params =~= spec_specialize(self@, views_of(class_tyargs@), views_of(method_tyargs@)).params);
        r
    }
}

impl MethodParam {
    /// A copy of this parameter
    pub fn copy(&self) -> (r: MethodParam)
        ensures
            r@ == self@,
    {
        MethodParam { name: copy_string(&self.name), ty: self.ty.copy() }
    }

    pub fn substitute(&self, class_tyargs: &[TermTy], method_tyargs: &[TermTy]) -> (r: MethodParam)
        ensures
            r@ == spec_param_substitute(self@, views_of(class_tyargs@), views_of(method_tyargs@)),
    {
        MethodParam { name: copy_string(&self.name), ty: self.ty.substitute(class_tyargs, method_tyargs) }
    }
}

/// The index of the first parameter named `name`, if any
pub open spec fn spec_find_param(params: Seq<(Seq<char>, TyV)>, name: Seq<char>) -> Option<int> {
    position_of(Seq::new(params.len(), |i: int| params[i].0), name)
}

/// Return a param of the given name and its index
pub fn find_param<'a>(params: &'a [MethodParam], name: &str) -> (r: Option<(usize, &'a MethodParam)>)
    ensures
        match r {
            Some((i, p)) => spec_find_param(params_view(params@), name@) == Some(i as int) && i < params@.len() && *p == params@[i as int],
            None => spec_find_param(params_view(params@), name@) is None,
        },
{
    let ghost names = Seq::new(params_view(params@).len(), |i: int| params_view(params@)[i].0);
    let mut i: usize = 0;
    while i < params.len()
        invariant
            0 <= i <= params@.len(),
            names == Seq::new(params_view(params@).len(), |i: int| params_view(params@)[i].0),
            position_of(names, name@) == crate::names::position_from(names, name@, i as int),
        decreases params.len() - i,
    {
        if str_eq(params[i].name.as_str(), name) {
            return Some((i, &params[i]));
        }
        i += 1;
    }
    None
}

/// The type that a written type denotes; type parameter names take precedence over classes
pub open spec fn spec_convert_typ(c: ConstNameV, class_typarams: Seq<Seq<char>>, method_typarams: Seq<Seq<char>>) -> TyV
    decreases c, 1nat,
{
    let name = seq_join(c.names, sep2());
    if let Some(i) = position_of(class_typarams, name) {
        ty::spec_typaram(name, TyParamKind::Class, i as nat)
    } else if let Some(i) = position_of(method_typarams, name) {
        ty::spec_typaram(name, TyParamKind::Method, i as nat)
    } else if c.args.len() == 0 {
        ty::spec_raw(name)
    } else {
        ty::spec_spe(name, spec_convert_args(c, class_typarams, method_typarams))
    }
}

/// The types that the type arguments of a written type denote
pub open spec fn spec_convert_args(c: ConstNameV, class_typarams: Seq<Seq<char>>, method_typarams: Seq<Seq<char>>) -> Seq<TyV>
    decreases c, 0nat,
{
    Seq::new(
        c.args.len(),
        |i: int|
            if 0 <= i < c.args.len() {
                spec_convert_typ(c.args[i], class_typarams, method_typarams)
            } else {
                ty::spec_raw(Seq::empty())
            },
    )
}

/// A written type whose name is a class type parameter denotes that parameter, with the index
/// of the first class type parameter of that name.
pub proof fn law_convert_class_typaram(c: ConstNameV, class_typarams: Seq<Seq<char>>, method_typarams: Seq<Seq<char>>)
    requires
        class_typarams.contains(seq_join(c.names, sep2())),
    ensures
        ({
            let name = seq_join(c.names, sep2());
            spec_convert_typ(c, class_typarams, method_typarams).fullname == name && (spec_convert_typ(
                c,
                class_typarams,
                method_typarams,
            ).body matches ty::TyBodyV::Param { kind, name: n, idx } && kind == TyParamKind::Class && n == name
                && idx < class_typarams.len() && class_typarams[idx as int] == name && forall|j: int|
                0 <= j < idx ==> class_typarams[j] != name)
        }),
{
    let name = seq_join(c.names, sep2());
    crate::names::lemma_position_from(class_typarams, name, 0);
    let k = choose|k: int| 0 <= k < class_typarams.len() && class_typarams[k] == name;
}

/// A written generic type `N<a1, .., an>`, whose name is no type parameter, denotes the type
/// `N` specialized with what each written argument denotes under the same type parameters.
pub proof fn law_convert_generic(c: ConstNameV, class_typarams: Seq<Seq<char>>, method_typarams: Seq<Seq<char>>)
    requires
        !class_typarams.contains(seq_join(c.names, sep2())),
        !method_typarams.contains(seq_join(c.names, sep2())),
        c.args.len() > 0,
    ensures
        spec_convert_typ(c, class_typarams, method_typarams) == ty::spec_spe(
            seq_join(c.names, sep2()),
            Seq::new(c.args.len(), |i: int| spec_convert_typ(c.args[i], class_typarams, method_typarams)),
        ),
{
    let name = seq_join(c.names, sep2());
    crate::names::lemma_position_from(class_typarams, name, 0);
    crate::names::lemma_position_from(method_typarams, name, 0);
    if position_of(class_typarams, name) is Some {
        let i = position_of(class_typarams, name).unwrap();
        assert(class_typarams[i] == name);
    }
    if position_of(method_typarams, name) is Some {
        let i = position_of(method_typarams, name).unwrap();
        assert(method_typarams[i] == name);
    }
    assert(spec_convert_args(c, class_typarams, method_typarams) =~= Seq::new(
        c.args.len(),
        |i: int| spec_convert_typ(c.args[i], class_typarams, method_typarams),
    ));
}

/// In a written generic type `N<.., a, ..>`, whose name is no type parameter, an argument `a`
/// whose name is a class type parameter denotes that parameter: `Array<T>` in a class with the
/// type parameter `T` is `Array` of that parameter, not of a class named `T`.
pub proof fn law_convert_typaram_argument(
    c: ConstNameV,
    class_typarams: Seq<Seq<char>>,
    method_typarams: Seq<Seq<char>>,
    i: int,
)
    requires
        !class_typarams.contains(seq_join(c.names, sep2())),
        !method_typarams.contains(seq_join(c.names, sep2())),
        0 <= i < c.args.len(),
        class_typarams.contains(seq_join(c.args[i].names, sep2())),
    ensures
        spec_convert_typ(c, class_typarams, method_typarams).body matches ty::TyBodyV::Spe { base, args } && base
            == seq_join(c.names, sep2()) && args.len() == c.args.len() && (args[i].body matches ty::TyBodyV::Param {
            kind,
            name: n,
            idx,
        } && kind == TyParamKind::Class && n == seq_join(c.args[i].names, sep2()) && idx < class_typarams.len()
            && class_typarams[idx as int] == n && forall|j: int| 0 <= j < idx ==> class_typarams[j] != n),
{
    law_convert_generic(c, class_typarams, method_typarams);
    law_convert_class_typaram(c.args[i], class_typarams, method_typarams);
}

pub fn convert_typ(typ: &ConstName, class_typarams: &[String], method_typarams: &[String]) -> (r: TermTy)
    ensures
        r@ == spec_convert_typ(typ@, strings_view(class_typarams@), strings_view(method_typarams@)),
    decreases typ,
{
    proof { lemma_strlits(); }
    let name = join(&typ.names, "::");
    if let Some(idx) = position(class_typarams, name.as_str()) {
        ty::typaram(name.as_str(), TyParamKind::Class, idx)
    } else if let Some(idx) = position(method_typarams, name.as_str()) {
        ty::typaram(name.as_str(), TyParamKind::Method, idx)
    } else if typ.args.len() == 0 {
        ty::raw(name.as_str())
    } else {
        let mut tyargs: Vec<TermTy> = Vec::new();
        let mut i: usize = 0;
        while i < typ.args.len()
            invariant
                0 <= i <= typ.args@.len(),
                tyargs@.len() == i,
                forall|j: int|
                    0 <= j < i ==> #[trigger] ty_view(tyargs@[j]) == spec_convert_typ(
                        const_name_view(typ.args@[j]),
                        strings_view(class_typarams@),
                        strings_view(method_typarams@),
                    ),
            decreases typ.args.len() - i,
        {
            proof {
                assert(decreases_to!(*typ => typ.args));
                assert(decreases_to!(typ.args => typ.args@));
                assert(decreases_to!(typ.args@ => typ.args@[i as int]));
            }
            tyargs.push(convert_typ(&typ.args[i], class_typarams, method_typarams));
            i += 1;
        }
        proof {
            assert(views_of(tyargs@) =~= spec_convert_args(
                typ@,
                strings_view(class_typarams@),
                strings_view(method_typarams@),
            ));
        }
        ty::spe(name.as_str(), tyargs)
    }
}

/// The parameters of a method from the written ones
pub open spec fn spec_convert_params(params: Seq<ast::Param>, class_typarams: Seq<Seq<char>>, method_typarams: Seq<Seq<char>>) -> Seq<(Seq<char>, TyV)> {
    Seq::new(
        params.len(),
        |i: int| (params[i].name@, spec_convert_typ(params[i].typ@, class_typarams, method_typarams)),
    )
}

pub fn convert_params(params: &[ast::Param], class_typarams: &[String], method_typarams: &[String]) -> (r: Vec<MethodParam>)
    ensures
        params_view(r@) == spec_convert_params(params@, strings_view(class_typarams@), strings_view(method_typarams@)),
{
    let mut r: Vec<MethodParam> = Vec::new();
    let mut i: usize = 0;
    while i < params.len()
        invariant
            0 <= i <= params@.len(),
            params_view(r@) =~= spec_convert_params(params@, strings_view(class_typarams@), strings_view(method_typarams@)).take(i as int),
        decreases params.len() - i,
    {
        let p = MethodParam {
            name: copy_string(&params[i].name),
            ty: convert_typ(&params[i].typ, class_typarams, method_typarams),
        };
        proof {
            assert(params_view(r@.push(p)) =~= params_view(r@).push(p@));
        }
        r.push(p);
        i += 1;
    }
    r
}

/// The signature made from a written one, for a method of the class `class_fullname`
pub open spec fn spec_create_signature(class_fullname: Seq<char>, sig: ast::AstMethodSignature, class_typarams: Seq<Seq<char>>) -> SigV {
    let mtp = strings_view(sig.typarams@);
    SigV {
        fullname: spec_method_fullname(class_fullname, sig.name@),
        ret_ty: match sig.ret_typ {
            Some(typ) => spec_convert_typ(typ@, class_typarams, mtp),
            None => ty::spec_raw(seq!['V', 'o', 'i', 'd']),  // Default return type.
        },
        params: spec_convert_params(sig.params@, class_typarams, mtp),
        typarams: mtp,
    }
}

/// Create `hir::MethodSignature` from `ast::MethodSignature`
pub fn create_signature(class_fullname: &ClassFullname, sig: &ast::AstMethodSignature, class_typarams: &[String]) -> (r: MethodSignature)
    ensures
        r@ == spec_create_signature(class_fullname@, *sig, strings_view(class_typarams@)),
{
    proof { lemma_strlits(); }
    let fullname = method_fullname(class_fullname, sig.name.0.as_str());
    let ret_ty = match &sig.ret_typ {
        Some(typ) => convert_typ(typ, class_typarams, sig.typarams.as_slice()),
        None => ty::raw("Void"),  // Default return type.
    };
    let params = convert_params(sig.params.as_slice(), class_typarams, sig.typarams.as_slice());
    MethodSignature { fullname, ret_ty, params, typarams: copy_strings(&sig.typarams) }
}

/// Create a signature of a `new` method
pub fn signature_of_new(metaclass_fullname: &ClassFullname, initialize_params: Vec<MethodParam>, instance_ty: &TermTy) -> (r: MethodSignature)
    ensures
        r@ == (SigV {
            fullname: spec_method_fullname(metaclass_fullname@, seq!['n', 'e', 'w']),
            ret_ty: instance_ty@,
            params: params_view(initialize_params@),
            typarams: Seq::empty(),
        }),
{
    proof { reveal_strlit("new"); assert("new"@ =~= seq!['n', 'e', 'w']); }
    let r = MethodSignature {
        fullname: method_fullname(metaclass_fullname, "new"),
        ret_ty: instance_ty.copy(),
        params: initialize_params,
        typarams: Vec::new(),
    };
    assert(strings_view(r.typarams@) =~= Seq::<Seq<char>>::empty());
    r
}

/// `initialize`
pub open spec fn initialize_word() -> Seq<char> {
    seq!['i', 'n', 'i', 't', 'i', 'a', 'l', 'i', 'z', 'e']
}

/// Create a signature of a `initialize` method
pub fn signature_of_initialize(class_fullname: &ClassFullname, params: Vec<MethodParam>) -> (r: MethodSignature)
    ensures
        r@ == (SigV {
            fullname: spec_method_fullname(class_fullname@, initialize_word()),
            ret_ty: ty::spec_raw(seq!['V', 'o', 'i', 'd']),
            params: params_view(params@),
            typarams: Seq::empty(),
        }),
{
    proof {
        lemma_strlits();
        reveal_strlit("initialize");
        assert("initialize"@ =~= initialize_word());
    }
    let r = MethodSignature {
        fullname: method_fullname(class_fullname, "initialize"),
        ret_ty: ty::raw("Void"),
        params,
        typarams: Vec::new(),
    };
    assert(strings_view(r.typarams@) =~= Seq::<Seq<char>>::empty());
    r
}

} // verus!
