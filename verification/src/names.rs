//! Names of classes, methods and constants.
use vstd::prelude::*;
use crate::strs::{concat, copy_string, is_empty_str, join, seq_join, starts_with, str_eq, strings_view, to_owned};
use crate::ty;
use crate::ty::{TermTy, TyParamKind, TyV, ty_view};

verus! {

/// `"::"`
pub open spec fn sep2() -> Seq<char> {
    seq![':', ':']
}

/// `"Meta:"`
pub open spec fn meta_prefix() -> Seq<char> {
    seq!['M', 'e', 't', 'a', ':']
}

/// `"Class"`
pub open spec fn class_word() -> Seq<char> {
    seq!['C', 'l', 'a', 's', 's']
}

/// `"Object"`
pub open spec fn object_word() -> Seq<char> {
    seq!['O', 'b', 'j', 'e', 'c', 't']
}

/// The contents of the string literals that this crate builds names from.
pub proof fn lemma_strlits()
    ensures
        "::"@ == sep2(),
        "Meta:"@ == meta_prefix(),
        "Class"@ == class_word(),
        "#"@ == seq!['#'],
        "<"@ == seq!['<'],
        ","@ == seq![','],
        ">"@ == seq!['>'],
        "Never"@ == seq!['N', 'e', 'v', 'e', 'r'],
        "Void"@ == seq!['V', 'o', 'i', 'd'],
        "Array"@ == seq!['A', 'r', 'r', 'a', 'y'],
        "Object"@ == seq!['O', 'b', 'j', 'e', 'c', 't'],
{
    reveal_strlit("::");
    reveal_strlit("Meta:");
    reveal_strlit("Class");
    reveal_strlit("#");
    reveal_strlit("<");
    reveal_strlit(",");
    reveal_strlit(">");
    reveal_strlit("Never");
    reveal_strlit("Void");
    reveal_strlit("Array");
    reveal_strlit("Object");
    assert("::"@ =~= sep2());
    assert("Meta:"@ =~= meta_prefix());
    assert("Class"@ =~= class_word());
    assert("#"@ =~= seq!['#']);
    assert("<"@ =~= seq!['<']);
    assert(","@ =~= seq![',']);
    assert(">"@ =~= seq!['>']);
    assert("Never"@ =~= seq!['N', 'e', 'v', 'e', 'r']);
    assert("Void"@ =~= seq!['V', 'o', 'i', 'd']);
    assert("Array"@ =~= seq!['A', 'r', 'r', 'a', 'y']);
    assert("Object"@ =~= seq!['O', 'b', 'j', 'e', 'c', 't']);
}

/// Whether `s` begins with `p`.
pub open spec fn seq_starts_with(s: Seq<char>, p: Seq<char>) -> bool {
    p.len() <= s.len() && s.subrange(0, p.len() as int) == p
}

/// The first index at or after `start` where `s` holds `x`.
pub open spec fn position_from(s: Seq<Seq<char>>, x: Seq<char>, start: int) -> Option<int>
    decreases s.len() - start,
{
    if start < 0 || start >= s.len() {
        None
    } else if s[start] == x {
        Some(start)
    } else {
        position_from(s, x, start + 1)
    }
}

/// `position_from` gives the first index at or after `start` that holds `x`, and nothing
/// where none does
pub proof fn lemma_position_from(s: Seq<Seq<char>>, x: Seq<char>, start: int)
    requires
        0 <= start,
    ensures
        match position_from(s, x, start) {
            Some(i) => start <= i < s.len() && s[i] == x && forall|j: int| start <= j < i ==> s[j] != x,
            None => forall|j: int| start <= j < s.len() ==> s[j] != x,
        },
    decreases s.len() - start,
{
    if start < s.len() && s[start] != x {
        lemma_position_from(s, x, start + 1);
    }
}

/// The first index where `s` holds `x`, if any.
pub open spec fn position_of(s: Seq<Seq<char>>, x: Seq<char>) -> Option<int> {
    position_from(s, x, 0)
}

/// Index of the first string of `v` equal to `x` (as `position` on an iterator does).
pub fn position(v: &[String], x: &str) -> (r: Option<usize>)
    ensures
        match r {
            Some(i) => position_of(strings_view(v@), x@) == Some(i as int),
            None => position_of(strings_view(v@), x@) is None,
        },
{
    let mut i: usize = 0;
    while i < v.len()
        invariant
            0 <= i <= v@.len(),
            position_of(strings_view(v@), x@) == position_from(strings_view(v@), x@, i as int),
        decreases v.len() - i,
    {
        if str_eq(v[i].as_str(), x) {
            return Some(i);
        }
        i += 1;
    }
    None
}

// ---------------------------------------------------------------- classes

/// The name of a class without its namespace, eg. `B` of `A::B`
#[derive(Debug)]
pub struct ClassFirstname(pub String);

impl View for ClassFirstname {
    type V = Seq<char>;

    open spec fn view(&self) -> Seq<char> {
        self.0@
    }
}

impl ClassFirstname {
    /// The full name of this class in `namespace`
    pub fn add_namespace(&self, namespace: &str) -> (r: ClassFullname)
        ensures
            r@ == (if namespace@.len() == 0 {
                self@
            } else {
                namespace@ + sep2() + self@
            }),
    {
        if is_empty_str(namespace) {
            ClassFullname(copy_string(&self.0))
        } else {
            let mut s = concat(namespace, "::");
            proof { lemma_strlits(); }
            s.append(self.0.as_str());
            ClassFullname(s)
        }
    }
}

pub fn class_firstname(s: &str) -> (r: ClassFirstname)
    ensures
        r@ == s@,
{
    ClassFirstname(to_owned(s))
}

/// The full name of a class, eg. `A::B`, `Meta:A`, `Array<Int>`
#[derive(Debug)]
pub struct ClassFullname(pub String);

impl View for ClassFullname {
    type V = Seq<char>;

    open spec fn view(&self) -> Seq<char> {
        self.0@
    }
}

impl PartialEq for ClassFullname {
    fn eq(&self, other: &Self) -> (r: bool) {
        self.0 == other.0
    }
}

impl vstd::std_specs::cmp::PartialEqSpecImpl for ClassFullname {
    open spec fn obeys_eq_spec() -> bool {
        true
    }

    open spec fn eq_spec(&self, other: &Self) -> bool {
        self.0@ == other.0@
    }
}

pub fn class_fullname(s: &str) -> (r: ClassFullname)
    ensures
        r@ == s@,
{
    ClassFullname(to_owned(s))
}

/// The name of the metaclass of the class `base`
pub open spec fn spec_metaclass_fullname(base: Seq<char>) -> Seq<char> {
    if base == class_word() {
        class_word()
    } else {
        meta_prefix() + base
    }
}

/// The class of `Class` is `Class` itself; the metaclass of any other class `X` is `Meta:X`.
pub proof fn law_metaclass_of_class(base: Seq<char>)
    ensures
        spec_metaclass_fullname(class_word()) == class_word(),
        base != class_word() ==> spec_metaclass_fullname(base) == meta_prefix() + base,
{
}

/// The full name of the metaclass of the class `base` (`Class` is its own metaclass)
pub fn metaclass_fullname(base: &str) -> (r: ClassFullname)
    ensures
        r@ == spec_metaclass_fullname(base@),
{
    proof { lemma_strlits(); }
    if str_eq(base, "Class") {
        class_fullname("Class")
    } else {
        ClassFullname(concat("Meta:", base))
    }
}

impl ClassFullname {
    /// A copy of this name
    pub fn copy(&self) -> (r: ClassFullname)
        ensures
            r@ == self@,
    {
        ClassFullname(copy_string(&self.0))
    }

    /// The type of the instances of this class
    pub fn instance_ty(&self) -> (r: TermTy)
        ensures
            r@ == ty::spec_raw(self@),
    {
        ty::raw(self.0.as_str())
    }

    /// The type of this class object
    pub fn class_ty(&self) -> (r: TermTy)
        ensures
            r@ == ty::spec_meta(self@),
    {
        ty::meta(self.0.as_str())
    }

    /// Whether this is the name of a metaclass
    pub fn is_meta(&self) -> (r: bool)
        ensures
            r == seq_starts_with(self@, meta_prefix()),
    {
        proof { lemma_strlits(); }
        starts_with(self.0.as_str(), "Meta:")
    }

    /// The type which this name denotes: the class object's type for a metaclass name,
    /// the instance type otherwise
    pub fn to_ty(&self) -> (r: TermTy)
        ensures
            r@ == (if seq_starts_with(self@, meta_prefix()) {
                ty::spec_meta(self@.subrange(5, self@.len() as int))
            } else {
                ty::spec_raw(self@)
            }),
    {
        if self.is_meta() {
            let n = self.0.unicode_len();
            let base = self.0.as_str().substring_char(5, n);
            ty::meta(base)
        } else {
            self.instance_ty()
        }
    }

    /// The name of the metaclass of this class
    pub fn meta_name(&self) -> (r: ClassFullname)
        ensures
            r@ == spec_metaclass_fullname(self@),
    {
        metaclass_fullname(self.0.as_str())
    }
}

// ---------------------------------------------------------------- methods

/// The name of a method without its class, eg. `foo`
#[derive(Debug)]
pub struct MethodFirstname(pub String);

impl View for MethodFirstname {
    type V = Seq<char>;

    open spec fn view(&self) -> Seq<char> {
        self.0@
    }
}

impl PartialEq for MethodFirstname {
    fn eq(&self, other: &Self) -> (r: bool) {
        self.0 == other.0
    }
}

impl vstd::std_specs::cmp::PartialEqSpecImpl for MethodFirstname {
    open spec fn obeys_eq_spec() -> bool {
        true
    }

    open spec fn eq_spec(&self, other: &Self) -> bool {
        self.0@ == other.0@
    }
}

pub fn method_firstname(s: &str) -> (r: MethodFirstname)
    ensures
        r@ == s@,
{
    MethodFirstname(to_owned(s))
}

impl MethodFirstname {
    /// A copy of this name
    pub fn copy(&self) -> (r: MethodFirstname)
        ensures
            r@ == self@,
    {
        MethodFirstname(copy_string(&self.0))
    }

    /// This name followed by `suffix`
    pub fn append(&self, suffix: &str) -> (r: MethodFirstname)
        ensures
            r@ == self@ + suffix@,
    {
        MethodFirstname(concat(self.0.as_str(), suffix))
    }
}

/// The full name of a method, eg. `Foo#bar`
#[derive(Debug)]
pub struct MethodFullname {
    pub full_name: String,
    pub first_name: MethodFirstname,
}

/// The view of a method's full name: (full name, first name)
impl View for MethodFullname {
    type V = (Seq<char>, Seq<char>);

    open spec fn view(&self) -> (Seq<char>, Seq<char>) {
        (self.full_name@, self.first_name@)
    }
}

impl PartialEq for MethodFullname {
    fn eq(&self, other: &Self) -> (r: bool) {
        self.full_name == other.full_name && self.first_name.0 == other.first_name.0
    }
}

impl vstd::std_specs::cmp::PartialEqSpecImpl for MethodFullname {
    open spec fn obeys_eq_spec() -> bool {
        true
    }

    open spec fn eq_spec(&self, other: &Self) -> bool {
        self.full_name@ == other.full_name@ && self.first_name@ == other.first_name@
    }
}

/// The view of `method_fullname(class_name, first_name)`
pub open spec fn spec_method_fullname(class_name: Seq<char>, first_name: Seq<char>) -> (
    Seq<char>,
    Seq<char>,
) {
    (class_name + seq!['#'] + first_name, first_name)
}

pub fn method_fullname(class_name: &ClassFullname, first_name: &str) -> (r: MethodFullname)
    ensures
        r@ == spec_method_fullname(class_name@, first_name@),
{
    let mut full = concat(class_name.0.as_str(), "#");
    proof { lemma_strlits(); }
    full.append(first_name);
    MethodFullname { full_name: full, first_name: method_firstname(first_name) }
}

/// Whether `s` is one of `Fn0#call`, ..., `Fn9#call`
pub open spec fn spec_is_fn_x_call(s: Seq<char>) -> bool {
    &&& s.len() == 8
    &&& s[0] == 'F'
    &&& s[1] == 'n'
    &&& '0' <= s[2] <= '9'
    &&& s.subrange(3, 8) == seq!['#', 'c', 'a', 'l', 'l']
}

impl MethodFullname {
    /// A copy of this name
    pub fn copy(&self) -> (r: MethodFullname)
        ensures
            r@ == self@,
    {
        MethodFullname { full_name: copy_string(&self.full_name), first_name: self.first_name.copy() }
    }

    /// Returns true if this is any of `Fn0#call`, ..., `Fn9#call`
    pub fn is_fn_x_call(&self) -> (r: bool)
        ensures
            r == spec_is_fn_x_call(self.full_name@),
    {
        let s = self.full_name.as_str();
        if s.unicode_len() != 8 {
            return false;
        }
        let d = s.get_char(2);
        let ok = s.get_char(0) == 'F' && s.get_char(1) == 'n' && '0' <= d && d <= '9'
            && s.get_char(3) == '#' && s.get_char(4) == 'c' && s.get_char(5) == 'a'
            && s.get_char(6) == 'l' && s.get_char(7) == 'l';
        proof {
            if ok {
                assert(s@.subrange(3, 8) =~= seq!['#', 'c', 'a', 'l', 'l']);
            } else if s@.subrange(3, 8) == seq!['#', 'c', 'a', 'l', 'l'] {
                assert(s@.subrange(3, 8)[0] == s@[3]);
                assert(s@.subrange(3, 8)[1] == s@[4]);
                assert(s@.subrange(3, 8)[2] == s@[5]);
                assert(s@.subrange(3, 8)[3] == s@[6]);
                assert(s@.subrange(3, 8)[4] == s@[7]);
            }
        }
        ok
    }

    /// Whether this is a class method, ie. defined on a metaclass
    pub fn is_class_method(&self) -> (r: bool)
        ensures
            r == seq_starts_with(self.full_name@, meta_prefix()),
    {
        proof { lemma_strlits(); }
        starts_with(self.full_name.as_str(), "Meta:")
    }
}

// ---------------------------------------------------------------- constants

/// The name of a constant without its namespace
#[derive(Debug)]
pub struct ConstFirstname(pub String);

impl View for ConstFirstname {
    type V = Seq<char>;

    open spec fn view(&self) -> Seq<char> {
        self.0@
    }
}

/// Whether `s` is a well-formed full constant name: it begins with `::` but not with `::::`
pub open spec fn valid_const_fullname(s: Seq<char>) -> bool {
    seq_starts_with(s, sep2()) && !seq_starts_with(s, sep2() + sep2())
}

impl ConstFirstname {
    /// The full name of this constant in `namespace`
    pub fn add_namespace(&self, namespace: &str) -> (r: ConstFullname)
        requires
            valid_const_fullname(sep2() + namespace@ + sep2() + self@),
        ensures
            r@ == sep2() + namespace@ + sep2() + self@,
    {
        proof { lemma_strlits(); }
        let mut s = concat("::", namespace);
        s.append("::");
        s.append(self.0.as_str());
        const_fullname(s.as_str())
    }
}

pub fn const_firstname(s: &str) -> (r: ConstFirstname)
    ensures
        r@ == s@,
{
    ConstFirstname(to_owned(s))
}

/// The full name of a constant, eg. `::A::B`
#[derive(Debug)]
pub struct ConstFullname(pub String);

impl View for ConstFullname {
    type V = Seq<char>;

    open spec fn view(&self) -> Seq<char> {
        self.0@
    }
}

/// Make a `ConstFullname`; `s` must begin with `::` (and not with `::::`)
pub fn const_fullname(s: &str) -> (r: ConstFullname)
    requires
        valid_const_fullname(s@),
    ensures
        r@ == s@,
{
    ConstFullname(to_owned(s))
}

/// A constant name as written, possibly with type arguments, eg. `A::B<C>`
#[derive(Debug)]
pub struct ConstName {
    pub names: Vec<String>,
    pub args: Vec<ConstName>,
}

/// The abstract value of a `ConstName`
pub struct ConstNameV {
    pub names: Seq<Seq<char>>,
    pub args: Seq<ConstNameV>,
}

pub open spec fn const_name_view(c: ConstName) -> ConstNameV
    decreases c,
{
    ConstNameV {
        names: strings_view(c.names@),
        args: Seq::new(
            c.args@.len(),
            |i: int|
                if 0 <= i < c.args@.len() {
                    const_name_view(c.args@[i])
                } else {
                    ConstNameV { names: Seq::empty(), args: Seq::empty() }
                },
        ),
    }
}

impl View for ConstName {
    type V = ConstNameV;

    open spec fn view(&self) -> ConstNameV {
        const_name_view(*self)
    }
}

/// The class name that a `ConstName` stands for, eg. `A::B<C,D>`
pub open spec fn const_name_string(c: ConstNameV) -> Seq<char>
    decreases c, 1nat,
{
    let base = seq_join(c.names, sep2());
    if c.args.len() == 0 {
        base
    } else {
        base + seq!['<'] + seq_join(const_arg_strings(c), seq![',']) + seq!['>']
    }
}

/// The class names of the type arguments of a `ConstName`
pub open spec fn const_arg_strings(c: ConstNameV) -> Seq<Seq<char>>
    decreases c, 0nat,
{
    Seq::new(
        c.args.len(),
        |i: int|
            if 0 <= i < c.args.len() {
                const_name_string(c.args[i])
            } else {
                Seq::empty()
            },
    )
}

/// The type that a `ConstName` denotes when it refers to a class
pub open spec fn spec_const_to_ty(c: ConstNameV, class_typarams: Seq<Seq<char>>, method_typarams: Seq<Seq<char>>) -> TyV
    decreases c, 1nat,
{
    let s = seq_join(c.names, sep2());
    if c.args.len() == 0 {
        if let Some(i) = position_of(class_typarams, s) {
            ty::spec_typaram(s, TyParamKind::Class, i as nat)
        } else if let Some(i) = position_of(method_typarams, s) {
            ty::spec_typaram(s, TyParamKind::Method, i as nat)
        } else {
            ty::spec_raw(s)
        }
    } else {
        ty::spec_spe(s, spec_const_args_to_ty(c, class_typarams, method_typarams))
    }
}

/// The types that the type arguments of a `ConstName` denote
pub open spec fn spec_const_args_to_ty(c: ConstNameV, class_typarams: Seq<Seq<char>>, method_typarams: Seq<Seq<char>>) -> Seq<TyV>
    decreases c, 0nat,
{
    Seq::new(
        c.args.len(),
        |i: int|
            if 0 <= i < c.args.len() {
                spec_const_to_ty(c.args[i], class_typarams, method_typarams)
            } else {
                ty::spec_raw(Seq::empty())
            },
    )
}

impl ConstName {
    /// Make ConstFullname prefixed by `namespace`
    pub fn under_namespace(&self, namespace: &str) -> (r: ConstFullname)
        requires
            valid_const_fullname(if namespace@.len() == 0 {
                sep2() + const_name_string(self@)
            } else {
                sep2() + namespace@ + sep2() + const_name_string(self@)
            }),
        ensures
            r@ == (if namespace@.len() == 0 {
                sep2() + const_name_string(self@)
            } else {
                sep2() + namespace@ + sep2() + const_name_string(self@)
            }),
    {
        proof { lemma_strlits(); }
        let body = self.string();
        let s = if is_empty_str(namespace) {
            concat("::", body.as_str())
        } else {
            let mut s = concat("::", namespace);
            s.append("::");
            s.append(body.as_str());
            s
        };
        const_fullname(s.as_str())
    }

    /// Make ConstFullname from self
    pub fn to_const_fullname(&self) -> (r: ConstFullname)
        requires
            valid_const_fullname(sep2() + const_name_string(self@)),
        ensures
            r@ == sep2() + const_name_string(self@),
    {
        let s = self.fullname();
        const_fullname(s.as_str())
    }

    /// Make ClassFullname from self
    pub fn to_class_fullname(&self) -> (r: ClassFullname)
        ensures
            r@ == const_name_string(self@),
    {
        ClassFullname(self.string())
    }

    /// Return const name as String
    pub fn fullname(&self) -> (r: String)
        ensures
            r@ == sep2() + const_name_string(self@),
    {
        proof { lemma_strlits(); }
        let s = self.string();
        concat("::", s.as_str())
    }

    /// Return class name as String
    pub fn string(&self) -> (r: String)
        ensures
            r@ == const_name_string(self@),
        decreases self,
    {
        let mut s = join(&self.names, "::");
        proof { lemma_strlits(); }
        if self.args.len() > 0 {
            proof { lemma_strlits(); }
            s.append("<");
            let ghost prefix = s@;
            let ghost parts = const_arg_strings(self@);
            let mut i: usize = 0;
            while i < self.args.len()
                invariant
                    0 <= i <= self.args@.len(),
                    parts.len() == self.args@.len(),
                    self@.args.len() == self.args@.len(),
                    forall|j: int| 0 <= j < self.args@.len() ==> #[trigger] parts[j] == const_name_string(const_name_view(self.args@[j])),
                    s@ == prefix + seq_join(parts.take(i as int), seq![',']),
                decreases self.args.len() - i,
            {
                proof {
                    assert(decreases_to!(*self => self.args));
                    assert(decreases_to!(self.args => self.args@));
                    assert(decreases_to!(self.args@ => self.args@[i as int]));
                }
                let part = self.args[i].string();
                let ghost s0 = s@;
                proof { lemma_strlits(); }
                if i > 0 {
                    s.append(",");
                }
                s.append(part.as_str());
                proof {
                    let after = parts.take(i + 1);
                    assert(after.drop_last() =~= parts.take(i as int));
                    assert(after.last() == part@);
                    if i == 0 {
                        assert(after.len() == 1);
                        assert(s@ =~= prefix + seq_join(after, seq![',']));
                    } else {
                        assert(seq_join(after, seq![',']) == seq_join(after.drop_last(), seq![','])
                            + seq![','] + after.last());
                        assert(s@ == s0 + seq![','] + part@);
                        assert(s@ =~= prefix + seq_join(after, seq![',']));
                    }
                }
                i += 1;
            }
            s.append(">");
            assert(parts.take(self.args.len() as int) =~= parts);
            proof {
                lemma_strlits();
                assert(self@.names == strings_view(self.names@));
                assert(s@ =~= const_name_string(self@));
            }
        }
        s
    }

    /// Returns the instance type when this const refers to a class
    /// eg. "Object" -> `TermTy(Object)`
    pub fn to_ty(&self, class_typarams: &[String], method_typarams: &[String]) -> (r: TermTy)
        ensures
            r@ == spec_const_to_ty(self@, strings_view(class_typarams@), strings_view(method_typarams@)),
        decreases self,
    {
        let s = join(&self.names, "::");
        proof { lemma_strlits(); }
        if self.args.len() == 0 {
            if let Some(i) = position(class_typarams, s.as_str()) {
                ty::typaram(s.as_str(), TyParamKind::Class, i)
            } else if let Some(i) = position(method_typarams, s.as_str()) {
                ty::typaram(s.as_str(), TyParamKind::Method, i)
            } else {
                ty::raw(s.as_str())
            }
        } else {
            let mut type_args: Vec<TermTy> = Vec::new();
            let mut i: usize = 0;
            while i < self.args.len()
                invariant
                    0 <= i <= self.args@.len(),
                    type_args@.len() == i,
                    forall|j: int| 0 <= j < i ==> #[trigger] ty_view(type_args@[j]) == spec_const_to_ty(
                        const_name_view(self.args@[j]),
                        strings_view(class_typarams@),
                        strings_view(method_typarams@),
                    ),
                decreases self.args.len() - i,
            {
                proof {
                    assert(decreases_to!(*self => self.args));
                    assert(decreases_to!(self.args => self.args@));
                    assert(decreases_to!(self.args@ => self.args@[i as int]));
                }
                let t = self.args[i].to_ty(class_typarams, method_typarams);
                type_args.push(t);
                i += 1;
            }
            let r = ty::spe(s.as_str(), type_args);
            assert(r@ == spec_const_to_ty(self@, strings_view(class_typarams@), strings_view(method_typarams@))) by {
                lemma_strlits();
                assert(ty::views_of(type_args@) =~= spec_const_args_to_ty(
                    self@,
                    strings_view(class_typarams@),
                    strings_view(method_typarams@),
                ));
            }
            r
        }
    }
}

pub fn const_name(names: Vec<String>) -> (r: ConstName)
    ensures
        r@.names == strings_view(names@),
        r@.args.len() == 0,
{
    ConstName { names, args: Vec::new() }
}

// ---------------------------------------------------------------- namespaces

/// A (possibly nested) namespace, eg. `A::B`; the root namespace has no names
#[derive(Debug)]
pub struct Namespace(pub Vec<String>);

impl View for Namespace {
    type V = Seq<Seq<char>>;

    open spec fn view(&self) -> Seq<Seq<char>> {
        strings_view(self.0@)
    }
}

impl Namespace {
    /// The root (toplevel) namespace
    pub fn root() -> (r: Namespace)
        ensures
            r@.len() == 0,
    {
        Namespace(Vec::new())
    }

    /// A copy of this namespace
    pub fn copy(&self) -> (r: Namespace)
        ensures
            r@ == self@,
    {
        let mut v: Vec<String> = Vec::new();
        let mut i: usize = 0;
        while i < self.0.len()
            invariant
                0 <= i <= self.0@.len(),
                strings_view(v@) =~= strings_view(self.0@).take(i as int),
            decreases self.0.len() - i,
        {
            let c = copy_string(&self.0[i]);
            proof {
                assert(strings_view(v@.push(c)) =~= strings_view(v@).push(c@));
                assert(strings_view(self.0@).take(i + 1) =~= strings_view(self.0@).take(i as int).push(
                    self.0@[i as int]@,
                ));
            }
            v.push(c);
            i += 1;
        }
        assert(strings_view(self.0@).take(self.0@.len() as int) =~= strings_view(self.0@));
        Namespace(v)
    }

    /// The namespace `name` inside this one
    pub fn add(&self, name: &ClassFirstname) -> (r: Namespace)
        ensures
            r@ == self@.push(name@),
    {
        let mut n = self.copy();
        n.0.push(copy_string(&name.0));
        assert(strings_view(n.0@) =~= self@.push(name@));
        n
    }

    /// The names joined by `::`, eg. `A::B`
    pub fn string(&self) -> (r: String)
        ensures
            r@ == seq_join(self@, sep2()),
    {
        proof { lemma_strlits(); }
        join(&self.0, "::")
    }

    /// The full name of the class `name` in this namespace
    pub fn class_fullname(&self, name: &ClassFirstname) -> (r: ClassFullname)
        ensures
            r@ == (if self@.len() == 0 {
                name@
            } else {
                seq_join(self@, sep2()) + sep2() + name@
            }),
    {
        let s = self.string();
        if self.0.len() == 0 {
            ClassFullname(copy_string(&name.0))
        } else {
            proof { lemma_strlits(); }
            let mut t = concat(s.as_str(), "::");
            t.append(name.0.as_str());
            ClassFullname(t)
        }
    }
}

/// The `Debug` form of a class full name
pub uninterp spec fn class_fullname_debug_text(name: Seq<char>) -> Seq<char>;

/// `format!("{:?}", name)`: the derived `Debug` form of a class full name, a function of the
/// name
#[verifier::external_body]
pub(crate) fn class_fullname_debug(name: &ClassFullname) -> (r: String)
    ensures
        r@ == class_fullname_debug_text(name@),
{
    format!("{:?}", name)
}

/// The `Debug` form of a method first name
pub uninterp spec fn method_firstname_debug_text(name: Seq<char>) -> Seq<char>;

/// `format!("{:?}", name)`: the derived `Debug` form of a method first name, a function of
/// the name
#[verifier::external_body]
pub(crate) fn method_firstname_debug(name: &MethodFirstname) -> (r: String)
    ensures
        r@ == method_firstname_debug_text(name@),
{
    format!("{:?}", name)
}

} // verus!
