//! Shiika packages: a directory with a `package.json5` that describes it.
use vstd::prelude::*;
use crate::strs::{concat, copy_string, to_owned};

verus! {

/// A package: its directory and its description
#[derive(Debug)]
pub struct SkPackage {
    pub dir: String,
    pub spec: PackageSpec,
}

/// The contents of `package.json5`
#[derive(Debug)]
pub struct PackageSpec {
    pub apps: Option<Vec<String>>,
    pub export: Option<LibraryName>,
    pub dependencies: Vec<Dependency>,
}

/// The name of a library
#[derive(Debug)]
pub struct LibraryName(pub String);

/// A package that a package depends on
#[derive(Debug)]
pub struct Dependency {
    pub name: String,
    pub source: PackageSource,
}

/// Where a package is found
#[derive(Debug)]
pub struct PackageSource {
    pub path: String,
}

/// The path `name` inside the directory `dir` (`name` being a relative path)
pub open spec fn path_join(dir: Seq<char>, name: Seq<char>) -> Seq<char> {
    if dir.len() == 0 {
        name
    } else if dir.last() == '/' {
        dir + name
    } else {
        dir + seq!['/'] + name
    }
}

/// `"index.bc"`
pub open spec fn index_bc() -> Seq<char> {
    seq!['i', 'n', 'd', 'e', 'x', '.', 'b', 'c']
}

/// The path `name` inside the directory `dir`
fn join_path(dir: &str, name: &str) -> (r: String)
    ensures
        r@ == path_join(dir@, name@),
{
    let n = dir.unicode_len();
    if n == 0 {
        to_owned(name)
    } else if dir.get_char(n - 1) == '/' {
        concat(dir, name)
    } else {
        proof { reveal_strlit("/"); }
        let mut s = concat(dir, "/");
        s.append(name);
        s
    }
}

impl SkPackage {
    pub fn dir(&self) -> (r: &String)
        ensures
            r == &self.dir,
    {
        &self.dir
    }

    /// The files to link: the bitcode of the package
    pub fn link_files(&self) -> (r: Vec<String>)
        ensures
            r@.len() == 1,
            r@[0]@ == path_join(self.dir@, index_bc()),
    {
        proof {
            reveal_strlit("index.bc");
            assert("index.bc"@ =~= index_bc());
        }
        let mut v: Vec<String> = Vec::new();
        v.push(join_path(self.dir.as_str(), "index.bc"));
        v
    }

    /// The name of the library that this package exports, if any
    pub fn export(&self) -> (r: Option<&str>)
        ensures
            match self.spec.export {
                Some(n) => r matches Some(s) && s@ == n.0@,
                None => r is None,
            },
    {
        match &self.spec.export {
            Some(n) => Some(n.0.as_str()),
            None => None,
        }
    }
}

impl LibraryName {
    /// The library of the builtin classes
    pub fn builtin() -> (r: LibraryName)
        ensures
            r.0@ == seq!['b', 'u', 'i', 'l', 't', 'i', 'n'],
    {
        proof {
            reveal_strlit("builtin");
            assert("builtin"@ =~= seq!['b', 'u', 'i', 'l', 't', 'i', 'n']);
        }
        LibraryName(to_owned("builtin"))
    }

    /// The names as strings
    pub fn to_strs(names: &[LibraryName]) -> (r: Vec<String>)
        ensures
            r@.len() == names@.len(),
            forall|i: int| 0 <= i < names@.len() ==> (#[trigger] r@[i])@ == names@[i].0@,
    {
        let mut r: Vec<String> = Vec::new();
        let mut i: usize = 0;
        while i < names.len()
            invariant
                0 <= i <= names@.len(),
                r@.len() == i,
                forall|j: int| 0 <= j < i ==> (#[trigger] r@[j])@ == names@[j].0@,
            decreases names.len() - i,
        {
            r.push(copy_string(&names[i].0));
            i += 1;
        }
        r
    }
}

} // verus!
