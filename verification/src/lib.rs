use vstd::prelude::*;

pub mod ast;
pub mod corelib;
pub mod error;
pub mod hir;
pub mod library;
pub mod loader;
pub mod mir;
pub mod names;
pub mod package;
pub mod parser;
pub mod str_map;
pub mod strs;
pub mod ty;

verus! {
} // verus!
