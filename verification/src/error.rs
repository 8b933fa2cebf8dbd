//! Errors of the compiler.
use vstd::prelude::*;
use crate::parser::lexer::Cursor;
use crate::strs::to_owned;

verus! {

/// An error with a message and its kind
#[derive(Debug)]
pub struct Error {
    pub msg: String,
    pub details: ErrorDetails,
}

/// The kinds of errors
#[derive(Debug, Clone, Copy, PartialEq, Eq, Structural)]
pub enum ErrorDetails {
    /// Error on parsing
    ParseError { location: Cursor },
    /// Parsing is succeeded but syntactically wrong
    SyntaxError,
    /// Errors related to types
    TypeError,
    /// Invalid name
    NameError,
    /// Syntactically correct but not a valid program (eg. "no such method")
    ProgramError,
    /// Errors from running programs
    RunnerError,
    /// Not an user-error
    Bug,
}

/// An error of the given kind with the given message
pub open spec fn error_of(e: Error, msg: Seq<char>, details: ErrorDetails) -> bool {
    e.msg@ == msg && e.details == details
}

pub fn syntax_error(msg: &str) -> (r: Error)
    ensures
        error_of(r, msg@, ErrorDetails::SyntaxError),
{
    Error { msg: to_owned(msg), details: ErrorDetails::SyntaxError }
}

pub fn type_error(msg: &str) -> (r: Error)
    ensures
        error_of(r, msg@, ErrorDetails::TypeError),
{
    Error { msg: to_owned(msg), details: ErrorDetails::TypeError }
}

pub fn name_error(msg: &str) -> (r: Error)
    ensures
        error_of(r, msg@, ErrorDetails::NameError),
{
    Error { msg: to_owned(msg), details: ErrorDetails::NameError }
}

pub fn program_error(msg: &str) -> (r: Error)
    ensures
        error_of(r, msg@, ErrorDetails::ProgramError),
{
    Error { msg: to_owned(msg), details: ErrorDetails::ProgramError }
}

pub fn plain_runner_error(msg: String) -> (r: Error)
    ensures
        error_of(r, msg@, ErrorDetails::RunnerError),
{
    Error { msg, details: ErrorDetails::RunnerError }
}

pub fn bug(msg: String) -> (r: Error)
    ensures
        error_of(r, msg@, ErrorDetails::Bug),
{
    Error { msg, details: ErrorDetails::Bug }
}

/// The value in `o`, which must be there
pub fn must_be_some<T>(o: Option<T>, msg: String) -> (r: T)
    requires
        o is Some,
    ensures
        o == Some(r),
{
    match o {
        Some(v) => v,
        None => vstd::pervasive::unreached(),
    }
}

} // verus!
