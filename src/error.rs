//! The error type that a program driver reports.

use vstd::prelude::*;
use vstd::string::StringExecFns;

verus! {

/// An error as a driver reports it: a syntax error or a runtime error, with its message.
#[derive(Debug, Clone, PartialEq)]
pub enum Error {
    Syntax(String),
    Runtime(String),
}

impl Error {
    /// The report line: the error's class, then its message.
    pub fn to_text(&self) -> (r: String)
        ensures
            r@ == match self {
                Error::Syntax(m) => "Syntax Error: "@ + m@,
                Error::Runtime(m) => "Runtime: "@ + m@,
            },
    {
        match self {
            Error::Syntax(m) => String::from_str("Syntax Error: ").concat(m.as_str()),
            Error::Runtime(m) => String::from_str("Runtime: ").concat(m.as_str()),
        }
    }
}

} // verus!
