//! The errors that parsing and compilation report.
use crate::text::{nat_text, push_nat};
use vstd::prelude::*;
use vstd::string::*;

verus! {

/// The error type of input and output operations. The library performs
/// none; a driver that does can carry its failures in `NexScriptError`.
#[verifier::external_type_specification]
#[verifier::external_body]
pub struct ExIoError(std::io::Error);

/// Errors that can occur during parsing or compilation.
#[derive(Debug)]
pub enum NexScriptError {
    ParseError { line: usize, message: String },
    TypeError(String),
    UndefinedVariable(String),
    IoError(std::io::Error),
}

/// `ToString::to_string` on `std::io::Error`: the error's description. It
/// may depend on the platform, so nothing is said of it.
#[verifier::external_body]
fn io_error_text(e: &std::io::Error) -> (s: String) {
    e.to_string()
}

impl NexScriptError {
    /// The text of the error, as it is shown to the user.
    pub fn to_string(&self) -> (s: String)
        ensures
            match *self {
                NexScriptError::ParseError { line, message } => s@ == "Parse error at line "@
                    + nat_text(line as nat) + ": "@ + message@,
                NexScriptError::TypeError(message) => s@ == "Type error: "@ + message@,
                NexScriptError::UndefinedVariable(name) => s@ == "Undefined variable: "@ + name@,
                NexScriptError::IoError(_) => "IO error: "@.is_prefix_of(s@),
            },
    {
        match self {
            NexScriptError::ParseError { line, message } => {
                let mut s = String::from_str("Parse error at line ");
                push_nat(&mut s, *line as u64);
                s.append(": ");
                s.append(message.as_str());
                s
            },
            NexScriptError::TypeError(message) => {
                let mut s = String::from_str("Type error: ");
                s.append(message.as_str());
                s
            },
            NexScriptError::UndefinedVariable(name) => {
                let mut s = String::from_str("Undefined variable: ");
                s.append(name.as_str());
                s
            },
            NexScriptError::IoError(e) => {
                let mut s = String::from_str("IO error: ");
                let ghost head = s@;
                s.append(io_error_text(e).as_str());
                assert(s@.subrange(0, head.len() as int) =~= head);
                s
            },
        }
    }
}

impl From<std::io::Error> for NexScriptError {
    fn from(e: std::io::Error) -> (r: NexScriptError) {
        NexScriptError::IoError(e)
    }
}

impl vstd::std_specs::convert::FromSpecImpl<std::io::Error> for NexScriptError {
    open spec fn obeys_from_spec() -> bool {
        true
    }

    open spec fn from_spec(e: std::io::Error) -> NexScriptError {
        NexScriptError::IoError(e)
    }
}

} // verus!
