//! The closed set of failure kinds raised by the schema subsystem.
use vstd::prelude::*;

verus! {

/// Errors raised by schema construction, navigation and the flat codec.
#[derive(Debug, Clone, PartialEq, Eq)]
pub enum Error {
    /// General, unclassified failure.
    General(String),
    /// Malformed external input, such as a corrupt flat type array.
    ParseError(String),
    /// Caller misuse of the shape contract: a wrong kind handed to a
    /// builder, or navigation called on an incompatible shape.
    DataTypeError(String),
    /// A failure surfaced from a collaborator, kept as its message.
    External(String),
}

impl Error {
    /// The message carried by the error, whichever kind it is.
    pub fn message(&self) -> (r: &String)
        ensures
            match self {
                Error::General(m) => r == m,
                Error::ParseError(m) => r == m,
                Error::DataTypeError(m) => r == m,
                Error::External(m) => r == m,
            },
    {
        match self {
            Error::General(m) => m,
            Error::ParseError(m) => m,
            Error::DataTypeError(m) => m,
            Error::External(m) => m,
        }
    }
}

} // verus!
