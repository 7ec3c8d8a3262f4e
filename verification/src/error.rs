//! Error type shared by the parsers.
use vstd::prelude::*;

verus! {

/// Failure of a parse or conversion, with a human-readable description.
#[derive(Debug)]
pub enum Error {
    /// The input bytes do not form a valid file of the expected format.
    Parse(String),
    /// A parsed value could not be converted to the requested form.
    Conversion(String),
}

/// Result type of the parsing operations.
pub type Result<T> = core::result::Result<T, Error>;

/// Builds a parse error carrying `msg`.
pub fn parse_error(msg: &str) -> (e: Error)
    ensures
        e matches Error::Parse(m) && m@ == msg@,
{
    Error::Parse(String::from_str(msg))
}

/// Builds a conversion error carrying `msg`.
pub fn conversion_error(msg: &str) -> (e: Error)
    ensures
        e matches Error::Conversion(m) && m@ == msg@,
{
    Error::Conversion(String::from_str(msg))
}

impl Error {
    /// Returns the description carried by this error.
    pub fn message(&self) -> (m: &String)
        ensures
            m == (match self {
                Error::Parse(s) => s,
                Error::Conversion(s) => s,
            }),
    {
        match self {
            Error::Parse(s) => s,
            Error::Conversion(s) => s,
        }
    }
}

} // verus!
