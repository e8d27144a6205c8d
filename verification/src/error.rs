use vstd::prelude::*;

verus! {

/// The error type for the wire formats: a buffer was too short, or its
/// contents did not describe a well-formed header.
#[derive(Debug, Clone, Copy, PartialEq, Eq, Structural)]
pub struct Error;

/// The result type for the wire formats.
pub type Result<T> = core::result::Result<T, Error>;

impl Error {
    /// A short description of the error.
    pub fn describe(&self) -> (s: &'static str)
        ensures
            s@ == "wire::Error"@,
    {
        "wire::Error"
    }
}

} // verus!
