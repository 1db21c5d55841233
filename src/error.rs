//! Error types.
use vstd::prelude::*;

verus! {

/// Result type with the crate's [`Error`] type.
pub type Result<T> = core::result::Result<T, Error>;

/// Error type.
#[derive(Copy, Clone, Debug, PartialEq, Eq, Structural)]
pub enum Error {
    /// Decryption failed.
    Decryption,
    /// Encoding is invalid.
    Encoding,
    /// Length is invalid.
    Length,
}

impl Error {
    /// A short description of the error.
    pub fn message(&self) -> (r: &'static str)
        ensures
            *self == Error::Decryption ==> r@ == "decryption failed"@,
            *self == Error::Encoding ==> r@ == "encoding invalid"@,
            *self == Error::Length ==> r@ == "length invalid"@,
    {
        match self {
            Error::Decryption => "decryption failed",
            Error::Encoding => "encoding invalid",
            Error::Length => "length invalid",
        }
    }
}

} // verus!
