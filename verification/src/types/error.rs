//! What can go wrong while a value is read.

use vstd::prelude::*;
use vstd::std_specs::convert::FromSpecImpl;

verus! {

/// `std::io::Error`, which Verus does not look into: library code only passes
/// such an error on.
#[verifier::external_type_specification]
#[verifier::external_body]
pub struct ExIoError(std::io::Error);

/// Why a value could not be read.
#[derive(Debug)]
pub enum ReadError {
    /// The VarInt / VarLong goes on for more bytes than its width allows.
    TooBig,
    /// The source of the bytes failed; its error is kept as it came.
    Io(std::io::Error),
}

impl From<std::io::Error> for ReadError {
    fn from(error: std::io::Error) -> (wrapped: Self) {
        ReadError::Io(error)
    }
}

impl FromSpecImpl<std::io::Error> for ReadError {
    open spec fn obeys_from_spec() -> bool {
        true
    }

    open spec fn from_spec(error: std::io::Error) -> Self {
        ReadError::Io(error)
    }
}

/// Calls `std::io::Error::from` on `ErrorKind::UnexpectedEof`, to give a
/// source in memory the error that it reports once it has run dry. Nothing is
/// claimed of the error that comes back.
#[verifier::external_body]
pub(crate) fn unexpected_eof() -> std::io::Error {
    std::io::Error::from(std::io::ErrorKind::UnexpectedEof)
}

} // verus!
