//! The error type shared by every operation of the crate.

use vstd::prelude::*;

verus! {

/// `std::io::Error`, carried through as an opaque value.
#[verifier::external_type_specification]
#[verifier::external_body]
pub struct ExIoError(std::io::Error);

/// What can go wrong while extracting or dumping symbols.
#[derive(Debug)]
pub enum BRError {
    /// An invariant of the crate was violated; the text says which.
    InternalError(&'static str),
    /// The command line was incomplete; the text says what is missing.
    UsageError(&'static str),
    /// Reading the input or writing an output file failed.
    Io(std::io::Error),
    /// The object file is malformed or lacks a structure that is needed.
    ParseError,
    /// The container was recognised but is of a kind that is not handled.
    Unsupported,
}

impl From<std::io::Error> for BRError {
    fn from(error: std::io::Error) -> (r: BRError) {
        BRError::Io(error)
    }
}

impl vstd::std_specs::convert::FromSpecImpl<std::io::Error> for BRError {
    open spec fn obeys_from_spec() -> bool {
        true
    }

    open spec fn from_spec(error: std::io::Error) -> BRError {
        BRError::Io(error)
    }
}

} // verus!
