//! The errors that the operations of this library report.

use vstd::prelude::*;
use vstd::string::StringExecFns;

verus! {

/// What went wrong.
#[derive(Clone, Copy, Debug, PartialEq, Eq, Structural)]
pub enum ErrorKind {
    /// Bytes that are not the canonical encoding of a group element.
    Deserialization,
    /// A group and hash that do not make a supported ciphersuite.
    InvalidCiphersuite,
    /// The keyed hash of the finalization step refused its key.
    Finalization,
    /// A batch whose parts do not have one length.
    Internal,
    /// A proof of discrete-log equality that does not verify.
    Verification,
}

/// An error of this library.
#[derive(Clone, Copy, Debug, PartialEq, Eq, Structural)]
pub struct OprfError {
    pub kind: ErrorKind,
}

impl OprfError {
    /// The kind of this error.
    pub fn kind(&self) -> (k: ErrorKind)
        ensures
            k == self.kind,
    {
        self.kind
    }

    /// The text that describes this error.
    pub open spec fn spec_message(&self) -> Seq<char> {
        match self.kind {
            ErrorKind::Deserialization => "Failed to deserialize"@,
            ErrorKind::InvalidCiphersuite => "Invalid ciphersuite chosen"@,
            ErrorKind::Finalization => "Finalization failed"@,
            ErrorKind::Internal => "Internal error"@,
            ErrorKind::Verification => "Proof verification failed"@,
        }
    }

    /// The text that describes this error.
    pub fn message(&self) -> (text: String)
        ensures
            text@ == self.spec_message(),
    {
        match self.kind {
            ErrorKind::Deserialization => String::from_str("Failed to deserialize"),
            ErrorKind::InvalidCiphersuite => String::from_str("Invalid ciphersuite chosen"),
            ErrorKind::Finalization => String::from_str("Finalization failed"),
            ErrorKind::Internal => String::from_str("Internal error"),
            ErrorKind::Verification => String::from_str("Proof verification failed"),
        }
    }
}

/// Bytes could not be read as a group element.
pub fn err_deserialization() -> (e: OprfError)
    ensures
        e.kind == ErrorKind::Deserialization,
{
    OprfError { kind: ErrorKind::Deserialization }
}

/// The chosen group and hash are not a supported ciphersuite.
pub fn err_invalid_ciphersuite() -> (e: OprfError)
    ensures
        e.kind == ErrorKind::InvalidCiphersuite,
{
    OprfError { kind: ErrorKind::InvalidCiphersuite }
}

/// The keyed hash of the finalization step could not be set up.
pub fn err_finalization() -> (e: OprfError)
    ensures
        e.kind == ErrorKind::Finalization,
{
    OprfError { kind: ErrorKind::Finalization }
}

/// The parts of a batch do not have one length.
pub fn err_internal() -> (e: OprfError)
    ensures
        e.kind == ErrorKind::Internal,
{
    OprfError { kind: ErrorKind::Internal }
}

/// A proof of discrete-log equality did not verify.
pub fn err_verification() -> (e: OprfError)
    ensures
        e.kind == ErrorKind::Verification,
{
    OprfError { kind: ErrorKind::Verification }
}

} // verus!
