use vstd::prelude::*;

verus! {

/// The ways in which building or signing a transaction can fail.
#[derive(Debug, Clone, Copy, PartialEq, Eq, Structural)]
pub enum ErrorKind {
    /// Bad base58check text, wrong payload length or unsupported version byte.
    InvalidAddress,
    /// Malformed hex, wrong length, or a scalar outside the curve's range.
    InvalidPrivateKey,
    /// The spent outputs do not cover the amount and the fee.
    InsufficientFunds,
    /// A number too wide for its field, or malformed hex text.
    EncodingError,
    /// A malformed field met while encoding a transaction.
    SerializationError,
    /// The locking script of a spent output is unknown.
    SigningError,
    /// No spendable outputs, a zero amount, or a spendable output of zero value.
    InvalidInput,
}

/// The error returned by every fallible operation of this library.
#[derive(Debug, Clone, Copy, PartialEq, Eq, Structural)]
pub struct TransactionError {
    pub kind: ErrorKind,
}

impl TransactionError {
    pub fn new(kind: ErrorKind) -> (r: TransactionError)
        ensures
            r.kind == kind,
    {
        TransactionError { kind }
    }

    /// A short human-readable description of the error.
    pub fn message(&self) -> (r: &'static str) {
        match self.kind {
            ErrorKind::InvalidAddress => "invalid address",
            ErrorKind::InvalidPrivateKey => "invalid private key",
            ErrorKind::InsufficientFunds => "insufficient funds",
            ErrorKind::EncodingError => "encoding error",
            ErrorKind::SerializationError => "serialization error",
            ErrorKind::SigningError => "signing error",
            ErrorKind::InvalidInput => "invalid input",
        }
    }
}

} // verus!
