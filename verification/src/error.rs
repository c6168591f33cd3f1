//! The ways in which an operation of this crate can fail.

use vstd::prelude::*;
use vstd::string::StringExecFns;

verus! {

/// Why an operation was abandoned.
///
/// A signature or digest that is well formed but does not match is not an
/// error: verification reports it as `false`.
#[derive(Debug, PartialEq, Eq)]
pub enum TextError {
    /// Key material of the wrong length, or bytes that encode no key.
    MalformedKey,
    /// A format token that names no supported algorithm: `token` is the
    /// token in lower case, `valid` lists the tokens that would have passed.
    UnknownAlgorithm { token: String, valid: String },
    /// A signature of impossible length, or a signature or envelope that
    /// cannot be decoded: bad text encoding, a malformed record, a nonce of
    /// the wrong length.
    MalformedSignatureOrEnvelope,
    /// The authentication tag did not match on decryption.
    AuthenticationFailure,
    /// A duration that is not a number and a unit, or one that leads out of
    /// the range of time stamps.
    InvalidDuration,
}

impl TextError {
    /// Whether this error reports `token` as naming none of `valid`.
    pub open spec fn is_unknown_algorithm(self, token: Seq<char>, valid: Seq<char>) -> bool {
        self matches TextError::UnknownAlgorithm { token: t, valid: v } && t@ == token && v@
            == valid
    }

    /// The message of this error.
    pub open spec fn spec_message(self) -> Seq<char> {
        match self {
            TextError::MalformedKey => "Malformed key: wrong length or invalid encoding"@,
            TextError::UnknownAlgorithm { token, valid } => "Unsupported format \""@ + token@
                + "\", expected one of: "@ + valid@,
            TextError::MalformedSignatureOrEnvelope => "Malformed signature or envelope"@,
            TextError::AuthenticationFailure => "Authentication failed: wrong key or altered ciphertext"@,
            TextError::InvalidDuration => "Input duration invalid. valid example: 10d/2h/20m/60s"@,
        }
    }

    /// The message of this error, for the caller to show.
    pub fn message(&self) -> (text: String)
        ensures
            text@ == self.spec_message(),
    {
        match self {
            TextError::MalformedKey => String::from_str(
                "Malformed key: wrong length or invalid encoding",
            ),
            TextError::UnknownAlgorithm { token, valid } => {
                let mut text = String::from_str("Unsupported format \"");
                text.append(token.as_str());
                text.append("\", expected one of: ");
                text.append(valid.as_str());
                text
            },
            TextError::MalformedSignatureOrEnvelope => String::from_str(
                "Malformed signature or envelope",
            ),
            TextError::AuthenticationFailure => String::from_str(
                "Authentication failed: wrong key or altered ciphertext",
            ),
            TextError::InvalidDuration => String::from_str(
                "Input duration invalid. valid example: 10d/2h/20m/60s",
            ),
        }
    }
}

} // verus!
