//! What can go wrong in the store and at the guard.

use vstd::prelude::*;
use vstd::string::*;

verus! {

/// Why the store refused a request.
#[derive(Debug, Clone, Copy, PartialEq, Eq, Structural)]
pub enum StoreError {
    /// No record answers the request.
    NotFound,
    /// A record that must be unique exists already.
    Duplicate,
    /// A password could not be hashed.
    Internal,
}

impl StoreError {
    /// The name of each error, as replies show it.
    pub open spec fn text(self) -> Seq<char> {
        match self {
            StoreError::NotFound => "NotFound"@,
            StoreError::Duplicate => "Duplicate"@,
            StoreError::Internal => "Internal"@,
        }
    }

    /// The error's name: see [`StoreError::text`].
    pub fn describe(&self) -> (name: String)
        ensures
            name@ == self.text(),
    {
        match self {
            StoreError::NotFound => String::from_str("NotFound"),
            StoreError::Duplicate => String::from_str("Duplicate"),
            StoreError::Internal => String::from_str("Internal"),
        }
    }
}

/// Why `jsonwebtoken` refuses a token: the kinds of its error that can
/// come back when a token is decoded, and one for every other kind.
#[derive(Debug, Clone, Copy, PartialEq, Eq, Structural)]
pub enum TokenFault {
    /// The text has not the three parts of a token.
    InvalidToken,
    /// The signature is not that of the header and the claims under the key.
    InvalidSignature,
    /// The header names another algorithm than the one asked for.
    InvalidAlgorithm,
    /// The claims hold no expiry.
    MissingRequiredClaim,
    /// The expiry is past.
    ExpiredSignature,
    /// A part is not base64.
    Base64,
    /// A part is not the JSON that is expected there.
    Json,
    /// A part is not UTF-8.
    Utf8,
    /// Any other kind.
    Other,
}

/// Why no settings for tokens can be made.
#[derive(Debug, Clone, Copy, PartialEq, Eq, Structural)]
pub enum SettingsError {
    /// The secret is not set, or it is empty.
    MissingSecret,
    /// The lifetime is set to what is no 64-bit integer.
    InvalidLifetime,
}

/// Why a bearer token was refused.
#[derive(Debug, Clone, Copy, PartialEq, Eq, Structural)]
pub enum AuthError {
    /// The token is not signed with the configured secret.
    InvalidSignature,
    /// The token's lifetime is over.
    Expired,
    /// The token cannot be read, or its claims are not those of a user.
    Malformed,
}

} // verus!
