//! What callers get back when a request is not served.

pub mod auth;
pub mod permission;
pub mod role;
pub mod user;

use vstd::prelude::*;
use vstd::string::StringExecFns;
use crate::base58::DecodeError;

verus! {

/// Why a caller is not authenticated.
#[derive(Clone, Copy, Debug, PartialEq, Eq, Structural)]
pub enum Reason {
    /// The request has no authorization header.
    Missing,
    /// The header is not a scheme, one space and a token.
    Malformed,
    /// The scheme is not `bearer`.
    WrongScheme,
    /// The token's text stands for no identifier.
    Undecodable(DecodeError),
    /// No token with that identifier is in force: none is stored, it has
    /// expired, or its user is deleted.
    Unknown,
    /// Storage failed while the token was resolved.
    Storage,
}

/// What a decoding error says.
pub open spec fn decode_text(error: DecodeError) -> Seq<char> {
    match error {
        DecodeError::Empty => "token is empty"@,
        DecodeError::InvalidCharacter { .. } => "token holds a character outside the alphabet"@,
        DecodeError::InvalidLength { .. } => "token does not hold an identifier"@,
    }
}

/// What a refusal says, where the reason fixes it.
pub open spec fn reason_text(reason: Reason) -> Seq<char> {
    match reason {
        Reason::Missing => "token not found"@,
        Reason::Malformed => "invalid token"@,
        Reason::WrongScheme => "invalid token type"@,
        Reason::Undecodable(error) => decode_text(error),
        Reason::Unknown => "token not found"@,
        Reason::Storage => "storage error"@,
    }
}

/// What a decoding error says.
pub fn decode_message(error: DecodeError) -> (message: String)
    ensures
        message@ == decode_text(error),
{
    match error {
        DecodeError::Empty => String::from_str("token is empty"),
        DecodeError::InvalidCharacter { .. } => String::from_str(
            "token holds a character outside the alphabet",
        ),
        DecodeError::InvalidLength { .. } => String::from_str("token does not hold an identifier"),
    }
}

/// The caller is not authenticated: the token is missing, malformed,
/// unknown or expired, or storage failed while it was resolved.
#[derive(Debug)]
pub struct Unauthorized {
    pub reason: Reason,
    pub message: String,
}

impl Unauthorized {
    /// The refusal for `reason`, with the message that the reason fixes.
    pub fn because(reason: Reason) -> (refusal: Unauthorized)
        ensures
            refusal.reason == reason,
            refusal.message@ == reason_text(reason),
    {
        let message = match reason {
            Reason::Missing => String::from_str("token not found"),
            Reason::Malformed => String::from_str("invalid token"),
            Reason::WrongScheme => String::from_str("invalid token type"),
            Reason::Undecodable(error) => decode_message(error),
            Reason::Unknown => String::from_str("token not found"),
            Reason::Storage => String::from_str("storage error"),
        };
        Unauthorized { reason, message }
    }

    /// The refusal for a failure of storage, which says what storage said.
    pub fn storage(message: String) -> (refusal: Unauthorized)
        ensures
            refusal.reason == Reason::Storage,
            refusal.message@ == message@,
    {
        Unauthorized { reason: Reason::Storage, message }
    }
}

/// Storage failed while a request was served.
#[derive(Debug)]
pub struct InternalServerError {
    pub message: String,
}

} // verus!
