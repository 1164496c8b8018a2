//! Matrix OpenID tokens, which a transport exchanges for credentials of its own.

use vstd::prelude::*;
use crate::text::joined;

verus! {

/// A Matrix OpenID token, as the homeserver issues it. It is handed on whole;
/// nothing here looks into it.
#[derive(Debug)]
pub struct OpenIdToken {
    /// The token.
    pub access_token: String,
    /// Its type.
    pub token_type: String,
    /// The homeserver that issued it.
    pub matrix_server_name: String,
    /// How long it is valid, in seconds.
    pub expires_in: u64,
}

/// A token could not be had; says what the client said.
#[derive(Debug)]
pub struct OpenIdTokenError(pub String);

impl OpenIdTokenError {
    /// What went wrong, as one line of text.
    pub fn message(&self) -> (text: String)
        ensures
            text@ == "failed to obtain Matrix OpenID token: "@ + self.0@,
    {
        joined("failed to obtain Matrix OpenID token: ", self.0.as_str())
    }
}

} // verus!
