//! Values exchanged between a client and the credential authority.

use vstd::prelude::*;

verus! {

/// Port on which the credential authority listens.
pub const AUTH_BACKEND_PORT: u16 = 4100;

/// Number of bytes in a private key.
pub const PRIVATE_KEY_BYTES: usize = 32;

/// Number of bytes in a serialized connect token.
pub const CONNECT_TOKEN_BYTES: usize = 2048;

/// A 32-byte key, used to sign connect tokens.
pub type Key = [u8; 32];

/// Mathematical value of a [`TokenResponse`].
pub struct TokenResponseView {
    pub token: Seq<u8>,
    pub client_id: u64,
}

/// A signed connect token together with the identity it was issued for.
pub struct TokenResponse {
    pub token: Vec<u8>,
    pub client_id: u64,
}

impl View for TokenResponse {
    type V = TokenResponseView;

    open spec fn view(&self) -> TokenResponseView {
        TokenResponseView { token: self.token@, client_id: self.client_id }
    }
}

impl Clone for TokenResponse {
    fn clone(&self) -> (copy: Self)
        ensures
            copy@ == self@,
    {
        TokenResponse { token: self.token.clone(), client_id: self.client_id }
    }
}

/// Request to issue a token for an identity that already exists.
pub struct AuthPayload {
    pub client_id: u64,
    pub client_secret: String,
}

/// Request to create an identity and issue its first token.
pub struct NewClientPayload {
    pub client_secret: String,
}

} // verus!
