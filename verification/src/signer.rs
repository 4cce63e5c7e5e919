//! Issues signed connect tokens.

use crate::netcode::{connect_token_bytes, generate_connect_token};
use crate::protocol::{Key, TokenResponse, CONNECT_TOKEN_BYTES, PRIVATE_KEY_BYTES};
use vstd::prelude::*;

verus! {

/// Why no token could be issued.
#[derive(Clone, Copy, Debug, PartialEq, Eq, Structural)]
pub enum SignerError {
    /// The token could not be generated.
    Generation,
    /// The generated token did not fit its serialized form.
    Serialization,
}

/// What every token of one authority is bound to.
#[derive(Clone, Debug)]
pub struct SignerConfig {
    /// Address and port of the game server, as text.
    pub server_address: String,
    /// Protocol identifier that client and server share.
    pub protocol_id: u64,
    /// Key that the authority shares with the game server.
    pub private_key: Key,
}

/// The private key that the authority signs with, and whether it is the
/// well-known fallback.
pub struct ResolvedKey {
    pub key: Key,
    /// The key is all zeroes, for want of a stored one: tokens signed with it
    /// can be forged by anyone. The caller is to warn about it.
    pub insecure_fallback: bool,
}

/// Whether `stored` holds a key: exactly 32 bytes.
pub open spec fn holds_key(stored: Option<Vec<u8>>) -> bool {
    stored matches Some(bytes) && bytes@.len() == PRIVATE_KEY_BYTES
}

/// Picks the private key from what the key file held, `None` standing for a
/// file that could not be read. Where that is not exactly 32 bytes, the key
/// is all zeroes and marked as the insecure fallback.
pub fn resolve_private_key(stored: Option<Vec<u8>>) -> (resolved: ResolvedKey)
    ensures
        resolved.insecure_fallback == !holds_key(stored),
        holds_key(stored) ==> resolved.key@ == stored->0@,
        !holds_key(stored) ==> resolved.key@ == Seq::new(32, |i: int| 0u8),
{
    let mut key: Key = [0u8; 32];
    assert(key@ =~= Seq::new(32, |i: int| 0u8));
    match stored {
        Some(bytes) => {
            if bytes.len() == PRIVATE_KEY_BYTES {
                let mut i: usize = 0;
                while i < PRIVATE_KEY_BYTES
                    invariant
                        i <= 32,
                        bytes@.len() == 32,
                        forall|j: int| 0 <= j < i ==> key@[j] == bytes@[j],
                    decreases 32 - i,
                {
                    key[i] = bytes[i];
                    i = i + 1;
                }
                assert(key@ =~= bytes@);
                ResolvedKey { key, insecure_fallback: false }
            } else {
                ResolvedKey { key, insecure_fallback: true }
            }
        },
        None => ResolvedKey { key, insecure_fallback: true },
    }
}

/// Whether `token` is a well-formed credential for `identity`.
pub open spec fn is_credential_for(token: TokenResponse, identity: u64) -> bool {
    token.client_id == identity && token.token@.len() == CONNECT_TOKEN_BYTES
}

/// Signs a fresh connect token that binds `identity` to the game server,
/// the protocol and the private key of `config`. Each call yields another;
/// whether one can be made is up to the generator's clock and random keys.
pub fn issue(config: &SignerConfig, identity: u64) -> (issued: Result<TokenResponse, SignerError>)
    ensures
        issued matches Ok(token) ==> is_credential_for(token, identity),
{
    match generate_connect_token(
        config.server_address.as_str(),
        config.protocol_id,
        identity,
        config.private_key,
    ) {
        Ok(token) => token_response_of(identity, connect_token_bytes(token)),
        Err(_) => Err(SignerError::Generation),
    }
}

/// What is issued for `identity` once its token was generated, given what
/// the serialization of that token returned: the bytes as a credential for
/// `identity`, or the failure to serialize.
pub fn token_response_of(
    identity: u64,
    serialized: Result<Vec<u8>, lightyear_netcode::Error>,
) -> (issued: Result<TokenResponse, SignerError>)
    ensures
        match serialized {
            Ok(bytes) => issued matches Ok(token) && token.client_id == identity && token.token@
                == bytes@,
            Err(_) => issued == Err::<TokenResponse, SignerError>(SignerError::Serialization),
        },
{
    match serialized {
        Ok(bytes) => Ok(TokenResponse { token: bytes, client_id: identity }),
        Err(_) => Err(SignerError::Serialization),
    }
}

} // verus!
