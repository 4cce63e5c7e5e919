//! Connect tokens of `lightyear_netcode`.
//!
//! Nothing in this file is proved. A token is made from the clock and from
//! fresh random keys, so two tokens made from the same arguments differ and
//! nothing is stated about what a token holds beyond its serialized length.

use lightyear_netcode::{ConnectToken, Error};
use vstd::prelude::*;

verus! {

/// `lightyear_netcode::ConnectToken`, a generated token. It is only carried
/// from its generation to its serialization.
#[verifier::external_type_specification]
#[verifier::external_body]
pub struct ExConnectToken(ConnectToken);

/// `lightyear_netcode::Error`. Nothing is read from it.
#[verifier::external_type_specification]
#[verifier::external_body]
pub struct ExNetcodeError(Error);

/// `ConnectToken::build(..).generate()`: a token with the default expiry and
/// timeout that lets `client_id` connect to the server at `server_address`
/// (an address and a port, as text), encrypted under `private_key`. Whether
/// it succeeds is not stated: it fails, among others, where the address does
/// not parse.
#[verifier::external_body]
pub(crate) fn generate_connect_token(
    server_address: &str,
    protocol_id: u64,
    client_id: u64,
    private_key: [u8; 32],
) -> Result<ConnectToken, Error> {
    ConnectToken::build(server_address, protocol_id, client_id, private_key).generate()
}

/// `ConnectToken::try_into_bytes`: the token as a 2048-byte array, copied into
/// a vector. An error of the write is passed on as the crate's own error.
#[verifier::external_body]
pub(crate) fn connect_token_bytes(token: ConnectToken) -> (bytes: Result<Vec<u8>, Error>)
    ensures
        bytes matches Ok(b) ==> b@.len() == 2048,
{
    match token.try_into_bytes() {
        Ok(array) => Ok(array.to_vec()),
        Err(error) => Err(Error::from(error)),
    }
}

} // verus!
