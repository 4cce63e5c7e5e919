//! Credential authority and client connection manager for a netcode game
//! session.
//!
//! The authority side allocates durable client identities, keeps the secret
//! each client chose, and signs connect tokens that a game server accepts.
//! The client side decides, once per frame, what to do about the single
//! in-flight token request and about the stored preferences.

pub mod protocol;
pub mod authority;
pub mod certificate;
pub mod client;
pub mod collections;
pub mod color;
pub mod entropy;
pub mod fetch;
pub mod netcode;
pub mod registry;
pub mod signer;
pub mod text;
pub mod walls;
