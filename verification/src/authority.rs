//! The credential authority: creates identities, checks secrets and answers
//! with signed connect tokens.

use crate::collections::{
    id_set_contains, id_set_contents, id_set_insert, id_set_new, id_set_remove, Secrets,
};
use crate::protocol::{AuthPayload, NewClientPayload, TokenResponse};
use crate::registry::Registry;
use crate::signer::{is_credential_for, issue, SignerConfig, SignerError};
use bevy_platform::collections::HashSet;
use vstd::prelude::*;

verus! {

/// Why the authority turned a request down.
#[derive(Clone, Copy, Debug, PartialEq, Eq, Structural)]
pub enum AuthError {
    /// The secret sent is not the one on file.
    WrongCredentials,
    /// The request lacks a field.
    MissingCredentials,
    /// No token could be issued for the identity.
    TokenCreation,
    /// Reserved.
    InvalidToken,
}

impl AuthError {
    /// The HTTP status that answers this error.
    pub open spec fn spec_status_code(self) -> u16 {
        match self {
            AuthError::WrongCredentials => 401,
            AuthError::MissingCredentials => 400,
            AuthError::TokenCreation => 500,
            AuthError::InvalidToken => 400,
        }
    }

    /// The text sent in the `error` field of the answer.
    pub open spec fn spec_message(self) -> Seq<char> {
        match self {
            AuthError::WrongCredentials => "Wrong credentials"@,
            AuthError::MissingCredentials => "Missing credentials"@,
            AuthError::TokenCreation => "Token creation error"@,
            AuthError::InvalidToken => "Invalid token"@,
        }
    }

    /// The HTTP status that answers this error.
    pub fn status_code(&self) -> (code: u16)
        ensures
            code == self.spec_status_code(),
    {
        match self {
            AuthError::WrongCredentials => 401,
            AuthError::MissingCredentials => 400,
            AuthError::TokenCreation => 500,
            AuthError::InvalidToken => 400,
        }
    }

    /// The text sent in the `error` field of the answer.
    pub fn message(&self) -> (text: &'static str)
        ensures
            text@ == self.spec_message(),
    {
        match self {
            AuthError::WrongCredentials => "Wrong credentials",
            AuthError::MissingCredentials => "Missing credentials",
            AuthError::TokenCreation => "Token creation error",
            AuthError::InvalidToken => "Invalid token",
        }
    }

    /// Whether the fault lies with the client (a 4xx status) and not with the
    /// authority (a 5xx status).
    pub fn is_client_error(&self) -> (client: bool)
        ensures
            client == (400 <= self.spec_status_code() < 500),
            !client == (500 <= self.spec_status_code() < 600),
    {
        match self {
            AuthError::TokenCreation => false,
            _ => true,
        }
    }
}

impl AuthPayload {
    /// Puts a reauthentication request together from the fields that were
    /// sent. A request that lacks a field is turned down with
    /// `MissingCredentials`.
    pub fn from_fields(client_id: Option<u64>, client_secret: Option<String>) -> (payload: Result<
        AuthPayload,
        AuthError,
    >)
        ensures
            match (client_id, client_secret) {
                (Some(id), Some(secret)) => payload matches Ok(p) && p.client_id == id
                    && p.client_secret@ == secret@,
                _ => payload matches Err(error) && error == AuthError::MissingCredentials,
            },
    {
        match (client_id, client_secret) {
            (Some(id), Some(secret)) => Ok(AuthPayload { client_id: id, client_secret: secret }),
            _ => Err(AuthError::MissingCredentials),
        }
    }
}

/// Who the transport says has opened a session.
#[derive(Clone, Copy, Debug, PartialEq, Eq, Structural)]
pub enum RemotePeer {
    /// A peer that presented a connect token issued for this identity.
    Netcode(u64),
    /// A peer that connected by any other means.
    Unauthenticated,
}

/// What to do with a session that has just opened.
#[derive(Clone, Copy, Debug, PartialEq, Eq, Structural)]
pub enum SessionVerdict {
    /// The session may stay.
    Admit,
    /// The session must be closed at once.
    ForceDisconnect,
}

/// Whether `secret` proves ownership of `identity`, given the secrets on file.
pub open spec fn credential_check(secrets: Secrets, identity: u64, secret: Seq<char>) -> Result<
    (),
    AuthError,
> {
    if !secrets.contains_key(identity) {
        Err(AuthError::TokenCreation)
    } else if secrets[identity] != secret {
        Err(AuthError::WrongCredentials)
    } else {
        Ok(())
    }
}

/// Whether a session opened by `peer` may stay, given the identities issued.
pub open spec fn session_verdict(allocated: Set<u64>, peer: RemotePeer) -> SessionVerdict {
    match peer {
        RemotePeer::Netcode(identity) => if allocated.contains(identity) {
            SessionVerdict::Admit
        } else {
            SessionVerdict::ForceDisconnect
        },
        RemotePeer::Unauthenticated => SessionVerdict::ForceDisconnect,
    }
}

/// The answer to a request whose secret was accepted, given what the signer
/// returned.
pub open spec fn spec_conclude(issued: Result<TokenResponse, SignerError>) -> Result<
    TokenResponse,
    AuthError,
> {
    match issued {
        Ok(token) => Ok(token),
        Err(_) => Err(AuthError::TokenCreation),
    }
}

/// Mathematical state of an [`Authority`].
pub struct AuthorityView {
    /// Identities issued so far.
    pub allocated: Set<u64>,
    /// Secret on file for each identity.
    pub secrets: Secrets,
    /// Identities that hold a session right now.
    pub connected: Set<u64>,
}

impl AuthorityView {
    /// Every issued identity has a secret on file, no other identity has
    /// one, and only issued identities hold a session.
    pub open spec fn wf(self) -> bool {
        &&& self.secrets.dom() =~= self.allocated
        &&& self.connected.subset_of(self.allocated)
    }

    /// The state after `identity` was created with `secret`.
    pub open spec fn registered(self, identity: u64, secret: Seq<char>) -> AuthorityView {
        AuthorityView {
            allocated: self.allocated.insert(identity),
            secrets: self.secrets.insert(identity, secret),
            connected: self.connected,
        }
    }

    /// The state after the transport reported that `peer` opened a session.
    pub open spec fn session_opened(self, peer: RemotePeer) -> AuthorityView {
        match peer {
            RemotePeer::Netcode(identity) => if self.allocated.contains(identity) {
                AuthorityView { connected: self.connected.insert(identity), ..self }
            } else {
                self
            },
            RemotePeer::Unauthenticated => self,
        }
    }

    /// The state after the transport reported that the session of `peer`
    /// closed.
    pub open spec fn session_closed(self, peer: RemotePeer) -> AuthorityView {
        match peer {
            RemotePeer::Netcode(identity) => AuthorityView {
                connected: self.connected.remove(identity),
                ..self
            },
            RemotePeer::Unauthenticated => self,
        }
    }
}

/// The credential authority of one process. Its identities and secrets live
/// in memory only and are never removed.
pub struct Authority {
    registry: Registry,
    connected: HashSet<u64>,
    config: SignerConfig,
}

impl View for Authority {
    type V = AuthorityView;

    closed spec fn view(&self) -> AuthorityView {
        AuthorityView {
            allocated: self.registry.allocated(),
            secrets: self.registry.secrets(),
            connected: id_set_contents(self.connected),
        }
    }
}

/// Turns what the signer returned into the answer to a request whose secret
/// was accepted.
pub fn conclude(issued: Result<TokenResponse, SignerError>) -> (answer: Result<TokenResponse, AuthError>)
    ensures
        answer == spec_conclude(issued),
{
    match issued {
        Ok(token) => Ok(token),
        Err(_) => Err(AuthError::TokenCreation),
    }
}

impl Authority {
    /// What every token of this authority is bound to.
    pub closed spec fn spec_config(&self) -> SignerConfig {
        self.config
    }

    /// An authority that has issued nothing yet.
    pub fn new(config: SignerConfig) -> (authority: Self)
        ensures
            authority@.allocated == Set::<u64>::empty(),
            authority@.secrets == Secrets::empty(),
            authority@.connected == Set::<u64>::empty(),
            authority@.wf(),
            authority.spec_config() == config,
    {
        Authority { registry: Registry::new(), connected: id_set_new(), config }
    }

    /// What every token of this authority is bound to.
    pub fn config(&self) -> (config: &SignerConfig)
        ensures
            *config == self.spec_config(),
    {
        &self.config
    }

    /// Whether `identity` was issued by this authority.
    pub fn is_allocated(&self, identity: u64) -> (found: bool)
        ensures
            found == self@.allocated.contains(identity),
    {
        self.registry.is_allocated(identity)
    }

    /// Whether `identity` holds a session right now.
    pub fn is_connected(&self, identity: u64) -> (found: bool)
        ensures
            found == self@.connected.contains(identity),
    {
        id_set_contains(&self.connected, identity)
    }

    /// The secret on file for `identity`, if there is one.
    pub fn lookup_secret(&self, identity: u64) -> (found: Option<String>)
        ensures
            match found {
                Some(s) => self@.secrets.contains_key(identity) && s@ == self@.secrets[identity],
                None => !self@.secrets.contains_key(identity),
            },
    {
        self.registry.lookup_secret(identity)
    }

    /// Allocates a new identity and puts `secret` on file for it, or returns
    /// `None` with nothing changed. The first client always gets an identity.
    pub fn register_client(&mut self, secret: String) -> (identity: Option<u64>)
        ensures
            match identity {
                Some(id) => !old(self)@.allocated.contains(id) && final(self)@ == old(self)@.registered(
                    id,
                    secret@,
                ),
                None => final(self)@ == old(self)@,
            },
            old(self)@.wf() ==> final(self)@.wf(),
            final(self).spec_config() == old(self).spec_config(),
            old(self)@.allocated.is_empty() ==> identity is Some,
    {
        match self.registry.allocate_identity() {
            Some(id) => {
                self.registry.record_secret(id, secret);
                Some(id)
            },
            None => None,
        }
    }

    /// Checks `secret` against the secret on file for `identity`.
    pub fn check_credentials(&self, identity: u64, secret: &String) -> (checked: Result<(), AuthError>)
        ensures
            checked == credential_check(self@.secrets, identity, secret@),
    {
        match self.registry.lookup_secret(identity) {
            None => Err(AuthError::TokenCreation),
            Some(stored) => if stored != *secret {
                Err(AuthError::WrongCredentials)
            } else {
                Ok(())
            },
        }
    }

    /// Creates an identity for a new client, puts its secret on file and
    /// answers with a token for it.
    pub fn create_identity(&mut self, payload: NewClientPayload) -> (answer: Result<
        TokenResponse,
        AuthError,
    >)
        ensures
            match answer {
                Ok(token) => !old(self)@.allocated.contains(token.client_id)
                    && is_credential_for(token, token.client_id)
                    && final(self)@ == old(self)@.registered(
                    token.client_id,
                    payload.client_secret@,
                ),
                Err(error) => error == AuthError::TokenCreation && (final(self)@ == old(self)@
                    || exists|id: u64|
                    !old(self)@.allocated.contains(id) && final(self)@ == old(self)@.registered(
                        id,
                        payload.client_secret@,
                    )),
            },
            old(self)@.wf() ==> final(self)@.wf(),
            final(self).spec_config() == old(self).spec_config(),
    {
        match self.register_client(payload.client_secret) {
            Some(id) => conclude(issue(&self.config, id)),
            None => Err(AuthError::TokenCreation),
        }
    }

    /// Answers a returning client with a fresh token for its identity, if the
    /// secret it sent is the one on file.
    pub fn reauthenticate(&self, payload: &AuthPayload) -> (answer: Result<TokenResponse, AuthError>)
        ensures
            match credential_check(self@.secrets, payload.client_id, payload.client_secret@) {
                Err(error) => answer == Err::<TokenResponse, AuthError>(error),
                Ok(_) => match answer {
                    Ok(token) => is_credential_for(token, payload.client_id),
                    Err(error) => error == AuthError::TokenCreation,
                },
            },
    {
        match self.check_credentials(payload.client_id, &payload.client_secret) {
            Err(error) => Err(error),
            Ok(_) => conclude(issue(&self.config, payload.client_id)),
        }
    }

    /// Takes note that `peer` has opened a session, and says whether the
    /// session may stay: only a peer whose identity this authority issued is
    /// admitted. No identity or secret is touched.
    pub fn on_session_connected(&mut self, peer: RemotePeer) -> (verdict: SessionVerdict)
        ensures
            verdict == session_verdict(old(self)@.allocated, peer),
            final(self)@ == old(self)@.session_opened(peer),
            old(self)@.wf() ==> final(self)@.wf(),
            final(self).spec_config() == old(self).spec_config(),
    {
        match peer {
            RemotePeer::Netcode(identity) => {
                if self.registry.is_allocated(identity) {
                    let _ = id_set_insert(&mut self.connected, identity);
                    SessionVerdict::Admit
                } else {
                    SessionVerdict::ForceDisconnect
                }
            },
            RemotePeer::Unauthenticated => SessionVerdict::ForceDisconnect,
        }
    }

    /// Takes note that the session of `peer` has closed. The identity stays
    /// allocated and its secret stays on file, so that the client can come
    /// back under the same identity.
    pub fn on_session_disconnected(&mut self, peer: RemotePeer)
        ensures
            final(self)@ == old(self)@.session_closed(peer),
            old(self)@.wf() ==> final(self)@.wf(),
            final(self).spec_config() == old(self).spec_config(),
    {
        match peer {
            RemotePeer::Netcode(identity) => {
                let _ = id_set_remove(&mut self.connected, identity);
            },
            RemotePeer::Unauthenticated => {},
        }
    }
}

/// The secrets on file once each pair of `recorded`, an identity and the
/// secret put on file for it, was recorded in that order on top of `start`.
pub open spec fn secrets_after(start: Secrets, recorded: Seq<(u64, Seq<char>)>) -> Secrets
    decreases recorded.len(),
{
    if recorded.len() == 0 {
        start
    } else {
        secrets_after(start, recorded.drop_last()).insert(recorded.last().0, recorded.last().1)
    }
}

/// The secret that `recorded` last put on file for `identity`, if it ever
/// put one.
pub open spec fn last_secret(recorded: Seq<(u64, Seq<char>)>, identity: u64) -> Option<Seq<char>>
    decreases recorded.len(),
{
    if recorded.len() == 0 {
        None
    } else if recorded.last().0 == identity {
        Some(recorded.last().1)
    } else {
        last_secret(recorded.drop_last(), identity)
    }
}

/// Reauthentication follows the record: with an authority that started
/// empty, a reauthentication passes the check exactly when the identity was
/// created before and the secret sent is the last one recorded for it. An
/// identity never created is answered `TokenCreation`, another secret
/// `WrongCredentials`.
pub proof fn lemma_reauthentication_follows_record(
    recorded: Seq<(u64, Seq<char>)>,
    identity: u64,
    secret: Seq<char>,
)
    ensures
        credential_check(secrets_after(Secrets::empty(), recorded), identity, secret) == (match last_secret(
            recorded,
            identity,
        ) {
            None => Err::<(), AuthError>(AuthError::TokenCreation),
            Some(on_file) => if on_file == secret {
                Ok::<(), AuthError>(())
            } else {
                Err::<(), AuthError>(AuthError::WrongCredentials)
            },
        }),
        credential_check(secrets_after(Secrets::empty(), recorded), identity, secret) is Ok
            <==> last_secret(recorded, identity) == Some(secret),
    decreases recorded.len(),
{
    lemma_secrets_after_holds_last(recorded, identity);
}

/// `secrets_after` holds for each identity the secret recorded last.
pub proof fn lemma_secrets_after_holds_last(recorded: Seq<(u64, Seq<char>)>, identity: u64)
    ensures
        match last_secret(recorded, identity) {
            None => !secrets_after(Secrets::empty(), recorded).contains_key(identity),
            Some(on_file) => secrets_after(Secrets::empty(), recorded).contains_key(identity)
                && secrets_after(Secrets::empty(), recorded)[identity] == on_file,
        },
    decreases recorded.len(),
{
    if recorded.len() > 0 {
        lemma_secrets_after_holds_last(recorded.drop_last(), identity);
    }
}

/// A notification from the transport about a session.
pub enum SessionNotice {
    /// A peer has opened a session.
    Connected(RemotePeer),
    /// The session of a peer has closed.
    Disconnected(RemotePeer),
}

impl AuthorityView {
    /// The state after one notification.
    pub open spec fn noticed(self, notice: SessionNotice) -> AuthorityView {
        match notice {
            SessionNotice::Connected(peer) => self.session_opened(peer),
            SessionNotice::Disconnected(peer) => self.session_closed(peer),
        }
    }

    /// The state after the notifications of `notices`, in order.
    pub open spec fn after_notices(self, notices: Seq<SessionNotice>) -> AuthorityView
        decreases notices.len(),
    {
        if notices.len() == 0 {
            self
        } else {
            self.after_notices(notices.drop_last()).noticed(notices.last())
        }
    }
}

/// Identities are never removed: whatever sessions open and close, and
/// however many, every identity stays allocated with the secret it had, so
/// every reauthentication is checked as before.
pub proof fn lemma_notices_keep_identities(state: AuthorityView, notices: Seq<SessionNotice>)
    ensures
        state.after_notices(notices).allocated == state.allocated,
        state.after_notices(notices).secrets == state.secrets,
        state.wf() ==> state.after_notices(notices).wf(),
        forall|identity: u64, secret: Seq<char>|
            credential_check(state.after_notices(notices).secrets, identity, secret)
                == credential_check(state.secrets, identity, secret),
    decreases notices.len(),
{
    if notices.len() > 0 {
        lemma_notices_keep_identities(state, notices.drop_last());
    }
}

/// Reissuance: a reauthentication changes nothing on file, so the same valid
/// pair passes the check again, and whatever two tokens the signer made for
/// the identity, both answers are tokens for that identity. (That the two
/// byte sequences differ is up to the signer's clock and random keys.)
pub proof fn lemma_reissue_names_same_identity(
    secrets: Secrets,
    identity: u64,
    secret: Seq<char>,
    first: TokenResponse,
    second: TokenResponse,
)
    requires
        credential_check(secrets, identity, secret) is Ok,
        is_credential_for(first, identity),
        is_credential_for(second, identity),
    ensures
        spec_conclude(Ok(first)) matches Ok(a) && spec_conclude(Ok(second)) matches Ok(b)
            && a.client_id == identity && b.client_id == identity,
{
}

} // verus!
