//! The client's connection manager: one token request in flight at most,
//! polled once per frame, and the preferences that let a client come back
//! under the identity it had.

use crate::protocol::{AuthPayload, NewClientPayload, TokenResponse, TokenResponseView};
use vstd::prelude::*;

verus! {

/// Mathematical value of [`AuthPrefs`].
pub struct AuthPrefsView {
    pub last_token: Option<TokenResponseView>,
    pub secret: Option<Seq<char>>,
}

/// What a client remembers between runs: the last token it connected with
/// and the secret it obtained that token with.
pub struct AuthPrefs {
    pub last_token: Option<TokenResponse>,
    pub secret: Option<String>,
}

impl View for AuthPrefs {
    type V = AuthPrefsView;

    open spec fn view(&self) -> AuthPrefsView {
        AuthPrefsView {
            last_token: match self.last_token {
                Some(token) => Some(token@),
                None => None,
            },
            secret: match self.secret {
                Some(secret) => Some(secret@),
                None => None,
            },
        }
    }
}

impl AuthPrefsView {
    /// Preferences that hold nothing.
    pub open spec fn empty() -> AuthPrefsView {
        AuthPrefsView { last_token: None, secret: None }
    }

    /// The request that a client with these preferences makes when it wants
    /// to connect: it asks for its stored identity back where it has both a
    /// secret and a token, and for a new identity with an empty secret
    /// otherwise.
    pub open spec fn request(self) -> CredentialRequestView {
        match (self.secret, self.last_token) {
            (Some(secret), Some(token)) => CredentialRequestView::Reauthenticate {
                client_id: token.client_id,
                secret,
            },
            _ => CredentialRequestView::Create { secret: Seq::empty() },
        }
    }
}

impl AuthPrefs {
    /// Preferences that hold nothing, as on a first run.
    pub fn new() -> (prefs: Self)
        ensures
            prefs@ == AuthPrefsView::empty(),
    {
        AuthPrefs { last_token: None, secret: None }
    }

    /// The request to make when the client wants to connect.
    pub fn request(&self) -> (request: CredentialRequest)
        ensures
            request@ == self@.request(),
    {
        match (&self.secret, &self.last_token) {
            (Some(secret), Some(token)) => CredentialRequest::Reauthenticate {
                client_id: token.client_id,
                secret: secret.clone(),
            },
            _ => CredentialRequest::Create { secret: String::new() },
        }
    }
}

/// Mathematical value of a [`CredentialRequest`].
pub enum CredentialRequestView {
    Create { secret: Seq<char> },
    Reauthenticate { client_id: u64, secret: Seq<char> },
}

impl CredentialRequestView {
    /// The secret that the request carries.
    pub open spec fn secret(self) -> Seq<char> {
        match self {
            CredentialRequestView::Create { secret } => secret,
            CredentialRequestView::Reauthenticate { secret, .. } => secret,
        }
    }
}

/// What the background task is to obtain from the authority.
pub enum CredentialRequest {
    /// A new identity, created with `secret`.
    Create { secret: String },
    /// A token for the identity `client_id`; if the authority gives none, a
    /// new identity created with the same secret.
    Reauthenticate { client_id: u64, secret: String },
}

impl View for CredentialRequest {
    type V = CredentialRequestView;

    open spec fn view(&self) -> CredentialRequestView {
        match self {
            CredentialRequest::Create { secret } => CredentialRequestView::Create { secret: secret@ },
            CredentialRequest::Reauthenticate { client_id, secret } => {
                CredentialRequestView::Reauthenticate { client_id: *client_id, secret: secret@ }
            },
        }
    }
}

/// What one non-blocking look at the background task found.
pub enum TaskPoll {
    /// The task has not finished.
    Pending,
    /// The task has finished, with a token or without one.
    Finished(Option<TokenResponse>),
}

/// Mathematical value of a [`TaskPoll`].
pub enum TaskPollView {
    Pending,
    Finished(Option<TokenResponseView>),
}

impl View for TaskPoll {
    type V = TaskPollView;

    open spec fn view(&self) -> TaskPollView {
        match self {
            TaskPoll::Pending => TaskPollView::Pending,
            TaskPoll::Finished(Some(token)) => TaskPollView::Finished(Some(token@)),
            TaskPoll::Finished(None) => TaskPollView::Finished(None),
        }
    }
}

/// Where a client stands on its way to a session.
#[derive(Clone, Copy, Debug, PartialEq, Eq, Structural)]
pub enum ConnectionState {
    /// No request is in flight and no session is open.
    Idle,
    /// A token request is in flight.
    Requesting,
    /// A token was obtained and handed to the transport.
    Connecting,
    /// The session is open.
    Connected,
}

/// What is left to tear down after a disconnect action.
#[derive(Clone, Copy, Debug, PartialEq, Eq, Structural)]
pub enum Teardown {
    /// Nothing was in progress.
    Nothing,
    /// The handle of the background task is to be dropped; what the task
    /// yields later is discarded.
    DropTask,
    /// The transport is to close the session.
    CloseSession,
}

/// Mathematical value of a [`ConnectionManager`]: where the client stands,
/// with the secret of the request in flight and the credential it brought.
pub enum PhaseView {
    Idle,
    Requesting { secret: Seq<char> },
    Connecting { secret: Seq<char>, credential: TokenResponseView },
    Connected,
}

impl PhaseView {
    /// Where the client stands.
    pub open spec fn state(self) -> ConnectionState {
        match self {
            PhaseView::Idle => ConnectionState::Idle,
            PhaseView::Requesting { .. } => ConnectionState::Requesting,
            PhaseView::Connecting { .. } => ConnectionState::Connecting,
            PhaseView::Connected => ConnectionState::Connected,
        }
    }

    /// Whether a token request is in flight.
    pub open spec fn has_pending_task(self) -> bool {
        self is Requesting
    }

    /// What a disconnect action leaves to tear down.
    pub open spec fn teardown(self) -> Teardown {
        match self {
            PhaseView::Idle => Teardown::Nothing,
            PhaseView::Requesting { .. } => Teardown::DropTask,
            PhaseView::Connecting { .. } => Teardown::CloseSession,
            PhaseView::Connected => Teardown::CloseSession,
        }
    }
}

/// Mathematical state of one client: the progress of its
/// [`ConnectionManager`] and what its preferences hold.
pub struct ClientView {
    pub phase: PhaseView,
    pub prefs: AuthPrefsView,
}

impl ClientView {
    /// The request that a connect action starts: one where the client is
    /// idle, none otherwise.
    pub open spec fn connect_request(self) -> Option<CredentialRequestView> {
        if self.phase is Idle {
            Some(self.prefs.request())
        } else {
            None
        }
    }

    /// The state after a connect action.
    pub open spec fn after_connect(self) -> ClientView {
        if self.phase is Idle {
            ClientView {
                phase: PhaseView::Requesting { secret: self.prefs.request().secret() },
                prefs: self.prefs,
            }
        } else {
            self
        }
    }

    /// The credential to hand to the transport after a poll: the one that a
    /// finished request brought, if a request was in flight.
    pub open spec fn poll_credential(self, poll: TaskPollView) -> Option<TokenResponseView> {
        match (self.phase, poll) {
            (PhaseView::Requesting { .. }, TaskPollView::Finished(Some(credential))) => Some(
                credential,
            ),
            _ => None,
        }
    }

    /// The state after a poll.
    pub open spec fn after_poll(self, poll: TaskPollView) -> ClientView {
        match (self.phase, poll) {
            (PhaseView::Requesting { secret }, TaskPollView::Finished(Some(credential))) => {
                ClientView { phase: PhaseView::Connecting { secret, credential }, prefs: self.prefs }
            },
            (PhaseView::Requesting { .. }, TaskPollView::Finished(None)) => ClientView {
                phase: PhaseView::Idle,
                prefs: AuthPrefsView::empty(),
            },
            _ => self,
        }
    }

    /// The state after the transport reported that the session is open.
    pub open spec fn after_transport_connected(self) -> ClientView {
        match self.phase {
            PhaseView::Connecting { secret, credential } => ClientView {
                phase: PhaseView::Connected,
                prefs: AuthPrefsView { last_token: Some(credential), secret: Some(secret) },
            },
            _ => self,
        }
    }
}

/// Where the manager stands, with what it has to remember on the way: the
/// secret of the request in flight, and then the credential it brought.
enum Phase {
    Idle,
    Requesting { secret: String },
    Connecting { secret: String, credential: TokenResponse },
    Connected,
}

impl View for Phase {
    type V = PhaseView;

    closed spec fn view(&self) -> PhaseView {
        match self {
            Phase::Idle => PhaseView::Idle,
            Phase::Requesting { secret } => PhaseView::Requesting { secret: secret@ },
            Phase::Connecting { secret, credential } => PhaseView::Connecting {
                secret: secret@,
                credential: credential@,
            },
            Phase::Connected => PhaseView::Connected,
        }
    }
}

/// Drives one client from idle to connected and back. It knows of at most
/// one token request in flight, and it alone updates the preferences.
pub struct ConnectionManager {
    phase: Phase,
}

impl View for ConnectionManager {
    type V = PhaseView;

    closed spec fn view(&self) -> PhaseView {
        self.phase@
    }
}

impl ConnectionManager {
    /// The state of the client that this manager drives, given what its
    /// preferences hold.
    pub open spec fn with(&self, prefs: AuthPrefs) -> ClientView {
        ClientView { phase: self@, prefs: prefs@ }
    }

    /// An idle manager.
    pub fn new() -> (manager: Self)
        ensures
            manager@ == PhaseView::Idle,
    {
        ConnectionManager { phase: Phase::Idle }
    }

    /// Where the client stands.
    pub fn state(&self) -> (state: ConnectionState)
        ensures
            state == self@.state(),
    {
        match &self.phase {
            Phase::Idle => ConnectionState::Idle,
            Phase::Requesting { .. } => ConnectionState::Requesting,
            Phase::Connecting { .. } => ConnectionState::Connecting,
            Phase::Connected => ConnectionState::Connected,
        }
    }

    /// Whether a token request is in flight.
    pub fn has_pending_task(&self) -> (pending: bool)
        ensures
            pending == self@.has_pending_task(),
    {
        match &self.phase {
            Phase::Requesting { .. } => true,
            _ => false,
        }
    }

    /// The user asks to connect. Where the client is idle, the request to
    /// start in the background is returned and the manager waits for it;
    /// in every other state nothing changes and nothing is to be started.
    pub fn on_connect_action(&mut self, prefs: &AuthPrefs) -> (request: Option<CredentialRequest>)
        ensures
            final(self).with(*prefs) == old(self).with(*prefs).after_connect(),
            match request {
                Some(r) => old(self).with(*prefs).connect_request() == Some(r@),
                None => old(self).with(*prefs).connect_request().is_none(),
            },
    {
        match &self.phase {
            Phase::Idle => {
                let request = prefs.request();
                let secret = match &request {
                    CredentialRequest::Create { secret } => secret.clone(),
                    CredentialRequest::Reauthenticate { secret, .. } => secret.clone(),
                };
                self.phase = Phase::Requesting { secret };
                Some(request)
            },
            _ => None,
        }
    }

    /// One look per frame at the background task. A finished request that
    /// brought a credential moves the client on, and the credential is
    /// returned to be handed to the transport; one that brought none sends
    /// the client back to idle with its preferences cleared. An unfinished
    /// request, or a poll with no request in flight, changes nothing.
    pub fn on_poll(&mut self, prefs: &mut AuthPrefs, poll: TaskPoll) -> (credential: Option<
        TokenResponse,
    >)
        ensures
            final(self).with(*final(prefs)) == old(self).with(*old(prefs)).after_poll(poll@),
            match credential {
                Some(c) => old(self).with(*old(prefs)).poll_credential(poll@) == Some(c@),
                None => old(self).with(*old(prefs)).poll_credential(poll@).is_none(),
            },
    {
        let mut phase = Phase::Idle;
        core::mem::swap(&mut self.phase, &mut phase);
        match (phase, poll) {
            (Phase::Requesting { secret }, TaskPoll::Finished(Some(credential))) => {
                let handed = credential.clone();
                self.phase = Phase::Connecting { secret, credential };
                Some(handed)
            },
            (Phase::Requesting { .. }, TaskPoll::Finished(None)) => {
                prefs.last_token = None;
                prefs.secret = None;
                None
            },
            (phase, _) => {
                self.phase = phase;
                None
            },
        }
    }

    /// The transport reports that the session is open. Where the client was
    /// connecting, it is now connected and the preferences hold the secret
    /// and the credential of this session; otherwise nothing changes.
    pub fn on_transport_connected(&mut self, prefs: &mut AuthPrefs)
        ensures
            final(self).with(*final(prefs)) == old(self).with(
                *old(prefs),
            ).after_transport_connected(),
    {
        let mut phase = Phase::Idle;
        core::mem::swap(&mut self.phase, &mut phase);
        match phase {
            Phase::Connecting { secret, credential } => {
                prefs.last_token = Some(credential);
                prefs.secret = Some(secret);
                self.phase = Phase::Connected;
            },
            phase => {
                self.phase = phase;
            },
        }
    }

    /// The user asks to disconnect. The client goes back to idle, whatever
    /// it was doing; the result says what there is to tear down. The
    /// preferences are not involved.
    pub fn on_disconnect_action(&mut self) -> (teardown: Teardown)
        ensures
            final(self)@ == PhaseView::Idle,
            teardown == old(self)@.teardown(),
    {
        let teardown = match &self.phase {
            Phase::Idle => Teardown::Nothing,
            Phase::Requesting { .. } => Teardown::DropTask,
            Phase::Connecting { .. } => Teardown::CloseSession,
            Phase::Connected => Teardown::CloseSession,
        };
        self.phase = Phase::Idle;
        teardown
    }
}

/// At most one request in flight: a connect action while a request is in
/// flight, or while the session is being opened or is open, starts no
/// request and changes nothing. Only an idle client starts one, and it then
/// has exactly that one in flight.
pub proof fn lemma_connect_starts_at_most_one_request(manager: ClientView)
    ensures
        !(manager.phase is Idle) ==> manager.connect_request().is_none() && manager.after_connect()
            == manager,
        manager.phase is Idle ==> manager.connect_request().is_some()
            && manager.after_connect().phase.has_pending_task(),
        manager.after_connect().connect_request().is_none(),
        manager.after_connect().after_connect() == manager.after_connect(),
{
}

} // verus!
