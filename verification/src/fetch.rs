//! What the background task asks of the authority, call by call, and what it
//! makes of each reply.

use crate::client::{CredentialRequest, CredentialRequestView};
use crate::protocol::{AuthPayload, NewClientPayload, TokenResponse, TokenResponseView};
use vstd::prelude::*;

verus! {

/// Path of the operation that creates an identity.
pub const CREATE_CLIENT_ROUTE: &'static str = "/create_client";

/// Path of the operation that reauthenticates an identity.
pub const CONNECT_CLIENT_ROUTE: &'static str = "/connect_client";

/// One request to the authority.
pub enum AuthorityCall {
    /// `POST /create_client`
    CreateClient(NewClientPayload),
    /// `POST /connect_client`
    ConnectClient(AuthPayload),
}

/// Mathematical value of an [`AuthorityCall`].
pub enum AuthorityCallView {
    CreateClient { client_secret: Seq<char> },
    ConnectClient { client_id: u64, client_secret: Seq<char> },
}

impl View for AuthorityCall {
    type V = AuthorityCallView;

    open spec fn view(&self) -> AuthorityCallView {
        match self {
            AuthorityCall::CreateClient(payload) => AuthorityCallView::CreateClient {
                client_secret: payload.client_secret@,
            },
            AuthorityCall::ConnectClient(payload) => AuthorityCallView::ConnectClient {
                client_id: payload.client_id,
                client_secret: payload.client_secret@,
            },
        }
    }
}

impl AuthorityCall {
    /// The path to post this call to.
    pub fn route(&self) -> (route: &'static str)
        ensures
            self is CreateClient ==> route@ == "/create_client"@,
            self is ConnectClient ==> route@ == "/connect_client"@,
    {
        match self {
            AuthorityCall::CreateClient(_) => CREATE_CLIENT_ROUTE,
            AuthorityCall::ConnectClient(_) => CONNECT_CLIENT_ROUTE,
        }
    }
}

/// What came back from one call to the authority.
pub enum AuthorityReply {
    /// The authority could not be reached.
    Unreachable,
    /// The authority answered with `status`; `body` is the token response
    /// that its body held, if it held one.
    Answered { status: u16, body: Option<TokenResponse> },
}

/// Mathematical value of an [`AuthorityReply`].
pub enum AuthorityReplyView {
    Unreachable,
    Answered { status: u16, body: Option<TokenResponseView> },
}

impl View for AuthorityReply {
    type V = AuthorityReplyView;

    open spec fn view(&self) -> AuthorityReplyView {
        match self {
            AuthorityReply::Unreachable => AuthorityReplyView::Unreachable,
            AuthorityReply::Answered { status, body: Some(token) } => AuthorityReplyView::Answered {
                status: *status,
                body: Some(token@),
            },
            AuthorityReply::Answered { status, body: None } => AuthorityReplyView::Answered {
                status: *status,
                body: None,
            },
        }
    }
}

impl AuthorityReplyView {
    /// The credential that a reply brings: the body of an answer with a 2xx
    /// status. Every failure, of whatever kind, brings none.
    pub open spec fn credential(self) -> Option<TokenResponseView> {
        match self {
            AuthorityReplyView::Answered { status, body } => if 200 <= status < 300 {
                body
            } else {
                None
            },
            AuthorityReplyView::Unreachable => None,
        }
    }
}

impl AuthorityReply {
    /// The credential that this reply brings, if any.
    pub fn credential(self) -> (credential: Option<TokenResponse>)
        ensures
            match credential {
                Some(c) => self@.credential() == Some(c@),
                None => self@.credential().is_none(),
            },
    {
        match self {
            AuthorityReply::Answered { status, body } => if 200 <= status && status < 300 {
                body
            } else {
                None
            },
            AuthorityReply::Unreachable => None,
        }
    }
}

impl CredentialRequestView {
    /// The call that a request starts with.
    pub open spec fn first_call(self) -> AuthorityCallView {
        match self {
            CredentialRequestView::Create { secret } => AuthorityCallView::CreateClient {
                client_secret: secret,
            },
            CredentialRequestView::Reauthenticate { client_id, secret } => {
                AuthorityCallView::ConnectClient { client_id, client_secret: secret }
            },
        }
    }

    /// The call to fall back on where the first call brought no credential:
    /// a request for an existing identity then asks for a new one with the
    /// same secret.
    pub open spec fn fallback_call(self) -> Option<AuthorityCallView> {
        match self {
            CredentialRequestView::Create { .. } => None,
            CredentialRequestView::Reauthenticate { secret, .. } => Some(
                AuthorityCallView::CreateClient { client_secret: secret },
            ),
        }
    }
}

/// What the background task does next.
pub enum FetchStep {
    /// Make this call and wait for its reply.
    Call(AuthorityCall),
    /// Finish with this result.
    Done(Option<TokenResponse>),
}

impl CredentialRequest {
    /// The call that the task starts with.
    pub fn first_call(&self) -> (call: AuthorityCall)
        ensures
            call@ == self@.first_call(),
    {
        match self {
            CredentialRequest::Create { secret } => AuthorityCall::CreateClient(
                NewClientPayload { client_secret: secret.clone() },
            ),
            CredentialRequest::Reauthenticate { client_id, secret } => AuthorityCall::ConnectClient(
                AuthPayload { client_id: *client_id, client_secret: secret.clone() },
            ),
        }
    }

    /// What the task does once its first call was answered with `reply`: it
    /// finishes with the credential if there is one, falls back on a second
    /// call if the request has one, and finishes empty-handed otherwise.
    pub fn after_first_reply(&self, reply: AuthorityReply) -> (step: FetchStep)
        ensures
            match step {
                FetchStep::Done(Some(c)) => reply@.credential() == Some(c@),
                FetchStep::Done(None) => reply@.credential().is_none()
                    && self@.fallback_call().is_none(),
                FetchStep::Call(call) => reply@.credential().is_none() && self@.fallback_call()
                    == Some(call@),
            },
    {
        match reply.credential() {
            Some(credential) => FetchStep::Done(Some(credential)),
            None => match self {
                CredentialRequest::Create { .. } => FetchStep::Done(None),
                CredentialRequest::Reauthenticate { secret, .. } => FetchStep::Call(
                    AuthorityCall::CreateClient(NewClientPayload { client_secret: secret.clone() }),
                ),
            },
        }
    }

    /// What the task yields once its fallback call was answered with
    /// `reply`. There is no third call.
    pub fn after_fallback_reply(&self, reply: AuthorityReply) -> (result: Option<TokenResponse>)
        ensures
            match result {
                Some(c) => reply@.credential() == Some(c@),
                None => reply@.credential().is_none(),
            },
    {
        reply.credential()
    }
}

} // verus!
