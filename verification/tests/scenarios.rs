use netcode_auth::authority::{AuthError, Authority};
use netcode_auth::client::{
    AuthPrefs, ConnectionManager, ConnectionState, CredentialRequest, TaskPoll,
};
use netcode_auth::fetch::{AuthorityCall, AuthorityReply, FetchStep};
use netcode_auth::protocol::{AuthPayload, TokenResponse};
use netcode_auth::signer::SignerConfig;

fn fresh_authority() -> Authority {
    Authority::new(SignerConfig {
        server_address: "127.0.0.1:5888".to_string(),
        protocol_id: 0,
        private_key: [0u8; 32],
    })
}

/// Serves one call as the authority's HTTP layer would.
fn serve(authority: &mut Authority, call: AuthorityCall) -> AuthorityReply {
    let answer = match call {
        AuthorityCall::CreateClient(payload) => authority.create_identity(payload),
        AuthorityCall::ConnectClient(payload) => authority.reauthenticate(&payload),
    };
    match answer {
        Ok(token) => AuthorityReply::Answered { status: 200, body: Some(token) },
        Err(error) => AuthorityReply::Answered { status: error.status_code(), body: None },
    }
}

/// Runs the background task for `request` to its end.
fn fetch(authority: &mut Authority, request: &CredentialRequest) -> Option<TokenResponse> {
    let reply = serve(authority, request.first_call());
    match request.after_first_reply(reply) {
        FetchStep::Done(result) => result,
        FetchStep::Call(call) => {
            let reply = serve(authority, call);
            request.after_fallback_reply(reply)
        }
    }
}

/// Takes a client from a connect action to an open session.
fn connect(
    authority: &mut Authority,
    manager: &mut ConnectionManager,
    prefs: &mut AuthPrefs,
) -> Option<TokenResponse> {
    let request = manager.on_connect_action(prefs).expect("a request");
    assert!(manager.on_poll(prefs, TaskPoll::Pending).is_none());
    let result = fetch(authority, &request);
    let credential = manager.on_poll(prefs, TaskPoll::Finished(result))?;
    manager.on_transport_connected(prefs);
    Some(credential)
}

#[test]
fn scenario_new_client() {
    let mut authority = fresh_authority();
    let mut prefs = AuthPrefs::new();
    let mut manager = ConnectionManager::new();

    let credential = connect(&mut authority, &mut manager, &mut prefs).expect("a credential");
    let x = credential.client_id;

    assert!(authority.is_allocated(x));
    assert_eq!(authority.lookup_secret(x), Some(String::new()));
    assert_eq!(manager.state(), ConnectionState::Connected);
    assert_eq!(prefs.secret, Some(String::new()));
    let kept = prefs.last_token.as_ref().expect("a token");
    assert_eq!(kept.client_id, x);
    assert_eq!(kept.token, credential.token);
}

#[test]
fn scenario_returning_client() {
    let mut authority = fresh_authority();
    let x = authority.register_client("s".to_string()).expect("an identity");
    let old = authority
        .reauthenticate(&AuthPayload { client_id: x, client_secret: "s".to_string() })
        .expect("a token");
    let mut prefs = AuthPrefs { last_token: Some(old.clone()), secret: Some("s".to_string()) };
    let mut manager = ConnectionManager::new();

    let request = manager.on_connect_action(&prefs).expect("a request");
    assert!(matches!(
        &request,
        CredentialRequest::Reauthenticate { client_id, secret } if *client_id == x && secret == "s"
    ));
    assert!(matches!(
        request.first_call(),
        AuthorityCall::ConnectClient(p) if p.client_id == x && p.client_secret == "s"
    ));
    let step = request.after_first_reply(serve(&mut authority, request.first_call()));
    let fresh = match step {
        FetchStep::Done(Some(token)) => token,
        _ => panic!("the authority knows the identity"),
    };
    assert_eq!(fresh.client_id, x);
    assert_ne!(fresh.token, old.token);

    let handed =
        manager.on_poll(&mut prefs, TaskPoll::Finished(Some(fresh))).expect("a credential");
    assert_eq!(handed.client_id, x);
    manager.on_transport_connected(&mut prefs);
    assert_eq!(prefs.last_token.as_ref().map(|t| t.client_id), Some(x));
    assert_eq!(prefs.secret, Some("s".to_string()));
    assert!(!authority.is_allocated(x.wrapping_add(1)));
}

#[test]
fn scenario_returning_client_creates_no_identity() {
    let mut authority = fresh_authority();
    let mut prefs = AuthPrefs::new();
    let mut manager = ConnectionManager::new();
    let x = connect(&mut authority, &mut manager, &mut prefs).expect("a credential").client_id;
    manager.on_disconnect_action();

    let again = connect(&mut authority, &mut manager, &mut prefs).expect("a credential");
    assert_eq!(again.client_id, x);
    assert_eq!(prefs.last_token.as_ref().map(|t| t.client_id), Some(x));
}

#[test]
fn scenario_forgotten_server_restart() {
    let mut before_restart = fresh_authority();
    let x = before_restart.register_client("s".to_string()).expect("an identity");
    let stale = before_restart
        .reauthenticate(&AuthPayload { client_id: x, client_secret: "s".to_string() })
        .expect("a token");

    let mut authority = fresh_authority();
    let refused =
        authority.reauthenticate(&AuthPayload { client_id: x, client_secret: "s".to_string() });
    assert!(matches!(refused, Err(AuthError::TokenCreation)));

    let mut prefs = AuthPrefs { last_token: Some(stale), secret: Some("s".to_string()) };
    let mut manager = ConnectionManager::new();
    let credential = connect(&mut authority, &mut manager, &mut prefs).expect("a credential");
    let y = credential.client_id;

    assert_ne!(y, x);
    assert!(authority.is_allocated(y));
    assert!(!authority.is_allocated(x));
    assert_eq!(authority.lookup_secret(y), Some("s".to_string()));
    assert_eq!(prefs.last_token.as_ref().map(|t| t.client_id), Some(y));
    assert_eq!(prefs.secret, Some("s".to_string()));
}

#[test]
fn scenario_wrong_secret() {
    let mut authority = fresh_authority();
    let x = authority.register_client("s".to_string()).expect("an identity");

    let refused =
        authority.reauthenticate(&AuthPayload { client_id: x, client_secret: "wrong".to_string() });
    assert!(matches!(refused, Err(AuthError::WrongCredentials)));
    assert_eq!(authority.lookup_secret(x), Some("s".to_string()));
    assert_eq!(authority.check_credentials(x, &"s".to_string()), Ok(()));
}

#[test]
fn scenario_unreachable_authority_clears_the_prefs() {
    let mut prefs = AuthPrefs {
        last_token: Some(TokenResponse { token: vec![0; 8], client_id: 1 }),
        secret: Some("s".to_string()),
    };
    let mut manager = ConnectionManager::new();
    let request = manager.on_connect_action(&prefs).expect("a request");
    let result = match request.after_first_reply(AuthorityReply::Unreachable) {
        FetchStep::Call(_) => request.after_fallback_reply(AuthorityReply::Unreachable),
        FetchStep::Done(result) => result,
    };
    assert!(result.is_none());
    assert!(manager.on_poll(&mut prefs, TaskPoll::Finished(result)).is_none());
    assert_eq!(manager.state(), ConnectionState::Idle);
    assert!(prefs.secret.is_none());
    assert!(prefs.last_token.is_none());

    let request = manager.on_connect_action(&prefs).expect("a request");
    assert!(matches!(request, CredentialRequest::Create { secret } if secret.is_empty()));
}

#[test]
fn missing_fields_are_missing_credentials() {
    assert!(matches!(
        AuthPayload::from_fields(None, Some("s".to_string())),
        Err(AuthError::MissingCredentials)
    ));
    assert!(matches!(AuthPayload::from_fields(Some(1), None), Err(AuthError::MissingCredentials)));
    assert!(matches!(AuthPayload::from_fields(None, None), Err(AuthError::MissingCredentials)));
    let payload = AuthPayload::from_fields(Some(1), Some("s".to_string())).expect("a payload");
    assert_eq!(payload.client_id, 1);
    assert_eq!(payload.client_secret, "s");
}
