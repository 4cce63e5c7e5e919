use netcode_auth::client::CredentialRequest;
use netcode_auth::fetch::{
    AuthorityCall, AuthorityReply, FetchStep, CONNECT_CLIENT_ROUTE, CREATE_CLIENT_ROUTE,
};
use netcode_auth::protocol::{AuthPayload, NewClientPayload, TokenResponse};

fn answered(status: u16, client_id: u64) -> AuthorityReply {
    AuthorityReply::Answered {
        status,
        body: Some(TokenResponse { token: vec![1, 2, 3], client_id }),
    }
}

fn create_request(secret: &str) -> CredentialRequest {
    CredentialRequest::Create { secret: secret.to_string() }
}

fn reauth_request(client_id: u64, secret: &str) -> CredentialRequest {
    CredentialRequest::Reauthenticate { client_id, secret: secret.to_string() }
}

#[test]
fn routes_are_the_documented_paths() {
    assert_eq!(CREATE_CLIENT_ROUTE, "/create_client");
    assert_eq!(CONNECT_CLIENT_ROUTE, "/connect_client");
    let create = AuthorityCall::CreateClient(NewClientPayload { client_secret: String::new() });
    assert_eq!(create.route(), "/create_client");
    let connect =
        AuthorityCall::ConnectClient(AuthPayload { client_id: 1, client_secret: String::new() });
    assert_eq!(connect.route(), "/connect_client");
}

#[test]
fn reply_with_2xx_status_and_body_brings_a_credential() {
    for status in [200u16, 201, 299] {
        let credential = answered(status, 8).credential().expect("a credential");
        assert_eq!(credential.client_id, 8);
        assert_eq!(credential.token, vec![1, 2, 3]);
    }
}

#[test]
fn reply_with_other_status_brings_no_credential() {
    for status in [0u16, 199, 300, 400, 401, 500, u16::MAX] {
        assert!(answered(status, 8).credential().is_none());
    }
}

#[test]
fn reply_without_a_body_brings_no_credential() {
    assert!(AuthorityReply::Answered { status: 200, body: None }.credential().is_none());
}

#[test]
fn unreachable_authority_brings_no_credential() {
    assert!(AuthorityReply::Unreachable.credential().is_none());
}

#[test]
fn create_request_starts_with_create_client() {
    let call = create_request("s").first_call();
    assert!(matches!(call, AuthorityCall::CreateClient(p) if p.client_secret == "s"));
}

#[test]
fn reauth_request_starts_with_connect_client() {
    let call = reauth_request(4, "s").first_call();
    assert!(matches!(
        call,
        AuthorityCall::ConnectClient(p) if p.client_id == 4 && p.client_secret == "s"
    ));
}

#[test]
fn first_reply_with_a_credential_finishes_the_task() {
    let step = reauth_request(4, "s").after_first_reply(answered(200, 4));
    assert!(matches!(step, FetchStep::Done(Some(t)) if t.client_id == 4));
    let step = create_request("s").after_first_reply(answered(200, 5));
    assert!(matches!(step, FetchStep::Done(Some(t)) if t.client_id == 5));
}

#[test]
fn failed_reauth_falls_back_to_create_with_the_same_secret() {
    let replies =
        [answered(500, 4), answered(401, 4), AuthorityReply::Unreachable, AuthorityReply::Answered {
            status: 200,
            body: None,
        }];
    for reply in replies {
        let step = reauth_request(4, "s").after_first_reply(reply);
        assert!(matches!(
            step,
            FetchStep::Call(AuthorityCall::CreateClient(p)) if p.client_secret == "s"
        ));
    }
}

#[test]
fn failed_create_finishes_without_a_credential() {
    let step = create_request("s").after_first_reply(AuthorityReply::Unreachable);
    assert!(matches!(step, FetchStep::Done(None)));
    let step = create_request("s").after_first_reply(answered(500, 1));
    assert!(matches!(step, FetchStep::Done(None)));
}

#[test]
fn fallback_reply_is_final() {
    let request = reauth_request(4, "s");
    let result = request.after_fallback_reply(answered(200, 10)).expect("a credential");
    assert_eq!(result.client_id, 10);
    assert!(request.after_fallback_reply(AuthorityReply::Unreachable).is_none());
    assert!(request.after_fallback_reply(answered(401, 10)).is_none());
}
