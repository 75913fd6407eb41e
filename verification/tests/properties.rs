use auth_service::auth::AuthService;
use auth_service::sessions::{Sessions, SessionsImpl};
use auth_service::users::{CredentialError, Users, UsersImpl};
use auth_service::StatusCode;

#[test]
fn duplicate_username_fails_until_removed() {
    let mut users_service = UsersImpl::default();

    users_service
        .create_user("alice".to_owned(), "pw1".to_owned())
        .expect("first registration succeeds");

    let again = users_service.create_user("alice".to_owned(), "pw2".to_owned());
    assert_eq!(again, Err(CredentialError::DuplicateUsername));

    let user_uuid = users_service
        .get_user_uuid("alice".to_owned(), "pw1".to_owned())
        .expect("registered credentials resolve");
    users_service.delete_user(user_uuid);

    users_service
        .create_user("alice".to_owned(), "pw3".to_owned())
        .expect("username is free again after removal");
}

#[test]
fn sign_up_duplicate_keeps_first_registration() {
    let mut users_service = UsersImpl::default();
    let sessions_service = SessionsImpl::default();
    let mut auth_service = AuthService::new(users_service, sessions_service);

    let first = auth_service.sign_up("alice".to_owned(), "pw1".to_owned());
    assert_eq!(first.status_code, StatusCode::Success);

    let second = auth_service.sign_up("alice".to_owned(), "pw2".to_owned());
    assert_eq!(second.status_code, StatusCode::Failure);

    let signed_in = auth_service.sign_in("alice".to_owned(), "pw1".to_owned());
    assert_eq!(signed_in.status_code, StatusCode::Success);
}

#[test]
fn lookup_returns_identity_of_registration() {
    let mut users_service = UsersImpl::default();

    users_service
        .create_user("alice".to_owned(), "pw1".to_owned())
        .expect("registration succeeds");

    let identity = users_service
        .get_user_uuid("alice".to_owned(), "pw1".to_owned())
        .expect("matching credentials resolve");
    assert_eq!(identity.len(), 36);

    assert!(users_service
        .get_user_uuid("alice".to_owned(), "pw2".to_owned())
        .is_none());
}

#[test]
fn session_round_trip_and_second_revoke_is_noop() {
    let mut sessions_service = SessionsImpl::default();

    let token = sessions_service.create_session("some-identity");
    assert_eq!(sessions_service.session_count(), 1);

    sessions_service.delete_session(&token);
    assert_eq!(sessions_service.session_count(), 0);
    assert!(sessions_service.latest_token("some-identity").is_none());

    sessions_service.delete_session(&token);
    assert_eq!(sessions_service.session_count(), 0);
}

#[test]
fn tokens_are_never_repeated_in_a_sample() {
    let mut sessions_service = SessionsImpl::default();

    let mut seen: Vec<String> = Vec::new();
    for i in 0..64 {
        let identity = if i % 2 == 0 { "a" } else { "b" };
        let token = sessions_service.create_session(identity);
        assert_eq!(token.len(), 36);
        assert!(!seen.contains(&token));
        seen.push(token);
    }
}

#[test]
fn sign_out_is_unconditionally_successful() {
    let users_service = UsersImpl::default();
    let sessions_service = SessionsImpl::default();
    let mut auth_service = AuthService::new(users_service, sessions_service);

    assert_eq!(auth_service.sign_out("".to_owned()).status_code, StatusCode::Success);
    assert_eq!(
        auth_service.sign_out("not-a-token".to_owned()).status_code,
        StatusCode::Success,
    );

    let signed_up = auth_service.sign_up("alice".to_owned(), "pw1".to_owned());
    assert_eq!(signed_up.status_code, StatusCode::Success);
    let signed_in = auth_service.sign_in("alice".to_owned(), "pw1".to_owned());
    assert_eq!(signed_in.status_code, StatusCode::Success);

    let token = signed_in.session_token;
    assert_eq!(auth_service.sign_out(token.clone()).status_code, StatusCode::Success);
    assert_eq!(auth_service.sign_out(token).status_code, StatusCode::Success);
}

#[test]
fn sign_in_issues_a_fresh_token_per_call() {
    let users_service = UsersImpl::default();
    let sessions_service = SessionsImpl::default();
    let mut auth_service = AuthService::new(users_service, sessions_service);

    let signed_up = auth_service.sign_up("alice".to_owned(), "pw1".to_owned());
    assert_eq!(signed_up.status_code, StatusCode::Success);

    let first = auth_service.sign_in("alice".to_owned(), "pw1".to_owned());
    let second = auth_service.sign_in("alice".to_owned(), "pw1".to_owned());
    assert_eq!(first.status_code, StatusCode::Success);
    assert_eq!(second.status_code, StatusCode::Success);
    assert_eq!(first.user_uuid, second.user_uuid);
    assert_ne!(first.session_token, second.session_token);
}

#[test]
fn empty_username_and_password_are_ordinary_inputs() {
    let users_service = UsersImpl::default();
    let sessions_service = SessionsImpl::default();
    let mut auth_service = AuthService::new(users_service, sessions_service);

    let signed_up = auth_service.sign_up("".to_owned(), "".to_owned());
    assert_eq!(signed_up.status_code, StatusCode::Success);

    let signed_in = auth_service.sign_in("".to_owned(), "".to_owned());
    assert_eq!(signed_in.status_code, StatusCode::Success);
    assert_eq!(signed_in.user_uuid.len(), 36);
    assert_eq!(signed_in.session_token.len(), 36);

    let wrong = auth_service.sign_in("".to_owned(), "x".to_owned());
    assert_eq!(wrong.status_code, StatusCode::Failure);
}
