use auth_service::auth::AuthService;
use auth_service::sessions::{Sessions, SessionsImpl};
use auth_service::users::{Users, UsersImpl};
use auth_service::StatusCode;

#[test]
fn sign_in_should_fail_if_user_not_found() {
    let users_service = UsersImpl::default();
    let sessions_service = SessionsImpl::default();

    let mut auth_service = AuthService::new(users_service, sessions_service);

    let result = auth_service.sign_in("username".to_owned(), "password".to_owned());

    assert_eq!(result.status_code, StatusCode::Failure);
    assert!(result.user_uuid.is_empty());
    assert!(result.session_token.is_empty());
}

#[test]
fn sign_in_should_fail_if_incorrect_password() {
    let mut users_service = UsersImpl::default();
    let sessions_service = SessionsImpl::default();

    users_service
        .create_user("username".to_owned(), "password".to_owned())
        .expect("should create user");

    let mut auth_service = AuthService::new(users_service, sessions_service);

    let result = auth_service.sign_in("username".to_owned(), "false_password".to_owned());

    assert_eq!(result.status_code, StatusCode::Failure);
    assert!(result.user_uuid.is_empty());
    assert!(result.session_token.is_empty());
}

#[test]
fn sign_in_should_succeed() {
    let mut users_service = UsersImpl::default();

    users_service
        .create_user("username".to_owned(), "password".to_owned())
        .expect("should create user");

    let user_uuid = users_service
        .get_user_uuid("username".to_owned(), "password".to_owned())
        .expect("should get user uuid");

    let sessions_service = SessionsImpl::default();

    let mut auth_service = AuthService::new(users_service, sessions_service);

    let result = auth_service.sign_in("username".to_owned(), "password".to_owned());

    assert_eq!(result.status_code, StatusCode::Success);
    assert_eq!(result.user_uuid, user_uuid);
    assert_eq!(result.session_token.is_empty(), false);
}

#[test]
fn sign_up_should_fail_if_username_exists() {
    let mut users_service = UsersImpl::default();

    users_service
        .create_user("username".to_owned(), "password".to_owned())
        .expect("should create user");

    let sessions_service = SessionsImpl::default();

    let mut auth_service = AuthService::new(users_service, sessions_service);

    let result = auth_service.sign_up("username".to_owned(), "password".to_owned());

    assert_eq!(result.status_code, StatusCode::Failure);
}

#[test]
fn sign_up_should_succeed() {
    let users_service = UsersImpl::default();
    let sessions_service = SessionsImpl::default();

    let mut auth_service = AuthService::new(users_service, sessions_service);

    let result = auth_service.sign_up("username".to_owned(), "password".to_owned());

    assert_eq!(result.status_code, StatusCode::Success);
}

#[test]
fn sign_out_should_succeed() {
    let users_service = UsersImpl::default();
    let sessions_service = SessionsImpl::default();

    let mut auth_service = AuthService::new(users_service, sessions_service);

    let result = auth_service.sign_out("".to_owned());

    assert_eq!(result.status_code, StatusCode::Success);
}

#[test]
fn sign_out_should_succeed_when_given_valid_session() {
    let mut users_service = UsersImpl::default();
    users_service
        .create_user("username".to_owned(), "password".to_owned())
        .expect("should create user");
    let user_uuid = users_service
        .get_user_uuid("username".to_owned(), "password".to_owned())
        .expect("should get user uuid");

    let mut sessions_service = SessionsImpl::default();

    let session_token = sessions_service.create_session(&user_uuid);

    let mut auth_service = AuthService::new(users_service, sessions_service);

    let result = auth_service.sign_out(session_token);

    assert_eq!(result.status_code, StatusCode::Success);
}
