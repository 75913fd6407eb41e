use auth_service::users::{CredentialError, Users, UsersImpl};

#[test]
fn should_create_user() {
    let mut users_service = UsersImpl::default();
    users_service
        .create_user("username".to_owned(), "password".to_owned())
        .expect("should create user");

    assert_eq!(users_service.user_count(), 1);
}

#[test]
fn should_fail_creating_user_with_existing_username() {
    let mut users_service = UsersImpl::default();

    users_service
        .create_user("username".to_owned(), "password".to_owned())
        .expect("should create user");

    let result = users_service.create_user("username".to_owned(), "password".to_owned());

    assert!(result.is_err());
    assert_eq!(result, Err(CredentialError::DuplicateUsername));
}

#[test]
fn should_retrieve_user_uuid() {
    let mut users_service = UsersImpl::default();

    users_service
        .create_user("username".to_owned(), "password".to_owned())
        .expect("should create user");

    let option = users_service.get_user_uuid("username".to_owned(), "password".to_owned());

    assert!(option.is_some());
}

#[test]
fn should_fail_to_retrieve_user_uuid_with_false_password() {
    let mut users_service = UsersImpl::default();

    users_service
        .create_user("username".to_owned(), "password".to_owned())
        .expect("should create user");

    assert!(users_service
        .get_user_uuid("username".to_owned(), "false".to_owned())
        .is_none());
}

#[test]
fn should_delete_user() {
    let mut users_service = UsersImpl::default();

    users_service
        .create_user("username".to_owned(), "password".to_owned())
        .expect("should create user");

    let user_uuid = users_service
        .get_user_uuid("username".to_owned(), "password".to_owned())
        .expect("should get user uuid");

    users_service.delete_user(user_uuid);

    assert_eq!(users_service.user_count(), 0);
}
