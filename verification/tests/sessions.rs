use auth_service::sessions::{Sessions, SessionsImpl};

#[test]
fn should_create_session() {
    let mut sessions_service = SessionsImpl::default();
    assert_eq!(sessions_service.session_count(), 0);

    let session = sessions_service.create_session("123");
    assert_eq!(sessions_service.session_count(), 1);
    assert_eq!(sessions_service.latest_token("123").unwrap(), &session);
}

#[test]
fn should_delete_session() {
    let mut sessions_service = SessionsImpl::default();

    let session_token = sessions_service.create_session("123");
    assert_eq!(sessions_service.session_count(), 1);

    sessions_service.delete_session(&session_token);
    assert_eq!(sessions_service.session_count(), 0);
}
