use auth_service::ids::random_id;
use auth_service::sessions::{Sessions, SessionsImpl};

#[test]
fn should_create_session() {
    let mut session_service = SessionsImpl::default();
    assert_eq!(session_service.session_count(), 0);
    let session = session_service.create_session("123456");
    assert_eq!(session_service.session_count(), 1);
    assert_eq!(session_service.session_of("123456").unwrap(), session);
}

#[test]
fn should_delete_session() {
    let mut session_service = SessionsImpl::default();
    // sessions are revoked by the token that was issued
    let session = session_service.create_session("123456");
    session_service.delete_session(&session);
    assert_eq!(session_service.session_count(), 0);
}

#[test]
fn reissuing_replaces_the_earlier_token() {
    let mut sessions = SessionsImpl::new();
    let first = sessions.create_session("id");
    let second = sessions.create_session("id");
    assert_ne!(first, second);
    assert_eq!(sessions.session_count(), 1);
    assert_eq!(sessions.session_of("id"), Some(second.clone()));
    sessions.delete_session(&first);
    assert_eq!(sessions.session_of("id"), Some(second.clone()));
    sessions.delete_session(&second);
    assert_eq!(sessions.session_of("id"), None);
}

#[test]
fn deleting_twice_or_an_unknown_token_is_harmless() {
    let mut sessions = SessionsImpl::new();
    sessions.delete_session("never-issued");
    assert_eq!(sessions.session_count(), 0);
    let t = sessions.create_session("a");
    let u = sessions.create_session("b");
    sessions.delete_session(&t);
    sessions.delete_session(&t);
    sessions.delete_session("never-issued");
    assert_eq!(sessions.session_count(), 1);
    assert_eq!(sessions.session_of("b"), Some(u));
    assert_eq!(sessions.session_of("a"), None);
}

#[test]
fn deleting_by_identity_revokes_nothing() {
    let mut sessions = SessionsImpl::new();
    let t = sessions.create_session("123456");
    sessions.delete_session("123456");
    assert_eq!(sessions.session_of("123456"), Some(t));
}

#[test]
fn insert_session_files_the_given_token() {
    let mut sessions = SessionsImpl::new();
    sessions.insert_session("x".to_owned(), "t1".to_owned());
    sessions.insert_session("y".to_owned(), "t1".to_owned());
    sessions.insert_session("x".to_owned(), "t2".to_owned());
    assert_eq!(sessions.session_of("x"), Some("t2".to_owned()));
    assert_eq!(sessions.session_count(), 2);
    // every session holding the token is revoked
    sessions.insert_session("x".to_owned(), "t1".to_owned());
    sessions.delete_session("t1");
    assert_eq!(sessions.session_count(), 0);
}

#[test]
fn random_ids_are_hyphenated_and_differ() {
    let a = random_id();
    let b = random_id();
    assert_eq!(a.len(), 36);
    assert_eq!(b.len(), 36);
    assert_ne!(a, b);
}
