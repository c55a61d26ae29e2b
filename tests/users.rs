use auth_service::users::{UserError, Users, UsersImpl};

#[test]
fn should_create_user() {
    let mut user_service = UsersImpl::default();
    user_service
        .create_user("username".to_owned(), "password".to_owned())
        .expect("should create user");

    assert_eq!(user_service.user_count(), 1);
    assert!(user_service
        .get_user_uuid("username".to_owned(), "password".to_owned())
        .is_some());
}

#[test]
fn should_fail_creating_user_with_existing_username() {
    let mut user_service = UsersImpl::default();
    user_service
        .create_user("username".to_owned(), "password".to_owned())
        .expect("should create user");

    let result = user_service.create_user("username".to_owned(), "password".to_owned());

    assert!(result.is_err());
}

#[test]
fn should_retrieve_user_uuid() {
    let mut user_service = UsersImpl::default();
    user_service
        .create_user("username".to_owned(), "password".to_owned())
        .expect("should create user");

    assert!(user_service
        .get_user_uuid("username".to_owned(), "password".to_owned())
        .is_some());
}

#[test]
fn should_fail_to_retrieve_user_uuid_with_incorrect_password() {
    let mut user_service = UsersImpl::default();
    user_service
        .create_user("username".to_owned(), "password".to_owned())
        .expect("should create user");

    assert!(user_service
        .get_user_uuid("username".to_owned(), "incorrect password".to_owned())
        .is_none());
}

#[test]
fn should_delete_user() {
    let mut user_service = UsersImpl::default();
    user_service
        .create_user("username".to_owned(), "password".to_owned())
        .expect("should create user");

    let user_uuid = user_service
        .get_user_uuid("username".to_owned(), "password".to_owned())
        .unwrap();

    user_service.delete_user(user_uuid);

    assert_eq!(user_service.user_count(), 0);
    assert!(user_service
        .get_user_uuid("username".to_owned(), "password".to_owned())
        .is_none());
}

#[test]
fn new_user_signs_in_with_a_hyphenated_identity() {
    let mut users = UsersImpl::new();
    assert_eq!(users.create_user("carol".to_owned(), "pw".to_owned()), Ok(()));
    let id = users.get_user_uuid("carol".to_owned(), "pw".to_owned()).unwrap();
    assert_eq!(id.len(), 36);
    assert_eq!(id.matches('-').count(), 4);
}

#[test]
fn duplicate_username_keeps_the_record_count_and_the_first_password() {
    let mut users = UsersImpl::new();
    users.create_user("bob".to_owned(), "p1".to_owned()).unwrap();
    let first = users.get_user_uuid("bob".to_owned(), "p1".to_owned()).unwrap();
    assert_eq!(
        users.create_user("bob".to_owned(), "p2".to_owned()),
        Err(UserError::DuplicateUsername)
    );
    assert_eq!(users.user_count(), 1);
    assert_eq!(users.get_user_uuid("bob".to_owned(), "p1".to_owned()), Some(first));
    assert_eq!(users.get_user_uuid("bob".to_owned(), "p2".to_owned()), None);
}

#[test]
fn usernames_are_case_sensitive() {
    let mut users = UsersImpl::new();
    users.create_user("Dave".to_owned(), "pw".to_owned()).unwrap();
    assert_eq!(users.create_user("dave".to_owned(), "pw".to_owned()), Ok(()));
    assert_eq!(users.user_count(), 2);
    let a = users.get_user_uuid("Dave".to_owned(), "pw".to_owned()).unwrap();
    let b = users.get_user_uuid("dave".to_owned(), "pw".to_owned()).unwrap();
    assert_ne!(a, b);
}

#[test]
fn unknown_username_does_not_sign_in() {
    let users = UsersImpl::new();
    assert_eq!(users.get_user_uuid("nobody".to_owned(), "pw".to_owned()), None);
}

#[test]
fn deleting_an_unknown_identity_changes_nothing() {
    let mut users = UsersImpl::new();
    users.create_user("erin".to_owned(), "pw".to_owned()).unwrap();
    users.delete_user("no-such-identity".to_owned());
    users.delete_user("no-such-identity".to_owned());
    assert_eq!(users.user_count(), 1);
    assert!(users.get_user_uuid("erin".to_owned(), "pw".to_owned()).is_some());
}

#[test]
fn insert_user_refuses_taken_username_then_taken_identity() {
    let mut users = UsersImpl::new();
    assert_eq!(
        users.insert_user("a".to_owned(), "id-1".to_owned(), "h".to_owned()),
        Ok(())
    );
    assert_eq!(
        users.insert_user("a".to_owned(), "id-2".to_owned(), "h".to_owned()),
        Err(UserError::DuplicateUsername)
    );
    assert_eq!(
        users.insert_user("b".to_owned(), "id-1".to_owned(), "h".to_owned()),
        Err(UserError::IdentityTaken)
    );
    assert_eq!(users.user_count(), 1);
}

#[test]
fn a_stored_hash_that_does_not_parse_fails_verification() {
    let mut users = UsersImpl::new();
    users
        .insert_user("f".to_owned(), "id-f".to_owned(), "not a phc string".to_owned())
        .unwrap();
    assert_eq!(users.get_user_uuid("f".to_owned(), "not a phc string".to_owned()), None);
}

#[test]
fn the_stored_hash_is_not_the_password() {
    let mut users = UsersImpl::new();
    users
        .insert_user("g".to_owned(), "id-g".to_owned(), "pw".to_owned())
        .unwrap();
    // a record holding the plain password does not verify it
    assert_eq!(users.get_user_uuid("g".to_owned(), "pw".to_owned()), None);
    users.create_user("h".to_owned(), "pw".to_owned()).unwrap();
    assert!(users.get_user_uuid("h".to_owned(), "pw".to_owned()).is_some());
}
