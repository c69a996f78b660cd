use auth_service::users::{CreateError, Users, UsersImpl};

#[test]
fn should_create_user() {
    let mut service = UsersImpl::default();
    service
        .create_user("username".to_string(), "password".to_string())
        .expect("should create user");

    assert!(service
        .get_user_uuid("username".to_string(), "password".to_string())
        .is_some());
}

#[test]
fn should_fail_creating_user_with_existing_username() {
    let mut service = UsersImpl::default();
    service
        .create_user("username".to_string(), "password".to_string())
        .expect("should create user");

    let result = service.create_user("username".to_string(), "password".to_string());

    assert!(result.is_err());
}

#[test]
fn should_fail_to_retrieve_user_uuid_with_incorrect_password() {
    let mut service = UsersImpl::default();
    service
        .create_user("username".to_string(), "password".to_string())
        .expect("should create user");

    assert!(service
        .get_user_uuid("username".to_string(), "incorrect password".to_string())
        .is_none());
}

#[test]
fn should_retrieve_user_uuid() {
    let mut service = UsersImpl::default();
    service
        .create_user("username".to_string(), "password".to_string())
        .expect("should create user");

    assert!(service
        .get_user_uuid("username".to_string(), "password".to_string())
        .is_some());
}

#[test]
fn should_delete_user() {
    let mut service = UsersImpl::default();
    service
        .create_user("username".to_string(), "password".to_string())
        .expect("should create user");

    let user_uuid = service
        .get_user_uuid("username".to_string(), "password".to_string())
        .unwrap();

    service.delete_user(user_uuid);

    assert_eq!(service.len(), 0);
    assert!(service.is_empty());
}

#[test]
fn duplicate_username_is_reported_as_taken() {
    let mut service = UsersImpl::default();
    assert_eq!(service.create_user("u".to_string(), "p".to_string()), Ok(()));
    assert_eq!(
        service.create_user("u".to_string(), "other".to_string()),
        Err(CreateError::UsernameTaken)
    );
    assert_eq!(service.len(), 1);
}

#[test]
fn usernames_are_case_sensitive() {
    let mut service = UsersImpl::default();
    assert_eq!(service.create_user("Alice".to_string(), "p".to_string()), Ok(()));
    assert_eq!(service.create_user("alice".to_string(), "p".to_string()), Ok(()));
    assert_eq!(service.len(), 2);
    let a = service.get_user_uuid("Alice".to_string(), "p".to_string()).unwrap();
    let b = service.get_user_uuid("alice".to_string(), "p".to_string()).unwrap();
    assert_ne!(a, b);
}

#[test]
fn round_trip_alice() {
    let mut service = UsersImpl::default();
    assert_eq!(service.create_user("alice".to_string(), "s3cr3t".to_string()), Ok(()));
    let identity = service.get_user_uuid("alice".to_string(), "s3cr3t".to_string());
    assert!(identity.is_some());
    assert!(!identity.unwrap().is_empty());
    assert!(service.get_user_uuid("alice".to_string(), "wrong".to_string()).is_none());
}

#[test]
fn identity_is_a_hyphenated_uuid() {
    let mut service = UsersImpl::default();
    service.create_user("u".to_string(), "p".to_string()).unwrap();
    let identity = service.get_user_uuid("u".to_string(), "p".to_string()).unwrap();
    assert_eq!(identity.len(), 36);
    assert_eq!(identity.matches('-').count(), 4);
}

#[test]
fn unknown_username_is_not_authenticated() {
    let service = UsersImpl::default();
    assert!(service.get_user_uuid("nobody".to_string(), "p".to_string()).is_none());
}

#[test]
fn insert_credential_rejects_taken_username_and_reused_identity() {
    let mut service = UsersImpl::default();
    assert_eq!(
        service.insert_credential("a".to_string(), "id-1".to_string(), "h".to_string()),
        Ok(())
    );
    assert_eq!(
        service.insert_credential("a".to_string(), "id-2".to_string(), "h".to_string()),
        Err(CreateError::UsernameTaken)
    );
    assert_eq!(
        service.insert_credential("b".to_string(), "id-1".to_string(), "h".to_string()),
        Err(CreateError::IdentityCollision)
    );
    assert_eq!(service.len(), 1);
}

#[test]
fn deleted_identity_is_never_reused() {
    let mut service = UsersImpl::default();
    service
        .insert_credential("a".to_string(), "id-1".to_string(), "h".to_string())
        .unwrap();
    service.delete_user("id-1".to_string());
    assert!(service.is_empty());
    assert_eq!(
        service.insert_credential("b".to_string(), "id-1".to_string(), "h".to_string()),
        Err(CreateError::IdentityCollision)
    );
}

#[test]
fn deleting_unknown_identity_is_a_no_op() {
    let mut service = UsersImpl::default();
    service.create_user("u".to_string(), "p".to_string()).unwrap();
    service.delete_user("not-an-identity".to_string());
    assert_eq!(service.len(), 1);
    assert!(service.get_user_uuid("u".to_string(), "p".to_string()).is_some());
}

#[test]
fn stored_hash_is_not_the_password() {
    let mut service = UsersImpl::default();
    service
        .insert_credential("u".to_string(), "id".to_string(), "p".to_string())
        .unwrap();
    // A plain password is not a PHC hash string, so it verifies nothing.
    assert!(service.get_user_uuid("u".to_string(), "p".to_string()).is_none());
}
