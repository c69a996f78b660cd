use auth_service::auth::{
    AuthService, SignInRequest, SignOutRequest, SignUpRequest, StatusCode,
};
use auth_service::sessions::SessionsImpl;
use auth_service::users::{Users, UsersImpl};

fn sign_in(
    service: &mut AuthService<UsersImpl, SessionsImpl>,
    username: &str,
    password: &str,
) -> auth_service::auth::SignInResponse {
    service.sign_in(SignInRequest {
        username: username.to_string(),
        password: password.to_string(),
    })
}

fn sign_up(
    service: &mut AuthService<UsersImpl, SessionsImpl>,
    username: &str,
    password: &str,
) -> StatusCode {
    service
        .sign_up(SignUpRequest {
            username: username.to_string(),
            password: password.to_string(),
        })
        .status_code
}

fn sign_out(service: &mut AuthService<UsersImpl, SessionsImpl>, token: &str) -> StatusCode {
    service
        .sign_out(SignOutRequest {
            session_token: token.to_string(),
        })
        .status_code
}

#[test]
fn sign_in_should_fail_if_user_not_found() {
    let users_service = UsersImpl::default();
    let sessions_service = SessionsImpl::default();
    let mut auth_service = AuthService::new(users_service, sessions_service);

    let request = SignInRequest {
        username: "username".to_string(),
        password: "password".to_string(),
    };

    let result = auth_service.sign_in(request);

    assert_eq!(result.status_code, StatusCode::Failure);
    assert!(result.user_uuid.is_empty());
    assert!(result.session_token.is_empty());
}

#[test]
fn sign_in_should_fail_if_incorrect_password() {
    let mut users_service = UsersImpl::default();
    let _ = users_service.create_user("username".to_string(), "password".to_string());

    let sessions_service = SessionsImpl::default();
    let mut auth_srvice = AuthService::new(users_service, sessions_service);

    let request = SignInRequest {
        username: "username".to_string(),
        password: "wrong password".to_string(),
    };

    let result = auth_srvice.sign_in(request);

    assert_eq!(result.status_code, StatusCode::Failure);
    assert!(result.user_uuid.is_empty());
    assert!(result.session_token.is_empty());
}

#[test]
fn sign_in_should_succeed() {
    let (username, password) = ("username".to_string(), "password".to_string());
    let mut users_service = UsersImpl::default();
    let _ = users_service.create_user(username.clone(), password.clone());

    let sessions_service = SessionsImpl::default();
    let mut auth_service = AuthService::new(users_service, sessions_service);

    let request = SignInRequest { username, password };

    let result = auth_service.sign_in(request);

    assert_eq!(result.status_code, StatusCode::Success);
    assert!(!result.user_uuid.is_empty());
    assert!(!result.session_token.is_empty());
}

#[test]
fn sign_up_should_fail_if_username_exists() {
    let (username, password) = ("username".to_string(), "password".to_string());
    let mut users_service = UsersImpl::default();
    let _ = users_service.create_user(username.clone(), password.clone());

    let sessions_service = SessionsImpl::default();
    let mut auth_service = AuthService::new(users_service, sessions_service);

    let request = SignUpRequest { username, password };

    let result = auth_service.sign_up(request);

    assert_eq!(result.status_code, StatusCode::Failure);
}

#[test]
fn sign_up_should_succeed() {
    let users_service = UsersImpl::default();
    let sessions_service = SessionsImpl::default();
    let mut auth_service = AuthService::new(users_service, sessions_service);

    let request = SignUpRequest {
        username: "username".to_string(),
        password: "password".to_string(),
    };

    let result = auth_service.sign_up(request);

    assert_eq!(result.status_code, StatusCode::Success);
}

fn fresh_service() -> AuthService<UsersImpl, SessionsImpl> {
    AuthService::new(UsersImpl::default(), SessionsImpl::default())
}

#[test]
fn sign_up_twice_fails_and_sign_in_succeeds() {
    let mut service = fresh_service();
    assert_eq!(sign_up(&mut service, "u", "p"), StatusCode::Success);
    assert_eq!(sign_up(&mut service, "u", "p"), StatusCode::Failure);
    let r = sign_in(&mut service, "u", "p");
    assert_eq!(r.status_code, StatusCode::Success);
    assert_eq!(r.user_uuid.len(), 36);
}

#[test]
fn sign_in_with_other_password_fails() {
    let mut service = fresh_service();
    assert_eq!(sign_up(&mut service, "u", "p"), StatusCode::Success);
    let r = sign_in(&mut service, "u", "other");
    assert_eq!(r.status_code, StatusCode::Failure);
    assert_eq!(r.user_uuid, "");
    assert_eq!(r.session_token, "");
}

#[test]
fn sign_in_with_unregistered_username_fails() {
    let mut service = fresh_service();
    assert_eq!(sign_up(&mut service, "u", "p"), StatusCode::Success);
    let r = sign_in(&mut service, "v", "p");
    assert_eq!(r.status_code, StatusCode::Failure);
    assert_eq!(r.user_uuid, "");
    assert_eq!(r.session_token, "");
}

#[test]
fn second_sign_in_invalidates_the_first_token() {
    let mut service = fresh_service();
    assert_eq!(sign_up(&mut service, "u", "p"), StatusCode::Success);
    let first = sign_in(&mut service, "u", "p");
    let second = sign_in(&mut service, "u", "p");
    assert_eq!(first.status_code, StatusCode::Success);
    assert_eq!(second.status_code, StatusCode::Success);
    assert_eq!(first.user_uuid, second.user_uuid);
    assert_ne!(first.session_token, second.session_token);
    assert_eq!(sign_out(&mut service, &first.session_token), StatusCode::Failure);
    assert_eq!(sign_out(&mut service, &second.session_token), StatusCode::Success);
    assert_eq!(sign_out(&mut service, &second.session_token), StatusCode::Failure);
}

#[test]
fn repeated_sign_up_of_one_username_succeeds_once() {
    let mut users = UsersImpl::default();
    let mut successes = 0;
    let mut taken = 0;
    for _ in 0..8 {
        match users.create_user("u".to_string(), "p".to_string()) {
            Ok(()) => successes += 1,
            Err(auth_service::users::CreateError::UsernameTaken) => taken += 1,
            Err(e) => panic!("unexpected error {:?}", e),
        }
    }
    assert_eq!(successes, 1);
    assert_eq!(taken, 7);
    assert_eq!(users.len(), 1);
}

#[test]
fn sign_out_with_unknown_token_fails_and_keeps_sessions() {
    let mut service = fresh_service();
    assert_eq!(sign_up(&mut service, "a", "pa"), StatusCode::Success);
    assert_eq!(sign_up(&mut service, "b", "pb"), StatusCode::Success);
    let ta = sign_in(&mut service, "a", "pa").session_token;
    let tb = sign_in(&mut service, "b", "pb").session_token;
    assert_eq!(sign_out(&mut service, "no-such-token"), StatusCode::Failure);
    assert_eq!(sign_out(&mut service, ""), StatusCode::Failure);
    assert_eq!(sign_out(&mut service, &ta), StatusCode::Success);
    assert_eq!(sign_out(&mut service, &tb), StatusCode::Success);
}

#[test]
fn sign_out_on_empty_service_fails() {
    let mut service = fresh_service();
    assert_eq!(sign_out(&mut service, ""), StatusCode::Failure);
}
