//! The three operations of the service, composed from a credential store and
//! a session store. Store errors stay typed inside; each response carries
//! only a two-valued status.

use crate::secrets::password_matches;
use crate::sessions::{install, token_in_use, SessionMap, Sessions};
use crate::users::{accepts, registered, CredentialMap, Users};
use vstd::prelude::*;

verus! {

/// The outcome of an operation, as callers see it.
#[derive(Debug, Clone, Copy, PartialEq, Eq, Structural)]
pub enum StatusCode {
    Success,
    Failure,
}

pub struct SignUpRequest {
    pub username: String,
    pub password: String,
}

pub struct SignUpResponse {
    pub status_code: StatusCode,
}

pub struct SignInRequest {
    pub username: String,
    pub password: String,
}

pub struct SignInResponse {
    pub status_code: StatusCode,
    pub user_uuid: String,
    pub session_token: String,
}

pub struct SignOutRequest {
    pub session_token: String,
}

pub struct SignOutResponse {
    pub status_code: StatusCode,
}

/// `sessions` without the session that holds `token`.
pub open spec fn revoke(sessions: SessionMap, token: Seq<char>) -> SessionMap {
    Map::new(|id: Seq<char>| sessions.contains_key(id) && sessions[id] != token, |id: Seq<char>| sessions[id])
}

/// The authentication service over a credential store and a session store.
pub struct AuthService<U: Users, S: Sessions> {
    users_service: U,
    sessions_service: S,
}

impl<U: Users, S: Sessions> AuthService<U, S> {
    /// The credentials held, by username.
    pub closed spec fn credentials(&self) -> CredentialMap {
        self.users_service.credentials()
    }

    /// The current token of each signed-in identity.
    pub closed spec fn sessions(&self) -> SessionMap {
        self.sessions_service.sessions()
    }

    /// Both stores are consistent.
    pub closed spec fn inv(&self) -> bool {
        self.users_service.inv() && self.sessions_service.inv()
    }

    pub fn new(users_service: U, sessions_service: S) -> (r: Self)
        requires
            users_service.inv(),
            sessions_service.inv(),
        ensures
            r.inv(),
            r.credentials() == users_service.credentials(),
            r.sessions() == sessions_service.sessions(),
    {
        Self { users_service, sessions_service }
    }

    /// Registers the requested username and password. Succeeds exactly when
    /// a new credential was stored; a failure changes nothing.
    pub fn sign_up(&mut self, request: SignUpRequest) -> (r: SignUpResponse)
        requires
            old(self).inv(),
        ensures
            final(self).inv(),
            (r.status_code == StatusCode::Success) <==> registered(
                old(self).credentials(),
                final(self).credentials(),
                request.username@,
                request.password@,
            ),
            r.status_code == StatusCode::Failure ==> final(self).credentials() == old(self).credentials(),
            old(self).credentials().contains_key(request.username@) ==> r.status_code == StatusCode::Failure,
            final(self).sessions() == old(self).sessions(),
    {
        let result = self.users_service.create_user(request.username, request.password);
        match result {
            Ok(()) => SignUpResponse { status_code: StatusCode::Success },
            Err(_) => SignUpResponse { status_code: StatusCode::Failure },
        }
    }

    /// Exchanges a username and password for a new session. On success the
    /// response carries the identity and its fresh token, which replaces the
    /// identity's earlier one; on failure both are empty and nothing changes.
    pub fn sign_in(&mut self, request: SignInRequest) -> (r: SignInResponse)
        requires
            old(self).inv(),
        ensures
            final(self).inv(),
            final(self).credentials() == old(self).credentials(),
            (r.status_code == StatusCode::Success) <==> accepts(old(self).credentials(), request.username@, request.password@),
            r.status_code == StatusCode::Success ==> {
                &&& r.user_uuid@ == old(self).credentials()[request.username@].0
                &&& r.session_token@.len() > 0
                &&& final(self).sessions() == install(old(self).sessions(), r.user_uuid@, r.session_token@)
            },
            r.status_code == StatusCode::Failure ==> {
                &&& r.user_uuid@ == Seq::<char>::empty()
                &&& r.session_token@ == Seq::<char>::empty()
                &&& final(self).sessions() == old(self).sessions()
            },
    {
        let result = self.users_service.get_user_uuid(request.username, request.password);
        let user_uuid = match result {
            Some(uuid) => uuid,
            None => {
                return SignInResponse {
                    status_code: StatusCode::Failure,
                    user_uuid: String::new(),
                    session_token: String::new(),
                };
            },
        };
        let session_token = self.sessions_service.create_session(user_uuid.as_str());
        SignInResponse { status_code: StatusCode::Success, user_uuid, session_token }
    }

    /// Ends the session that holds the requested token. Fails, changing
    /// nothing, when no session holds it.
    pub fn sign_out(&mut self, request: SignOutRequest) -> (r: SignOutResponse)
        requires
            old(self).inv(),
        ensures
            final(self).inv(),
            final(self).credentials() == old(self).credentials(),
            (r.status_code == StatusCode::Success) <==> token_in_use(old(self).sessions(), request.session_token@),
            r.status_code == StatusCode::Success ==> final(self).sessions() == revoke(old(self).sessions(), request.session_token@),
            r.status_code == StatusCode::Failure ==> final(self).sessions() == old(self).sessions(),
    {
        match self.sessions_service.identity_of(request.session_token.as_str()) {
            Some(user_uuid) => {
                proof {
                    self.sessions_service.lemma_tokens_unique();
                }
                self.sessions_service.delete_session(user_uuid.as_str());
                proof {
                    let m = old(self).sessions();
                    assert(self.sessions() =~= revoke(m, request.session_token@)) by {
                        assert forall|id: Seq<char>| m.contains_key(id) && m[id] == request.session_token@ implies id == user_uuid@ by {}
                    }
                }
                SignOutResponse { status_code: StatusCode::Success }
            },
            None => SignOutResponse { status_code: StatusCode::Failure },
        }
    }
}


/// Once `username` is registered with `password`, registering it again
/// cannot succeed, and signing in with `password` is accepted.
pub proof fn lemma_sign_up_then_sign_in(
    before: CredentialMap,
    after: CredentialMap,
    username: Seq<char>,
    password: Seq<char>,
)
    requires
        registered(before, after, username, password),
    ensures
        after.contains_key(username),
        forall|later: CredentialMap| !registered(after, later, username, password),
        accepts(after, username, password),
{
}

/// Of any number of registrations of one username, at most one succeeds,
/// whatever passwords they carry.
pub proof fn lemma_username_registered_once(
    before: CredentialMap,
    after: CredentialMap,
    later: CredentialMap,
    username: Seq<char>,
    password: Seq<char>,
    other_password: Seq<char>,
)
    requires
        registered(before, after, username, password),
    ensures
        !registered(after, later, username, other_password),
{
}

/// After `username` is registered with `password`, another password is
/// accepted only if it verifies against the hash stored for `password`.
pub proof fn lemma_other_password_needs_matching_hash(
    before: CredentialMap,
    after: CredentialMap,
    username: Seq<char>,
    password: Seq<char>,
    other_password: Seq<char>,
)
    requires
        registered(before, after, username, password),
    ensures
        accepts(after, username, other_password) <==> password_matches(other_password, after[username].1),
{
}

/// A username that is not registered is never accepted.
pub proof fn lemma_unknown_username_rejected(creds: CredentialMap, username: Seq<char>, password: Seq<char>)
    requires
        !creds.contains_key(username),
    ensures
        !accepts(creds, username, password),
{
}

/// When an identity signs in twice and gets two different tokens, the first
/// token no longer names a session and the second does.
pub proof fn lemma_second_sign_in_revokes_first(
    sessions: SessionMap,
    identity: Seq<char>,
    first: Seq<char>,
    second: Seq<char>,
)
    requires
        first != second,
    ensures
        !token_in_use(install(install(sessions, identity, first), identity, second), first),
        token_in_use(install(install(sessions, identity, first), identity, second), second),
        install(install(sessions, identity, first), identity, second)[identity] == second,
{
    let after = install(install(sessions, identity, first), identity, second);
    assert(after.contains_key(identity) && after[identity] == second);
}

} // verus!
