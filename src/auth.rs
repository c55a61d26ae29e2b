//! The request handler: sign-up, sign-in and sign-out over a credential
//! store and a session store.
//!
//! The handler owns both stores; `&mut self` gives each request exclusive
//! access for its whole duration. Every domain failure becomes a `Failure`
//! status in an ordinary response: a caller cannot tell an unknown username
//! from a wrong password, nor a taken username from a hashing failure.

use vstd::prelude::*;

use crate::sessions::{without_token, Sessions};
use crate::users::{registered, verified_identity, Users};

verus! {

/// The outcome of a request, as the caller sees it.
#[derive(Debug, Clone, Copy, PartialEq, Eq, Structural)]
pub enum StatusCode {
    Success,
    Failure,
}

/// The answer to a sign-up.
pub struct SignUpResponse {
    pub status_code: StatusCode,
}

/// The answer to a sign-in: on success the user's identity and a new session
/// token, on failure two empty strings.
pub struct SignInResponse {
    pub status_code: StatusCode,
    pub user_uuid: String,
    pub session_token: String,
}

/// The answer to a sign-out.
pub struct SignOutResponse {
    pub status_code: StatusCode,
}

/// The authentication service: the credential store and the session store it
/// sequences.
pub struct AuthService<U, S> {
    users_service: U,
    sessions_service: S,
}

impl<U: Users, S: Sessions> AuthService<U, S> {
    pub closed spec fn users(&self) -> U {
        self.users_service
    }

    pub closed spec fn sessions(&self) -> S {
        self.sessions_service
    }

    /// Both stores are well formed.
    pub open spec fn wf(&self) -> bool {
        self.users().wf() && self.sessions().wf()
    }

    /// A service over the two given stores.
    pub fn new(users_service: U, sessions_service: S) -> (r: Self)
        ensures
            r.users() == users_service,
            r.sessions() == sessions_service,
    {
        AuthService { users_service, sessions_service }
    }

    /// The credential store.
    pub fn users_service(&self) -> (r: &U)
        ensures
            *r == self.users(),
    {
        &self.users_service
    }

    /// The session store.
    pub fn sessions_service(&self) -> (r: &S)
        ensures
            *r == self.sessions(),
    {
        &self.sessions_service
    }

    /// Registers `username` with `password`. `Success` exactly when a new
    /// user was filed; a taken username, like any other failure, gives
    /// `Failure` and changes nothing.
    pub fn sign_up(&mut self, username: String, password: String) -> (r: SignUpResponse)
        requires
            old(self).wf(),
        ensures
            final(self).wf(),
            final(self).sessions() == old(self).sessions(),
            old(self).users().accounts().contains_key(username@) ==> r.status_code == StatusCode::Failure,
            r.status_code == StatusCode::Success ==> registered(
                old(self).users().accounts(),
                final(self).users().accounts(),
                username@,
                password@,
            ),
            r.status_code == StatusCode::Failure ==> final(self).users().accounts() == old(self).users().accounts(),
    {
        match self.users_service.create_user(username, password) {
            Ok(()) => SignUpResponse { status_code: StatusCode::Success },
            Err(_) => SignUpResponse { status_code: StatusCode::Failure },
        }
    }

    /// Checks `username` and `password`; on success issues a new session for
    /// the user, replacing the one it had, and returns the identity and the
    /// token. On failure the response carries two empty strings and no
    /// session changes.
    pub fn sign_in(&mut self, username: String, password: String) -> (r: SignInResponse)
        requires
            old(self).wf(),
        ensures
            final(self).wf(),
            final(self).users() == old(self).users(),
            (match verified_identity(old(self).users().accounts(), username@, password@) {
                None => {
                    &&& r.status_code == StatusCode::Failure
                    &&& r.user_uuid@.len() == 0
                    &&& r.session_token@.len() == 0
                    &&& final(self).sessions() == old(self).sessions()
                },
                Some(id) => {
                    &&& r.status_code == StatusCode::Success
                    &&& r.user_uuid@ == id
                    &&& r.session_token@.len() > 0
                    &&& final(self).sessions().sessions() == old(self).sessions().sessions().insert(
                        id,
                        r.session_token@,
                    )
                },
            }),
    {
        match self.users_service.get_user_uuid(username, password) {
            None => SignInResponse {
                status_code: StatusCode::Failure,
                user_uuid: String::new(),
                session_token: String::new(),
            },
            Some(user_uuid) => {
                let session_token = self.sessions_service.create_session(user_uuid.as_str());
                SignInResponse { status_code: StatusCode::Success, user_uuid, session_token }
            },
        }
    }

    /// Revokes the session that `session_token` belongs to. Always `Success`:
    /// an unknown token is not reported.
    pub fn sign_out(&mut self, session_token: String) -> (r: SignOutResponse)
        requires
            old(self).wf(),
        ensures
            final(self).wf(),
            final(self).users() == old(self).users(),
            r.status_code == StatusCode::Success,
            final(self).sessions().sessions() == without_token(old(self).sessions().sessions(), session_token@),
    {
        self.sessions_service.delete_session(session_token.as_str());
        SignOutResponse { status_code: StatusCode::Success }
    }
}

} // verus!
