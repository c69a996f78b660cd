//! An authentication service: a credential store, a session store, and the
//! three operations (sign up, sign in, sign out) composed from them.

pub mod auth;
pub mod secrets;
pub mod sessions;
pub mod users;
