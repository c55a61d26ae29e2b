//! In-memory credential and session stores, and the request handler that
//! sequences them into sign-up, sign-in and sign-out.

pub mod auth;
pub mod hashing;
pub mod ids;
pub mod sessions;
pub mod users;
