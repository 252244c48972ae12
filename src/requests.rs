//! The bodies of login and registration requests.

use vstd::prelude::*;

verus! {

/// A request for a token: the account's credentials and a device name for
/// the token.
#[derive(Debug)]
pub struct TokenLogin {
    pub email: String,
    pub password: String,
    pub device: String,
}

/// A request to start a cookie session.
#[derive(Debug)]
pub struct LoginRequest {
    pub email: String,
    pub password: String,
}

/// A request to register an account.
#[derive(Debug)]
pub struct CreateUser {
    pub email: String,
    pub password: String,
    pub full_name: String,
}

} // verus!
