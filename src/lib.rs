//! Personal access tokens and session cookies for a web API: issuing,
//! storing, verifying and revoking bearer tokens, and resolving each request
//! to an authenticated principal.

pub mod clock;
pub mod config;
pub mod error;
pub mod expiry;
pub mod guard;
pub mod hash;
pub mod random;
pub mod requests;
pub mod service;
pub mod store;
pub mod text;
pub mod token;
