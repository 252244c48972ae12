//! Which credential of a request is used, and who it authenticates.

use vstd::prelude::*;

use crate::error::AuthError;
use crate::text::{digits_value, is_i64_digits};
use crate::token::{chars_of, parse_decimal};

verus! {

/// What one source of credentials (a header, a cookie) holds.
#[derive(Debug)]
pub enum Extracted {
    /// A credential is there, with this raw value.
    Found(String),
    /// The source is not there at all.
    Absent,
    /// The source is there but cannot hold a credential.
    Malformed,
}

/// The credential chosen for a request.
#[derive(Debug)]
pub enum Credential {
    /// A token string `"<id>|<secret>"`, from the header or the token cookie.
    Token(String),
    /// The user id carried by a signed session cookie.
    Session(String),
}

/// The authenticated identity behind a request.
#[derive(Debug)]
pub enum Principal {
    Session { user_id: i64 },
    Token { user_id: i64, token_id: i64, abilities: Vec<String> },
}

pub enum PrincipalView {
    Session { user_id: i64 },
    Token { user_id: i64, token_id: i64, abilities: Seq<Seq<char>> },
}

impl View for Principal {
    type V = PrincipalView;

    open spec fn view(&self) -> PrincipalView {
        match self {
            Principal::Session { user_id } => PrincipalView::Session { user_id: *user_id },
            Principal::Token { user_id, token_id, abilities } => PrincipalView::Token {
                user_id: *user_id,
                token_id: *token_id,
                abilities: abilities.deep_view(),
            },
        }
    }
}

pub open spec fn principal_user(p: PrincipalView) -> i64 {
    match p {
        PrincipalView::Session { user_id } => user_id,
        PrincipalView::Token { user_id, .. } => user_id,
    }
}

impl Principal {
    /// The user the request acts for.
    pub fn user_id(&self) -> (r: i64)
        ensures
            r == principal_user(self@),
    {
        match self {
            Principal::Session { user_id } => *user_id,
            Principal::Token { user_id, .. } => *user_id,
        }
    }
}

/// The kinds of credential in order of precedence: the bearer header, then
/// the token cookie, then the session cookie. The first source that is
/// present decides; a present but bad one is never passed over.
pub enum Chosen {
    Token(Seq<char>),
    Session(Seq<char>),
    Rejected(AuthError),
}

pub open spec fn chosen_from(e: Extracted, as_token: bool) -> Chosen {
    match e {
        Extracted::Found(s) => if as_token {
            Chosen::Token(s@)
        } else {
            Chosen::Session(s@)
        },
        _ => Chosen::Rejected(AuthError::MalformedToken),
    }
}

pub open spec fn choice(bearer: Extracted, token_cookie: Extracted, session: Extracted) -> Chosen {
    if !(bearer is Absent) {
        chosen_from(bearer, true)
    } else if !(token_cookie is Absent) {
        chosen_from(token_cookie, true)
    } else if !(session is Absent) {
        chosen_from(session, false)
    } else {
        Chosen::Rejected(AuthError::MissingCredential)
    }
}

pub open spec fn credential_view(c: Credential) -> Chosen {
    match c {
        Credential::Token(s) => Chosen::Token(s@),
        Credential::Session(s) => Chosen::Session(s@),
    }
}

/// Picks the credential of a request by precedence. A malformed source that
/// comes first rejects the request; none at all is a missing credential.
pub fn select_credential(bearer: Extracted, token_cookie: Extracted, session: Extracted) -> (r:
    Result<Credential, AuthError>)
    ensures
        match r {
            Ok(c) => choice(bearer, token_cookie, session) == credential_view(c),
            Err(e) => choice(bearer, token_cookie, session) == Chosen::Rejected(e),
        },
{
    match bearer {
        Extracted::Found(s) => { return Ok(Credential::Token(s)) },
        Extracted::Malformed => { return Err(AuthError::MalformedToken) },
        Extracted::Absent => {},
    }
    match token_cookie {
        Extracted::Found(s) => { return Ok(Credential::Token(s)) },
        Extracted::Malformed => { return Err(AuthError::MalformedToken) },
        Extracted::Absent => {},
    }
    match session {
        Extracted::Found(s) => Ok(Credential::Session(s)),
        Extracted::Malformed => Err(AuthError::MalformedToken),
        Extracted::Absent => Err(AuthError::MissingCredential),
    }
}

/// The user id that a session cookie carries, written in decimal. Anything
/// else is a malformed credential.
pub fn resolve_session(identity: &str) -> (r: Result<i64, AuthError>)
    ensures
        r is Ok <==> is_i64_digits(identity@),
        r matches Ok(id) ==> id == digits_value(identity@),
        r matches Err(e) ==> e == AuthError::MalformedToken,
{
    let s = chars_of(identity);
    let n = s.len();
    assert(s@.subrange(0, n as int) =~= identity@);
    match parse_decimal(&s, 0, n) {
        Some(id) => Ok(id),
        None => Err(AuthError::MalformedToken),
    }
}

} // verus!
