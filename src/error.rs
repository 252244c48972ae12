//! Errors: the ones a client sees, and the finer reasons an authentication
//! attempt failed, which are kept for logs only.

use vstd::prelude::*;

verus! {

/// An error as the API reports it to a client.
#[derive(Debug, Clone)]
pub enum ServiceError {
    BadRequest(String),
    Unauthorized,
    Forbidden,
    NotFound(String),
    UnprocessableEntity(String),
    Unknown,
    InternalServerError(String),
}

/// Why an authentication attempt failed. All but the two faults are a bad or
/// missing credential; the faults are operational problems.
#[derive(Debug, Clone, Copy, PartialEq, Eq, Structural)]
pub enum AuthError {
    MalformedToken,
    TokenNotFound,
    SecretMismatch,
    Expired,
    MissingCredential,
    StorageFault,
    HashingFault,
}

pub open spec fn name_of(e: ServiceError) -> Seq<char> {
    match e {
        ServiceError::BadRequest(_) => "Bad Request"@,
        ServiceError::Unauthorized => "Unauthorized"@,
        ServiceError::Forbidden => "Forbidden"@,
        ServiceError::NotFound(_) => "Not Found"@,
        ServiceError::UnprocessableEntity(_) => "Unprocessable Entity"@,
        ServiceError::Unknown => "Unknown"@,
        ServiceError::InternalServerError(_) => "Internal Server Error"@,
    }
}

pub open spec fn status_of(e: ServiceError) -> u16 {
    match e {
        ServiceError::BadRequest(_) => 400,
        ServiceError::Unauthorized => 401,
        ServiceError::Forbidden => 403,
        ServiceError::NotFound(_) => 404,
        ServiceError::UnprocessableEntity(_) => 422,
        ServiceError::Unknown => 500,
        ServiceError::InternalServerError(_) => 500,
    }
}

pub open spec fn message_of(e: ServiceError) -> Seq<char> {
    match e {
        ServiceError::BadRequest(m) => m@,
        ServiceError::Unauthorized => "You are unauthorized."@,
        ServiceError::Forbidden => "You do not have access to the requested resource."@,
        ServiceError::NotFound(m) => m@,
        ServiceError::UnprocessableEntity(m) => m@,
        ServiceError::Unknown => "Unknown internal server error"@,
        ServiceError::InternalServerError(m) => m@,
    }
}

/// The error a client sees for each reason: a bad credential of any kind is
/// one undifferentiated `Unauthorized`; a fault is an internal error.
pub open spec fn public_error(e: AuthError) -> ServiceError {
    match e {
        AuthError::StorageFault => ServiceError::Unknown,
        AuthError::HashingFault => ServiceError::Unknown,
        _ => ServiceError::Unauthorized,
    }
}

impl ServiceError {
    /// The reason phrase of the error's status.
    pub fn name(&self) -> (r: String)
        ensures
            r@ == name_of(*self),
    {
        match self {
            ServiceError::BadRequest(_) => String::from_str("Bad Request"),
            ServiceError::Unauthorized => String::from_str("Unauthorized"),
            ServiceError::Forbidden => String::from_str("Forbidden"),
            ServiceError::NotFound(_) => String::from_str("Not Found"),
            ServiceError::UnprocessableEntity(_) => String::from_str("Unprocessable Entity"),
            ServiceError::Unknown => String::from_str("Unknown"),
            ServiceError::InternalServerError(_) => String::from_str("Internal Server Error"),
        }
    }

    /// The HTTP status code of the error.
    pub fn status_code(&self) -> (r: u16)
        ensures
            r == status_of(*self),
    {
        match self {
            ServiceError::BadRequest(_) => 400,
            ServiceError::Unauthorized => 401,
            ServiceError::Forbidden => 403,
            ServiceError::NotFound(_) => 404,
            ServiceError::UnprocessableEntity(_) => 422,
            ServiceError::Unknown => 500,
            ServiceError::InternalServerError(_) => 500,
        }
    }

    /// The human-readable message shown to the client.
    pub fn message(&self) -> (r: String)
        ensures
            r@ == message_of(*self),
    {
        match self {
            ServiceError::BadRequest(m) => m.clone(),
            ServiceError::Unauthorized => String::from_str("You are unauthorized."),
            ServiceError::Forbidden => String::from_str(
                "You do not have access to the requested resource.",
            ),
            ServiceError::NotFound(m) => m.clone(),
            ServiceError::UnprocessableEntity(m) => m.clone(),
            ServiceError::Unknown => String::from_str("Unknown internal server error"),
            ServiceError::InternalServerError(m) => m.clone(),
        }
    }
}

impl AuthError {
    /// Whether the failure is a bad credential rather than a fault.
    pub fn is_credential_failure(&self) -> (r: bool)
        ensures
            r == (public_error(*self) is Unauthorized),
    {
        match self {
            AuthError::StorageFault => false,
            AuthError::HashingFault => false,
            _ => true,
        }
    }

    /// The error reported to the client for this failure.
    pub fn to_service_error(&self) -> (r: ServiceError)
        ensures
            r == public_error(*self),
    {
        match self {
            AuthError::StorageFault => ServiceError::Unknown,
            AuthError::HashingFault => ServiceError::Unknown,
            _ => ServiceError::Unauthorized,
        }
    }
}

} // verus!
