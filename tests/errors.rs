use token_auth::error::{AuthError, ServiceError};

#[test]
fn names_and_status_codes() {
    let cases = [
        (ServiceError::BadRequest("b".to_string()), "Bad Request", 400u16, "b"),
        (ServiceError::Unauthorized, "Unauthorized", 401, "You are unauthorized."),
        (
            ServiceError::Forbidden,
            "Forbidden",
            403,
            "You do not have access to the requested resource.",
        ),
        (ServiceError::NotFound("n".to_string()), "Not Found", 404, "n"),
        (ServiceError::UnprocessableEntity("u".to_string()), "Unprocessable Entity", 422, "u"),
        (ServiceError::Unknown, "Unknown", 500, "Unknown internal server error"),
        (ServiceError::InternalServerError("i".to_string()), "Internal Server Error", 500, "i"),
    ];
    for (e, name, code, message) in cases {
        assert_eq!(e.name(), name);
        assert_eq!(e.status_code(), code);
        assert_eq!(e.message(), message);
    }
}

#[test]
fn bad_credentials_collapse_to_unauthorized() {
    for e in [
        AuthError::MalformedToken,
        AuthError::TokenNotFound,
        AuthError::SecretMismatch,
        AuthError::Expired,
        AuthError::MissingCredential,
    ] {
        assert!(matches!(e.to_service_error(), ServiceError::Unauthorized));
        assert!(e.is_credential_failure());
    }
}

#[test]
fn faults_are_internal_errors() {
    for e in [AuthError::StorageFault, AuthError::HashingFault] {
        assert!(matches!(e.to_service_error(), ServiceError::Unknown));
        assert_eq!(e.to_service_error().status_code(), 500);
        assert!(!e.is_credential_failure());
    }
}
