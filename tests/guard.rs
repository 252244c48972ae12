use token_auth::config::Config;
use token_auth::error::AuthError;
use token_auth::guard::{resolve_session, select_credential, Credential, Extracted};

fn found(s: &str) -> Extracted {
    Extracted::Found(s.to_string())
}

#[test]
fn bearer_comes_first() {
    match select_credential(found("1|a"), found("2|b"), found("3")).unwrap() {
        Credential::Token(s) => assert_eq!(s, "1|a"),
        other => panic!("unexpected {:?}", other),
    }
    match select_credential(Extracted::Absent, found("2|b"), found("3")).unwrap() {
        Credential::Token(s) => assert_eq!(s, "2|b"),
        other => panic!("unexpected {:?}", other),
    }
    match select_credential(Extracted::Absent, Extracted::Absent, found("3")).unwrap() {
        Credential::Session(s) => assert_eq!(s, "3"),
        other => panic!("unexpected {:?}", other),
    }
}

#[test]
fn malformed_source_stops_the_search() {
    let e = select_credential(Extracted::Malformed, found("2|b"), found("3")).unwrap_err();
    assert_eq!(e, AuthError::MalformedToken);
    let e = select_credential(Extracted::Absent, Extracted::Malformed, found("3")).unwrap_err();
    assert_eq!(e, AuthError::MalformedToken);
}

#[test]
fn nothing_present_is_missing_credential() {
    let e = select_credential(Extracted::Absent, Extracted::Absent, Extracted::Absent).unwrap_err();
    assert_eq!(e, AuthError::MissingCredential);
}

#[test]
fn session_identity_is_a_decimal_user_id() {
    assert_eq!(resolve_session("42"), Ok(42));
    assert_eq!(resolve_session("0"), Ok(0));
    assert_eq!(resolve_session(""), Err(AuthError::MalformedToken));
    assert_eq!(resolve_session("-1"), Err(AuthError::MalformedToken));
    assert_eq!(resolve_session("99999999999999999999"), Err(AuthError::MalformedToken));
}

fn config(origins: &[&str], methods: &[&str], ttl: Option<i64>) -> Config {
    Config {
        app_key: "k".to_string(),
        app_domain: "localhost".to_string(),
        app_port: "8080".to_string(),
        app_address: "127.0.0.1".to_string(),
        app_secure: false,
        app_debug: false,
        cors_methods: methods.iter().map(|s| s.to_string()).collect(),
        cors_origins: origins.iter().map(|s| s.to_string()).collect(),
        cors_credentials: false,
        db_url: "postgres://localhost/db".to_string(),
        token_ttl: ttl,
        token_refresh: true,
    }
}

#[test]
fn origins_match_by_suffix() {
    let c = config(&["example.com", "localhost"], &["GET"], None);
    assert!(c.origin_allowed("https://app.example.com"));
    assert!(c.origin_allowed("http://localhost"));
    assert!(!c.origin_allowed("https://example.org"));
    assert!(!c.origin_allowed("com"));
    assert!(!c.any_cors_origin());
    assert!(!c.any_cors_method());
    let any = config(&["*"], &["*"], None);
    assert!(any.any_cors_origin());
    assert!(any.any_cors_method());
    let two = config(&["*", "x"], &["**"], None);
    assert!(!two.any_cors_origin());
    assert!(!two.any_cors_method());
}

#[test]
fn config_builds_policy_and_hasher() {
    let c = config(&[], &[], Some(5));
    let p = c.expiry_policy();
    assert_eq!(p.ttl, Some(300));
    assert!(p.refresh);
    assert_eq!(c.hasher().key, "k");
}
