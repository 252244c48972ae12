use token_auth::error::AuthError;
use token_auth::token::TransientToken;

fn parse(s: &str) -> Result<TransientToken, AuthError> {
    TransientToken::parse(s.to_string())
}

#[test]
fn parse_splits_id_and_secret() {
    let t = parse("42|abcDEF123").unwrap();
    assert_eq!(t.id, 42);
    assert_eq!(t.secret, "abcDEF123");
}

#[test]
fn parse_accepts_zero_id() {
    let t = parse("0|x").unwrap();
    assert_eq!(t.id, 0);
    assert_eq!(t.secret, "x");
}

#[test]
fn parse_accepts_largest_id() {
    let t = parse("9223372036854775807|s").unwrap();
    assert_eq!(t.id, i64::MAX);
}

#[test]
fn parse_rejects_id_beyond_i64() {
    assert_eq!(parse("9223372036854775808|s").unwrap_err(), AuthError::MalformedToken);
}

#[test]
fn parse_rejects_missing_delimiter() {
    assert_eq!(parse("42abc").unwrap_err(), AuthError::MalformedToken);
    assert_eq!(parse("").unwrap_err(), AuthError::MalformedToken);
}

#[test]
fn parse_rejects_two_delimiters() {
    assert_eq!(parse("4|2|abc").unwrap_err(), AuthError::MalformedToken);
    assert_eq!(parse("42|abc|").unwrap_err(), AuthError::MalformedToken);
}

#[test]
fn parse_rejects_non_numeric_id() {
    assert_eq!(parse("notanumber|xyz").unwrap_err(), AuthError::MalformedToken);
    assert_eq!(parse("-5|xyz").unwrap_err(), AuthError::MalformedToken);
    assert_eq!(parse("+5|xyz").unwrap_err(), AuthError::MalformedToken);
    assert_eq!(parse("|xyz").unwrap_err(), AuthError::MalformedToken);
    assert_eq!(parse("4 2|xyz").unwrap_err(), AuthError::MalformedToken);
}

#[test]
fn parse_rejects_empty_secret() {
    assert_eq!(parse("42|").unwrap_err(), AuthError::MalformedToken);
}

#[test]
fn parse_keeps_non_ascii_secret() {
    let t = parse("7|héllo✓").unwrap();
    assert_eq!(t.id, 7);
    assert_eq!(t.secret, "héllo✓");
}

#[test]
fn format_writes_id_bar_secret() {
    let t = TransientToken { id: 1234567890, secret: "s3cr3t".to_string() };
    assert_eq!(t.to_string(), "1234567890|s3cr3t");
    let z = TransientToken { id: 0, secret: "a".to_string() };
    assert_eq!(z.to_string(), "0|a");
    let n = TransientToken { id: -17, secret: "a".to_string() };
    assert_eq!(n.to_string(), "-17|a");
    let m = TransientToken { id: i64::MIN, secret: "a".to_string() };
    assert_eq!(m.to_string(), "-9223372036854775808|a");
}

#[test]
fn format_then_parse_round_trip() {
    for s in ["1|a", "42|abcdefghijklmnopqrstuvwxyz0123456789ABCDEFGHIJKLMNOPQRSTUVWXYZab", "9223372036854775807|zz", "0|é"] {
        let t = parse(s).unwrap();
        assert_eq!(t.to_string(), s);
    }
}

#[test]
fn leading_zero_id_is_read_but_not_kept() {
    let t = parse("007|abc").unwrap();
    assert_eq!(t.id, 7);
    assert_eq!(t.to_string(), "7|abc");
}

#[test]
fn token_type_is_bearer() {
    let t = TransientToken { id: 1, secret: "x".to_string() };
    assert_eq!(t.get_type(), "bearer");
}
