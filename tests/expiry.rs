use token_auth::expiry::ExpiryPolicy;

#[test]
fn no_ttl_never_expires() {
    let p = ExpiryPolicy { ttl: None, refresh: false };
    assert!(!p.is_expired(5, 5, 5 + 10000));
    assert!(!p.is_expired(i64::MIN, i64::MIN, i64::MAX));
    let r = ExpiryPolicy { ttl: None, refresh: true };
    assert!(!r.is_expired(5, 5, 5 + 10000));
}

#[test]
fn fixed_lifetime_ignores_touches() {
    let p = ExpiryPolicy { ttl: Some(60), refresh: false };
    assert!(!p.is_expired(0, 0, 59));
    assert!(p.is_expired(0, 0, 60));
    assert!(!p.is_expired(0, 58, 59));
    assert!(p.is_expired(0, 59, 60));
}

#[test]
fn sliding_lifetime_follows_last_use() {
    let p = ExpiryPolicy { ttl: Some(60), refresh: true };
    assert!(!p.is_expired(0, 50, 109));
    assert!(p.is_expired(0, 50, 110));
    assert!(p.is_expired(0, 0, 60));
}

#[test]
fn expiry_sums_do_not_overflow() {
    let p = ExpiryPolicy { ttl: Some(i64::MAX), refresh: false };
    assert!(!p.is_expired(i64::MAX, i64::MAX, i64::MAX));
    let q = ExpiryPolicy { ttl: Some(i64::MIN), refresh: true };
    assert!(q.is_expired(i64::MIN, i64::MIN, i64::MIN));
}

#[test]
fn ttl_in_minutes_becomes_seconds() {
    let p = ExpiryPolicy::from_minutes(Some(2), true);
    assert_eq!(p.ttl, Some(120));
    assert!(p.refresh);
    assert_eq!(ExpiryPolicy::from_minutes(None, false).ttl, None);
    assert_eq!(ExpiryPolicy::from_minutes(Some(i64::MAX), false).ttl, Some(i64::MAX));
    assert_eq!(ExpiryPolicy::from_minutes(Some(i64::MIN), false).ttl, Some(i64::MIN));
}
