use token_auth::error::AuthError;
use token_auth::store::{copy_strings, TokenStore};

fn strings(v: &[&str]) -> Vec<String> {
    v.iter().map(|s| s.to_string()).collect()
}

#[test]
fn insert_assigns_fresh_increasing_ids() {
    let mut store = TokenStore::new();
    let a = store.insert(1, "a".to_string(), "d1".to_string(), strings(&["*"]), 10).unwrap();
    let b = store.insert(2, "b".to_string(), "d2".to_string(), strings(&["read"]), 20).unwrap();
    assert!(a >= 1);
    assert!(b > a);
    let row = store.find_by_id(b).unwrap();
    assert_eq!(row.id, b);
    assert_eq!(row.user_id, 2);
    assert_eq!(row.name, "b");
    assert_eq!(row.token, "d2");
    assert_eq!(row.abilities, strings(&["read"]));
    assert_eq!(row.created_at, 20);
    assert_eq!(row.last_used_at, 20);
}

#[test]
fn find_missing_id_is_not_found() {
    let store = TokenStore::new();
    assert_eq!(store.find_by_id(1).unwrap_err(), AuthError::TokenNotFound);
}

#[test]
fn delete_reports_rows_affected() {
    let mut store = TokenStore::new();
    let id = store.insert(1, "a".to_string(), "d".to_string(), vec![], 0).unwrap();
    assert_eq!(store.delete(id), 1);
    assert_eq!(store.delete(id), 0);
    assert_eq!(store.find_by_id(id).unwrap_err(), AuthError::TokenNotFound);
}

#[test]
fn touch_keeps_the_latest_use() {
    let mut store = TokenStore::new();
    let id = store.insert(1, "a".to_string(), "d".to_string(), vec![], 100).unwrap();
    assert_eq!(store.touch(id, 150), 1);
    assert_eq!(store.find_by_id(id).unwrap().last_used_at, 150);
    assert_eq!(store.touch(id, 120), 1);
    let row = store.find_by_id(id).unwrap();
    assert_eq!(row.last_used_at, 150);
    assert_eq!(row.created_at, 100);
    assert_eq!(store.touch(id + 1, 200), 0);
}

#[test]
fn duplicate_and_copy_keep_content() {
    let v = strings(&["read", "write", ""]);
    assert_eq!(copy_strings(&v), v);
    let mut store = TokenStore::new();
    let id = store.insert(3, "n".to_string(), "d".to_string(), v.clone(), 1).unwrap();
    let row = store.find_by_id(id).unwrap();
    let copy = row.duplicate();
    assert_eq!(copy.abilities, row.abilities);
    assert_eq!(copy.token, row.token);
    assert_eq!(copy.name, row.name);
    assert_eq!(copy.id, row.id);
}
