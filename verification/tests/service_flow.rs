use keymint::errors::Myerror;
use keymint::keys::{fresh_candidate, KEY_RANGE_HIGH, KEY_RANGE_LOW};
use keymint::levels::{level_to_string, parse_level};
use keymint::record::Details;
use keymint::service::{
    index_body, resolve_lookup, screen_request, try_create_api_key, validate_request, AuthDecision,
    AuthOutcome,
};
use keymint::store::MemStore;

fn issue(store: &mut MemStore, org: &str, level: usize) -> i64 {
    loop {
        if let Some(k) = try_create_api_key(store, org.to_string(), level) {
            return k;
        }
    }
}

#[test]
fn issued_keys_are_ten_digit_and_in_range() {
    let mut store = MemStore::new();
    let key = issue(&mut store, "acme", 3);
    assert!((KEY_RANGE_LOW..KEY_RANGE_HIGH).contains(&key));
    assert_eq!(key.to_string().len(), 10);
    for _ in 0..100 {
        let k = fresh_candidate();
        assert!((KEY_RANGE_LOW..KEY_RANGE_HIGH).contains(&k));
    }
}

#[test]
fn issue_then_lookup_round_trips() {
    let mut store = MemStore::new();
    let key = issue(&mut store, "acme", 3);
    match validate_request(&store, true, &key.to_string()) {
        AuthOutcome::Verified(d) => {
            assert_eq!(d.org, "acme");
            assert_eq!(d.auth_level, 3);
        }
        _ => panic!("an issued key must resolve"),
    }
}

#[test]
fn unknown_key_is_unauthorized() {
    let store = MemStore::new();
    let r = validate_request(&store, true, "1234567890");
    assert!(matches!(r, AuthOutcome::Unauthorized));
}

#[test]
fn malformed_key_is_bad_request_not_unauthorized() {
    let mut store = MemStore::new();
    let key = issue(&mut store, "acme", 3);
    let padded = format!(" {} ", key);
    assert!(matches!(
        validate_request(&store, true, "abc"),
        AuthOutcome::BadRequest
    ));
    assert!(matches!(
        validate_request(&store, true, "12.5"),
        AuthOutcome::BadRequest
    ));
    assert!(matches!(
        validate_request(&store, true, &padded),
        AuthOutcome::BadRequest
    ));
}

#[test]
fn missing_token_is_rejected_without_store_access() {
    // The screen takes no store at all, so its rejection precedes any lookup.
    assert!(matches!(
        screen_request(false, "1234567890"),
        AuthDecision::MissingToken
    ));
    let store = MemStore::new();
    assert!(matches!(
        validate_request(&store, false, "1234567890"),
        AuthOutcome::Unauthorized
    ));
}

#[test]
fn bearer_token_content_is_not_validated() {
    // Any present token passes the screen; the key alone decides the rest.
    let mut store = MemStore::new();
    let key = issue(&mut store, "zenith", 1);
    match validate_request(&store, true, &key.to_string()) {
        AuthOutcome::Verified(d) => assert_eq!(d.org, "zenith"),
        _ => panic!("a present token must not be rejected for its content"),
    }
}

#[test]
fn back_to_back_issues_never_reuse_a_key() {
    let mut store = MemStore::new();
    let k1 = issue(&mut store, "first", 1);
    let k2 = issue(&mut store, "second", 2);
    assert_ne!(k1, k2);
    match validate_request(&store, true, &k1.to_string()) {
        AuthOutcome::Verified(d) => assert_eq!(d.org, "first"),
        _ => panic!("first record must survive the second issuance"),
    }
}

#[test]
fn issuance_on_an_empty_store_cannot_collide() {
    let mut store = MemStore::new();
    let key = try_create_api_key(&mut store, "acme".to_string(), 3)
        .expect("no candidate can collide with an empty store");
    assert!(store.exists_key(key));
}

#[test]
fn resolve_lookup_requires_both_fields() {
    assert!(resolve_lookup(None, None).is_none());
    assert!(resolve_lookup(Some("acme".to_string()), None).is_none());
    assert!(resolve_lookup(None, Some("3".to_string())).is_none());
    let d = resolve_lookup(Some("acme".to_string()), Some("3".to_string())).unwrap();
    assert_eq!(d.org, "acme");
    assert_eq!(d.auth_level, 3);
}

#[test]
fn resolve_lookup_rejects_non_numeric_level_text() {
    assert!(resolve_lookup(Some("acme".to_string()), Some("abc".to_string())).is_none());
    assert!(resolve_lookup(Some("acme".to_string()), Some("3.5".to_string())).is_none());
    assert!(resolve_lookup(Some("acme".to_string()), Some("".to_string())).is_none());
    assert!(resolve_lookup(Some("acme".to_string()), Some("-3".to_string())).is_none());
    let d = resolve_lookup(Some("acme".to_string()), Some("+3".to_string())).unwrap();
    assert_eq!(d.auth_level, 3);
}

#[test]
fn level_text_reads_back_what_was_stored() {
    let mut store = MemStore::new();
    store.put_record(1234567890, Details::new("acme".to_string(), 42));
    assert_eq!(store.get_level_text(1234567890).unwrap(), "42");
    assert!(store.get_level_text(1111111111).is_none());
}

#[test]
fn level_text_parses_back_to_the_level() {
    assert_eq!(parse_level("0"), Some(0));
    assert_eq!(parse_level(&level_to_string(usize::MAX)), Some(usize::MAX));
    assert_eq!(parse_level("18446744073709551616"), None);
    assert_eq!(parse_level(" 3"), None);
}

#[test]
fn store_fields_read_back_what_was_written() {
    let mut store = MemStore::new();
    assert!(!store.exists_key(1234567890));
    assert!(store.get_org(1234567890).is_none());
    assert!(store.get_level(1234567890).is_none());
    store.put_record(1234567890, Details::new("acme".to_string(), 3));
    assert!(store.exists_key(1234567890));
    assert_eq!(store.get_org(1234567890).unwrap(), "acme");
    assert_eq!(store.get_level(1234567890).unwrap(), 3);
}

#[test]
fn level_formats_as_plain_decimal() {
    assert_eq!(level_to_string(0), "0");
    assert_eq!(level_to_string(3), "3");
    assert_eq!(level_to_string(42), "42");
    assert_eq!(level_to_string(1000000000), "1000000000");
    assert_eq!(level_to_string(usize::MAX), usize::MAX.to_string());
}

#[test]
fn error_variants_carry_their_message() {
    let e = Myerror::from_store_error("connection refused".to_string());
    assert!(matches!(e, Myerror::RedisError(_)));
    assert_eq!(e.message(), "connection refused");
    let e2 = Myerror::from("boom".to_string());
    assert!(matches!(e2, Myerror::RawErr(_)));
    assert_eq!(e2.message(), "boom");
}

#[test]
fn index_text_points_at_creation() {
    assert_eq!(index_body(), "goto /create to create a api key");
}
