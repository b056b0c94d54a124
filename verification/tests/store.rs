use portier::store::{generate_nonce, parse_max_age, FetchPlan, MemoryStore};

#[test]
fn consume_nonce_is_single_use() {
    let mut store = MemoryStore::new();
    let nonce = store.new_nonce("a@x.com");
    assert!(store.consume_nonce(&nonce, "a@x.com"));
    assert!(!store.consume_nonce(&nonce, "a@x.com"));
}

#[test]
fn consume_nonce_checks_the_exact_pair() {
    let mut store = MemoryStore::new();
    let nonce = store.new_nonce("a@x.com");
    assert!(!store.consume_nonce(&nonce, "b@x.com"));
    assert!(!store.consume_nonce("wrong", "a@x.com"));
    assert!(store.consume_nonce(&nonce, "a@x.com"));
}

#[test]
fn nonces_are_long_and_url_safe() {
    let nonce = generate_nonce();
    assert_eq!(nonce.len(), 22);
    assert!(nonce
        .chars()
        .all(|c| c.is_ascii_alphanumeric() || c == '-' || c == '_'));
    // Two nonces colliding would void the security guarantee; with 128
    // bits of randomness this never fires.
    assert_ne!(generate_nonce(), generate_nonce());
}

#[test]
fn concurrent_fetches_of_one_url_issue_one_request() {
    let mut store = MemoryStore::new();
    let url = "https://broker.example/.well-known/openid-configuration";
    // First caller on an expired (never fetched) entry must fetch.
    assert!(matches!(store.begin_fetch(url, 100), FetchPlan::DoFetch));
    // A second caller while that request is in flight must wait, not fetch.
    assert!(matches!(store.begin_fetch(url, 100), FetchPlan::AwaitOther));
    // A different URL proceeds without blocking.
    let other = "https://broker.example/keys.json";
    assert!(matches!(store.begin_fetch(other, 100), FetchPlan::DoFetch));
    // After the first request reports back, the result is shared.
    store.finish_fetch(url, Ok(b"doc".to_vec()), None, 100);
    match store.begin_fetch(url, 120) {
        FetchPlan::UseCached(Ok(bytes)) => assert_eq!(bytes, b"doc"),
        _ => panic!("expected the cached document"),
    }
}

#[test]
fn success_is_cached_a_minute_at_least() {
    let mut store = MemoryStore::new();
    let url = "https://broker.example/keys.json";
    assert!(matches!(store.begin_fetch(url, 100), FetchPlan::DoFetch));
    // A shorter server-specified age is floored to sixty seconds.
    store.finish_fetch(url, Ok(b"doc".to_vec()), Some(5), 100);
    assert!(matches!(
        store.begin_fetch(url, 159),
        FetchPlan::UseCached(_)
    ));
    assert!(matches!(store.begin_fetch(url, 160), FetchPlan::DoFetch));
    // A longer server-specified age is honored.
    store.finish_fetch(url, Ok(b"doc".to_vec()), Some(300), 200);
    assert!(matches!(
        store.begin_fetch(url, 499),
        FetchPlan::UseCached(_)
    ));
    assert!(matches!(store.begin_fetch(url, 500), FetchPlan::DoFetch));
}

#[test]
fn errors_are_cached_three_seconds() {
    let mut store = MemoryStore::new();
    let url = "https://broker.example/keys.json";
    assert!(matches!(store.begin_fetch(url, 100), FetchPlan::DoFetch));
    store.finish_fetch(url, Err("boom".to_string()), Some(300), 100);
    // Waiters observe the shared error without repeating the request.
    match store.begin_fetch(url, 102) {
        FetchPlan::UseCached(Err(msg)) => assert_eq!(msg, "boom"),
        _ => panic!("expected the shared error"),
    }
    // Soon after, the fetch is retried.
    assert!(matches!(store.begin_fetch(url, 103), FetchPlan::DoFetch));
}

#[test]
fn parse_max_age_reads_the_directive() {
    assert_eq!(parse_max_age("max-age=120"), Some(120));
    assert_eq!(parse_max_age("no-cache, max-age=90"), Some(90));
    assert_eq!(parse_max_age("private,  max-age=300 , no-store"), Some(300));
    assert_eq!(parse_max_age("max-age=0"), Some(0));
    assert_eq!(parse_max_age("no-cache"), None);
    assert_eq!(parse_max_age(""), None);
    assert_eq!(parse_max_age("max-age="), None);
    assert_eq!(parse_max_age("max-age=ten"), None);
    assert_eq!(parse_max_age("max-age=1e3"), None);
    // The value must fit an unsigned 64-bit count of seconds.
    assert_eq!(parse_max_age("max-age=18446744073709551615"), Some(u64::MAX));
    assert_eq!(parse_max_age("max-age=18446744073709551616"), None);
}
