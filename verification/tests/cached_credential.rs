use azure_pim_tui::cached_credential::{CachedAccessToken, TokenCache};

const NOW: i64 = 1_700_000_000;

/// One token request through the library's steps, as the cached
/// credential makes it: the cache is asked first (`fresh_token`), and on a
/// miss the underlying credential, here a stand-in that counts its calls
/// and answers `answer`, whose answer goes to `record_answer`.
fn request(
    cache: &mut TokenCache,
    scopes: &[&str],
    calls: &mut usize,
    answer: Result<CachedAccessToken, String>,
) -> Result<String, String> {
    let key: Vec<String> = scopes.iter().map(|s| s.to_string()).collect();
    if let Some(t) = cache.fresh_token(&key, NOW) {
        return Ok(t.token);
    }
    *calls += 1;
    cache.record_answer(key, answer).map(|t| t.token)
}

fn token(lifetime: i64) -> Result<CachedAccessToken, String> {
    Ok(CachedAccessToken { token: "dummy".to_string(), expires_on: NOW + lifetime })
}

/// Fifty requests one after another ask the underlying credential once.
/// (That concurrent requests also ask it once rests on the lock the
/// credential holds around these steps.)
#[test]
fn sequential_requests_ask_credential_once() {
    let mut cache = TokenCache::new();
    let mut calls = 0;
    for _ in 0..50 {
        let t = request(&mut cache, &["https://management.azure.com/.default"], &mut calls, token(3600));
        assert_eq!(t.unwrap(), "dummy");
    }
    assert_eq!(calls, 1);
}

/// Requests for two scopes ask the credential once per scope.
#[test]
fn distinct_scopes_asked_independently() {
    let mut cache = TokenCache::new();
    let mut calls = 0;
    for _ in 0..5 {
        request(&mut cache, &["scope_a"], &mut calls, token(3600)).unwrap();
        request(&mut cache, &["scope_b"], &mut calls, token(3600)).unwrap();
    }
    assert_eq!(calls, 2);
}

/// A token with five minutes or less left is never reused: every request
/// asks the credential again.
#[test]
fn expiring_token_asks_credential_again() {
    let mut cache = TokenCache::new();
    let mut calls = 0;
    for _ in 0..3 {
        request(&mut cache, &["s"], &mut calls, token(60)).unwrap();
    }
    assert_eq!(calls, 3);
}

/// A failed answer is handed on and leaves the cached token in place.
#[test]
fn failed_answer_keeps_cache() {
    let mut cache = TokenCache::new();
    let key = vec!["s".to_string()];
    cache.store(key.clone(), CachedAccessToken { token: "old".to_string(), expires_on: NOW + 100 });
    let mut calls = 0;
    let r = request(&mut cache, &["s"], &mut calls, Err("denied".to_string()));
    assert_eq!(r, Err("denied".to_string()));
    assert_eq!(calls, 1);
    assert_eq!(cache.fresh_token(&key, NOW - 1000).unwrap().token, "old");
}

#[test]
fn cache_boundary_is_five_minutes() {
    let mut cache = TokenCache::new();
    let key = vec!["s".to_string()];
    cache.store(key.clone(), CachedAccessToken { token: "t".to_string(), expires_on: NOW + 300 });
    assert!(cache.fresh_token(&key, NOW).is_none());
    cache.store(key.clone(), CachedAccessToken { token: "u".to_string(), expires_on: NOW + 301 });
    assert_eq!(cache.fresh_token(&key, NOW).unwrap().token, "u");
}

#[test]
fn cache_scope_order_counts() {
    let mut cache = TokenCache::new();
    cache.store(vec!["a".to_string(), "b".to_string()], CachedAccessToken { token: "ab".to_string(), expires_on: NOW + 3600 });
    assert!(cache.fresh_token(&["b".to_string(), "a".to_string()], NOW).is_none());
    assert_eq!(cache.fresh_token(&["a".to_string(), "b".to_string()], NOW).unwrap().token, "ab");
}

#[test]
fn cache_replaces_token_for_same_scopes() {
    let mut cache = TokenCache::new();
    let key = vec!["s".to_string()];
    cache.store(key.clone(), CachedAccessToken { token: "old".to_string(), expires_on: NOW + 3600 });
    cache.store(key.clone(), CachedAccessToken { token: "new".to_string(), expires_on: NOW + 7200 });
    let t = cache.fresh_token(&key, NOW).unwrap();
    assert_eq!(t.token, "new");
    assert_eq!(t.expires_on, NOW + 7200);
}

#[test]
fn cache_now_uses_the_clock() {
    let mut cache = TokenCache::new();
    let key = vec!["s".to_string()];
    cache.store(key.clone(), CachedAccessToken { token: "far".to_string(), expires_on: i64::MAX - 1000 });
    assert_eq!(cache.fresh_token_now(&key).unwrap().token, "far");
    cache.store(key.clone(), CachedAccessToken { token: "past".to_string(), expires_on: 0 });
    assert!(cache.fresh_token_now(&key).is_none());
}
