use visualizer_proxy::auth::basic_authorization;
use visualizer_proxy::auth::basic_header_value;
use visualizer_proxy::auth::bearer_authorization;
use visualizer_proxy::auth::AuthType;
use visualizer_proxy::error::FetchError;
use visualizer_proxy::error::ProxyError;
use visualizer_proxy::token_cache::authorization_from;
use visualizer_proxy::token_cache::expiry_instant;
use visualizer_proxy::token_cache::usable_lifetime;
use visualizer_proxy::token_cache::CachedToken;
use visualizer_proxy::token_cache::TokenCache;
use visualizer_proxy::token_cache::TokenResponse;

fn response(token_type: &str, access_token: &str, expires_in: u64) -> TokenResponse {
    TokenResponse {
        access_token: access_token.to_string(),
        token_type: token_type.to_string(),
        expires_in,
    }
}

#[test]
fn basic_auth_standard_base64() {
    assert_eq!(
        basic_authorization("alice", "wonderland"),
        Some("Basic YWxpY2U6d29uZGVybGFuZA==".to_string())
    );
}

#[test]
fn basic_auth_one_part_empty() {
    assert_eq!(basic_authorization("", "pw"), Some("Basic OnB3".to_string()));
    assert_eq!(basic_authorization("bob", ""), Some("Basic Ym9iOg==".to_string()));
}

#[test]
fn basic_auth_both_empty_gives_no_header() {
    assert_eq!(basic_authorization("", ""), None);
}

#[test]
fn basic_header_prefix() {
    assert_eq!(basic_header_value("abc="), "Basic abc=");
}

#[test]
fn bearer_auth() {
    assert_eq!(bearer_authorization(""), None);
    assert_eq!(bearer_authorization("t1"), Some("Bearer t1".to_string()));
}

#[test]
fn auth_type_tags() {
    assert_eq!(AuthType::from_tag("basic"), AuthType::Basic);
    assert_eq!(AuthType::from_tag("BASIC"), AuthType::Basic);
    assert_eq!(AuthType::from_tag("Bearer"), AuthType::Bearer);
    assert_eq!(AuthType::from_tag("oauth"), AuthType::OAuth);
    assert_eq!(AuthType::from_tag("OAuth2"), AuthType::OAuth);
    assert_eq!(AuthType::from_tag("none"), AuthType::NoAuth);
    assert_eq!(AuthType::from_tag(""), AuthType::NoAuth);
    assert_eq!(AuthType::from_tag("digest"), AuthType::NoAuth);
    assert_eq!(AuthType::from_tag("oauth3"), AuthType::NoAuth);
}

#[test]
fn token_lifetime_margin() {
    assert_eq!(usable_lifetime(3600), 3_585_000);
    assert_eq!(usable_lifetime(15), 0);
    assert_eq!(usable_lifetime(10), 0);
    assert_eq!(usable_lifetime(16), 1000);
    assert_eq!(usable_lifetime(u64::MAX), u64::MAX - 15000);
}

#[test]
fn token_expiry_instant() {
    assert_eq!(expiry_instant(1_000, 3600), 3_586_000);
    assert_eq!(expiry_instant(u64::MAX - 5, 3600), u64::MAX);
}

#[test]
fn authorization_value_from_response() {
    assert_eq!(authorization_from(&response("Bearer", "xyz", 60)), "Bearer xyz");
}

#[test]
fn token_cache_expiry_window() {
    let t: u64 = 5_000_000;
    let mut cache = TokenCache::new();
    assert_eq!(cache.valid_authorization("svc", t), None);
    let v = cache.finish_fetch("svc", t, Ok(response("Bearer", "tok", 3600)));
    assert_eq!(v, Ok("Bearer tok".to_string()));
    assert_eq!(cache.valid_authorization("svc", t + 3_584_000), Some("Bearer tok".to_string()));
    assert_eq!(cache.valid_authorization("svc", t + 3_584_999), Some("Bearer tok".to_string()));
    assert_eq!(cache.valid_authorization("svc", t + 3_585_000), None);
    assert_eq!(cache.valid_authorization("svc", t + 3_586_000), None);
    assert_eq!(cache.valid_authorization("other", t), None);
}

#[test]
fn token_cache_overwrite() {
    let mut cache = TokenCache::new();
    cache.store("a", CachedToken { authorization: "Bearer 1".to_string(), expires_at: 10 });
    cache.store("b", CachedToken { authorization: "Bearer 2".to_string(), expires_at: 100 });
    cache.store("a", CachedToken { authorization: "Bearer 3".to_string(), expires_at: 50 });
    assert_eq!(cache.valid_authorization("a", 20), Some("Bearer 3".to_string()));
    assert_eq!(cache.valid_authorization("b", 20), Some("Bearer 2".to_string()));
    assert_eq!(cache.valid_authorization("a", 50), None);
}

#[test]
fn token_fetch_failure_leaves_cache() {
    let mut cache = TokenCache::new();
    cache.store("svc", CachedToken { authorization: "Bearer old".to_string(), expires_at: 100 });
    assert_eq!(
        cache.finish_fetch("svc", 200, Err(FetchError::Network)),
        Err(ProxyError::UpstreamGateway)
    );
    assert_eq!(
        cache.finish_fetch("svc", 200, Err(FetchError::InvalidResponse)),
        Err(ProxyError::UpstreamGateway)
    );
    assert_eq!(cache.valid_authorization("svc", 99), Some("Bearer old".to_string()));
    assert_eq!(cache.valid_authorization("svc", 200), None);
    assert_eq!(
        cache.finish_fetch("fresh", 0, Err(FetchError::Network)),
        Err(ProxyError::UpstreamGateway)
    );
    assert_eq!(cache.valid_authorization("fresh", 0), None);
}

#[test]
fn ordinary_credentials_fit() {
    assert!(visualizer_proxy::auth::credentials_fit_chars("alice", "wonderland"));
    assert!(visualizer_proxy::auth::credentials_fit_chars("", ""));
}
