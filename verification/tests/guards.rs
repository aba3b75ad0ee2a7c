use libra::guards::{
    browser_request_origin, ensure_trusted_browser_origin, origin_from_referer,
    trusted_loopback_origins, BoundAddr, BoundIp, OriginGuardError, SessionWriteRateLimitConfig,
    SessionWriteRateLimiter,
};

fn v4(a: u8, b: u8, c: u8, d: u8, port: u16) -> BoundAddr {
    BoundAddr { ip: BoundIp::V4(a, b, c, d), port }
}

#[test]
fn trusted_origins_cover_loopback_aliases() {
    let origins = trusted_loopback_origins(&v4(127, 0, 0, 1, 4317));
    assert!(origins.iter().any(|o| o == "http://127.0.0.1:4317"));
    assert!(origins.iter().any(|o| o == "http://localhost:4317"));
    assert!(origins.iter().any(|o| o == "http://[::1]:4317"));
}

#[test]
fn trusted_origins_include_non_canonical_loopback_bind() {
    let origins = trusted_loopback_origins(&v4(127, 0, 0, 2, 4317));
    assert!(origins.iter().any(|o| o == "http://127.0.0.2:4317"));
    assert!(!origins.iter().any(|o| o == "http://127.0.0.1:4317"));
    assert!(!origins.iter().any(|o| o == "http://localhost:4317"));
}

#[test]
fn trusted_origins_omit_default_http_port() {
    let origins = trusted_loopback_origins(&v4(127, 0, 0, 1, 80));
    assert!(origins.iter().any(|o| o == "http://127.0.0.1"));
    assert!(origins.iter().any(|o| o == "http://localhost"));
    assert!(origins.iter().any(|o| o == "http://[::1]"));
    assert!(!origins.iter().any(|o| o.contains(":80")));
}

#[test]
fn trusted_origins_of_an_ipv6_loopback_bind() {
    let origins = trusted_loopback_origins(&BoundAddr {
        ip: BoundIp::V6 { segments: [0, 0, 0, 0, 0, 0, 0, 1], text: "::1".to_string() },
        port: 4317,
    });
    assert!(origins.iter().any(|o| o == "http://[::1]:4317"));
    assert!(origins.iter().any(|o| o == "http://localhost:4317"));
}

#[test]
fn origin_header_is_preferred_over_referer() {
    assert_eq!(
        browser_request_origin(Some("http://127.0.0.1:9"), Some("http://evil.example/path"))
            .as_deref(),
        Some("http://127.0.0.1:9")
    );
}

#[test]
fn referer_fallback_extracts_origin() {
    assert_eq!(
        browser_request_origin(None, Some("http://localhost:4317/app?x=1")).as_deref(),
        Some("http://localhost:4317")
    );
}

#[test]
fn referer_without_scheme_has_no_origin() {
    assert_eq!(origin_from_referer("localhost:4317/app"), None);
}

#[test]
fn missing_origin_fails_closed() {
    let trusted = trusted_loopback_origins(&v4(127, 0, 0, 1, 1));
    assert!(matches!(
        ensure_trusted_browser_origin(None, None, &trusted),
        Err(OriginGuardError::Missing)
    ));
}

#[test]
fn cross_site_origin_fails_closed() {
    let trusted = trusted_loopback_origins(&v4(127, 0, 0, 1, 1));
    assert!(matches!(
        ensure_trusted_browser_origin(Some("https://evil.example"), None, &trusted),
        Err(OriginGuardError::Untrusted { .. })
    ));
}

#[test]
fn trusted_origin_passes_the_guard() {
    let trusted = trusted_loopback_origins(&v4(127, 0, 0, 1, 4317));
    assert!(ensure_trusted_browser_origin(Some("http://localhost:4317"), None, &trusted).is_ok());
}

#[test]
fn rate_limiter_trips_then_recovers_after_window() {
    let mut limiter =
        SessionWriteRateLimiter::new(SessionWriteRateLimitConfig::for_tests(2, 30_000_000));
    assert!(limiter.check_and_record_at("s1", 1_000_000_000).is_ok());
    assert!(limiter.check_and_record_at("s1", 1_000_000_000).is_ok());
    assert!(limiter.check_and_record_at("s1", 1_000_000_000).is_err());
    assert!(limiter.check_and_record_at("s1", 1_035_000_000).is_ok());
}

#[test]
fn rate_limit_retry_after_is_the_rest_of_the_window() {
    let mut limiter =
        SessionWriteRateLimiter::new(SessionWriteRateLimitConfig::for_tests(1, 1_000_000_000));
    assert!(limiter.check_and_record_at("s1", 5_000_000_000).is_ok());
    assert_eq!(limiter.check_and_record_at("s1", 5_400_000_000), Err(600_000_000));
    assert!(limiter.check_and_record_at("s2", 5_400_000_000).is_ok());
}

#[test]
fn rate_limiter_on_the_clock_counts_writes() {
    let mut limiter =
        SessionWriteRateLimiter::new(SessionWriteRateLimitConfig::for_tests(2, 600_000_000_000));
    assert!(limiter.check_and_record("s1").is_ok());
    assert!(limiter.check_and_record("s1").is_ok());
    assert!(limiter.check_and_record("s1").is_err());
}

#[test]
fn configured_budget_falls_back_to_defaults() {
    let config = SessionWriteRateLimitConfig::from_env_or_default(Some(" 5 "), Some("0"));
    assert_eq!(config.max_writes, 5);
    assert_eq!(
        config.window_ns,
        libra::guards::DEFAULT_SESSION_WRITE_RATE_WINDOW_SECS as u128 * 1_000_000_000
    );
    let config = SessionWriteRateLimitConfig::from_env_or_default(None, Some("abc"));
    assert_eq!(config.max_writes, libra::guards::DEFAULT_SESSION_WRITE_RATE_LIMIT);
}

#[test]
fn any_positive_window_length_is_accepted() {
    let config = SessionWriteRateLimitConfig::from_env_or_default(None, Some("18446744073709551615"));
    assert_eq!(config.window_ns, u64::MAX as u128 * 1_000_000_000);
}

#[test]
fn windows_are_measured_to_the_nanosecond() {
    let mut limiter =
        SessionWriteRateLimiter::new(SessionWriteRateLimitConfig::for_tests(1, 30_000_000));
    assert!(limiter.check_and_record_at("s1", 900_000).is_ok());
    assert_eq!(limiter.check_and_record_at("s1", 30_100_000), Err(800_000));
    assert!(limiter.check_and_record_at("s1", 30_900_000).is_ok());
}
