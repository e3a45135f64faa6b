use tvdata_rs::client::{
    checked_default_headers, websocket_handshake_headers, HandshakeHeader,
    default_calendar_base_url, default_data_origin, default_headers, default_scanner_base_url,
    default_site_origin, default_symbol_search_base_url, default_websocket_url, DefaultHeader,
};
use tvdata_rs::client::{
    check_status, default_auth_token, default_max_retry_interval, default_min_retry_interval,
    default_timeout, default_user_agent, market_to_screener_kind, referer, session_cookie,
    validate_search_text, validation_markets,
};
use tvdata_rs::{Endpoints, Error, Market, RetryConfig, RetryDelay, RetryJitter, ScreenerKind};

#[test]
fn defaults() {
    assert_eq!(default_timeout(), 30);
    assert_eq!(default_min_retry_interval(), RetryDelay::from_millis(250));
    assert_eq!(default_max_retry_interval(), RetryDelay::from_secs(2));
    assert_eq!(default_auth_token(), "unauthorized_user_token");
    assert!(default_user_agent().starts_with("tvdata-rs/0.1"));
    let retry = RetryConfig::default();
    assert_eq!(retry.max_retries, 2);
    assert_eq!(retry.jitter, RetryJitter::Bounded);
    let disabled = RetryConfig::disabled();
    assert_eq!(disabled.max_retries, 0);
    assert_eq!(disabled.min_retry_interval, RetryDelay::new(0, 250_000_000));
    assert_eq!(disabled.max_retry_interval, RetryDelay::new(1, 1_000_000_000));
}

#[test]
fn retry_bounds_are_validated() {
    assert!(RetryConfig::default().validate().is_ok());
    let bad = RetryConfig {
        min_retry_interval: RetryDelay::from_millis(2000),
        max_retry_interval: RetryDelay::from_millis(500),
        ..RetryConfig::default()
    };
    match bad.validate() {
        Err(Error::InvalidRetryBounds { min, max }) => {
            assert_eq!((min.as_secs(), max.subsec_nanos()), (2, 500_000_000));
        }
        other => panic!("unexpected {other:?}"),
    }
    // Below one millisecond still counts.
    let fine = RetryConfig {
        min_retry_interval: RetryDelay::new(0, 1_500_000),
        max_retry_interval: RetryDelay::new(0, 1_200_000),
        ..RetryConfig::default()
    };
    assert!(fine.validate().is_err());
    let equal = RetryConfig {
        min_retry_interval: RetryDelay::from_millis(700),
        max_retry_interval: RetryDelay::new(0, 700_000_000),
        jitter: RetryJitter::NoJitter,
        ..RetryConfig::default()
    };
    assert!(equal.validate().is_ok());
    let policy = equal.to_policy();
    assert_eq!(policy.max_n_retries, 2);
    assert_eq!(policy.jitter, RetryJitter::NoJitter);
    assert_eq!(policy.min_retry_interval, RetryDelay::from_millis(700));
    let backoff = policy.to_exponential_backoff();
    assert_eq!(backoff.max_n_retries, Some(2));
    assert_eq!(backoff.min_retry_interval, std::time::Duration::from_millis(700));
    assert_eq!(backoff.max_retry_interval, std::time::Duration::from_millis(700));
    assert_eq!(backoff.jitter, reqwest_retry::Jitter::None);
}

#[test]
fn endpoint_defaults_are_parsed_urls() {
    let endpoints = Endpoints::default();
    for (text, source) in [
        (endpoints.scanner_base_url(), "https://scanner.tradingview.com"),
        (
            endpoints.symbol_search_base_url(),
            "https://symbol-search.tradingview.com/symbol_search/v3/",
        ),
        (
            endpoints.calendar_base_url(),
            "https://chartevents-reuters.tradingview.com/events",
        ),
        (
            endpoints.websocket_url(),
            "wss://data.tradingview.com/socket.io/websocket",
        ),
        (endpoints.site_origin(), "https://www.tradingview.com"),
        (endpoints.data_origin(), "https://data.tradingview.com"),
    ] {
        assert_eq!(text, url::Url::parse(source).unwrap().as_str());
    }
}

#[test]
fn endpoint_overrides_parse_and_join() {
    let endpoints = Endpoints::default()
        .with_scanner_base_url("http://127.0.0.1:8080")
        .unwrap();
    assert_eq!(endpoints.scanner_base_url(), "http://127.0.0.1:8080/");
    assert_eq!(
        endpoints.scanner_url("//america/scan").unwrap(),
        "http://127.0.0.1:8080/america/scan"
    );
    assert_eq!(
        endpoints
            .scanner_metainfo_url(&Market::from_static("crypto"))
            .unwrap(),
        "http://127.0.0.1:8080/crypto/metainfo"
    );
    assert_eq!(endpoints.site_origin(), "https://www.tradingview.com/");
    assert!(matches!(
        Endpoints::default().with_websocket_url("not a url"),
        Err(Error::UrlParse(_))
    ));
    let moved = Endpoints::default()
        .with_symbol_search_base_url("http://127.0.0.1:8081/symbol_search")
        .unwrap()
        .with_calendar_base_url("http://127.0.0.1:8082/events")
        .unwrap()
        .with_websocket_url("ws://127.0.0.1:9000")
        .unwrap()
        .with_site_origin("http://localhost:3000")
        .unwrap()
        .with_data_origin("http://localhost:3001")
        .unwrap();
    assert_eq!(moved.symbol_search_base_url(), "http://127.0.0.1:8081/symbol_search");
    assert_eq!(moved.calendar_base_url(), "http://127.0.0.1:8082/events");
    assert_eq!(moved.websocket_url(), "ws://127.0.0.1:9000/");
    assert_eq!(moved.site_origin(), "http://localhost:3000/");
    assert_eq!(moved.data_origin(), "http://localhost:3001/");
    assert_eq!(moved.scanner_base_url(), "https://scanner.tradingview.com/");
}

#[test]
fn headers() {
    assert_eq!(referer("https://www.tradingview.com/"), "https://www.tradingview.com/");
    assert_eq!(referer("https://x.test///"), "https://x.test/");
    assert_eq!(referer("https://x.test"), "https://x.test/");
    assert_eq!(session_cookie("abc123"), "sessionid=abc123");
}

#[test]
fn search_text_must_not_be_blank() {
    assert!(validate_search_text(" AAPL ").is_ok());
    assert!(matches!(validate_search_text(" \t\n"), Err(Error::EmptySearchQuery)));
    assert!(matches!(validate_search_text(""), Err(Error::EmptySearchQuery)));
}

#[test]
fn status_check() {
    assert_eq!(check_status(200, "ok".to_string()).unwrap(), "ok");
    match check_status(503, "busy".to_string()) {
        Err(Error::ApiStatus { status, body }) => {
            assert_eq!(status, 503);
            assert_eq!(body, "busy");
        }
        other => panic!("unexpected {other:?}"),
    }
}

#[test]
fn screener_kinds() {
    let kind = |m: &'static str| market_to_screener_kind(&Market::from_static(m));
    assert_eq!(kind("crypto"), Some(ScreenerKind::Crypto));
    assert_eq!(kind("forex"), Some(ScreenerKind::Forex));
    assert_eq!(kind("bonds"), Some(ScreenerKind::Bond));
    assert_eq!(kind("bond"), Some(ScreenerKind::Bond));
    assert_eq!(kind("futures"), Some(ScreenerKind::Futures));
    assert_eq!(kind("coin"), Some(ScreenerKind::Coin));
    assert_eq!(kind("cfd"), None);
    assert_eq!(kind("options"), None);
    assert_eq!(kind("america"), Some(ScreenerKind::Stock));
}

#[test]
fn validation_requires_markets() {
    assert!(matches!(
        validation_markets(&Vec::new()),
        Err(Error::ScanValidationUnavailable { .. })
    ));
    let markets = validation_markets(&vec![Market::from_static("america")]).unwrap();
    assert_eq!(markets[0].as_str(), "america");
}

#[test]
fn builder_rejects_invalid_retry_bounds() {
    let retry = RetryConfig {
        min_retry_interval: RetryDelay::from_secs(2),
        max_retry_interval: RetryDelay::from_millis(500),
        ..RetryConfig::default()
    };
    let error = retry.validate().unwrap_err();

    assert!(matches!(error, Error::InvalidRetryBounds { .. }));
}

#[test]
fn default_headers_follow_the_session() {
    let with = default_headers("https://www.tradingview.com", Some("test-session"));
    assert_eq!(with.len(), 3);
    assert!(matches!(with[0].0, DefaultHeader::Origin));
    assert_eq!(with[0].1, "https://www.tradingview.com");
    assert!(matches!(with[1].0, DefaultHeader::Referer));
    assert_eq!(with[1].1, "https://www.tradingview.com/");
    assert!(matches!(with[2].0, DefaultHeader::Cookie));
    assert_eq!(with[2].1, "sessionid=test-session");
    let without = default_headers("https://www.tradingview.com/", None);
    assert_eq!(without.len(), 2);
    assert_eq!(without[1].1, "https://www.tradingview.com/");
}

#[test]
fn default_urls_are_the_parsed_builtins() {
    assert_eq!(default_scanner_base_url(), "https://scanner.tradingview.com/");
    assert_eq!(
        default_symbol_search_base_url(),
        "https://symbol-search.tradingview.com/symbol_search/v3/"
    );
    assert_eq!(default_calendar_base_url(), "https://chartevents-reuters.tradingview.com/events");
    assert_eq!(default_websocket_url(), "wss://data.tradingview.com/socket.io/websocket");
    assert_eq!(default_site_origin(), "https://www.tradingview.com/");
    assert_eq!(default_data_origin(), "https://data.tradingview.com/");
}

#[test]
fn backoff_carries_each_setting() {
    let config = RetryConfig {
        max_retries: 5,
        min_retry_interval: RetryDelay::new(0, 1_200_000),
        max_retry_interval: RetryDelay::new(3, 250),
        jitter: RetryJitter::Full,
    };
    let backoff = config.to_policy().to_exponential_backoff();
    assert_eq!(backoff.max_n_retries, Some(5));
    assert_eq!(backoff.min_retry_interval, std::time::Duration::new(0, 1_200_000));
    assert_eq!(backoff.max_retry_interval, std::time::Duration::new(3, 250));
    assert_eq!(backoff.jitter, reqwest_retry::Jitter::Full);
    let bounded = RetryConfig { jitter: RetryJitter::Bounded, max_retries: 0, ..config };
    let backoff = bounded.to_policy().to_exponential_backoff();
    assert_eq!(backoff.max_n_retries, Some(0));
    assert_eq!(backoff.jitter, reqwest_retry::Jitter::Bounded);
}

#[test]
fn url_errors_carry_the_parser_message() {
    match Endpoints::default().with_websocket_url("not a url") {
        Err(Error::UrlParse(message)) => {
            assert_eq!(message, url::Url::parse("not a url").unwrap_err().to_string());
            assert_eq!(message, "relative URL without a base");
        }
        other => panic!("unexpected {other:?}"),
    }
}

#[test]
fn checked_headers_refuse_control_characters() {
    let ok = checked_default_headers("https://www.tradingview.com", Some("test-session")).unwrap();
    assert_eq!(ok.len(), 3);
    assert_eq!(ok[1].1, "https://www.tradingview.com/");
    assert_eq!(ok[2].1, "sessionid=test-session");
    assert!(checked_default_headers("https://x.test/\u{e9}\t", None).is_ok());
    assert!(matches!(
        checked_default_headers("https://x.test/\n", Some("s")),
        Err(Error::Protocol("invalid site origin configured for reqwest client"))
    ));
    assert!(matches!(
        checked_default_headers("https://x.test", Some("bad\u{7f}")),
        Err(Error::Protocol("invalid session id configured for cookie header"))
    ));
}

#[test]
fn handshake_headers_are_checked_in_order() {
    let ok = websocket_handshake_headers("https://data.tradingview.com", "agent/1", None).unwrap();
    assert_eq!(ok.len(), 2);
    assert!(matches!(ok[0].0, HandshakeHeader::Origin));
    assert_eq!(ok[0].1, "https://data.tradingview.com");
    assert!(matches!(ok[1].0, HandshakeHeader::UserAgent));
    assert_eq!(ok[1].1, "agent/1");
    let with = websocket_handshake_headers("https://d.test", "a", Some("abc")).unwrap();
    assert!(matches!(with[2].0, HandshakeHeader::Cookie));
    assert_eq!(with[2].1, "sessionid=abc");
    assert!(matches!(
        websocket_handshake_headers("https://d.test", "bad\r\n", Some("abc")),
        Err(Error::Protocol("failed to encode websocket user agent header"))
    ));
    assert!(matches!(
        websocket_handshake_headers("https://d.test", "a", Some("x\u{0}")),
        Err(Error::Protocol("failed to encode websocket cookie header"))
    ));
    assert!(matches!(
        websocket_handshake_headers("\u{1}", "bad\r\n", None),
        Err(Error::Protocol("failed to encode websocket origin header"))
    ));
}
