use tvdata_rs::{Error, ErrorKind, RetryDelay};

#[test]
fn kinds_and_retries() {
    let cases: Vec<(Error, ErrorKind, bool)> = vec![
        (Error::Http("reset".into()), ErrorKind::Transport, true),
        (Error::WebSocket("closed".into()), ErrorKind::Transport, true),
        (Error::Json("eof".into()), ErrorKind::Protocol, false),
        (Error::Protocol("bad"), ErrorKind::Protocol, false),
        (
            Error::InvalidRetryBounds { min: RetryDelay::from_secs(2), max: RetryDelay::from_secs(1) },
            ErrorKind::Protocol,
            false,
        ),
        (Error::EmptySearchQuery, ErrorKind::Api, false),
        (Error::ApiMessage("nope".into()), ErrorKind::Api, false),
        (Error::ApiStatus { status: 429, body: String::new() }, ErrorKind::RateLimited, true),
        (Error::ApiStatus { status: 401, body: String::new() }, ErrorKind::AuthRequired, false),
        (Error::ApiStatus { status: 403, body: String::new() }, ErrorKind::AuthRequired, false),
        (Error::ApiStatus { status: 503, body: String::new() }, ErrorKind::Api, true),
        (Error::ApiStatus { status: 404, body: String::new() }, ErrorKind::Api, false),
        (Error::SymbolNotFound { symbol: "X".into() }, ErrorKind::SymbolNotFound, false),
        (Error::QuoteSymbolFailed { symbol: "X".into(), status: "error".into() }, ErrorKind::SymbolNotFound, false),
        (Error::UnsupportedScanFields { route: "america".into(), fields: vec![] }, ErrorKind::Unsupported, false),
        (Error::HistoryPaginationLimitExceeded { symbol: "X".into(), rounds: 9 }, ErrorKind::Protocol, false),
        (
            Error::HistoryDownloadFailed {
                symbol: "X".into(),
                source: Box::new(Error::ApiStatus { status: 429, body: String::new() }),
            },
            ErrorKind::RateLimited,
            true,
        ),
        (
            Error::HistoryDownloadFailed {
                symbol: "X".into(),
                source: Box::new(Error::ApiStatus { status: 500, body: String::new() }),
            },
            ErrorKind::Api,
            false,
        ),
    ];
    for (error, kind, retryable) in cases {
        assert_eq!(error.kind(), kind, "{error:?}");
        assert_eq!(error.is_retryable(), retryable, "{error:?}");
    }
}
