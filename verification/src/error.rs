//! The library's error type and its classification into coarse kinds.
use vstd::prelude::*;

use crate::client::RetryDelay;

verus! {

/// Coarse classification of an [`Error`], for callers that decide on retries or reporting.
#[derive(Debug, Clone, Copy, PartialEq, Eq, Structural)]
pub enum ErrorKind {
    RateLimited,
    AuthRequired,
    SymbolNotFound,
    Transport,
    Protocol,
    Unsupported,
    Api,
}

/// Everything that can go wrong in the library.
///
/// Failures that originate in the HTTP or websocket stacks, in JSON decoding,
/// in time formatting or in URL parsing are carried as their rendered message,
/// and an HTTP status is carried as its numeric code.
#[derive(Debug)]
#[allow(inconsistent_fields)]
pub enum Error {
    Http(String),
    WebSocket(String),
    Json(String),
    TimeFormat(String),
    UrlParse(String),
    ApiMessage(String),
    ApiStatus { status: u16, body: String },
    EmptySearchQuery,
    InvalidPageLimit,
    HistoryEmpty { symbol: String },
    SymbolNotFound { symbol: String },
    ScanValidationUnavailable { reason: String },
    UnsupportedScanFields { route: String, fields: Vec<String> },
    QuoteEmpty { symbol: String },
    QuoteSymbolFailed { symbol: String, status: String },
    InvalidBatchConcurrency,
    HistoryPaginationLimitExceeded { symbol: String, rounds: usize },
    HistoryDownloadFailed { symbol: String, source: Box<Error> },
    /// The minimum retry interval exceeds the maximum.
    InvalidRetryBounds { min: RetryDelay, max: RetryDelay },
    Protocol(&'static str),
}

/// HTTP 429.
pub open spec fn is_too_many_requests(status: u16) -> bool {
    status == 429
}

/// HTTP 401 or 403.
pub open spec fn is_auth_status(status: u16) -> bool {
    status == 401 || status == 403
}

/// HTTP 5xx.
pub open spec fn is_server_error_status(status: u16) -> bool {
    500 <= status <= 599
}

/// The kind of an error; a failed history download takes the kind of its cause.
pub open spec fn spec_kind(e: Error) -> ErrorKind
    decreases e,
{
    match e {
        Error::Http(_) | Error::WebSocket(_) => ErrorKind::Transport,
        Error::Json(_)
        | Error::TimeFormat(_)
        | Error::UrlParse(_)
        | Error::InvalidPageLimit
        | Error::InvalidBatchConcurrency
        | Error::InvalidRetryBounds { .. }
        | Error::Protocol(_)
        | Error::HistoryPaginationLimitExceeded { .. } => ErrorKind::Protocol,
        Error::EmptySearchQuery | Error::ApiMessage(_) => ErrorKind::Api,
        Error::ApiStatus { status, .. } => if is_too_many_requests(status) {
            ErrorKind::RateLimited
        } else if is_auth_status(status) {
            ErrorKind::AuthRequired
        } else {
            ErrorKind::Api
        },
        Error::HistoryEmpty { .. }
        | Error::SymbolNotFound { .. }
        | Error::QuoteEmpty { .. }
        | Error::QuoteSymbolFailed { .. } => ErrorKind::SymbolNotFound,
        Error::ScanValidationUnavailable { .. }
        | Error::UnsupportedScanFields { .. } => ErrorKind::Unsupported,
        Error::HistoryDownloadFailed { source, .. } => spec_kind(*source),
    }
}

/// Whether retrying the failed operation may succeed: rate limiting and
/// transport failures, and API answers with a 5xx status.
pub open spec fn spec_is_retryable(e: Error) -> bool {
    match spec_kind(e) {
        ErrorKind::RateLimited | ErrorKind::Transport => true,
        ErrorKind::Api => e matches Error::ApiStatus { status, .. } && is_server_error_status(status),
        _ => false,
    }
}

impl Error {
    pub fn kind(&self) -> (k: ErrorKind)
        ensures
            k == spec_kind(*self),
        decreases self,
    {
        match self {
            Error::Http(_) | Error::WebSocket(_) => ErrorKind::Transport,
            Error::Json(_)
            | Error::TimeFormat(_)
            | Error::UrlParse(_)
            | Error::InvalidPageLimit
            | Error::InvalidBatchConcurrency
            | Error::InvalidRetryBounds { .. }
            | Error::Protocol(_) => ErrorKind::Protocol,
            Error::EmptySearchQuery | Error::ApiMessage(_) => ErrorKind::Api,
            Error::ApiStatus { status, .. } => {
                if *status == 429 {
                    ErrorKind::RateLimited
                } else if *status == 401 || *status == 403 {
                    ErrorKind::AuthRequired
                } else {
                    ErrorKind::Api
                }
            },
            Error::HistoryEmpty { .. }
            | Error::SymbolNotFound { .. }
            | Error::QuoteEmpty { .. }
            | Error::QuoteSymbolFailed { .. } => ErrorKind::SymbolNotFound,
            Error::ScanValidationUnavailable { .. }
            | Error::UnsupportedScanFields { .. } => ErrorKind::Unsupported,
            Error::HistoryPaginationLimitExceeded { .. } => ErrorKind::Protocol,
            Error::HistoryDownloadFailed { source, .. } => source.kind(),
        }
    }

    pub fn is_retryable(&self) -> (r: bool)
        ensures
            r == spec_is_retryable(*self),
    {
        match self.kind() {
            ErrorKind::RateLimited | ErrorKind::Transport => true,
            ErrorKind::AuthRequired
            | ErrorKind::SymbolNotFound
            | ErrorKind::Protocol
            | ErrorKind::Unsupported => false,
            ErrorKind::Api => match self {
                Error::ApiStatus { status, .. } => 500 <= *status && *status <= 599,
                _ => false,
            },
        }
    }
}


/// The kind of each error: transport failures are `Transport`; decoding,
/// formatting, URL, configuration and framing faults are `Protocol`; an empty
/// search and an API message are `Api`; an HTTP status is `RateLimited` for
/// 429, `AuthRequired` for 401 and 403 and `Api` otherwise; every error that
/// reports a symbol without data is `SymbolNotFound`; refused scans are
/// `Unsupported`; a failed history download has the kind of its cause.
pub proof fn law_error_kinds(e: Error)
    ensures
        (e is Http || e is WebSocket) ==> spec_kind(e) == ErrorKind::Transport,
        (e is Json || e is TimeFormat || e is UrlParse || e is InvalidPageLimit
            || e is InvalidBatchConcurrency || e is InvalidRetryBounds || e is Protocol
            || e is HistoryPaginationLimitExceeded) ==> spec_kind(e) == ErrorKind::Protocol,
        (e is EmptySearchQuery || e is ApiMessage) ==> spec_kind(e) == ErrorKind::Api,
        e matches Error::ApiStatus { status, .. } ==> spec_kind(e) == (if status == 429 {
            ErrorKind::RateLimited
        } else if status == 401 || status == 403 {
            ErrorKind::AuthRequired
        } else {
            ErrorKind::Api
        }),
        (e is HistoryEmpty || e is SymbolNotFound || e is QuoteEmpty || e is QuoteSymbolFailed)
            ==> spec_kind(e) == ErrorKind::SymbolNotFound,
        (e is ScanValidationUnavailable || e is UnsupportedScanFields) ==> spec_kind(e)
            == ErrorKind::Unsupported,
        e matches Error::HistoryDownloadFailed { source, .. } ==> spec_kind(e) == spec_kind(*source),
{
}

/// Retrying may help exactly for rate limiting, transport failures and API
/// answers with a 5xx status (and for a failed download whose cause is rate
/// limiting or a transport failure).
pub proof fn law_retryable_errors(e: Error)
    ensures
        (e is Http || e is WebSocket) ==> spec_is_retryable(e),
        e matches Error::ApiStatus { status, .. } ==> (spec_is_retryable(e) <==> (status == 429
            || 500 <= status <= 599)),
        (e is HistoryEmpty || e is SymbolNotFound || e is QuoteEmpty || e is QuoteSymbolFailed
            || e is Json || e is UrlParse || e is Protocol || e is EmptySearchQuery
            || e is ApiMessage || e is ScanValidationUnavailable || e is UnsupportedScanFields)
            ==> !spec_is_retryable(e),
        e matches Error::HistoryDownloadFailed { source, .. } ==> (spec_is_retryable(e) <==> (
        spec_kind(*source) == ErrorKind::RateLimited || spec_kind(*source)
            == ErrorKind::Transport)),
{
}

} // verus!
