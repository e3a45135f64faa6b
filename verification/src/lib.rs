//! Verified core of a client for TradingView's data surfaces: scanner
//! vocabulary and filters, history requests, client configuration, scan
//! validation, error classification, and the chart websocket's message framing.
use vstd::prelude::*;

pub mod cache;
pub mod client;
pub mod error;
pub mod history;
pub mod metainfo;
pub mod scanner;
pub mod snapshot;
pub mod text;
pub mod transport;
pub mod utf8_facts;
pub mod validation;

pub use client::{BackoffPolicy, Endpoints, RetryConfig, RetryDelay, RetryJitter, ScreenerKind};
pub use error::{Error, ErrorKind};
pub use history::{Adjustment, HistoryBatchRequest, HistoryRequest, Interval, TradingSession};
pub use scanner::{
    Column, FilterCondition, FilterOperator, FilterValue, InstrumentRef, IntoFilterValue, Market,
    SortOrder, SortSpec, Ticker,
};
pub use transport::{format_session_id, frame_payload, parse_framed_messages};
pub use validation::{PartiallySupportedColumn, ScanValidationReport};

verus! {

} // verus!
