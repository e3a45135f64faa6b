use tvdata_rs::history::{default_history_batch_concurrency, default_history_max_chunk_bars};
use tvdata_rs::{Adjustment, HistoryBatchRequest, HistoryRequest, Interval, Ticker, TradingSession};

#[test]
fn interval_codes() {
    assert_eq!(Interval::Min1.as_code(), "1");
    assert_eq!(Interval::Min45.as_code(), "45");
    assert_eq!(Interval::Hour4.as_code(), "4H");
    assert_eq!(Interval::Day1.as_code(), "1D");
    assert_eq!(Interval::Week1.as_code(), "1W");
    assert_eq!(Interval::Month1.as_code(), "1M");
    assert_eq!(Interval::Custom("2D").as_code(), "2D");
    assert_eq!(TradingSession::Extended.as_code(), "extended");
    assert_eq!(TradingSession::default().as_code(), "regular");
    assert_eq!(Adjustment::default().as_code(), "splits");
    assert_eq!(Adjustment::Unadjusted.as_code(), "none");
}

#[test]
fn single_requests() {
    let request = HistoryRequest::new(Ticker::from_static("NASDAQ:AAPL"), Interval::Day1, 100);
    assert_eq!(request.bars, 100);
    assert!(!request.fetch_all);
    assert_eq!(request.session, TradingSession::Regular);
    assert_eq!(request.adjustment, Adjustment::Splits);

    let max = HistoryRequest::max(Ticker::from_static("NASDAQ:AAPL"), Interval::Day1);
    assert_eq!(max.bars, default_history_max_chunk_bars());
    assert_eq!(max.bars, 5000);
    assert!(max.fetch_all);

    let tuned = request
        .session(TradingSession::Extended)
        .adjustment(Adjustment::Unadjusted)
        .fetch_all();
    assert_eq!(tuned.session, TradingSession::Extended);
    assert_eq!(tuned.adjustment, Adjustment::Unadjusted);
    assert!(tuned.fetch_all);
    assert_eq!(tuned.bars, 100);
    assert_eq!(tuned.symbol.as_str(), "NASDAQ:AAPL");
}

#[test]
fn batch_requests_expand_per_symbol() {
    let batch = HistoryBatchRequest::new(
        vec![Ticker::from_static("NASDAQ:AAPL"), Ticker::from_static("NASDAQ:MSFT")],
        Interval::Hour1,
        30,
    )
    .push_symbol(Ticker::from_static("NYSE:IBM"))
    .fetch_all();
    assert_eq!(batch.concurrency, default_history_batch_concurrency());
    assert_eq!(batch.concurrency, 4);
    let requests = batch.to_requests();
    let symbols: Vec<&str> = requests.iter().map(|r| r.symbol.as_str()).collect();
    assert_eq!(symbols, vec!["NASDAQ:AAPL", "NASDAQ:MSFT", "NYSE:IBM"]);
    for r in &requests {
        assert_eq!(r.interval, Interval::Hour1);
        assert_eq!(r.bars, 30);
        assert!(r.fetch_all);
        assert_eq!(r.session, TradingSession::Regular);
        assert_eq!(r.adjustment, Adjustment::Splits);
    }

    let max = HistoryBatchRequest::max(vec![Ticker::from_static("FX:EURUSD")], Interval::Day1)
        .symbols(vec![Ticker::from_static("FX:GBPUSD")]);
    assert_eq!(max.bars, 5000);
    assert!(max.fetch_all);
    assert_eq!(max.to_requests()[0].symbol.as_str(), "FX:GBPUSD");
}
