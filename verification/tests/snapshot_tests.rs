use tvdata_rs::scanner::{FilterOperator, FilterValue};
use tvdata_rs::snapshot::{row_for_symbol, rows_for_requested, unique_tickers};
use tvdata_rs::{Column, Error, Market, Ticker};

fn tickers(names: &[&'static str]) -> Vec<Ticker> {
    names.iter().map(|n| Ticker::from_static(n)).collect()
}

#[test]
fn requested_tickers_are_deduplicated_in_order() {
    let unique = unique_tickers(&tickers(&["NASDAQ:AAPL", "NYSE:IBM", "NASDAQ:AAPL", "FX:EURUSD"]));
    let names: Vec<&str> = unique.iter().map(|t| t.as_str()).collect();
    assert_eq!(names, vec!["NASDAQ:AAPL", "NYSE:IBM", "FX:EURUSD"]);
}

#[test]
fn each_request_finds_its_row() {
    let rows = vec!["NYSE:IBM".to_string(), "NASDAQ:AAPL".to_string(), "NYSE:IBM".to_string()];
    let idx = rows_for_requested(&tickers(&["NASDAQ:AAPL", "NYSE:IBM", "NASDAQ:AAPL"]), &rows).unwrap();
    assert_eq!(idx, vec![1, 2, 1]);
    match rows_for_requested(&tickers(&["NASDAQ:AAPL", "NASDAQ:MSFT", "X:Y"]), &rows) {
        Err(Error::SymbolNotFound { symbol }) => assert_eq!(symbol, "NASDAQ:MSFT"),
        other => panic!("unexpected {other:?}"),
    }
}

#[test]
fn single_symbol_lookup() {
    let rows = vec!["NYSE:IBM".to_string(), "NASDAQ:AAPL".to_string(), "NASDAQ:AAPL".to_string()];
    assert_eq!(row_for_symbol(&rows, "NASDAQ:AAPL").unwrap(), 1);
    match row_for_symbol(&rows, "FX:EURUSD") {
        Err(Error::SymbolNotFound { symbol }) => assert_eq!(symbol, "FX:EURUSD"),
        other => panic!("unexpected {other:?}"),
    }
}

#[test]
fn names_convert_from_owned_strings() {
    assert_eq!(Column::from("close".to_string()).as_str(), "close");
    assert_eq!(Market::from("crypto".to_string()).as_str(), "crypto");
    assert_eq!(Ticker::from("NASDAQ:AAPL".to_string()).as_str(), "NASDAQ:AAPL");
}

#[test]
fn snapshot_scan_lists_each_ticker_once() {
    let (unique, from, to) = tvdata_rs::snapshot::snapshot_query_columns_and_page(&tickers(&[
        "NASDAQ:AAPL",
        "NYSE:IBM",
        "NASDAQ:AAPL",
        "NYSE:IBM",
        "FX:EURUSD",
    ]));
    let names: Vec<&str> = unique.iter().map(|t| t.as_str()).collect();
    assert_eq!(names, vec!["NASDAQ:AAPL", "NYSE:IBM", "FX:EURUSD"]);
    assert_eq!((from, to), (0, 3));
    let (none, from, to) = tvdata_rs::snapshot::snapshot_query_columns_and_page(&Vec::new());
    assert!(none.is_empty());
    assert_eq!((from, to), (0, 0));
}

#[test]
fn market_quote_scan_filters_and_page() {
    let with_volume = tvdata_rs::snapshot::market_quote_filters(true);
    assert_eq!(with_volume.len(), 2);
    assert_eq!(with_volume[0].left.as_str(), "close");
    assert_eq!(with_volume[0].operation, FilterOperator::Greater);
    assert!(matches!(with_volume[0].right, FilterValue::Int(0)));
    assert_eq!(with_volume[1].left.as_str(), "volume");
    assert_eq!(with_volume[1].operation, FilterOperator::Greater);
    assert!(matches!(with_volume[1].right, FilterValue::Int(0)));
    let close_only = tvdata_rs::snapshot::market_quote_filters(false);
    assert_eq!(close_only.len(), 1);
    assert_eq!(close_only[0].left.as_str(), "close");
    assert_eq!(tvdata_rs::snapshot::market_quote_page(25).unwrap(), (0, 25));
    assert!(matches!(
        tvdata_rs::snapshot::market_quote_page(0),
        Err(Error::InvalidPageLimit)
    ));
}
