use tvdata_rs::scanner::{FilterOperator, FilterValue, SortOrder};
use tvdata_rs::{Column, InstrumentRef, Market, Ticker};

#[test]
fn normalizes_internal_us_equity_symbols() {
    let ticker = Ticker::from_exchange_symbol("NYSE", "BRK-B");
    assert_eq!(ticker.as_str(), "NYSE:BRK.B");
}

#[test]
fn normalizes_forex_pairs() {
    let instrument = InstrumentRef::from_exchange_symbol("FX", "eur/usd");
    assert_eq!(instrument.to_ticker().as_str(), "FX:EURUSD");
}

#[test]
fn instrument_new_trims_and_uppercases_exchange_only() {
    let instrument = InstrumentRef::new(" nasdaq\t", "\u{3000}aapl ");
    assert_eq!(instrument.exchange, "NASDAQ");
    assert_eq!(instrument.symbol, "aapl");
}

#[test]
fn internal_us_equity_uppercases_and_dots_share_class() {
    let instrument = InstrumentRef::from_internal_us_equity("nyse", " brk-a ");
    assert_eq!(instrument.exchange, "NYSE");
    assert_eq!(instrument.symbol, "BRK.A");
    assert_eq!(instrument.to_ticker().as_str(), "NYSE:BRK.A");
}

#[test]
fn other_venues_only_uppercase() {
    let ticker = Ticker::from_exchange_symbol("binance", "btc-usdt");
    assert_eq!(ticker.as_str(), "BINANCE:BTC-USDT");
    let forex = Ticker::from_exchange_symbol("oanda", "gbp_jpy");
    assert_eq!(forex.as_str(), "OANDA:GBPJPY");
}

#[test]
fn blank_parts_trim_to_empty() {
    let instrument = InstrumentRef::new("   ", "\n");
    assert_eq!(instrument.exchange, "");
    assert_eq!(instrument.symbol, "");
}

#[test]
fn ticker_from_parts_joins_with_colon() {
    assert_eq!(Ticker::from_parts("NASDAQ", "AAPL").as_str(), "NASDAQ:AAPL");
    assert_eq!(Ticker::from_static("FX:EURUSD").to_text(), "FX:EURUSD");
    assert_eq!(Ticker::new("X:Y".to_string()).as_str(), "X:Y");
}

#[test]
fn column_derivations() {
    let close = Column::from_static("close");
    assert_eq!(close.with_interval("60").as_str(), "close|60");
    assert_eq!(close.with_history(3).as_str(), "close[3]");
    assert_eq!(close.with_history(65535).as_str(), "close[65535]");
    assert_eq!(Column::new("RSI".to_string()).recommendation().as_str(), "Rec.RSI");
    assert_eq!(Market::from_static("america").as_str(), "america");
    assert_eq!(Market::new("crypto".to_string()).as_str(), "crypto");
}

#[test]
fn column_filters_carry_operator_and_value() {
    let c = Column::from_static("close").gt(5);
    assert_eq!(c.left.as_str(), "close");
    assert_eq!(c.operation, FilterOperator::Greater);
    assert!(matches!(c.right, FilterValue::Int(5)));

    let c = Column::from_static("volume").between(10u64, 20u64);
    assert_eq!(c.operation, FilterOperator::InRange);
    match c.right {
        FilterValue::List(values) => {
            assert_eq!(values.len(), 2);
            assert!(matches!(values[0], FilterValue::UInt(10)));
            assert!(matches!(values[1], FilterValue::UInt(20)));
        }
        other => panic!("unexpected value {other:?}"),
    }

    let c = Column::from_static("exchange").isin(vec!["NASDAQ".to_string(), "NYSE".to_string()]);
    assert_eq!(c.operation, FilterOperator::InRange);
    match c.right {
        FilterValue::List(values) => {
            assert_eq!(values.len(), 2);
            assert!(matches!(&values[1], FilterValue::Text(t) if t == "NYSE"));
        }
        other => panic!("unexpected value {other:?}"),
    }

    let c = Column::from_static("name").not_empty();
    assert_eq!(c.operation, FilterOperator::NotEmpty);
    assert!(matches!(c.right, FilterValue::Null));

    let c = Column::from_static("close").above_pct(Column::from_static("open").to_text(), 3);
    assert_eq!(c.operation, FilterOperator::AbovePercent);

    let s = Column::from_static("market_cap_basic").sort(SortOrder::Desc);
    assert_eq!(s.sort_by.as_str(), "market_cap_basic");
    assert_eq!(s.sort_order, SortOrder::Desc);
}

#[test]
fn normalizing_twice_changes_nothing() {
    for (exchange, symbol) in [(" fx ", " eur/usd "), ("nyse", "brk-b"), ("binance", " btc-usdt")] {
        let once = InstrumentRef::from_exchange_symbol(exchange, symbol);
        let twice = InstrumentRef::from_exchange_symbol(&once.exchange, &once.symbol);
        assert_eq!(once, twice);
    }
}

#[test]
fn ticker_from_instrument_matches_to_ticker() {
    let instrument = InstrumentRef::new(" nasdaq ", " AAPL ");
    let via_from = Ticker::from(instrument.clone());
    assert_eq!(via_from.as_str(), instrument.to_ticker().as_str());
    assert_eq!(via_from.as_str(), "NASDAQ:AAPL");
}
