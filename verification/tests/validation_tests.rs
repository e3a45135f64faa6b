use tvdata_rs::validation::build_validation_report;
use tvdata_rs::{Column, Market};

#[test]
fn columns_are_sorted_by_support() {
    let markets = vec![Market::from_static("america"), Market::from_static("crypto")];
    let columns = vec![
        Column::from_static("close"),
        Column::from_static("market_cap_basic"),
        Column::from_static("imaginary_field"),
        Column::from_static("close"),
    ];
    let support = vec![
        vec![true, true],
        vec![true, false],
        vec![false, false],
        vec![false, false],
    ];
    let report = build_validation_report("global".to_string(), markets, &columns, &support);
    assert_eq!(report.route_segment, "global");
    assert_eq!(report.requested_markets.len(), 2);
    let names = |v: &Vec<Column>| v.iter().map(|c| c.as_str().to_string()).collect::<Vec<_>>();
    assert_eq!(names(&report.supported_columns), vec!["close"]);
    assert_eq!(names(&report.unsupported_columns), vec!["imaginary_field"]);
    assert_eq!(report.partially_supported_columns.len(), 1);
    let partial = &report.partially_supported_columns[0];
    assert_eq!(partial.column.as_str(), "market_cap_basic");
    assert_eq!(partial.supported_markets[0].as_str(), "america");
    assert_eq!(partial.unsupported_markets[0].as_str(), "crypto");
}

#[test]
fn without_markets_nothing_is_reported() {
    let columns = vec![Column::from_static("close")];
    let report = build_validation_report(String::new(), Vec::new(), &columns, &vec![vec![]]);
    assert!(report.supported_columns.is_empty());
    assert!(report.partially_supported_columns.is_empty());
    assert!(report.unsupported_columns.is_empty());
}

fn sample_report() -> tvdata_rs::ScanValidationReport {
    let markets = vec![Market::from_static("america"), Market::from_static("crypto")];
    let columns = vec![
        Column::from_static("close"),
        Column::from_static("market_cap_basic"),
        Column::from_static("imaginary_field"),
        Column::from_static("volume"),
    ];
    let support = vec![
        vec![true, true],
        vec![true, false],
        vec![false, false],
        vec![true, true],
    ];
    build_validation_report("global".to_string(), markets, &columns, &support)
}

#[test]
fn filtering_keeps_supported_columns_in_request_order() {
    let report = sample_report();
    let requested = vec![
        Column::from_static("volume"),
        Column::from_static("imaginary_field"),
        Column::from_static("close"),
        Column::from_static("market_cap_basic"),
    ];
    let kept = tvdata_rs::validation::filter_supported_columns(&report, &requested).unwrap();
    let names: Vec<&str> = kept.iter().map(|c| c.as_str()).collect();
    assert_eq!(names, vec!["volume", "close"]);
}

#[test]
fn filtering_everything_away_is_an_error() {
    let report = sample_report();
    let requested = vec![Column::from_static("imaginary_field")];
    match tvdata_rs::validation::filter_supported_columns(&report, &requested) {
        Err(tvdata_rs::Error::UnsupportedScanFields { route, fields }) => {
            assert_eq!(route, "global");
            assert_eq!(fields, vec!["market_cap_basic".to_string(), "imaginary_field".to_string()]);
        }
        other => panic!("unexpected {other:?}"),
    }
}

#[test]
fn strict_support_lists_partial_then_unsupported() {
    match tvdata_rs::validation::require_strict_support(&sample_report()) {
        Err(tvdata_rs::Error::UnsupportedScanFields { route, fields }) => {
            assert_eq!(route, "global");
            assert_eq!(fields, vec!["market_cap_basic".to_string(), "imaginary_field".to_string()]);
        }
        other => panic!("unexpected {other:?}"),
    }
    let markets = vec![Market::from_static("america")];
    let columns = vec![Column::from_static("close")];
    let report = build_validation_report("america".to_string(), markets, &columns, &vec![vec![true]]);
    assert!(tvdata_rs::validation::require_strict_support(&report).is_ok());
}
