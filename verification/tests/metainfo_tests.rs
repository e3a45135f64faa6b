use tvdata_rs::metainfo::{supports_column_for_market, MetainfoField, ScannerMetainfo};
use tvdata_rs::Market;

fn metainfo(names: &[&str]) -> ScannerMetainfo {
    ScannerMetainfo {
        financial_currency: Some("USD".to_string()),
        fields: names
            .iter()
            .map(|n| MetainfoField { name: n.to_string(), field_type: "price".to_string() })
            .collect(),
    }
}

#[test]
fn metainfo_lists_its_fields() {
    let info = metainfo(&["close", "country"]);
    assert!(info.supports_field("close"));
    assert!(!info.supports_field("volume"));
    assert_eq!(info.field("country").map(|f| f.name.as_str()), Some("country"));
    assert!(info.field("open").is_none());
}

#[test]
fn registry_backs_fields_missing_from_live_metainfo() {
    let info = metainfo(&["close"]);
    let registry = vec!["name".to_string(), "close".to_string()];
    let america = Market::from_static("america");
    assert!(supports_column_for_market(&america, &info, &registry, "close"));
    assert!(supports_column_for_market(&america, &info, &registry, "name"));
    assert!(!supports_column_for_market(&america, &info, &registry, "volume"));
    // A market without a screener kind has no registry to fall back on.
    let cfd = Market::from_static("cfd");
    assert!(!supports_column_for_market(&cfd, &info, &registry, "name"));
    assert!(supports_column_for_market(&cfd, &info, &registry, "close"));
}
