use longport::symbol::{is_cn, normalize_symbol};

#[test]
fn hk_leading_zeros_are_stripped() {
    assert_eq!(normalize_symbol("0700.HK"), "700.HK");
    assert_eq!(normalize_symbol("00700.HK"), "700.HK");
    assert_eq!(normalize_symbol("0700.hk"), "700.hk");
}

#[test]
fn subscribe_and_unsubscribe_name_one_key() {
    // "0700.HK" and "700.HK" refer to the same subscription key.
    assert_eq!(normalize_symbol("0700.HK"), normalize_symbol("700.HK"));
}

#[test]
fn other_markets_are_unchanged() {
    assert_eq!(normalize_symbol("AAPL.US"), "AAPL.US");
    assert_eq!(normalize_symbol("000001.SG"), "000001.SG");
    assert_eq!(normalize_symbol("0005"), "0005");
    assert_eq!(normalize_symbol("0700.HKEX"), "0700.HKEX");
}

#[test]
fn test_var() {
    assert!(is_cn(Some("CN")));
    assert!(!is_cn(Some("SG")));
}

#[test]
fn region_compare_ignores_ascii_case() {
    assert!(is_cn(Some("cn")));
    assert!(is_cn(Some("Cn")));
    assert!(!is_cn(Some("CNX")));
    assert!(!is_cn(None));
}
