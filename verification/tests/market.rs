use okx_client::restful::market::{
    market_books_request, market_history_candles_request, market_ticker_request,
    market_tickers_request,
};
use okx_client::restful::params::{compare_keys, KeyOrder, QueryParams};

fn pairs(p: &QueryParams) -> Vec<(&str, &str)> {
    p.entries().iter().map(|(k, v)| (k.as_str(), v.as_str())).collect()
}

#[test]
fn tickers_request_all_parameters() {
    let r = market_tickers_request(
        "SWAP".to_string(),
        Some("BTC-USD".to_string()),
        Some("BTC-USD".to_string()),
    );
    assert_eq!(r.path, "/api/v5/market/tickers");
    assert_eq!(
        pairs(&r.params),
        vec![("instFamily", "BTC-USD"), ("instType", "SWAP"), ("uly", "BTC-USD")]
    );
}

#[test]
fn tickers_request_type_only() {
    let r = market_tickers_request("SPOT".to_string(), None, None);
    assert_eq!(pairs(&r.params), vec![("instType", "SPOT")]);
}

#[test]
fn ticker_request() {
    let r = market_ticker_request("BTC-USDT".to_string());
    assert_eq!(r.path, "/api/v5/market/ticker");
    assert_eq!(pairs(&r.params), vec![("instId", "BTC-USDT")]);
    assert_eq!(r.params.len(), 1);
}

#[test]
fn books_request() {
    let r = market_books_request("BTC-USDT".to_string(), Some("5".to_string()));
    assert_eq!(r.path, "/api/v5/market/books");
    assert_eq!(pairs(&r.params), vec![("instId", "BTC-USDT"), ("sz", "5")]);
    let r = market_books_request("ETH-USDT".to_string(), None);
    assert_eq!(pairs(&r.params), vec![("instId", "ETH-USDT")]);
}

#[test]
fn history_candles_request() {
    let r = market_history_candles_request(
        "BTC-USDT".to_string(),
        Some("1597026383085".to_string()),
        Some("1597026383000".to_string()),
        Some("1m".to_string()),
        Some("100".to_string()),
    );
    assert_eq!(r.path, "/api/v5/market/history-candles");
    assert_eq!(
        pairs(&r.params),
        vec![
            ("after", "1597026383085"),
            ("bar", "1m"),
            ("before", "1597026383000"),
            ("instId", "BTC-USDT"),
            ("limit", "100"),
        ]
    );
    let r = market_history_candles_request("BTC-USDT".to_string(), None, None, Some("1H".to_string()), None);
    assert_eq!(pairs(&r.params), vec![("bar", "1H"), ("instId", "BTC-USDT")]);
}

#[test]
fn params_keep_key_order_and_replace() {
    let mut p = QueryParams::new();
    p.insert("b".to_string(), "1".to_string());
    p.insert("a".to_string(), "2".to_string());
    p.insert("ab".to_string(), "3".to_string());
    p.insert("b".to_string(), "4".to_string());
    p.insert("B".to_string(), "5".to_string());
    assert_eq!(pairs(&p), vec![("B", "5"), ("a", "2"), ("ab", "3"), ("b", "4")]);
    assert_eq!(p.get("b").map(|s| s.as_str()), Some("4"));
    assert_eq!(p.get("c"), None);
    assert_eq!(p.len(), 4);
}

#[test]
fn params_order_matches_btreemap() {
    let keys = ["uly", "instFamily", "instType", "zz", "Z", "a", "", "é", "e", "instId", "inst"];
    let mut p = QueryParams::new();
    let mut m = std::collections::BTreeMap::new();
    for (i, k) in keys.iter().enumerate() {
        p.insert(k.to_string(), i.to_string());
        m.insert(k.to_string(), i.to_string());
    }
    let ours: Vec<(String, String)> = p.entries().clone();
    let theirs: Vec<(String, String)> = m.into_iter().collect();
    assert_eq!(ours, theirs);
}

#[test]
fn key_comparison() {
    assert_eq!(compare_keys("a", "b"), KeyOrder::Less);
    assert_eq!(compare_keys("ab", "a"), KeyOrder::Greater);
    assert_eq!(compare_keys("", ""), KeyOrder::Equal);
    assert_eq!(compare_keys("instId", "instType"), KeyOrder::Less);
}
