use vstd::prelude::*;

use crate::restful::params::{keys_sorted, QueryParams};

verus! {

/// A GET request of the OKX REST API: the endpoint's path and its query
/// parameters.
pub struct RestRequest {
    pub path: String,
    pub params: QueryParams,
}

/// `m` with `k` set to the text of `v` when there is one.
pub open spec fn insert_if_some(
    m: Map<Seq<char>, Seq<char>>,
    k: Seq<char>,
    v: Option<String>,
) -> Map<Seq<char>, Seq<char>> {
    match v {
        Some(s) => m.insert(k, s@),
        None => m,
    }
}

fn set_param(params: &mut QueryParams, key: &str, value: String)
    ensures
        final(params)@ == old(params)@.insert(key@, value@),
        keys_sorted(final(params).pairs()),
{
    params.insert(String::from_str(key), value);
}

fn set_param_if_some(params: &mut QueryParams, key: &str, value: Option<String>)
    requires
        keys_sorted(old(params).pairs()),
    ensures
        final(params)@ == insert_if_some(old(params)@, key@, value),
        keys_sorted(final(params).pairs()),
{
    match value {
        Some(v) => set_param(params, key, v),
        None => {},
    }
}

/// `GET /api/v5/market/tickers`: the tickers of every instrument of a type,
/// narrowed to an underlying or an instrument family when one is given.
pub fn market_tickers_request(
    inst_type: String,
    uly: Option<String>,
    inst_family: Option<String>,
) -> (r: RestRequest)
    ensures
        r.path@ == "/api/v5/market/tickers"@,
        r.params@ == insert_if_some(
            insert_if_some(Map::empty(), "uly"@, uly),
            "instFamily"@,
            inst_family,
        ).insert("instType"@, inst_type@),
        keys_sorted(r.params.pairs()),
{
    let mut params = QueryParams::new();
    set_param_if_some(&mut params, "uly", uly);
    set_param_if_some(&mut params, "instFamily", inst_family);
    set_param(&mut params, "instType", inst_type);
    RestRequest { path: String::from_str("/api/v5/market/tickers"), params }
}

/// `GET /api/v5/market/ticker`: the ticker of one instrument.
pub fn market_ticker_request(inst_id: String) -> (r: RestRequest)
    ensures
        r.path@ == "/api/v5/market/ticker"@,
        r.params@ == Map::<Seq<char>, Seq<char>>::empty().insert("instId"@, inst_id@),
        keys_sorted(r.params.pairs()),
{
    let mut params = QueryParams::new();
    set_param(&mut params, "instId", inst_id);
    RestRequest { path: String::from_str("/api/v5/market/ticker"), params }
}

/// `GET /api/v5/market/books`: the order book of one instrument, to the
/// depth `sz` when it is given.
pub fn market_books_request(inst_id: String, sz: Option<String>) -> (r: RestRequest)
    ensures
        r.path@ == "/api/v5/market/books"@,
        r.params@ == insert_if_some(
            Map::<Seq<char>, Seq<char>>::empty().insert("instId"@, inst_id@),
            "sz"@,
            sz,
        ),
        keys_sorted(r.params.pairs()),
{
    let mut params = QueryParams::new();
    set_param(&mut params, "instId", inst_id);
    set_param_if_some(&mut params, "sz", sz);
    RestRequest { path: String::from_str("/api/v5/market/books"), params }
}

/// `GET /api/v5/market/history-candles`: past candles of one instrument,
/// paged by `after` and `before`, of bar size `bar`, at most `limit` of them.
pub fn market_history_candles_request(
    inst_id: String,
    after: Option<String>,
    before: Option<String>,
    bar: Option<String>,
    limit: Option<String>,
) -> (r: RestRequest)
    ensures
        r.path@ == "/api/v5/market/history-candles"@,
        r.params@ == insert_if_some(
            insert_if_some(
                insert_if_some(
                    insert_if_some(
                        Map::<Seq<char>, Seq<char>>::empty().insert("instId"@, inst_id@),
                        "after"@,
                        after,
                    ),
                    "before"@,
                    before,
                ),
                "bar"@,
                bar,
            ),
            "limit"@,
            limit,
        ),
        keys_sorted(r.params.pairs()),
{
    let mut params = QueryParams::new();
    set_param(&mut params, "instId", inst_id);
    set_param_if_some(&mut params, "after", after);
    set_param_if_some(&mut params, "before", before);
    set_param_if_some(&mut params, "bar", bar);
    set_param_if_some(&mut params, "limit", limit);
    RestRequest { path: String::from_str("/api/v5/market/history-candles"), params }
}

} // verus!
