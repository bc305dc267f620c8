//! Requests to the exchange.
use vstd::prelude::*;
use crate::exchange::account::{CachedExchange, ExchangeView};
use crate::exchange::signing;
use crate::text;

verus! {

/// How long a signed request is valid, in milliseconds.
pub const RECV_WINDOW: &'static str = "5000";

/// Where the market data is asked for.
pub const MARKET: &'static str = "https://api.bybit.com/v5/market/";

/// A request to be sent.
#[derive(Debug)]
pub struct SignedRequest {
    pub url: String,
    pub headers: Vec<(String, String)>,
    pub body: Option<String>,
}

/// The contents of some pairs of texts.
pub open spec fn pair_views(s: Seq<(String, String)>) -> Seq<(Seq<char>, Seq<char>)> {
    Seq::new(s.len(), |i: int| (s[i].0@, s[i].1@))
}

/// What a request signs: the time, the key, the window and what is sent.
pub open spec fn payload(millis: i64, api_key: Seq<char>, sent: Seq<char>) -> Seq<char> {
    text::decimal(millis as int) + api_key + RECV_WINDOW@ + sent
}

/// The headers of a signed request.
pub open spec fn signed_headers(ex: ExchangeView, millis: i64, sent: Seq<char>) -> Seq<
    (Seq<char>, Seq<char>),
> {
    seq![
        ("X-BAPI-API-KEY"@, ex.api_key),
        ("X-BAPI-TIMESTAMP"@, text::decimal(millis as int)),
        ("X-BAPI-SIGN"@, signing::signature(payload(millis, ex.api_key, sent), ex.secret)),
        ("X-BAPI-RECV-WINDOW"@, RECV_WINDOW@),
        ("X-BAPI-SIGN-TYPE"@, "2"@),
    ]
}

/// See [`signed_headers`].
fn headers_for(ex: &CachedExchange, millis: i64, sent: &str) -> (r: Vec<(String, String)>)
    ensures
        pair_views(r@) == signed_headers(ex@, millis, sent@),
{
    let stamp: String = text::decimal_text(millis);
    let mut signed: String = stamp.clone();
    signed.append(ex.api_key.as_str());
    signed.append(RECV_WINDOW);
    signed.append(sent);
    let signature: String = signing::sign(signed.as_str(), ex.secret.as_str());
    let mut r: Vec<(String, String)> = Vec::new();
    r.push(("X-BAPI-API-KEY".to_owned(), ex.api_key.clone()));
    r.push(("X-BAPI-TIMESTAMP".to_owned(), stamp));
    r.push(("X-BAPI-SIGN".to_owned(), signature));
    r.push(("X-BAPI-RECV-WINDOW".to_owned(), RECV_WINDOW.to_owned()));
    r.push(("X-BAPI-SIGN-TYPE".to_owned(), "2".to_owned()));
    assert(pair_views(r@) =~= signed_headers(ex@, millis, sent@));
    r
}

/// A request that posts a JSON body.
pub fn post_request(ex: &CachedExchange, endpoint: &str, body: String, millis: i64) -> (r:
    SignedRequest)
    ensures
        r.url@ == ex.base_url@ + endpoint@,
        pair_views(r.headers@) == signed_headers(ex@, millis, body@).push(
            ("Content-Type"@, "application/json"@),
        ),
        r.body is Some,
        r.body->0@ == body@,
{
    let mut headers: Vec<(String, String)> = headers_for(ex, millis, body.as_str());
    let ghost before = headers@;
    headers.push(("Content-Type".to_owned(), "application/json".to_owned()));
    assert(pair_views(headers@) =~= pair_views(before).push(
        ("Content-Type"@, "application/json"@),
    ));
    SignedRequest { url: text::concat(ex.base_url.as_str(), endpoint), headers, body: Some(body) }
}

/// Names and values, each pair with an equals sign, the pairs joined by ampersands.
pub open spec fn query(params: Seq<(Seq<char>, Seq<char>)>) -> Seq<char>
    decreases params.len(),
{
    if params.len() == 0 {
        Seq::empty()
    } else if params.len() == 1 {
        params[0].0 + "="@ + params[0].1
    } else {
        query(params.drop_last()) + "&"@ + (params.last().0 + "="@ + params.last().1)
    }
}

/// See [`query`].
pub fn query_text(params: &Vec<(String, String)>) -> (r: String)
    ensures
        r@ == query(pair_views(params@)),
{
    let mut r: String = String::new();
    let ghost all = pair_views(params@);
    let mut i: usize = 0;
    assert(r@ =~= query(all.take(0)));
    while i < params.len()
        invariant
            i <= params@.len(),
            all == pair_views(params@),
            r@ == query(all.take(i as int)),
        decreases params@.len() - i,
    {
        let part: String = text::concat(
            text::concat(params[i].0.as_str(), "=").as_str(),
            params[i].1.as_str(),
        );
        proof {
            assert(all.take(i + 1).drop_last() =~= all.take(i as int));
            assert(all.take(i + 1).last() == all[i as int]);
        }
        let ghost before = r@;
        if i > 0 {
            r.append("&");
        }
        r.append(part.as_str());
        proof {
            if i == 0 {
                assert(r@ =~= part@);
                assert(all.take(1)[0] == all[0]);
            }
        }
        i = i + 1;
    }
    assert(all.take(i as int) =~= all);
    r
}

/// A request with a query.
pub fn get_request(
    ex: &CachedExchange,
    endpoint: &str,
    params: &Vec<(String, String)>,
    millis: i64,
) -> (r: SignedRequest)
    ensures
        ({
            let q = query(pair_views(params@));
            &&& r.url@ == if q.len() == 0 {
                ex.base_url@ + endpoint@
            } else {
                ex.base_url@ + endpoint@ + "?"@ + q
            }
            &&& pair_views(r.headers@) == signed_headers(ex@, millis, q)
        }),
        r.body is None,
{
    let q: String = query_text(params);
    let headers: Vec<(String, String)> = headers_for(ex, millis, q.as_str());
    let mut url: String = text::concat(ex.base_url.as_str(), endpoint);
    if q.as_str().unicode_len() > 0 {
        url.append("?");
        url.append(q.as_str());
    }
    SignedRequest { url, headers, body: None }
}

/// Where the quotes of a symbol are asked for.
pub fn ticker_url(symbol: &str) -> (r: String)
    ensures
        r@ == MARKET@ + "tickers?category=linear&symbol="@ + symbol@,
{
    text::concat(text::concat(MARKET, "tickers?category=linear&symbol=").as_str(), symbol)
}

/// Where the past bars of a symbol are asked for, by their minutes and number.
pub fn kline_url(symbol: &str, interval: u32, limit: u32) -> (r: String)
    ensures
        r@ == MARKET@ + "kline?category=linear&symbol="@ + symbol@ + "&interval="@ + text::decimal(
            interval as int,
        ) + "&limit="@ + text::decimal(limit as int),
{
    let mut r: String = text::concat(MARKET, "kline?category=linear&symbol=");
    r.append(symbol);
    r.append("&interval=");
    r.append(text::decimal_text(interval as i64).as_str());
    r.append("&limit=");
    r.append(text::decimal_text(limit as i64).as_str());
    r
}

/// Where all contracts are asked for.
pub fn perps_url() -> (r: String)
    ensures
        r@ == MARKET@ + "tickers?category=linear&limit=1000"@,
{
    text::concat(MARKET, "tickers?category=linear&limit=1000")
}

/// Where the rules for a symbol are asked for.
pub fn instrument_url(symbol: &str) -> (r: String)
    ensures
        r@ == MARKET@ + "instruments-info?category=linear&symbol="@ + symbol@,
{
    text::concat(text::concat(MARKET, "instruments-info?category=linear&symbol=").as_str(), symbol)
}

} // verus!
