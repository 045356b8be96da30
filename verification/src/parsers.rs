//! Trusted wrappers around the external message parsers.
//!
//! `crypto_msg_parser` decodes exchange payloads and `crypto_pair`
//! normalizes symbols to pairs. For some exchanges those crates consult
//! instrument listings fetched over the network, so their results are not
//! functions of the arguments alone and nothing is promised of them here:
//! the verified pipeline takes each result as an argument and is proved for
//! every value of it. Reading the timestamp out of a JSON line, by
//! `serde_json`, is a pure function of the line and carries a name.

use vstd::prelude::*;

use core::str::FromStr;

use crate::types::MarketType;

verus! {

/// The view of one decoded record: its timestamp and the view of its line.
pub open spec fn entry_view(p: (i64, String)) -> (i64, Seq<char>) {
    (p.0, p.1@)
}

/// The timestamp embedded in a JSON line: its `received_at` field if that
/// key is present, else its `timestamp` field; `None` when the line is not
/// a JSON object, has neither key, or the preferred key is not an integer.
pub uninterp spec fn embedded_timestamp(line: Seq<char>) -> Option<i64>;

/// Relies on `crypto_msg_parser::extract_symbol` to find the payload's
/// symbol, the exchange's own instrument identifier; `None` where the crate
/// reports an error. The market type is rebuilt from its token through the
/// crate's own `FromStr`. Which symbol comes back is not specified: the
/// callers' contracts hold for every outcome.
#[verifier::external_body]
pub fn extract_symbol_checked(exchange: &str, market: MarketType, json: &str) -> (r: Option<
    String,
>) {
    let mt = crypto_market_type::MarketType::from_str(market.as_str()).unwrap();
    match crypto_msg_parser::extract_symbol(exchange, mt, json) {
        Ok(s) => Some(s),
        Err(_) => None,
    }
}

/// Relies on `crypto_msg_parser::parse_l2` to decode a level-2 payload into
/// normalized records, and on `serde_json::to_string` for one JSON line per
/// record; each record is handed out as its timestamp and that line. `None`
/// where the parser reports an error. Which records come back is not
/// specified: the callers' contracts hold for every outcome.
#[verifier::external_body]
pub fn parse_l2_lines(exchange: &str, market: MarketType, json: &str, received_at: u64) -> (r:
    Option<Vec<(i64, String)>>) {
    let mt = crypto_market_type::MarketType::from_str(market.as_str()).unwrap();
    match crypto_msg_parser::parse_l2(exchange, mt, json, Some(received_at as i64)) {
        Ok(msgs) => Some(
            msgs.iter().map(|m| (m.timestamp, serde_json::to_string(m).unwrap())).collect(),
        ),
        Err(_) => None,
    }
}

/// Relies on `crypto_msg_parser::parse_trade` to decode a trade payload into
/// normalized records, and on `serde_json::to_string` for one JSON line per
/// record. `None` where the parser reports an error. Which records come back
/// is not specified: the callers' contracts hold for every outcome.
#[verifier::external_body]
pub fn parse_trade_lines(exchange: &str, market: MarketType, json: &str) -> (r: Option<
    Vec<(i64, String)>,
>) {
    let mt = crypto_market_type::MarketType::from_str(market.as_str()).unwrap();
    match crypto_msg_parser::parse_trade(exchange, mt, json) {
        Ok(msgs) => Some(
            msgs.iter().map(|m| (m.timestamp, serde_json::to_string(m).unwrap())).collect(),
        ),
        Err(_) => None,
    }
}

/// Relies on `crypto_pair::normalize_pair` to derive the canonical
/// base/quote pair of a symbol; `None` where the crate cannot. Which pair
/// comes back is not specified: the callers' contracts hold for every
/// outcome.
#[verifier::external_body]
pub fn normalize_pair_checked(symbol: &str, exchange: &str) -> (r: Option<String>) {
    crypto_pair::normalize_pair(symbol, exchange)
}

/// Relies on `serde_json::from_str` and `serde_json::Value` accessors: reads
/// the timestamp embedded in a JSON line, preferring `received_at` over
/// `timestamp`. The result is a pure function of the line text.
#[verifier::external_body]
pub fn extract_timestamp(line: &str) -> (r: Option<i64>)
    ensures
        r == embedded_timestamp(line@),
{
    match serde_json::from_str::<serde_json::Value>(line) {
        Ok(v) => match v.get("received_at") {
            Some(x) => x.as_i64(),
            None => v.get("timestamp").and_then(serde_json::Value::as_i64),
        },
        Err(_) => None,
    }
}

} // verus!
