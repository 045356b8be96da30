use crypto_daily_processor::dedup::{DedupIndex, SymbolRegistry};
use crypto_daily_processor::split::{
    parsed_bucket_name, raw_bucket_name, split_line, LineOutcome, SplitTask,
};
use crypto_daily_processor::types::{MarketType, Message, MessageType};

const BTC_TRADE: &str = r#"{"stream":"btcusdt@aggTrade","data":{"e":"aggTrade","E":1616176861895,"s":"BTCUSDT","a":640283266,"p":"58942.01000000","q":"0.00035600","f":716849523,"l":716849523,"T":1616176861893,"m":false,"M":true}}"#;
const ETH_TRADE: &str = r#"{"stream":"ethusdt@aggTrade","data":{"e":"aggTrade","E":1616176861895,"s":"ETHUSDT","a":640283267,"p":"1800.01000000","q":"0.00035600","f":716849524,"l":716849524,"T":1616176861893,"m":false,"M":true}}"#;

fn task(market: MarketType, msg_type: MessageType) -> SplitTask {
    SplitTask {
        exchange: "binance".to_string(),
        market_type: market,
        msg_type,
        day_str: "2021-03-19".to_string(),
        day_index: 18705,
    }
}

fn trade_message(json: &str, received_at: u64) -> Message {
    Message {
        exchange: "binance".to_string(),
        market_type: MarketType::Spot,
        msg_type: MessageType::Trade,
        received_at,
        json: json.to_string(),
    }
}

#[test]
fn first_line_creates_sinks_and_emits() {
    let t = task(MarketType::Spot, MessageType::Trade);
    let mut dedup = DedupIndex::new();
    let mut registry = SymbolRegistry::new();
    let msg = Some(trade_message(BTC_TRADE, 1616176861895));
    match split_line(&msg, &t, &mut dedup, &mut registry) {
        LineOutcome::Emit(em) => {
            assert_eq!(em.symbol, "BTCUSDT");
            let names = em.create.expect("first sight must create sinks");
            assert_eq!(names.raw, "binance.spot.trade.BTCUSDT.2021-03-19.json.gz");
            assert_eq!(names.parsed, "binance.spot.trade.BTC_USDT.BTCUSDT.2021-03-19.json.gz");
            assert!(em.raw);
            assert!(!em.unexpected);
            assert_eq!(em.parsed.len(), 1);
            assert!(em.parsed[0].contains("1616176861893"));
            assert!(em.parsed[0].contains("BTC/USDT"));
        },
        _ => panic!("expected an emission"),
    }
}

#[test]
fn duplicate_payload_is_dropped() {
    let t = task(MarketType::Spot, MessageType::Trade);
    let mut dedup = DedupIndex::new();
    let mut registry = SymbolRegistry::new();
    let msg = Some(trade_message(BTC_TRADE, 1616176861895));
    assert!(matches!(
        split_line(&msg, &t, &mut dedup, &mut registry),
        LineOutcome::Emit(_)
    ));
    // The same payload again, as if read from an overlapping hourly file.
    let again = Some(trade_message(BTC_TRADE, 1616176861895));
    assert!(matches!(
        split_line(&again, &t, &mut dedup, &mut registry),
        LineOutcome::Duplicate
    ));
    // A different payload still goes through, without re-creating its sinks.
    let eth = Some(trade_message(ETH_TRADE, 1616176861895));
    match split_line(&eth, &t, &mut dedup, &mut registry) {
        LineOutcome::Emit(em) => {
            assert_eq!(em.symbol, "ETHUSDT");
            assert!(em.create.is_some());
        },
        _ => panic!("expected an emission"),
    }
    // And the BTC symbol's sinks exist already.
    let btc2 = Some(trade_message(
        &BTC_TRADE.replace("640283266", "640283299"),
        1616176861895,
    ));
    match split_line(&btc2, &t, &mut dedup, &mut registry) {
        LineOutcome::Emit(em) => {
            assert_eq!(em.symbol, "BTCUSDT");
            assert!(em.create.is_none());
        },
        _ => panic!("expected an emission"),
    }
}

#[test]
fn level2_event_is_parsed_and_day_filtered() {
    let l2: &str = r#"{"stream":"btcusdt@depth@100ms","data":{"e":"depthUpdate","E":1622363903670,"s":"BTCUSDT","U":11294093710,"u":11294093726,"b":[["35743.98000000","0.00000000"],["35743.87000000","0.00001500"]],"a":[["35743.88000000","0.24000000"],["35743.97000000","0.00000000"]]}}"#;
    let t = SplitTask {
        exchange: "binance".to_string(),
        market_type: MarketType::Spot,
        msg_type: MessageType::L2Event,
        day_str: "2021-05-30".to_string(),
        day_index: 18777,
    };
    let mut dedup = DedupIndex::new();
    let mut registry = SymbolRegistry::new();
    let msg = Some(Message {
        exchange: "binance".to_string(),
        market_type: MarketType::Spot,
        msg_type: MessageType::L2Event,
        received_at: 1622363903680,
        json: l2.to_string(),
    });
    match split_line(&msg, &t, &mut dedup, &mut registry) {
        LineOutcome::Emit(em) => {
            assert_eq!(em.symbol, "BTCUSDT");
            assert!(em.raw);
            assert!(!em.unexpected);
            assert_eq!(em.parsed.len(), 1);
            assert!(em.parsed[0].contains("\"asks\""));
            assert!(em.parsed[0].contains("\"bids\""));
        },
        _ => panic!("expected an emission"),
    }
}

#[test]
fn malformed_line_is_an_error() {
    let t = task(MarketType::Spot, MessageType::Trade);
    let mut dedup = DedupIndex::new();
    let mut registry = SymbolRegistry::new();
    assert!(matches!(
        split_line(&None, &t, &mut dedup, &mut registry),
        LineOutcome::Malformed
    ));
}

#[test]
fn raw_day_filter_brackets_the_day() {
    let t = task(MarketType::Spot, MessageType::Trade);
    let mut dedup = DedupIndex::new();
    let mut registry = SymbolRegistry::new();
    let day_start_ms: u64 = 18705 * 86400000;
    // One millisecond into the day: kept.
    let m1 = Some(trade_message(BTC_TRADE, day_start_ms + 1));
    match split_line(&m1, &t, &mut dedup, &mut registry) {
        LineOutcome::Emit(em) => assert!(em.raw),
        _ => panic!("expected an emission"),
    }
    // One millisecond before the next day: kept.
    let m2 = Some(trade_message(
        &BTC_TRADE.replace("640283266", "640283267"),
        day_start_ms + 86400000 - 1,
    ));
    match split_line(&m2, &t, &mut dedup, &mut registry) {
        LineOutcome::Emit(em) => assert!(em.raw),
        _ => panic!("expected an emission"),
    }
    // One minute into the next day: dropped from the raw bucket, though its
    // parsed records may still fall on the day.
    let m3 = Some(trade_message(
        &BTC_TRADE.replace("640283266", "640283268"),
        day_start_ms + 86400000 + 60000,
    ));
    match split_line(&m3, &t, &mut dedup, &mut registry) {
        LineOutcome::Emit(em) => {
            assert!(!em.raw);
            assert_eq!(em.parsed.len(), 1);
        },
        _ => panic!("expected an emission"),
    }
}

#[test]
fn blocked_market_suppresses_parsed_output() {
    // A level-2 event on a blocked market keeps its raw line but never calls
    // the level-2 parser.
    let t = task(MarketType::Move, MessageType::L2Event);
    let mut dedup = DedupIndex::new();
    let mut registry = SymbolRegistry::new();
    let msg = Some(Message {
        exchange: "binance".to_string(),
        market_type: MarketType::Move,
        msg_type: MessageType::L2Event,
        received_at: 1616176861895,
        json: BTC_TRADE.to_string(),
    });
    match split_line(&msg, &t, &mut dedup, &mut registry) {
        LineOutcome::Emit(em) => {
            assert!(em.raw);
            assert!(em.parsed.is_empty());
            assert!(!em.unexpected);
        },
        _ => panic!("expected an emission"),
    }
}

#[test]
fn unexpected_message_type_is_fatal() {
    let t = task(MarketType::Spot, MessageType::Trade);
    let mut dedup = DedupIndex::new();
    let mut registry = SymbolRegistry::new();
    let msg = Some(Message {
        exchange: "binance".to_string(),
        market_type: MarketType::Spot,
        msg_type: MessageType::Ticker,
        received_at: 1616176861895,
        json: BTC_TRADE.to_string(),
    });
    match split_line(&msg, &t, &mut dedup, &mut registry) {
        LineOutcome::Emit(em) => {
            assert!(em.unexpected);
            assert!(em.parsed.is_empty());
        },
        _ => panic!("expected an emission"),
    }
}

#[test]
fn bucket_names_are_sanitized() {
    let raw = raw_bucket_name("binance", MarketType::Spot, MessageType::Trade, "BTC/USDT", "2021-03-19");
    assert_eq!(raw, "binance.spot.trade.BTC_USDT.2021-03-19.json.gz");
    let parsed = parsed_bucket_name(
        "deribit",
        MarketType::EuropeanOption,
        MessageType::Trade,
        "BTC/USD",
        "BTC-26MAR21-40000-C(x).1",
        "2021-03-19",
    );
    assert_eq!(
        parsed,
        "deribit.european_option.trade.BTC_USD.BTC-26MAR21-40000-C_x_1.2021-03-19.json.gz"
    );
    for c in ['(', ')', ':', '.', '\\', '/'] {
        let name = raw_bucket_name(
            "binance",
            MarketType::Spot,
            MessageType::Trade,
            &format!("A{}B", c),
            "2021-03-19",
        );
        assert_eq!(name, "binance.spot.trade.A_B.2021-03-19.json.gz");
    }
}

#[test]
fn market_and_message_tokens_round_trip() {
    let markets = [
        MarketType::Unknown,
        MarketType::Spot,
        MarketType::LinearFuture,
        MarketType::InverseFuture,
        MarketType::LinearSwap,
        MarketType::InverseSwap,
        MarketType::AmericanOption,
        MarketType::EuropeanOption,
        MarketType::QuantoFuture,
        MarketType::QuantoSwap,
        MarketType::Move,
        MarketType::Bvol,
    ];
    for m in markets {
        assert_eq!(MarketType::from_str(m.as_str()), Some(m));
    }
    assert_eq!(MarketType::from_str("sideways"), None);
    let kinds = [
        MessageType::Other,
        MessageType::Trade,
        MessageType::L2Event,
        MessageType::L2Snapshot,
        MessageType::L2TopK,
        MessageType::Bbo,
        MessageType::Ticker,
        MessageType::Candlestick,
        MessageType::FundingRate,
        MessageType::OpenInterest,
    ];
    for k in kinds {
        assert_eq!(MessageType::from_str(k.as_str()), Some(k));
    }
    assert_eq!(MessageType::from_str("l5_event"), None);
}
