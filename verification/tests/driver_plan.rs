use crypto_daily_processor::dates::CivilDay;
use crypto_daily_processor::driver::{
    error_ratio_exceeded, estimated_memory_usage, final_bucket_name, next_day_pattern,
    output_subdir, percentile_90_index, plan_stage2, stage1_pattern, stage2_pattern,
    use_parallel_codec, BucketFile, Tally,
};
use crypto_daily_processor::split::LineOutcome;
use crypto_daily_processor::types::{is_blocked_market, MarketType, MessageType};

fn bucket(name: &str, size: u64) -> BucketFile {
    BucketFile { name: name.to_string(), size }
}

#[test]
fn error_ratio_gate_is_strict() {
    // Two bad lines in a hundred breach the one-percent gate; one does not.
    assert!(error_ratio_exceeded(2, 100));
    assert!(!error_ratio_exceeded(1, 100));
    assert!(!error_ratio_exceeded(0, 0));
    assert!(error_ratio_exceeded(1, 0));
    assert!(!error_ratio_exceeded(10, 1000));
    assert!(error_ratio_exceeded(11, 1000));
}

#[test]
fn tally_counts_errors_and_lines() {
    let mut t = Tally::new();
    t.record_outcome(&LineOutcome::Malformed);
    t.record_outcome(&LineOutcome::Duplicate);
    t.record_outcome(&LineOutcome::NoSymbol);
    t.record_read_error();
    t.add(2, 10);
    assert_eq!(t.error_lines, 5);
    assert_eq!(t.total_lines, 13);
}

#[test]
fn top_decile_threshold() {
    assert_eq!(percentile_90_index(10), 9);
    assert_eq!(percentile_90_index(15), 13);
    assert_eq!(percentile_90_index(1), 0);
    assert_eq!(percentile_90_index(0), 0);
    assert!(use_parallel_codec(true, 9, 9));
    assert!(!use_parallel_codec(true, 8, 9));
    assert!(!use_parallel_codec(false, 9, 9));
}

#[test]
fn reservation_is_five_times_the_size() {
    assert_eq!(estimated_memory_usage(0), 0);
    assert_eq!(estimated_memory_usage(1000), 5000);
}

#[test]
fn blocked_markets_lose_their_parsed_buckets() {
    for m in [
        MarketType::QuantoFuture,
        MarketType::QuantoSwap,
        MarketType::Move,
        MarketType::Bvol,
    ] {
        assert!(is_blocked_market(m));
        let plan = plan_stage2(
            m,
            vec![bucket("raw-big", 50), bucket("raw-small", 3)],
            vec![bucket("parsed-a", 10), bucket("parsed-b", 20)],
        );
        assert!(plan.delete_parsed);
        assert!(!plan.fail_no_raw);
        let names: Vec<&str> = plan.files.iter().map(|b| b.name.as_str()).collect();
        assert_eq!(names, vec!["raw-small", "raw-big"]);
    }
    assert!(!is_blocked_market(MarketType::Spot));
}

#[test]
fn sort_stage_takes_smallest_first() {
    let plan = plan_stage2(
        MarketType::Spot,
        vec![bucket("r1", 40), bucket("r2", 5)],
        vec![bucket("p1", 12), bucket("p2", 7)],
    );
    assert!(!plan.delete_parsed);
    let names: Vec<&str> = plan.files.iter().map(|b| b.name.as_str()).collect();
    assert_eq!(names, vec!["r2", "p2", "p1", "r1"]);
    assert_eq!(plan.threshold, 3);
    // Only the largest file reaches the top decile of four.
    assert!(use_parallel_codec(true, 3, plan.threshold));
    assert!(!use_parallel_codec(true, 2, plan.threshold));
}

#[test]
fn empty_raw_list_fails_the_run() {
    let plan = plan_stage2(MarketType::Spot, Vec::new(), vec![bucket("p", 1)]);
    assert!(plan.fail_no_raw);
}

#[test]
fn final_name_swaps_the_codec_suffix() {
    assert_eq!(
        final_bucket_name("binance.spot.trade.BTCUSDT.2021-03-19.json.gz").unwrap(),
        "binance.spot.trade.BTCUSDT.2021-03-19.json.xz"
    );
    assert!(final_bucket_name("bucket.json.xz").is_none());
    assert!(final_bucket_name("short").is_none());
    assert_eq!(final_bucket_name(".json.gz").unwrap(), ".json.xz");
}

#[test]
fn glob_patterns_match_the_layout() {
    assert_eq!(
        stage1_pattern("/in", "binance", MarketType::Spot, MessageType::Trade, "2021-03-19"),
        "/in/**/binance.spot.trade.2021-03-19-??-??.json.gz"
    );
    assert_eq!(
        next_day_pattern(
            "/in",
            "binance",
            MarketType::Spot,
            MessageType::Trade,
            CivilDay { year: 2021, month: 12, day: 31 },
        ),
        "/in/**/binance.spot.trade.2022-01-01-00-??.json.gz"
    );
    assert_eq!(
        stage2_pattern("/out", "binance", MarketType::LinearSwap, MessageType::L2Event, "2021-03-19"),
        "/out/**/binance.linear_swap.l2_event.*.2021-03-19.json.gz"
    );
    assert_eq!(
        output_subdir("binance", MarketType::Spot, MessageType::Trade),
        "trade/binance/spot"
    );
}
