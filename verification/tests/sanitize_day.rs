use crypto_daily_processor::dates::{
    day_index_of_parsed, day_index_of_received, days_from_civil, civil_next, parse_day, format_day,
    CivilDay,
};
use crypto_daily_processor::hashing::hash_content;
use crypto_daily_processor::sanitize::clean_symbol;
use crypto_daily_processor::strutil::str_eq;

#[test]
fn test_clean_symbol() {
    let symbol = "a(b)c:d.e/f";
    let cleaned = clean_symbol(symbol);
    assert_eq!("a_b_c_d_e_f", cleaned);
}

#[test]
fn clean_symbol_collapses_runs() {
    assert_eq!("a_b", clean_symbol("a().//:b"));
    assert_eq!("_", clean_symbol("..."));
    assert_eq!("", clean_symbol(""));
    assert_eq!("BTC_USDT", clean_symbol("BTC/USDT"));
    assert_eq!("BTC-USDT", clean_symbol("BTC-USDT"));
    assert_eq!("a_b_", clean_symbol("a\\b."));
}

#[test]
fn str_eq_compares_characters() {
    assert!(str_eq("abc", "abc"));
    assert!(!str_eq("abc", "abd"));
    assert!(!str_eq("abc", "ab"));
    assert!(str_eq("", ""));
}

#[test]
fn parse_day_accepts_real_dates() {
    let c = parse_day("2021-03-19").unwrap();
    assert_eq!((c.year, c.month, c.day), (2021, 3, 19));
    let c = parse_day("2024-02-29").unwrap();
    assert_eq!((c.year, c.month, c.day), (2024, 2, 29));
    assert!(parse_day("2023-02-29").is_none());
    assert!(parse_day("2021-13-01").is_none());
    assert!(parse_day("2021-00-10").is_none());
    assert!(parse_day("2021-01-32").is_none());
    assert!(parse_day("2021-1-01").is_none());
    assert!(parse_day("2021/01/01").is_none());
    assert!(parse_day("garbage").is_none());
    assert!(parse_day("").is_none());
}

#[test]
fn day_index_matches_epoch_arithmetic() {
    let epoch = CivilDay { year: 1970, month: 1, day: 1 };
    assert_eq!(days_from_civil(epoch), 0);
    assert_eq!(days_from_civil(CivilDay { year: 2021, month: 1, day: 1 }), 18628);
    assert_eq!(days_from_civil(CivilDay { year: 2021, month: 3, day: 19 }), 18705);
    assert_eq!(days_from_civil(CivilDay { year: 2024, month: 2, day: 29 }), 19782);
    assert_eq!(days_from_civil(CivilDay { year: 1969, month: 12, day: 31 }), -1);
}

#[test]
fn received_day_floors_milliseconds() {
    assert_eq!(day_index_of_received(1616176861895), 18705);
    assert_eq!(day_index_of_received(0), 0);
    assert_eq!(day_index_of_received(86399999), 0);
    assert_eq!(day_index_of_received(86400000), 1);
}

#[test]
fn parsed_day_truncates_then_floors() {
    assert_eq!(day_index_of_parsed(1616176861893), 18705);
    assert_eq!(day_index_of_parsed(-1), 0);
    assert_eq!(day_index_of_parsed(-1000), -1);
    assert_eq!(day_index_of_parsed(-86400000), -1);
    // The extra millisecond is lost to truncation before the day floor.
    assert_eq!(day_index_of_parsed(-86400001), -1);
    assert_eq!(day_index_of_parsed(-86401000), -2);
}

#[test]
fn civil_next_handles_boundaries() {
    let n = civil_next(CivilDay { year: 2021, month: 3, day: 19 });
    assert_eq!((n.year, n.month, n.day), (2021, 3, 20));
    let n = civil_next(CivilDay { year: 2021, month: 12, day: 31 });
    assert_eq!((n.year, n.month, n.day), (2022, 1, 1));
    let n = civil_next(CivilDay { year: 2024, month: 2, day: 28 });
    assert_eq!((n.year, n.month, n.day), (2024, 2, 29));
    let n = civil_next(CivilDay { year: 2023, month: 2, day: 28 });
    assert_eq!((n.year, n.month, n.day), (2023, 3, 1));
    let n = civil_next(CivilDay { year: 2021, month: 4, day: 30 });
    assert_eq!((n.year, n.month, n.day), (2021, 5, 1));
}

#[test]
fn format_day_zero_pads() {
    let cs = format_day(CivilDay { year: 2021, month: 3, day: 9 });
    let s: String = cs.iter().collect();
    assert_eq!(s, "2021-03-09");
    let cs = format_day(CivilDay { year: 987, month: 12, day: 31 });
    let s: String = cs.iter().collect();
    assert_eq!(s, "0987-12-31");
}

#[test]
fn fnv1a_known_values() {
    assert_eq!(hash_content(""), 0xcbf29ce484222325);
    assert_eq!(hash_content("a"), 0xaf63dc4c8601ec8c);
    assert_eq!(hash_content("hello"), 0xa430d84680aabd0b);
    assert_ne!(hash_content("hello"), hash_content("hello "));
}
