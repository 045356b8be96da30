use crypto_daily_processor::admission::MemoryBudget;
use crypto_daily_processor::sortcore::{memory_usage_of, sort_bucket_lines, sort_by_timestamp};

#[test]
fn sort_orders_by_embedded_timestamp() {
    let lines = vec![
        Some(r#"{"received_at":3,"json":"c"}"#.to_string()),
        Some(r#"{"received_at":1,"json":"a"}"#.to_string()),
        Some(r#"{"timestamp":2,"json":"b"}"#.to_string()),
    ];
    let out = sort_bucket_lines(lines);
    assert_eq!(out.total_lines, 3);
    assert_eq!(out.error_lines, 0);
    let sorted = out.sorted.expect("no errors, so the bucket is sorted");
    let ts: Vec<i64> = sorted.iter().map(|e| e.0).collect();
    assert_eq!(ts, vec![1, 2, 3]);
    assert!(sorted[0].1.contains("\"a\""));
    assert!(sorted[2].1.contains("\"c\""));
}

#[test]
fn received_at_is_preferred_over_timestamp() {
    let lines = vec![
        Some(r#"{"received_at":9,"timestamp":1}"#.to_string()),
        Some(r#"{"received_at":2,"timestamp":8}"#.to_string()),
    ];
    let out = sort_bucket_lines(lines);
    let sorted = out.sorted.unwrap();
    assert_eq!(sorted[0].0, 2);
    assert_eq!(sorted[1].0, 9);
}

#[test]
fn malformed_bucket_is_aborted() {
    let lines = vec![
        Some(r#"{"received_at":3}"#.to_string()),
        Some("not json at all".to_string()),
    ];
    let out = sort_bucket_lines(lines);
    assert_eq!(out.total_lines, 2);
    assert_eq!(out.error_lines, 1);
    assert!(out.sorted.is_none());
}

#[test]
fn missing_timestamp_and_unreadable_lines_count_as_errors() {
    let lines = vec![
        None,
        Some(r#"{"price":5}"#.to_string()),
        Some(r#"{"received_at":"late"}"#.to_string()),
        Some(r#"[1,2,3]"#.to_string()),
    ];
    let out = sort_bucket_lines(lines);
    // The unreadable line is an error but was never read as a line.
    assert_eq!(out.total_lines, 3);
    assert_eq!(out.error_lines, 4);
    assert!(out.sorted.is_none());
}

#[test]
fn empty_bucket_sorts_to_nothing() {
    let out = sort_bucket_lines(Vec::new());
    assert_eq!(out.total_lines, 0);
    assert_eq!(out.error_lines, 0);
    assert_eq!(out.sorted.unwrap().len(), 0);
}

#[test]
fn sort_is_stable_for_equal_timestamps() {
    let v = vec![
        (5, "first".to_string()),
        (1, "x".to_string()),
        (5, "second".to_string()),
    ];
    let out = sort_by_timestamp(v);
    assert_eq!(out[0].1, "x");
    assert_eq!(out[1].1, "first");
    assert_eq!(out[2].1, "second");
}

#[test]
fn admission_counts_never_go_negative() {
    // Budget of four reservations of 1000: a fifth must wait.
    let mut b = MemoryBudget::new(4000);
    for _ in 0..4 {
        assert!(b.available_bytes() >= 0);
        assert!(b.try_reserve(1000));
    }
    assert_eq!(b.available_bytes(), 0);
    assert!(!b.try_reserve(1000));
    assert_eq!(b.available_bytes(), 0);
    b.release(1000);
    assert_eq!(b.available_bytes(), 1000);
    assert!(b.try_reserve(1000));
}

#[test]
fn largest_bucket_waits_for_smaller_ones() {
    // Budget of four times the largest input: the biggest bucket's
    // reservation is admitted only once the small workers released theirs.
    let mut b = MemoryBudget::new(4000);
    assert!(b.try_reserve(5 * 300));
    assert!(b.try_reserve(5 * 300));
    assert!(!b.try_reserve(5 * 800));
    b.release(5 * 300);
    assert!(!b.try_reserve(5 * 800));
    b.release(5 * 300);
    assert!(b.try_reserve(5 * 800));
    assert_eq!(b.available_bytes(), 0);
    b.release(5 * 800);
    assert_eq!(b.available_bytes(), 4000);
}

#[test]
fn memory_usage_counts_timestamp_and_line_bytes() {
    let entries = vec![(1_i64, "ab".to_string()), (2_i64, String::new())];
    assert_eq!(memory_usage_of(&entries), 18);
    assert_eq!(memory_usage_of(&Vec::new()), 0);
}
