use hydra_httpdl::error::HydraError;
use hydra_httpdl::fetch::{
    backoff_delay_ms, evaluate_range_support, fallback_etag, parse_u64_decimal,
    ranged_status_acceptable, ChunkStream, RetryDecision, RetryState, DEFAULT_MAX_RETRIES,
    RETRY_BACKOFF_MS,
};
use hydra_httpdl::HEADER_SIZE;

#[test]
fn backoff_doubles_per_attempt() {
    assert_eq!(backoff_delay_ms(500, 1), 500);
    assert_eq!(backoff_delay_ms(500, 2), 1000);
    assert_eq!(backoff_delay_ms(500, 3), 2000);
    assert_eq!(backoff_delay_ms(1, 11), 1024);
}

#[test]
fn two_failures_then_success_stays_within_budget() {
    // A chunk that fails transiently twice still has an attempt left under
    // the default budget of three, so it can end complete.
    let mut retry = RetryState::new(DEFAULT_MAX_RETRIES, RETRY_BACKOFF_MS);
    assert_eq!(retry.on_failure(), RetryDecision::RetryAfterMs(500));
    assert_eq!(retry.on_failure(), RetryDecision::RetryAfterMs(1000));
    assert!(retry.failures == 2 && retry.can_retry());
}

#[test]
fn exhausting_every_attempt_gives_up() {
    let mut retry = RetryState::new(DEFAULT_MAX_RETRIES, RETRY_BACKOFF_MS);
    assert_eq!(retry.on_failure(), RetryDecision::RetryAfterMs(500));
    assert_eq!(retry.on_failure(), RetryDecision::RetryAfterMs(1000));
    assert_eq!(retry.on_failure(), RetryDecision::GiveUp);
    assert!(!retry.can_retry());
}

#[test]
fn overdelivering_stream_is_cut_at_the_range_boundary() {
    // Range [100, 109]: ten bytes expected; the server ignores the range
    // and keeps sending.
    let mut cs = ChunkStream::new(100, 109);
    assert_eq!(cs.write_offset(), HEADER_SIZE as u64 + 100);
    assert_eq!(cs.accept(6), 6);
    assert_eq!(cs.write_offset(), HEADER_SIZE as u64 + 106);
    // This buffer would pass the expected length: only the remaining four
    // bytes are written and the chunk counts as fully satisfied.
    assert_eq!(cs.accept(6), 4);
    assert!(cs.is_satisfied());
    assert_eq!(cs.received, 10);
    // Nothing more is ever written past the boundary.
    assert_eq!(cs.accept(100), 0);
    assert_eq!(cs.received, 10);
}

#[test]
fn exact_stream_satisfies_without_truncation() {
    let mut cs = ChunkStream::new(0, 9);
    assert_eq!(cs.accept(4), 4);
    assert_eq!(cs.accept(6), 6);
    assert!(cs.is_satisfied());
}

#[test]
fn partial_content_and_ok_statuses_are_accepted() {
    assert!(ranged_status_acceptable(206, false).is_ok());
    assert!(ranged_status_acceptable(200, false).is_ok());
    assert!(matches!(
        ranged_status_acceptable(416, false),
        Err(HydraError::RangeUnsupported)
    ));
    assert!(ranged_status_acceptable(416, true).is_ok());
}

#[test]
fn range_support_comes_from_head_or_probe_or_override() {
    assert!(evaluate_range_support(true, None, false).is_ok());
    assert!(evaluate_range_support(false, Some(206), false).is_ok());
    assert!(matches!(
        evaluate_range_support(false, Some(200), false),
        Err(HydraError::RangeUnsupported)
    ));
    assert!(evaluate_range_support(false, Some(200), true).is_ok());
}

#[test]
fn sentinel_etag_carries_the_timestamp() {
    assert_eq!(fallback_etag(0), b"no-etag-0".to_vec());
    assert_eq!(fallback_etag(1700000000), b"no-etag-1700000000".to_vec());
    assert_eq!(
        fallback_etag(u64::MAX),
        b"no-etag-18446744073709551615".to_vec()
    );
}

#[test]
fn content_length_parses_digits_only() {
    assert_eq!(parse_u64_decimal(b"0"), Some(0));
    assert_eq!(parse_u64_decimal(b"10485760"), Some(10_485_760));
    assert_eq!(parse_u64_decimal(b"18446744073709551615"), Some(u64::MAX));
    assert_eq!(parse_u64_decimal(b"18446744073709551616"), None);
    assert_eq!(parse_u64_decimal(b"99999999999999999999999"), None);
    assert_eq!(parse_u64_decimal(b""), None);
    assert_eq!(parse_u64_decimal(b"12a"), None);
    assert_eq!(parse_u64_decimal(b"-1"), None);
    assert_eq!(parse_u64_decimal(b" 5"), None);
}
