use std::time::Duration;

use riptv::utils::{
    decimal_string, extract_domain, format_duration, is_valid_url,
    sanitize_filename, size_unit, size_unit_name, truncate_string, Retry, RetryDecision,
};

#[test]
fn test_format_duration() {
    assert_eq!(format_duration(Duration::from_secs(30).as_secs()), "30s");
    assert_eq!(format_duration(Duration::from_secs(90).as_secs()), "1m 30s");
    assert_eq!(format_duration(Duration::from_secs(3661).as_secs()), "1h 1m 1s");
}

#[test]
fn test_sanitize_filename() {
    assert_eq!(sanitize_filename("test/file<name>"), "test_file_name_");
    assert_eq!(sanitize_filename("normal_name"), "normal_name");
}

#[test]
fn test_is_valid_url() {
    assert!(is_valid_url("https://example.com/stream.m3u8"));
    assert!(is_valid_url("http://test.tv/channel"));
    assert!(!is_valid_url("not-a-url"));
    assert!(!is_valid_url(""));
}

#[test]
fn format_duration_keeps_zero_units_after_the_first() {
    assert_eq!(format_duration(0), "0s");
    assert_eq!(format_duration(59), "59s");
    assert_eq!(format_duration(60), "1m 0s");
    assert_eq!(format_duration(3600), "1h 0m 0s");
    assert_eq!(format_duration(7322), "2h 2m 2s");
}

#[test]
fn format_duration_ignores_fractions_of_a_second() {
    assert_eq!(format_duration(Duration::from_millis(90_999).as_secs()), "1m 30s");
}

#[test]
fn decimal_string_writes_every_digit() {
    assert_eq!(decimal_string(0), "0");
    assert_eq!(decimal_string(1234567890), "1234567890");
    assert_eq!(decimal_string(u64::MAX), "18446744073709551615");
}

#[test]
fn size_unit_picks_the_largest_unit_reached() {
    assert_eq!(size_unit(0), 0);
    assert_eq!(size_unit(512), 0);
    assert_eq!(size_unit(1023), 0);
    assert_eq!(size_unit(1024), 1);
    assert_eq!(size_unit(1536), 1);
    assert_eq!(size_unit(1048576), 2);
    assert_eq!(size_unit(1073741824), 3);
    assert_eq!(size_unit(1099511627776), 4);
    assert_eq!(size_unit(u64::MAX), 4);
    assert_eq!(size_unit_name(0), "B");
    assert_eq!(size_unit_name(2), "MB");
    assert_eq!(size_unit_name(4), "TB");
}

#[test]
fn sanitize_filename_replaces_control_characters() {
    assert_eq!(sanitize_filename("a\tb\u{7f}c"), "a_b_c");
    assert_eq!(sanitize_filename("x:y*z?\"|\\"), "x_y_z____");
    assert_eq!(sanitize_filename("Café"), "Café");
}

#[test]
fn truncate_string_counts_bytes() {
    assert_eq!(truncate_string("hello", 5), "hello");
    assert_eq!(truncate_string("hello world", 8), "hello...");
    assert_eq!(truncate_string("hello", 2), "...");
    assert_eq!(truncate_string("", 0), "");
    assert_eq!(truncate_string("héllo wörld", 9), "héllo...");
}

#[test]
fn extract_domain_reads_the_host() {
    assert_eq!(extract_domain("http://test.tv/channel"), Some("test.tv".to_string()));
    assert_eq!(extract_domain("https://example.com:8080/a?b=c"), Some("example.com".to_string()));
    assert_eq!(extract_domain("not-a-url"), None);
    assert_eq!(extract_domain("mailto:someone@example.com"), None);
}

#[test]
fn retry_gives_up_after_the_last_attempt() {
    let mut r = Retry::new(3);
    assert_eq!(r.attempt_number(), 1);
    assert_eq!(r.after_failure(), RetryDecision::TryAgain);
    assert_eq!(r.after_failure(), RetryDecision::TryAgain);
    assert_eq!(r.attempt_number(), 3);
    assert_eq!(r.after_failure(), RetryDecision::GiveUp);
    let mut once = Retry::new(1);
    assert_eq!(once.after_failure(), RetryDecision::GiveUp);
}
