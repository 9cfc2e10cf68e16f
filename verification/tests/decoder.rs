//! Unit decoding: size tokens, duration tokens and their edge cases.

use jvm_monitor::metrics::{parse_memory_from_heap_info, parse_reserved_committed};
use jvm_monitor::numeric::{calculate_thread_time, decode_size, parse_u64};

#[test]
fn reserved_with_comma_and_kilo_suffix() {
    let (reserved, committed) = parse_reserved_committed(vec!["reserved=1,234K"]);
    assert_eq!(reserved, Some(1_263_616));
    assert_eq!(committed, None);
}

#[test]
fn cpu_milliseconds_token() {
    assert_eq!(calculate_thread_time("cpu=250.00ms", "cpu="), Some(250_000_000));
}

#[test]
fn elapsed_seconds_token() {
    assert_eq!(calculate_thread_time("elapsed=12.50s", "elapsed="), Some(12_500_000_000));
}

#[test]
fn comma_decimal_seconds_token() {
    assert_eq!(calculate_thread_time("cpu=1,5s", "cpu="), Some(1_500_000_000));
}

#[test]
fn bare_minutes_token_fails_to_decode() {
    // The decoder strips the literal `ms` and `s` but not a bare `m`, so a
    // pure-minutes token keeps its suffix and is not a number.
    assert_eq!(calculate_thread_time("cpu=2m", "cpu="), None);
}

#[test]
fn unsuffixed_duration_is_milliseconds() {
    assert_eq!(calculate_thread_time("cpu=7", "cpu="), Some(7_000_000));
}

#[test]
fn malformed_duration_is_none() {
    assert_eq!(calculate_thread_time("cpu=abc", "cpu="), None);
    assert_eq!(calculate_thread_time("cpu=", "cpu="), None);
}

#[test]
fn size_suffixes() {
    assert_eq!(decode_size("512K"), Some(512 * 1024));
    assert_eq!(decode_size("3M"), Some(3 * 1024 * 1024));
    assert_eq!(decode_size("2G"), Some(2 * 1024 * 1024 * 1024));
    assert_eq!(decode_size("123"), Some(123));
    assert_eq!(decode_size(" 123 "), Some(123));
    assert_eq!(decode_size("12,345"), Some(12_345));
    assert_eq!(decode_size(""), None);
    assert_eq!(decode_size("x12"), None);
}

#[test]
fn parse_u64_digits() {
    assert_eq!(parse_u64("0"), Some(0));
    assert_eq!(parse_u64("18446744073709551615"), Some(u64::MAX));
    assert_eq!(parse_u64("18446744073709551616"), None);
    assert_eq!(parse_u64(""), None);
    assert_eq!(parse_u64("12a"), None);
}

#[test]
fn committed_and_reserved_last_token_wins() {
    let (reserved, committed) =
        parse_reserved_committed(vec!["reserved=100", "committed=50", "reserved=200"]);
    assert_eq!(reserved, Some(200));
    assert_eq!(committed, Some(50));
}

#[test]
fn heap_info_used_token() {
    let row = " garbage-first heap   total 512K, used 120K [0x0000000000000000)";
    assert_eq!(parse_memory_from_heap_info(row, "used", false), Some(120 * 1024));
}

#[test]
fn heap_info_reversed_used_token() {
    let row = " 512K max, 256K committed, 100K used";
    assert_eq!(parse_memory_from_heap_info(row, "used", true), Some(100 * 1024));
}

#[test]
fn heap_info_missing_token() {
    assert_eq!(parse_memory_from_heap_info(" nothing here", "used", false), None);
    // The searched token is last on the row: no neighbour to decode.
    assert_eq!(parse_memory_from_heap_info("trailing used", "used", false), None);
    // The searched token is first on the row and the size is sought before it.
    assert_eq!(parse_memory_from_heap_info("used 100K", "used", true), None);
}
