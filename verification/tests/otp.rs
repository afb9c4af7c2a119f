use totp_server::hotp::{counter_to_bytes, hotp, pow10, truncate_code};
use totp_server::totp::{
    current_unix_time, seconds_until_next_code, totp, totp_at, totp_from_reading, verify_totp,
    verify_totp_at, verify_totp_from_reading,
};

const RFC_SECRET: &[u8] = b"12345678901234567890";

#[test]
fn hotp_matches_rfc4226_vectors() {
    let expected: [u32; 10] = [
        755224, 287082, 359152, 969429, 338314, 254676, 287922, 162583, 399871, 520489,
    ];
    for (counter, code) in expected.iter().enumerate() {
        assert_eq!(hotp(RFC_SECRET, counter as u64, 6), *code);
    }
}

#[test]
fn truncation_matches_rfc4226_example() {
    let tag: [u8; 20] = [
        0x1f, 0x86, 0x98, 0x69, 0x0e, 0x02, 0xca, 0x16, 0x61, 0x85, 0x50, 0xef, 0x7f, 0x19, 0xda,
        0x8e, 0x94, 0x5b, 0x55, 0x5a,
    ];
    assert_eq!(truncate_code(&tag, 6), 872921);
    assert_eq!(truncate_code(&tag, 9), 357872921);
    assert_eq!(truncate_code(&tag, 0), 0);
}

#[test]
fn truncation_clears_the_top_bit() {
    let mut tag = [0xffu8; 20];
    tag[19] = 0xf0;
    assert_eq!(truncate_code(&tag, 9), 0x7fff_ffff % 1_000_000_000);
}

#[test]
fn counter_bytes_are_big_endian() {
    assert_eq!(counter_to_bytes(0x0102_0304_0506_0708), vec![1, 2, 3, 4, 5, 6, 7, 8]);
    assert_eq!(counter_to_bytes(1), vec![0, 0, 0, 0, 0, 0, 0, 1]);
}

#[test]
fn powers_of_ten() {
    assert_eq!(pow10(0), 1);
    assert_eq!(pow10(6), 1_000_000);
    assert_eq!(pow10(9), 1_000_000_000);
}

#[test]
fn totp_matches_rfc6238_sha1_vectors() {
    let cases: [(u64, u32); 6] = [
        (59, 94287082),
        (1111111109, 7081804),
        (1111111111, 14050471),
        (1234567890, 89005924),
        (2000000000, 69279037),
        (20000000000, 65353130),
    ];
    for (time, code) in cases.iter() {
        assert_eq!(totp_at(RFC_SECRET, *time, 30, 8), *code);
    }
}

#[test]
fn totp_is_hotp_of_the_step() {
    assert_eq!(totp_at(RFC_SECRET, 95, 30, 6), hotp(RFC_SECRET, 3, 6));
}

#[test]
fn code_stays_within_a_step() {
    assert_eq!(totp_at(RFC_SECRET, 60, 30, 6), totp_at(RFC_SECRET, 89, 30, 6));
    assert_ne!(totp_at(RFC_SECRET, 89, 30, 6), totp_at(RFC_SECRET, 90, 30, 6));
}

#[test]
fn current_code_is_accepted() {
    let code = totp_at(RFC_SECRET, 1234567890, 30, 6);
    assert!(verify_totp_at(RFC_SECRET, code, 1234567890, 30, 6, 0));
    assert!(verify_totp_at(RFC_SECRET, code, 1234567890, 30, 6, 1));
}

#[test]
fn neighbouring_step_needs_a_window() {
    let previous = totp_at(RFC_SECRET, 1234567890 - 30, 30, 6);
    assert!(!verify_totp_at(RFC_SECRET, previous, 1234567890, 30, 6, 0));
    assert!(verify_totp_at(RFC_SECRET, previous, 1234567890, 30, 6, 1));
    let next = totp_at(RFC_SECRET, 1234567890 + 30, 30, 6);
    assert!(verify_totp_at(RFC_SECRET, next, 1234567890, 30, 6, 1));
    let two_back = totp_at(RFC_SECRET, 1234567890 - 60, 30, 6);
    assert!(!verify_totp_at(RFC_SECRET, two_back, 1234567890, 30, 6, 1));
    assert!(verify_totp_at(RFC_SECRET, two_back, 1234567890, 30, 6, 2));
}

#[test]
fn negative_window_accepts_nothing() {
    let code = totp_at(RFC_SECRET, 1234567890, 30, 6);
    assert!(!verify_totp_at(RFC_SECRET, code, 1234567890, 30, 6, -1));
}

#[test]
fn window_below_zero_counter_wraps() {
    // At step 0 the step before is counter 2^64 - 1.
    let wrapped = hotp(RFC_SECRET, u64::MAX, 6);
    assert!(verify_totp_at(RFC_SECRET, wrapped, 10, 30, 6, 1));
}

#[test]
fn window_wraps_around_the_counter_range() {
    let top = i64::MAX as u64;
    let code = hotp(RFC_SECRET, top, 6);
    assert!(verify_totp_at(RFC_SECRET, code, top, 1, 6, 0));
    assert!(verify_totp_at(RFC_SECRET, code, top, 1, 6, 1));
    let after_top = hotp(RFC_SECRET, top + 1, 6);
    assert!(verify_totp_at(RFC_SECRET, after_top, top, 1, 6, 1));
    let zero = hotp(RFC_SECRET, 0, 6);
    assert!(verify_totp_at(RFC_SECRET, zero, u64::MAX, 1, 6, 1));
    assert!(!verify_totp_at(RFC_SECRET, zero, u64::MAX, 1, 6, 0));
}

#[test]
fn negative_window_needs_no_digit_bound() {
    assert!(!verify_totp_at(RFC_SECRET, 0, 59, 30, 12, -3));
    assert_eq!(verify_totp_from_reading(RFC_SECRET, 0, Some(59), 30, 12, -3), Some(false));
}

#[test]
fn seconds_until_next_code_examples() {
    assert_eq!(seconds_until_next_code(59, 30), 1);
    assert_eq!(seconds_until_next_code(60, 30), 30);
    assert_eq!(seconds_until_next_code(61, 30), 29);
}

#[test]
fn clock_based_functions_agree_with_the_clock() {
    let now = current_unix_time().expect("clock after the epoch");
    assert!(now > 1_600_000_000);
    let code = totp(RFC_SECRET, 30, 6).expect("clock after the epoch");
    assert!(code < 1_000_000);
    assert_eq!(verify_totp(RFC_SECRET, code, 30, 6, 1), Some(true));
}

#[test]
fn readings_of_the_clock() {
    assert_eq!(totp_from_reading(RFC_SECRET, Some(59), 30, 8), Some(94287082));
    assert_eq!(totp_from_reading(RFC_SECRET, None, 30, 8), None);
    assert_eq!(verify_totp_from_reading(RFC_SECRET, 94287082, Some(59), 30, 8, 1), Some(true));
    assert_eq!(verify_totp_from_reading(RFC_SECRET, 94287083, Some(59), 30, 8, 1), Some(false));
    assert_eq!(verify_totp_from_reading(RFC_SECRET, 94287082, None, 30, 8, 1), None);
    let top = i64::MAX as u64;
    let code = hotp(RFC_SECRET, top, 8);
    assert_eq!(verify_totp_from_reading(RFC_SECRET, code, Some(top), 1, 8, 1), Some(true));
}
