use std::time::Duration;
use system_monitor::fmt::{
    format_bytes_to_gb, format_duration, format_duration_secs, format_header_uptime,
    format_status_uptime, u64_to_decimal,
};

fn float_label(bytes: u64) -> String {
    let gb = bytes as f64 / 1_000_000_000.0;
    if gb >= 1000.0 {
        format!("{:.2} TB", gb / 1024.0)
    } else {
        format!("{:.1} GB", gb)
    }
}

#[test]
fn bytes_label_examples() {
    assert_eq!(format_bytes_to_gb(0), "0.0 GB");
    assert_eq!(format_bytes_to_gb(1_500_000_000), "1.5 GB");
    assert_eq!(format_bytes_to_gb(512_000_000_000), "512.0 GB");
    assert_eq!(format_bytes_to_gb(999_999_999_999), "1000.0 GB");
    assert_eq!(format_bytes_to_gb(1_000_000_000_000), "0.98 TB");
    assert_eq!(format_bytes_to_gb(2_048_000_000_000), "2.00 TB");
    assert_eq!(format_bytes_to_gb(u64::MAX), float_label(u64::MAX));
}

#[test]
fn bytes_label_ties_follow_the_float_computation() {
    // Exact decimal ties: the f64 quotient and the round-half-even formatting decide.
    for q in 0..20_000u64 {
        let bytes = q * 100_000_000 + 50_000_000;
        assert_eq!(format_bytes_to_gb(bytes), float_label(bytes), "bytes = {}", bytes);
    }
    for k in 0..5_000u64 {
        let bytes = (2 * k + 1) * 5_120_000_000;
        assert_eq!(format_bytes_to_gb(bytes), float_label(bytes), "bytes = {}", bytes);
    }
}

#[test]
fn bytes_label_matches_float_over_a_wide_range() {
    let mut x: u64 = 0x9E37_79B9_7F4A_7C15;
    for _ in 0..200_000 {
        x ^= x << 13;
        x ^= x >> 7;
        x ^= x << 17;
        let shift = (x % 64) as u32;
        let bytes = x >> shift;
        assert_eq!(format_bytes_to_gb(bytes), float_label(bytes), "bytes = {}", bytes);
    }
    for e in 0..64u32 {
        for d in [0u64, 1, 2, 3] {
            let base = 1u64 << e;
            for bytes in [base.wrapping_sub(d), base.wrapping_add(d)] {
                assert_eq!(format_bytes_to_gb(bytes), float_label(bytes), "bytes = {}", bytes);
            }
        }
    }
}

#[test]
fn decimal_rendering() {
    assert_eq!(u64_to_decimal(0), "0");
    assert_eq!(u64_to_decimal(7), "7");
    assert_eq!(u64_to_decimal(1234567890), "1234567890");
    assert_eq!(u64_to_decimal(u64::MAX), u64::MAX.to_string());
}

#[test]
fn duration_labels() {
    assert_eq!(format_duration(Duration::from_secs(59)), "0m");
    assert_eq!(format_duration(Duration::from_secs(125)), "2m");
    assert_eq!(format_duration(Duration::from_secs(3600)), "1h 0m");
    assert_eq!(format_duration(Duration::from_secs(7 * 3600 + 59 * 60 + 59)), "7h 59m");
    assert_eq!(format_duration_secs(3599), "59m");
}

#[test]
fn uptime_labels() {
    assert_eq!(format_status_uptime(0), "0s");
    assert_eq!(format_status_uptime(59), "59s");
    assert_eq!(format_status_uptime(61), "1m 1s");
    assert_eq!(format_status_uptime(3661), "1h 1m");
    assert_eq!(format_header_uptime(5), "5s uptime");
    assert_eq!(format_header_uptime(3599), "59m uptime");
    assert_eq!(format_header_uptime(7200), "2h 0m uptime");
}
