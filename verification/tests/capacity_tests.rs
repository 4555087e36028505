use battery_health_keeper::capacity::{battery_health_percent, format_micro_capacity};
use battery_health_keeper::text::{decimal_text, parse_number, trim};

#[test]
fn test_capacity_health_and_format() {
    assert_eq!(battery_health_percent(57_150_000, 90_060_000), Some(63));
    assert_eq!(battery_health_percent(90_060_000, 90_060_000), Some(100));
    assert_eq!(battery_health_percent(1, 0), None);
    assert_eq!(format_micro_capacity(57_150_000, "Wh"), "57.1 Wh");
    assert_eq!(format_micro_capacity(90_060_000, "Wh"), "90.1 Wh");
}

#[test]
fn health_is_capped() {
    assert_eq!(battery_health_percent(95, 90), Some(100));
    assert_eq!(battery_health_percent(0, 90), Some(0));
    assert_eq!(battery_health_percent(u64::MAX / 100, 1), Some(100));
    assert_eq!(battery_health_percent(u64::MAX, 0), None);
}

#[test]
fn capacity_is_formatted_as_a_double() {
    let mut samples: Vec<u64> = vec![
        0, 1, 49_999, 50_000, 50_001, 150_000, 250_000, 350_000, 450_000, 750_000, 850_000,
        950_000, 999_999, 1_000_000, 4_050_000, 57_150_000, 90_060_000, 123_456_789,
        9_007_199_254_740_991, 9_007_199_254_740_992, 9_007_199_254_740_993,
        9_007_199_254_740_995, 18_014_398_509_481_985, 18_014_398_509_481_987,
        18_014_398_509_481_989, 1 << 63, (1 << 63) + 1024, (1 << 63) + 1025, u64::MAX - 1025,
        u64::MAX - 1024, u64::MAX - 1023, u64::MAX,
    ];
    let mut n: u64 = 50_000;
    while n < 200_000_000 {
        samples.push(n);
        n += 100_000;
    }
    let mut x: u64 = 88_172_645_463_325_252;
    for _ in 0..2_000 {
        x ^= x << 13;
        x ^= x >> 7;
        x ^= x << 17;
        samples.push(x);
        samples.push(x >> 20);
        samples.push(x >> 40);
    }
    for micro in samples {
        assert_eq!(
            format_micro_capacity(micro, "Ah"),
            format!("{:.1} Ah", micro as f64 / 1_000_000.0),
            "{micro}"
        );
    }
}

#[test]
fn numbers_are_read_as_the_standard_library_reads_them() {
    for s in [
        "", "+", "-", "0", "+0", "-0", "00", "007", "255", "256", "+255", "++1", "1 ", " 1", "1+",
        "12a", "٣", "4294967295", "18446744073709551615", "18446744073709551616",
        "000000000000000000000000000255", "99999999999999999999999999",
    ] {
        assert_eq!(parse_number(s, 255), s.parse::<u8>().ok().map(u64::from), "{s}");
        assert_eq!(
            parse_number(s, 4_294_967_295),
            s.parse::<u32>().ok().map(u64::from),
            "{s}"
        );
        assert_eq!(parse_number(s, u64::MAX), s.parse::<u64>().ok(), "{s}");
    }
}

#[test]
fn text_is_trimmed_as_the_standard_library_trims_it() {
    for u in 0..0x11_0000_u32 {
        if let Some(c) = char::from_u32(u) {
            if c.is_whitespace() || u < 0x3100 {
                let s = format!("{c} x{c}y {c}\n");
                assert_eq!(trim(&s), s.trim(), "{u:x}");
            }
        }
    }
    assert_eq!(trim(" \t\n"), "");
    assert_eq!(trim(""), "");
}

#[test]
fn decimal_numbers_are_written_and_read_back() {
    for n in [0, 7, 10, 99, 100, 1_234_567_890, u64::MAX] {
        let s = decimal_text(n);
        assert_eq!(s, n.to_string());
        let padded = format!("\n {s}\n");
        assert_eq!(parse_number(trim(&padded), u64::MAX), Some(n));
    }
}
