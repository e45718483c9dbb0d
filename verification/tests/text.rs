//! The text helpers, held against the standard library.

use headset_battery_indicator::text;
use headset_battery_indicator::time::{Duration, Instant};

#[test]
fn characters_are_classed_as_the_standard_library_does() {
    for code in 0..=0x10_ffff_u32 {
        if let Some(c) = char::from_u32(code) {
            assert_eq!(text::is_control(c), c.is_control(), "{code:x}");
            assert_eq!(text::is_whitespace(c), c.is_whitespace(), "{code:x}");
        }
    }
}

#[test]
fn trimming_and_cutting_agree_with_the_standard_library() {
    for sample in ["", " ", "a", " a b ", "\u{3000}é\n", "x\t\t"] {
        assert_eq!(text::trim(sample), sample.trim());
    }
    assert_eq!(text::fit("ééé", 5), "éé");
    assert_eq!(text::fit("ééé", 6), "ééé");
    assert_eq!(text::fit("ééé", 1), "");
    assert_eq!(text::fit("€x", 3), "€");
    assert_eq!(text::fit("𝄞x", 3), "");
}

#[test]
fn numbers_are_read_as_the_standard_library_reads_them() {
    for sample in [
        "", "+", "-1", "0", "+7", "00ff", "FFFF", "10000", "g", "1 ", "é", "ffffffff", "100000000",
    ] {
        assert_eq!(
            text::parse_number(sample, 16, 0xffff),
            u16::from_str_radix(sample, 16).ok().map(u32::from),
            "{sample:?}"
        );
        assert_eq!(
            text::parse_number(sample, 16, u32::MAX),
            u32::from_str_radix(sample, 16).ok(),
            "{sample:?}"
        );
        assert_eq!(
            text::parse_number(sample, 10, u32::MAX),
            sample.parse::<u32>().ok(),
            "{sample:?}"
        );
    }
}

#[test]
fn lines_and_pieces_are_those_of_the_standard_library() {
    for sample in ["", "\n", "a", "a\n", "a\nb", "a\r\nb\r\n", "\r", "a\r", "a\n\nb"] {
        assert_eq!(text::lines(sample), sample.lines().collect::<Vec<_>>());
    }
    for sample in ["", ":", "a", "a:b", ":a:", "a::b"] {
        assert_eq!(
            text::split(sample, ':'),
            sample.split(':').collect::<Vec<_>>()
        );
    }
    assert_eq!(text::strip_prefix("HID_ID=1", "HID_ID"), Some("=1"));
    assert_eq!(text::strip_prefix("HID", "HID_ID"), None);
}

#[test]
fn numbers_are_written_as_the_standard_library_writes_them() {
    for value in [0, 1, 9, 10, 99, 100, 255, 65_535, u64::MAX] {
        let mut out = String::new();
        text::push_decimal(&mut out, value);
        assert_eq!(out, format!("{value}"));
    }
    for value in [0, 9, 10, 15, 16, 0x4b18, 0xffff] {
        let mut out = String::new();
        text::push_hex4(&mut out, value);
        assert_eq!(out, format!("{value:04x}"));
    }
}

#[test]
fn order_is_that_of_the_characters() {
    for (left, right) in [("", "a"), ("a", "b"), ("a", "aa"), ("hidraw10", "hidraw2"), ("a", "a")] {
        assert_eq!(text::precedes(left, right), left < right);
        assert_eq!(text::precedes(right, left), right < left);
    }
}

#[test]
fn spans_are_written_for_people() {
    assert_eq!(Duration::from_secs(60).describe(), "60s");
    assert_eq!(Duration::from_millis(1500).describe(), "1.5s");
    assert_eq!(Duration::from_millis(60).describe(), "60ms");
    assert_eq!(Duration::zero().describe(), "0ns");
}

#[test]
fn timeouts_are_split_and_clamped() {
    assert_eq!(Duration::from_millis(1500).timespec(), (1, 500_000_000));
    assert_eq!(Duration::zero().timespec(), (0, 0));
    assert_eq!(Duration::from_secs(u64::MAX).timespec(), (i64::MAX, 0));
    assert_eq!(Duration::longest().timespec().0, i64::MAX);
}

#[test]
fn moments_and_spans_add_up() {
    let start = Instant { nanos: 10 };
    let end = Instant { nanos: 25 };
    assert_eq!(end.duration_since(start), Duration { nanos: 15 });
    assert_eq!(start.duration_since(end), Duration::zero());
    assert_eq!(start.checked_duration_since(end), None);
    assert_eq!(start.checked_add(Duration { nanos: 15 }), Some(end));
    assert_eq!(end.checked_sub(Duration { nanos: 15 }), Some(start));
    assert_eq!(start.checked_sub(Duration { nanos: 15 }), None);
    assert_eq!(end.checked_add(Duration::longest()), None);
}
