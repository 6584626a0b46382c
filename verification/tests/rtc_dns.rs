use smart_alarm_clock::firmware::dns::{build_reply, qname};
use smart_alarm_clock::firmware::rtc::{
    bcd_to_dec, clear_osf, days_from_civil, dec_to_bcd, persist_due, rtc_time_frame, rtc_unix,
};

#[test]
fn bcd_round_trip() {
    for v in 0u8..100 {
        assert_eq!(bcd_to_dec(dec_to_bcd(v)), v);
    }
    assert_eq!(dec_to_bcd(59), 0x59);
    assert_eq!(bcd_to_dec(0x23), 23);
    // Tens beyond the high nibble are lost, as with `<<` on a byte.
    assert_eq!(dec_to_bcd(200), 0x40);
}

#[test]
fn civil_days() {
    assert_eq!(days_from_civil(1970, 1, 1), 0);
    assert_eq!(days_from_civil(2000, 1, 1), 10_957);
    assert_eq!(days_from_civil(2000, 3, 1), 11_017);
    assert_eq!(days_from_civil(2024, 2, 29), 19_782);
    assert_eq!(days_from_civil(2024, 3, 1), 19_783);
    assert_eq!(days_from_civil(2100, 2, 28), 47_540);
    assert_eq!(days_from_civil(2100, 3, 1), 47_541);
    assert_eq!(days_from_civil(1969, 12, 31), -1);
}

#[test]
fn civil_month_lengths() {
    let lens = [31i64, 28, 31, 30, 31, 30, 31, 31, 30, 31, 30];
    for (m, len) in lens.iter().enumerate() {
        let m = m as i64 + 1;
        assert_eq!(days_from_civil(2023, m + 1, 1) - days_from_civil(2023, m, 1), *len);
    }
    assert_eq!(days_from_civil(2024, 3, 1) - days_from_civil(2024, 2, 1), 29);
    assert_eq!(days_from_civil(2000, 3, 1) - days_from_civil(2000, 2, 1), 29);
    assert_eq!(days_from_civil(1900, 3, 1) - days_from_civil(1900, 2, 1), 28);
    assert_eq!(days_from_civil(2025, 1, 1) - days_from_civil(2024, 12, 31), 1);
}

#[test]
fn rtc_read_registers() {
    let regs = [0x56, 0x34, 0x12, 0x04, 0x29, 0x02, 0x24];
    assert_eq!(rtc_unix(0x00, regs), Some(1_709_210_096));
    // Oscillator stopped: not trustworthy.
    assert_eq!(rtc_unix(0x80, regs), None);
    // Year 2000: earlier than the plausibility bound.
    assert_eq!(rtc_unix(0x00, [0, 0, 0, 1, 1, 1, 0]), None);
}

#[test]
fn rtc_write_then_read() {
    let frame = rtc_time_frame(56, 34, 12, 29, 1, 124);
    assert_eq!(frame, vec![0x00, 0x56, 0x34, 0x12, 0x01, 0x29, 0x02, 0x24]);
    let mut regs = [0u8; 7];
    regs.copy_from_slice(&frame[1..8]);
    assert_eq!(rtc_unix(clear_osf(0xFF), regs), Some(1_709_210_096));
    assert_eq!(clear_osf(0x88), 0x08);
}

#[test]
fn rtc_persist_schedule() {
    assert!(!persist_due(1_699_999_999, None, 0));
    assert!(persist_due(1_700_000_000, None, 0));
    assert!(!persist_due(1_700_000_000, Some(1_000), 3_600_999));
    assert!(persist_due(1_700_000_000, Some(1_000), 3_601_000));
}

fn query(name: &[&str]) -> Vec<u8> {
    let mut q = vec![0xAB, 0xCD, 0x01, 0x00, 0x00, 0x01, 0x00, 0x00, 0x00, 0x00, 0x00, 0x00];
    for label in name {
        q.push(label.len() as u8);
        q.extend_from_slice(label.as_bytes());
    }
    q.push(0);
    q.extend_from_slice(&[0x00, 0x01, 0x00, 0x01]);
    q
}

#[test]
fn dns_reply_points_at_ap() {
    let q = query(&["example", "com"]);
    let r = build_reply(&q).expect("reply");
    let mut expected = vec![0xAB, 0xCD, 0x81, 0x80, 0x00, 0x01, 0x00, 0x01, 0x00, 0x00, 0x00, 0x00];
    expected.extend_from_slice(&q[12..]);
    expected.extend_from_slice(&[0xC0, 0x0C, 0x00, 0x01, 0x00, 0x01, 0x00, 0x00, 0x00, 0x3C, 0x00, 0x04, 192, 168, 71, 1]);
    assert_eq!(r, expected);
    assert_eq!(qname(&q), "example.com");
    assert_eq!(qname(&r), "example.com");
}

#[test]
fn dns_rejects_malformed() {
    assert_eq!(build_reply(&[0u8; 11]), None);
    let mut q = query(&["a"]);
    q[5] = 0; // no question
    assert_eq!(build_reply(&q), None);
    let q = query(&["captive", "apple", "com"]);
    // Name cut off.
    assert_eq!(build_reply(&q[..20]), None);
    // QTYPE/QCLASS cut off.
    assert_eq!(build_reply(&q[..q.len() - 1]), None);
}

#[test]
fn dns_qname_lossy_and_truncated() {
    let mut q = query(&["ab"]);
    q[13] = 0xFF;
    assert_eq!(qname(&q), "\u{FFFD}b");
    let q = query(&["connectivitycheck", "gstatic", "com"]);
    assert_eq!(qname(&q[..35]), "connectivitycheck");
    assert_eq!(qname(&q[..5]), "");
}
