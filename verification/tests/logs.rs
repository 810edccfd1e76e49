use reverse_tunnel::common::logging::{noted_len, preview, LogLevel};
use reverse_tunnel::common::{log_data_sample, log_transfer_summary};
use reverse_tunnel::text::{contains_text, lowered, same_text};

fn expected_size(bytes: u64) -> String {
    if bytes < 1024 {
        format!("{} B", bytes)
    } else if bytes < 1024 * 1024 {
        format!("{:.2} KB", bytes as f64 / 1024.0)
    } else if bytes < 1024 * 1024 * 1024 {
        format!("{:.2} MB", bytes as f64 / (1024.0 * 1024.0))
    } else {
        format!("{:.2} GB", bytes as f64 / (1024.0 * 1024.0 * 1024.0))
    }
}

#[test]
fn summaries_show_sizes() {
    assert_eq!(
        log_transfer_summary("7", "a -> b", 1536),
        "Session 7: a -> b transferred 1.50 KB"
    );
    assert_eq!(log_transfer_summary("7", "d", 0), "Session 7: d transferred 0 B");
    assert_eq!(log_transfer_summary("7", "d", 1023), "Session 7: d transferred 1023 B");
    assert_eq!(log_transfer_summary("7", "d", 1048575), "Session 7: d transferred 1024.00 KB");
    assert_eq!(log_transfer_summary("7", "d", 3 << 20), "Session 7: d transferred 3.00 MB");
}

#[test]
fn sizes_are_rounded_as_numbers_are_printed() {
    let mut cases: Vec<u64> = vec![
        0, 1, 1023, 1024, 1025, 1029, 1034, 1075, 1152, 1280, 1300, 1664, 1048575, 1048576,
        1048577, 1053818, 1310720, 1179648, 1073741823, 1073741824, 1073741825, 1079110533,
        (1 << 53) - 1, 1 << 53, (1 << 53) + 1, (1 << 53) + 3, (1 << 60) + 12345,
        u64::MAX - 1024, u64::MAX - 1025, u64::MAX,
    ];
    let mut x: u64 = 88172645463325252;
    for i in 0..3000u32 {
        x ^= x << 13;
        x ^= x >> 7;
        x ^= x << 17;
        cases.push(x >> (i % 64));
    }
    // Sizes that lie exactly between two hundredths.
    for i in 0..500u64 {
        cases.push(1024 + 128 * i);
        cases.push((1 << 20) + (1 << 17) * i);
        cases.push((1 << 30) + (1 << 27) * i);
    }
    for bytes in cases {
        let expected = format!("Session s: d transferred {}", expected_size(bytes));
        assert_eq!(log_transfer_summary("s", "d", bytes), expected, "{}", bytes);
    }
}

#[test]
fn verbose_samples_show_bytes_twice() {
    let records = log_data_sample("a -> b", b"Hi\n\xff", 4, "verbose");
    assert_eq!(records.len(), 2);
    assert_eq!(records[0].level, LogLevel::Info);
    assert_eq!(records[0].text, "a -> b data[4]: Hex: 48 69 0a ff");
    assert_eq!(records[1].text, "a -> b data[4]: ASCII: Hi..");
    let long = vec![b'x'; 300];
    let records = log_data_sample("d", &long, 300, "verbose");
    assert_eq!(records[1].text, format!("d data[300]: ASCII: {}", "x".repeat(200)));
    let records = log_data_sample("d", b"", 0, "verbose");
    assert_eq!(records[0].text, "d data[0]: Hex: ");
}

#[test]
fn noted_bytes_follow_the_level() {
    assert_eq!(noted_len("verbose", 0), Some(0));
    assert_eq!(noted_len("verbose", 99), Some(99));
    assert_eq!(noted_len("verbose", 100), Some(100));
    assert_eq!(noted_len("verbose", 5000), Some(100));
    assert_eq!(noted_len("minimal", 5000), Some(0));
    assert_eq!(noted_len("off", 5000), None);
    assert_eq!(noted_len("VERBOSE", 5000), None);
}

#[test]
fn minimal_samples_list_bytes() {
    let records = log_data_sample("d", b"abc", 3, "minimal");
    assert_eq!(records.len(), 1);
    assert_eq!(records[0].level, LogLevel::Debug);
    assert_eq!(records[0].text, format!("d data preview[3]: {:?}", b"abc"));
    assert_eq!(log_data_sample("d", b"", 0, "minimal").len(), 0);
    let long = vec![7u8; 60];
    let records = log_data_sample("d", &long, 60, "minimal");
    assert_eq!(records[0].text, format!("d data preview[60]: {:?}", &long[..50]));
}

#[test]
fn other_samples_tell_large_sizes() {
    assert_eq!(log_data_sample("d", b"", 10000, "off").len(), 0);
    let records = log_data_sample("d", b"", 10001, "off");
    assert_eq!(records[0].level, LogLevel::Debug);
    assert_eq!(records[0].text, "d data size: 10001 bytes");
}

#[test]
fn previews_show_the_first_line() {
    assert_eq!(preview(b"GET / HTTP/1.1\r\nHost: a\r\n"), "GET / HTTP/1.1...");
    assert_eq!(preview(b"short"), "short");
    assert_eq!(preview(b""), "");
    let long = "é".repeat(120);
    assert_eq!(preview(long.as_bytes()), format!("{}...", "é".repeat(100)));
    assert_eq!(preview(b"\xff\x00\x10"), "ff 00 10...");
    let bytes = vec![0xffu8; 60];
    assert_eq!(preview(&bytes), format!("{}...", vec!["ff"; 50].join(" ")));
}

#[test]
fn texts_are_searched_and_lowered() {
    assert!(contains_text("keep-alive, close", "close"));
    assert!(!contains_text("clos", "close"));
    assert!(contains_text("", ""));
    assert!(same_text("a", "a"));
    assert!(!same_text("a", "A"));
    assert_eq!(lowered("ÀB İ ΑΣ"), "ÀB İ ΑΣ".to_lowercase());
}
