use ai_vid_editor::display::{format_duration, format_file_size, truncate_path};

#[test]
fn test_truncate_path_short() {
    let path = "/foo/bar.txt";
    assert_eq!(truncate_path(path, 50), path);
    assert_eq!(truncate_path(path, 100), path);
}

#[test]
fn test_truncate_path_exact_length() {
    let path = "/foo/bar.txt";
    assert_eq!(truncate_path(path, path.len()), path);
}

#[test]
fn test_truncate_path_long() {
    let path =
        "/very/long/path/that/needs/truncating/especially/when/it/is/really/very/long/file.txt";
    let result = truncate_path(path, 20);
    assert!(result.len() <= 20);
    assert!(result.contains("..."));
}

#[test]
fn test_truncate_path_very_short() {
    let path = "/foo/bar.txt";
    let result = truncate_path(path, 3);
    assert!(result.len() <= 3);
}

#[test]
fn test_truncate_path_empty() {
    assert_eq!(truncate_path("", 10), "");
    assert_eq!(truncate_path("", 0), "");
}

#[test]
fn test_format_file_size_bytes() {
    assert_eq!(format_file_size(0), "0 B");
    assert_eq!(format_file_size(100), "100 B");
    assert_eq!(format_file_size(1023), "1023 B");
}

#[test]
fn test_format_file_size_kb() {
    assert_eq!(format_file_size(1024), "1 KB");
    assert_eq!(format_file_size(1500), "1 KB");
    assert_eq!(format_file_size(1024 * 100), "100 KB");
}

#[test]
fn test_format_file_size_mb() {
    assert_eq!(format_file_size(1024 * 1024), "1 MB");
    assert_eq!(format_file_size(1024 * 1024 * 50), "50 MB");
    assert_eq!(format_file_size(1024 * 1024 * 100), "100 MB");
}

#[test]
fn test_format_file_size_gb() {
    assert_eq!(format_file_size(1024 * 1024 * 1024), "1.0 GB");
    assert_eq!(format_file_size(1024 * 1024 * 1024 * 2), "2.0 GB");
    assert_eq!(format_file_size(1024 * 1024 * 1024 * 1500), "1500.0 GB");
}

#[test]
fn test_format_duration_seconds() {
    assert_eq!(format_duration(0), "0s");
    assert_eq!(format_duration(30), "30s");
    assert_eq!(format_duration(59), "59s");
}

#[test]
fn test_format_duration_minutes() {
    assert_eq!(format_duration(60), "1m 0s");
    assert_eq!(format_duration(90), "1m 30s");
    assert_eq!(format_duration(125), "2m 5s");
}

#[test]
fn test_format_duration_large() {
    assert_eq!(format_duration(3600), "60m 0s");
    assert_eq!(format_duration(3661), "61m 1s");
}

// ── Further cases ───────────────────────────────────────────────────────

#[test]
fn truncate_keeps_both_ends() {
    let path = "/abcdefghij/klmnopqrst/uvwxyz.txt";
    // max_len 12: 4 bytes, "...", 4 bytes
    assert_eq!(truncate_path(path, 12), "/abc....txt");
    assert_eq!(truncate_path("abcdefgh", 7), "a...h");
}

#[test]
fn truncate_short_limits_take_characters() {
    assert_eq!(truncate_path("abcdefgh", 6), "abcdef");
    assert_eq!(truncate_path("abcdefgh", 0), "");
    // characters, not bytes, in this branch
    assert_eq!(truncate_path("ééééé", 3), "ééé");
}

#[test]
fn file_size_rounds_half_to_even() {
    // 1.5 KB and 2.5 KB
    assert_eq!(format_file_size(1536), "2 KB");
    assert_eq!(format_file_size(2560), "2 KB");
    assert_eq!(format_file_size(1024 * 1024 - 1), "1024 KB");
}

/// The text for sizes of 1 GiB and more agrees with printing the size as a
/// `f64` with one decimal.
#[test]
fn file_size_matches_float_formatting() {
    const KB: u64 = 1024;
    const MB: u64 = KB * 1024;
    const GB: u64 = MB * 1024;
    let reference = |bytes: u64| -> String {
        if bytes >= GB {
            format!("{:.1} GB", bytes as f64 / GB as f64)
        } else if bytes >= MB {
            format!("{:.0} MB", bytes as f64 / MB as f64)
        } else if bytes >= KB {
            format!("{:.0} KB", bytes as f64 / KB as f64)
        } else {
            format!("{} B", bytes)
        }
    };
    let mut samples: Vec<u64> = vec![
        0,
        1,
        1023,
        1024,
        1535,
        1536,
        1537,
        2560,
        MB - 1,
        MB,
        MB + MB / 2,
        GB - 1,
        GB,
        GB + GB / 20,
        GB + GB / 20 * 3,
        GB * 1500,
        u64::MAX,
        u64::MAX - 1,
        (1u64 << 53) + 1,
        (1u64 << 60) + 12345,
    ];
    let mut x: u64 = 0x9E37_79B9_7F4A_7C15;
    for _ in 0..2000 {
        x ^= x << 13;
        x ^= x >> 7;
        x ^= x << 17;
        samples.push(x >> (x % 40));
    }
    for b in samples {
        assert_eq!(format_file_size(b), reference(b), "bytes = {}", b);
    }
}
