use chrono::{TimeZone, Utc};
use unfudged::output::{
    format_duration, format_duration_ago, format_number, format_recency, format_short_date,
    format_size, recency_after, shorten_home, shorten_with_home, status_prefix,
};

fn check_format_size_bytes() {
    assert_eq!(format_size(0), "0 B");
    assert_eq!(format_size(512), "512 B");
    assert_eq!(format_size(1023), "1023 B");
}

fn check_format_size_kilobytes() {
    assert_eq!(format_size(1024), "1.0 KB");
    assert_eq!(format_size(2048), "2.0 KB");
}

fn check_format_size_megabytes() {
    assert_eq!(format_size(1024 * 1024), "1.0 MB");
}

fn check_format_size_gigabytes() {
    assert_eq!(format_size(1024 * 1024 * 1024), "1.0 GB");
}

#[test]
fn mod_format_size_bytes() {
    check_format_size_bytes();
}

#[test]
fn output_format_size_bytes() {
    check_format_size_bytes();
}

#[test]
fn mod_format_size_kilobytes() {
    check_format_size_kilobytes();
}

#[test]
fn output_format_size_kilobytes() {
    check_format_size_kilobytes();
}

#[test]
fn mod_format_size_megabytes() {
    check_format_size_megabytes();
}

#[test]
fn output_format_size_megabytes() {
    check_format_size_megabytes();
}

#[test]
fn mod_format_size_gigabytes() {
    check_format_size_gigabytes();
}

#[test]
fn output_format_size_gigabytes() {
    check_format_size_gigabytes();
}

#[test]
fn format_number_small() {
    assert_eq!(format_number(0), "0");
    assert_eq!(format_number(1), "1");
    assert_eq!(format_number(999), "999");
}

#[test]
fn format_number_thousands() {
    assert_eq!(format_number(1000), "1,000");
    assert_eq!(format_number(10000), "10,000");
    assert_eq!(format_number(999999), "999,999");
}

#[test]
fn format_number_millions() {
    assert_eq!(format_number(1000000), "1,000,000");
    assert_eq!(format_number(1234567), "1,234,567");
}

#[test]
fn status_prefix_formatting() {
    for colored in [false, true] {
        let result = status_prefix("Recording", "/path/to/project", colored);
        assert!(result.contains("Recording"));
        assert!(result.contains("/path/to/project"));
    }
}

#[test]
fn shorten_home_with_home_prefix() {
    if let Some(home_dir) = dirs::home_dir() {
        let home_str = home_dir.display().to_string();
        let path = format!("{}/code/unfudged", home_str);
        let result = shorten_home(&path);
        assert_eq!(result, "~/code/unfudged");
    }
}

#[test]
fn shorten_home_exact_home_dir() {
    if let Some(home_dir) = dirs::home_dir() {
        let home_str = home_dir.display().to_string();
        let result = shorten_home(&home_str);
        assert_eq!(result, "~");
    }
}

#[test]
fn shorten_home_without_home_prefix() {
    let path = "/var/log/syslog";
    let result = shorten_home(path);
    assert_eq!(result, path);
}

#[test]
fn format_short_date_basic() {
    let dt = Utc.with_ymd_and_hms(2026, 2, 12, 14, 30, 0).unwrap();
    let result = format_short_date(dt.timestamp_nanos_opt().unwrap());
    assert!(result.contains("12"), "Expected day 12 in result: {}", result);
    assert!(result.contains("Feb") || result.contains("02"), "Expected Feb in result: {}", result);
}

fn ago(seconds: i64) -> i64 {
    (Utc::now() - chrono::Duration::seconds(seconds)).timestamp_nanos_opt().unwrap()
}

#[test]
fn format_recency_less_than_minute() {
    assert_eq!(format_recency(ago(30)), "now");
}

#[test]
fn format_recency_minutes() {
    assert_eq!(format_recency(ago(5 * 60 + 30)), "5m ago");
}

#[test]
fn format_recency_hours() {
    assert_eq!(format_recency(ago(3 * 3600 + 1800)), "3h ago");
}

#[test]
fn format_recency_days() {
    assert_eq!(format_recency(ago(4 * 24 * 3600 + 3600)), "4d ago");
}

#[test]
fn recency_after_exact_values() {
    assert_eq!(recency_after(-5), "now");
    assert_eq!(recency_after(59), "now");
    assert_eq!(recency_after(60), "1m ago");
    assert_eq!(recency_after(7200), "2h ago");
    assert_eq!(recency_after(86400 * 3), "3d ago");
}

#[test]
fn shorten_with_given_home() {
    assert_eq!(shorten_with_home("/home/a/x", Some("/home/a")), "~/x");
    assert_eq!(shorten_with_home("/home/a", Some("/home/a")), "~");
    assert_eq!(shorten_with_home("/home/ab", Some("/home/a")), "/home/ab");
    assert_eq!(shorten_with_home("/home/a/x", None), "/home/a/x");
}

#[test]
fn durations_in_largest_unit() {
    assert_eq!(format_duration(-3), "0 seconds");
    assert_eq!(format_duration(1), "1 seconds");
    assert_eq!(format_duration(60), "1 minute");
    assert_eq!(format_duration(7200), "2 hours");
    assert_eq!(format_duration(86400), "1 day");
    assert_eq!(format_duration_ago(300), "5 minutes ago");
}

#[test]
fn sizes_round_to_one_decimal() {
    assert_eq!(format_size(1536), "1.5 KB");
    assert_eq!(format_size(1126), "1.1 KB");
    assert_eq!(format_size(5000), "4.9 KB");
    assert_eq!(format_size(u64::MAX), format!("{:.1} GB", u64::MAX as f64 / (1024.0 * 1024.0 * 1024.0)));
    for bytes in [1024u64, 1075, 1076, 1126, 1127, 1_048_575, 1_048_576, 5_242_880, 123_456_789, 9_876_543_210] {
        let expected = if bytes < 1024 * 1024 {
            format!("{:.1} KB", bytes as f64 / 1024.0)
        } else if bytes < 1024 * 1024 * 1024 {
            format!("{:.1} MB", bytes as f64 / (1024.0 * 1024.0))
        } else {
            format!("{:.1} GB", bytes as f64 / (1024.0 * 1024.0 * 1024.0))
        };
        assert_eq!(format_size(bytes), expected, "bytes = {}", bytes);
    }
}
