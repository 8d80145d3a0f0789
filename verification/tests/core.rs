use imessage_rs::config::{AppConfig, AppPaths};
use imessage_rs::dates::{apple_to_unix_ms, unix_ms_to_apple, APPLE_EPOCH_MS, MULTIPLIER};
use imessage_rs::macos::{parse_version, require_min_sequoia, MacOsVersion};
use imessage_rs::utils::{escape_osa_exp, expand_tilde, expand_tilde_in, is_not_empty};

#[test]
fn default_config_values() {
    let cfg = AppConfig::default();
    assert_eq!(cfg.socket_port, 1234);
    assert!(!cfg.enable_private_api);
}

#[test]
fn user_data_path_contains_imessage_rs() {
    let path = AppPaths::user_data();
    assert!(path.contains("imessage-rs"));
}

#[test]
fn apple_epoch_is_correct() {
    assert_eq!(APPLE_EPOCH_MS, 978_307_200_000);
}

#[test]
fn zero_returns_none() {
    assert_eq!(apple_to_unix_ms(0), None);
}

#[test]
fn negative_returns_none() {
    assert_eq!(apple_to_unix_ms(-1), None);
}

#[test]
fn one_second_after_apple_epoch() {
    let raw = 1000 * MULTIPLIER;
    let result = apple_to_unix_ms(raw).unwrap();
    assert_eq!(result, APPLE_EPOCH_MS + 1000);
}

#[test]
fn ten_seconds_after_apple_epoch() {
    let raw = 10_000 * MULTIPLIER;
    let result = apple_to_unix_ms(raw).unwrap();
    assert_eq!(result, APPLE_EPOCH_MS + 10_000);
}

#[test]
fn roundtrip() {
    let now_ms: i64 = 1_700_000_000_000;
    let apple = unix_ms_to_apple(now_ms);
    let back = apple_to_unix_ms(apple).unwrap();
    assert_eq!(back, now_ms);
}

#[test]
fn real_message_date() {
    let unix_ms: i64 = 1_771_445_533_049;
    let raw = unix_ms_to_apple(unix_ms);
    assert!(raw > 0);
    let back = apple_to_unix_ms(raw).unwrap();
    assert_eq!(back, unix_ms);
}

#[test]
fn multiplier_value() {
    assert_eq!(MULTIPLIER, 1_000_000);
}

#[test]
fn sub_millisecond_truncates() {
    let raw: i64 = 793_138_336_556_999_936;
    let result = apple_to_unix_ms(raw).unwrap();
    assert_eq!(result, APPLE_EPOCH_MS + 793_138_336_556);
}

#[test]
fn real_db_values_match_node() {
    let cases: Vec<(i64, i64)> = vec![
        (793_138_336_352_743_000, 1_771_445_536_352),
        (793_138_336_557_000_000, 1_771_445_536_557),
        (793_138_338_791_721_000, 1_771_445_538_791),
        (793_138_267_580_708_000, 1_771_445_467_580),
        (793_138_269_954_512_000, 1_771_445_469_954),
    ];
    for (raw, expected) in cases {
        let result = apple_to_unix_ms(raw).unwrap();
        assert_eq!(result, expected, "raw={raw}");
    }
}

#[test]
fn parse_three_part() {
    let v = parse_version("26.3.0").unwrap();
    assert_eq!(v.major, 26);
    assert_eq!(v.minor, 3);
    assert_eq!(v.patch, 0);
}

#[test]
fn parse_two_part() {
    let v = parse_version("15.0").unwrap();
    assert_eq!(v.major, 15);
    assert_eq!(v.minor, 0);
    assert_eq!(v.patch, 0);
}

#[test]
fn tahoe_version_flags() {
    let v = MacOsVersion::new(26, 3, 0);
    assert!(v.is_min_tahoe());
    assert!(v.is_at_least(15, 0));
}

#[test]
fn sequoia_version_flags() {
    let v = MacOsVersion::new(15, 0, 0);
    assert!(!v.is_min_tahoe());
    assert!(v.is_at_least(15, 0));
}

#[test]
fn require_min_sequoia_passes() {
    assert!(require_min_sequoia(MacOsVersion::new(15, 0, 0)).is_ok());
}

#[test]
fn display_format() {
    let v = MacOsVersion::new(26, 3, 0);
    assert_eq!(v.to_version_string(), "26.3.0");
}

#[test]
fn escape_applescript() {
    assert_eq!(escape_osa_exp(r#"say "hello""#), r#"say \"hello\""#);
    assert_eq!(escape_osa_exp(r"path\to"), r"path\\to");
}

#[test]
fn expand_tilde_replaces_home() {
    let result = expand_tilde("~/Documents/test.txt");
    assert!(!result.starts_with('~'));
    assert!(result.ends_with("Documents/test.txt"));
}

#[test]
fn expand_tilde_no_change_for_absolute() {
    let result = expand_tilde("/usr/local/bin");
    assert_eq!(result, "/usr/local/bin");
}

#[test]
fn expand_tilde_bare() {
    let result = expand_tilde("~");
    assert!(!result.contains('~'));
    assert!(!result.is_empty());
}

// --- further cases -------------------------------------------------------------

#[test]
fn expand_tilde_exact_forms() {
    let home = Some("/Users/me".to_string());
    assert_eq!(expand_tilde_in("~/a/b", &home), "/Users/me/a/b");
    assert_eq!(expand_tilde_in("~//a", &home), "/Users/me/a");
    assert_eq!(expand_tilde_in("~", &home), "/Users/me/");
    assert_eq!(expand_tilde_in("~x", &Some("/h/".to_string())), "/h/x");
    assert_eq!(expand_tilde_in("~/a", &None), "a");
    assert_eq!(expand_tilde_in("a/~", &home), "a/~");
}

#[test]
fn require_min_sequoia_rejects_older() {
    let r = require_min_sequoia(MacOsVersion::new(14, 6, 1));
    assert_eq!(
        r,
        Err("imessage-rs requires macOS Sequoia (15.0) or newer, but detected macOS 14.6.1"
            .to_string())
    );
}

#[test]
fn version_comparisons() {
    let v = MacOsVersion::new(15, 2, 0);
    assert!(v.is_at_least(15, 2));
    assert!(!v.is_at_least(15, 3));
    assert!(v.is_at_least(14, 9));
    assert!(!v.is_at_least(16, 0));
}

#[test]
fn parse_version_edge_cases() {
    assert_eq!(parse_version(""), None);
    assert_eq!(parse_version("abc"), None);
    assert_eq!(parse_version("26"), Some(MacOsVersion::new(26, 0, 0)));
    assert_eq!(parse_version("26.x.1"), Some(MacOsVersion::new(26, 0, 1)));
}

#[test]
fn is_not_empty_cases() {
    assert!(!is_not_empty(""));
    assert!(!is_not_empty("  \t\n"));
    assert!(is_not_empty(" a "));
}

#[test]
fn date_conversion_exact_value() {
    assert_eq!(unix_ms_to_apple(APPLE_EPOCH_MS + 1), MULTIPLIER);
    assert_eq!(apple_to_unix_ms(1), Some(APPLE_EPOCH_MS));
}
