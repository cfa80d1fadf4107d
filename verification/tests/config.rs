use tg_dl_bot::config::{parse_unsigned_text, Config};

#[test]
fn defaults_when_absent() {
    let c = Config::from_settings(None, None, None);
    assert_eq!(c.max_concurrent_downloads, 4);
    assert_eq!(c.rate_limit_seconds, 10);
    assert_eq!(c.cookies_path, None);
}

#[test]
fn values_are_parsed() {
    let c = Config::from_settings(
        Some("8".to_string()),
        Some("+30".to_string()),
        Some("/data/cookies.txt".to_string()),
    );
    assert_eq!(c.max_concurrent_downloads, 8);
    assert_eq!(c.rate_limit_seconds, 30);
    assert_eq!(c.cookies_path.as_deref(), Some("/data/cookies.txt"));
}

#[test]
fn refused_values_fall_back_to_defaults() {
    let c = Config::from_settings(Some(" 8".to_string()), Some("-1".to_string()), None);
    assert_eq!(c.max_concurrent_downloads, 4);
    assert_eq!(c.rate_limit_seconds, 10);
    let c = Config::from_settings(Some("".to_string()), Some("18446744073709551616".to_string()), None);
    assert_eq!(c.max_concurrent_downloads, 4);
    assert_eq!(c.rate_limit_seconds, 10);
}

#[test]
fn parsing_matches_str_parse() {
    let samples = [
        "", "+", "-", "0", "007", "+5", "-5", "12a", " 1", "1 ", "18446744073709551615",
        "18446744073709551616", "99999999999999999999999", "4294967295", "4294967296", "٣",
    ];
    for s in samples {
        assert_eq!(parse_unsigned_text(s, u64::MAX), s.parse::<u64>().ok(), "u64 {s:?}");
        assert_eq!(parse_unsigned_text(s, u32::MAX as u64), s.parse::<u32>().ok().map(|v| v as u64), "u32 {s:?}");
    }
}
