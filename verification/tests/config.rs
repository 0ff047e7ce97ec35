use openrouter_api::config::{parse_decimal, Config};

fn some(text: &str) -> Option<String> {
    Some(text.to_string())
}

#[test]
fn decimal_reads_digits_with_or_without_a_plus() {
    assert_eq!(parse_decimal("0", 10), Some(0));
    assert_eq!(parse_decimal("007", 10), Some(7));
    assert_eq!(parse_decimal("+5", 10), Some(5));
    assert_eq!(parse_decimal("10", 10), Some(10));
    assert_eq!(parse_decimal("18446744073709551615", u64::MAX), Some(u64::MAX));
}

#[test]
fn decimal_rejects_what_is_no_number_in_range() {
    for text in ["", "+", "-1", "1.5", " 1", "1 ", "1e3", "0x10", "++1", "1+", "٣"] {
        assert_eq!(parse_decimal(text, 1000), None);
    }
    assert_eq!(parse_decimal("11", 10), None);
    assert_eq!(parse_decimal("65536", 65535), None);
    assert_eq!(parse_decimal("18446744073709551616", u64::MAX), None);
    assert_eq!(parse_decimal("99999999999999999999999", u64::MAX), None);
    assert_eq!(parse_decimal("5", 0), None);
    assert_eq!(parse_decimal("0", 0), Some(0));
}

#[test]
fn decimal_agrees_with_the_standard_library() {
    for text in ["0", "1", "65535", "65536", "+80", "080", "", "+", "-5", "3000 ", "12a", "99999"] {
        assert_eq!(parse_decimal(text, 65535), text.parse::<u16>().ok().map(u64::from));
    }
}

#[test]
fn settings_default_where_nothing_is_given() {
    assert_eq!(
        Config::from_vars(None, None, None, None, None),
        Some(Config {
            host: "0.0.0.0".to_string(),
            port: 3000,
            health_check_key: None,
            health_check_concurrency: 5,
            refresh_interval_secs: 3600,
        })
    );
}

#[test]
fn settings_take_what_is_given() {
    assert_eq!(
        Config::from_vars(some("127.0.0.1"), some("8080"), some("sk-1"), some("12"), some("60")),
        Some(Config {
            host: "127.0.0.1".to_string(),
            port: 8080,
            health_check_key: some("sk-1"),
            health_check_concurrency: 12,
            refresh_interval_secs: 60,
        })
    );
}

#[test]
fn settings_fall_back_but_for_the_port() {
    let c = Config::from_vars(some(""), some("65535"), some(""), some("many"), some("-1")).unwrap();
    assert_eq!(c.host, "");
    assert_eq!(c.port, 65535);
    assert_eq!(c.health_check_key, None);
    assert_eq!(c.health_check_concurrency, 5);
    assert_eq!(c.refresh_interval_secs, 3600);
    assert_eq!(Config::from_vars(None, some("65536"), None, None, None), None);
    assert_eq!(Config::from_vars(None, some("http"), None, None, None), None);
    assert_eq!(Config::from_vars(None, some(""), None, None, None), None);
}
