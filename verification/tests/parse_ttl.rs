use opaq::parse_ttl;

#[test]
fn parses_seconds_suffix() {
    assert_eq!(parse_ttl("30s").unwrap(), 30);
}

#[test]
fn parses_minutes_suffix() {
    assert_eq!(parse_ttl("5m").unwrap(), 300);
}

#[test]
fn parses_hours_suffix() {
    assert_eq!(parse_ttl("2h").unwrap(), 7200);
}

#[test]
fn parses_days_suffix() {
    assert_eq!(parse_ttl("30d").unwrap(), 2_592_000);
}

#[test]
fn parses_bare_number_as_seconds() {
    assert_eq!(parse_ttl("60").unwrap(), 60);
}

#[test]
fn rejects_zero() {
    assert!(parse_ttl("0d").is_err());
}

#[test]
fn rejects_unknown_suffix() {
    assert!(parse_ttl("3w").is_err());
}

#[test]
fn rejects_garbage() {
    assert!(parse_ttl("abc").is_err());
    assert!(parse_ttl("").is_err());
}

#[test]
fn ttl_error_messages() {
    assert_eq!(parse_ttl("   ").unwrap_err(), "ttl must not be empty");
    assert_eq!(
        parse_ttl("3w").unwrap_err(),
        "invalid ttl '3w': use a suffix like 30d, 12h, 60m, or 3600s"
    );
    assert_eq!(parse_ttl("xs").unwrap_err(), "invalid ttl number in 'xs'");
    assert_eq!(parse_ttl("0").unwrap_err(), "ttl must be greater than 0");
    assert_eq!(
        parse_ttl("18446744073709551615d").unwrap_err(),
        "ttl '18446744073709551615d' overflows u64 seconds"
    );
    assert_eq!(
        parse_ttl("18446744073709551616").unwrap_err(),
        "invalid ttl number in '18446744073709551616'"
    );
}

#[test]
fn ttl_trims_whitespace_and_accepts_plus_sign() {
    assert_eq!(parse_ttl("  12h\t").unwrap(), 43_200);
    assert_eq!(parse_ttl("+5m").unwrap(), 300);
    assert!(parse_ttl("-5m").is_err());
    assert!(parse_ttl("m").is_err());
    assert_eq!(parse_ttl("\u{3000}7d\u{a0}").unwrap(), 604_800);
    assert_eq!(parse_ttl("18446744073709551615").unwrap(), u64::MAX);
}

#[test]
fn ttl_non_ascii_suffix_is_refused() {
    assert_eq!(
        parse_ttl("5\u{e9}").unwrap_err(),
        "invalid ttl '5\u{e9}': use a suffix like 30d, 12h, 60m, or 3600s"
    );
}

#[test]
fn formats_unix_seconds() {
    assert_eq!(opaq::format_unix_secs("1700000000"), "@1700000000");
    assert_eq!(opaq::format_unix_secs("+5"), "@+5");
    assert_eq!(opaq::format_unix_secs("2024-01-01"), "2024-01-01");
    assert_eq!(opaq::format_unix_secs(""), "");
}
