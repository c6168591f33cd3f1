use rcli::cli::jwt::parse_expire_time;
use rcli::error::TextError;

#[test]
fn test_parse_expire_time() {
    parse_expire_time("30s", 1_700_000_000).unwrap();
}

#[test]
fn a_duration_is_a_number_and_a_unit() {
    assert_eq!(parse_expire_time("30s", 1000), Ok(1030));
    assert_eq!(parse_expire_time("20m", 1000), Ok(1000 + 20 * 60));
    assert_eq!(parse_expire_time("2h", 1000), Ok(1000 + 2 * 3600));
    assert_eq!(parse_expire_time("10d", 1000), Ok(1000 + 10 * 86400));
    assert_eq!(parse_expire_time("0s", 7), Ok(7));
    assert_eq!(parse_expire_time("007m", 0), Ok(420));
    assert_eq!(parse_expire_time("5m", 1_700_000_000), Ok(1_700_000_300));
}

#[test]
fn a_time_before_the_epoch_counts_too() {
    assert_eq!(parse_expire_time("30s", -10), Ok(20));
    assert_eq!(parse_expire_time("10s", -10), Ok(0));
    assert_eq!(
        parse_expire_time("9s", -10),
        Err(TextError::InvalidDuration)
    );
}

#[test]
fn what_is_no_duration_is_refused() {
    for text in [
        "", "s", "m", "30", "30x", "30S", "30 s", " 30s", "30s ", "-30s", "+30s", "3.5h", "1d2h",
        "30ss", "s30", "\u{663}s", "30\u{e9}",
    ] {
        assert_eq!(
            parse_expire_time(text, 0),
            Err(TextError::InvalidDuration),
            "{:?}",
            text
        );
    }
    assert_eq!(
        TextError::InvalidDuration.message(),
        "Input duration invalid. valid example: 10d/2h/20m/60s"
    );
}

#[test]
fn a_duration_out_of_range_is_refused() {
    assert_eq!(
        parse_expire_time("9223372036854775807s", 0),
        Ok(9223372036854775807)
    );
    assert_eq!(
        parse_expire_time("9223372036854775807s", 1),
        Err(TextError::InvalidDuration)
    );
    assert_eq!(
        parse_expire_time("9223372036854775808s", -1),
        Err(TextError::InvalidDuration)
    );
    assert_eq!(
        parse_expire_time("99999999999999999999999999s", 0),
        Err(TextError::InvalidDuration)
    );
    assert_eq!(
        parse_expire_time("153722867280912931m", 0),
        Err(TextError::InvalidDuration)
    );
    assert_eq!(
        parse_expire_time("153722867280912930m", 0),
        Ok(9223372036854775800)
    );
    assert_eq!(
        parse_expire_time("106751991167301d", 0),
        Err(TextError::InvalidDuration)
    );
}
